//! The client: connection state machine, subscriptions and outbound frames.
//!
//! The client does no I/O. A driver hands it each frame that the parser
//! yields and each keepalive interval, and sends what it returns: the bytes of
//! the handshake, immediate replies, and the frames of the outbound queue.
//! Within one connection the state only moves forward, from `Disconnected`
//! through `Handshaking`, `Connected` and `Draining` to `Closed`; a reconnect
//! starts a new connection and keeps the subscriptions.
use vstd::prelude::*;
use crate::handshake::{Credentials, ServerInfo, handshake_options, json_string, options_json};
use crate::keepalive::{Keepalive, KeepaliveAction};
use crate::parser::{FrameView, InboundFrame};
use crate::registry::{Registry, RegistryView, Subscription, SubscriptionView};
use crate::wire::{
    Command, SPACE, command_bytes, encode_command, append_bytes, crlf, decimal, kw_connect, kw_ping, kw_pong, opt_bytes, pub_bytes,
    sub_bytes, unsub_bytes, write_decimal, write_pub, write_sub, write_unsub,
};
use crate::writer::{OutboundQueue, QueueView};

verus! {

/// The state of the present connection.
#[derive(PartialEq, Eq, Structural, Debug, Clone, Copy)]
pub enum ConnState {
    Disconnected,
    Handshaking,
    Connected,
    Draining,
    Closed,
}

/// Why an operation of the client failed.
#[derive(PartialEq, Eq, Structural, Debug, Clone, Copy)]
pub enum ClientError {
    /// The first frame of the connection is not `INFO`, or no banner was awaited.
    Handshake,
    /// The server refused the handshake, or asks for credentials that were not given.
    Auth,
    /// The credentials could not be encoded as JSON.
    Encode,
    /// The client takes no sends in its present state.
    NotConnected,
    /// The outbound queue is full.
    Busy,
    /// Every subscription id or inbox number has been handed out.
    IdsExhausted,
}

/// How a client is set up.
#[derive(Debug, Clone)]
pub struct ClientOptions {
    pub verbose: bool,
    pub pedantic: bool,
    pub credentials: Option<Credentials>,
    pub max_outstanding_pings: u64,
    pub queue_capacity: usize,
}

/// A message for a registered subscription.
pub struct Delivery {
    pub sid: u64,
    pub subject: Vec<u8>,
    pub reply_to: Option<Vec<u8>>,
    pub payload: Vec<u8>,
}

/// What the driver does after a frame.
pub enum Reaction {
    /// The server's banner: the driver decodes its JSON and calls `connect`.
    Banner(Vec<u8>),
    /// Bytes to send at once (a `PONG`).
    Reply(Vec<u8>),
    /// A message to hand to the callback of its subscription.
    Deliver(Delivery),
    /// The handshake is complete.
    Connected,
    /// The connection attempt failed.
    Failed(ClientError),
    /// The server reported an error on an established connection.
    ServerError(Vec<u8>),
    /// A malformed frame was skipped.
    ProtocolError(Vec<u8>),
    /// Nothing to do.
    Ignore,
}

/// What the contracts see of a reaction.
pub enum ReactionView {
    Banner(Seq<u8>),
    Reply(Seq<u8>),
    Deliver { sid: u64, subject: Seq<u8>, reply_to: Option<Seq<u8>>, payload: Seq<u8> },
    Connected,
    Failed(ClientError),
    ServerError(Seq<u8>),
    ProtocolError(Seq<u8>),
    Ignore,
}

impl View for Reaction {
    type V = ReactionView;

    open spec fn view(&self) -> ReactionView {
        match self {
            Reaction::Banner(b) => ReactionView::Banner(b@),
            Reaction::Reply(b) => ReactionView::Reply(b@),
            Reaction::Deliver(d) => ReactionView::Deliver {
                sid: d.sid,
                subject: d.subject@,
                reply_to: opt_bytes(d.reply_to),
                payload: d.payload@,
            },
            Reaction::Connected => ReactionView::Connected,
            Reaction::Failed(e) => ReactionView::Failed(*e),
            Reaction::ServerError(b) => ReactionView::ServerError(b@),
            Reaction::ProtocolError(b) => ReactionView::ProtocolError(b@),
            Reaction::Ignore => ReactionView::Ignore,
        }
    }
}

/// What the driver does when a keepalive interval has passed.
pub enum TickAction {
    Idle,
    /// Send these bytes (a `PING`).
    SendPing(Vec<u8>),
    /// The connection is stale: tear it down and reconnect.
    Reconnect,
}

/// `PING` and `CR LF`.
pub open spec fn ping_bytes() -> Seq<u8> {
    kw_ping() + crlf()
}

/// `PONG` and `CR LF`.
pub open spec fn pong_bytes() -> Seq<u8> {
    kw_pong() + crlf()
}

/// The `SUB` lines for `entries`, in order.
pub open spec fn subs_bytes<C>(entries: Seq<SubscriptionView<C>>) -> Seq<u8>
    decreases entries.len(),
{
    if entries.len() == 0 {
        Seq::empty()
    } else {
        subs_bytes(entries.drop_last()) + sub_bytes(
            entries.last().subject,
            entries.last().queue_group,
            entries.last().sid,
        )
    }
}

/// What the client sends to open a connection: `CONNECT` with `options`, a
/// `SUB` for each registered subscription, and a `PING`.
pub open spec fn handshake_bytes<C>(options: Seq<u8>, entries: Seq<SubscriptionView<C>>) -> Seq<u8> {
    kw_connect().push(SPACE) + options + crlf() + subs_bytes(entries) + ping_bytes()
}

/// `_INBOX.`
pub open spec fn inbox_head() -> Seq<u8> {
    seq![95u8, 73u8, 78u8, 66u8, 79u8, 88u8, 46u8]
}

/// The reply subject of request `n` of a client whose inboxes carry `prefix`.
pub open spec fn inbox_subject(prefix: Seq<u8>, n: u64) -> Seq<u8> {
    inbox_head() + prefix.push(46u8) + decimal(n as nat)
}

/// What the contracts see of a client.
pub struct ClientView<C> {
    pub state: ConnState,
    /// The banner of the present connection, once it has been taken and `CONNECT` sent.
    pub server_info: Option<ServerInfo>,
    /// `close` was called: no reconnect follows.
    pub closing: bool,
    pub options: ClientOptions,
    pub keepalive: Keepalive,
    pub registry: RegistryView<C>,
    pub outbound: QueueView,
    pub inbox_prefix: Seq<u8>,
    pub next_inbox: u64,
}

impl<C> ClientView<C> {
    pub open spec fn wf(self) -> bool {
        self.registry.wf()
    }

    pub open spec fn with_state(self, state: ConnState) -> Self {
        ClientView { state, ..self }
    }

    /// `CONNECT` has gone out on a connection that is not draining: changes
    /// to the subscriptions are sent as they happen.
    pub open spec fn server_hears(self) -> bool {
        self.state == ConnState::Connected || (self.state == ConnState::Handshaking
            && self.server_info is Some)
    }

    pub open spec fn queue_full(self) -> bool {
        self.outbound.frames.len() >= self.outbound.capacity
    }

    pub open spec fn with_frame(self, frame: Seq<u8>) -> Self {
        ClientView {
            outbound: QueueView {
                frames: self.outbound.frames.push(frame),
                capacity: self.outbound.capacity,
            },
            ..self
        }
    }

    /// A new connection: `Disconnected`, no banner, a fresh keepalive counter.
    pub open spec fn restarted(self) -> Self {
        ClientView {
            state: ConnState::Disconnected,
            server_info: None,
            keepalive: crate::keepalive::fresh(self.keepalive.max_outstanding),
            ..self
        }
    }

    pub open spec fn with_first_taken(self) -> Self {
        ClientView {
            outbound: QueueView {
                frames: self.outbound.frames.drop_first(),
                capacity: self.outbound.capacity,
            },
            ..self
        }
    }

    /// The client after a frame, and what the driver is to do.
    pub open spec fn on_frame(self, f: FrameView) -> (Self, ReactionView) {
        match self.state {
            ConnState::Handshaking => if self.server_info is None {
                match f {
                    FrameView::Info(body) => (self, ReactionView::Banner(body)),
                    _ => (
                        self.with_state(ConnState::Closed),
                        ReactionView::Failed(ClientError::Handshake),
                    ),
                }
            } else {
                match f {
                    FrameView::Pong => (self.with_state(ConnState::Connected), ReactionView::Connected),
                    FrameView::ServerError(_) => (
                        self.with_state(ConnState::Closed),
                        ReactionView::Failed(ClientError::Auth),
                    ),
                    FrameView::Ping => (self, ReactionView::Reply(pong_bytes())),
                    _ => (self, ReactionView::Ignore),
                }
            },
            ConnState::Connected | ConnState::Draining => match f {
                FrameView::Ping => (self, ReactionView::Reply(pong_bytes())),
                FrameView::Pong => (
                    ClientView { keepalive: self.keepalive.pong_spec(), ..self },
                    ReactionView::Ignore,
                ),
                FrameView::Message { subject, sid, reply_to, payload } => if self.registry.holds(
                    sid,
                ) {
                    (self, ReactionView::Deliver { sid, subject, reply_to, payload })
                } else {
                    (self, ReactionView::Ignore)
                },
                FrameView::ServerError(reason) => (self, ReactionView::ServerError(reason)),
                FrameView::ProtocolError(line) => (self, ReactionView::ProtocolError(line)),
                _ => (self, ReactionView::Ignore),
            },
            _ => (self, ReactionView::Ignore),
        }
    }
}

/// The order of the connection states: a connection only moves to a later one.
pub open spec fn stage(s: ConnState) -> nat {
    match s {
        ConnState::Disconnected => 0,
        ConnState::Handshaking => 1,
        ConnState::Connected => 2,
        ConnState::Draining => 3,
        ConnState::Closed => 4,
    }
}

/// No frame moves a connection back to an earlier state.
pub proof fn lemma_frames_move_forward<C>(v: ClientView<C>, f: FrameView)
    ensures
        stage(v.on_frame(f).0.state) >= stage(v.state),
{
}

/// A message that arrives for a subscription after it was removed is dropped
/// without an error, and changes nothing.
pub proof fn lemma_message_after_unsubscribe_dropped<C>(
    v: ClientView<C>,
    before: RegistryView<C>,
    sid: u64,
    subject: Seq<u8>,
    reply_to: Option<Seq<u8>>,
    payload: Seq<u8>,
)
    requires
        before.wf(),
        v.registry == before.removed(sid),
        v.state == ConnState::Connected || v.state == ConnState::Draining,
    ensures
        v.on_frame(FrameView::Message { subject, sid, reply_to, payload }) == (
            v,
            ReactionView::Ignore,
        ),
{
    assert(!v.registry.holds(sid)) by {
        if v.registry.holds(sid) {
            let i = choose|i: int|
                0 <= i < v.registry.entries.len() && #[trigger] v.registry.entries[i].sid == sid;
            before.entries.lemma_filter_pred(|e: SubscriptionView<C>| e.sid != sid, i);
        }
    }
}

/// A client of one server: its connection state, subscriptions and outbound frames.
pub struct Client<C> {
    state: ConnState,
    server_info: Option<ServerInfo>,
    closing: bool,
    options: ClientOptions,
    keepalive: Keepalive,
    registry: Registry<C>,
    outbound: OutboundQueue,
    inbox_prefix: Vec<u8>,
    next_inbox: u64,
}

impl<C> View for Client<C> {
    type V = ClientView<C>;

    closed spec fn view(&self) -> ClientView<C> {
        ClientView {
            state: self.state,
            server_info: self.server_info,
            closing: self.closing,
            options: self.options,
            keepalive: self.keepalive,
            registry: self.registry@,
            outbound: self.outbound@,
            inbox_prefix: self.inbox_prefix@,
            next_inbox: self.next_inbox,
        }
    }
}

impl<C> Client<C> {
    /// A client with no connection yet. Its request inboxes are named
    /// `_INBOX.<inbox_prefix>.<n>`.
    pub fn new(options: ClientOptions, inbox_prefix: Vec<u8>) -> (c: Client<C>)
        ensures
            c@.wf(),
            c@.state == ConnState::Disconnected,
            c@.server_info is None,
            !c@.closing,
            c@.options == options,
            c@.keepalive == crate::keepalive::fresh(options.max_outstanding_pings),
            c@.registry.next_sid == 1,
            c@.registry.entries.len() == 0,
            c@.outbound.frames.len() == 0,
            c@.outbound.capacity == options.queue_capacity,
            c@.inbox_prefix == inbox_prefix@,
            c@.next_inbox == 0,
    {
        let keepalive = Keepalive::new(options.max_outstanding_pings);
        let outbound = OutboundQueue::new(options.queue_capacity);
        Client {
            state: ConnState::Disconnected,
            server_info: None,
            closing: false,
            options,
            keepalive,
            registry: Registry::new(),
            outbound,
            inbox_prefix,
            next_inbox: 0,
        }
    }

    pub fn state(&self) -> (s: ConnState)
        ensures
            s == self@.state,
    {
        self.state
    }

    /// The socket is open: the client now awaits the server's banner. Returns
    /// whether the client was `Disconnected`; otherwise nothing changes.
    pub fn begin_handshake(&mut self) -> (r: bool)
        ensures
            r == (old(self)@.state == ConnState::Disconnected),
            r ==> final(self)@ == old(self)@.with_state(ConnState::Handshaking),
            !r ==> final(self)@ == old(self)@,
    {
        if self.state == ConnState::Disconnected {
            self.state = ConnState::Handshaking;
            true
        } else {
            false
        }
    }

    fn write_subscriptions(&self, out: &mut Vec<u8>)
        ensures
            final(out)@ == old(out)@ + subs_bytes(self@.registry.entries),
    {
        let n = self.registry.len();
        let mut i: usize = 0;
        while i < n
            invariant
                n == self@.registry.entries.len(),
                0 <= i <= n,
                out@ == old(out)@ + subs_bytes(self@.registry.entries.take(i as int)),
            decreases n - i,
        {
            let e = self.registry.entry(i);
            write_sub(out, e.subject.as_slice(), &e.queue_group, e.sid);
            let ghost t = self@.registry.entries.take(i + 1);
            assert(t.drop_last() =~= self@.registry.entries.take(i as int));
            i = i + 1;
        }
        assert(self@.registry.entries.take(i as int) =~= self@.registry.entries);
    }

    /// Takes the server's banner: returns the bytes that open the connection
    /// (`CONNECT`, a `SUB` for each subscription, `PING`). Credentials go in
    /// `CONNECT` where the banner asks for them. A failure ends the attempt.
    pub fn connect(&mut self, info: &ServerInfo) -> (r: Result<Vec<u8>, ClientError>)
        requires
            old(self)@.wf(),
        ensures
            final(self)@.wf(),
            !(old(self)@.state == ConnState::Handshaking && old(self)@.server_info is None) ==> r == Err::<
                Vec<u8>,
                ClientError,
            >(ClientError::Handshake) && final(self)@ == old(self)@,
            old(self)@.state == ConnState::Handshaking && old(self)@.server_info is None ==> {
                let o = old(self)@.options;
                let accepted = ClientView { server_info: Some(*info), ..old(self)@ };
                &&& !info.auth_required ==> (r matches Ok(b) && b@ == handshake_bytes(
                    options_json(o.verbose, o.pedantic, None),
                    old(self)@.registry.entries,
                ) && final(self)@ == accepted)
                &&& info.auth_required && o.credentials is None ==> r == Err::<Vec<u8>, ClientError>(
                    ClientError::Auth,
                ) && final(self)@ == old(self)@.with_state(ConnState::Closed)
                &&& info.auth_required && o.credentials is Some ==> (r matches Ok(b) ==> b@
                    == handshake_bytes(
                    options_json(
                        o.verbose,
                        o.pedantic,
                        Some(
                            (
                                json_string(o.credentials->0.user@),
                                json_string(o.credentials->0.pass@),
                            ),
                        ),
                    ),
                    old(self)@.registry.entries,
                ) && final(self)@ == accepted)
                &&& info.auth_required && o.credentials is Some ==> (r is Err ==> r == Err::<
                    Vec<u8>,
                    ClientError,
                >(ClientError::Encode) && final(self)@ == old(self)@.with_state(ConnState::Closed))
            },
    {
        if !(self.state == ConnState::Handshaking && self.server_info.is_none()) {
            return Err(ClientError::Handshake);
        }
        let options = match handshake_options(
            self.options.verbose,
            self.options.pedantic,
            info,
            &self.options.credentials,
        ) {
            Ok(Some(o)) => o,
            Ok(None) => {
                self.state = ConnState::Closed;
                return Err(ClientError::Auth);
            },
            Err(()) => {
                self.state = ConnState::Closed;
                return Err(ClientError::Encode);
            },
        };
        let mut out: Vec<u8> = Vec::new();
        // "CONNECT "
        append_bytes(&mut out, &[67u8, 79u8, 78u8, 78u8, 69u8, 67u8, 84u8, SPACE]);
        append_bytes(&mut out, options.as_slice());
        out.push(13u8);
        out.push(10u8);
        assert(out@ =~= kw_connect().push(SPACE) + options@ + crlf());
        self.write_subscriptions(&mut out);
        // "PING" CR LF
        append_bytes(&mut out, &[80u8, 73u8, 78u8, 71u8, 13u8, 10u8]);
        assert(out@ =~= handshake_bytes(options@, self@.registry.entries));
        self.server_info = Some(*info);
        Ok(out)
    }

    /// Takes a frame from the parser and says what the driver is to do.
    pub fn handle_frame(&mut self, frame: InboundFrame) -> (r: Reaction)
        requires
            old(self)@.wf(),
        ensures
            final(self)@.wf(),
            (final(self)@, r@) == old(self)@.on_frame(frame@),
    {
        // "PONG" CR LF
        let pong: Vec<u8> = vec![80u8, 79u8, 78u8, 71u8, 13u8, 10u8];
        assert(pong@ =~= pong_bytes());
        match self.state {
            ConnState::Handshaking => {
                if self.server_info.is_none() {
                    match frame {
                        InboundFrame::Info { body } => Reaction::Banner(body),
                        _ => {
                            self.state = ConnState::Closed;
                            Reaction::Failed(ClientError::Handshake)
                        },
                    }
                } else {
                    match frame {
                        InboundFrame::Pong => {
                            self.state = ConnState::Connected;
                            Reaction::Connected
                        },
                        InboundFrame::ServerError { .. } => {
                            self.state = ConnState::Closed;
                            Reaction::Failed(ClientError::Auth)
                        },
                        InboundFrame::Ping => Reaction::Reply(pong),
                        _ => Reaction::Ignore,
                    }
                }
            },
            ConnState::Connected | ConnState::Draining => match frame {
                InboundFrame::Ping => Reaction::Reply(pong),
                InboundFrame::Pong => {
                    self.keepalive.pong();
                    Reaction::Ignore
                },
                InboundFrame::Message { subject, sid, reply_to, payload } => {
                    if self.registry.lookup(sid).is_some() {
                        Reaction::Deliver(Delivery { sid, subject, reply_to, payload })
                    } else {
                        Reaction::Ignore
                    }
                },
                InboundFrame::ServerError { reason } => Reaction::ServerError(reason),
                InboundFrame::ProtocolError { line } => Reaction::ProtocolError(line),
                _ => Reaction::Ignore,
            },
            _ => Reaction::Ignore,
        }
    }

    /// A keepalive interval has passed. On an established connection this
    /// sends a `PING`, or, where too many pings are unanswered, moves the
    /// connection to `Draining` and asks for a reconnect.
    pub fn tick(&mut self) -> (r: TickAction)
        ensures
            old(self)@.state != ConnState::Connected ==> r is Idle && final(self)@ == old(self)@,
            old(self)@.state == ConnState::Connected ==> {
                let (k, a) = old(self)@.keepalive.tick_spec();
                &&& a == KeepaliveAction::SendPing ==> (r matches TickAction::SendPing(b) && b@
                    == ping_bytes() && final(self)@ == ClientView { keepalive: k, ..old(self)@ })
                &&& a == KeepaliveAction::Reconnect ==> r is Reconnect && final(self)@ == old(
                    self,
                )@.with_state(ConnState::Draining)
            },
    {
        if self.state != ConnState::Connected {
            return TickAction::Idle;
        }
        match self.keepalive.tick() {
            KeepaliveAction::SendPing => {
                // "PING" CR LF
                let ping: Vec<u8> = vec![80u8, 73u8, 78u8, 71u8, 13u8, 10u8];
                assert(ping@ =~= ping_bytes());
                TickAction::SendPing(ping)
            },
            KeepaliveAction::Reconnect => {
                self.state = ConnState::Draining;
                TickAction::Reconnect
            },
        }
    }

    /// Queues the wire form of `command`. Only an established connection takes it.
    pub fn send_command(&mut self, command: &Command) -> (r: Result<(), ClientError>)
        ensures
            old(self)@.state != ConnState::Connected ==> r == Err::<(), ClientError>(
                ClientError::NotConnected,
            ) && final(self)@ == old(self)@,
            old(self)@.state == ConnState::Connected && old(self)@.queue_full() ==> r == Err::<
                (),
                ClientError,
            >(ClientError::Busy) && final(self)@ == old(self)@,
            old(self)@.state == ConnState::Connected && !old(self)@.queue_full() ==> r is Ok
                && final(self)@ == old(self)@.with_frame(command_bytes(*command)),
    {
        if self.state != ConnState::Connected {
            return Err(ClientError::NotConnected);
        }
        if self.outbound.len() >= self.outbound.capacity() {
            return Err(ClientError::Busy);
        }
        let frame = encode_command(command);
        let _ = self.outbound.push(frame);
        Ok(())
    }

    /// Queues a `PUB` frame. Only an established connection takes it.
    pub fn publish(&mut self, subject: Vec<u8>, reply_to: Option<Vec<u8>>, payload: Vec<u8>) -> (r:
        Result<(), ClientError>)
        ensures
            old(self)@.state != ConnState::Connected ==> r == Err::<(), ClientError>(
                ClientError::NotConnected,
            ) && final(self)@ == old(self)@,
            old(self)@.state == ConnState::Connected && old(self)@.queue_full() ==> r == Err::<
                (),
                ClientError,
            >(ClientError::Busy) && final(self)@ == old(self)@,
            old(self)@.state == ConnState::Connected && !old(self)@.queue_full() ==> r is Ok
                && final(self)@ == old(self)@.with_frame(
                pub_bytes(subject@, opt_bytes(reply_to), payload@),
            ),
    {
        if self.state != ConnState::Connected {
            return Err(ClientError::NotConnected);
        }
        if self.outbound.len() >= self.outbound.capacity() {
            return Err(ClientError::Busy);
        }
        let mut frame: Vec<u8> = Vec::new();
        write_pub(&mut frame, subject.as_slice(), &reply_to, payload.as_slice());
        assert(frame@ =~= pub_bytes(subject@, opt_bytes(reply_to), payload@));
        let _ = self.outbound.push(frame);
        assert(self@ == old(self)@.with_frame(pub_bytes(subject@, opt_bytes(reply_to), payload@)));
        Ok(())
    }

    fn server_hears(&self) -> (r: bool)
        ensures
            r == self@.server_hears(),
    {
        self.state == ConnState::Connected || (self.state == ConnState::Handshaking
            && self.server_info.is_some())
    }

    /// The subscription `sid`, with its callback; `None` where it is not registered.
    pub fn subscription(&self, sid: u64) -> (r: Option<&Subscription<C>>)
        ensures
            r is None <==> !self@.registry.holds(sid),
            r is Some ==> r->0@.sid == sid && self@.registry.entries.contains(r->0@),
    {
        self.registry.lookup(sid)
    }

    /// Registers a subscription and returns its id. Once `CONNECT` has gone
    /// out a `SUB` is queued; before that, the `SUB` goes out with the
    /// handshake. Refused once the client is draining or closed.
    pub fn subscribe(&mut self, subject: Vec<u8>, queue_group: Option<Vec<u8>>, callback: C) -> (r:
        Result<u64, ClientError>)
        requires
            old(self)@.wf(),
        ensures
            final(self)@.wf(),
            ({
                let v = old(self)@;
                let sid = v.registry.next_sid;
                let registered = ClientView {
                    registry: v.registry.added(subject@, opt_bytes(queue_group), callback),
                    ..v
                };
                if v.state == ConnState::Draining || v.state == ConnState::Closed {
                    r == Err::<u64, ClientError>(ClientError::NotConnected) && final(self)@ == v
                } else if sid == u64::MAX {
                    r == Err::<u64, ClientError>(ClientError::IdsExhausted) && final(self)@ == v
                } else if v.server_hears() && v.queue_full() {
                    r == Err::<u64, ClientError>(ClientError::Busy) && final(self)@ == v
                } else if v.server_hears() {
                    r == Ok::<u64, ClientError>(sid) && final(self)@ == registered.with_frame(
                        sub_bytes(subject@, opt_bytes(queue_group), sid),
                    )
                } else {
                    r == Ok::<u64, ClientError>(sid) && final(self)@ == registered
                }
            }),
    {
        if self.state == ConnState::Draining || self.state == ConnState::Closed {
            return Err(ClientError::NotConnected);
        }
        if self.registry.next_id() == u64::MAX {
            return Err(ClientError::IdsExhausted);
        }
        let connected = self.server_hears();
        if connected && self.outbound.len() >= self.outbound.capacity() {
            return Err(ClientError::Busy);
        }
        let mut frame: Vec<u8> = Vec::new();
        let sid = self.registry.next_id();
        write_sub(&mut frame, subject.as_slice(), &queue_group, sid);
        let _ = self.registry.add(subject, queue_group, callback);
        if connected {
            let _ = self.outbound.push(frame);
        }
        Ok(sid)
    }

    /// Removes subscription `sid`; once `CONNECT` has gone out an `UNSUB` is
    /// queued. Removing an id that is not registered changes nothing.
    pub fn unsubscribe(&mut self, sid: u64) -> (r: Result<(), ClientError>)
        requires
            old(self)@.wf(),
        ensures
            final(self)@.wf(),
            ({
                let v = old(self)@;
                let removed = ClientView { registry: v.registry.removed(sid), ..v };
                if !v.registry.holds(sid) {
                    r is Ok && final(self)@ == v
                } else if v.server_hears() && v.queue_full() {
                    r == Err::<(), ClientError>(ClientError::Busy) && final(self)@ == v
                } else if v.server_hears() {
                    r is Ok && final(self)@ == removed.with_frame(unsub_bytes(sid))
                } else {
                    r is Ok && final(self)@ == removed
                }
            }),
    {
        if self.registry.lookup(sid).is_none() {
            return Ok(());
        }
        let connected = self.server_hears();
        if connected && self.outbound.len() >= self.outbound.capacity() {
            return Err(ClientError::Busy);
        }
        self.registry.remove(sid);
        if connected {
            let mut frame: Vec<u8> = Vec::new();
            write_unsub(&mut frame, sid);
            let _ = self.outbound.push(frame);
        }
        Ok(())
    }

    /// Starts a request: subscribes to a fresh inbox and publishes `payload`
    /// to `subject` with the inbox as reply subject. Returns the inbox's
    /// subscription id and subject; the reply arrives as a delivery to that id,
    /// and the caller unsubscribes it once the reply came or the wait ended.
    pub fn request(&mut self, subject: Vec<u8>, payload: Vec<u8>, callback: C) -> (r: Result<
        (u64, Vec<u8>),
        ClientError,
    >)
        requires
            old(self)@.wf(),
        ensures
            final(self)@.wf(),
            ({
                let v = old(self)@;
                let sid = v.registry.next_sid;
                let inbox = inbox_subject(v.inbox_prefix, v.next_inbox);
                if v.state != ConnState::Connected {
                    r == Err::<(u64, Vec<u8>), ClientError>(ClientError::NotConnected) && final(self)@
                        == v
                } else if sid == u64::MAX || v.next_inbox == u64::MAX {
                    r == Err::<(u64, Vec<u8>), ClientError>(ClientError::IdsExhausted)
                        && final(self)@ == v
                } else if v.outbound.frames.len() + 2 > v.outbound.capacity {
                    r == Err::<(u64, Vec<u8>), ClientError>(ClientError::Busy) && final(self)@ == v
                } else {
                    r matches Ok(p) && p.0 == sid && p.1@ == inbox && final(self)@ == ClientView {
                        registry: v.registry.added(inbox, None, callback),
                        next_inbox: (v.next_inbox + 1) as u64,
                        ..v
                    }.with_frame(sub_bytes(inbox, None, sid)).with_frame(
                        pub_bytes(subject@, Some(inbox), payload@),
                    )
                }
            }),
    {
        if self.state != ConnState::Connected {
            return Err(ClientError::NotConnected);
        }
        if self.registry.next_id() == u64::MAX || self.next_inbox == u64::MAX {
            return Err(ClientError::IdsExhausted);
        }
        if self.outbound.len() >= self.outbound.capacity() || self.outbound.capacity()
            - self.outbound.len() < 2 {
            return Err(ClientError::Busy);
        }
        // "_INBOX."
        let mut inbox: Vec<u8> = vec![95u8, 73u8, 78u8, 66u8, 79u8, 88u8, 46u8];
        assert(inbox@ =~= inbox_head());
        append_bytes(&mut inbox, self.inbox_prefix.as_slice());
        inbox.push(46u8);
        write_decimal(&mut inbox, self.next_inbox);
        assert(inbox@ =~= inbox_subject(self.inbox_prefix@, self.next_inbox));
        let sid = self.registry.next_id();
        let mut sub_frame: Vec<u8> = Vec::new();
        write_sub(&mut sub_frame, inbox.as_slice(), &None, sid);
        let mut pub_frame: Vec<u8> = Vec::new();
        let reply_to = Some(inbox.clone());
        write_pub(&mut pub_frame, subject.as_slice(), &reply_to, payload.as_slice());
        let _ = self.registry.add(inbox.clone(), None, callback);
        self.next_inbox = self.next_inbox + 1;
        let _ = self.outbound.push(sub_frame);
        let _ = self.outbound.push(pub_frame);
        Ok((sid, inbox))
    }

    /// Closes the client: an open connection moves to `Draining` (the driver
    /// flushes the queue, stops the reader, then calls `finish_close`); a
    /// client with no connection moves to `Closed`. No reconnect follows.
    pub fn close(&mut self)
        ensures
            final(self)@.closing,
            final(self)@.state == match old(self)@.state {
                ConnState::Disconnected => ConnState::Closed,
                ConnState::Handshaking | ConnState::Connected => ConnState::Draining,
                s => s,
            },
            final(self)@ == (ClientView { state: final(self)@.state, closing: true, ..old(self)@ }),
    {
        self.closing = true;
        match self.state {
            ConnState::Disconnected => self.state = ConnState::Closed,
            ConnState::Handshaking | ConnState::Connected => self.state = ConnState::Draining,
            _ => {},
        }
    }

    /// The drained connection is shut: `Draining` moves to `Closed`.
    pub fn finish_close(&mut self)
        ensures
            old(self)@.state == ConnState::Draining ==> final(self)@ == old(self)@.with_state(
                ConnState::Closed,
            ),
            old(self)@.state != ConnState::Draining ==> final(self)@ == old(self)@,
    {
        if self.state == ConnState::Draining {
            self.state = ConnState::Closed;
        }
    }

    /// A read or write on the socket failed: an established connection moves
    /// to `Draining`, any other one that is not closed to `Closed`. Returns
    /// whether a reconnect is due: the client was not closed by its user and
    /// had a connection.
    pub fn connection_lost(&mut self) -> (retry: bool)
        ensures
            retry == (!old(self)@.closing && old(self)@.state != ConnState::Disconnected
                && old(self)@.state != ConnState::Closed),
            final(self)@ == old(self)@.with_state(
                if old(self)@.state == ConnState::Connected {
                    ConnState::Draining
                } else {
                    ConnState::Closed
                },
            ),
    {
        let retry = !self.closing && self.state != ConnState::Disconnected && self.state
            != ConnState::Closed;
        if self.state == ConnState::Connected {
            self.state = ConnState::Draining;
        } else {
            self.state = ConnState::Closed;
        }
        retry
    }

    /// Starts a new connection after a lost or stale one: the state is
    /// `Disconnected` again, with a fresh keepalive counter and no server info; the
    /// subscriptions and queued frames stay, and the subscriptions are sent
    /// again with the next handshake. Refused (returns `false`, no change)
    /// after `close`, or while the present connection is not torn down.
    pub fn reconnect(&mut self) -> (r: bool)
        ensures
            r == (!old(self)@.closing && (old(self)@.state == ConnState::Draining || old(self)@.state
                == ConnState::Closed)),
            r ==> final(self)@ == old(self)@.restarted(),
            !r ==> final(self)@ == old(self)@,
    {
        if self.closing || !(self.state == ConnState::Draining || self.state == ConnState::Closed) {
            return false;
        }
        self.state = ConnState::Disconnected;
        self.server_info = None;
        self.keepalive = Keepalive::new(self.keepalive.max_outstanding);
        true
    }

    /// The number of frames waiting to be written.
    pub fn queued(&self) -> (n: usize)
        ensures
            n == self@.outbound.frames.len(),
    {
        self.outbound.len()
    }

    /// Takes the oldest queued frame, to be written to the socket.
    pub fn take_outbound(&mut self) -> (r: Option<Vec<u8>>)
        ensures
            old(self)@.outbound.frames.len() == 0 ==> r is None && final(self)@ == old(self)@,
            old(self)@.outbound.frames.len() > 0 ==> r is Some && r->0@
                == old(self)@.outbound.frames[0] && final(self)@ == old(self)@.with_first_taken(),
    {
        self.outbound.pop()
    }
}

} // verus!
