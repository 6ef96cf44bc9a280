//! The frame parser: turns the bytes received from the server into frames.
//!
//! A control line runs up to the first `CR LF`. Its first token is the
//! operation. `MSG` lines announce a payload of an exact byte count, which is
//! read as raw bytes (it may itself hold `CR LF`) and must be followed by
//! `CR LF`. A malformed `MSG` line gives a `ProtocolError` frame and parsing
//! goes on at the next line.
use vstd::prelude::*;
use vstd::slice::slice_subrange;
use vstd::slice::slice_to_vec;
use crate::wire::{
    CR, LF, SPACE, crlf, opt_bytes, decimal, decimal_value, kw_err, kw_info, kw_msg, kw_ok, kw_ping, kw_pong, parse_decimal,
};

verus! {

/// What the contracts see of an inbound frame.
pub enum FrameView {
    Info(Seq<u8>),
    Ping,
    Pong,
    Ack,
    ServerError(Seq<u8>),
    Message { subject: Seq<u8>, sid: u64, reply_to: Option<Seq<u8>>, payload: Seq<u8> },
    Unknown(Seq<u8>),
    ProtocolError(Seq<u8>),
}

/// A frame received from the server.
pub enum InboundFrame {
    /// `INFO <body>`: the server's banner; the body is JSON.
    Info { body: Vec<u8> },
    Ping,
    Pong,
    /// `+OK`
    Ack,
    /// `-ERR <reason>`
    ServerError { reason: Vec<u8> },
    /// `MSG <subject> <sid> [reply_to] <size>` and its payload.
    Message { subject: Vec<u8>, sid: u64, reply_to: Option<Vec<u8>>, payload: Vec<u8> },
    /// A line whose operation is not known.
    Unknown { line: Vec<u8> },
    /// A `MSG` line of the wrong shape, or a payload not followed by `CR LF`.
    ProtocolError { line: Vec<u8> },
}

impl View for InboundFrame {
    type V = FrameView;

    open spec fn view(&self) -> FrameView {
        match self {
            InboundFrame::Info { body } => FrameView::Info(body@),
            InboundFrame::Ping => FrameView::Ping,
            InboundFrame::Pong => FrameView::Pong,
            InboundFrame::Ack => FrameView::Ack,
            InboundFrame::ServerError { reason } => FrameView::ServerError(reason@),
            InboundFrame::Message { subject, sid, reply_to, payload } => FrameView::Message {
                subject: subject@,
                sid: *sid,
                reply_to: opt_bytes(*reply_to),
                payload: payload@,
            },
            InboundFrame::Unknown { line } => FrameView::Unknown(line@),
            InboundFrame::ProtocolError { line } => FrameView::ProtocolError(line@),
        }
    }
}

/// The outcome of parsing the front of a buffer.
pub enum Parsed {
    /// More bytes are needed.
    Incomplete,
    /// A frame, and how many bytes of the buffer it took.
    Complete(FrameView, nat),
}

pub open spec fn crlf_at(buf: Seq<u8>, i: int) -> bool {
    0 <= i && i + 1 < buf.len() && buf[i] == CR && buf[i + 1] == LF
}

/// The position of the first `CR LF` in `buf` at or after `k`.
pub open spec fn find_crlf(buf: Seq<u8>, k: int) -> Option<int>
    decreases buf.len() - k,
{
    if k < 0 || k + 1 >= buf.len() {
        None
    } else if crlf_at(buf, k) {
        Some(k)
    } else {
        find_crlf(buf, k + 1)
    }
}

/// The position of the first `SPACE` in `s` at or after `k`.
pub open spec fn find_space(s: Seq<u8>, k: int) -> Option<int>
    decreases s.len() - k,
{
    if k < 0 || k >= s.len() {
        None
    } else if s[k] == SPACE {
        Some(k)
    } else {
        find_space(s, k + 1)
    }
}

/// `s` split at its first space: the part before it, and the part after it if there is a space.
pub open spec fn cut(s: Seq<u8>) -> (Seq<u8>, Option<Seq<u8>>) {
    match find_space(s, 0) {
        Some(i) => (s.take(i), Some(s.skip(i + 1))),
        None => (s, None),
    }
}

/// The arguments of a `MSG` line: `<subject> <sid> [reply_to] <size>`, with a
/// non-empty subject and reply subject and decimal sid and size.
pub open spec fn msg_args(rest: Seq<u8>) -> Option<(Seq<u8>, u64, Option<Seq<u8>>, u64)> {
    let subject = cut(rest).0;
    let r1 = cut(rest).1;
    if r1 is None || subject.len() == 0 {
        None
    } else {
        let sid = cut(r1->0).0;
        let r2 = cut(r1->0).1;
        if r2 is None || decimal_value(sid) is None {
            None
        } else {
            let third = cut(r2->0).0;
            let r3 = cut(r2->0).1;
            if r3 is None {
                match decimal_value(third) {
                    Some(size) => Some((subject, decimal_value(sid)->0, None, size)),
                    None => None,
                }
            } else {
                let fourth = cut(r3->0).0;
                let r4 = cut(r3->0).1;
                if r4 is None && third.len() > 0 && decimal_value(fourth) is Some {
                    Some((subject, decimal_value(sid)->0, Some(third), decimal_value(fourth)->0))
                } else {
                    None
                }
            }
        }
    }
}

/// The frame at the front of `buf`, and the number of bytes that it takes.
pub open spec fn parse_frame(buf: Seq<u8>) -> Parsed {
    match find_crlf(buf, 0) {
        None => Parsed::Incomplete,
        Some(e) => {
            let line = buf.take(e);
            let op = cut(line).0;
            let rest = match cut(line).1 {
                Some(r) => r,
                None => Seq::empty(),
            };
            let next = e + 2;
            if op == kw_msg() {
                match msg_args(rest) {
                    None => Parsed::Complete(FrameView::ProtocolError(line), next as nat),
                    Some(a) => {
                        let size = a.3 as int;
                        if buf.len() < next + size + 2 {
                            Parsed::Incomplete
                        } else if crlf_at(buf, next + size) {
                            Parsed::Complete(
                                FrameView::Message {
                                    subject: a.0,
                                    sid: a.1,
                                    reply_to: a.2,
                                    payload: buf.subrange(next, next + size),
                                },
                                (next + size + 2) as nat,
                            )
                        } else {
                            Parsed::Complete(
                                FrameView::ProtocolError(line),
                                (next + size + 2) as nat,
                            )
                        }
                    },
                }
            } else if op == kw_ping() {
                Parsed::Complete(FrameView::Ping, next as nat)
            } else if op == kw_pong() {
                Parsed::Complete(FrameView::Pong, next as nat)
            } else if op == kw_ok() {
                Parsed::Complete(FrameView::Ack, next as nat)
            } else if op == kw_err() {
                Parsed::Complete(FrameView::ServerError(rest), next as nat)
            } else if op == kw_info() {
                Parsed::Complete(FrameView::Info(rest), next as nat)
            } else {
                Parsed::Complete(FrameView::Unknown(line), next as nat)
            }
        },
    }
}

fn find_crlf_in(buf: &[u8]) -> (r: Option<usize>)
    ensures
        r is Some ==> r->0 < buf.len() - 1 && crlf_at(buf@, r->0 as int),
        r is Some <==> find_crlf(buf@, 0) is Some,
        r is Some ==> r->0 == find_crlf(buf@, 0)->0,
{
    let mut k: usize = 0;
    while buf.len() > 0 && k < buf.len() - 1
        invariant
            find_crlf(buf@, 0) == find_crlf(buf@, k as int),
        decreases buf.len() - k,
    {
        if buf[k] == CR && buf[k + 1] == LF {
            return Some(k);
        }
        k = k + 1;
    }
    None
}

fn find_space_in(s: &[u8]) -> (r: Option<usize>)
    ensures
        r is Some ==> r->0 < s.len() && s@[r->0 as int] == SPACE,
        r is Some <==> find_space(s@, 0) is Some,
        r is Some ==> r->0 == find_space(s@, 0)->0,
{
    let mut k: usize = 0;
    while k < s.len()
        invariant
            find_space(s@, 0) == find_space(s@, k as int),
        decreases s.len() - k,
    {
        if s[k] == SPACE {
            return Some(k);
        }
        k = k + 1;
    }
    None
}

fn cut_at_space(s: &[u8]) -> (r: (&[u8], Option<&[u8]>))
    ensures
        r.0@ == cut(s@).0,
        match cut(s@).1 {
            Some(t) => r.1 is Some && r.1->0@ == t,
            None => r.1 is None,
        },
{
    match find_space_in(s) {
        Some(i) => {
            let before = slice_subrange(s, 0, i);
            let after = slice_subrange(s, i + 1, s.len());
            assert(before@ =~= s@.take(i as int));
            assert(after@ =~= s@.skip(i + 1));
            (before, Some(after))
        },
        None => (s, None),
    }
}

proof fn lemma_find_crlf_bounds(buf: Seq<u8>, k: int)
    ensures
        find_crlf(buf, k) is Some ==> k <= find_crlf(buf, k)->0 && crlf_at(
            buf,
            find_crlf(buf, k)->0,
        ),
    decreases buf.len() - k,
{
    if 0 <= k && k + 1 < buf.len() && !crlf_at(buf, k) {
        lemma_find_crlf_bounds(buf, k + 1);
    }
}

fn bytes_eq(a: &[u8], b: &[u8]) -> (r: bool)
    ensures
        r == (a@ == b@),
{
    if a.len() != b.len() {
        return false;
    }
    let mut i: usize = 0;
    while i < a.len()
        invariant
            a.len() == b.len(),
            0 <= i <= a.len(),
            a@.take(i as int) == b@.take(i as int),
        decreases a.len() - i,
    {
        if a[i] != b[i] {
            assert(a@[i as int] != b@[i as int]);
            return false;
        }
        i = i + 1;
        assert(a@.take(i as int) =~= b@.take(i as int)) by {
            assert(a@.take(i as int).drop_last() =~= a@.take(i - 1));
            assert(b@.take(i as int).drop_last() =~= b@.take(i - 1));
        }
    }
    assert(a@ =~= a@.take(i as int));
    assert(b@ =~= b@.take(i as int));
    true
}

fn msg_args_of(rest: &[u8]) -> (r: Option<(Vec<u8>, u64, Option<Vec<u8>>, u64)>)
    ensures
        match msg_args(rest@) {
            Some(a) => r matches Some(b) && b.0@ == a.0 && b.1 == a.1 && opt_bytes(b.2) == a.2
                && b.3 == a.3,
            None => r is None,
        },
{
    let (subject, r1) = cut_at_space(rest);
    if r1.is_none() || subject.len() == 0 {
        return None;
    }
    let (sid_text, r2) = cut_at_space(r1.unwrap());
    let sid = parse_decimal(sid_text);
    if r2.is_none() || sid.is_none() {
        return None;
    }
    let sid = sid.unwrap();
    let (third, r3) = cut_at_space(r2.unwrap());
    match r3 {
        None => match parse_decimal(third) {
            Some(size) => Some((slice_to_vec(subject), sid, None, size)),
            None => None,
        },
        Some(r3) => {
            let (fourth, r4) = cut_at_space(r3);
            if r4.is_some() || third.len() == 0 {
                return None;
            }
            match parse_decimal(fourth) {
                Some(size) => Some((slice_to_vec(subject), sid, Some(slice_to_vec(third)), size)),
                None => None,
            }
        },
    }
}

/// The outcome of reading a payload.
pub enum PayloadRead {
    /// Fewer bytes than the payload and its `CR LF` are there yet.
    NeedMore,
    /// The payload, which was followed by `CR LF`.
    Payload(Vec<u8>),
    /// The payload's bytes are there but no `CR LF` follows them.
    MissingTerminator,
}

/// Reads a payload of exactly `size` bytes that starts at `start` of `buf`,
/// whatever bytes it holds, and checks the `CR LF` after it.
pub fn read_message_payload(buf: &[u8], start: usize, size: u64) -> (r: PayloadRead)
    requires
        start <= buf.len(),
    ensures
        buf.len() < start + size + 2 <==> r is NeedMore,
        buf.len() >= start + size + 2 && crlf_at(buf@, start + size) ==> (r matches PayloadRead::Payload(
            p,
        ) && p@ == buf@.subrange(start as int, start + size)),
        buf.len() >= start + size + 2 && !crlf_at(buf@, start + size) ==> r is MissingTerminator,
{
    if ((buf.len() - start) as u64) < size || buf.len() - start - (size as usize) < 2 {
        return PayloadRead::NeedMore;
    }
    let end = start + size as usize;
    if buf[end] == CR && buf[end + 1] == LF {
        PayloadRead::Payload(slice_to_vec(slice_subrange(buf, start, end)))
    } else {
        PayloadRead::MissingTerminator
    }
}

fn parse_frame_in(buf: &[u8]) -> (r: Option<(InboundFrame, usize)>)
    ensures
        match parse_frame(buf@) {
            Parsed::Incomplete => r is None,
            Parsed::Complete(f, n) => r matches Some(p) && p.0@ == f && p.1 == n,
        },
{
    let e = match find_crlf_in(buf) {
        None => return None,
        Some(e) => e,
    };
    let line = slice_subrange(buf, 0, e);
    assert(line@ =~= buf@.take(e as int));
    let (op, rest) = cut_at_space(line);
    let rest: &[u8] = match rest {
        Some(r) => r,
        None => &[],
    };
    assert(rest@ == match cut(line@).1 {
        Some(r) => r,
        None => Seq::empty(),
    });
    let next = e + 2;
    if bytes_eq(op, &[77u8, 83u8, 71u8] /* MSG */) {
        assert(op@ =~= kw_msg());
        match msg_args_of(rest) {
            None => Some((InboundFrame::ProtocolError { line: slice_to_vec(line) }, next)),
            Some((subject, sid, reply_to, size)) => match read_message_payload(buf, next, size) {
                PayloadRead::NeedMore => None,
                PayloadRead::Payload(payload) => {
                    let end = next + payload.len() + 2;
                    Some((InboundFrame::Message { subject, sid, reply_to, payload }, end))
                },
                PayloadRead::MissingTerminator => {
                    let end = next + size as usize + 2;
                    Some((InboundFrame::ProtocolError { line: slice_to_vec(line) }, end))
                },
            },
        }
    } else {
        assert(op@ != kw_msg()) by {
            if op@ == kw_msg() {
                assert(op@ =~= seq![77u8, 83u8, 71u8]);
            }
        }
        let frame = if bytes_eq(op, &[80u8, 73u8, 78u8, 71u8] /* PING */) {
            assert(op@ =~= kw_ping());
            InboundFrame::Ping
        } else if bytes_eq(op, &[80u8, 79u8, 78u8, 71u8] /* PONG */) {
            assert(op@ =~= kw_pong());
            InboundFrame::Pong
        } else if bytes_eq(op, &[43u8, 79u8, 75u8] /* +OK */) {
            assert(op@ =~= kw_ok());
            InboundFrame::Ack
        } else if bytes_eq(op, &[45u8, 69u8, 82u8, 82u8] /* -ERR */) {
            assert(op@ =~= kw_err());
            InboundFrame::ServerError { reason: slice_to_vec(rest) }
        } else if bytes_eq(op, &[73u8, 78u8, 70u8, 79u8] /* INFO */) {
            assert(op@ =~= kw_info());
            InboundFrame::Info { body: slice_to_vec(rest) }
        } else {
            InboundFrame::Unknown { line: slice_to_vec(line) }
        };
        Some((frame, next))
    }
}

/// The parser of one connection: the bytes received and not yet parsed.
pub struct Parser {
    pending: Vec<u8>,
}

impl View for Parser {
    type V = Seq<u8>;

    closed spec fn view(&self) -> Seq<u8> {
        self.pending@
    }
}

impl Parser {
    /// A parser for a new connection, with nothing received.
    pub fn new() -> (p: Parser)
        ensures
            p@ == Seq::<u8>::empty(),
    {
        Parser { pending: Vec::new() }
    }

    /// Hands over bytes received from the server.
    pub fn feed(&mut self, data: &[u8])
        ensures
            final(self)@ == old(self)@ + data@,
    {
        crate::wire::append_bytes(&mut self.pending, data);
    }

    /// Takes the next complete frame off the received bytes; `None` where more bytes are needed.
    pub fn next_frame(&mut self) -> (r: Option<InboundFrame>)
        ensures
            match parse_frame(old(self)@) {
                Parsed::Incomplete => r is None && final(self)@ == old(self)@,
                Parsed::Complete(f, n) => r matches Some(x) && x@ == f && final(self)@
                    == old(self)@.skip(n as int),
            },
    {
        match parse_frame_in(self.pending.as_slice()) {
            None => None,
            Some((frame, n)) => {
                proof {
                    lemma_parse_frame_consumes(self.pending@);
                }
                let rest = slice_to_vec(slice_subrange(self.pending.as_slice(), n, self.pending.len()));
                assert(rest@ =~= self.pending@.skip(n as int));
                self.pending = rest;
                Some(frame)
            },
        }
    }
}

/// A frame takes at least the `CR LF` of its line, and no more than the buffer holds.
pub proof fn lemma_parse_frame_consumes(buf: Seq<u8>)
    ensures
        parse_frame(buf) matches Parsed::Complete(_, n) ==> 2 <= n <= buf.len(),
{
    lemma_find_crlf_bounds(buf, 0);
}

/// A subject or reply subject as it may stand in a line: non-empty, without
/// space, `CR` or `LF`.
pub open spec fn is_token(t: Seq<u8>) -> bool {
    t.len() > 0 && forall|i: int| 0 <= i < t.len() ==> #[trigger] t[i] != SPACE && t[i] != CR && t[i]
        != LF
}

/// The control line of a `MSG` frame, without its `CR LF`.
pub open spec fn msg_line(subject: Seq<u8>, sid: u64, reply_to: Option<Seq<u8>>, size: nat) -> Seq<
    u8,
> {
    let reply = match reply_to {
        Some(r) => r.push(SPACE),
        None => Seq::empty(),
    };
    kw_msg().push(SPACE) + subject.push(SPACE) + decimal(sid as nat).push(SPACE) + reply + decimal(
        size,
    )
}

/// A whole `MSG` frame that carries `payload`.
pub open spec fn msg_frame(
    subject: Seq<u8>,
    sid: u64,
    reply_to: Option<Seq<u8>>,
    payload: Seq<u8>,
) -> Seq<u8> {
    msg_line(subject, sid, reply_to, payload.len()) + crlf() + payload + crlf()
}

proof fn lemma_find_crlf_at(buf: Seq<u8>, k: int, m: int)
    requires
        0 <= k <= m,
        crlf_at(buf, m),
        forall|j: int| k <= j < m ==> buf[j] != CR,
    ensures
        find_crlf(buf, k) == Some(m),
    decreases m - k,
{
    if k < m {
        lemma_find_crlf_at(buf, k + 1, m);
    }
}

proof fn lemma_find_space_at(s: Seq<u8>, k: int, m: int)
    requires
        0 <= k <= m < s.len(),
        s[m] == SPACE,
        forall|j: int| k <= j < m ==> s[j] != SPACE,
    ensures
        find_space(s, k) == Some(m),
    decreases m - k,
{
    if k < m {
        lemma_find_space_at(s, k + 1, m);
    }
}

proof fn lemma_find_space_none(s: Seq<u8>, k: int)
    requires
        0 <= k,
        forall|j: int| k <= j < s.len() ==> s[j] != SPACE,
    ensures
        find_space(s, k) is None,
    decreases s.len() - k,
{
    if k < s.len() {
        lemma_find_space_none(s, k + 1);
    }
}

proof fn lemma_cut_at(a: Seq<u8>, b: Seq<u8>)
    requires
        forall|j: int| 0 <= j < a.len() ==> a[j] != SPACE,
    ensures
        cut(a.push(SPACE) + b) == (a, Some(b)),
{
    let s = a.push(SPACE) + b;
    lemma_find_space_at(s, 0, a.len() as int);
    assert(s.take(a.len() as int) =~= a);
    assert(s.skip(a.len() as int + 1) =~= b);
}

proof fn lemma_cut_whole(a: Seq<u8>)
    requires
        forall|j: int| 0 <= j < a.len() ==> a[j] != SPACE,
    ensures
        cut(a) == (a, None::<Seq<u8>>),
{
    lemma_find_space_none(a, 0);
}

proof fn lemma_decimal_token(n: nat)
    requires
        n <= u64::MAX,
    ensures
        decimal_value(decimal(n)) == Some(n as u64),
        forall|j: int|
            0 <= j < decimal(n).len() ==> #[trigger] decimal(n)[j] != SPACE && decimal(n)[j] != CR,
{
    crate::wire::lemma_decimal_digits(n);
    assert forall|j: int| 0 <= j < decimal(n).len() implies #[trigger] decimal(n)[j] != SPACE
        && decimal(n)[j] != CR by {
        assert(crate::wire::is_digit(decimal(n)[j]));
    }
}

/// A `MSG` frame yields exactly its payload, whatever bytes the payload holds
/// (`CR LF` included), and takes exactly the frame's bytes, whatever follows.
pub proof fn lemma_message_payload_exact(
    subject: Seq<u8>,
    sid: u64,
    reply_to: Option<Seq<u8>>,
    payload: Seq<u8>,
    rest: Seq<u8>,
)
    requires
        is_token(subject),
        reply_to matches Some(r) ==> is_token(r),
        payload.len() <= u64::MAX,
    ensures
        parse_frame(msg_frame(subject, sid, reply_to, payload) + rest) == Parsed::Complete(
            FrameView::Message { subject, sid, reply_to, payload },
            msg_frame(subject, sid, reply_to, payload).len(),
        ),
{
    let size = payload.len();
    let line = msg_line(subject, sid, reply_to, size);
    let buf = msg_frame(subject, sid, reply_to, payload) + rest;
    let sid_text = decimal(sid as nat);
    let size_text = decimal(size);
    lemma_decimal_token(sid as nat);
    lemma_decimal_token(size);
    let reply = match reply_to {
        Some(r) => r.push(SPACE),
        None => Seq::empty(),
    };
    let tail = match reply_to {
        Some(r) => r.push(SPACE) + size_text,
        None => size_text,
    };
    let args = subject.push(SPACE) + sid_text.push(SPACE) + tail;
    assert(line =~= kw_msg().push(SPACE) + args);
    // the line holds no CR: it ends where the frame's first CR LF stands
    assert forall|j: int| 0 <= j < line.len() implies line[j] != CR by {
        let k = kw_msg().len() + 1;
        if j >= k {
            let a = j - k;
            if a < subject.len() {
                assert(args[a] == subject[a]);
            } else if a > subject.len() && a < subject.len() + 1 + sid_text.len() {
                assert(args[a] == sid_text[a - subject.len() - 1]);
            } else if a >= subject.len() + 2 + sid_text.len() {
                let t = a - subject.len() - 2 - sid_text.len();
                assert(args[a] == tail[t]);
                match reply_to {
                    Some(r) => {
                        if t < r.len() {
                            assert(tail[t] == r[t]);
                        } else if t > r.len() {
                            assert(tail[t] == size_text[t - r.len() - 1]);
                        }
                    },
                    None => {},
                }
            }
        }
    }
    assert forall|j: int| 0 <= j < line.len() implies buf[j] == line[j] by {}
    assert(buf[line.len() as int] == CR);
    assert(buf[line.len() as int + 1] == LF);
    lemma_find_crlf_at(buf, 0, line.len() as int);
    assert(buf.take(line.len() as int) =~= line);
    assert(forall|j: int| 0 <= j < kw_msg().len() ==> kw_msg()[j] != SPACE);
    lemma_cut_at(kw_msg(), args);
    assert(forall|j: int| 0 <= j < subject.len() ==> subject[j] != SPACE);
    lemma_cut_at(subject, sid_text.push(SPACE) + tail);
    assert(args =~= subject.push(SPACE) + (sid_text.push(SPACE) + tail));
    lemma_cut_at(sid_text, tail);
    match reply_to {
        Some(r) => {
            assert(forall|j: int| 0 <= j < r.len() ==> r[j] != SPACE);
            lemma_cut_at(r, size_text);
            lemma_cut_whole(size_text);
        },
        None => {
            lemma_cut_whole(size_text);
        },
    }
    let next: int = line.len() as int + 2;
    let size: int = size as int;
    assert(buf.subrange(next, next + size) =~= payload);
    assert(buf[next + size] == CR);
    assert(buf[next + size + 1] == LF);
}

/// The frames that repeated parsing takes off the front of `buf`, in order.
pub open spec fn parse_all(buf: Seq<u8>) -> Seq<FrameView>
    decreases buf.len(),
{
    match parse_frame(buf) {
        Parsed::Complete(f, n) => if 0 < n <= buf.len() {
            seq![f] + parse_all(buf.skip(n as int))
        } else {
            Seq::empty()
        },
        Parsed::Incomplete => Seq::empty(),
    }
}

/// The `MSG` frames for `payloads`, one after the other, to one subscription.
pub open spec fn msg_stream(subject: Seq<u8>, sid: u64, payloads: Seq<Seq<u8>>) -> Seq<u8>
    decreases payloads.len(),
{
    if payloads.len() == 0 {
        Seq::empty()
    } else {
        msg_frame(subject, sid, None, payloads[0]) + msg_stream(subject, sid, payloads.drop_first())
    }
}

/// Messages sent one after the other to a subscription come out of the parser
/// in the order they were sent, each with its own payload.
pub proof fn lemma_messages_keep_order(subject: Seq<u8>, sid: u64, payloads: Seq<Seq<u8>>)
    requires
        is_token(subject),
        forall|i: int| 0 <= i < payloads.len() ==> #[trigger] payloads[i].len() <= u64::MAX,
    ensures
        parse_all(msg_stream(subject, sid, payloads)) == payloads.map_values(
            |p: Seq<u8>| FrameView::Message { subject, sid, reply_to: None, payload: p },
        ),
    decreases payloads.len(),
{
    let out = payloads.map_values(
        |p: Seq<u8>| FrameView::Message { subject, sid, reply_to: None, payload: p },
    );
    if payloads.len() == 0 {
        assert(find_crlf(Seq::<u8>::empty(), 0) is None);
        assert(out =~= Seq::<FrameView>::empty());
    } else {
        let first = msg_frame(subject, sid, None, payloads[0]);
        let later = msg_stream(subject, sid, payloads.drop_first());
        assert(payloads[0].len() <= u64::MAX);
        lemma_message_payload_exact(subject, sid, None, payloads[0], later);
        lemma_messages_keep_order(subject, sid, payloads.drop_first());
        assert((first + later).skip(first.len() as int) =~= later);
        assert(out =~= seq![out[0]] + payloads.drop_first().map_values(
            |p: Seq<u8>| FrameView::Message { subject, sid, reply_to: None, payload: p },
        ));
    }
}

} // verus!
