use nats_client::backoff::{backoff_delay, should_retry};
use nats_client::client::{Client, ClientError, ClientOptions, ConnState, Reaction, TickAction};
use nats_client::handshake::{connect_options, handshake_options, Credentials, ServerInfo};
use nats_client::keepalive::{Keepalive, KeepaliveAction};
use nats_client::parser::{InboundFrame, Parser};
use nats_client::registry::Registry;
use nats_client::wire::Command;
use nats_client::writer::{Busy, OutboundQueue};
use std::cell::RefCell;
use std::rc::Rc;

type Callback = Box<dyn Fn(&[u8], Option<&[u8]>, &[u8])>;

fn options(credentials: Option<Credentials>) -> ClientOptions {
    ClientOptions {
        verbose: false,
        pedantic: false,
        credentials,
        max_outstanding_pings: 2,
        queue_capacity: 16,
    }
}

fn frame(bytes: &[u8]) -> InboundFrame {
    let mut p = Parser::new();
    p.feed(bytes);
    p.next_frame().expect("a complete frame")
}

fn decode_info(body: &[u8]) -> ServerInfo {
    let text = String::from_utf8(body.to_vec()).unwrap();
    let json = rustc_serialize::json::Json::from_str(&text).unwrap();
    let flag = |k: &str| json.find(k).and_then(|v| v.as_boolean()).unwrap_or(false);
    ServerInfo { auth_required: flag("auth_required"), tls_required: flag("tls_required") }
}

fn connected_client() -> Client<Callback> {
    let mut c: Client<Callback> = Client::new(options(None), b"t".to_vec());
    assert!(c.begin_handshake());
    let body = match c.handle_frame(frame(b"INFO {\"auth_required\":false}\r\n")) {
        Reaction::Banner(b) => b,
        _ => panic!("expected the banner"),
    };
    c.connect(&decode_info(&body)).unwrap();
    assert!(matches!(c.handle_frame(frame(b"PONG\r\n")), Reaction::Connected));
    c
}

fn drain(c: &mut Client<Callback>) -> Vec<Vec<u8>> {
    let mut out = Vec::new();
    while let Some(f) = c.take_outbound() {
        out.push(f);
    }
    out
}

#[test]
fn handshake_without_auth() {
    let mut c: Client<Callback> = Client::new(options(None), b"t".to_vec());
    assert_eq!(c.state(), ConnState::Disconnected);
    assert!(c.begin_handshake());
    assert_eq!(c.state(), ConnState::Handshaking);
    let body = match c.handle_frame(frame(b"INFO {\"auth_required\":false}\r\n")) {
        Reaction::Banner(b) => b,
        _ => panic!("expected the banner"),
    };
    let sent = c.connect(&decode_info(&body)).unwrap();
    assert_eq!(sent, b"CONNECT {\"verbose\":false,\"pedantic\":false}\r\nPING\r\n".to_vec());
    assert!(matches!(c.handle_frame(frame(b"PONG\r\n")), Reaction::Connected));
    assert_eq!(c.state(), ConnState::Connected);
}

#[test]
fn handshake_with_credentials() {
    let creds = Credentials { user: "derek".to_string(), pass: "s\"e\\cret".to_string() };
    let mut c: Client<Callback> = Client::new(options(Some(creds)), b"t".to_vec());
    c.begin_handshake();
    let sent = c.connect(&ServerInfo { auth_required: true, tls_required: false }).unwrap();
    assert_eq!(
        String::from_utf8(sent).unwrap(),
        "CONNECT {\"verbose\":false,\"pedantic\":false,\"user\":\"derek\",\"pass\":\"s\\\"e\\\\cret\"}\r\nPING\r\n"
    );
}

#[test]
fn handshake_options_encode_strings() {
    let creds = Some(Credentials { user: "a\nb".to_string(), pass: "".to_string() });
    let info = ServerInfo { auth_required: true, tls_required: false };
    let o = handshake_options(true, false, &info, &creds).unwrap().unwrap();
    assert_eq!(
        String::from_utf8(o).unwrap(),
        "{\"verbose\":true,\"pedantic\":false,\"user\":\"a\\nb\",\"pass\":\"\"}"
    );
    let open = ServerInfo { auth_required: false, tls_required: false };
    assert_eq!(handshake_options(false, true, &open, &creds).unwrap().unwrap(), b"{\"verbose\":false,\"pedantic\":true}".to_vec());
    assert_eq!(handshake_options(false, false, &info, &None), Ok(None));
    assert_eq!(
        connect_options(false, false, Some((b"\"u\"".to_vec(), b"\"p\"".to_vec()))),
        b"{\"verbose\":false,\"pedantic\":false,\"user\":\"u\",\"pass\":\"p\"}".to_vec()
    );
}

#[test]
fn auth_required_without_credentials_fails() {
    let mut c: Client<Callback> = Client::new(options(None), b"t".to_vec());
    c.begin_handshake();
    let r = c.connect(&ServerInfo { auth_required: true, tls_required: false });
    assert_eq!(r, Err(ClientError::Auth));
    assert_eq!(c.state(), ConnState::Closed);
}

#[test]
fn first_frame_not_info_fails() {
    let mut c: Client<Callback> = Client::new(options(None), b"t".to_vec());
    c.begin_handshake();
    assert!(matches!(c.handle_frame(frame(b"PING\r\n")), Reaction::Failed(ClientError::Handshake)));
    assert_eq!(c.state(), ConnState::Closed);
}

#[test]
fn connect_without_handshake_fails() {
    let mut c: Client<Callback> = Client::new(options(None), b"t".to_vec());
    let r = c.connect(&ServerInfo { auth_required: false, tls_required: false });
    assert_eq!(r, Err(ClientError::Handshake));
    assert_eq!(c.state(), ConnState::Disconnected);
}

#[test]
fn err_during_handshake_is_auth_error() {
    let mut c: Client<Callback> = Client::new(options(None), b"t".to_vec());
    c.begin_handshake();
    c.handle_frame(frame(b"INFO {}\r\n"));
    c.connect(&ServerInfo { auth_required: false, tls_required: false }).unwrap();
    let r = c.handle_frame(frame(b"-ERR 'Authorization Violation'\r\n"));
    assert!(matches!(r, Reaction::Failed(ClientError::Auth)));
    assert_eq!(c.state(), ConnState::Closed);
}

#[test]
fn subscribe_and_deliver() {
    let mut c = connected_client();
    let seen: Rc<RefCell<Vec<Vec<u8>>>> = Rc::new(RefCell::new(Vec::new()));
    let log = seen.clone();
    let cb: Callback = Box::new(move |_s, _r, p| log.borrow_mut().push(p.to_vec()));
    let sid = c.subscribe(b"foo.bar".to_vec(), None, cb).unwrap();
    assert_eq!(sid, 1);
    assert_eq!(drain(&mut c), vec![b"SUB foo.bar 1\r\n".to_vec()]);
    match c.handle_frame(frame(b"MSG foo.bar 1 5\r\nhello\r\n")) {
        Reaction::Deliver(d) => {
            let s = c.subscription(d.sid).unwrap();
            (s.callback)(&d.subject, d.reply_to.as_deref(), &d.payload);
        }
        _ => panic!("expected a delivery"),
    }
    assert_eq!(*seen.borrow(), vec![b"hello".to_vec()]);
}

#[test]
fn request_gets_reply_on_inbox() {
    let mut c = connected_client();
    c.subscribe(b"other".to_vec(), None, Box::new(|_, _, _| {})).unwrap();
    drain(&mut c);
    let (sid, inbox) = c.request(b"svc.echo".to_vec(), b"ping".to_vec(), Box::new(|_, _, _| {})).unwrap();
    assert_eq!(sid, 2);
    assert_eq!(inbox, b"_INBOX.t.0".to_vec());
    assert_eq!(
        drain(&mut c),
        vec![b"SUB _INBOX.t.0 2\r\n".to_vec(), b"PUB svc.echo _INBOX.t.0 4\r\nping\r\n".to_vec()]
    );
    match c.handle_frame(frame(b"MSG _INBOX.t.0 2 4\r\npong\r\n")) {
        Reaction::Deliver(d) => {
            assert_eq!(d.sid, 2);
            assert_eq!(d.payload, b"pong".to_vec());
        }
        _ => panic!("expected the reply"),
    }
    c.unsubscribe(sid).unwrap();
    let (_, second) = c.request(b"svc.echo".to_vec(), b"x".to_vec(), Box::new(|_, _, _| {})).unwrap();
    assert_eq!(second, b"_INBOX.t.1".to_vec());
}

#[test]
fn ids_never_reused_after_unsubscribe() {
    let mut c = connected_client();
    let a = c.subscribe(b"a".to_vec(), None, Box::new(|_, _, _| {})).unwrap();
    let b = c.subscribe(b"b".to_vec(), None, Box::new(|_, _, _| {})).unwrap();
    c.unsubscribe(b).unwrap();
    c.unsubscribe(a).unwrap();
    let d = c.subscribe(b"b".to_vec(), None, Box::new(|_, _, _| {})).unwrap();
    assert!(a < b && b < d);
    assert_eq!(d, 3);
}

#[test]
fn registry_ids_grow() {
    let mut r: Registry<u8> = Registry::new();
    assert_eq!(r.add(b"x".to_vec(), None, 0), Some(1));
    assert_eq!(r.add(b"y".to_vec(), Some(b"g".to_vec()), 1), Some(2));
    assert!(r.remove(2));
    assert!(!r.remove(2));
    assert_eq!(r.add(b"z".to_vec(), None, 2), Some(3));
    assert_eq!(r.len(), 2);
    assert_eq!(r.lookup(3).unwrap().subject, b"z".to_vec());
    assert!(r.lookup(2).is_none());
}

#[test]
fn message_after_unsubscribe_is_dropped() {
    let mut c = connected_client();
    let sid = c.subscribe(b"foo".to_vec(), None, Box::new(|_, _, _| panic!("must not run"))).unwrap();
    drain(&mut c);
    c.unsubscribe(sid).unwrap();
    assert_eq!(drain(&mut c), vec![b"UNSUB 1\r\n".to_vec()]);
    assert!(matches!(c.handle_frame(frame(b"MSG foo 1 2\r\nhi\r\n")), Reaction::Ignore));
    assert!(c.unsubscribe(sid).is_ok());
    assert!(drain(&mut c).is_empty());
}

#[test]
fn ping_gets_pong() {
    let mut c = connected_client();
    match c.handle_frame(frame(b"PING\r\n")) {
        Reaction::Reply(b) => assert_eq!(b, b"PONG\r\n".to_vec()),
        _ => panic!("expected a PONG"),
    }
}

#[test]
fn protocol_and_server_errors_are_reported() {
    let mut c = connected_client();
    assert!(matches!(c.handle_frame(frame(b"MSG x\r\n")), Reaction::ProtocolError(_)));
    assert!(matches!(c.handle_frame(frame(b"-ERR 'Stale Connection'\r\n")), Reaction::ServerError(_)));
    assert_eq!(c.state(), ConnState::Connected);
}

#[test]
fn unanswered_pings_trigger_reconnect() {
    let mut c = connected_client();
    for _ in 0..3 {
        match c.tick() {
            TickAction::SendPing(b) => assert_eq!(b, b"PING\r\n".to_vec()),
            _ => panic!("expected a PING"),
        }
    }
    assert!(matches!(c.tick(), TickAction::Reconnect));
    assert_eq!(c.state(), ConnState::Draining);
}

#[test]
fn pongs_keep_the_connection() {
    let mut c = connected_client();
    for _ in 0..10 {
        assert!(matches!(c.tick(), TickAction::SendPing(_)));
        c.handle_frame(frame(b"PONG\r\n"));
    }
    assert_eq!(c.state(), ConnState::Connected);
}

#[test]
fn keepalive_counts() {
    let mut k = Keepalive::new(1);
    assert_eq!(k.tick(), KeepaliveAction::SendPing);
    assert_eq!(k.tick(), KeepaliveAction::SendPing);
    assert_eq!(k.tick(), KeepaliveAction::Reconnect);
    k.pong();
    assert_eq!(k.outstanding, 1);
    assert_eq!(k.tick(), KeepaliveAction::SendPing);
    k.pong();
    k.pong();
    k.pong();
    assert_eq!(k.outstanding, 0);
}

#[test]
fn read_failure_reconnects_and_resubscribes() {
    let mut c = connected_client();
    c.subscribe(b"foo.bar".to_vec(), None, Box::new(|_, _, _| {})).unwrap();
    c.subscribe(b"jobs".to_vec(), Some(b"workers".to_vec()), Box::new(|_, _, _| {})).unwrap();
    drain(&mut c);
    assert!(c.connection_lost());
    assert_eq!(c.state(), ConnState::Draining);
    assert!(c.reconnect());
    assert_eq!(c.state(), ConnState::Disconnected);
    assert!(c.begin_handshake());
    c.handle_frame(frame(b"INFO {}\r\n"));
    let sent = c.connect(&ServerInfo { auth_required: false, tls_required: false }).unwrap();
    assert_eq!(
        String::from_utf8(sent).unwrap(),
        "CONNECT {\"verbose\":false,\"pedantic\":false}\r\nSUB foo.bar 1\r\nSUB jobs workers 2\r\nPING\r\n"
    );
}

#[test]
fn close_stops_sends_and_reconnects() {
    let mut c = connected_client();
    c.close();
    assert_eq!(c.state(), ConnState::Draining);
    assert_eq!(c.publish(b"a".to_vec(), None, b"x".to_vec()), Err(ClientError::NotConnected));
    assert!(matches!(c.subscribe(b"a".to_vec(), None, Box::new(|_, _, _| {})), Err(ClientError::NotConnected)));
    c.finish_close();
    assert_eq!(c.state(), ConnState::Closed);
    assert!(!c.connection_lost());
    assert!(!c.reconnect());
}

#[test]
fn publish_queues_frames_in_order() {
    let mut c = connected_client();
    c.publish(b"a".to_vec(), None, b"1".to_vec()).unwrap();
    c.publish(b"a".to_vec(), Some(b"r".to_vec()), b"22".to_vec()).unwrap();
    assert_eq!(drain(&mut c), vec![b"PUB a 1\r\n1\r\n".to_vec(), b"PUB a r 2\r\n22\r\n".to_vec()]);
}

#[test]
fn publish_before_connect_is_refused() {
    let mut c: Client<Callback> = Client::new(options(None), b"t".to_vec());
    assert_eq!(c.publish(b"a".to_vec(), None, b"x".to_vec()), Err(ClientError::NotConnected));
    let sid = c.subscribe(b"early".to_vec(), None, Box::new(|_, _, _| {})).unwrap();
    assert_eq!(sid, 1);
    assert!(c.take_outbound().is_none());
}

#[test]
fn full_queue_is_busy() {
    let mut o = options(None);
    o.queue_capacity = 1;
    let mut c: Client<Callback> = Client::new(o, b"t".to_vec());
    c.begin_handshake();
    c.handle_frame(frame(b"INFO {}\r\n"));
    c.connect(&ServerInfo { auth_required: false, tls_required: false }).unwrap();
    c.handle_frame(frame(b"PONG\r\n"));
    c.publish(b"a".to_vec(), None, b"1".to_vec()).unwrap();
    assert_eq!(c.publish(b"a".to_vec(), None, b"2".to_vec()), Err(ClientError::Busy));
    assert!(matches!(c.subscribe(b"a".to_vec(), None, Box::new(|_, _, _| {})), Err(ClientError::Busy)));
    assert!(matches!(c.request(b"a".to_vec(), b"q".to_vec(), Box::new(|_, _, _| {})), Err(ClientError::Busy)));
    assert_eq!(drain(&mut c).len(), 1);
}

#[test]
fn outbound_queue_is_fifo_and_bounded() {
    let mut q = OutboundQueue::new(2);
    assert_eq!(q.push(b"a".to_vec()), Ok(()));
    assert_eq!(q.push(b"b".to_vec()), Ok(()));
    assert_eq!(q.push(b"c".to_vec()), Err(Busy));
    assert_eq!(q.pop(), Some(b"a".to_vec()));
    assert_eq!(q.pop(), Some(b"b".to_vec()));
    assert_eq!(q.pop(), None);
}

#[test]
fn backoff_grows_and_caps() {
    assert_eq!(backoff_delay(0, 100, 5000, 0), 100);
    assert_eq!(backoff_delay(3, 100, 5000, 7), 807);
    assert_eq!(backoff_delay(10, 100, 5000, 25), 5025);
    assert_eq!(backoff_delay(200, 100, 5000, 0), 5000);
    assert_eq!(backoff_delay(64, u64::MAX, u64::MAX, 5), u64::MAX);
    assert!(should_retry(3, None));
    assert!(should_retry(2, Some(3)));
    assert!(!should_retry(3, Some(3)));
}

#[test]
fn send_command_queues_wire_bytes() {
    let mut fresh: Client<Callback> = Client::new(options(None), b"t".to_vec());
    assert_eq!(fresh.send_command(&Command::Ping), Err(ClientError::NotConnected));
    let mut c = connected_client();
    c.send_command(&Command::Unsubscribe { sid: 9 }).unwrap();
    c.send_command(&Command::Ping).unwrap();
    assert_eq!(c.queued(), 2);
    assert_eq!(drain(&mut c), vec![b"UNSUB 9\r\n".to_vec(), b"PING\r\n".to_vec()]);
}
