use nats_client::parser::{read_message_payload, InboundFrame, Parser, PayloadRead};
use nats_client::wire::{encode_command, parse_decimal, Command};

fn frames_of(bytes: &[u8]) -> Vec<InboundFrame> {
    let mut p = Parser::new();
    p.feed(bytes);
    let mut out = Vec::new();
    while let Some(f) = p.next_frame() {
        out.push(f);
    }
    out
}

fn message(f: &InboundFrame) -> (Vec<u8>, u64, Option<Vec<u8>>, Vec<u8>) {
    match f {
        InboundFrame::Message { subject, sid, reply_to, payload } => {
            (subject.clone(), *sid, reply_to.clone(), payload.clone())
        }
        _ => panic!("not a message"),
    }
}

#[test]
fn msg_payload_with_crlf_is_exact() {
    let payload = b"a\r\nb\r\n\r\nMSG x 1 2\r\n".to_vec();
    let mut frame = format!("MSG foo.bar 7 {}\r\n", payload.len()).into_bytes();
    frame.extend_from_slice(&payload);
    frame.extend_from_slice(b"\r\n");
    let frames = frames_of(&frame);
    assert_eq!(frames.len(), 1);
    let (subject, sid, reply_to, got) = message(&frames[0]);
    assert_eq!(subject, b"foo.bar".to_vec());
    assert_eq!(sid, 7);
    assert_eq!(reply_to, None);
    assert_eq!(got, payload);
}

#[test]
fn msg_with_reply_subject() {
    let frames = frames_of(b"MSG svc.echo 3 _INBOX.abc.0 4\r\nping\r\n");
    let (subject, sid, reply_to, payload) = message(&frames[0]);
    assert_eq!(subject, b"svc.echo".to_vec());
    assert_eq!(sid, 3);
    assert_eq!(reply_to, Some(b"_INBOX.abc.0".to_vec()));
    assert_eq!(payload, b"ping".to_vec());
}

#[test]
fn empty_payload() {
    let frames = frames_of(b"MSG a 1 0\r\n\r\n");
    assert_eq!(message(&frames[0]).3, Vec::<u8>::new());
}

#[test]
fn messages_keep_their_order() {
    let mut stream = Vec::new();
    let payloads: Vec<Vec<u8>> = vec![b"one".to_vec(), b"2\r\n".to_vec(), b"".to_vec(), b"four".to_vec()];
    for p in &payloads {
        stream.extend_from_slice(format!("MSG s 1 {}\r\n", p.len()).as_bytes());
        stream.extend_from_slice(p);
        stream.extend_from_slice(b"\r\n");
    }
    let frames = frames_of(&stream);
    let got: Vec<Vec<u8>> = frames.iter().map(|f| message(f).3).collect();
    assert_eq!(got, payloads);
}

#[test]
fn frames_arrive_byte_by_byte() {
    let bytes = b"PING\r\nMSG q 2 5\r\nhe\r\no\r\nPONG\r\n";
    let mut p = Parser::new();
    let mut out = Vec::new();
    for b in bytes.iter() {
        p.feed(&[*b]);
        while let Some(f) = p.next_frame() {
            out.push(f);
        }
    }
    assert_eq!(out.len(), 3);
    assert!(matches!(out[0], InboundFrame::Ping));
    assert_eq!(message(&out[1]).3, b"he\r\no".to_vec());
    assert!(matches!(out[2], InboundFrame::Pong));
}

#[test]
fn incomplete_payload_waits() {
    let mut p = Parser::new();
    p.feed(b"MSG q 2 5\r\nhel");
    assert!(p.next_frame().is_none());
    p.feed(b"lo\r");
    assert!(p.next_frame().is_none());
    p.feed(b"\n");
    assert_eq!(message(&p.next_frame().unwrap()).3, b"hello".to_vec());
    assert!(p.next_frame().is_none());
}

#[test]
fn control_frames() {
    let frames = frames_of(b"INFO {\"auth_required\":false}\r\n+OK\r\n-ERR 'Unknown Protocol Operation'\r\nPING\r\nPONG\r\nBOGUS x\r\n");
    assert_eq!(frames.len(), 6);
    match &frames[0] {
        InboundFrame::Info { body } => assert_eq!(body, &b"{\"auth_required\":false}".to_vec()),
        _ => panic!("expected INFO"),
    }
    assert!(matches!(frames[1], InboundFrame::Ack));
    match &frames[2] {
        InboundFrame::ServerError { reason } => {
            assert_eq!(reason, &b"'Unknown Protocol Operation'".to_vec())
        }
        _ => panic!("expected -ERR"),
    }
    assert!(matches!(frames[3], InboundFrame::Ping));
    assert!(matches!(frames[4], InboundFrame::Pong));
    match &frames[5] {
        InboundFrame::Unknown { line } => assert_eq!(line, &b"BOGUS x".to_vec()),
        _ => panic!("expected Unknown"),
    }
}

#[test]
fn malformed_msg_resynchronises() {
    let frames = frames_of(b"MSG a b c d e f\r\nMSG a 1 xx\r\nMSG a 1\r\nMSG a 1 2\r\nhi\r\n");
    assert_eq!(frames.len(), 4);
    for f in &frames[..3] {
        assert!(matches!(f, InboundFrame::ProtocolError { .. }));
    }
    assert_eq!(message(&frames[3]).3, b"hi".to_vec());
}

#[test]
fn payload_without_trailer_is_an_error() {
    let frames = frames_of(b"MSG a 1 2\r\nhiXXPING\r\n");
    assert_eq!(frames.len(), 2);
    match &frames[0] {
        InboundFrame::ProtocolError { line } => assert_eq!(line, &b"MSG a 1 2".to_vec()),
        _ => panic!("expected a protocol error"),
    }
    assert!(matches!(frames[1], InboundFrame::Ping));
}

#[test]
fn encode_commands() {
    let p = Command::Publish { subject: b"foo".to_vec(), reply_to: None, payload: b"hello".to_vec() };
    assert_eq!(encode_command(&p), b"PUB foo 5\r\nhello\r\n".to_vec());
    let p = Command::Publish {
        subject: b"foo".to_vec(),
        reply_to: Some(b"_INBOX.x".to_vec()),
        payload: b"a\r\nb".to_vec(),
    };
    assert_eq!(encode_command(&p), b"PUB foo _INBOX.x 4\r\na\r\nb\r\n".to_vec());
    let s = Command::Subscribe { subject: b"foo.*".to_vec(), queue_group: Some(b"workers".to_vec()), sid: 12 };
    assert_eq!(encode_command(&s), b"SUB foo.* workers 12\r\n".to_vec());
    let s = Command::Subscribe { subject: b"foo".to_vec(), queue_group: None, sid: 1 };
    assert_eq!(encode_command(&s), b"SUB foo 1\r\n".to_vec());
    assert_eq!(encode_command(&Command::Unsubscribe { sid: 40 }), b"UNSUB 40\r\n".to_vec());
    assert_eq!(encode_command(&Command::Ping), b"PING\r\n".to_vec());
    assert_eq!(encode_command(&Command::Pong), b"PONG\r\n".to_vec());
    let c = Command::Connect { options: b"{}".to_vec() };
    assert_eq!(encode_command(&c), b"CONNECT {}\r\n".to_vec());
}

#[test]
fn decimal_numbers() {
    assert_eq!(parse_decimal(b"0"), Some(0));
    assert_eq!(parse_decimal(b"042"), Some(42));
    assert_eq!(parse_decimal(b"18446744073709551615"), Some(u64::MAX));
    assert_eq!(parse_decimal(b"18446744073709551616"), None);
    assert_eq!(parse_decimal(b""), None);
    assert_eq!(parse_decimal(b"12a"), None);
    assert_eq!(parse_decimal(b"-1"), None);
    let mut out = Vec::new();
    nats_client::wire::write_decimal(&mut out, 1234567890);
    assert_eq!(out, b"1234567890".to_vec());
}

#[test]
fn read_exact_payload() {
    let buf = b"xxab\r\ncd\r\nrest";
    match read_message_payload(buf, 2, 6) {
        PayloadRead::Payload(p) => assert_eq!(p, b"ab\r\ncd".to_vec()),
        _ => panic!("expected the payload"),
    }
    assert!(matches!(read_message_payload(buf, 2, 11), PayloadRead::NeedMore));
    assert!(matches!(read_message_payload(buf, 2, 3), PayloadRead::MissingTerminator));
    assert!(matches!(read_message_payload(b"\r\n", 0, 0), PayloadRead::Payload(_)));
}
