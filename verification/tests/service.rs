use linemux::codec::LineCodec;
use linemux::connection::Connection;
use linemux::error::ProtoError;
use linemux::registry::Token;
use linemux::service::{is_framable, reply_payload, Dispatcher, EchoService, Pending, Service};
use linemux::transport::{Framed, LineProto};

fn transport() -> Framed {
    LineProto.bind_transport(Connection::new(0)).unwrap()
}

fn echo() -> Dispatcher {
    Dispatcher::new(Service::Echo(EchoService))
}

#[test]
fn echo_returns_the_request() {
    assert_eq!(EchoService.call("hello".to_string()), Ok("hello".to_string()));
    assert_eq!(EchoService.call(String::new()), Ok(String::new()));
    assert_eq!(Service::Echo(EchoService).call("x y".to_string()), Ok("x y".to_string()));
}

#[test]
fn bind_transport_wraps_the_connection() {
    let mut conn = Connection::new(4);
    conn.read_buf.push(1);
    let t = LineProto.bind_transport(conn).unwrap();
    assert_eq!(t.io.generation, 4);
    assert_eq!(t.io.read_buf, vec![1]);
    assert_eq!(t.codec, LineCodec);
    let back = t.into_inner();
    assert_eq!(back.read_buf, vec![1]);
}

#[test]
fn transport_pulls_frames_as_bytes_arrive() {
    let mut t = transport();
    assert_eq!(t.poll(), Ok(None));
    t.fill(&[0, 0, 0, 5, b'a']);
    assert_eq!(t.poll(), Ok(None));
    t.fill(&[b'b', b'\n', 0, 0]);
    assert_eq!(t.poll(), Ok(Some((5, "ab".to_string()))));
    assert_eq!(t.poll(), Ok(None));
    assert_eq!(t.io.read_buf, vec![0, 0]);
}

#[test]
fn transport_queues_what_is_pushed() {
    let mut t = transport();
    assert_eq!(t.start_send((1, "a".to_string())), Ok(()));
    assert_eq!(t.start_send((2, "b".to_string())), Ok(()));
    assert_eq!(t.io.write_buf, vec![0, 0, 0, 1, b'a', b'\n', 0, 0, 0, 2, b'b', b'\n']);
    let out = t.take_outbound();
    assert_eq!(out, vec![0, 0, 0, 1, b'a', b'\n', 0, 0, 0, 2, b'b', b'\n']);
    assert!(t.io.write_buf.is_empty());
    assert!(t.take_outbound().is_empty());
}

#[test]
fn framable_means_no_line_feed() {
    assert!(is_framable(""));
    assert!(is_framable("plain text"));
    assert!(is_framable("\u{10a}\u{a0a}\u{4e0a}"));
    assert!(!is_framable("\n"));
    assert!(!is_framable("two\nlines"));
    assert!(!is_framable("end\n"));
}

#[test]
fn reply_payload_is_the_answer_or_the_reason() {
    assert_eq!(reply_payload(Ok("pong".to_string())), "pong");
    assert_eq!(reply_payload(Err(ProtoError::Failed("no such key".to_string()))), "no such key");
    assert_eq!(reply_payload(Err(ProtoError::InvalidString)), "invalid string");
}

#[test]
fn reply_payload_replaces_text_with_a_terminator() {
    assert_eq!(reply_payload(Ok("a\nb".to_string())), "terminator in payload");
    assert_eq!(
        reply_payload(Err(ProtoError::Failed("bad\n".to_string()))),
        "terminator in payload"
    );
}

#[test]
fn dispatch_keeps_the_tag() {
    let p = echo().dispatch(Token(3), 9, (42, "ping".to_string()));
    assert_eq!(
        p,
        Pending { token: Token(3), generation: 9, request_id: 42, outcome: Ok("ping".to_string()) }
    );
}

#[test]
fn respond_queues_one_tagged_frame() {
    let mut t = transport();
    echo().respond(&mut t, 7, Ok("hi".to_string()));
    assert_eq!(t.io.write_buf, vec![0, 0, 0, 7, b'h', b'i', b'\n']);
    echo().respond(&mut t, 8, Err(ProtoError::Failed("no".to_string())));
    assert_eq!(t.io.write_buf, vec![0, 0, 0, 7, b'h', b'i', b'\n', 0, 0, 0, 8, b'n', b'o', b'\n']);
}

#[test]
fn respond_never_breaks_the_framing() {
    let mut t = transport();
    echo().respond(&mut t, 1, Ok("x\ny".to_string()));
    let mut expected = vec![0, 0, 0, 1];
    expected.extend_from_slice(b"terminator in payload\n");
    assert_eq!(t.io.write_buf, expected);
}

#[test]
fn serve_answers_every_whole_frame() {
    let mut t = transport();
    let input = vec![0, 0, 0, 1, b'a', b'\n', 0, 0, 0, 2, b'b', b'c', b'\n', 0, 0, 0, 3, b'd'];
    t.fill(&input);
    assert_eq!(echo().serve(&mut t, Token(0)), Ok(2));
    assert_eq!(t.io.write_buf, input[..13].to_vec());
    assert_eq!(t.io.read_buf, input[13..].to_vec());
    assert_eq!(echo().serve(&mut t, Token(0)), Ok(0));
    t.fill(&[b'\n']);
    assert_eq!(echo().serve(&mut t, Token(0)), Ok(1));
    assert_eq!(t.io.write_buf, [&input[..], &[b'\n'][..]].concat());
    assert!(t.io.read_buf.is_empty());
}

#[test]
fn serve_stops_at_a_payload_that_is_no_text() {
    let mut t = transport();
    t.fill(&[0, 0, 0, 1, b'a', b'\n', 0, 0, 0, 2, 0xC3, b'\n', 0, 0, 0, 3, b'c', b'\n']);
    assert_eq!(echo().serve(&mut t, Token(0)), Err(ProtoError::InvalidString));
    assert_eq!(t.io.write_buf, vec![0, 0, 0, 1, b'a', b'\n']);
    assert_eq!(t.io.read_buf, vec![0, 0, 0, 3, b'c', b'\n']);
}
