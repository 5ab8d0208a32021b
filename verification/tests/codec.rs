use linemux::codec::{find_terminator, LineCodec};
use linemux::error::ProtoError;

fn encoded(id: u32, payload: &str) -> Vec<u8> {
    let mut buf = Vec::new();
    LineCodec.encode((id, payload.to_string()), &mut buf).unwrap();
    buf
}

#[test]
fn encode_writes_id_payload_and_terminator() {
    assert_eq!(encoded(7, "hi"), vec![0x00, 0x00, 0x00, 0x07, b'h', b'i', b'\n']);
}

#[test]
fn encode_puts_the_most_significant_byte_first() {
    assert_eq!(encoded(0x0102_0304, ""), vec![0x01, 0x02, 0x03, 0x04, b'\n']);
    assert_eq!(encoded(u32::MAX, ""), vec![0xFF, 0xFF, 0xFF, 0xFF, b'\n']);
    assert_eq!(encoded(256, "a"), vec![0x00, 0x00, 0x01, 0x00, b'a', b'\n']);
}

#[test]
fn encode_appends_to_what_the_buffer_holds() {
    let mut buf = vec![0xAA, 0xBB];
    let r = LineCodec.encode((1, "x".to_string()), &mut buf);
    assert_eq!(r, Ok(()));
    assert_eq!(buf, vec![0xAA, 0xBB, 0, 0, 0, 1, b'x', b'\n']);
}

#[test]
fn encode_does_not_inspect_the_payload() {
    assert_eq!(encoded(1, "a\nb"), vec![0, 0, 0, 1, b'a', b'\n', b'b', b'\n']);
}

#[test]
fn decode_reads_one_frame() {
    let mut buf = vec![0x00, 0x00, 0x00, 0x07, b'h', b'i', b'\n'];
    let r = LineCodec.decode(&mut buf);
    assert_eq!(r, Ok(Some((7, "hi".to_string()))));
    assert!(buf.is_empty());
}

#[test]
fn decode_reads_the_id_as_big_endian() {
    let mut buf = vec![0x01, 0x02, 0x03, 0x04, b'\n'];
    assert_eq!(LineCodec.decode(&mut buf), Ok(Some((0x0102_0304, String::new()))));
    let mut buf = vec![0xFF, 0xFF, 0xFF, 0xFF, b'z', b'\n'];
    assert_eq!(LineCodec.decode(&mut buf), Ok(Some((u32::MAX, "z".to_string()))));
}

#[test]
fn decode_of_encode_is_the_frame() {
    let cases: Vec<(u32, &str)> = vec![
        (0, ""),
        (1, "hello"),
        (7, "hi"),
        (0xDEAD_BEEF, "This is the frame payload "),
        (u32::MAX, "gr\u{fc}\u{df}e \u{4e16}\u{754c} \u{1f600}"),
        (0x0A0A_0A0A, "tab\tand\rreturn"),
    ];
    for (id, payload) in cases {
        let mut buf = encoded(id, payload);
        let len = buf.len();
        assert_eq!(len, 4 + payload.len() + 1);
        let r = LineCodec.decode(&mut buf);
        assert_eq!(r, Ok(Some((id, payload.to_string()))));
        assert!(buf.is_empty());
    }
}

#[test]
fn decode_needs_more_on_every_strict_prefix() {
    let full = encoded(0x0A00_000A, "multi\u{e9}plex");
    for k in 0..full.len() {
        let mut buf = full[..k].to_vec();
        let r = LineCodec.decode(&mut buf);
        assert_eq!(r, Ok(None), "prefix of {} bytes", k);
        assert_eq!(buf, full[..k].to_vec());
    }
}

#[test]
fn decode_needs_more_on_short_buffers() {
    for buf in [vec![], vec![b'\n'], vec![0, 0, 0, 7], vec![b'\n', b'\n', b'\n', b'\n']] {
        let mut work = buf.clone();
        assert_eq!(LineCodec.decode(&mut work), Ok(None));
        assert_eq!(work, buf);
    }
}

#[test]
fn decode_ignores_terminators_inside_the_id() {
    let mut buf = vec![b'\n', b'\n', b'\n', b'\n', b'o', b'k'];
    assert_eq!(LineCodec.decode(&mut buf), Ok(None));
    assert_eq!(buf.len(), 6);
    buf.push(b'\n');
    assert_eq!(LineCodec.decode(&mut buf), Ok(Some((0x0A0A_0A0A, "ok".to_string()))));
    assert!(buf.is_empty());
}

#[test]
fn decode_takes_two_frames_in_order() {
    let mut buf = encoded(1, "first");
    buf.extend(encoded(2, "second"));
    assert_eq!(LineCodec.decode(&mut buf), Ok(Some((1, "first".to_string()))));
    assert_eq!(buf, encoded(2, "second"));
    assert_eq!(LineCodec.decode(&mut buf), Ok(Some((2, "second".to_string()))));
    assert!(buf.is_empty());
    assert_eq!(LineCodec.decode(&mut buf), Ok(None));
}

#[test]
fn decode_leaves_the_start_of_the_next_frame() {
    let mut buf = encoded(9, "whole");
    buf.extend([0, 0, 0, 10, b'p', b'a']);
    assert_eq!(LineCodec.decode(&mut buf), Ok(Some((9, "whole".to_string()))));
    assert_eq!(buf, vec![0, 0, 0, 10, b'p', b'a']);
    assert_eq!(LineCodec.decode(&mut buf), Ok(None));
    assert_eq!(buf, vec![0, 0, 0, 10, b'p', b'a']);
}

#[test]
fn decode_rejects_a_payload_that_is_not_utf8() {
    let mut buf = vec![0, 0, 0, 1, 0xFF, 0xFE, b'\n', 0, 0, 0, 2, b'k', b'\n'];
    assert_eq!(LineCodec.decode(&mut buf), Err(ProtoError::InvalidString));
    assert_eq!(buf, vec![0, 0, 0, 2, b'k', b'\n']);
}

#[test]
fn decode_rejects_a_truncated_character() {
    let mut buf = vec![0, 0, 0, 1, 0xE4, 0xB8, b'\n'];
    assert_eq!(LineCodec.decode(&mut buf), Err(ProtoError::InvalidString));
    assert!(buf.is_empty());
}

#[test]
fn find_terminator_counts_from_the_end_of_the_id() {
    assert_eq!(find_terminator(&[0, 0, 0, 7, b'h', b'i', b'\n']), Some(2));
    assert_eq!(find_terminator(&[0, 0, 0, 7, b'\n']), Some(0));
    assert_eq!(find_terminator(&[b'\n', 0, 0, 7, b'a', b'\n', b'\n']), Some(1));
    assert_eq!(find_terminator(&[0, 0, 0, 7, b'h', b'i']), None);
    assert_eq!(find_terminator(&[b'\n', b'\n']), None);
    assert_eq!(find_terminator(&[]), None);
}

#[test]
fn error_messages() {
    assert_eq!(ProtoError::InvalidString.message(), "invalid string");
    assert_eq!(ProtoError::TerminatorInPayload.message(), "terminator in payload");
    assert_eq!(ProtoError::RegistryFull.message(), "connection table is full");
    assert_eq!(ProtoError::GenerationsExhausted.message(), "connection numbers are used up");
    assert_eq!(ProtoError::Failed("no such key".to_string()).message(), "no such key");
}
