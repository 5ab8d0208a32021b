//! The wire format, as mathematics: what the bytes of a frame are, and what a
//! buffer of received bytes decodes to.
use vstd::prelude::*;
use vstd::utf8::*;

verus! {

/// Number of bytes of the request identifier that starts every frame.
pub const ID_LEN: usize = 4;

/// The byte that ends every frame (line feed).
pub const TERMINATOR: u8 = 0x0A;

/// The value of four bytes read as a big-endian unsigned integer.
pub open spec fn be_u32(b: Seq<u8>) -> u32
    recommends
        b.len() == 4,
{
    (b[0] as int * 0x100_0000 + b[1] as int * 0x1_0000 + b[2] as int * 0x100 + b[3] as int) as u32
}

/// The four bytes of `v`, most significant first.
pub open spec fn be_bytes(v: u32) -> Seq<u8> {
    seq![
        (v as int / 0x100_0000) as u8,
        (v as int / 0x1_0000 % 0x100) as u8,
        (v as int / 0x100 % 0x100) as u8,
        (v as int % 0x100) as u8,
    ]
}

/// The bytes of one frame: identifier, payload text in UTF-8, terminator.
pub open spec fn frame_bytes(request_id: u32, payload: Seq<char>) -> Seq<u8> {
    be_bytes(request_id) + encode_utf8(payload) + seq![TERMINATOR]
}

/// `n` is the offset, counted from the end of the identifier, of the first
/// terminator in `buf`.
pub open spec fn ends_at(buf: Seq<u8>, n: int) -> bool {
    &&& 0 <= n
    &&& ID_LEN + n < buf.len()
    &&& buf[ID_LEN + n] == TERMINATOR
    &&& forall|i: int| ID_LEN <= i < ID_LEN + n ==> buf[i] != TERMINATOR
}

/// A terminator stands somewhere after the identifier.
pub open spec fn has_frame(buf: Seq<u8>) -> bool {
    exists|n: int| ends_at(buf, n)
}

/// Length in bytes of the payload of the first frame in `buf`.
pub open spec fn payload_len(buf: Seq<u8>) -> int
    recommends
        has_frame(buf),
{
    choose|n: int| ends_at(buf, n)
}

/// What one decoding step makes of a buffer.
pub enum Decoded {
    /// No complete frame yet; nothing is consumed.
    NeedMoreBytes,
    /// A frame, and the number of bytes it took from the front of the buffer.
    Frame { request_id: u32, payload: Seq<char>, consumed: nat },
    /// The payload of the first frame is not UTF-8 text; its bytes are gone.
    Fatal { consumed: nat },
}

/// The outcome of decoding the front of `buf`.
pub open spec fn decode_step(buf: Seq<u8>) -> Decoded {
    if !has_frame(buf) {
        Decoded::NeedMoreBytes
    } else {
        let n = payload_len(buf);
        let body = buf.subrange(ID_LEN as int, ID_LEN + n);
        let consumed = (ID_LEN + n + 1) as nat;
        if valid_utf8(body) {
            Decoded::Frame {
                request_id: be_u32(buf.subrange(0, ID_LEN as int)),
                payload: decode_utf8(body),
                consumed,
            }
        } else {
            Decoded::Fatal { consumed }
        }
    }
}

/// The first terminator is where it is: two offsets that both end the first
/// frame are the same offset.
pub proof fn lemma_ends_at_unique(buf: Seq<u8>, n: int, m: int)
    requires
        ends_at(buf, n),
        ends_at(buf, m),
    ensures
        n == m,
{
    if n < m {
        assert(buf[ID_LEN + n] != TERMINATOR);
    } else if m < n {
        assert(buf[ID_LEN + m] != TERMINATOR);
    }
}

/// Once the first terminator is found at `n`, `payload_len` is `n`.
pub proof fn lemma_payload_len(buf: Seq<u8>, n: int)
    requires
        ends_at(buf, n),
    ensures
        has_frame(buf),
        payload_len(buf) == n,
{
    lemma_ends_at_unique(buf, n, payload_len(buf));
}

/// A decoding step that consumes anything consumes at least the identifier
/// and the terminator, and never more than the buffer holds.
pub proof fn lemma_consumed(buf: Seq<u8>)
    ensures
        match decode_step(buf) {
            Decoded::NeedMoreBytes => true,
            Decoded::Frame { consumed, .. } => ID_LEN < consumed <= buf.len(),
            Decoded::Fatal { consumed } => ID_LEN < consumed <= buf.len(),
        },
{
    if has_frame(buf) {
        assert(ends_at(buf, payload_len(buf)));
    }
}

/// A buffer too short to hold an identifier and a terminator asks for more
/// bytes.
pub proof fn lemma_short_buffer(buf: Seq<u8>)
    requires
        buf.len() <= ID_LEN,
    ensures
        decode_step(buf) == Decoded::NeedMoreBytes,
{
}

/// A buffer without a terminator after the identifier asks for more bytes.
pub proof fn lemma_no_terminator(buf: Seq<u8>)
    requires
        forall|i: int| ID_LEN <= i < buf.len() ==> buf[i] != TERMINATOR,
    ensures
        decode_step(buf) == Decoded::NeedMoreBytes,
{
    assert forall|n: int| !ends_at(buf, n) by {
        if ends_at(buf, n) {
            assert(buf[ID_LEN + n] == TERMINATOR);
        }
    }
}

/// Reading back the four bytes of an integer gives the integer.
pub proof fn lemma_be_round_trip(v: u32)
    ensures
        be_bytes(v).len() == 4,
        be_u32(be_bytes(v)) == v,
{
}

/// Writing out the integer that four bytes were read as gives the bytes.
pub proof fn lemma_be_bytes_of_value(b: Seq<u8>)
    requires
        b.len() == 4,
    ensures
        be_bytes(be_u32(b)) == b,
{
    let (b0, b1, b2, b3) = (b[0] as int, b[1] as int, b[2] as int, b[3] as int);
    let v = b0 * 0x100_0000 + b1 * 0x1_0000 + b2 * 0x100 + b3;
    assert(be_u32(b) as int == v);
    lemma_digit(b0 * 0x1_0000 + b1 * 0x100 + b2, b3);
    lemma_digit(b0 * 0x100 + b1, b2);
    lemma_digit(b0, b1);
    lemma_digit(0, b0);
    assert(v / 0x100 == b0 * 0x1_0000 + b1 * 0x100 + b2);
    assert(v / 0x1_0000 == b0 * 0x100 + b1) by {
        lemma_shift_twice(v, b0 * 0x1_0000 + b1 * 0x100 + b2, b0 * 0x100 + b1);
    }
    assert(v / 0x100_0000 == b0) by {
        lemma_shift_thrice(v, b0 * 0x1_0000 + b1 * 0x100 + b2, b0 * 0x100 + b1, b0);
    }
    assert(be_bytes(be_u32(b)) =~= b);
}

/// The last base-256 digit of `high * 256 + low` is `low`, the rest `high`.
proof fn lemma_digit(high: int, low: int)
    by (nonlinear_arith)
    requires
        0 <= high,
        0 <= low < 0x100,
    ensures
        (high * 0x100 + low) / 0x100 == high,
        (high * 0x100 + low) % 0x100 == low,
{
}

/// Dropping two base-256 digits, one at a time.
proof fn lemma_shift_twice(v: int, once: int, twice: int)
    by (nonlinear_arith)
    requires
        0 <= v,
        v / 0x100 == once,
        once / 0x100 == twice,
    ensures
        v / 0x1_0000 == twice,
{
}

/// Dropping three base-256 digits, one at a time.
proof fn lemma_shift_thrice(v: int, once: int, twice: int, thrice: int)
    by (nonlinear_arith)
    requires
        0 <= v,
        v / 0x100 == once,
        once / 0x100 == twice,
        twice / 0x100 == thrice,
    ensures
        v / 0x100_0000 == thrice,
{
}

/// A payload can be framed when none of its bytes is the terminator.
pub open spec fn framable(payload: Seq<char>) -> bool {
    !encode_utf8(payload).contains(TERMINATOR)
}

/// Among the bytes that encode a character the terminator occurs only as
/// the encoding of the line feed itself.
proof fn lemma_scalar_bytes(s: u32)
    by (bit_vector)
    ensures
        s <= 0x7F ==> (((s & 0x7F) as u8 == 0x0Au8) <==> s == 0x0Au32),
        (0xC0u8 | ((s >> 6) & 0x1F) as u8) != 0x0Au8,
        (0xE0u8 | ((s >> 12) & 0x0F) as u8) != 0x0Au8,
        (0xF0u8 | ((s >> 18) & 0x7) as u8) != 0x0Au8,
        (0x80u8 | (s & 0x3F) as u8) != 0x0Au8,
        (0x80u8 | ((s >> 6) & 0x3F) as u8) != 0x0Au8,
        (0x80u8 | ((s >> 12) & 0x3F) as u8) != 0x0Au8,
{
}

/// A text can be framed exactly when it holds no line feed.
pub proof fn lemma_framable_chars(payload: Seq<char>)
    ensures
        framable(payload) <==> !payload.contains('\n'),
    decreases payload.len(),
{
    if payload.len() == 0 {
        assert(encode_utf8(payload) =~= Seq::<u8>::empty());
    } else {
        let head = encode_scalar(payload[0] as u32);
        let tail = payload.drop_first();
        let rest = encode_utf8(tail);
        lemma_framable_chars(tail);
        lemma_scalar_bytes(payload[0] as u32);
        char_is_scalar(payload[0]);
        assert(encode_utf8(payload) == head + rest);
        assert(head.contains(TERMINATOR) <==> payload[0] == '\n') by {
            let scalar = payload[0] as u32;
            assert('\n' as u32 == 0x0Au32);
            char_u32_cast(payload[0], scalar);
            char_u32_cast('\n', 0x0Au32);
            if head.contains(TERMINATOR) {
                let i = choose|i: int| 0 <= i < head.len() && head[i] == TERMINATOR;
                assert(head[i] == TERMINATOR);
                assert(scalar == 0x0Au32);
            }
            if payload[0] == '\n' {
                assert(scalar == 0x0Au32);
                assert(head[0] == TERMINATOR);
            }
        }
        if payload.contains('\n') {
            let i = choose|i: int| 0 <= i < payload.len() && payload[i] == '\n';
            if i == 0 {
                assert(head.contains(TERMINATOR));
                let j = choose|j: int| 0 <= j < head.len() && head[j] == TERMINATOR;
                assert((head + rest)[j] == TERMINATOR);
            } else {
                assert(tail[i - 1] == '\n');
                assert(tail.contains('\n'));
                let j = choose|j: int| 0 <= j < rest.len() && rest[j] == TERMINATOR;
                assert((head + rest)[head.len() + j] == TERMINATOR);
            }
            assert(encode_utf8(payload).contains(TERMINATOR));
        }
        if encode_utf8(payload).contains(TERMINATOR) {
            let j = choose|j: int|
                0 <= j < encode_utf8(payload).len() && encode_utf8(payload)[j] == TERMINATOR;
            if j < head.len() {
                assert(head[j] == TERMINATOR);
                assert(head.contains(TERMINATOR));
                assert(payload[0] == '\n');
            } else {
                assert(rest[j - head.len()] == TERMINATOR);
                assert(rest.contains(TERMINATOR));
                let i = choose|i: int| 0 <= i < tail.len() && tail[i] == '\n';
                assert(payload[i + 1] == '\n');
            }
            assert(payload.contains('\n'));
        }
    }
}

/// Decoding what was encoded gives back the identifier and the payload, and
/// consumes exactly the frame, whatever bytes follow it in the buffer.
pub proof fn lemma_round_trip(request_id: u32, payload: Seq<char>, rest: Seq<u8>)
    requires
        framable(payload),
    ensures
        decode_step(frame_bytes(request_id, payload) + rest) == (Decoded::Frame {
            request_id,
            payload,
            consumed: frame_bytes(request_id, payload).len(),
        }),
        (frame_bytes(request_id, payload) + rest).skip(
            frame_bytes(request_id, payload).len() as int,
        ) == rest,
{
    broadcast use vstd::utf8::encode_utf8_valid_utf8, vstd::utf8::encode_utf8_decode_utf8;

    let body = encode_utf8(payload);
    let frame = frame_bytes(request_id, payload);
    let buf = frame + rest;
    let n = body.len() as int;
    assert(frame.len() == ID_LEN + n + 1);
    assert forall|i: int| ID_LEN <= i < ID_LEN + n implies buf[i] != TERMINATOR by {
        assert(buf[i] == body[i - ID_LEN]);
        assert(body.contains(body[i - ID_LEN]));
    }
    assert(buf[ID_LEN + n] == TERMINATOR);
    assert(ends_at(buf, n));
    lemma_payload_len(buf, n);
    assert(buf.subrange(ID_LEN as int, ID_LEN + n) =~= body);
    assert(buf.subrange(0, ID_LEN as int) =~= be_bytes(request_id));
    lemma_be_round_trip(request_id);
    assert(buf.skip(frame.len() as int) =~= rest);
}

/// Encoding what was decoded gives back the bytes that were consumed: a
/// decoded payload can be framed, and its frame is the front of the buffer.
pub proof fn lemma_decoded_frame(buf: Seq<u8>)
    requires
        decode_step(buf) is Frame,
    ensures
        framable(decode_step(buf)->payload),
        frame_bytes(decode_step(buf)->request_id, decode_step(buf)->payload) == buf.subrange(
            0,
            decode_step(buf)->Frame_consumed as int,
        ),
{
    broadcast use vstd::utf8::decode_utf8_encode_utf8;

    let n = payload_len(buf);
    assert(ends_at(buf, n));
    let head = buf.subrange(0, ID_LEN as int);
    let body = buf.subrange(ID_LEN as int, ID_LEN + n);
    let payload = decode_utf8(body);
    assert(encode_utf8(payload) == body);
    assert(!body.contains(TERMINATOR)) by {
        if body.contains(TERMINATOR) {
            let i = choose|i: int| 0 <= i < body.len() && body[i] == TERMINATOR;
            assert(buf[ID_LEN + i] == TERMINATOR);
        }
    }
    lemma_be_bytes_of_value(head);
    assert(head + body + seq![TERMINATOR] =~= buf.subrange(0, ID_LEN + n + 1));
}

/// A buffer that holds only the beginning of a frame, be it nothing, part of
/// the identifier or a payload still without its terminator, asks for more
/// bytes.
pub proof fn lemma_prefix_needs_more(request_id: u32, payload: Seq<char>, k: int)
    requires
        framable(payload),
        0 <= k < frame_bytes(request_id, payload).len(),
    ensures
        decode_step(frame_bytes(request_id, payload).subrange(0, k)) == Decoded::NeedMoreBytes,
{
    let body = encode_utf8(payload);
    let frame = frame_bytes(request_id, payload);
    let buf = frame.subrange(0, k);
    assert(frame.len() == ID_LEN + body.len() + 1);
    assert forall|n: int| !ends_at(buf, n) by {
        if ends_at(buf, n) {
            let i = ID_LEN + n;
            assert(buf[i] == body[i - ID_LEN]);
            assert(body.contains(body[i - ID_LEN]));
        }
    }
}

/// Two frames in one buffer decode one after the other, in the order in which
/// they stand: the first step yields the first frame and leaves the second,
/// the next step yields the second and leaves what followed it.
pub proof fn lemma_two_frames(
    first_id: u32,
    first: Seq<char>,
    second_id: u32,
    second: Seq<char>,
    rest: Seq<u8>,
)
    requires
        framable(first),
        framable(second),
    ensures
        ({
            let one = frame_bytes(first_id, first);
            let two = frame_bytes(second_id, second);
            let buf = one + two + rest;
            &&& decode_step(buf) == (Decoded::Frame {
                request_id: first_id,
                payload: first,
                consumed: one.len(),
            })
            &&& buf.skip(one.len() as int) == two + rest
            &&& decode_step(two + rest) == (Decoded::Frame {
                request_id: second_id,
                payload: second,
                consumed: two.len(),
            })
            &&& (two + rest).skip(two.len() as int) == rest
        }),
{
    let one = frame_bytes(first_id, first);
    let two = frame_bytes(second_id, second);
    assert(one + two + rest =~= one + (two + rest));
    lemma_round_trip(first_id, first, two + rest);
    lemma_round_trip(second_id, second, rest);
}

} // verus!
