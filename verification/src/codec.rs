//! The frame codec: turns the front of a byte buffer into one tagged message,
//! and a tagged message into bytes.
use crate::error::ProtoError;
use crate::wire::{
    be_bytes, be_u32, decode_step, ends_at, frame_bytes, has_frame, lemma_payload_len, Decoded,
    ID_LEN, TERMINATOR,
};
use byteorder::BigEndian;
use byteorder::ByteOrder;
use vstd::prelude::*;
use vstd::slice::slice_subrange;
use vstd::string::StringSliceAdditionalSpecFns;
use vstd::utf8::*;

verus! {

/// The tag a client puts on a request and gets back on the answer.
pub type RequestId = u32;

/// `byteorder::BigEndian::read_u32`: the first four bytes of `buf` read as
/// a big-endian integer. The call panics on a shorter slice, so that is
/// excluded.
#[verifier::external_body]
fn read_u32_be(buf: &[u8]) -> (v: u32)
    requires
        buf@.len() >= 4,
    ensures
        v == be_u32(buf@.subrange(0, 4)),
{
    BigEndian::read_u32(buf)
}

/// `byteorder::BigEndian::write_u32`: fills the four bytes of `buf` with
/// `n`, most significant byte first.
#[verifier::external_body]
fn write_u32_be(buf: &mut [u8; 4], n: u32)
    ensures
        final(buf)@ == be_bytes(n),
{
    BigEndian::write_u32(buf, n)
}

/// `core::str::from_utf8`: succeeds exactly on well-formed UTF-8, and the
/// text it gives has the very bytes it was given.
#[verifier::external_body]
fn text_of(bytes: &[u8]) -> (text: Option<&str>)
    ensures
        text.is_some() == valid_utf8(bytes@),
        text matches Some(s) ==> s.spec_bytes() == bytes@,
{
    match core::str::from_utf8(bytes) {
        Ok(s) => Some(s),
        Err(_) => None,
    }
}

/// Looks for the first terminator after the identifier and returns its
/// offset from the end of the identifier.
pub fn find_terminator(buf: &[u8]) -> (found: Option<usize>)
    ensures
        match found {
            Some(n) => ends_at(buf@, n as int),
            None => !has_frame(buf@),
        },
{
    let mut i: usize = ID_LEN;
    while i < buf.len()
        invariant
            ID_LEN <= i,
            forall|k: int| ID_LEN <= k < i && k < buf@.len() ==> buf@[k] != TERMINATOR,
        decreases buf.len() - i,
    {
        if buf[i] == TERMINATOR {
            return Some(i - ID_LEN);
        }
        i += 1;
    }
    proof {
        assert forall|n: int| !ends_at(buf@, n) by {
            if ends_at(buf@, n) {
                assert(buf@[ID_LEN + n] == TERMINATOR);
            }
        }
    }
    None
}

/// The codec of the line protocol. It keeps no state between calls.
#[derive(Debug, Clone, Copy, PartialEq, Eq)]
pub struct LineCodec;

impl LineCodec {
    /// Takes one frame off the front of `buf`, if a whole one is there.
    ///
    /// Without a terminator after the identifier the buffer is left as it is
    /// and `Ok(None)` says that more bytes are needed. Otherwise the bytes of
    /// the first frame leave the buffer, whatever follows them stays, and the
    /// frame is returned, or `InvalidString` if its payload is not text.
    pub fn decode(&mut self, buf: &mut Vec<u8>) -> (r: Result<
        Option<(RequestId, String)>,
        ProtoError,
    >)
        ensures
            match decode_step(old(buf)@) {
                Decoded::NeedMoreBytes => r == Ok::<Option<(RequestId, String)>, ProtoError>(None)
                    && final(buf)@ == old(buf)@,
                Decoded::Frame { request_id, payload, consumed } => {
                    &&& r matches Ok(Some(frame))
                    &&& frame.0 == request_id
                    &&& frame.1@ == payload
                    &&& final(buf)@ == old(buf)@.skip(consumed as int)
                },
                Decoded::Fatal { consumed } => {
                    &&& r == Err::<Option<(RequestId, String)>, ProtoError>(
                        ProtoError::InvalidString,
                    )
                    &&& final(buf)@ == old(buf)@.skip(consumed as int)
                },
            },
    {
        broadcast use vstd::utf8::encode_utf8_decode_utf8;

        let found = find_terminator(buf.as_slice());
        match found {
            None => Ok(None),
            Some(n) => {
                assert(ID_LEN + n < buf.len());
                proof {
                    lemma_payload_len(buf@, n as int);
                }
                let mut line = buf.split_off(n + ID_LEN + 1);
                core::mem::swap(buf, &mut line);
                let id = read_u32_be(slice_subrange(line.as_slice(), 0, ID_LEN));
                let body = slice_subrange(line.as_slice(), ID_LEN, ID_LEN + n);
                assert(body@ == old(buf)@.subrange(ID_LEN as int, ID_LEN + n));
                assert(line@.subrange(0, ID_LEN as int).subrange(0, 4) == old(buf)@.subrange(
                    0,
                    ID_LEN as int,
                ));
                match text_of(body) {
                    Some(s) => Ok(Some((id, s.to_owned()))),
                    None => Err(ProtoError::InvalidString),
                }
            },
        }
    }

    /// Appends the bytes of one frame to `buf`: the identifier, the payload
    /// as it is, and the terminator. The payload is not inspected.
    pub fn encode(&mut self, msg: (RequestId, String), buf: &mut Vec<u8>) -> (r: Result<
        (),
        ProtoError,
    >)
        ensures
            r is Ok,
            final(buf)@ == old(buf)@ + frame_bytes(msg.0, msg.1@),
    {
        let (id, text) = msg;
        let mut encoded_id = [0u8; 4];
        write_u32_be(&mut encoded_id, id);
        buf.extend_from_slice(encoded_id.as_slice());
        buf.extend_from_slice(text.as_str().as_bytes());
        buf.push(TERMINATOR);
        assert(buf@ == old(buf)@ + frame_bytes(id, text@));
        Ok(())
    }
}

} // verus!
