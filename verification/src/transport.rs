//! The transport: one connection with the codec attached. Pulling yields the
//! frames that have arrived, pushing queues frames for sending.
use crate::codec::{LineCodec, RequestId};
use crate::connection::{Connection, Lifecycle};
use crate::error::ProtoError;
use crate::wire::{decode_step, frame_bytes, Decoded};
use vstd::prelude::*;

verus! {

/// A connection read and written frame by frame.
#[derive(Debug, PartialEq, Eq)]
pub struct Framed {
    /// The connection underneath.
    pub io: Connection,
    /// The codec that frames its bytes.
    pub codec: LineCodec,
}

impl Framed {
    /// The bytes received and not yet decoded.
    pub open spec fn inbound(&self) -> Seq<u8> {
        self.io.read_buf@
    }

    /// The bytes of the frames queued for sending.
    pub open spec fn outbound(&self) -> Seq<u8> {
        self.io.write_buf@
    }

    /// Same connection state and number; only the buffers may differ.
    pub open spec fn same_connection(&self, other: &Framed) -> bool {
        self.io.state == other.io.state && self.io.generation == other.io.generation
    }

    /// Takes in bytes that were read from the peer.
    pub fn fill(&mut self, bytes: &[u8])
        ensures
            final(self).inbound() == old(self).inbound() + bytes@,
            final(self).outbound() == old(self).outbound(),
            final(self).same_connection(old(self)),
    {
        self.io.read_buf.extend_from_slice(bytes);
        assert(self.io.read_buf@ == old(self).io.read_buf@ + bytes@);
    }

    /// Pulls the next frame, if a whole one has arrived: one decoding step on
    /// the bytes received so far. Nothing else of the connection changes.
    pub fn poll(&mut self) -> (r: Result<Option<(RequestId, String)>, ProtoError>)
        ensures
            final(self).outbound() == old(self).outbound(),
            final(self).same_connection(old(self)),
            match decode_step(old(self).inbound()) {
                Decoded::NeedMoreBytes => r == Ok::<Option<(RequestId, String)>, ProtoError>(None)
                    && final(self).inbound() == old(self).inbound(),
                Decoded::Frame { request_id, payload, consumed } => {
                    &&& r matches Ok(Some(frame))
                    &&& frame.0 == request_id
                    &&& frame.1@ == payload
                    &&& final(self).inbound() == old(self).inbound().skip(consumed as int)
                },
                Decoded::Fatal { consumed } => {
                    &&& r == Err::<Option<(RequestId, String)>, ProtoError>(
                        ProtoError::InvalidString,
                    )
                    &&& final(self).inbound() == old(self).inbound().skip(consumed as int)
                },
            },
    {
        self.codec.decode(&mut self.io.read_buf)
    }

    /// Pushes one frame: its bytes are appended to those waiting to be sent.
    pub fn start_send(&mut self, item: (RequestId, String)) -> (r: Result<(), ProtoError>)
        ensures
            r is Ok,
            final(self).outbound() == old(self).outbound() + frame_bytes(item.0, item.1@),
            final(self).inbound() == old(self).inbound(),
            final(self).same_connection(old(self)),
    {
        self.codec.encode(item, &mut self.io.write_buf)
    }

    /// Hands out the bytes that wait to be sent and leaves none behind.
    pub fn take_outbound(&mut self) -> (bytes: Vec<u8>)
        ensures
            bytes@ == old(self).outbound(),
            final(self).outbound() == Seq::<u8>::empty(),
            final(self).inbound() == old(self).inbound(),
            final(self).same_connection(old(self)),
    {
        let mut bytes: Vec<u8> = Vec::new();
        core::mem::swap(&mut self.io.write_buf, &mut bytes);
        bytes
    }

    /// Gives the connection back, without the codec.
    pub fn into_inner(self) -> (io: Connection)
        ensures
            io == self.io,
    {
        self.io
    }
}

/// The protocol: how a newly accepted connection gets its transport.
#[derive(Debug, Clone, Copy, PartialEq, Eq)]
pub struct LineProto;

impl LineProto {
    /// Attaches the line codec to the connection. This never fails.
    pub fn bind_transport(&self, io: Connection) -> (r: Result<Framed, ProtoError>)
        ensures
            r matches Ok(transport) && transport.io == io,
    {
        Ok(Framed { io, codec: LineCodec })
    }
}

} // verus!
