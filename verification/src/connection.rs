//! One client connection, as far as the protocol is concerned: the bytes
//! received and not yet decoded, the bytes to send, and whether it is closing.
use vstd::prelude::*;

verus! {

/// Where a connection stands in its life.
#[derive(Debug, Clone, Copy, PartialEq, Eq, Structural)]
pub enum Lifecycle {
    /// Open; bytes are read and answered.
    Active,
    /// Marked to be torn down once the current batch of reads is over.
    Closing,
}

/// The buffers and the state of one connection.
#[derive(Debug, PartialEq, Eq)]
pub struct Connection {
    /// Bytes received that no frame has claimed yet.
    pub read_buf: Vec<u8>,
    /// Bytes of encoded frames that wait to be written out.
    pub write_buf: Vec<u8>,
    /// Active, or already marked for closing.
    pub state: Lifecycle,
    /// The number of the connection among all that were ever accepted. It
    /// tells a connection from an earlier holder of the same identifier.
    pub generation: u64,
}

impl Connection {
    /// A fresh connection: nothing received, nothing to send, active.
    pub fn new(generation: u64) -> (conn: Connection)
        ensures
            conn.read_buf@ == Seq::<u8>::empty(),
            conn.write_buf@ == Seq::<u8>::empty(),
            conn.state == Lifecycle::Active,
            conn.generation == generation,
    {
        Connection {
            read_buf: Vec::new(),
            write_buf: Vec::new(),
            state: Lifecycle::Active,
            generation,
        }
    }

    /// Whether the connection has been marked for closing.
    pub fn is_closing(&self) -> (closing: bool)
        ensures
            closing == (self.state == Lifecycle::Closing),
    {
        self.state == Lifecycle::Closing
    }

    /// Marks the connection for closing. The buffers are left alone.
    pub fn mark_closing(&mut self)
        ensures
            final(self).state == Lifecycle::Closing,
            final(self).read_buf == old(self).read_buf,
            final(self).write_buf == old(self).write_buf,
            final(self).generation == old(self).generation,
    {
        self.state = Lifecycle::Closing;
    }
}

} // verus!
