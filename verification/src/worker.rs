//! One transfer's configuration, handed over by the dispatcher: the file's
//! name, the block size, the per-attempt timeout, and the window size. A
//! `Worker` builds the send-path or receive-path machine for that transfer;
//! the surrounding process gives each machine its own task, socket, and
//! file.

use vstd::prelude::*;

use crate::receiver::Receiver;
use crate::sender::Sender;

verus! {

/// The parameters of one file transfer with one remote peer.
pub struct Worker {
    pub file_name: String,
    pub blk_size: usize,
    pub timeout_ms: u64,
    pub windowsize: u16,
}

impl Worker {
    /// A usable configuration: at least one byte per block and one block
    /// per window.
    pub open spec fn wf(self) -> bool {
        &&& self.blk_size >= 1
        &&& self.windowsize >= 1
    }

    /// Creates a new `Worker` with the supplied options.
    pub fn new(file_name: String, blk_size: usize, timeout_ms: u64, windowsize: u16) -> (w: Worker)
        requires
            blk_size >= 1,
            windowsize >= 1,
        ensures
            w.wf(),
            w.file_name@ == file_name@,
            w.blk_size == blk_size,
            w.timeout_ms == timeout_ms,
            w.windowsize == windowsize,
    {
        Worker { file_name, blk_size, timeout_ms, windowsize }
    }

    /// The send-path machine for this transfer, over the source file's
    /// bytes, answering a read request.
    pub fn sender(&self, contents: Vec<u8>) -> (s: Sender)
        requires
            self.wf(),
        ensures
            s.wf(),
            s.base == 1,
            s.retry_cnt == 0,
            s.status is Active,
            s.window.entries@.len() == 0,
            s.window.windowsize == self.windowsize,
            s.window.blk_size == self.blk_size,
            s.window.file.data@ == contents@,
            s.window.file.pos == 0,
            !s.window.eof,
    {
        Sender::new(self.windowsize, self.blk_size, contents)
    }

    /// The receive-path machine for this transfer, answering a write
    /// request.
    pub fn receiver(&self) -> (r: Receiver)
        requires
            self.wf(),
        ensures
            r.wf(),
            r.expected == 0,
            r.retry_cnt == 0,
            !r.short_seen,
            r.status is Active,
            r.window.entries@.len() == 0,
            r.window.windowsize == self.windowsize,
            r.window.blk_size == self.blk_size,
            r.window.file.data@.len() == 0,
    {
        Receiver::new(self.windowsize, self.blk_size)
    }
}

}
