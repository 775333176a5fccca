//! The receive path of one transfer: accept arriving `Data` blocks strictly
//! in order, buffer them up to one window, flush each completed window to
//! the destination stream and acknowledge it with a single cumulative `Ack`,
//! until a short block ends the file. The caller owns the socket and the
//! destination file; it feeds received packets in and carries the produced
//! acknowledgment out.

use vstd::prelude::*;

use crate::blocknum::wrap_add;
use crate::packet::Packet;
use crate::packet::Status;
use crate::packet::TransferError;
use crate::retry::MAX_RETRIES;
use crate::sender::poll_failure_transition;
use crate::window::byte_views;
use crate::window::concat_all;
use crate::window::FileBuf;
use crate::window::Window;

verus! {

/// The receive-path state machine: the window of blocks received but not
/// yet flushed, the number of the last block accepted in order, and the
/// retry budget for the current window.
pub struct Receiver {
    pub window: Window,
    pub expected: u16,
    pub retry_cnt: u32,
    pub short_seen: bool,
    pub status: Status,
}

impl Receiver {
    /// Structural soundness: the window is sound, every buffered block is
    /// full-size until the final short block arrives, and an active machine
    /// still has retries left.
    pub open spec fn wf(self) -> bool {
        &&& self.window.wf()
        &&& !self.short_seen ==> self.window.all_full()
        &&& self.status.is_active() ==> self.retry_cnt < MAX_RETRIES
    }

    /// The window must be flushed and acknowledged before anything more can
    /// be accepted: it is full, or the final short block has arrived.
    pub open spec fn awaiting_flush(self) -> bool {
        self.short_seen || self.window.entries@.len() == self.window.windowsize as int
    }

    /// A fresh receive path over an empty destination stream, expecting
    /// block 1 first (`expected` is the last block accepted, initially 0).
    pub fn new(windowsize: u16, blk_size: usize) -> (r: Receiver)
        requires
            windowsize >= 1,
            blk_size >= 1,
        ensures
            r.wf(),
            r.expected == 0,
            r.retry_cnt == 0,
            !r.short_seen,
            r.status is Active,
            r.window.entries@.len() == 0,
            r.window.windowsize == windowsize,
            r.window.blk_size == blk_size,
            r.window.file.data@.len() == 0,
    {
        Receiver {
            window: Window::new(windowsize, blk_size, FileBuf::for_writing()),
            expected: 0,
            retry_cnt: 0,
            short_seen: false,
            status: Status::Active,
        }
    }

    /// One arriving `Data` block: it is accepted exactly when its block
    /// number is `expected + 1` with 16-bit wraparound — then the expected
    /// number advances and the payload joins the window, a payload shorter
    /// than the block size marking the end of the file. Any other block
    /// number is a duplicate or a reordering and changes nothing. Returns
    /// whether the block was accepted.
    pub fn handle_data(&mut self, block_num: u16, data: Vec<u8>) -> (accepted: bool)
        requires
            old(self).wf(),
            old(self).status.is_active(),
            !old(self).awaiting_flush(),
            data@.len() <= old(self).window.blk_size,
        ensures
            final(self).wf(),
            block_num == wrap_add(old(self).expected, 1) ==> {
                &&& accepted
                &&& final(self).expected == block_num
                &&& byte_views(final(self).window.entries@) == byte_views(
                    old(self).window.entries@,
                ).push(data@)
                &&& final(self).short_seen == (data@.len() < old(self).window.blk_size)
                &&& final(self).window.same_config(old(self).window)
                &&& final(self).window.file.data@ == old(self).window.file.data@
                &&& final(self).status == old(self).status
                &&& final(self).retry_cnt == old(self).retry_cnt
            },
            block_num != wrap_add(old(self).expected, 1) ==> !accepted && *final(self) == *old(
                self,
            ),
    {
        if block_num == self.expected.wrapping_add(1) {
            let is_short: bool = data.len() < self.window.blk_size;
            match self.window.add(data) {
                Ok(()) => {
                    self.expected = block_num;
                    self.short_seen = is_short;
                    true
                },
                Err(_) => {
                    proof {
                        assert(false);
                    }
                    false
                },
            }
        } else {
            false
        }
    }

    /// A terminal `Error` packet from the peer: the transfer fails at once
    /// with the peer-supplied code and message, and is never retried.
    pub fn handle_peer_error(&mut self, code: u16, msg: String)
        requires
            old(self).wf(),
            old(self).status.is_active(),
        ensures
            final(self).wf(),
            final(self).status == Status::Failed(TransferError::Peer { code, msg }),
            final(self).window == old(self).window,
            final(self).expected == old(self).expected,
            final(self).short_seen == old(self).short_seen,
            final(self).retry_cnt == old(self).retry_cnt,
    {
        self.status = Status::Failed(TransferError::Peer { code, msg });
    }

    /// One unproductive poll (`poll_failure_transition`): counts against the
    /// retry budget; exhausting the budget fails the transfer with a
    /// timeout. Returns whether the budget was exhausted.
    pub fn handle_poll_failure(&mut self) -> (timed_out: bool)
        requires
            old(self).wf(),
            old(self).status.is_active(),
        ensures
            final(self).wf(),
            poll_failure_transition(
                old(self).retry_cnt,
                old(self).status,
                final(self).retry_cnt,
                final(self).status,
                timed_out,
            ),
            final(self).window == old(self).window,
            final(self).expected == old(self).expected,
            final(self).short_seen == old(self).short_seen,
    {
        self.retry_cnt = self.retry_cnt + 1;
        if self.retry_cnt == MAX_RETRIES {
            self.status = Status::Failed(TransferError::Timeout);
            true
        } else {
            false
        }
    }

    /// One poll outcome, dispatched as the receive path sees it: a `Data`
    /// block is matched against the expected number, a peer `Error` is
    /// terminal, and anything else — no packet, or a packet that is not
    /// data — counts against the retry budget. Returns whether a block was
    /// accepted.
    pub fn on_packet(&mut self, p: Option<Packet>) -> (accepted: bool)
        requires
            old(self).wf(),
            old(self).status.is_active(),
            !old(self).awaiting_flush(),
            p matches Some(Packet::Data { block_num, data }) ==> data@.len() <= old(
                self,
            ).window.blk_size,
        ensures
            final(self).wf(),
            p matches Some(Packet::Data { block_num, data }) ==> {
                &&& (block_num == wrap_add(old(self).expected, 1) ==> {
                    &&& accepted
                    &&& final(self).expected == block_num
                    &&& byte_views(final(self).window.entries@) == byte_views(
                        old(self).window.entries@,
                    ).push(data@)
                    &&& final(self).short_seen == (data@.len() < old(self).window.blk_size)
                    &&& final(self).window.same_config(old(self).window)
                    &&& final(self).window.file.data@ == old(self).window.file.data@
                    &&& final(self).status == old(self).status
                    &&& final(self).retry_cnt == old(self).retry_cnt
                })
                &&& (block_num != wrap_add(old(self).expected, 1) ==> !accepted && *final(self)
                    == *old(self))
            },
            p matches Some(Packet::Error { code, msg }) ==> !accepted && final(self).status
                == Status::Failed(TransferError::Peer { code, msg }) && final(self).window == old(
                self,
            ).window && final(self).expected == old(self).expected,
            (p is None || p matches Some(Packet::Ack(..))) ==> !accepted
                && poll_failure_transition(
                old(self).retry_cnt,
                old(self).status,
                final(self).retry_cnt,
                final(self).status,
                final(self).status == Status::Failed(TransferError::Timeout),
            ) && final(self).window == old(self).window && final(self).expected == old(
                self,
            ).expected && final(self).short_seen == old(self).short_seen,
    {
        match p {
            Some(Packet::Data { block_num, data }) => self.handle_data(block_num, data),
            Some(Packet::Error { code, msg }) => {
                self.handle_peer_error(code, msg);
                false
            },
            _ => {
                self.handle_poll_failure();
                false
            },
        }
    }

    /// Flushes the completed window to the destination stream in order,
    /// opens a new retry budget, and returns the block number to acknowledge:
    /// one cumulative `Ack` for the whole window just received. If the final
    /// short block was in this window, the transfer is now complete.
    pub fn flush_and_ack(&mut self) -> (ack: u16)
        requires
            old(self).wf(),
            old(self).status.is_active(),
            old(self).awaiting_flush(),
        ensures
            final(self).wf(),
            ack == old(self).expected,
            final(self).expected == old(self).expected,
            final(self).retry_cnt == 0,
            final(self).short_seen == old(self).short_seen,
            final(self).window.entries@.len() == 0,
            final(self).window.same_config(old(self).window),
            final(self).window.file.data@ == old(self).window.file.data@ + concat_all(
                byte_views(old(self).window.entries@),
            ),
            old(self).short_seen ==> final(self).status == Status::Done,
            !old(self).short_seen ==> final(self).status == old(self).status,
    {
        self.window.empty();
        self.retry_cnt = 0;
        if self.short_seen {
            self.status = Status::Done;
        }
        self.expected
    }

    /// Whether the window must be flushed and acknowledged before anything
    /// more can be accepted (`awaiting_flush`).
    pub fn needs_flush(&self) -> (r: bool)
        ensures
            r == self.awaiting_flush(),
    {
        self.short_seen || self.window.is_full()
    }

    /// Whether the whole file has been received, flushed, and acknowledged.
    pub fn is_done(&self) -> (r: bool)
        ensures
            r == (self.status matches Status::Done),
    {
        match &self.status {
            Status::Done => true,
            _ => false,
        }
    }

    /// Whether the machine may still take events.
    pub fn is_active(&self) -> (r: bool)
        ensures
            r == self.status.is_active(),
    {
        match &self.status {
            Status::Active => true,
            _ => false,
        }
    }

    /// The terminal failure, if the transfer has failed.
    pub fn failure(&self) -> (r: Option<&TransferError>)
        ensures
            self.status matches Status::Failed(e) ==> r matches Some(f) && *f == e,
            !(self.status matches Status::Failed(e)) ==> r is None,
    {
        match &self.status {
            Status::Failed(e) => Some(e),
            _ => None,
        }
    }

    /// Proof that a retransmitted copy of a block already accepted is never
    /// accepted again: once block `b` advanced `expected` to `b`, that block
    /// number no longer equals `expected + 1`, so by `handle_data`'s
    /// contract the duplicate leaves the machine entirely unchanged — no
    /// buffered entry is duplicated.
    pub proof fn lemma_duplicate_data_stale(self, b: u16)
        requires
            self.expected == b,
        ensures
            b != wrap_add(self.expected, 1),
    {
    }

    /// The received file's bytes — but only of a completed transfer. A
    /// failed transfer yields nothing: its partial content is never handed
    /// out, so the caller has nothing to keep and removes the destination
    /// file it created.
    pub fn into_file(self) -> (r: Option<Vec<u8>>)
        ensures
            self.status matches Status::Done ==> (r matches Some(v) && v@
                == self.window.file.data@),
            !(self.status matches Status::Done) ==> r is None,
    {
        match self.status {
            Status::Done => Some(self.window.file.data),
            _ => None,
        }
    }
}

}
