//! The send path of one transfer: fill a window of blocks from the source
//! stream, hand them out as `Data` packets numbered from the window base,
//! interpret cumulative acknowledgments, and account for unproductive polls.
//! The caller owns the socket and the clock; it transmits the packets this
//! machine produces and feeds back what it received.

use vstd::prelude::*;

use crate::blocknum::lemma_wrap_offset_step;
use crate::blocknum::wrap_add;
use crate::blocknum::wrap_offset;
use crate::blocknum::wrap_sub;
use crate::packet::Packet;
use crate::packet::Status;
use crate::packet::TransferError;
use crate::retry::MAX_RETRIES;
use crate::window::byte_views;
use crate::window::fill_chunks;
use crate::window::lemma_fill_progress;
use crate::window::total_len;
use crate::window::FileBuf;
use crate::window::Window;

verus! {

/// The send-path state machine: the window of outstanding blocks over the
/// source stream, the base block number (oldest unacknowledged), and the
/// retry budget for the current window.
pub struct Sender {
    pub window: Window,
    pub base: u16,
    pub retry_cnt: u32,
    pub status: Status,
}

/// How an acknowledgment for block `n` moves the sender from `pre` to
/// `post`: with `diff = n - base` computed with 16-bit wraparound, a `diff`
/// within the window size acknowledges blocks `base ..= n` cumulatively, so
/// the base advances to `n + 1` and `diff + 1` blocks leave the buffer; a
/// `diff` beyond the window size is stale or out of range and changes
/// nothing; a `diff` within the window size but covering more blocks than
/// are outstanding is a protocol violation and fails the transfer.
pub open spec fn ack_transition(pre: Sender, post: Sender, n: u16, advanced: bool) -> bool {
    let diff = wrap_sub(n, pre.base);
    &&& (diff > pre.window.windowsize ==> post == pre && !advanced)
    &&& (diff <= pre.window.windowsize && diff + 1 <= pre.window.entries@.len() ==> {
        &&& advanced
        &&& post.base == wrap_add(n, 1)
        &&& byte_views(post.window.entries@) == byte_views(pre.window.entries@).skip(diff + 1)
        &&& post.window.same_config(pre.window)
        &&& post.window.file.data@ == pre.window.file.data@
        &&& post.window.file.pos == pre.window.file.pos
        &&& post.window.eof == pre.window.eof
        &&& post.status == pre.status
        &&& post.retry_cnt == pre.retry_cnt
    })
    &&& (diff <= pre.window.windowsize && diff + 1 > pre.window.entries@.len() ==> {
        &&& !advanced
        &&& post.status == Status::Failed(TransferError::WindowRange)
        &&& post.window.entries@ == pre.window.entries@
        &&& post.window.same_config(pre.window)
        &&& post.window.file.data@ == pre.window.file.data@
        &&& post.window.file.pos == pre.window.file.pos
        &&& post.window.eof == pre.window.eof
        &&& post.base == pre.base
        &&& post.retry_cnt == pre.retry_cnt
    })
}

/// How one unproductive poll (no packet, a malformed packet, or a packet of
/// the wrong kind) moves the machine: the retry counter grows by one, and
/// reaching the retry budget fails the transfer with a timeout.
pub open spec fn poll_failure_transition(
    pre_retry: u32,
    pre_status: Status,
    post_retry: u32,
    post_status: Status,
    timed_out: bool,
) -> bool {
    &&& post_retry == pre_retry + 1
    &&& (pre_retry + 1 == MAX_RETRIES ==> post_status == Status::Failed(TransferError::Timeout)
        && timed_out)
    &&& (pre_retry + 1 < MAX_RETRIES ==> post_status == pre_status && !timed_out)
}

/// The retry budget cannot be overrun and cannot hang: an active machine
/// always has its counter below the budget, every unproductive poll raises
/// the counter by one, and the poll that reaches the budget is the very one
/// that ends the transfer with a timeout failure. Both the send and the
/// receive path count polls through this same transition.
pub proof fn lemma_retry_budget_terminates(
    pre_retry: u32,
    pre_status: Status,
    post_retry: u32,
    post_status: Status,
    timed_out: bool,
)
    requires
        pre_status.is_active(),
        pre_retry < MAX_RETRIES,
        poll_failure_transition(pre_retry, pre_status, post_retry, post_status, timed_out),
        post_retry >= MAX_RETRIES,
    ensures
        post_status == Status::Failed(TransferError::Timeout),
        timed_out,
{
}

impl Sender {
    /// Structural soundness: the window is sound, blocks after a short one
    /// are never buffered, and an active machine still has retries left.
    pub open spec fn wf(self) -> bool {
        &&& self.window.wf()
        &&& self.window.eof || self.window.all_full()
        &&& self.status.is_active() ==> self.retry_cnt < MAX_RETRIES
    }

    /// The transfer is complete: the source is exhausted and every block of
    /// the final window has been acknowledged. This is the one way the send
    /// path ends successfully.
    pub open spec fn complete(self) -> bool {
        self.window.eof && self.window.entries@.len() == 0
    }

    /// A fresh send path over the given source bytes, with the base block
    /// number starting at 1.
    pub fn new(windowsize: u16, blk_size: usize, contents: Vec<u8>) -> (s: Sender)
        requires
            windowsize >= 1,
            blk_size >= 1,
        ensures
            s.wf(),
            s.base == 1,
            s.retry_cnt == 0,
            s.status is Active,
            s.window.entries@.len() == 0,
            s.window.windowsize == windowsize,
            s.window.blk_size == blk_size,
            s.window.file.data@ == contents@,
            s.window.file.pos == 0,
            !s.window.eof,
    {
        let file = FileBuf::for_reading(contents);
        Sender {
            window: Window::new(windowsize, blk_size, file),
            base: 1,
            retry_cnt: 0,
            status: Status::Active,
        }
    }

    /// Tops the window up from the source and opens a new retry budget, as
    /// at the start of each outer send round. Returns whether the source is
    /// exhausted.
    pub fn fill_window(&mut self) -> (eof: bool)
        requires
            old(self).wf(),
            old(self).status.is_active(),
        ensures
            final(self).wf(),
            final(self).status == old(self).status,
            final(self).base == old(self).base,
            final(self).retry_cnt == 0,
            final(self).window.same_config(old(self).window),
            final(self).window.file.data@ == old(self).window.file.data@,
            eof == final(self).window.eof,
            old(self).window.eof ==> final(self).window == old(self).window,
            !old(self).window.eof ==> {
                let fc = fill_chunks(
                    old(self).window.file.data@.skip(old(self).window.file.pos as int),
                    old(self).window.blk_size as nat,
                    (old(self).window.windowsize as int - old(self).window.entries@.len()) as nat,
                );
                &&& byte_views(final(self).window.entries@) == byte_views(
                    old(self).window.entries@,
                ) + fc.0
                &&& final(self).window.file.pos == old(self).window.file.pos + total_len(fc.0)
                &&& final(self).window.eof == fc.1
            },
    {
        let eof = self.window.fill();
        self.retry_cnt = 0;
        eof
    }

    /// The current window as `Data` packets, numbered consecutively from the
    /// base block number with 16-bit wraparound, oldest block first: what
    /// one (re)transmission of the window puts on the wire.
    pub fn window_packets(&self) -> (r: Vec<Packet>)
        requires
            self.wf(),
        ensures
            r@.len() == self.window.entries@.len(),
            forall|i: int|
                0 <= i < r@.len() ==> ((#[trigger] r@[i]) matches Packet::Data {
                    block_num,
                    data,
                } && block_num == wrap_offset(self.base, i) && data@ == self.window.entries@[i]@),
    {
        let mut r: Vec<Packet> = Vec::new();
        let mut bn: u16 = self.base;
        let n: usize = self.window.len();
        let mut i: usize = 0;
        while i < n
            invariant
                i <= n,
                n == self.window.entries@.len(),
                self.wf(),
                bn == wrap_offset(self.base, i as int),
                r@.len() == i,
                forall|j: int|
                    0 <= j < i ==> ((#[trigger] r@[j]) matches Packet::Data {
                        block_num,
                        data,
                    } && block_num == wrap_offset(self.base, j) && data@
                        == self.window.entries@[j]@),
            decreases n - i,
        {
            let entry: &Vec<u8> = &self.window.get_elements()[i];
            let data: Vec<u8> = copy_bytes(entry);
            r.push(Packet::Data { block_num: bn, data });
            proof {
                lemma_wrap_offset_step(self.base, i as int);
            }
            bn = bn.wrapping_add(1);
            i = i + 1;
        }
        r
    }

    /// Interprets one acknowledgment (`ack_transition`): a cumulative ack
    /// within the window advances the base past it and drops the covered
    /// blocks; a stale or out-of-range ack changes nothing; an ack covering
    /// more blocks than are outstanding fails the transfer. Returns whether
    /// the window advanced.
    pub fn handle_ack(&mut self, n: u16) -> (advanced: bool)
        requires
            old(self).wf(),
            old(self).status.is_active(),
        ensures
            final(self).wf(),
            ack_transition(*old(self), *final(self), n, advanced),
    {
        let diff: u16 = n.wrapping_sub(self.base);
        if diff <= self.window.windowsize {
            let count: usize = diff as usize + 1;
            match self.window.remove(count) {
                Ok(()) => {
                    self.base = n.wrapping_add(1);
                    true
                },
                Err(_) => {
                    self.status = Status::Failed(TransferError::WindowRange);
                    false
                },
            }
        } else {
            false
        }
    }

    /// A terminal `Error` packet from the peer: the transfer fails at once
    /// with the peer-supplied code and message, and is never retried.
    pub fn handle_peer_error(&mut self, code: u16, msg: String)
        requires
            old(self).wf(),
            old(self).status.is_active(),
        ensures
            final(self).wf(),
            final(self).status == Status::Failed(TransferError::Peer { code, msg }),
            final(self).window == old(self).window,
            final(self).base == old(self).base,
            final(self).retry_cnt == old(self).retry_cnt,
    {
        self.status = Status::Failed(TransferError::Peer { code, msg });
    }

    /// One unproductive poll (`poll_failure_transition`): counts against the
    /// retry budget; exhausting the budget fails the transfer with a
    /// timeout. Returns whether the budget was exhausted.
    pub fn handle_poll_failure(&mut self) -> (timed_out: bool)
        requires
            old(self).wf(),
            old(self).status.is_active(),
        ensures
            final(self).wf(),
            poll_failure_transition(
                old(self).retry_cnt,
                old(self).status,
                final(self).retry_cnt,
                final(self).status,
                timed_out,
            ),
            final(self).window == old(self).window,
            final(self).base == old(self).base,
    {
        self.retry_cnt = self.retry_cnt + 1;
        if self.retry_cnt == MAX_RETRIES {
            self.status = Status::Failed(TransferError::Timeout);
            true
        } else {
            false
        }
    }

    /// One poll outcome, dispatched as the send path sees it: an `Ack` is
    /// interpreted against the window, a peer `Error` is terminal, and
    /// anything else — no packet, or a packet that is not an ack — counts
    /// against the retry budget. Returns whether the window advanced.
    pub fn on_packet(&mut self, p: Option<Packet>) -> (advanced: bool)
        requires
            old(self).wf(),
            old(self).status.is_active(),
        ensures
            final(self).wf(),
            p matches Some(Packet::Ack(n)) ==> ack_transition(
                *old(self),
                *final(self),
                n,
                advanced,
            ),
            p matches Some(Packet::Error { code, msg }) ==> !advanced && final(self).status
                == Status::Failed(TransferError::Peer { code, msg }) && final(self).window
                == old(self).window && final(self).base == old(self).base,
            (p is None || p matches Some(Packet::Data { .. })) ==> !advanced
                && poll_failure_transition(
                old(self).retry_cnt,
                old(self).status,
                final(self).retry_cnt,
                final(self).status,
                final(self).status == Status::Failed(TransferError::Timeout),
            ) && final(self).window == old(self).window && final(self).base == old(self).base,
    {
        match p {
            Some(Packet::Ack(n)) => self.handle_ack(n),
            Some(Packet::Error { code, msg }) => {
                self.handle_peer_error(code, msg);
                false
            },
            _ => {
                self.handle_poll_failure();
                false
            },
        }
    }

    /// Whether the transfer is complete (`complete`): the outer send loop
    /// stops exactly when the last fill reported end-of-file and the buffer
    /// has been drained by acknowledgments.
    pub fn is_complete(&self) -> (r: bool)
        ensures
            r == self.complete(),
    {
        self.window.reached_eof() && self.window.is_empty()
    }

    /// Whether the machine may still take events.
    pub fn is_active(&self) -> (r: bool)
        ensures
            r == self.status.is_active(),
    {
        match &self.status {
            Status::Active => true,
            _ => false,
        }
    }

    /// The terminal failure, if the transfer has failed.
    pub fn failure(&self) -> (r: Option<&TransferError>)
        ensures
            self.status matches Status::Failed(e) ==> r matches Some(f) && *f == e,
            !(self.status matches Status::Failed(e)) ==> r is None,
    {
        match &self.status {
            Status::Failed(e) => Some(e),
            _ => None,
        }
    }
}

/// The measure the send path runs down: unread source bytes, plus buffered
/// blocks, plus one while end-of-file has not yet been reported.
pub open spec fn sender_measure(s: Sender) -> int {
    s.window.file.data@.len() - s.window.file.pos + s.window.entries@.len() + if s.window.eof {
        0int
    } else {
        1int
    }
}

/// Termination of the send path: one round — a fill (`pre` to `mid`, as
/// `fill_window` promises) followed by an acknowledgment of the whole
/// window (`mid` to `post`) — either completes the transfer or makes this
/// non-negative measure strictly smaller. The source is finite, so a sender
/// whose windows keep being acknowledged completes after finitely many
/// rounds; and conversely, `complete` holds only once a fill has reported
/// end-of-file and the buffer is drained, which is exactly when the send
/// loop stops.
pub proof fn lemma_send_round_progress(pre: Sender, mid: Sender, post: Sender, n: u16)
    requires
        pre.wf(),
        !pre.complete(),
        mid.window.same_config(pre.window),
        mid.window.file.data@ == pre.window.file.data@,
        pre.window.eof ==> mid.window == pre.window,
        !pre.window.eof ==> {
            let fc = fill_chunks(
                pre.window.file.data@.skip(pre.window.file.pos as int),
                pre.window.blk_size as nat,
                (pre.window.windowsize as int - pre.window.entries@.len()) as nat,
            );
            &&& byte_views(mid.window.entries@) == byte_views(pre.window.entries@) + fc.0
            &&& mid.window.file.pos == pre.window.file.pos + total_len(fc.0)
            &&& mid.window.eof == fc.1
        },
        wrap_sub(n, mid.base) + 1 == mid.window.entries@.len(),
        wrap_sub(n, mid.base) <= mid.window.windowsize,
        ack_transition(mid, post, n, true),
    ensures
        sender_measure(pre) >= 0,
        post.complete() || sender_measure(post) < sender_measure(pre),
{
    let diff = wrap_sub(n, mid.base);
    assert(byte_views(post.window.entries@).len() == post.window.entries@.len());
    assert(byte_views(mid.window.entries@).len() == mid.window.entries@.len());
    assert(byte_views(pre.window.entries@).len() == pre.window.entries@.len());
    assert(post.window.entries@.len() == 0);
    assert(post.window.eof == mid.window.eof);
    if pre.window.eof {
        assert(post.complete());
    } else {
        let rem = pre.window.file.data@.skip(pre.window.file.pos as int);
        let blk = pre.window.blk_size as nat;
        let room = (pre.window.windowsize as int - pre.window.entries@.len()) as nat;
        let fc = fill_chunks(rem, blk, room);
        if fc.1 {
            assert(post.complete());
        } else if room == 0 {
            assert(fc.0 =~= Seq::<Seq<u8>>::empty());
            assert(total_len(fc.0) == 0);
            assert(pre.window.entries@.len() == pre.window.windowsize as int);
            assert(sender_measure(post) < sender_measure(pre));
        } else {
            lemma_fill_progress(rem, blk, room);
            assert(total_len(fc.0) == room * blk);
            assert(room * blk >= 1) by (nonlinear_arith)
                requires
                    room >= 1,
                    blk >= 1,
            ;
            assert(sender_measure(post) < sender_measure(pre));
        }
    }
}

/// Proof that a duplicate or stale acknowledgment never advances the base
/// twice: once an ack for block `n` has advanced the machine (so the base
/// stands at `n + 1`), the same ack's wrapped offset from the new base is
/// 65535, beyond every window size below 65535, so by `ack_transition` the
/// repeated ack leaves the machine entirely unchanged.
pub proof fn lemma_duplicate_ack_stale(mid: Sender, post: Sender, n: u16, advanced: bool)
    requires
        mid.base == wrap_add(n, 1),
        mid.window.windowsize < 0xFFFF,
        ack_transition(mid, post, n, advanced),
    ensures
        !advanced,
        post == mid,
{
    assert(wrap_sub(n, mid.base) == 0xFFFF);
}

/// A byte-for-byte copy of one block, for building a retransmission.
fn copy_bytes(src: &Vec<u8>) -> (r: Vec<u8>)
    ensures
        r@ == src@,
{
    let mut r: Vec<u8> = Vec::new();
    let n: usize = src.len();
    let mut i: usize = 0;
    while i < n
        invariant
            i <= n,
            n == src@.len(),
            r@ =~= src@.take(i as int),
        decreases n - i,
    {
        let b: u8 = src[i];
        r.push(b);
        i = i + 1;
    }
    proof {
        assert(r@ =~= src@);
    }
    r
}

}
