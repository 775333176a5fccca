//! The packet shapes the transfer engine consumes and produces, and the ways
//! a transfer can end. Encoding packets to wire bytes and decoding them back
//! is the codec's concern, outside this crate.

use vstd::prelude::*;

verus! {

/// A protocol packet exchanged with the peer. `Data` carries one block of
/// file content, `Ack` cumulatively acknowledges every block of the current
/// window up to and including `block_num`, and `Error` reports a terminal
/// protocol failure from the peer.
pub enum Packet {
    Data { block_num: u16, data: Vec<u8> },
    Ack(u16),
    Error { code: u16, msg: String },
}

/// Why a transfer ended without delivering the whole file.
pub enum TransferError {
    /// The retry budget was exhausted: too many consecutive polls brought no
    /// packet that advanced the transfer.
    Timeout,
    /// The peer sent an `Error` packet; its code and message are kept.
    Peer { code: u16, msg: String },
    /// An acknowledgment inside the window covered more blocks than were
    /// outstanding, so the buffer could not drop that many entries.
    WindowRange,
}

/// The phase of one transfer: still exchanging packets, finished with the
/// whole file delivered, or ended by a terminal failure.
pub enum Status {
    Active,
    Done,
    Failed(TransferError),
}

impl Status {
    /// True while the transfer may still make progress.
    pub open spec fn is_active(self) -> bool {
        self matches Status::Active
    }
}

}
