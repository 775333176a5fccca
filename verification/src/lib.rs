//! A windowed, reliable file-transfer engine for an unreliable datagram
//! transport: fixed-size blocks, 16-bit wrapping block numbers, a sliding
//! window of in-flight blocks, cumulative acknowledgments, and bounded
//! retries. The engine is pure: the surrounding process performs socket and
//! file I/O and feeds the resulting packets and bytes to the state machines
//! defined here.

pub mod blocknum;
pub mod packet;
pub mod receiver;
pub mod retry;
pub mod sender;
pub mod window;
pub mod worker;

pub use packet::Packet;
pub use packet::Status;
pub use packet::TransferError;
pub use receiver::Receiver;
pub use sender::Sender;
pub use window::Window;
pub use worker::Worker;
