use tftpd::Packet;
use tftpd::Sender;
use tftpd::TransferError;
use tftpd::Worker;

fn sender(windowsize: u16, blk_size: usize, contents: Vec<u8>) -> Sender {
    let worker = Worker::new(String::from("source"), blk_size, 1000, windowsize);
    worker.sender(contents)
}

#[test]
fn ack_advances_base_and_removes_entries() {
    // Window holds blocks 1..=4; Ack(2) has diff = 1, a valid cumulative
    // ack: the base advances to 3 and diff + 1 = 2 entries leave.
    let mut s = sender(4, 4, (0..16).collect());
    s.fill_window();
    assert_eq!(s.window.entries.len(), 4);
    let advanced = s.handle_ack(2);
    assert!(advanced);
    assert_eq!(s.base, 3);
    assert_eq!(s.window.entries.len(), 2);
    assert_eq!(s.window.entries[0], vec![8, 9, 10, 11]);
}

#[test]
fn ack_of_whole_window_drains_it() {
    let mut s = sender(4, 4, (0..16).collect());
    s.fill_window();
    let advanced = s.handle_ack(4);
    assert!(advanced);
    assert_eq!(s.base, 5);
    assert!(s.window.entries.is_empty());
}

#[test]
fn stale_ack_changes_nothing() {
    // diff = 6 - 1 = 5 > windowsize = 4: out of the current window, so the
    // ack is ignored without touching base, buffer, or retries.
    let mut s = sender(4, 4, (0..16).collect());
    s.fill_window();
    let advanced = s.handle_ack(6);
    assert!(!advanced);
    assert_eq!(s.base, 1);
    assert_eq!(s.window.entries.len(), 4);
    assert!(s.is_active());
}

#[test]
fn duplicate_ack_does_not_double_advance() {
    let mut s = sender(4, 4, (0..16).collect());
    s.fill_window();
    assert!(s.handle_ack(2));
    assert_eq!(s.base, 3);
    let len_after = s.window.entries.len();
    // the same ack again: its wrapped offset from the new base is 65535
    assert!(!s.handle_ack(2));
    assert_eq!(s.base, 3);
    assert_eq!(s.window.entries.len(), len_after);
}

#[test]
fn ack_wraps_at_block_65535() {
    // Acknowledging block 0 against base 65535 behaves exactly like any
    // other consecutive pair: diff = 1, base advances to 1.
    let mut s = sender(4, 4, (0..16).collect());
    s.fill_window();
    s.base = 65535;
    let advanced = s.handle_ack(0);
    assert!(advanced);
    assert_eq!(s.base, 1);
    assert_eq!(s.window.entries.len(), 2);
}

#[test]
fn window_packets_number_blocks_from_base() {
    let mut s = sender(4, 4, (0..12).collect());
    s.fill_window();
    let pkts = s.window_packets();
    assert_eq!(pkts.len(), 4);
    for (i, p) in pkts.iter().enumerate() {
        match p {
            Packet::Data { block_num, data } => {
                assert_eq!(*block_num, 1 + i as u16);
                if i < 3 {
                    assert_eq!(data.len(), 4);
                } else {
                    assert_eq!(data.len(), 0);
                }
            }
            _ => panic!("expected a data packet"),
        }
    }
}

#[test]
fn window_packets_wrap_past_65535() {
    let mut s = sender(4, 4, (0..12).collect());
    s.fill_window();
    s.base = 65534;
    let pkts = s.window_packets();
    let mut nums: Vec<u16> = Vec::new();
    for p in &pkts {
        match p {
            Packet::Data { block_num, data: _ } => nums.push(*block_num),
            _ => panic!("expected a data packet"),
        }
    }
    assert_eq!(nums, vec![65534, 65535, 0, 1]);
}

#[test]
fn ack_beyond_outstanding_blocks_fails_transfer() {
    // 4 bytes make one full block and the empty terminator: 2 entries.
    // Ack(3) has diff = 2 <= windowsize but would cover 3 entries.
    let mut s = sender(4, 4, vec![1, 2, 3, 4]);
    s.fill_window();
    assert_eq!(s.window.entries.len(), 2);
    let advanced = s.handle_ack(3);
    assert!(!advanced);
    assert!(matches!(s.failure(), Some(TransferError::WindowRange)));
}

#[test]
fn send_retry_budget_exhaustion_times_out() {
    let mut s = sender(2, 4, vec![1, 2, 3]);
    s.fill_window();
    for _ in 0..5 {
        assert!(!s.on_packet(None));
        assert!(s.is_active());
    }
    assert!(!s.on_packet(None));
    assert!(!s.is_active());
    assert!(matches!(s.failure(), Some(TransferError::Timeout)));
}

#[test]
fn data_packet_counts_as_failed_poll_on_send_path() {
    let mut s = sender(2, 4, vec![1, 2, 3]);
    s.fill_window();
    let advanced = s.on_packet(Some(Packet::Data { block_num: 1, data: vec![0] }));
    assert!(!advanced);
    assert_eq!(s.retry_cnt, 1);
}

#[test]
fn peer_error_aborts_send_immediately() {
    let mut s = sender(2, 4, vec![1, 2, 3]);
    s.fill_window();
    let advanced = s.on_packet(Some(Packet::Error { code: 2, msg: String::from("access violation") }));
    assert!(!advanced);
    match s.failure() {
        Some(TransferError::Peer { code, msg }) => {
            assert_eq!(*code, 2);
            assert_eq!(msg, "access violation");
        }
        _ => panic!("expected a peer error"),
    }
}

#[test]
fn fresh_window_resets_retry_budget() {
    let mut s = sender(4, 4, (0..16).collect());
    s.fill_window();
    assert!(!s.on_packet(None));
    assert_eq!(s.retry_cnt, 1);
    assert!(s.handle_ack(4));
    s.fill_window();
    assert_eq!(s.retry_cnt, 0);
}

#[test]
fn send_completes_only_when_eof_and_drained() {
    let mut s = sender(4, 4, vec![1, 2]);
    assert!(!s.is_complete());
    s.fill_window();
    assert!(!s.is_complete());
    assert!(s.handle_ack(1));
    assert!(s.is_complete());
}
