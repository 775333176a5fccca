use tftpd::Packet;
use tftpd::Receiver;
use tftpd::TransferError;
use tftpd::Worker;

fn receiver(windowsize: u16, blk_size: usize) -> Receiver {
    let worker = Worker::new(String::from("destination"), blk_size, 1000, windowsize);
    worker.receiver()
}

#[test]
fn accepts_exactly_the_next_block() {
    let mut r = receiver(4, 4);
    // expected + 1 = 1 is accepted
    assert!(r.handle_data(1, vec![1, 2, 3, 4]));
    assert_eq!(r.expected, 1);
    assert_eq!(r.window.entries.len(), 1);
    // 3 skips ahead: ignored without any state change
    assert!(!r.handle_data(3, vec![9, 9, 9, 9]));
    assert_eq!(r.expected, 1);
    assert_eq!(r.window.entries.len(), 1);
    assert_eq!(r.retry_cnt, 0);
    // 2 is the next block: accepted
    assert!(r.handle_data(2, vec![5, 6, 7, 8]));
    assert_eq!(r.expected, 2);
    assert_eq!(r.window.entries.len(), 2);
}

#[test]
fn duplicate_data_is_not_buffered_twice() {
    let mut r = receiver(4, 4);
    assert!(r.handle_data(1, vec![1, 2, 3, 4]));
    // the same block retransmitted: 1 != expected + 1 = 2, so nothing moves
    assert!(!r.handle_data(1, vec![1, 2, 3, 4]));
    assert_eq!(r.window.entries.len(), 1);
    assert_eq!(r.expected, 1);
}

#[test]
fn data_wraps_at_block_65535() {
    let mut r = receiver(4, 4);
    r.expected = 65535;
    assert!(r.handle_data(0, vec![1, 2, 3, 4]));
    assert_eq!(r.expected, 0);
}

#[test]
fn short_block_marks_end_and_requires_flush() {
    let mut r = receiver(4, 4);
    assert!(r.handle_data(1, vec![1, 2, 3, 4]));
    assert!(!r.needs_flush());
    assert!(r.handle_data(2, vec![5]));
    assert!(r.needs_flush());
    let ack = r.flush_and_ack();
    assert_eq!(ack, 2);
    assert!(r.is_done());
    assert_eq!(r.into_file(), Some(vec![1, 2, 3, 4, 5]));
}

#[test]
fn full_window_requires_flush_and_continues() {
    let mut r = receiver(2, 2);
    assert!(r.handle_data(1, vec![1, 2]));
    assert!(r.handle_data(2, vec![3, 4]));
    assert!(r.needs_flush());
    let ack = r.flush_and_ack();
    assert_eq!(ack, 2);
    assert!(!r.is_done());
    assert!(r.is_active());
    assert!(r.handle_data(3, vec![5]));
    assert_eq!(r.flush_and_ack(), 3);
    assert!(r.is_done());
    assert_eq!(r.into_file(), Some(vec![1, 2, 3, 4, 5]));
}

#[test]
fn ack_packet_counts_as_failed_poll_on_receive_path() {
    let mut r = receiver(2, 4);
    assert!(!r.on_packet(Some(Packet::Ack(1))));
    assert_eq!(r.retry_cnt, 1);
    assert!(r.is_active());
}

#[test]
fn receive_retry_budget_exhaustion_times_out() {
    let mut r = receiver(2, 4);
    for _ in 0..5 {
        assert!(!r.on_packet(None));
        assert!(r.is_active());
    }
    assert!(!r.on_packet(None));
    assert!(!r.is_active());
    assert!(matches!(r.failure(), Some(TransferError::Timeout)));
}

#[test]
fn failed_receive_yields_no_file() {
    // A transfer that timed out hands out nothing: the caller removes the
    // destination file it created.
    let mut r = receiver(2, 4);
    assert!(r.handle_data(1, vec![1, 2, 3, 4]));
    for _ in 0..6 {
        r.on_packet(None);
    }
    assert!(matches!(r.failure(), Some(TransferError::Timeout)));
    assert_eq!(r.into_file(), None);
}

#[test]
fn peer_error_aborts_receive_immediately() {
    let mut r = receiver(2, 4);
    r.on_packet(Some(Packet::Error { code: 3, msg: String::from("disk full") }));
    match r.failure() {
        Some(TransferError::Peer { code, msg }) => {
            assert_eq!(*code, 3);
            assert_eq!(msg, "disk full");
        }
        _ => panic!("expected a peer error"),
    }
    assert_eq!(r.into_file(), None);
}

#[test]
fn flush_resets_retry_budget() {
    let mut r = receiver(2, 2);
    assert!(!r.on_packet(None));
    assert_eq!(r.retry_cnt, 1);
    assert!(r.handle_data(1, vec![1, 2]));
    assert!(r.handle_data(2, vec![3, 4]));
    r.flush_and_ack();
    assert_eq!(r.retry_cnt, 0);
}
