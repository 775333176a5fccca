use tftpd::retry::initial_elapsed_ms;
use tftpd::retry::should_retransmit;
use tftpd::retry::MAX_RETRIES;
use tftpd::retry::TIMEOUT_BUFFER_MS;
use tftpd::Worker;

#[test]
fn retransmit_exactly_when_timeout_elapsed() {
    assert!(should_retransmit(5000, 5000));
    assert!(should_retransmit(5001, 5000));
    assert!(!should_retransmit(4999, 5000));
    assert!(should_retransmit(0, 0));
}

#[test]
fn initial_elapsed_forces_first_transmission() {
    assert_eq!(initial_elapsed_ms(1000), 1000 + TIMEOUT_BUFFER_MS);
    assert_eq!(initial_elapsed_ms(u64::MAX), u64::MAX);
    assert!(should_retransmit(initial_elapsed_ms(7), 7));
}

#[test]
fn retry_budget_is_six() {
    assert_eq!(MAX_RETRIES, 6);
}

#[test]
fn worker_keeps_its_options() {
    let w = Worker::new(String::from("image.bin"), 512, 5000, 8);
    assert_eq!(w.file_name, "image.bin");
    assert_eq!(w.blk_size, 512);
    assert_eq!(w.timeout_ms, 5000);
    assert_eq!(w.windowsize, 8);
}
