use tftpd::Packet;
use tftpd::Worker;

/// Drives one whole transfer over a lossless in-memory channel, delivering
/// every data packet `copies` times (extra copies simulate duplication by
/// the network). Returns the received bytes, the number of windows the
/// sender filled, and the number of acknowledgments the receiver sent.
fn run_transfer(contents: Vec<u8>, windowsize: u16, blk_size: usize, copies: usize) -> (Vec<u8>, u32, u32) {
    let worker = Worker::new(String::from("transfer"), blk_size, 1000, windowsize);
    let expected_len = contents.len();
    let mut sender = worker.sender(contents);
    let mut receiver = worker.receiver();
    let mut windows: u32 = 0;
    let mut acks: u32 = 0;

    while sender.is_active() && !sender.is_complete() {
        sender.fill_window();
        windows += 1;
        let packets = sender.window_packets();
        let mut ack: Option<u16> = None;
        for packet in packets {
            for _ in 0..copies {
                if receiver.is_active() && !receiver.needs_flush() {
                    let duplicate = match &packet {
                        Packet::Data { block_num, data } => {
                            Packet::Data { block_num: *block_num, data: data.clone() }
                        }
                        _ => panic!("the sender only emits data packets"),
                    };
                    receiver.on_packet(Some(duplicate));
                }
            }
            if receiver.is_active() && receiver.needs_flush() {
                ack = Some(receiver.flush_and_ack());
                acks += 1;
            }
        }
        let n = ack.expect("a lossless window always produces one ack");
        // deliver the ack a second time too: the sender must ignore it
        for _ in 0..copies {
            if sender.is_active() {
                sender.on_packet(Some(Packet::Ack(n)));
            }
        }
        assert!(windows < 100000, "transfer failed to make progress");
    }

    assert!(sender.is_complete(), "send path must end by eof and a drained buffer");
    assert!(receiver.is_done(), "receive path must end on the short block");
    let bytes = receiver.into_file().expect("a completed transfer yields the file");
    assert_eq!(bytes.len(), expected_len);
    (bytes, windows, acks)
}

#[test]
fn zero_byte_file_is_one_short_block_one_ack() {
    let (bytes, windows, acks) = run_transfer(Vec::new(), 4, 4, 1);
    assert_eq!(bytes, Vec::<u8>::new());
    assert_eq!(windows, 1);
    assert_eq!(acks, 1);
}

#[test]
fn exact_window_of_bytes_then_empty_terminator() {
    // windowsize * blk_size bytes fill one window with full blocks; the
    // receiver still needs the empty terminating block to see end of file,
    // so a second, one-block window follows.
    let contents: Vec<u8> = (0..16).collect();
    let (bytes, windows, acks) = run_transfer(contents.clone(), 4, 4, 1);
    assert_eq!(bytes, contents);
    assert_eq!(windows, 2);
    assert_eq!(acks, 2);
}

#[test]
fn one_byte_over_a_window_takes_two_windows() {
    let contents: Vec<u8> = (0..17).collect();
    let (bytes, windows, acks) = run_transfer(contents.clone(), 4, 4, 1);
    assert_eq!(bytes, contents);
    assert_eq!(windows, 2);
    assert_eq!(acks, 2);
}

#[test]
fn short_file_fits_one_window() {
    let contents: Vec<u8> = (0..10).collect();
    let (bytes, windows, acks) = run_transfer(contents.clone(), 4, 4, 1);
    assert_eq!(bytes, contents);
    assert_eq!(windows, 1);
    assert_eq!(acks, 1);
}

#[test]
fn multi_window_transfer_reassembles_in_order() {
    let contents: Vec<u8> = (0u16..1000).map(|i| (i % 251) as u8).collect();
    let (bytes, _, _) = run_transfer(contents.clone(), 4, 16, 1);
    assert_eq!(bytes, contents);
}

#[test]
fn duplicated_packets_change_nothing() {
    // every data packet and every ack delivered three times: duplicates
    // must neither duplicate buffered blocks nor advance the base twice
    let contents: Vec<u8> = (0u16..300).map(|i| (i * 7 % 256) as u8).collect();
    let (bytes, windows, acks) = run_transfer(contents.clone(), 4, 8, 3);
    assert_eq!(bytes, contents);
    let (bytes1, windows1, acks1) = run_transfer(contents.clone(), 4, 8, 1);
    assert_eq!(bytes1, contents);
    assert_eq!(windows, windows1);
    assert_eq!(acks, acks1);
}

#[test]
fn block_numbers_wrap_during_a_long_transfer() {
    // more than 65536 blocks force the block number to wrap past 65535;
    // the transfer must proceed exactly as any other
    let contents: Vec<u8> = vec![42; 70000];
    let (bytes, _, _) = run_transfer(contents.clone(), 8, 1, 1);
    assert_eq!(bytes, contents);
}
