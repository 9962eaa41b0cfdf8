use speedtest::transfer::TransferAction;
use speedtest::transfer::TransferEvent;
use speedtest::transfer::TransferLoop;
use speedtest::Direction;

#[test]
fn upload_counts_writes_until_deadline() {
    let mut t = TransferLoop::new(Direction::Upload);
    assert_eq!(t.next_action(false), TransferAction::Write);
    t.record(TransferEvent::Wrote { n: 65536 });
    t.record(TransferEvent::Wrote { n: 65536 });
    assert_eq!(t.bytes, 131072);
    assert!(!t.finished);
    assert_eq!(t.next_action(true), TransferAction::Stop);
}

#[test]
fn upload_write_failure_ends_the_loop() {
    let mut t = TransferLoop::new(Direction::Upload);
    t.record(TransferEvent::Wrote { n: 1000 });
    t.record(TransferEvent::WriteFailed);
    assert!(t.finished);
    assert_eq!(t.bytes, 1000, "partial bytes already counted still contribute");
    assert_eq!(t.next_action(false), TransferAction::Stop);
}

#[test]
fn download_counts_reads_until_eof() {
    let mut t = TransferLoop::new(Direction::Download);
    assert_eq!(t.next_action(false), TransferAction::Read);
    t.record(TransferEvent::Read { n: 4096 });
    t.record(TransferEvent::Read { n: 100 });
    assert_eq!(t.bytes, 4196);
    t.record(TransferEvent::Read { n: 0 });
    assert!(t.finished);
    assert_eq!(t.bytes, 4196);
}

#[test]
fn download_read_failure_ends_the_loop() {
    let mut t = TransferLoop::new(Direction::Download);
    t.record(TransferEvent::Read { n: 512 });
    t.record(TransferEvent::ReadFailed);
    assert!(t.finished);
    assert_eq!(t.bytes, 512);
}

#[test]
fn bidirectional_alternates_send_then_receive() {
    let b = 65536;
    let mut t = TransferLoop::new(Direction::Bidirectional);
    assert_eq!(t.next_action(false), TransferAction::Write);
    t.record(TransferEvent::Wrote { n: b });
    // After a successful write the matching read is attempted even past
    // the deadline.
    assert_eq!(t.next_action(true), TransferAction::Read);
    t.record(TransferEvent::Read { n: b });
    assert_eq!(t.next_action(true), TransferAction::Stop);
    assert_eq!(t.next_action(false), TransferAction::Write);
    // One full round moved at least two blocks.
    assert!(t.bytes >= 2 * b as u64);
    assert_eq!(t.bytes, 2 * b as u64);
}

#[test]
fn bidirectional_empty_read_ends_the_loop() {
    let mut t = TransferLoop::new(Direction::Bidirectional);
    t.record(TransferEvent::Wrote { n: 10 });
    t.record(TransferEvent::Read { n: 0 });
    assert!(t.finished);
    assert_eq!(t.bytes, 10);
}

#[test]
fn upload_both_sides_observe_same_volume() {
    // A client sustains writes of 64 KiB blocks for a run while the server
    // reads exactly those blocks: both end up counting the same total.
    let block = 65536;
    let mut client = TransferLoop::new(Direction::Upload);
    let mut server = TransferLoop::new(Direction::Download);
    for _ in 0..32 {
        client.record(TransferEvent::Wrote { n: block });
        server.record(TransferEvent::Read { n: block });
    }
    assert_eq!(client.bytes, server.bytes);
    assert_eq!(client.bytes, 32 * 65536);
}

#[test]
fn quit_transfers_nothing() {
    let t = TransferLoop::new(Direction::Quit);
    assert!(t.finished);
    assert_eq!(t.bytes, 0);
    assert_eq!(t.next_action(false), TransferAction::Stop);
}
