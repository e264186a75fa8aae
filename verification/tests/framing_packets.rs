use termlight::framing::{PacketAssembler, ReadOutcome, FRAMING_GAP_MS};

#[test]
fn burst_then_gap_then_burst_gives_two_packets_in_order() {
    let mut assembler = PacketAssembler::new(0);

    let r1 = assembler.step(false, ReadOutcome::Bytes(vec![0x01, 0x02]), 100);
    assert!(!r1.exit);
    assert_eq!(r1.packet, None);

    // The line stays quiet for longer than the framing gap.
    let r2 = assembler.step(false, ReadOutcome::TimedOut, 100 + FRAMING_GAP_MS + 1);
    assert!(!r2.exit);
    assert_eq!(r2.packet, Some(vec![0x01, 0x02]));

    let r3 = assembler.step(false, ReadOutcome::Bytes(vec![0x03]), 120);
    assert_eq!(r3.packet, None);

    let r4 = assembler.step(false, ReadOutcome::TimedOut, 120 + FRAMING_GAP_MS);
    assert!(!r4.exit);
    assert_eq!(r4.packet, Some(vec![0x03]));
}

#[test]
fn reads_within_the_gap_coalesce_into_one_packet() {
    let mut assembler = PacketAssembler::new(0);

    let r1 = assembler.step(false, ReadOutcome::Bytes(vec![0x10, 0x20]), 50);
    assert_eq!(r1.packet, None);

    // The second read arrives before the gap has passed.
    let r2 = assembler.step(false, ReadOutcome::Bytes(vec![0x30]), 50 + FRAMING_GAP_MS - 1);
    assert_eq!(r2.packet, None);

    let r3 = assembler.step(false, ReadOutcome::TimedOut, 200);
    assert_eq!(r3.packet, Some(vec![0x10, 0x20, 0x30]));
}

#[test]
fn stop_request_exits_without_emitting() {
    let mut assembler = PacketAssembler::new(0);
    assembler.step(false, ReadOutcome::Bytes(vec![0x01]), 10);
    let r = assembler.step(true, ReadOutcome::TimedOut, 1000);
    assert!(r.exit);
    assert_eq!(r.packet, None);
}

#[test]
fn fatal_read_error_exits_without_flushing() {
    let mut assembler = PacketAssembler::new(0);
    assembler.step(false, ReadOutcome::Bytes(vec![0x01]), 10);
    let r = assembler.step(false, ReadOutcome::Failed, 1000);
    assert!(r.exit);
    assert_eq!(r.packet, None);
}

#[test]
fn quiet_line_with_empty_buffer_emits_nothing() {
    let mut assembler = PacketAssembler::new(0);
    let r1 = assembler.step(false, ReadOutcome::TimedOut, 1000);
    assert!(!r1.exit);
    assert_eq!(r1.packet, None);
    let r2 = assembler.step(false, ReadOutcome::Bytes(vec![]), 2000);
    assert!(!r2.exit);
    assert_eq!(r2.packet, None);
}

#[test]
fn packet_waits_until_the_gap_has_passed() {
    let mut assembler = PacketAssembler::new(0);
    assembler.step(false, ReadOutcome::Bytes(vec![0x55]), 10);
    let early = assembler.step(false, ReadOutcome::TimedOut, 10 + FRAMING_GAP_MS - 1);
    assert_eq!(early.packet, None);
    let due = assembler.step(false, ReadOutcome::TimedOut, 10 + FRAMING_GAP_MS);
    assert_eq!(due.packet, Some(vec![0x55]));
}
