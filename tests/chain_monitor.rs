use zkpool_coordinator::monitor::{
    gas_price_with_headroom, parse_block_number, BlockHeightQuorum, EventMonitor, BLOCK_BATCH,
};

#[test]
fn no_batch_while_chain_is_behind() {
    let m = EventMonitor::new(100);
    assert_eq!(m.plan_batch(95), None);
    assert_eq!(m.plan_batch(100), None);
    assert_eq!(m.last_handled_block(), 100);
}

#[test]
fn batch_is_bounded_by_width() {
    let m = EventMonitor::new(100);
    assert_eq!(BLOCK_BATCH, 10);
    let range = m.plan_batch(115);
    assert_eq!(range, Some((101, 110)));
    assert_ne!(range, Some((101, 115)));
}

#[test]
fn batch_is_bounded_by_height() {
    let m = EventMonitor::new(100);
    assert_eq!(m.plan_batch(101), Some((101, 101)));
    assert_eq!(m.plan_batch(107), Some((101, 107)));
    assert_eq!(m.plan_batch(110), Some((101, 110)));
    assert_eq!(m.plan_batch(111), Some((101, 110)));
    let top = EventMonitor::new(u64::MAX - 3);
    assert_eq!(top.plan_batch(u64::MAX), Some((u64::MAX - 2, u64::MAX)));
}

#[test]
fn watermark_advances_only_after_a_batch() {
    let mut m = EventMonitor::new(100);
    let (_, end) = m.plan_batch(125).unwrap();
    assert_eq!(m.last_handled_block(), 100);
    m.batch_processed(end);
    assert_eq!(m.last_handled_block(), 110);
    assert_eq!(m.plan_batch(125), Some((111, 120)));
}

#[test]
fn height_is_least_of_four_samples() {
    let mut q = BlockHeightQuorum::new();
    assert_eq!(q.record(120), None);
    assert_eq!(q.record(118), None);
    assert_eq!(q.record(125), None);
    assert_eq!(q.record(119), Some(118));
    assert_eq!(q.record(7), None);
    assert_eq!(q.record(9), None);
    assert_eq!(q.record(8), None);
    assert_eq!(q.record(10), Some(7));
}

#[test]
fn block_numbers_read_from_quantities() {
    assert_eq!(parse_block_number("0x1b4"), Some(436));
    assert_eq!(parse_block_number("0x0"), Some(0));
    assert_eq!(parse_block_number("0xABc"), Some(2748));
    assert_eq!(parse_block_number("0xffffffffffffffff"), Some(u64::MAX));
    assert_eq!(parse_block_number("0x10000000000000000"), None);
    assert_eq!(parse_block_number("ff"), None);
    assert_eq!(parse_block_number("0x0x10"), None);
    assert_eq!(parse_block_number("0x+10"), None);
    assert_eq!(parse_block_number(""), None);
    assert_eq!(parse_block_number("0x"), None);
    assert_eq!(parse_block_number("0X10"), None);
    assert_eq!(parse_block_number("0x1g"), None);
    assert_eq!(parse_block_number("-1"), None);
}

#[test]
fn gas_price_has_double_headroom() {
    assert_eq!(gas_price_with_headroom(0), 0);
    assert_eq!(gas_price_with_headroom(1_500_000_000), 3_000_000_000);
    assert_eq!(gas_price_with_headroom(u64::MAX), 2 * (u64::MAX as u128));
}
