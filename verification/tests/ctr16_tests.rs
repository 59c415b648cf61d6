use chacha_ctr::ctr16::{Ctr16BE, Ctr16LE};

fn be_lanes(values: [u16; 8]) -> Vec<Ctr16BE> {
    values.iter().map(|&v| Ctr16BE::from_backend(v)).collect()
}

fn le_lanes(values: [u16; 8]) -> Vec<Ctr16LE> {
    values.iter().map(|&v| Ctr16LE::from_backend(v)).collect()
}

#[test]
fn be_counter_lane_is_big_endian_at_the_last_position() {
    let ctr = Ctr16BE::from_backend(0x0102);
    let block = ctr.generate_block(&be_lanes([0; 8]));
    assert_eq!(block.len(), 16);
    assert_eq!(&block[14..16], &[0x01, 0x02]);
    for i in 0..14 {
        assert_eq!(block[i], 0);
    }
}

#[test]
fn le_counter_lane_is_little_endian_at_the_first_position() {
    let ctr = Ctr16LE::from_backend(0x0102);
    let block = ctr.generate_block(&le_lanes([0; 8]));
    assert_eq!(block.len(), 16);
    assert_eq!(&block[0..2], &[0x02, 0x01]);
    for i in 2..16 {
        assert_eq!(block[i], 0);
    }
}

#[test]
fn be_counter_lane_adds_the_stored_lane_with_wraparound() {
    let ctr = Ctr16BE::from_backend(0xfffe);
    let block = ctr.generate_block(&be_lanes([0, 0, 0, 0, 0, 0, 0, 0x0003]));
    // 0xfffe + 0x0003 wraps to 0x0001, written big-endian.
    assert_eq!(&block[14..16], &[0x00, 0x01]);
}

#[test]
fn sibling_lanes_keep_some_consistent_byte_order() {
    let ctr = Ctr16BE::from_backend(0);
    let block = ctr.generate_block(&be_lanes([0x0102, 0, 0, 0, 0, 0, 0, 0]));
    let chunk = [block[0], block[1]];
    assert!(chunk == [0x02, 0x01] || chunk == [0x01, 0x02]);
}

#[test]
fn be_round_trip_restores_siblings_and_sums_the_counter_lane() {
    let values: [u16; 8] = [0x1122, 0x3344, 0x5566, 0x7788, 0x99aa, 0xbbcc, 0xddee, 0xff00];
    let ctr = Ctr16BE::from_backend(0x0a0b);
    let block = ctr.generate_block(&be_lanes(values));
    let restored = Ctr16BE::load(&block);
    assert_eq!(restored.len(), 8);
    for i in 0..7 {
        assert_eq!(restored[i].to_backend(), values[i]);
    }
    assert_eq!(restored[7].to_backend(), values[7].wrapping_add(0x0a0b));
}

#[test]
fn le_round_trip_restores_siblings_and_sums_the_counter_lane() {
    let values: [u16; 8] = [0xff00, 0x1122, 0x3344, 0x5566, 0x7788, 0x99aa, 0xbbcc, 0xddee];
    let ctr = Ctr16LE::from_backend(0x0200);
    let block = ctr.generate_block(&le_lanes(values));
    let restored = Ctr16LE::load(&block);
    assert_eq!(restored.len(), 8);
    for i in 1..8 {
        assert_eq!(restored[i].to_backend(), values[i]);
    }
    assert_eq!(restored[0].to_backend(), values[0].wrapping_add(0x0200));
}

#[test]
fn increment_wraps_around_after_the_full_cycle() {
    for &start in &[0u16, 1, 0xabcd, 0xffff] {
        let mut be = Ctr16BE::from_backend(start);
        let mut le = Ctr16LE::from_backend(start);
        for _ in 0..0x10000u32 {
            be.increment();
            le.increment();
        }
        assert_eq!(be.to_backend(), start);
        assert_eq!(le.to_backend(), start);
    }
}

#[test]
fn increment_wraps_at_the_maximum() {
    let mut c = Ctr16BE::from_backend(0xffff);
    c.increment();
    assert_eq!(c.to_backend(), 0);
    let mut c = Ctr16LE::from_backend(0xfffe);
    c.increment();
    assert_eq!(c.to_backend(), 0xffff);
}

#[test]
fn checked_add_reports_overflow_instead_of_wrapping() {
    let c = Ctr16BE::from_backend(0xfff0);
    assert_eq!(c.checked_add(0x0f).map(|v| v.to_backend()), Some(0xffff));
    assert!(c.checked_add(0x10).is_none());
    assert!(c.checked_add(0x10000).is_none());
    assert!(c.checked_add(usize::MAX).is_none());
    assert_eq!(c.checked_add(0).map(|v| v.to_backend()), Some(0xfff0));

    let c = Ctr16LE::from_backend(1);
    assert_eq!(c.checked_add(0xfffe).map(|v| v.to_backend()), Some(0xffff));
    assert!(c.checked_add(0xffff).is_none());
}

#[test]
fn backend_conversions_are_lossless() {
    for &v in &[0u16, 1, 0x8000, 0xffff] {
        assert_eq!(Ctr16BE::from_backend(v).to_backend(), v);
        assert_eq!(Ctr16LE::from_backend(v).to_backend(), v);
    }
    assert_eq!(Ctr16BE::default().to_backend(), 0);
    assert_eq!(Ctr16LE::default().to_backend(), 0);
}
