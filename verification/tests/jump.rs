use procmod_hook::jump::{encode_abs64, encode_rel32, ABS64_LEN, REL32_LEN};

#[test]
fn rel32_forward() {
    let jump = encode_rel32(0x1000, 0x2000).unwrap();
    assert_eq!(jump[0], 0xE9);
    let delta = i32::from_le_bytes(jump[1..5].try_into().unwrap());
    assert_eq!(0x1000u64.wrapping_add(5).wrapping_add(delta as u64), 0x2000);
}

#[test]
fn rel32_backward() {
    let jump = encode_rel32(0x2000, 0x1000).unwrap();
    assert_eq!(jump[0], 0xE9);
    let delta = i32::from_le_bytes(jump[1..5].try_into().unwrap());
    assert_eq!(
        0x2000u64.wrapping_add(5).wrapping_add(delta as i64 as u64),
        0x1000
    );
}

#[test]
fn rel32_out_of_range() {
    assert!(encode_rel32(0, 0x1_0000_0000).is_none());
}

#[test]
fn abs64_encoding() {
    let jump = encode_abs64(0xDEAD_BEEF_CAFE_BABE);
    assert_eq!(&jump[0..2], &[0xFF, 0x25]);
    assert_eq!(&jump[2..6], &[0, 0, 0, 0]);
    assert_eq!(
        u64::from_le_bytes(jump[6..14].try_into().unwrap()),
        0xDEAD_BEEF_CAFE_BABE
    );
}

#[test]
fn rel32_exact_bytes() {
    assert_eq!(encode_rel32(0x1000, 0x2000), Some([0xE9, 0xFB, 0x0F, 0x00, 0x00]));
    assert_eq!(encode_rel32(0x2000, 0x1000), Some([0xE9, 0xFB, 0xEF, 0xFF, 0xFF]));
    assert_eq!(REL32_LEN, 5);
    assert_eq!(ABS64_LEN, 14);
}

#[test]
fn rel32_reach_edges() {
    // The farthest forward displacement: 0x7FFF_FFFF past the end of the jump.
    let far = encode_rel32(0x1000, 0x1005 + 0x7FFF_FFFF).unwrap();
    assert_eq!(far, [0xE9, 0xFF, 0xFF, 0xFF, 0x7F]);
    assert!(encode_rel32(0x1000, 0x1005 + 0x8000_0000).is_none());
    // The farthest backward displacement: -0x8000_0000.
    let back = encode_rel32(0x8000_1000, 0x1005).unwrap();
    assert_eq!(back, [0xE9, 0x00, 0x00, 0x00, 0x80]);
    assert!(encode_rel32(0x8000_1001, 0x1005).is_none());
}

#[test]
fn rel32_wraps_around_address_space() {
    // A jump near the top of the address space reaching the bottom.
    let jump = encode_rel32(0xFFFF_FFFF_FFFF_FFF0, 0x10).unwrap();
    let delta = i32::from_le_bytes(jump[1..5].try_into().unwrap());
    assert_eq!(delta, 0x1B);
    assert_eq!(
        0xFFFF_FFFF_FFFF_FFF0u64.wrapping_add(5).wrapping_add(delta as i64 as u64),
        0x10
    );
}

#[test]
fn rel32_lands_on_target_for_many_pairs() {
    let pairs = [
        (0u64, 0u64),
        (0x7FFF_0000, 0x1234),
        (0x4000_0000_0000, 0x4000_7FFF_0000),
        (0x4000_7FFF_0000, 0x4000_0000_0000),
        (0x8000_0000_0000_0000, 0x7FFF_FFFF_FFFF_FFF0),
    ];
    for (from, to) in pairs {
        let jump = encode_rel32(from, to).unwrap();
        let delta = i32::from_le_bytes(jump[1..5].try_into().unwrap());
        assert_eq!(from.wrapping_add(5).wrapping_add(delta as i64 as u64), to);
    }
}

#[test]
fn abs64_lands_on_target() {
    for to in [0u64, 1, 0x1234_5678, u64::MAX] {
        let jump = encode_abs64(to);
        assert_eq!(jump[..6], [0xFF, 0x25, 0, 0, 0, 0]);
        assert_eq!(u64::from_le_bytes(jump[6..14].try_into().unwrap()), to);
    }
}
