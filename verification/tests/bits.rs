use emugator::bits::{bit, bitmask, bitmask_low, bitmask_range, bits, bits_range};

#[test]
fn test_bits() {
    let ten = 0b1010;

    assert_eq!(bit(ten, 0), 0b0);
    assert_eq!(bit(ten, 1), 0b1);
    assert_eq!(bit(ten, 2), 0b0);
    assert_eq!(bit(ten, 3), 0b1);

    assert_eq!(bits(ten, 0, 2), 0b10);
    assert_eq!(bits(ten, 1, 3), 0b101);
    assert_eq!(bits_range(ten, 3, 1), 0b101);
}

#[test]
fn test_bitmask() {
    assert_eq!(bitmask(0, 5), 0b11111);
    assert_eq!(bitmask_range(10, 5), 0b11111100000);
    assert_eq!(bitmask_low(5), 0b11111);
}

#[test]
fn bits_of_the_top_bit() {
    assert_eq!(bit(0x8000_0000, 31), 1);
    assert_eq!(bits(0xFFFF_FFFF, 28, 4), 0xF);
    assert_eq!(bitmask_range(31, 11), 0xFFFF_F800);
}

#[test]
fn bits_under_mask() {
    let x = 0xDEAD_BEEF;
    assert_eq!(bits(x, 8, 12) << 8, x & bitmask(8, 12));
    assert_eq!(bits(x, 0, 31), x & 0x7FFF_FFFF);
}
