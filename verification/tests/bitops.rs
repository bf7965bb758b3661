use xor_distance_exercise::bitops::BitOps;

#[test]
fn check_is_flag() {
    let zero = 0;

    // Zero is not a flag.
    assert!(!zero.is_flag());

    // Number having more than one "1" bit is not a flag.
    let x = 0b0111;
    assert!(!x.is_flag());

    let flag = 0b0100;

    // Any number that has exactly one "1" bit set is a flag.
    assert!(flag.is_flag());
}

#[test]
fn check_is_flag_set() {
    let zero = 0b0000;

    // Zero is not a flag.
    assert!(!zero.is_flag());
    // Zero can not be set as a flag to anything.
    assert!(!zero.is_flag_set(0));

    let flag = 0b0010;
    let x = 0b1110;
    // Valid flag.
    assert!(flag.is_flag());
    // The flag is set.
    assert!(x.is_flag_set(flag));
}

#[test]
fn check_set_flag() {
    let mut x = 0b0000;

    // Set flag for first bit.
    x.set_flag(0b0001);
    // Check first bit.
    assert_eq!(0b0001, x);

    // Set flag for second bit.
    x.set_flag(0b0010);
    // Check second bit.
    assert_eq!(0b0011, x);

    // Set flag for fourth bit.
    x.set_flag(0b1000);
    // Check fourth bit.
    assert_eq!(0b1011, x);
}

#[test]
fn check_is_bit_set() {
    let x = 0b1011;

    assert!(x.is_bit_set(0));
    assert!(x.is_bit_set(1));
    assert!(!x.is_bit_set(2));
    assert!(x.is_bit_set(3));
    // Test signed numbers.
    assert!(0b1011i8.is_bit_set(0));
    assert!(0b1011i16.is_bit_set(0));
    assert!(0b1011i32.is_bit_set(0));
    assert!(0b1011i64.is_bit_set(0));
    assert!(0b1011i128.is_bit_set(0));
    assert!(0b1011isize.is_bit_set(0));
    // Test unsigned numbers.
    assert!(0b1011u8.is_bit_set(0));
    assert!(0b1011u16.is_bit_set(0));
    assert!(0b1011u32.is_bit_set(0));
    assert!(0b1011u64.is_bit_set(0));
    assert!(0b1011u128.is_bit_set(0));
    assert!(0b1011usize.is_bit_set(0));
}

#[test]
fn check_set_bit() {
    let mut x = 0b0000;

    // Set first bit.
    x.set_bit(0);
    // Check first bit.
    assert_eq!(0b0001, x);

    // Set second bit.
    x.set_bit(1);
    // Check second bit.
    assert_eq!(0b0011, x);

    // Set fourth bit.
    x.set_bit(3);
    // Check fourth bit.
    assert_eq!(0b1011, x);
}

#[test]
fn flags_are_the_positive_powers_of_two() {
    for i in 0..8 {
        assert!((1u8 << i).is_flag());
    }
    for i in 0..7 {
        assert!((1i8 << i).is_flag());
    }
    // The sign bit alone is a negative number.
    assert!(!i8::MIN.is_flag());
    assert!(!(-1i8).is_flag());
    assert!(!0u8.is_flag());
    assert!(!3u8.is_flag());
    assert!(!u8::MAX.is_flag());
    assert!((1u128 << 127).is_flag());
    assert!(!i128::MIN.is_flag());
    assert!((1i128 << 126).is_flag());
    assert!(!u128::MAX.is_flag());
    assert!((1usize << (usize::BITS - 1)).is_flag());
}

#[test]
fn flag_is_set_where_a_bit_is_shared() {
    assert!(0b1100u8.is_flag_set(0b0110));
    assert!(!0b1100u8.is_flag_set(0b0011));
    assert!(!0b1100u8.is_flag_set(0));
    assert!(0x80u8.is_flag_set(0x80));
    // In a signed type the sign bit is not counted.
    assert!(!(-1i8).is_flag_set(i8::MIN));
    assert!((-1i8).is_flag_set(0x40));
    assert!(!(-1i8).is_flag_set(-1));
}

#[test]
fn set_flag_adds_every_bit_of_the_flag() {
    let mut x = 0b0101u16;
    x.set_flag(0b0110);
    assert_eq!(0b0111, x);
    x.set_flag(0);
    assert_eq!(0b0111, x);
    let mut y = 1i32;
    y.set_flag(i32::MIN);
    assert_eq!(i32::MIN + 1, y);
}

#[test]
fn top_bit_of_each_type() {
    assert!(0x80u8.is_bit_set(7));
    assert!(0x8000u16.is_bit_set(15));
    assert!(0x8000_0000u32.is_bit_set(31));
    assert!((1u64 << 63).is_bit_set(63));
    assert!((1u128 << 127).is_bit_set(127));
    assert!((1usize << (usize::BITS - 1)).is_bit_set(usize::BITS as usize - 1));
    assert!(!0x7fu8.is_bit_set(7));
    // The sign bit of a signed type reads as not set.
    assert!(!(-1i8).is_bit_set(7));
    assert!((-1i8).is_bit_set(6));
    assert!(!i64::MIN.is_bit_set(63));
    assert!(!i128::MIN.is_bit_set(127));
    assert!((-1isize).is_bit_set(0));
}

#[test]
fn set_bit_of_each_type() {
    let mut a = 0u8;
    a.set_bit(7);
    assert_eq!(0x80, a);
    let mut b = 0i8;
    b.set_bit(7);
    assert_eq!(i8::MIN, b);
    let mut c = 5u128;
    c.set_bit(127);
    assert_eq!((1u128 << 127) + 5, c);
    let mut d = 1i64;
    d.set_bit(0);
    assert_eq!(1, d);
    let mut e = 0usize;
    e.set_bit(usize::BITS as usize - 1);
    assert_eq!(1usize << (usize::BITS - 1), e);
    let mut f = 0i128;
    f.set_bit(126);
    assert_eq!(1i128 << 126, f);
}
