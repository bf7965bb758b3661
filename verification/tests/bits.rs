use xor_distance_exercise::bits::Bits;

#[test]
fn bit_size() {
    assert_eq!(8, Bits::bit_size::<u8>());
    assert_eq!(16, Bits::bit_size::<u16>());
    assert_eq!(32, Bits::bit_size::<u32>());
    assert_eq!(64, Bits::bit_size::<u64>());
    assert_eq!(128, Bits::bit_size::<u128>());
}

#[test]
fn new_bits_by_default_none() {
    let bit_rep = Bits::new::<u64>();

    for i in 0..Bits::bit_size::<u64>() {
        assert_eq!(
            None,
            bit_rep.get_bit(i),
            "Every bit should be empty in this phase, but the bit with index {} is not!",
            i
        );
    }
}

#[test]
fn get_set_bit() {
    let mut bit_rep = Bits::new::<u64>();

    // By default all bits are None before being set otherwise.
    assert_eq!(None, bit_rep.get_bit(0));
    assert_eq!(None, bit_rep.get_bit(8));
    assert_eq!(None, bit_rep.get_bit(63));

    // Set 0-th bit to true.
    let index = 0;
    let val = true;
    bit_rep.set_bit(index, val);
    assert_eq!(Some(val), bit_rep.get_bit(index));

    // Set 22-nd bit to false.
    let index = 22;
    let val = false;
    bit_rep.set_bit(index, val);
    assert_eq!(Some(val), bit_rep.get_bit(index));

    // Set 63-rd bit to false.
    let index = 63;
    let val = false;
    bit_rep.set_bit(index, val);
    assert_eq!(Some(val), bit_rep.get_bit(index));

    // Override 63-rd bit to true.
    let index = 63;
    let val = true;
    bit_rep.set_bit(index, val);
    assert_eq!(Some(val), bit_rep.get_bit(index));
}

#[test]
fn set_bit_within_constrains() {
    let mut bit_rep = Bits::new::<u64>();

    let index = 2;
    // Setting the bit value for the first time is OK as it wasn't decided yet.
    assert_eq!(Ok(()), bit_rep.set_bit_within_constrains(index, true));
    // Setting the same bit value for the second time is OK, as the value stays the same.
    assert_eq!(Ok(()), bit_rep.set_bit_within_constrains(index, true));
    // Setting the bit value with a different value then in previous step violates constrains.
    assert_eq!(
        Err("Already decided bit value can not be changed!"),
        bit_rep.set_bit_within_constrains(index, false)
    );
}

#[test]
fn is_bit_decided() {
    let mut bit_rep = Bits::new::<u64>();
    let index = 0;

    assert!(
        !bit_rep.is_bit_decided(index),
        "Bit hasn't been decided already, so false must be returned!"
    );

    // Set the bit to be `1`.
    bit_rep.set_bit(index, true);

    assert!(
        bit_rep.is_bit_decided(index),
        "Bit has been decided already, so true must be returned!"
    );

    // Set the bit to be `0`.
    bit_rep.set_bit(index, false);

    assert!(
        bit_rep.is_bit_decided(index),
        "Bit has been decided already, so true must be returned!"
    );
}

#[test]
fn form_zero_padded_number() {
    let mut bit_rep = Bits::new::<u64>();
    bit_rep.set_bit_within_constrains(1, true).unwrap();
    bit_rep.set_bit_within_constrains(2, true).unwrap();
    bit_rep.set_bit_within_constrains(6, true).unwrap();

    assert_eq!(70, bit_rep.form_zero_padded_number::<u64>().unwrap());
}

#[test]
fn form_zero_padded_number_type_error() {
    let bit_rep = Bits::new::<u64>();

    // Error is expected.
    assert_eq!(
        Err("Requested number type has not enough bits to represent the whole number!"),
        bit_rep.form_zero_padded_number::<u32>()
    );
}

#[test]
fn incorporate_bit() {
    let mut bit_rep = Bits::new::<u64>();
    bit_rep.set_bit_within_constrains(1, true).unwrap();
    bit_rep.set_bit_within_constrains(2, true).unwrap();

    let mut number: u64 = 0;

    // Incorporating `1` bit with index 1 adds value 2.
    bit_rep.incorporate_bit(1, &mut number);

    assert_eq!(2, number);

    // Incorporating `1` bit with index 2 adds value 4.
    bit_rep.incorporate_bit(2, &mut number);

    assert_eq!(6, number);

    // Incorporating `0` bit does not change number's value.
    bit_rep.incorporate_bit(3, &mut number);

    assert_eq!(6, number);
}

#[test]
fn conflicting_bit_is_rejected_and_kept() {
    let mut bit_rep = Bits::new::<u64>();
    bit_rep.set_bit(2, true);

    assert!(bit_rep.set_bit_within_constrains(2, false).is_err());
    assert_eq!(Some(true), bit_rep.get_bit(2));
    for i in 0..64 {
        if i != 2 {
            assert_eq!(None, bit_rep.get_bit(i));
        }
    }
}

#[test]
fn constrained_bit_takes_either_value_once() {
    let mut bit_rep = Bits::new::<u8>();
    assert_eq!(Ok(()), bit_rep.set_bit_within_constrains(7, false));
    assert_eq!(Some(false), bit_rep.get_bit(7));
    assert_eq!(Ok(()), bit_rep.set_bit_within_constrains(7, false));
    assert_eq!(
        Err("Already decided bit value can not be changed!"),
        bit_rep.set_bit_within_constrains(7, true)
    );
    assert_eq!(Some(false), bit_rep.get_bit(7));
    assert!(bit_rep.is_bit_decided(7));
    assert!(!bit_rep.is_bit_decided(6));
}

#[test]
fn register_has_the_width_of_its_type() {
    assert_eq!(64, Bits::bit_size::<i64>());
    assert_eq!(8, Bits::bit_size::<i8>());
    assert_eq!(usize::BITS as usize, Bits::bit_size::<usize>());
    assert_eq!(usize::BITS as usize, Bits::bit_size::<isize>());
    let bit_rep = Bits::new::<u8>();
    for i in 0..8 {
        assert_eq!(None, bit_rep.get_bit(i));
    }
    let bit_rep = Bits::new::<u128>();
    assert_eq!(None, bit_rep.get_bit(127));
}

#[test]
fn forming_the_number_twice_gives_it_twice() {
    let mut bit_rep = Bits::new::<u16>();
    for i in 0..16 {
        bit_rep.set_bit(i, i % 3 == 0);
    }
    let first = bit_rep.form_zero_padded_number::<u16>().unwrap();
    let second = bit_rep.form_zero_padded_number::<u16>().unwrap();
    assert_eq!(0b1001_0010_0100_1001, first);
    assert_eq!(first, second);
}

#[test]
fn undecided_and_zero_bits_read_as_zero() {
    let mut bit_rep = Bits::new::<u8>();
    assert_eq!(0, bit_rep.form_zero_padded_number::<u8>().unwrap());
    bit_rep.set_bit(0, true);
    bit_rep.set_bit(1, false);
    bit_rep.set_bit(7, true);
    assert_eq!(0x81, bit_rep.form_zero_padded_number::<u8>().unwrap());
}

#[test]
fn wider_type_holds_the_number() {
    let mut bit_rep = Bits::new::<u8>();
    bit_rep.set_bit(7, true);
    bit_rep.set_bit(3, true);
    assert_eq!(0x88u64, bit_rep.form_zero_padded_number::<u64>().unwrap());
    assert_eq!(0x88u128, bit_rep.form_zero_padded_number::<u128>().unwrap());
    assert_eq!(0x88i16, bit_rep.form_zero_padded_number::<i16>().unwrap());
    // The same width, signed: bit 7 is the sign bit.
    assert_eq!(-120i8, bit_rep.form_zero_padded_number::<i8>().unwrap());
}

#[test]
fn narrower_type_is_refused() {
    let bit_rep = Bits::new::<u16>();
    assert_eq!(
        Err("Requested number type has not enough bits to represent the whole number!"),
        bit_rep.form_zero_padded_number::<u8>()
    );
    let bit_rep = Bits::new::<u128>();
    assert!(bit_rep.form_zero_padded_number::<u64>().is_err());
    assert!(bit_rep.form_zero_padded_number::<i128>().is_ok());
}
