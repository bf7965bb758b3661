use xor_distance_exercise::fixed_int::UnsignedInt;
use xor_distance_exercise::xor_distance::{distance_to, XorDistance};

#[test]
fn compose_closest_points_inequalities() {
    let points: Vec<u8> = vec![0, 1, 2, 3, 4, 5, 6, 7, 8, 9, 10, 11, 12];
    let xor_distance = XorDistance::new(points.clone());

    let closest_points: Vec<u8> = vec![0, 1, 2, 3, 4, 5, 6];

    // Test first example, count < number of points.
    let result = xor_distance.compose_closest_points_inequalities(&closest_points);
    let expected: Vec<(u8, u8)> = vec![(0, 1), (1, 2), (2, 3), (3, 4), (4, 5), (5, 6)];

    assert_eq!(expected, result);
}

#[test]
fn compose_further_points_inequalities() {
    let points: Vec<u8> = vec![0, 1, 2, 3, 4, 5, 6, 7, 8, 9, 10, 11, 12];
    let xor_distance = XorDistance::new(points.clone());

    let closest_points: Vec<u8> = vec![0, 1, 2, 3, 4, 5, 6];

    // Test first example, count < number of points.
    let result = xor_distance.compose_further_points_inequalities(&closest_points);
    let expected: Vec<(u8, u8)> = vec![(6, 7), (6, 8), (6, 9), (6, 10), (6, 11), (6, 12)];

    assert_eq!(expected, result);
}

#[test]
fn closest_u64() {
    let points: Vec<u64> = vec![
        0, 1, 2, 4, 6, 8, 12, 18, 19, 20, 21, 22, 406, 407, 408, 409, 410, 444, 445,
    ];
    let xor_distance = XorDistance::new(points.clone());

    // Test first example, count < number of points.
    let result = xor_distance.closest(300, 4);
    let expected = vec![444, 445, 408, 409];

    assert_eq!(expected, result);

    // Test second example, count < number of points.
    let result = xor_distance.closest(10, 10);
    let expected = vec![8, 12, 2, 0, 1, 6, 4, 18, 19, 22];

    assert_eq!(expected, result);

    // Test third example, count < number of points.
    let result = xor_distance.closest(888, 12);
    let expected = vec![444, 445, 408, 409, 410, 406, 407, 18, 19, 20, 21, 22];

    assert_eq!(expected, result);

    // Test situation with count = 0.
    let result = xor_distance.closest(10, 0);
    let expected: Vec<u64> = Vec::new();

    assert_eq!(expected, result);

    // Test situation with count = number of points.
    let result = xor_distance.closest(10, points.len());
    let expected = vec![
        8, 12, 2, 0, 1, 6, 4, 18, 19, 22, 20, 21, 410, 408, 409, 406, 407, 444, 445,
    ];

    assert_eq!(expected, result);
    assert_eq!(points.len(), expected.len());

    // Test situation with count > number of points.
    let result = xor_distance.closest(10, points.len() + 1);
    let expected = vec![
        8, 12, 2, 0, 1, 6, 4, 18, 19, 22, 20, 21, 410, 408, 409, 406, 407, 444, 445,
    ];

    assert_eq!(expected, result);
    assert_eq!(points.len(), expected.len());
}

#[test]
fn closest_u8() {
    let points: Vec<u8> = vec![
        0, 1, 2, 3, 4, 5, 6, 7, 8, 9, 10, 12, 20, 21, 22, 23, 24, 100, 220, 230, 240, 250,
    ];
    let xor_distance = XorDistance::new(points.clone());

    // Test first example, count < number of points.
    let result = xor_distance.closest(18, 8);
    let expected = vec![22, 23, 20, 21, 24, 2, 3, 0];

    assert_eq!(expected, result);

    // Test second example, count < number of points.
    let result = xor_distance.closest(200, 14);
    let expected = vec![220, 230, 250, 240, 100, 8, 9, 10, 12, 0, 1, 2, 3, 4];

    assert_eq!(expected, result);
}

#[test]
fn reverse_closest_u64() {
    let xor_distance: XorDistance<u64> = XorDistance::new(vec![
        0, 1, 2, 4, 6, 8, 12, 18, 19, 20, 21, 22, 406, 407, 408, 409, 410, 444, 445,
    ]);

    let closest_points = vec![8, 12, 2, 0, 1, 6, 4, 18, 19, 22];
    let count = closest_points.len();
    let guess_pos = xor_distance.reverse_closest(&closest_points).unwrap();

    assert_eq!(closest_points, xor_distance.closest(guess_pos, count));
}

#[test]
fn reverse_closest_u8() {
    let xor_distance: XorDistance<u64> = XorDistance::new(vec![
        0, 1, 2, 3, 4, 5, 6, 7, 8, 9, 10, 12, 20, 21, 22, 23, 24, 100, 220, 230, 240, 250,
    ]);

    let closest_points = vec![220, 230, 250, 240, 100, 8, 9, 10, 12, 0, 1, 2, 3, 4];
    let count = closest_points.len();
    let guess_pos = xor_distance.reverse_closest(&closest_points).unwrap();

    assert_eq!(closest_points, xor_distance.closest(guess_pos, count));
}

#[test]
fn reverse_closest_invalid_input() {
    let xor_distance: XorDistance<u64> = XorDistance::new(vec![
        0, 1, 2, 4, 6, 8, 12, 18, 19, 20, 21, 22, 406, 407, 408, 409, 410, 444, 445,
    ]);

    let closest_points = vec![8, 2, 12, 6, 1, 0, 4, 18, 22];

    // The output is `None` as there's no `x` that would satisfy the provided closest points
    // input.
    assert!(xor_distance.reverse_closest(&closest_points).is_none());
}

fn farms() -> Vec<u64> {
    vec![0, 1, 2, 4, 6, 8, 12, 18, 19, 20, 21, 22, 406, 407, 408, 409, 410, 444, 445]
}

fn scattered() -> Vec<u8> {
    vec![3, 200, 17, 64, 65, 129, 255, 0]
}

#[test]
fn ten_closest_to_ten_and_back() {
    let xor_distance = XorDistance::new(farms());
    let closest = xor_distance.closest(10, 10);
    assert_eq!(vec![8, 12, 2, 0, 1, 6, 4, 18, 19, 22], closest);
    let guess = xor_distance.reverse_closest(&closest).unwrap();
    assert_eq!(10, guess);
    assert_eq!(closest, xor_distance.closest(guess, 10));
}

#[test]
fn reverse_gives_the_position_with_the_fewest_bits() {
    let xor_distance = XorDistance::new(farms());
    let closest = xor_distance.closest(200, 10);
    assert_eq!(vec![8, 12, 0, 1, 2, 4, 6, 18, 19, 20], closest);
    assert_eq!(Some(8), xor_distance.reverse_closest(&closest));
    let closest = xor_distance.closest(300, 4);
    assert_eq!(Some(296), xor_distance.reverse_closest(&closest));
    assert_eq!(Some(289), xor_distance.reverse_closest(&[445]));
}

#[test]
fn round_trip_from_every_position() {
    let points = scattered();
    let xor_distance = XorDistance::new(points.clone());
    for x in 0..=u8::MAX {
        for count in 0..=points.len() {
            let closest = xor_distance.closest(x, count);
            assert_eq!(count, closest.len());
            let guess = xor_distance.reverse_closest(&closest).unwrap();
            assert_eq!(closest, xor_distance.closest(guess, count));
            // No bit is set in the guess that the position lacks.
            assert_eq!(guess, guess & x);
        }
    }
}

#[test]
fn fewer_closest_points_begin_the_list_of_more() {
    let points = scattered();
    let xor_distance = XorDistance::new(points.clone());
    for x in [0u8, 1, 77, 128, 255] {
        for count in 0..points.len() {
            let fewer = xor_distance.closest(x, count);
            let more = xor_distance.closest(x, count + 1);
            assert_eq!(count + 1, more.len());
            assert_eq!(fewer[..], more[..count]);
        }
    }
}

#[test]
fn no_closest_points_where_none_is_asked_for() {
    let xor_distance = XorDistance::new(scattered());
    for x in 0..=u8::MAX {
        assert_eq!(Vec::<u8>::new(), xor_distance.closest(x, 0));
    }
    let empty: XorDistance<u32> = XorDistance::new(Vec::new());
    assert_eq!(Vec::<u32>::new(), empty.closest(7, 0));
    assert_eq!(Vec::<u32>::new(), empty.closest(7, 3));
}

#[test]
fn more_than_all_is_all() {
    let points = scattered();
    let xor_distance = XorDistance::new(points.clone());
    let all = xor_distance.closest(77, points.len());
    assert_eq!(vec![65, 64, 0, 3, 17, 200, 255, 129], all);
    assert_eq!(all, xor_distance.closest(77, points.len() + 5));
    assert_eq!(all, xor_distance.closest(77, usize::MAX));
}

#[test]
fn closest_of_three() {
    let xor_distance = XorDistance::new(scattered());
    assert_eq!(vec![65, 64, 0], xor_distance.closest(77, 3));
    assert_eq!(vec![0], xor_distance.closest(13, 1));
}

#[test]
fn equal_points_stay_together() {
    let xor_distance: XorDistance<u16> = XorDistance::new(vec![7, 5, 5, 6]);
    assert_eq!(vec![5, 5, 7], xor_distance.closest(5, 3));
    let xor_distance: XorDistance<u16> = XorDistance::new(vec![5, 5, 7]);
    assert_eq!(vec![5, 5], xor_distance.closest(4, 2));
}

#[test]
fn empty_list_gives_zero() {
    let xor_distance = XorDistance::new(farms());
    assert_eq!(Some(0), xor_distance.reverse_closest(&[]));
    assert_eq!(Vec::<(u64, u64)>::new(), xor_distance.form_inequalities(&[]));
    assert_eq!(
        Vec::<(u64, u64)>::new(),
        xor_distance.compose_closest_points_inequalities(&[])
    );
    assert_eq!(
        Vec::<(u64, u64)>::new(),
        xor_distance.compose_further_points_inequalities(&[])
    );
}

#[test]
fn equal_neighbours_are_a_contradiction() {
    let xor_distance = XorDistance::new(farms());
    assert_eq!(None, xor_distance.reverse_closest(&[8, 8]));
    let xor_distance: XorDistance<u8> = XorDistance::new(vec![5, 5, 7]);
    assert_eq!(None, xor_distance.reverse_closest(&[5, 5]));
    assert_eq!(Some(0), xor_distance.reverse_closest(&[5]));
}

#[test]
fn opposite_restrictions_are_a_contradiction() {
    let xor_distance = XorDistance::new(scattered());
    // 3 before 200 asks for bit 7 to be 0, 200 before 17 for it to be 1.
    assert_eq!(None, xor_distance.reverse_closest(&[3, 200, 17]));
    assert_eq!(Some(67), xor_distance.reverse_closest(&[65, 64, 3]));
    assert_eq!(vec![65, 64, 3], xor_distance.closest(67, 3));
}

#[test]
fn inequalities_of_a_list() {
    let xor_distance = XorDistance::new(scattered());
    let expected: Vec<(u8, u8)> = vec![
        (64, 65),
        (65, 3),
        (65, 200),
        (65, 17),
        (65, 129),
        (65, 255),
        (65, 0),
    ];
    assert_eq!(expected, xor_distance.form_inequalities(&[64, 65]));
    assert_eq!(
        vec![3, 200, 17, 129, 255, 0],
        xor_distance.get_further_points(&[64, 65])
    );
    assert_eq!(Some(64), xor_distance.reverse_closest(&[64, 65]));
}

#[test]
fn list_of_a_point_outside_the_set() {
    let xor_distance = XorDistance::new(scattered());
    assert_eq!(scattered(), xor_distance.get_further_points(&[9]));
    assert_eq!(Some(8), xor_distance.reverse_closest(&[9]));
}

#[test]
fn restrictions_of_inequalities() {
    let xor_distance: XorDistance<u8> = XorDistance::new(Vec::new());
    let bit_rep = xor_distance
        .form_bits_restrictions_from_inequalities(&[(64, 65), (65, 3), (65, 200)])
        .unwrap();
    for i in 0..8 {
        let expected = match i {
            0 => Some(false),
            6 => Some(true),
            7 => Some(false),
            _ => None,
        };
        assert_eq!(expected, bit_rep.get_bit(i));
    }
    assert!(xor_distance
        .form_bits_restrictions_from_inequalities(&[(64, 65), (65, 64)])
        .is_none());
    assert!(xor_distance
        .form_bits_restrictions_from_inequalities(&[(7, 7)])
        .is_none());
    let bit_rep = xor_distance
        .form_bits_restrictions_from_inequalities(&[])
        .unwrap();
    for i in 0..8 {
        assert_eq!(None, bit_rep.get_bit(i));
    }
}

#[test]
fn restriction_of_one_inequality() {
    let xor_distance: XorDistance<u8> = XorDistance::new(Vec::new());
    let mut bit_rep = xor_distance_exercise::bits::Bits::new::<u8>();
    // 200 and 17 differ first in bit 7, which 200 has set.
    assert_eq!(
        Ok(()),
        xor_distance.add_bit_restriction_from_inequality(&(200, 17), &mut bit_rep)
    );
    assert_eq!(Some(true), bit_rep.get_bit(7));
    assert_eq!(
        Ok(()),
        xor_distance.add_bit_restriction_from_inequality(&(129, 3), &mut bit_rep)
    );
    assert_eq!(
        Err("Already decided bit value can not be changed!"),
        xor_distance.add_bit_restriction_from_inequality(&(3, 200), &mut bit_rep)
    );
    assert_eq!(
        Err("Equal points can not be ordered by distance!"),
        xor_distance.add_bit_restriction_from_inequality(&(3, 3), &mut bit_rep)
    );
    assert_eq!(Some(true), bit_rep.get_bit(7));
    // 2 and 3 differ in bit 0 only, which 2 has not set.
    assert_eq!(
        Ok(()),
        xor_distance.add_bit_restriction_from_inequality(&(2, 3), &mut bit_rep)
    );
    assert_eq!(Some(false), bit_rep.get_bit(0));
    for i in 1..7 {
        assert_eq!(None, bit_rep.get_bit(i));
    }
}

#[test]
fn distance_is_the_xor() {
    assert_eq!(0, distance_to(5u8, 5));
    assert_eq!(6, distance_to(5u8, 3));
    assert_eq!(255, distance_to(0xf0u8, 0x0f));
    assert_eq!(u64::MAX as u128, distance_to(u64::MAX, 0));
    assert_eq!(u128::MAX - 1, distance_to(u128::MAX, 1));
}

#[test]
fn leading_zeros_of_each_width() {
    assert_eq!(8, UnsignedInt::leading_zeros(0u8));
    assert_eq!(7, UnsignedInt::leading_zeros(1u8));
    assert_eq!(5, UnsignedInt::leading_zeros(5u8));
    assert_eq!(0, UnsignedInt::leading_zeros(0x80u8));
    assert_eq!(0, UnsignedInt::leading_zeros(u8::MAX));
    assert_eq!(16, UnsignedInt::leading_zeros(0u16));
    assert_eq!(10, UnsignedInt::leading_zeros(0b0101000u16));
    assert_eq!(31, UnsignedInt::leading_zeros(1u32));
    assert_eq!(64, UnsignedInt::leading_zeros(0u64));
    assert_eq!(0, UnsignedInt::leading_zeros(u64::MAX));
    assert_eq!(128, UnsignedInt::leading_zeros(0u128));
    assert_eq!(127, UnsignedInt::leading_zeros(1u128));
    assert_eq!(0, UnsignedInt::leading_zeros(u128::MAX));
    assert_eq!(usize::BITS - 1, UnsignedInt::leading_zeros(1usize));
}

#[test]
fn magnitude_of_each_width() {
    assert_eq!(255, u8::MAX.magnitude());
    assert_eq!(65535, u16::MAX.magnitude());
    assert_eq!(u32::MAX as u128, u32::MAX.magnitude());
    assert_eq!(u64::MAX as u128, u64::MAX.magnitude());
    assert_eq!(u128::MAX, u128::MAX.magnitude());
    assert_eq!(usize::MAX as u128, usize::MAX.magnitude());
    assert_eq!(0, 0u8.magnitude());
}

#[test]
fn reverse_in_the_widest_type() {
    let top = 1u128 << 127;
    let xor_distance = XorDistance::new(vec![0, top, 1, top + 1]);
    let closest = xor_distance.closest(top + 1, 3);
    assert_eq!(vec![top + 1, top, 1], closest);
    let guess = xor_distance.reverse_closest(&closest).unwrap();
    assert_eq!(top + 1, guess);
    assert_eq!(closest, xor_distance.closest(guess, 3));
}
