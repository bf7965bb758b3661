use rand::distributions::Standard;
use rand::seq::IteratorRandom;
use rand::Rng;
use xor_distance_exercise::delivery_system::FoodDeliverySystem;

#[test]
fn closest_farms() {
    let delivery_system: FoodDeliverySystem<u64> = FoodDeliverySystem::new(vec![
        0, 1, 2, 4, 6, 8, 12, 18, 19, 20, 21, 22, 406, 407, 408, 409, 410, 444, 445,
    ]);

    let result = delivery_system.closest_farms(10, 10);
    let expected = vec![8, 12, 2, 0, 1, 6, 4, 18, 19, 22];

    assert_eq!(expected, result);
}

#[test]
fn reverse_closest_farms() {
    let delivery_system: FoodDeliverySystem<u64> = FoodDeliverySystem::new(vec![
        0, 1, 2, 4, 6, 8, 12, 18, 19, 20, 21, 22, 406, 407, 408, 409, 410, 444, 445,
    ]);

    let position = 200;
    let count = 10;

    // Get closest farms and reversed guess of possible customer's `position`.
    let closest_farms = delivery_system.closest_farms(position, count);
    let position_guess = delivery_system
        .reverse_closest_farms(&closest_farms)
        .unwrap();

    // Check that both `position` and `position_guess` produce the same result.
    assert_eq!(
        closest_farms,
        delivery_system.closest_farms(position_guess, count)
    );
}

#[test]
fn reverse_closest_farms_random_position() {
    // Get 2000 random numbers.
    let mut rng = rand::thread_rng();
    let points: Vec<u64> = (&mut rng).sample_iter(&Standard).take(2000).collect();

    let delivery_system = FoodDeliverySystem::new(points);

    for _ in 0..100 {
        let position = rng.gen();
        let closest_points = delivery_system.closest_farms(position, 10);
        let guess_pos = delivery_system
            .reverse_closest_farms(&closest_points)
            .unwrap();

        assert_eq!(closest_points, delivery_system.closest_farms(guess_pos, 10));
    }
}

#[test]
fn reverse_closest_farms_random_set() {
    // Get 200 random numbers.
    let mut rng = rand::thread_rng();
    let points: Vec<u64> = (&mut rng).sample_iter(&Standard).take(200).collect();

    let delivery_system = FoodDeliverySystem::new(points.clone());

    // Try hundred random closest points collections.
    for _ in 0..100 {
        let closest_points: Vec<u64> = points
            .iter()
            // Returns `Vec<&u64>` and thus we need to map it to `Vec<u64>`.
            .choose_multiple(&mut rng, 10)
            .iter()
            .map(|&&x| x)
            .collect();

        // Most of the time the generated closest points will be invalid, as they are selected
        // randomly and required relations/inequalities are not satisfied.
        if let Some(guess_pos) = delivery_system.reverse_closest_farms(&closest_points) {
            assert_eq!(closest_points, delivery_system.closest_farms(guess_pos, 10));
        }
    }
}

#[test]
fn farms_are_forwarded_unchanged() {
    let delivery_system: FoodDeliverySystem<u8> =
        FoodDeliverySystem::new(vec![3, 200, 17, 64, 65, 129, 255, 0]);
    assert_eq!(vec![65, 64, 0], delivery_system.closest_farms(77, 3));
    assert_eq!(Some(65), delivery_system.reverse_closest_farms(&[65, 64, 0]));
    assert_eq!(None, delivery_system.reverse_closest_farms(&[3, 200, 17]));
    assert_eq!(Some(0), delivery_system.reverse_closest_farms(&[]));
}
