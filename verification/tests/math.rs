use unbeatable_pong::math::isqrt;

#[test]
fn square_roots_of_small_numbers() {
    let expected: [u64; 17] = [0, 1, 1, 1, 2, 2, 2, 2, 2, 3, 3, 3, 3, 3, 3, 3, 4];
    for (n, root) in expected.iter().enumerate() {
        assert_eq!(isqrt(n as u128), *root);
    }
}

#[test]
fn square_roots_around_squares() {
    let roots: [u64; 6] = [5, 1000, 65536, 3037000499, 4294967296, u64::MAX];
    for r in roots {
        let square = (r as u128) * (r as u128);
        assert_eq!(isqrt(square), r);
        assert_eq!(isqrt(square - 1), r - 1);
        if r < u64::MAX {
            assert_eq!(isqrt(square + 1), r);
            assert_eq!(isqrt(square + 2 * r as u128), r);
            assert_eq!(isqrt(square + 2 * r as u128 + 1), r + 1);
        }
    }
}

#[test]
fn square_root_of_the_largest_number() {
    assert_eq!(isqrt(u128::MAX), u64::MAX);
}

#[test]
fn square_root_of_two_to_the_sixty_third() {
    // 2^31.5 is 3037000499.97.
    assert_eq!(isqrt(1u128 << 63), 3037000499);
}
