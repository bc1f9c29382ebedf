use eve_preview_manager::geometry::to_fixed;

#[test]
fn test_to_fixed_whole_numbers() {
    assert_eq!(to_fixed(1, 1), 65536);
    assert_eq!(to_fixed(2, 1), 131072);
    assert_eq!(to_fixed(0, 1), 0);
}

#[test]
fn test_to_fixed_fractional() {
    // 1/2 * 65536 = 32768
    assert_eq!(to_fixed(1, 2), 32768);

    // 3/2 * 65536 = 98304
    assert_eq!(to_fixed(3, 2), 98304);

    // 1/4 * 65536 = 16384
    assert_eq!(to_fixed(1, 4), 16384);
}

#[test]
fn test_to_fixed_negative() {
    assert_eq!(to_fixed(-1, 1), -65536);
    assert_eq!(to_fixed(-1, 2), -32768);
}

#[test]
fn test_to_fixed_rounding() {
    // 1/3 * 65536 = 21845.33..., rounds to 21845
    let result = to_fixed(1, 3);
    assert_eq!(result, 21845);
}

#[test]
fn test_to_fixed_large_values() {
    // Screen coordinate scale values
    assert_eq!(to_fixed(1920, 1), 1920 * 65536);
    assert_eq!(to_fixed(1080, 1), 1080 * 65536);
}

#[test]
fn test_to_fixed_rounds_half_away_from_zero() {
    // 1/2 scaled: 32768 exactly; 3/131072 of a unit: 65536*3/131072 = 1.5 rounds to 2
    assert_eq!(to_fixed(3, 131072), 2);
    assert_eq!(to_fixed(-3, 131072), -2);
    // 2/3 * 65536 = 43690.67 rounds to 43691
    assert_eq!(to_fixed(2, 3), 43691);
    assert_eq!(to_fixed(-2, 3), -43691);
}
