use flocking::vector::{sqrt_ceil, sqrt_floor, Vec2, COORD_LIMIT, SCALE};

#[test]
fn square_roots_round_down_and_up() {
    assert_eq!(sqrt_floor(0), 0);
    assert_eq!(sqrt_ceil(0), 0);
    assert_eq!(sqrt_floor(16), 4);
    assert_eq!(sqrt_ceil(16), 4);
    assert_eq!(sqrt_floor(17), 4);
    assert_eq!(sqrt_ceil(17), 5);
    assert_eq!(sqrt_floor(8_000_000_000_000_000_000), 2_828_427_124);
    assert_eq!(sqrt_ceil(8_000_000_000_000_000_000), 2_828_427_125);
}

#[test]
fn length_is_rounded_up() {
    assert_eq!(Vec2::new(3000, 4000).length(), 5000);
    assert_eq!(Vec2::new(1, 1).length(), 2);
    assert_eq!(Vec2::new(3000, 4000).length_squared(), 25_000_000);
}

#[test]
fn scale_to_keeps_direction() {
    assert_eq!(Vec2::new(3000, 4000).scale_to(SCALE), Vec2::new(600, 800));
    assert_eq!(Vec2::new(-3000, 4000).scale_to(SCALE), Vec2::new(-600, 800));
    assert_eq!(Vec2::zero().scale_to(SCALE), Vec2::zero());
}

#[test]
fn scale_up_to_never_falls_short() {
    let r = Vec2::new(1, 1).scale_up_to(SCALE);
    assert_eq!(r, Vec2::new(1000, 1000));
    assert!(r.length_squared() >= (SCALE * SCALE) as u64);
}

#[test]
fn clamp_length_max_shortens_long_vectors_only() {
    assert_eq!(Vec2::new(300, 400).clamp_length_max(1000), Vec2::new(300, 400));
    assert_eq!(Vec2::new(3000, 4000).clamp_length_max(1000), Vec2::new(600, 800));
}

#[test]
fn clamp_length_min_lengthens_short_vectors_only() {
    assert_eq!(Vec2::new(-100, 0).clamp_length_min(1000), Vec2::new(-1000, 0));
    assert_eq!(Vec2::new(3000, 4000).clamp_length_min(1000), Vec2::new(3000, 4000));
    assert_eq!(Vec2::zero().clamp_length_min(1000), Vec2::zero());
}

#[test]
fn fixed_point_product_rounds_toward_zero_and_saturates() {
    assert_eq!(Vec2::new(-1000, 1500).mul_fixed(100_000), Vec2::new(-100_000, 150_000));
    assert_eq!(Vec2::new(-1, 1).mul_fixed(500), Vec2::new(-1, 1));
    assert_eq!(Vec2::new(0, 2).mul_fixed(1500), Vec2::new(0, 3));
    assert_eq!(Vec2::new(-3, 0).mul_fixed(100), Vec2::new(-1, 0));
    assert_eq!(
        Vec2::new(COORD_LIMIT, -COORD_LIMIT).mul_fixed(2000),
        Vec2::new(COORD_LIMIT, -COORD_LIMIT)
    );
}

#[test]
fn saturating_add_holds_coordinates_in_range() {
    assert_eq!(Vec2::new(1, 2).saturating_add(Vec2::new(3, -4)), Vec2::new(4, -2));
    assert_eq!(
        Vec2::new(COORD_LIMIT, -COORD_LIMIT).saturating_add(Vec2::new(5, -5)),
        Vec2::new(COORD_LIMIT, -COORD_LIMIT)
    );
}
