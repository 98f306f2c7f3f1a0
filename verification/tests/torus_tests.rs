use game_of_life::torus::{wrap_index, wrapping_bound};

#[test]
fn zero_offset_is_identity() {
    for v in 0..10usize {
        assert_eq!(wrapping_bound(v, 0, 10), v);
    }
    assert_eq!(wrapping_bound(0, 0, 1), 0);
}

#[test]
fn full_turn_minus_one_matches_minus_one() {
    for v in 0..10usize {
        assert_eq!(wrapping_bound(v, 9, 10), wrapping_bound(v, -1, 10));
    }
    assert_eq!(wrapping_bound(0, -1, 10), 9);
    assert_eq!(wrapping_bound(3, 4, 5), wrapping_bound(3, -1, 5));
    assert_eq!(wrapping_bound(3, 4, 5), 2);
}

#[test]
fn positive_offsets_wrap_forward() {
    assert_eq!(wrapping_bound(4, 1, 5), 0);
    assert_eq!(wrapping_bound(3, 1, 5), 4);
    assert_eq!(wrapping_bound(2, 2, 5), 4);
    assert_eq!(wrapping_bound(3, 4, 5), 2);
}

#[test]
fn negative_offsets_wrap_backward() {
    assert_eq!(wrapping_bound(0, -1, 5), 4);
    assert_eq!(wrapping_bound(1, -1, 5), 0);
    assert_eq!(wrapping_bound(0, -4, 5), 1);
    assert_eq!(wrapping_bound(2, -2, 80), 0);
}

#[test]
fn unrestricted_wrap_handles_large_offsets() {
    assert_eq!(wrap_index(2, 7, 3), 0);
    assert_eq!(wrap_index(0, 3, 3), 0);
    assert_eq!(wrap_index(1, 1_000_003, 5), 4);
    assert_eq!(wrap_index(0, 0, 1), 0);
    assert_eq!(wrap_index(4, 2, 5), 1);
}
