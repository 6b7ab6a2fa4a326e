use netload::wide::{gt_wide, mul_wide};

#[test]
fn wide_products_are_exact() {
    assert_eq!(mul_wide(u128::MAX, u128::MAX), (u128::MAX - 1, 1));
    assert_eq!(mul_wide(1 << 64, 1 << 64), (1, 0));
    assert_eq!(mul_wide(123_456_789, 987_654_321), (0, 121_932_631_112_635_269));
    assert_eq!(mul_wide(0, u128::MAX), (0, 0));
}

#[test]
fn wide_comparison_orders_high_half_first() {
    assert!(gt_wide(1, 0, 0, u128::MAX));
    assert!(!gt_wide(0, u128::MAX, 1, 0));
    assert!(gt_wide(2, 5, 2, 4));
    assert!(!gt_wide(2, 4, 2, 4));
}
