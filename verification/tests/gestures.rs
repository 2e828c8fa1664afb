use waylandsfpanel::menu::{is_clicking, swipe_distance};
use waylandsfpanel::panel::PointerPosition;

#[test]
fn swipe_needs_engagement_and_both_positions() {
    let a = Some(PointerPosition(0, 100));
    let b = Some(PointerPosition(0, 30));
    assert_eq!(swipe_distance(a, b, false), None);
    assert_eq!(swipe_distance(None, b, true), None);
    assert_eq!(swipe_distance(a, None, true), None);
}

#[test]
fn swipe_is_anchor_y_minus_current_y() {
    let a = Some(PointerPosition(0, 100));
    let b = Some(PointerPosition(0, 30));
    assert_eq!(swipe_distance(a, b, true), Some(70));
    assert_eq!(swipe_distance(b, a, true), Some(-70));
}

#[test]
fn equal_positions_are_no_swipe() {
    let a = Some(PointerPosition(5, 5));
    assert_eq!(swipe_distance(a, a, true), None);
}

#[test]
fn sideways_movement_swipes_zero() {
    let a = Some(PointerPosition(0, 50));
    let b = Some(PointerPosition(9, 50));
    assert_eq!(swipe_distance(a, b, true), Some(0));
}

#[test]
fn extreme_swipes_saturate() {
    let a = Some(PointerPosition(0, i32::MAX));
    let b = Some(PointerPosition(0, i32::MIN));
    assert_eq!(swipe_distance(a, b, true), Some(i32::MAX));
    assert_eq!(swipe_distance(b, a, true), Some(i32::MIN));
}

#[test]
fn clicking_is_exact_equality_while_engaged() {
    let a = Some(PointerPosition(3, 4));
    let b = Some(PointerPosition(3, 5));
    assert!(is_clicking(a, a, true));
    assert!(!is_clicking(a, b, true));
    assert!(!is_clicking(a, a, false));
    assert!(!is_clicking(None, a, true));
    assert!(!is_clicking(a, None, true));
}
