use waylandsfpanel::click::{last_hit, ClickHandler, ClickTarget};
use waylandsfpanel::panel::{centered_offset, PointerPosition};

fn target(x: u32, y: u32, w: u32, h: u32, label: &str) -> ClickTarget {
    ClickTarget {
        position: (x, y),
        size: (w, h),
        handler: ClickHandler::Selected(label.to_owned()),
    }
}

#[test]
fn left_and_top_edges_are_inside() {
    let t = target(10, 20, 5, 5, "t");
    assert!(t.process_click(PointerPosition(10, 20)).is_some());
    assert!(t.process_click(PointerPosition(10, 24)).is_some());
    assert!(t.process_click(PointerPosition(14, 20)).is_some());
}

#[test]
fn right_and_bottom_edges_are_outside() {
    let t = target(10, 20, 5, 5, "t");
    assert!(t.process_click(PointerPosition(15, 20)).is_none());
    assert!(t.process_click(PointerPosition(10, 25)).is_none());
    assert!(t.process_click(PointerPosition(15, 25)).is_none());
}

#[test]
fn interior_point_is_inside() {
    let t = target(10, 20, 5, 5, "t");
    assert!(t.process_click(PointerPosition(12, 22)).is_some());
}

#[test]
fn negative_coordinates_are_outside() {
    let t = target(0, 0, 100, 100, "t");
    assert!(t.process_click(PointerPosition(-1, 50)).is_none());
    assert!(t.process_click(PointerPosition(50, -1)).is_none());
    assert!(t.process_click(PointerPosition(0, 0)).is_some());
}

#[test]
fn most_recently_added_overlapping_target_wins() {
    let targets = vec![
        target(0, 0, 100, 100, "older"),
        target(50, 50, 100, 100, "newer"),
    ];
    match last_hit(&targets, PointerPosition(60, 60)) {
        Some(ClickHandler::Selected(s)) => assert_eq!(s, "newer"),
        _ => panic!("expected the most recently added target"),
    }
    match last_hit(&targets, PointerPosition(10, 10)) {
        Some(ClickHandler::Selected(s)) => assert_eq!(s, "older"),
        _ => panic!("expected the older target"),
    }
    assert!(last_hit(&targets, PointerPosition(300, 300)).is_none());
}

#[test]
fn empty_registry_hits_nothing() {
    let targets: Vec<ClickTarget> = vec![];
    assert!(last_hit(&targets, PointerPosition(0, 0)).is_none());
}

#[test]
fn centered_offset_exact_values() {
    assert_eq!(centered_offset(100, 40), 30);
    assert_eq!(centered_offset(100, 100), 0);
    assert_eq!(centered_offset(100, 101), 0);
    assert_eq!(centered_offset(7, 4), 1);
}
