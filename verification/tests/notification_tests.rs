use oxicord_ui::notification::{notification_popup_area, popup_area, PopupArea};

#[test]
fn popup_fits_its_message() {
    assert_eq!(popup_area(100, 12, 20), PopupArea { x: 74, y: 2, width: 24, height: 4 });
}

#[test]
fn popup_wraps_long_messages() {
    assert_eq!(popup_area(100, 5, 200), PopupArea { x: 38, y: 2, width: 60, height: 7 });
    assert_eq!(popup_area(100, 5, 1000).height, 10);
}

#[test]
fn popup_on_narrow_screens() {
    assert_eq!(popup_area(3, 7, 16), PopupArea { x: 0, y: 2, width: 1, height: 10 });
}

#[test]
fn notification_popup_from_text() {
    assert_eq!(
        notification_popup_area(100, "Error", "Something failed"),
        Some(PopupArea { x: 78, y: 2, width: 20, height: 4 })
    );
}

#[test]
fn notification_popup_overflow() {
    let long = "a".repeat(65500);
    assert_eq!(notification_popup_area(100, "t", &long), None);
    let fits = "a".repeat(65477);
    assert!(notification_popup_area(100, "t", &fits).is_some());
}
