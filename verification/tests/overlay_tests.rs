use shmooz::overlay::{
    color_picker_position, cursor_visible_for_output, spotlight_overlay_should_show,
    toast_output_to_hide, toast_position,
};

#[test]
fn spotlight_overlay_can_show_without_zoom() {
    assert!(spotlight_overlay_should_show(true, false));
}

#[test]
fn spotlight_overlay_requires_navigation_mode() {
    assert!(!spotlight_overlay_should_show(false, false));
    assert!(!spotlight_overlay_should_show(true, true));
}

#[test]
fn cursor_follows_focus_or_single_window() {
    assert!(cursor_visible_for_output(Some(3), 2, 3));
    assert!(!cursor_visible_for_output(Some(3), 2, 4));
    assert!(cursor_visible_for_output(None, 1, 9));
    assert!(!cursor_visible_for_output(None, 2, 9));
}

#[test]
fn cards_are_placed_at_the_top_right() {
    assert_eq!(toast_position(1920, false), (1256, 24));
    assert_eq!(toast_position(1920, true), (1256, 144));
    assert_eq!(toast_position(100, false), (0, 24));
    assert_eq!(color_picker_position(1920), (1576, 24));
}

#[test]
fn toast_moves_hide_the_previous_output() {
    assert_eq!(toast_output_to_hide(Some(1), 2), Some(1));
    assert_eq!(toast_output_to_hide(Some(2), 2), None);
    assert_eq!(toast_output_to_hide(None, 2), None);
}
