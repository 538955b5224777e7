use shmooz::control::{ControlState, KeyCommand};
use shmooz::help::paint_help_overlay;
use shmooz::keys::{KEY_D, KEY_ESC, KEY_I, KEY_S};
use shmooz::overlay::color_picker_overlay_should_show;
use shmooz::pointer::{
    drag_action, pointer_button_action, scroll_zooms, ClickMemory, DragAction, PointerAction,
    BTN_LEFT, BTN_RIGHT,
};
use shmooz::screenshot::{encode_png_bytes, rgb_hex};
use shmooz::state::{ActiveAnnotation, AnnotationPoint, AnnotationTool, InteractionMode};

fn no_click() -> ClickMemory {
    ClickMemory {
        last_click_button: 0,
        last_click_time: 0,
    }
}

#[test]
fn key_i_toggles_the_color_picker() {
    let mut state = ControlState::new(None, false);
    let outcome = state.handle_key_event(KEY_I, true, false, false);
    assert_eq!(state.mode, InteractionMode::ColorPicker);
    assert!(outcome.cancel_active);
    state.handle_key_event(KEY_I, true, false, false);
    assert_eq!(state.mode, InteractionMode::Navigate);
}

#[test]
fn escape_leaves_the_color_picker_without_exiting() {
    let mut state = ControlState::new(None, false);
    state.handle_key_event(KEY_I, true, false, false);
    let outcome = state.handle_key_event(KEY_ESC, true, false, false);
    assert_eq!(state.mode, InteractionMode::Navigate);
    assert_ne!(outcome.command, KeyCommand::Exit);
}

#[test]
fn color_picker_swallows_other_keys() {
    let mut state = ControlState::new(None, false);
    state.handle_key_event(KEY_I, true, false, false);
    for key in [KEY_D, KEY_S] {
        let outcome = state.handle_key_event(key, true, false, false);
        assert_eq!(outcome.command, KeyCommand::Nothing);
        assert_eq!(state.mode, InteractionMode::ColorPicker);
    }
}

#[test]
fn key_i_opens_the_picker_from_draw_mode() {
    let mut state = ControlState::new(None, false);
    state.handle_key_event(KEY_D, true, false, false);
    state.handle_key_event(KEY_I, true, false, false);
    assert_eq!(state.mode, InteractionMode::ColorPicker);
    assert_eq!(state.tool_override, None);
}

#[test]
fn picker_clicks_copy_the_color_or_exit() {
    let release = |button| {
        pointer_button_action(InteractionMode::ColorPicker, AnnotationTool::Pen, button, false, 9, no_click()).0
    };
    assert_eq!(release(BTN_LEFT), PointerAction::CopyColor);
    assert_eq!(release(BTN_RIGHT), PointerAction::Exit);
    let (press, _) =
        pointer_button_action(InteractionMode::ColorPicker, AnnotationTool::Pen, BTN_LEFT, true, 9, no_click());
    assert_eq!(press, PointerAction::Nothing);
    assert_eq!(drag_action(InteractionMode::ColorPicker, AnnotationTool::Pen, true), DragAction::Pick);
    assert!(!scroll_zooms(InteractionMode::ColorPicker));
    assert!(color_picker_overlay_should_show(true, true));
    assert!(!color_picker_overlay_should_show(true, false));
}

#[test]
fn picker_badge_names_the_mode() {
    let badge = InteractionMode::ColorPicker.badge(AnnotationTool::Pen, None);
    assert_eq!(badge.title, "COLOR PICKER");
    assert_eq!(badge.lines[0].label, "CLICK");
    assert!(!InteractionMode::ColorPicker.is_annotating());
}

#[test]
fn rgb_hex_is_upper_case_without_alpha() {
    assert_eq!(rgb_hex(0xFF12_34AB), "#1234AB");
    assert_eq!(rgb_hex(0x0000_0000), "#000000");
    assert_eq!(rgb_hex(0x80FE_DC0F), "#FEDC0F");
}

#[test]
fn press_without_motion_commits_nothing() {
    let press = AnnotationPoint { x: 4, y: 4 };
    for tool in [AnnotationTool::Pen, AnnotationTool::Rectangle] {
        let mut active = ActiveAnnotation::new(tool, press);
        active.update(press);
        assert!(active.finish().is_none());
    }
}

#[test]
fn stroke_that_left_and_came_back_still_commits() {
    let press = AnnotationPoint { x: 4, y: 4 };
    let mut stroke = ActiveAnnotation::new(AnnotationTool::Pen, press);
    stroke.update(AnnotationPoint { x: 6, y: 4 });
    stroke.update(press);
    assert!(stroke.finish().is_some());

    let mut shape = ActiveAnnotation::new(AnnotationTool::Line, press);
    shape.update(AnnotationPoint { x: 6, y: 4 });
    shape.update(press);
    assert!(shape.finish().is_none());
}

#[test]
fn valid_png_input_always_encodes() {
    let pixels = vec![0xFF00_FF00u32; 6];
    assert!(encode_png_bytes(&pixels, 3, 2).is_ok());
}

#[test]
fn help_screen_paints_an_oddly_wide_buffer() {
    let (width, height) = (3000usize, 90usize);
    let mut pixels = vec![0u8; width * height * 4];
    paint_help_overlay(&mut pixels, width, height, None);
    assert_eq!(&pixels[..4], &0xCC10_1018u32.to_ne_bytes());
}
