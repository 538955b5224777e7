use shmooz::config::CloseKey;
use shmooz::control::{ControlState, KeyCommand, DEFAULT_TEXT_ANNOTATION_SCALE, MAX_TEXT_ANNOTATION_SCALE, MIN_TEXT_ANNOTATION_SCALE};
use shmooz::keys::{text_input_char, KEY_1, KEY_3, KEY_C, KEY_ESC, KEY_L, KEY_M, KEY_RIGHTBRACE, KEY_T};
use shmooz::state::{AnnotationTool, InteractionMode};

fn drawing_state(tool: AnnotationTool) -> ControlState {
    let mut state = ControlState::new(None, false);
    state.mode = InteractionMode::AnnotateZoomed;
    state.annotation_tool = tool;
    state
}

#[test]
fn move_mode_is_toggled_without_losing_selected_tool() {
    let mut state = drawing_state(AnnotationTool::Rectangle);

    state.handle_key_event(KEY_M, true, false, false);
    assert_eq!(state.tool_override, Some(AnnotationTool::Move));
    assert_eq!(state.annotation_tool, AnnotationTool::Rectangle);
    assert_eq!(state.effective_annotation_tool(), AnnotationTool::Move);

    state.handle_key_event(KEY_M, true, false, false);
    assert_eq!(state.tool_override, None);
    assert_eq!(state.effective_annotation_tool(), AnnotationTool::Rectangle);
}

#[test]
fn escape_leaves_move_mode_before_navigation() {
    let mut state = drawing_state(AnnotationTool::Line);
    state.tool_override = Some(AnnotationTool::Move);

    state.handle_key_event(KEY_ESC, true, false, false);

    assert_eq!(state.mode, InteractionMode::AnnotateZoomed);
    assert_eq!(state.tool_override, None);
    assert_eq!(state.effective_annotation_tool(), AnnotationTool::Line);
}

#[test]
fn selecting_another_tool_disables_move_mode() {
    let mut state = ControlState::new(None, false);
    state.annotation_tool = AnnotationTool::Pen;
    state.tool_override = Some(AnnotationTool::Move);

    state.select_annotation_tool(AnnotationTool::Text);

    assert_eq!(state.tool_override, Some(AnnotationTool::Text));
    assert_eq!(state.annotation_tool, AnnotationTool::Pen);
    assert_eq!(state.effective_annotation_tool(), AnnotationTool::Text);
}

#[test]
fn text_mode_is_toggled_without_losing_selected_tool() {
    let mut state = drawing_state(AnnotationTool::Ellipse);

    state.handle_key_event(KEY_T, true, false, false);
    assert_eq!(state.tool_override, Some(AnnotationTool::Text));
    assert_eq!(state.annotation_tool, AnnotationTool::Ellipse);
    assert_eq!(state.effective_annotation_tool(), AnnotationTool::Text);

    state.handle_key_event(KEY_T, true, false, false);
    assert_eq!(state.tool_override, None);
    assert_eq!(state.effective_annotation_tool(), AnnotationTool::Ellipse);
}

#[test]
fn escape_leaves_text_mode_before_navigation() {
    let mut state = drawing_state(AnnotationTool::Highlighter);
    state.tool_override = Some(AnnotationTool::Text);

    state.handle_key_event(KEY_ESC, true, false, false);

    assert_eq!(state.mode, InteractionMode::AnnotateZoomed);
    assert_eq!(state.tool_override, None);
    assert_eq!(state.effective_annotation_tool(), AnnotationTool::Highlighter);
}

#[test]
fn explicit_escape_close_key_keeps_escape_backing_out_of_annotation() {
    let mut state = ControlState::new(Some(CloseKey::Escape), false);
    state.mode = InteractionMode::AnnotateZoomed;
    state.annotation_tool = AnnotationTool::Line;
    state.tool_override = Some(AnnotationTool::Move);

    state.handle_key_event(KEY_ESC, true, false, false);

    assert_eq!(state.mode, InteractionMode::AnnotateZoomed);
    assert_eq!(state.tool_override, None);

    state.handle_key_event(KEY_ESC, true, false, false);

    assert_eq!(state.mode, InteractionMode::Navigate);
    assert_eq!(state.tool_override, None);
}

#[test]
fn line_tool_is_selectable() {
    let mut state = ControlState::new(None, false);
    state.annotation_tool = AnnotationTool::Pen;

    state.handle_key_event(KEY_L, true, false, false);

    assert_eq!(state.annotation_tool, AnnotationTool::Line);
}

#[test]
fn palette_shortcuts_change_annotation_color_in_draw_mode() {
    let mut state = ControlState::new(None, false);
    state.mode = InteractionMode::AnnotateZoomed;

    let outcome = state.handle_key_event(KEY_3, true, false, false);

    assert_eq!(state.annotation_color_index, 2);
    assert_eq!(outcome.command, KeyCommand::SelectPaletteColor { index: 2 });
}

#[test]
fn current_text_input_accepts_digits() {
    assert_eq!(text_input_char(KEY_1), Some('1'));
}

#[test]
fn text_size_shortcuts_adjust_default_text_scale_in_draw_mode() {
    let mut state = ControlState::new(None, false);
    state.mode = InteractionMode::AnnotateZoomed;

    let outcome = state.handle_key_event(KEY_RIGHTBRACE, true, false, false);

    assert_eq!(state.text_annotation_scale, DEFAULT_TEXT_ANNOTATION_SCALE + 1);
    assert_eq!(outcome.command, KeyCommand::GrowText);
}

#[test]
fn effective_annotation_tool_prefers_move_mode_without_losing_base_tool() {
    let mut state = ControlState::new(None, false);
    state.annotation_tool = AnnotationTool::Rectangle;
    assert_eq!(state.effective_annotation_tool(), AnnotationTool::Rectangle);

    state.tool_override = Some(AnnotationTool::Move);

    assert_eq!(state.effective_annotation_tool(), AnnotationTool::Move);
    assert_eq!(state.annotation_tool, AnnotationTool::Rectangle);
}

#[test]
fn ctrl_c_copies_and_plain_c_does_not() {
    let mut state = ControlState::new(None, false);
    let plain = state.handle_key_event(KEY_C, true, false, false);
    assert_ne!(plain.command, KeyCommand::CopyScreenshot);
    let mut state = ControlState::new(None, false);
    let copied = state.handle_key_event(KEY_C, true, false, true);
    assert_eq!(copied.command, KeyCommand::CopyScreenshot);
}

#[test]
fn draw_key_toggles_back_to_navigation() {
    let mut state = ControlState::new(None, false);
    state.handle_key_event(shmooz::keys::KEY_D, true, false, false);
    assert_eq!(state.mode, InteractionMode::AnnotateZoomed);
    state.handle_key_event(shmooz::keys::KEY_D, true, false, false);
    assert_eq!(state.mode, InteractionMode::Navigate);
}

#[test]
fn text_size_stops_at_its_bounds() {
    let mut state = ControlState::new(None, false);
    for _ in 0..20 {
        state.adjust_text_scale(true);
    }
    assert_eq!(state.text_annotation_scale, MAX_TEXT_ANNOTATION_SCALE);
    assert!(!state.adjust_text_scale(true));
    for _ in 0..20 {
        state.adjust_text_scale(false);
    }
    assert_eq!(state.text_annotation_scale, MIN_TEXT_ANNOTATION_SCALE);
    assert!(state.adjust_text_scale(true));
}

#[test]
fn text_size_keys_work_while_typing() {
    let mut state = ControlState::new(None, false);
    state.mode = InteractionMode::AnnotateZoomed;
    let outcome = state.handle_key_event(shmooz::keys::KEY_LEFTBRACE, true, true, false);
    assert_eq!(outcome.command, KeyCommand::ShrinkText);
    assert_eq!(state.text_annotation_scale, DEFAULT_TEXT_ANNOTATION_SCALE - 1);
}

#[test]
fn repeat_runs_the_held_key_action() {
    let mut state = ControlState::new(None, false);
    assert_eq!(state.repeat_key_action(), KeyCommand::Nothing);
    state.handle_key_event(shmooz::keys::KEY_EQUAL, true, false, false);
    assert_eq!(state.repeat_key_action(), KeyCommand::ZoomIn);
    state.handle_key_event(shmooz::keys::KEY_EQUAL, false, false, false);
    assert_eq!(state.repeat_key_action(), KeyCommand::Nothing);
}
