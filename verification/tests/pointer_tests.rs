use shmooz::annotations::WindowAnnotations;
use shmooz::focus::{active_text_output_id, active_window_id};
use shmooz::pointer::{
    drag_action, pointer_button_action, scroll_zooms, ClickMemory, DragAction, PointerAction,
    BTN_LEFT, BTN_RIGHT,
};
use shmooz::state::{AnnotationPoint, AnnotationTool, InteractionMode};

fn fresh_click() -> ClickMemory {
    ClickMemory {
        last_click_button: 0,
        last_click_time: 0,
    }
}

#[test]
fn quick_second_left_press_restores_the_view() {
    let (first, after) = pointer_button_action(
        InteractionMode::Navigate,
        AnnotationTool::Pen,
        BTN_LEFT,
        true,
        1_000,
        fresh_click(),
    );
    assert_eq!(first, PointerAction::PressPan);
    assert_eq!(after.last_click_button, BTN_LEFT);
    assert_eq!(after.last_click_time, 1_000);

    let (second, after_second) = pointer_button_action(
        InteractionMode::Navigate,
        AnnotationTool::Pen,
        BTN_LEFT,
        true,
        1_399,
        after,
    );
    assert_eq!(second, PointerAction::RestoreView);
    assert_eq!(after_second.last_click_time, 0);
}

#[test]
fn slow_second_left_press_pans_again() {
    let (_, after) = pointer_button_action(
        InteractionMode::Navigate,
        AnnotationTool::Pen,
        BTN_LEFT,
        true,
        1_000,
        fresh_click(),
    );
    let (second, _) = pointer_button_action(
        InteractionMode::Navigate,
        AnnotationTool::Pen,
        BTN_LEFT,
        true,
        1_400,
        after,
    );
    assert_eq!(second, PointerAction::PressPan);
}

#[test]
fn right_release_exits_in_every_mode() {
    for mode in [
        InteractionMode::Navigate,
        InteractionMode::AnnotateZoomed,
        InteractionMode::AnnotateUnzoomed,
    ] {
        let (action, _) =
            pointer_button_action(mode, AnnotationTool::Pen, BTN_RIGHT, false, 5, fresh_click());
        assert_eq!(action, PointerAction::Exit);
    }
}

#[test]
fn left_press_in_draw_mode_follows_the_tool() {
    let press = |tool| {
        pointer_button_action(InteractionMode::AnnotateZoomed, tool, BTN_LEFT, true, 5, fresh_click()).0
    };
    assert_eq!(press(AnnotationTool::Text), PointerAction::StartTextEntry);
    assert_eq!(press(AnnotationTool::Move), PointerAction::StartMove);
    assert_eq!(
        press(AnnotationTool::Rectangle),
        PointerAction::StartAnnotation {
            tool: AnnotationTool::Rectangle
        }
    );
    let (release, _) = pointer_button_action(
        InteractionMode::AnnotateZoomed,
        AnnotationTool::Text,
        BTN_LEFT,
        false,
        5,
        fresh_click(),
    );
    assert_eq!(release, PointerAction::Nothing);
}

#[test]
fn drags_pan_when_navigating_and_draw_when_annotating() {
    assert_eq!(
        drag_action(InteractionMode::Navigate, AnnotationTool::Pen, true),
        DragAction::Pan
    );
    assert_eq!(
        drag_action(InteractionMode::AnnotateZoomed, AnnotationTool::Move, true),
        DragAction::UpdateMove
    );
    assert_eq!(
        drag_action(InteractionMode::AnnotateUnzoomed, AnnotationTool::Pen, true),
        DragAction::UpdateAnnotation
    );
    assert_eq!(
        drag_action(InteractionMode::Navigate, AnnotationTool::Pen, false),
        DragAction::Hover
    );
    assert!(scroll_zooms(InteractionMode::Navigate));
    assert!(!scroll_zooms(InteractionMode::AnnotateZoomed));
}

#[test]
fn active_window_is_the_focused_or_the_only_one() {
    assert_eq!(active_window_id(Some(7), &vec![1, 2]), Some(7));
    assert_eq!(active_window_id(None, &vec![4]), Some(4));
    assert_eq!(active_window_id(None, &vec![1, 2]), None);
}

#[test]
fn typed_text_goes_to_the_focused_entry_or_the_only_one() {
    assert_eq!(active_text_output_id(Some(3), true, &vec![3, 5]), Some(3));
    assert_eq!(active_text_output_id(Some(3), false, &vec![5]), Some(5));
    assert_eq!(active_text_output_id(None, false, &vec![5, 6]), None);
    assert_eq!(active_text_output_id(None, false, &vec![]), None);
}

#[test]
fn typing_stops_at_sixty_four_characters() {
    let mut window = WindowAnnotations::new();
    window.start_text_entry(AnnotationPoint { x: 0, y: 0 }, 0xFFFF_FFFF, 2);
    let sixty = "a".repeat(60);
    assert!(window.type_text(&sixty));
    assert!(window.type_text("bcde"));
    assert!(!window.type_text("f"));
    assert_eq!(window.active_text.as_ref().map(|t| t.text.len()), Some(64));
}

#[test]
fn typing_without_an_entry_changes_nothing() {
    let mut window = WindowAnnotations::new();
    assert!(!window.type_text("x"));
    assert!(window.active_text.is_none());
}

#[test]
fn backspace_deletes_the_last_character() {
    let mut window = WindowAnnotations::new();
    window.start_text_entry(AnnotationPoint { x: 0, y: 0 }, 0xFFFF_FFFF, 2);
    window.type_text("hé");
    window.delete_text_char();
    assert_eq!(window.active_text.as_ref().map(|t| t.text.as_str()), Some("h"));
    window.delete_text_char();
    window.delete_text_char();
    assert_eq!(window.active_text.as_ref().map(|t| t.text.as_str()), Some(""));
}

#[test]
fn moving_an_annotation_follows_the_pointer() {
    let mut window = WindowAnnotations::new();
    window.start_annotation(AnnotationTool::Line, AnnotationPoint { x: 10, y: 10 });
    window.update_active_annotation(AnnotationPoint { x: 20, y: 10 });
    window.finish_annotation();
    window.start_move_annotation(AnnotationPoint { x: 15, y: 10 }, Some(0));
    assert!(window.pointer_pressed);
    let target = AnnotationPoint { x: 18, y: 14 };
    assert!(window.can_move_to(target));
    window.update_active_move(target);
    window.finish_move_annotation();
    assert!(!window.pointer_pressed);
    match &window.annotations[0] {
        shmooz::state::AnnotationItem::Shape(shape) => {
            assert_eq!(shape.start, AnnotationPoint { x: 13, y: 14 });
            assert_eq!(shape.end, AnnotationPoint { x: 23, y: 14 });
        }
        _ => panic!("expected a line"),
    }
}
