use shmooz::annotations::WindowAnnotations;
use shmooz::state::{AnnotationPoint, AnnotationTool};
use shmooz::text::{sanitize_text_input, screenshot_toast_message, tail_chars};

#[test]
fn undo_right_after_drawing_takes_it_back() {
    let mut window = WindowAnnotations::new();
    window.start_annotation(AnnotationTool::Pen, AnnotationPoint { x: 1, y: 1 });
    window.update_active_annotation(AnnotationPoint { x: 5, y: 5 });
    window.finish_annotation();
    assert_eq!(window.annotations.len(), 1);
    window.undo();
    assert!(window.annotations.is_empty());
}

#[test]
fn undo_drops_text_in_progress_before_annotations() {
    let mut window = WindowAnnotations::new();
    window.start_annotation(AnnotationTool::Line, AnnotationPoint { x: 1, y: 1 });
    window.update_active_annotation(AnnotationPoint { x: 9, y: 1 });
    window.finish_annotation();
    window.start_text_entry(AnnotationPoint { x: 3, y: 3 }, 0xFFFF_FFFF, 4);
    window.undo();
    assert!(window.active_text.is_none());
    assert_eq!(window.annotations.len(), 1);
}

#[test]
fn empty_text_is_discarded_and_typed_text_committed() {
    let mut window = WindowAnnotations::new();
    window.start_text_entry(AnnotationPoint { x: 3, y: 3 }, 0xFFFF_FFFF, 4);
    window.commit_or_discard_active_text();
    assert!(window.annotations.is_empty());
    window.start_text_entry(AnnotationPoint { x: 3, y: 3 }, 0xFFFF_FFFF, 4);
    if let Some(text) = window.active_text.as_mut() {
        text.text.push_str("hi");
    }
    window.commit_or_discard_active_text();
    assert_eq!(window.annotations.len(), 1);
}

#[test]
fn moving_an_annotation_drags_its_points() {
    let mut window = WindowAnnotations::new();
    window.start_annotation(AnnotationTool::Rectangle, AnnotationPoint { x: 0, y: 0 });
    window.update_active_annotation(AnnotationPoint { x: 10, y: 10 });
    window.finish_annotation();
    window.start_move_annotation(AnnotationPoint { x: 5, y: 5 }, Some(0));
    assert!(window.can_move_to(AnnotationPoint { x: 7, y: 8 }));
    window.update_active_move(AnnotationPoint { x: 7, y: 8 });
    window.finish_move_annotation();
    let shmooz::state::AnnotationItem::Shape(shape) = &window.annotations[0] else {
        panic!("shape annotation expected");
    };
    assert_eq!(shape.start, AnnotationPoint { x: 2, y: 3 });
    assert_eq!(shape.end, AnnotationPoint { x: 12, y: 13 });
}

#[test]
fn clear_removes_everything() {
    let mut window = WindowAnnotations::new();
    window.start_annotation(AnnotationTool::Pen, AnnotationPoint { x: 1, y: 1 });
    window.update_active_annotation(AnnotationPoint { x: 2, y: 2 });
    window.finish_annotation();
    window.start_text_entry(AnnotationPoint { x: 3, y: 3 }, 0, 1);
    window.clear();
    assert!(window.annotations.is_empty());
    assert!(window.active_text.is_none());
}

#[test]
fn typed_input_drops_control_characters() {
    assert_eq!(sanitize_text_input(Some("a\u{7}b".to_owned())), Some("ab".to_owned()));
    assert_eq!(sanitize_text_input(Some("\r".to_owned())), None);
    assert_eq!(sanitize_text_input(None), None);
}

#[test]
fn tail_keeps_the_last_characters() {
    assert_eq!(tail_chars("abcdef", 3), "def");
    assert_eq!(tail_chars("ab", 3), "ab");
}

#[test]
fn toast_message_names_the_file() {
    assert_eq!(screenshot_toast_message("shot.png"), "File saved to shot.png");
}
