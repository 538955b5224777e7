use shmooz::config::CloseKey;
use shmooz::state::{
    ActiveAnnotation, AnnotationItem, AnnotationPoint, AnnotationShapeKind, AnnotationTool,
    InteractionMode, ShapeAnnotation,
};

#[test]
fn annotation_item_translate_moves_shape_points() {
    let mut annotation = AnnotationItem::Shape(ShapeAnnotation {
        kind: AnnotationShapeKind::Rectangle,
        start: AnnotationPoint { x: 10, y: 20 },
        end: AnnotationPoint { x: 40, y: 60 },
        color: 0,
        width: 4,
    });

    annotation.translate(5, -3);

    let AnnotationItem::Shape(shape) = annotation else {
        panic!("shape annotation expected");
    };
    assert_eq!(shape.start, AnnotationPoint { x: 15, y: 17 });
    assert_eq!(shape.end, AnnotationPoint { x: 45, y: 57 });
}

#[test]
fn navigate_badge_shows_draw_modes() {
    let badge = InteractionMode::Navigate.badge(AnnotationTool::Pen, None);

    assert_eq!(badge.subtitle, "View controls and quick entry points");
    assert_eq!(badge.lines[0].text, "D draw  W draw no zoom");
    assert_eq!(badge.lines[2].text, "S save  Ctrl+C copy  F/[ ]  Esc close");
}

#[test]
fn navigate_badge_reflects_remapped_close_key() {
    let badge = InteractionMode::Navigate.badge(AnnotationTool::Pen, Some(CloseKey::Q));

    assert_eq!(badge.lines[2].text, "S save  Ctrl+C copy  F/[ ]  Q close");
}

#[test]
fn draw_badge_names_the_tool() {
    let badge = InteractionMode::AnnotateZoomed.badge(AnnotationTool::Rectangle, None);
    assert_eq!(badge.title, "DRAW");
    assert_eq!(badge.subtitle, "Tool: RECT");
    assert_eq!(badge.lines[0].label, "DRAG");
}

#[test]
fn unzoomed_badge_shows_move_modifier() {
    let badge = InteractionMode::AnnotateUnzoomed.badge(AnnotationTool::Move, None);
    assert_eq!(badge.title, "DRAW NO ZOOM");
    assert_eq!(badge.subtitle, "Modifier: MOVE");
}

#[test]
fn translate_round_trip_restores_stroke() {
    let before = AnnotationItem::Stroke(shmooz::state::StrokeAnnotation {
        points: vec![AnnotationPoint { x: 1, y: 2 }, AnnotationPoint { x: -3, y: 4 }],
        color: 7,
        width: 2,
    });
    let mut moved = before.clone();
    moved.translate(10, -20);
    moved.translate(-10, 20);
    let (AnnotationItem::Stroke(a), AnnotationItem::Stroke(b)) = (&before, &moved) else {
        panic!("stroke annotation expected");
    };
    assert_eq!(a.points, b.points);
}

#[test]
fn active_stroke_ignores_repeated_points_and_commits_two() {
    let mut active = ActiveAnnotation::new(AnnotationTool::Pen, AnnotationPoint { x: 1, y: 1 });
    active.update(AnnotationPoint { x: 1, y: 1 });
    let ActiveAnnotation::Stroke(stroke) = &active else {
        panic!("stroke annotation expected");
    };
    assert_eq!(stroke.points.len(), 1);
    assert!(active.clone().finish().is_none());
    active.update(AnnotationPoint { x: 2, y: 1 });
    assert!(active.finish().is_some());
}

#[test]
fn shape_with_equal_corners_is_not_committed() {
    let active = ActiveAnnotation::new(AnnotationTool::Ellipse, AnnotationPoint { x: 5, y: 5 });
    assert!(active.finish().is_none());
}

#[test]
fn tool_colors_and_widths() {
    assert_eq!(AnnotationTool::Highlighter.color(), 0x8888_7829);
    assert_eq!(AnnotationTool::Highlighter.stroke_width(), 18);
    assert_eq!(AnnotationTool::Line.shape_kind(), Some(AnnotationShapeKind::Line));
    assert_eq!(AnnotationTool::Pen.shape_kind(), None);
    assert_eq!(AnnotationTool::Ellipse.label(), "ELLIPSE");
}
