use shmooz::help::help_fits_check;
use shmooz::raster::{disc_fits_check, label_fits_check, line_fits_check};
use shmooz::render::{badge_fits_check, buffer_fits_check, card_buffer_fits_check, scene_fits_check, AnnotationScene};
use shmooz::state::{
    AnnotationItem, AnnotationPoint, AnnotationTool, InteractionMode, StrokeAnnotation,
};

fn stroke_scene(points: Vec<AnnotationPoint>) -> AnnotationScene {
    AnnotationScene {
        annotations: vec![AnnotationItem::Stroke(StrokeAnnotation {
            points,
            color: 0xFFFF_0000,
            width: 4,
        })],
        ..AnnotationScene::default()
    }
}

#[test]
fn labels_near_the_i32_limit_do_not_fit() {
    assert!(label_fits_check(18, 16, "SCREENSHOT SAVED", 2));
    assert!(!label_fits_check(i32::MAX as i64 - 10, 0, "AB", 1));
    assert!(!label_fits_check(0, i32::MAX as i64, "A", 1));
    assert!(label_fits_check(i32::MAX as i64, 0, "", 1));
}

#[test]
fn every_badge_fits() {
    for mode in [
        InteractionMode::Navigate,
        InteractionMode::AnnotateZoomed,
        InteractionMode::AnnotateUnzoomed,
        InteractionMode::ColorPicker,
    ] {
        assert!(badge_fits_check(&mode.badge(AnnotationTool::Text, None)));
    }
}

#[test]
fn buffer_checks_follow_the_sizes() {
    assert!(buffer_fits_check(4 * 6, 3, 2));
    assert!(!buffer_fits_check(4 * 5, 3, 2));
    assert!(!buffer_fits_check(23, 1, 1));
    assert!(card_buffer_fits_check(4 * 640 * 136, 640, 136));
    assert!(!card_buffer_fits_check(4 * 24 * 136, 24, 136));
    assert!(help_fits_check(1920, 1080));
    assert!(help_fits_check(3_000_000, 90));
    assert!(!help_fits_check(50, 1080));
    assert!(!help_fits_check(1920, 89));
}

#[test]
fn scenes_with_coordinates_near_the_limit_do_not_fit() {
    let ordinary = stroke_scene(vec![AnnotationPoint { x: 1, y: 1 }, AnnotationPoint { x: 30, y: 40 }]);
    assert!(scene_fits_check(&ordinary, 100, 100));
    let far = stroke_scene(vec![AnnotationPoint { x: 1, y: 1 }, AnnotationPoint { x: i32::MAX, y: 40 }]);
    assert!(!scene_fits_check(&far, 100, 100));
    assert!(!line_fits_check(AnnotationPoint { x: i32::MIN, y: 0 }, AnnotationPoint { x: i32::MAX, y: 0 }, 1));
    assert!(disc_fits_check(AnnotationPoint { x: 5, y: 5 }, 3));
    assert!(!disc_fits_check(AnnotationPoint { x: i32::MIN, y: 5 }, 3));
}
