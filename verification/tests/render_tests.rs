use shmooz::glyphs::lookup_glyph;
use shmooz::help::paint_help_overlay;
use shmooz::raster::{alpha_over, card_pixel, Canvas};
use shmooz::render::{
    draw_annotation_overlay, paint_color_picker, paint_toast, paint_zoom_badge, store_words_all,
    AnnotationScene, CursorStyle, OverlayCursor,
};
use shmooz::state::{
    ActiveAnnotation, AnnotationItem, AnnotationPoint, AnnotationShapeKind, BadgeLine, BadgeModel,
    ShapeAnnotation, StrokeAnnotation, TextAnnotation,
};

fn word_at(pixels: &[u8], index: usize) -> u32 {
    u32::from_ne_bytes([
        pixels[index * 4],
        pixels[index * 4 + 1],
        pixels[index * 4 + 2],
        pixels[index * 4 + 3],
    ])
}

#[test]
fn fill_rect_clips_to_buffer_bounds() {
    let mut pixels = vec![0_u8; 4 * 4 * 4];
    let mut canvas = Canvas::new(4, 4);
    canvas.fill_rect(2, 2, 4, 4, 0xFFFF_FFFF);
    store_words_all(&mut pixels, &canvas.pixels);

    let painted = pixels
        .chunks_exact(4)
        .filter(|chunk| *chunk == 0xFFFF_FFFF_u32.to_ne_bytes())
        .count();

    assert_eq!(painted, 4);
}

#[test]
fn annotation_overlay_draws_committed_strokes() {
    let mut pixels = vec![0_u8; 32 * 32 * 4];
    let annotations = vec![AnnotationItem::Stroke(StrokeAnnotation {
        points: vec![AnnotationPoint { x: 4, y: 4 }, AnnotationPoint { x: 20, y: 20 }],
        color: 0xFFFF_0000,
        width: 4,
    })];

    draw_annotation_overlay(
        &mut pixels,
        32,
        32,
        &AnnotationScene {
            annotations,
            ..Default::default()
        },
    );

    assert!(pixels.chunks_exact(4).any(|chunk| chunk != [0, 0, 0, 0]));
}

#[test]
fn annotation_overlay_draws_active_shape_preview() {
    let mut pixels = vec![0_u8; 48 * 48 * 4];
    let active = ActiveAnnotation::Shape(ShapeAnnotation {
        kind: AnnotationShapeKind::Rectangle,
        start: AnnotationPoint { x: 8, y: 8 },
        end: AnnotationPoint { x: 32, y: 24 },
        color: 0xFF00_FF00,
        width: 4,
    });

    draw_annotation_overlay(
        &mut pixels,
        48,
        48,
        &AnnotationScene {
            active_annotation: Some(active),
            ..Default::default()
        },
    );

    assert!(pixels.chunks_exact(4).any(|chunk| chunk != [0, 0, 0, 0]));
}

#[test]
fn annotation_overlay_draws_cursor_marker() {
    let mut pixels = vec![0_u8; 48 * 48 * 4];

    draw_annotation_overlay(
        &mut pixels,
        48,
        48,
        &AnnotationScene {
            cursor: Some(OverlayCursor {
                position: AnnotationPoint { x: 20, y: 18 },
                style: CursorStyle::Crosshair,
            }),
            ..Default::default()
        },
    );

    assert!(pixels.chunks_exact(4).any(|chunk| chunk != [0, 0, 0, 0]));
}

#[test]
fn annotation_overlay_draws_move_hand_cursor() {
    let mut pixels = vec![0_u8; 64 * 64 * 4];

    draw_annotation_overlay(
        &mut pixels,
        64,
        64,
        &AnnotationScene {
            cursor: Some(OverlayCursor {
                position: AnnotationPoint { x: 20, y: 12 },
                style: CursorStyle::Hand,
            }),
            ..Default::default()
        },
    );

    let hotspot = &pixels[(12 * 64 + 20) * 4..(12 * 64 + 21) * 4];
    assert_eq!(hotspot, &0xFF00_0000_u32.to_ne_bytes());
}

#[test]
fn zoom_badge_renders_title_and_hints() {
    let mut pixels = vec![0_u8; 640 * 136 * 4];

    paint_zoom_badge(
        &mut pixels,
        640,
        136,
        &BadgeModel {
            title: "DRAW".to_owned(),
            subtitle: "Tool: PEN".to_owned(),
            lines: [
                BadgeLine::new("DRAG", "Drag to draw", 0xFFFF_C83D),
                BadgeLine::new("TOOL", "P/H paint  L/R/E shape", 0xFFF4_F4F4),
                BadgeLine::new("EDIT", "M move  T text  U/C edit  Esc back", 0xFFF4_F4F4),
            ],
        },
    );

    assert!(pixels.chunks_exact(4).any(|chunk| chunk != [0, 0, 0, 0]));
}

#[test]
fn toast_renders_notification_text() {
    let mut pixels = vec![0_u8; 320 * 32 * 4];

    paint_toast(&mut pixels, 320, 32, "SCREENSHOT SAVED", "File saved to shot.png");

    assert!(pixels.chunks_exact(4).any(|chunk| chunk != [0, 0, 0, 0]));
}

#[test]
fn color_picker_renders_swatch_and_hex_text() {
    let mut pixels = vec![0_u8; 320 * 112 * 4];

    paint_color_picker(&mut pixels, 320, 112, 0xFF12_34AB, "#1234AB", true);

    assert!(pixels.chunks_exact(4).any(|chunk| chunk != [0, 0, 0, 0]));
    assert!(lookup_glyph('#').is_some());
}

#[test]
fn annotation_overlay_draws_text_annotations() {
    let mut pixels = vec![0_u8; 96 * 96 * 4];
    let text = TextAnnotation {
        position: AnnotationPoint { x: 10, y: 12 },
        text: "HELLO".to_owned(),
        color: 0xFFFF_FFFF,
        scale: 4,
    };

    draw_annotation_overlay(
        &mut pixels,
        96,
        96,
        &AnnotationScene {
            annotations: vec![AnnotationItem::Text(text)],
            ..Default::default()
        },
    );

    assert!(pixels.chunks_exact(4).any(|chunk| chunk != [0, 0, 0, 0]));
}

#[test]
fn annotation_overlay_draws_lowercase_and_fallback_text() {
    let mut pixels = vec![0_u8; 160 * 96 * 4];
    let text = TextAnnotation {
        position: AnnotationPoint { x: 4, y: 12 },
        text: "hello é!?".to_owned(),
        color: 0xFFFF_FFFF,
        scale: 4,
    };

    draw_annotation_overlay(
        &mut pixels,
        160,
        96,
        &AnnotationScene {
            annotations: vec![AnnotationItem::Text(text)],
            ..Default::default()
        },
    );

    assert!(pixels.chunks_exact(4).any(|chunk| chunk != [0, 0, 0, 0]));
    assert!(lookup_glyph('h').is_some());
    assert!(lookup_glyph('!').is_some());
}

#[test]
fn alpha_over_keeps_destination_under_transparent_source() {
    assert_eq!(alpha_over(0xFF20_3040, 0x0012_3456), 0xFF20_3040);
}

#[test]
fn alpha_over_replaces_destination_with_opaque_source() {
    assert_eq!(alpha_over(0xFF20_3040, 0xFF01_0203), 0xFF01_0203);
}

#[test]
fn alpha_over_half_transparent_black_over_white() {
    assert_eq!(alpha_over(0xFFFF_FFFF, 0x8000_0000), 0xFF7F_7F7F);
}

#[test]
fn card_pixel_is_transparent_outside_rounded_corner() {
    assert_eq!(card_pixel(0, 0, 100, 50, None), None);
}

#[test]
fn card_pixel_inside_is_card_background() {
    assert_eq!(card_pixel(50, 25, 100, 50, None), Some(0xEB13_1316));
}

#[test]
fn card_pixel_accent_tints_top_rows_only() {
    let top = card_pixel(50, 1, 100, 50, Some(0xFFFF_C83D));
    let below = card_pixel(50, 3, 100, 50, Some(0xFFFF_C83D));
    assert_eq!(top, Some(0xFFFF_C83D));
    assert_eq!(below, Some(0xEB13_1316));
}

#[test]
fn fill_rect_with_negative_origin_paints_visible_part() {
    let mut canvas = Canvas::new(4, 4);
    canvas.fill_rect(-2, -2, 3, 3, 0xFF00_00FF);
    let painted = canvas.pixels.iter().filter(|p| **p == 0xFF00_00FF).count();
    assert_eq!(painted, 1);
    assert_eq!(canvas.pixels[0], 0xFF00_00FF);
}

#[test]
fn disc_of_radius_one_covers_a_plus_shape() {
    let mut canvas = Canvas::new(5, 5);
    canvas.draw_disc(AnnotationPoint { x: 2, y: 2 }, 1, 0xFFFF_FFFF);
    let painted: Vec<usize> = canvas
        .pixels
        .iter()
        .enumerate()
        .filter(|(_, p)| **p == 0xFFFF_FFFF)
        .map(|(i, _)| i)
        .collect();
    assert_eq!(painted, vec![7, 11, 12, 13, 17]);
}

#[test]
fn line_rounds_half_steps_away_from_zero() {
    let mut canvas = Canvas::new(8, 8);
    canvas.draw_line(AnnotationPoint { x: 1, y: 1 }, AnnotationPoint { x: 5, y: 3 }, 0xFFFF_FFFF, 1);
    assert_eq!(canvas.pixels[8 + 1], 0xFFFF_FFFF);
    assert_eq!(canvas.pixels[3 * 8 + 5], 0xFFFF_FFFF);
}

#[test]
fn unknown_character_is_drawn_as_code_point() {
    let mut plain = Canvas::new(200, 20);
    plain.draw_label(0, 0, "U+00E9", 1, 0xFFFF_FFFF);
    let mut fallback = Canvas::new(200, 20);
    let next = fallback.draw_text_glyph(0, 0, 'é', 1, 0xFFFF_FFFF);
    assert_eq!(next, 36);
    assert_eq!(plain.pixels, fallback.pixels);
}

#[test]
fn space_only_advances_the_pen() {
    let mut canvas = Canvas::new(20, 10);
    let next = canvas.draw_text_glyph(3, 0, ' ', 2, 0xFFFF_FFFF);
    assert_eq!(next, 15);
    assert!(canvas.pixels.iter().all(|p| *p == 0));
}

#[test]
fn help_overlay_dims_and_draws_card() {
    let mut pixels = vec![0_u8; 1000 * 700 * 4];
    paint_help_overlay(&mut pixels, 1000, 700, None);
    assert_eq!(word_at(&pixels, 0), 0xCC10_1018);
    assert!((0..1000 * 700).any(|i| word_at(&pixels, i) != 0xCC10_1018));
}

#[test]
fn zoom_badge_leaves_bytes_beyond_the_card_unchanged() {
    let mut pixels = vec![7_u8; 640 * 136 * 4 + 8];
    paint_zoom_badge(
        &mut pixels,
        640,
        136,
        &BadgeModel {
            title: "DRAW".to_owned(),
            subtitle: "Tool: PEN".to_owned(),
            lines: [
                BadgeLine::new("DRAG", "Drag to draw", 0xFFFF_C83D),
                BadgeLine::new("TOOL", "P/H paint  L/R/E shape", 0xFFF4_F4F4),
                BadgeLine::new("EDIT", "M move  T text  U/C edit  Esc back", 0xFFF4_F4F4),
            ],
        },
    );
    assert_eq!(&pixels[640 * 136 * 4..], &[7_u8; 8]);
    assert_eq!(word_at(&pixels, 0), 0);
}
