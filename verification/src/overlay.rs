use vstd::prelude::*;

verus! {

/// Size and margin of the indicator badge.
pub const ZOOM_BADGE_WIDTH: i32 = 640;
pub const ZOOM_BADGE_HEIGHT: i32 = 136;
pub const ZOOM_BADGE_MARGIN: i32 = 24;
/// Size of the toast card.
pub const TOAST_WIDTH: i32 = 640;
pub const TOAST_HEIGHT: i32 = 136;
/// Size of the color picker card.
pub const COLOR_PICKER_WIDTH: i32 = 320;
pub const COLOR_PICKER_HEIGHT: i32 = 112;
/// Number of buffers the annotation overlay cycles through.
pub const ANNOTATION_BUFFER_COUNT: usize = 3;
/// Title of the toast shown after a screenshot.
pub const TOAST_TITLE: &'static str = "SCREENSHOT SAVED";

/// The spotlight dims the screen only when it is on and no annotation mode is active.
pub fn spotlight_overlay_should_show(spotlight_enabled: bool, annotating: bool) -> (show: bool)
    ensures
        show == (spotlight_enabled && !annotating),
{
    spotlight_enabled && !annotating
}

/// The pointer is drawn on the focused output, or on the only output when none has focus.
pub fn cursor_visible_for_output(focused_window: Option<u32>, window_count: usize, output_id: u32) -> (visible: bool)
    ensures
        visible == (focused_window == Some(output_id) || (focused_window is None && window_count == 1)),
{
    match focused_window {
        Some(id) => id == output_id,
        None => window_count == 1,
    }
}

/// The color picker card is shown in color picker mode, on the output where the
/// pointer is drawn.
pub fn color_picker_overlay_should_show(picking: bool, cursor_visible: bool) -> (show: bool)
    ensures
        show == (picking && cursor_visible),
{
    picking && cursor_visible
}

/// What the annotation overlay of an output shows.
pub struct AnnotationOverlayContent {
    pub has_surface: bool,
    pub cursor_visible: bool,
    pub annotating: bool,
    pub has_annotations: bool,
    pub has_active_annotation: bool,
    pub has_active_text: bool,
    pub has_shift_select: bool,
}

/// The annotation overlay is shown when the output has its surface and there is
/// something to draw: the pointer, an annotation mode, annotations, or a selection.
pub fn annotation_overlay_should_show(content: &AnnotationOverlayContent) -> (show: bool)
    ensures
        show == (content.has_surface && (content.cursor_visible || content.annotating || content.has_annotations
            || content.has_active_annotation || content.has_active_text || content.has_shift_select)),
{
    content.has_surface && (content.cursor_visible || content.annotating || content.has_annotations
        || content.has_active_annotation || content.has_active_text || content.has_shift_select)
}

/// Left edge of a card `card_width` wide placed at the right margin of an output
/// `logical_width` wide, never left of the output.
pub open spec fn right_aligned_x(logical_width: int, card_width: int) -> int {
    let x = logical_width - card_width - ZOOM_BADGE_MARGIN;
    if x < 0 { 0 } else { x }
}

/// Position of the toast: top right, below the color picker while that is shown.
pub fn toast_position(logical_width: i32, color_picker_shown: bool) -> (position: (i32, i32))
    requires
        logical_width >= i32::MIN + TOAST_WIDTH + ZOOM_BADGE_MARGIN,
    ensures
        position.0 == right_aligned_x(logical_width as int, TOAST_WIDTH as int),
        position.1 == if color_picker_shown { ZOOM_BADGE_MARGIN + COLOR_PICKER_HEIGHT + 8 } else { ZOOM_BADGE_MARGIN as int },
{
    let x = logical_width - TOAST_WIDTH - ZOOM_BADGE_MARGIN;
    let x = if x < 0 { 0 } else { x };
    let y = if color_picker_shown { ZOOM_BADGE_MARGIN + COLOR_PICKER_HEIGHT + 8 } else { ZOOM_BADGE_MARGIN };
    (x, y)
}

/// Position of the color picker: top right.
pub fn color_picker_position(logical_width: i32) -> (position: (i32, i32))
    requires
        logical_width >= i32::MIN + COLOR_PICKER_WIDTH + ZOOM_BADGE_MARGIN,
    ensures
        position.0 == right_aligned_x(logical_width as int, COLOR_PICKER_WIDTH as int),
        position.1 == ZOOM_BADGE_MARGIN,
{
    let x = logical_width - COLOR_PICKER_WIDTH - ZOOM_BADGE_MARGIN;
    let x = if x < 0 { 0 } else { x };
    (x, ZOOM_BADGE_MARGIN)
}

/// A notification shown on one output until it expires.
pub struct ToastState {
    pub output_id: u32,
    pub message: String,
    pub expires_at: std::time::Instant,
}

/// `std::time::Instant`, carried through as an opaque value.
#[verifier::external_type_specification]
#[verifier::external_body]
pub struct ExInstant(std::time::Instant);

/// The output whose toast must be hidden when a toast is shown on `output_id`: the one
/// that showed the previous toast, if it is another output.
pub fn toast_output_to_hide(previous: Option<u32>, output_id: u32) -> (hide: Option<u32>)
    ensures
        hide == match previous {
            Some(p) => if p != output_id { Some(p) } else { None },
            None => None::<u32>,
        },
{
    match previous {
        Some(p) => if p != output_id { Some(p) } else { None },
        None => None,
    }
}

/// Whether the toast is shown on `output_id`.
pub fn toast_visible_on(toast: &Option<ToastState>, output_id: u32) -> (visible: bool)
    ensures
        visible == (toast matches Some(t) && t.output_id == output_id),
{
    match toast {
        Some(t) => t.output_id == output_id,
        None => false,
    }
}

} // verus!
