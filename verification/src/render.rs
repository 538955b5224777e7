use vstd::prelude::*;

use crate::raster::{
    divider_spec, label_fits, label_fits_check, label_spec, lemma_label_cells_bound, paint_card_spec, card_size_ok,
    fill_rect_spec, crosshair_fits, crosshair_spec, hand_fits, hand_spec, blend_rect_fits, blend_rect_spec,
    rectangle_fits, rectangle_spec, shape_fits, shape_spec, stroke_fits, stroke_spec,
    text_annotation_fits, text_annotation_spec, Canvas, stroke_fits_check, shape_fits_check,
    text_annotation_fits_check, blend_rect_fits_check, rectangle_fits_check, crosshair_fits_check,
    hand_fits_check,
};
use crate::state::{
    BadgeModel, BADGE_ACCENT, ActiveAnnotation, AnnotationItem, AnnotationItemView, AnnotationPoint, AnnotationShapeKind,
    TextAnnotation,
};

verus! {

// ---------------------------------------------------------------------------
// Pixel words in a byte buffer
// ---------------------------------------------------------------------------

/// Bytes `4 * i .. 4 * i + 4` of `b` hold `v` least significant byte first.
pub open spec fn word_le_at(b: Seq<u8>, i: int, v: u32) -> bool {
    &&& b[4 * i] == (v & 0xFF) as u8
    &&& b[4 * i + 1] == ((v >> 8u32) & 0xFF) as u8
    &&& b[4 * i + 2] == ((v >> 16u32) & 0xFF) as u8
    &&& b[4 * i + 3] == ((v >> 24u32) & 0xFF) as u8
}

/// Bytes `4 * i .. 4 * i + 4` of `b` hold `v` most significant byte first.
pub open spec fn word_be_at(b: Seq<u8>, i: int, v: u32) -> bool {
    &&& b[4 * i] == ((v >> 24u32) & 0xFF) as u8
    &&& b[4 * i + 1] == ((v >> 16u32) & 0xFF) as u8
    &&& b[4 * i + 2] == ((v >> 8u32) & 0xFF) as u8
    &&& b[4 * i + 3] == (v & 0xFF) as u8
}

/// `bytes` is the memory image of `words`, four bytes per word in the machine's byte
/// order (one order throughout).
pub open spec fn stores_words(bytes: Seq<u8>, words: Seq<u32>) -> bool {
    &&& bytes.len() == 4 * words.len()
    &&& {
        ||| forall|i: int| 0 <= i < words.len() ==> #[trigger] word_le_at(bytes, i, words[i])
        ||| forall|i: int| 0 <= i < words.len() ==> #[trigger] word_be_at(bytes, i, words[i])
    }
}

/// `bytemuck::cast_slice` from pixel words to bytes. The result is the words' memory:
/// four bytes per word in the machine's byte order, little- or big-endian throughout.
#[verifier::external_body]
fn word_bytes(words: &[u32]) -> (bytes: &[u8])
    ensures
        stores_words(bytes@, words@),
{
    bytemuck::cast_slice::<u32, u8>(words)
}

/// Writes the memory image of `words` into the first `4 * words.len()` bytes of `pixels`.
fn store_words(pixels: &mut [u8], words: &[u32])
    requires
        4 * words@.len() <= old(pixels)@.len(),
    ensures
        final(pixels)@.len() == old(pixels)@.len(),
        stores_words(final(pixels)@.take(4 * words@.len() as int), words@),
        final(pixels)@.skip(4 * words@.len() as int) == old(pixels)@.skip(4 * words@.len() as int),
{
    let bytes = word_bytes(words);
    let n = bytes.len();
    let ghost old_px = pixels@;
    let mut i: usize = 0;
    while i < n
        invariant
            n == bytes@.len(),
            n == 4 * words@.len(),
            n <= old_px.len(),
            pixels@.len() == old_px.len(),
            i <= n,
            forall|k: int| 0 <= k < i ==> pixels@[k] == bytes@[k],
            forall|k: int| n <= k < old_px.len() ==> pixels@[k] == old_px[k],
        decreases n - i,
    {
        pixels[i] = bytes[i];
        i = i + 1;
    }
    assert(pixels@.take(n as int) =~= bytes@);
    assert(pixels@.skip(n as int) =~= old_px.skip(n as int));
}

/// Writes the memory image of `words` over the whole of `pixels`, four bytes per word.
pub fn store_words_all(pixels: &mut [u8], words: &[u32])
    requires
        4 * words@.len() == old(pixels)@.len(),
    ensures
        final(pixels)@.len() == old(pixels)@.len(),
        stores_words(final(pixels)@, words@),
{
    let len = pixels.len();
    store_words(pixels, words);
    proof {
        assert(pixels@.take(len as int) =~= pixels@);
    }
}

/// A byte buffer holds whole pixels and at least `width * height` of them; the sides fit in `i32`.
pub open spec fn buffer_fits(len: int, width: int, height: int) -> bool {
    &&& len % 4 == 0
    &&& width * height <= len / 4
    &&& width <= i32::MAX
    &&& height <= i32::MAX
}

/// Whether a buffer of `len` bytes can take a `width` by `height` drawing.
pub fn buffer_fits_check(len: usize, width: usize, height: usize) -> (ok: bool)
    ensures
        ok == buffer_fits(len as int, width as int, height as int),
{
    if len % 4 != 0 || width > i32::MAX as usize || height > i32::MAX as usize {
        return false;
    }
    assert(0 <= width * height <= 0x8000_0000 * 0x8000_0000) by (nonlinear_arith)
        requires width <= 0x8000_0000, height <= 0x8000_0000;
    (width as u128) * (height as u128) <= (len / 4) as u128
}

// ---------------------------------------------------------------------------
// Annotation overlay
// ---------------------------------------------------------------------------

/// Pointer shapes drawn on the annotation overlay.
#[derive(Debug, Clone, Copy, PartialEq, Eq, Structural)]
pub enum CursorStyle {
    Crosshair,
    Hand,
}

/// The pointer as drawn on the annotation overlay.
#[derive(Debug, Clone, Copy, PartialEq, Eq, Structural)]
pub struct OverlayCursor {
    pub position: AnnotationPoint,
    pub style: CursorStyle,
}

/// Annotation overlay content, already projected into screen coordinates.
/// `ellipse_outlines` holds the points sampled on each ellipse of the scene, committed
/// ones first and the one being drawn last; an ellipse without an outline is not drawn.
#[derive(Debug, Default)]
pub struct AnnotationScene {
    pub annotations: Vec<AnnotationItem>,
    pub active_annotation: Option<ActiveAnnotation>,
    pub active_text: Option<TextAnnotation>,
    pub cursor: Option<OverlayCursor>,
    pub shift_select_rect: Option<(AnnotationPoint, AnnotationPoint)>,
    pub ellipse_outlines: Vec<Vec<AnnotationPoint>>,
}

/// Fill and border colors of the box-zoom selection rectangle.
pub const SELECT_FILL: u32 = 0x253B_82F6;
pub const SELECT_BORDER: u32 = 0xCC3B_82F6;

/// Outline of ellipse number `k` of the scene, empty when there is none.
pub open spec fn outline_at(scene: AnnotationScene, k: int) -> Seq<AnnotationPoint> {
    if 0 <= k < scene.ellipse_outlines@.len() {
        scene.ellipse_outlines@[k]@
    } else {
        Seq::empty()
    }
}

/// Number of ellipses in `items`.
pub open spec fn ellipse_count(items: Seq<AnnotationItemView>) -> int
    decreases items.len(),
{
    if items.len() == 0 {
        0
    } else {
        ellipse_count(items.drop_last()) + if items.last() matches AnnotationItemView::Shape { kind: AnnotationShapeKind::Ellipse, .. } {
            1int
        } else {
            0int
        }
    }
}

/// The pixels after drawing one committed annotation; `k` ellipses were drawn before it.
pub open spec fn item_spec(px: Seq<u32>, w: int, h: int, item: AnnotationItemView, scene: AnnotationScene, k: int) -> Seq<u32> {
    match item {
        AnnotationItemView::Stroke { points, color, width } => stroke_spec(px, w, h, points, color, width),
        AnnotationItemView::Shape { kind, start, end, color, width } => shape_spec(px, w, h, kind, start, end, color, width, outline_at(scene, k)),
        AnnotationItemView::Text { position, text, color, scale } => text_annotation_spec(px, w, h, position, text, color, scale),
    }
}

pub open spec fn item_fits(item: AnnotationItemView, scene: AnnotationScene, k: int) -> bool {
    match item {
        AnnotationItemView::Stroke { points, width, .. } => stroke_fits(points, width),
        AnnotationItemView::Shape { kind, start, end, width, .. } => shape_fits(kind, start, end, width, outline_at(scene, k)),
        AnnotationItemView::Text { position, text, scale, .. } => text_annotation_fits(position, text, scale),
    }
}

/// The pixels after drawing the committed annotations in order.
pub open spec fn items_spec(px: Seq<u32>, w: int, h: int, items: Seq<AnnotationItemView>, scene: AnnotationScene) -> Seq<u32>
    decreases items.len(),
{
    if items.len() == 0 {
        px
    } else {
        item_spec(items_spec(px, w, h, items.drop_last(), scene), w, h, items.last(), scene, ellipse_count(items.drop_last()))
    }
}

/// The committed annotations as mathematical values.
pub open spec fn scene_items(scene: AnnotationScene) -> Seq<AnnotationItemView> {
    scene.annotations@.map_values(|a: AnnotationItem| a@)
}

/// The pixels after drawing the annotation being drawn.
pub open spec fn active_spec(px: Seq<u32>, w: int, h: int, scene: AnnotationScene) -> Seq<u32> {
    match scene.active_annotation {
        Some(ActiveAnnotation::Stroke(s)) => stroke_spec(px, w, h, s.points@, s.color, s.width),
        Some(ActiveAnnotation::Shape(s)) => shape_spec(px, w, h, s.kind, s.start, s.end, s.color, s.width,
            outline_at(scene, ellipse_count(scene_items(scene)))),
        None => px,
    }
}

/// Every part of the scene can be drawn in `i32` arithmetic without leaving the buffer.
pub open spec fn scene_fits(scene: AnnotationScene, w: int, h: int) -> bool {
    let items = scene_items(scene);
    &&& forall|i: int| 0 <= i < items.len() ==> #[trigger] item_fits(items[i], scene, ellipse_count(items.take(i)))
    &&& match scene.active_annotation {
        Some(ActiveAnnotation::Stroke(s)) => stroke_fits(s.points@, s.width),
        Some(ActiveAnnotation::Shape(s)) => shape_fits(s.kind, s.start, s.end, s.width, outline_at(scene, ellipse_count(items))),
        None => true,
    }
    &&& match scene.active_text {
        Some(t) => text_annotation_fits(t.position, t.text@, t.scale),
        None => true,
    }
    &&& match scene.shift_select_rect {
        Some((s, e)) => blend_rect_fits(s.x, s.y, e.x, e.y, w, h) && rectangle_fits(s, e, 1),
        None => true,
    }
    &&& match scene.cursor {
        Some(c) => match c.style {
            CursorStyle::Crosshair => crosshair_fits(c.position),
            CursorStyle::Hand => hand_fits(c.position),
        },
        None => true,
    }
}

/// Whether every part of the scene can be drawn on a `width` by `height` overlay
/// (see `scene_fits`).
pub fn scene_fits_check(scene: &AnnotationScene, width: usize, height: usize) -> (ok: bool)
    ensures
        ok == scene_fits(*scene, width as int, height as int),
{
    let ghost items = scene_items(*scene);
    let n = scene.annotations.len();
    let mut ellipses: usize = 0;
    let mut i: usize = 0;
    while i < n
        invariant
            items == scene_items(*scene),
            n == items.len(),
            i <= n,
            ellipses <= i,
            ellipses == ellipse_count(items.take(i as int)),
            forall|j: int| 0 <= j < i ==> #[trigger] item_fits(items[j], *scene, ellipse_count(items.take(j))),
        decreases n - i,
    {
        proof {
            assert(items.take(i + 1).drop_last() =~= items.take(i as int));
            assert(items[i as int] == scene.annotations@[i as int]@);
        }
        let ghost k0 = ellipses as int;
        let fits = match &scene.annotations[i] {
            AnnotationItem::Stroke(stroke) => stroke_fits_check(stroke.points.as_slice(), stroke.width),
            AnnotationItem::Shape(shape) => {
                let fits = shape_fits_check(shape.kind, shape.start, shape.end, shape.width, outline_for(scene, ellipses));
                match shape.kind {
                    AnnotationShapeKind::Ellipse => {
                        ellipses = ellipses + 1;
                    },
                    _ => {},
                }
                fits
            },
            AnnotationItem::Text(text) => text_annotation_fits_check(text.position, text.text.as_str(), text.scale),
        };
        assert(fits == item_fits(items[i as int], *scene, k0));
        if !fits {
            return false;
        }
        i = i + 1;
    }
    proof {
        assert(items.take(n as int) =~= items);
    }
    let active_fits = match &scene.active_annotation {
        Some(ActiveAnnotation::Stroke(stroke)) => stroke_fits_check(stroke.points.as_slice(), stroke.width),
        Some(ActiveAnnotation::Shape(shape)) =>
            shape_fits_check(shape.kind, shape.start, shape.end, shape.width, outline_for(scene, ellipses)),
        None => true,
    };
    let text_fits = match &scene.active_text {
        Some(text) => text_annotation_fits_check(text.position, text.text.as_str(), text.scale),
        None => true,
    };
    let select_fits = match scene.shift_select_rect {
        Some((start, end)) => blend_rect_fits_check(start.x, start.y, end.x, end.y, width, height)
            && rectangle_fits_check(start, end, 1),
        None => true,
    };
    let cursor_fits = match scene.cursor {
        Some(cursor) => match cursor.style {
            CursorStyle::Crosshair => crosshair_fits_check(cursor.position),
            CursorStyle::Hand => hand_fits_check(cursor.position),
        },
        None => true,
    };
    active_fits && text_fits && select_fits && cursor_fits
}

/// The overlay's pixel words: transparent, then the committed annotations, the one being
/// drawn, the text being typed, the box-zoom selection and the pointer, in that order.
pub open spec fn annotation_overlay_spec(len: int, w: int, h: int, scene: AnnotationScene) -> Seq<u32> {
    let p0 = Seq::new(len as nat, |i: int| 0u32);
    let p1 = items_spec(p0, w, h, scene_items(scene), scene);
    let p2 = active_spec(p1, w, h, scene);
    let p3 = match scene.active_text {
        Some(t) => text_annotation_spec(p2, w, h, t.position, t.text@, t.color, t.scale),
        None => p2,
    };
    let p4 = match scene.shift_select_rect {
        Some((s, e)) => rectangle_spec(blend_rect_spec(p3, w, h, s.x, s.y, e.x, e.y, SELECT_FILL), w, h, s, e, SELECT_BORDER, 1),
        None => p3,
    };
    match scene.cursor {
        Some(c) => match c.style {
            CursorStyle::Crosshair => crosshair_spec(p4, w, h, c.position),
            CursorStyle::Hand => hand_spec(p4, w, h, c.position),
        },
        None => p4,
    }
}

fn outline_for(scene: &AnnotationScene, k: usize) -> (outline: &[AnnotationPoint])
    ensures
        outline@ == outline_at(*scene, k as int),
{
    if k < scene.ellipse_outlines.len() {
        scene.ellipse_outlines[k].as_slice()
    } else {
        &[]
    }
}

/// Draws the committed annotations; returns how many ellipses were drawn.
fn draw_items(canvas: &mut Canvas, scene: &AnnotationScene) -> (ellipses: usize)
    requires
        old(canvas).wf(),
        scene_fits(*scene, old(canvas).width as int, old(canvas).height as int),
    ensures
        final(canvas).wf(),
        final(canvas).width == old(canvas).width,
        final(canvas).height == old(canvas).height,
        final(canvas).pixels@.len() == old(canvas).pixels@.len(),
        final(canvas).pixels@ == items_spec(old(canvas).pixels@, old(canvas).width as int, old(canvas).height as int, scene_items(*scene), *scene),
        ellipses == ellipse_count(scene_items(*scene)),
{
    let ghost old_px = canvas.pixels@;
    let ghost w = canvas.width as int;
    let ghost h = canvas.height as int;
    let ghost items = scene_items(*scene);
    let n = scene.annotations.len();
    let mut ellipses: usize = 0;
    let mut i: usize = 0;
    while i < n
        invariant
            canvas.wf(),
            canvas.width == w,
            canvas.height == h,
            items == scene_items(*scene),
            n == items.len(),
            scene_fits(*scene, w, h),
            i <= n,
            ellipses == ellipse_count(items.take(i as int)),
            ellipses <= i,
            canvas.pixels@.len() == old_px.len(),
            canvas.pixels@ == items_spec(old_px, w, h, items.take(i as int), *scene),
        decreases n - i,
    {
        let ghost item = items[i as int];
        proof {
            assert(items.take(i + 1).drop_last() =~= items.take(i as int));
            assert(item_fits(items[i as int], *scene, ellipse_count(items.take(i as int))));
        }
        match &scene.annotations[i] {
            AnnotationItem::Stroke(stroke) => {
                canvas.draw_stroke(stroke);
            },
            AnnotationItem::Shape(shape) => {
                let outline = outline_for(scene, ellipses);
                canvas.draw_shape(shape, outline);
                match shape.kind {
                    AnnotationShapeKind::Ellipse => {
                        ellipses = ellipses + 1;
                    },
                    _ => {},
                }
            },
            AnnotationItem::Text(text) => {
                canvas.draw_text_annotation(text.position, text.text.as_str(), text.color, text.scale);
            },
        }
        i = i + 1;
    }
    proof {
        assert(items.take(n as int) =~= items);
    }
    ellipses
}

/// Paints the annotation overlay into `pixels`, a `width` by `height` ARGB buffer
/// (four bytes per pixel in memory order). The whole buffer is cleared first.
pub fn draw_annotation_overlay(pixels: &mut [u8], width: usize, height: usize, scene: &AnnotationScene)
    requires
        buffer_fits(old(pixels)@.len() as int, width as int, height as int),
        scene_fits(*scene, width as int, height as int),
    ensures
        final(pixels)@.len() == old(pixels)@.len(),
        stores_words(final(pixels)@, annotation_overlay_spec(old(pixels)@.len() as int / 4, width as int, height as int, *scene)),
{
    let ghost w = width as int;
    let ghost h = height as int;
    let mut canvas = Canvas::filled(pixels.len() / 4, width, height, 0);
    let ellipses = draw_items(&mut canvas, scene);
    match &scene.active_annotation {
        Some(ActiveAnnotation::Stroke(stroke)) => canvas.draw_stroke(stroke),
        Some(ActiveAnnotation::Shape(shape)) => {
            let outline = outline_for(scene, ellipses);
            canvas.draw_shape(shape, outline);
        },
        None => {},
    }
    match &scene.active_text {
        Some(text) => canvas.draw_text_annotation(text.position, text.text.as_str(), text.color, text.scale),
        None => {},
    }
    match scene.shift_select_rect {
        Some((start, end)) => {
            canvas.blend_rect(start.x, start.y, end.x, end.y, SELECT_FILL);
            canvas.draw_rectangle(start, end, SELECT_BORDER, 1);
        },
        None => {},
    }
    match scene.cursor {
        Some(cursor) => match cursor.style {
            CursorStyle::Crosshair => canvas.draw_crosshair_cursor(cursor.position),
            CursorStyle::Hand => canvas.draw_hand_cursor(cursor.position),
        },
        None => {},
    }
    let len = pixels.len();
    assert(4 * (len as int / 4) == len);
    store_words_all(pixels, canvas.pixels.as_slice());
}

// ---------------------------------------------------------------------------
// Cards: indicator badge, toast, color picker
// ---------------------------------------------------------------------------

/// Text colors on the cards.
pub const CARD_TEXT: u32 = 0xFFFF_FFFF;
pub const CARD_MUTED_TEXT: u32 = 0xFF9C_A3AF;

/// A card buffer: whole pixels, room for `width * height` of them, and a card that fits.
pub open spec fn card_buffer_fits(len: int, width: int, height: int) -> bool {
    &&& buffer_fits(len, width, height)
    &&& card_size_ok(width, height)
}

/// The card's pixel words were written to the first `4 * width * height` bytes; the rest
/// of the buffer is unchanged.
pub open spec fn card_painted(before: Seq<u8>, after: Seq<u8>, width: int, height: int, words: Seq<u32>) -> bool {
    &&& after.len() == before.len()
    &&& stores_words(after.take(4 * (width * height)), words)
    &&& after.skip(4 * (width * height)) == before.skip(4 * (width * height))
}

/// A transparent `w` by `h` canvas.
pub open spec fn blank(w: int, h: int) -> Seq<u32> {
    Seq::new((w * h) as nat, |i: int| 0u32)
}

/// The indicator badge: an accented card with three dividers, the title, the subtitle
/// and the three hint lines (label in the accent color, text in the line's color).
pub open spec fn badge_spec(w: int, h: int, badge: BadgeModel) -> Seq<u32> {
    let l = badge.lines@;
    let p0 = paint_card_spec(blank(w, h), w, h, Some(BADGE_ACCENT));
    let p1 = divider_spec(divider_spec(divider_spec(p0, w, h, 52), w, h, 80), w, h, 104);
    let p2 = label_spec(p1, w, h, 18, 12, badge.title@, 3, CARD_TEXT).0;
    let p3 = label_spec(p2, w, h, 18, 34, badge.subtitle@, 2, CARD_MUTED_TEXT).0;
    let p4 = label_spec(p3, w, h, 18, 60, l[0].label@, 2, BADGE_ACCENT).0;
    let p5 = label_spec(p4, w, h, 88, 60, l[0].text@, 2, l[0].color).0;
    let p6 = label_spec(p5, w, h, 18, 84, l[1].label@, 2, BADGE_ACCENT).0;
    let p7 = label_spec(p6, w, h, 88, 84, l[1].text@, 2, l[1].color).0;
    let p8 = label_spec(p7, w, h, 18, 108, l[2].label@, 2, BADGE_ACCENT).0;
    label_spec(p8, w, h, 88, 108, l[2].text@, 2, l[2].color).0
}

/// Every label of the badge can be drawn in `i32` arithmetic.
pub open spec fn badge_fits(badge: BadgeModel) -> bool {
    let l = badge.lines@;
    &&& label_fits(18, 12, badge.title@, 3)
    &&& label_fits(18, 34, badge.subtitle@, 2)
    &&& label_fits(18, 60, l[0].label@, 2)
    &&& label_fits(88, 60, l[0].text@, 2)
    &&& label_fits(18, 84, l[1].label@, 2)
    &&& label_fits(88, 84, l[1].text@, 2)
    &&& label_fits(18, 108, l[2].label@, 2)
    &&& label_fits(88, 108, l[2].text@, 2)
}

/// Whether a buffer of `len` bytes can take a `width` by `height` card.
pub fn card_buffer_fits_check(len: usize, width: usize, height: usize) -> (ok: bool)
    ensures
        ok == card_buffer_fits(len as int, width as int, height as int),
{
    buffer_fits_check(len, width, height) && 25 <= width && width <= 0x100_0000 && 25 <= height
        && height <= 0x100_0000
}

/// Whether every text of the badge fits where it is drawn.
pub fn badge_fits_check(badge: &BadgeModel) -> (ok: bool)
    ensures
        ok == badge_fits(*badge),
{
    let l = &badge.lines;
    label_fits_check(18, 12, badge.title.as_str(), 3)
        && label_fits_check(18, 34, badge.subtitle.as_str(), 2)
        && label_fits_check(18, 60, l[0].label, 2)
        && label_fits_check(88, 60, l[0].text.as_str(), 2)
        && label_fits_check(18, 84, l[1].label, 2)
        && label_fits_check(88, 84, l[1].text.as_str(), 2)
        && label_fits_check(18, 108, l[2].label, 2)
        && label_fits_check(88, 108, l[2].text.as_str(), 2)
}

/// Paints the indicator badge into a `width` by `height` ARGB buffer.
pub fn paint_zoom_badge(pixels: &mut [u8], width: usize, height: usize, badge: &BadgeModel)
    requires
        card_buffer_fits(old(pixels)@.len() as int, width as int, height as int),
        badge_fits(*badge),
    ensures
        card_painted(old(pixels)@, final(pixels)@, width as int, height as int, badge_spec(width as int, height as int, *badge)),
{
    let len = pixels.len();
    let mut canvas = Canvas::new(width, height);
    canvas.paint_card(Some(BADGE_ACCENT));
    canvas.draw_divider(52);
    canvas.draw_divider(80);
    canvas.draw_divider(104);
    canvas.draw_label(18, 12, badge.title.as_str(), 3, CARD_TEXT);
    canvas.draw_label(18, 34, badge.subtitle.as_str(), 2, CARD_MUTED_TEXT);
    canvas.draw_label(18, 60, badge.lines[0].label, 2, BADGE_ACCENT);
    canvas.draw_label(88, 60, badge.lines[0].text.as_str(), 2, badge.lines[0].color);
    canvas.draw_label(18, 84, badge.lines[1].label, 2, BADGE_ACCENT);
    canvas.draw_label(88, 84, badge.lines[1].text.as_str(), 2, badge.lines[1].color);
    canvas.draw_label(18, 108, badge.lines[2].label, 2, BADGE_ACCENT);
    canvas.draw_label(88, 108, badge.lines[2].text.as_str(), 2, badge.lines[2].color);
    store_words(pixels, canvas.pixels.as_slice());
}

/// The toast: an accented card with a divider, the title, a "NOTIFICATION" caption and
/// the message.
pub open spec fn toast_spec(w: int, h: int, title: Seq<char>, message: Seq<char>) -> Seq<u32> {
    let p0 = paint_card_spec(blank(w, h), w, h, Some(BADGE_ACCENT));
    let p1 = divider_spec(p0, w, h, 54);
    let p2 = label_spec(p1, w, h, 18, 16, title, 2, CARD_TEXT).0;
    let p3 = label_spec(p2, w, h, 18, 40, "NOTIFICATION"@, 1, CARD_MUTED_TEXT).0;
    label_spec(p3, w, h, 18, 68, message, 1, CARD_TEXT).0
}

/// Paints a toast notification into a `width` by `height` ARGB buffer.
pub fn paint_toast(pixels: &mut [u8], width: usize, height: usize, title: &str, message: &str)
    requires
        card_buffer_fits(old(pixels)@.len() as int, width as int, height as int),
        label_fits(18, 16, title@, 2),
        label_fits(18, 68, message@, 1),
    ensures
        card_painted(old(pixels)@, final(pixels)@, width as int, height as int, toast_spec(width as int, height as int, title@, message@)),
{
    let len = pixels.len();
    let mut canvas = Canvas::new(width, height);
    canvas.paint_card(Some(BADGE_ACCENT));
    canvas.draw_divider(54);
    canvas.draw_label(18, 16, title, 2, CARD_TEXT);
    proof {
        reveal_strlit("NOTIFICATION");
        lemma_label_cells_bound("NOTIFICATION"@);
    }
    canvas.draw_label(18, 40, "NOTIFICATION", 1, CARD_MUTED_TEXT);
    canvas.draw_label(18, 68, message, 1, CARD_TEXT);
    store_words(pixels, canvas.pixels.as_slice());
}

/// The opaque color shown by the color picker.
pub open spec fn opaque(color: u32) -> u32 {
    0xFF00_0000 | (color & 0x00FF_FFFF)
}

/// The color picker: a card accented with the color, a white-framed swatch, a "COLOR"
/// caption, the hex text and, once copied, a "COPIED" note.
pub open spec fn color_picker_spec(w: int, h: int, color: u32, hex: Seq<char>, copied: bool) -> Seq<u32> {
    let c = opaque(color);
    let p0 = paint_card_spec(blank(w, h), w, h, Some(c));
    let p1 = fill_rect_spec(p0, w, h, 18, 32, 86, 62, CARD_TEXT);
    let p2 = fill_rect_spec(p1, w, h, 21, 35, 80, 56, c);
    let p3 = label_spec(p2, w, h, 122, 26, "COLOR"@, 2, CARD_MUTED_TEXT).0;
    let p4 = label_spec(p3, w, h, 122, 50, hex, 3, CARD_TEXT).0;
    if copied {
        label_spec(p4, w, h, 122, 82, "COPIED"@, 1, BADGE_ACCENT).0
    } else {
        p4
    }
}

/// Paints the color picker into a `width` by `height` ARGB buffer.
pub fn paint_color_picker(pixels: &mut [u8], width: usize, height: usize, color: u32, hex: &str, copied: bool)
    requires
        card_buffer_fits(old(pixels)@.len() as int, width as int, height as int),
        label_fits(122, 50, hex@, 3),
    ensures
        card_painted(old(pixels)@, final(pixels)@, width as int, height as int, color_picker_spec(width as int, height as int, color, hex@, copied)),
{
    let len = pixels.len();
    let mut canvas = Canvas::new(width, height);
    let color = 0xFF00_0000 | (color & 0x00FF_FFFF);
    canvas.paint_card(Some(color));
    canvas.fill_rect(18, 32, 86, 62, CARD_TEXT);
    canvas.fill_rect(21, 35, 80, 56, color);
    proof {
        reveal_strlit("COLOR");
        lemma_label_cells_bound("COLOR"@);
    }
    canvas.draw_label(122, 26, "COLOR", 2, CARD_MUTED_TEXT);
    canvas.draw_label(122, 50, hex, 3, CARD_TEXT);
    if copied {
        proof {
            reveal_strlit("COPIED");
            lemma_label_cells_bound("COPIED"@);
            assert(label_fits(122, 82, "COPIED"@, 1));
        }
        canvas.draw_label(122, 82, "COPIED", 1, BADGE_ACCENT);
    }
    store_words(pixels, canvas.pixels.as_slice());
}

} // verus!
