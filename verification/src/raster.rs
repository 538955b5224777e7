use vstd::prelude::*;

use crate::glyphs::{glyph_rows, lookup_glyph};
use crate::state::{offset_fits, offset_spec, AnnotationPoint, AnnotationShapeKind, ShapeAnnotation, StrokeAnnotation};

verus! {

// ---------------------------------------------------------------------------
// Colors
// ---------------------------------------------------------------------------

/// One 8-bit channel of a packed ARGB color.
pub open spec fn channel(c: u32, shift: u32) -> u32 {
    (c >> shift) & 0xFF
}

/// Source channel plus the destination channel scaled by the inverse source alpha,
/// rounded to nearest.
pub open spec fn blend_channel_spec(s: u32, d: u32, inverse: u32) -> u32 {
    (s + (d * inverse + 0x7F) / 0xFF) as u32
}

/// `src` composited over `dst` ("source over"), both premultiplied ARGB.
pub open spec fn alpha_over_spec(dst: u32, src: u32) -> u32 {
    let src_a = channel(src, 24);
    if src_a == 0 {
        dst
    } else if src_a == 0xFF {
        src
    } else {
        let inverse = (0xFF - src_a) as u32;
        let a = blend_channel_spec(src_a, channel(dst, 24), inverse);
        let r = blend_channel_spec(channel(src, 16), channel(dst, 16), inverse);
        let g = blend_channel_spec(channel(src, 8), channel(dst, 8), inverse);
        let b = blend_channel_spec(channel(src, 0), channel(dst, 0), inverse);
        (a << 24u32) | (r << 16u32) | (g << 8u32) | b
    }
}

/// Every color channel is at most the alpha channel.
pub open spec fn is_premultiplied(c: u32) -> bool {
    &&& channel(c, 16) <= channel(c, 24)
    &&& channel(c, 8) <= channel(c, 24)
    &&& channel(c, 0) <= channel(c, 24)
}

/// A color channel is a byte.
pub proof fn lemma_channel_bound(c: u32, shift: u32)
    ensures
        channel(c, shift) <= 0xFF,
{
    assert((c >> shift) & 0xFF <= 0xFF) by (bit_vector);
}

/// Packing four channels of at most 0xFF and reading them back gives the channels.
pub proof fn lemma_pack_channels(a: u32, r: u32, g: u32, b: u32)
    requires
        a <= 0xFF,
        r <= 0xFF,
        g <= 0xFF,
        b <= 0xFF,
    ensures
        channel((a << 24u32) | (r << 16u32) | (g << 8u32) | b, 24) == a,
        channel((a << 24u32) | (r << 16u32) | (g << 8u32) | b, 16) == r,
        channel((a << 24u32) | (r << 16u32) | (g << 8u32) | b, 8) == g,
        channel((a << 24u32) | (r << 16u32) | (g << 8u32) | b, 0) == b,
{
    assert(((((a << 24u32) | (r << 16u32) | (g << 8u32) | b) >> 24u32) & 0xFF) == a
        && ((((a << 24u32) | (r << 16u32) | (g << 8u32) | b) >> 16u32) & 0xFF) == r
        && ((((a << 24u32) | (r << 16u32) | (g << 8u32) | b) >> 8u32) & 0xFF) == g
        && ((((a << 24u32) | (r << 16u32) | (g << 8u32) | b) >> 0u32) & 0xFF) == b) by (bit_vector)
        requires a <= 0xFF, r <= 0xFF, g <= 0xFF, b <= 0xFF;
}

/// Composites `src` over `dst`.
pub fn alpha_over(dst: u32, src: u32) -> (out: u32)
    ensures
        out == alpha_over_spec(dst, src),
{
    let src_a = (src >> 24) & 0xFF;
    proof {
        lemma_channel_bound(src, 24);
    }
    if src_a == 0 {
        return dst;
    }
    if src_a == 0xFF {
        return src;
    }
    let dst_a = (dst >> 24) & 0xFF;
    let src_r = (src >> 16) & 0xFF;
    let dst_r = (dst >> 16) & 0xFF;
    let src_g = (src >> 8) & 0xFF;
    let dst_g = (dst >> 8) & 0xFF;
    let src_b = src & 0xFF;
    let dst_b = dst & 0xFF;
    proof {
        lemma_channel_bound(dst, 24);
        lemma_channel_bound(src, 16);
        lemma_channel_bound(dst, 16);
        lemma_channel_bound(src, 8);
        lemma_channel_bound(dst, 8);
        lemma_channel_bound(src, 0);
        lemma_channel_bound(dst, 0);
        assert(src & 0xFF == (src >> 0u32) & 0xFF && dst & 0xFF == (dst >> 0u32) & 0xFF) by (bit_vector);
    }
    let inverse = 0xFF - src_a;
    assert(dst_a * inverse <= 0xFF * 0xFF) by (nonlinear_arith)
        requires dst_a <= 0xFF, inverse <= 0xFF;
    assert(dst_r * inverse <= 0xFF * 0xFF) by (nonlinear_arith)
        requires dst_r <= 0xFF, inverse <= 0xFF;
    assert(dst_g * inverse <= 0xFF * 0xFF) by (nonlinear_arith)
        requires dst_g <= 0xFF, inverse <= 0xFF;
    assert(dst_b * inverse <= 0xFF * 0xFF) by (nonlinear_arith)
        requires dst_b <= 0xFF, inverse <= 0xFF;
    let out_a = src_a + (dst_a * inverse + 0x7F) / 0xFF;
    let out_r = src_r + (dst_r * inverse + 0x7F) / 0xFF;
    let out_g = src_g + (dst_g * inverse + 0x7F) / 0xFF;
    let out_b = src_b + (dst_b * inverse + 0x7F) / 0xFF;
    (out_a << 24) | (out_r << 16) | (out_g << 8) | out_b
}

/// A fully transparent color leaves the destination as it is; an opaque one replaces it.
pub proof fn lemma_alpha_over_extremes(dst: u32, src: u32)
    ensures
        channel(src, 24) == 0 ==> alpha_over_spec(dst, src) == dst,
        channel(src, 24) == 0xFF ==> alpha_over_spec(dst, src) == src,
{
}

/// Compositing premultiplied colors gives a premultiplied color, at least as opaque
/// as the source, whose channels are the rounded "source over" sums.
pub proof fn lemma_alpha_over_premultiplied(dst: u32, src: u32)
    requires
        is_premultiplied(dst),
        is_premultiplied(src),
    ensures
        is_premultiplied(alpha_over_spec(dst, src)),
        channel(alpha_over_spec(dst, src), 24) >= channel(src, 24),
        0 < channel(src, 24) < 0xFF ==> {
            let inverse = (0xFF - channel(src, 24)) as u32;
            &&& channel(alpha_over_spec(dst, src), 24) == blend_channel_spec(channel(src, 24), channel(dst, 24), inverse)
            &&& channel(alpha_over_spec(dst, src), 16) == blend_channel_spec(channel(src, 16), channel(dst, 16), inverse)
            &&& channel(alpha_over_spec(dst, src), 8) == blend_channel_spec(channel(src, 8), channel(dst, 8), inverse)
            &&& channel(alpha_over_spec(dst, src), 0) == blend_channel_spec(channel(src, 0), channel(dst, 0), inverse)
        },
{
    let sa = channel(src, 24);
    lemma_channel_bound(src, 24);
    lemma_channel_bound(dst, 24);
    if 0 < sa < 0xFF {
        let inverse = (0xFF - sa) as u32;
        let da = channel(dst, 24);
        let a = blend_channel_spec(sa, da, inverse);
        let r = blend_channel_spec(channel(src, 16), channel(dst, 16), inverse);
        let g = blend_channel_spec(channel(src, 8), channel(dst, 8), inverse);
        let b = blend_channel_spec(channel(src, 0), channel(dst, 0), inverse);
        lemma_blend_channel_monotone(channel(src, 16), channel(dst, 16), sa, da, inverse);
        lemma_blend_channel_monotone(channel(src, 8), channel(dst, 8), sa, da, inverse);
        lemma_blend_channel_monotone(channel(src, 0), channel(dst, 0), sa, da, inverse);
        lemma_blend_alpha_bound(sa, da);
        lemma_pack_channels(a, r, g, b);
    }
}

proof fn lemma_blend_channel_monotone(sc: u32, dc: u32, sa: u32, da: u32, inverse: u32)
    requires
        sc <= sa,
        dc <= da,
        da <= 0xFF,
        sa <= 0xFF,
        inverse <= 0xFF,
    ensures
        blend_channel_spec(sc, dc, inverse) <= blend_channel_spec(sa, da, inverse),
        sc + (dc * inverse + 0x7F) / 0xFF <= sa + (da * inverse + 0x7F) / 0xFF,
{
    assert(dc * inverse <= da * inverse) by (nonlinear_arith)
        requires dc <= da;
    assert(da * inverse <= 0xFF * 0xFF) by (nonlinear_arith)
        requires da <= 0xFF, inverse <= 0xFF;
}

proof fn lemma_blend_alpha_bound(sa: u32, da: u32)
    requires
        0 < sa < 0xFF,
        da <= 0xFF,
    ensures
        sa + (da * ((0xFF - sa) as u32) + 0x7F) / 0xFF <= 0xFF,
        blend_channel_spec(sa, da, (0xFF - sa) as u32) <= 0xFF,
{
    let k: int = 0xFF - sa;
    assert(da * k <= 0xFF * k) by (nonlinear_arith)
        requires da <= 0xFF, k >= 0;
    assert((0xFF * k + 0x7F) / 0xFF == k);
}


// ---------------------------------------------------------------------------
// Canvas
// ---------------------------------------------------------------------------

/// ARGB pixel words; the drawing area is the first `width * height` of them, row by row.
pub struct Canvas {
    pub pixels: Vec<u32>,
    pub width: usize,
    pub height: usize,
}

pub open spec fn clamp_int(v: int, lo: int, hi: int) -> int {
    if v < lo {
        lo
    } else if v > hi {
        hi
    } else {
        v
    }
}

/// `v` saturated to the `i32` range.
pub open spec fn saturate_i32(v: int) -> int {
    clamp_int(v, i32::MIN as int, i32::MAX as int)
}

/// Column (or row) where a span starting at `start` begins once clipped to `0..max`.
pub open spec fn span_start(start: i32, max: int) -> int {
    clamp_int(start as int, 0, max)
}

/// Column (or row) where a span of `len` starting at `start` ends once clipped to `0..max`;
/// the length is taken as an `i32`.
pub open spec fn span_end(start: i32, len: usize, max: int) -> int {
    clamp_int(saturate_i32(start + (len as i32)), 0, max)
}

/// Column of pixel `i` in a canvas `w` wide.
pub open spec fn col_of(i: int, w: int) -> int {
    i % w
}

/// Row of pixel `i` in a canvas `w` wide.
pub open spec fn row_of(i: int, w: int) -> int {
    i / w
}

/// Pixel `i` lies in the drawing area and in the rectangle of columns `c0..c1`, rows `r0..r1`.
pub open spec fn in_area_rect(i: int, w: int, h: int, c0: int, c1: int, r0: int, r1: int) -> bool {
    &&& 0 <= i < w * h
    &&& c0 <= col_of(i, w) < c1
    &&& r0 <= row_of(i, w) < r1
}

/// A filled rectangle, clipped to the drawing area, would not panic: either no row
/// is drawn or its columns form a proper range.
pub open spec fn fill_rect_fits(x: i32, y: i32, rect_width: usize, rect_height: usize, w: int, h: int) -> bool {
    span_end(y, rect_height, h) <= span_start(y, h) || span_start(x, w) <= span_end(x, rect_width, w)
}

/// The pixels after filling the clipped rectangle with `color`.
pub open spec fn fill_rect_spec(
    px: Seq<u32>,
    w: int,
    h: int,
    x: i32,
    y: i32,
    rect_width: usize,
    rect_height: usize,
    color: u32,
) -> Seq<u32> {
    Seq::new(
        px.len(),
        |i: int|
            if in_area_rect(i, w, h, span_start(x, w), span_end(x, rect_width, w), span_start(y, h), span_end(y, rect_height, h)) {
                color
            } else {
                px[i]
            },
    )
}

/// The pixels after blending `color` into pixel (x, y), when it lies in the drawing area.
pub open spec fn blend_pixel_spec(px: Seq<u32>, w: int, h: int, x: int, y: int, color: u32) -> Seq<u32> {
    if 0 <= x < w && 0 <= y < h {
        px.update(y * w + x, alpha_over_spec(px[y * w + x], color))
    } else {
        px
    }
}

/// Bounds of a blended rectangle between two corners, clipped to the drawing area.
pub open spec fn blend_left(x0: i32, x1: i32) -> int {
    clamp_int(if x0 <= x1 { x0 as int } else { x1 as int }, 0, i32::MAX as int)
}

pub open spec fn blend_right(x0: i32, x1: i32, w: int) -> int {
    if x0 <= x1 { if x1 < w { x1 as int } else { w } } else { if x0 < w { x0 as int } else { w } }
}

/// A blended rectangle stays in the buffer and ends: its bottom and, unless no row
/// is drawn, its right edge are not left of or above the origin.
pub open spec fn blend_rect_fits(x0: i32, y0: i32, x1: i32, y1: i32, w: int, h: int) -> bool {
    &&& blend_right(y0, y1, h) >= 0
    &&& (blend_right(x0, x1, w) >= 0 || blend_right(y0, y1, h) <= blend_left(y0, y1))
}

/// The pixels after blending `color` into every pixel of the clipped rectangle.
pub open spec fn blend_rect_spec(px: Seq<u32>, w: int, h: int, x0: i32, y0: i32, x1: i32, y1: i32, color: u32) -> Seq<u32> {
    Seq::new(
        px.len(),
        |i: int|
            if in_area_rect(i, w, h, blend_left(x0, x1), blend_right(x0, x1, w), blend_left(y0, y1), blend_right(y0, y1, h)) {
                alpha_over_spec(px[i], color)
            } else {
                px[i]
            },
    )
}

/// Radius actually drawn for a disc.
pub open spec fn disc_radius(radius: i32) -> int {
    if radius < 1 { 1 } else { radius as int }
}

pub open spec fn in_disc(x: int, y: int, center: AnnotationPoint, r: int) -> bool {
    (x - center.x) * (x - center.x) + (y - center.y) * (y - center.y) <= r * r
}

/// Drawing the disc stays in `i32` arithmetic.
pub open spec fn disc_fits(center: AnnotationPoint, radius: i32) -> bool {
    let r = disc_radius(radius);
    &&& r <= 32767
    &&& i32::MIN <= center.x - r
    &&& center.x + r <= i32::MAX
    &&& i32::MIN <= center.y - r
    &&& center.y + r <= i32::MAX
}

/// The pixels after blending `color` into every pixel of the disc in the drawing area.
pub open spec fn disc_spec(px: Seq<u32>, w: int, h: int, center: AnnotationPoint, radius: i32, color: u32) -> Seq<u32> {
    Seq::new(
        px.len(),
        |i: int|
            if 0 <= i < w * h && in_disc(col_of(i, w), row_of(i, w), center, disc_radius(radius)) {
                alpha_over_spec(px[i], color)
            } else {
                px[i]
            },
    )
}

/// Pixel (x, y) of a canvas `w` wide is number `y * w + x`.
pub proof fn lemma_pixel_index(w: int, h: int, x: int, y: int)
    requires
        0 <= x < w,
        0 <= y < h,
    ensures
        0 <= y * w + x < w * h,
        col_of(y * w + x, w) == x,
        row_of(y * w + x, w) == y,
{
    vstd::arithmetic::div_mod::lemma_fundamental_div_mod_converse(y * w + x, w, y, x);
    assert(y * w + x < w * h) by (nonlinear_arith)
        requires 0 <= x < w, 0 <= y < h;
}

/// Pixel `i` of the drawing area is (col, row) with `i == row * w + col`.
pub proof fn lemma_pixel_coords(w: int, h: int, i: int)
    requires
        0 <= w,
        0 <= h,
        0 <= i < w * h,
    ensures
        0 <= col_of(i, w) < w,
        0 <= row_of(i, w) < h,
        i == row_of(i, w) * w + col_of(i, w),
{
    assert(w > 0) by (nonlinear_arith)
        requires 0 <= i < w * h, 0 <= w, 0 <= h;
    vstd::arithmetic::div_mod::lemma_fundamental_div_mod(i, w);
    vstd::arithmetic::mul::lemma_mul_is_commutative(w, i / w);
    assert(0 <= i % w < w) by {
        vstd::arithmetic::div_mod::lemma_mod_bound(i, w);
    }
    assert(i / w < h) by (nonlinear_arith)
        requires 0 <= i < w * h, w > 0, i == w * (i / w) + i % w, 0 <= i % w;
    assert(i / w >= 0) by (nonlinear_arith)
        requires 0 <= i, w > 0, i == w * (i / w) + i % w, i % w < w;
}

/// A point at distance at most `r` from the center is within `r` of it on each axis.
pub proof fn lemma_disc_bounds(x: int, y: int, center: AnnotationPoint, r: int)
    requires
        r >= 1,
        in_disc(x, y, center, r),
    ensures
        center.x - r <= x <= center.x + r,
        center.y - r <= y <= center.y + r,
{
    let a = x - center.x;
    let b = y - center.y;
    assert(a * a <= r * r && b * b <= r * r) by (nonlinear_arith)
        requires a * a + b * b <= r * r;
    assert(-r <= a <= r) by (nonlinear_arith)
        requires a * a <= r * r, r >= 1;
    assert(-r <= b <= r) by (nonlinear_arith)
        requires b * b <= r * r, r >= 1;
}

fn clip_start(start: i32, max: usize) -> (r: usize)
    requires
        max <= i32::MAX,
    ensures
        r == span_start(start, max as int),
        r <= max,
{
    if start < 0 {
        0
    } else if start as usize > max {
        max
    } else {
        start as usize
    }
}

fn clip_end(start: i32, len: usize, max: usize) -> (r: usize)
    requires
        max <= i32::MAX,
    ensures
        r == span_end(start, len, max as int),
        r <= max,
{
    let len_i32 = len as i32;
    let sum: i64 = start as i64 + len_i32 as i64;
    let saturated: i64 = if sum < i32::MIN as i64 {
        i32::MIN as i64
    } else if sum > i32::MAX as i64 {
        i32::MAX as i64
    } else {
        sum
    };
    if saturated < 0 {
        0
    } else if saturated as usize > max {
        max
    } else {
        saturated as usize
    }
}

pub open spec fn abs_int(v: int) -> int {
    if v < 0 { -v } else { v }
}

pub open spec fn max_int(a: int, b: int) -> int {
    if a >= b { a } else { b }
}

pub open spec fn min_int(a: int, b: int) -> int {
    if a <= b { a } else { b }
}

/// `n / d` rounded to the nearest integer, halves away from zero (`d > 0`).
pub open spec fn round_div(n: int, d: int) -> int {
    if n >= 0 {
        (2 * n + d) / (2 * d)
    } else {
        -((-2 * n + d) / (2 * d))
    }
}

/// Number of steps a line takes: its longer side, at least 1.
pub open spec fn line_steps(start: AnnotationPoint, end: AnnotationPoint) -> int {
    max_int(max_int(abs_int(end.x - start.x), abs_int(end.y - start.y)), 1)
}

/// Point `step` of `steps` along the line, rounded to the nearest pixel: the exact
/// value `start + (end - start) * step / steps`, with halves rounded away from zero.
/// Computed in double precision instead, a value that lies exactly half-way between two
/// pixels can come out a hair below or above the half and round the other way (for the
/// line from (0, 0) to (11, 22), point 15 of 22 has x = 7.5: here 8, 7 in double
/// precision); this model always takes the exact value.
pub open spec fn line_point(start: AnnotationPoint, end: AnnotationPoint, step: int, steps: int) -> AnnotationPoint {
    AnnotationPoint {
        x: round_div(start.x * steps + (end.x - start.x) * step, steps) as i32,
        y: round_div(start.y * steps + (end.y - start.y) * step, steps) as i32,
    }
}

/// Radius of the discs that make up a line of the given thickness.
pub open spec fn line_radius(thickness: i32) -> i32 {
    ((if thickness < 1 { 1 } else { thickness as int }) / 2) as i32
}

/// The first `k` discs of a line.
pub open spec fn line_discs(
    px: Seq<u32>,
    w: int,
    h: int,
    start: AnnotationPoint,
    end: AnnotationPoint,
    color: u32,
    thickness: i32,
    k: nat,
) -> Seq<u32>
    decreases k,
{
    if k == 0 {
        px
    } else {
        disc_spec(
            line_discs(px, w, h, start, end, color, thickness, (k - 1) as nat),
            w,
            h,
            line_point(start, end, k - 1, line_steps(start, end)),
            line_radius(thickness),
            color,
        )
    }
}

/// The pixels after drawing a line: one disc at each of its `steps + 1` points.
pub open spec fn line_spec(
    px: Seq<u32>,
    w: int,
    h: int,
    start: AnnotationPoint,
    end: AnnotationPoint,
    color: u32,
    thickness: i32,
) -> Seq<u32> {
    line_discs(px, w, h, start, end, color, thickness, (line_steps(start, end) + 1) as nat)
}

/// Drawing the line stays in `i32` arithmetic.
pub open spec fn line_fits(start: AnnotationPoint, end: AnnotationPoint, thickness: i32) -> bool {
    let r = disc_radius(line_radius(thickness));
    &&& i32::MIN < end.x - start.x <= i32::MAX
    &&& i32::MIN < end.y - start.y <= i32::MAX
    &&& r <= 32767
    &&& i32::MIN <= min_int(start.x as int, end.x as int) - r
    &&& max_int(start.x as int, end.x as int) + r <= i32::MAX
    &&& i32::MIN <= min_int(start.y as int, end.y as int) - r
    &&& max_int(start.y as int, end.y as int) + r <= i32::MAX
}

/// Rounding a multiple of `d` gives its quotient.
pub proof fn lemma_round_div_exact(k: int, d: int)
    requires
        d > 0,
    ensures
        round_div(k * d, d) == k,
{
    if k >= 0 {
        assert(k * d >= 0) by (nonlinear_arith)
            requires k >= 0, d > 0;
        assert(2 * (k * d) + d == k * (2 * d) + d) by (nonlinear_arith);
        vstd::arithmetic::div_mod::lemma_fundamental_div_mod_converse(2 * (k * d) + d, 2 * d, k, d);
    } else {
        assert(k * d < 0) by (nonlinear_arith)
            requires k < 0, d > 0;
        assert(-2 * (k * d) + d == (-k) * (2 * d) + d) by (nonlinear_arith);
        vstd::arithmetic::div_mod::lemma_fundamental_div_mod_converse(-2 * (k * d) + d, 2 * d, -k, d);
    }
}

/// Rounding is monotone.
pub proof fn lemma_round_div_monotone(n1: int, n2: int, d: int)
    requires
        d > 0,
        n1 <= n2,
    ensures
        round_div(n1, d) <= round_div(n2, d),
{
    if n1 >= 0 {
        vstd::arithmetic::div_mod::lemma_div_is_ordered(2 * n1 + d, 2 * n2 + d, 2 * d);
    } else if n2 < 0 {
        vstd::arithmetic::div_mod::lemma_div_is_ordered(-2 * n2 + d, -2 * n1 + d, 2 * d);
    } else {
        vstd::arithmetic::div_mod::lemma_div_pos_is_pos(-2 * n1 + d, 2 * d);
        vstd::arithmetic::div_mod::lemma_div_pos_is_pos(2 * n2 + d, 2 * d);
    }
}

/// Every point of a line lies between its ends.
pub proof fn lemma_line_point_between(start: AnnotationPoint, end: AnnotationPoint, step: int)
    requires
        0 <= step <= line_steps(start, end),
    ensures
        min_int(start.x as int, end.x as int) <= round_div(start.x * line_steps(start, end) + (end.x - start.x) * step, line_steps(start, end))
            <= max_int(start.x as int, end.x as int),
        min_int(start.y as int, end.y as int) <= round_div(start.y * line_steps(start, end) + (end.y - start.y) * step, line_steps(start, end))
            <= max_int(start.y as int, end.y as int),
{
    let d = line_steps(start, end);
    lemma_between_axis(start.x as int, end.x as int, step, d);
    lemma_between_axis(start.y as int, end.y as int, step, d);
}

proof fn lemma_between_axis(s: int, e: int, step: int, d: int)
    requires
        0 <= step <= d,
        abs_int(e - s) <= d,
        d >= 1,
    ensures
        min_int(s, e) <= round_div(s * d + (e - s) * step, d) <= max_int(s, e),
{
    let n = s * d + (e - s) * step;
    lemma_round_div_exact(s, d);
    lemma_round_div_exact(e, d);
    if e >= s {
        assert(s * d <= n <= e * d) by (nonlinear_arith)
            requires n == s * d + (e - s) * step, 0 <= step <= d, e >= s;
        lemma_round_div_monotone(s * d, n, d);
        lemma_round_div_monotone(n, e * d, d);
    } else {
        assert(e * d <= n <= s * d) by (nonlinear_arith)
            requires n == s * d + (e - s) * step, 0 <= step <= d, e < s;
        lemma_round_div_monotone(e * d, n, d);
        lemma_round_div_monotone(n, s * d, d);
    }
}

/// Nearest integer to `n / d`, halves away from zero.
fn round_div_exec(n: i128, d: i128) -> (r: i128)
    requires
        d > 0,
        -0x1_0000_0000_0000_0000_0000 <= n <= 0x1_0000_0000_0000_0000_0000,
        d <= 0x1_0000_0000_0000_0000_0000,
    ensures
        r == round_div(n as int, d as int),
{
    if n >= 0 {
        (2 * n + d) / (2 * d)
    } else {
        let m: i128 = 0 - n;
        0 - ((2 * m + d) / (2 * d))
    }
}

fn line_point_exec(start: AnnotationPoint, end: AnnotationPoint, step: i64, steps: i64) -> (p: AnnotationPoint)
    requires
        steps == line_steps(start, end),
        0 <= step <= steps,
    ensures
        p == line_point(start, end, step as int, steps as int),
        min_int(start.x as int, end.x as int) <= p.x <= max_int(start.x as int, end.x as int),
        min_int(start.y as int, end.y as int) <= p.y <= max_int(start.y as int, end.y as int),
{
    proof {
        lemma_line_point_between(start, end, step as int);
    }
    let dx: i128 = end.x as i128 - start.x as i128;
    let dy: i128 = end.y as i128 - start.y as i128;
    assert(-0x1_0000_0000 * 0x1_0000_0000 <= dx * (step as i128) <= 0x1_0000_0000 * 0x1_0000_0000) by (nonlinear_arith)
        requires -0x1_0000_0000 <= dx <= 0x1_0000_0000, 0 <= step <= 0x1_0000_0000;
    assert(-0x1_0000_0000 * 0x1_0000_0000 <= dy * (step as i128) <= 0x1_0000_0000 * 0x1_0000_0000) by (nonlinear_arith)
        requires -0x1_0000_0000 <= dy <= 0x1_0000_0000, 0 <= step <= 0x1_0000_0000;
    assert(-0x1_0000_0000 * 0x1_0000_0000 <= (start.x as i128) * (steps as i128) <= 0x1_0000_0000 * 0x1_0000_0000) by (nonlinear_arith)
        requires -0x1_0000_0000 <= start.x <= 0x1_0000_0000, 0 <= steps <= 0x1_0000_0000;
    assert(-0x1_0000_0000 * 0x1_0000_0000 <= (start.y as i128) * (steps as i128) <= 0x1_0000_0000 * 0x1_0000_0000) by (nonlinear_arith)
        requires -0x1_0000_0000 <= start.y <= 0x1_0000_0000, 0 <= steps <= 0x1_0000_0000;
    let nx: i128 = start.x as i128 * steps as i128 + dx * step as i128;
    let ny: i128 = start.y as i128 * steps as i128 + dy * step as i128;
    let x = round_div_exec(nx, steps as i128);
    let y = round_div_exec(ny, steps as i128);
    AnnotationPoint { x: x as i32, y: y as i32 }
}


/// Corners of the rectangle spanned by `start` and `end`: top left, top right,
/// bottom right, bottom left.
pub open spec fn rect_corners(start: AnnotationPoint, end: AnnotationPoint) -> (AnnotationPoint, AnnotationPoint, AnnotationPoint, AnnotationPoint) {
    let left = if start.x <= end.x { start.x } else { end.x };
    let right = if start.x <= end.x { end.x } else { start.x };
    let top = if start.y <= end.y { start.y } else { end.y };
    let bottom = if start.y <= end.y { end.y } else { start.y };
    (
        AnnotationPoint { x: left, y: top },
        AnnotationPoint { x: right, y: top },
        AnnotationPoint { x: right, y: bottom },
        AnnotationPoint { x: left, y: bottom },
    )
}

/// The pixels after drawing the four sides, clockwise from the top left corner.
pub open spec fn rectangle_spec(
    px: Seq<u32>,
    w: int,
    h: int,
    start: AnnotationPoint,
    end: AnnotationPoint,
    color: u32,
    thickness: i32,
) -> Seq<u32> {
    let (tl, tr, br, bl) = rect_corners(start, end);
    let p1 = line_spec(px, w, h, tl, tr, color, thickness);
    let p2 = line_spec(p1, w, h, tr, br, color, thickness);
    let p3 = line_spec(p2, w, h, br, bl, color, thickness);
    line_spec(p3, w, h, bl, tl, color, thickness)
}

/// Drawing discs keeps the number of pixels.
pub proof fn lemma_line_discs_len(px: Seq<u32>, w: int, h: int, start: AnnotationPoint, end: AnnotationPoint, color: u32, thickness: i32, k: nat)
    ensures
        line_discs(px, w, h, start, end, color, thickness, k).len() == px.len(),
    decreases k,
{
    if k > 0 {
        lemma_line_discs_len(px, w, h, start, end, color, thickness, (k - 1) as nat);
    }
}

/// Discs of an opaque color leave a pixel of that color as it is.
pub proof fn lemma_line_discs_keep_color(px: Seq<u32>, w: int, h: int, start: AnnotationPoint, end: AnnotationPoint, color: u32, thickness: i32, k1: nat, k2: nat, i: int)
    requires
        channel(color, 24) == 0xFF,
        k1 <= k2,
        0 <= i < px.len(),
        line_discs(px, w, h, start, end, color, thickness, k1)[i] == color,
    ensures
        line_discs(px, w, h, start, end, color, thickness, k2)[i] == color,
    decreases k2,
{
    if k2 > k1 {
        lemma_line_discs_keep_color(px, w, h, start, end, color, thickness, k1, (k2 - 1) as nat, i);
        lemma_line_discs_len(px, w, h, start, end, color, thickness, (k2 - 1) as nat);
        lemma_alpha_over_extremes(color, color);
    }
}

/// A line of an opaque color leaves a pixel of that color as it is.
pub proof fn lemma_line_keeps_color(px: Seq<u32>, w: int, h: int, start: AnnotationPoint, end: AnnotationPoint, color: u32, thickness: i32, i: int)
    requires
        channel(color, 24) == 0xFF,
        0 <= i < px.len(),
        px[i] == color,
    ensures
        line_spec(px, w, h, start, end, color, thickness)[i] == color,
        line_spec(px, w, h, start, end, color, thickness).len() == px.len(),
{
    lemma_line_discs_keep_color(px, w, h, start, end, color, thickness, 0, (line_steps(start, end) + 1) as nat, i);
    lemma_line_discs_len(px, w, h, start, end, color, thickness, (line_steps(start, end) + 1) as nat);
}

/// A line of an opaque color paints each of its points that lies on the canvas.
pub proof fn lemma_line_paints_point(px: Seq<u32>, w: int, h: int, start: AnnotationPoint, end: AnnotationPoint, color: u32, thickness: i32, j: int)
    requires
        channel(color, 24) == 0xFF,
        w * h <= px.len(),
        0 <= j <= line_steps(start, end),
        0 <= line_point(start, end, j, line_steps(start, end)).x < w,
        0 <= line_point(start, end, j, line_steps(start, end)).y < h,
    ensures
        ({
            let p = line_point(start, end, j, line_steps(start, end));
            line_spec(px, w, h, start, end, color, thickness)[p.y * w + p.x] == color
        }),
{
    let p = line_point(start, end, j, line_steps(start, end));
    let i = p.y * w + p.x;
    lemma_pixel_index(w, h, p.x as int, p.y as int);
    lemma_line_discs_len(px, w, h, start, end, color, thickness, j as nat);
    let before = line_discs(px, w, h, start, end, color, thickness, j as nat);
    lemma_alpha_over_extremes(before[i], color);
    assert(in_disc(col_of(i, w), row_of(i, w), p, disc_radius(line_radius(thickness))));
    assert(line_discs(px, w, h, start, end, color, thickness, (j + 1) as nat)[i] == color);
    lemma_line_discs_keep_color(px, w, h, start, end, color, thickness, (j + 1) as nat, (line_steps(start, end) + 1) as nat, i);
}

/// On a vertical line, the point `|y - start.y|` steps along is (start.x, y), for every
/// y between the ends.
pub proof fn lemma_vertical_line_point(start: AnnotationPoint, end: AnnotationPoint, y: int)
    requires
        start.x == end.x,
        min_int(start.y as int, end.y as int) <= y <= max_int(start.y as int, end.y as int),
    ensures
        0 <= abs_int(y - start.y) <= line_steps(start, end),
        line_point(start, end, abs_int(y - start.y), line_steps(start, end)) == (AnnotationPoint { x: start.x, y: y as i32 }),
{
    let steps = line_steps(start, end);
    let j = abs_int(y - start.y);
    let dy = end.y - start.y;
    assert(steps >= 1);
    assert(start.x * steps + (end.x - start.x) * j == start.x * steps) by (nonlinear_arith)
        requires start.x == end.x;
    lemma_round_div_exact(start.x as int, steps);
    if dy == 0 {
        assert(j == 0);
        assert(start.y * steps + dy * j == (start.y + j) * steps);
        lemma_round_div_exact(start.y + j, steps);
    } else if dy > 0 {
        assert(start.y * steps + dy * j == (start.y + j) * steps) by (nonlinear_arith)
            requires steps == dy;
        lemma_round_div_exact(start.y + j, steps);
    } else {
        assert(start.y * steps + dy * j == (start.y - j) * steps) by (nonlinear_arith)
            requires steps == -dy;
        lemma_round_div_exact(start.y - j, steps);
    }
}

/// On a horizontal line, the point `|x - start.x|` steps along is (x, start.y), for
/// every x between the ends.
pub proof fn lemma_horizontal_line_point(start: AnnotationPoint, end: AnnotationPoint, x: int)
    requires
        start.y == end.y,
        min_int(start.x as int, end.x as int) <= x <= max_int(start.x as int, end.x as int),
    ensures
        0 <= abs_int(x - start.x) <= line_steps(start, end),
        line_point(start, end, abs_int(x - start.x), line_steps(start, end)) == (AnnotationPoint { x: x as i32, y: start.y }),
{
    let steps = line_steps(start, end);
    let j = abs_int(x - start.x);
    let dx = end.x - start.x;
    assert(steps >= 1);
    assert(start.y * steps + (end.y - start.y) * j == start.y * steps) by (nonlinear_arith)
        requires start.y == end.y;
    lemma_round_div_exact(start.y as int, steps);
    if dx == 0 {
        assert(j == 0);
        assert(start.x * steps + dx * j == (start.x + j) * steps);
        lemma_round_div_exact(start.x + j, steps);
    } else if dx > 0 {
        assert(start.x * steps + dx * j == (start.x + j) * steps) by (nonlinear_arith)
            requires steps == dx;
        lemma_round_div_exact(start.x + j, steps);
    } else {
        assert(start.x * steps + dx * j == (start.x - j) * steps) by (nonlinear_arith)
            requires steps == -dx;
        lemma_round_div_exact(start.x - j, steps);
    }
}

/// A rectangle drawn in an opaque color between two corners paints all four of its
/// sides: every pixel on the canvas from the left to the right edge along the top and
/// bottom rows, and from the top to the bottom row along the left and right columns,
/// ends up that color, whatever the canvas held.
pub proof fn lemma_rectangle_paints_every_side(px: Seq<u32>, w: int, h: int, start: AnnotationPoint, end: AnnotationPoint, color: u32, thickness: i32)
    requires
        0 <= w,
        0 <= h,
        w * h <= px.len(),
        channel(color, 24) == 0xFF,
    ensures
        ({
        let left = min_int(start.x as int, end.x as int);
        let right = max_int(start.x as int, end.x as int);
        let top = min_int(start.y as int, end.y as int);
        let bottom = max_int(start.y as int, end.y as int);
        let out = rectangle_spec(px, w, h, start, end, color, thickness);
            &&& forall|y: int| top <= y <= bottom && 0 <= y < h && 0 <= left < w ==> #[trigger] out[y * w + left] == color
            &&& forall|y: int| top <= y <= bottom && 0 <= y < h && 0 <= right < w ==> #[trigger] out[y * w + right] == color
            &&& forall|x: int| left <= x <= right && 0 <= x < w && 0 <= top < h ==> #[trigger] out[top * w + x] == color
            &&& forall|x: int| left <= x <= right && 0 <= x < w && 0 <= bottom < h ==> #[trigger] out[bottom * w + x] == color
        }),
{
    let (tl, tr, br, bl) = rect_corners(start, end);
    let p1 = line_spec(px, w, h, tl, tr, color, thickness);
    let p2 = line_spec(p1, w, h, tr, br, color, thickness);
    let p3 = line_spec(p2, w, h, br, bl, color, thickness);
    let out = line_spec(p3, w, h, bl, tl, color, thickness);
    assert(out == rectangle_spec(px, w, h, start, end, color, thickness));
    lemma_line_discs_len(px, w, h, tl, tr, color, thickness, (line_steps(tl, tr) + 1) as nat);
    lemma_line_discs_len(p1, w, h, tr, br, color, thickness, (line_steps(tr, br) + 1) as nat);
    lemma_line_discs_len(p2, w, h, br, bl, color, thickness, (line_steps(br, bl) + 1) as nat);
    lemma_line_discs_len(p3, w, h, bl, tl, color, thickness, (line_steps(bl, tl) + 1) as nat);
    let left = min_int(start.x as int, end.x as int);
    let right = max_int(start.x as int, end.x as int);
    let top = min_int(start.y as int, end.y as int);
    let bottom = max_int(start.y as int, end.y as int);
    let r = rectangle_spec(px, w, h, start, end, color, thickness);
    assert forall|y: int| top <= y <= bottom && 0 <= y < h && 0 <= left < w implies #[trigger] r[y * w + left] == color by {
        lemma_pixel_index(w, h, left, y);
        lemma_vertical_line_point(bl, tl, y);
        lemma_line_paints_point(p3, w, h, bl, tl, color, thickness, abs_int(y - bl.y));
    }
    assert forall|y: int| top <= y <= bottom && 0 <= y < h && 0 <= right < w implies #[trigger] r[y * w + right] == color by {
        lemma_pixel_index(w, h, right, y);
        lemma_vertical_line_point(tr, br, y);
        lemma_line_paints_point(p1, w, h, tr, br, color, thickness, abs_int(y - tr.y));
        lemma_line_keeps_color(p2, w, h, br, bl, color, thickness, y * w + right);
        lemma_line_keeps_color(p3, w, h, bl, tl, color, thickness, y * w + right);
    }
    assert forall|x: int| left <= x <= right && 0 <= x < w && 0 <= top < h implies #[trigger] r[top * w + x] == color by {
        lemma_pixel_index(w, h, x, top);
        lemma_horizontal_line_point(tl, tr, x);
        lemma_line_paints_point(px, w, h, tl, tr, color, thickness, abs_int(x - tl.x));
        lemma_line_keeps_color(p1, w, h, tr, br, color, thickness, top * w + x);
        lemma_line_keeps_color(p2, w, h, br, bl, color, thickness, top * w + x);
        lemma_line_keeps_color(p3, w, h, bl, tl, color, thickness, top * w + x);
    }
    assert forall|x: int| left <= x <= right && 0 <= x < w && 0 <= bottom < h implies #[trigger] r[bottom * w + x] == color by {
        lemma_pixel_index(w, h, x, bottom);
        lemma_horizontal_line_point(br, bl, x);
        lemma_line_paints_point(p2, w, h, br, bl, color, thickness, abs_int(x - br.x));
        lemma_line_keeps_color(p3, w, h, bl, tl, color, thickness, bottom * w + x);
    }
}

/// The first and last points of a line are its two ends.
pub proof fn lemma_line_point_ends(start: AnnotationPoint, end: AnnotationPoint)
    ensures
        line_point(start, end, 0, line_steps(start, end)) == start,
        line_point(start, end, line_steps(start, end), line_steps(start, end)) == end,
{
    let steps = line_steps(start, end);
    assert(start.x * steps + (end.x - start.x) * 0 == start.x * steps);
    assert(start.y * steps + (end.y - start.y) * 0 == start.y * steps);
    lemma_round_div_exact(start.x as int, steps);
    lemma_round_div_exact(start.y as int, steps);
    assert(start.x * steps + (end.x - start.x) * steps == end.x * steps) by (nonlinear_arith);
    assert(start.y * steps + (end.y - start.y) * steps == end.y * steps) by (nonlinear_arith);
    lemma_round_div_exact(end.x as int, steps);
    lemma_round_div_exact(end.y as int, steps);
}

/// A line drawn in an opaque color paints both of its end pixels that lie on the canvas.
pub proof fn lemma_line_paints_ends(px: Seq<u32>, w: int, h: int, start: AnnotationPoint, end: AnnotationPoint, color: u32, thickness: i32)
    requires
        w * h <= px.len(),
        channel(color, 24) == 0xFF,
    ensures
        0 <= start.x < w && 0 <= start.y < h ==> line_spec(px, w, h, start, end, color, thickness)[start.y * w + start.x] == color,
        0 <= end.x < w && 0 <= end.y < h ==> line_spec(px, w, h, start, end, color, thickness)[end.y * w + end.x] == color,
{
    lemma_line_point_ends(start, end);
    if 0 <= start.x < w && 0 <= start.y < h {
        lemma_line_paints_point(px, w, h, start, end, color, thickness, 0);
    }
    if 0 <= end.x < w && 0 <= end.y < h {
        lemma_line_paints_point(px, w, h, start, end, color, thickness, line_steps(start, end));
    }
}

/// Stroke segments keep the number of pixels, and a pixel of their opaque color.
pub proof fn lemma_stroke_segments_keep_color(px: Seq<u32>, w: int, h: int, points: Seq<AnnotationPoint>, color: u32, thickness: i32, k1: nat, k2: nat, i: int)
    requires
        channel(color, 24) == 0xFF,
        k1 <= k2,
        0 <= i < px.len(),
        stroke_segments(px, w, h, points, color, thickness, k1)[i] == color,
    ensures
        stroke_segments(px, w, h, points, color, thickness, k2)[i] == color,
        stroke_segments(px, w, h, points, color, thickness, k2).len() == px.len(),
    decreases k2,
{
    lemma_stroke_segments_len(px, w, h, points, color, thickness, k2);
    if k2 > k1 {
        lemma_stroke_segments_keep_color(px, w, h, points, color, thickness, k1, (k2 - 1) as nat, i);
        lemma_line_keeps_color(stroke_segments(px, w, h, points, color, thickness, (k2 - 1) as nat), w, h,
            points[k2 - 1], points[k2 as int], color, thickness, i);
    }
}

pub proof fn lemma_stroke_segments_len(px: Seq<u32>, w: int, h: int, points: Seq<AnnotationPoint>, color: u32, thickness: i32, k: nat)
    ensures
        stroke_segments(px, w, h, points, color, thickness, k).len() == px.len(),
    decreases k,
{
    if k > 0 {
        let prev = stroke_segments(px, w, h, points, color, thickness, (k - 1) as nat);
        lemma_stroke_segments_len(px, w, h, points, color, thickness, (k - 1) as nat);
        lemma_line_discs_len(prev, w, h, points[k - 1], points[k as int], color, thickness,
            (line_steps(points[k - 1], points[k as int]) + 1) as nat);
    }
}

/// A stroke drawn in an opaque color paints every one of its points that lies on the
/// canvas.
pub proof fn lemma_stroke_paints_points(px: Seq<u32>, w: int, h: int, points: Seq<AnnotationPoint>, color: u32, width: usize)
    requires
        w * h <= px.len(),
        channel(color, 24) == 0xFF,
    ensures
        forall|k: int| 0 <= k < points.len() && 0 <= points[k].x < w && 0 <= points[k].y < h
            ==> #[trigger] stroke_spec(px, w, h, points, color, width)[points[k].y * w + points[k].x] == color,
{
    let t = stroke_thickness(width);
    let n = points.len();
    assert forall|k: int| 0 <= k < n && 0 <= points[k].x < w && 0 <= points[k].y < h
        implies #[trigger] stroke_spec(px, w, h, points, color, width)[points[k].y * w + points[k].x] == color by {
        let p = points[k];
        let i = p.y * w + p.x;
        lemma_pixel_index(w, h, p.x as int, p.y as int);
        if n == 1 {
            lemma_alpha_over_extremes(px[i], color);
            assert(in_disc(col_of(i, w), row_of(i, w), p, disc_radius(half_toward_zero(t))));
        } else {
            // The segment ending at point k (or starting at it, for the first point) paints it.
            let seg: nat = if k == 0 { 1 } else { k as nat };
            let before = stroke_segments(px, w, h, points, color, t, (seg - 1) as nat);
            lemma_stroke_segments_len(px, w, h, points, color, t, (seg - 1) as nat);
            lemma_line_paints_ends(before, w, h, points[seg - 1], points[seg as int], color, t);
            lemma_stroke_segments_keep_color(px, w, h, points, color, t, seg, (n - 1) as nat, i);
        }
    }
}

/// A disc of an opaque color paints every canvas pixel within its radius (at least 1)
/// of the center, and leaves every pixel farther away as it was.
pub proof fn lemma_disc_paints_its_pixels(px: Seq<u32>, w: int, h: int, center: AnnotationPoint, radius: i32, color: u32, x: int, y: int)
    requires
        w * h <= px.len(),
        0 <= x < w,
        0 <= y < h,
        channel(color, 24) == 0xFF,
    ensures
        ({
            let r = if radius < 1 { 1 } else { radius as int };
            let d2 = (x - center.x) * (x - center.x) + (y - center.y) * (y - center.y);
            &&& d2 <= r * r ==> disc_spec(px, w, h, center, radius, color)[y * w + x] == color
            &&& d2 > r * r ==> disc_spec(px, w, h, center, radius, color)[y * w + x] == px[y * w + x]
        }),
{
    lemma_pixel_index(w, h, x, y);
    lemma_alpha_over_extremes(px[y * w + x], color);
}

/// Discs of an opaque color keep the number of pixels, and a pixel of that color.
pub proof fn lemma_discs_keep_color(px: Seq<u32>, w: int, h: int, points: Seq<AnnotationPoint>, radius: i32, color: u32, k1: nat, k2: nat, i: int)
    requires
        channel(color, 24) == 0xFF,
        k1 <= k2,
        0 <= i < px.len(),
        discs_spec(px, w, h, points, radius, color, k1)[i] == color,
    ensures
        discs_spec(px, w, h, points, radius, color, k2)[i] == color,
        discs_spec(px, w, h, points, radius, color, k2).len() == px.len(),
    decreases k2,
{
    lemma_discs_len(px, w, h, points, radius, color, k2);
    if k2 > k1 {
        lemma_discs_keep_color(px, w, h, points, radius, color, k1, (k2 - 1) as nat, i);
        lemma_alpha_over_extremes(color, color);
    }
}

pub proof fn lemma_discs_len(px: Seq<u32>, w: int, h: int, points: Seq<AnnotationPoint>, radius: i32, color: u32, k: nat)
    ensures
        discs_spec(px, w, h, points, radius, color, k).len() == px.len(),
    decreases k,
{
    if k > 0 {
        lemma_discs_len(px, w, h, points, radius, color, (k - 1) as nat);
    }
}

/// A shape drawn in an opaque color: a line paints both its ends, a rectangle its four
/// corners, and an ellipse every point of its outline, where they lie on the canvas.
pub proof fn lemma_shape_paints(px: Seq<u32>, w: int, h: int, kind: AnnotationShapeKind, start: AnnotationPoint, end: AnnotationPoint, color: u32, width: usize, outline: Seq<AnnotationPoint>)
    requires
        0 <= w,
        0 <= h,
        w * h <= px.len(),
        channel(color, 24) == 0xFF,
    ensures
        ({
            let out = shape_spec(px, w, h, kind, start, end, color, width, outline);
            &&& kind != AnnotationShapeKind::Ellipse ==> (0 <= start.x < w && 0 <= start.y < h ==> out[start.y * w + start.x] == color)
            &&& kind != AnnotationShapeKind::Ellipse ==> (0 <= end.x < w && 0 <= end.y < h ==> out[end.y * w + end.x] == color)
            &&& kind == AnnotationShapeKind::Rectangle ==> (0 <= start.x < w && 0 <= end.y < h ==> out[end.y * w + start.x] == color)
            &&& kind == AnnotationShapeKind::Rectangle ==> (0 <= end.x < w && 0 <= start.y < h ==> out[start.y * w + end.x] == color)
            &&& kind == AnnotationShapeKind::Ellipse ==> forall|k: int| 0 <= k < outline.len() && 0 <= outline[k].x < w && 0 <= outline[k].y < h
                ==> #[trigger] out[outline[k].y * w + outline[k].x] == color
        }),
{
    let t = stroke_thickness(width);
    match kind {
        AnnotationShapeKind::Line => {
            lemma_line_paints_ends(px, w, h, start, end, color, t);
        },
        AnnotationShapeKind::Rectangle => {
            lemma_rectangle_paints_every_side(px, w, h, start, end, color, t);
            let out = rectangle_spec(px, w, h, start, end, color, t);
            let left = min_int(start.x as int, end.x as int);
            let right = max_int(start.x as int, end.x as int);
            if 0 <= start.x < w && 0 <= start.y < h {
                if start.x <= end.x { assert(out[start.y * w + left] == color); } else { assert(out[start.y * w + right] == color); }
            }
            if 0 <= end.x < w && 0 <= end.y < h {
                if start.x <= end.x { assert(out[end.y * w + right] == color); } else { assert(out[end.y * w + left] == color); }
            }
            if 0 <= start.x < w && 0 <= end.y < h {
                if start.x <= end.x { assert(out[end.y * w + left] == color); } else { assert(out[end.y * w + right] == color); }
            }
            if 0 <= end.x < w && 0 <= start.y < h {
                if start.x <= end.x { assert(out[start.y * w + right] == color); } else { assert(out[start.y * w + left] == color); }
            }
        },
        AnnotationShapeKind::Ellipse => {
            let r = line_radius(t);
            let n = outline.len();
            assert forall|k: int| 0 <= k < n && 0 <= outline[k].x < w && 0 <= outline[k].y < h
                implies #[trigger] discs_spec(px, w, h, outline, r, color, n)[outline[k].y * w + outline[k].x] == color by {
                let p = outline[k];
                let i = p.y * w + p.x;
                lemma_pixel_index(w, h, p.x as int, p.y as int);
                lemma_discs_len(px, w, h, outline, r, color, k as nat);
                let before = discs_spec(px, w, h, outline, r, color, k as nat);
                lemma_alpha_over_extremes(before[i], color);
                let dr = disc_radius(r);
                assert(dr * dr >= 0) by (nonlinear_arith);
                assert(col_of(i, w) == p.x && row_of(i, w) == p.y);
                assert(in_disc(col_of(i, w), row_of(i, w), p, dr));
                lemma_discs_keep_color(px, w, h, outline, r, color, (k + 1) as nat, n, i);
            }
        },
    }
}

/// The crosshair cursor puts its accent color on the pointer's pixel.
pub proof fn lemma_crosshair_marks_the_pointer(px: Seq<u32>, w: int, h: int, c: AnnotationPoint)
    requires
        w * h <= px.len(),
        0 <= c.x < w,
        0 <= c.y < h,
    ensures
        crosshair_spec(px, w, h, c)[c.y * w + c.x] == CURSOR_ACCENT,
{
    let left = offset_spec(c, -12, 0);
    let right = offset_spec(c, 12, 0);
    let up = offset_spec(c, 0, -12);
    let down = offset_spec(c, 0, 12);
    let p1 = line_spec(px, w, h, left, right, CURSOR_OUTLINE, 5);
    let p2 = line_spec(p1, w, h, up, down, CURSOR_OUTLINE, 5);
    let p3 = line_spec(p2, w, h, left, right, CURSOR_FILL, 2);
    let p4 = line_spec(p3, w, h, up, down, CURSOR_FILL, 2);
    lemma_line_discs_len(px, w, h, left, right, CURSOR_OUTLINE, 5, (line_steps(left, right) + 1) as nat);
    lemma_line_discs_len(p1, w, h, up, down, CURSOR_OUTLINE, 5, (line_steps(up, down) + 1) as nat);
    lemma_line_discs_len(p2, w, h, left, right, CURSOR_FILL, 2, (line_steps(left, right) + 1) as nat);
    lemma_line_discs_len(p3, w, h, up, down, CURSOR_FILL, 2, (line_steps(up, down) + 1) as nat);
    assert(((0xFFFF_C83Du32 >> 24u32) & 0xFF) == 0xFF) by (bit_vector);
    lemma_disc_paints_its_pixels(p4, w, h, c, 4, CURSOR_ACCENT, c.x as int, c.y as int);
}

pub open spec fn rectangle_fits(start: AnnotationPoint, end: AnnotationPoint, thickness: i32) -> bool {
    let (tl, tr, br, bl) = rect_corners(start, end);
    &&& line_fits(tl, tr, thickness)
    &&& line_fits(tr, br, thickness)
    &&& line_fits(br, bl, thickness)
    &&& line_fits(bl, tl, thickness)
}

/// Pen width of a stroke as a line thickness (at least 1, taken as an `i32`).
pub open spec fn stroke_thickness(width: usize) -> i32 {
    (if width < 1 { 1 } else { width }) as i32
}

/// Half a thickness, rounded toward zero.
pub open spec fn half_toward_zero(t: i32) -> i32 {
    (if t >= 0 { t / 2 } else { -((-t) / 2) }) as i32
}

/// The first `k` segments of a stroke through `points`.
pub open spec fn stroke_segments(
    px: Seq<u32>,
    w: int,
    h: int,
    points: Seq<AnnotationPoint>,
    color: u32,
    thickness: i32,
    k: nat,
) -> Seq<u32>
    decreases k,
{
    if k == 0 {
        px
    } else {
        line_spec(stroke_segments(px, w, h, points, color, thickness, (k - 1) as nat), w, h, points[k - 1], points[k as int], color, thickness)
    }
}

/// The pixels after drawing a stroke: a dot for a single point, a line between each
/// pair of consecutive points otherwise.
pub open spec fn stroke_spec(px: Seq<u32>, w: int, h: int, points: Seq<AnnotationPoint>, color: u32, width: usize) -> Seq<u32> {
    if points.len() == 1 {
        disc_spec(px, w, h, points[0], half_toward_zero(stroke_thickness(width)), color)
    } else if points.len() == 0 {
        px
    } else {
        stroke_segments(px, w, h, points, color, stroke_thickness(width), (points.len() - 1) as nat)
    }
}

pub open spec fn stroke_fits(points: Seq<AnnotationPoint>, width: usize) -> bool {
    &&& points.len() == 1 ==> disc_fits(points[0], half_toward_zero(stroke_thickness(width)))
    &&& forall|i: int| 0 <= i < points.len() - 1 ==> #[trigger] line_fits(points[i], points[i + 1], stroke_thickness(width))
}

/// The first `k` discs centered on `points`.
pub open spec fn discs_spec(px: Seq<u32>, w: int, h: int, points: Seq<AnnotationPoint>, radius: i32, color: u32, k: nat) -> Seq<u32>
    decreases k,
{
    if k == 0 {
        px
    } else {
        disc_spec(discs_spec(px, w, h, points, radius, color, (k - 1) as nat), w, h, points[k - 1], radius, color)
    }
}

pub open spec fn outline_fits(points: Seq<AnnotationPoint>, thickness: i32) -> bool {
    forall|i: int| 0 <= i < points.len() ==> #[trigger] disc_fits(points[i], line_radius(thickness))
}

/// Cursor colors.
pub const CURSOR_OUTLINE: u32 = 0xFF00_0000;
pub const CURSOR_FILL: u32 = 0xFFFF_FFFF;
pub const CURSOR_ACCENT: u32 = 0xFFFF_C83D;

/// The pixels after drawing the crosshair cursor: a black then a white cross of
/// arms 12 long, and an accent dot in the middle.
pub open spec fn crosshair_spec(px: Seq<u32>, w: int, h: int, c: AnnotationPoint) -> Seq<u32> {
    let left = offset_spec(c, -12, 0);
    let right = offset_spec(c, 12, 0);
    let up = offset_spec(c, 0, -12);
    let down = offset_spec(c, 0, 12);
    let p1 = line_spec(px, w, h, left, right, CURSOR_OUTLINE, 5);
    let p2 = line_spec(p1, w, h, up, down, CURSOR_OUTLINE, 5);
    let p3 = line_spec(p2, w, h, left, right, CURSOR_FILL, 2);
    let p4 = line_spec(p3, w, h, up, down, CURSOR_FILL, 2);
    disc_spec(p4, w, h, c, 4, CURSOR_ACCENT)
}

pub open spec fn crosshair_fits(c: AnnotationPoint) -> bool {
    i32::MIN <= c.x - 14 && c.x + 14 <= i32::MAX && i32::MIN <= c.y - 14 && c.y + 14 <= i32::MAX
}

/// Outlined boxes of the hand cursor, from the index finger down to the thumb:
/// offset from the hotspot, width and height.
pub open spec fn hand_box(k: int) -> (i32, i32, usize, usize) {
    if k == 0 {
        (-2i32, 0i32, 5usize, 13usize)
    } else if k == 1 {
        (2i32, 3i32, 4usize, 11usize)
    } else if k == 2 {
        (5i32, 5i32, 4usize, 10usize)
    } else if k == 3 {
        (8i32, 7i32, 4usize, 8usize)
    } else if k == 4 {
        (-2i32, 12i32, 14usize, 10usize)
    } else if k == 5 {
        (-8i32, 12i32, 7usize, 5usize)
    } else {
        (-10i32, 15i32, 8usize, 5usize)
    }
}

/// The first `k` boxes of the hand cursor: each an outline filled with white.
pub open spec fn hand_boxes_spec(px: Seq<u32>, w: int, h: int, c: AnnotationPoint, k: nat) -> Seq<u32>
    decreases k,
{
    if k == 0 {
        px
    } else {
        let before = hand_boxes_spec(px, w, h, c, (k - 1) as nat);
        let (dx, dy, bw, bh) = hand_box(k - 1);
        let x = (c.x + dx) as i32;
        let y = (c.y + dy) as i32;
        let outlined = fill_rect_spec(before, w, h, x, y, bw, bh, CURSOR_OUTLINE);
        fill_rect_spec(outlined, w, h, (x + 1) as i32, (y + 1) as i32, (bw - 2) as usize, (bh - 2) as usize, CURSOR_FILL)
    }
}

/// The pixels after drawing the hand cursor with its hotspot at `c`.
pub open spec fn hand_spec(px: Seq<u32>, w: int, h: int, c: AnnotationPoint) -> Seq<u32> {
    fill_rect_spec(hand_boxes_spec(px, w, h, c, 7), w, h, (c.x + 1) as i32, (c.y + 15) as i32, 6, 3, CURSOR_ACCENT)
}

pub open spec fn hand_fits(c: AnnotationPoint) -> bool {
    i32::MIN <= c.x - 10 && c.x + 14 <= i32::MAX && c.y + 16 <= i32::MAX
}

fn hand_box_exec(k: usize) -> (b: (i32, i32, usize, usize))
    requires
        k < 7,
    ensures
        b == hand_box(k as int),
{
    if k == 0 {
        (-2, 0, 5, 13)
    } else if k == 1 {
        (2, 3, 4, 11)
    } else if k == 2 {
        (5, 5, 4, 10)
    } else if k == 3 {
        (8, 7, 4, 8)
    } else if k == 4 {
        (-2, 12, 14, 10)
    } else if k == 5 {
        (-8, 12, 7, 5)
    } else {
        (-10, 15, 8, 5)
    }
}

/// Height of a glyph in font pixels.
pub const TEXT_GLYPH_HEIGHT: usize = 7;
/// Horizontal distance between two glyphs in font pixels.
pub const TEXT_GLYPH_ADVANCE: usize = 6;

/// Whether column `col` (0 on the left) of glyph row `row` is set.
pub open spec fn glyph_bit(rows: Seq<u8>, row: int, col: int) -> bool {
    rows[row] & (1u8 << ((4 - col) as u32)) != 0
}

/// The first `k` cells (row by row, five per row) of a glyph drawn at (x, y): each set
/// cell is a `scale`-sized square, skipped whole when it starts left of or above the origin.
pub open spec fn glyph_cells_spec(
    px: Seq<u32>,
    w: int,
    h: int,
    x: int,
    y: int,
    rows: Seq<u8>,
    scale: usize,
    color: u32,
    k: nat,
) -> Seq<u32>
    decreases k,
{
    if k == 0 {
        px
    } else {
        let before = glyph_cells_spec(px, w, h, x, y, rows, scale, color, (k - 1) as nat);
        let row = (k - 1) / 5;
        let col = (k - 1) % 5;
        let cell_x = x + col * scale;
        let cell_y = y + row * scale;
        if glyph_bit(rows, row, col) && cell_x >= 0 && cell_y >= 0 {
            fill_rect_spec(before, w, h, cell_x as i32, cell_y as i32, scale, scale, color)
        } else {
            before
        }
    }
}

/// The pixels after drawing a whole glyph.
pub open spec fn glyph_spec(px: Seq<u32>, w: int, h: int, x: int, y: int, rows: Seq<u8>, scale: usize, color: u32) -> Seq<u32> {
    glyph_cells_spec(px, w, h, x, y, rows, scale, color, 35)
}

pub open spec fn hex_digit(d: int) -> char {
    if d < 10 {
        ('0' as int + d) as char
    } else {
        ('A' as int + d - 10) as char
    }
}

pub open spec fn pow16(k: int) -> int
    decreases k,
{
    if k <= 0 { 1 } else { 16 * pow16(k - 1) }
}

/// Number of hex digits shown for a code point: at least four.
pub open spec fn hex_len(n: int) -> int {
    if n < 0x1_0000 {
        4
    } else if n < 0x10_0000 {
        5
    } else {
        6
    }
}

/// The code point of `ch` in upper-case hex, zero-padded to four digits.
pub open spec fn hex_code(ch: char) -> Seq<char> {
    let n = ch as int;
    Seq::new(hex_len(n) as nat, |i: int| hex_digit((n / pow16(hex_len(n) - 1 - i)) % 16))
}

/// What is drawn for a character the font lacks: `U+` and its code point.
pub open spec fn fallback_label(ch: char) -> Seq<char> {
    seq!['U', '+'] + hex_code(ch)
}

/// Drawing characters that stand for themselves (as in a fallback label): each is
/// drawn when the font has it, and the pen moves by one advance.
pub open spec fn plain_label_spec(
    px: Seq<u32>,
    w: int,
    h: int,
    x: int,
    y: int,
    chars: Seq<char>,
    scale: usize,
    color: u32,
) -> (Seq<u32>, int)
    decreases chars.len(),
{
    if chars.len() == 0 {
        (px, x)
    } else {
        let (before, pen) = plain_label_spec(px, w, h, x, y, chars.drop_last(), scale, color);
        match glyph_rows(chars.last()) {
            Some(rows) => (glyph_spec(before, w, h, pen, y, rows, scale, color), pen + 6 * scale),
            None => (before, pen + 6 * scale),
        }
    }
}

/// Drawing one character at pen position `x`: the pixels after it and the next pen position.
/// A space only moves the pen; a character the font lacks is drawn as its `U+` code in hex digits.
pub open spec fn char_spec(px: Seq<u32>, w: int, h: int, x: int, y: int, ch: char, scale: usize, color: u32) -> (Seq<u32>, int) {
    if ch == ' ' {
        (px, x + 6 * scale)
    } else {
        match glyph_rows(ch) {
            Some(rows) => (glyph_spec(px, w, h, x, y, rows, scale, color), x + 6 * scale),
            None => plain_label_spec(px, w, h, x, y, fallback_label(ch), scale, color),
        }
    }
}

/// Drawing a label character by character from pen position `x`.
pub open spec fn label_spec(px: Seq<u32>, w: int, h: int, x: int, y: int, chars: Seq<char>, scale: usize, color: u32) -> (Seq<u32>, int)
    decreases chars.len(),
{
    if chars.len() == 0 {
        (px, x)
    } else {
        let (before, pen) = label_spec(px, w, h, x, y, chars.drop_last(), scale, color);
        char_spec(before, w, h, pen, y, chars.last(), scale, color)
    }
}

/// Pen advances taken by one character.
pub open spec fn char_cells(ch: char) -> int {
    if ch == ' ' || glyph_rows(ch) is Some {
        1
    } else {
        fallback_label(ch).len() as int
    }
}

/// Pen advances taken by a label.
pub open spec fn label_cells(chars: Seq<char>) -> int
    decreases chars.len(),
{
    if chars.len() == 0 {
        0
    } else {
        label_cells(chars.drop_last()) + char_cells(chars.last())
    }
}

/// Drawing the label at (x, y) stays in `i32` arithmetic.
pub open spec fn label_fits(x: int, y: int, chars: Seq<char>, scale: usize) -> bool {
    &&& 6 * scale <= i32::MAX
    &&& i32::MIN <= x
    &&& i32::MIN <= y
    &&& y + 6 * scale <= i32::MAX
    &&& x + 6 * scale * label_cells(chars) <= i32::MAX
}

/// Whether a label of `text` at (x, y) and `scale` can be drawn (see `label_fits`).
pub fn label_fits_check(x: i64, y: i64, text: &str, scale: usize) -> (ok: bool)
    ensures
        ok == label_fits(x as int, y as int, text@, scale),
{
    if scale > 0x1555_5555 || x < i32::MIN as i64 || y < i32::MIN as i64 {
        return false;
    }
    let step: i128 = 6 * scale as i128;
    if y as i128 + step > i32::MAX as i128 {
        return false;
    }
    if scale == 0 {
        return x <= i32::MAX as i64;
    }
    let n = text.unicode_len();
    let mut cells: i128 = 0;
    let mut i: usize = 0;
    while i < n
        invariant
            n == text@.len(),
            i <= n,
            0 <= cells <= 0x1_0000_0000,
            cells == label_cells(text@.take(i as int)),
            step == 6 * scale,
            1 <= scale <= 0x1555_5555,
            i32::MIN <= x,
        decreases n - i,
    {
        let ch = text.get_char(i);
        proof {
            assert(text@.take(i + 1).drop_last() =~= text@.take(i as int));
            assert(text@.take(i + 1).last() == ch);
            lemma_label_cells_bound(seq![ch]);
            reveal_with_fuel(label_cells, 2);
        }
        let add: i128 = if ch == ' ' || lookup_glyph(ch).is_some() {
            1
        } else {
            fallback_chars(ch).len() as i128
        };
        cells = cells + add;
        i = i + 1;
        assert(0 <= step * cells <= 0x8000_0000 * 0x1_0000_0008) by (nonlinear_arith)
            requires 6 <= step <= 0x8000_0000, 0 <= cells <= 0x1_0000_0008;
        if x as i128 + step * cells > i32::MAX as i128 {
            proof {
                lemma_label_cells_prefix(text@, i as int);
                assert(step * cells <= step * label_cells(text@)) by (nonlinear_arith)
                    requires 0 <= step, cells <= label_cells(text@);
            }
            return false;
        }
        assert(cells <= 0x1_0000_0000) by (nonlinear_arith)
            requires step * cells <= 0x1_0000_0000, 6 <= step, 0 <= cells;
    }
    proof {
        assert(text@.take(n as int) =~= text@);
    }
    assert(0 <= step * cells <= 0x8000_0000 * 0x1_0000_0000) by (nonlinear_arith)
        requires 6 <= step <= 0x8000_0000, 0 <= cells <= 0x1_0000_0000;
    x as i128 + step * cells <= i32::MAX as i128
}

/// A plain label moves the pen by one advance per character.
pub proof fn lemma_plain_label_pen(px: Seq<u32>, w: int, h: int, x: int, y: int, chars: Seq<char>, scale: usize, color: u32)
    ensures
        plain_label_spec(px, w, h, x, y, chars, scale, color).1 == x + 6 * scale * chars.len(),
    decreases chars.len(),
{
    if chars.len() > 0 {
        lemma_plain_label_pen(px, w, h, x, y, chars.drop_last(), scale, color);
        assert(6 * scale * (chars.len() - 1) + 6 * scale == 6 * scale * chars.len()) by (nonlinear_arith);
    }
}

/// One character moves the pen by its number of cells.
pub proof fn lemma_char_pen(px: Seq<u32>, w: int, h: int, x: int, y: int, ch: char, scale: usize, color: u32)
    ensures
        char_spec(px, w, h, x, y, ch, scale, color).1 == x + 6 * scale * char_cells(ch),
        label_cells(seq![ch]) == char_cells(ch),
{
    reveal_with_fuel(label_cells, 2);
    assert(seq![ch].drop_last() =~= Seq::<char>::empty());
    if ch != ' ' && glyph_rows(ch) is None {
        lemma_plain_label_pen(px, w, h, x, y, fallback_label(ch), scale, color);
        assert(char_cells(ch) == fallback_label(ch).len());
    } else {
        assert(char_cells(ch) == 1);
        assert(6 * scale * 1 == 6 * scale) by (nonlinear_arith);
    }
}

/// A label's first characters take no more pen advances than the whole label.
pub proof fn lemma_label_cells_prefix(chars: Seq<char>, i: int)
    requires
        0 <= i <= chars.len(),
    ensures
        0 <= label_cells(chars.take(i)) <= label_cells(chars),
    decreases chars.len(),
{
    if chars.len() > 0 {
        if i == chars.len() {
            assert(chars.take(i) =~= chars);
            lemma_label_cells_prefix(chars.drop_last(), i - 1);
            assert(chars.drop_last().take(i - 1) =~= chars.drop_last());
        } else {
            lemma_label_cells_prefix(chars.drop_last(), i);
            assert(chars.drop_last().take(i) =~= chars.take(i));
        }
    }
}

fn pow16_exec(k: usize) -> (p: u32)
    requires
        k < 6,
    ensures
        p == pow16(k as int),
        p >= 1,
{
    proof {
        reveal_with_fuel(pow16, 7);
    }
    if k == 0 {
        1
    } else if k == 1 {
        16
    } else if k == 2 {
        0x100
    } else if k == 3 {
        0x1000
    } else if k == 4 {
        0x1_0000
    } else {
        0x10_0000
    }
}

fn hex_digit_exec(d: u32) -> (c: char)
    requires
        d < 16,
    ensures
        c == hex_digit(d as int),
{
    if d < 10 {
        ((0x30 + d) as u8) as char
    } else {
        ((0x41 + d - 10) as u8) as char
    }
}

/// The characters drawn for a character the font lacks.
fn fallback_chars(ch: char) -> (chars: Vec<char>)
    ensures
        chars@ == fallback_label(ch),
{
    let n = ch as u32;
    let len: usize = if n < 0x1_0000 { 4 } else if n < 0x10_0000 { 5 } else { 6 };
    let mut chars: Vec<char> = Vec::new();
    chars.push('U');
    chars.push('+');
    let ghost digits = hex_code(ch);
    let mut i: usize = 0;
    while i < len
        invariant
            n == ch as int,
            len == hex_len(n as int),
            digits == hex_code(ch),
            digits.len() == len,
            i <= len,
            chars@ == seq!['U', '+'] + digits.take(i as int),
        decreases len - i,
    {
        let p = pow16_exec(len - 1 - i);
        let digit = hex_digit_exec((n / p) % 16);
        chars.push(digit);
        i = i + 1;
        assert(chars@ =~= seq!['U', '+'] + digits.take(i as int));
    }
    assert(digits.take(len as int) =~= digits);
    chars
}

/// Color of the cursor shown in an empty text entry.
pub const TEXT_CURSOR: u32 = 0xFFFF_C83D;
/// Color of the drop shadow under text annotations.
pub const TEXT_SHADOW: u32 = 0xC000_0000;

/// Scale a text annotation is drawn at: at least 1.
pub open spec fn text_scale(scale: usize) -> usize {
    if scale < 1 { 1 } else { scale }
}

/// The pixels after drawing a text annotation: an empty one shows a cursor bar at its
/// position (clamped to the origin), other text is drawn over its shadow.
pub open spec fn text_annotation_spec(px: Seq<u32>, w: int, h: int, position: AnnotationPoint, text: Seq<char>, color: u32, scale: usize) -> Seq<u32> {
    let sc = text_scale(scale);
    if text.len() == 0 {
        fill_rect_spec(
            px,
            w,
            h,
            if position.x < 0 { 0i32 } else { position.x },
            if position.y < 0 { 0i32 } else { position.y },
            2,
            (7 * sc) as usize,
            TEXT_CURSOR,
        )
    } else {
        let shadow = label_spec(px, w, h, position.x + 2, position.y + 2, text, sc, TEXT_SHADOW).0;
        label_spec(shadow, w, h, position.x as int, position.y as int, text, sc, color).0
    }
}

pub open spec fn text_annotation_fits(position: AnnotationPoint, text: Seq<char>, scale: usize) -> bool {
    let sc = text_scale(scale);
    &&& 7 * sc <= usize::MAX
    &&& text.len() > 0 ==> {
        &&& position.x + 2 <= i32::MAX
        &&& position.y + 2 <= i32::MAX
        &&& label_fits(position.x + 2, position.y + 2, text, sc)
    }
}

/// Background, border and divider colors of the rounded cards.
pub const CARD_BACKGROUND: u32 = 0xEB13_1316;
pub const CARD_BORDER: u32 = 0x2CFF_FFFF;
pub const CARD_DIVIDER: u32 = 0x1AFF_FFFF;

/// Offset of coordinate `v` from the card's inner rectangle, whose edges lie 12
/// pixels (the corner radius) inside a card `size` long.
pub open spec fn card_offset(v: int, size: int) -> int {
    if v < 12 {
        v - 12
    } else if v > size - 13 {
        v - (size - 13)
    } else {
        0
    }
}

/// Squared distance of (x, y) from the card's inner rectangle.
pub open spec fn card_distance_sq(x: int, y: int, w: int, h: int) -> int {
    card_offset(x, w) * card_offset(x, w) + card_offset(y, h) * card_offset(y, h)
}

/// Alpha of the one-pixel border ring at squared distance `s` (11.5 from the inner
/// rectangle at its brightest), sampled from the ring's distance profile.
pub open spec fn border_alpha(s: int) -> u32 {
    if s == 111 {
        1
    } else if s == 112 {
        3
    } else if s == 113 {
        5
    } else if s == 114 {
        7
    } else if s == 115 {
        9
    } else if s == 116 {
        11
    } else if s == 117 {
        13
    } else if s == 118 {
        15
    } else if s == 119 {
        17
    } else if s == 120 {
        19
    } else if s == 121 {
        22
    } else if s == 122 {
        23
    } else if s == 123 {
        25
    } else if s == 124 {
        27
    } else if s == 125 {
        29
    } else if s == 126 {
        31
    } else if s == 127 {
        33
    } else if s == 128 {
        35
    } else if s == 129 {
        37
    } else if s == 130 {
        39
    } else if s == 131 {
        41
    } else if s == 132 {
        43
    } else if s == 133 {
        42
    } else if s == 134 {
        40
    } else if s == 135 {
        38
    } else if s == 136 {
        36
    } else if s == 137 {
        34
    } else if s == 138 {
        33
    } else if s == 139 {
        31
    } else if s == 140 {
        29
    } else if s == 141 {
        27
    } else if s == 142 {
        25
    } else if s == 143 {
        23
    } else if s == 144 {
        22
    } else if s == 145 {
        20
    } else if s == 146 {
        18
    } else if s == 147 {
        16
    } else if s == 148 {
        14
    } else if s == 149 {
        12
    } else if s == 150 {
        11
    } else if s == 151 {
        9
    } else if s == 152 {
        7
    } else if s == 153 {
        5
    } else if s == 154 {
        3
    } else if s == 155 {
        2
    } else if s == 156 {
        0
    } else {
        0
    }
}

/// Share of a pixel at squared distance `s` covered by the card, out of 2^20:
/// full inside, falling off over the last pixel of the rounded edge.
pub open spec fn edge_coverage(s: int) -> u32 {
    if s == 133 {
        1014432
    } else if s == 134 {
        969055
    } else if s == 135 {
        923848
    } else if s == 136 {
        878808
    } else if s == 137 {
        833933
    } else if s == 138 {
        789221
    } else if s == 139 {
        744671
    } else if s == 140 {
        700281
    } else if s == 141 {
        656050
    } else if s == 142 {
        611975
    } else if s == 143 {
        568055
    } else if s == 144 {
        524288
    } else if s == 145 {
        480673
    } else if s == 146 {
        437208
    } else if s == 147 {
        393892
    } else if s == 148 {
        350722
    } else if s == 149 {
        307699
    } else if s == 150 {
        264819
    } else if s == 151 {
        222082
    } else if s == 152 {
        179487
    } else if s == 153 {
        137031
    } else if s == 154 {
        94714
    } else if s == 155 {
        52534
    } else if s == 156 {
        10490
    } else {
        0x10_0000
    }
}

/// Color of the rounded card at (x, y) for a card of the given size, or `None` outside
/// its corners. `accent` tints the top three rows.
pub open spec fn card_pixel_spec(x: int, y: int, w: int, h: int, accent: Option<u32>) -> Option<u32> {
    let s = card_distance_sq(x, y, w, h);
    if s > 156 {
        None
    } else {
        let base = if s >= 111 {
            alpha_over_spec(CARD_BACKGROUND, 0x00FF_FFFF | (border_alpha(s) << 24u32))
        } else {
            CARD_BACKGROUND
        };
        let color = match accent {
            Some(a) => if y < 3 { alpha_over_spec(base, a) } else { base },
            None => base,
        };
        let final_a = ((channel(color, 24) * edge_coverage(s)) / 0x10_0000) as u32;
        Some((color & 0x00FF_FFFF) | (final_a << 24u32))
    }
}

/// A card can be drawn `w` by `h`: its corners fit and coordinates stay exact.
pub open spec fn card_size_ok(w: int, h: int) -> bool {
    25 <= w <= 0x100_0000 && 25 <= h <= 0x100_0000
}

/// The pixels after painting the whole drawing area with a card (transparent outside
/// its corners).
pub open spec fn paint_card_spec(px: Seq<u32>, w: int, h: int, accent: Option<u32>) -> Seq<u32> {
    Seq::new(
        px.len(),
        |i: int|
            if 0 <= i < w * h {
                match card_pixel_spec(col_of(i, w), row_of(i, w), w, h, accent) {
                    Some(c) => c,
                    None => 0,
                }
            } else {
                px[i]
            },
    )
}

/// The pixels after blending a `cw` by `ch` card at (cx, cy).
pub open spec fn blend_card_spec(px: Seq<u32>, w: int, h: int, cx: int, cy: int, cw: int, ch: int) -> Seq<u32> {
    Seq::new(
        px.len(),
        |i: int|
            if 0 <= i < w * h && cx <= col_of(i, w) < cx + cw && cy <= row_of(i, w) < cy + ch {
                match card_pixel_spec(col_of(i, w) - cx, row_of(i, w) - cy, cw, ch, None) {
                    Some(c) => alpha_over_spec(px[i], c),
                    None => px[i],
                }
            } else {
                px[i]
            },
    )
}

/// The pixels after drawing a divider line one pixel high at row `y`, 18 pixels in from both sides.
pub open spec fn divider_spec(px: Seq<u32>, w: int, h: int, y: i32) -> Seq<u32> {
    blend_rect_spec(px, w, h, 18, y, (if w >= 18 { w - 18 } else { 0 }) as i32, (y + 1) as i32, CARD_DIVIDER)
}

fn border_alpha_exec(s: u32) -> (a: u32)
    ensures
        a == border_alpha(s as int),
{
    if s == 111 {
        1
    } else if s == 112 {
        3
    } else if s == 113 {
        5
    } else if s == 114 {
        7
    } else if s == 115 {
        9
    } else if s == 116 {
        11
    } else if s == 117 {
        13
    } else if s == 118 {
        15
    } else if s == 119 {
        17
    } else if s == 120 {
        19
    } else if s == 121 {
        22
    } else if s == 122 {
        23
    } else if s == 123 {
        25
    } else if s == 124 {
        27
    } else if s == 125 {
        29
    } else if s == 126 {
        31
    } else if s == 127 {
        33
    } else if s == 128 {
        35
    } else if s == 129 {
        37
    } else if s == 130 {
        39
    } else if s == 131 {
        41
    } else if s == 132 {
        43
    } else if s == 133 {
        42
    } else if s == 134 {
        40
    } else if s == 135 {
        38
    } else if s == 136 {
        36
    } else if s == 137 {
        34
    } else if s == 138 {
        33
    } else if s == 139 {
        31
    } else if s == 140 {
        29
    } else if s == 141 {
        27
    } else if s == 142 {
        25
    } else if s == 143 {
        23
    } else if s == 144 {
        22
    } else if s == 145 {
        20
    } else if s == 146 {
        18
    } else if s == 147 {
        16
    } else if s == 148 {
        14
    } else if s == 149 {
        12
    } else if s == 150 {
        11
    } else if s == 151 {
        9
    } else if s == 152 {
        7
    } else if s == 153 {
        5
    } else if s == 154 {
        3
    } else if s == 155 {
        2
    } else if s == 156 {
        0
    } else {
        0
    }
}

fn edge_coverage_exec(s: u32) -> (c: u32)
    ensures
        c == edge_coverage(s as int),
{
    if s == 133 {
        1014432
    } else if s == 134 {
        969055
    } else if s == 135 {
        923848
    } else if s == 136 {
        878808
    } else if s == 137 {
        833933
    } else if s == 138 {
        789221
    } else if s == 139 {
        744671
    } else if s == 140 {
        700281
    } else if s == 141 {
        656050
    } else if s == 142 {
        611975
    } else if s == 143 {
        568055
    } else if s == 144 {
        524288
    } else if s == 145 {
        480673
    } else if s == 146 {
        437208
    } else if s == 147 {
        393892
    } else if s == 148 {
        350722
    } else if s == 149 {
        307699
    } else if s == 150 {
        264819
    } else if s == 151 {
        222082
    } else if s == 152 {
        179487
    } else if s == 153 {
        137031
    } else if s == 154 {
        94714
    } else if s == 155 {
        52534
    } else if s == 156 {
        10490
    } else {
        0x10_0000
    }
}

fn card_offset_exec(v: usize, size: usize) -> (o: i64)
    requires
        25 <= size <= 0x100_0000,
        v <= 0x100_0000,
    ensures
        o == card_offset(v as int, size as int),
{
    if v < 12 {
        v as i64 - 12
    } else if v > size - 13 {
        (v - (size - 13)) as i64
    } else {
        0
    }
}

/// Color of the rounded card at (x, y) for a card of the given size, or `None` outside
/// its corners. `accent` tints the top three rows.
pub fn card_pixel(x: usize, y: usize, width: usize, height: usize, accent: Option<u32>) -> (pixel: Option<u32>)
    requires
        card_size_ok(width as int, height as int),
        x <= 0x100_0000,
        y <= 0x100_0000,
    ensures
        pixel == card_pixel_spec(x as int, y as int, width as int, height as int, accent),
{
    let ox = card_offset_exec(x, width);
    let oy = card_offset_exec(y, height);
    assert(0 <= ox * ox <= 0x100_0000 * 0x100_0000) by (nonlinear_arith)
        requires -0x100_0000 <= ox <= 0x100_0000;
    assert(0 <= oy * oy <= 0x100_0000 * 0x100_0000) by (nonlinear_arith)
        requires -0x100_0000 <= oy <= 0x100_0000;
    let s = ox * ox + oy * oy;
    if s > 156 {
        return None;
    }
    let s = s as u32;
    let base = if s >= 111 {
        alpha_over(CARD_BACKGROUND, 0x00FF_FFFF | (border_alpha_exec(s) << 24))
    } else {
        CARD_BACKGROUND
    };
    let color = match accent {
        Some(a) => if y < 3 { alpha_over(base, a) } else { base },
        None => base,
    };
    let alpha = (color >> 24) & 0xFF;
    let coverage = edge_coverage_exec(s);
    proof {
        lemma_channel_bound(color, 24);
    }
    assert(coverage <= 0x10_0000);
    assert(alpha as u64 * coverage as u64 <= 0xFF * 0x10_0000) by (nonlinear_arith)
        requires alpha <= 0xFF, coverage <= 0x10_0000;
    let final_a = ((alpha as u64 * coverage as u64) / 0x10_0000) as u32;
    Some((color & 0x00FF_FFFF) | (final_a << 24))
}

/// A character takes at most eight pen advances (`U+` and six hex digits).
pub proof fn lemma_label_cells_bound(chars: Seq<char>)
    ensures
        0 <= label_cells(chars) <= 8 * chars.len(),
    decreases chars.len(),
{
    if chars.len() > 0 {
        lemma_label_cells_bound(chars.drop_last());
    }
}

/// The pixels after drawing a shape; an ellipse is drawn along `outline`.
pub open spec fn shape_spec(
    px: Seq<u32>,
    w: int,
    h: int,
    kind: AnnotationShapeKind,
    start: AnnotationPoint,
    end: AnnotationPoint,
    color: u32,
    width: usize,
    outline: Seq<AnnotationPoint>,
) -> Seq<u32> {
    let thickness = stroke_thickness(width);
    match kind {
        AnnotationShapeKind::Line => line_spec(px, w, h, start, end, color, thickness),
        AnnotationShapeKind::Rectangle => rectangle_spec(px, w, h, start, end, color, thickness),
        AnnotationShapeKind::Ellipse => discs_spec(px, w, h, outline, line_radius(thickness), color, outline.len()),
    }
}

pub open spec fn shape_fits(kind: AnnotationShapeKind, start: AnnotationPoint, end: AnnotationPoint, width: usize, outline: Seq<AnnotationPoint>) -> bool {
    let thickness = stroke_thickness(width);
    match kind {
        AnnotationShapeKind::Line => line_fits(start, end, thickness),
        AnnotationShapeKind::Rectangle => rectangle_fits(start, end, thickness),
        AnnotationShapeKind::Ellipse => outline_fits(outline, thickness),
    }
}

impl Canvas {
    /// The pixel words cover the drawing area, whose sides fit in `i32`.
    pub open spec fn wf(&self) -> bool {
        &&& self.width * self.height <= self.pixels@.len()
        &&& self.width <= i32::MAX
        &&& self.height <= i32::MAX
    }

    /// A canvas of `len` pixels of `color` whose drawing area is `width` by `height`.
    pub fn filled(len: usize, width: usize, height: usize, color: u32) -> (canvas: Self)
        requires
            width * height <= len,
            width <= i32::MAX,
            height <= i32::MAX,
        ensures
            canvas.wf(),
            canvas.width == width,
            canvas.height == height,
            canvas.pixels@ == Seq::new(len as nat, |i: int| color),
    {
        let mut pixels: Vec<u32> = Vec::with_capacity(len);
        let mut i: usize = 0;
        while i < len
            invariant
                i <= len,
                pixels@ == Seq::new(i as nat, |k: int| color),
            decreases len - i,
        {
            pixels.push(color);
            i = i + 1;
            assert(pixels@ =~= Seq::new(i as nat, |k: int| color));
        }
        Canvas { pixels, width, height }
    }

    /// A transparent canvas of exactly `width * height` pixels.
    pub fn new(width: usize, height: usize) -> (canvas: Self)
        requires
            width * height <= usize::MAX,
            width <= i32::MAX,
            height <= i32::MAX,
        ensures
            canvas.wf(),
            canvas.width == width,
            canvas.height == height,
            canvas.pixels@ == Seq::new((width * height) as nat, |i: int| 0u32),
    {
        Self::filled(width * height, width, height, 0)
    }

    /// Blends `color` into pixel (x, y) when it lies in the drawing area.
    pub fn blend_pixel(&mut self, x: i32, y: i32, color: u32)
        requires
            old(self).wf(),
        ensures
            final(self).wf(),
            final(self).width == old(self).width,
            final(self).height == old(self).height,
            final(self).pixels@.len() == old(self).pixels@.len(),
            final(self).pixels@ == blend_pixel_spec(old(self).pixels@, old(self).width as int, old(self).height as int, x as int, y as int, color),
    {
        if x < 0 || y < 0 || x as usize >= self.width || y as usize >= self.height {
            return;
        }
        proof {
            lemma_pixel_index(self.width as int, self.height as int, x as int, y as int);
        }
        let len = self.pixels.len();
        assert((y as usize) * self.width + (x as usize) < len);
        let index = y as usize * self.width + x as usize;
        let blended = alpha_over(self.pixels[index], color);
        self.pixels.set(index, blended);
    }
    /// Fills the rectangle at (x, y), clipped to the drawing area, with `color`.
    pub fn fill_rect(&mut self, x: i32, y: i32, rect_width: usize, rect_height: usize, color: u32)
        requires
            old(self).wf(),
            fill_rect_fits(x, y, rect_width, rect_height, old(self).width as int, old(self).height as int),
        ensures
            final(self).wf(),
            final(self).width == old(self).width,
            final(self).height == old(self).height,
            final(self).pixels@.len() == old(self).pixels@.len(),
            final(self).pixels@ == fill_rect_spec(old(self).pixels@, old(self).width as int, old(self).height as int, x, y, rect_width, rect_height, color),
    {
        let c0 = clip_start(x, self.width);
        let c1 = clip_end(x, rect_width, self.width);
        let r0 = clip_start(y, self.height);
        let r1 = clip_end(y, rect_height, self.height);
        let ghost old_px = self.pixels@;
        let ghost w = self.width as int;
        let ghost h = self.height as int;
        let mut row = r0;
        while row < r1
            invariant
                self.wf(),
                self.width == w,
                self.height == h,
                self.pixels@.len() == old_px.len(),
                r0 <= row,
                row <= r1 || row == r0,
                r1 > r0 ==> c0 <= c1,
                c1 <= w,
                r1 <= h,
                forall|i: int| 0 <= i < old_px.len() ==> #[trigger] self.pixels@[i] == if in_area_rect(i, w, h, c0 as int, c1 as int, r0 as int, row as int) {
                    color
                } else {
                    old_px[i]
                },
            decreases r1 - row,
        {
            let mut col = c0;
            while col < c1
                invariant
                    self.wf(),
                    self.width == w,
                    self.height == h,
                    self.pixels@.len() == old_px.len(),
                    r0 <= row < r1,
                    c0 <= col <= c1,
                    c1 <= w,
                    r1 <= h,
                    forall|i: int| 0 <= i < old_px.len() ==> #[trigger] self.pixels@[i] == if in_area_rect(i, w, h, c0 as int, c1 as int, r0 as int, row as int)
                        || in_area_rect(i, w, h, c0 as int, col as int, row as int, row + 1) {
                        color
                    } else {
                        old_px[i]
                    },
                decreases c1 - col,
            {
                proof {
                    lemma_pixel_index(w, h, col as int, row as int);
                }
                let len = self.pixels.len();
                assert(row * self.width + col < len);
                let index = row * self.width + col;
                self.pixels.set(index, color);
                proof {
                    assert forall|i: int| 0 <= i < old_px.len() implies #[trigger] self.pixels@[i] == if in_area_rect(i, w, h, c0 as int, c1 as int, r0 as int, row as int)
                        || in_area_rect(i, w, h, c0 as int, col + 1, row as int, row + 1) {
                        color
                    } else {
                        old_px[i]
                    } by {
                        if 0 <= i < w * h {
                            lemma_pixel_coords(w, h, i);
                        }
                    }
                }
                col = col + 1;
            }
            row = row + 1;
        }
        proof {
            assert(self.pixels@ =~= fill_rect_spec(old_px, w, h, x, y, rect_width, rect_height, color));
        }
    }

    /// Blends `color` into every pixel of the rectangle between the two corners,
    /// clipped to the drawing area.
    pub fn blend_rect(&mut self, x0: i32, y0: i32, x1: i32, y1: i32, color: u32)
        requires
            old(self).wf(),
            blend_rect_fits(x0, y0, x1, y1, old(self).width as int, old(self).height as int),
        ensures
            final(self).wf(),
            final(self).width == old(self).width,
            final(self).height == old(self).height,
            final(self).pixels@.len() == old(self).pixels@.len(),
            final(self).pixels@ == blend_rect_spec(old(self).pixels@, old(self).width as int, old(self).height as int, x0, y0, x1, y1, color),
    {
        let ghost old_px = self.pixels@;
        let ghost w = self.width as int;
        let ghost h = self.height as int;
        let left_i: i32 = if x0 <= x1 { x0 } else { x1 };
        let left: usize = if left_i < 0 { 0 } else { left_i as usize };
        let top_i: i32 = if y0 <= y1 { y0 } else { y1 };
        let top: usize = if top_i < 0 { 0 } else { top_i as usize };
        let right_i: i32 = if x0 <= x1 { x1 } else { x0 };
        let bottom_i: i32 = if y0 <= y1 { y1 } else { y0 };
        let bottom: usize = if bottom_i as usize >= self.height { self.height } else { bottom_i as usize };
        if top >= bottom {
            proof {
                assert(self.pixels@ =~= blend_rect_spec(old_px, w, h, x0, y0, x1, y1, color));
            }
            return;
        }
        let right: usize = if right_i as usize >= self.width { self.width } else { right_i as usize };
        assert(right as int == blend_right(x0, x1, w));
        assert(bottom as int == blend_right(y0, y1, h));
        let mut row = top;
        while row < bottom
            invariant
                self.wf(),
                self.width == w,
                self.height == h,
                self.pixels@.len() == old_px.len(),
                top <= row <= bottom,
                bottom <= h,
                right <= w,
                forall|i: int| 0 <= i < old_px.len() ==> #[trigger] self.pixels@[i] == if in_area_rect(i, w, h, left as int, right as int, top as int, row as int) {
                    alpha_over_spec(old_px[i], color)
                } else {
                    old_px[i]
                },
            decreases bottom - row,
        {
            let mut col = left;
            while col < right
                invariant
                    self.wf(),
                    self.width == w,
                    self.height == h,
                    self.pixels@.len() == old_px.len(),
                    top <= row < bottom,
                    left <= col,
                    col <= right || col == left,
                    bottom <= h,
                    right <= w,
                    forall|i: int| 0 <= i < old_px.len() ==> #[trigger] self.pixels@[i] == if in_area_rect(i, w, h, left as int, right as int, top as int, row as int)
                        || in_area_rect(i, w, h, left as int, col as int, row as int, row + 1) {
                        alpha_over_spec(old_px[i], color)
                    } else {
                        old_px[i]
                    },
                decreases right - col,
            {
                proof {
                    lemma_pixel_index(w, h, col as int, row as int);
                }
                let len = self.pixels.len();
                assert(row * self.width + col < len);
                let index = row * self.width + col;
                let blended = alpha_over(self.pixels[index], color);
                self.pixels.set(index, blended);
                proof {
                    assert forall|i: int| 0 <= i < old_px.len() implies #[trigger] self.pixels@[i] == if in_area_rect(i, w, h, left as int, right as int, top as int, row as int)
                        || in_area_rect(i, w, h, left as int, col + 1, row as int, row + 1) {
                        alpha_over_spec(old_px[i], color)
                    } else {
                        old_px[i]
                    } by {
                        if 0 <= i < w * h {
                            lemma_pixel_coords(w, h, i);
                        }
                    }
                }
                col = col + 1;
            }
            row = row + 1;
        }
        proof {
            assert(self.pixels@ =~= blend_rect_spec(old_px, w, h, x0, y0, x1, y1, color));
        }
    }

    /// Blends `color` into every pixel of the drawing area within `radius` (at least 1)
    /// of `center`.
    pub fn draw_disc(&mut self, center: AnnotationPoint, radius: i32, color: u32)
        requires
            old(self).wf(),
            disc_fits(center, radius),
        ensures
            final(self).wf(),
            final(self).width == old(self).width,
            final(self).height == old(self).height,
            final(self).pixels@.len() == old(self).pixels@.len(),
            final(self).pixels@ == disc_spec(old(self).pixels@, old(self).width as int, old(self).height as int, center, radius, color),
    {
        let ghost old_px = self.pixels@;
        let ghost w = self.width as int;
        let ghost h = self.height as int;
        let r: i32 = if radius < 1 { 1 } else { radius };
        assert((r as i64) * (r as i64) <= 32767 * 32767) by (nonlinear_arith)
            requires 1 <= r <= 32767;
        let r_sq: i64 = r as i64 * r as i64;
        let cx: i64 = center.x as i64;
        let cy: i64 = center.y as i64;
        let y_end: i64 = cy + r as i64;
        let x_end: i64 = cx + r as i64;
        let mut y: i64 = cy - r as i64;
        proof {
            assert forall|i: int| 0 <= i < old_px.len() implies #[trigger] self.pixels@[i] == if 0 <= i < w * h && in_disc(col_of(i, w), row_of(i, w), center, r as int)
                && row_of(i, w) < y {
                alpha_over_spec(old_px[i], color)
            } else {
                old_px[i]
            } by {
                if 0 <= i < w * h && in_disc(col_of(i, w), row_of(i, w), center, r as int) {
                    lemma_disc_bounds(col_of(i, w), row_of(i, w), center, r as int);
                }
            }
        }
        while y <= y_end
            invariant
                self.wf(),
                self.width == w,
                self.height == h,
                self.pixels@.len() == old_px.len(),
                r == disc_radius(radius),
                1 <= r <= 32767,
                r_sq == r * r,
                cx == center.x,
                cy == center.y,
                y_end == cy + r,
                x_end == cx + r,
                x_end <= i32::MAX,
                i32::MIN <= cx - r,
                i32::MIN <= cy - r,
                cy - r <= y <= y_end + 1,
                y_end <= i32::MAX,
                forall|i: int| 0 <= i < old_px.len() ==> #[trigger] self.pixels@[i] == if 0 <= i < w * h && in_disc(col_of(i, w), row_of(i, w), center, r as int)
                    && row_of(i, w) < y {
                    alpha_over_spec(old_px[i], color)
                } else {
                    old_px[i]
                },
            decreases y_end + 1 - y,
        {
            let mut x: i64 = cx - r as i64;
            proof {
                assert forall|i: int| 0 <= i < old_px.len() implies #[trigger] self.pixels@[i] == if 0 <= i < w * h && in_disc(col_of(i, w), row_of(i, w), center, r as int)
                    && (row_of(i, w) < y || (row_of(i, w) == y && col_of(i, w) < x)) {
                    alpha_over_spec(old_px[i], color)
                } else {
                    old_px[i]
                } by {
                    if 0 <= i < w * h && in_disc(col_of(i, w), row_of(i, w), center, r as int) {
                        lemma_disc_bounds(col_of(i, w), row_of(i, w), center, r as int);
                    }
                }
            }
            while x <= x_end
                invariant
                    self.wf(),
                    self.width == w,
                    self.height == h,
                    self.pixels@.len() == old_px.len(),
                    r == disc_radius(radius),
                    1 <= r <= 32767,
                    r_sq == r * r,
                    cx == center.x,
                    cy == center.y,
                    y_end == cy + r,
                    x_end == cx + r,
                    x_end <= i32::MAX,
                    cy - r <= y <= y_end,
                    y_end <= i32::MAX,
                    cx - r <= x <= x_end + 1,
                    i32::MIN <= cx - r,
                    i32::MIN <= cy - r,
                    forall|i: int| 0 <= i < old_px.len() ==> #[trigger] self.pixels@[i] == if 0 <= i < w * h && in_disc(col_of(i, w), row_of(i, w), center, r as int)
                        && (row_of(i, w) < y || (row_of(i, w) == y && col_of(i, w) < x)) {
                        alpha_over_spec(old_px[i], color)
                    } else {
                        old_px[i]
                    },
                decreases x_end + 1 - x,
            {
                let dx: i64 = x - cx;
                let dy: i64 = y - cy;
                assert(-32767 <= dx <= 32767 && -32767 <= dy <= 32767);
                assert(0 <= dx * dx <= r_sq && 0 <= dy * dy <= r_sq) by (nonlinear_arith)
                    requires -r <= dx <= r, -r <= dy <= r, r_sq == r * r;
                assert(r_sq <= 32767 * 32767) by (nonlinear_arith)
                    requires 1 <= r <= 32767, r_sq == r * r;
                if dx * dx + dy * dy <= r_sq {
                    let ghost before = self.pixels@;
                    assert((x as i32) as int == x && (y as i32) as int == y);
                    self.blend_pixel(x as i32, y as i32, color);
                    proof {
                        assert forall|i: int| 0 <= i < old_px.len() implies #[trigger] self.pixels@[i] == if 0 <= i < w * h && in_disc(col_of(i, w), row_of(i, w), center, r as int)
                            && (row_of(i, w) < y || (row_of(i, w) == y && col_of(i, w) < x + 1)) {
                            alpha_over_spec(old_px[i], color)
                        } else {
                            old_px[i]
                        } by {
                            if 0 <= x < w && 0 <= y < h {
                                lemma_pixel_index(w, h, x as int, y as int);
                            }
                            if 0 <= i < w * h {
                                lemma_pixel_coords(w, h, i);
                            }
                            assert(before[i] == old_px[i] || (0 <= i < w * h && in_disc(col_of(i, w), row_of(i, w), center, r as int)
                                && (row_of(i, w) < y || (row_of(i, w) == y && col_of(i, w) < x))));
                        }
                    }
                } else {
                    proof {
                        assert forall|i: int| 0 <= i < old_px.len() implies #[trigger] self.pixels@[i] == if 0 <= i < w * h && in_disc(col_of(i, w), row_of(i, w), center, r as int)
                            && (row_of(i, w) < y || (row_of(i, w) == y && col_of(i, w) < x + 1)) {
                            alpha_over_spec(old_px[i], color)
                        } else {
                            old_px[i]
                        } by {
                            if 0 <= i < w * h {
                                lemma_pixel_coords(w, h, i);
                            }
                        }
                    }
                }
                x = x + 1;
            }
            proof {
                assert forall|i: int| 0 <= i < old_px.len() implies #[trigger] self.pixels@[i] == if 0 <= i < w * h && in_disc(col_of(i, w), row_of(i, w), center, r as int)
                    && row_of(i, w) < y + 1 {
                    alpha_over_spec(old_px[i], color)
                } else {
                    old_px[i]
                } by {
                    if 0 <= i < w * h && in_disc(col_of(i, w), row_of(i, w), center, r as int) {
                        lemma_disc_bounds(col_of(i, w), row_of(i, w), center, r as int);
                    }
                }
            }
            y = y + 1;
        }
        proof {
            assert forall|i: int| 0 <= i < old_px.len() implies #[trigger] self.pixels@[i] == disc_spec(old_px, w, h, center, radius, color)[i] by {
                if 0 <= i < w * h && in_disc(col_of(i, w), row_of(i, w), center, r as int) {
                    lemma_disc_bounds(col_of(i, w), row_of(i, w), center, r as int);
                }
            }
            assert(self.pixels@ =~= disc_spec(old_px, w, h, center, radius, color));
        }
    }
    /// Draws a line of discs of radius `thickness / 2` (at least 1) from `start` to `end`,
    /// one per step of the longer side, at the exactly rounded points of `line_point`.
    pub fn draw_line(&mut self, start: AnnotationPoint, end: AnnotationPoint, color: u32, thickness: i32)
        requires
            old(self).wf(),
            line_fits(start, end, thickness),
        ensures
            final(self).wf(),
            final(self).width == old(self).width,
            final(self).height == old(self).height,
            final(self).pixels@.len() == old(self).pixels@.len(),
            final(self).pixels@ == line_spec(old(self).pixels@, old(self).width as int, old(self).height as int, start, end, color, thickness),
    {
        let ghost old_px = self.pixels@;
        let ghost w = self.width as int;
        let ghost h = self.height as int;
        let dx: i64 = end.x as i64 - start.x as i64;
        let dy: i64 = end.y as i64 - start.y as i64;
        let adx: i64 = if dx < 0 { -dx } else { dx };
        let ady: i64 = if dy < 0 { -dy } else { dy };
        let longer: i64 = if adx >= ady { adx } else { ady };
        let steps: i64 = if longer >= 1 { longer } else { 1 };
        let thick: i32 = if thickness < 1 { 1 } else { thickness };
        let radius: i32 = thick / 2;
        assert(steps == line_steps(start, end));
        assert(radius == line_radius(thickness));
        let mut step: i64 = 0;
        while step <= steps
            invariant
                self.wf(),
                self.width == w,
                self.height == h,
                steps == line_steps(start, end),
                steps <= 0x1_0000_0000,
                radius == line_radius(thickness),
                line_fits(start, end, thickness),
                0 <= step <= steps + 1,
                self.pixels@.len() == old_px.len(),
                self.pixels@ == line_discs(old_px, w, h, start, end, color, thickness, step as nat),
            decreases steps + 1 - step,
        {
            let point = line_point_exec(start, end, step, steps);
            self.draw_disc(point, radius, color);
            step = step + 1;
        }
    }

    /// Draws the four sides of the rectangle spanned by two corners.
    pub fn draw_rectangle(&mut self, start: AnnotationPoint, end: AnnotationPoint, color: u32, thickness: i32)
        requires
            old(self).wf(),
            rectangle_fits(start, end, thickness),
        ensures
            final(self).wf(),
            final(self).width == old(self).width,
            final(self).height == old(self).height,
            final(self).pixels@.len() == old(self).pixels@.len(),
            final(self).pixels@ == rectangle_spec(old(self).pixels@, old(self).width as int, old(self).height as int, start, end, color, thickness),
    {
        let left = if start.x <= end.x { start.x } else { end.x };
        let right = if start.x <= end.x { end.x } else { start.x };
        let top = if start.y <= end.y { start.y } else { end.y };
        let bottom = if start.y <= end.y { end.y } else { start.y };
        let top_left = AnnotationPoint { x: left, y: top };
        let top_right = AnnotationPoint { x: right, y: top };
        let bottom_right = AnnotationPoint { x: right, y: bottom };
        let bottom_left = AnnotationPoint { x: left, y: bottom };
        self.draw_line(top_left, top_right, color, thickness);
        self.draw_line(top_right, bottom_right, color, thickness);
        self.draw_line(bottom_right, bottom_left, color, thickness);
        self.draw_line(bottom_left, top_left, color, thickness);
    }
    /// Draws a stroke: a dot for a single point, a line between each pair of
    /// consecutive points otherwise.
    pub fn draw_stroke(&mut self, stroke: &StrokeAnnotation)
        requires
            old(self).wf(),
            stroke_fits(stroke.points@, stroke.width),
        ensures
            final(self).wf(),
            final(self).width == old(self).width,
            final(self).height == old(self).height,
            final(self).pixels@.len() == old(self).pixels@.len(),
            final(self).pixels@ == stroke_spec(old(self).pixels@, old(self).width as int, old(self).height as int, stroke.points@, stroke.color, stroke.width),
    {
        let ghost old_px = self.pixels@;
        let ghost w = self.width as int;
        let ghost h = self.height as int;
        let n = stroke.points.len();
        let width = if stroke.width < 1 { 1 } else { stroke.width };
        let thickness = width as i32;
        assert(thickness == stroke_thickness(stroke.width));
        if n == 1 {
            let t: i64 = thickness as i64;
            let radius: i32 = if t >= 0 { (t / 2) as i32 } else { (0 - ((0 - t) / 2)) as i32 };
            assert(radius == half_toward_zero(thickness));
            self.draw_disc(stroke.points[0], radius, stroke.color);
            return;
        }
        let mut i: usize = 0;
        while i + 1 < n
            invariant
                self.wf(),
                self.width == w,
                self.height == h,
                n == stroke.points@.len(),
                n != 1,
                thickness == stroke_thickness(stroke.width),
                stroke_fits(stroke.points@, stroke.width),
                i < n || (n == 0 && i == 0),
                self.pixels@.len() == old_px.len(),
                self.pixels@ == stroke_segments(old_px, w, h, stroke.points@, stroke.color, thickness, i as nat),
            decreases n - i,
        {
            assert(line_fits(stroke.points@[i as int], stroke.points@[i + 1], thickness));
            self.draw_line(stroke.points[i], stroke.points[i + 1], stroke.color, thickness);
            i = i + 1;
        }
    }

    /// Draws a disc of radius `thickness / 2` (at least 1) on each point of an outline.
    pub fn draw_outline(&mut self, outline: &[AnnotationPoint], color: u32, thickness: i32)
        requires
            old(self).wf(),
            outline_fits(outline@, thickness),
        ensures
            final(self).wf(),
            final(self).width == old(self).width,
            final(self).height == old(self).height,
            final(self).pixels@.len() == old(self).pixels@.len(),
            final(self).pixels@ == discs_spec(old(self).pixels@, old(self).width as int, old(self).height as int, outline@, line_radius(thickness), color, outline@.len()),
    {
        let ghost old_px = self.pixels@;
        let ghost w = self.width as int;
        let ghost h = self.height as int;
        let thick: i32 = if thickness < 1 { 1 } else { thickness };
        let radius: i32 = thick / 2;
        let n = outline.len();
        let mut i: usize = 0;
        while i < n
            invariant
                self.wf(),
                self.width == w,
                self.height == h,
                n == outline@.len(),
                radius == line_radius(thickness),
                outline_fits(outline@, thickness),
                i <= n,
                self.pixels@.len() == old_px.len(),
                self.pixels@ == discs_spec(old_px, w, h, outline@, radius, color, i as nat),
            decreases n - i,
        {
            assert(disc_fits(outline@[i as int], radius));
            self.draw_disc(outline[i], radius, color);
            i = i + 1;
        }
    }

    /// Draws the crosshair cursor centered on `cursor`.
    pub fn draw_crosshair_cursor(&mut self, cursor: AnnotationPoint)
        requires
            old(self).wf(),
            crosshair_fits(cursor),
        ensures
            final(self).wf(),
            final(self).width == old(self).width,
            final(self).height == old(self).height,
            final(self).pixels@.len() == old(self).pixels@.len(),
            final(self).pixels@ == crosshair_spec(old(self).pixels@, old(self).width as int, old(self).height as int, cursor),
    {
        let left = cursor.offset(-12, 0);
        let right = cursor.offset(12, 0);
        let up = cursor.offset(0, -12);
        let down = cursor.offset(0, 12);
        self.draw_line(left, right, CURSOR_OUTLINE, 5);
        self.draw_line(up, down, CURSOR_OUTLINE, 5);
        self.draw_line(left, right, CURSOR_FILL, 2);
        self.draw_line(up, down, CURSOR_FILL, 2);
        self.draw_disc(cursor, 4, CURSOR_ACCENT);
    }

    /// Draws the hand cursor with its hotspot at `cursor`.
    pub fn draw_hand_cursor(&mut self, cursor: AnnotationPoint)
        requires
            old(self).wf(),
            hand_fits(cursor),
        ensures
            final(self).wf(),
            final(self).width == old(self).width,
            final(self).height == old(self).height,
            final(self).pixels@.len() == old(self).pixels@.len(),
            final(self).pixels@ == hand_spec(old(self).pixels@, old(self).width as int, old(self).height as int, cursor),
    {
        let ghost old_px = self.pixels@;
        let ghost w = self.width as int;
        let ghost h = self.height as int;
        let mut k: usize = 0;
        while k < 7
            invariant
                self.wf(),
                self.width == w,
                self.height == h,
                hand_fits(cursor),
                k <= 7,
                self.pixels@.len() == old_px.len(),
                self.pixels@ == hand_boxes_spec(old_px, w, h, cursor, k as nat),
            decreases 7 - k,
        {
            let (dx, dy, box_width, box_height) = hand_box_exec(k);
            let x = cursor.x + dx;
            let y = cursor.y + dy;
            self.fill_rect(x, y, box_width, box_height, CURSOR_OUTLINE);
            self.fill_rect(x + 1, y + 1, box_width - 2, box_height - 2, CURSOR_FILL);
            k = k + 1;
        }
        self.fill_rect(cursor.x + 1, cursor.y + 15, 6, 3, CURSOR_ACCENT);
    }
    /// Draws the set cells of a glyph with its top-left corner at (x, y).
    pub fn draw_glyph(&mut self, x: i32, y: i32, rows: [u8; 7], scale: usize, color: u32)
        requires
            old(self).wf(),
            6 * scale <= i32::MAX,
            x + 4 * scale <= i32::MAX,
            y + 6 * scale <= i32::MAX,
        ensures
            final(self).wf(),
            final(self).width == old(self).width,
            final(self).height == old(self).height,
            final(self).pixels@.len() == old(self).pixels@.len(),
            final(self).pixels@ == glyph_spec(old(self).pixels@, old(self).width as int, old(self).height as int, x as int, y as int, rows@, scale, color),
    {
        let ghost old_px = self.pixels@;
        let ghost w = self.width as int;
        let ghost h = self.height as int;
        let mut row: usize = 0;
        while row < 7
            invariant
                self.wf(),
                self.width == w,
                self.height == h,
                6 * scale <= i32::MAX,
                x + 4 * scale <= i32::MAX,
                y + 6 * scale <= i32::MAX,
                row <= 7,
                self.pixels@.len() == old_px.len(),
                self.pixels@ == glyph_cells_spec(old_px, w, h, x as int, y as int, rows@, scale, color, (row * 5) as nat),
            decreases 7 - row,
        {
            let bits = rows[row];
            let mut col: usize = 0;
            while col < 5
                invariant
                    self.wf(),
                    self.width == w,
                    self.height == h,
                    6 * scale <= i32::MAX,
                    x + 4 * scale <= i32::MAX,
                    y + 6 * scale <= i32::MAX,
                    row < 7,
                    col <= 5,
                    bits == rows@[row as int],
                    self.pixels@.len() == old_px.len(),
                self.pixels@ == glyph_cells_spec(old_px, w, h, x as int, y as int, rows@, scale, color, (row * 5 + col) as nat),
                decreases 5 - col,
            {
                let k: usize = row * 5 + col;
                assert((k as int) / 5 == row as int && (k as int) % 5 == col as int);
                assert(col * scale <= 4 * scale && row * scale <= 6 * scale) by (nonlinear_arith)
                    requires col <= 4, row <= 6;
                if bits & (1u8 << ((4 - col) as u32)) != 0 {
                    let cell_x: i64 = x as i64 + (col * scale) as i64;
                    let cell_y: i64 = y as i64 + (row * scale) as i64;
                    if cell_x >= 0 && cell_y >= 0 {
                        self.fill_rect(cell_x as i32, cell_y as i32, scale, scale, color);
                    }
                }
                col = col + 1;
            }
            row = row + 1;
        }
    }

    /// Draws one character with the pen at (x, y) and returns the next pen position.
    /// Characters the font lacks are drawn as their `U+` code point in hex digits.
    pub fn draw_text_glyph(&mut self, x: i32, y: i32, ch: char, scale: usize, color: u32) -> (next: i32)
        requires
            old(self).wf(),
            label_fits(x as int, y as int, seq![ch], scale),
        ensures
            final(self).wf(),
            final(self).width == old(self).width,
            final(self).height == old(self).height,
            final(self).pixels@.len() == old(self).pixels@.len(),
            (final(self).pixels@, next as int) == char_spec(old(self).pixels@, old(self).width as int, old(self).height as int, x as int, y as int, ch, scale, color),
            next == x + 6 * scale * char_cells(ch),
    {
        let ghost old_px = self.pixels@;
        let ghost w = self.width as int;
        let ghost h = self.height as int;
        proof {
            lemma_char_pen(old_px, w, h, x as int, y as int, ch, scale, color);
            assert(6 * scale * char_cells(ch) >= 6 * scale) by (nonlinear_arith)
                requires char_cells(ch) >= 1, scale >= 0;
        }
        let advance = (TEXT_GLYPH_ADVANCE * scale) as i32;
        if ch == ' ' {
            return x + advance;
        }
        match lookup_glyph(ch) {
            Some(rows) => {
                self.draw_glyph(x, y, rows, scale, color);
                x + advance
            },
            None => {
                let fallback = fallback_chars(ch);
                let n = fallback.len();
                let ghost chars = fallback@;
                let mut pen = x;
                let mut i: usize = 0;
                while i < n
                    invariant
                        self.wf(),
                        self.width == w,
                        self.height == h,
                        n == chars.len(),
                        chars == fallback@,
                        6 * scale <= i32::MAX,
                        advance == 6 * scale,
                        y + 6 * scale <= i32::MAX,
                        x + 6 * scale * n <= i32::MAX,
                        i <= n,
                        pen == x + 6 * scale * i,
                        self.pixels@.len() == old_px.len(),
                (self.pixels@, pen as int) == plain_label_spec(old_px, w, h, x as int, y as int, chars.take(i as int), scale, color),
                    decreases n - i,
                {
                    proof {
                        assert(chars.take(i + 1).drop_last() =~= chars.take(i as int));
                        assert(6 * scale * i + 6 * scale <= 6 * scale * n) by (nonlinear_arith)
                            requires i < n, scale >= 0;
                        assert(6 * scale * (i + 1) == 6 * scale * i + 6 * scale) by (nonlinear_arith);
                    }
                    match lookup_glyph(fallback[i]) {
                        Some(rows) => self.draw_glyph(pen, y, rows, scale, color),
                        None => {},
                    }
                    pen = pen + advance;
                    i = i + 1;
                }
                proof {
                    assert(chars.take(n as int) =~= chars);
                }
                pen
            },
        }
    }

    /// Draws a label with the pen starting at (x, y).
    pub fn draw_label(&mut self, x: i32, y: i32, label: &str, scale: usize, color: u32)
        requires
            old(self).wf(),
            label_fits(x as int, y as int, label@, scale),
        ensures
            final(self).wf(),
            final(self).width == old(self).width,
            final(self).height == old(self).height,
            final(self).pixels@.len() == old(self).pixels@.len(),
            final(self).pixels@ == label_spec(old(self).pixels@, old(self).width as int, old(self).height as int, x as int, y as int, label@, scale, color).0,
    {
        let ghost old_px = self.pixels@;
        let ghost w = self.width as int;
        let ghost h = self.height as int;
        let ghost chars = label@;
        let n = label.unicode_len();
        let mut pen = x;
        let mut i: usize = 0;
        while i < n
            invariant
                self.wf(),
                self.width == w,
                self.height == h,
                chars == label@,
                n == chars.len(),
                label_fits(x as int, y as int, chars, scale),
                i <= n,
                pen == x + 6 * scale * label_cells(chars.take(i as int)),
                self.pixels@.len() == old_px.len(),
                (self.pixels@, pen as int) == label_spec(old_px, w, h, x as int, y as int, chars.take(i as int), scale, color),
            decreases n - i,
        {
            let ch = label.get_char(i);
            proof {
                let before = chars.take(i as int);
                let after = chars.take(i + 1);
                assert(after.drop_last() =~= before);
                assert(after.last() == ch);
                lemma_label_cells_prefix(chars, i + 1);
                assert(label_cells(after) == label_cells(before) + char_cells(ch));
                assert(6 * scale * label_cells(after) == 6 * scale * label_cells(before) + 6 * scale * char_cells(ch)) by (nonlinear_arith)
                    requires label_cells(after) == label_cells(before) + char_cells(ch);
                assert(6 * scale * label_cells(after) <= 6 * scale * label_cells(chars)) by (nonlinear_arith)
                    requires label_cells(after) <= label_cells(chars), scale >= 0;
                lemma_char_pen(self.pixels@, w, h, pen as int, y as int, ch, scale, color);
                lemma_label_cells_prefix(chars, i as int);
                assert(6 * scale * label_cells(before) >= 0) by (nonlinear_arith)
                    requires label_cells(before) >= 0, scale >= 0;
            }
            pen = self.draw_text_glyph(pen, y, ch, scale, color);
            i = i + 1;
        }
        proof {
            assert(chars.take(n as int) =~= chars);
        }
    }
    /// Draws a text annotation: an empty one shows a cursor bar at its position, other
    /// text is drawn over a shadow.
    pub fn draw_text_annotation(&mut self, position: AnnotationPoint, text: &str, color: u32, scale: usize)
        requires
            old(self).wf(),
            text_annotation_fits(position, text@, scale),
        ensures
            final(self).wf(),
            final(self).width == old(self).width,
            final(self).height == old(self).height,
            final(self).pixels@.len() == old(self).pixels@.len(),
            final(self).pixels@ == text_annotation_spec(old(self).pixels@, old(self).width as int, old(self).height as int, position, text@, color, scale),
    {
        let scale = if scale < 1 { 1 } else { scale };
        let x = position.x;
        let y = position.y;
        if text.unicode_len() == 0 {
            let cx = if x < 0 { 0 } else { x };
            let cy = if y < 0 { 0 } else { y };
            self.fill_rect(cx, cy, 2, TEXT_GLYPH_HEIGHT * scale, TEXT_CURSOR);
            return;
        }
        proof {
            assert(label_fits(x as int, y as int, text@, scale)) by {
                lemma_label_cells_prefix(text@, 0);
            }
        }
        self.draw_label(x + 2, y + 2, text, scale, TEXT_SHADOW);
        self.draw_label(x, y, text, scale, color);
    }

    /// Paints the whole drawing area with a rounded card, transparent outside its corners.
    pub fn paint_card(&mut self, accent: Option<u32>)
        requires
            old(self).wf(),
            card_size_ok(old(self).width as int, old(self).height as int),
        ensures
            final(self).wf(),
            final(self).width == old(self).width,
            final(self).height == old(self).height,
            final(self).pixels@.len() == old(self).pixels@.len(),
            final(self).pixels@ == paint_card_spec(old(self).pixels@, old(self).width as int, old(self).height as int, accent),
    {
        let ghost old_px = self.pixels@;
        let ghost w = self.width as int;
        let ghost h = self.height as int;
        let width = self.width;
        let height = self.height;
        let mut y: usize = 0;
        while y < height
            invariant
                self.wf(),
                self.width == width,
                self.height == height,
                w == width,
                h == height,
                card_size_ok(w, h),
                y <= height,
                self.pixels@.len() == old_px.len(),
                forall|i: int| 0 <= i < old_px.len() ==> #[trigger] self.pixels@[i] == if 0 <= i < w * h && row_of(i, w) < y {
                    paint_card_spec(old_px, w, h, accent)[i]
                } else {
                    old_px[i]
                },
            decreases height - y,
        {
            let mut x: usize = 0;
            while x < width
                invariant
                    self.wf(),
                    self.width == width,
                    self.height == height,
                    w == width,
                    h == height,
                    card_size_ok(w, h),
                    y < height,
                    x <= width,
                    self.pixels@.len() == old_px.len(),
                    forall|i: int| 0 <= i < old_px.len() ==> #[trigger] self.pixels@[i] == if 0 <= i < w * h && (row_of(i, w) < y || (row_of(i, w) == y && col_of(i, w) < x)) {
                        paint_card_spec(old_px, w, h, accent)[i]
                    } else {
                        old_px[i]
                    },
                decreases width - x,
            {
                proof {
                    lemma_pixel_index(w, h, x as int, y as int);
                }
                let pixel = match card_pixel(x, y, width, height, accent) {
                    Some(c) => c,
                    None => 0,
                };
                let len = self.pixels.len();
                assert(y * width + x < len);
                self.pixels.set(y * width + x, pixel);
                proof {
                    assert forall|i: int| 0 <= i < old_px.len() implies #[trigger] self.pixels@[i] == if 0 <= i < w * h && (row_of(i, w) < y || (row_of(i, w) == y && col_of(i, w) < x + 1)) {
                        paint_card_spec(old_px, w, h, accent)[i]
                    } else {
                        old_px[i]
                    } by {
                        if 0 <= i < w * h {
                            lemma_pixel_coords(w, h, i);
                        }
                    }
                }
                x = x + 1;
            }
            proof {
                assert forall|i: int| 0 <= i < old_px.len() implies #[trigger] self.pixels@[i] == if 0 <= i < w * h && row_of(i, w) < y + 1 {
                    paint_card_spec(old_px, w, h, accent)[i]
                } else {
                    old_px[i]
                } by {
                    if 0 <= i < w * h {
                        lemma_pixel_coords(w, h, i);
                    }
                }
            }
            y = y + 1;
        }
        proof {
            assert forall|i: int| 0 <= i < old_px.len() implies #[trigger] self.pixels@[i] == paint_card_spec(old_px, w, h, accent)[i] by {
                if 0 <= i < w * h {
                    lemma_pixel_coords(w, h, i);
                }
            }
            assert(self.pixels@ =~= paint_card_spec(old_px, w, h, accent));
        }
    }

    /// Blends a `card_width` by `card_height` card with its top-left corner at
    /// (card_x, card_y). The card lies inside the drawing area.
    pub fn blend_card(&mut self, card_x: usize, card_y: usize, card_width: usize, card_height: usize)
        requires
            old(self).wf(),
            card_width == 0 || card_height == 0 || card_size_ok(card_width as int, card_height as int),
            card_x + card_width <= old(self).width,
            card_y + card_height <= old(self).height,
        ensures
            final(self).wf(),
            final(self).width == old(self).width,
            final(self).height == old(self).height,
            final(self).pixels@.len() == old(self).pixels@.len(),
            final(self).pixels@ == blend_card_spec(old(self).pixels@, old(self).width as int, old(self).height as int, card_x as int, card_y as int, card_width as int, card_height as int),
    {
        let ghost old_px = self.pixels@;
        let ghost w = self.width as int;
        let ghost h = self.height as int;
        let ghost target = blend_card_spec(old_px, w, h, card_x as int, card_y as int, card_width as int, card_height as int);
        let width = self.width;
        let mut y: usize = 0;
        while y < card_height
            invariant
                self.wf(),
                self.width == width,
                w == width,
                self.height == h,
                target == blend_card_spec(old_px, w, h, card_x as int, card_y as int, card_width as int, card_height as int),
                card_width == 0 || card_height == 0 || card_size_ok(card_width as int, card_height as int),
                card_x + card_width <= w,
                card_y + card_height <= h,
                y <= card_height,
                self.pixels@.len() == old_px.len(),
                forall|i: int| 0 <= i < old_px.len() ==> #[trigger] self.pixels@[i] == if 0 <= i < w * h && row_of(i, w) < card_y + y {
                    target[i]
                } else {
                    old_px[i]
                },
            decreases card_height - y,
        {
            let mut x: usize = 0;
            while x < card_width
                invariant
                    self.wf(),
                    self.width == width,
                    w == width,
                    self.height == h,
                    target == blend_card_spec(old_px, w, h, card_x as int, card_y as int, card_width as int, card_height as int),
                    card_size_ok(card_width as int, card_height as int) || card_width == 0,
                    card_x + card_width <= w,
                    card_y + card_height <= h,
                    y < card_height,
                    x <= card_width,
                    self.pixels@.len() == old_px.len(),
                    forall|i: int| 0 <= i < old_px.len() ==> #[trigger] self.pixels@[i] == if 0 <= i < w * h && (row_of(i, w) < card_y + y
                        || (row_of(i, w) == card_y + y && col_of(i, w) < card_x + x)) {
                        target[i]
                    } else {
                        old_px[i]
                    },
                decreases card_width - x,
            {
                proof {
                    lemma_pixel_index(w, h, (card_x + x) as int, (card_y + y) as int);
                }
                let len = self.pixels.len();
                let index = (card_y + y) * width + card_x + x;
                assert(index < len);
                match card_pixel(x, y, card_width, card_height, None) {
                    Some(color) => {
                        let blended = alpha_over(self.pixels[index], color);
                        self.pixels.set(index, blended);
                    },
                    None => {},
                }
                proof {
                    assert forall|i: int| 0 <= i < old_px.len() implies #[trigger] self.pixels@[i] == if 0 <= i < w * h && (row_of(i, w) < card_y + y
                        || (row_of(i, w) == card_y + y && col_of(i, w) < card_x + x + 1)) {
                        target[i]
                    } else {
                        old_px[i]
                    } by {
                        if 0 <= i < w * h {
                            lemma_pixel_coords(w, h, i);
                        }
                    }
                }
                x = x + 1;
            }
            proof {
                assert forall|i: int| 0 <= i < old_px.len() implies #[trigger] self.pixels@[i] == if 0 <= i < w * h && row_of(i, w) < card_y + y + 1 {
                    target[i]
                } else {
                    old_px[i]
                } by {
                    if 0 <= i < w * h {
                        lemma_pixel_coords(w, h, i);
                    }
                }
            }
            y = y + 1;
        }
        proof {
            assert forall|i: int| 0 <= i < old_px.len() implies #[trigger] self.pixels@[i] == target[i] by {
                if 0 <= i < w * h {
                    lemma_pixel_coords(w, h, i);
                }
            }
            assert(self.pixels@ =~= target);
        }
    }

    /// Draws a divider line one pixel high at row `y`, 18 pixels in from both sides.
    pub fn draw_divider(&mut self, y: i32)
        requires
            old(self).wf(),
            -1 <= y < i32::MAX,
        ensures
            final(self).wf(),
            final(self).width == old(self).width,
            final(self).height == old(self).height,
            final(self).pixels@.len() == old(self).pixels@.len(),
            final(self).pixels@ == divider_spec(old(self).pixels@, old(self).width as int, old(self).height as int, y),
    {
        let right = self.width.saturating_sub(18) as i32;
        self.blend_rect(18, y, right, y + 1, CARD_DIVIDER);
    }
    /// Draws a line, rectangle or ellipse; an ellipse is drawn along `outline`, the points
    /// sampled on it.
    pub fn draw_shape(&mut self, shape: &ShapeAnnotation, outline: &[AnnotationPoint])
        requires
            old(self).wf(),
            shape_fits(shape.kind, shape.start, shape.end, shape.width, outline@),
        ensures
            final(self).wf(),
            final(self).width == old(self).width,
            final(self).height == old(self).height,
            final(self).pixels@.len() == old(self).pixels@.len(),
            final(self).pixels@ == shape_spec(old(self).pixels@, old(self).width as int, old(self).height as int, shape.kind,
                shape.start, shape.end, shape.color, shape.width, outline@),
    {
        let width = if shape.width < 1 { 1 } else { shape.width };
        let thickness = width as i32;
        match shape.kind {
            AnnotationShapeKind::Line => self.draw_line(shape.start, shape.end, shape.color, thickness),
            AnnotationShapeKind::Rectangle => self.draw_rectangle(shape.start, shape.end, shape.color, thickness),
            AnnotationShapeKind::Ellipse => self.draw_outline(outline, shape.color, thickness),
        }
    }
}

// ---------------------------------------------------------------------------
// Checks of the drawing preconditions
// ---------------------------------------------------------------------------

/// Whether a disc around `center` can be drawn (see `disc_fits`).
pub fn disc_fits_check(center: AnnotationPoint, radius: i32) -> (ok: bool)
    ensures
        ok == disc_fits(center, radius),
{
    let r: i64 = if radius < 1 { 1 } else { radius as i64 };
    r <= 32767 && center.x as i64 - r >= i32::MIN as i64 && center.x as i64 + r <= i32::MAX as i64
        && center.y as i64 - r >= i32::MIN as i64 && center.y as i64 + r <= i32::MAX as i64
}

/// Whether a line can be drawn (see `line_fits`).
pub fn line_fits_check(start: AnnotationPoint, end: AnnotationPoint, thickness: i32) -> (ok: bool)
    ensures
        ok == line_fits(start, end, thickness),
{
    let t: i64 = if thickness < 1 { 1 } else { thickness as i64 };
    let half: i64 = t / 2;
    let r: i64 = if half < 1 { 1 } else { half };
    let dx = end.x as i64 - start.x as i64;
    let dy = end.y as i64 - start.y as i64;
    let min_x: i64 = if start.x <= end.x { start.x as i64 } else { end.x as i64 };
    let max_x: i64 = if start.x >= end.x { start.x as i64 } else { end.x as i64 };
    let min_y: i64 = if start.y <= end.y { start.y as i64 } else { end.y as i64 };
    let max_y: i64 = if start.y >= end.y { start.y as i64 } else { end.y as i64 };
    (i32::MIN as i64) < dx && dx <= i32::MAX as i64 && (i32::MIN as i64) < dy && dy <= i32::MAX as i64
        && r <= 32767 && min_x - r >= i32::MIN as i64 && max_x + r <= i32::MAX as i64
        && min_y - r >= i32::MIN as i64 && max_y + r <= i32::MAX as i64
}

/// Whether a rectangle's outline can be drawn (see `rectangle_fits`).
pub fn rectangle_fits_check(start: AnnotationPoint, end: AnnotationPoint, thickness: i32) -> (ok: bool)
    ensures
        ok == rectangle_fits(start, end, thickness),
{
    let left = if start.x <= end.x { start.x } else { end.x };
    let right = if start.x <= end.x { end.x } else { start.x };
    let top = if start.y <= end.y { start.y } else { end.y };
    let bottom = if start.y <= end.y { end.y } else { start.y };
    let tl = AnnotationPoint { x: left, y: top };
    let tr = AnnotationPoint { x: right, y: top };
    let br = AnnotationPoint { x: right, y: bottom };
    let bl = AnnotationPoint { x: left, y: bottom };
    line_fits_check(tl, tr, thickness) && line_fits_check(tr, br, thickness)
        && line_fits_check(br, bl, thickness) && line_fits_check(bl, tl, thickness)
}

/// Whether a stroke through `points` can be drawn (see `stroke_fits`).
pub fn stroke_fits_check(points: &[AnnotationPoint], width: usize) -> (ok: bool)
    ensures
        ok == stroke_fits(points@, width),
{
    let thickness = (if width < 1 { 1 } else { width }) as i32;
    let n = points.len();
    if n == 1 {
        let half = if thickness >= 0 { thickness / 2 } else { -((-(thickness as i64)) / 2) as i32 };
        return disc_fits_check(points[0], half);
    }
    let mut i: usize = 0;
    while i + 1 < n
        invariant
            n == points@.len(),
            n != 1,
            i == 0 || i < n,
            thickness == stroke_thickness(width),
            forall|j: int| 0 <= j < i && j < n - 1 ==> #[trigger] line_fits(points@[j], points@[j + 1], thickness),
        decreases n - i,
    {
        if !line_fits_check(points[i], points[i + 1], thickness) {
            return false;
        }
        i = i + 1;
    }
    true
}

/// Whether the discs of an outline can be drawn (see `outline_fits`).
pub fn outline_fits_check(points: &[AnnotationPoint], thickness: i32) -> (ok: bool)
    ensures
        ok == outline_fits(points@, thickness),
{
    let t: i32 = if thickness < 1 { 1 } else { thickness };
    let radius = t / 2;
    assert(radius == line_radius(thickness));
    let n = points.len();
    let mut i: usize = 0;
    while i < n
        invariant
            n == points@.len(),
            i <= n,
            radius == line_radius(thickness),
            forall|j: int| 0 <= j < i ==> #[trigger] disc_fits(points@[j], line_radius(thickness)),
        decreases n - i,
    {
        if !disc_fits_check(points[i], radius) {
            return false;
        }
        i = i + 1;
    }
    true
}

/// Whether a line, rectangle or ellipse can be drawn (see `shape_fits`).
pub fn shape_fits_check(kind: AnnotationShapeKind, start: AnnotationPoint, end: AnnotationPoint, width: usize, outline: &[AnnotationPoint]) -> (ok: bool)
    ensures
        ok == shape_fits(kind, start, end, width, outline@),
{
    let thickness = (if width < 1 { 1 } else { width }) as i32;
    match kind {
        AnnotationShapeKind::Line => line_fits_check(start, end, thickness),
        AnnotationShapeKind::Rectangle => rectangle_fits_check(start, end, thickness),
        AnnotationShapeKind::Ellipse => outline_fits_check(outline, thickness),
    }
}

/// Whether a text annotation can be drawn (see `text_annotation_fits`).
pub fn text_annotation_fits_check(position: AnnotationPoint, text: &str, scale: usize) -> (ok: bool)
    ensures
        ok == text_annotation_fits(position, text@, scale),
{
    let sc = if scale < 1 { 1 } else { scale };
    if sc > usize::MAX / 7 {
        return false;
    }
    if text.unicode_len() == 0 {
        return true;
    }
    position.x as i64 + 2 <= i32::MAX as i64 && position.y as i64 + 2 <= i32::MAX as i64
        && label_fits_check(position.x as i64 + 2, position.y as i64 + 2, text, sc)
}

/// Whether the crosshair cursor can be drawn at `c`.
pub fn crosshair_fits_check(c: AnnotationPoint) -> (ok: bool)
    ensures
        ok == crosshair_fits(c),
{
    c.x as i64 - 14 >= i32::MIN as i64 && c.x as i64 + 14 <= i32::MAX as i64
        && c.y as i64 - 14 >= i32::MIN as i64 && c.y as i64 + 14 <= i32::MAX as i64
}

/// Whether the hand cursor can be drawn at `c`.
pub fn hand_fits_check(c: AnnotationPoint) -> (ok: bool)
    ensures
        ok == hand_fits(c),
{
    c.x as i64 - 10 >= i32::MIN as i64 && c.x as i64 + 14 <= i32::MAX as i64 && c.y as i64 + 16 <= i32::MAX as i64
}

/// Whether a blended rectangle stays in a `w` by `h` buffer (see `blend_rect_fits`).
pub fn blend_rect_fits_check(x0: i32, y0: i32, x1: i32, y1: i32, w: usize, h: usize) -> (ok: bool)
    ensures
        ok == blend_rect_fits(x0, y0, x1, y1, w as int, h as int),
{
    let right_y: i128 = if y0 <= y1 { if (y1 as i128) < h as i128 { y1 as i128 } else { h as i128 } }
        else { if (y0 as i128) < h as i128 { y0 as i128 } else { h as i128 } };
    let right_x: i128 = if x0 <= x1 { if (x1 as i128) < w as i128 { x1 as i128 } else { w as i128 } }
        else { if (x0 as i128) < w as i128 { x0 as i128 } else { w as i128 } };
    let low_y: i128 = if y0 <= y1 { y0 as i128 } else { y1 as i128 };
    let left_y: i128 = if low_y < 0 { 0 } else { low_y };
    right_y >= 0 && (right_x >= 0 || right_y <= left_y)
}

} // verus!
