use vstd::prelude::*;

use crate::error::AppError;
use crate::raster::{alpha_over, alpha_over_spec, channel, lemma_alpha_over_extremes, lemma_channel_bound};

verus! {

// ---------------------------------------------------------------------------
// Source pixel formats
// ---------------------------------------------------------------------------

/// The 32-bit `wl_shm` layouts a captured frame can arrive in.
#[derive(Debug, Clone, Copy, PartialEq, Eq, Structural)]
pub enum SourcePixelFormat {
    Argb8888,
    Xrgb8888,
    Abgr8888,
    Xbgr8888,
    Rgba8888,
    Rgbx8888,
    Bgra8888,
    Bgrx8888,
}

/// The `wl_shm` format codes of the supported layouts.
pub open spec fn format_for_code(code: u32) -> Option<SourcePixelFormat> {
    if code == 0 {
        Some(SourcePixelFormat::Argb8888)
    } else if code == 1 {
        Some(SourcePixelFormat::Xrgb8888)
    } else if code == 0x3432_4241 {
        Some(SourcePixelFormat::Abgr8888)
    } else if code == 0x3432_4258 {
        Some(SourcePixelFormat::Xbgr8888)
    } else if code == 0x3432_4152 {
        Some(SourcePixelFormat::Rgba8888)
    } else if code == 0x3432_5852 {
        Some(SourcePixelFormat::Rgbx8888)
    } else if code == 0x3432_4142 {
        Some(SourcePixelFormat::Bgra8888)
    } else if code == 0x3432_5842 {
        Some(SourcePixelFormat::Bgrx8888)
    } else {
        None
    }
}

/// Message of the error for a format that cannot be captured.
pub open spec fn unsupported_format_message(name: Seq<char>) -> Seq<char> {
    "unsupported wl_shm screenshot format: "@ + name
}

impl SourcePixelFormat {
    /// The layout of the `wl_shm` format with protocol value `code`; `name` is the
    /// format's name, used in the error for a format that is not a 32-bit layout.
    pub fn from_wl_shm(code: u32, name: &str) -> (format: Result<Self, AppError>)
        ensures
            format_for_code(code) matches Some(f) ==> format == Ok::<Self, AppError>(f),
            format_for_code(code) is None ==> (format matches Err(AppError::RuntimeState { message })
                && message@ == unsupported_format_message(name@)),
    {
        if code == 0 {
            Ok(SourcePixelFormat::Argb8888)
        } else if code == 1 {
            Ok(SourcePixelFormat::Xrgb8888)
        } else if code == 0x3432_4241 {
            Ok(SourcePixelFormat::Abgr8888)
        } else if code == 0x3432_4258 {
            Ok(SourcePixelFormat::Xbgr8888)
        } else if code == 0x3432_4152 {
            Ok(SourcePixelFormat::Rgba8888)
        } else if code == 0x3432_5852 {
            Ok(SourcePixelFormat::Rgbx8888)
        } else if code == 0x3432_4142 {
            Ok(SourcePixelFormat::Bgra8888)
        } else if code == 0x3432_5842 {
            Ok(SourcePixelFormat::Bgrx8888)
        } else {
            let mut message = String::from_str("unsupported wl_shm screenshot format: ");
            message.append(name);
            proof {
                reveal_strlit("unsupported wl_shm screenshot format: ");
            }
            Err(AppError::runtime(message))
        }
    }
}

/// A source pixel rearranged into ARGB; the formats without alpha become opaque.
pub open spec fn normalize_spec(format: SourcePixelFormat, pixel: u32) -> u32 {
    match format {
        SourcePixelFormat::Argb8888 => pixel,
        SourcePixelFormat::Xrgb8888 => pixel | 0xFF00_0000,
        SourcePixelFormat::Abgr8888 => (pixel & 0xFF00_0000) | ((pixel & 0x0000_00FF) << 16u32) | (pixel & 0x0000_FF00)
            | ((pixel & 0x00FF_0000) >> 16u32),
        SourcePixelFormat::Xbgr8888 => 0xFF00_0000 | ((pixel & 0x0000_00FF) << 16u32) | (pixel & 0x0000_FF00)
            | ((pixel & 0x00FF_0000) >> 16u32),
        SourcePixelFormat::Rgba8888 => ((pixel & 0x0000_00FF) << 24u32) | ((pixel & 0xFF00_0000) >> 8u32)
            | ((pixel & 0x00FF_0000) >> 8u32) | ((pixel & 0x0000_FF00) >> 8u32),
        SourcePixelFormat::Rgbx8888 => 0xFF00_0000 | ((pixel & 0xFF00_0000) >> 8u32) | ((pixel & 0x00FF_0000) >> 8u32)
            | ((pixel & 0x0000_FF00) >> 8u32),
        SourcePixelFormat::Bgra8888 => ((pixel & 0x0000_00FF) << 24u32) | ((pixel & 0x0000_FF00) << 8u32)
            | ((pixel & 0x00FF_0000) >> 8u32) | ((pixel & 0xFF00_0000) >> 24u32),
        SourcePixelFormat::Bgrx8888 => 0xFF00_0000 | ((pixel & 0x0000_FF00) << 8u32) | ((pixel & 0x00FF_0000) >> 8u32)
            | ((pixel & 0xFF00_0000) >> 24u32),
    }
}

/// Rearranges a source pixel into ARGB.
pub fn normalize_source_pixel(format: SourcePixelFormat, pixel: u32) -> (argb: u32)
    ensures
        argb == normalize_spec(format, pixel),
{
    match format {
        SourcePixelFormat::Argb8888 => pixel,
        SourcePixelFormat::Xrgb8888 => pixel | 0xFF00_0000,
        SourcePixelFormat::Abgr8888 => (pixel & 0xFF00_0000) | ((pixel & 0x0000_00FF) << 16) | (pixel & 0x0000_FF00)
            | ((pixel & 0x00FF_0000) >> 16),
        SourcePixelFormat::Xbgr8888 => 0xFF00_0000 | ((pixel & 0x0000_00FF) << 16) | (pixel & 0x0000_FF00)
            | ((pixel & 0x00FF_0000) >> 16),
        SourcePixelFormat::Rgba8888 => ((pixel & 0x0000_00FF) << 24) | ((pixel & 0xFF00_0000) >> 8)
            | ((pixel & 0x00FF_0000) >> 8) | ((pixel & 0x0000_FF00) >> 8),
        SourcePixelFormat::Rgbx8888 => 0xFF00_0000 | ((pixel & 0xFF00_0000) >> 8) | ((pixel & 0x00FF_0000) >> 8)
            | ((pixel & 0x0000_FF00) >> 8),
        SourcePixelFormat::Bgra8888 => ((pixel & 0x0000_00FF) << 24) | ((pixel & 0x0000_FF00) << 8)
            | ((pixel & 0x00FF_0000) >> 8) | ((pixel & 0xFF00_0000) >> 24),
        SourcePixelFormat::Bgrx8888 => 0xFF00_0000 | ((pixel & 0x0000_FF00) << 8) | ((pixel & 0x00FF_0000) >> 8)
            | ((pixel & 0xFF00_0000) >> 24),
    }
}

/// A format without an alpha channel.
pub open spec fn is_opaque_format(format: SourcePixelFormat) -> bool {
    format == SourcePixelFormat::Xrgb8888 || format == SourcePixelFormat::Xbgr8888 || format == SourcePixelFormat::Rgbx8888
        || format == SourcePixelFormat::Bgrx8888
}

/// Byte `k` (0 the least significant) of a word.
pub open spec fn byte_of(v: u32, k: u32) -> u32 {
    (v >> (8 * k)) & 0xFF
}

/// Normalizing keeps every color channel: red, green and blue are read from the bytes
/// each layout puts them in, alpha too, or it is opaque for the formats without alpha.
pub proof fn lemma_normalize_channels(format: SourcePixelFormat, pixel: u32)
    ensures
        is_opaque_format(format) ==> channel(normalize_spec(format, pixel), 24) == 0xFF,
        ({
            let n = normalize_spec(format, pixel);
            let (r, g, b, a) = match format {
                SourcePixelFormat::Argb8888 | SourcePixelFormat::Xrgb8888 => (2u32, 1u32, 0u32, 3u32),
                SourcePixelFormat::Abgr8888 | SourcePixelFormat::Xbgr8888 => (0u32, 1u32, 2u32, 3u32),
                SourcePixelFormat::Rgba8888 | SourcePixelFormat::Rgbx8888 => (3u32, 2u32, 1u32, 0u32),
                SourcePixelFormat::Bgra8888 | SourcePixelFormat::Bgrx8888 => (1u32, 2u32, 3u32, 0u32),
            };
            &&& channel(n, 16) == byte_of(pixel, r)
            &&& channel(n, 8) == byte_of(pixel, g)
            &&& channel(n, 0) == byte_of(pixel, b)
            &&& !is_opaque_format(format) ==> channel(n, 24) == byte_of(pixel, a)
        }),
{
    let p = pixel;
    match format {
        SourcePixelFormat::Argb8888 => {
            assert(((p >> 16u32) & 0xFF) == ((p >> 16u32) & 0xFF));
        },
        SourcePixelFormat::Xrgb8888 => {
            assert((((p | 0xFF00_0000) >> 24u32) & 0xFF) == 0xFF && (((p | 0xFF00_0000) >> 16u32) & 0xFF) == ((p >> 16u32) & 0xFF)
                && (((p | 0xFF00_0000) >> 8u32) & 0xFF) == ((p >> 8u32) & 0xFF)
                && (((p | 0xFF00_0000) >> 0u32) & 0xFF) == ((p >> 0u32) & 0xFF)) by (bit_vector);
        },
        SourcePixelFormat::Abgr8888 => {
            let n = (p & 0xFF00_0000) | ((p & 0x0000_00FF) << 16u32) | (p & 0x0000_FF00) | ((p & 0x00FF_0000) >> 16u32);
            assert((((n >> 24u32) & 0xFF) == ((p >> 24u32) & 0xFF)) && (((n >> 16u32) & 0xFF) == ((p >> 0u32) & 0xFF)) && (((n >> 8u32) & 0xFF) == ((p >> 8u32) & 0xFF)) && (((n >> 0u32) & 0xFF) == ((p >> 16u32) & 0xFF))) by (bit_vector)
                requires n == (p & 0xFF00_0000) | ((p & 0x0000_00FF) << 16u32) | (p & 0x0000_FF00) | ((p & 0x00FF_0000) >> 16u32);
        },
        SourcePixelFormat::Xbgr8888 => {
            let n = 0xFF00_0000 | ((p & 0x0000_00FF) << 16u32) | (p & 0x0000_FF00) | ((p & 0x00FF_0000) >> 16u32);
            assert((((n >> 24u32) & 0xFF) == 0xFF) && (((n >> 16u32) & 0xFF) == ((p >> 0u32) & 0xFF)) && (((n >> 8u32) & 0xFF) == ((p >> 8u32) & 0xFF)) && (((n >> 0u32) & 0xFF) == ((p >> 16u32) & 0xFF))) by (bit_vector)
                requires n == 0xFF00_0000 | ((p & 0x0000_00FF) << 16u32) | (p & 0x0000_FF00) | ((p & 0x00FF_0000) >> 16u32);
        },
        SourcePixelFormat::Rgba8888 => {
            let n = ((p & 0x0000_00FF) << 24u32) | ((p & 0xFF00_0000) >> 8u32) | ((p & 0x00FF_0000) >> 8u32) | ((p & 0x0000_FF00) >> 8u32);
            assert((((n >> 24u32) & 0xFF) == ((p >> 0u32) & 0xFF)) && (((n >> 16u32) & 0xFF) == ((p >> 24u32) & 0xFF)) && (((n >> 8u32) & 0xFF) == ((p >> 16u32) & 0xFF)) && (((n >> 0u32) & 0xFF) == ((p >> 8u32) & 0xFF))) by (bit_vector)
                requires n == ((p & 0x0000_00FF) << 24u32) | ((p & 0xFF00_0000) >> 8u32) | ((p & 0x00FF_0000) >> 8u32) | ((p & 0x0000_FF00) >> 8u32);
        },
        SourcePixelFormat::Rgbx8888 => {
            let n = 0xFF00_0000 | ((p & 0xFF00_0000) >> 8u32) | ((p & 0x00FF_0000) >> 8u32) | ((p & 0x0000_FF00) >> 8u32);
            assert((((n >> 24u32) & 0xFF) == 0xFF) && (((n >> 16u32) & 0xFF) == ((p >> 24u32) & 0xFF)) && (((n >> 8u32) & 0xFF) == ((p >> 16u32) & 0xFF)) && (((n >> 0u32) & 0xFF) == ((p >> 8u32) & 0xFF))) by (bit_vector)
                requires n == 0xFF00_0000 | ((p & 0xFF00_0000) >> 8u32) | ((p & 0x00FF_0000) >> 8u32) | ((p & 0x0000_FF00) >> 8u32);
        },
        SourcePixelFormat::Bgra8888 => {
            let n = ((p & 0x0000_00FF) << 24u32) | ((p & 0x0000_FF00) << 8u32) | ((p & 0x00FF_0000) >> 8u32) | ((p & 0xFF00_0000) >> 24u32);
            assert((((n >> 24u32) & 0xFF) == ((p >> 0u32) & 0xFF)) && (((n >> 16u32) & 0xFF) == ((p >> 8u32) & 0xFF)) && (((n >> 8u32) & 0xFF) == ((p >> 16u32) & 0xFF)) && (((n >> 0u32) & 0xFF) == ((p >> 24u32) & 0xFF))) by (bit_vector)
                requires n == ((p & 0x0000_00FF) << 24u32) | ((p & 0x0000_FF00) << 8u32) | ((p & 0x00FF_0000) >> 8u32) | ((p & 0xFF00_0000) >> 24u32);
        },
        SourcePixelFormat::Bgrx8888 => {
            let n = 0xFF00_0000 | ((p & 0x0000_FF00) << 8u32) | ((p & 0x00FF_0000) >> 8u32) | ((p & 0xFF00_0000) >> 24u32);
            assert((((n >> 24u32) & 0xFF) == 0xFF) && (((n >> 16u32) & 0xFF) == ((p >> 8u32) & 0xFF)) && (((n >> 8u32) & 0xFF) == ((p >> 16u32) & 0xFF)) && (((n >> 0u32) & 0xFF) == ((p >> 24u32) & 0xFF))) by (bit_vector)
                requires n == 0xFF00_0000 | ((p & 0x0000_FF00) << 8u32) | ((p & 0x00FF_0000) >> 8u32) | ((p & 0xFF00_0000) >> 24u32);
        },
    }
}

// ---------------------------------------------------------------------------
// Composing and encoding the screenshot
// ---------------------------------------------------------------------------

/// ARGB pixels as RGBA bytes, four per pixel.
pub open spec fn rgba_spec(pixels: Seq<u32>) -> Seq<u8> {
    Seq::new(
        4 * pixels.len(),
        |i: int| {
            let p = pixels[i / 4];
            let k = i % 4;
            (if k == 0 {
                channel(p, 16)
            } else if k == 1 {
                channel(p, 8)
            } else if k == 2 {
                channel(p, 0)
            } else {
                channel(p, 24)
            }) as u8
        },
    )
}

/// ARGB pixels as RGBA bytes, four per pixel.
pub fn rgba_bytes(pixels: &[u32]) -> (rgba: Vec<u8>)
    requires
        4 * pixels@.len() <= usize::MAX,
    ensures
        rgba@ == rgba_spec(pixels@),
{
    let n = pixels.len();
    let mut rgba: Vec<u8> = Vec::with_capacity(n * 4);
    let mut i: usize = 0;
    while i < n
        invariant
            n == pixels@.len(),
            4 * n <= usize::MAX,
            i <= n,
            rgba@ == rgba_spec(pixels@.take(i as int)),
        decreases n - i,
    {
        let pixel = pixels[i];
        proof {
            lemma_channel_bound(pixel, 16);
            lemma_channel_bound(pixel, 8);
            lemma_channel_bound(pixel, 0);
            lemma_channel_bound(pixel, 24);
            assert(pixel & 0xFF == (pixel >> 0u32) & 0xFF) by (bit_vector);
        }
        rgba.push(((pixel >> 16) & 0xFF) as u8);
        rgba.push(((pixel >> 8) & 0xFF) as u8);
        rgba.push((pixel & 0xFF) as u8);
        rgba.push(((pixel >> 24) & 0xFF) as u8);
        proof {
            let next = pixels@.take(i + 1);
            assert forall|k: int| 0 <= k < 4 * (i + 1) implies #[trigger] rgba@[k] == rgba_spec(next)[k] by {
                if k < 4 * i {
                    assert(rgba_spec(pixels@.take(i as int))[k] == rgba_spec(next)[k]);
                }
            }
            assert(rgba@ =~= rgba_spec(next));
        }
        i = i + 1;
    }
    assert(pixels@.take(n as int) =~= pixels@);
    rgba
}

/// `overlay` composited over `destination`, pixel by pixel, as far as both reach.
pub open spec fn blend_full_frame_spec(destination: Seq<u32>, overlay: Seq<u32>) -> Seq<u32> {
    Seq::new(
        destination.len(),
        |i: int| if i < overlay.len() { alpha_over_spec(destination[i], overlay[i]) } else { destination[i] },
    )
}

/// Composites `overlay` over `destination`, pixel by pixel, as far as both reach.
pub fn blend_full_frame(destination: &mut [u32], overlay: &[u32])
    ensures
        final(destination)@ == blend_full_frame_spec(old(destination)@, overlay@),
{
    let ghost before = destination@;
    let n = if destination.len() <= overlay.len() { destination.len() } else { overlay.len() };
    let mut i: usize = 0;
    while i < n
        invariant
            n <= before.len(),
            n <= overlay@.len(),
            n == before.len() || n == overlay@.len(),
            destination@.len() == before.len(),
            i <= n,
            forall|k: int| 0 <= k < before.len() ==> #[trigger] destination@[k] == if k < i {
                alpha_over_spec(before[k], overlay@[k])
            } else {
                before[k]
            },
        decreases n - i,
    {
        let blended = alpha_over(destination[i], overlay[i]);
        destination[i] = blended;
        i = i + 1;
    }
    assert(destination@ =~= blend_full_frame_spec(before, overlay@));
}

/// Where the `wl_shm` protocol puts red, green, blue and alpha in a pixel word of the
/// 32-bit format with protocol value `code`: the byte of each (0 the least significant),
/// alpha `None` where that byte is unused. The format names list the channels from the
/// most significant byte down (ARGB8888 = 0, XRGB8888 = 1, and the DRM codes "AB24",
/// "XB24", "RA24", "RX24", "BA24", "BX24").
pub open spec fn shm_channel_bytes(code: u32) -> Option<(u32, u32, u32, Option<u32>)> {
    if code == 0 {
        Some((2, 1, 0, Some(3u32)))
    } else if code == 1 {
        Some((2, 1, 0, None))
    } else if code == 0x3432_4241 {
        Some((0, 1, 2, Some(3u32)))
    } else if code == 0x3432_4258 {
        Some((0, 1, 2, None))
    } else if code == 0x3432_4152 {
        Some((3, 2, 1, Some(0u32)))
    } else if code == 0x3432_5852 {
        Some((3, 2, 1, None))
    } else if code == 0x3432_4142 {
        Some((1, 2, 3, Some(0u32)))
    } else if code == 0x3432_5842 {
        Some((1, 2, 3, None))
    } else {
        None
    }
}

/// `from_wl_shm` maps each `wl_shm` format to the layout of that name: a pixel of the
/// returned layout normalizes to ARGB whose red, green and blue come from the bytes the
/// protocol puts them in, and whose alpha is the format's alpha byte, or opaque where the
/// format has none. Formats that are not such a layout are refused.
pub proof fn lemma_wl_shm_formats_keep_channels(code: u32, pixel: u32)
    ensures
        format_for_code(code) is None <==> shm_channel_bytes(code) is None,
        format_for_code(code) matches Some(f) ==> ({
            let (r, g, b, a) = shm_channel_bytes(code).unwrap();
            let n = normalize_spec(f, pixel);
            &&& channel(n, 16) == byte_of(pixel, r)
            &&& channel(n, 8) == byte_of(pixel, g)
            &&& channel(n, 0) == byte_of(pixel, b)
            &&& channel(n, 24) == match a {
                Some(k) => byte_of(pixel, k),
                None => 0xFF,
            }
        }),
{
    match format_for_code(code) {
        Some(f) => lemma_normalize_channels(f, pixel),
        None => {},
    }
}

/// A transparent overlay leaves the frame as it is.
pub proof fn lemma_transparent_overlay_keeps_frame(destination: Seq<u32>, overlay: Seq<u32>)
    requires
        forall|i: int| 0 <= i < overlay.len() ==> channel(#[trigger] overlay[i], 24) == 0,
    ensures
        blend_full_frame_spec(destination, overlay) == destination,
{
    assert(blend_full_frame_spec(destination, overlay) =~= destination);
}

/// An overlay placed at (ox, oy): its opaque pixel (x, y) replaces the destination pixel
/// (ox + x, oy + y) where that lies on the destination.
pub proof fn lemma_region_lands_at_offset(
    destination: Seq<u32>,
    dest_width: int,
    dest_height: int,
    ox: int,
    oy: int,
    overlay: Seq<u32>,
    overlay_width: int,
    overlay_height: int,
    x: int,
    y: int,
)
    requires
        0 < dest_width,
        0 <= dest_height,
        dest_width * dest_height <= destination.len(),
        0 <= ox,
        0 <= oy,
        0 <= x < overlay_width,
        0 <= y < overlay_height,
        ox + x < dest_width,
        oy + y < dest_height,
        y * overlay_width + x < overlay.len(),
        channel(overlay[y * overlay_width + x], 24) == 0xFF,
    ensures
        blend_region_spec(destination, dest_width, dest_height, ox, oy, overlay, overlay_width, overlay_height)[(oy + y) * dest_width + (ox + x)]
            == overlay[y * overlay_width + x],
{
    let i = (oy + y) * dest_width + (ox + x);
    crate::raster::lemma_pixel_index(dest_width, dest_height, ox + x, oy + y);
    assert(i / dest_width == oy + y && i % dest_width == ox + x);
    lemma_alpha_over_extremes(destination[i], overlay[y * overlay_width + x]);
}

/// Opaque overlay pixels replace the frame's pixels, and frame pixels past the end of the
/// overlay stay as they are; the frame keeps its size.
pub proof fn lemma_opaque_overlay_replaces_frame(destination: Seq<u32>, overlay: Seq<u32>)
    ensures
        blend_full_frame_spec(destination, overlay).len() == destination.len(),
        forall|i: int| 0 <= i < destination.len() && i < overlay.len() && channel(overlay[i], 24) == 0xFF
            ==> #[trigger] blend_full_frame_spec(destination, overlay)[i] == overlay[i],
        forall|i: int| overlay.len() <= i < destination.len()
            ==> #[trigger] blend_full_frame_spec(destination, overlay)[i] == destination[i],
{
    assert forall|i: int| 0 <= i < destination.len() && i < overlay.len() && channel(overlay[i], 24) == 0xFF
        implies #[trigger] blend_full_frame_spec(destination, overlay)[i] == overlay[i] by {
        lemma_alpha_over_extremes(destination[i], overlay[i]);
    }
}

/// The RGBA bytes of pixel `k` are its red, green, blue and alpha channels, in that order.
pub proof fn lemma_rgba_byte_order(pixels: Seq<u32>, k: int)
    requires
        0 <= k < pixels.len(),
    ensures
        rgba_spec(pixels).len() == 4 * pixels.len(),
        rgba_spec(pixels)[4 * k] == channel(pixels[k], 16),
        rgba_spec(pixels)[4 * k + 1] == channel(pixels[k], 8),
        rgba_spec(pixels)[4 * k + 2] == channel(pixels[k], 0),
        rgba_spec(pixels)[4 * k + 3] == channel(pixels[k], 24),
{
    lemma_channel_bound(pixels[k], 16);
    lemma_channel_bound(pixels[k], 8);
    lemma_channel_bound(pixels[k], 0);
    lemma_channel_bound(pixels[k], 24);
    assert((4 * k) / 4 == k && (4 * k) % 4 == 0);
    assert((4 * k + 1) / 4 == k && (4 * k + 1) % 4 == 1);
    assert((4 * k + 2) / 4 == k && (4 * k + 2) % 4 == 2);
    assert((4 * k + 3) / 4 == k && (4 * k + 3) % 4 == 3);
}

/// Rows and columns of an overlay placed at `offset` that land on the destination.
pub open spec fn region_rows(dest_height: int, offset_y: int, overlay_height: int) -> int {
    if offset_y >= dest_height { 0 } else if overlay_height <= dest_height - offset_y { overlay_height } else { dest_height - offset_y }
}

/// The overlay placed at `offset` stays within both buffers and their index arithmetic.
pub open spec fn region_fits(
    dest_len: int,
    dest_width: int,
    dest_height: int,
    offset_x: int,
    offset_y: int,
    overlay_len: int,
    overlay_width: int,
    overlay_height: int,
) -> bool {
    let rows = region_rows(dest_height, offset_y, overlay_height);
    let cols = region_rows(dest_width, offset_x, overlay_width);
    &&& dest_width * dest_height <= dest_len
    &&& offset_x + overlay_width <= usize::MAX
    &&& offset_y + overlay_height <= usize::MAX
    &&& (rows > 0 && cols > 0) ==> (rows - 1) * overlay_width + cols <= overlay_len
}

/// The destination after compositing the part of the overlay that lands on it.
pub open spec fn blend_region_spec(
    destination: Seq<u32>,
    dest_width: int,
    dest_height: int,
    offset_x: int,
    offset_y: int,
    overlay: Seq<u32>,
    overlay_width: int,
    overlay_height: int,
) -> Seq<u32> {
    let rows = region_rows(dest_height, offset_y, overlay_height);
    let cols = region_rows(dest_width, offset_x, overlay_width);
    Seq::new(
        destination.len(),
        |i: int| {
            let r = i / dest_width;
            let c = i % dest_width;
            if 0 <= i < dest_width * dest_height && offset_y <= r < offset_y + rows && offset_x <= c < offset_x + cols {
                alpha_over_spec(destination[i], overlay[(r - offset_y) * overlay_width + (c - offset_x)])
            } else {
                destination[i]
            }
        },
    )
}

/// Composites an `overlay_width` by `overlay_height` overlay over `destination` with its
/// top-left corner at `offset`, clipped to the destination.
pub fn blend_region(
    destination: &mut [u32],
    destination_size: (usize, usize),
    offset: (usize, usize),
    overlay: &[u32],
    overlay_width: usize,
    overlay_height: usize,
)
    requires
        region_fits(old(destination)@.len() as int, destination_size.0 as int, destination_size.1 as int,
            offset.0 as int, offset.1 as int, overlay@.len() as int, overlay_width as int, overlay_height as int),
    ensures
        final(destination)@ == blend_region_spec(old(destination)@, destination_size.0 as int, destination_size.1 as int,
            offset.0 as int, offset.1 as int, overlay@, overlay_width as int, overlay_height as int),
{
    let (dest_width, dest_height) = destination_size;
    let (offset_x, offset_y) = offset;
    let ghost before = destination@;
    let ghost dw = dest_width as int;
    let ghost dh = dest_height as int;
    let ghost ow = overlay_width as int;
    let ghost rows = region_rows(dh, offset_y as int, overlay_height as int);
    let ghost cols = region_rows(dw, offset_x as int, ow);
    let ghost target = blend_region_spec(before, dw, dh, offset_x as int, offset_y as int, overlay@, ow, overlay_height as int);
    let len = destination.len();
    let overlay_len = overlay.len();
    let row_count: usize = if offset_y >= dest_height {
        0
    } else if overlay_height <= dest_height - offset_y {
        overlay_height
    } else {
        dest_height - offset_y
    };
    let col_count: usize = if offset_x >= dest_width {
        0
    } else if overlay_width <= dest_width - offset_x {
        overlay_width
    } else {
        dest_width - offset_x
    };
    let mut y: usize = 0;
    while y < row_count
        invariant
            region_fits(before.len() as int, dw, dh, offset_x as int, offset_y as int, overlay@.len() as int, ow, overlay_height as int),
            dw == dest_width,
            dh == dest_height,
            ow == overlay_width,
            rows == region_rows(dh, offset_y as int, overlay_height as int),
            cols == region_rows(dw, offset_x as int, ow),
            target == blend_region_spec(before, dw, dh, offset_x as int, offset_y as int, overlay@, ow, overlay_height as int),
            destination@.len() == before.len(),
            len == before.len(),
            overlay_len == overlay@.len(),
            row_count == rows,
            col_count == cols,
            y <= rows,
            forall|i: int| 0 <= i < before.len() ==> #[trigger] destination@[i] == if 0 <= i < dw * dh && i / dw < offset_y + y {
                target[i]
            } else {
                before[i]
            },
        decreases row_count - y,
    {
        let destination_y = offset_y + y;
        let mut x: usize = 0;
        while x < col_count
            invariant
                region_fits(before.len() as int, dw, dh, offset_x as int, offset_y as int, overlay@.len() as int, ow, overlay_height as int),
                dw == dest_width,
                dh == dest_height,
                ow == overlay_width,
                rows == region_rows(dh, offset_y as int, overlay_height as int),
                cols == region_rows(dw, offset_x as int, ow),
                target == blend_region_spec(before, dw, dh, offset_x as int, offset_y as int, overlay@, ow, overlay_height as int),
                destination@.len() == before.len(),
                len == before.len(),
                overlay_len == overlay@.len(),
                row_count == rows,
                col_count == cols,
                destination_y == offset_y + y,
                destination_y < dest_height,
                y < rows,
                x <= cols,
                forall|i: int| 0 <= i < before.len() ==> #[trigger] destination@[i] == if 0 <= i < dw * dh && (i / dw < offset_y + y
                    || (i / dw == offset_y + y && i % dw < offset_x + x)) {
                    target[i]
                } else {
                    before[i]
                },
            decreases col_count - x,
        {
            let destination_x = offset_x + x;
            proof {
                crate::raster::lemma_pixel_index(dw, dh, destination_x as int, destination_y as int);
                assert(y * ow + x <= (rows - 1) * ow + (cols - 1)) by (nonlinear_arith)
                    requires y <= rows - 1, x <= cols - 1, ow >= 0;
            }
            let destination_index = destination_y * dest_width + destination_x;
            let overlay_index = y * overlay_width + x;
            let blended = alpha_over(destination[destination_index], overlay[overlay_index]);
            destination[destination_index] = blended;
            proof {
                assert forall|i: int| 0 <= i < before.len() implies #[trigger] destination@[i] == if 0 <= i < dw * dh && (i / dw < offset_y + y
                    || (i / dw == offset_y + y && i % dw < offset_x + x + 1)) {
                    target[i]
                } else {
                    before[i]
                } by {
                    if 0 <= i < dw * dh {
                        crate::raster::lemma_pixel_coords(dw, dh, i);
                    }
                }
            }
            x = x + 1;
        }
        proof {
            assert forall|i: int| 0 <= i < before.len() implies #[trigger] destination@[i] == if 0 <= i < dw * dh && i / dw < offset_y + y + 1 {
                target[i]
            } else {
                before[i]
            } by {
                if 0 <= i < dw * dh {
                    crate::raster::lemma_pixel_coords(dw, dh, i);
                }
            }
        }
        y = y + 1;
    }
    proof {
        assert forall|i: int| 0 <= i < before.len() implies #[trigger] destination@[i] == target[i] by {
            if 0 <= i < dw * dh {
                crate::raster::lemma_pixel_coords(dw, dh, i);
            }
        }
        assert(destination@ =~= target);
    }
}

/// The PNG file `png::Encoder` writes for `rgba` as a `width` by `height` 8-bit RGBA
/// image with its default options, or the message of the error it stops with.
pub uninterp spec fn png_rgba8_encoding(rgba: Seq<u8>, width: u32, height: u32) -> Result<Seq<u8>, Seq<char>>;

/// The eight bytes every PNG file starts with.
pub open spec fn png_signature() -> Seq<u8> {
    seq![137u8, 80u8, 78u8, 71u8, 13u8, 10u8, 26u8, 10u8]
}

/// Encodes 8-bit RGBA data into an in-memory PNG with `png::Encoder` (header, image
/// data, finish). The result is what the encoder wrote, or the `Display` text of the
/// error it stopped with. As the encoder's source shows, a zero width or height and data
/// that is not exactly `4 * width * height` bytes are errors, any other input encodes
/// (writing into a `Vec` cannot fail), and a written file begins with the PNG signature.
#[verifier::external_body]
fn encode_rgba_png(rgba: &[u8], width: u32, height: u32) -> (encoded: Result<Vec<u8>, String>)
    requires
        4 * width * height <= usize::MAX,
    ensures
        encoded matches Ok(bytes) ==> (png_rgba8_encoding(rgba@, width, height) matches Ok(b) && b == bytes@
            && bytes@.len() >= 8 && bytes@.take(8) == png_signature()),
        encoded matches Err(message) ==> (png_rgba8_encoding(rgba@, width, height) matches Err(m) && m == message@),
        encoded is Ok <==> (width > 0 && height > 0 && rgba@.len() == 4 * width * height),
{
    let mut encoded = Vec::new();
    let mut encoder = png::Encoder::new(std::io::BufWriter::new(&mut encoded), width, height);
    encoder.set_color(png::ColorType::Rgba);
    encoder.set_depth(png::BitDepth::Eight);
    let mut writer = match encoder.write_header() {
        Ok(writer) => writer,
        Err(err) => return Err(err.to_string()),
    };
    if let Err(err) = writer.write_image_data(rgba) {
        return Err(err.to_string());
    }
    if let Err(err) = writer.finish() {
        return Err(err.to_string());
    }
    Ok(encoded)
}

/// Message of the error for a screenshot the encoder refused.
pub open spec fn png_error_message(message: Seq<char>) -> Seq<char> {
    "failed to encode screenshot as PNG: "@ + message
}

/// Encodes ARGB pixels as a `width` by `height` RGBA PNG file. The sides are taken as `u32`.
pub fn encode_png_bytes(pixels: &[u32], width: usize, height: usize) -> (encoded: Result<Vec<u8>, AppError>)
    requires
        4 * pixels@.len() <= usize::MAX,
        4 * (width as u32) * (height as u32) <= usize::MAX,
    ensures
        png_rgba8_encoding(rgba_spec(pixels@), width as u32, height as u32) matches Ok(bytes) ==> (encoded matches Ok(e) && e@ == bytes),
        png_rgba8_encoding(rgba_spec(pixels@), width as u32, height as u32) matches Err(m) ==> (encoded matches Err(
            AppError::RuntimeState { message }) && message@ == png_error_message(m)),
        encoded matches Ok(e) ==> e@.len() >= 8 && e@.take(8) == png_signature(),
        encoded is Ok <==> ((width as u32) > 0 && (height as u32) > 0 && 4 * pixels@.len() == 4 * (width as u32) * (height as u32)),
{
    let rgba = rgba_bytes(pixels);
    match encode_rgba_png(rgba.as_slice(), width as u32, height as u32) {
        Ok(bytes) => Ok(bytes),
        Err(message) => {
            let mut full = String::from_str("failed to encode screenshot as PNG: ");
            full.append(message.as_str());
            proof {
                reveal_strlit("failed to encode screenshot as PNG: ");
            }
            Err(AppError::runtime(full))
        },
    }
}

/// Hexadecimal digits, upper case.
pub open spec fn hex_digits() -> Seq<char> {
    "0123456789ABCDEF"@
}

/// Hex digit `k` (0 to 5, most significant first) of a color's red, green and blue.
pub open spec fn rgb_nibble(color: u32, k: int) -> u32 {
    (color >> ((20 - 4 * k) as u32)) & 0xF
}

/// A color as `#RRGGBB`, upper case; alpha is left out.
pub open spec fn rgb_hex_spec(color: u32) -> Seq<char> {
    seq!['#'] + Seq::new(6, |k: int| hex_digits()[rgb_nibble(color, k) as int])
}

/// The text the color picker shows and copies for `color`.
pub fn rgb_hex(color: u32) -> (hex: String)
    ensures
        hex@ == rgb_hex_spec(color),
{
    let digits = "0123456789ABCDEF";
    proof {
        reveal_strlit("0123456789ABCDEF");
        reveal_strlit("#");
        assert(forall|c: u32, s: u32| #[trigger] ((c >> s) & 0xF) < 16) by (bit_vector);
    }
    let mut hex = String::from_str("#");
    let mut k: usize = 0;
    while k < 6
        invariant
            k <= 6,
            digits@ == hex_digits(),
            digits@.len() == 16,
            hex@ == seq!['#'] + Seq::new(k as nat, |j: int| hex_digits()[rgb_nibble(color, j) as int]),
            forall|c: u32, s: u32| #[trigger] ((c >> s) & 0xF) < 16,
        decreases 6 - k,
    {
        let shift = (20 - 4 * k) as u32;
        let d = ((color >> shift) & 0xF) as usize;
        assert(d as u32 == rgb_nibble(color, k as int));
        let piece = digits.substring_char(d, d + 1);
        assert(piece@ =~= seq![hex_digits()[d as int]]);
        let ghost before = hex@;
        hex.append(piece);
        assert(hex@ =~= seq!['#'] + Seq::new((k + 1) as nat, |j: int| hex_digits()[rgb_nibble(color, j) as int])) by {
            assert(before =~= seq!['#'] + Seq::new(k as nat, |j: int| hex_digits()[rgb_nibble(color, j) as int]));
        }
        k = k + 1;
    }
    hex
}

} // verus!
