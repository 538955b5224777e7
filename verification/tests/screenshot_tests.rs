use shmooz::raster::alpha_over;
use shmooz::screenshot::{
    blend_full_frame, blend_region, encode_png_bytes, normalize_source_pixel, rgba_bytes,
    SourcePixelFormat,
};
use wayland_client::protocol::wl_shm;

#[test]
fn blend_pixel_composites_premultiplied_overlay() {
    let destination = 0xFF20_3040;
    let overlay = 0x8080_0000;

    assert_eq!(alpha_over(destination, overlay), 0xFF90_1820);
}

#[test]
fn normalize_source_pixel_handles_all_8888_formats() {
    let cases = [
        (SourcePixelFormat::Argb8888, 0xAA11_2233, 0xAA11_2233),
        (SourcePixelFormat::Xrgb8888, 0x0011_2233, 0xFF11_2233),
        (SourcePixelFormat::Abgr8888, 0xAA33_2211, 0xAA11_2233),
        (SourcePixelFormat::Xbgr8888, 0x0033_2211, 0xFF11_2233),
        (SourcePixelFormat::Rgba8888, 0x1122_33AA, 0xAA11_2233),
        (SourcePixelFormat::Rgbx8888, 0x1122_3300, 0xFF11_2233),
        (SourcePixelFormat::Bgra8888, 0x3322_11AA, 0xAA11_2233),
        (SourcePixelFormat::Bgrx8888, 0x3322_1100, 0xFF11_2233),
    ];

    for (format, source_pixel, expected) in cases {
        assert_eq!(normalize_source_pixel(format, source_pixel), expected);
    }
}

#[test]
fn screenshot_format_rejects_non_8888_layouts() {
    assert!(SourcePixelFormat::from_wl_shm(u32::from(wl_shm::Format::Rgb888), "Rgb888").is_err());
}

#[test]
fn screenshot_format_accepts_8888_layouts() {
    assert_eq!(
        SourcePixelFormat::from_wl_shm(u32::from(wl_shm::Format::Xbgr8888), "Xbgr8888"),
        Ok(SourcePixelFormat::Xbgr8888)
    );
    assert_eq!(
        SourcePixelFormat::from_wl_shm(u32::from(wl_shm::Format::Argb8888), "Argb8888"),
        Ok(SourcePixelFormat::Argb8888)
    );
}

#[test]
fn encode_png_bytes_writes_png_signature() {
    let encoded = encode_png_bytes(&[0xFFFF_0000], 1, 1).unwrap();

    assert_eq!(&encoded[..8], b"\x89PNG\r\n\x1a\n");
}

#[test]
fn encode_png_bytes_rejects_mismatched_size() {
    assert!(encode_png_bytes(&[0xFFFF_0000], 2, 1).is_err());
    assert!(encode_png_bytes(&[], 0, 0).is_err());
}

#[test]
fn rgba_bytes_reorders_channels() {
    assert_eq!(rgba_bytes(&[0x4411_2233, 0xFF00_00FF]), vec![0x11, 0x22, 0x33, 0x44, 0, 0, 0xFF, 0xFF]);
}

#[test]
fn full_frame_blend_stops_at_the_shorter_buffer() {
    let mut frame = [0xFF00_0000, 0xFF00_0000, 0xFF00_0000];
    blend_full_frame(&mut frame, &[0xFFFF_FFFF, 0x0000_0000]);
    assert_eq!(frame, [0xFFFF_FFFF, 0xFF00_0000, 0xFF00_0000]);
}

#[test]
fn region_blend_is_clipped_to_the_destination() {
    let mut frame = [0u32; 9];
    let overlay = [0xFF11_1111u32; 4];
    blend_region(&mut frame, (3, 3), (2, 1), &overlay, 2, 2);
    assert_eq!(frame, [0, 0, 0, 0, 0, 0xFF11_1111, 0, 0, 0xFF11_1111]);
}
