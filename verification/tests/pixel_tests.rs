use alidraw::{
    corner_alpha, generate_rainbow_icon, icon_glyph, lucide_icon, pixels_for_format, premultiply_rgba,
    rainbow, rgba_to_rgb_over_white, unpremultiply_rgba, ExportFormat, ToolbarIcon,
};

#[test]
fn unpremultiply_examples() {
    let out = unpremultiply_rgba(&[0, 0, 0, 0, 10, 20, 30, 255, 64, 32, 0, 128, 200, 9]);
    // transparent, opaque, half alpha; two stray bytes dropped
    assert_eq!(out.len(), 12);
    assert_eq!(&out[0..4], &[0, 0, 0, 0]);
    assert_eq!(&out[4..8], &[10, 20, 30, 255]);
    // (64*255 + 64) / 128 = 128, (32*255 + 64) / 128 = 64
    assert_eq!(&out[8..12], &[128, 64, 0, 128]);
}

#[test]
fn unpremultiply_caps_at_255() {
    // component larger than alpha: (200*255 + 50) / 100 = 510 -> 255
    assert_eq!(unpremultiply_rgba(&[200, 0, 0, 100]), vec![255, 0, 0, 100]);
    // transparent pixel with colour becomes all zero
    assert_eq!(unpremultiply_rgba(&[5, 6, 7, 0]), vec![0, 0, 0, 0]);
}

#[test]
fn premultiply_examples() {
    let mut data = vec![200, 100, 50, 128, 9, 9, 9, 0, 1, 2, 3, 255, 77];
    premultiply_rgba(&mut data);
    // (200*128+127)/255 = 100, (100*128+127)/255 = 50, (50*128+127)/255 = 25
    assert_eq!(data, vec![100, 50, 25, 128, 0, 0, 0, 0, 1, 2, 3, 255, 77]);
}

#[test]
fn over_white_examples() {
    let out = rgba_to_rgb_over_white(&[10, 20, 30, 255, 10, 20, 30, 0, 0, 0, 0, 128, 1]);
    assert_eq!(out.len(), 9);
    assert_eq!(&out[0..3], &[10, 20, 30]);
    assert_eq!(&out[3..6], &[255, 255, 255]);
    // (0*128 + 255*127 + 127) / 255 = 127
    assert_eq!(&out[6..9], &[127, 127, 127]);
}

#[test]
fn pixels_for_formats() {
    let rgba = [10, 20, 30, 255, 0, 0, 0, 0];
    assert_eq!(pixels_for_format(&rgba, ExportFormat::Png), rgba.to_vec());
    assert_eq!(pixels_for_format(&rgba, ExportFormat::Jpeg), vec![10, 20, 30, 255, 255, 255]);
}

#[test]
fn export_format_from_extension() {
    assert_eq!(ExportFormat::from_extension(Some("jpg")), ExportFormat::Jpeg);
    assert_eq!(ExportFormat::from_extension(Some("JPEG")), ExportFormat::Jpeg);
    assert_eq!(ExportFormat::from_extension(Some("JpG")), ExportFormat::Jpeg);
    assert_eq!(ExportFormat::from_extension(Some("png")), ExportFormat::Png);
    assert_eq!(ExportFormat::from_extension(Some("jpgs")), ExportFormat::Png);
    assert_eq!(ExportFormat::from_extension(Some("")), ExportFormat::Png);
    assert_eq!(ExportFormat::from_extension(None), ExportFormat::Png);
}

#[test]
fn default_extension_round_trip() {
    assert_eq!(ExportFormat::Png.default_extension(), "png");
    assert_eq!(ExportFormat::Jpeg.default_extension(), "jpg");
    for f in [ExportFormat::Png, ExportFormat::Jpeg] {
        assert_eq!(ExportFormat::from_extension(Some(f.default_extension())), f);
    }
}

#[test]
fn corner_alpha_examples() {
    assert_eq!(corner_alpha(0, 0, 64, 12), 0);
    assert_eq!(corner_alpha(63, 63, 64, 12), 0);
    assert_eq!(corner_alpha(32, 32, 64, 12), 255);
    assert_eq!(corner_alpha(12, 0, 64, 12), 255);
    // (3 - 12)^2 + (3 - 12)^2 = 162 > 144
    assert_eq!(corner_alpha(3, 3, 64, 12), 0);
    // (4 - 12)^2 + (4 - 12)^2 = 128 <= 144
    assert_eq!(corner_alpha(4, 4, 64, 12), 255);
    // mirrored
    assert_eq!(corner_alpha(59, 4, 64, 12), 255);
    assert_eq!(corner_alpha(60, 3, 64, 12), 0);
}

#[test]
fn rainbow_icon_layout() {
    let rgba = generate_rainbow_icon();
    assert_eq!(rgba.len(), 64 * 64 * 4);
    // top-left corner is cut away
    assert_eq!(&rgba[0..4], &[255, 59, 48, 0]);
    // middle of the first row band
    let p = (4 * 64 + 32) * 4;
    assert_eq!(&rgba[p..p + 4], &[255, 59, 48, 255]);
    // row 9 starts the second band
    let p = (9 * 64 + 32) * 4;
    assert_eq!(&rgba[p..p + 4], &[255, 149, 0, 255]);
    // rows 54 to 63 are the last band
    let p = (60 * 64 + 32) * 4;
    assert_eq!(&rgba[p..p + 4], &[175, 82, 222, 255]);
}

#[test]
fn rainbow_wraps_around() {
    assert_eq!(rainbow(0), (255, 59, 48));
    assert_eq!(rainbow(6), (175, 82, 222));
    assert_eq!(rainbow(7), (255, 59, 48));
    assert_eq!(rainbow(10), (76, 217, 100));
}

#[test]
fn toolbar_glyphs() {
    assert_eq!(icon_glyph(ToolbarIcon::Brush), '\u{e2e7}');
    assert_eq!(icon_glyph(ToolbarIcon::Eraser), '\u{e28f}');
    assert_eq!(icon_glyph(ToolbarIcon::Undo), '\u{e2a1}');
    assert_eq!(icon_glyph(ToolbarIcon::Quit), '\u{e140}');
    assert_eq!(lucide_icon(ToolbarIcon::Marker), "highlighter");
    let all = [
        ToolbarIcon::Brush, ToolbarIcon::Eraser, ToolbarIcon::Pencil, ToolbarIcon::Marker,
        ToolbarIcon::Watercolor, ToolbarIcon::Undo, ToolbarIcon::Redo, ToolbarIcon::Save,
        ToolbarIcon::Open, ToolbarIcon::New, ToolbarIcon::Quit,
    ];
    for icon in all {
        assert_eq!(
            icon_glyph(icon),
            char::from(lucide_icons::Icon::try_from(lucide_icon(icon)).unwrap())
        );
    }
}

#[test]
fn opaque_and_transparent_pixels_survive_the_round_trip() {
    let mut data = vec![12, 34, 56, 255, 78, 90, 12, 0];
    premultiply_rgba(&mut data);
    assert_eq!(unpremultiply_rgba(&data), vec![12, 34, 56, 255, 0, 0, 0, 0]);
}

#[test]
fn icon_mask_is_symmetric() {
    for y in 0..64u32 {
        for x in 0..64u32 {
            let a = corner_alpha(x, y, 64, 12);
            assert_eq!(a, corner_alpha(63 - x, y, 64, 12));
            assert_eq!(a, corner_alpha(x, 63 - y, 64, 12));
        }
    }
}

#[test]
fn premultiply_restores_unpremultiplied_bytes() {
    let mut x = Vec::new();
    for a in 0..=255u8 {
        for c in [0, a / 3, a / 2, a] {
            x.extend_from_slice(&[c, a / 4, a, a]);
        }
    }
    let mut data = unpremultiply_rgba(&x);
    premultiply_rgba(&mut data);
    assert_eq!(data, x);
}

#[test]
fn icon_mask_is_symmetric_under_transposition() {
    for (size, radius) in [(64u32, 12u32), (10, 5), (9, 4), (1, 0)] {
        for y in 0..size {
            for x in 0..size {
                assert_eq!(corner_alpha(x, y, size, radius), corner_alpha(y, x, size, radius));
                assert_eq!(corner_alpha(x, y, size, radius), corner_alpha(size - 1 - x, y, size, radius));
                assert_eq!(corner_alpha(x, y, size, radius), corner_alpha(x, size - 1 - y, size, radius));
            }
        }
    }
}

#[test]
fn corner_alpha_on_large_coordinates() {
    // coordinates far beyond single-precision exactness are checked exactly
    let size = 1u32 << 21;
    let radius = 1u32 << 12;
    assert_eq!(corner_alpha(radius, 0, size, radius), 255);
    assert_eq!(corner_alpha(0, 0, size, radius), 0);
    assert_eq!(corner_alpha(u32::MAX, u32::MAX, size, radius), 0);
}
