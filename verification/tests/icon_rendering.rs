use base64::Engine;
use motd::icon::{
    calc_image_size, favicon_glyphs, glyph_lines, img2lines, strip_icon_prefix, IconError,
};
use motd::style::Rgb;

fn rgb(r: u8, g: u8, b: u8) -> Rgb {
    Rgb { r, g, b }
}

fn png_bytes(width: u32, height: u32, color: [u8; 4]) -> Vec<u8> {
    let img = image::RgbaImage::from_pixel(width, height, image::Rgba(color));
    let mut buf: Vec<u8> = Vec::new();
    image::DynamicImage::ImageRgba8(img)
        .write_to(&mut std::io::Cursor::new(&mut buf), image::ImageFormat::Png)
        .unwrap();
    buf
}

#[test]
fn size_is_capped_at_sixty_four_when_height_limits() {
    // Terminal 100 by 40 with five lines printed: 87 columns and 34 rows
    // free, height-limited, 34 * 2 - 2 = 66 capped to 64.
    assert_eq!(calc_image_size((100, 40), (13, 6)), Some(64));
}

#[test]
fn narrow_terminal_is_too_small() {
    // 20 - 13 = 7 free columns is below the minimum of 13.
    assert_eq!(calc_image_size((20, 40), (13, 6)), None);
}

#[test]
fn width_limited_terminal_uses_free_width() {
    assert_eq!(calc_image_size((30, 100), (13, 6)), Some(17));
}

#[test]
fn height_limited_terminal_without_cap() {
    assert_eq!(calc_image_size((40, 10), (13, 6)), Some(6));
}

#[test]
fn terminal_not_above_the_margin_is_too_small() {
    assert_eq!(calc_image_size((13, 40), (13, 6)), None);
    assert_eq!(calc_image_size((40, 6), (13, 6)), None);
}

#[test]
fn glyphs_pair_two_rows_column_by_column() {
    let rows = vec![
        vec![rgb(1, 0, 0), rgb(2, 0, 0), rgb(3, 0, 0)],
        vec![rgb(4, 0, 0), rgb(5, 0, 0), rgb(6, 0, 0)],
    ];
    let lines = glyph_lines(&rows);
    assert_eq!(lines.len(), 1);
    assert_eq!(lines[0].len(), 3, "every pixel pair becomes one glyph");
    assert_eq!(lines[0][0].upper, rgb(1, 0, 0));
    assert_eq!(lines[0][0].lower, rgb(4, 0, 0));
    assert_eq!(lines[0][1].upper, rgb(2, 0, 0));
    assert_eq!(lines[0][1].lower, rgb(5, 0, 0));
    assert_eq!(lines[0][2].upper, rgb(3, 0, 0));
    assert_eq!(lines[0][2].lower, rgb(6, 0, 0));
}

#[test]
fn glyphs_never_pass_the_shorter_row() {
    let rows = vec![vec![rgb(1, 0, 0), rgb(2, 0, 0)], vec![rgb(3, 0, 0)]];
    let lines = glyph_lines(&rows);
    assert_eq!(lines.len(), 1);
    assert_eq!(lines[0].len(), 1);
    assert_eq!(lines[0][0].upper, rgb(1, 0, 0));
    assert_eq!(lines[0][0].lower, rgb(3, 0, 0));
}

#[test]
fn a_trailing_unpaired_row_yields_an_empty_line() {
    let rows = vec![
        vec![rgb(1, 0, 0), rgb(2, 0, 0)],
        vec![rgb(3, 0, 0), rgb(4, 0, 0)],
        vec![rgb(5, 0, 0), rgb(6, 0, 0)],
    ];
    let lines = glyph_lines(&rows);
    assert_eq!(lines.len(), 2);
    assert_eq!(lines[0].len(), 2);
    assert_eq!(lines[1].len(), 0);
}

#[test]
fn img2lines_renders_a_uniform_image() {
    let bytes = png_bytes(4, 4, [200, 100, 50, 255]);
    let lines = img2lines(&bytes, 4).unwrap();
    assert_eq!(lines.len(), 2);
    for line in &lines {
        assert_eq!(line.len(), 4);
        for block in line {
            assert_eq!(block.upper, rgb(200, 100, 50));
            assert_eq!(block.lower, rgb(200, 100, 50));
        }
    }
}

#[test]
fn img2lines_rejects_unreadable_bytes() {
    assert_eq!(img2lines(&[1, 2, 3, 4], 8), Err(IconError::UndecodableImage));
}

#[test]
fn prefix_is_stripped_only_when_present() {
    assert_eq!(strip_icon_prefix("data:image/png;base64,QUJD"), "QUJD");
    assert_eq!(strip_icon_prefix("QUJD"), "QUJD");
    assert_eq!(strip_icon_prefix("data:image/png;base64"), "data:image/png;base64");
}

#[test]
fn favicon_pipeline_renders_a_png_payload() {
    let bytes = png_bytes(2, 2, [10, 20, 30, 255]);
    let b64 = base64::engine::general_purpose::STANDARD.encode(&bytes);
    let payload = format!("data:image/png;base64,{b64}");
    // Size 64 from the capped height rule; a 2 by 2 raster scales to 64.
    let lines = favicon_glyphs(&payload, (100, 40), 5).unwrap();
    assert_eq!(lines.len(), 32);
    assert_eq!(lines[0].len(), 64);
    assert_eq!(lines[0][0].upper, rgb(10, 20, 30));
}

#[test]
fn img2lines_is_a_function_of_bytes_and_size() {
    let bytes = png_bytes(3, 5, [7, 8, 9, 255]);
    let first = img2lines(&bytes, 8).unwrap();
    let second = img2lines(&bytes, 8).unwrap();
    assert_eq!(first, second);
}

#[test]
fn img2lines_output_fits_the_requested_square() {
    let bytes = png_bytes(16, 16, [1, 2, 3, 255]);
    let lines = img2lines(&bytes, 8).unwrap();
    assert!(lines.len() <= 4);
    for line in &lines {
        assert!(line.len() <= 8);
    }
}

#[test]
fn favicon_pipeline_reports_bad_base64() {
    assert_eq!(favicon_glyphs("!!!", (100, 40), 5), Err(IconError::InvalidBase64));
}

#[test]
fn favicon_pipeline_reports_a_small_terminal() {
    let bytes = png_bytes(2, 2, [0, 0, 0, 255]);
    let b64 = base64::engine::general_purpose::STANDARD.encode(&bytes);
    assert_eq!(favicon_glyphs(&b64, (20, 40), 5), Err(IconError::TermTooSmall));
}

#[test]
fn favicon_pipeline_reports_unreadable_image_bytes() {
    let b64 = base64::engine::general_purpose::STANDARD.encode(b"hello");
    assert_eq!(favicon_glyphs(&b64, (100, 40), 5), Err(IconError::UndecodableImage));
}
