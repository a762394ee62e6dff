use bitmap_font::atlas::AtlasImage;
use bitmap_font::atlas::check_pixel_color;
use bitmap_font::decode::BitmapFont;
use bitmap_font::decode::DecodeError;

const GREEN: [u8; 3] = [0, 255, 0];
const RED: [u8; 3] = [255, 0, 0];
const BLUE: [u8; 3] = [0, 0, 255];

fn blank(width: usize, height: usize) -> Vec<u8> {
    vec![17u8; width * height * 3]
}

fn put(data: &mut [u8], width: usize, x: usize, y: usize, color: [u8; 3]) {
    let i = (x + y * width) * 3;
    data[i..i + 3].copy_from_slice(&color);
}

/// 40 by 20, width marker in column 9, red in rows 15 and 16, blue in rows
/// 10 and 11.
fn sample_atlas() -> Vec<u8> {
    let mut data = blank(40, 20);
    put(&mut data, 40, 9, 0, GREEN);
    put(&mut data, 40, 0, 15, RED);
    put(&mut data, 40, 0, 16, RED);
    put(&mut data, 40, 0, 10, BLUE);
    put(&mut data, 40, 0, 11, BLUE);
    data
}

fn decode(width: usize, height: usize, data: Vec<u8>) -> Result<BitmapFont, DecodeError> {
    bitmap_font::decode::decode(AtlasImage::new(width, height, data).expect("buffer fits the size"))
}

#[test]
fn check_pixel_color_reads_the_addressed_pixel() {
    let mut data = blank(4, 3);
    put(&mut data, 4, 2, 1, [1, 2, 3]);
    assert!(check_pixel_color(&data, 4, 2, 1, 1, 2, 3));
    assert!(!check_pixel_color(&data, 4, 2, 1, 1, 2, 4));
    assert!(!check_pixel_color(&data, 4, 2, 1, 0, 2, 3));
    assert!(!check_pixel_color(&data, 4, 2, 1, 1, 0, 3));
    assert!(!check_pixel_color(&data, 4, 1, 2, 1, 2, 3));
    assert!(check_pixel_color(&data, 4, 3, 2, 17, 17, 17));
}

#[test]
fn atlas_image_wants_three_bytes_to_the_pixel() {
    assert!(AtlasImage::new(2, 2, vec![0; 12]).is_some());
    assert!(AtlasImage::new(2, 2, vec![0; 11]).is_none());
    assert!(AtlasImage::new(2, 2, vec![0; 13]).is_none());
    assert!(AtlasImage::new(0, 5, Vec::new()).is_some());
    assert!(AtlasImage::new(usize::MAX, 2, Vec::new()).is_none());
    let image = AtlasImage::new(3, 2, (0..18).collect()).unwrap();
    assert_eq!(image.width(), 3);
    assert_eq!(image.height(), 2);
    assert_eq!(image.data(), (0..18).collect::<Vec<u8>>().as_slice());
}

#[test]
fn runs_in_the_top_row() {
    let mut data = blank(8, 2);
    put(&mut data, 8, 3, 0, GREEN);
    put(&mut data, 8, 4, 0, GREEN);
    put(&mut data, 8, 6, 0, GREEN);
    put(&mut data, 8, 0, 1, GREEN);
    let image = AtlasImage::new(8, 2, data).unwrap();
    assert_eq!(image.top_row_run(0, 0, 255, 0, false), 3);
    assert_eq!(image.top_row_run(3, 0, 255, 0, true), 2);
    assert_eq!(image.top_row_run(3, 0, 255, 0, false), 0);
    assert_eq!(image.top_row_run(5, 0, 255, 0, false), 1);
    assert_eq!(image.top_row_run(7, 0, 255, 0, false), 1);
    assert_eq!(image.top_row_run(8, 0, 255, 0, false), 0);
    assert_eq!(image.top_row_run(9, 0, 255, 0, true), 0);
    assert_eq!(image.top_row_run(0, 1, 1, 1, false), 8);
}

#[test]
fn runs_in_the_left_column() {
    let mut data = blank(2, 6);
    put(&mut data, 2, 0, 2, RED);
    put(&mut data, 2, 0, 3, RED);
    put(&mut data, 2, 0, 5, RED);
    put(&mut data, 2, 1, 0, RED);
    let image = AtlasImage::new(2, 6, data).unwrap();
    assert_eq!(image.left_column_run(0, 255, 0, 0, false), 2);
    assert_eq!(image.left_column_run(2, 255, 0, 0, true), 2);
    assert_eq!(image.left_column_run(4, 255, 0, 0, false), 1);
    assert_eq!(image.left_column_run(5, 255, 0, 0, true), 1);
    assert_eq!(image.left_column_run(6, 255, 0, 0, true), 0);
    assert_eq!(image.left_column_run(0, 0, 0, 255, false), 6);
}

#[test]
fn decode_reads_the_sample_atlas() {
    let font = decode(40, 20, sample_atlas()).unwrap();
    assert_eq!(font.glyph_width(), 10);
    assert_eq!(font.cell_padding(), 0);
    assert_eq!(font.line_height(), 20);
    let metrics = font.metrics();
    assert_eq!(metrics.average_advance, 10);
    assert_eq!(metrics.line_height, 20);
    assert_eq!(metrics.descent, 0);
    assert_eq!(metrics.underline_position, 5);
    assert_eq!(metrics.underline_thickness, 2);
    assert_eq!(metrics.strikeout_position, 10);
    assert_eq!(metrics.strikeout_thickness, 2);
}

#[test]
fn decode_keeps_every_pixel() {
    let data = sample_atlas();
    let font = decode(40, 20, data.clone()).unwrap();
    assert_eq!(font.atlas().width(), 40);
    assert_eq!(font.atlas().height(), 20);
    assert_eq!(font.atlas().data(), data.as_slice());
}

#[test]
fn decode_recovers_markers_at_known_places() {
    let mut data = blank(30, 12);
    put(&mut data, 30, 6, 0, GREEN);
    put(&mut data, 30, 7, 0, GREEN);
    put(&mut data, 30, 8, 0, GREEN);
    put(&mut data, 30, 9, 0, GREEN);
    put(&mut data, 30, 0, 3, BLUE);
    put(&mut data, 30, 0, 9, RED);
    put(&mut data, 30, 0, 10, RED);
    put(&mut data, 30, 0, 11, RED);
    let font = decode(30, 12, data).unwrap();
    let metrics = font.metrics();
    assert_eq!(font.glyph_width(), 7);
    assert_eq!(font.cell_padding(), 3);
    assert_eq!(metrics.average_advance, 7);
    assert_eq!(metrics.line_height, 12);
    assert_eq!(metrics.underline_position, 3);
    assert_eq!(metrics.underline_thickness, 3);
    assert_eq!(metrics.strikeout_position, 9);
    assert_eq!(metrics.strikeout_thickness, 1);
}

#[test]
fn padding_ends_at_the_first_pixel_that_is_not_green() {
    let mut data = sample_atlas();
    put(&mut data, 40, 10, 0, GREEN);
    put(&mut data, 40, 11, 0, GREEN);
    put(&mut data, 40, 13, 0, GREEN);
    let font = decode(40, 20, data).unwrap();
    assert_eq!(font.glyph_width(), 10);
    assert_eq!(font.cell_padding(), 2);
}

#[test]
fn padding_may_reach_the_end_of_the_row() {
    let mut data = blank(4, 3);
    put(&mut data, 4, 1, 0, GREEN);
    put(&mut data, 4, 2, 0, GREEN);
    put(&mut data, 4, 3, 0, GREEN);
    put(&mut data, 4, 0, 1, RED);
    put(&mut data, 4, 0, 2, BLUE);
    let font = decode(4, 3, data).unwrap();
    assert_eq!(font.glyph_width(), 2);
    assert_eq!(font.cell_padding(), 2);
}

#[test]
fn magenta_is_no_padding() {
    let mut data = sample_atlas();
    put(&mut data, 40, 10, 0, [255, 0, 255]);
    let font = decode(40, 20, data).unwrap();
    assert_eq!(font.cell_padding(), 0);
}

#[test]
fn a_line_is_as_thick_as_its_first_run() {
    let mut data = sample_atlas();
    put(&mut data, 40, 0, 18, RED);
    put(&mut data, 40, 0, 13, BLUE);
    let metrics = decode(40, 20, data).unwrap().metrics();
    assert_eq!(metrics.underline_position, 5);
    assert_eq!(metrics.underline_thickness, 2);
    assert_eq!(metrics.strikeout_position, 10);
    assert_eq!(metrics.strikeout_thickness, 2);
}

#[test]
fn a_line_may_begin_in_row_zero_and_reach_the_bottom() {
    let mut data = blank(3, 4);
    put(&mut data, 3, 1, 0, GREEN);
    put(&mut data, 3, 0, 0, BLUE);
    put(&mut data, 3, 0, 1, RED);
    put(&mut data, 3, 0, 2, RED);
    put(&mut data, 3, 0, 3, RED);
    let metrics = decode(3, 4, data).unwrap().metrics();
    assert_eq!(metrics.strikeout_position, 4);
    assert_eq!(metrics.strikeout_thickness, 1);
    assert_eq!(metrics.underline_position, 3);
    assert_eq!(metrics.underline_thickness, 3);
}

#[test]
fn width_marker_in_column_zero_gives_cells_one_pixel_wide() {
    let mut data = blank(5, 3);
    put(&mut data, 5, 0, 0, GREEN);
    put(&mut data, 5, 0, 1, RED);
    put(&mut data, 5, 0, 2, BLUE);
    let font = decode(5, 3, data).unwrap();
    assert_eq!(font.glyph_width(), 1);
    assert_eq!(font.cell_padding(), 0);
}

#[test]
fn almost_green_is_no_marker() {
    let mut data = sample_atlas();
    put(&mut data, 40, 9, 0, [0, 254, 0]);
    put(&mut data, 40, 12, 0, [1, 255, 0]);
    put(&mut data, 40, 14, 0, [0, 255, 1]);
    assert_eq!(decode(40, 20, data).err(), Some(DecodeError::MissingGlyphWidthMarker));
}

#[test]
fn missing_width_marker_fails_decoding() {
    let mut data = sample_atlas();
    put(&mut data, 40, 9, 0, [17, 17, 17]);
    put(&mut data, 40, 5, 1, GREEN);
    assert_eq!(decode(40, 20, data).err(), Some(DecodeError::MissingGlyphWidthMarker));
}

#[test]
fn missing_underline_marker_fails_decoding() {
    let mut data = sample_atlas();
    put(&mut data, 40, 0, 15, [17, 17, 17]);
    put(&mut data, 40, 0, 16, [17, 17, 17]);
    put(&mut data, 40, 1, 15, RED);
    assert_eq!(decode(40, 20, data).err(), Some(DecodeError::MissingUnderlineMarker));
}

#[test]
fn missing_strikeout_marker_fails_decoding() {
    let mut data = sample_atlas();
    put(&mut data, 40, 0, 10, [17, 17, 17]);
    put(&mut data, 40, 0, 11, [17, 17, 17]);
    put(&mut data, 40, 1, 10, BLUE);
    assert_eq!(decode(40, 20, data).err(), Some(DecodeError::MissingStrikeoutMarker));
}

#[test]
fn the_first_missing_marker_is_named() {
    assert_eq!(decode(40, 20, blank(40, 20)).err(), Some(DecodeError::MissingGlyphWidthMarker));
    let mut data = blank(40, 20);
    put(&mut data, 40, 9, 0, GREEN);
    assert_eq!(decode(40, 20, data.clone()).err(), Some(DecodeError::MissingUnderlineMarker));
    put(&mut data, 40, 0, 3, BLUE);
    assert_eq!(decode(40, 20, data).err(), Some(DecodeError::MissingUnderlineMarker));
}

#[test]
fn an_image_without_pixels_has_no_width_marker() {
    assert_eq!(decode(0, 0, Vec::new()).err(), Some(DecodeError::MissingGlyphWidthMarker));
    assert_eq!(decode(0, 7, Vec::new()).err(), Some(DecodeError::MissingGlyphWidthMarker));
    assert_eq!(decode(7, 0, Vec::new()).err(), Some(DecodeError::MissingGlyphWidthMarker));
}

#[test]
fn decode_errors_name_the_missing_marker() {
    assert_eq!(
        DecodeError::MissingGlyphWidthMarker.message(),
        "Can't determine font glyph width"
    );
    assert_eq!(
        DecodeError::MissingUnderlineMarker.message(),
        "Can't determine font underline position"
    );
    assert_eq!(
        DecodeError::MissingStrikeoutMarker.message(),
        "Can't determine font strikeout position"
    );
}
