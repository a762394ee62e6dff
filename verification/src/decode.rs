//! Reading the measurements of a font out of its atlas.
//!
//! Row 0 of an atlas is a strip of markers. From the left, pixels of any
//! colour but pure green stand for the body of a glyph cell; the first pure
//! green pixel is the last column of the cell; the pure green pixels that
//! follow it without a gap give the padding between two cells. Column 0 holds
//! a run of pure red pixels, which gives the underline, and a run of pure blue
//! pixels, which gives the strikeout line.

use crate::atlas::blue;
use crate::atlas::green;
use crate::atlas::lemma_run_length_bounded;
use crate::atlas::lemma_run_length_contents;
use crate::atlas::lemma_run_length_is;
use crate::atlas::red;
use crate::atlas::run_length;
use crate::atlas::AtlasImage;
use crate::atlas::AtlasView;
use crate::atlas::Color;
use crate::types::Metrics;
use vstd::prelude::*;

verus! {

/// The marker that an atlas lacks.
#[derive(Clone, Copy, Debug, PartialEq, Eq, Structural)]
pub enum DecodeError {
    /// Row 0 has no pure green pixel.
    MissingGlyphWidthMarker,
    /// Column 0 has no pure red pixel.
    MissingUnderlineMarker,
    /// Column 0 has no pure blue pixel.
    MissingStrikeoutMarker,
}

impl DecodeError {
    /// The text that tells a user which marker is missing.
    pub open spec fn message_spec(self) -> Seq<char> {
        match self {
            DecodeError::MissingGlyphWidthMarker => "Can't determine font glyph width"@,
            DecodeError::MissingUnderlineMarker => "Can't determine font underline position"@,
            DecodeError::MissingStrikeoutMarker => "Can't determine font strikeout position"@,
        }
    }

    /// The text that tells a user which marker is missing.
    pub fn message(&self) -> (text: String)
        ensures
            text@ == self.message_spec(),
    {
        match self {
            DecodeError::MissingGlyphWidthMarker => "Can't determine font glyph width".to_owned(),
            DecodeError::MissingUnderlineMarker => {
                "Can't determine font underline position".to_owned()
            },
            DecodeError::MissingStrikeoutMarker => {
                "Can't determine font strikeout position".to_owned()
            },
        }
    }
}

impl AtlasView {
    /// The column of the first pure green pixel of row 0, or the length of
    /// that row where it has none.
    pub open spec fn marker_column(self) -> nat {
        run_length(self.top_row(), green(), false, 0)
    }

    /// Row 0 has a pure green pixel.
    pub open spec fn has_width_marker(self) -> bool {
        self.marker_column() < self.top_row().len()
    }

    /// Width of a glyph cell: it ends with the column of the width marker.
    pub open spec fn glyph_width(self) -> nat {
        self.marker_column() + 1
    }

    /// Gap between two glyph cells: the number of pure green pixels that
    /// follow the width marker without a gap.
    pub open spec fn cell_padding(self) -> nat {
        run_length(self.top_row(), green(), true, self.glyph_width() as int)
    }

    /// The row of the first pixel of `color` in column 0, or the length of
    /// that column where it has none.
    pub open spec fn line_row(self, color: Color) -> nat {
        run_length(self.left_column(), color, false, 0)
    }

    /// Column 0 has a pixel of `color`.
    pub open spec fn has_line(self, color: Color) -> bool {
        self.line_row(color) < self.left_column().len()
    }

    /// Distance of the line marked in `color` from the bottom of the atlas:
    /// the number of rows from the first pixel of `color` down.
    pub open spec fn line_position(self, color: Color) -> nat {
        (self.height - self.line_row(color)) as nat
    }

    /// Thickness of the line marked in `color`: the number of pixels of
    /// `color` in column 0 from the first one down, without a gap.
    pub open spec fn line_thickness(self, color: Color) -> nat {
        run_length(self.left_column(), color, true, self.line_row(color) as int)
    }

    /// The marker that keeps the atlas from being a font, if there is one.
    /// Where several are missing, this is the width marker before the
    /// underline, and the underline before the strikeout line.
    pub open spec fn decode_error(self) -> Option<DecodeError> {
        if !self.has_width_marker() {
            Some(DecodeError::MissingGlyphWidthMarker)
        } else if !self.has_line(red()) {
            Some(DecodeError::MissingUnderlineMarker)
        } else if !self.has_line(blue()) {
            Some(DecodeError::MissingStrikeoutMarker)
        } else {
            None
        }
    }

    /// The atlas holds its pixels and all of its markers.
    pub open spec fn is_font(self) -> bool {
        self.wf() && self.decode_error() is None
    }

    /// The measurements of the font that the atlas holds. Every glyph is as
    /// wide as the cell, and a line is as high as the atlas.
    pub open spec fn metrics(self) -> Metrics {
        Metrics {
            average_advance: self.glyph_width() as usize,
            line_height: self.height as usize,
            descent: 0,
            underline_position: self.line_position(red()) as usize,
            underline_thickness: self.line_thickness(red()) as usize,
            strikeout_position: self.line_position(blue()) as usize,
            strikeout_thickness: self.line_thickness(blue()) as usize,
        }
    }
}

/// What holds of the measurements of every font: a cell and the gap after it
/// lie within a row, both lines lie within the atlas, and none of the cell
/// width, the positions and the thicknesses is zero.
pub proof fn lemma_font_measurements(atlas: AtlasView)
    requires
        atlas.is_font(),
    ensures
        0 < atlas.glyph_width(),
        atlas.glyph_width() + atlas.cell_padding() <= atlas.width,
        0 < atlas.line_thickness(red()) <= atlas.line_position(red()) <= atlas.height,
        0 < atlas.line_thickness(blue()) <= atlas.line_position(blue()) <= atlas.height,
{
    lemma_run_length_bounded(atlas.top_row(), green(), true, atlas.glyph_width() as int);
    lemma_line_measurements(atlas, red());
    lemma_line_measurements(atlas, blue());
}

/// A line whose colour occurs in column 0 lies within the atlas and is at
/// least one pixel thick.
pub proof fn lemma_line_measurements(atlas: AtlasView, color: Color)
    requires
        atlas.has_line(color),
    ensures
        0 < atlas.line_thickness(color) <= atlas.line_position(color) <= atlas.height,
        atlas.line_position(color) + atlas.line_row(color) == atlas.height,
{
    let column = atlas.left_column();
    let row = atlas.line_row(color) as int;
    lemma_run_length_contents(column, color, false, 0);
    lemma_run_length_bounded(column, color, true, row);
    assert(column[row] == color);
}

/// The markers of an atlas, placed at known columns and rows, give the
/// measurements of its font.
///
/// Row 0 has its first pure green pixel in column `marker_column`, followed
/// by exactly `padding` more. Column 0 has its first pure red pixel in row
/// `underline_row`, the first of exactly `underline_rows` in a run, and its
/// first pure blue pixel in row `strikeout_row`, the first of exactly
/// `strikeout_rows` in a run. Then the atlas is a font, its cells are
/// `marker_column + 1` wide and `padding` apart, and each line lies as far
/// from the bottom as its first row, and is as thick as its run is long.
pub proof fn lemma_decode_recovers_markers(
    atlas: AtlasView,
    marker_column: nat,
    padding: nat,
    underline_row: nat,
    underline_rows: nat,
    strikeout_row: nat,
    strikeout_rows: nat,
)
    requires
        atlas.wf(),
        marker_column + 1 + padding <= atlas.width,
        forall|x: int| 0 <= x < marker_column ==> #[trigger] atlas.pixel(x, 0) != green(),
        forall|x: int|
            marker_column <= x <= marker_column + padding ==> #[trigger] atlas.pixel(x, 0)
                == green(),
        marker_column + 1 + padding == atlas.width || atlas.pixel(
            (marker_column + 1 + padding) as int,
            0,
        ) != green(),
        line_at(atlas, red(), underline_row, underline_rows),
        line_at(atlas, blue(), strikeout_row, strikeout_rows),
    ensures
        atlas.is_font(),
        atlas.glyph_width() == marker_column + 1,
        atlas.cell_padding() == padding,
        atlas.line_position(red()) == atlas.height - underline_row,
        atlas.line_thickness(red()) == underline_rows,
        atlas.line_position(blue()) == atlas.height - strikeout_row,
        atlas.line_thickness(blue()) == strikeout_rows,
{
    let top = atlas.top_row();
    assert(atlas.height > 0);
    assert forall|i: int| 0 <= i < marker_column implies (#[trigger] top[i] == green())
        == false by {
        assert(top[i] == atlas.pixel(i, 0));
    }
    assert(top[marker_column as int] == atlas.pixel(marker_column as int, 0));
    lemma_run_length_is(top, green(), false, 0, marker_column);
    assert forall|i: int| marker_column + 1 <= i < marker_column + 1 + padding implies (
    #[trigger] top[i] == green()) == true by {
        assert(top[i] == atlas.pixel(i, 0));
    }
    let after = (marker_column + 1 + padding) as int;
    if after < atlas.width {
        assert(top[after] == atlas.pixel(after, 0));
    }
    lemma_run_length_is(top, green(), true, (marker_column + 1) as int, padding);
    lemma_line_at(atlas, red(), underline_row, underline_rows);
    lemma_line_at(atlas, blue(), strikeout_row, strikeout_rows);
}

/// Column 0 has its first pixel of `color` in row `row`, and that pixel is
/// the first of exactly `rows` pixels of `color` in a run.
pub open spec fn line_at(atlas: AtlasView, color: Color, row: nat, rows: nat) -> bool {
    &&& 0 < rows
    &&& row + rows <= atlas.height
    &&& forall|y: int| 0 <= y < row ==> #[trigger] atlas.pixel(0, y) != color
    &&& forall|y: int| row <= y < row + rows ==> #[trigger] atlas.pixel(0, y) == color
    &&& row + rows == atlas.height || atlas.pixel(0, (row + rows) as int) != color
}

/// A line placed at a known row, with a known number of rows, is found
/// there.
pub proof fn lemma_line_at(atlas: AtlasView, color: Color, row: nat, rows: nat)
    requires
        0 < atlas.width,
        line_at(atlas, color, row, rows),
    ensures
        atlas.has_line(color),
        atlas.line_row(color) == row,
        atlas.line_position(color) == atlas.height - row,
        atlas.line_thickness(color) == rows,
{
    let column = atlas.left_column();
    assert forall|i: int| 0 <= i < row implies (#[trigger] column[i] == color) == false by {
        assert(column[i] == atlas.pixel(0, i));
    }
    assert(column[row as int] == atlas.pixel(0, row as int));
    lemma_run_length_is(column, color, false, 0, row);
    assert forall|i: int| row <= i < row + rows implies (#[trigger] column[i] == color)
        == true by {
        assert(column[i] == atlas.pixel(0, i));
    }
    let after = (row + rows) as int;
    if after < atlas.height {
        assert(column[after] == atlas.pixel(0, after));
    }
    lemma_run_length_is(column, color, true, row as int, rows);
}

/// An atlas without a pure green pixel in row 0 lacks the width marker,
/// whatever else it holds.
pub proof fn lemma_missing_width_marker(atlas: AtlasView)
    requires
        forall|x: int| 0 <= x < atlas.width ==> #[trigger] atlas.pixel(x, 0) != green(),
    ensures
        atlas.decode_error() == Some(DecodeError::MissingGlyphWidthMarker),
{
    let top = atlas.top_row();
    assert forall|i: int| 0 <= i < top.len() implies (#[trigger] top[i] == green()) == false by {
        assert(top[i] == atlas.pixel(i, 0));
    }
    lemma_run_length_is(top, green(), false, 0, top.len());
}

/// An atlas with a width marker and without a pure red pixel in column 0
/// lacks the underline marker.
pub proof fn lemma_missing_underline_marker(atlas: AtlasView)
    requires
        atlas.has_width_marker(),
        forall|y: int| 0 <= y < atlas.height ==> #[trigger] atlas.pixel(0, y) != red(),
    ensures
        atlas.decode_error() == Some(DecodeError::MissingUnderlineMarker),
{
    lemma_no_line(atlas, red());
}

/// An atlas with a width marker and an underline marker and without a pure
/// blue pixel in column 0 lacks the strikeout marker.
pub proof fn lemma_missing_strikeout_marker(atlas: AtlasView)
    requires
        atlas.has_width_marker(),
        atlas.has_line(red()),
        forall|y: int| 0 <= y < atlas.height ==> #[trigger] atlas.pixel(0, y) != blue(),
    ensures
        atlas.decode_error() == Some(DecodeError::MissingStrikeoutMarker),
{
    lemma_no_line(atlas, blue());
}

/// A colour that no pixel of column 0 has marks no line.
pub proof fn lemma_no_line(atlas: AtlasView, color: Color)
    requires
        forall|y: int| 0 <= y < atlas.height ==> #[trigger] atlas.pixel(0, y) != color,
    ensures
        !atlas.has_line(color),
{
    let column = atlas.left_column();
    assert forall|i: int| 0 <= i < column.len() implies (#[trigger] column[i] == color)
        == false by {
        assert(column[i] == atlas.pixel(0, i));
    }
    lemma_run_length_is(column, color, false, 0, column.len());
}

/// A font: an atlas together with the measurements read from its markers.
#[derive(Debug)]
pub struct BitmapFont {
    atlas: AtlasImage,
    glyph_width: usize,
    cell_padding: usize,
    underline_position: usize,
    underline_thickness: usize,
    strikeout_position: usize,
    strikeout_thickness: usize,
}

impl View for BitmapFont {
    type V = AtlasView;

    /// A font is known by its atlas: the measurements follow from it.
    closed spec fn view(&self) -> AtlasView {
        self.atlas@
    }
}

impl BitmapFont {
    /// The stored measurements are the ones that the markers give.
    pub closed spec fn measured(self) -> bool {
        &&& self.atlas.inv()
        &&& self.glyph_width == self@.glyph_width()
        &&& self.cell_padding == self@.cell_padding()
        &&& self.underline_position == self@.line_position(red())
        &&& self.underline_thickness == self@.line_thickness(red())
        &&& self.strikeout_position == self@.line_position(blue())
        &&& self.strikeout_thickness == self@.line_thickness(blue())
    }

    /// Holds of every font: its atlas has all markers, and the measurements
    /// are theirs.
    #[verifier::type_invariant]
    pub open spec fn inv(self) -> bool {
        self@.is_font() && self.measured()
    }

    /// The atlas that the font was read from.
    pub fn atlas(&self) -> (atlas: &AtlasImage)
        ensures
            atlas@ == self@,
    {
        &self.atlas
    }

    /// Width of a glyph cell in pixels.
    pub fn glyph_width(&self) -> (width: usize)
        ensures
            width == self@.glyph_width(),
    {
        proof {
            use_type_invariant(self);
        }
        self.glyph_width
    }

    /// Gap between two glyph cells in pixels.
    pub fn cell_padding(&self) -> (padding: usize)
        ensures
            padding == self@.cell_padding(),
    {
        proof {
            use_type_invariant(self);
        }
        self.cell_padding
    }

    /// Height of a line of text in pixels: the height of the atlas.
    pub fn line_height(&self) -> (height: usize)
        ensures
            height == self@.height,
    {
        self.atlas.height()
    }

    /// The measurements of the font.
    pub fn metrics(&self) -> (metrics: Metrics)
        ensures
            metrics == self@.metrics(),
    {
        proof {
            use_type_invariant(self);
            use_type_invariant(&self.atlas);
        }
        Metrics {
            average_advance: self.glyph_width,
            line_height: self.atlas.height(),
            descent: 0,
            underline_position: self.underline_position,
            underline_thickness: self.underline_thickness,
            strikeout_position: self.strikeout_position,
            strikeout_thickness: self.strikeout_thickness,
        }
    }
}

/// Reads a font out of `image`.
///
/// Fails where a marker is missing, and says which. The font keeps all
/// pixels of the image.
pub fn decode(image: AtlasImage) -> (result: Result<BitmapFont, DecodeError>)
    ensures
        match result {
            Ok(font) => image@.decode_error() is None && font@ == image@,
            Err(error) => image@.decode_error() == Some(error),
        },
{
    proof {
        use_type_invariant(&image);
    }
    let width = image.width();
    let height = image.height();
    let row_length = if height == 0 {
        0
    } else {
        width
    };
    let marker_column = image.top_row_run(0, 0, 255, 0, false);
    if marker_column >= row_length {
        proof {
            lemma_run_length_bounded(image@.top_row(), green(), false, 0);
        }
        return Err(DecodeError::MissingGlyphWidthMarker);
    }
    let glyph_width = marker_column + 1;
    let cell_padding = image.top_row_run(glyph_width, 0, 255, 0, true);

    let underline_row = image.left_column_run(0, 255, 0, 0, false);
    if underline_row >= height {
        proof {
            lemma_run_length_bounded(image@.left_column(), red(), false, 0);
        }
        return Err(DecodeError::MissingUnderlineMarker);
    }
    let underline_position = height - underline_row;
    let underline_thickness = image.left_column_run(underline_row, 255, 0, 0, true);

    let strikeout_row = image.left_column_run(0, 0, 0, 255, false);
    if strikeout_row >= height {
        proof {
            lemma_run_length_bounded(image@.left_column(), blue(), false, 0);
        }
        return Err(DecodeError::MissingStrikeoutMarker);
    }
    let strikeout_position = height - strikeout_row;
    let strikeout_thickness = image.left_column_run(strikeout_row, 0, 0, 255, true);

    Ok(
        BitmapFont {
            atlas: image,
            glyph_width,
            cell_padding,
            underline_position,
            underline_thickness,
            strikeout_position,
            strikeout_thickness,
        },
    )
}

} // verus!
