//! Cutting the cell of one character out of a font.
//!
//! The cells of an atlas stand side by side, a fixed stride apart: the width
//! of a cell and the padding after it. Cell 0 belongs to the markers. The
//! glyphs follow in the order of their code points, starting with `'!'` in
//! cell 1. A cell is as high as the atlas, row 0 included.

use crate::atlas::lemma_pixel_offset_in_bounds;
use crate::atlas::pixel_offset;
use crate::atlas::AtlasView;
use crate::decode::lemma_font_measurements;
use crate::decode::BitmapFont;
use crate::types::BitmapBuffer;
use crate::types::GlyphView;
use crate::types::RasterizedGlyph;
use vstd::prelude::*;

verus! {

/// Code point of the first character that an atlas has a glyph for: `'!'`.
pub const FIRST_CHARACTER: u32 = 33;

/// The cell that holds the glyph of `character`.
pub open spec fn cell_index(character: char) -> int {
    character as int - FIRST_CHARACTER + 1
}

impl AtlasView {
    /// Distance in pixels from the left edge of one cell to that of the next.
    pub open spec fn cell_stride(self) -> nat {
        self.glyph_width() + self.cell_padding()
    }

    /// The column in which the cell of `character` begins.
    pub open spec fn cell_offset(self, character: char) -> int {
        self.cell_stride() * cell_index(character)
    }

    /// The atlas has a glyph for `character`: the character is `'!'` or comes
    /// after it, and its cell lies within the width of the atlas.
    pub open spec fn has_cell(self, character: char) -> bool {
        &&& character as int >= FIRST_CHARACTER
        &&& self.cell_offset(character) + self.glyph_width() <= self.width
    }

    /// The bytes of the pixels of row `y` from column `column` on, as many
    /// pixels as a cell is wide.
    pub open spec fn cell_row(self, column: int, y: int) -> Seq<u8> {
        self.pixels.subrange(
            pixel_offset(self.width as int, column, y),
            pixel_offset(self.width as int, column + self.glyph_width(), y),
        )
    }

    /// The first `rows` rows of the cell that begins in column `column`, one
    /// after the other from the top.
    pub open spec fn cell_rows(self, column: int, rows: nat) -> Seq<u8>
        decreases rows,
    {
        if rows == 0 {
            Seq::empty()
        } else {
            self.cell_rows(column, (rows - 1) as nat) + self.cell_row(column, rows - 1)
        }
    }

    /// The pixels of the cell of `character`, row by row from the top.
    pub open spec fn cell_pixels(self, character: char) -> Seq<u8> {
        self.cell_rows(self.cell_offset(character), self.height)
    }

    /// The glyph of `character`: its cell, with the size of the cell, set on
    /// the top of the line, with no bearing to the left and no advance.
    /// A width or height that an `i32` does not hold wraps around.
    pub open spec fn glyph(self, character: char) -> GlyphView {
        GlyphView {
            character,
            width: self.glyph_width() as i32,
            height: self.height as i32,
            top: self.height as i32,
            left: 0,
            advance: (0, 0),
            buffer: self.cell_pixels(character),
        }
    }
}

/// The rows of a cell are all of one length, so the first `rows` of them hold
/// `rows` times the width of a cell in pixels.
pub proof fn lemma_cell_rows_len(atlas: AtlasView, column: int, rows: nat)
    requires
        atlas.wf(),
        0 <= column,
        column + atlas.glyph_width() <= atlas.width,
        rows <= atlas.height,
    ensures
        atlas.cell_rows(column, rows).len() == rows * atlas.glyph_width() * 3,
    decreases rows,
{
    if rows > 0 {
        let y = rows - 1;
        let width = atlas.glyph_width() as int;
        lemma_cell_rows_len(atlas, column, y as nat);
        lemma_cell_row_in_bounds(atlas, column, y);
        assert(rows * width * 3 == y * width * 3 + width * 3) by (nonlinear_arith)
            requires
                y == rows - 1,
        ;
        assert(atlas.cell_rows(column, rows).len() == atlas.cell_rows(column, y as nat).len()
            + atlas.cell_row(column, y).len());
    } else {
        assert(rows * atlas.glyph_width() * 3 == 0) by (nonlinear_arith)
            requires
                rows == 0,
        ;
    }
}

/// A row of a cell that lies within the atlas lies within its buffer.
pub proof fn lemma_cell_row_in_bounds(atlas: AtlasView, column: int, y: int)
    requires
        atlas.wf(),
        0 <= column,
        column + atlas.glyph_width() <= atlas.width,
        0 <= y < atlas.height,
    ensures
        0 <= pixel_offset(atlas.width as int, column, y),
        pixel_offset(atlas.width as int, column + atlas.glyph_width(), y) == pixel_offset(
            atlas.width as int,
            column,
            y,
        ) + atlas.glyph_width() * 3,
        pixel_offset(atlas.width as int, column + atlas.glyph_width(), y) <= atlas.pixels.len(),
        atlas.cell_row(column, y).len() == atlas.glyph_width() * 3,
{
    lemma_pixel_offset_in_bounds(atlas.width as int, atlas.height as int, column, y);
    lemma_pixel_offset_in_bounds(
        atlas.width as int,
        atlas.height as int,
        column + atlas.glyph_width() - 1,
        y,
    );
}

/// What a cell holds, pixel by pixel: byte `c` of the pixel in column `x` of
/// row `y` of the cell is byte `c` of the pixel of the atlas in the same row,
/// `x` columns to the right of the column in which the cell begins.
pub proof fn lemma_cell_pixel(atlas: AtlasView, column: int, rows: nat, x: int, y: int, c: int)
    requires
        atlas.wf(),
        0 <= column,
        column + atlas.glyph_width() <= atlas.width,
        rows <= atlas.height,
        0 <= x < atlas.glyph_width(),
        0 <= y < rows,
        0 <= c < 3,
    ensures
        0 <= pixel_offset(atlas.glyph_width() as int, x, y) + c < atlas.cell_rows(
            column,
            rows,
        ).len(),
        atlas.cell_rows(column, rows)[pixel_offset(atlas.glyph_width() as int, x, y) + c]
            == atlas.pixels[pixel_offset(atlas.width as int, column + x, y) + c],
    decreases rows,
{
    let width = atlas.glyph_width() as int;
    let last = rows - 1;
    lemma_cell_rows_len(atlas, column, rows);
    lemma_cell_rows_len(atlas, column, last as nat);
    lemma_cell_row_in_bounds(atlas, column, last);
    lemma_pixel_offset_in_bounds(width, rows as int, x, y);
    assert(rows * width * 3 == width * rows * 3) by (nonlinear_arith);
    if y < last {
        lemma_cell_pixel(atlas, column, last as nat, x, y, c);
    } else {
        assert(last * width * 3 == (y * width) * 3) by (nonlinear_arith)
            requires
                y == last,
        ;
    }
}

/// The glyph of `'!'` stands in cell 1, one stride from the left edge of the
/// atlas.
pub proof fn lemma_first_glyph_cell(atlas: AtlasView)
    ensures
        cell_index('!') == 1,
        atlas.cell_offset('!') == atlas.glyph_width() + atlas.cell_padding(),
{
    let stride = atlas.cell_stride() as int;
    assert(stride * 1 == stride) by (nonlinear_arith);
}

/// What the glyph of a character holds: as many pixels as a cell is wide and
/// the atlas is high, and in column `x` of row `y` the pixel that the atlas
/// has in the same row, `x` columns to the right of the column in which the
/// cell of the character begins. Row 0 of the atlas is row 0 of the glyph.
pub proof fn lemma_glyph_pixels(atlas: AtlasView, character: char, x: int, y: int, c: int)
    requires
        atlas.is_font(),
        atlas.has_cell(character),
        0 <= x < atlas.glyph_width(),
        0 <= y < atlas.height,
        0 <= c < 3,
    ensures
        atlas.glyph(character).buffer.len() == atlas.glyph_width() * atlas.height * 3,
        0 <= pixel_offset(atlas.glyph_width() as int, x, y) + c < atlas.glyph(
            character,
        ).buffer.len(),
        atlas.glyph(character).buffer[pixel_offset(atlas.glyph_width() as int, x, y) + c]
            == atlas.pixels[pixel_offset(
            atlas.width as int,
            atlas.cell_offset(character) + x,
            y,
        ) + c],
{
    let column = atlas.cell_offset(character);
    let stride = atlas.cell_stride() as int;
    let index = cell_index(character);
    assert(0 <= stride * index) by (nonlinear_arith)
        requires
            0 <= stride,
            0 <= index,
    ;
    lemma_cell_rows_len(atlas, column, atlas.height);
    lemma_cell_pixel(atlas, column, atlas.height, x, y, c);
    assert(atlas.height * atlas.glyph_width() * 3 == atlas.glyph_width() * atlas.height * 3)
        by (nonlinear_arith);
}

impl BitmapFont {
    /// Tells whether the font has a glyph for `character`.
    pub fn has_cell(&self, character: char) -> (found: bool)
        ensures
            found == self@.has_cell(character),
    {
        proof {
            use_type_invariant(self);
            lemma_font_measurements(self@);
        }
        let ordinal = character as u32;
        if ordinal < FIRST_CHARACTER {
            return false;
        }
        let index = (ordinal - FIRST_CHARACTER + 1) as usize;
        let width = self.atlas().width();
        let glyph_width = self.glyph_width();
        let stride = glyph_width + self.cell_padding();
        assert(index == cell_index(character));
        match stride.checked_mul(index) {
            Some(offset) => offset <= width - glyph_width,
            None => false,
        }
    }

    /// Cuts the glyph of `character` out of the atlas.
    ///
    /// The font has to hold a glyph for the character: see
    /// [`BitmapFont::has_cell`].
    pub fn rasterize(&self, character: char) -> (glyph: RasterizedGlyph)
        requires
            self@.has_cell(character),
        ensures
            glyph@ == self@.glyph(character),
    {
        proof {
            use_type_invariant(self);
            lemma_font_measurements(self@);
        }
        let atlas_width = self.atlas().width();
        let line_height = self.atlas().height();
        let glyph_width = self.glyph_width();
        let font_data = self.atlas().data();
        let index = (character as u32 - FIRST_CHARACTER + 1) as usize;
        assert(index == cell_index(character));
        assert(0 <= (glyph_width + self@.cell_padding()) * index) by (nonlinear_arith)
            requires
                0 <= glyph_width + self@.cell_padding(),
                0 <= index,
        ;
        let x_offset = (glyph_width + self.cell_padding()) * index;

        let mut data = Vec::<u8>::new();
        let mut y: usize = 0;
        while y < line_height
            invariant
                self@.wf(),
                atlas_width == self@.width,
                line_height == self@.height,
                glyph_width == self@.glyph_width(),
                font_data@ == self@.pixels,
                font_data.len() == font_data@.len(),
                x_offset + glyph_width <= atlas_width,
                y <= line_height,
                data@ == self@.cell_rows(x_offset as int, y as nat),
            decreases line_height - y,
        {
            let ghost rows_above = data@;
            proof {
                lemma_cell_row_in_bounds(self@, x_offset as int, y as int);
            }
            let mut x: usize = 0;
            while x < glyph_width
                invariant
                    self@.wf(),
                    atlas_width == self@.width,
                    line_height == self@.height,
                    glyph_width == self@.glyph_width(),
                    font_data@ == self@.pixels,
                    font_data.len() == font_data@.len(),
                    x_offset + glyph_width <= atlas_width,
                    y < line_height,
                    x <= glyph_width,
                    0 <= pixel_offset(atlas_width as int, x_offset as int, y as int),
                    data@ == rows_above + font_data@.subrange(
                        pixel_offset(atlas_width as int, x_offset as int, y as int),
                        pixel_offset(atlas_width as int, x_offset + x, y as int),
                    ),
                decreases glyph_width - x,
            {
                proof {
                    lemma_pixel_offset_in_bounds(
                        atlas_width as int,
                        line_height as int,
                        x + x_offset,
                        y as int,
                    );
                }
                let i = (x + x_offset + y * atlas_width) * 3;
                data.push(font_data[i]);
                data.push(font_data[i + 1]);
                data.push(font_data[i + 2]);
                x += 1;
            }
            y += 1;
        }

        // A size that an `i32` does not hold wraps around.
        let width = #[verifier::truncate] (glyph_width as i32);
        let height = #[verifier::truncate] (line_height as i32);
        RasterizedGlyph {
            character,
            width,
            height,
            top: height,
            left: 0,
            advance: (0, 0),
            buffer: BitmapBuffer::Rgb(data),
        }
    }
}

} // verus!
