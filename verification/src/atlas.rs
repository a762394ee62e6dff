//! The pixel model of an atlas, and runs of pixels of one colour.

use vstd::prelude::*;

verus! {

/// Number of bytes that make up one pixel: red, green, blue, in this order.
pub const PIXEL_COMPONENTS: usize = 3;

/// A colour, by its red, green and blue samples.
#[derive(Clone, Copy, Debug, PartialEq, Eq, Structural)]
pub struct Color {
    pub r: u8,
    pub g: u8,
    pub b: u8,
}

/// Pure green marks the right edge of a glyph cell and the gap between cells.
pub open spec fn green() -> Color {
    Color { r: 0, g: 255, b: 0 }
}

/// Pure red marks the underline.
pub open spec fn red() -> Color {
    Color { r: 255, g: 0, b: 0 }
}

/// Pure blue marks the strikeout line.
pub open spec fn blue() -> Color {
    Color { r: 0, g: 0, b: 255 }
}

/// Position, in a row-major buffer of pixels `atlas_width` wide, of the first
/// byte of the pixel in column `x` of row `y`.
pub open spec fn pixel_offset(atlas_width: int, x: int, y: int) -> int {
    (x + y * atlas_width) * 3
}

/// The byte position of a pixel inside a `width` by `height` image lies
/// inside a buffer of `3 * width * height` bytes, and grows with the row.
pub proof fn lemma_pixel_offset_in_bounds(width: int, height: int, x: int, y: int)
    requires
        0 <= x < width,
        0 <= y < height,
    ensures
        0 <= y * width,
        0 <= pixel_offset(width, x, y),
        pixel_offset(width, x, y) + 3 <= width * height * 3,
{
    assert(0 <= y * width) by (nonlinear_arith)
        requires
            0 <= y,
            0 <= width,
    ;
    assert((y + 1) * width <= height * width) by (nonlinear_arith)
        requires
            y + 1 <= height,
            0 <= width,
    ;
    assert((y + 1) * width == y * width + width) by (nonlinear_arith);
    assert(height * width == width * height) by (nonlinear_arith);
}

/// Tells whether the pixel in column `x` of row `y` has exactly the colour
/// (`r`, `g`, `b`).
///
/// `data` holds rows of `atlas_width` pixels, three bytes to the pixel. The
/// pixel has to lie within `data`.
pub fn check_pixel_color(
    data: &[u8],
    atlas_width: usize,
    x: usize,
    y: usize,
    r: u8,
    g: u8,
    b: u8,
) -> (found: bool)
    requires
        pixel_offset(atlas_width as int, x as int, y as int) + 2 < data.len(),
    ensures
        found == ({
            let i = pixel_offset(atlas_width as int, x as int, y as int);
            data@[i] == r && data@[i + 1] == g && data@[i + 2] == b
        }),
{
    proof {
        let row_start = y as int * atlas_width as int;
        assert(0 <= row_start) by (nonlinear_arith)
            requires
                row_start == y as int * atlas_width as int,
                0 <= y,
                0 <= atlas_width,
        ;
        assert(pixel_offset(atlas_width as int, x as int, y as int) == (x + row_start) * 3);
    }
    let i: usize = (x + y * atlas_width) * PIXEL_COMPONENTS;
    data[i] == r && data[i + 1] == g && data[i + 2] == b
}

/// Number of entries of `line`, counted from position `from` on, up to the
/// first one that ends the run: with `same`, the run is made of entries equal
/// to `color`; without, of entries that differ from it.
///
/// With `same` unset and `from` zero this is the position of the first entry
/// equal to `color`, or the length of `line` where there is none.
pub open spec fn run_length(line: Seq<Color>, color: Color, same: bool, from: int) -> nat
    decreases line.len() - from,
{
    if 0 <= from < line.len() && (line[from] == color) == same {
        1 + run_length(line, color, same, from + 1)
    } else {
        0
    }
}

/// A run that starts inside a line ends inside it.
pub proof fn lemma_run_length_bounded(line: Seq<Color>, color: Color, same: bool, from: int)
    requires
        0 <= from <= line.len(),
    ensures
        from + run_length(line, color, same, from) <= line.len(),
    decreases line.len() - from,
{
    if from < line.len() && (line[from] == color) == same {
        lemma_run_length_bounded(line, color, same, from + 1);
    }
}

/// Every entry of a run belongs to it, and the entry after the run, if the
/// line has one, does not.
pub proof fn lemma_run_length_contents(line: Seq<Color>, color: Color, same: bool, from: int)
    requires
        0 <= from <= line.len(),
    ensures
        forall|i: int|
            from <= i < from + run_length(line, color, same, from) ==> (#[trigger] line[i] == color)
                == same,
        from + run_length(line, color, same, from) < line.len() ==> (line[from + run_length(
            line,
            color,
            same,
            from,
        )] == color) != same,
    decreases line.len() - from,
{
    if from < line.len() && (line[from] == color) == same {
        lemma_run_length_contents(line, color, same, from + 1);
    }
}

/// A stretch of `n` entries that all belong to the run, followed by the end of
/// the line or by an entry that does not, is the whole run.
pub proof fn lemma_run_length_is(line: Seq<Color>, color: Color, same: bool, from: int, n: nat)
    requires
        0 <= from,
        from + n <= line.len(),
        forall|i: int| from <= i < from + n ==> (#[trigger] line[i] == color) == same,
        from + n == line.len() || (line[from + n] == color) != same,
    ensures
        run_length(line, color, same, from) == n,
    decreases n,
{
    if n > 0 {
        assert((line[from] == color) == same);
        lemma_run_length_is(line, color, same, from + 1, (n - 1) as nat);
    }
}

/// What an atlas is to the contracts of this crate: its size in pixels and its
/// bytes, row by row from the top, three bytes to the pixel.
pub struct AtlasView {
    pub width: nat,
    pub height: nat,
    pub pixels: Seq<u8>,
}

impl AtlasView {
    /// The buffer holds exactly the pixels of the image, and the width and
    /// the height are numbers that a machine word holds.
    pub open spec fn wf(self) -> bool {
        &&& self.pixels.len() == self.width * self.height * 3
        &&& self.width <= usize::MAX
        &&& self.height <= usize::MAX
    }

    /// The colour of the pixel in column `x` of row `y`.
    pub open spec fn pixel(self, x: int, y: int) -> Color {
        let i = pixel_offset(self.width as int, x, y);
        Color { r: self.pixels[i], g: self.pixels[i + 1], b: self.pixels[i + 2] }
    }

    /// The pixels of row 0, from left to right. An atlas without rows has
    /// none.
    pub open spec fn top_row(self) -> Seq<Color> {
        if self.height == 0 {
            Seq::empty()
        } else {
            Seq::new(self.width, |x: int| self.pixel(x, 0))
        }
    }

    /// The pixels of column 0, from the top down. An atlas without columns
    /// has none.
    pub open spec fn left_column(self) -> Seq<Color> {
        if self.width == 0 {
            Seq::empty()
        } else {
            Seq::new(self.height, |y: int| self.pixel(0, y))
        }
    }
}

/// An RGB image held as plain bytes.
///
/// The buffer always holds `width * height` pixels of three bytes each, row
/// by row from the top.
#[derive(Debug)]
pub struct AtlasImage {
    width: usize,
    height: usize,
    data: Vec<u8>,
}

impl View for AtlasImage {
    type V = AtlasView;

    closed spec fn view(&self) -> AtlasView {
        AtlasView { width: self.width as nat, height: self.height as nat, pixels: self.data@ }
    }
}

impl AtlasImage {
    /// Holds of every image: the buffer has the length that the size asks for.
    #[verifier::type_invariant]
    pub open spec fn inv(self) -> bool {
        self@.wf()
    }

    /// Makes an image of `width` by `height` pixels out of `data`.
    ///
    /// Returns `None` when `data` does not hold exactly `width * height`
    /// pixels of three bytes.
    pub fn new(width: usize, height: usize, data: Vec<u8>) -> (image: Option<AtlasImage>)
        ensures
            image is Some <==> data@.len() == width * height * 3,
            image matches Some(img) ==> img@ == (AtlasView {
                width: width as nat,
                height: height as nat,
                pixels: data@,
            }),
    {
        let expected = match width.checked_mul(height) {
            Some(count) => count.checked_mul(PIXEL_COMPONENTS),
            None => None,
        };
        match expected {
            Some(len) => {
                if data.len() == len {
                    Some(AtlasImage { width, height, data })
                } else {
                    None
                }
            },
            None => {
                assert(width * height * 3 > usize::MAX) by (nonlinear_arith)
                    requires
                        width * height > usize::MAX || width * height * 3 > usize::MAX,
                ;
                assert(data.len() <= usize::MAX);
                None
            },
        }
    }

    /// Width in pixels.
    pub fn width(&self) -> (w: usize)
        ensures
            w == self@.width,
    {
        self.width
    }

    /// Height in pixels.
    pub fn height(&self) -> (h: usize)
        ensures
            h == self@.height,
    {
        self.height
    }

    /// The bytes of the image.
    pub fn data(&self) -> (bytes: &[u8])
        ensures
            bytes@ == self@.pixels,
    {
        self.data.as_slice()
    }

    /// Length of the run of pixels in row 0 that starts in column `from`:
    /// pixels of the colour (`r`, `g`, `b`) with `same`, pixels of any other
    /// colour without.
    pub fn top_row_run(&self, from: usize, r: u8, g: u8, b: u8, same: bool) -> (n: usize)
        ensures
            n == run_length(self@.top_row(), Color { r, g, b }, same, from as int),
    {
        proof {
            use_type_invariant(self);
        }
        if self.height == 0 || from >= self.width {
            return 0;
        }
        let ghost row = self@.top_row();
        let ghost color = Color { r, g, b };
        let mut x: usize = from;
        while x < self.width
            invariant
                self.inv(),
                self.height > 0,
                row == self@.top_row(),
                color == (Color { r, g, b }),
                from <= x <= self.width,
                forall|i: int| from <= i < x ==> (#[trigger] row[i] == color) == same,
            ensures
                from <= x <= self.width,
                forall|i: int| from <= i < x ==> (#[trigger] row[i] == color) == same,
                x == self.width || (row[x as int] == color) != same,
            decreases self.width - x,
        {
            proof {
                lemma_pixel_offset_in_bounds(self.width as int, self.height as int, x as int, 0);
            }
            let hit = check_pixel_color(self.data.as_slice(), self.width, x, 0, r, g, b);
            if hit != same {
                break ;
            }
            x += 1;
        }
        proof {
            lemma_run_length_is(row, color, same, from as int, (x - from) as nat);
        }
        x - from
    }

    /// Length of the run of pixels in column 0 that starts in row `from`:
    /// pixels of the colour (`r`, `g`, `b`) with `same`, pixels of any other
    /// colour without.
    pub fn left_column_run(&self, from: usize, r: u8, g: u8, b: u8, same: bool) -> (n: usize)
        ensures
            n == run_length(self@.left_column(), Color { r, g, b }, same, from as int),
    {
        proof {
            use_type_invariant(self);
        }
        if self.width == 0 || from >= self.height {
            return 0;
        }
        let ghost column = self@.left_column();
        let ghost color = Color { r, g, b };
        let mut y: usize = from;
        while y < self.height
            invariant
                self.inv(),
                self.width > 0,
                column == self@.left_column(),
                color == (Color { r, g, b }),
                from <= y <= self.height,
                forall|i: int| from <= i < y ==> (#[trigger] column[i] == color) == same,
            ensures
                from <= y <= self.height,
                forall|i: int| from <= i < y ==> (#[trigger] column[i] == color) == same,
                y == self.height || (column[y as int] == color) != same,
            decreases self.height - y,
        {
            proof {
                lemma_pixel_offset_in_bounds(self.width as int, self.height as int, 0, y as int);
            }
            let hit = check_pixel_color(self.data.as_slice(), self.width, 0, y, r, g, b);
            if hit != same {
                break ;
            }
            y += 1;
        }
        proof {
            lemma_run_length_is(column, color, same, from as int, (y - from) as nat);
        }
        y - from
    }
}

} // verus!
