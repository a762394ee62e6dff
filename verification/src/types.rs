//! The values that pass between a caller and the rasterizer.

use vstd::prelude::*;

verus! {

/// Names the source of a font: the path of its atlas image.
#[derive(Debug, PartialEq, Eq, Hash)]
pub struct FontDesc {
    name: String,
}

impl View for FontDesc {
    type V = Seq<char>;

    closed spec fn view(&self) -> Seq<char> {
        self.name@
    }
}

impl FontDesc {
    /// The descriptor of the atlas at the path `name`.
    pub fn new(name: &str) -> (desc: FontDesc)
        ensures
            desc@ == name@,
    {
        FontDesc { name: name.to_owned() }
    }

    /// The path of the atlas image.
    pub fn name(&self) -> (name: &str)
        ensures
            name@ == self@,
    {
        self.name.as_str()
    }

    /// Tells whether two descriptors name the same source.
    pub fn same_as(&self, other: &FontDesc) -> (same: bool)
        ensures
            same == (self@ == other@),
    {
        self.name == other.name
    }
}

impl Clone for FontDesc {
    fn clone(&self) -> (copy: FontDesc)
        ensures
            copy@ == self@,
    {
        FontDesc { name: self.name.clone() }
    }
}

/// Identifies one loaded font of one rasterizer.
///
/// A rasterizer hands out its keys in the order in which it loads fonts. A
/// key means nothing to any other rasterizer.
#[derive(Clone, Copy, Debug, PartialEq, Eq, Hash, Structural)]
pub struct FontKey {
    token: usize,
}

impl View for FontKey {
    type V = nat;

    /// The number of fonts that the rasterizer had loaded before this one.
    closed spec fn view(&self) -> nat {
        self.token as nat
    }
}

impl FontKey {
    /// The key of the font loaded after `index` others.
    pub(crate) fn from_index(index: usize) -> (key: FontKey)
        ensures
            key@ == index,
    {
        FontKey { token: index }
    }

    /// The number of fonts loaded before the one that the key stands for.
    pub(crate) fn index(&self) -> (index: usize)
        ensures
            index == self@,
    {
        self.token
    }

    /// Keys with the same view are the same key.
    pub proof fn lemma_view_injective(self, other: FontKey)
        requires
            self@ == other@,
        ensures
            self == other,
    {
    }
}

/// A font size, in the unit of the rendering pipeline.
///
/// An atlas holds its glyphs at one scale. A size is taken wherever the
/// rasterizer interface has one, and changes nothing.
#[derive(Clone, Copy, Debug, PartialEq, Eq, Structural)]
pub struct Size(pub i16);

/// Asks for one character of one font.
#[derive(Clone, Copy, Debug, PartialEq, Eq, Structural)]
pub struct GlyphKey {
    pub character: char,
    pub font_key: FontKey,
}

/// The measurements of a font, in pixels.
#[derive(Clone, Copy, Debug, PartialEq, Eq, Structural)]
pub struct Metrics {
    pub average_advance: usize,
    pub line_height: usize,
    pub descent: i32,
    pub underline_position: usize,
    pub underline_thickness: usize,
    pub strikeout_position: usize,
    pub strikeout_thickness: usize,
}

/// The pixels of a rasterized glyph.
#[derive(Debug)]
pub enum BitmapBuffer {
    /// Three bytes to the pixel, red, green and blue, row by row from the top.
    Rgb(Vec<u8>),
}

impl View for BitmapBuffer {
    type V = Seq<u8>;

    open spec fn view(&self) -> Seq<u8> {
        match self {
            BitmapBuffer::Rgb(bytes) => bytes@,
        }
    }
}

/// One glyph, cut out of its atlas.
#[derive(Debug)]
pub struct RasterizedGlyph {
    pub character: char,
    pub width: i32,
    pub height: i32,
    pub top: i32,
    pub left: i32,
    pub advance: (i32, i32),
    pub buffer: BitmapBuffer,
}

/// A rasterized glyph, with its pixels as a sequence of bytes.
pub struct GlyphView {
    pub character: char,
    pub width: i32,
    pub height: i32,
    pub top: i32,
    pub left: i32,
    pub advance: (i32, i32),
    pub buffer: Seq<u8>,
}

impl View for RasterizedGlyph {
    type V = GlyphView;

    open spec fn view(&self) -> GlyphView {
        GlyphView {
            character: self.character,
            width: self.width,
            height: self.height,
            top: self.top,
            left: self.left,
            advance: self.advance,
            buffer: self.buffer@,
        }
    }
}

/// Why a request to the rasterizer failed.
#[derive(Debug)]
pub enum Error {
    /// The atlas image of the font could not be opened.
    FontNotFound(FontDesc),
    /// The atlas was read but is no font; the message names what is missing.
    PlatformError(String),
    /// No font goes by the key, or the font has no glyph for the character.
    UnknownFontKey,
}

/// An [`Error`], with its texts as sequences of characters.
pub enum ErrorView {
    FontNotFound(Seq<char>),
    PlatformError(Seq<char>),
    UnknownFontKey,
}

impl View for Error {
    type V = ErrorView;

    open spec fn view(&self) -> ErrorView {
        match self {
            Error::FontNotFound(desc) => ErrorView::FontNotFound(desc@),
            Error::PlatformError(message) => ErrorView::PlatformError(message@),
            Error::UnknownFontKey => ErrorView::UnknownFontKey,
        }
    }
}

} // verus!
