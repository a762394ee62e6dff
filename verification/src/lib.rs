//! A bitmap font engine that reads a fixed-width font from an atlas image.
//!
//! An atlas is an RGB image that holds every glyph of one font in cells of
//! equal size, laid out left to right. Its top row and its left column also
//! carry the font's measurements, encoded as pixels of three reserved colours.
//!
//! * [`atlas`] holds the pixel model, and measures runs of marker pixels.
//! * [`decode`] turns an atlas into a [`decode::BitmapFont`].
//! * [`glyph`] cuts the cell of one character out of a font.
//! * [`image_source`] holds the outcome of reading an atlas image, and takes
//!   the pixels out of an image of the `image` crate.
//! * [`rasterizer`] keeps the loaded fonts and answers queries by font key.
//! * [`types`] holds the values that pass between a caller and the rasterizer.
//!
//! Opening and decoding an image file is left to the caller, who hands the
//! outcome to [`rasterizer::BitmapRasterizer::load_font`].
//!
//! Every function is verified with Verus against the contract it carries.

pub mod atlas;
pub mod decode;
pub mod glyph;
pub mod image_source;
pub mod rasterizer;
pub mod types;

pub use atlas::check_pixel_color;
pub use atlas::AtlasImage;
pub use decode::BitmapFont;
pub use decode::DecodeError;
pub use image_source::ImageSource;
pub use rasterizer::BitmapRasterizer;
pub use types::BitmapBuffer;
pub use types::Error;
pub use types::FontDesc;
pub use types::FontKey;
pub use types::GlyphKey;
pub use types::Metrics;
pub use types::RasterizedGlyph;
pub use types::Size;
