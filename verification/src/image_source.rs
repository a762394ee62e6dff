//! Where an atlas comes from: the outcome of reading an image, and the way
//! from an image of the `image` crate to the bytes that the decoder works on.

use crate::atlas::AtlasImage;
use crate::atlas::AtlasView;
use vstd::prelude::*;

verus! {

/// An image of three 8-bit samples to the pixel, as the `image` crate holds
/// it: an `ImageBuffer` of `Rgb<u8>` pixels over a `Vec<u8>`.
///
/// The contracts of this crate see of it what [`pixels_width`],
/// [`pixels_height`] and [`pixels_samples`] name, and nothing else.
#[verifier::external_body]
pub struct RgbPixels {
    pub image: image::RgbImage,
}

/// The width in pixels that an RGB image was made with.
pub uninterp spec fn pixels_width(pixels: RgbPixels) -> u32;

/// The height in pixels that an RGB image was made with.
pub uninterp spec fn pixels_height(pixels: RgbPixels) -> u32;

/// The samples in the buffer of an RGB image, in the order of the buffer.
pub uninterp spec fn pixels_samples(pixels: RgbPixels) -> Seq<u8>;

/// `ImageBuffer::width`: the width that the image was made with.
#[verifier::external_body]
fn rgb_width(pixels: &RgbPixels) -> (width: u32)
    ensures
        width == pixels_width(*pixels),
{
    pixels.image.width()
}

/// `ImageBuffer::height`: the height that the image was made with.
#[verifier::external_body]
fn rgb_height(pixels: &RgbPixels) -> (height: u32)
    ensures
        height == pixels_height(*pixels),
{
    pixels.image.height()
}

/// `ImageBuffer::into_raw`: gives up the image for the buffer of samples that
/// it holds, unchanged.
#[verifier::external_body]
fn rgb_into_raw(pixels: RgbPixels) -> (samples: Vec<u8>)
    ensures
        samples@ == pixels_samples(pixels),
{
    pixels.image.into_raw()
}

/// What came of the attempt to read the atlas image of a font.
#[derive(Debug)]
pub enum ImageSource {
    /// The image could not be opened.
    NotFound,
    /// The image was opened, and what it holds could not be decoded.
    Undecodable,
    /// The pixels of the image.
    Decoded(AtlasImage),
}

/// An [`ImageSource`], with the image as the contracts see it.
pub enum SourceView {
    NotFound,
    Undecodable,
    Decoded(AtlasView),
}

impl View for ImageSource {
    type V = SourceView;

    open spec fn view(&self) -> SourceView {
        match self {
            ImageSource::NotFound => SourceView::NotFound,
            ImageSource::Undecodable => SourceView::Undecodable,
            ImageSource::Decoded(image) => SourceView::Decoded(image@),
        }
    }
}

/// The source that a decoded image makes: its first `width * height` pixels,
/// three samples each. A buffer that holds fewer is no image.
pub open spec fn source_of_samples(width: u32, height: u32, samples: Seq<u8>) -> SourceView {
    if width * height * 3 <= samples.len() {
        SourceView::Decoded(
            AtlasView {
                width: width as nat,
                height: height as nat,
                pixels: samples.take(width * height * 3),
            },
        )
    } else {
        SourceView::Undecodable
    }
}

impl ImageSource {
    /// The source made of a decoded image, given by its size and its buffer
    /// of samples.
    pub fn from_samples(width: u32, height: u32, samples: Vec<u8>) -> (source: ImageSource)
        ensures
            source@ == source_of_samples(width, height, samples@),
    {
        let columns = width as usize;
        let rows = height as usize;
        let needed = match columns.checked_mul(rows) {
            Some(count) => count.checked_mul(3),
            None => None,
        };
        match needed {
            Some(len) => {
                if len <= samples.len() {
                    let mut pixels = samples;
                    pixels.truncate(len);
                    match AtlasImage::new(columns, rows, pixels) {
                        Some(image) => ImageSource::Decoded(image),
                        None => ImageSource::Undecodable,
                    }
                } else {
                    ImageSource::Undecodable
                }
            },
            None => {
                assert(width * height * 3 > usize::MAX) by (nonlinear_arith)
                    requires
                        width * height > usize::MAX || width * height * 3 > usize::MAX,
                ;
                assert(samples.len() <= usize::MAX);
                ImageSource::Undecodable
            },
        }
    }

    /// The source made of an image that the `image` crate has decoded: its
    /// size and its samples are taken as they are.
    pub fn from_pixels(pixels: RgbPixels) -> (source: ImageSource)
        ensures
            source@ == source_of_samples(
                pixels_width(pixels),
                pixels_height(pixels),
                pixels_samples(pixels),
            ),
    {
        let width = rgb_width(&pixels);
        let height = rgb_height(&pixels);
        let samples = rgb_into_raw(pixels);
        ImageSource::from_samples(width, height, samples)
    }
}

} // verus!
