//! The rasterizer: the fonts that were loaded, each under a key of its own.

use crate::atlas::blue;
use crate::atlas::red;
use crate::atlas::AtlasView;
use crate::decode::decode;
use crate::decode::lemma_font_measurements;
use crate::decode::BitmapFont;
use crate::glyph::FIRST_CHARACTER;
use crate::image_source::ImageSource;
use crate::image_source::SourceView;
use crate::types::Error;
use crate::types::ErrorView;
use crate::types::FontDesc;
use crate::types::FontKey;
use crate::types::GlyphKey;
use crate::types::GlyphView;
use crate::types::Metrics;
use crate::types::RasterizedGlyph;
use crate::types::Size;
use std::collections::HashMap;
use vstd::prelude::*;

verus! {

broadcast use vstd::std_specs::hash::group_hash_axioms;

/// The text of the error for an image that could not be decoded.
pub open spec fn undecodable_message() -> Seq<char> {
    "Failed to decode font"@
}

/// What a rasterizer is to the contracts of this crate.
pub struct RasterizerView {
    /// The atlases of the fonts, in the order in which they were loaded. The
    /// key of a font is its position in this sequence.
    pub fonts: Seq<AtlasView>,
    /// For each font, in the same order, the descriptor that it was loaded
    /// for, and its key.
    pub known: Seq<(Seq<char>, nat)>,
}

/// The key that was kept last for `desc`, if one was.
pub open spec fn latest_key(known: Seq<(Seq<char>, nat)>, desc: Seq<char>) -> Option<nat>
    decreases known.len(),
{
    if known.len() == 0 {
        None
    } else if known.last().0 == desc {
        Some(known.last().1)
    } else {
        latest_key(known.drop_last(), desc)
    }
}

impl RasterizerView {
    /// A rasterizer without fonts.
    pub open spec fn empty() -> RasterizerView {
        RasterizerView { fonts: Seq::empty(), known: Seq::empty() }
    }

    /// The atlas of the font that goes by `key`, if one does.
    pub open spec fn font(self, key: nat) -> Option<AtlasView> {
        if key < self.fonts.len() {
            Some(self.fonts[key as int])
        } else {
            None
        }
    }

    /// The key of the font that was loaded last for `desc`, if one was.
    pub open spec fn key_of(self, desc: Seq<char>) -> Option<nat> {
        latest_key(self.known, desc)
    }

    /// Holds of every rasterizer: each of its atlases is a font, and each key
    /// that it keeps for a descriptor leads to one of them.
    pub open spec fn wf(self) -> bool {
        &&& forall|key: int| 0 <= key < self.fonts.len() ==> (#[trigger] self.fonts[key]).is_font()
        &&& forall|i: int|
            0 <= i < self.known.len() ==> (#[trigger] self.known[i]).1 < self.fonts.len()
    }

    /// What loading a font for `desc` from `source` does: the rasterizer
    /// afterwards, and the key of the font or the reason why there is none.
    ///
    /// A font gets the next key, whether or not one was loaded for `desc`
    /// before: every load reads its image anew. A load that fails changes
    /// nothing.
    pub open spec fn load(self, desc: Seq<char>, source: SourceView) -> (
        RasterizerView,
        Result<nat, ErrorView>,
    ) {
        match source {
            SourceView::NotFound => (self, Err(ErrorView::FontNotFound(desc))),
            SourceView::Undecodable => (
                self,
                Err(ErrorView::PlatformError(undecodable_message())),
            ),
            SourceView::Decoded(atlas) => match atlas.decode_error() {
                Some(error) => (self, Err(ErrorView::PlatformError(error.message_spec()))),
                None => (
                    RasterizerView {
                        fonts: self.fonts.push(atlas),
                        known: self.known.push((desc, self.fonts.len())),
                    },
                    Ok(self.fonts.len()),
                ),
            },
        }
    }

    /// The measurements of the font that goes by `key`.
    pub open spec fn metrics(self, key: nat) -> Result<Metrics, ErrorView> {
        match self.font(key) {
            Some(atlas) => Ok(atlas.metrics()),
            None => Err(ErrorView::UnknownFontKey),
        }
    }

    /// The glyph of `character` in the font that goes by `key`. A character
    /// before `'!'` has no glyph in any font.
    pub open spec fn glyph(self, key: nat, character: char) -> Result<GlyphView, ErrorView> {
        if (character as int) < FIRST_CHARACTER {
            Err(ErrorView::UnknownFontKey)
        } else {
            match self.font(key) {
                Some(atlas) => Ok(atlas.glyph(character)),
                None => Err(ErrorView::UnknownFontKey),
            }
        }
    }

    /// The request for `character` in the font that goes by `key` can be
    /// answered: either it is refused, or the cell of the character lies
    /// within the atlas of the font.
    pub open spec fn in_atlas(self, key: nat, character: char) -> bool {
        self.glyph(key, character) is Ok ==> self.fonts[key as int].has_cell(character)
    }
}

/// A load keeps a rasterizer well formed, whether it succeeds or fails.
pub proof fn lemma_load_keeps_wf(before: RasterizerView, desc: Seq<char>, source: SourceView)
    requires
        before.wf(),
        source matches SourceView::Decoded(atlas) ==> atlas.wf(),
    ensures
        before.load(desc, source).0.wf(),
{
}

/// A key that a rasterizer keeps for a descriptor is the key of a font.
pub proof fn lemma_known_key_is_loaded(rasterizer: RasterizerView, desc: Seq<char>)
    requires
        rasterizer.wf(),
    ensures
        rasterizer.key_of(desc) matches Some(key) ==> rasterizer.font(key) is Some,
{
    lemma_latest_key_is_kept(rasterizer.known, desc);
}

/// The key that was kept last for a descriptor is one of the keys kept.
pub proof fn lemma_latest_key_is_kept(known: Seq<(Seq<char>, nat)>, desc: Seq<char>)
    ensures
        latest_key(known, desc) matches Some(key) ==> exists|i: int|
            0 <= i < known.len() && #[trigger] known[i] == (desc, key),
    decreases known.len(),
{
    if known.len() > 0 {
        if known.last().0 == desc {
            assert(known[known.len() - 1] == (desc, known.last().1));
        } else {
            lemma_latest_key_is_kept(known.drop_last(), desc);
            if latest_key(known, desc) is Some {
                let key = latest_key(known, desc)->Some_0;
                let i = choose|i: int|
                    0 <= i < known.drop_last().len() && #[trigger] known.drop_last()[i] == (
                        desc,
                        key,
                    );
                assert(known[i] == (desc, key));
            }
        }
    }
}

/// A font that was loaded answers to its key with the measurements of its
/// atlas: every glyph advances by the width of a cell, a line is as high as
/// the image, and nothing descends below the line.
pub proof fn lemma_metrics_after_load(
    before: RasterizerView,
    desc: Seq<char>,
    source: SourceView,
    key: nat,
)
    requires
        source matches SourceView::Decoded(atlas) ==> atlas.wf(),
        before.load(desc, source).1 == Ok::<nat, ErrorView>(key),
    ensures
        source matches SourceView::Decoded(atlas) && before.load(desc, source).0.metrics(key)
            matches Ok(metrics) && {
            &&& metrics.average_advance == atlas.glyph_width()
            &&& metrics.line_height == atlas.height
            &&& metrics.descent == 0
            &&& metrics.underline_position == atlas.line_position(red())
            &&& metrics.underline_thickness == atlas.line_thickness(red())
            &&& metrics.strikeout_position == atlas.line_position(blue())
            &&& metrics.strikeout_thickness == atlas.line_thickness(blue())
        },
{
    let atlas = source->Decoded_0;
    lemma_font_measurements(atlas);
}

/// A load that succeeds gives the font a key that no font had before, and
/// keeps the key for the descriptor. This holds also where a font was loaded
/// for the same descriptor before: the descriptor then leads to the new key.
pub proof fn lemma_load_gives_fresh_key(
    before: RasterizerView,
    desc: Seq<char>,
    source: SourceView,
    key: nat,
)
    requires
        before.load(desc, source).1 == Ok::<nat, ErrorView>(key),
    ensures
        before.font(key) is None,
        source matches SourceView::Decoded(atlas) && before.load(desc, source).0.font(key) == Some(
            atlas,
        ),
        before.load(desc, source).0.key_of(desc) == Some(key),
{
    let after = before.load(desc, source).0;
    assert(after.known.last() == (desc, key));
}

/// A load leaves the fonts that were there as they are, under their keys,
/// and what is kept for other descriptors too.
pub proof fn lemma_load_keeps_fonts(
    before: RasterizerView,
    desc: Seq<char>,
    source: SourceView,
    key: nat,
    character: char,
    other: Seq<char>,
)
    requires
        key < before.fonts.len(),
        other != desc,
    ensures
        before.load(desc, source).0.font(key) == before.font(key),
        before.load(desc, source).0.metrics(key) == before.metrics(key),
        before.load(desc, source).0.glyph(key, character) == before.glyph(key, character),
        before.load(desc, source).0.key_of(other) == before.key_of(other),
{
    let after = before.load(desc, source).0;
    if after != before {
        assert(after.known.drop_last() =~= before.known);
    }
}

/// A load that fails changes nothing: no font is kept, and no key is given.
pub proof fn lemma_failed_load_changes_nothing(
    before: RasterizerView,
    desc: Seq<char>,
    source: SourceView,
)
    requires
        before.load(desc, source).1 is Err,
    ensures
        before.load(desc, source).0 == before,
        source matches SourceView::Decoded(atlas) ==> atlas.decode_error() is Some,
{
}

/// No font has a glyph for a character before `'!'`: the request fails,
/// whatever the key.
pub proof fn lemma_no_glyph_before_first_character(
    rasterizer: RasterizerView,
    key: nat,
    character: char,
)
    requires
        (character as int) < FIRST_CHARACTER,
    ensures
        rasterizer.glyph(key, character) == Err::<GlyphView, ErrorView>(ErrorView::UnknownFontKey),
        rasterizer.in_atlas(key, character),
{
}

/// Rasterizes the glyphs of fonts that are read from atlas images.
#[derive(Debug)]
pub struct BitmapRasterizer {
    fonts: HashMap<usize, BitmapFont>,
    keys: Vec<(FontDesc, FontKey)>,
}

impl View for BitmapRasterizer {
    type V = RasterizerView;

    closed spec fn view(&self) -> RasterizerView {
        RasterizerView {
            fonts: Seq::new(self.fonts@.len(), |i: int| self.fonts@[i as usize]@),
            known: Seq::new(self.keys@.len(), |i: int| (self.keys@[i].0@, self.keys@[i].1@)),
        }
    }
}

impl BitmapRasterizer {
    /// Holds of every rasterizer that [`BitmapRasterizer::new`] made, whatever
    /// was done with it since: the keys in use are the numbers below the
    /// number of fonts, and the rasterizer is well formed in the eyes of the
    /// contracts.
    pub closed spec fn wf(&self) -> bool {
        &&& forall|token: usize| self.fonts@.contains_key(token) <==> token < self.fonts@.len()
        &&& self@.wf()
    }

    /// A well-formed rasterizer holds fonts only, and keeps keys of its fonts
    /// only.
    pub proof fn lemma_view_wf(&self)
        requires
            self.wf(),
        ensures
            self@.wf(),
    {
    }

    /// A rasterizer without fonts.
    pub fn new() -> (rasterizer: BitmapRasterizer)
        ensures
            rasterizer.wf(),
            rasterizer@ == RasterizerView::empty(),
    {
        let rasterizer = BitmapRasterizer { fonts: HashMap::new(), keys: Vec::new() };
        assert(rasterizer@.fonts =~= Seq::empty());
        assert(rasterizer@.known =~= Seq::empty());
        rasterizer
    }

    /// The font that goes by `font_key`.
    pub fn get_loaded_font(&self, font_key: FontKey) -> (result: Result<&BitmapFont, Error>)
        requires
            self.wf(),
        ensures
            match result {
                Ok(font) => self@.font(font_key@) == Some(font@),
                Err(error) => self@.font(font_key@) is None && error@ == ErrorView::UnknownFontKey,
            },
    {
        let token = font_key.index();
        match self.fonts.get(&token) {
            Some(font) => Ok(font),
            None => Err(Error::UnknownFontKey),
        }
    }

    /// Loads the font that `desc` names from `source`, the outcome of reading
    /// its atlas image, and gives it a key.
    ///
    /// The size changes nothing: an atlas holds one size.
    pub fn load_font(&mut self, desc: &FontDesc, _size: Size, source: ImageSource) -> (result:
        Result<FontKey, Error>)
        requires
            old(self).wf(),
        ensures
            final(self).wf(),
            final(self)@ == old(self)@.load(desc@, source@).0,
            match result {
                Ok(key) => old(self)@.load(desc@, source@).1 == Ok::<nat, ErrorView>(key@),
                Err(error) => old(self)@.load(desc@, source@).1 == Err::<nat, ErrorView>(error@),
            },
    {
        match source {
            ImageSource::NotFound => Err(Error::FontNotFound(desc.clone())),
            ImageSource::Undecodable => Err(
                Error::PlatformError("Failed to decode font".to_owned()),
            ),
            ImageSource::Decoded(image) => {
                proof {
                    use_type_invariant(&image);
                }
                match decode(image) {
                    Err(error) => Err(Error::PlatformError(error.message())),
                    Ok(font) => {
                        let ghost before = self@;
                        let ghost atlas = font@;
                        let token = self.fonts.len();
                        let key = FontKey::from_index(token);
                        self.fonts.insert(token, font);
                        self.keys.push((desc.clone(), key));
                        proof {
                            assert(self@.fonts =~= before.fonts.push(atlas));
                            assert(self@.known =~= before.known.push((desc@, before.fonts.len())));
                        }
                        Ok(key)
                    },
                }
            },
        }
    }

    /// The key of the font that was loaded last for `desc`, if one was.
    pub fn font_key(&self, desc: &FontDesc) -> (result: Option<FontKey>)
        ensures
            match result {
                Some(key) => self@.key_of(desc@) == Some(key@),
                None => self@.key_of(desc@) is None,
            },
    {
        let mut i = self.keys.len();
        assert(self@.known.take(i as int) =~= self@.known);
        while i > 0
            invariant
                i <= self.keys.len(),
                self@.known.len() == self.keys.len(),
                latest_key(self@.known, desc@) == latest_key(self@.known.take(i as int), desc@),
            decreases i,
        {
            i -= 1;
            let ghost upto = self@.known.take(i + 1);
            assert(upto.last() == (self.keys@[i as int].0@, self.keys@[i as int].1@));
            assert(upto.drop_last() =~= self@.known.take(i as int));
            if self.keys[i].0.same_as(desc) {
                return Some(self.keys[i].1);
            }
        }
        None
    }

    /// The measurements of the font that goes by `key`.
    ///
    /// The size changes nothing: an atlas holds one size.
    pub fn metrics(&self, key: FontKey, _size: Size) -> (result: Result<Metrics, Error>)
        requires
            self.wf(),
        ensures
            match result {
                Ok(metrics) => self@.metrics(key@) == Ok::<Metrics, ErrorView>(metrics),
                Err(error) => self@.metrics(key@) == Err::<Metrics, ErrorView>(error@),
            },
    {
        match self.get_loaded_font(key) {
            Ok(font) => Ok(font.metrics()),
            Err(error) => Err(error),
        }
    }

    /// Tells whether [`BitmapRasterizer::get_glyph`] can answer the request
    /// for `glyph`.
    pub fn in_atlas(&self, glyph: GlyphKey) -> (answered: bool)
        requires
            self.wf(),
        ensures
            answered == self@.in_atlas(glyph.font_key@, glyph.character),
    {
        if (glyph.character as u32) < FIRST_CHARACTER {
            return true;
        }
        match self.get_loaded_font(glyph.font_key) {
            Ok(font) => font.has_cell(glyph.character),
            Err(_) => true,
        }
    }

    /// Cuts the glyph that `glyph` asks for out of the atlas of its font.
    ///
    /// The cell of the character has to lie within the atlas: see
    /// [`BitmapRasterizer::in_atlas`].
    pub fn rasterize_glyph(&self, glyph: GlyphKey) -> (result: Result<RasterizedGlyph, Error>)
        requires
            self.wf(),
            self@.in_atlas(glyph.font_key@, glyph.character),
        ensures
            match result {
                Ok(rasterized) => self@.glyph(glyph.font_key@, glyph.character) == Ok::<
                    GlyphView,
                    ErrorView,
                >(rasterized@),
                Err(error) => self@.glyph(glyph.font_key@, glyph.character) == Err::<
                    GlyphView,
                    ErrorView,
                >(error@),
            },
    {
        let character = glyph.character;
        if (character as u32) < FIRST_CHARACTER {
            return Err(Error::UnknownFontKey);
        }
        match self.get_loaded_font(glyph.font_key) {
            Ok(font) => Ok(font.rasterize(character)),
            Err(error) => Err(error),
        }
    }

    /// The glyph that `glyph` asks for. Every call cuts the glyph out anew,
    /// and the rasterizer stays as it is.
    ///
    /// The cell of the character has to lie within the atlas: see
    /// [`BitmapRasterizer::in_atlas`].
    pub fn get_glyph(&mut self, glyph: GlyphKey) -> (result: Result<RasterizedGlyph, Error>)
        requires
            old(self).wf(),
            old(self)@.in_atlas(glyph.font_key@, glyph.character),
        ensures
            *final(self) == *old(self),
            match result {
                Ok(rasterized) => old(self)@.glyph(glyph.font_key@, glyph.character) == Ok::<
                    GlyphView,
                    ErrorView,
                >(rasterized@),
                Err(error) => old(self)@.glyph(glyph.font_key@, glyph.character) == Err::<
                    GlyphView,
                    ErrorView,
                >(error@),
            },
    {
        self.rasterize_glyph(glyph)
    }

    /// The kerning between two glyphs, in pixels along each axis: none. An
    /// atlas holds no kerning.
    pub fn kerning(&mut self, _left: GlyphKey, _right: GlyphKey) -> (offset: (i32, i32))
        ensures
            offset == (0i32, 0i32),
            *final(self) == *old(self),
    {
        (0, 0)
    }

    /// Takes note of a change of the device pixel ratio. An atlas has one
    /// scale, so nothing changes.
    pub fn update_dpr(&mut self)
        ensures
            *final(self) == *old(self),
    {
    }
}

} // verus!
