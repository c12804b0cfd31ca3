//! Glyph rasterization, through the fontdue crate.
//!
//! A font is an external collaborator: the embedder decodes font data
//! outside the library and hands the parsed font in as an opaque value.
//! The library only asks it to rasterize glyphs; the atlas layout in
//! [`crate::atlas`] consumes the coverage bitmaps returned here.

use vstd::prelude::*;

verus! {

#[verifier::external_type_specification]
#[verifier::external_body]
pub struct ExFont(fontdue::Font);

/// Relies on fontdue::Font::rasterize: the returned coverage bitmap holds
/// exactly `width * height` bytes, one per pixel, top-left first.
#[verifier::external_body]
pub fn rasterize_glyph(font: &fontdue::Font, character: char, px: u16) -> (r: (
    usize,
    usize,
    Vec<u8>,
))
    ensures
        r.2@.len() == r.0 * r.1,
{
    let (metrics, bitmap) = font.rasterize(character, px.into());
    (metrics.width, metrics.height, bitmap)
}

} // verus!
