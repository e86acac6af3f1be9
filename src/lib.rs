//! Parser of TrueType fonts: a seekable big-endian tape and decoders of the
//! tables of an sfnt container, each with a contract proved by Verus.

use vstd::prelude::*;

pub mod character_mapping;
pub mod font_header;
pub mod glyph_data;
pub mod glyph_mapping;
pub mod horizontal_header;
pub mod horizontal_metrics;
pub mod language;
pub mod macintosh;
pub mod maximum_profile;
pub mod names;
pub mod number;
pub mod offsets;
pub mod postscript;
pub mod tag;
pub mod tape;
pub mod unicode;
pub mod windows;
pub mod windows_metrics;

verus! {

/// A glyph identifier.
pub type GlyphID = u16;

/// Check if a tag names an accepted font format.
pub fn accept(tag: &tag::Tag) -> (r: bool)
    ensures
        r == offsets::is_accepted(*tag),
{
    offsets::Header::accept(tag)
}

} // verus!
