//! The glyph-to-location mapping: where the outline of each glyph starts in
//! the glyph data.

use vstd::prelude::*;

use crate::font_header::FontHeader;
use crate::maximum_profile::MaximumProfile;
use crate::tape::{parse_many, take_many, Error, Tape, Walue};

verus! {

/// A glyph-to-location mapping.
#[derive(Clone, Debug)]
pub enum GlyphMapping {
    /// Offsets divided by two.
    HalfOffsets(Vec<u16>),
    /// Offsets.
    Offsets(Vec<u32>),
}

/// The byte offsets of a mapping: half-offsets doubled, offsets as they are.
pub open spec fn offsets_of(mapping: GlyphMapping) -> Seq<int> {
    match mapping {
        GlyphMapping::HalfOffsets(values) => Seq::new(values@.len(), |i: int| 2 * values@[i] as int),
        GlyphMapping::Offsets(values) => Seq::new(values@.len(), |i: int| values@[i] as int),
    }
}


impl GlyphMapping {
    /// Read `glyph_count + 1` offsets: halved ones for mapping format 0 of the
    /// font header, full ones for format 1; any other format is refused.
    pub fn read<T: Tape>(tape: &mut T, header: &FontHeader, profile: &MaximumProfile) -> (r: Result<
        GlyphMapping,
        Error,
    >)
        ensures
            final(tape).data() == old(tape).data(),
            ({
                let count = profile.spec_glyph_count() + 1;
                if header.glyph_mapping_format == 0 {
                    match parse_many::<u16>(old(tape).data(), old(tape).at(), count) {
                        Some((offsets, _)) => r matches Ok(GlyphMapping::HalfOffsets(values))
                            && values@ == offsets,
                        None => r.is_err(),
                    }
                } else if header.glyph_mapping_format == 1 {
                    match parse_many::<u32>(old(tape).data(), old(tape).at(), count) {
                        Some((offsets, _)) => r matches Ok(GlyphMapping::Offsets(values))
                            && values@ == offsets,
                        None => r.is_err(),
                    }
                } else {
                    r == Err::<GlyphMapping, Error>(Error::Unknown)
                }
            }),
    {
        let count = profile.glyph_count() + 1;
        if header.glyph_mapping_format == 0 {
            Ok(GlyphMapping::HalfOffsets(take_many::<u16, T>(tape, count)?))
        } else if header.glyph_mapping_format == 1 {
            Ok(GlyphMapping::Offsets(take_many::<u32, T>(tape, count)?))
        } else {
            Err(Error::Unknown)
        }
    }
}

impl<'l> Walue<(&'l FontHeader, &'l MaximumProfile)> for GlyphMapping {
    fn read_given<T: Tape>(tape: &mut T, parameter: (&'l FontHeader, &'l MaximumProfile)) -> (r:
        Result<GlyphMapping, Error>) {
        GlyphMapping::read(tape, parameter.0, parameter.1)
    }
}

} // verus!
