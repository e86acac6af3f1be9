//! The maximum profile: the number of glyphs and the memory a font needs.

use vstd::prelude::*;

use crate::number::q32;
use crate::tape::{
    fits, get_u16, give_i32, give_u16, i32_bits, lemma_i32_bytes, lemma_prefix_of_sum, lemma_u16_bytes,
    lemma_u32_bytes, peek_u32, u16_at, u16_bytes, u32_at, u32_bytes, Error, Tape, Value,
};

verus! {

/// A maximum profile.
#[derive(Clone, Copy, Debug, PartialEq, Eq, Structural)]
pub enum MaximumProfile {
    /// Version 0.5.
    Version0(MaximumProfile0),
    /// Version 1.
    Version1(MaximumProfile1),
}

/// A maximum profile of version 0.5.
#[derive(Clone, Copy, Debug, PartialEq, Eq, Structural)]
pub struct MaximumProfile0 {
    pub version: q32,
    pub glyph_count: u16,
}

/// A maximum profile of version 1.
#[derive(Clone, Copy, Debug, PartialEq, Eq, Structural)]
pub struct MaximumProfile1 {
    pub version: q32,
    pub glyph_count: u16,
    pub max_points: u16,
    pub max_contours: u16,
    pub max_composite_points: u16,
    pub max_composite_contours: u16,
    pub max_zones: u16,
    pub max_twilight_points: u16,
    pub max_storage: u16,
    pub max_function_definitions: u16,
    pub max_instruction_definitions: u16,
    pub max_stack_elements: u16,
    pub max_size_of_instructions: u16,
    pub max_component_elements: u16,
    pub max_component_depth: u16,
}

/// The version word of version 0.5.
pub const VERSION_0_5: u32 = 0x00005000;

/// The version word of version 1.
pub const VERSION_1: u32 = 0x00010000;

impl MaximumProfile {
    /// The number of glyphs, whatever the version.
    pub open spec fn spec_glyph_count(&self) -> nat {
        match self {
            MaximumProfile::Version0(p) => p.glyph_count as nat,
            MaximumProfile::Version1(p) => p.glyph_count as nat,
        }
    }

    /// Return the number of glyphs.
    pub fn glyph_count(&self) -> (r: usize)
        ensures
            r == self.spec_glyph_count(),
    {
        match self {
            MaximumProfile::Version0(profile) => profile.glyph_count as usize,
            MaximumProfile::Version1(profile) => profile.glyph_count as usize,
        }
    }
}

impl Value for MaximumProfile {
    /// Version 0.5 holds the number of glyphs only; version 1 adds thirteen
    /// bounds; any other version is refused.
    open spec fn parse(data: Seq<u8>, at: int) -> Option<(MaximumProfile, int)> {
        if !fits(data, at, 4) {
            None
        } else if u32_at(data, at) == VERSION_0_5 {
            if fits(data, at, 6) {
                Some(
                    (
                        MaximumProfile::Version0(
                            MaximumProfile0 {
                                version: q32(VERSION_0_5 as i32),
                                glyph_count: u16_at(data, at + 4),
                            },
                        ),
                        at + 6,
                    ),
                )
            } else {
                None
            }
        } else if u32_at(data, at) == VERSION_1 {
            if fits(data, at, 32) {
                Some(
                    (
                        MaximumProfile::Version1(
                            MaximumProfile1 {
                                version: q32(VERSION_1 as i32),
                                glyph_count: u16_at(data, at + 4),
                                max_points: u16_at(data, at + 6),
                                max_contours: u16_at(data, at + 8),
                                max_composite_points: u16_at(data, at + 10),
                                max_composite_contours: u16_at(data, at + 12),
                                max_zones: u16_at(data, at + 14),
                                max_twilight_points: u16_at(data, at + 16),
                                max_storage: u16_at(data, at + 18),
                                max_function_definitions: u16_at(data, at + 20),
                                max_instruction_definitions: u16_at(data, at + 22),
                                max_stack_elements: u16_at(data, at + 24),
                                max_size_of_instructions: u16_at(data, at + 26),
                                max_component_elements: u16_at(data, at + 28),
                                max_component_depth: u16_at(data, at + 30),
                            },
                        ),
                        at + 32,
                    ),
                )
            } else {
                None
            }
        } else {
            None
        }
    }

    fn read<T: Tape>(tape: &mut T) -> (r: Result<MaximumProfile, Error>) {
        let version = peek_u32(tape)?;
        if version == VERSION_0_5 {
            let b = tape.take_bytes(6)?;
            Ok(
                MaximumProfile::Version0(
                    MaximumProfile0 { version: q32(VERSION_0_5 as i32), glyph_count: get_u16(&b, 4) },
                ),
            )
        } else if version == VERSION_1 {
            let b = tape.take_bytes(32)?;
            Ok(
                MaximumProfile::Version1(
                    MaximumProfile1 {
                        version: q32(VERSION_1 as i32),
                        glyph_count: get_u16(&b, 4),
                        max_points: get_u16(&b, 6),
                        max_contours: get_u16(&b, 8),
                        max_composite_points: get_u16(&b, 10),
                        max_composite_contours: get_u16(&b, 12),
                        max_zones: get_u16(&b, 14),
                        max_twilight_points: get_u16(&b, 16),
                        max_storage: get_u16(&b, 18),
                        max_function_definitions: get_u16(&b, 20),
                        max_instruction_definitions: get_u16(&b, 22),
                        max_stack_elements: get_u16(&b, 24),
                        max_size_of_instructions: get_u16(&b, 26),
                        max_component_elements: get_u16(&b, 28),
                        max_component_depth: get_u16(&b, 30),
                    },
                ),
            )
        } else {
            Err(Error::Unknown)
        }
    }
}

impl MaximumProfile {
    /// Write the profile; its version word must be the one of its variant.
    #[verifier::rlimit(60)]
    pub fn write(&self, data: &mut Vec<u8>)
        ensures
            final(data)@.subrange(0, old(data)@.len() as int) == old(data)@,
            final(data)@.len() == old(data)@.len() + match self {
                MaximumProfile::Version0(_) => 6int,
                MaximumProfile::Version1(_) => 32int,
            },
            match self {
                MaximumProfile::Version0(p) => p.version == q32(VERSION_0_5 as i32),
                MaximumProfile::Version1(p) => p.version == q32(VERSION_1 as i32),
            } ==> MaximumProfile::parse(final(data)@, old(data)@.len() as int) == Some(
                (*self, final(data)@.len() as int),
            ),
    {
        match self {
            MaximumProfile::Version0(p) => {
                let ghost s0 = data@;
                let ghost at = s0.len() as int;
                give_i32(data, p.version.0);
                let ghost s1 = data@;
                give_u16(data, p.glyph_count);
                let ghost s2 = data@;
                proof {
                    assert(s1.len() == at + 4);
                    assert(s2.len() == at + 6);
                    lemma_prefix_of_sum(s1, u16_bytes(p.glyph_count), s2, s2);
                    lemma_prefix_of_sum(s0, u32_bytes(i32_bits(p.version.0)), s1, s2);
                    assert(s2.subrange(at + 0, at + 4) =~= u32_bytes(i32_bits(p.version.0))) by {
                        assert forall|k: int| 0 <= k < 4 implies #[trigger] s2[at + 0 + k] == s1[at + 0 + k] by {}
                    }
                    lemma_i32_bytes(s2, at + 0, p.version.0);
                    lemma_u32_bytes(s2, at + 0, i32_bits(p.version.0));
                    assert(s2.subrange(at + 4, at + 6) =~= u16_bytes(p.glyph_count)) by {
                        assert forall|k: int| 0 <= k < 2 implies #[trigger] s2[at + 4 + k] == s2[at + 4 + k] by {}
                    }
                    lemma_u16_bytes(s2, at + 4, p.glyph_count);
                    assert(s0 =~= s2.subrange(0, at));
                }
            },
            MaximumProfile::Version1(p) => {
                let ghost s0 = data@;
                let ghost at = s0.len() as int;
                give_i32(data, p.version.0);
                let ghost s1 = data@;
                give_u16(data, p.glyph_count);
                let ghost s2 = data@;
                give_u16(data, p.max_points);
                let ghost s3 = data@;
                give_u16(data, p.max_contours);
                let ghost s4 = data@;
                give_u16(data, p.max_composite_points);
                let ghost s5 = data@;
                give_u16(data, p.max_composite_contours);
                let ghost s6 = data@;
                give_u16(data, p.max_zones);
                let ghost s7 = data@;
                give_u16(data, p.max_twilight_points);
                let ghost s8 = data@;
                give_u16(data, p.max_storage);
                let ghost s9 = data@;
                give_u16(data, p.max_function_definitions);
                let ghost s10 = data@;
                give_u16(data, p.max_instruction_definitions);
                let ghost s11 = data@;
                give_u16(data, p.max_stack_elements);
                let ghost s12 = data@;
                give_u16(data, p.max_size_of_instructions);
                let ghost s13 = data@;
                give_u16(data, p.max_component_elements);
                let ghost s14 = data@;
                give_u16(data, p.max_component_depth);
                let ghost s15 = data@;
                proof {
                    assert(s1.len() == at + 4);
                    assert(s2.len() == at + 6);
                    assert(s3.len() == at + 8);
                    assert(s4.len() == at + 10);
                    assert(s5.len() == at + 12);
                    assert(s6.len() == at + 14);
                    assert(s7.len() == at + 16);
                    assert(s8.len() == at + 18);
                    assert(s9.len() == at + 20);
                    assert(s10.len() == at + 22);
                    assert(s11.len() == at + 24);
                    assert(s12.len() == at + 26);
                    assert(s13.len() == at + 28);
                    assert(s14.len() == at + 30);
                    assert(s15.len() == at + 32);
                    lemma_prefix_of_sum(s14, u16_bytes(p.max_component_depth), s15, s15);
                    lemma_prefix_of_sum(s13, u16_bytes(p.max_component_elements), s14, s15);
                    lemma_prefix_of_sum(s12, u16_bytes(p.max_size_of_instructions), s13, s15);
                    lemma_prefix_of_sum(s11, u16_bytes(p.max_stack_elements), s12, s15);
                    lemma_prefix_of_sum(s10, u16_bytes(p.max_instruction_definitions), s11, s15);
                    lemma_prefix_of_sum(s9, u16_bytes(p.max_function_definitions), s10, s15);
                    lemma_prefix_of_sum(s8, u16_bytes(p.max_storage), s9, s15);
                    lemma_prefix_of_sum(s7, u16_bytes(p.max_twilight_points), s8, s15);
                    lemma_prefix_of_sum(s6, u16_bytes(p.max_zones), s7, s15);
                    lemma_prefix_of_sum(s5, u16_bytes(p.max_composite_contours), s6, s15);
                    lemma_prefix_of_sum(s4, u16_bytes(p.max_composite_points), s5, s15);
                    lemma_prefix_of_sum(s3, u16_bytes(p.max_contours), s4, s15);
                    lemma_prefix_of_sum(s2, u16_bytes(p.max_points), s3, s15);
                    lemma_prefix_of_sum(s1, u16_bytes(p.glyph_count), s2, s15);
                    lemma_prefix_of_sum(s0, u32_bytes(i32_bits(p.version.0)), s1, s15);
                    assert(s15.subrange(at + 0, at + 4) =~= u32_bytes(i32_bits(p.version.0))) by {
                        assert forall|k: int| 0 <= k < 4 implies #[trigger] s15[at + 0 + k] == s1[at + 0 + k] by {}
                    }
                    lemma_i32_bytes(s15, at + 0, p.version.0);
                    lemma_u32_bytes(s15, at + 0, i32_bits(p.version.0));
                    assert(s15.subrange(at + 4, at + 6) =~= u16_bytes(p.glyph_count)) by {
                        assert forall|k: int| 0 <= k < 2 implies #[trigger] s15[at + 4 + k] == s2[at + 4 + k] by {}
                    }
                    lemma_u16_bytes(s15, at + 4, p.glyph_count);
                    assert(s15.subrange(at + 6, at + 8) =~= u16_bytes(p.max_points)) by {
                        assert forall|k: int| 0 <= k < 2 implies #[trigger] s15[at + 6 + k] == s3[at + 6 + k] by {}
                    }
                    lemma_u16_bytes(s15, at + 6, p.max_points);
                    assert(s15.subrange(at + 8, at + 10) =~= u16_bytes(p.max_contours)) by {
                        assert forall|k: int| 0 <= k < 2 implies #[trigger] s15[at + 8 + k] == s4[at + 8 + k] by {}
                    }
                    lemma_u16_bytes(s15, at + 8, p.max_contours);
                    assert(s15.subrange(at + 10, at + 12) =~= u16_bytes(p.max_composite_points)) by {
                        assert forall|k: int| 0 <= k < 2 implies #[trigger] s15[at + 10 + k] == s5[at + 10 + k] by {}
                    }
                    lemma_u16_bytes(s15, at + 10, p.max_composite_points);
                    assert(s15.subrange(at + 12, at + 14) =~= u16_bytes(p.max_composite_contours)) by {
                        assert forall|k: int| 0 <= k < 2 implies #[trigger] s15[at + 12 + k] == s6[at + 12 + k] by {}
                    }
                    lemma_u16_bytes(s15, at + 12, p.max_composite_contours);
                    assert(s15.subrange(at + 14, at + 16) =~= u16_bytes(p.max_zones)) by {
                        assert forall|k: int| 0 <= k < 2 implies #[trigger] s15[at + 14 + k] == s7[at + 14 + k] by {}
                    }
                    lemma_u16_bytes(s15, at + 14, p.max_zones);
                    assert(s15.subrange(at + 16, at + 18) =~= u16_bytes(p.max_twilight_points)) by {
                        assert forall|k: int| 0 <= k < 2 implies #[trigger] s15[at + 16 + k] == s8[at + 16 + k] by {}
                    }
                    lemma_u16_bytes(s15, at + 16, p.max_twilight_points);
                    assert(s15.subrange(at + 18, at + 20) =~= u16_bytes(p.max_storage)) by {
                        assert forall|k: int| 0 <= k < 2 implies #[trigger] s15[at + 18 + k] == s9[at + 18 + k] by {}
                    }
                    lemma_u16_bytes(s15, at + 18, p.max_storage);
                    assert(s15.subrange(at + 20, at + 22) =~= u16_bytes(p.max_function_definitions)) by {
                        assert forall|k: int| 0 <= k < 2 implies #[trigger] s15[at + 20 + k] == s10[at + 20 + k] by {}
                    }
                    lemma_u16_bytes(s15, at + 20, p.max_function_definitions);
                    assert(s15.subrange(at + 22, at + 24) =~= u16_bytes(p.max_instruction_definitions)) by {
                        assert forall|k: int| 0 <= k < 2 implies #[trigger] s15[at + 22 + k] == s11[at + 22 + k] by {}
                    }
                    lemma_u16_bytes(s15, at + 22, p.max_instruction_definitions);
                    assert(s15.subrange(at + 24, at + 26) =~= u16_bytes(p.max_stack_elements)) by {
                        assert forall|k: int| 0 <= k < 2 implies #[trigger] s15[at + 24 + k] == s12[at + 24 + k] by {}
                    }
                    lemma_u16_bytes(s15, at + 24, p.max_stack_elements);
                    assert(s15.subrange(at + 26, at + 28) =~= u16_bytes(p.max_size_of_instructions)) by {
                        assert forall|k: int| 0 <= k < 2 implies #[trigger] s15[at + 26 + k] == s13[at + 26 + k] by {}
                    }
                    lemma_u16_bytes(s15, at + 26, p.max_size_of_instructions);
                    assert(s15.subrange(at + 28, at + 30) =~= u16_bytes(p.max_component_elements)) by {
                        assert forall|k: int| 0 <= k < 2 implies #[trigger] s15[at + 28 + k] == s14[at + 28 + k] by {}
                    }
                    lemma_u16_bytes(s15, at + 28, p.max_component_elements);
                    assert(s15.subrange(at + 30, at + 32) =~= u16_bytes(p.max_component_depth)) by {
                        assert forall|k: int| 0 <= k < 2 implies #[trigger] s15[at + 30 + k] == s15[at + 30 + k] by {}
                    }
                    lemma_u16_bytes(s15, at + 30, p.max_component_depth);
                    assert(s0 =~= s15.subrange(0, at));
                }
            },
        }
    }
}

} // verus!
