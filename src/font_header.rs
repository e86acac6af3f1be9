//! The font header: global information about a font.

use vstd::prelude::*;

use crate::number::q32;
use crate::offsets::word_sum;
use crate::tape::{
    give_i16, give_i32, give_i64, give_u16, give_u32, i16_bits, i32_bits, i64_bytes, lemma_i16_bytes,
    lemma_i32_bytes, lemma_i64_bytes, lemma_prefix_of_sum, lemma_u16_bytes, lemma_u32_bytes, u16_bytes, u32_bytes, fits, get_i16, get_i32, get_i64, get_u16, get_u32, i16_at, i32_at, i64_at, u16_at, u32_at,
    Error, Tape, Value,
};

verus! {

/// Font-header flags.
#[derive(Clone, Copy, Debug, PartialEq, Eq, Structural)]
pub struct Flags(pub u16);

impl Flags {
    /// The baseline is at y = 0.
    pub fn is_baseline_at_0(&self) -> (r: bool)
        ensures
            r == (self.0 & 0x0001 != 0),
    {
        self.0 & 0x0001 != 0
    }

    /// The left side bearing is at x = 0.
    pub fn is_left_side_bearing_at_0(&self) -> (r: bool)
        ensures
            r == (self.0 & 0x0002 != 0),
    {
        self.0 & 0x0002 != 0
    }

    /// The reserved high bit is set.
    pub fn is_invalid(&self) -> (r: bool)
        ensures
            r == (self.0 & 0x8000 != 0),
    {
        self.0 & 0x8000 != 0
    }
}

/// Macintosh style flags.
#[derive(Clone, Copy, Debug, PartialEq, Eq, Structural)]
pub struct MacintoshFlags(pub u16);

impl MacintoshFlags {
    /// Bold.
    pub fn is_bold(&self) -> (r: bool)
        ensures
            r == (self.0 & 0x0001 != 0),
    {
        self.0 & 0x0001 != 0
    }

    /// Italic.
    pub fn is_italic(&self) -> (r: bool)
        ensures
            r == (self.0 & 0x0002 != 0),
    {
        self.0 & 0x0002 != 0
    }

    /// Underlined.
    pub fn is_underline(&self) -> (r: bool)
        ensures
            r == (self.0 & 0x0004 != 0),
    {
        self.0 & 0x0004 != 0
    }

    /// Outlined.
    pub fn is_outline(&self) -> (r: bool)
        ensures
            r == (self.0 & 0x0008 != 0),
    {
        self.0 & 0x0008 != 0
    }

    /// Shadowed.
    pub fn is_shadow(&self) -> (r: bool)
        ensures
            r == (self.0 & 0x0010 != 0),
    {
        self.0 & 0x0010 != 0
    }

    /// Condensed.
    pub fn is_condensed(&self) -> (r: bool)
        ensures
            r == (self.0 & 0x0020 != 0),
    {
        self.0 & 0x0020 != 0
    }

    /// Extended.
    pub fn is_extended(&self) -> (r: bool)
        ensures
            r == (self.0 & 0x0040 != 0),
    {
        self.0 & 0x0040 != 0
    }

    /// A reserved bit is set.
    pub fn is_invalid(&self) -> (r: bool)
        ensures
            r == (self.0 & 0xFF80 != 0),
    {
        self.0 & 0xFF80 != 0
    }
}

/// A font header.
#[derive(Clone, Copy, Debug, PartialEq, Eq, Structural)]
pub struct FontHeader {
    pub major_version: u16,
    pub minor_version: u16,
    pub revision: q32,
    pub checksum_adjustment: u32,
    pub magic_number: u32,
    pub flags: Flags,
    pub units_per_em: u16,
    pub created: i64,
    pub modified: i64,
    pub min_x: i16,
    pub min_y: i16,
    pub max_x: i16,
    pub max_y: i16,
    pub macintosh_flags: MacintoshFlags,
    pub lowest_ppem: u16,
    pub direction_hint: i16,
    pub glyph_mapping_format: i16,
    pub glyph_data_format: i16,
}

/// The magic number of a font header.
pub const MAGIC_NUMBER: u32 = 0x5F0F3CF5;

/// The number that the words of a whole font add up to once its checksum
/// adjustment is in place.
pub const CHECKSUM_ADJUSTMENT: u32 = 0xB1B0AFBA;

/// The checksum adjustment that makes words summing to `sum` add up to
/// `CHECKSUM_ADJUSTMENT`.
pub open spec fn adjustment_for(sum: int) -> int {
    (CHECKSUM_ADJUSTMENT + 4294967296 - sum) % 4294967296
}

impl Value for FontHeader {
    /// Version 1.0, the magic number, and no reserved flag set.
    open spec fn parse(data: Seq<u8>, at: int) -> Option<(FontHeader, int)> {
        if fits(data, at, 54) && u16_at(data, at) == 1 && u16_at(data, at + 2) == 0 && u32_at(
            data,
            at + 12,
        ) == MAGIC_NUMBER && u16_at(data, at + 16) & 0x8000 == 0 && u16_at(data, at + 44) & 0xFF80
            == 0 {
            Some(
                (
                    FontHeader {
                        major_version: 1,
                        minor_version: 0,
                        revision: q32(i32_at(data, at + 4)),
                        checksum_adjustment: u32_at(data, at + 8),
                        magic_number: MAGIC_NUMBER,
                        flags: Flags(u16_at(data, at + 16)),
                        units_per_em: u16_at(data, at + 18),
                        created: i64_at(data, at + 20),
                        modified: i64_at(data, at + 28),
                        min_x: i16_at(data, at + 36),
                        min_y: i16_at(data, at + 38),
                        max_x: i16_at(data, at + 40),
                        max_y: i16_at(data, at + 42),
                        macintosh_flags: MacintoshFlags(u16_at(data, at + 44)),
                        lowest_ppem: u16_at(data, at + 46),
                        direction_hint: i16_at(data, at + 48),
                        glyph_mapping_format: i16_at(data, at + 50),
                        glyph_data_format: i16_at(data, at + 52),
                    },
                    at + 54,
                ),
            )
        } else {
            None
        }
    }

    fn read<T: Tape>(tape: &mut T) -> (r: Result<FontHeader, Error>) {
        let b = tape.take_bytes(54)?;
        let major_version = get_u16(&b, 0);
        let minor_version = get_u16(&b, 2);
        if major_version != 1 || minor_version != 0 {
            return Err(Error::Unknown);
        }
        let magic_number = get_u32(&b, 12);
        if magic_number != MAGIC_NUMBER {
            return Err(Error::Unknown);
        }
        let flags = Flags(get_u16(&b, 16));
        let macintosh_flags = MacintoshFlags(get_u16(&b, 44));
        if flags.is_invalid() || macintosh_flags.is_invalid() {
            return Err(Error::Malformed);
        }
        Ok(
            FontHeader {
                major_version,
                minor_version,
                revision: q32(get_i32(&b, 4)),
                checksum_adjustment: get_u32(&b, 8),
                magic_number,
                flags,
                units_per_em: get_u16(&b, 18),
                created: get_i64(&b, 20),
                modified: get_i64(&b, 28),
                min_x: get_i16(&b, 36),
                min_y: get_i16(&b, 38),
                max_x: get_i16(&b, 40),
                max_y: get_i16(&b, 42),
                macintosh_flags,
                lowest_ppem: get_u16(&b, 46),
                direction_hint: get_i16(&b, 48),
                glyph_mapping_format: get_i16(&b, 50),
                glyph_data_format: get_i16(&b, 52),
            },
        )
    }
}

impl FontHeader {
    /// Compute the checksum adjustment of a whole font: the bytes from the
    /// cursor to the end, whose number must be a multiple of four, are summed
    /// as big-endian words, and the result is `CHECKSUM_ADJUSTMENT` minus that
    /// sum, wrapping. The adjustment word of the font header is expected to be
    /// zero in the data.
    pub fn checksum<T: Tape>(tape: &mut T) -> (r: Result<u32, Error>)
        ensures
            final(tape).data() == old(tape).data(),
            r.is_ok() <==> (old(tape).data().len() - old(tape).at()) % 4 == 0,
            r matches Ok(value) ==> value == adjustment_for(
                word_sum(
                    old(tape).data(),
                    old(tape).at(),
                    old(tape).data().len() - old(tape).at(),
                    4294967296,
                    ((old(tape).data().len() - old(tape).at()) / 4) as nat,
                ),
            ),
    {
        let length = tape.length();
        let position = tape.position();
        let size = length - position;
        if size % 4 != 0 {
            return Err(Error::Malformed);
        }
        let bytes = match tape.take_bytes(size as usize) {
            Ok(bytes) => bytes,
            Err(e) => return Err(e),
        };
        let sum = crate::offsets::sum_words(&bytes, 4294967296);
        assert((size as int + 3) / 4 == size as int / 4);
        proof {
            crate::offsets::lemma_word_sum_shift(
                tape.data(),
                position as int,
                bytes@,
                size as int,
                4294967296,
                (size / 4) as nat,
            );
        }
        Ok(((CHECKSUM_ADJUSTMENT as u64 + 4294967296 - sum as u64) % 4294967296) as u32)
    }
}

impl FontHeader {
    /// The header can be read back: version 1.0, the magic number, and no
    /// reserved flag set.
    pub open spec fn is_valid(&self) -> bool {
        &&& self.major_version == 1
        &&& self.minor_version == 0
        &&& self.magic_number == MAGIC_NUMBER
        &&& self.flags.0 & 0x8000 == 0
        &&& self.macintosh_flags.0 & 0xFF80 == 0
    }

    /// Write the header, field by field; a valid header reads back as it is.
    #[verifier::rlimit(60)]
    pub fn write(&self, data: &mut Vec<u8>)
        ensures
            final(data)@.subrange(0, old(data)@.len() as int) == old(data)@,
            final(data)@.len() == old(data)@.len() + 54,
            self.is_valid() ==> FontHeader::parse(final(data)@, old(data)@.len() as int) == Some(
                (*self, old(data)@.len() + 54int),
            ),
    {
        let ghost s0 = data@;
        let ghost at = s0.len() as int;
        give_u16(data, self.major_version);
        let ghost s1 = data@;
        give_u16(data, self.minor_version);
        let ghost s2 = data@;
        give_i32(data, self.revision.0);
        let ghost s3 = data@;
        give_u32(data, self.checksum_adjustment);
        let ghost s4 = data@;
        give_u32(data, self.magic_number);
        let ghost s5 = data@;
        give_u16(data, self.flags.0);
        let ghost s6 = data@;
        give_u16(data, self.units_per_em);
        let ghost s7 = data@;
        give_i64(data, self.created);
        let ghost s8 = data@;
        give_i64(data, self.modified);
        let ghost s9 = data@;
        give_i16(data, self.min_x);
        let ghost s10 = data@;
        give_i16(data, self.min_y);
        let ghost s11 = data@;
        give_i16(data, self.max_x);
        let ghost s12 = data@;
        give_i16(data, self.max_y);
        let ghost s13 = data@;
        give_u16(data, self.macintosh_flags.0);
        let ghost s14 = data@;
        give_u16(data, self.lowest_ppem);
        let ghost s15 = data@;
        give_i16(data, self.direction_hint);
        let ghost s16 = data@;
        give_i16(data, self.glyph_mapping_format);
        let ghost s17 = data@;
        give_i16(data, self.glyph_data_format);
        let ghost s18 = data@;
        proof {
            assert(s1.len() == at + 2);
            assert(s2.len() == at + 4);
            assert(s3.len() == at + 8);
            assert(s4.len() == at + 12);
            assert(s5.len() == at + 16);
            assert(s6.len() == at + 18);
            assert(s7.len() == at + 20);
            assert(s8.len() == at + 28);
            assert(s9.len() == at + 36);
            assert(s10.len() == at + 38);
            assert(s11.len() == at + 40);
            assert(s12.len() == at + 42);
            assert(s13.len() == at + 44);
            assert(s14.len() == at + 46);
            assert(s15.len() == at + 48);
            assert(s16.len() == at + 50);
            assert(s17.len() == at + 52);
            assert(s18.len() == at + 54);
            lemma_prefix_of_sum(s17, u16_bytes(i16_bits(self.glyph_data_format)), s18, s18);
            lemma_prefix_of_sum(s16, u16_bytes(i16_bits(self.glyph_mapping_format)), s17, s18);
            lemma_prefix_of_sum(s15, u16_bytes(i16_bits(self.direction_hint)), s16, s18);
            lemma_prefix_of_sum(s14, u16_bytes(self.lowest_ppem), s15, s18);
            lemma_prefix_of_sum(s13, u16_bytes(self.macintosh_flags.0), s14, s18);
            lemma_prefix_of_sum(s12, u16_bytes(i16_bits(self.max_y)), s13, s18);
            lemma_prefix_of_sum(s11, u16_bytes(i16_bits(self.max_x)), s12, s18);
            lemma_prefix_of_sum(s10, u16_bytes(i16_bits(self.min_y)), s11, s18);
            lemma_prefix_of_sum(s9, u16_bytes(i16_bits(self.min_x)), s10, s18);
            lemma_prefix_of_sum(s8, i64_bytes(self.modified), s9, s18);
            lemma_prefix_of_sum(s7, i64_bytes(self.created), s8, s18);
            lemma_prefix_of_sum(s6, u16_bytes(self.units_per_em), s7, s18);
            lemma_prefix_of_sum(s5, u16_bytes(self.flags.0), s6, s18);
            lemma_prefix_of_sum(s4, u32_bytes(self.magic_number), s5, s18);
            lemma_prefix_of_sum(s3, u32_bytes(self.checksum_adjustment), s4, s18);
            lemma_prefix_of_sum(s2, u32_bytes(i32_bits(self.revision.0)), s3, s18);
            lemma_prefix_of_sum(s1, u16_bytes(self.minor_version), s2, s18);
            lemma_prefix_of_sum(s0, u16_bytes(self.major_version), s1, s18);
            assert(s18.subrange(at + 0, at + 2) =~= u16_bytes(self.major_version)) by {
                assert forall|k: int| 0 <= k < 2 implies #[trigger] s18[at + 0 + k] == s1[at + 0 + k] by {}
            }
            lemma_u16_bytes(s18, at + 0, self.major_version);
            assert(s18.subrange(at + 2, at + 4) =~= u16_bytes(self.minor_version)) by {
                assert forall|k: int| 0 <= k < 2 implies #[trigger] s18[at + 2 + k] == s2[at + 2 + k] by {}
            }
            lemma_u16_bytes(s18, at + 2, self.minor_version);
            assert(s18.subrange(at + 4, at + 8) =~= u32_bytes(i32_bits(self.revision.0))) by {
                assert forall|k: int| 0 <= k < 4 implies #[trigger] s18[at + 4 + k] == s3[at + 4 + k] by {}
            }
            lemma_i32_bytes(s18, at + 4, self.revision.0);
            assert(s18.subrange(at + 8, at + 12) =~= u32_bytes(self.checksum_adjustment)) by {
                assert forall|k: int| 0 <= k < 4 implies #[trigger] s18[at + 8 + k] == s4[at + 8 + k] by {}
            }
            lemma_u32_bytes(s18, at + 8, self.checksum_adjustment);
            assert(s18.subrange(at + 12, at + 16) =~= u32_bytes(self.magic_number)) by {
                assert forall|k: int| 0 <= k < 4 implies #[trigger] s18[at + 12 + k] == s5[at + 12 + k] by {}
            }
            lemma_u32_bytes(s18, at + 12, self.magic_number);
            assert(s18.subrange(at + 16, at + 18) =~= u16_bytes(self.flags.0)) by {
                assert forall|k: int| 0 <= k < 2 implies #[trigger] s18[at + 16 + k] == s6[at + 16 + k] by {}
            }
            lemma_u16_bytes(s18, at + 16, self.flags.0);
            assert(s18.subrange(at + 18, at + 20) =~= u16_bytes(self.units_per_em)) by {
                assert forall|k: int| 0 <= k < 2 implies #[trigger] s18[at + 18 + k] == s7[at + 18 + k] by {}
            }
            lemma_u16_bytes(s18, at + 18, self.units_per_em);
            assert(s18.subrange(at + 20, at + 28) =~= i64_bytes(self.created)) by {
                assert forall|k: int| 0 <= k < 8 implies #[trigger] s18[at + 20 + k] == s8[at + 20 + k] by {}
            }
            lemma_i64_bytes(s18, at + 20, self.created);
            assert(s18.subrange(at + 28, at + 36) =~= i64_bytes(self.modified)) by {
                assert forall|k: int| 0 <= k < 8 implies #[trigger] s18[at + 28 + k] == s9[at + 28 + k] by {}
            }
            lemma_i64_bytes(s18, at + 28, self.modified);
            assert(s18.subrange(at + 36, at + 38) =~= u16_bytes(i16_bits(self.min_x))) by {
                assert forall|k: int| 0 <= k < 2 implies #[trigger] s18[at + 36 + k] == s10[at + 36 + k] by {}
            }
            lemma_i16_bytes(s18, at + 36, self.min_x);
            assert(s18.subrange(at + 38, at + 40) =~= u16_bytes(i16_bits(self.min_y))) by {
                assert forall|k: int| 0 <= k < 2 implies #[trigger] s18[at + 38 + k] == s11[at + 38 + k] by {}
            }
            lemma_i16_bytes(s18, at + 38, self.min_y);
            assert(s18.subrange(at + 40, at + 42) =~= u16_bytes(i16_bits(self.max_x))) by {
                assert forall|k: int| 0 <= k < 2 implies #[trigger] s18[at + 40 + k] == s12[at + 40 + k] by {}
            }
            lemma_i16_bytes(s18, at + 40, self.max_x);
            assert(s18.subrange(at + 42, at + 44) =~= u16_bytes(i16_bits(self.max_y))) by {
                assert forall|k: int| 0 <= k < 2 implies #[trigger] s18[at + 42 + k] == s13[at + 42 + k] by {}
            }
            lemma_i16_bytes(s18, at + 42, self.max_y);
            assert(s18.subrange(at + 44, at + 46) =~= u16_bytes(self.macintosh_flags.0)) by {
                assert forall|k: int| 0 <= k < 2 implies #[trigger] s18[at + 44 + k] == s14[at + 44 + k] by {}
            }
            lemma_u16_bytes(s18, at + 44, self.macintosh_flags.0);
            assert(s18.subrange(at + 46, at + 48) =~= u16_bytes(self.lowest_ppem)) by {
                assert forall|k: int| 0 <= k < 2 implies #[trigger] s18[at + 46 + k] == s15[at + 46 + k] by {}
            }
            lemma_u16_bytes(s18, at + 46, self.lowest_ppem);
            assert(s18.subrange(at + 48, at + 50) =~= u16_bytes(i16_bits(self.direction_hint))) by {
                assert forall|k: int| 0 <= k < 2 implies #[trigger] s18[at + 48 + k] == s16[at + 48 + k] by {}
            }
            lemma_i16_bytes(s18, at + 48, self.direction_hint);
            assert(s18.subrange(at + 50, at + 52) =~= u16_bytes(i16_bits(self.glyph_mapping_format))) by {
                assert forall|k: int| 0 <= k < 2 implies #[trigger] s18[at + 50 + k] == s17[at + 50 + k] by {}
            }
            lemma_i16_bytes(s18, at + 50, self.glyph_mapping_format);
            assert(s18.subrange(at + 52, at + 54) =~= u16_bytes(i16_bits(self.glyph_data_format))) by {
                assert forall|k: int| 0 <= k < 2 implies #[trigger] s18[at + 52 + k] == s18[at + 52 + k] by {}
            }
            lemma_i16_bytes(s18, at + 52, self.glyph_data_format);
            assert(s0 =~= s18.subrange(0, at));
        }
    }
}

/// With the checksum adjustment in place, the words of a font add up to
/// `CHECKSUM_ADJUSTMENT`.
pub proof fn lemma_adjustment_completes_sum(sum: int)
    requires
        0 <= sum < 4294967296,
    ensures
        (sum + adjustment_for(sum)) % 4294967296 == CHECKSUM_ADJUSTMENT,
{
}

} // verus!
