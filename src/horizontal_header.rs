//! The horizontal header: metrics of a font laid out horizontally.

use vstd::prelude::*;

use crate::tape::{
    fits, get_i16, get_u16, give_i16, give_u16, i16_at, i16_bits, lemma_i16_bytes, lemma_prefix_of_sum,
    lemma_u16_bytes, u16_at, u16_bytes, Error, Tape, Value,
};

verus! {

/// A horizontal header.
#[derive(Clone, Copy, Debug, PartialEq, Eq, Structural)]
pub struct HorizontalHeader {
    pub major_version: u16,
    pub minor_version: u16,
    pub ascender: i16,
    pub descender: i16,
    pub line_gap: i16,
    pub max_advance_width: u16,
    pub min_left_side_bearing: i16,
    pub min_right_side_bearing: i16,
    pub max_x_extent: i16,
    pub caret_slope_rise: i16,
    pub caret_slope_run: i16,
    pub caret_offset: i16,
    pub reserved1: i16,
    pub reserved2: i16,
    pub reserved3: i16,
    pub reserved4: i16,
    pub metric_data_format: i16,
    pub horizontal_metric_count: u16,
}

impl Value for HorizontalHeader {
    /// Version 1.0 only.
    open spec fn parse(data: Seq<u8>, at: int) -> Option<(HorizontalHeader, int)> {
        if fits(data, at, 36) && u16_at(data, at) == 1 && u16_at(data, at + 2) == 0 {
            Some(
                (
                    HorizontalHeader {
                        major_version: 1,
                        minor_version: 0,
                        ascender: i16_at(data, at + 4),
                        descender: i16_at(data, at + 6),
                        line_gap: i16_at(data, at + 8),
                        max_advance_width: u16_at(data, at + 10),
                        min_left_side_bearing: i16_at(data, at + 12),
                        min_right_side_bearing: i16_at(data, at + 14),
                        max_x_extent: i16_at(data, at + 16),
                        caret_slope_rise: i16_at(data, at + 18),
                        caret_slope_run: i16_at(data, at + 20),
                        caret_offset: i16_at(data, at + 22),
                        reserved1: i16_at(data, at + 24),
                        reserved2: i16_at(data, at + 26),
                        reserved3: i16_at(data, at + 28),
                        reserved4: i16_at(data, at + 30),
                        metric_data_format: i16_at(data, at + 32),
                        horizontal_metric_count: u16_at(data, at + 34),
                    },
                    at + 36,
                ),
            )
        } else {
            None
        }
    }

    fn read<T: Tape>(tape: &mut T) -> (r: Result<HorizontalHeader, Error>) {
        let b = tape.take_bytes(36)?;
        let major_version = get_u16(&b, 0);
        let minor_version = get_u16(&b, 2);
        if major_version != 1 || minor_version != 0 {
            return Err(Error::Unknown);
        }
        Ok(
            HorizontalHeader {
                major_version,
                minor_version,
                ascender: get_i16(&b, 4),
                descender: get_i16(&b, 6),
                line_gap: get_i16(&b, 8),
                max_advance_width: get_u16(&b, 10),
                min_left_side_bearing: get_i16(&b, 12),
                min_right_side_bearing: get_i16(&b, 14),
                max_x_extent: get_i16(&b, 16),
                caret_slope_rise: get_i16(&b, 18),
                caret_slope_run: get_i16(&b, 20),
                caret_offset: get_i16(&b, 22),
                reserved1: get_i16(&b, 24),
                reserved2: get_i16(&b, 26),
                reserved3: get_i16(&b, 28),
                reserved4: get_i16(&b, 30),
                metric_data_format: get_i16(&b, 32),
                horizontal_metric_count: get_u16(&b, 34),
            },
        )
    }
}

impl HorizontalHeader {
    /// Write the header, field by field; one of version 1.0 reads back as it
    /// is.
    #[verifier::rlimit(60)]
    pub fn write(&self, data: &mut Vec<u8>)
        ensures
            final(data)@.subrange(0, old(data)@.len() as int) == old(data)@,
            final(data)@.len() == old(data)@.len() + 36,
            self.major_version == 1 && self.minor_version == 0 ==> HorizontalHeader::parse(
                final(data)@,
                old(data)@.len() as int,
            ) == Some(
                (*self, old(data)@.len() + 36int),
            ),
    {
        let ghost s0 = data@;
        let ghost at = s0.len() as int;
        give_u16(data, self.major_version);
        let ghost s1 = data@;
        give_u16(data, self.minor_version);
        let ghost s2 = data@;
        give_i16(data, self.ascender);
        let ghost s3 = data@;
        give_i16(data, self.descender);
        let ghost s4 = data@;
        give_i16(data, self.line_gap);
        let ghost s5 = data@;
        give_u16(data, self.max_advance_width);
        let ghost s6 = data@;
        give_i16(data, self.min_left_side_bearing);
        let ghost s7 = data@;
        give_i16(data, self.min_right_side_bearing);
        let ghost s8 = data@;
        give_i16(data, self.max_x_extent);
        let ghost s9 = data@;
        give_i16(data, self.caret_slope_rise);
        let ghost s10 = data@;
        give_i16(data, self.caret_slope_run);
        let ghost s11 = data@;
        give_i16(data, self.caret_offset);
        let ghost s12 = data@;
        give_i16(data, self.reserved1);
        let ghost s13 = data@;
        give_i16(data, self.reserved2);
        let ghost s14 = data@;
        give_i16(data, self.reserved3);
        let ghost s15 = data@;
        give_i16(data, self.reserved4);
        let ghost s16 = data@;
        give_i16(data, self.metric_data_format);
        let ghost s17 = data@;
        give_u16(data, self.horizontal_metric_count);
        let ghost s18 = data@;
        proof {
            assert(s1.len() == at + 2);
            assert(s2.len() == at + 4);
            assert(s3.len() == at + 6);
            assert(s4.len() == at + 8);
            assert(s5.len() == at + 10);
            assert(s6.len() == at + 12);
            assert(s7.len() == at + 14);
            assert(s8.len() == at + 16);
            assert(s9.len() == at + 18);
            assert(s10.len() == at + 20);
            assert(s11.len() == at + 22);
            assert(s12.len() == at + 24);
            assert(s13.len() == at + 26);
            assert(s14.len() == at + 28);
            assert(s15.len() == at + 30);
            assert(s16.len() == at + 32);
            assert(s17.len() == at + 34);
            assert(s18.len() == at + 36);
            lemma_prefix_of_sum(s17, u16_bytes(self.horizontal_metric_count), s18, s18);
            lemma_prefix_of_sum(s16, u16_bytes(i16_bits(self.metric_data_format)), s17, s18);
            lemma_prefix_of_sum(s15, u16_bytes(i16_bits(self.reserved4)), s16, s18);
            lemma_prefix_of_sum(s14, u16_bytes(i16_bits(self.reserved3)), s15, s18);
            lemma_prefix_of_sum(s13, u16_bytes(i16_bits(self.reserved2)), s14, s18);
            lemma_prefix_of_sum(s12, u16_bytes(i16_bits(self.reserved1)), s13, s18);
            lemma_prefix_of_sum(s11, u16_bytes(i16_bits(self.caret_offset)), s12, s18);
            lemma_prefix_of_sum(s10, u16_bytes(i16_bits(self.caret_slope_run)), s11, s18);
            lemma_prefix_of_sum(s9, u16_bytes(i16_bits(self.caret_slope_rise)), s10, s18);
            lemma_prefix_of_sum(s8, u16_bytes(i16_bits(self.max_x_extent)), s9, s18);
            lemma_prefix_of_sum(s7, u16_bytes(i16_bits(self.min_right_side_bearing)), s8, s18);
            lemma_prefix_of_sum(s6, u16_bytes(i16_bits(self.min_left_side_bearing)), s7, s18);
            lemma_prefix_of_sum(s5, u16_bytes(self.max_advance_width), s6, s18);
            lemma_prefix_of_sum(s4, u16_bytes(i16_bits(self.line_gap)), s5, s18);
            lemma_prefix_of_sum(s3, u16_bytes(i16_bits(self.descender)), s4, s18);
            lemma_prefix_of_sum(s2, u16_bytes(i16_bits(self.ascender)), s3, s18);
            lemma_prefix_of_sum(s1, u16_bytes(self.minor_version), s2, s18);
            lemma_prefix_of_sum(s0, u16_bytes(self.major_version), s1, s18);
            assert(s18.subrange(at + 0, at + 2) =~= u16_bytes(self.major_version)) by {
                assert forall|k: int| 0 <= k < 2 implies #[trigger] s18[at + 0 + k] == s1[at + 0 + k] by {}
            }
            lemma_u16_bytes(s18, at + 0, self.major_version);
            assert(s18.subrange(at + 2, at + 4) =~= u16_bytes(self.minor_version)) by {
                assert forall|k: int| 0 <= k < 2 implies #[trigger] s18[at + 2 + k] == s2[at + 2 + k] by {}
            }
            lemma_u16_bytes(s18, at + 2, self.minor_version);
            assert(s18.subrange(at + 4, at + 6) =~= u16_bytes(i16_bits(self.ascender))) by {
                assert forall|k: int| 0 <= k < 2 implies #[trigger] s18[at + 4 + k] == s3[at + 4 + k] by {}
            }
            lemma_i16_bytes(s18, at + 4, self.ascender);
            assert(s18.subrange(at + 6, at + 8) =~= u16_bytes(i16_bits(self.descender))) by {
                assert forall|k: int| 0 <= k < 2 implies #[trigger] s18[at + 6 + k] == s4[at + 6 + k] by {}
            }
            lemma_i16_bytes(s18, at + 6, self.descender);
            assert(s18.subrange(at + 8, at + 10) =~= u16_bytes(i16_bits(self.line_gap))) by {
                assert forall|k: int| 0 <= k < 2 implies #[trigger] s18[at + 8 + k] == s5[at + 8 + k] by {}
            }
            lemma_i16_bytes(s18, at + 8, self.line_gap);
            assert(s18.subrange(at + 10, at + 12) =~= u16_bytes(self.max_advance_width)) by {
                assert forall|k: int| 0 <= k < 2 implies #[trigger] s18[at + 10 + k] == s6[at + 10 + k] by {}
            }
            lemma_u16_bytes(s18, at + 10, self.max_advance_width);
            assert(s18.subrange(at + 12, at + 14) =~= u16_bytes(i16_bits(self.min_left_side_bearing))) by {
                assert forall|k: int| 0 <= k < 2 implies #[trigger] s18[at + 12 + k] == s7[at + 12 + k] by {}
            }
            lemma_i16_bytes(s18, at + 12, self.min_left_side_bearing);
            assert(s18.subrange(at + 14, at + 16) =~= u16_bytes(i16_bits(self.min_right_side_bearing))) by {
                assert forall|k: int| 0 <= k < 2 implies #[trigger] s18[at + 14 + k] == s8[at + 14 + k] by {}
            }
            lemma_i16_bytes(s18, at + 14, self.min_right_side_bearing);
            assert(s18.subrange(at + 16, at + 18) =~= u16_bytes(i16_bits(self.max_x_extent))) by {
                assert forall|k: int| 0 <= k < 2 implies #[trigger] s18[at + 16 + k] == s9[at + 16 + k] by {}
            }
            lemma_i16_bytes(s18, at + 16, self.max_x_extent);
            assert(s18.subrange(at + 18, at + 20) =~= u16_bytes(i16_bits(self.caret_slope_rise))) by {
                assert forall|k: int| 0 <= k < 2 implies #[trigger] s18[at + 18 + k] == s10[at + 18 + k] by {}
            }
            lemma_i16_bytes(s18, at + 18, self.caret_slope_rise);
            assert(s18.subrange(at + 20, at + 22) =~= u16_bytes(i16_bits(self.caret_slope_run))) by {
                assert forall|k: int| 0 <= k < 2 implies #[trigger] s18[at + 20 + k] == s11[at + 20 + k] by {}
            }
            lemma_i16_bytes(s18, at + 20, self.caret_slope_run);
            assert(s18.subrange(at + 22, at + 24) =~= u16_bytes(i16_bits(self.caret_offset))) by {
                assert forall|k: int| 0 <= k < 2 implies #[trigger] s18[at + 22 + k] == s12[at + 22 + k] by {}
            }
            lemma_i16_bytes(s18, at + 22, self.caret_offset);
            assert(s18.subrange(at + 24, at + 26) =~= u16_bytes(i16_bits(self.reserved1))) by {
                assert forall|k: int| 0 <= k < 2 implies #[trigger] s18[at + 24 + k] == s13[at + 24 + k] by {}
            }
            lemma_i16_bytes(s18, at + 24, self.reserved1);
            assert(s18.subrange(at + 26, at + 28) =~= u16_bytes(i16_bits(self.reserved2))) by {
                assert forall|k: int| 0 <= k < 2 implies #[trigger] s18[at + 26 + k] == s14[at + 26 + k] by {}
            }
            lemma_i16_bytes(s18, at + 26, self.reserved2);
            assert(s18.subrange(at + 28, at + 30) =~= u16_bytes(i16_bits(self.reserved3))) by {
                assert forall|k: int| 0 <= k < 2 implies #[trigger] s18[at + 28 + k] == s15[at + 28 + k] by {}
            }
            lemma_i16_bytes(s18, at + 28, self.reserved3);
            assert(s18.subrange(at + 30, at + 32) =~= u16_bytes(i16_bits(self.reserved4))) by {
                assert forall|k: int| 0 <= k < 2 implies #[trigger] s18[at + 30 + k] == s16[at + 30 + k] by {}
            }
            lemma_i16_bytes(s18, at + 30, self.reserved4);
            assert(s18.subrange(at + 32, at + 34) =~= u16_bytes(i16_bits(self.metric_data_format))) by {
                assert forall|k: int| 0 <= k < 2 implies #[trigger] s18[at + 32 + k] == s17[at + 32 + k] by {}
            }
            lemma_i16_bytes(s18, at + 32, self.metric_data_format);
            assert(s18.subrange(at + 34, at + 36) =~= u16_bytes(self.horizontal_metric_count)) by {
                assert forall|k: int| 0 <= k < 2 implies #[trigger] s18[at + 34 + k] == s18[at + 34 + k] by {}
            }
            lemma_u16_bytes(s18, at + 34, self.horizontal_metric_count);
            assert(s0 =~= s18.subrange(0, at));
        }
    }
}

} // verus!
