//! The horizontal metrics: advance width and left side bearing of each glyph.

use vstd::prelude::*;

use crate::horizontal_header::HorizontalHeader;
use crate::maximum_profile::MaximumProfile;
use crate::tape::{fits, i16_at, parse_many, take_many, u16_at, Error, Tape, Value, Walue};
use crate::GlyphID;

verus! {

/// Horizontal metrics.
#[derive(Clone, Debug)]
pub struct HorizontalMetrics {
    pub records: Vec<Record>,
    pub left_side_bearings: Vec<i16>,
}

/// A record of horizontal metrics.
#[derive(Clone, Copy, Debug, PartialEq, Eq, Structural)]
pub struct Record {
    pub advance_width: u16,
    pub left_side_bearing: i16,
}

impl Value for Record {
    open spec fn parse(data: Seq<u8>, at: int) -> Option<(Record, int)> {
        if fits(data, at, 4) {
            Some(
                (
                    Record {
                        advance_width: u16_at(data, at),
                        left_side_bearing: i16_at(data, at + 2),
                    },
                    at + 4,
                ),
            )
        } else {
            None
        }
    }

    fn read<T: Tape>(tape: &mut T) -> (r: Result<Record, Error>) {
        let b = tape.take_bytes(4)?;
        Ok(
            Record {
                advance_width: crate::tape::get_u16(&b, 0),
                left_side_bearing: crate::tape::get_i16(&b, 2),
            },
        )
    }
}

impl HorizontalMetrics {
    /// The advance width and left side bearing of a glyph: those of its own
    /// record if it has one; otherwise the advance width of the last record
    /// and the glyph's own bearing among the trailing ones, or the last of
    /// them for a glyph past their end.
    pub open spec fn spec_get(&self, glyph_id: int) -> (u16, i16) {
        let longs = self.records@.len() as int;
        let shorts = self.left_side_bearings@.len() as int;
        if glyph_id < longs {
            (self.records@[glyph_id].advance_width, self.records@[glyph_id].left_side_bearing)
        } else if glyph_id - longs < shorts {
            (self.records@[longs - 1].advance_width, self.left_side_bearings@[glyph_id - longs])
        } else {
            (self.records@[longs - 1].advance_width, self.left_side_bearings@[shorts - 1])
        }
    }

    /// Return the advance width and left side bearing of a glyph.
    pub fn get(&self, glyph_id: GlyphID) -> (r: (u16, i16))
        requires
            self.records@.len() > 0,
            glyph_id < self.records@.len() || self.left_side_bearings@.len() > 0,
        ensures
            r == self.spec_get(glyph_id as int),
    {
        let index = glyph_id as usize;
        let longs = self.records.len();
        if index < longs {
            (self.records[index].advance_width, self.records[index].left_side_bearing)
        } else {
            let shorts = self.left_side_bearings.len();
            let index = index - longs;
            if index < shorts {
                (self.records[longs - 1].advance_width, self.left_side_bearings[index])
            } else {
                (self.records[longs - 1].advance_width, self.left_side_bearings[shorts - 1])
            }
        }
    }

    /// Read as many full records as the horizontal header announces, and a
    /// left side bearing for each remaining glyph of the maximum profile.
    pub fn read<T: Tape>(tape: &mut T, header: &HorizontalHeader, profile: &MaximumProfile) -> (r:
        Result<HorizontalMetrics, Error>)
        ensures
            final(tape).data() == old(tape).data(),
            ({
                let metric_count = header.horizontal_metric_count as nat;
                let glyph_count = profile.spec_glyph_count();
                if metric_count == 0 || metric_count > glyph_count {
                    r.is_err()
                } else {
                    match parse_many::<Record>(old(tape).data(), old(tape).at(), metric_count) {
                        Some((records, end)) => match parse_many::<i16>(
                            old(tape).data(),
                            end,
                            (glyph_count - metric_count) as nat,
                        ) {
                            Some((bearings, _)) => r matches Ok(table) && table.records@ == records
                                && table.left_side_bearings@ == bearings,
                            None => r.is_err(),
                        },
                        None => r.is_err(),
                    }
                }
            }),
    {
        let metric_count = header.horizontal_metric_count as usize;
        let glyph_count = profile.glyph_count();
        if metric_count == 0 || metric_count > glyph_count {
            return Err(Error::Malformed);
        }
        let records = take_many::<Record, T>(tape, metric_count)?;
        let left_side_bearings = take_many::<i16, T>(tape, glyph_count - metric_count)?;
        Ok(HorizontalMetrics { records, left_side_bearings })
    }
}

impl<'l> Walue<(&'l HorizontalHeader, &'l MaximumProfile)> for HorizontalMetrics {
    fn read_given<T: Tape>(tape: &mut T, parameter: (&'l HorizontalHeader, &'l MaximumProfile)) -> (r:
        Result<HorizontalMetrics, Error>) {
        HorizontalMetrics::read(tape, parameter.0, parameter.1)
    }
}

} // verus!
