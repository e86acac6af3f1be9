//! Fixed-point numbers.
//!
//! Each keeps its integer backing; the real number it stands for is that
//! integer divided by two to the power of its fractional bits.

use vstd::prelude::*;

use crate::tape::{Error, Tape, Value};

verus! {

/// A fixed-point number in format Q2.14.
#[allow(non_camel_case_types)]
#[derive(Clone, Copy, Debug, Default, PartialEq, Eq, Structural)]
pub struct q16(pub i16);

/// A fixed-point number in format Q16.16.
#[allow(non_camel_case_types)]
#[derive(Clone, Copy, Debug, Default, PartialEq, Eq, Structural)]
pub struct q32(pub i32);

/// An unsigned fixed-point number in format 16.16, as older tables give it.
#[derive(Clone, Copy, Debug, Default, PartialEq, Eq, Structural)]
pub struct Fixed(pub u32);

impl q16 {
    /// The number of fractional bits.
    pub const FRACTION: u32 = 14;
}

impl q32 {
    /// The number of fractional bits.
    pub const FRACTION: u32 = 16;
}

impl Fixed {
    /// The number of fractional bits.
    pub const FRACTION: u32 = 16;
}

impl Value for q16 {
    open spec fn parse(data: Seq<u8>, at: int) -> Option<(q16, int)> {
        match <i16 as Value>::parse(data, at) {
            Some((value, end)) => Some((q16(value), end)),
            None => None,
        }
    }

    fn read<T: Tape>(tape: &mut T) -> (r: Result<q16, Error>) {
        Ok(q16(<i16 as Value>::read(tape)?))
    }
}

impl Value for q32 {
    open spec fn parse(data: Seq<u8>, at: int) -> Option<(q32, int)> {
        match <i32 as Value>::parse(data, at) {
            Some((value, end)) => Some((q32(value), end)),
            None => None,
        }
    }

    fn read<T: Tape>(tape: &mut T) -> (r: Result<q32, Error>) {
        Ok(q32(<i32 as Value>::read(tape)?))
    }
}

impl Value for Fixed {
    open spec fn parse(data: Seq<u8>, at: int) -> Option<(Fixed, int)> {
        match <u32 as Value>::parse(data, at) {
            Some((value, end)) => Some((Fixed(value), end)),
            None => None,
        }
    }

    fn read<T: Tape>(tape: &mut T) -> (r: Result<Fixed, Error>) {
        Ok(Fixed(<u32 as Value>::read(tape)?))
    }
}

} // verus!
