//! The glyph data: outlines of simple glyphs and references of composite ones.

use vstd::prelude::*;

use crate::glyph_mapping::{offsets_of, GlyphMapping};
use crate::number::q16;
use crate::tape::{fits, i16_at, parse_many, take_many, u16_at, Error, Tape, Value, Walue};

verus! {

/// Point flags of a simple glyph.
#[derive(Clone, Copy, Debug, PartialEq, Eq, Structural)]
pub struct PointFlags(pub u8);

impl PointFlags {
    /// The point is on the curve.
    pub fn is_on_curve(&self) -> (r: bool)
        ensures
            r == (self.0 & 0x01 != 0),
    {
        self.0 & 0x01 != 0
    }

    /// The x coordinate takes one byte.
    pub fn is_x_short(&self) -> (r: bool)
        ensures
            r == (self.0 & 0x02 != 0),
    {
        self.0 & 0x02 != 0
    }

    /// The y coordinate takes one byte.
    pub fn is_y_short(&self) -> (r: bool)
        ensures
            r == (self.0 & 0x04 != 0),
    {
        self.0 & 0x04 != 0
    }

    /// The next byte tells how many times more the flag repeats.
    pub fn is_repeated(&self) -> (r: bool)
        ensures
            r == (self.0 & 0x08 != 0),
    {
        self.0 & 0x08 != 0
    }

    /// A short x coordinate is positive (the same bit as `is_x_same`).
    pub fn is_x_positive(&self) -> (r: bool)
        ensures
            r == (self.0 & 0x10 != 0),
    {
        self.0 & 0x10 != 0
    }

    /// A long x coordinate repeats the previous one (the same bit as `is_x_positive`).
    pub fn is_x_same(&self) -> (r: bool)
        ensures
            r == (self.0 & 0x10 != 0),
    {
        self.0 & 0x10 != 0
    }

    /// A short y coordinate is positive (the same bit as `is_y_same`).
    pub fn is_y_positive(&self) -> (r: bool)
        ensures
            r == (self.0 & 0x20 != 0),
    {
        self.0 & 0x20 != 0
    }

    /// A long y coordinate repeats the previous one (the same bit as `is_y_positive`).
    pub fn is_y_same(&self) -> (r: bool)
        ensures
            r == (self.0 & 0x20 != 0),
    {
        self.0 & 0x20 != 0
    }

    /// Contours may overlap.
    pub fn is_overlap_simple(&self) -> (r: bool)
        ensures
            r == (self.0 & 0x40 != 0),
    {
        self.0 & 0x40 != 0
    }

    /// The reserved bit is set.
    pub fn is_invalid(&self) -> (r: bool)
        ensures
            r == (self.0 & 0x80 != 0),
    {
        self.0 & 0x80 != 0
    }
}

/// Component flags of a composite glyph.
#[derive(Clone, Copy, Debug, PartialEq, Eq, Structural)]
pub struct ComponentFlags(pub u16);

/// The mask of the reserved bits of component flags.
pub const COMPONENT_RESERVED: u16 = 0b1110_0000_0001_0000;

impl ComponentFlags {
    /// The arguments take two bytes each.
    pub fn are_arguments_words(&self) -> (r: bool)
        ensures
            r == (self.0 & 0x0001 != 0),
    {
        self.0 & 0x0001 != 0
    }

    /// The arguments are offsets rather than point indices.
    pub fn are_arguments_xy(&self) -> (r: bool)
        ensures
            r == (self.0 & 0x0002 != 0),
    {
        self.0 & 0x0002 != 0
    }

    /// Offsets are rounded to the grid.
    pub fn should_round_xy_to_grid(&self) -> (r: bool)
        ensures
            r == (self.0 & 0x0004 != 0),
    {
        self.0 & 0x0004 != 0
    }

    /// One scale applies to both coordinates.
    pub fn has_scalar_scale(&self) -> (r: bool)
        ensures
            r == (self.0 & 0x0008 != 0),
    {
        self.0 & 0x0008 != 0
    }

    /// Another component follows.
    pub fn has_more_components(&self) -> (r: bool)
        ensures
            r == (self.0 & 0x0020 != 0),
    {
        self.0 & 0x0020 != 0
    }

    /// Each coordinate has a scale of its own.
    pub fn has_vector_scale(&self) -> (r: bool)
        ensures
            r == (self.0 & 0x0040 != 0),
    {
        self.0 & 0x0040 != 0
    }

    /// A two-by-two matrix transforms the component.
    pub fn has_matrix_scale(&self) -> (r: bool)
        ensures
            r == (self.0 & 0x0080 != 0),
    {
        self.0 & 0x0080 != 0
    }

    /// Instructions follow the last component.
    pub fn has_instructions(&self) -> (r: bool)
        ensures
            r == (self.0 & 0x0100 != 0),
    {
        self.0 & 0x0100 != 0
    }

    /// The composite takes the metrics of this component.
    pub fn should_use_metrics(&self) -> (r: bool)
        ensures
            r == (self.0 & 0x0200 != 0),
    {
        self.0 & 0x0200 != 0
    }

    /// Components may overlap.
    pub fn has_overlap(&self) -> (r: bool)
        ensures
            r == (self.0 & 0x0400 != 0),
    {
        self.0 & 0x0400 != 0
    }

    /// The offset is scaled.
    pub fn is_offset_scaled(&self) -> (r: bool)
        ensures
            r == (self.0 & 0x0800 != 0),
    {
        self.0 & 0x0800 != 0
    }

    /// The offset is not scaled.
    pub fn is_offset_unscaled(&self) -> (r: bool)
        ensures
            r == (self.0 & 0x1000 != 0),
    {
        self.0 & 0x1000 != 0
    }

    /// A reserved bit is set.
    pub fn is_invalid(&self) -> (r: bool)
        ensures
            r == (self.0 & COMPONENT_RESERVED != 0),
    {
        self.0 & COMPONENT_RESERVED != 0
    }
}

/// Arguments of a component.
#[derive(Clone, Copy, Debug, PartialEq, Eq, Structural)]
pub enum Arguments {
    /// Offsets relative to the current point.
    Offsets(i16, i16),
    /// Indices of the points to match.
    Indices(u16, u16),
}

/// Options of a component.
#[derive(Clone, Copy, Debug, PartialEq, Eq, Structural)]
pub enum Options {
    /// No options.
    Unscaled,
    /// A scaling coefficient for both coordinates.
    Scalar(q16),
    /// Separate scaling coefficients for the two coordinates.
    Vector(q16, q16),
    /// A 2-by-2 affine transformation matrix.
    Matrix(q16, q16, q16, q16),
}

/// A component of a composite glyph.
#[derive(Clone, Copy, Debug, PartialEq, Eq, Structural)]
pub struct Component {
    pub flags: ComponentFlags,
    pub glyph_index: u16,
    pub arguments: Arguments,
    pub options: Options,
}

/// The byte at `at` as a signed integer.
pub open spec fn i8_at(data: Seq<u8>, at: int) -> i16 {
    if data[at] >= 128 {
        (data[at] - 256) as i16
    } else {
        data[at] as i16
    }
}

impl Arguments {
    /// The arguments that the data holds at `at` for the given flags, and
    /// where they end.
    pub open spec fn parse(data: Seq<u8>, at: int, flags: ComponentFlags) -> Option<(Arguments, int)> {
        let words = flags.0 & 0x0001 != 0;
        let xy = flags.0 & 0x0002 != 0;
        if words {
            if !fits(data, at, 4) {
                None
            } else if xy {
                Some((Arguments::Offsets(i16_at(data, at), i16_at(data, at + 2)), at + 4))
            } else {
                Some((Arguments::Indices(u16_at(data, at), u16_at(data, at + 2)), at + 4))
            }
        } else {
            if !fits(data, at, 2) {
                None
            } else if xy {
                Some((Arguments::Offsets(i8_at(data, at), i8_at(data, at + 1)), at + 2))
            } else {
                Some((Arguments::Indices(data[at] as u16, data[at + 1] as u16), at + 2))
            }
        }
    }

    /// Read the arguments of a component with the given flags.
    pub fn read<T: Tape>(tape: &mut T, flags: ComponentFlags) -> (r: Result<Arguments, Error>)
        ensures
            final(tape).data() == old(tape).data(),
            Arguments::parse(old(tape).data(), old(tape).at(), flags) is None <==> r.is_err(),
            Arguments::parse(old(tape).data(), old(tape).at(), flags) matches Some((value, end))
                ==> r == Ok::<Arguments, Error>(value) && final(tape).at() == end,
    {
        let ghost data = tape.data();
        let ghost at = tape.at();
        let words = flags.are_arguments_words();
        let xy = flags.are_arguments_xy();
        let bytes = tape.take_bytes(if words { 4 } else { 2 })?;
        if words {
            if xy {
                Ok(Arguments::Offsets(to_i16(bytes[0], bytes[1]), to_i16(bytes[2], bytes[3])))
            } else {
                Ok(
                    Arguments::Indices(
                        bytes[0] as u16 * 256 + bytes[1] as u16,
                        bytes[2] as u16 * 256 + bytes[3] as u16,
                    ),
                )
            }
        } else {
            if xy {
                Ok(Arguments::Offsets(to_i8(bytes[0]), to_i8(bytes[1])))
            } else {
                Ok(Arguments::Indices(bytes[0] as u16, bytes[1] as u16))
            }
        }
    }
}

/// Two bytes as a big-endian signed integer.
fn to_i16(high: u8, low: u8) -> (r: i16)
    ensures
        r == i16_at(seq![high, low], 0),
{
    let value: i32 = high as i32 * 256 + low as i32;
    proof {
        reveal_with_fuel(crate::tape::pow2, 17);
    }
    if value >= 32768 {
        (value - 65536) as i16
    } else {
        value as i16
    }
}

/// A byte as a signed integer.
fn to_i8(byte: u8) -> (r: i16)
    ensures
        r == i8_at(seq![byte], 0),
{
    if byte >= 128 {
        byte as i16 - 256
    } else {
        byte as i16
    }
}

impl Options {
    /// The options that the data holds at `at` for the given flags, and where
    /// they end.
    pub open spec fn parse(data: Seq<u8>, at: int, flags: ComponentFlags) -> Option<(Options, int)> {
        if flags.0 & 0x0008 != 0 {
            if fits(data, at, 2) {
                Some((Options::Scalar(q16(i16_at(data, at))), at + 2))
            } else {
                None
            }
        } else if flags.0 & 0x0040 != 0 {
            if fits(data, at, 4) {
                Some((Options::Vector(q16(i16_at(data, at)), q16(i16_at(data, at + 2))), at + 4))
            } else {
                None
            }
        } else if flags.0 & 0x0080 != 0 {
            if fits(data, at, 8) {
                Some(
                    (
                        Options::Matrix(
                            q16(i16_at(data, at)),
                            q16(i16_at(data, at + 2)),
                            q16(i16_at(data, at + 4)),
                            q16(i16_at(data, at + 6)),
                        ),
                        at + 8,
                    ),
                )
            } else {
                None
            }
        } else {
            Some((Options::Unscaled, at))
        }
    }

    /// Read the options of a component with the given flags.
    pub fn read<T: Tape>(tape: &mut T, flags: ComponentFlags) -> (r: Result<Options, Error>)
        ensures
            final(tape).data() == old(tape).data(),
            Options::parse(old(tape).data(), old(tape).at(), flags) is None <==> r.is_err(),
            Options::parse(old(tape).data(), old(tape).at(), flags) matches Some((value, end))
                ==> r == Ok::<Options, Error>(value) && final(tape).at() == end,
    {
        if flags.has_scalar_scale() {
            let bytes = tape.take_bytes(2)?;
            Ok(Options::Scalar(q16(to_i16(bytes[0], bytes[1]))))
        } else if flags.has_vector_scale() {
            let bytes = tape.take_bytes(4)?;
            Ok(Options::Vector(q16(to_i16(bytes[0], bytes[1])), q16(to_i16(bytes[2], bytes[3]))))
        } else if flags.has_matrix_scale() {
            let bytes = tape.take_bytes(8)?;
            Ok(
                Options::Matrix(
                    q16(to_i16(bytes[0], bytes[1])),
                    q16(to_i16(bytes[2], bytes[3])),
                    q16(to_i16(bytes[4], bytes[5])),
                    q16(to_i16(bytes[6], bytes[7])),
                ),
            )
        } else {
            Ok(Options::Unscaled)
        }
    }
}

impl Value for Component {
    open spec fn parse(data: Seq<u8>, at: int) -> Option<(Component, int)> {
        if !fits(data, at, 4) {
            None
        } else {
            let flags = ComponentFlags(u16_at(data, at));
            if flags.0 & COMPONENT_RESERVED != 0 {
                None
            } else {
                match Arguments::parse(data, at + 4, flags) {
                    Some((arguments, next)) => match Options::parse(data, next, flags) {
                        Some((options, end)) => Some(
                            (
                                Component {
                                    flags,
                                    glyph_index: u16_at(data, at + 2),
                                    arguments,
                                    options,
                                },
                                end,
                            ),
                        ),
                        None => None,
                    },
                    None => None,
                }
            }
        }
    }

    fn read<T: Tape>(tape: &mut T) -> (r: Result<Component, Error>) {
        let ghost data = tape.data();
        let ghost at = tape.at();
        let head = tape.take_bytes(4)?;
        let flags = ComponentFlags(head[0] as u16 * 256 + head[1] as u16);
        if flags.is_invalid() {
            return Err(Error::Malformed);
        }
        let glyph_index = head[2] as u16 * 256 + head[3] as u16;
        let arguments = Arguments::read(tape, flags)?;
        let options = Options::read(tape, flags)?;
        Ok(Component { flags, glyph_index, arguments, options })
    }
}


/// A simple-glyph description.
#[derive(Clone, Debug)]
pub struct SimpleDescription {
    pub end_points: Vec<u16>,
    pub instruction_size: u16,
    pub instructions: Vec<u8>,
    pub flags: Vec<PointFlags>,
    pub x: Vec<i16>,
    pub y: Vec<i16>,
}

/// A composite-glyph description.
#[derive(Clone, Debug)]
pub struct CompositeDescription {
    pub components: Vec<Component>,
    pub instruction_size: u16,
    pub instructions: Vec<u8>,
}

/// A glyph description.
#[derive(Clone, Debug)]
pub enum Description {
    /// A simple-glyph description.
    Simple(SimpleDescription),
    /// A composite-glyph description.
    Composite(CompositeDescription),
}

/// A glyph.
#[derive(Clone, Debug)]
pub struct Glyph {
    pub contour_count: i16,
    pub min_x: i16,
    pub min_y: i16,
    pub max_x: i16,
    pub max_y: i16,
    pub description: Description,
}

/// Glyph data: one entry per glyph, none for a glyph without an outline.
#[derive(Clone, Debug)]
pub struct GlyphData(pub Vec<Option<Glyph>>);

/// Put `prefix` in front of what a parse gave, if it gave anything.
pub open spec fn prepend<A>(prefix: Seq<A>, parsed: Option<(Seq<A>, int)>) -> Option<(Seq<A>, int)> {
    match parsed {
        Some((rest, end)) => Some((prefix + rest, end)),
        None => None,
    }
}

/// The number of points that the end points of the contours give.
pub open spec fn point_count(end_points: Seq<u16>) -> nat {
    if end_points.len() == 0 {
        0
    } else {
        (end_points.last() + 1) as nat
    }
}

/// No end point comes before the previous one.
pub open spec fn is_ascending(end_points: Seq<u16>) -> bool {
    forall|i: int| 0 < i < end_points.len() ==> end_points[i - 1] <= #[trigger] end_points[i]
}

/// `count` point flags, run-length decoded from `at` on: a flag with the
/// repeat bit is followed by the number of further copies of it.
pub open spec fn parse_flags(data: Seq<u8>, at: int, count: nat) -> Option<(Seq<PointFlags>, int)>
    decreases count,
{
    if count == 0 {
        Some((Seq::empty(), at))
    } else if !fits(data, at, 1) {
        None
    } else {
        let flag = PointFlags(data[at]);
        if flag.0 & 0x80 != 0 {
            None
        } else if flag.0 & 0x08 != 0 {
            if !fits(data, at + 1, 1) {
                None
            } else {
                let run = 1 + data[at + 1] as nat;
                if run > count {
                    None
                } else {
                    prepend(
                        Seq::new(run, |i: int| flag),
                        parse_flags(data, at + 2, (count - run) as nat),
                    )
                }
            }
        } else {
            prepend(seq![flag], parse_flags(data, at + 1, (count - 1) as nat))
        }
    }
}

/// The coordinate of one point on one axis, and where it ends: one unsigned
/// byte with the sign in the flags, nothing (zero), or a signed word.
pub open spec fn parse_coordinate(data: Seq<u8>, at: int, flag: PointFlags, x: bool) -> Option<
    (i16, int),
> {
    let short = if x {
        flag.0 & 0x02 != 0
    } else {
        flag.0 & 0x04 != 0
    };
    let same = if x {
        flag.0 & 0x10 != 0
    } else {
        flag.0 & 0x20 != 0
    };
    if short {
        if fits(data, at, 1) {
            Some(
                (
                    if same {
                        data[at] as i16
                    } else {
                        (-(data[at] as int)) as i16
                    },
                    at + 1,
                ),
            )
        } else {
            None
        }
    } else if same {
        Some((0, at))
    } else if fits(data, at, 2) {
        Some((i16_at(data, at), at + 2))
    } else {
        None
    }
}

/// The coordinates on one axis of points with the given flags.
pub open spec fn parse_coordinates(data: Seq<u8>, at: int, flags: Seq<PointFlags>, x: bool) -> Option<
    (Seq<i16>, int),
>
    decreases flags.len(),
{
    if flags.len() == 0 {
        Some((Seq::empty(), at))
    } else {
        match parse_coordinate(data, at, flags[0], x) {
            Some((value, next)) => prepend(
                seq![value],
                parse_coordinates(data, next, flags.drop_first(), x),
            ),
            None => None,
        }
    }
}

/// The parts of a simple-glyph description with `contour_count` contours at
/// `at`: end points, instructions, flags, x and y coordinates; and where it ends.
pub open spec fn parse_simple(data: Seq<u8>, at: int, contour_count: nat) -> Option<
    ((Seq<u16>, Seq<u8>, Seq<PointFlags>, Seq<i16>, Seq<i16>), int),
> {
    match parse_many::<u16>(data, at, contour_count) {
        Some((end_points, size_at)) => if !is_ascending(end_points) || !fits(data, size_at, 2) {
            None
        } else {
            let size = u16_at(data, size_at) as int;
            if !fits(data, size_at + 2, size) {
                None
            } else {
                let instructions = data.subrange(size_at + 2, size_at + 2 + size);
                match parse_flags(data, size_at + 2 + size, point_count(end_points)) {
                    Some((flags, x_at)) => match parse_coordinates(data, x_at, flags, true) {
                        Some((x, y_at)) => match parse_coordinates(data, y_at, flags, false) {
                            Some((y, end)) => Some(((end_points, instructions, flags, x, y), end)),
                            None => None,
                        },
                        None => None,
                    },
                    None => None,
                }
            }
        },
        None => None,
    }
}

/// Read `count` point flags.
fn read_flags<T: Tape>(tape: &mut T, count: usize) -> (r: Result<Vec<PointFlags>, Error>)
    requires
        count <= 65536,
    ensures
        final(tape).data() == old(tape).data(),
        parse_flags(old(tape).data(), old(tape).at(), count as nat) is None <==> r.is_err(),
        parse_flags(old(tape).data(), old(tape).at(), count as nat) matches Some((flags, end))
            ==> r matches Ok(v) && v@ == flags && final(tape).at() == end,
{
    let ghost data = tape.data();
    let ghost start = tape.at();
    let mut flags: Vec<PointFlags> = Vec::new();
    proof {
        match parse_flags(data, start, count as nat) {
            Some((rest, end)) => {
                assert(flags@ + rest =~= rest);
            },
            None => {},
        }
    }
    while flags.len() < count
        invariant
            count <= 65536,
            tape.data() == data,
            data == old(tape).data(),
            start == old(tape).at(),
            flags.len() <= count,
            parse_flags(data, start, count as nat) == prepend(
                flags@,
                parse_flags(data, tape.at(), (count - flags.len()) as nat),
            ),
        decreases count - flags.len(),
    {
        let ghost at = tape.at();
        let ghost before = flags@;
        let ghost left = (count - flags.len()) as nat;
        let flag = match <u8 as Value>::read(tape) {
            Ok(byte) => PointFlags(byte),
            Err(e) => {
                assert(parse_flags(data, at, left) is None);
                return Err(e);
            },
        };
        if flag.is_invalid() {
            assert(parse_flags(data, at, left) is None);
            return Err(Error::Malformed);
        }
        let run: usize = if flag.is_repeated() {
            match <u8 as Value>::read(tape) {
                Ok(byte) => 1 + byte as usize,
                Err(e) => {
                    assert(parse_flags(data, at, left) is None);
                    return Err(e);
                },
            }
        } else {
            1
        };
        if run > count - flags.len() {
            assert(parse_flags(data, at, left) is None);
            return Err(Error::Malformed);
        }
        let mut k: usize = 0;
        while k < run
            invariant
                k <= run,
                flags@ == before + Seq::new(k as nat, |i: int| flag),
            decreases run - k,
        {
            flags.push(flag);
            k = k + 1;
            assert(flags@ =~= before + Seq::new(k as nat, |i: int| flag));
        }
        proof {
            let tail = parse_flags(data, tape.at(), (left - run) as nat);
            if run == 1 && flag.0 & 0x08 == 0 {
                assert(Seq::new(1, |i: int| flag) =~= seq![flag]);
            }
            match tail {
                Some((rest, end)) => {
                    assert(before + (Seq::new(run as nat, |i: int| flag) + rest) =~= flags@ + rest);
                },
                None => {},
            }
        }
    }
    Ok(flags)
}

/// Read the coordinates on one axis of points with the given flags.
fn read_coordinates<T: Tape>(tape: &mut T, flags: &Vec<PointFlags>, x: bool) -> (r: Result<
    Vec<i16>,
    Error,
>)
    ensures
        final(tape).data() == old(tape).data(),
        parse_coordinates(old(tape).data(), old(tape).at(), flags@, x) is None <==> r.is_err(),
        parse_coordinates(old(tape).data(), old(tape).at(), flags@, x) matches Some((values, end))
            ==> r matches Ok(v) && v@ == values && final(tape).at() == end,
{
    let ghost data = tape.data();
    let ghost start = tape.at();
    let n = flags.len();
    let mut values: Vec<i16> = Vec::new();
    let mut i: usize = 0;
    proof {
        assert(flags@.subrange(0, n as int) =~= flags@);
        match parse_coordinates(data, start, flags@, x) {
            Some((rest, end)) => {
                assert(values@ + rest =~= rest);
            },
            None => {},
        }
    }
    while i < n
        invariant
            n == flags@.len(),
            i <= n,
            values@.len() == i,
            tape.data() == data,
            data == old(tape).data(),
            start == old(tape).at(),
            parse_coordinates(data, start, flags@, x) == prepend(
                values@,
                parse_coordinates(data, tape.at(), flags@.subrange(i as int, n as int), x),
            ),
        decreases n - i,
    {
        let ghost at = tape.at();
        let ghost tail = flags@.subrange(i as int, n as int);
        assert(tail[0] == flags@[i as int]);
        assert(tail.drop_first() =~= flags@.subrange(i + 1, n as int));
        let flag = flags[i];
        let short = if x {
            flag.is_x_short()
        } else {
            flag.is_y_short()
        };
        let same = if x {
            flag.is_x_same()
        } else {
            flag.is_y_same()
        };
        let value: i16 = if short {
            match <u8 as Value>::read(tape) {
                Ok(byte) => if same {
                    byte as i16
                } else {
                    -(byte as i16)
                },
                Err(e) => {
                    assert(parse_coordinates(data, at, tail, x) is None);
                    return Err(e);
                },
            }
        } else if same {
            0
        } else {
            match <i16 as Value>::read(tape) {
                Ok(value) => value,
                Err(e) => {
                    assert(parse_coordinates(data, at, tail, x) is None);
                    return Err(e);
                },
            }
        };
        let ghost before = values@;
        values.push(value);
        i = i + 1;
        proof {
            match parse_coordinates(data, tape.at(), flags@.subrange(i as int, n as int), x) {
                Some((rest, end)) => {
                    assert(before + (seq![value] + rest) =~= values@ + rest);
                },
                None => {},
            }
        }
    }
    assert(flags@.subrange(n as int, n as int) =~= Seq::<PointFlags>::empty());
    Ok(values)
}

/// Check that no end point comes before the previous one.
fn ascending(end_points: &Vec<u16>) -> (r: bool)
    ensures
        r == is_ascending(end_points@),
{
    let mut i: usize = 1;
    while i < end_points.len()
        invariant
            1 <= i,
            forall|j: int| 0 < j < i && j < end_points@.len() ==> end_points@[j - 1] <= #[trigger] end_points@[j],
        decreases end_points.len() - i,
    {
        if end_points[i - 1] > end_points[i] {
            return false;
        }
        i = i + 1;
    }
    true
}

impl SimpleDescription {
    /// The parts of the description, as `parse_simple` gives them.
    pub open spec fn parts(&self) -> (Seq<u16>, Seq<u8>, Seq<PointFlags>, Seq<i16>, Seq<i16>) {
        (self.end_points@, self.instructions@, self.flags@, self.x@, self.y@)
    }

    /// Read a simple-glyph description with the given number of contours.
    pub fn read<T: Tape>(tape: &mut T, contour_count: usize) -> (r: Result<SimpleDescription, Error>)
        ensures
            final(tape).data() == old(tape).data(),
            parse_simple(old(tape).data(), old(tape).at(), contour_count as nat) is None <==> r.is_err(),
            parse_simple(old(tape).data(), old(tape).at(), contour_count as nat) matches Some(
                (parts, end),
            ) ==> r matches Ok(d) && d.parts() == parts && d.instruction_size == parts.1.len()
                && final(tape).at() == end,
    {
        let ghost data = tape.data();
        let ghost start = tape.at();
        let end_points = take_many::<u16, T>(tape, contour_count)?;
        if !ascending(&end_points) {
            return Err(Error::Malformed);
        }
        let point_count: usize = if end_points.len() == 0 {
            0
        } else {
            end_points[end_points.len() - 1] as usize + 1
        };
        let ghost size_at = tape.at();
        let instruction_size = match <u16 as Value>::read(tape) {
            Ok(size) => size,
            Err(e) => {
                assert(!fits(data, size_at, 2));
                return Err(e);
            },
        };
        let instructions = tape.take_bytes(instruction_size as usize)?;
        let flags = read_flags(tape, point_count)?;
        let x = read_coordinates(tape, &flags, true)?;
        let y = read_coordinates(tape, &flags, false)?;
        Ok(SimpleDescription { end_points, instruction_size, instructions, flags, x, y })
    }
}


/// The component has instructions after the last component.
pub open spec fn wants_instructions(component: Component) -> bool {
    component.flags.0 & 0x0100 != 0
}

/// Another component follows the component.
pub open spec fn has_more(component: Component) -> bool {
    component.flags.0 & 0x0020 != 0
}

/// Put `prefix` in front of the components that a parse gave, and add `any`
/// to whether one of them wants instructions.
pub open spec fn prepend_components(
    prefix: Seq<Component>,
    any: bool,
    parsed: Option<(Seq<Component>, bool, int)>,
) -> Option<(Seq<Component>, bool, int)> {
    match parsed {
        Some((rest, more, end)) => Some((prefix + rest, any || more, end)),
        None => None,
    }
}

/// The components of a composite glyph from `at` on, up to the first one
/// without the flag for more; whether one of them wants instructions; and
/// where the last one ends.
pub open spec fn parse_components(data: Seq<u8>, at: int) -> Option<(Seq<Component>, bool, int)>
    decreases data.len() - at,
{
    match Component::parse(data, at) {
        Some((component, next)) => if !has_more(component) {
            Some((seq![component], wants_instructions(component), next))
        } else if at < next <= data.len() {
            prepend_components(
                seq![component],
                wants_instructions(component),
                parse_components(data, next),
            )
        } else {
            None
        },
        None => None,
    }
}

/// A component takes at least one byte and ends within the data.
pub proof fn lemma_component_advances(data: Seq<u8>, at: int)
    ensures
        Component::parse(data, at) matches Some((component, next)) ==> at < next <= data.len(),
{
}

/// The components and instructions of a composite-glyph description at `at`,
/// and where it ends.
pub open spec fn parse_composite(data: Seq<u8>, at: int) -> Option<((Seq<Component>, Seq<u8>), int)> {
    match parse_components(data, at) {
        Some((components, any, p)) => if !any {
            Some(((components, Seq::empty()), p))
        } else if !fits(data, p, 2) {
            None
        } else {
            let size = u16_at(data, p) as int;
            if fits(data, p + 2, size) {
                Some(((components, data.subrange(p + 2, p + 2 + size)), p + 2 + size))
            } else {
                None
            }
        },
        None => None,
    }
}

/// Where a glyph description with `contour_count` contours at `at` ends, if
/// the data holds one: simple for a count of zero or more, composite for minus
/// one, and malformed for less.
pub open spec fn description_end(data: Seq<u8>, at: int, contour_count: i16) -> Option<int> {
    if contour_count < -1 {
        None
    } else if contour_count >= 0 {
        match parse_simple(data, at, contour_count as nat) {
            Some((_, end)) => Some(end),
            None => None,
        }
    } else {
        match parse_composite(data, at) {
            Some((_, end)) => Some(end),
            None => None,
        }
    }
}

/// Where the glyph at `at` ends, if the data holds one.
pub open spec fn glyph_end(data: Seq<u8>, at: int) -> Option<int> {
    if !fits(data, at, 10) {
        None
    } else {
        description_end(data, at + 10, i16_at(data, at))
    }
}

impl Description {
    /// The description is the one that the data holds from `at` to `end` for
    /// `contour_count` contours.
    pub open spec fn is_read_from(&self, data: Seq<u8>, at: int, contour_count: i16, end: int) -> bool {
        match self {
            Description::Simple(d) => contour_count >= 0 && parse_simple(
                data,
                at,
                contour_count as nat,
            ) == Some((d.parts(), end)) && d.instruction_size == d.instructions@.len(),
            Description::Composite(d) => contour_count == -1 && parse_composite(data, at) == Some(
                ((d.components@, d.instructions@), end),
            ) && d.instruction_size == d.instructions@.len(),
        }
    }

    /// Read a description of a glyph with the given number of contours.
    pub fn read<T: Tape>(tape: &mut T, contour_count: i16) -> (r: Result<Description, Error>)
        ensures
            final(tape).data() == old(tape).data(),
            description_end(old(tape).data(), old(tape).at(), contour_count) is None <==> r.is_err(),
            r matches Ok(d) ==> d.is_read_from(
                old(tape).data(),
                old(tape).at(),
                contour_count,
                final(tape).at(),
            ),
    {
        if contour_count < -1 {
            return Err(Error::Malformed);
        }
        if contour_count >= 0 {
            let d = SimpleDescription::read(tape, contour_count as usize)?;
            return Ok(Description::Simple(d));
        }
        let d = CompositeDescription::read(tape)?;
        Ok(Description::Composite(d))
    }
}

impl CompositeDescription {
    /// Read the components of a composite glyph and its instructions.
    pub fn read<T: Tape>(tape: &mut T) -> (r: Result<CompositeDescription, Error>)
        ensures
            final(tape).data() == old(tape).data(),
            parse_composite(old(tape).data(), old(tape).at()) is None <==> r.is_err(),
            parse_composite(old(tape).data(), old(tape).at()) matches Some((parts, end)) ==> r matches Ok(
                d,
            ) && d.components@ == parts.0 && d.instructions@ == parts.1 && d.instruction_size
                == parts.1.len() && final(tape).at() == end,
    {
        let ghost data = tape.data();
        let ghost start = tape.at();
        let _ = tape.position();
        let mut components: Vec<Component> = Vec::new();
        let mut any = false;
        let mut more = true;
        proof {
            match parse_components(data, start) {
                Some((rest, a, end)) => {
                    assert(components@ + rest =~= rest);
                },
                None => {},
            }
        }
        while more
            invariant
                tape.data() == data,
                data == old(tape).data(),
                start == old(tape).at(),
                0 <= tape.at() <= data.len(),
                more ==> parse_components(data, start) == prepend_components(
                    components@,
                    any,
                    parse_components(data, tape.at()),
                ),
                !more ==> parse_components(data, start) == Some((components@, any, tape.at())),
            decreases data.len() - tape.at() + if more {
                1int
            } else {
                0
            },
        {
            let ghost at = tape.at();
            let ghost before = components@;
            let ghost any_before = any;
            proof {
                lemma_component_advances(data, at);
            }
            let component = match Component::read(tape) {
                Ok(component) => component,
                Err(e) => {
                    assert(parse_components(data, at) is None);
                    return Err(e);
                },
            };
            components.push(component);
            any = any || component.flags.has_instructions();
            more = component.flags.has_more_components();
            proof {
                if more {
                    match parse_components(data, tape.at()) {
                        Some((rest, a, end)) => {
                            assert(before + (seq![component] + rest) =~= components@ + rest);
                        },
                        None => {},
                    }
                } else {
                    assert(before + seq![component] =~= components@);
                }
            }
        }
        let ghost p = tape.at();
        let instruction_size: u16 = if any {
            match <u16 as Value>::read(tape) {
                Ok(size) => size,
                Err(e) => {
                    assert(!fits(data, p, 2));
                    return Err(e);
                },
            }
        } else {
            0
        };
        let instructions = tape.take_bytes(instruction_size as usize)?;
        proof {
            if !any {
                assert(instructions@ =~= Seq::<u8>::empty());
            }
        }
        Ok(CompositeDescription { components, instruction_size, instructions })
    }
}

impl Glyph {
    /// The glyph is the one that the data holds from `at` to `end`.
    pub open spec fn is_read_from(&self, data: Seq<u8>, at: int, end: int) -> bool {
        &&& fits(data, at, 10)
        &&& self.contour_count == i16_at(data, at)
        &&& self.min_x == i16_at(data, at + 2)
        &&& self.min_y == i16_at(data, at + 4)
        &&& self.max_x == i16_at(data, at + 6)
        &&& self.max_y == i16_at(data, at + 8)
        &&& self.description.is_read_from(data, at + 10, self.contour_count, end)
    }

    /// Read a glyph: its number of contours, its bounding box and its description.
    pub fn read<T: Tape>(tape: &mut T) -> (r: Result<Glyph, Error>)
        ensures
            final(tape).data() == old(tape).data(),
            glyph_end(old(tape).data(), old(tape).at()) is None <==> r.is_err(),
            r matches Ok(g) ==> g.is_read_from(old(tape).data(), old(tape).at(), final(tape).at()),
    {
        let ghost data = tape.data();
        let ghost at = tape.at();
        let contour_count = <i16 as Value>::read(tape)?;
        let min_x = <i16 as Value>::read(tape)?;
        let min_y = <i16 as Value>::read(tape)?;
        let max_x = <i16 as Value>::read(tape)?;
        let max_y = match <i16 as Value>::read(tape) {
            Ok(value) => value,
            Err(e) => {
                assert(!fits(data, at, 10));
                return Err(e);
            },
        };
        let description = Description::read(tape, contour_count)?;
        Ok(Glyph { contour_count, min_x, min_y, max_x, max_y, description })
    }
}

/// Entry `i` of glyph data at `origin` with byte offsets `offsets` is in order:
/// its offsets do not decrease, and a glyph that is not empty ends no later
/// than the next offset.
pub open spec fn entry_is_valid(data: Seq<u8>, origin: int, offsets: Seq<int>, i: int) -> bool {
    offsets[i] <= offsets[i + 1] && (offsets[i] < offsets[i + 1] ==> (glyph_end(
        data,
        origin + offsets[i],
    ) matches Some(end) && end <= origin + offsets[i + 1]))
}

/// Glyph data at `origin` with byte offsets `offsets` can be read: there is at
/// least one offset and every entry is in order.
pub open spec fn glyph_data_is_valid(data: Seq<u8>, origin: int, offsets: Seq<int>) -> bool {
    offsets.len() > 0 && forall|i: int|
        0 <= i < offsets.len() - 1 ==> #[trigger] entry_is_valid(data, origin, offsets, i)
}

/// The byte offsets of a mapping.
fn byte_offsets(mapping: &GlyphMapping) -> (r: Vec<u64>)
    ensures
        r@.len() == offsets_of(*mapping).len(),
        forall|i: int| 0 <= i < r@.len() ==> r@[i] as int == #[trigger] offsets_of(*mapping)[i],
{
    let mut r: Vec<u64> = Vec::new();
    match mapping {
        GlyphMapping::HalfOffsets(values) => {
            let mut i: usize = 0;
            while i < values.len()
                invariant
                    i <= values@.len(),
                    r@.len() == i,
                    forall|j: int| 0 <= j < i ==> r@[j] as int == 2 * values@[j] as int,
                decreases values.len() - i,
            {
                r.push(2 * values[i] as u64);
                i = i + 1;
            }
        },
        GlyphMapping::Offsets(values) => {
            let mut i: usize = 0;
            while i < values.len()
                invariant
                    i <= values@.len(),
                    r@.len() == i,
                    forall|j: int| 0 <= j < i ==> r@[j] as int == values@[j] as int,
                decreases values.len() - i,
            {
                r.push(values[i] as u64);
                i = i + 1;
            }
        },
    }
    r
}

impl GlyphData {
    /// Read the glyphs that a glyph-to-location mapping locates, the cursor
    /// being at the start of the glyph data.
    ///
    /// Entry `i` spans the bytes from offset `i` to offset `i + 1`: it is empty
    /// where the two are equal, and holds a glyph that may not reach past the
    /// second offset otherwise.
    pub fn read<T: Tape>(tape: &mut T, mapping: &GlyphMapping) -> (r: Result<GlyphData, Error>)
        ensures
            final(tape).data() == old(tape).data(),
            r.is_ok() <==> glyph_data_is_valid(
                old(tape).data(),
                old(tape).at(),
                offsets_of(*mapping),
            ),
            r matches Ok(glyphs) ==> {
                let offsets = offsets_of(*mapping);
                &&& glyphs.0@.len() + 1 == offsets.len()
                &&& forall|i: int|
                    0 <= i < glyphs.0@.len() ==> (#[trigger] glyphs.0@[i] is None <==> offsets[i]
                        == offsets[i + 1])
                &&& forall|i: int|
                    0 <= i < glyphs.0@.len() ==> (#[trigger] glyphs.0@[i] matches Some(g)
                        ==> g.is_read_from(
                        old(tape).data(),
                        old(tape).at() + offsets[i],
                        glyph_end(old(tape).data(), old(tape).at() + offsets[i])->0,
                    ))
            },
    {
        let ghost data = tape.data();
        let ghost offs = offsets_of(*mapping);
        let _ = tape.length();
        let origin = tape.position();
        let offsets = byte_offsets(mapping);
        if offsets.len() == 0 {
            return Err(Error::Malformed);
        }
        let count = offsets.len() - 1;
        let mut glyphs: Vec<Option<Glyph>> = Vec::new();
        let mut i: usize = 0;
        while i < count
            invariant
                tape.data() == data,
                data == old(tape).data(),
                origin == old(tape).at(),
                data.len() <= u64::MAX,
                offs == offsets_of(*mapping),
                offsets@.len() == offs.len(),
                count + 1 == offs.len(),
                forall|j: int| 0 <= j < offsets@.len() ==> offsets@[j] as int == #[trigger] offs[j],
                i <= count,
                glyphs@.len() == i,
                forall|j: int| 0 <= j < i ==> #[trigger] entry_is_valid(data, origin as int, offs, j),
                forall|j: int|
                    0 <= j < i ==> (#[trigger] glyphs@[j] is None <==> offs[j] == offs[j + 1]),
                forall|j: int|
                    0 <= j < i ==> (#[trigger] glyphs@[j] matches Some(g) ==> g.is_read_from(
                        data,
                        origin + offs[j],
                        glyph_end(data, origin + offs[j])->0,
                    )),
            decreases count - i,
        {
            let start = offsets[i];
            let end = offsets[i + 1];
            assert(start as int == offs[i as int] && end as int == offs[i + 1]);
            if start > end {
                assert(!entry_is_valid(data, origin as int, offs, i as int));
                return Err(Error::Malformed);
            }
            if start == end {
                glyphs.push(None);
            } else {
                let position = match origin.checked_add(start) {
                    Some(position) => position,
                    None => {
                        assert(!entry_is_valid(data, origin as int, offs, i as int));
                        return Err(Error::Truncated);
                    },
                };
                if tape.jump(position).is_err() {
                    assert(!entry_is_valid(data, origin as int, offs, i as int));
                    return Err(Error::Truncated);
                }
                let glyph = match Glyph::read(tape) {
                    Ok(glyph) => glyph,
                    Err(_) => {
                        assert(!entry_is_valid(data, origin as int, offs, i as int));
                        return Err(Error::Malformed);
                    },
                };
                if tape.position() as u128 > origin as u128 + end as u128 {
                    assert(!entry_is_valid(data, origin as int, offs, i as int));
                    return Err(Error::Malformed);
                }
                glyphs.push(Some(glyph));
            }
            assert(entry_is_valid(data, origin as int, offs, i as int));
            i = i + 1;
        }
        Ok(GlyphData(glyphs))
    }
}

/// Glyph data that can be read has one entry per glyph of its mapping, whose
/// offsets do not decrease, and the glyph of each entry that is not empty ends
/// no later than the next offset, so that it takes at most the difference of
/// the two offsets.
pub proof fn lemma_glyph_data_entries(data: Seq<u8>, origin: int, offsets: Seq<int>, i: int)
    requires
        glyph_data_is_valid(data, origin, offsets),
        0 <= i < offsets.len() - 1,
    ensures
        offsets[i] <= offsets[i + 1],
        offsets[i] < offsets[i + 1] ==> (glyph_end(data, origin + offsets[i]) matches Some(end)
            && end - (origin + offsets[i]) <= offsets[i + 1] - offsets[i]),
{
    assert(entry_is_valid(data, origin, offsets, i));
}

/// A glyph-to-location mapping read for `glyph_count` glyphs has
/// `glyph_count + 1` offsets.
pub proof fn lemma_mapping_length(data: Seq<u8>, at: int, glyph_count: nat)
    ensures
        parse_many::<u16>(data, at, glyph_count + 1) matches Some((offsets, _)) ==> offsets.len()
            == glyph_count + 1,
        parse_many::<u32>(data, at, glyph_count + 1) matches Some((offsets, _)) ==> offsets.len()
            == glyph_count + 1,
{
    crate::tape::lemma_parse_many_len::<u16>(data, at, glyph_count + 1);
    crate::tape::lemma_parse_many_len::<u32>(data, at, glyph_count + 1);
}

impl<'l> Walue<&'l GlyphMapping> for GlyphData {
    fn read_given<T: Tape>(tape: &mut T, mapping: &'l GlyphMapping) -> (r: Result<GlyphData, Error>) {
        GlyphData::read(tape, mapping)
    }
}

} // verus!
