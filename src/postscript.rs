//! The PostScript table: data for printing, and glyph names in version 2.

use vstd::prelude::*;

use crate::number::q32;
use crate::tape::{
    fits, get_i16, get_i32, get_u32, i16_at, i32_at, peek_u32, take_u16s, u16_at, u16s_at,
    u32_at, Error, Tape, Value,
};

verus! {

/// A PostScript table.
#[derive(Clone, Debug)]
pub enum PostScript {
    /// Version 1.
    Version1(PostScript1),
    /// Version 2.
    Version2(PostScript2),
    /// Version 3.
    Version3(PostScript3),
}

/// A PostScript table of version 1.
#[derive(Clone, Copy, Debug, PartialEq, Eq, Structural)]
pub struct PostScript1 {
    pub version: q32,
    pub italic_angle: q32,
    pub underline_position: i16,
    pub underline_thickness: i16,
    pub is_fixed_pitch: u32,
    pub min_memory_type42: u32,
    pub max_memory_type42: u32,
    pub min_memory_type1: u32,
    pub max_memory_type1: u32,
}

/// A PostScript table of version 3, laid out as version 1.
pub type PostScript3 = PostScript1;

/// A PostScript table of version 2.
#[derive(Clone, Debug)]
pub struct PostScript2 {
    pub version: q32,
    pub italic_angle: q32,
    pub underline_position: i16,
    pub underline_thickness: i16,
    pub is_fixed_pitch: u32,
    pub min_memory_type42: u32,
    pub max_memory_type42: u32,
    pub min_memory_type1: u32,
    pub max_memory_type1: u32,
    pub glyph_count: u16,
    pub glyph_name_indices: Vec<u16>,
    pub glyph_names: Vec<String>,
}

/// The version word of version 1.
pub const VERSION_1: u32 = 0x00010000;

/// The version word of version 2.
pub const VERSION_2: u32 = 0x00020000;

/// The version word of version 3.
pub const VERSION_3: u32 = 0x00030000;

/// The fields that all versions share, at `at`.
pub open spec fn common_at(data: Seq<u8>, at: int) -> PostScript1 {
    PostScript1 {
        version: q32(i32_at(data, at)),
        italic_angle: q32(i32_at(data, at + 4)),
        underline_position: i16_at(data, at + 8),
        underline_thickness: i16_at(data, at + 10),
        is_fixed_pitch: u32_at(data, at + 12),
        min_memory_type42: u32_at(data, at + 16),
        max_memory_type42: u32_at(data, at + 20),
        min_memory_type1: u32_at(data, at + 24),
        max_memory_type1: u32_at(data, at + 28),
    }
}

/// Read the fields that all versions share.
fn read_common<T: Tape>(tape: &mut T) -> (r: Result<PostScript1, Error>)
    ensures
        final(tape).data() == old(tape).data(),
        r.is_ok() <==> fits(old(tape).data(), old(tape).at(), 32),
        r matches Ok(table) ==> table == common_at(old(tape).data(), old(tape).at())
            && final(tape).at() == old(tape).at() + 32,
{
    let b = tape.take_bytes(32)?;
    Ok(
        PostScript1 {
            version: q32(get_i32(&b, 0)),
            italic_angle: q32(get_i32(&b, 4)),
            underline_position: get_i16(&b, 8),
            underline_thickness: get_i16(&b, 10),
            is_fixed_pitch: get_u32(&b, 12),
            min_memory_type42: get_u32(&b, 16),
            max_memory_type42: get_u32(&b, 20),
            min_memory_type1: get_u32(&b, 24),
            max_memory_type1: get_u32(&b, 28),
        },
    )
}

/// The glyph-name index refers to a name of the table rather than to a
/// standard Macintosh name.
pub open spec fn names_own(index: u16) -> bool {
    258 <= index <= 32767
}

/// The number of indices that refer to names of the table.
pub open spec fn own_name_count(indices: Seq<u16>) -> nat
    decreases indices.len(),
{
    if indices.len() == 0 {
        0
    } else {
        own_name_count(indices.drop_last()) + if names_own(indices.last()) {
            1nat
        } else {
            0nat
        }
    }
}

/// `count` Pascal strings from `at` on, each a length byte and that many
/// bytes, and where the last one ends.
pub open spec fn parse_pascal(data: Seq<u8>, at: int, count: nat) -> Option<(Seq<Seq<u8>>, int)>
    decreases count,
{
    if count == 0 {
        Some((Seq::empty(), at))
    } else {
        match parse_pascal(data, at, (count - 1) as nat) {
            Some((strings, end)) => if fits(data, end, 1) && fits(data, end + 1, data[end] as int) {
                Some(
                    (
                        strings.push(data.subrange(end + 1, end + 1 + data[end])),
                        end + 1 + data[end],
                    ),
                )
            } else {
                None
            },
            None => None,
        }
    }
}

/// The name that the bytes of a Pascal string give: their text where they are
/// valid UTF-8.
pub open spec fn name_matches(name: Seq<char>, bytes: Seq<u8>) -> bool {
    if vstd::utf8::valid_utf8(bytes) {
        name == vstd::utf8::decode_utf8(bytes)
    } else {
        name == "<malformed>"@
    }
}

/// Relies on String::from_utf8: it accepts exactly the valid UTF-8 sequences
/// and keeps their text.
#[verifier::external_body]
fn string_of_utf8(bytes: Vec<u8>) -> (r: Option<String>)
    ensures
        r is Some <==> vstd::utf8::valid_utf8(bytes@),
        r matches Some(text) ==> text@ == vstd::utf8::decode_utf8(bytes@),
{
    String::from_utf8(bytes).ok()
}

/// Count the indices that refer to names of the table.
fn count_own_names(indices: &Vec<u16>) -> (r: usize)
    ensures
        r == own_name_count(indices@),
{
    let mut count: usize = 0;
    let mut i: usize = 0;
    while i < indices.len()
        invariant
            i <= indices@.len(),
            count == own_name_count(indices@.subrange(0, i as int)),
            count <= i,
        decreases indices.len() - i,
    {
        let ghost next = indices@.subrange(0, i + 1);
        assert(next.drop_last() =~= indices@.subrange(0, i as int));
        if 258 <= indices[i] && indices[i] <= 32767 {
            count = count + 1;
        }
        i = i + 1;
    }
    assert(indices@.subrange(0, indices@.len() as int) =~= indices@);
    count
}

/// Read `count` Pascal strings as names; one that is not valid UTF-8 becomes
/// `<malformed>`.
fn read_pascal_strings<T: Tape>(tape: &mut T, count: usize) -> (r: Result<Vec<String>, Error>)
    ensures
        final(tape).data() == old(tape).data(),
        r.is_ok() <==> parse_pascal(old(tape).data(), old(tape).at(), count as nat) is Some,
        r matches Ok(names) ==> {
            let (strings, end) = parse_pascal(old(tape).data(), old(tape).at(), count as nat)->0;
            &&& final(tape).at() == end
            &&& names@.len() == count
            &&& forall|i: int| 0 <= i < count ==> name_matches(#[trigger] names@[i]@, strings[i])
        },
{
    let ghost data = tape.data();
    let ghost start = tape.at();
    let mut names: Vec<String> = Vec::new();
    let mut i: usize = 0;
    while i < count
        invariant
            tape.data() == data,
            data == old(tape).data(),
            start == old(tape).at(),
            i <= count,
            names@.len() == i,
            parse_pascal(data, start, i as nat) matches Some((strings, end)) && end == tape.at()
                && forall|j: int| 0 <= j < i ==> name_matches(#[trigger] names@[j]@, strings[j]),
        decreases count - i,
    {
        let ghost at = tape.at();
        let ghost before = names@;
        proof {
            lemma_pascal_len(data, start, i as nat);
        }
        let size = match <u8 as Value>::read(tape) {
            Ok(size) => size,
            Err(e) => {
                proof {
                    lemma_pascal_stops(data, start, (i + 1) as nat, count as nat);
                }
                return Err(e);
            },
        };
        let bytes = match tape.take_bytes(size as usize) {
            Ok(bytes) => bytes,
            Err(e) => {
                proof {
                    lemma_pascal_stops(data, start, (i + 1) as nat, count as nat);
                }
                return Err(e);
            },
        };
        let ghost raw = bytes@;
        let name = match string_of_utf8(bytes) {
            Some(name) => name,
            None => "<malformed>".to_owned(),
        };
        proof {
            lemma_pascal_len(data, start, (i + 1) as nat);
            let (strings, _) = parse_pascal(data, start, i as nat)->0;
            let (more, _) = parse_pascal(data, start, (i + 1) as nat)->0;
            assert(more == strings.push(raw));
            assert(name_matches(name@, raw));
            assert forall|j: int| 0 <= j < i implies more[j] == strings[j] by {}
        }
        names.push(name);
        i = i + 1;
    }
    proof {
        lemma_pascal_len(data, start, count as nat);
    }
    Ok(names)
}

/// Pascal strings read one after another are as many as were asked for.
proof fn lemma_pascal_len(data: Seq<u8>, at: int, count: nat)
    ensures
        parse_pascal(data, at, count) matches Some((strings, _)) ==> strings.len() == count,
    decreases count,
{
    if count > 0 {
        lemma_pascal_len(data, at, (count - 1) as nat);
    }
}

/// Once `count` Pascal strings fail to parse, no more of them parse.
proof fn lemma_pascal_stops(data: Seq<u8>, at: int, count: nat, more: nat)
    requires
        count <= more,
        parse_pascal(data, at, count) is None,
    ensures
        parse_pascal(data, at, more) is None,
    decreases more - count,
{
    if count < more {
        lemma_pascal_stops(data, at, count, (more - 1) as nat);
    }
}

impl PostScript {
    /// Read a PostScript table of version 1, 2 or 3; version 2 adds glyph-name
    /// indices and the names that the indices from 258 to 32767 refer to.
    pub fn read<T: Tape>(tape: &mut T) -> (r: Result<PostScript, Error>)
        ensures
            final(tape).data() == old(tape).data(),
            ({
                let data = old(tape).data();
                let at = old(tape).at();
                if !fits(data, at, 32) {
                    r.is_err()
                } else if u32_at(data, at) == VERSION_1 {
                    r matches Ok(PostScript::Version1(table)) && table == common_at(data, at)
                } else if u32_at(data, at) == VERSION_3 {
                    r matches Ok(PostScript::Version3(table)) && table == common_at(data, at)
                } else if u32_at(data, at) == VERSION_2 {
                    let count = u16_at(data, at + 32);
                    &&& r.is_ok() <==> fits(data, at, 34) && fits(data, at + 34, 2 * count)
                        && parse_pascal(
                        data,
                        at + 34 + 2 * count,
                        own_name_count(u16s_at(data, at + 34, count as nat)),
                    ) is Some
                    &&& r.is_ok() ==> (r matches Ok(PostScript::Version2(_)))
                    &&& (r matches Ok(PostScript::Version2(table)) ==> {
                        let common = common_at(data, at);
                        let count = u16_at(data, at + 32);
                        &&& table.version == common.version
                        &&& table.italic_angle == common.italic_angle
                        &&& table.underline_position == common.underline_position
                        &&& table.underline_thickness == common.underline_thickness
                        &&& table.is_fixed_pitch == common.is_fixed_pitch
                        &&& table.min_memory_type42 == common.min_memory_type42
                        &&& table.max_memory_type42 == common.max_memory_type42
                        &&& table.min_memory_type1 == common.min_memory_type1
                        &&& table.max_memory_type1 == common.max_memory_type1
                        &&& table.glyph_count == count
                        &&& table.glyph_name_indices@ == u16s_at(data, at + 34, count as nat)
                        &&& parse_pascal(
                            data,
                            at + 34 + 2 * count,
                            own_name_count(table.glyph_name_indices@),
                        ) matches Some((strings, _)) && table.glyph_names@.len() == strings.len()
                            && forall|i: int|
                            0 <= i < strings.len() ==> name_matches(
                                #[trigger] table.glyph_names@[i]@,
                                strings[i],
                            )
                    })
                } else {
                    r.is_err()
                }
            }),
    {
        let ghost data = tape.data();
        let ghost at = tape.at();
        let version = match peek_u32(tape) {
            Ok(version) => version,
            Err(e) => return Err(e),
        };
        let common = read_common(tape)?;
        if version == VERSION_1 {
            Ok(PostScript::Version1(common))
        } else if version == VERSION_3 {
            Ok(PostScript::Version3(common))
        } else if version == VERSION_2 {
            let glyph_count = <u16 as Value>::read(tape)?;
            let glyph_name_indices = take_u16s(tape, glyph_count as usize)?;
            let count = count_own_names(&glyph_name_indices);
            let glyph_names = read_pascal_strings(tape, count)?;
            proof {
                lemma_pascal_len(data, at + 34 + 2 * glyph_count, count as nat);
            }
            let table = PostScript2 {
                version: common.version,
                italic_angle: common.italic_angle,
                underline_position: common.underline_position,
                underline_thickness: common.underline_thickness,
                is_fixed_pitch: common.is_fixed_pitch,
                min_memory_type42: common.min_memory_type42,
                max_memory_type42: common.max_memory_type42,
                min_memory_type1: common.min_memory_type1,
                max_memory_type1: common.max_memory_type1,
                glyph_count,
                glyph_name_indices,
                glyph_names,
            };
            Ok(PostScript::Version2(table))
        } else {
            Err(Error::Unknown)
        }
    }
}

} // verus!
