//! The character-to-glyph mapping.

use std::collections::HashMap;

use vstd::prelude::*;

use crate::tape::{
    fits, i16s_at, parse_many, peek_u16, take_i16s, take_many, take_u16s, u16_at, u16s_at, u32_at,
    Error, Tape, Value,
};
use crate::GlyphID;

verus! {

broadcast use vstd::std_specs::hash::group_hash_axioms;

/// A character-to-glyph mapping.
#[derive(Clone, Debug)]
pub struct CharacterMapping {
    pub header: Header,
    pub records: Vec<Record>,
    pub encodings: Vec<Encoding>,
}

/// An encoding of a character-to-glyph mapping.
#[derive(Clone, Debug)]
pub enum Encoding {
    /// Format 0.
    Format0(Encoding0),
    /// Format 4.
    Format4(Encoding4),
    /// Format 6.
    Format6(Encoding6),
    /// Format 12.
    Format12(Encoding12),
    /// Format 14.
    Format14(Encoding14),
    /// An unknown format.
    Unknown(u16),
}

/// The header of a character-to-glyph mapping.
#[derive(Clone, Copy, Debug, PartialEq, Eq, Structural)]
pub struct Header {
    pub version: u16,
    pub table_count: u16,
}

/// A record of a character-to-glyph mapping.
#[derive(Clone, Copy, Debug, PartialEq, Eq, Structural)]
pub struct Record {
    pub platform_id: u16,
    pub encoding_id: u16,
    pub offset: u32,
}

/// A character-to-glyph encoding in format 0.
#[derive(Clone, Debug)]
pub struct Encoding0 {
    pub format: u16,
    pub size: u16,
    pub language: u16,
    pub glyph_ids: Vec<u8>,
}

/// A character-to-glyph encoding in format 4.
#[derive(Clone, Debug)]
pub struct Encoding4 {
    pub format: u16,
    pub size: u16,
    pub language: u16,
    pub segment_count_x2: u16,
    pub search_range: u16,
    pub entry_selector: u16,
    pub range_shift: u16,
    pub end_codes: Vec<u16>,
    pub reserved: u16,
    pub start_codes: Vec<u16>,
    pub id_deltas: Vec<i16>,
    pub id_range_offsets: Vec<u16>,
    pub glyph_ids: Vec<GlyphID>,
}

/// A character-to-glyph encoding in format 6.
#[derive(Clone, Debug)]
pub struct Encoding6 {
    pub format: u16,
    pub size: u16,
    pub language: u16,
    pub first_code: u16,
    pub entry_count: u16,
    pub glyph_ids: Vec<GlyphID>,
}

/// A character-to-glyph encoding in format 12.
#[derive(Clone, Debug)]
pub struct Encoding12 {
    pub format: u16,
    pub reserved: u16,
    pub size: u32,
    pub language: u32,
    pub group_count: u32,
    pub groups: Vec<SequentialGroup>,
}

/// A character-to-glyph encoding in format 14.
#[derive(Clone, Debug)]
pub struct Encoding14 {
    pub format: u16,
    pub size: u32,
    pub selector_count: u32,
    pub selectors: Vec<VariationSelector>,
}

/// A sequential mapping group.
#[derive(Clone, Copy, Debug, PartialEq, Eq, Structural)]
pub struct SequentialGroup {
    pub start_code: u32,
    pub end_code: u32,
    pub start_glyph_id: u32,
}

/// A variation selector.
#[derive(Clone, Copy, Debug, PartialEq, Eq, Structural)]
pub struct VariationSelector {
    pub character: u32,
    pub default_uvs_offset: u32,
    pub non_default_uvs_offset: u32,
}

impl Encoding0 {
    /// The table has a glyph for each of the 256 byte values.
    pub open spec fn is_valid(&self) -> bool {
        self.glyph_ids@.len() == 256
    }

    /// Each byte maps to the glyph at its own index.
    pub open spec fn spec_mapping(&self) -> Map<u8, GlyphID> {
        Map::new(|c: u8| (c as int) < self.glyph_ids@.len(), |c: u8| self.glyph_ids@[c as int] as GlyphID)
    }

    /// Return the ranges of characters: all bytes.
    pub fn characters(&self) -> (r: Vec<(u8, u8)>)
        ensures
            r@ == seq![(0u8, 255u8)],
    {
        let r = vec![(0u8, 255u8)];
        assert(r@ =~= seq![(0u8, 255u8)]);
        r
    }

    /// Return the mapping.
    pub fn mapping(&self) -> (r: HashMap<u8, GlyphID>)
        requires
            self.is_valid(),
        ensures
            r@ == self.spec_mapping(),
    {
        let mut result: HashMap<u8, GlyphID> = HashMap::new();
        let mut i: usize = 0;
        while i < self.glyph_ids.len()
            invariant
                self.glyph_ids@.len() == 256,
                i <= 256,
                result@ == Map::new(
                    |c: u8| (c as int) < i,
                    |c: u8| self.glyph_ids@[c as int] as GlyphID,
                ),
            decreases self.glyph_ids.len() - i,
        {
            result.insert(i as u8, self.glyph_ids[i] as GlyphID);
            i = i + 1;
            assert(result@ =~= Map::new(
                |c: u8| (c as int) < i,
                |c: u8| self.glyph_ids@[c as int] as GlyphID,
            ));
        }
        assert(result@ =~= self.spec_mapping());
        result
    }
}

impl Encoding6 {
    /// The codes of the table fit in sixteen bits.
    pub open spec fn is_valid(&self) -> bool {
        self.first_code + self.glyph_ids@.len() <= 65536
    }

    /// The codes from the first one on map to the glyphs in order.
    pub open spec fn spec_mapping(&self) -> Map<u16, GlyphID> {
        Map::new(
            |c: u16| self.first_code <= c < self.first_code + self.glyph_ids@.len(),
            |c: u16| self.glyph_ids@[c - self.first_code],
        )
    }

    /// Return the range of characters, if the table has any entry.
    pub fn characters(&self) -> (r: Vec<(u16, u16)>)
        requires
            self.first_code + self.entry_count <= 65536,
        ensures
            self.entry_count == 0 ==> r@.len() == 0,
            self.entry_count > 0 ==> r@ == seq![
                (self.first_code, (self.first_code + self.entry_count - 1) as u16),
            ],
    {
        if self.entry_count == 0 {
            return Vec::new();
        }
        let r = vec![(self.first_code, self.first_code + (self.entry_count - 1))];
        assert(r@ =~= seq![(self.first_code, (self.first_code + self.entry_count - 1) as u16)]);
        r
    }

    /// Return the mapping.
    pub fn mapping(&self) -> (r: HashMap<u16, GlyphID>)
        requires
            self.is_valid(),
        ensures
            r@ == self.spec_mapping(),
    {
        let mut result: HashMap<u16, GlyphID> = HashMap::new();
        let mut i: usize = 0;
        let first = self.first_code;
        while i < self.glyph_ids.len()
            invariant
                first == self.first_code,
                first + self.glyph_ids@.len() <= 65536,
                i <= self.glyph_ids@.len(),
                result@ == Map::new(
                    |c: u16| first <= c < first + i,
                    |c: u16| self.glyph_ids@[c - first],
                ),
            decreases self.glyph_ids.len() - i,
        {
            result.insert(first + i as u16, self.glyph_ids[i]);
            i = i + 1;
            assert(result@ =~= Map::new(
                |c: u16| first <= c < first + i,
                |c: u16| self.glyph_ids@[c - first],
            ));
        }
        assert(result@ =~= self.spec_mapping());
        result
    }
}

/// The codes of a group map to consecutive glyphs from its first one on,
/// wrapping at sixteen bits.
pub open spec fn group_map(group: SequentialGroup) -> Map<u32, GlyphID> {
    Map::new(
        |c: u32| group.start_code <= c <= group.end_code,
        |c: u32| ((group.start_glyph_id + (c - group.start_code)) % 65536) as GlyphID,
    )
}

/// The mapping of the first `count` groups; a later group wins over an
/// earlier one.
pub open spec fn groups_map(groups: Seq<SequentialGroup>, count: nat) -> Map<u32, GlyphID>
    decreases count,
{
    if count == 0 || count > groups.len() {
        Map::empty()
    } else {
        groups_map(groups, (count - 1) as nat).union_prefer_right(group_map(groups[count - 1]))
    }
}

impl Encoding12 {
    /// Every group starts no later than it ends.
    pub open spec fn is_valid(&self) -> bool {
        forall|i: int|
            0 <= i < self.groups@.len() ==> #[trigger] self.groups@[i].start_code
                <= self.groups@[i].end_code
    }

    /// The union of the mappings of the groups.
    pub open spec fn spec_mapping(&self) -> Map<u32, GlyphID> {
        groups_map(self.groups@, self.groups@.len())
    }

    /// Return the ranges of characters; they are not listed for this format.
    pub fn characters(&self) -> (r: Vec<(u32, u32)>)
        ensures
            r@.len() == 0,
    {
        Vec::new()
    }

    /// Return the mapping.
    pub fn mapping(&self) -> (r: HashMap<u32, GlyphID>)
        requires
            self.is_valid(),
        ensures
            r@ == self.spec_mapping(),
    {
        let mut result: HashMap<u32, GlyphID> = HashMap::new();
        let mut k: usize = 0;
        while k < self.groups.len()
            invariant
                self.is_valid(),
                k <= self.groups@.len(),
                result@ == groups_map(self.groups@, k as nat),
            decreases self.groups.len() - k,
        {
            let group = self.groups[k];
            assert(group.start_code <= group.end_code);
            let ghost before = result@;
            let mut c: u64 = group.start_code as u64;
            while c <= group.end_code as u64
                invariant
                    group.start_code <= c <= group.end_code as int + 1,
                    result@ == before.union_prefer_right(
                        Map::new(
                            |x: u32| group.start_code <= x < c,
                            |x: u32| ((group.start_glyph_id + (x - group.start_code)) % 65536) as GlyphID,
                        ),
                    ),
                decreases group.end_code as int + 1 - c,
            {
                let glyph = ((group.start_glyph_id as u64 + (c - group.start_code as u64)) % 65536) as GlyphID;
                result.insert(c as u32, glyph);
                c = c + 1;
                assert(result@ =~= before.union_prefer_right(
                    Map::new(
                        |x: u32| group.start_code <= x < c,
                        |x: u32| ((group.start_glyph_id + (x - group.start_code)) % 65536) as GlyphID,
                    ),
                ));
            }
            assert(Map::new(
                |x: u32| group.start_code <= x < c,
                |x: u32| ((group.start_glyph_id + (x - group.start_code)) % 65536) as GlyphID,
            ) =~= group_map(group));
            k = k + 1;
        }
        result
    }
}

/// Code `c` lies in segment `i` of `count` segments, which is not the final
/// one and maps through the array of glyphs.
pub open spec fn in_array(
    starts: Seq<u16>,
    ends: Seq<u16>,
    offsets: Seq<u16>,
    count: int,
    i: int,
    c: int,
) -> bool {
    &&& 0 <= i < count - 1
    &&& starts[i] <= c <= ends[i]
    &&& offsets[i] > 0
}

/// The index into the array of glyphs for code `c` of segment `i` of `count`
/// segments.
pub open spec fn array_index(starts: Seq<u16>, offsets: Seq<u16>, count: int, i: int, c: int) -> int {
    offsets[i] / 2 + (c - starts[i]) - (count - i)
}

/// No code of the segments maps before the array of glyphs.
pub open spec fn indices_valid(starts: Seq<u16>, ends: Seq<u16>, offsets: Seq<u16>, count: int) -> bool {
    forall|i: int, c: int| #[trigger]
        in_array(starts, ends, offsets, count, i, c) ==> array_index(starts, offsets, count, i, c)
            >= 0
}

/// The number of glyphs that the array must hold for the segments: one past
/// the largest index that a code uses, or none.
pub open spec fn is_array_length(
    starts: Seq<u16>,
    ends: Seq<u16>,
    offsets: Seq<u16>,
    count: int,
    length: int,
) -> bool {
    &&& forall|i: int, c: int| #[trigger]
        in_array(starts, ends, offsets, count, i, c) ==> array_index(starts, offsets, count, i, c)
            + 1 <= length
    &&& length == 0 || exists|i: int, c: int| #[trigger]
        in_array(starts, ends, offsets, count, i, c) && array_index(starts, offsets, count, i, c)
            + 1 == length
}

/// The data at `at` holds a valid table in format 4: the header and the four
/// arrays of segments, a zero pad, a final segment that covers only 0xFFFF,
/// no code that maps before the array of glyphs, and the whole array.
pub open spec fn format4_is_readable(data: Seq<u8>, at: int) -> bool {
    let n = u16_at(data, at + 6) as int / 2;
    let ends = u16s_at(data, at + 14, n as nat);
    let starts = u16s_at(data, at + 16 + 2 * n, n as nat);
    let offsets = u16s_at(data, at + 16 + 6 * n, n as nat);
    &&& fits(data, at, 16 + 8 * n)
    &&& u16_at(data, at) == 4
    &&& u16_at(data, at + 14 + 2 * n) == 0
    &&& n > 0 ==> starts[n - 1] == 0xFFFF && ends[n - 1] == 0xFFFF
    &&& indices_valid(starts, ends, offsets, n)
    &&& exists|length: int|
        is_array_length(starts, ends, offsets, n, length) && fits(
            data,
            at + 16 + 8 * n,
            2 * length,
        )
}

/// The number of glyphs that the array must hold is unique.
pub proof fn lemma_array_length_unique(
    starts: Seq<u16>,
    ends: Seq<u16>,
    offsets: Seq<u16>,
    count: int,
    a: int,
    b: int,
)
    requires
        indices_valid(starts, ends, offsets, count),
        is_array_length(starts, ends, offsets, count, a),
        is_array_length(starts, ends, offsets, count, b),
    ensures
        a == b,
{
    if a != 0 {
        let (i, c) = choose|i: int, c: int|
            #[trigger] in_array(starts, ends, offsets, count, i, c) && array_index(
                starts,
                offsets,
                count,
                i,
                c,
            ) + 1 == a;
        assert(a <= b);
    }
    if b != 0 {
        let (i, c) = choose|i: int, c: int|
            #[trigger] in_array(starts, ends, offsets, count, i, c) && array_index(
                starts,
                offsets,
                count,
                i,
                c,
            ) + 1 == b;
        assert(b <= a);
    }
}

impl Encoding4 {
    /// The number of segments.
    pub open spec fn spec_segment_count(&self) -> int {
        self.segment_count_x2 as int / 2
    }

    /// The four arrays of segments have one entry per segment.
    pub open spec fn has_segments(&self) -> bool {
        let n = self.spec_segment_count();
        &&& self.end_codes@.len() == n
        &&& self.start_codes@.len() == n
        &&& self.id_deltas@.len() == n
        &&& self.id_range_offsets@.len() == n
    }

    /// Code `c` lies in segment `i`, which is not the final one and maps
    /// through the array of glyphs.
    pub open spec fn uses_array(&self, i: int, c: int) -> bool {
        in_array(
            self.start_codes@,
            self.end_codes@,
            self.id_range_offsets@,
            self.spec_segment_count(),
            i,
            c,
        )
    }

    /// The index into the array of glyphs for code `c` of segment `i`.
    pub open spec fn glyph_index(&self, i: int, c: int) -> int {
        array_index(self.start_codes@, self.id_range_offsets@, self.spec_segment_count(), i, c)
    }

    /// Code `c` of segment `i` does not map before the array of glyphs.
    pub open spec fn index_is_valid(&self, i: int, c: int) -> bool {
        self.uses_array(i, c) ==> self.glyph_index(i, c) >= 0
    }

    /// The final segment covers only code 0xFFFF.
    pub open spec fn is_terminated(&self) -> bool {
        let n = self.spec_segment_count();
        n > 0 ==> self.start_codes@[n - 1] == 0xFFFF && self.end_codes@[n - 1] == 0xFFFF
    }

    /// The segments are complete and every code that maps through the array
    /// of glyphs finds its glyph there.
    pub open spec fn is_valid(&self) -> bool {
        &&& self.has_segments()
        &&& forall|i: int, c: int|
            #[trigger] self.uses_array(i, c) ==> 0 <= self.glyph_index(i, c) < self.glyph_ids@.len()
    }

    /// The glyph of code `c` in segment `i`: from the array of glyphs where
    /// the segment has a range offset, else the code plus the delta, modulo
    /// 2^16.
    pub open spec fn glyph_of(&self, i: int, c: int) -> GlyphID {
        if self.id_range_offsets@[i] > 0 {
            self.glyph_ids@[self.glyph_index(i, c)]
        } else {
            ((self.id_deltas@[i] + c) % 65536) as GlyphID
        }
    }

    /// The mapping of segment `i`.
    pub open spec fn segment_map(&self, i: int) -> Map<u16, GlyphID> {
        Map::new(
            |c: u16| self.start_codes@[i] <= c <= self.end_codes@[i],
            |c: u16| self.glyph_of(i, c as int),
        )
    }

    /// The mapping of the first `count` segments; a later segment wins over
    /// an earlier one.
    pub open spec fn segments_map(&self, count: nat) -> Map<u16, GlyphID>
        decreases count,
    {
        if count == 0 {
            Map::empty()
        } else {
            self.segments_map((count - 1) as nat).union_prefer_right(self.segment_map(count - 1))
        }
    }

    /// The mapping of all segments but the final one.
    pub open spec fn spec_mapping(&self) -> Map<u16, GlyphID> {
        if self.spec_segment_count() == 0 {
            Map::empty()
        } else {
            self.segments_map((self.spec_segment_count() - 1) as nat)
        }
    }

    /// The number of glyphs that the array must hold: one past the largest
    /// index that a code uses, or none.
    pub open spec fn is_glyph_id_count(&self, count: int) -> bool {
        is_array_length(
            self.start_codes@,
            self.end_codes@,
            self.id_range_offsets@,
            self.spec_segment_count(),
            count,
        )
    }

    /// Return the number of segments.
    pub fn segment_count(&self) -> (r: usize)
        ensures
            r == self.spec_segment_count(),
    {
        self.segment_count_x2 as usize / 2
    }

    /// Return the ranges of characters of all segments but the final one.
    pub fn characters(&self) -> (r: Vec<(u16, u16)>)
        requires
            self.has_segments(),
        ensures
            self.spec_segment_count() == 0 ==> r@.len() == 0,
            self.spec_segment_count() > 0 ==> r@.len() == self.spec_segment_count() - 1,
            forall|i: int|
                0 <= i < r@.len() ==> #[trigger] r@[i] == (self.start_codes@[i], self.end_codes@[i]),
    {
        let segment_count = self.segment_count();
        let mut r: Vec<(u16, u16)> = Vec::new();
        if segment_count == 0 {
            return r;
        }
        let mut i: usize = 0;
        while i < segment_count - 1
            invariant
                self.has_segments(),
                segment_count == self.spec_segment_count(),
                i <= segment_count - 1,
                r@.len() == i,
                forall|j: int|
                    0 <= j < i ==> #[trigger] r@[j] == (self.start_codes@[j], self.end_codes@[j]),
            decreases segment_count - 1 - i,
        {
            r.push((self.start_codes[i], self.end_codes[i]));
            i = i + 1;
        }
        r
    }

    /// Return the number of glyphs that the array of glyphs must hold, or an
    /// error where the final segment does not cover exactly 0xFFFF or a code
    /// would map before the array.
    pub fn glyph_id_count(&self) -> (r: Result<usize, Error>)
        requires
            self.has_segments(),
        ensures
            r.is_ok() <==> self.is_terminated() && indices_valid(
                self.start_codes@,
                self.end_codes@,
                self.id_range_offsets@,
                self.spec_segment_count(),
            ),
            r matches Ok(count) ==> self.is_glyph_id_count(count as int),
    {
        let segment_count = self.segment_count();
        if segment_count == 0 {
            return Ok(0);
        }
        if self.start_codes[segment_count - 1] != 0xFFFF || self.end_codes[segment_count - 1]
            != 0xFFFF {
            return Err(Error::Malformed);
        }
        let mut count: usize = 0;
        let ghost mut wi: int = 0;
        let ghost mut wc: int = 0;
        let mut i: usize = 0;
        while i < segment_count - 1
            invariant
                self.has_segments(),
                segment_count == self.spec_segment_count(),
                segment_count > 0,
                i <= segment_count - 1,
                count <= 200000,
                forall|j: int, c: int|
                    0 <= j < i ==> #[trigger] self.index_is_valid(j, c),
                forall|j: int, c: int|
                    0 <= j < i && #[trigger] self.uses_array(j, c) ==> self.glyph_index(j, c) + 1
                        <= count,
                count > 0 ==> self.uses_array(wi, wc) && self.glyph_index(wi, wc) + 1 == count,
            decreases segment_count - 1 - i,
        {
            let start = self.start_codes[i] as u32;
            let end = self.end_codes[i] as u32;
            let offset = self.id_range_offsets[i] as u32;
            let mut c: u32 = start;
            if offset > 0 && start <= end {
                while c <= end
                    invariant
                        self.has_segments(),
                        segment_count == self.spec_segment_count(),
                        segment_count > 0,
                        i < segment_count - 1,
                        start == self.start_codes@[i as int],
                        end == self.end_codes@[i as int],
                        offset == self.id_range_offsets@[i as int],
                        offset > 0,
                        start <= c <= end + 1,
                        count <= 200000,
                        forall|j: int, x: int|
                            0 <= j < i ==> #[trigger] self.index_is_valid(j, x),
                        forall|x: int| start <= x < c ==> #[trigger] self.index_is_valid(i as int, x),
                        forall|j: int, x: int|
                            0 <= j < i && #[trigger] self.uses_array(j, x) ==> self.glyph_index(j, x)
                                + 1 <= count,
                        forall|x: int|
                            start <= x < c && #[trigger] self.uses_array(i as int, x)
                                ==> self.glyph_index(i as int, x) + 1 <= count,
                        count > 0 ==> self.uses_array(wi, wc) && self.glyph_index(wi, wc) + 1
                            == count,
                    decreases end + 1 - c,
                {
                    let base = offset / 2 + (c - start);
                    let back = (segment_count - i) as u32;
                    assert(self.uses_array(i as int, c as int));
                    if base < back {
                        assert(!self.index_is_valid(i as int, c as int));
                        assert(in_array(
                            self.start_codes@,
                            self.end_codes@,
                            self.id_range_offsets@,
                            self.spec_segment_count(),
                            i as int,
                            c as int,
                        ));
                        return Err(Error::Malformed);
                    }
                    let needed = (base - back + 1) as usize;
                    if needed > count {
                        count = needed;
                        proof {
                            wi = i as int;
                            wc = c as int;
                        }
                    }
                    c = c + 1;
                }
            }
            assert forall|x: int| #[trigger] self.index_is_valid(i as int, x) by {
                if self.uses_array(i as int, x) {
                    assert(start <= x <= end);
                }
            }
            assert forall|x: int| #[trigger] self.uses_array(i as int, x) implies self.glyph_index(
                i as int,
                x,
            ) + 1 <= count by {
                assert(start <= x <= end);
            }
            i = i + 1;
        }
        assert forall|j: int, x: int| #[trigger]
            in_array(
                self.start_codes@,
                self.end_codes@,
                self.id_range_offsets@,
                self.spec_segment_count(),
                j,
                x,
            ) implies self.glyph_index(j, x) >= 0 && self.glyph_index(j, x) + 1 <= count by {
            assert(self.uses_array(j, x));
            assert(0 <= j < i);
            assert(self.index_is_valid(j, x));
        }
        proof {
            if count > 0 {
                assert(in_array(
                    self.start_codes@,
                    self.end_codes@,
                    self.id_range_offsets@,
                    self.spec_segment_count(),
                    wi,
                    wc,
                ));
            }
        }
        Ok(count)
    }

    /// Return the mapping of all segments but the final one.
    pub fn mapping(&self) -> (r: HashMap<u16, GlyphID>)
        requires
            self.is_valid(),
        ensures
            r@ == self.spec_mapping(),
    {
        let segment_count = self.segment_count();
        let mut result: HashMap<u16, GlyphID> = HashMap::new();
        if segment_count == 0 {
            return result;
        }
        let mut i: usize = 0;
        while i < segment_count - 1
            invariant
                self.is_valid(),
                segment_count == self.spec_segment_count(),
                segment_count > 0,
                i <= segment_count - 1,
                result@ == self.segments_map(i as nat),
            decreases segment_count - 1 - i,
        {
            let start = self.start_codes[i] as u32;
            let end = self.end_codes[i] as u32;
            let offset = self.id_range_offsets[i];
            let delta = self.id_deltas[i];
            let ghost before = result@;
            let mut c: u32 = start;
            if start <= end {
                while c <= end
                    invariant
                        self.is_valid(),
                        segment_count == self.spec_segment_count(),
                        i < segment_count - 1,
                        start == self.start_codes@[i as int],
                        end == self.end_codes@[i as int],
                        offset == self.id_range_offsets@[i as int],
                        delta == self.id_deltas@[i as int],
                        start <= c <= end + 1,
                        result@ == before.union_prefer_right(
                            Map::new(
                                |x: u16| start <= x < c,
                                |x: u16| self.glyph_of(i as int, x as int),
                            ),
                        ),
                    decreases end + 1 - c,
                {
                    let glyph: GlyphID = if offset > 0 {
                        assert(self.uses_array(i as int, c as int));
                        let index = offset as usize / 2 + (c - start) as usize - (segment_count - i);
                        self.glyph_ids[index]
                    } else {
                        ((delta as i64 + c as i64 + 65536) % 65536) as GlyphID
                    };
                    result.insert(c as u16, glyph);
                    c = c + 1;
                    assert(result@ =~= before.union_prefer_right(
                        Map::new(
                            |x: u16| start <= x < c,
                            |x: u16| self.glyph_of(i as int, x as int),
                        ),
                    ));
                }

            }
            assert(Map::new(
                |x: u16| start <= x < c,
                |x: u16| self.glyph_of(i as int, x as int),
            ) =~= self.segment_map(i as int));
            i = i + 1;
        }
        result
    }
}

/// The mapping of the first `count` segments gives a code of segment `i` the
/// glyph of that segment, where no later one of them covers the code.
proof fn lemma_segments_map_resolves(e: Encoding4, i: int, c: u16, count: nat)
    requires
        0 <= i < count,
        e.start_codes@[i] <= c <= e.end_codes@[i],
        forall|j: int| i < j < count ==> !(#[trigger] e.start_codes@[j] <= c <= e.end_codes@[j]),
    ensures
        e.segments_map(count).contains_key(c),
        e.segments_map(count)[c] == e.glyph_of(i, c as int),
    decreases count,
{
    if count - 1 > i {
        lemma_segments_map_resolves(e, i, c, (count - 1) as nat);
    }
}

/// In a table in format 4, every code of a segment other than the final one
/// maps to the glyph that the formulas of its segment give: the glyph at
/// `id_range_offset / 2 + (c - start_code) - (segment_count - i)` in the array
/// where the range offset is not zero, else `id_delta + c` modulo 2^16; a
/// later segment that covers the code too takes precedence.
pub proof fn lemma_format4_resolves(e: Encoding4, i: int, c: u16)
    requires
        0 <= i < e.spec_segment_count() - 1,
        e.start_codes@[i] <= c <= e.end_codes@[i],
        forall|j: int|
            i < j < e.spec_segment_count() - 1 ==> !(#[trigger] e.start_codes@[j] <= c <= e.end_codes@[j]),
    ensures
        e.spec_mapping().contains_key(c),
        e.spec_mapping()[c] == e.glyph_of(i, c as int),
{
    lemma_segments_map_resolves(e, i, c, (e.spec_segment_count() - 1) as nat);
}

impl Encoding14 {
    /// Return the ranges of characters; variation sequences are not resolved.
    pub fn characters(&self) -> (r: Vec<(u32, u32)>)
        ensures
            r@.len() == 0,
    {
        Vec::new()
    }

    /// Return the mapping; variation sequences are not resolved, so it is empty.
    pub fn mapping(&self) -> (r: HashMap<u32, GlyphID>)
        ensures
            r@ == Map::<u32, GlyphID>::empty(),
    {
        HashMap::new()
    }
}


impl Value for Header {
    /// Version 0 only.
    open spec fn parse(data: Seq<u8>, at: int) -> Option<(Header, int)> {
        if fits(data, at, 4) && u16_at(data, at) == 0 {
            Some((Header { version: 0, table_count: u16_at(data, at + 2) }, at + 4))
        } else {
            None
        }
    }

    fn read<T: Tape>(tape: &mut T) -> (r: Result<Header, Error>) {
        let b = tape.take_bytes(4)?;
        let version = crate::tape::get_u16(&b, 0);
        if version != 0 {
            return Err(Error::Unknown);
        }
        Ok(Header { version, table_count: crate::tape::get_u16(&b, 2) })
    }
}

impl Value for Record {
    open spec fn parse(data: Seq<u8>, at: int) -> Option<(Record, int)> {
        if fits(data, at, 8) {
            Some(
                (
                    Record {
                        platform_id: u16_at(data, at),
                        encoding_id: u16_at(data, at + 2),
                        offset: u32_at(data, at + 4),
                    },
                    at + 8,
                ),
            )
        } else {
            None
        }
    }

    fn read<T: Tape>(tape: &mut T) -> (r: Result<Record, Error>) {
        let b = tape.take_bytes(8)?;
        Ok(
            Record {
                platform_id: crate::tape::get_u16(&b, 0),
                encoding_id: crate::tape::get_u16(&b, 2),
                offset: crate::tape::get_u32(&b, 4),
            },
        )
    }
}

impl Value for SequentialGroup {
    open spec fn parse(data: Seq<u8>, at: int) -> Option<(SequentialGroup, int)> {
        if fits(data, at, 12) {
            Some(
                (
                    SequentialGroup {
                        start_code: u32_at(data, at),
                        end_code: u32_at(data, at + 4),
                        start_glyph_id: u32_at(data, at + 8),
                    },
                    at + 12,
                ),
            )
        } else {
            None
        }
    }

    fn read<T: Tape>(tape: &mut T) -> (r: Result<SequentialGroup, Error>) {
        let b = tape.take_bytes(12)?;
        Ok(
            SequentialGroup {
                start_code: crate::tape::get_u32(&b, 0),
                end_code: crate::tape::get_u32(&b, 4),
                start_glyph_id: crate::tape::get_u32(&b, 8),
            },
        )
    }
}

impl Value for VariationSelector {
    /// The character takes three bytes, big-endian.
    open spec fn parse(data: Seq<u8>, at: int) -> Option<(VariationSelector, int)> {
        if fits(data, at, 11) {
            Some(
                (
                    VariationSelector {
                        character: (data[at] * 65536 + data[at + 1] * 256 + data[at + 2]) as u32,
                        default_uvs_offset: u32_at(data, at + 3),
                        non_default_uvs_offset: u32_at(data, at + 7),
                    },
                    at + 11,
                ),
            )
        } else {
            None
        }
    }

    fn read<T: Tape>(tape: &mut T) -> (r: Result<VariationSelector, Error>) {
        let b = tape.take_bytes(11)?;
        Ok(
            VariationSelector {
                character: b[0] as u32 * 65536 + b[1] as u32 * 256 + b[2] as u32,
                default_uvs_offset: crate::tape::get_u32(&b, 3),
                non_default_uvs_offset: crate::tape::get_u32(&b, 7),
            },
        )
    }
}

impl Encoding0 {
    /// The encoding is the one that the data holds at `at`.
    pub open spec fn is_read_from(&self, data: Seq<u8>, at: int) -> bool {
        &&& fits(data, at, 262)
        &&& self.format == 0 && u16_at(data, at) == 0
        &&& self.size == u16_at(data, at + 2)
        &&& self.language == u16_at(data, at + 4)
        &&& self.glyph_ids@ == data.subrange(at + 6, at + 262)
    }

    /// Read an encoding in format 0: a header and 256 glyphs.
    pub fn read<T: Tape>(tape: &mut T) -> (r: Result<Encoding0, Error>)
        ensures
            final(tape).data() == old(tape).data(),
            r.is_ok() <==> fits(old(tape).data(), old(tape).at(), 262) && u16_at(
                old(tape).data(),
                old(tape).at(),
            ) == 0,
            r matches Ok(e) ==> e.is_read_from(old(tape).data(), old(tape).at()) && e.is_valid(),
    {
        let ghost data = tape.data();
        let ghost at = tape.at();
        let header = tape.take_bytes(6)?;
        let format = crate::tape::get_u16(&header, 0);
        let glyph_ids = match tape.take_bytes(256) {
            Ok(bytes) => bytes,
            Err(e) => {
                assert(!fits(data, at, 262));
                return Err(e);
            },
        };
        if format != 0 {
            return Err(Error::Unknown);
        }
        Ok(
            Encoding0 {
                format,
                size: crate::tape::get_u16(&header, 2),
                language: crate::tape::get_u16(&header, 4),
                glyph_ids,
            },
        )
    }
}

impl Encoding4 {
    /// The encoding is the one that the data holds at `at`, and it is valid.
    pub open spec fn is_read_from(&self, data: Seq<u8>, at: int) -> bool {
        let n = self.spec_segment_count();
        &&& fits(data, at, 16 + 8 * n + 2 * self.glyph_ids@.len())
        &&& self.format == 4 && u16_at(data, at) == 4
        &&& self.size == u16_at(data, at + 2)
        &&& self.language == u16_at(data, at + 4)
        &&& self.segment_count_x2 == u16_at(data, at + 6)
        &&& self.search_range == u16_at(data, at + 8)
        &&& self.entry_selector == u16_at(data, at + 10)
        &&& self.range_shift == u16_at(data, at + 12)
        &&& self.end_codes@ == u16s_at(data, at + 14, n as nat)
        &&& self.reserved == 0 && u16_at(data, at + 14 + 2 * n) == 0
        &&& self.start_codes@ == u16s_at(data, at + 16 + 2 * n, n as nat)
        &&& self.id_deltas@ == i16s_at(data, at + 16 + 4 * n, n as nat)
        &&& self.id_range_offsets@ == u16s_at(data, at + 16 + 6 * n, n as nat)
        &&& self.glyph_ids@ == u16s_at(data, at + 16 + 8 * n, self.glyph_ids@.len())
        &&& self.is_valid()
        &&& self.is_terminated()
        &&& self.is_glyph_id_count(self.glyph_ids@.len() as int)
    }

    /// Read an encoding in format 4: a header, the four arrays of segments,
    /// and as many glyphs as the segments need.
    pub fn read<T: Tape>(tape: &mut T) -> (r: Result<Encoding4, Error>)
        ensures
            final(tape).data() == old(tape).data(),
            r.is_ok() <==> format4_is_readable(old(tape).data(), old(tape).at()),
            r matches Ok(e) ==> e.is_read_from(old(tape).data(), old(tape).at()),
    {
        let header = tape.take_bytes(14)?;
        let format = crate::tape::get_u16(&header, 0);
        if format != 4 {
            return Err(Error::Unknown);
        }
        let segment_count_x2 = crate::tape::get_u16(&header, 6);
        let n = segment_count_x2 as usize / 2;
        let end_codes = take_u16s(tape, n)?;
        let reserved = <u16 as Value>::read(tape)?;
        if reserved != 0 {
            return Err(Error::Malformed);
        }
        let start_codes = take_u16s(tape, n)?;
        let id_deltas = take_i16s(tape, n)?;
        let id_range_offsets = take_u16s(tape, n)?;
        let mut table = Encoding4 {
            format,
            size: crate::tape::get_u16(&header, 2),
            language: crate::tape::get_u16(&header, 4),
            segment_count_x2,
            search_range: crate::tape::get_u16(&header, 8),
            entry_selector: crate::tape::get_u16(&header, 10),
            range_shift: crate::tape::get_u16(&header, 12),
            end_codes,
            reserved,
            start_codes,
            id_deltas,
            id_range_offsets,
            glyph_ids: Vec::new(),
        };
        let count = table.glyph_id_count()?;
        let ghost before = table;
        table.glyph_ids = take_u16s(tape, count)?;
        assert forall|i: int, c: int|
            #![trigger table.uses_array(i, c)]
            #![trigger before.uses_array(i, c)]
            table.uses_array(i, c) == before.uses_array(i, c) && table.glyph_index(i, c)
                == before.glyph_index(i, c) by {}
        assert forall|i: int, c: int| #[trigger] table.index_is_valid(i, c) by {
            assert(before.index_is_valid(i, c));
        }
        assert forall|i: int, c: int| #[trigger] table.uses_array(i, c) implies 0 <= table.glyph_index(
            i,
            c,
        ) < table.glyph_ids@.len() by {
            assert(before.uses_array(i, c));
            assert(table.index_is_valid(i, c));
        }
        Ok(table)
    }
}

impl Encoding6 {
    /// The encoding is the one that the data holds at `at`.
    pub open spec fn is_read_from(&self, data: Seq<u8>, at: int) -> bool {
        &&& fits(data, at, 10 + 2 * self.entry_count)
        &&& self.format == 6 && u16_at(data, at) == 6
        &&& self.size == u16_at(data, at + 2)
        &&& self.language == u16_at(data, at + 4)
        &&& self.first_code == u16_at(data, at + 6)
        &&& self.entry_count == u16_at(data, at + 8)
        &&& self.glyph_ids@ == u16s_at(data, at + 10, self.entry_count as nat)
    }

    /// Read an encoding in format 6: a header and `entry_count` glyphs.
    pub fn read<T: Tape>(tape: &mut T) -> (r: Result<Encoding6, Error>)
        ensures
            final(tape).data() == old(tape).data(),
            r.is_ok() <==> fits(old(tape).data(), old(tape).at(), 10) && u16_at(
                old(tape).data(),
                old(tape).at(),
            ) == 6 && fits(
                old(tape).data(),
                old(tape).at(),
                10 + 2 * u16_at(old(tape).data(), old(tape).at() + 8),
            ),
            r matches Ok(e) ==> e.is_read_from(old(tape).data(), old(tape).at()),
    {
        let ghost data = tape.data();
        let ghost at = tape.at();
        let header = tape.take_bytes(10)?;
        let format = crate::tape::get_u16(&header, 0);
        if format != 6 {
            return Err(Error::Unknown);
        }
        let entry_count = crate::tape::get_u16(&header, 8);
        let glyph_ids = take_u16s(tape, entry_count as usize)?;
        Ok(
            Encoding6 {
                format,
                size: crate::tape::get_u16(&header, 2),
                language: crate::tape::get_u16(&header, 4),
                first_code: crate::tape::get_u16(&header, 6),
                entry_count,
                glyph_ids,
            },
        )
    }
}

impl Encoding12 {
    /// The encoding is the one that the data holds at `at`.
    pub open spec fn is_read_from(&self, data: Seq<u8>, at: int) -> bool {
        &&& fits(data, at, 16)
        &&& self.format == 12 && u16_at(data, at) == 12
        &&& self.reserved == 0 && u16_at(data, at + 2) == 0
        &&& self.size == u32_at(data, at + 4)
        &&& self.language == u32_at(data, at + 8)
        &&& self.group_count == u32_at(data, at + 12)
        &&& parse_many::<SequentialGroup>(data, at + 16, self.group_count as nat) matches Some(
            (groups, _),
        ) && self.groups@ == groups
    }

    /// Read an encoding in format 12: a header and `group_count` groups.
    pub fn read<T: Tape>(tape: &mut T) -> (r: Result<Encoding12, Error>)
        ensures
            final(tape).data() == old(tape).data(),
            r.is_ok() <==> fits(old(tape).data(), old(tape).at(), 16) && u16_at(
                old(tape).data(),
                old(tape).at(),
            ) == 12 && u16_at(old(tape).data(), old(tape).at() + 2) == 0 && parse_many::<
                SequentialGroup,
            >(
                old(tape).data(),
                old(tape).at() + 16,
                u32_at(old(tape).data(), old(tape).at() + 12) as nat,
            ) is Some,
            r matches Ok(e) ==> e.is_read_from(old(tape).data(), old(tape).at()),
    {
        let header = tape.take_bytes(16)?;
        let format = crate::tape::get_u16(&header, 0);
        let reserved = crate::tape::get_u16(&header, 2);
        if format != 12 || reserved != 0 {
            return Err(Error::Unknown);
        }
        let group_count = crate::tape::get_u32(&header, 12);
        let groups = take_many::<SequentialGroup, T>(tape, group_count as usize)?;
        Ok(
            Encoding12 {
                format,
                reserved,
                size: crate::tape::get_u32(&header, 4),
                language: crate::tape::get_u32(&header, 8),
                group_count,
                groups,
            },
        )
    }
}

impl Encoding14 {
    /// The encoding is the one that the data holds at `at`.
    pub open spec fn is_read_from(&self, data: Seq<u8>, at: int) -> bool {
        &&& fits(data, at, 10)
        &&& self.format == 14 && u16_at(data, at) == 14
        &&& self.size == u32_at(data, at + 2)
        &&& self.selector_count == u32_at(data, at + 6)
        &&& parse_many::<VariationSelector>(data, at + 10, self.selector_count as nat) matches Some(
            (selectors, _),
        ) && self.selectors@ == selectors
    }

    /// Read an encoding in format 14: a header and `selector_count` records.
    pub fn read<T: Tape>(tape: &mut T) -> (r: Result<Encoding14, Error>)
        ensures
            final(tape).data() == old(tape).data(),
            r.is_ok() <==> fits(old(tape).data(), old(tape).at(), 10) && u16_at(
                old(tape).data(),
                old(tape).at(),
            ) == 14 && parse_many::<VariationSelector>(
                old(tape).data(),
                old(tape).at() + 10,
                u32_at(old(tape).data(), old(tape).at() + 6) as nat,
            ) is Some,
            r matches Ok(e) ==> e.is_read_from(old(tape).data(), old(tape).at()),
    {
        let header = tape.take_bytes(10)?;
        let format = crate::tape::get_u16(&header, 0);
        if format != 14 {
            return Err(Error::Unknown);
        }
        let selector_count = crate::tape::get_u32(&header, 6);
        let selectors = take_many::<VariationSelector, T>(tape, selector_count as usize)?;
        Ok(
            Encoding14 {
                format,
                size: crate::tape::get_u32(&header, 2),
                selector_count,
                selectors,
            },
        )
    }
}

/// The data at `at` holds an encoding that can be read: a known format that
/// reads as such, or any other format word.
pub open spec fn encoding_is_readable(data: Seq<u8>, at: int) -> bool {
    let format = u16_at(data, at);
    fits(data, at, 2) && if format == 0 {
        fits(data, at, 262)
    } else if format == 4 {
        format4_is_readable(data, at)
    } else if format == 6 {
        fits(data, at, 10) && fits(data, at, 10 + 2 * u16_at(data, at + 8))
    } else if format == 12 {
        fits(data, at, 16) && u16_at(data, at + 2) == 0 && parse_many::<SequentialGroup>(
            data,
            at + 16,
            u32_at(data, at + 12) as nat,
        ) is Some
    } else if format == 14 {
        fits(data, at, 10) && parse_many::<VariationSelector>(
            data,
            at + 10,
            u32_at(data, at + 6) as nat,
        ) is Some
    } else {
        true
    }
}

impl Encoding {
    /// The encoding is the one that the data holds at `at`: the format that
    /// its first word gives, or an unknown format kept as it is.
    pub open spec fn is_read_from(&self, data: Seq<u8>, at: int) -> bool {
        match self {
            Encoding::Format0(e) => e.is_read_from(data, at),
            Encoding::Format4(e) => e.is_read_from(data, at),
            Encoding::Format6(e) => e.is_read_from(data, at),
            Encoding::Format12(e) => e.is_read_from(data, at),
            Encoding::Format14(e) => e.is_read_from(data, at),
            Encoding::Unknown(format) => fits(data, at, 2) && *format == u16_at(data, at) && *format
                != 0 && *format != 4 && *format != 6 && *format != 12 && *format != 14,
        }
    }

    /// Read the encoding at the cursor, whatever its format.
    pub fn read<T: Tape>(tape: &mut T) -> (r: Result<Encoding, Error>)
        ensures
            final(tape).data() == old(tape).data(),
            r.is_ok() <==> encoding_is_readable(old(tape).data(), old(tape).at()),
            r matches Ok(e) ==> e.is_read_from(old(tape).data(), old(tape).at()),
    {
        let format = peek_u16(tape)?;
        if format == 0 {
            Ok(Encoding::Format0(Encoding0::read(tape)?))
        } else if format == 4 {
            Ok(Encoding::Format4(Encoding4::read(tape)?))
        } else if format == 6 {
            Ok(Encoding::Format6(Encoding6::read(tape)?))
        } else if format == 12 {
            Ok(Encoding::Format12(Encoding12::read(tape)?))
        } else if format == 14 {
            Ok(Encoding::Format14(Encoding14::read(tape)?))
        } else {
            Ok(Encoding::Unknown(format))
        }
    }
}

impl CharacterMapping {
    /// Read the header, the records, and the encoding that each record
    /// locates relative to the start of the mapping.
    pub fn read<T: Tape>(tape: &mut T) -> (r: Result<CharacterMapping, Error>)
        ensures
            final(tape).data() == old(tape).data(),
            r.is_ok() <==> match Header::parse(old(tape).data(), old(tape).at()) {
                Some((header, end)) => match parse_many::<Record>(
                    old(tape).data(),
                    end,
                    header.table_count as nat,
                ) {
                    Some((records, _)) => forall|i: int|
                        0 <= i < records.len() ==> #[trigger] encoding_is_readable(
                            old(tape).data(),
                            old(tape).at() + records[i].offset,
                        ),
                    None => false,
                },
                None => false,
            },
            r matches Ok(m) ==> {
                let data = old(tape).data();
                let origin = old(tape).at();
                &&& Header::parse(data, origin) == Some((m.header, origin + 4))
                &&& parse_many::<Record>(data, origin + 4, m.header.table_count as nat) matches Some(
                    (records, _),
                ) && m.records@ == records
                &&& m.encodings@.len() == m.records@.len()
                &&& forall|i: int|
                    0 <= i < m.encodings@.len() ==> #[trigger] m.encodings@[i].is_read_from(
                        data,
                        origin + m.records@[i].offset,
                    )
            },
    {
        let ghost data = tape.data();
        let _ = tape.length();
        let position = tape.position();
        let header = Header::read(tape)?;
        let records = take_many::<Record, T>(tape, header.table_count as usize)?;
        let mut encodings: Vec<Encoding> = Vec::new();
        let mut i: usize = 0;
        while i < records.len()
            invariant
                tape.data() == data,
                data == old(tape).data(),
                position == old(tape).at(),
                data.len() <= u64::MAX,
                Header::parse(data, position as int) == Some((header, position + 4)),
                parse_many::<Record>(data, position + 4, header.table_count as nat) matches Some(
                    (parsed, _),
                ) && parsed == records@,
                i <= records@.len(),
                encodings@.len() == i,
                forall|j: int|
                    0 <= j < i ==> #[trigger] encoding_is_readable(data, position + records@[j].offset),
                forall|j: int|
                    0 <= j < i ==> #[trigger] encodings@[j].is_read_from(
                        data,
                        position + records@[j].offset,
                    ),
            decreases records.len() - i,
        {
            let target = match position.checked_add(records[i].offset as u64) {
                Some(target) => target,
                None => {
                    assert(!encoding_is_readable(data, position + records@[i as int].offset));
                    return Err(Error::Truncated);
                },
            };
            if tape.jump(target).is_err() {
                assert(!encoding_is_readable(data, position + records@[i as int].offset));
                return Err(Error::Truncated);
            }
            let encoding = match Encoding::read(tape) {
                Ok(encoding) => encoding,
                Err(e) => {
                    assert(!encoding_is_readable(data, position + records@[i as int].offset));
                    return Err(e);
                },
            };
            encodings.push(encoding);
            i = i + 1;
        }
        Ok(CharacterMapping { header, records, encodings })
    }
}

} // verus!
