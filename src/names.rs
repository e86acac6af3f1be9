//! The naming table: strings of a font, such as its family name, by
//! platform, encoding, language and name identifier.

use vstd::prelude::*;

use vstd::slice::slice_subrange;

use crate::language::{macintosh_tag, macintosh_tag_of, windows_tag, windows_tag_of};
use crate::macintosh::{character_of, encode_text, spec_identify, Context};
use crate::offsets::lemma_prefix_kept;
use crate::tape::{fits, give_u16, parse_many, peek_u16, take_many, u16_at, Error, Tape, Value};
use crate::unicode::{decoded_utf16, encode_units, encode_utf16, scalars, unit_bytes};

verus! {

/// A naming table.
#[derive(Clone, Debug)]
pub enum Names {
    /// Format 0.
    Format0(Names0),
    /// Format 1.
    Format1(Names1),
}

/// A naming table in format 0.
#[derive(Clone, Debug)]
pub struct Names0 {
    pub format: u16,
    pub count: u16,
    pub offset: u16,
    pub records: Vec<Record>,
    pub data: Vec<u8>,
}

/// A naming table in format 1, which adds language tags.
#[derive(Clone, Debug)]
pub struct Names1 {
    pub format: u16,
    pub count: u16,
    pub offset: u16,
    pub records: Vec<Record>,
    pub language_tag_count: u16,
    pub language_tags: Vec<LanguageTag>,
    pub data: Vec<u8>,
}

/// A record of a naming table.
#[derive(Clone, Copy, Debug, PartialEq, Eq, Structural)]
pub struct Record {
    pub platform_id: u16,
    pub encoding_id: u16,
    pub language_id: u16,
    pub name_id: u16,
    pub size: u16,
    pub offset: u16,
}

/// A language tag.
#[derive(Clone, Copy, Debug, PartialEq, Eq, Structural)]
pub struct LanguageTag {
    pub size: u16,
    pub offset: u16,
}

/// The key of a name: platform, encoding, language and name identifiers.
pub type Key = (u16, u16, u16, u16);

impl Value for Record {
    open spec fn parse(data: Seq<u8>, at: int) -> Option<(Record, int)> {
        if fits(data, at, 12) {
            Some(
                (
                    Record {
                        platform_id: u16_at(data, at),
                        encoding_id: u16_at(data, at + 2),
                        language_id: u16_at(data, at + 4),
                        name_id: u16_at(data, at + 6),
                        size: u16_at(data, at + 8),
                        offset: u16_at(data, at + 10),
                    },
                    at + 12,
                ),
            )
        } else {
            None
        }
    }

    fn read<T: Tape>(tape: &mut T) -> (r: Result<Record, Error>) {
        let b = tape.take_bytes(12)?;
        Ok(
            Record {
                platform_id: crate::tape::get_u16(&b, 0),
                encoding_id: crate::tape::get_u16(&b, 2),
                language_id: crate::tape::get_u16(&b, 4),
                name_id: crate::tape::get_u16(&b, 6),
                size: crate::tape::get_u16(&b, 8),
                offset: crate::tape::get_u16(&b, 10),
            },
        )
    }
}

impl Value for LanguageTag {
    open spec fn parse(data: Seq<u8>, at: int) -> Option<(LanguageTag, int)> {
        if fits(data, at, 4) {
            Some((LanguageTag { size: u16_at(data, at), offset: u16_at(data, at + 2) }, at + 4))
        } else {
            None
        }
    }

    fn read<T: Tape>(tape: &mut T) -> (r: Result<LanguageTag, Error>) {
        let b = tape.take_bytes(4)?;
        Ok(
            LanguageTag {
                size: crate::tape::get_u16(&b, 0),
                offset: crate::tape::get_u16(&b, 2),
            },
        )
    }
}

/// The text of an optional string.
pub open spec fn text_of(value: Option<String>) -> Option<Seq<char>> {
    match value {
        Some(text) => Some(text@),
        None => None,
    }
}

impl Record {
    /// The language tag of the record: none on the Unicode platform; the tag of
    /// a predefined language below 0x8000 on the Macintosh and Windows
    /// platforms; else entry `language_id - 0x8000` of the language tags.
    pub open spec fn spec_language_tag(&self, tags: Seq<Option<String>>) -> Option<Seq<char>> {
        if self.platform_id == 0 {
            None
        } else if self.language_id < 0x8000 {
            if self.platform_id == 1 {
                macintosh_tag_of(self.language_id)
            } else if self.platform_id == 3 {
                windows_tag_of(self.language_id)
            } else {
                None
            }
        } else if self.language_id - 0x8000 < tags.len() {
            text_of(tags[self.language_id - 0x8000])
        } else {
            None
        }
    }

    /// Return the language tag of the record, given the decoded language tags
    /// of its table.
    pub fn language_tag(&self, language_tags: &[Option<String>]) -> (r: Option<String>)
        ensures
            text_of(r) == self.spec_language_tag(language_tags@),
    {
        if self.platform_id == 0 {
            None
        } else if self.language_id < 0x8000 {
            let tag = if self.platform_id == 1 {
                macintosh_tag(self.language_id)
            } else if self.platform_id == 3 {
                windows_tag(self.language_id)
            } else {
                None
            };
            match tag {
                Some(tag) => Some(tag.to_owned()),
                None => None,
            }
        } else {
            let index = (self.language_id - 0x8000) as usize;
            if index < language_tags.len() {
                match &language_tags[index] {
                    Some(tag) => Some(tag.clone()),
                    None => None,
                }
            } else {
                None
            }
        }
    }
}

/// The scalar values of the text that a string of a platform, an encoding and
/// a language holds, if it can be decoded: UTF-16 on the Unicode platform
/// (encodings 3 and 4) and on the Windows platform (encodings 1 and 10), and
/// a code page on the Macintosh platform.
pub open spec fn decoded_text(platform_id: u16, encoding_id: u16, language_id: u16, bytes: Seq<u8>) -> Option<
    Seq<u32>,
> {
    if platform_id == 0 {
        if encoding_id == 3 || encoding_id == 4 {
            decoded_utf16(bytes)
        } else {
            None
        }
    } else if platform_id == 1 {
        match spec_identify(encoding_id, language_id) {
            Some(page) => Some(scalars(bytes.map_values(|b: u8| character_of(page, b)))),
            None => None,
        }
    } else if platform_id == 3 {
        if encoding_id == 1 || encoding_id == 10 {
            decoded_utf16(bytes)
        } else {
            None
        }
    } else {
        None
    }
}

/// The bytes that store a text for a platform, an encoding and a language,
/// if it can be encoded.
pub open spec fn encoded_text(platform_id: u16, encoding_id: u16, language_id: u16, text: Seq<char>) -> Option<
    Seq<u8>,
> {
    if platform_id == 0 {
        if encoding_id == 3 || encoding_id == 4 {
            Some(unit_bytes(encode_units(text)))
        } else {
            None
        }
    } else if platform_id == 1 {
        match spec_identify(encoding_id, language_id) {
            Some(page) => encode_text(text, page),
            None => None,
        }
    } else if platform_id == 3 {
        if encoding_id == 1 || encoding_id == 10 {
            Some(unit_bytes(encode_units(text)))
        } else {
            None
        }
    } else {
        None
    }
}

/// Decode a string of a platform, an encoding and a language.
pub fn decode(platform_id: u16, encoding_id: u16, language_id: u16, data: &[u8]) -> (r: Option<
    String,
>)
    ensures
        r is Some <==> decoded_text(platform_id, encoding_id, language_id, data@) is Some,
        r matches Some(text) ==> decoded_text(platform_id, encoding_id, language_id, data@) == Some(
            scalars(text@),
        ),
{
    if platform_id == 0 {
        crate::unicode::decode(data, encoding_id)
    } else if platform_id == 1 {
        let r = crate::macintosh::decode(data, encoding_id, language_id);
        proof {
            if r is Some {
                let text = r->0;
                let page = spec_identify(encoding_id, language_id)->0;
                assert(scalars(text@) =~= scalars(data@.map_values(|b: u8| character_of(page, b))));
            }
        }
        r
    } else if platform_id == 3 {
        crate::windows::decode(data, encoding_id)
    } else {
        None
    }
}

/// Encode a string for a platform, an encoding and a language, appending to
/// `data`.
pub fn encode(
    platform_id: u16,
    encoding_id: u16,
    language_id: u16,
    value: &str,
    data: &mut Vec<u8>,
    context: &mut Context,
) -> (r: Result<(), Error>)
    requires
        old(context).is_valid(),
    ensures
        final(context).is_valid(),
        r.is_ok() <==> encoded_text(platform_id, encoding_id, language_id, value@) is Some,
        r.is_ok() ==> final(data)@ == old(data)@ + encoded_text(
            platform_id,
            encoding_id,
            language_id,
            value@,
        )->0,
{
    if platform_id == 0 {
        crate::unicode::encode(value, encoding_id, data)
    } else if platform_id == 1 {
        crate::macintosh::encode(value, encoding_id, language_id, data, context)
    } else if platform_id == 3 {
        crate::windows::encode(value, encoding_id, data)
    } else {
        Err(Error::Unknown)
    }
}

/// The end of the string that a record locates.
pub open spec fn record_end(record: Record) -> int {
    record.offset + record.size
}

/// The end of the string that a language tag locates.
pub open spec fn tag_end(tag: LanguageTag) -> int {
    tag.offset + tag.size
}

/// Every string lies within the data.
pub open spec fn strings_fit(records: Seq<Record>, tags: Seq<LanguageTag>, size: int) -> bool {
    &&& forall|i: int| 0 <= i < records.len() ==> #[trigger] record_end(records[i]) <= size
    &&& forall|i: int| 0 <= i < tags.len() ==> #[trigger] tag_end(tags[i]) <= size
}

/// The size of the strings: the largest end of a string that a record or a
/// tag locates, or zero.
pub open spec fn is_strings_size(records: Seq<Record>, tags: Seq<LanguageTag>, size: int) -> bool {
    &&& strings_fit(records, tags, size)
    &&& size == 0 || (exists|i: int| 0 <= i < records.len() && record_end(records[i]) == size) || (
    exists|i: int| 0 <= i < tags.len() && tag_end(tags[i]) == size)
}

/// The size of the strings is unique.
proof fn lemma_strings_size_unique(records: Seq<Record>, tags: Seq<LanguageTag>, a: int, b: int)
    requires
        is_strings_size(records, tags, a),
        is_strings_size(records, tags, b),
    ensures
        a == b,
{
    assert(a <= b) by {
        if a != 0 {
            if exists|i: int| 0 <= i < records.len() && record_end(records[i]) == a {
                let i = choose|i: int| 0 <= i < records.len() && record_end(records[i]) == a;
                assert(record_end(records[i]) <= b);
            } else {
                let i = choose|i: int| 0 <= i < tags.len() && tag_end(tags[i]) == a;
                assert(tag_end(tags[i]) <= b);
            }
        }
    }
    assert(b <= a) by {
        if b != 0 {
            if exists|i: int| 0 <= i < records.len() && record_end(records[i]) == b {
                let i = choose|i: int| 0 <= i < records.len() && record_end(records[i]) == b;
                assert(record_end(records[i]) <= a);
            } else {
                let i = choose|i: int| 0 <= i < tags.len() && tag_end(tags[i]) == b;
                assert(tag_end(tags[i]) <= a);
            }
        }
    }
}

/// The data at `at` holds a naming table that can be read: format 0 or 1,
/// its records, in format 1 its language tags, and the strings of its
/// records at the string offset from the start of the table.
pub open spec fn names_are_readable(data: Seq<u8>, at: int) -> bool {
    let format = u16_at(data, at);
    let count = u16_at(data, at + 2);
    let offset = u16_at(data, at + 4);
    let end = at + 6 + 12 * count;
    &&& fits(data, at, 6)
    &&& format == 0 || format == 1
    &&& parse_many::<Record>(data, at + 6, count as nat) matches Some((records, _)) && if format
        == 0 {
        exists|size: int|
            is_strings_size(records, Seq::empty(), size) && fits(data, at + offset, size)
    } else {
        fits(data, end, 2) && (parse_many::<LanguageTag>(
            data,
            end + 2,
            u16_at(data, end) as nat,
        ) matches Some((tags, _)) && exists|size: int|
            is_strings_size(records, Seq::empty(), size) && fits(data, at + offset, size))
    }
}

/// The largest end of a string that a record or a tag locates, or zero.
fn measure(records: &Vec<Record>, tags: &Vec<LanguageTag>) -> (r: usize)
    ensures
        is_strings_size(records@, tags@, r as int),
{
    let mut size: usize = 0;
    let mut i: usize = 0;
    while i < records.len()
        invariant
            i <= records@.len(),
            size <= 131070,
            forall|j: int| 0 <= j < i ==> #[trigger] record_end(records@[j]) <= size,
            size == 0 || exists|j: int| 0 <= j < records@.len() && record_end(records@[j]) == size,
        decreases records.len() - i,
    {
        let end = records[i].offset as usize + records[i].size as usize;
        if end > size {
            size = end;
        }
        i = i + 1;
    }
    let mut k: usize = 0;
    while k < tags.len()
        invariant
            k <= tags@.len(),
            size <= 131070,
            forall|j: int| 0 <= j < records@.len() ==> #[trigger] record_end(records@[j]) <= size,
            forall|j: int| 0 <= j < k ==> #[trigger] tag_end(tags@[j]) <= size,
            size == 0 || (exists|j: int| 0 <= j < records@.len() && record_end(records@[j]) == size)
                || (exists|j: int| 0 <= j < tags@.len() && tag_end(tags@[j]) == size),
        decreases tags.len() - k,
    {
        let end = tags[k].offset as usize + tags[k].size as usize;
        if end > size {
            size = end;
        }
        k = k + 1;
    }
    size
}

impl Names {
    /// The records of the table.
    pub open spec fn spec_records(&self) -> Seq<Record> {
        match self {
            Names::Format0(table) => table.records@,
            Names::Format1(table) => table.records@,
        }
    }

    /// The language tags of the table; none in format 0.
    pub open spec fn spec_language_tags(&self) -> Seq<LanguageTag> {
        match self {
            Names::Format0(_) => Seq::empty(),
            Names::Format1(table) => table.language_tags@,
        }
    }

    /// The bytes of the strings of the table.
    pub open spec fn spec_data(&self) -> Seq<u8> {
        match self {
            Names::Format0(table) => table.data@,
            Names::Format1(table) => table.data@,
        }
    }

    /// Every record locates a string within the data.
    pub open spec fn is_valid(&self) -> bool {
        strings_fit(self.spec_records(), Seq::empty(), self.spec_data().len() as int)
    }

    /// The bytes of the string of record `i`.
    pub open spec fn string_of(&self, i: int) -> Seq<u8> {
        let record = self.spec_records()[i];
        self.spec_data().subrange(record.offset as int, record_end(record))
    }

    /// The bytes of language tag `i`.
    pub open spec fn tag_of(&self, i: int) -> Seq<u8> {
        let tag = self.spec_language_tags()[i];
        self.spec_data().subrange(tag.offset as int, tag_end(tag))
    }

    /// Return each record's key with its string decoded, in the order of the
    /// records; a string that cannot be decoded gives none.
    pub fn iter(&self) -> (r: Vec<(Key, Option<String>)>)
        requires
            self.is_valid(),
        ensures
            r@.len() == self.spec_records().len(),
            forall|i: int|
                0 <= i < r@.len() ==> {
                    let record = self.spec_records()[i];
                    let text = decoded_text(
                        record.platform_id,
                        record.encoding_id,
                        record.language_id,
                        self.string_of(i),
                    );
                    &&& (#[trigger] r@[i]).0 == (
                        record.platform_id,
                        record.encoding_id,
                        record.language_id,
                        record.name_id,
                    )
                    &&& r@[i].1 is Some <==> text is Some
                    &&& r@[i].1 matches Some(value) ==> text == Some(scalars(value@))
                },
    {
        let (records, data) = match self {
            Names::Format0(table) => (&table.records, &table.data),
            Names::Format1(table) => (&table.records, &table.data),
        };
        let mut result: Vec<(Key, Option<String>)> = Vec::new();
        let mut i: usize = 0;
        while i < records.len()
            invariant
                self.is_valid(),
                records@ == self.spec_records(),
                data@ == self.spec_data(),
                i <= records@.len(),
                result@.len() == i,
                forall|j: int|
                    0 <= j < i ==> {
                        let record = self.spec_records()[j];
                        let text = decoded_text(
                            record.platform_id,
                            record.encoding_id,
                            record.language_id,
                            self.string_of(j),
                        );
                        &&& (#[trigger] result@[j]).0 == (
                            record.platform_id,
                            record.encoding_id,
                            record.language_id,
                            record.name_id,
                        )
                        &&& result@[j].1 is Some <==> text is Some
                        &&& result@[j].1 matches Some(value) ==> text == Some(scalars(value@))
                    },
            decreases records.len() - i,
        {
            let record = records[i];
            assert(record_end(records@[i as int]) <= data@.len());
            let start = record.offset as usize;
            let end = start + record.size as usize;
            let bytes = slice_subrange(data.as_slice(), start, end);
            let value = decode(record.platform_id, record.encoding_id, record.language_id, bytes);
            result.push(
                ((record.platform_id, record.encoding_id, record.language_id, record.name_id), value),
            );
            i = i + 1;
        }
        result
    }

    /// The text of language tag `i`, if its bytes lie within the data and
    /// are valid UTF-16.
    pub open spec fn tag_text(&self, i: int) -> Option<Seq<u32>> {
        if tag_end(self.spec_language_tags()[i]) <= self.spec_data().len() {
            decoded_utf16(self.tag_of(i))
        } else {
            None
        }
    }

    /// Return each language tag decoded from UTF-16, or none for a tag that
    /// reaches past the data or does not decode; none at all in format 0.
    pub fn language_tags(&self) -> (r: Vec<Option<String>>)
        ensures
            r@.len() == self.spec_language_tags().len(),
            forall|i: int|
                0 <= i < r@.len() ==> (#[trigger] r@[i] is Some <==> self.tag_text(i) is Some),
            forall|i: int|
                0 <= i < r@.len() ==> (#[trigger] r@[i] matches Some(value) ==> self.tag_text(i)
                    == Some(scalars(value@))),
    {
        let mut result: Vec<Option<String>> = Vec::new();
        match self {
            Names::Format0(_) => {},
            Names::Format1(table) => {
                let mut i: usize = 0;
                while i < table.language_tags.len()
                    invariant
                        *self == Names::Format1(*table),
                        i <= table.language_tags@.len(),
                        result@.len() == i,
                        forall|j: int|
                            0 <= j < i ==> (#[trigger] result@[j] is Some <==> self.tag_text(j)
                                is Some),
                        forall|j: int|
                            0 <= j < i ==> (#[trigger] result@[j] matches Some(value)
                                ==> self.tag_text(j) == Some(scalars(value@))),
                    decreases table.language_tags.len() - i,
                {
                    let tag = table.language_tags[i];
                    let start = tag.offset as usize;
                    let end = start + tag.size as usize;
                    if end <= table.data.len() {
                        let bytes = slice_subrange(table.data.as_slice(), start, end);
                        result.push(crate::unicode::decode_utf16(bytes));
                    } else {
                        result.push(None);
                    }
                    i = i + 1;
                }
            },
        }
        result
    }
}


/// The string locates the bytes of `expected` in `data`.
pub open spec fn locates(data: Seq<u8>, offset: int, end: int, expected: Seq<u8>) -> bool {
    0 <= offset <= end <= data.len() && data.subrange(offset, end) == expected
}

/// Appending to data keeps what a string located before.
proof fn lemma_append_keeps(data: Seq<u8>, more: Seq<u8>, offset: int, end: int, expected: Seq<u8>)
    requires
        locates(data, offset, end, expected),
    ensures
        locates(data + more, offset, end, expected),
{
    assert((data + more).subrange(offset, end) =~= data.subrange(offset, end));
}

impl Names {
    /// Read a naming table in format 0 or 1; the strings are read from the
    /// start of the table plus its string offset, up to the end of the last
    /// string that a record locates.
    pub fn read<T: Tape>(tape: &mut T) -> (r: Result<Names, Error>)
        ensures
            final(tape).data() == old(tape).data(),
            r.is_ok() <==> names_are_readable(old(tape).data(), old(tape).at()),
            r matches Ok(table) ==> {
                let data = old(tape).data();
                let at = old(tape).at();
                let count = u16_at(data, at + 2);
                let offset = u16_at(data, at + 4);
                let end = at + 6 + 12 * count;
                &&& table.is_valid()
                &&& parse_many::<Record>(data, at + 6, count as nat) matches Some((records, end)) && table.spec_records() == records
                &&& match table {
                    Names::Format0(t) => t.format == 0 && t.count == count && t.offset == offset,
                    Names::Format1(t) => t.format == 1 && t.count == count && t.offset == offset
                        && t.language_tag_count == u16_at(data, end) && parse_many::<LanguageTag>(
                        data,
                        end + 2,
                        t.language_tag_count as nat,
                    ) == Some((t.language_tags@, end + 2 + 4 * t.language_tag_count)),
                }
                &&& table.spec_data() == data.subrange(
                    at + offset,
                    at + offset + table.spec_data().len(),
                )
            },
    {
        let ghost data = tape.data();
        let _ = tape.length();
        let origin = tape.position();
        let format = peek_u16(tape)?;
        if format != 0 && format != 1 {
            return Err(Error::Unknown);
        }
        let head = match tape.take_bytes(6) {
            Ok(head) => head,
            Err(e) => return Err(e),
        };
        let count = crate::tape::get_u16(&head, 2);
        let offset = crate::tape::get_u16(&head, 4);
        let records = take_many::<Record, T>(tape, count as usize)?;
        proof {
            lemma_records_end(tape.data(), origin + 6, count as nat);
        }
        if format == 0 {
            let empty: Vec<LanguageTag> = Vec::new();
            let size = measure(&records, &empty);
            assert(empty@ =~= Seq::<LanguageTag>::empty());
            let start = match origin.checked_add(offset as u64) {
                Some(start) => start,
                None => {
                    proof {
                        lemma_not_readable(data, origin as int, records@, empty@, size as int);
                    }
                    return Err(Error::Truncated);
                },
            };
            let strings = match tape.jump(start) {
                Ok(_) => tape.take_bytes(size),
                Err(e) => Err(e),
            };
            let strings = match strings {
                Ok(strings) => strings,
                Err(e) => {
                    proof {
                        lemma_not_readable(data, origin as int, records@, empty@, size as int);
                    }
                    return Err(e);
                },
            };
            Ok(Names::Format0(Names0 { format, count, offset, records, data: strings }))
        } else {
            let ghost end = tape.at();
            let language_tag_count = <u16 as Value>::read(tape)?;
            let language_tags = take_many::<LanguageTag, T>(tape, language_tag_count as usize)?;
            proof {
                lemma_tags_end(tape.data(), end + 2, language_tag_count as nat);
            }
            let empty: Vec<LanguageTag> = Vec::new();
            let size = measure(&records, &empty);
            assert(empty@ =~= Seq::<LanguageTag>::empty());
            let start = match origin.checked_add(offset as u64) {
                Some(start) => start,
                None => {
                    proof {
                        lemma_not_readable(data, origin as int, records@, empty@, size as int);
                    }
                    return Err(Error::Truncated);
                },
            };
            let strings = match tape.jump(start) {
                Ok(_) => tape.take_bytes(size),
                Err(e) => Err(e),
            };
            let strings = match strings {
                Ok(strings) => strings,
                Err(e) => {
                    proof {
                        lemma_not_readable(data, origin as int, records@, empty@, size as int);
                    }
                    return Err(e);
                },
            };
            Ok(
                Names::Format1(
                    Names1 {
                        format,
                        count,
                        offset,
                        records,
                        language_tag_count,
                        language_tags,
                        data: strings,
                    },
                ),
            )
        }
    }

    /// Create a table from keys with their strings and from language tags,
    /// encoding each string for its platform, encoding and language. The
    /// strings of the records and then the language tags lie back to back from
    /// the start of the data. The table is in format 1 where there are language
    /// tags, else in format 0, and its string offset is the size of what
    /// precedes the strings. It is made when every string can be encoded and
    /// the data and the string offset fit in sixteen bits.
    pub fn from_iter(
        records: &Vec<(Key, String)>,
        language_tags: &Vec<String>,
        context: &mut Context,
    ) -> (r: Result<Names, Error>)
        requires
            old(context).is_valid(),
        ensures
            final(context).is_valid(),
            r.is_ok() <==> from_iter_succeeds(records@, language_tags@),
            r matches Ok(table) ==> {
                let n = records@.len();
                let m = language_tags@.len();
                let strings = records_bytes(records@, n)->0;
                &&& table.is_valid()
                &&& (table is Format0 <==> m == 0)
                &&& match table {
                    Names::Format0(t) => t.format == 0 && t.count == n && t.offset == 6 + 12 * n,
                    Names::Format1(t) => t.format == 1 && t.count == n && t.offset == 8 + 12 * n
                        + 4 * m && t.language_tag_count == m,
                }
                &&& table.spec_offset() == table.header_size()
                &&& table.spec_data() == strings + tags_bytes(language_tags@, m)
                &&& table.spec_records().len() == n
                &&& table.spec_language_tags().len() == m
                &&& forall|i: int|
                    0 <= i < n ==> {
                        let record = #[trigger] table.spec_records()[i];
                        let (key, value) = records@[i];
                        &&& (record.platform_id, record.encoding_id, record.language_id, record.name_id)
                            == key
                        &&& record.offset == records_bytes(records@, i as nat)->0.len()
                        &&& encoded_text(key.0, key.1, key.2, value@) == Some(table.string_of(i))
                    }
                &&& forall|i: int|
                    0 <= i < m ==> {
                        let tag = #[trigger] table.spec_language_tags()[i];
                        &&& tag.offset == strings.len() + tags_bytes(language_tags@, i as nat).len()
                        &&& table.tag_of(i) == unit_bytes(encode_units(language_tags@[i]@))
                    }
            },
    {
        let mut data: Vec<u8> = Vec::new();
        let mut out: Vec<Record> = Vec::new();
        let mut i: usize = 0;
        assert(data@ =~= Seq::<u8>::empty());
        while i < records.len()
            invariant
                context.is_valid(),
                i <= records@.len(),
                out@.len() == i,
                data@.len() <= 65535,
                records_bytes(records@, i as nat) == Some(data@),
                forall|j: int|
                    0 <= j < i ==> {
                        let record = #[trigger] out@[j];
                        let (key, value) = records@[j];
                        &&& (record.platform_id, record.encoding_id, record.language_id, record.name_id)
                            == key
                        &&& record.offset == records_bytes(records@, j as nat)->0.len()
                        &&& encoded_text(key.0, key.1, key.2, value@) matches Some(bytes)
                            && locates(data@, record.offset as int, record_end(record), bytes)
                    },
            decreases records.len() - i,
        {
            let (key, value) = (records[i].0, &records[i].1);
            let offset = data.len();
            let ghost before = data@;
            if let Err(error) = encode(key.0, key.1, key.2, value.as_str(), &mut data, context) {
                proof {
                    lemma_records_bytes_stops(records@, (i + 1) as nat, records@.len());
                }
                return Err(error);
            }
            if data.len() > 65535 {
                proof {
                    lemma_records_bytes_grow(records@, (i + 1) as nat, records@.len());
                }
                return Err(Error::Malformed);
            }
            let record = Record {
                platform_id: key.0,
                encoding_id: key.1,
                language_id: key.2,
                name_id: key.3,
                size: (data.len() - offset) as u16,
                offset: offset as u16,
            };
            proof {
                let more = encoded_text(key.0, key.1, key.2, value@)->0;
                assert forall|j: int| 0 <= j < i implies {
                    let record = #[trigger] out@[j];
                    let (key, value) = records@[j];
                    encoded_text(key.0, key.1, key.2, value@) matches Some(bytes) && locates(
                        data@,
                        record.offset as int,
                        record_end(record),
                        bytes,
                    )
                } by {
                    let record = out@[j];
                    let (key, value) = records@[j];
                    lemma_append_keeps(
                        before,
                        more,
                        record.offset as int,
                        record_end(record),
                        encoded_text(key.0, key.1, key.2, value@)->0,
                    );
                }
                assert(data@.subrange(offset as int, data@.len() as int) =~= more);
            }
            out.push(record);
            i = i + 1;
        }
        let ghost strings = data@;
        let mut tags: Vec<LanguageTag> = Vec::new();
        let mut k: usize = 0;
        assert(strings + tags_bytes(language_tags@, 0) =~= data@);
        while k < language_tags.len()
            invariant
                context.is_valid(),
                k <= language_tags@.len(),
                tags@.len() == k,
                data@.len() <= 65535,
                out@.len() == records@.len(),
                records_bytes(records@, records@.len()) == Some(strings),
                data@ == strings + tags_bytes(language_tags@, k as nat),
                forall|j: int|
                    0 <= j < records@.len() ==> {
                        let record = #[trigger] out@[j];
                        let (key, value) = records@[j];
                        &&& (record.platform_id, record.encoding_id, record.language_id, record.name_id)
                            == key
                        &&& record.offset == records_bytes(records@, j as nat)->0.len()
                        &&& encoded_text(key.0, key.1, key.2, value@) matches Some(bytes)
                            && locates(data@, record.offset as int, record_end(record), bytes)
                    },
                forall|j: int|
                    0 <= j < k ==> {
                        let tag = #[trigger] tags@[j];
                        &&& tag.offset == strings.len() + tags_bytes(language_tags@, j as nat).len()
                        &&& locates(
                            data@,
                            tag.offset as int,
                            tag_end(tag),
                            unit_bytes(encode_units(language_tags@[j]@)),
                        )
                    },
            decreases language_tags.len() - k,
        {
            let offset = data.len();
            let ghost before = data@;
            encode_utf16(language_tags[k].as_str(), &mut data);
            proof {
                let more = unit_bytes(encode_units(language_tags@[k as int]@));
                assert(data@ == before + more);
                assert(data@ =~= strings + tags_bytes(language_tags@, (k + 1) as nat));
            }
            if data.len() > 65535 {
                proof {
                    lemma_tags_bytes_grow(language_tags@, (k + 1) as nat, language_tags@.len());
                }
                return Err(Error::Malformed);
            }
            let tag = LanguageTag { size: (data.len() - offset) as u16, offset: offset as u16 };
            proof {
                let more = unit_bytes(encode_units(language_tags@[k as int]@));
                assert forall|j: int| 0 <= j < records@.len() implies {
                    let record = #[trigger] out@[j];
                    let (key, value) = records@[j];
                    encoded_text(key.0, key.1, key.2, value@) matches Some(bytes) && locates(
                        data@,
                        record.offset as int,
                        record_end(record),
                        bytes,
                    )
                } by {
                    let record = out@[j];
                    let (key, value) = records@[j];
                    lemma_append_keeps(
                        before,
                        more,
                        record.offset as int,
                        record_end(record),
                        encoded_text(key.0, key.1, key.2, value@)->0,
                    );
                }
                assert forall|j: int| 0 <= j < k implies locates(
                    data@,
                    (#[trigger] tags@[j]).offset as int,
                    tag_end(tags@[j]),
                    unit_bytes(encode_units(language_tags@[j]@)),
                ) by {
                    lemma_append_keeps(
                        before,
                        more,
                        tags@[j].offset as int,
                        tag_end(tags@[j]),
                        unit_bytes(encode_units(language_tags@[j]@)),
                    );
                }
                assert(data@.subrange(offset as int, data@.len() as int) =~= more);
            }
            tags.push(tag);
            k = k + 1;
        }
        let n = out.len();
        let m = tags.len();
        if n > 65535 || m > 65535 {
            return Err(Error::Malformed);
        }
        let header: usize = if m == 0 {
            6 + 12 * n
        } else {
            8 + 12 * n + 4 * m
        };
        if header > 65535 {
            return Err(Error::Malformed);
        }
        let table = if m == 0 {
            Names::Format0(
                Names0 { format: 0, count: n as u16, offset: header as u16, records: out, data },
            )
        } else {
            Names::Format1(
                Names1 {
                    format: 1,
                    count: n as u16,
                    offset: header as u16,
                    records: out,
                    language_tag_count: m as u16,
                    language_tags: tags,
                    data,
                },
            )
        };
        Ok(table)
    }
}

/// The bytes of the strings of the first `count` records, back to back, if
/// each of them can be encoded.
pub open spec fn records_bytes(records: Seq<(Key, String)>, count: nat) -> Option<Seq<u8>>
    decreases count,
{
    if count == 0 || count > records.len() {
        if count == 0 {
            Some(Seq::empty())
        } else {
            None
        }
    } else {
        let (key, value) = records[count - 1];
        match (records_bytes(records, (count - 1) as nat), encoded_text(
            key.0,
            key.1,
            key.2,
            value@,
        )) {
            (Some(bytes), Some(more)) => Some(bytes + more),
            _ => None,
        }
    }
}

/// The UTF-16 bytes of the first `count` language tags, back to back.
pub open spec fn tags_bytes(tags: Seq<String>, count: nat) -> Seq<u8>
    decreases count,
{
    if count == 0 || count > tags.len() {
        Seq::empty()
    } else {
        tags_bytes(tags, (count - 1) as nat) + unit_bytes(encode_units(tags[count - 1]@))
    }
}

/// A table can be made from the records and the language tags: every string
/// can be encoded, all of them fit in 65535 bytes, and so does the size of
/// what precedes them.
pub open spec fn from_iter_succeeds(records: Seq<(Key, String)>, tags: Seq<String>) -> bool {
    let n = records.len();
    let m = tags.len();
    &&& records_bytes(records, n) matches Some(strings) && strings.len() + tags_bytes(tags, m).len()
        <= 65535
    &&& if m == 0 {
        6 + 12 * n <= 65535
    } else {
        8 + 12 * n + 4 * m <= 65535
    }
}

/// Once the strings of `count` records cannot be encoded, those of more
/// records cannot either.
proof fn lemma_records_bytes_stops(records: Seq<(Key, String)>, count: nat, more: nat)
    requires
        count <= more <= records.len(),
        records_bytes(records, count) is None,
    ensures
        records_bytes(records, more) is None,
    decreases more - count,
{
    if count < more {
        lemma_records_bytes_stops(records, count, (more - 1) as nat);
    }
}

/// The strings of more records take at least as many bytes.
proof fn lemma_records_bytes_grow(records: Seq<(Key, String)>, count: nat, more: nat)
    requires
        count <= more <= records.len(),
        records_bytes(records, count) is Some,
    ensures
        records_bytes(records, more) matches Some(bytes) ==> records_bytes(records, count)->0.len()
            <= bytes.len(),
    decreases more - count,
{
    if count < more {
        lemma_records_bytes_grow(records, count, (more - 1) as nat);
        if records_bytes(records, (more - 1) as nat) is None {
            lemma_records_bytes_stops(records, (more - 1) as nat, more);
        }
    }
}

/// The bytes of more language tags are at least as many.
proof fn lemma_tags_bytes_grow(tags: Seq<String>, count: nat, more: nat)
    requires
        count <= more <= tags.len(),
    ensures
        tags_bytes(tags, count).len() <= tags_bytes(tags, more).len(),
    decreases more - count,
{
    if count < more {
        lemma_tags_bytes_grow(tags, count, (more - 1) as nat);
    }
}

/// Decoding the bytes that encode a string for a platform, an encoding and a
/// language gives the string back.
pub proof fn lemma_name_round_trip(platform_id: u16, encoding_id: u16, language_id: u16, text: Seq<char>)
    requires
        encoded_text(platform_id, encoding_id, language_id, text) is Some,
    ensures
        decoded_text(
            platform_id,
            encoding_id,
            language_id,
            encoded_text(platform_id, encoding_id, language_id, text)->0,
        ) == Some(scalars(text)),
{
    if platform_id == 1 {
        let page = spec_identify(encoding_id, language_id)->0;
        crate::macintosh::lemma_macintosh_round_trip(text, page);
        let bytes = encode_text(text, page)->0;
        assert(scalars(bytes.map_values(|b: u8| character_of(page, b))) =~= bytes.map_values(
            |b: u8| character_of(page, b) as u32,
        ));
    } else {
        crate::unicode::lemma_utf16_bytes_round_trip(text);
    }
}

/// Strings of one size that do not fit leave no size that fits.
proof fn lemma_not_readable(
    data: Seq<u8>,
    at: int,
    records: Seq<Record>,
    tags: Seq<LanguageTag>,
    size: int,
)
    requires
        is_strings_size(records, tags, size),
        !fits(data, at + u16_at(data, at + 4), size),
    ensures
        !exists|other: int| is_strings_size(records, tags, other) && fits(data, at + u16_at(data, at + 4), other),
{
    if exists|other: int| is_strings_size(records, tags, other) && fits(data, at + u16_at(data, at + 4), other) {
        let other = choose|other: int| is_strings_size(records, tags, other) && fits(data, at + u16_at(data, at + 4), other);
        lemma_strings_size_unique(records, tags, size, other);
    }
}

impl Record {
    /// Write the record.
    pub fn write(&self, data: &mut Vec<u8>)
        ensures
            final(data)@.subrange(0, old(data)@.len() as int) == old(data)@,
            final(data)@.len() == old(data)@.len() + 12,
            Record::parse(final(data)@, old(data)@.len() as int) == Some(
                (*self, old(data)@.len() + 12int),
            ),
    {
        let ghost start = data@;
        give_u16(data, self.platform_id);
        let ghost d1 = data@;
        give_u16(data, self.encoding_id);
        let ghost d2 = data@;
        give_u16(data, self.language_id);
        let ghost d3 = data@;
        give_u16(data, self.name_id);
        let ghost d4 = data@;
        give_u16(data, self.size);
        let ghost d5 = data@;
        give_u16(data, self.offset);
        proof {
            lemma_prefix_kept(d4, d5, data@);
            lemma_prefix_kept(d3, d4, data@);
            lemma_prefix_kept(d2, d3, data@);
            lemma_prefix_kept(d1, d2, data@);
            lemma_prefix_kept(start, d1, data@);
        }
    }
}

impl LanguageTag {
    /// Write the language tag.
    pub fn write(&self, data: &mut Vec<u8>)
        ensures
            final(data)@.subrange(0, old(data)@.len() as int) == old(data)@,
            final(data)@.len() == old(data)@.len() + 4,
            LanguageTag::parse(final(data)@, old(data)@.len() as int) == Some(
                (*self, old(data)@.len() + 4int),
            ),
    {
        let ghost start = data@;
        give_u16(data, self.size);
        let ghost d1 = data@;
        give_u16(data, self.offset);
        proof {
            lemma_prefix_kept(start, d1, data@);
        }
    }
}

/// Appending bytes keeps the records that the data held before.
proof fn lemma_records_kept(data: Seq<u8>, more: Seq<u8>, at: int, count: nat)
    requires
        parse_many::<Record>(data, at, count) is Some,
    ensures
        parse_many::<Record>(data + more, at, count) == parse_many::<Record>(data, at, count),
    decreases count,
{
    if count > 0 {
        lemma_records_kept(data, more, at, (count - 1) as nat);
    }
}

/// Appending bytes keeps the language tags that the data held before.
proof fn lemma_tags_kept(data: Seq<u8>, more: Seq<u8>, at: int, count: nat)
    requires
        parse_many::<LanguageTag>(data, at, count) is Some,
    ensures
        parse_many::<LanguageTag>(data + more, at, count) == parse_many::<LanguageTag>(
            data,
            at,
            count,
        ),
    decreases count,
{
    if count > 0 {
        lemma_tags_kept(data, more, at, (count - 1) as nat);
    }
}

impl Names {
    /// Write the table: the header, the records, in format 1 the language
    /// tags, and then the strings.
    pub fn write(&self, data: &mut Vec<u8>)
        ensures
            final(data)@.subrange(0, old(data)@.len() as int) == old(data)@,
            final(data)@.len() == old(data)@.len() + self.header_size() + self.spec_data().len(),
            ({
                let at = old(data)@.len() as int;
                let end = at + 6 + 12 * self.spec_records().len();
                let out = final(data)@;
                &&& parse_many::<Record>(out, at + 6, self.spec_records().len()) == Some(
                    (self.spec_records(), end),
                )
                &&& match self {
                    Names::Format0(t) => u16_at(out, at) == t.format && u16_at(out, at + 2)
                        == t.count && u16_at(out, at + 4) == t.offset && out.subrange(
                        end,
                        out.len() as int,
                    ) == t.data@,
                    Names::Format1(t) => u16_at(out, at) == t.format && u16_at(out, at + 2)
                        == t.count && u16_at(out, at + 4) == t.offset && u16_at(out, end)
                        == t.language_tag_count && parse_many::<LanguageTag>(
                        out,
                        end + 2,
                        t.language_tags@.len(),
                    ) == Some((t.language_tags@, end + 2 + 4 * t.language_tags@.len()))
                        && out.subrange(end + 2 + 4 * t.language_tags@.len(), out.len() as int)
                        == t.data@,
                }
            }),
    {
        let ghost start = data@;
        let ghost at = start.len() as int;
        let (format, count, offset, records, strings) = match self {
            Names::Format0(t) => (t.format, t.count, t.offset, &t.records, &t.data),
            Names::Format1(t) => (t.format, t.count, t.offset, &t.records, &t.data),
        };
        give_u16(data, format);
        let ghost d1 = data@;
        give_u16(data, count);
        let ghost d2 = data@;
        give_u16(data, offset);
        let ghost d3 = data@;
        proof {
            lemma_prefix_kept(d1, d2, d3);
            lemma_prefix_kept(start, d1, d3);
            assert(u16_at(d3, at) == format) by {
                assert(d3.subrange(0, d1.len() as int)[at] == d1[at]);
                assert(d3.subrange(0, d1.len() as int)[at + 1] == d1[at + 1]);
            }
            assert(u16_at(d3, at + 2) == count) by {
                assert(d3.subrange(0, d2.len() as int)[at + 2] == d2[at + 2]);
                assert(d3.subrange(0, d2.len() as int)[at + 3] == d2[at + 3]);
            }
        }
        let mut i: usize = 0;
        while i < records.len()
            invariant
                records@ == self.spec_records(),
                i <= records@.len(),
                data@.len() == at + 6 + 12 * i,
                data@.subrange(0, d3.len() as int) == d3,
                d3.len() == at + 6,
                parse_many::<Record>(data@, at + 6, i as nat) == Some(
                    (records@.subrange(0, i as int), at + 6 + 12 * i),
                ),
            decreases records.len() - i,
        {
            let ghost before = data@;
            records[i].write(data);
            proof {
                let more = data@.subrange(before.len() as int, data@.len() as int);
                assert(data@ =~= before + more);
                lemma_records_kept(before, more, at + 6, i as nat);
                assert(records@.subrange(0, i + 1) =~= records@.subrange(0, i as int).push(
                    records@[i as int],
                ));
                lemma_prefix_kept(d3, before, data@);
            }
            i = i + 1;
        }
        assert(records@.subrange(0, i as int) =~= records@);
        let ghost after_records = data@;
        let ghost end = at + 6 + 12 * records@.len();
        match self {
            Names::Format0(_) => {},
            Names::Format1(t) => {
                give_u16(data, t.language_tag_count);
                let ghost d4 = data@;
                proof {
                    let more = data@.subrange(after_records.len() as int, data@.len() as int);
                    assert(data@ =~= after_records + more);
                    lemma_records_kept(after_records, more, at + 6, records@.len());
                    lemma_prefix_kept(d3, after_records, data@);
                }
                let mut k: usize = 0;
                while k < t.language_tags.len()
                    invariant
                        *self == Names::Format1(*t),
                        records@ == t.records@,
                        parse_many::<Record>(data@, at + 6, records@.len()) == Some((records@, end)),
                        k <= t.language_tags@.len(),
                        data@.len() == end + 2 + 4 * k,
                        data@.subrange(0, d4.len() as int) == d4,
                        d4.len() == end + 2,
                        parse_many::<LanguageTag>(data@, end + 2, k as nat) == Some(
                            (t.language_tags@.subrange(0, k as int), end + 2 + 4 * k),
                        ),
                    decreases t.language_tags.len() - k,
                {
                    let ghost before = data@;
                    t.language_tags[k].write(data);
                    proof {
                        let more = data@.subrange(before.len() as int, data@.len() as int);
                        assert(data@ =~= before + more);
                        lemma_tags_kept(before, more, end + 2, k as nat);
                        lemma_records_kept(before, more, at + 6, records@.len());
                        assert(t.language_tags@.subrange(0, k + 1) =~= t.language_tags@.subrange(
                            0,
                            k as int,
                        ).push(t.language_tags@[k as int]));
                        lemma_prefix_kept(d4, before, data@);
                    }
                    k = k + 1;
                }
                assert(t.language_tags@.subrange(0, k as int) =~= t.language_tags@);
                proof {
                    lemma_prefix_kept(d3, d4, data@);
                    assert(u16_at(data@, end) == t.language_tag_count) by {
                        assert(data@.subrange(0, d4.len() as int)[end] == d4[end]);
                        assert(data@.subrange(0, d4.len() as int)[end + 1] == d4[end + 1]);
                    }
                }
            },
        }
        let ghost before_strings = data@;
        let mut j: usize = 0;
        while j < strings.len()
            invariant
                j <= strings@.len(),
                data@.len() == before_strings.len() + j,
                data@.subrange(0, before_strings.len() as int) == before_strings,
                data@.subrange(before_strings.len() as int, data@.len() as int) == strings@.subrange(
                    0,
                    j as int,
                ),
            decreases strings.len() - j,
        {
            data.push(strings[j]);
            j = j + 1;
            assert(data@.subrange(0, before_strings.len() as int) =~= before_strings);
            assert(data@.subrange(before_strings.len() as int, data@.len() as int) =~= strings@.subrange(
                0,
                j as int,
            ));
        }
        assert(strings@.subrange(0, j as int) =~= strings@);
        proof {
            let out = data@;
            assert(out =~= before_strings + strings@);
            lemma_records_kept(before_strings, strings@, at + 6, records@.len());
            lemma_prefix_kept(d3, before_strings, out);
            assert forall|k: int| at <= k < at + 6 implies out[k] == d3[k] by {
                assert(out.subrange(0, d3.len() as int)[k] == d3[k]);
            }
            assert(u16_at(d3, at + 4) == offset);
            match self {
                Names::Format0(_) => {},
                Names::Format1(t) => {
                    lemma_tags_kept(before_strings, strings@, end + 2, t.language_tags@.len());
                    assert(out[end] == before_strings[end]);
                    assert(out[end + 1] == before_strings[end + 1]);
                },
            }
        }
    }
}

impl Names {
    /// The string offset of the table.
    pub open spec fn spec_offset(&self) -> u16 {
        match self {
            Names::Format0(t) => t.offset,
            Names::Format1(t) => t.offset,
        }
    }

    /// The size of the header, the records and the language tags: where the
    /// strings start when they follow at once.
    pub open spec fn header_size(&self) -> int {
        match self {
            Names::Format0(t) => 6 + 12 * t.records@.len() as int,
            Names::Format1(t) => 8 + 12 * t.records@.len() as int + 4 * t.language_tags@.len() as int,
        }
    }
}

/// A naming table that `write` put at `at` of `out`, whose string offset is
/// the size of what precedes the strings and whose data ends where the string
/// of its last record ends, reads back: with its records, its language tags
/// and its strings, as `write` states them.
pub proof fn lemma_written_names_read_back(table: Names, out: Seq<u8>, at: int)
    requires
        0 <= at,
        out.len() == at + table.header_size() + table.spec_data().len(),
        table.spec_offset() == table.header_size(),
        is_strings_size(table.spec_records(), Seq::empty(), table.spec_data().len() as int),
        ({
            let end = at + 6 + 12 * table.spec_records().len();
            &&& parse_many::<Record>(out, at + 6, table.spec_records().len()) == Some(
                (table.spec_records(), end),
            )
            &&& match table {
                Names::Format0(t) => u16_at(out, at) == t.format && t.format == 0 && u16_at(
                    out,
                    at + 2,
                ) == t.count && t.count == t.records@.len() && u16_at(out, at + 4) == t.offset
                    && out.subrange(end, out.len() as int) == t.data@,
                Names::Format1(t) => u16_at(out, at) == t.format && t.format == 1 && u16_at(
                    out,
                    at + 2,
                ) == t.count && t.count == t.records@.len() && u16_at(out, at + 4) == t.offset
                    && u16_at(out, end) == t.language_tag_count && t.language_tag_count
                    == t.language_tags@.len() && parse_many::<LanguageTag>(
                    out,
                    end + 2,
                    t.language_tags@.len(),
                ) == Some((t.language_tags@, end + 2 + 4 * t.language_tags@.len()))
                    && out.subrange(end + 2 + 4 * t.language_tags@.len(), out.len() as int)
                    == t.data@,
            }
        }),
    ensures
        names_are_readable(out, at),
{
    let size = table.spec_data().len() as int;
    let end = at + 6 + 12 * table.spec_records().len();
    lemma_records_end(out, at + 6, table.spec_records().len());
    match table {
        Names::Format0(t) => {
            assert(fits(out, at + t.offset, size));
            assert(Names::Format0(t).spec_language_tags() =~= Seq::<LanguageTag>::empty());
        },
        Names::Format1(t) => {
            lemma_tags_end(out, end + 2, t.language_tags@.len());
            assert(fits(out, at + t.offset, size));
        },
    }
}

/// Records read one after another end twelve bytes apiece later.
proof fn lemma_records_end(data: Seq<u8>, at: int, count: nat)
    ensures
        parse_many::<Record>(data, at, count) matches Some((records, end)) ==> end == at + 12
            * count && records.len() == count,
    decreases count,
{
    if count > 0 {
        lemma_records_end(data, at, (count - 1) as nat);
    }
}

/// Language tags read one after another end four bytes apiece later.
proof fn lemma_tags_end(data: Seq<u8>, at: int, count: nat)
    ensures
        parse_many::<LanguageTag>(data, at, count) matches Some((tags, end)) ==> end == at + 4
            * count && tags.len() == count,
    decreases count,
{
    if count > 0 {
        lemma_tags_end(data, at, (count - 1) as nat);
    }
}

} // verus!
