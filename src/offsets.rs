//! The offset table: the directory of the tables of a font.

use vstd::prelude::*;

use crate::tag::Tag;
use crate::tag::{tag_of_u32, u32_of_tag};
use crate::tape::{be32, fits, give_u16, give_u32, parse_many, take_many, Error, Tape, Value};

verus! {

/// An offset table.
#[derive(Clone, Debug)]
pub struct OffsetTable {
    pub header: Header,
    pub records: Vec<Record>,
}

/// The header of an offset table.
#[derive(Clone, Copy, Debug, PartialEq, Eq, Structural)]
pub struct Header {
    pub version: u32,
    pub table_count: u16,
    pub search_range: u16,
    pub entry_selector: u16,
    pub range_shift: u16,
}

/// A record of an offset table.
#[derive(Clone, Copy, Debug, PartialEq, Eq)]
pub struct Record {
    pub tag: Tag,
    pub checksum: u32,
    pub offset: u32,
    pub size: u32,
}

/// The tag names one of the accepted font formats: TrueType (0x00010000),
/// "OTTO", "true" or "typ1".
pub open spec fn is_accepted(tag: Tag) -> bool {
    tag.0@ == seq![0u8, 1, 0, 0] || tag.0@ == seq![0x4Fu8, 0x54, 0x54, 0x4F] || tag.0@ == seq![
        0x74u8,
        0x72,
        0x75,
        0x65,
    ] || tag.0@ == seq![0x74u8, 0x79, 0x70, 0x31]
}

/// The tag of the font header.
pub open spec fn is_head(tag: Tag) -> bool {
    tag.0@ == seq![0x68u8, 0x65, 0x61, 0x64]
}

impl Header {
    /// Check if a tag is recognized.
    pub fn accept(tag: &Tag) -> (r: bool)
        ensures
            r == is_accepted(*tag),
    {
        let b = tag.0;
        let r = (b[0] == 0 && b[1] == 1 && b[2] == 0 && b[3] == 0) || (b[0] == 0x4F && b[1] == 0x54
            && b[2] == 0x54 && b[3] == 0x4F) || (b[0] == 0x74 && b[1] == 0x72 && b[2] == 0x75 && b[3]
            == 0x65) || (b[0] == 0x74 && b[1] == 0x79 && b[2] == 0x70 && b[3] == 0x31);
        proof {
            assert(b@ =~= seq![b[0], b[1], b[2], b[3]]);
        }
        r
    }
}

impl Value for Header {
    open spec fn parse(data: Seq<u8>, at: int) -> Option<(Header, int)> {
        match Tag::parse(data, at) {
            Some((tag, _)) => if is_accepted(tag) && fits(data, at, 12) {
                Some(
                    (
                        Header {
                            version: be32(data, at) as u32,
                            table_count: <u16 as Value>::parse(data, at + 4).unwrap().0,
                            search_range: <u16 as Value>::parse(data, at + 6).unwrap().0,
                            entry_selector: <u16 as Value>::parse(data, at + 8).unwrap().0,
                            range_shift: <u16 as Value>::parse(data, at + 10).unwrap().0,
                        },
                        at + 12,
                    ),
                )
            } else {
                None
            },
            None => None,
        }
    }

    fn read<T: Tape>(tape: &mut T) -> (r: Result<Header, Error>) {
        let ghost data = tape.data();
        let ghost at = tape.at();
        let tag = Tag::read(tape)?;
        if !Header::accept(&tag) {
            return Err(Error::Unknown);
        }
        let version = u32::from(tag);
        let table_count = <u16 as Value>::read(tape)?;
        let search_range = <u16 as Value>::read(tape)?;
        let entry_selector = <u16 as Value>::read(tape)?;
        let range_shift = match <u16 as Value>::read(tape) {
            Ok(value) => value,
            Err(e) => {
                assert(!fits(data, at, 12));
                return Err(e);
            },
        };
        Ok(Header { version, table_count, search_range, entry_selector, range_shift })
    }
}

impl Value for Record {
    open spec fn parse(data: Seq<u8>, at: int) -> Option<(Record, int)> {
        if fits(data, at, 16) {
            Some(
                (
                    Record {
                        tag: Tag::parse(data, at).unwrap().0,
                        checksum: be32(data, at + 4) as u32,
                        offset: be32(data, at + 8) as u32,
                        size: be32(data, at + 12) as u32,
                    },
                    at + 16,
                ),
            )
        } else {
            None
        }
    }

    fn read<T: Tape>(tape: &mut T) -> (r: Result<Record, Error>) {
        let ghost data = tape.data();
        let ghost at = tape.at();
        let tag = Tag::read(tape)?;
        let checksum = <u32 as Value>::read(tape)?;
        let offset = <u32 as Value>::read(tape)?;
        let size = match <u32 as Value>::read(tape) {
            Ok(value) => value,
            Err(e) => {
                assert(!fits(data, at, 16));
                return Err(e);
            },
        };
        Ok(Record { tag, checksum, offset, size })
    }
}

impl OffsetTable {
    /// Read the header and then as many records as it announces.
    pub fn read<T: Tape>(tape: &mut T) -> (r: Result<OffsetTable, Error>)
        ensures
            final(tape).data() == old(tape).data(),
            match Header::parse(old(tape).data(), old(tape).at()) {
                Some((header, end)) => match parse_many::<Record>(
                    old(tape).data(),
                    end,
                    header.table_count as nat,
                ) {
                    Some((records, _)) => r matches Ok(table) && table.header == header
                        && table.records@ == records,
                    None => r.is_err(),
                },
                None => r.is_err(),
            },
    {
        let header = Header::read(tape)?;
        let records = take_many::<Record, T>(tape, header.table_count as usize)?;
        Ok(OffsetTable { header, records })
    }
}

/// A prefix of a prefix is a prefix.
pub proof fn lemma_prefix_kept(a: Seq<u8>, b: Seq<u8>, c: Seq<u8>)
    requires
        a.len() <= b.len() <= c.len(),
        b.subrange(0, a.len() as int) == a,
        c.subrange(0, b.len() as int) == b,
    ensures
        c.subrange(0, a.len() as int) == a,
{
    assert forall|k: int| 0 <= k < a.len() implies c[k] == a[k] by {
        assert(c.subrange(0, b.len() as int)[k] == b[k]);
        assert(b.subrange(0, a.len() as int)[k] == a[k]);
    }
    assert(c.subrange(0, a.len() as int) =~= a);
}

/// Appending bytes keeps a record that the data held before.
proof fn lemma_record_kept(data: Seq<u8>, more: Seq<u8>, at: int)
    requires
        Record::parse(data, at) is Some,
    ensures
        Record::parse(data + more, at) == Record::parse(data, at),
{
    assert(Tag::parse(data + more, at) == Tag::parse(data, at));
}

/// Appending bytes keeps the records that the data held before.
proof fn lemma_records_kept(data: Seq<u8>, more: Seq<u8>, at: int, count: nat)
    requires
        parse_many::<Record>(data, at, count) is Some,
    ensures
        parse_many::<Record>(data + more, at, count) == parse_many::<Record>(data, at, count),
    decreases count,
{
    if count > 0 {
        lemma_records_kept(data, more, at, (count - 1) as nat);
        let (_, end) = parse_many::<Record>(data, at, (count - 1) as nat)->0;
        lemma_record_kept(data, more, end);
    }
}

impl Record {
    /// Write the record.
    pub fn write(&self, data: &mut Vec<u8>)
        ensures
            final(data)@.subrange(0, old(data)@.len() as int) == old(data)@,
            final(data)@.len() == old(data)@.len() + 16,
            Record::parse(final(data)@, old(data)@.len() as int) == Some(
                (*self, old(data)@.len() + 16int),
            ),
    {
        broadcast use vstd::array::axiom_array_ext_equal;

        let ghost start = data@;
        data.push(self.tag.0[0]);
        data.push(self.tag.0[1]);
        data.push(self.tag.0[2]);
        data.push(self.tag.0[3]);
        let ghost with_tag = data@;
        give_u32(data, self.checksum);
        let ghost first = data@;
        give_u32(data, self.offset);
        let ghost second = data@;
        give_u32(data, self.size);
        proof {
            let at = start.len() as int;
            assert(with_tag.subrange(0, at) =~= start);
            lemma_prefix_kept(with_tag, first, second);
            lemma_prefix_kept(with_tag, second, data@);
            lemma_prefix_kept(start, with_tag, data@);
            lemma_prefix_kept(first, second, data@);
            let (tag, _) = Tag::parse(data@, at)->0;
            assert forall|k: int| 0 <= k < 4 implies data@[at + k] == self.tag.0[k] by {
                assert(data@.subrange(0, with_tag.len() as int)[at + k] == with_tag[at + k]);
            }
            assert(tag.0 =~= self.tag.0);
        }
    }
}

impl Header {
    /// Write the header; it reads back where its version names an accepted
    /// font format.
    pub fn write(&self, data: &mut Vec<u8>)
        ensures
            final(data)@.subrange(0, old(data)@.len() as int) == old(data)@,
            final(data)@.len() == old(data)@.len() + 12,
            is_accepted(tag_of_u32(self.version)) ==> Header::parse(
                final(data)@,
                old(data)@.len() as int,
            ) == Some(
                (*self, old(data)@.len() + 12int),
            ),
    {
        let ghost start = data@;
        give_u32(data, self.version);
        let ghost with_version = data@;
        give_u16(data, self.table_count);
        let ghost first = data@;
        give_u16(data, self.search_range);
        let ghost second = data@;
        give_u16(data, self.entry_selector);
        let ghost third = data@;
        give_u16(data, self.range_shift);
        proof {
            let at = start.len() as int;
            lemma_prefix_kept(first, second, third);
            lemma_prefix_kept(first, third, data@);
            lemma_prefix_kept(second, third, data@);
            lemma_prefix_kept(with_version, first, data@);
            lemma_prefix_kept(start, with_version, data@);
            let (tag, _) = Tag::parse(data@, at)->0;
            crate::tag::lemma_u32_round_trip(self.version);
            assert(u32_of_tag(tag) == self.version);
            crate::tag::lemma_tag_round_trip(tag);
        }
    }
}

impl OffsetTable {
    /// Write the header and then the records. The records read back; so does
    /// the header where its version names an accepted font format, and the
    /// table as a whole where the header announces as many records as there
    /// are.
    pub fn write(&self, data: &mut Vec<u8>)
        ensures
            final(data)@.subrange(0, old(data)@.len() as int) == old(data)@,
            final(data)@.len() == old(data)@.len() + 12 + 16 * self.records@.len(),
            is_accepted(tag_of_u32(self.header.version)) ==> Header::parse(
                final(data)@,
                old(data)@.len() as int,
            ) == Some((self.header, old(data)@.len() + 12int)),
            parse_many::<Record>(final(data)@, old(data)@.len() + 12int, self.records@.len())
                == Some((self.records@, old(data)@.len() + 12int + 16 * self.records@.len())),
            self.records@.len() == self.header.table_count ==> (parse_many::<Record>(
                final(data)@,
                old(data)@.len() + 12int,
                self.header.table_count as nat,
            ) matches Some((records, _)) && records == self.records@),
    {
        let ghost start = data@;
        self.header.write(data);
        let ghost at: int = start.len() as int + 12;
        let mut i: usize = 0;
        while i < self.records.len()
            invariant
                i <= self.records@.len(),
                at == start.len() + 12,
                data@.len() == at + 16 * i,
                data@.subrange(0, start.len() as int) == start,
                is_accepted(tag_of_u32(self.header.version)) ==> Header::parse(
                    data@,
                    start.len() as int,
                ) == Some((self.header, at)),
                parse_many::<Record>(data@, at, i as nat) == Some(
                    (self.records@.subrange(0, i as int), at + 16 * i),
                ),
            decreases self.records.len() - i,
        {
            let ghost before = data@;
            self.records[i].write(data);
            proof {
                let more = data@.subrange(before.len() as int, data@.len() as int);
                assert(data@ =~= before + more);
                lemma_records_kept(before, more, at, i as nat);
                if is_accepted(tag_of_u32(self.header.version)) {
                    assert(Header::parse(data@, start.len() as int) == Header::parse(
                        before,
                        start.len() as int,
                    )) by {
                        assert(Tag::parse(data@, start.len() as int) == Tag::parse(
                            before,
                            start.len() as int,
                        ));
                    }
                }
                assert(self.records@.subrange(0, i + 1) =~= self.records@.subrange(0, i as int).push(
                    self.records@[i as int],
                ));
                lemma_prefix_kept(start, before, data@);
            }
            i = i + 1;
        }
        assert(self.records@.subrange(0, i as int) =~= self.records@);
    }
}

/// Byte `k` of a table of `size` bytes at `offset`, with zeros after its end.
pub open spec fn padded_byte(data: Seq<u8>, offset: int, size: int, k: int) -> int {
    if k < size {
        data[offset + k] as int
    } else {
        0
    }
}

/// Word `i` of a table of `size` bytes at `offset`, padded with zeros.
pub open spec fn padded_word(data: Seq<u8>, offset: int, size: int, i: int) -> int {
    padded_byte(data, offset, size, 4 * i) * 16777216 + padded_byte(data, offset, size, 4 * i + 1)
        * 65536 + padded_byte(data, offset, size, 4 * i + 2) * 256 + padded_byte(
        data,
        offset,
        size,
        4 * i + 3,
    )
}

/// The wrapping sum of the first `count` words of a table, leaving out word
/// `skip`.
pub open spec fn word_sum(data: Seq<u8>, offset: int, size: int, skip: int, count: nat) -> int
    decreases count,
{
    if count == 0 {
        0
    } else {
        let i = count - 1;
        let word = if i == skip {
            0
        } else {
            padded_word(data, offset, size, i)
        };
        (word_sum(data, offset, size, skip, (count - 1) as nat) + word) % 4294967296
    }
}

/// The checksum of the table that a record describes: the wrapping sum of its
/// words, padded to a four-byte boundary, leaving out the checksum adjustment
/// (word 2) of the font header.
pub open spec fn table_checksum(data: Seq<u8>, record: Record) -> int {
    word_sum(
        data,
        record.offset as int,
        record.size as int,
        if is_head(record.tag) {
            2
        } else {
            4294967296
        },
        ((record.size as int + 3) / 4) as nat,
    )
}

/// The wrapping sum of the four-byte words of `bytes`, padded with zeros,
/// leaving out word `skip`.
pub fn sum_words(bytes: &Vec<u8>, skip: u64) -> (r: u32)
    ensures
        r == word_sum(bytes@, 0, bytes@.len() as int, skip as int, ((bytes@.len() + 3) / 4) as nat),
{
    let size = bytes.len();
    let count: usize = size / 4 + if size % 4 == 0 { 0 } else { 1 };
    assert(count == (size + 3) / 4);
    let mut total: u32 = 0;
    let mut i: usize = 0;
    while i < count
        invariant
            size == bytes@.len(),
            count == (size + 3) / 4,
            i <= count,
            total == word_sum(bytes@, 0, size as int, skip as int, i as nat),
        decreases count - i,
    {
        let word: u64 = padded_at(bytes, 4 * i) * 16777216 + padded_at(bytes, 4 * i + 1) * 65536
            + padded_at(bytes, 4 * i + 2) * 256 + padded_at(bytes, 4 * i + 3);
        assert(word == padded_word(bytes@, 0, size as int, i as int));
        if i as u64 != skip {
            total = ((total as u64 + word) % 4294967296) as u32;
        } else {
            total = ((total as u64) % 4294967296) as u32;
        }
        i = i + 1;
    }
    total
}

/// Byte `k` of `bytes`, or zero past their end.
fn padded_at(bytes: &Vec<u8>, k: usize) -> (r: u64)
    ensures
        r == padded_byte(bytes@, 0, bytes@.len() as int, k as int),
        r < 256,
{
    if k < bytes.len() {
        bytes[k] as u64
    } else {
        0
    }
}

impl Record {
    /// Compute the checksum of the corresponding table, leaving the cursor
    /// where it was.
    pub fn checksum<T: Tape>(&self, tape: &mut T) -> (r: Result<u32, Error>)
        ensures
            final(tape).data() == old(tape).data(),
            final(tape).at() == old(tape).at(),
            r.is_ok() <==> self.offset + self.size <= old(tape).data().len(),
            r matches Ok(sum) ==> sum == table_checksum(old(tape).data(), *self),
    {
        let position = tape.position();
        let skip: u64 = if self.tag.0[0] == 0x68 && self.tag.0[1] == 0x65 && self.tag.0[2] == 0x61
            && self.tag.0[3] == 0x64 {
            2
        } else {
            4294967296
        };
        proof {
            assert(self.tag.0@ =~= seq![self.tag.0[0], self.tag.0[1], self.tag.0[2], self.tag.0[3]]);
        }
        if tape.jump(self.offset as u64).is_err() {
            return Err(Error::Truncated);
        }
        let bytes = tape.take_bytes(self.size as usize);
        let _ = tape.jump(position);
        let bytes = bytes?;
        let sum = sum_words(&bytes, skip);
        proof {
            lemma_word_sum_shift(
                tape.data(),
                self.offset as int,
                bytes@,
                self.size as int,
                skip as int,
                ((self.size as int + 3) / 4) as nat,
            );
        }
        Ok(sum)
    }
}

impl Record {
    /// Check the stored checksum against the one computed from the table,
    /// leaving the cursor where it was.
    pub fn check<T: Tape>(&self, tape: &mut T) -> (r: Result<bool, Error>)
        ensures
            final(tape).data() == old(tape).data(),
            final(tape).at() == old(tape).at(),
            r.is_ok() <==> self.offset + self.size <= old(tape).data().len(),
            r matches Ok(matches) ==> matches == (self.checksum == table_checksum(
                old(tape).data(),
                *self,
            )),
    {
        let sum = self.checksum(tape)?;
        Ok(self.checksum == sum)
    }
}

/// Summing words of bytes taken out of the data is summing them in place.
pub proof fn lemma_word_sum_shift(
    data: Seq<u8>,
    offset: int,
    bytes: Seq<u8>,
    size: int,
    skip: int,
    count: nat,
)
    requires
        0 <= offset,
        offset + size <= data.len(),
        bytes == data.subrange(offset, offset + size),
    ensures
        word_sum(bytes, 0, size, skip, count) == word_sum(data, offset, size, skip, count),
    decreases count,
{
    if count > 0 {
        lemma_word_sum_shift(data, offset, bytes, size, skip, (count - 1) as nat);
    }
}

} // verus!
