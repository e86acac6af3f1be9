//! A seekable source of bytes and the big-endian decoding of primitive values.

use vstd::prelude::*;

verus! {

/// The single kind of failure that decoding reports, with its cause.
#[derive(Clone, Copy, Debug, PartialEq, Eq, Structural)]
pub enum Error {
    /// A read or a jump went past the end of the data.
    Truncated,
    /// A version, a format or a constant field held a value that is not recognized.
    Unknown,
    /// The data contradicts itself: a reserved bit is set, a count or an order is wrong.
    Malformed,
    /// A character has no code in the chosen Macintosh code page.
    UnknownCharacter,
}

impl Error {
    /// A description of the failure.
    pub fn message(&self) -> (r: &'static str) {
        match self {
            Error::Truncated => "failed to read as much as needed",
            Error::Unknown => "found a malformed or unknown value",
            Error::Malformed => "found a malformed table",
            Error::UnknownCharacter => "found an unknown Macintosh character",
        }
    }
}

/// The value of two bytes read as a big-endian unsigned integer.
pub open spec fn be16(data: Seq<u8>, at: int) -> int {
    data[at] as int * 256 + data[at + 1] as int
}

/// The value of four bytes read as a big-endian unsigned integer.
pub open spec fn be32(data: Seq<u8>, at: int) -> int {
    be16(data, at) * 65536 + be16(data, at + 2)
}

/// The value of eight bytes read as a big-endian unsigned integer.
pub open spec fn be64(data: Seq<u8>, at: int) -> int {
    be32(data, at) * 4294967296 + be32(data, at + 4)
}

/// The big-endian `u16` at `at`.
pub open spec fn u16_at(data: Seq<u8>, at: int) -> u16 {
    be16(data, at) as u16
}

/// The big-endian `i16` at `at`.
pub open spec fn i16_at(data: Seq<u8>, at: int) -> i16 {
    signed(be16(data, at), 16) as i16
}

/// The big-endian `u32` at `at`.
pub open spec fn u32_at(data: Seq<u8>, at: int) -> u32 {
    be32(data, at) as u32
}

/// The big-endian `i32` at `at`.
pub open spec fn i32_at(data: Seq<u8>, at: int) -> i32 {
    signed(be32(data, at), 32) as i32
}

/// The big-endian `i64` at `at`.
pub open spec fn i64_at(data: Seq<u8>, at: int) -> i64 {
    signed(be64(data, at), 64) as i64
}

/// An unsigned value of `bits` bits seen as a two's-complement signed one.
pub open spec fn signed(value: int, bits: nat) -> int {
    if value >= pow2(bits) / 2 { value - pow2(bits) } else { value }
}

/// Two to the power `n`.
pub open spec fn pow2(n: nat) -> int
    decreases n,
{
    if n == 0 { 1 } else { 2 * pow2((n - 1) as nat) }
}

/// A seekable source of bytes.
///
/// Its model is the whole of its data and the position of its cursor, which
/// stays within the data.
pub trait Tape: Sized {
    /// The bytes of the source.
    spec fn data(&self) -> Seq<u8>;

    /// The position of the cursor.
    spec fn at(&self) -> int;

    /// Return the position of the cursor.
    fn position(&self) -> (r: u64)
        ensures
            r == self.at(),
            0 <= self.at() <= self.data().len(),
            self.data().len() <= usize::MAX,
    ;

    /// Return the number of bytes of the source.
    fn length(&self) -> (r: u64)
        ensures
            r == self.data().len(),
            self.data().len() <= usize::MAX,
    ;

    /// Move the cursor to a position within the data.
    fn jump(&mut self, position: u64) -> (r: Result<(), Error>)
        ensures
            0 <= old(self).at() <= old(self).data().len(),
            0 <= final(self).at() <= final(self).data().len(),
            final(self).data() == old(self).data(),
            r.is_ok() <==> position <= old(self).data().len(),
            r.is_ok() ==> final(self).at() == position,
            r.is_err() ==> r == Err::<(), Error>(Error::Truncated) && final(self).at() == old(
                self,
            ).at(),
    ;

    /// Read exactly `count` bytes.
    fn take_bytes(&mut self, count: usize) -> (r: Result<Vec<u8>, Error>)
        ensures
            0 <= old(self).at() <= old(self).data().len(),
            0 <= final(self).at() <= final(self).data().len(),
            final(self).data() == old(self).data(),
            r.is_ok() <==> old(self).at() + count <= old(self).data().len(),
            r matches Ok(bytes) ==> bytes@ == old(self).data().subrange(
                old(self).at(),
                old(self).at() + count,
            ) && final(self).at() == old(self).at() + count,
            r.is_err() ==> r == Err::<Vec<u8>, Error>(Error::Truncated) && final(self).at() == old(
                self,
            ).at(),
    ;
}

/// A tape over bytes held in memory.
pub struct Cursor {
    data: Vec<u8>,
    at: usize,
}

impl Cursor {
    /// Create a tape over the given bytes, with its cursor at the start.
    pub fn new(data: Vec<u8>) -> (r: Cursor)
        ensures
            r.data() == data@,
            r.at() == 0,
    {
        Cursor { data, at: 0 }
    }

    /// Give the bytes back.
    pub fn into_inner(self) -> (r: Vec<u8>)
        ensures
            r@ == self.data(),
    {
        self.data
    }
}

impl Tape for Cursor {
    closed spec fn data(&self) -> Seq<u8> {
        self.data@
    }

    closed spec fn at(&self) -> int {
        if self.at <= self.data.len() { self.at as int } else { self.data.len() as int }
    }

    fn position(&self) -> (r: u64) {
        let at = if self.at <= self.data.len() { self.at } else { self.data.len() };
        at as u64
    }

    fn length(&self) -> (r: u64) {
        self.data.len() as u64
    }

    fn jump(&mut self, position: u64) -> (r: Result<(), Error>) {
        if position <= self.data.len() as u64 {
            self.at = position as usize;
            Ok(())
        } else {
            Err(Error::Truncated)
        }
    }

    fn take_bytes(&mut self, count: usize) -> (r: Result<Vec<u8>, Error>) {
        let at = if self.at <= self.data.len() { self.at } else { self.data.len() };
        if count > self.data.len() - at {
            return Err(Error::Truncated);
        }
        let mut bytes: Vec<u8> = Vec::with_capacity(count);
        let mut i: usize = at;
        while i < at + count
            invariant
                at + count <= self.data.len(),
                at <= i <= at + count,
                bytes@ == self.data@.subrange(at as int, i as int),
            decreases at + count - i,
        {
            bytes.push(self.data[i]);
            i = i + 1;
            assert(bytes@ =~= self.data@.subrange(at as int, i as int));
        }
        self.at = at + count;
        Ok(bytes)
    }
}

/// A type whose values can be read from a tape without a parameter.
pub trait Value: Sized {
    /// The value that the data encodes from `at` on and the position where its
    /// encoding ends, or none where the data holds no such value there.
    spec fn parse(data: Seq<u8>, at: int) -> Option<(Self, int)>;

    /// Read a value at the cursor.
    fn read<T: Tape>(tape: &mut T) -> (r: Result<Self, Error>)
        ensures
            final(tape).data() == old(tape).data(),
            Self::parse(old(tape).data(), old(tape).at()) is None <==> r.is_err(),
            Self::parse(old(tape).data(), old(tape).at()) matches Some((value, end)) ==> r == Ok::<
                Self,
                Error,
            >(value) && final(tape).at() == end,
    ;
}

/// A type whose values can be read from a tape given a parameter of type `P`.
pub trait Walue<P>: Sized {
    /// Read a value at the cursor given the parameter.
    fn read_given<T: Tape>(tape: &mut T, parameter: P) -> (r: Result<Self, Error>)
        ensures
            final(tape).data() == old(tape).data(),
    ;
}

/// The bytes from `at` on hold a value of `width` bytes.
pub open spec fn fits(data: Seq<u8>, at: int, width: int) -> bool {
    0 <= at && at + width <= data.len()
}

/// `count` values read one after another from `at` on, and the position where
/// the last one ends.
pub open spec fn parse_many<V: Value>(data: Seq<u8>, at: int, count: nat) -> Option<(Seq<V>, int)>
    decreases count,
{
    if count == 0 {
        Some((Seq::empty(), at))
    } else {
        match parse_many::<V>(data, at, (count - 1) as nat) {
            Some((values, end)) => match V::parse(data, end) {
                Some((value, next)) => Some((values.push(value), next)),
                None => None,
            },
            None => None,
        }
    }
}

/// Read `count` values one after another.
pub fn take_many<V: Value, T: Tape>(tape: &mut T, count: usize) -> (r: Result<Vec<V>, Error>)
    ensures
        final(tape).data() == old(tape).data(),
        parse_many::<V>(old(tape).data(), old(tape).at(), count as nat) is None <==> r.is_err(),
        parse_many::<V>(old(tape).data(), old(tape).at(), count as nat) matches Some((values, end))
            ==> r matches Ok(v) && v@ == values && final(tape).at() == end,
{
    let ghost start = tape.at();
    let mut values: Vec<V> = Vec::new();
    let mut i: usize = 0;
    while i < count
        invariant
            i <= count,
            tape.data() == old(tape).data(),
            start == old(tape).at(),
            parse_many::<V>(tape.data(), start, i as nat) == Some((values@, tape.at())),
        decreases count - i,
    {
        let value = match V::read(tape) {
            Ok(value) => value,
            Err(error) => {
                proof {
                    lemma_parse_many_stops::<V>(tape.data(), start, (i + 1) as nat, count as nat);
                }
                return Err(error);
            },
        };
        values.push(value);
        i = i + 1;
    }
    Ok(values)
}

/// Values read one after another are as many as were asked for.
pub proof fn lemma_parse_many_len<V: Value>(data: Seq<u8>, at: int, count: nat)
    ensures
        parse_many::<V>(data, at, count) matches Some((values, _)) ==> values.len() == count,
    decreases count,
{
    if count > 0 {
        lemma_parse_many_len::<V>(data, at, (count - 1) as nat);
    }
}

/// Once `count` values fail to parse, no more of them parse.
pub proof fn lemma_parse_many_stops<V: Value>(data: Seq<u8>, at: int, count: nat, more: nat)
    requires
        count <= more,
        parse_many::<V>(data, at, count) is None,
    ensures
        parse_many::<V>(data, at, more) is None,
    decreases more - count,
{
    if count < more {
        lemma_parse_many_stops::<V>(data, at, count, (more - 1) as nat);
    }
}

impl Value for u8 {
    open spec fn parse(data: Seq<u8>, at: int) -> Option<(u8, int)> {
        if fits(data, at, 1) { Some((data[at], at + 1)) } else { None }
    }

    fn read<T: Tape>(tape: &mut T) -> (r: Result<u8, Error>) {
        let bytes = tape.take_bytes(1)?;
        Ok(bytes[0])
    }
}

impl Value for i8 {
    open spec fn parse(data: Seq<u8>, at: int) -> Option<(i8, int)> {
        if fits(data, at, 1) { Some((signed(data[at] as int, 8) as i8, at + 1)) } else { None }
    }

    fn read<T: Tape>(tape: &mut T) -> (r: Result<i8, Error>) {
        let bytes = tape.take_bytes(1)?;
        let value = bytes[0];
        proof { reveal_with_fuel(pow2, 9); }
        if value >= 128 {
            Ok((value as i16 - 256) as i8)
        } else {
            Ok(value as i8)
        }
    }
}

impl Value for u16 {
    open spec fn parse(data: Seq<u8>, at: int) -> Option<(u16, int)> {
        if fits(data, at, 2) { Some((be16(data, at) as u16, at + 2)) } else { None }
    }

    fn read<T: Tape>(tape: &mut T) -> (r: Result<u16, Error>) {
        let ghost data = tape.data();
        let ghost at = tape.at();
        let bytes = match tape.take_bytes(2) {
            Ok(bytes) => bytes,
            Err(e) => {
                assert(!fits(data, at, 2));
                assert(<u16 as Value>::parse(data, at) is None);
                return Err(e);
            }
        };
        Ok(bytes[0] as u16 * 256 + bytes[1] as u16)
    }
}

impl Value for i16 {
    open spec fn parse(data: Seq<u8>, at: int) -> Option<(i16, int)> {
        if fits(data, at, 2) { Some((signed(be16(data, at), 16) as i16, at + 2)) } else { None }
    }

    fn read<T: Tape>(tape: &mut T) -> (r: Result<i16, Error>) {
        let value = <u16 as Value>::read(tape)?;
        proof { reveal_with_fuel(pow2, 17); }
        if value >= 32768 {
            Ok((value as i32 - 65536) as i16)
        } else {
            Ok(value as i16)
        }
    }
}

impl Value for u32 {
    open spec fn parse(data: Seq<u8>, at: int) -> Option<(u32, int)> {
        if fits(data, at, 4) { Some((be32(data, at) as u32, at + 4)) } else { None }
    }

    fn read<T: Tape>(tape: &mut T) -> (r: Result<u32, Error>) {
        let ghost data = tape.data();
        let ghost at = tape.at();
        let high = <u16 as Value>::read(tape)?;
        let low = match <u16 as Value>::read(tape) {
            Ok(low) => low,
            Err(e) => {
                assert(!fits(data, at + 2, 2));
                assert(!fits(data, at, 4));
                assert(<u32 as Value>::parse(data, at) is None);
                return Err(e);
            },
        };
        Ok(high as u32 * 65536 + low as u32)
    }
}

impl Value for i32 {
    open spec fn parse(data: Seq<u8>, at: int) -> Option<(i32, int)> {
        if fits(data, at, 4) { Some((signed(be32(data, at), 32) as i32, at + 4)) } else { None }
    }

    fn read<T: Tape>(tape: &mut T) -> (r: Result<i32, Error>) {
        let value = <u32 as Value>::read(tape)?;
        proof { reveal_with_fuel(pow2, 33); }
        if value >= 2147483648 {
            Ok((value as i64 - 4294967296) as i32)
        } else {
            Ok(value as i32)
        }
    }
}

impl Value for i64 {
    open spec fn parse(data: Seq<u8>, at: int) -> Option<(i64, int)> {
        if fits(data, at, 8) { Some((signed(be64(data, at), 64) as i64, at + 8)) } else { None }
    }

    fn read<T: Tape>(tape: &mut T) -> (r: Result<i64, Error>) {
        let high = <u32 as Value>::read(tape)?;
        let low = <u32 as Value>::read(tape)?;
        let value: u64 = high as u64 * 4294967296 + low as u64;
        proof { reveal_with_fuel(pow2, 65); }
        if value >= 9223372036854775808 {
            Ok((value as i128 - 18446744073709551616) as i64)
        } else {
            Ok(value as i64)
        }
    }
}


/// The big-endian `u16` at `at` of a buffer.
pub fn get_u16(bytes: &Vec<u8>, at: usize) -> (r: u16)
    requires
        at + 2 <= bytes@.len(),
    ensures
        r == u16_at(bytes@, at as int),
{
    let _ = bytes.len();
    bytes[at] as u16 * 256 + bytes[at + 1] as u16
}

/// The big-endian `i16` at `at` of a buffer.
pub fn get_i16(bytes: &Vec<u8>, at: usize) -> (r: i16)
    requires
        at + 2 <= bytes@.len(),
    ensures
        r == i16_at(bytes@, at as int),
{
    let value = get_u16(bytes, at);
    proof {
        reveal_with_fuel(pow2, 17);
    }
    if value >= 32768 {
        (value as i32 - 65536) as i16
    } else {
        value as i16
    }
}

/// The big-endian `u32` at `at` of a buffer.
pub fn get_u32(bytes: &Vec<u8>, at: usize) -> (r: u32)
    requires
        at + 4 <= bytes@.len(),
    ensures
        r == u32_at(bytes@, at as int),
{
    let _ = bytes.len();
    get_u16(bytes, at) as u32 * 65536 + get_u16(bytes, at + 2) as u32
}

/// The big-endian `i32` at `at` of a buffer.
pub fn get_i32(bytes: &Vec<u8>, at: usize) -> (r: i32)
    requires
        at + 4 <= bytes@.len(),
    ensures
        r == i32_at(bytes@, at as int),
{
    let value = get_u32(bytes, at);
    proof {
        reveal_with_fuel(pow2, 33);
    }
    if value >= 2147483648 {
        (value as i64 - 4294967296) as i32
    } else {
        value as i32
    }
}

/// The big-endian `i64` at `at` of a buffer.
pub fn get_i64(bytes: &Vec<u8>, at: usize) -> (r: i64)
    requires
        at + 8 <= bytes@.len(),
    ensures
        r == i64_at(bytes@, at as int),
{
    let _ = bytes.len();
    let value: u64 = get_u32(bytes, at) as u64 * 4294967296 + get_u32(bytes, at + 4) as u64;
    proof {
        reveal_with_fuel(pow2, 65);
    }
    if value >= 9223372036854775808 {
        (value as i128 - 18446744073709551616) as i64
    } else {
        value as i64
    }
}

/// `count` big-endian `u16` values from `at` on.
pub open spec fn u16s_at(data: Seq<u8>, at: int, count: nat) -> Seq<u16> {
    Seq::new(count, |k: int| u16_at(data, at + 2 * k))
}

/// `count` big-endian `i16` values from `at` on.
pub open spec fn i16s_at(data: Seq<u8>, at: int, count: nat) -> Seq<i16> {
    Seq::new(count, |k: int| i16_at(data, at + 2 * k))
}

/// Read `count` big-endian `u16` values.
pub fn take_u16s<T: Tape>(tape: &mut T, count: usize) -> (r: Result<Vec<u16>, Error>)
    ensures
        final(tape).data() == old(tape).data(),
        r.is_ok() <==> fits(old(tape).data(), old(tape).at(), 2 * count),
        r matches Ok(values) ==> values@ == u16s_at(old(tape).data(), old(tape).at(), count as nat)
            && final(tape).at() == old(tape).at() + 2 * count,
{
    let _ = tape.length();
    if count > usize::MAX / 2 {
        return Err(Error::Truncated);
    }
    let bytes = tape.take_bytes(2 * count)?;
    let mut values: Vec<u16> = Vec::new();
    let mut k: usize = 0;
    while k < count
        invariant
            k <= count,
            count <= usize::MAX / 2,
            bytes@.len() == 2 * count,
            values@ =~= u16s_at(bytes@, 0, k as nat),
        decreases count - k,
    {
        values.push(get_u16(&bytes, 2 * k));
        k = k + 1;
        assert(values@ =~= u16s_at(bytes@, 0, k as nat));
    }
    assert(values@ =~= u16s_at(old(tape).data(), old(tape).at(), count as nat));
    Ok(values)
}

/// Read `count` big-endian `i16` values.
pub fn take_i16s<T: Tape>(tape: &mut T, count: usize) -> (r: Result<Vec<i16>, Error>)
    ensures
        final(tape).data() == old(tape).data(),
        r.is_ok() <==> fits(old(tape).data(), old(tape).at(), 2 * count),
        r matches Ok(values) ==> values@ == i16s_at(old(tape).data(), old(tape).at(), count as nat)
            && final(tape).at() == old(tape).at() + 2 * count,
{
    let _ = tape.length();
    if count > usize::MAX / 2 {
        return Err(Error::Truncated);
    }
    let bytes = tape.take_bytes(2 * count)?;
    let mut values: Vec<i16> = Vec::new();
    let mut k: usize = 0;
    while k < count
        invariant
            k <= count,
            count <= usize::MAX / 2,
            bytes@.len() == 2 * count,
            values@ =~= i16s_at(bytes@, 0, k as nat),
        decreases count - k,
    {
        values.push(get_i16(&bytes, 2 * k));
        k = k + 1;
        assert(values@ =~= i16s_at(bytes@, 0, k as nat));
    }
    assert(values@ =~= i16s_at(old(tape).data(), old(tape).at(), count as nat));
    Ok(values)
}

/// The big-endian bytes of a `u16`.
pub open spec fn u16_bytes(value: u16) -> Seq<u8> {
    seq![(value / 256) as u8, (value % 256) as u8]
}

/// The big-endian bytes of a `u32`.
pub open spec fn u32_bytes(value: u32) -> Seq<u8> {
    u16_bytes((value / 65536) as u16) + u16_bytes((value % 65536) as u16)
}

/// Where two bytes that encode a `u16` stand, the `u16` reads back.
pub proof fn lemma_u16_bytes(data: Seq<u8>, at: int, value: u16)
    requires
        0 <= at,
        at + 2 <= data.len(),
        data.subrange(at, at + 2) == u16_bytes(value),
    ensures
        u16_at(data, at) == value,
{
    assert(data[at] == data.subrange(at, at + 2)[0]);
    assert(data[at + 1] == data.subrange(at, at + 2)[1]);
}

/// Where four bytes that encode a `u32` stand, the `u32` reads back.
pub proof fn lemma_u32_bytes(data: Seq<u8>, at: int, value: u32)
    requires
        0 <= at,
        at + 4 <= data.len(),
        data.subrange(at, at + 4) == u32_bytes(value),
    ensures
        u32_at(data, at) == value,
{
    let bytes = data.subrange(at, at + 4);
    let high = u16_bytes((value / 65536) as u16);
    let low = u16_bytes((value % 65536) as u16);
    assert(data[at] == bytes[0] && bytes[0] == high[0]);
    assert(data[at + 1] == bytes[1] && bytes[1] == high[1]);
    assert(data[at + 2] == bytes[2] && bytes[2] == low[0]);
    assert(data[at + 3] == bytes[3] && bytes[3] == low[1]);
}

/// The two's-complement bits of an `i16`.
pub open spec fn i16_bits(value: i16) -> u16 {
    if value < 0 {
        (value + 65536) as u16
    } else {
        value as u16
    }
}

/// The two's-complement bits of an `i32`.
pub open spec fn i32_bits(value: i32) -> u32 {
    if value < 0 {
        (value + 4294967296) as u32
    } else {
        value as u32
    }
}

/// The big-endian bytes of an `i64`.
pub open spec fn i64_bytes(value: i64) -> Seq<u8> {
    let bits = if value < 0 {
        value + 18446744073709551616
    } else {
        value as int
    };
    u32_bytes((bits / 4294967296) as u32) + u32_bytes((bits % 4294967296) as u32)
}

/// Where two bytes that encode an `i16` stand, the `i16` reads back.
pub proof fn lemma_i16_bytes(data: Seq<u8>, at: int, value: i16)
    requires
        0 <= at,
        at + 2 <= data.len(),
        data.subrange(at, at + 2) == u16_bytes(i16_bits(value)),
    ensures
        i16_at(data, at) == value,
{
    lemma_u16_bytes(data, at, i16_bits(value));
    reveal_with_fuel(pow2, 17);
}

/// Where four bytes that encode an `i32` stand, the `i32` reads back.
pub proof fn lemma_i32_bytes(data: Seq<u8>, at: int, value: i32)
    requires
        0 <= at,
        at + 4 <= data.len(),
        data.subrange(at, at + 4) == u32_bytes(i32_bits(value)),
    ensures
        i32_at(data, at) == value,
{
    lemma_u32_bytes(data, at, i32_bits(value));
    reveal_with_fuel(pow2, 33);
}

/// Where eight bytes that encode an `i64` stand, the `i64` reads back.
pub proof fn lemma_i64_bytes(data: Seq<u8>, at: int, value: i64)
    requires
        0 <= at,
        at + 8 <= data.len(),
        data.subrange(at, at + 8) == i64_bytes(value),
    ensures
        i64_at(data, at) == value,
{
    let bits = if value < 0 {
        value + 18446744073709551616
    } else {
        value as int
    };
    let bytes = data.subrange(at, at + 8);
    assert(data.subrange(at, at + 4) =~= u32_bytes((bits / 4294967296) as u32)) by {
        assert forall|k: int| 0 <= k < 4 implies #[trigger] data.subrange(at, at + 4)[k] == bytes[k] by {}
    }
    assert(data.subrange(at + 4, at + 8) =~= u32_bytes((bits % 4294967296) as u32)) by {
        assert forall|k: int| 0 <= k < 4 implies #[trigger] data.subrange(at + 4, at + 8)[k] == bytes[k + 4] by {}
    }
    lemma_u32_bytes(data, at, (bits / 4294967296) as u32);
    lemma_u32_bytes(data, at + 4, (bits % 4294967296) as u32);
    reveal_with_fuel(pow2, 65);
}

/// A sequence that extends another by some bytes, and is extended in turn,
/// keeps those bytes.
pub proof fn lemma_prefix_of_sum(a: Seq<u8>, piece: Seq<u8>, b: Seq<u8>, c: Seq<u8>)
    requires
        b == a + piece,
        b.len() <= c.len(),
        forall|k: int| 0 <= k < b.len() ==> #[trigger] c[k] == b[k],
    ensures
        forall|k: int| 0 <= k < a.len() ==> #[trigger] c[k] == a[k],
{
    assert forall|k: int| 0 <= k < a.len() implies #[trigger] c[k] == a[k] by {
        assert(b[k] == a[k]);
    }
}

/// Append a byte.
pub fn give_u8(data: &mut Vec<u8>, value: u8)
    ensures
        final(data)@.subrange(0, old(data)@.len() as int) == old(data)@,
        <u8 as Value>::parse(final(data)@, old(data)@.len() as int) == Some(
            (value, old(data)@.len() + 1 as int),
        ),
        final(data)@.len() == old(data)@.len() + 1,
{
    data.push(value);
    assert(data@.subrange(0, old(data)@.len() as int) =~= old(data)@);
}

/// Append a `u16` in big-endian order.
pub fn give_u16(data: &mut Vec<u8>, value: u16)
    ensures
        final(data)@ == old(data)@ + u16_bytes(value),
        final(data)@.subrange(0, old(data)@.len() as int) == old(data)@,
        <u16 as Value>::parse(final(data)@, old(data)@.len() as int) == Some(
            (value, old(data)@.len() + 2 as int),
        ),
        final(data)@.len() == old(data)@.len() + 2,
{
    data.push((value / 256) as u8);
    data.push((value % 256) as u8);
    assert(data@.subrange(0, old(data)@.len() as int) =~= old(data)@);
    assert(data@ =~= old(data)@ + u16_bytes(value));
}

/// Append an `i16` in big-endian two's complement.
pub fn give_i16(data: &mut Vec<u8>, value: i16)
    ensures
        final(data)@ == old(data)@ + u16_bytes(i16_bits(value)),
        final(data)@.subrange(0, old(data)@.len() as int) == old(data)@,
        <i16 as Value>::parse(final(data)@, old(data)@.len() as int) == Some(
            (value, old(data)@.len() + 2 as int),
        ),
        final(data)@.len() == old(data)@.len() + 2,
{
    let bits: u16 = if value < 0 {
        (value as i32 + 65536) as u16
    } else {
        value as u16
    };
    proof {
        reveal_with_fuel(pow2, 17);
    }
    give_u16(data, bits);
}

/// Append a `u32` in big-endian order.
pub fn give_u32(data: &mut Vec<u8>, value: u32)
    ensures
        final(data)@ == old(data)@ + u32_bytes(value),
        final(data)@.subrange(0, old(data)@.len() as int) == old(data)@,
        <u32 as Value>::parse(final(data)@, old(data)@.len() as int) == Some(
            (value, old(data)@.len() + 4 as int),
        ),
        final(data)@.len() == old(data)@.len() + 4,
{
    give_u16(data, (value / 65536) as u16);
    give_u16(data, (value % 65536) as u16);
    assert(data@.subrange(0, old(data)@.len() as int) =~= old(data)@);
    assert(data@ =~= old(data)@ + u32_bytes(value));
}

/// Append an `i32` in big-endian two's complement.
pub fn give_i32(data: &mut Vec<u8>, value: i32)
    ensures
        final(data)@ == old(data)@ + u32_bytes(i32_bits(value)),
        final(data)@.subrange(0, old(data)@.len() as int) == old(data)@,
        <i32 as Value>::parse(final(data)@, old(data)@.len() as int) == Some(
            (value, old(data)@.len() + 4 as int),
        ),
        final(data)@.len() == old(data)@.len() + 4,
{
    let bits: u32 = if value < 0 {
        (value as i64 + 4294967296) as u32
    } else {
        value as u32
    };
    proof {
        reveal_with_fuel(pow2, 33);
    }
    give_u32(data, bits);
}

/// Append an `i64` in big-endian two's complement.
pub fn give_i64(data: &mut Vec<u8>, value: i64)
    ensures
        final(data)@ == old(data)@ + i64_bytes(value),
        final(data)@.subrange(0, old(data)@.len() as int) == old(data)@,
        <i64 as Value>::parse(final(data)@, old(data)@.len() as int) == Some(
            (value, old(data)@.len() + 8 as int),
        ),
        final(data)@.len() == old(data)@.len() + 8,
{
    let bits: u64 = if value < 0 {
        (value as i128 + 18446744073709551616) as u64
    } else {
        value as u64
    };
    proof {
        reveal_with_fuel(pow2, 65);
    }
    give_u32(data, (bits / 4294967296) as u32);
    give_u32(data, (bits % 4294967296) as u32);
    assert(data@.subrange(0, old(data)@.len() as int) =~= old(data)@);
    assert(data@ =~= old(data)@ + i64_bytes(value));
}

/// Read a value at the cursor.
pub fn take<V: Value, T: Tape>(tape: &mut T) -> (r: Result<V, Error>)
    ensures
        final(tape).data() == old(tape).data(),
        V::parse(old(tape).data(), old(tape).at()) is None <==> r.is_err(),
        V::parse(old(tape).data(), old(tape).at()) matches Some((value, end)) ==> r == Ok::<
            V,
            Error,
        >(value) && final(tape).at() == end,
{
    V::read(tape)
}

/// Read a value at the cursor given a parameter.
pub fn take_given<P, W: Walue<P>, T: Tape>(tape: &mut T, parameter: P) -> (r: Result<W, Error>)
    ensures
        final(tape).data() == old(tape).data(),
{
    W::read_given(tape, parameter)
}

/// Read a value without moving the cursor.
pub fn peek<V: Value, T: Tape>(tape: &mut T) -> (r: Result<V, Error>)
    ensures
        final(tape).data() == old(tape).data(),
        final(tape).at() == old(tape).at(),
        V::parse(old(tape).data(), old(tape).at()) is None <==> r.is_err(),
        V::parse(old(tape).data(), old(tape).at()) matches Some((value, _)) ==> r == Ok::<
            V,
            Error,
        >(value),
{
    let position = tape.position();
    let value = V::read(tape);
    let _ = tape.jump(position);
    value
}

/// Run `body` on the tape and bring the cursor back to where it was, whether
/// the body succeeds or fails; where the cursor cannot return, the failure to
/// jump is reported instead.
pub fn stay<T: Tape, R, F: FnOnce(&mut T) -> Result<R, Error>>(tape: &mut T, body: F) -> (r: Result<R, Error>)
    requires
        forall|t: &mut T| call_requires(body, (t,)),
    ensures
        old(tape).at() <= final(tape).data().len() ==> final(tape).at() == old(tape).at(),
{
    let position = tape.position();
    let result = body(tape);
    match tape.jump(position) {
        Ok(()) => result,
        Err(e) => Err(e),
    }
}

/// Read a `u16` without moving the cursor.
pub fn peek_u16<T: Tape>(tape: &mut T) -> (r: Result<u16, Error>)
    ensures
        final(tape).data() == old(tape).data(),
        final(tape).at() == old(tape).at(),
        r.is_ok() <==> fits(old(tape).data(), old(tape).at(), 2),
        r matches Ok(value) ==> value == u16_at(old(tape).data(), old(tape).at()),
{
    let position = tape.position();
    let value = <u16 as Value>::read(tape);
    let _ = tape.jump(position);
    value
}

/// Read a `u32` without moving the cursor.
pub fn peek_u32<T: Tape>(tape: &mut T) -> (r: Result<u32, Error>)
    ensures
        final(tape).data() == old(tape).data(),
        final(tape).at() == old(tape).at(),
        r.is_ok() <==> fits(old(tape).data(), old(tape).at(), 4),
        r matches Ok(value) ==> value == u32_at(old(tape).data(), old(tape).at()),
{
    let position = tape.position();
    let value = <u32 as Value>::read(tape);
    let _ = tape.jump(position);
    value
}

} // verus!
