//! Text in UTF-16, big-endian, as the Unicode and Windows platforms store it.

use vstd::prelude::*;

use vstd::string::StrSliceExecFns;

use crate::tape::Error;

verus! {

/// Relies on String::push: the character is appended at the end.
#[verifier::external_body]
pub(crate) fn push_char(text: &mut String, c: char)
    ensures
        final(text)@ == old(text)@.push(c),
{
    text.push(c)
}

/// Relies on char::from_u32: it gives the character with the given scalar
/// value, and nothing for a surrogate or a value past 0x10FFFF.
#[verifier::external_body]
fn char_of(value: u32) -> (r: Option<char>)
    ensures
        r is Some <==> (value < 0xD800 || 0xE000 <= value <= 0x10FFFF),
        r matches Some(c) ==> c as u32 == value,
{
    char::from_u32(value)
}

/// The scalar values of the characters of a text.
pub open spec fn scalars(text: Seq<char>) -> Seq<u32> {
    text.map_values(|c: char| c as u32)
}

/// The UTF-16 code units of one character.
pub open spec fn units_of(c: char) -> Seq<u16> {
    let v = c as u32;
    if v < 0x10000 {
        seq![v as u16]
    } else {
        seq![(0xD800 + (v - 0x10000) / 1024) as u16, (0xDC00 + (v - 0x10000) % 1024) as u16]
    }
}

/// The UTF-16 code units of a text.
pub open spec fn encode_units(text: Seq<char>) -> Seq<u16>
    decreases text.len(),
{
    if text.len() == 0 {
        Seq::empty()
    } else {
        units_of(text[0]) + encode_units(text.drop_first())
    }
}

/// Code units as big-endian bytes.
pub open spec fn unit_bytes(units: Seq<u16>) -> Seq<u8> {
    Seq::new(
        2 * units.len(),
        |k: int|
            if k % 2 == 0 {
                (units[k / 2] / 256) as u8
            } else {
                (units[k / 2] % 256) as u8
            },
    )
}

/// Big-endian bytes as code units.
pub open spec fn byte_units(bytes: Seq<u8>) -> Seq<u16> {
    Seq::new(bytes.len() / 2, |k: int| (bytes[2 * k] * 256 + bytes[2 * k + 1]) as u16)
}

/// Put a scalar value in front of what decoding gave, if it gave anything.
pub open spec fn prepend_scalar(value: u32, decoded: Option<Seq<u32>>) -> Option<Seq<u32>> {
    match decoded {
        Some(rest) => Some(seq![value] + rest),
        None => None,
    }
}

/// The scalar values that UTF-16 code units encode, or none where a surrogate
/// is not paired.
pub open spec fn decode_units(units: Seq<u16>) -> Option<Seq<u32>>
    decreases units.len(),
{
    if units.len() == 0 {
        Some(Seq::empty())
    } else {
        let u = units[0];
        if u < 0xD800 || u > 0xDFFF {
            prepend_scalar(u as u32, decode_units(units.drop_first()))
        } else if u <= 0xDBFF && units.len() >= 2 && 0xDC00 <= units[1] <= 0xDFFF {
            prepend_scalar(
                (0x10000 + (u - 0xD800) * 1024 + (units[1] - 0xDC00)) as u32,
                decode_units(units.subrange(2, units.len() as int)),
            )
        } else {
            None
        }
    }
}

/// The text that UTF-16 bytes encode, where they are whole code units that
/// pair every surrogate.
pub open spec fn decoded_utf16(bytes: Seq<u8>) -> Option<Seq<u32>> {
    if bytes.len() % 2 != 0 {
        None
    } else {
        decode_units(byte_units(bytes))
    }
}

/// Decode UTF-16 in big-endian byte order.
pub fn decode_utf16(data: &[u8]) -> (r: Option<String>)
    ensures
        r is Some <==> decoded_utf16(data@) is Some,
        r matches Some(text) ==> decoded_utf16(data@) == Some(scalars(text@)),
{
    if data.len() % 2 != 0 {
        return None;
    }
    let len = data.len();
    let n = len / 2;
    let mut units: Vec<u16> = Vec::new();
    let mut k: usize = 0;
    while k < n
        invariant
            len == data@.len(),
            n == data@.len() / 2,
            k <= n,
            units@ =~= byte_units(data@).subrange(0, k as int),
        decreases n - k,
    {
        units.push(data[2 * k] as u16 * 256 + data[2 * k + 1] as u16);
        k = k + 1;
    }
    assert(units@ =~= byte_units(data@));
    let mut text = String::new();
    let mut i: usize = 0;
    proof {
        assert(units@.subrange(0, n as int) =~= units@);
        assert(text@ =~= Seq::<char>::empty());
        match decode_units(units@) {
            Some(rest) => {
                assert(scalars(text@) + rest =~= rest);
            },
            None => {},
        }
    }
    while i < n
        invariant
            n == units@.len(),
            units@ == byte_units(data@),
            data@.len() % 2 == 0,
            i <= n,
            decode_units(units@) == match decode_units(units@.subrange(i as int, n as int)) {
                Some(rest) => Some(scalars(text@) + rest),
                None => None::<Seq<u32>>,
            },
        decreases n - i,
    {
        let ghost tail = units@.subrange(i as int, n as int);
        let ghost before = scalars(text@);
        let u = units[i];
        assert(tail[0] == u);
        let value: u32;
        if u < 0xD800 || u > 0xDFFF {
            value = u as u32;
            i = i + 1;
            assert(tail.drop_first() =~= units@.subrange(i as int, n as int));
        } else if u <= 0xDBFF && i + 1 < n && 0xDC00 <= units[i + 1] && units[i + 1] <= 0xDFFF {
            value = 0x10000 + (u as u32 - 0xD800) * 1024 + (units[i + 1] as u32 - 0xDC00);
            assert(0x10000 <= value <= 0x10FFFF);
            i = i + 2;
            assert(tail.subrange(2, tail.len() as int) =~= units@.subrange(i as int, n as int));
        } else {
            proof {
                if i + 1 < n {
                    assert(tail[1] == units@[i + 1]);
                }
            }
            assert(decode_units(tail) is None);
            return None;
        }
        let c = match char_of(value) {
            Some(c) => c,
            None => return None,
        };
        push_char(&mut text, c);
        proof {
            assert(scalars(text@) =~= before + seq![value]);
            match decode_units(units@.subrange(i as int, n as int)) {
                Some(rest) => {
                    assert(before + (seq![value] + rest) =~= scalars(text@) + rest);
                },
                None => {},
            }
        }
    }
    proof {
        assert(units@.subrange(n as int, n as int) =~= Seq::<u16>::empty());
        assert(scalars(text@) + Seq::<u32>::empty() =~= scalars(text@));
    }
    Some(text)
}

/// Encode a text as UTF-16 in big-endian byte order, appending to `data`.
pub fn encode_utf16(value: &str, data: &mut Vec<u8>)
    ensures
        final(data)@ == old(data)@ + unit_bytes(encode_units(value@)),
{
    let n = value.unicode_len();
    let mut i: usize = 0;
    let ghost mut units: Seq<u16> = Seq::empty();
    proof {
        assert(value@.subrange(0, n as int) =~= value@);
        assert(units + encode_units(value@) =~= encode_units(value@));
        assert(unit_bytes(units) =~= Seq::<u8>::empty());
        assert(data@ =~= old(data)@ + unit_bytes(units));
    }
    while i < n
        invariant
            n == value@.len(),
            i <= n,
            units + encode_units(value@.subrange(i as int, n as int)) == encode_units(value@),
            data@ == old(data)@ + unit_bytes(units),
        decreases n - i,
    {
        let ghost tail = value@.subrange(i as int, n as int);
        let c = value.get_char(i);
        assert(tail[0] == c);
        assert(tail.drop_first() =~= value@.subrange(i + 1, n as int));
        let v = c as u32;
        let ghost before = data@;
        if v < 0x10000 {
            data.push((v / 256) as u8);
            data.push((v % 256) as u8);
        } else {
            let high = 0xD800 + (v - 0x10000) / 1024;
            let low = 0xDC00 + (v - 0x10000) % 1024;
            data.push((high / 256) as u8);
            data.push((high % 256) as u8);
            data.push((low / 256) as u8);
            data.push((low % 256) as u8);
        }
        proof {
            let piece = units_of(c);
            assert(unit_bytes(units + piece) =~= unit_bytes(units) + unit_bytes(piece));
            assert(data@ =~= old(data)@ + unit_bytes(units + piece));
            assert(units + piece + encode_units(tail.drop_first()) =~= units + encode_units(tail));
            units = units + piece;
        }
        i = i + 1;
    }
    proof {
        assert(value@.subrange(n as int, n as int) =~= Seq::<char>::empty());
        assert(units + Seq::<u16>::empty() =~= units);
    }
}

/// Decode text of the Unicode platform: UTF-16 for encodings 3 (BMP) and 4
/// (full repertoire), nothing for the deprecated ones.
pub fn decode(data: &[u8], encoding_id: u16) -> (r: Option<String>)
    ensures
        encoding_id != 3 && encoding_id != 4 ==> r is None,
        encoding_id == 3 || encoding_id == 4 ==> (r is Some <==> decoded_utf16(data@) is Some),
        r matches Some(text) ==> decoded_utf16(data@) == Some(scalars(text@)),
{
    if encoding_id == 3 || encoding_id == 4 {
        decode_utf16(data)
    } else {
        None
    }
}

/// Encode text of the Unicode platform, appending to `data`: UTF-16 for
/// encodings 3 and 4; any other encoding is refused.
pub fn encode(value: &str, encoding_id: u16, data: &mut Vec<u8>) -> (r: Result<(), Error>)
    ensures
        r.is_ok() <==> encoding_id == 3 || encoding_id == 4,
        r.is_ok() ==> final(data)@ == old(data)@ + unit_bytes(encode_units(value@)),
        r.is_err() ==> final(data)@ == old(data)@,
{
    if encoding_id == 3 || encoding_id == 4 {
        encode_utf16(value, data);
        Ok(())
    } else {
        Err(Error::Unknown)
    }
}


/// Decoding the UTF-16 encoding of a text gives the text back.
pub proof fn lemma_utf16_round_trip(text: Seq<char>)
    ensures
        decode_units(encode_units(text)) == Some(scalars(text)),
    decreases text.len(),
{
    if text.len() == 0 {
        assert(scalars(text) =~= Seq::<u32>::empty());
    } else {
        let c = text[0];
        let v = c as u32;
        vstd::utf8::char_is_scalar(c);
        assert(v <= 0x10FFFF && !(0xD800 <= v <= 0xDFFF));
        let rest = encode_units(text.drop_first());
        lemma_utf16_round_trip(text.drop_first());
        let all = units_of(c) + rest;
        assert(scalars(text) =~= seq![v] + scalars(text.drop_first()));
        if v < 0x10000 {
            assert(all[0] == v as u16);
            assert(all.drop_first() =~= rest);
        } else {
            let x = (v - 0x10000) as int;
            vstd::arithmetic::div_mod::lemma_fundamental_div_mod(x, 1024);
            assert(0 <= x % 1024 < 1024);
            assert(x / 1024 < 1024) by (nonlinear_arith)
                requires
                    x == 1024 * (x / 1024) + x % 1024,
                    0 <= x % 1024,
                    x < 1048576,
            ;
            assert(all[0] == (0xD800 + x / 1024) as u16);
            assert(all[1] == (0xDC00 + x % 1024) as u16);
            assert(all.subrange(2, all.len() as int) =~= rest);
        }
    }
}

/// Decoding the big-endian bytes of code units gives the units back.
pub proof fn lemma_unit_bytes_round_trip(units: Seq<u16>)
    ensures
        byte_units(unit_bytes(units)) == units,
        unit_bytes(units).len() % 2 == 0,
{
    let bytes = unit_bytes(units);
    assert forall|k: int| 0 <= k < units.len() implies #[trigger] byte_units(bytes)[k] == units[k] by {
        assert(bytes[2 * k] == (units[k] / 256) as u8);
        assert(bytes[2 * k + 1] == (units[k] % 256) as u8);
    }
    assert(byte_units(bytes) =~= units);
}

/// Decoding text that was encoded as UTF-16 gives the text back.
pub proof fn lemma_utf16_bytes_round_trip(text: Seq<char>)
    ensures
        decoded_utf16(unit_bytes(encode_units(text))) == Some(scalars(text)),
{
    lemma_unit_bytes_round_trip(encode_units(text));
    lemma_utf16_round_trip(text);
}

} // verus!
