//! Four-byte identifiers of tables and formats.

use vstd::prelude::*;

use vstd::string::{StrSliceExecFns, StringSliceAdditionalSpecFns};

use crate::tape::{fits, Error, Tape, Value};
use crate::unicode::push_char;

verus! {

/// A tag.
#[derive(Clone, Copy, Debug, Eq)]
pub struct Tag(pub [u8; 4]);

impl PartialEq for Tag {
    fn eq(&self, other: &Tag) -> (r: bool) {
        let r = self.0[0] == other.0[0] && self.0[1] == other.0[1] && self.0[2] == other.0[2]
            && self.0[3] == other.0[3];
        proof {
            if r {
                assert(self.0@ =~= other.0@);
            }
        }
        r
    }
}

impl vstd::std_specs::cmp::PartialEqSpecImpl for Tag {
    open spec fn obeys_eq_spec() -> bool {
        true
    }

    open spec fn eq_spec(&self, other: &Tag) -> bool {
        self.0@ == other.0@
    }
}

/// The tag whose bytes are the big-endian encoding of `value`.
pub open spec fn tag_of_u32(value: u32) -> Tag {
    Tag(
        [
            (value / 16777216) as u8,
            ((value / 65536) % 256) as u8,
            ((value / 256) % 256) as u8,
            (value % 256) as u8,
        ],
    )
}

/// The big-endian integer that the bytes of a tag encode.
pub open spec fn u32_of_tag(tag: Tag) -> u32 {
    (tag.0[0] * 16777216 + tag.0[1] * 65536 + tag.0[2] * 256 + tag.0[3]) as u32
}

/// The tag made of four bytes, if there are four.
pub open spec fn tag_of_bytes(bytes: Seq<u8>) -> Option<Tag> {
    if bytes.len() == 4 {
        Some(Tag([bytes[0], bytes[1], bytes[2], bytes[3]]))
    } else {
        None
    }
}

/// A byte is an ASCII control character.
pub open spec fn is_control(byte: u8) -> bool {
    byte < 0x20 || byte == 0x7F
}

impl From<u32> for Tag {
    fn from(value: u32) -> (r: Tag) {
        Tag(
            [
                (value / 16777216) as u8,
                ((value / 65536) % 256) as u8,
                ((value / 256) % 256) as u8,
                (value % 256) as u8,
            ],
        )
    }
}

impl vstd::std_specs::convert::FromSpecImpl<u32> for Tag {
    open spec fn obeys_from_spec() -> bool {
        true
    }

    open spec fn from_spec(value: u32) -> Tag {
        tag_of_u32(value)
    }
}

impl From<Tag> for u32 {
    fn from(tag: Tag) -> (r: u32) {
        tag.0[0] as u32 * 16777216 + tag.0[1] as u32 * 65536 + tag.0[2] as u32 * 256
            + tag.0[3] as u32
    }
}

impl vstd::std_specs::convert::FromSpecImpl<Tag> for u32 {
    open spec fn obeys_from_spec() -> bool {
        true
    }

    open spec fn from_spec(tag: Tag) -> u32 {
        u32_of_tag(tag)
    }
}

impl<'a> From<&'a [u8; 4]> for Tag {
    fn from(bytes: &'a [u8; 4]) -> (r: Tag) {
        Tag(*bytes)
    }
}

impl<'a> vstd::std_specs::convert::FromSpecImpl<&'a [u8; 4]> for Tag {
    open spec fn obeys_from_spec() -> bool {
        true
    }

    open spec fn from_spec(bytes: &'a [u8; 4]) -> Tag {
        Tag(*bytes)
    }
}

/// Relies on std::str::from_utf8: it accepts exactly the valid UTF-8 sequences,
/// and the string it returns consists of the given bytes.
#[verifier::external_body]
fn utf8(bytes: &[u8]) -> (r: Option<&str>)
    ensures
        r is Some <==> vstd::utf8::valid_utf8(bytes@),
        r matches Some(s) ==> s.spec_bytes() == bytes@,
{
    std::str::from_utf8(bytes).ok()
}

impl Tag {
    /// Create an instance from a string if it consists of four bytes.
    #[allow(clippy::should_implement_trait)]
    pub fn from_str(value: &str) -> (r: Option<Tag>)
        ensures
            r == tag_of_bytes(value.spec_bytes()),
    {
        let bytes = value.as_bytes();
        if bytes.len() == 4 {
            Some(Tag([bytes[0], bytes[1], bytes[2], bytes[3]]))
        } else {
            None
        }
    }

    /// Convert into a string if no byte is an ASCII control character and the
    /// bytes are valid UTF-8.
    pub fn as_str(&self) -> (r: Option<&str>)
        ensures
            r is Some <==> (forall|i: int| 0 <= i < 4 ==> !is_control(#[trigger] self.0[i]))
                && vstd::utf8::valid_utf8(self.0@),
            r matches Some(s) ==> s.spec_bytes() == self.0@,
    {
        let mut i: usize = 0;
        while i < 4
            invariant
                i <= 4,
                forall|j: int| 0 <= j < i ==> !is_control(#[trigger] self.0[j]),
            decreases 4 - i,
        {
            if self.0[i] < 0x20 || self.0[i] == 0x7F {
                return None;
            }
            i = i + 1;
        }
        utf8(self.0.as_slice())
    }
}

/// The uppercase hexadecimal digit of a number below sixteen.
pub open spec fn hex_digit(n: int) -> char {
    if n < 10 {
        ((48 + n) as u8) as char
    } else {
        ((55 + n) as u8) as char
    }
}

/// The eight uppercase hexadecimal digits of a number, most significant first.
pub open spec fn hex_digits(value: u32) -> Seq<char> {
    Seq::new(8, |k: int| hex_digit((value as int / pow16(7 - k)) % 16))
}

/// Sixteen to the power `k`.
pub open spec fn pow16(k: int) -> int
    decreases k,
{
    if k <= 0 {
        1
    } else {
        16 * pow16(k - 1)
    }
}

/// The description of a tag: `Tag(` and its text where it is printable UTF-8,
/// else `Tag(0x` and its eight hexadecimal digits; then `)`.
pub open spec fn description_of(tag: Tag, text: Option<Seq<char>>) -> Seq<char> {
    match text {
        Some(chars) => seq!['T', 'a', 'g', '('] + chars + seq![')'],
        None => seq!['T', 'a', 'g', '(', '0', 'x'] + hex_digits(u32_of_tag(tag)) + seq![')'],
    }
}

/// Append a sequence of characters given as a string.
fn push_str(text: &mut String, value: &str)
    ensures
        final(text)@ == old(text)@ + value@,
{
    let n = value.unicode_len();
    let mut i: usize = 0;
    while i < n
        invariant
            n == value@.len(),
            i <= n,
            text@ == old(text)@ + value@.subrange(0, i as int),
        decreases n - i,
    {
        push_char(text, value.get_char(i));
        i = i + 1;
        assert(text@ =~= old(text)@ + value@.subrange(0, i as int));
    }
    assert(value@.subrange(0, n as int) =~= value@);
}

impl Tag {
    /// Describe the tag as its text where it is printable, else as a
    /// hexadecimal number: `Tag(true)`, `Tag(0x00010000)`.
    pub fn describe(&self) -> (r: String)
        ensures
            r@ == description_of(
                *self,
                match self.as_str_spec() {
                    Some(bytes) => Some(vstd::utf8::decode_utf8(bytes)),
                    None => None,
                },
            ),
    {
        let mut text = String::new();
        push_char(&mut text, 'T');
        push_char(&mut text, 'a');
        push_char(&mut text, 'g');
        push_char(&mut text, '(');
        match self.as_str() {
            Some(value) => {
                proof {
                    vstd::utf8::encode_utf8_decode_utf8(value@);
                }
                push_str(&mut text, value);
            },
            None => {
                push_char(&mut text, '0');
                push_char(&mut text, 'x');
                let value = u32::from(*self);
                let mut k: u32 = 0;
                let mut scale: u32 = 268435456;
                proof {
                    reveal_with_fuel(pow16, 8);
                }
                while k < 8
                    invariant
                        k <= 8,
                        scale as int == pow16(7 - k as int),
                        k < 8 ==> scale >= 1,
                        text@ == seq!['T', 'a', 'g', '(', '0', 'x'] + hex_digits(value).subrange(
                            0,
                            k as int,
                        ),
                    decreases 8 - k,
                {
                    let digit = (value / scale) % 16;
                    let c = if digit < 10 {
                        (48 + digit as u8) as char
                    } else {
                        (55 + digit as u8) as char
                    };
                    push_char(&mut text, c);
                    k = k + 1;
                    if k < 8 {
                        scale = scale / 16;
                    }
                    assert(text@ =~= seq!['T', 'a', 'g', '(', '0', 'x'] + hex_digits(value).subrange(
                        0,
                        k as int,
                    ));
                }
                assert(hex_digits(value).subrange(0, 8) =~= hex_digits(value));
            },
        }
        push_char(&mut text, ')');
        assert(text@ =~= description_of(
            *self,
            match self.as_str_spec() {
                Some(bytes) => Some(vstd::utf8::decode_utf8(bytes)),
                None => None,
            },
        ));
        text
    }

    /// The bytes of the tag where they are printable UTF-8.
    pub open spec fn as_str_spec(&self) -> Option<Seq<u8>> {
        if (forall|i: int| 0 <= i < 4 ==> !is_control(#[trigger] self.0[i])) && vstd::utf8::valid_utf8(
            self.0@,
        ) {
            Some(self.0@)
        } else {
            None
        }
    }
}

impl Value for Tag {
    open spec fn parse(data: Seq<u8>, at: int) -> Option<(Tag, int)> {
        if fits(data, at, 4) {
            Some((Tag([data[at], data[at + 1], data[at + 2], data[at + 3]]), at + 4))
        } else {
            None
        }
    }

    fn read<T: Tape>(tape: &mut T) -> (r: Result<Tag, Error>) {
        let bytes = tape.take_bytes(4)?;
        Ok(Tag([bytes[0], bytes[1], bytes[2], bytes[3]]))
    }
}

/// Converting a tag into an integer and back gives the same tag.
pub proof fn lemma_tag_round_trip(tag: Tag)
    ensures
        tag_of_u32(u32_of_tag(tag)) == tag,
{
    let (a, b, c, d) = (tag.0[0], tag.0[1], tag.0[2], tag.0[3]);
    let v = u32_of_tag(tag);
    assert(v == a * 16777216 + b * 65536 + c * 256 + d);
    assert(v / 16777216 == a) by (nonlinear_arith)
        requires v == a * 16777216 + b * 65536 + c * 256 + d, a < 256, b < 256, c < 256, d < 256;
    assert((v / 65536) % 256 == b) by (nonlinear_arith)
        requires v == a * 16777216 + b * 65536 + c * 256 + d, a < 256, b < 256, c < 256, d < 256;
    assert((v / 256) % 256 == c) by (nonlinear_arith)
        requires v == a * 16777216 + b * 65536 + c * 256 + d, a < 256, b < 256, c < 256, d < 256;
    assert(v % 256 == d) by (nonlinear_arith)
        requires v == a * 16777216 + b * 65536 + c * 256 + d, a < 256, b < 256, c < 256, d < 256;
    broadcast use vstd::array::axiom_array_ext_equal;

    assert(tag_of_u32(v).0 =~= tag.0);
}

/// Converting an integer into a tag and back gives the same integer.
pub proof fn lemma_u32_round_trip(value: u32)
    ensures
        u32_of_tag(tag_of_u32(value)) == value,
{
    let v = value as int;
    assert((v / 16777216) * 16777216 + ((v / 65536) % 256) * 65536 + ((v / 256) % 256) * 256 + v
        % 256 == v) by (nonlinear_arith)
        requires 0 <= v < 4294967296;
}

/// A string of four bytes gives the tag made of those bytes.
pub proof fn lemma_from_str_keeps_bytes(bytes: Seq<u8>)
    requires
        bytes.len() == 4,
    ensures
        tag_of_bytes(bytes) matches Some(tag) && tag.0@ == bytes,
{
    let tag = Tag([bytes[0], bytes[1], bytes[2], bytes[3]]);
    assert(tag.0@ =~= bytes);
}


/// A tag whose bytes are printable UTF-8 converts into a string that converts
/// back into the same tag.
pub proof fn lemma_as_str_round_trip(tag: Tag, text: &str)
    requires
        text.spec_bytes() == tag.0@,
    ensures
        tag_of_bytes(text.spec_bytes()) == Some(tag),
{
    broadcast use vstd::array::axiom_array_ext_equal;

    lemma_from_str_keeps_bytes(tag.0@);
    let made = tag_of_bytes(tag.0@)->0;
    assert(made.0 =~= tag.0);
}

} // verus!
