//! Text of the Windows platform.

use vstd::prelude::*;

use crate::tape::Error;
use crate::unicode::{decode_utf16, decoded_utf16, encode_units, encode_utf16, scalars, unit_bytes};

verus! {

/// Decode text of the Windows platform: UTF-16 for encodings 1 (BMP) and 10
/// (full repertoire), nothing for the others.
pub fn decode(data: &[u8], encoding_id: u16) -> (r: Option<String>)
    ensures
        encoding_id != 1 && encoding_id != 10 ==> r is None,
        encoding_id == 1 || encoding_id == 10 ==> (r is Some <==> decoded_utf16(data@) is Some),
        r matches Some(text) ==> decoded_utf16(data@) == Some(scalars(text@)),
{
    if encoding_id == 1 || encoding_id == 10 {
        decode_utf16(data)
    } else {
        None
    }
}

/// Encode text of the Windows platform, appending to `data`: UTF-16 for
/// encodings 1 and 10; any other encoding is refused.
pub fn encode(value: &str, encoding_id: u16, data: &mut Vec<u8>) -> (r: Result<(), Error>)
    ensures
        r.is_ok() <==> encoding_id == 1 || encoding_id == 10,
        r.is_ok() ==> final(data)@ == old(data)@ + unit_bytes(encode_units(value@)),
        r.is_err() ==> final(data)@ == old(data)@,
{
    if encoding_id == 1 || encoding_id == 10 {
        encode_utf16(value, data);
        Ok(())
    } else {
        Err(Error::Unknown)
    }
}

} // verus!
