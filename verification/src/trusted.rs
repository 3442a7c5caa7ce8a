//! Trusted declarations for outside calls whose contracts Verus believes.

use vstd::prelude::*;

verus! {

/// Relies on `String::from_utf8`: it returns the string whose UTF-8
/// encoding is `bytes` when `bytes` is valid UTF-8, and an error otherwise.
#[verifier::external_body]
pub fn string_from_utf8(bytes: Vec<u8>) -> (r: Option<String>)
    ensures
        r is Some <==> vstd::utf8::valid_utf8(bytes@),
        r is Some ==> r->0@ == vstd::utf8::decode_utf8(bytes@),
{
    match String::from_utf8(bytes) {
        Ok(s) => Some(s),
        Err(_) => None,
    }
}

} // verus!
