//! How long a string is once stored.

use vstd::prelude::*;
use vstd::utf8::encode_utf8;

verus! {

/// Bytes the text takes in UTF-8.
pub open spec fn byte_len(text: Seq<char>) -> nat {
    encode_utf8(text).len()
}

/// Measures a string in bytes.
pub fn string_bytes(text: &String) -> (n: usize)
    ensures
        n == byte_len(text@),
{
    text.as_str().as_bytes().len()
}

} // verus!
