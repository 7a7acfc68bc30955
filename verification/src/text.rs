//! Strings in contracts, and comparing string slices.

use vstd::prelude::*;
use vstd::string::StringSliceAdditionalSpecFns;
use vstd::utf8::encode_utf8_decode_utf8;

verus! {

/// The characters of an optional string.
pub open spec fn characters_of(text: Option<String>) -> Option<Seq<char>> {
    match text {
        Some(text) => Some(text@),
        None => None,
    }
}

/// Whether two string slices spell the same characters.
pub fn same_text(left: &str, right: &str) -> (same: bool)
    ensures
        same == (left@ == right@),
{
    let a = left.as_bytes();
    let b = right.as_bytes();
    proof {
        // The characters of a string are recovered from its bytes, so equal
        // bytes mean equal characters.
        encode_utf8_decode_utf8(left@);
        encode_utf8_decode_utf8(right@);
    }
    if a.len() != b.len() {
        return false;
    }
    let mut i: usize = 0;
    while i < a.len()
        invariant
            a@ == left.spec_bytes(),
            b@ == right.spec_bytes(),
            a@.len() == b@.len(),
            i <= a@.len(),
            a@.take(i as int) == b@.take(i as int),
        decreases a@.len() - i,
    {
        if a[i] != b[i] {
            return false;
        }
        assert(a@.take(i + 1) == a@.take(i as int).push(a@[i as int]));
        assert(b@.take(i + 1) == b@.take(i as int).push(b@[i as int]));
        i += 1;
    }
    assert(a@ == a@.take(i as int));
    assert(b@ == b@.take(i as int));
    true
}

} // verus!
