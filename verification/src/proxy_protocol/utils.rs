//! Helpers of the two decoders.

use vstd::prelude::*;

use crate::text::{find_byte, find_from};

verus! {

/// The bytes of `buf` before the first `delim`, where there is one.
pub open spec fn spec_read_until(buf: Seq<u8>, delim: u8) -> Option<Seq<u8>> {
    match find_from(buf, 0, delim) {
        Some(i) => Some(buf.subrange(0, i)),
        None => None,
    }
}

/// Returns the part of `buf` that ends just before the first `delim`, or
/// `None` where `buf` holds no `delim`.
pub fn read_until(buf: &[u8], delim: u8) -> (r: Option<&[u8]>)
    ensures
        match r {
            Some(s) => {
                &&& spec_read_until(buf@, delim) == Some(s@)
                &&& s@.len() < buf@.len()
                &&& s@ == buf@.subrange(0, s@.len() as int)
                &&& buf@[s@.len() as int] == delim
                &&& forall|j: int| 0 <= j < s@.len() ==> s@[j] != delim
            },
            None => {
                &&& spec_read_until(buf@, delim) is None
                &&& forall|j: int| 0 <= j < buf@.len() ==> buf@[j] != delim
            },
        },
{
    match find_byte(buf, 0, delim) {
        Some(i) => Some(&buf[0..i]),
        None => None,
    }
}

} // verus!
