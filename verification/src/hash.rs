//! The number that stands for a field name on the wire.

use vstd::prelude::*;
use vstd::utf8::encode_utf8;

verus! {

/// The hash of a name, given as the bytes of its UTF-8 encoding: it starts at zero, and each
/// byte in turn replaces it by 223 times itself plus the byte, modulo 2^32.
pub open spec fn hash_of_bytes(bytes: Seq<u8>) -> u32
    decreases bytes.len(),
{
    if bytes.len() == 0 {
        0
    } else {
        ((hash_of_bytes(bytes.drop_last()) as int * 223 + bytes.last() as int)
            % 0x1_0000_0000) as u32
    }
}

/// The hash of a field name.
pub open spec fn name_hash(name: Seq<char>) -> u32 {
    hash_of_bytes(encode_utf8(name))
}

/// Calls `candid::idl_hash`. Its source is one loop over the bytes of the name: the hash starts
/// at zero, and each byte replaces it by `wrapping_mul(223)` of itself and then `wrapping_add`
/// of the byte. The contract states the result of that loop, which is not proved here.
#[verifier::external_body]
pub(crate) fn idl_hash(name: &str) -> (hash: u32)
    ensures
        hash == name_hash(name@),
{
    candid::idl_hash(name)
}

} // verus!
