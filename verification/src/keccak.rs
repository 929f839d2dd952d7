//! The one digest computed at run time: the flash-borrower magic value
//! demanded by the lending-standard callback.

use vstd::prelude::*;

verus! {

/// The 32-byte digest that `keccak256` assigns to a string's bytes.
pub uninterp spec fn keccak_bytes(s: Seq<char>) -> Seq<u8>;

/// Relies on `alloy_primitives::keccak256`: the digest is 32 bytes long
/// and depends on the characters of the string alone.
#[verifier::external_body]
pub(crate) fn keccak256_str(s: &str) -> (r: Vec<u8>)
    ensures
        r@ == keccak_bytes(s@),
        r@.len() == 32,
{
    alloy_primitives::keccak256(s.as_bytes()).to_vec()
}

} // verus!
