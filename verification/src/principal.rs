//! The text of a principal: the identifier of a service or a user.

use vstd::prelude::*;

verus! {

/// Whether `text` is the text of a principal, as `Principal::from_text` reads it: groups of
/// base 32 digits of either case, which hold a check sequence and at most 29 bytes.
pub uninterp spec fn is_principal_text(text: Seq<char>) -> bool;

/// Calls `candid::Principal::from_text` and says whether it gave a principal. The function
/// reads nothing but its argument and has no path that panics, so the answer is a function of
/// the text; the contract gives that function its name and says nothing more of it.
#[verifier::external_body]
pub(crate) fn principal_text_is_valid(text: &str) -> (valid: bool)
    ensures
        valid == is_principal_text(text@),
{
    candid::Principal::from_text(text).is_ok()
}

} // verus!
