//! Names as text.

use vstd::prelude::*;

verus! {

/// Whether two names are the same text. This calls `==` of `str`, which
/// is true exactly of two strings of the same characters; nothing is
/// proved of it here.
#[verifier::external_body]
pub(crate) fn same_text(a: &str, b: &str) -> (r: bool)
    ensures
        r == (a@ == b@),
{
    a == b
}

} // verus!
