//! Small helpers on text.

use vstd::prelude::*;
use vstd::string::*;

verus! {

/// Whether two strings hold the same characters.
pub fn same_text(a: &str, b: &str) -> (r: bool)
    ensures
        r == (a@ == b@),
{
    let x = String::from_str(a);
    let y = String::from_str(b);
    x == y
}

/// The text that `uuid` prints for the identifier `id`: thirty-two lower-case
/// hexadecimal digits in five groups, with hyphens between them.
pub uninterp spec fn uuid_text(id: u128) -> Seq<char>;

/// `Uuid::from_u128` followed by `to_string`, which is `Uuid`'s `Display`.
/// The text depends on the identifier alone.
#[verifier::external_body]
pub(crate) fn print_uuid(id: u128) -> (r: String)
    ensures
        r@ == uuid_text(id),
{
    uuid::Uuid::from_u128(id).to_string()
}

} // verus!
