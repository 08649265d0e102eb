//! Calls into std and outside crates whose results this library names or bounds.
use vstd::prelude::*;

verus! {

/// The text of a version-4 UUID in hyphenated lower-case form:
/// 36 characters, hyphens at 8, 13, 18 and 23, the version digit `4` at 14,
/// and lower-case hexadecimal digits elsewhere.
pub open spec fn is_uuid_v4_text(s: Seq<char>) -> bool {
    &&& s.len() == 36
    &&& forall|i: int| 0 <= i < 36 ==> (if i == 8 || i == 13 || i == 18 || i == 23 {
        #[trigger] s[i] == '-'
    } else {
        ('0' <= s[i] <= '9') || ('a' <= s[i] <= 'f')
    })
    &&& s[14] == '4'
}

/// A fresh random identifier: `uuid::Uuid::new_v4().to_string()`.
/// Only its format is stated; its value is random.
#[verifier::external_body]
pub(crate) fn new_uuid() -> (s: String)
    ensures
        is_uuid_v4_text(s@),
{
    uuid::Uuid::new_v4().to_string()
}

/// The full Unicode lower-case mapping of a string, as `str::to_lowercase` computes it.
pub uninterp spec fn lowercase(s: Seq<char>) -> Seq<char>;

/// `str::to_lowercase`.
#[verifier::external_body]
pub(crate) fn to_lowercase(s: &str) -> (r: String)
    ensures
        r@ == lowercase(s@),
{
    s.to_lowercase()
}

} // verus!
