//! Fresh random identifiers for jobs and tasks.

use vstd::prelude::*;

verus! {

/// A lower-case hexadecimal digit.
pub open spec fn is_lower_hex(c: char) -> bool {
    ('0' <= c && c <= '9') || ('a' <= c && c <= 'f')
}

/// How a random (version 4, RFC 4122 variant) UUID is written: 36
/// characters, hyphens at positions 8, 13, 18 and 23, lower-case
/// hexadecimal digits elsewhere, `4` at position 14 and one of `8`, `9`,
/// `a`, `b` at position 19.
pub open spec fn is_v4_uuid_text(s: Seq<char>) -> bool {
    &&& s.len() == 36
    &&& forall|i: int|
        0 <= i < 36 ==> if i == 8 || i == 13 || i == 18 || i == 23 {
            #[trigger] s[i] == '-'
        } else {
            is_lower_hex(s[i])
        }
    &&& s[14] == '4'
    &&& (s[19] == '8' || s[19] == '9' || s[19] == 'a' || s[19] == 'b')
}

/// A fresh random identifier: `uuid::Uuid::new_v4()` written with
/// `to_string()`. Its value is random; what every outcome has in common is
/// the shape of a version 4 UUID's hyphenated lower-case text, which the
/// crate's `format_hyphenated` and `new_v4` show.
#[verifier::external_body]
pub(crate) fn new_uuid_v4_string() -> (s: String)
    ensures
        is_v4_uuid_text(s@),
{
    uuid::Uuid::new_v4().to_string()
}

} // verus!
