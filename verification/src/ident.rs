//! Fresh operation ids.

use vstd::prelude::*;

verus! {

/// Whether `c` is a digit or one of the letters `a` to `f`.
pub open spec fn is_lower_hex(c: char) -> bool {
    ('0' <= c && c <= '9') || ('a' <= c && c <= 'f')
}

/// Whether `s` has the shape of a UUID in its usual text form: 36
/// characters, hyphens after the 8th, 12th, 16th and 20th digit, and lower
/// case hexadecimal digits everywhere else.
pub open spec fn is_uuid_text(s: Seq<char>) -> bool {
    &&& s.len() == 36
    &&& forall|i: int|
        0 <= i < 36 ==> if i == 8 || i == 13 || i == 18 || i == 23 {
            #[trigger] s[i] == '-'
        } else {
            is_lower_hex(s[i])
        }
}

/// Draws a random (version 4) UUID with `uuid::Uuid::new_v4` and writes it
/// with the `Display` of `uuid::Uuid`. Assumed, not proved: the text has
/// the hyphenated lower case form. Nothing is assumed of which id comes
/// out: two calls may give any two ids. `uuid` panics where the system
/// has no random bytes to give.
#[verifier::external_body]
pub(crate) fn fresh_id() -> (id: String)
    ensures
        is_uuid_text(id@),
{
    uuid::Uuid::new_v4().to_string()
}

} // verus!
