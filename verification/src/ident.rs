//! Session identifiers: random version 4 UUIDs in their usual written form.

use vstd::prelude::*;

verus! {

/// Whether `c` is a digit of lower-case hexadecimal.
pub open spec fn is_lower_hex(c: char) -> bool {
    ('0' <= c <= '9') || ('a' <= c <= 'f')
}

/// The shape of a session identifier: 36 characters, hyphens after the
/// eighth, twelfth, sixteenth and twentieth hexadecimal digit, lower-case
/// hexadecimal digits elsewhere, the version digit `4` and a variant digit
/// from `8` to `b`.
pub open spec fn is_session_id(id: Seq<char>) -> bool {
    &&& id.len() == 36
    &&& forall|i: int|
        0 <= i < 36 ==> if i == 8 || i == 13 || i == 18 || i == 23 {
            #[trigger] id[i] == '-'
        } else {
            is_lower_hex(id[i])
        }
    &&& id[14] == '4'
    &&& (id[19] == '8' || id[19] == '9' || id[19] == 'a' || id[19] == 'b')
}

/// Draws a new identifier: `uuid::Uuid::new_v4`, written out by the `Display`
/// of `uuid::Uuid`.
///
/// Trusted: that the text has the hyphenated lower-case shape of a version 4
/// UUID. Which identifier is drawn is left open, as it is random; nothing
/// is claimed about two draws being different. The draw stops the program if
/// the operating system cannot supply random bytes.
#[verifier::external_body]
pub(crate) fn fresh_session_id() -> (id: String)
    ensures
        is_session_id(id@),
{
    uuid::Uuid::new_v4().to_string()
}

} // verus!
