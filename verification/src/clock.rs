//! What the node takes from its clock and from chance.
use vstd::prelude::*;

use crate::text::chars_of;

verus! {

/// A lower-case hexadecimal digit.
pub open spec fn is_hex_digit(c: char) -> bool {
    '0' <= c <= '9' || 'a' <= c <= 'f'
}

/// The form of a generated identifier: thirty-six characters, five groups of lower-case
/// hexadecimal digits with hyphens between them.
pub open spec fn is_generated_id(id: Seq<char>) -> bool {
    &&& id.len() == 36
    &&& forall|i: int|
        0 <= i < 36 ==> if i == 8 || i == 13 || i == 18 || i == 23 {
            #[trigger] id[i] == '-'
        } else {
            is_hex_digit(id[i])
        }
}

/// Whether a text has the form of a generated identifier.
pub fn generated_id(id: &str) -> (r: bool)
    ensures
        r == is_generated_id(id@),
{
    let cs = chars_of(id);
    if cs.len() != 36 {
        return false;
    }
    let mut i: usize = 0;
    while i < 36
        invariant
            i <= 36,
            cs@ == id@,
            cs@.len() == 36,
            forall|j: int|
                0 <= j < i ==> if j == 8 || j == 13 || j == 18 || j == 23 {
                    #[trigger] id@[j] == '-'
                } else {
                    is_hex_digit(id@[j])
                },
        decreases 36 - i,
    {
        let c = cs[i];
        assert(c == id@[i as int]);
        let hyphen: bool = i == 8 || i == 13 || i == 18 || i == 23;
        let good: bool = if hyphen {
            c == '-'
        } else {
            ('0' <= c && c <= '9') || ('a' <= c && c <= 'f')
        };
        if !good {
            return false;
        }
        i = i + 1;
    }
    true
}

/// A moment that the clock can show, in whatever unit.
pub open spec fn is_moment(now: int) -> bool {
    0 <= now <= i64::MAX
}

/// `chrono::Utc::now` in milliseconds since the epoch. It never lies before the epoch: the
/// crate panics where the clock does. Nothing else is known of it, and two calls may differ.
#[verifier::external_body]
pub(crate) fn now_millis() -> (r: i64)
    ensures
        is_moment(r as int),
{
    chrono::Utc::now().timestamp_millis()
}

/// `uuid::Uuid::new_v4` as a text in its hyphenated form. Nothing but the form is known of
/// it, and two calls may differ.
#[verifier::external_body]
pub(crate) fn new_id() -> (r: String)
    ensures
        is_generated_id(r@),
{
    uuid::Uuid::new_v4().to_string()
}

/// The form of a generated identifier without hyphens.
pub open spec fn is_plain_id(id: Seq<char>) -> bool {
    &&& id.len() == 32
    &&& forall|i: int| 0 <= i < 32 ==> is_hex_digit(#[trigger] id[i])
}

/// `uuid::Uuid::now_v7` as a text in its simple form. Nothing but the form is known of it,
/// and two calls may differ.
#[verifier::external_body]
pub(crate) fn new_plain_id() -> (r: String)
    ensures
        is_plain_id(r@),
{
    uuid::Uuid::now_v7().simple().to_string()
}

} // verus!
