//! Random identifiers (the `uuid` crate).
use crate::text::{chars_of, replace_all, replace_all_exec, string_of};
use vstd::prelude::*;

verus! {

pub open spec fn is_lower_hex(c: char) -> bool {
    ('0' <= c && c <= '9') || ('a' <= c && c <= 'f')
}

/// The positions of the four hyphens of a hyphenated UUID.
pub open spec fn is_hyphen_pos(i: int) -> bool {
    i == 8 || i == 13 || i == 18 || i == 23
}

/// The text of a random (version 4) UUID in its lower-case hyphenated form:
/// 32 hex digits in groups of 8-4-4-4-12, the version digit `4` and a variant
/// digit among `8`, `9`, `a`, `b`.
pub open spec fn uuid_v4_text(s: Seq<char>) -> bool {
    &&& s.len() == 36
    &&& forall|i: int| 0 <= i < 36 ==> (if is_hyphen_pos(i) {
        s[i] == '-'
    } else {
        is_lower_hex(#[trigger] s[i])
    })
    &&& s[14] == '4'
    &&& (s[19] == '8' || s[19] == '9' || s[19] == 'a' || s[19] == 'b')
}

/// Calls `uuid::Uuid::new_v4()` and formats it with `to_string()`. The value
/// is random, so only its shape is stated: `Uuid::new_v4` masks in the
/// version and variant bits, and `Display` writes the lower-case hyphenated
/// form. `new_v4` panics when the system's random source fails, which no
/// argument can rule out.
#[verifier::external_body]
pub(crate) fn new_uuid_v4() -> (r: String)
    ensures
        uuid_v4_text(r@),
{
    uuid::Uuid::new_v4().to_string()
}

/// A fresh random identifier without hyphens: 32 lower-case hex digits.
pub fn random_hex_id() -> (r: String)
    ensures
        exists|u: Seq<char>| uuid_v4_text(u) && r@ == replace_all(u, "-"@, ""@),
{
    let u = new_uuid_v4();
    proof {
        reveal_strlit("-");
        reveal_strlit("");
    }
    let v = replace_all_exec(&chars_of(u.as_str()), &chars_of("-"), &chars_of(""));
    string_of(&v)
}

} // verus!
