//! Fresh identifiers.
use vstd::prelude::*;

use crate::text::{from_chars, part, to_chars};

verus! {

/// Whether a character is a lower-case hexadecimal digit.
pub open spec fn is_hex(c: char) -> bool {
    '0' <= c <= '9' || 'a' <= c <= 'f'
}

/// Whether a text is made of that many lower-case hexadecimal digits.
pub open spec fn is_hex_text(s: Seq<char>, len: nat) -> bool {
    s.len() == len && forall|k: int| 0 <= k < len ==> is_hex(#[trigger] s[k])
}

/// `Uuid::new_v4` of the crate `uuid`, written by `Uuid::simple`: a random
/// identifier as 32 lower-case hexadecimal digits, of which the one at position
/// 12 is the version, 4. Which one it is depends on chance, so nothing more is
/// stated; in particular not that two of them differ. The call panics where the
/// system has no random numbers to give.
#[verifier::external_body]
fn random_uuid() -> (r: String)
    ensures
        is_hex_text(r@, 32),
        r@[12] == '4',
{
    uuid::Uuid::new_v4().simple().to_string()
}

/// A fresh identifier of 32 hexadecimal digits.
pub fn fresh_id() -> (r: String)
    ensures
        is_hex_text(r@, 32),
{
    random_uuid()
}

/// The first eight digits of an identifier.
pub fn shortened(id: &str) -> (r: String)
    requires
        id@.len() >= 8,
    ensures
        r@ == id@.subrange(0, 8),
{
    let chars = to_chars(id);
    from_chars(part(&chars, 0, 8))
}

/// A fresh identifier of eight hexadecimal digits.
pub fn short_uuid() -> (r: String)
    ensures
        is_hex_text(r@, 8),
{
    let id = random_uuid();
    shortened(id.as_str())
}

/// An identifier is digits and the letters `a` to `f`, and as long as it says.
pub proof fn law_identifiers(s: Seq<char>, n: nat, k: int)
    requires
        is_hex_text(s, n),
        0 <= k < s.len(),
    ensures
        s.len() == n,
        ('0' <= s[k] <= '9') || ('a' <= s[k] <= 'f'),
{
    assert(is_hex(s[k]));
}

} // verus!
