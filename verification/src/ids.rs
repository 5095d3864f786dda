//! Fresh record ids.

use vstd::prelude::*;

use crate::checksum::is_lower_hex;

verus! {

/// The simple form of a version 4 UUID: 32 lower-case hexadecimal digits,
/// the thirteenth of which gives the version, `4`.
pub open spec fn is_simple_v4(s: Seq<char>) -> bool {
    &&& s.len() == 32
    &&& forall|i: int| 0 <= i < 32 ==> is_lower_hex(#[trigger] s[i])
    &&& s[12] == '4'
}

/// The hyphenated form of a version 4 UUID: groups of 8, 4, 4, 4 and 12
/// lower-case hexadecimal digits joined by `-`, the version `4` first in the
/// third group.
pub open spec fn is_hyphenated_v4(s: Seq<char>) -> bool {
    &&& s.len() == 36
    &&& forall|i: int|
        0 <= i < 36 ==> if i == 8 || i == 13 || i == 18 || i == 23 {
            #[trigger] s[i] == '-'
        } else {
            is_lower_hex(s[i])
        }
    &&& s[14] == '4'
}

/// A new, random id in the hyphenated form of a version 4 UUID.
pub fn fresh_id() -> (r: String)
    ensures
        is_hyphenated_v4(r@),
{
    random_uuid()
}

/// Draws `uuid::Uuid::new_v4()` and writes it with `to_string()`, which
/// formats through `LowerHex` in the hyphenated form. The random bits are
/// not stated: only the shape, and the version digit that `new_v4` sets.
#[verifier::external_body]
fn random_uuid() -> (r: String)
    ensures
        is_hyphenated_v4(r@),
{
    uuid::Uuid::new_v4().to_string()
}

/// A new, random token for a preview link: two version 4 UUIDs in their
/// simple form, 64 hexadecimal digits.
pub fn fresh_preview_token() -> (r: String)
    ensures
        r@.len() == 64,
        is_simple_v4(r@.subrange(0, 32)),
        is_simple_v4(r@.subrange(32, 64)),
{
    let a = random_simple_uuid();
    let b = random_simple_uuid();
    let mut v = crate::text::chars_of(a.as_str());
    crate::text::push_str(&mut v, b.as_str());
    let r = crate::text::string_of(v.as_slice());
    assert(r@.subrange(0, 32) =~= a@);
    assert(r@.subrange(32, 64) =~= b@);
    r
}

/// Draws `uuid::Uuid::new_v4()` and writes it with `simple()`: 32 lower-case
/// hexadecimal digits. The random bits are not stated: only the shape, and
/// the version digit that `new_v4` sets.
#[verifier::external_body]
fn random_simple_uuid() -> (r: String)
    ensures
        is_simple_v4(r@),
{
    uuid::Uuid::new_v4().simple().to_string()
}

} // verus!
