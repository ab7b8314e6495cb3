use vstd::prelude::*;

verus! {

pub open spec fn is_lower_hex_digit(c: char) -> bool {
    ('0' <= c && c <= '9') || ('a' <= c && c <= 'f')
}

/// A 128-bit value written as 32 lowercase hexadecimal digits.
pub open spec fn is_simple_uuid(s: Seq<char>) -> bool {
    &&& s.len() == 32
    &&& forall|i: int| 0 <= i < s.len() ==> is_lower_hex_digit(#[trigger] s[i])
}

/// Relies on uuid's `Uuid::new_v4` and `Uuid::to_simple`: a random version-4
/// UUID, written by the `Display` of `Simple` as 32 lowercase hexadecimal
/// digits without hyphens. `new_v4` panics only where the system gives no
/// random bytes.
#[verifier::external_body]
pub(crate) fn random_identity() -> (r: String)
    ensures
        is_simple_uuid(r@),
{
    uuid::Uuid::new_v4().to_simple().to_string()
}

} // verus!
