//! Fresh identifiers.
use vstd::prelude::*;

verus! {

/// `uuid::Uuid`, the identifier of a request.
#[verifier::external_type_specification]
#[verifier::external_body]
pub struct ExUuid(uuid::Uuid);

/// `uuid::Uuid::new_v4`: a random version-4 UUID.  It is random, so
/// nothing is stated of it.
#[verifier::external_body]
pub(crate) fn new_v4() -> (r: uuid::Uuid) {
    uuid::Uuid::new_v4()
}

/// `<uuid::Uuid as ToString>::to_string`: the UUID in its hyphenated
/// form, 36 characters with hyphens at positions 8, 13, 18 and 23.  The
/// hexadecimal digits, which depend on the UUID's bytes, are not stated.
#[verifier::external_body]
pub(crate) fn uuid_text(u: &uuid::Uuid) -> (r: String)
    ensures
        r@.len() == 36,
        r@[8] == '-' && r@[13] == '-' && r@[18] == '-' && r@[23] == '-',
{
    u.to_string()
}

/// The text of a fresh random UUID.
pub(crate) fn new_uuid_v4() -> (r: String)
    ensures
        r@.len() == 36,
{
    let u = new_v4();
    uuid_text(&u)
}

} // verus!
