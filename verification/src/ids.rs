//! Identifiers of domain entities.

use vstd::prelude::*;

verus! {

/// uuid's `Uuid`, carried through as an opaque identifier.
#[verifier::external_type_specification]
#[verifier::external_body]
pub struct ExUuid(uuid::Uuid);

/// uuid's derived `Clone` for `Uuid`, a `Copy` type: the clone is the same
/// identifier.
pub assume_specification[ <uuid::Uuid as Clone>::clone ](u: &uuid::Uuid) -> (r: uuid::Uuid)
    ensures
        r == *u,
;

/// Whether two identifiers are the same: uuid's derived `PartialEq`, which
/// compares the sixteen bytes; equal bytes are the same identifier.
#[verifier::external_body]
pub(crate) fn same_id(a: &uuid::Uuid, b: &uuid::Uuid) -> (r: bool)
    ensures
        r == (*a == *b),
{
    a == b
}

/// A lowercase hexadecimal digit.
pub open spec fn lower_hex(c: char) -> bool {
    ('0' <= c <= '9') || ('a' <= c <= 'f')
}

/// The hyphenated form of an identifier: thirty-six characters, hyphens at
/// positions 8, 13, 18 and 23, lowercase hexadecimal digits elsewhere.
pub open spec fn hyphenated_form(t: Seq<char>) -> bool {
    &&& t.len() == 36
    &&& forall|i: int|
        0 <= i < 36 ==> if i == 8 || i == 13 || i == 18 || i == 23 {
            #[trigger] t[i] == '-'
        } else {
            lower_hex(t[i])
        }
}

/// The text of an identifier: uuid's `Display`, which writes the
/// hyphenated lowercase form (`fmt.rs`, `format_hyphenated`). The contract
/// claims that form, not which digits.
#[verifier::external_body]
pub(crate) fn id_text(u: &uuid::Uuid) -> (r: String)
    ensures
        hyphenated_form(r@),
{
    u.to_string()
}

/// A fresh time-ordered identifier: uuid's `Uuid::now_v7`. Its value depends
/// on the clock and on random bits, so nothing is stated of it.
#[verifier::external_body]
pub(crate) fn fresh_id() -> (r: uuid::Uuid) {
    uuid::Uuid::now_v7()
}

/// A fresh random identifier: uuid's `Uuid::new_v4`. Its value comes from a
/// random source, so nothing is stated of it.
#[verifier::external_body]
pub(crate) fn random_id() -> (r: uuid::Uuid) {
    uuid::Uuid::new_v4()
}

} // verus!
