//! Helpers for tests of the language front end.

use vstd::prelude::*;

verus! {

#[verifier::external_type_specification]
#[verifier::external_body]
pub struct ExTypeId(std::any::TypeId);

/// `TypeId::of` gives the identifier of the type `T`. The identifier is the
/// compiler's choice and may differ from one build to the next, and a
/// contract cannot speak of the type that it was asked for: nothing is
/// claimed of it.
#[verifier::external_body]
fn type_id_of<T: 'static>() -> std::any::TypeId {
    std::any::TypeId::of::<T>()
}

/// Tells whether the type of the first argument is the type of the second.
///
/// The identifiers of the two types are asked for, and the answer is that of
/// `same_type` on them. What the identifiers are is the compiler's choice and
/// may differ from one build to the next, so the answer is stated there, over
/// the identifiers, and not here, over the types: of two types as such no
/// contract can speak.
pub fn is_instance<U: 'static, T: 'static>(_value: &U, _expected: T) -> (same: bool) {
    let value = type_id_of::<U>();
    let expected = type_id_of::<T>();
    same_type(&value, &expected)
}

/// `TypeId`'s `==` tells whether two identifiers are equal.
pub assume_specification[ <std::any::TypeId as PartialEq>::eq ](
    a: &std::any::TypeId,
    b: &std::any::TypeId,
) -> (same: bool)
    ensures
        same == (a == b),
;

/// Tells whether `value` and `expected` are one identifier, and so identify
/// one type.
pub fn same_type(value: &std::any::TypeId, expected: &std::any::TypeId) -> (same: bool)
    ensures
        same == (*value == *expected),
{
    value.eq(expected)
}

} // verus!
