//! The identity of a static type as a value.

use vstd::prelude::*;
use core::any::TypeId;

verus! {

/// `core::any::TypeId`: the identity of a type. Nothing of what it holds is
/// visible here.
#[verifier::external_type_specification]
#[verifier::external_body]
pub struct ExTypeId(TypeId);

/// `TypeId::of`: the identity of the type `T`. Nothing is claimed of the
/// value.
#[verifier::external_body]
pub(crate) fn type_id_of<T: 'static>() -> (key: TypeId) {
    TypeId::of::<T>()
}

/// `TypeId`'s `==`: whether two identities are the same value.
#[verifier::external_body]
pub(crate) fn type_id_eq(a: &TypeId, b: &TypeId) -> (r: bool)
    ensures
        r == (*a == *b),
{
    a == b
}

} // verus!
