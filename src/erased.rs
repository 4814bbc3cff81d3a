//! Type identity and type-erased values.
//!
//! Each value of the container is kept in an `AnyBox`, which hides its
//! concrete type. What the proofs know of a box is the identity of the type it
//! was made from (`box_key`) and the value it holds when read at a type
//! (`content`); what std does with a box is stated by the few functions below,
//! each of which makes one call into `std::any`.
use std::any::{Any, TypeId};
use vstd::prelude::*;

verus! {

#[verifier::external_type_specification]
#[verifier::external_body]
pub struct ExTypeId(TypeId);

/// Relies on `TypeId`'s `PartialEq`: two identities compare equal exactly when
/// they are the same identity.
pub assume_specification[ <TypeId as PartialEq>::eq ](a: &TypeId, b: &TypeId) -> (r: bool)
    ensures
        r == (*a == *b),
;

/// The identity of the type `T`: fixed for each type and otherwise left open.
pub closed spec fn type_key<T>() -> TypeId {
    arbitrary::<(T, TypeId)>().1
}

/// An owned value whose concrete type is known only at run time.
#[verifier::external_body]
pub struct AnyBox {
    inner: Box<dyn Any>,
}

/// The identity of the concrete type of the value that a box holds.
pub closed spec fn box_key(b: AnyBox) -> TypeId {
    arbitrary::<spec_fn(AnyBox) -> TypeId>()(b)
}

/// The value that a box holds, read at the type `T`. It is meaningful where
/// `box_key(b) == type_key::<T>()`.
pub closed spec fn content<T>(b: AnyBox) -> T {
    arbitrary::<spec_fn(AnyBox) -> T>()(b)
}

/// Relies on `TypeId::of`, which gives each type one identity.
#[verifier::external_body]
pub fn key_of<T: 'static>() -> (r: TypeId)
    ensures
        r == type_key::<T>(),
{
    TypeId::of::<T>()
}

/// Relies on the coercion of `Box<T>` to `Box<dyn Any>`: the box keeps the
/// value and reports `TypeId::of::<T>()` as its type.
#[verifier::external_body]
pub fn erase<T: 'static>(v: T) -> (r: AnyBox)
    ensures
        box_key(r) == type_key::<T>(),
        content::<T>(r) == v,
{
    AnyBox { inner: Box::new(v) }
}

/// Relies on `<dyn Any>::downcast_ref`, which gives the value exactly when the
/// box holds a `T`.
#[verifier::external_body]
pub fn downcast_ref<T: 'static>(b: &AnyBox) -> (r: Option<&T>)
    ensures
        box_key(*b) == type_key::<T>() ==> r == Some(&content::<T>(*b)),
        box_key(*b) != type_key::<T>() ==> r is None,
{
    b.inner.downcast_ref::<T>()
}

/// Relies on `<dyn Any>::downcast_mut`, which gives a mutable reference to the
/// value when the box holds a `T`; writing through it changes that value and
/// not the type.
#[verifier::external_body]
pub fn downcast_mut<T: 'static>(b: &mut AnyBox) -> (r: &mut T)
    requires
        box_key(*old(b)) == type_key::<T>(),
    ensures
        *r == content::<T>(*old(b)),
        box_key(*final(b)) == box_key(*old(b)),
        content::<T>(*final(b)) == *final(r),
{
    b.inner.downcast_mut::<T>().unwrap()
}

} // verus!
