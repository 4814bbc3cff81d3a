//! Laws of the containers, stated over the maps that their contracts speak of.
//!
//! `TypeSet`, `SingletonCache` and `RefCache` describe each operation by
//! `lookup` (what is stored for a type) and `placed` (the map after the entry
//! for a type is set); `remove` takes the type's key out of the map. The lemmas
//! below chain those descriptions the way a sequence of calls chains them.
use crate::erased::{type_key, AnyBox};
use crate::typeset::{lookup, placed};
use std::any::TypeId;
use std::rc::Rc;
use vstd::prelude::*;

verus! {

/// A fresh container holds nothing for any type.
pub proof fn lemma_fresh_is_empty<T>()
    ensures
        lookup::<T>(Map::<TypeId, AnyBox>::empty()) is None,
{
}

/// After a value is stored for `T`, reading `T` gives that value.
pub proof fn lemma_insert_then_get<T>(pre: Map<TypeId, AnyBox>, post: Map<TypeId, AnyBox>, v: T)
    requires
        placed::<T>(pre, post, v),
    ensures
        lookup::<T>(post) == Some(v),
{
}

/// Storing twice for `T` keeps only the second value.
pub proof fn lemma_insert_overwrites<T>(
    m0: Map<TypeId, AnyBox>,
    m1: Map<TypeId, AnyBox>,
    m2: Map<TypeId, AnyBox>,
    v1: T,
    v2: T,
)
    requires
        placed::<T>(m0, m1, v1),
        placed::<T>(m1, m2, v2),
    ensures
        lookup::<T>(m2) == Some(v2),
{
}

/// An `ensure` on a map that already holds a value for `T` keeps that value:
/// after a first `ensure` stored `v1`, a second one leaves `v1` in place.
pub proof fn lemma_ensure_keeps_first<T>(
    m0: Map<TypeId, AnyBox>,
    m1: Map<TypeId, AnyBox>,
    m2: Map<TypeId, AnyBox>,
    v1: T,
)
    requires
        placed::<T>(m0, m1, v1),
        placed::<T>(m1, m2, lookup::<T>(m1)->0),
    ensures
        lookup::<T>(m2) == Some(v1),
{
}

/// After a value is stored for `T` and then removed, nothing is stored for `T`.
pub proof fn lemma_remove_then_get<T>(
    m0: Map<TypeId, AnyBox>,
    m1: Map<TypeId, AnyBox>,
    v: T,
)
    requires
        placed::<T>(m0, m1, v),
    ensures
        lookup::<T>(m1.remove(type_key::<T>())) is None,
{
}

/// Removing the entry for a type that has none changes nothing.
pub proof fn lemma_remove_absent<T>(m: Map<TypeId, AnyBox>)
    requires
        lookup::<T>(m) is None,
    ensures
        m.remove(type_key::<T>()) == m,
{
    assert(m.remove(type_key::<T>()) =~= m);
}

/// Storing a value for `T` does not change what is stored for a type `U` of
/// another identity.
pub proof fn lemma_insert_isolated<T, U>(pre: Map<TypeId, AnyBox>, post: Map<TypeId, AnyBox>, v: T)
    requires
        placed::<T>(pre, post, v),
        type_key::<T>() != type_key::<U>(),
    ensures
        lookup::<U>(post) == lookup::<U>(pre),
{
    if pre.contains_key(type_key::<U>()) {
        assert(post[type_key::<U>()] == pre[type_key::<U>()]);
    }
}

/// Removing the entry for `T` does not change what is stored for a type `U`
/// of another identity.
pub proof fn lemma_remove_isolated<T, U>(m: Map<TypeId, AnyBox>)
    requires
        type_key::<T>() != type_key::<U>(),
    ensures
        lookup::<U>(m.remove(type_key::<T>())) == lookup::<U>(m),
{
}

/// An `update` for a type with no entry leaves the map as it was, so still
/// nothing is stored for that type.
pub proof fn lemma_update_absent<T>(pre: Map<TypeId, AnyBox>, post: Map<TypeId, AnyBox>)
    requires
        lookup::<T>(pre) is None,
        lookup::<T>(pre) is None ==> post == pre,
    ensures
        lookup::<T>(post) is None,
{
}

/// After a handle is registered for `T` in a `RefCache`, reading `T` gives that
/// same handle.
pub proof fn lemma_handle_kept<T>(pre: Map<TypeId, AnyBox>, post: Map<TypeId, AnyBox>, handle: Rc<T>)
    requires
        placed::<Rc<T>>(pre, post, handle),
    ensures
        lookup::<Rc<T>>(post) == Some(handle),
{
}

} // verus!
