//! Containers that hold at most one value per type.
//!
//! `TypeSet` is the map itself. `SingletonCache` hands out clones of the
//! stored values; `RefCache` stores shared handles and hands out handles to
//! the same allocation.
pub mod erased;
pub mod laws;
pub mod ref_cache;
pub mod typeset;

pub use crate::ref_cache::RefCache;
pub use crate::typeset::TypeSet;

use crate::erased::{type_key, AnyBox};
use crate::typeset::{lookup, placed};
use std::any::TypeId;
use vstd::prelude::*;

verus! {

/// A cache of one value per type that hands out clones of what it stores.
pub struct SingletonCache {
    set: TypeSet,
}

impl SingletonCache {
    pub closed spec fn wf(&self) -> bool {
        self.set.wf()
    }

    /// The entries, by type identity.
    pub closed spec fn view(&self) -> Map<TypeId, AnyBox> {
        self.set@
    }

    /// An empty container.
    pub fn new() -> (r: Self)
        ensures
            r.wf(),
            r@ == Map::<TypeId, AnyBox>::empty(),
    {
        SingletonCache { set: TypeSet::new() }
    }

    /// A clone of the value stored for `T`, if any.
    pub fn get<T: Clone + 'static>(&self) -> (r: Option<T>)
        requires
            self.wf(),
        ensures
            r is Some <==> lookup::<T>(self@) is Some,
            r is Some ==> cloned(lookup::<T>(self@)->0, r->0),
    {
        match self.set.get::<T>() {
            Some(v) => Some(v.clone()),
            None => None,
        }
    }

    /// Stores `value` as the entry for `T`, dropping any earlier one.
    pub fn insert<T: 'static>(&mut self, value: T)
        requires
            old(self).wf(),
        ensures
            final(self).wf(),
            placed::<T>(old(self)@, final(self)@, value),
    {
        self.set.insert(value);
    }

    /// Drops the entry for `T`, if any.
    pub fn remove<T: 'static>(&mut self)
        requires
            old(self).wf(),
        ensures
            final(self).wf(),
            final(self)@ == old(self)@.remove(type_key::<T>()),
    {
        self.set.remove::<T>();
    }

    /// A clone of the entry for `T`, computed with `f` and stored first when
    /// there is none. `f` is called only in that case.
    pub fn ensure<T: Clone + 'static, F: FnOnce() -> T>(&mut self, f: F) -> (r: T)
        requires
            old(self).wf(),
            lookup::<T>(old(self)@) is None ==> f.requires(()),
        ensures
            final(self).wf(),
            lookup::<T>(old(self)@) is Some ==> placed::<T>(old(self)@, final(self)@, lookup::<T>(old(self)@)->0)
                && cloned(lookup::<T>(old(self)@)->0, r),
            lookup::<T>(old(self)@) is None ==> exists|v: T|
                #[trigger] f.ensures((), v) && placed::<T>(old(self)@, final(self)@, v) && cloned(v, r),
    {
        let v = self.set.ensure(f);
        v.clone()
    }
}

} // verus!
