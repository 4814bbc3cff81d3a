//! A cache of one shared handle per type.
use crate::erased::AnyBox;
use crate::typeset::{lookup, placed, TypeSet};
use std::any::TypeId;
use std::rc::Rc;
use vstd::prelude::*;

verus! {

/// Relies on `Rc::clone`: a new handle to the same allocation, so the same value.
#[verifier::external_body]
fn share<T>(h: &Rc<T>) -> (r: Rc<T>)
    ensures
        r == *h,
{
    Rc::clone(h)
}

/// A cache of one value per type that stores shared handles and hands out
/// handles to the stored allocation rather than copies.
pub struct RefCache {
    set: TypeSet,
}

impl RefCache {
    pub closed spec fn wf(&self) -> bool {
        self.set.wf()
    }

    /// The entries, by type identity; the entry for `T` holds an `Rc<T>`.
    pub closed spec fn view(&self) -> Map<TypeId, AnyBox> {
        self.set@
    }

    /// An empty container.
    pub fn new() -> (r: Self)
        ensures
            r.wf(),
            r@ == Map::<TypeId, AnyBox>::empty(),
    {
        RefCache { set: TypeSet::new() }
    }

    /// A handle to the value stored for `T`, if any.
    pub fn get<T: 'static>(&self) -> (r: Option<Rc<T>>)
        requires
            self.wf(),
        ensures
            r == lookup::<Rc<T>>(self@),
    {
        match self.set.get::<Rc<T>>() {
            Some(h) => Some(share(h)),
            None => None,
        }
    }

    /// Stores `value` behind a new handle as the entry for `T` and returns the
    /// handle.
    pub fn insert<T: 'static>(&mut self, value: T) -> (r: Rc<T>)
        requires
            old(self).wf(),
        ensures
            *r == value,
            final(self).wf(),
            placed::<Rc<T>>(old(self)@, final(self)@, r),
    {
        let h = Rc::new(value);
        self.set.insert(share(&h));
        h
    }

    /// Stores `handle` itself as the entry for `T`, sharing its allocation.
    pub fn insert_ref<T: 'static>(&mut self, handle: Rc<T>)
        requires
            old(self).wf(),
        ensures
            final(self).wf(),
            placed::<Rc<T>>(old(self)@, final(self)@, handle),
    {
        self.set.insert(handle);
    }

    /// A handle to the entry for `T`; when there is none, `f` builds the
    /// value, which is stored behind a new handle first.
    pub fn ensure<T: 'static, F: FnOnce() -> T>(&mut self, f: F) -> (r: Rc<T>)
        requires
            old(self).wf(),
            lookup::<Rc<T>>(old(self)@) is None ==> f.requires(()),
        ensures
            final(self).wf(),
            lookup::<Rc<T>>(old(self)@) is Some ==> final(self)@ == old(self)@
                && Some(r) == lookup::<Rc<T>>(old(self)@),
            lookup::<Rc<T>>(old(self)@) is None ==> f.ensures((), *r)
                && placed::<Rc<T>>(old(self)@, final(self)@, r),
    {
        match self.get::<T>() {
            Some(h) => h,
            None => self.insert(f()),
        }
    }

    /// A handle to the entry for `T`; when there is none, the handle that `f`
    /// returns is stored first.
    pub fn ensure_ref<T: 'static, F: FnOnce() -> Rc<T>>(&mut self, f: F) -> (r: Rc<T>)
        requires
            old(self).wf(),
            lookup::<Rc<T>>(old(self)@) is None ==> f.requires(()),
        ensures
            final(self).wf(),
            lookup::<Rc<T>>(old(self)@) is Some ==> final(self)@ == old(self)@
                && Some(r) == lookup::<Rc<T>>(old(self)@),
            lookup::<Rc<T>>(old(self)@) is None ==> f.ensures((), r)
                && placed::<Rc<T>>(old(self)@, final(self)@, r),
    {
        match self.get::<T>() {
            Some(h) => h,
            None => {
                let h = f();
                self.insert_ref(share(&h));
                h
            },
        }
    }
}

} // verus!
