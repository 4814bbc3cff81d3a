//! A map from type identity to one owned value of that type.
use crate::erased::{box_key, content, downcast_mut, downcast_ref, erase, key_of, type_key, AnyBox};
use std::any::TypeId;
use vstd::prelude::*;

verus! {

/// The value stored for `T` in the map `m`, if any.
pub open spec fn lookup<T>(m: Map<TypeId, AnyBox>) -> Option<T> {
    if m.contains_key(type_key::<T>()) {
        Some(content::<T>(m[type_key::<T>()]))
    } else {
        None
    }
}

/// `post` is `pre` with the entry for `T` set to `v`, every other entry kept.
pub open spec fn placed<T>(pre: Map<TypeId, AnyBox>, post: Map<TypeId, AnyBox>, v: T) -> bool {
    &&& post.dom() == pre.dom().insert(type_key::<T>())
    &&& forall|k: TypeId| k != type_key::<T>() && #[trigger] pre.contains_key(k) ==> post[k] == pre[k]
    &&& box_key(post[type_key::<T>()]) == type_key::<T>()
    &&& content::<T>(post[type_key::<T>()]) == v
}

struct Slot {
    key: TypeId,
    value: AnyBox,
}

/// A heterogeneous container holding at most one value per type.
pub struct TypeSet {
    slots: Vec<Slot>,
}

/// No two slots have the same key.
spec fn unique(s: Seq<Slot>) -> bool {
    forall|i: int, j: int| 0 <= i < j < s.len() ==> #[trigger] s[i].key != #[trigger] s[j].key
}

spec fn has_key(s: Seq<Slot>, k: TypeId) -> bool {
    exists|i: int| 0 <= i < s.len() && s[i].key == k
}

/// The slots as a map from key to box.
spec fn map_of(s: Seq<Slot>) -> Map<TypeId, AnyBox> {
    Map::new(
        |k: TypeId| has_key(s, k),
        |k: TypeId| s[choose|i: int| 0 <= i < s.len() && s[i].key == k].value,
    )
}

proof fn lemma_map_at(s: Seq<Slot>, i: int)
    requires
        unique(s),
        0 <= i < s.len(),
    ensures
        map_of(s).contains_key(s[i].key),
        map_of(s)[s[i].key] == s[i].value,
{
    let k = s[i].key;
    assert(has_key(s, k));
    let j = choose|j: int| 0 <= j < s.len() && s[j].key == k;
    assert(i == j);
}

proof fn lemma_map_update(s: Seq<Slot>, i: int, b: AnyBox)
    requires
        unique(s),
        0 <= i < s.len(),
    ensures
        unique(s.update(i, Slot { key: s[i].key, value: b })),
        map_of(s.update(i, Slot { key: s[i].key, value: b })) == map_of(s).insert(s[i].key, b),
{
    let t = s.update(i, Slot { key: s[i].key, value: b });
    assert(unique(t));
    assert forall|k: TypeId| has_key(t, k) <==> has_key(s, k) by {
        if has_key(s, k) {
            let j = choose|j: int| 0 <= j < s.len() && s[j].key == k;
            assert(t[j].key == k);
        }
        if has_key(t, k) {
            let j = choose|j: int| 0 <= j < t.len() && t[j].key == k;
            assert(s[j].key == k);
        }
    }
    assert forall|k: TypeId| #[trigger] map_of(t).contains_key(k) implies map_of(t)[k] == map_of(s).insert(s[i].key, b)[k] by {
        let j = choose|j: int| 0 <= j < t.len() && t[j].key == k;
        lemma_map_at(t, j);
        lemma_map_at(s, j);
    }
    lemma_map_at(s, i);
    assert(map_of(t) =~= map_of(s).insert(s[i].key, b));
}

proof fn lemma_map_push(s: Seq<Slot>, slot: Slot)
    requires
        unique(s),
        !map_of(s).contains_key(slot.key),
    ensures
        unique(s.push(slot)),
        map_of(s.push(slot)) == map_of(s).insert(slot.key, slot.value),
{
    let t = s.push(slot);
    assert forall|j: int| 0 <= j < s.len() implies s[j].key != slot.key by {
        if s[j].key == slot.key {
            assert(has_key(s, slot.key));
        }
    }
    assert(unique(t));
    assert forall|k: TypeId| has_key(t, k) <==> (has_key(s, k) || k == slot.key) by {
        if has_key(s, k) {
            let j = choose|j: int| 0 <= j < s.len() && s[j].key == k;
            assert(t[j].key == k);
        }
        if k == slot.key {
            assert(t[s.len() as int].key == k);
        }
        if has_key(t, k) {
            let j = choose|j: int| 0 <= j < t.len() && t[j].key == k;
            if j < s.len() {
                assert(s[j].key == k);
            }
        }
    }
    assert forall|k: TypeId| #[trigger] map_of(t).contains_key(k) implies map_of(t)[k] == map_of(s).insert(slot.key, slot.value)[k] by {
        let j = choose|j: int| 0 <= j < t.len() && t[j].key == k;
        lemma_map_at(t, j);
        if j < s.len() {
            lemma_map_at(s, j);
        }
    }
    assert(map_of(t) =~= map_of(s).insert(slot.key, slot.value));
}

proof fn lemma_map_remove(s: Seq<Slot>, i: int)
    requires
        unique(s),
        0 <= i < s.len(),
    ensures
        unique(s.remove(i)),
        map_of(s.remove(i)) == map_of(s).remove(s[i].key),
{
    let t = s.remove(i);
    assert(unique(t)) by {
        assert forall|a: int, c: int| 0 <= a < c < t.len() implies #[trigger] t[a].key != #[trigger] t[c].key by {
            let a2 = if a < i { a } else { a + 1 };
            let c2 = if c < i { c } else { c + 1 };
            assert(t[a] == s[a2]);
            assert(t[c] == s[c2]);
        }
    }
    assert forall|k: TypeId| has_key(t, k) <==> (has_key(s, k) && k != s[i].key) by {
        if has_key(s, k) && k != s[i].key {
            let j = choose|j: int| 0 <= j < s.len() && s[j].key == k;
            if j < i {
                assert(t[j].key == k);
            } else {
                assert(t[j - 1].key == k);
            }
        }
        if has_key(t, k) {
            let j = choose|j: int| 0 <= j < t.len() && t[j].key == k;
            let j2 = if j < i { j } else { j + 1 };
            assert(s[j2].key == k);
        }
    }
    assert forall|k: TypeId| #[trigger] map_of(t).contains_key(k) implies map_of(t)[k] == map_of(s).remove(s[i].key)[k] by {
        let j = choose|j: int| 0 <= j < t.len() && t[j].key == k;
        let j2 = if j < i { j } else { j + 1 };
        assert(t[j] == s[j2]);
        lemma_map_at(t, j);
        lemma_map_at(s, j2);
    }
    assert(map_of(t) =~= map_of(s).remove(s[i].key));
}

/// Placing a value over a map that already had the entry for `T` replaced is
/// placing it over the map before that replacement.
proof fn lemma_placed_over<T>(pre: Map<TypeId, AnyBox>, b: AnyBox)
    ensures
        forall|post: Map<TypeId, AnyBox>, v: T| #[trigger] placed::<T>(pre.insert(type_key::<T>(), b), post, v) ==> placed::<T>(pre, post, v),
{
    assert forall|post: Map<TypeId, AnyBox>, v: T| #[trigger] placed::<T>(pre.insert(type_key::<T>(), b), post, v) implies placed::<T>(pre, post, v) by {
        let mid = pre.insert(type_key::<T>(), b);
        assert(mid.dom().insert(type_key::<T>()) =~= pre.dom().insert(type_key::<T>()));
        assert forall|k: TypeId| k != type_key::<T>() && #[trigger] pre.contains_key(k) implies post[k] == pre[k] by {
            assert(mid.contains_key(k));
        }
    }
}

impl TypeSet {
    /// Keys are unique, and each box holds a value of the type of its key.
    pub closed spec fn wf(&self) -> bool {
        &&& unique(self.slots@)
        &&& forall|i: int|
            0 <= i < self.slots@.len() ==> box_key(#[trigger] self.slots@[i].value) == self.slots@[i].key
    }

    /// The entries, by type identity.
    pub closed spec fn view(&self) -> Map<TypeId, AnyBox> {
        map_of(self.slots@)
    }

    /// An empty container.
    pub fn new() -> (r: Self)
        ensures
            r.wf(),
            r@ == Map::<TypeId, AnyBox>::empty(),
    {
        let r = TypeSet { slots: Vec::new() };
        assert(r@ =~= Map::<TypeId, AnyBox>::empty());
        r
    }

    fn find(&self, key: &TypeId) -> (r: Option<usize>)
        requires
            self.wf(),
        ensures
            match r {
                Some(i) => i < self.slots@.len() && self.slots@[i as int].key == *key,
                None => !self@.contains_key(*key),
            },
    {
        let mut i: usize = 0;
        while i < self.slots.len()
            invariant
                i <= self.slots@.len(),
                forall|j: int| 0 <= j < i ==> self.slots@[j].key != *key,
            decreases self.slots@.len() - i,
        {
            if self.slots[i].key == *key {
                return Some(i);
            }
            i = i + 1;
        }
        None
    }

    /// The value stored for `T`, if any.
    pub fn get<T: 'static>(&self) -> (r: Option<&T>)
        requires
            self.wf(),
        ensures
            r is Some <==> lookup::<T>(self@) is Some,
            r is Some ==> Some(*r->0) == lookup::<T>(self@),
    {
        let key = key_of::<T>();
        match self.find(&key) {
            Some(i) => {
                proof { lemma_map_at(self.slots@, i as int); }
                downcast_ref::<T>(&self.slots[i].value)
            },
            None => None,
        }
    }

    /// A mutable reference to the value of the slot at `i`, read at `T`.
    fn value_mut<T: 'static>(&mut self, i: usize) -> (r: &mut T)
        requires
            old(self).wf(),
            i < old(self).slots@.len(),
            old(self).slots@[i as int].key == type_key::<T>(),
        ensures
            Some(*r) == lookup::<T>(old(self)@),
            final(self).wf(),
            placed::<T>(old(self)@, final(self)@, *final(r)),
    {
        proof {
            let s = self.slots@;
            lemma_map_at(s, i as int);
            assert forall|b: AnyBox| box_key(b) == s[i as int].key implies
                #[trigger] map_of(s.update(i as int, Slot { key: s[i as int].key, value: b })) == map_of(s).insert(s[i as int].key, b) by {
                lemma_map_update(s, i as int, b);
            }
        }
        downcast_mut::<T>(&mut self.slots[i].value)
    }

    /// Stores `value` as the entry for `T`, dropping any earlier one, and gives
    /// a reference to the stored value.
    pub fn insert<T: 'static>(&mut self, value: T) -> (r: &mut T)
        requires
            old(self).wf(),
        ensures
            *r == value,
            final(self).wf(),
            placed::<T>(old(self)@, final(self)@, *final(r)),
    {
        let key = key_of::<T>();
        let boxed = erase(value);
        let ghost s = self.slots@;
        let i = match self.find(&key) {
            Some(i) => {
                proof { lemma_map_update(s, i as int, boxed); }
                self.slots.set(i, Slot { key, value: boxed });
                i
            },
            None => {
                proof { lemma_map_push(s, Slot { key, value: boxed }); }
                self.slots.push(Slot { key, value: boxed });
                self.slots.len() - 1
            },
        };
        proof {
            lemma_map_at(self.slots@, i as int);
            lemma_placed_over::<T>(map_of(s), boxed);
        }
        self.value_mut::<T>(i)
    }

    /// The entry for `T`, computing it with `f` and storing it first when
    /// there is none. `f` is called only in that case.
    pub fn ensure<T: 'static, F: FnOnce() -> T>(&mut self, f: F) -> (r: &mut T)
        requires
            old(self).wf(),
            lookup::<T>(old(self)@) is None ==> f.requires(()),
        ensures
            lookup::<T>(old(self)@) is Some ==> Some(*r) == lookup::<T>(old(self)@),
            lookup::<T>(old(self)@) is None ==> f.ensures((), *r),
            final(self).wf(),
            placed::<T>(old(self)@, final(self)@, *final(r)),
    {
        let key = key_of::<T>();
        match self.find(&key) {
            Some(i) => {
                proof { lemma_map_at(self.slots@, i as int); }
                self.value_mut::<T>(i)
            },
            None => {
                let v = f();
                self.insert(v)
            },
        }
    }

    /// A mutable reference to the entry for `T`, if any.
    pub fn get_mut<T: 'static>(&mut self) -> (r: Option<&mut T>)
        requires
            old(self).wf(),
        ensures
            final(self).wf(),
            r is Some <==> lookup::<T>(old(self)@) is Some,
            r is None ==> final(self)@ == old(self)@,
            r is Some ==> Some(*r->0) == lookup::<T>(old(self)@),
            r is Some ==> placed::<T>(old(self)@, final(self)@, *final(r->0)),
    {
        let key = key_of::<T>();
        match self.find(&key) {
            Some(i) => {
                proof { lemma_map_at(self.slots@, i as int); }
                Some(self.value_mut::<T>(i))
            },
            None => None,
        }
    }

    /// Drops the entry for `T`, if any.
    pub fn remove<T: 'static>(&mut self)
        requires
            old(self).wf(),
        ensures
            final(self).wf(),
            final(self)@ == old(self)@.remove(type_key::<T>()),
    {
        let key = key_of::<T>();
        match self.find(&key) {
            Some(i) => {
                proof { lemma_map_remove(self.slots@, i as int); }
                self.slots.remove(i);
            },
            None => {
                assert(old(self)@.remove(type_key::<T>()) =~= old(self)@);
            },
        }
    }

    /// Runs `f` on the entry for `T` in place; does nothing when there is none.
    pub fn update<T: 'static, F: FnOnce(&mut T)>(&mut self, f: F)
        requires
            old(self).wf(),
            forall|x: &mut T| f.requires((x,)),
        ensures
            final(self).wf(),
            lookup::<T>(old(self)@) is None ==> final(self)@ == old(self)@,
            lookup::<T>(old(self)@) is Some ==> exists|x: &mut T|
                Some(*x) == lookup::<T>(old(self)@)
                && #[trigger] f.ensures((x,), ())
                && placed::<T>(old(self)@, final(self)@, *final(x)),
    {
        match self.get_mut::<T>() {
            Some(x) => f(x),
            None => {},
        }
    }
}

impl Default for TypeSet {
    fn default() -> (r: Self)
        ensures
            r.wf(),
            r@ == Map::<TypeId, AnyBox>::empty(),
    {
        TypeSet::new()
    }
}

} // verus!
