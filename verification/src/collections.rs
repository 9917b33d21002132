//! Small insertion-ordered maps and sets.
//!
//! A window manager tracks tens of windows, not thousands, so both containers are plain vectors
//! searched from the front. Their views are the mathematical map and set; `order` gives the keys
//! in the order in which they were first inserted.

use vstd::prelude::*;

verus! {

/// A value that can be compared exactly, and so can be a key.
pub trait Key: Copy {
    fn same(&self, other: &Self) -> (r: bool)
        ensures
            r == (*self == *other),
    ;
}

impl Key for u32 {
    fn same(&self, other: &Self) -> (r: bool) {
        *self == *other
    }
}

impl Key for i32 {
    fn same(&self, other: &Self) -> (r: bool) {
        *self == *other
    }
}

impl Key for u64 {
    fn same(&self, other: &Self) -> (r: bool) {
        *self == *other
    }
}

impl Key for u128 {
    fn same(&self, other: &Self) -> (r: bool) {
        *self == *other
    }
}

impl Key for u16 {
    fn same(&self, other: &Self) -> (r: bool) {
        *self == *other
    }
}

/// The position of `k` in `keys`.
pub fn position<K: Key>(keys: &Vec<K>, k: &K) -> (r: Option<usize>)
    ensures
        match r {
            Some(i) => i < keys@.len() && keys@[i as int] == *k && (forall|j: int|
                0 <= j < i ==> keys@[j] != *k),
            None => !keys@.contains(*k),
        },
{
    let mut i: usize = 0;
    while i < keys.len()
        invariant
            i <= keys@.len(),
            forall|j: int| 0 <= j < i ==> keys@[j] != *k,
        decreases keys@.len() - i,
    {
        if keys[i].same(k) {
            return Some(i);
        }
        i = i + 1;
    }
    None
}

/// Whether `k` occurs in `keys`.
pub fn contains<K: Key>(keys: &Vec<K>, k: &K) -> (r: bool)
    ensures
        r == keys@.contains(*k),
{
    match position(keys, k) {
        Some(i) => {
            assert(keys@[i as int] == *k);
            true
        },
        None => false,
    }
}

/// A copy of `v`.
pub fn copied<K: Copy>(v: &Vec<K>) -> (r: Vec<K>)
    ensures
        r@ == v@,
{
    let mut r: Vec<K> = Vec::new();
    let mut i: usize = 0;
    while i < v.len()
        invariant
            i <= v@.len(),
            r@ == v@.take(i as int),
        decreases v@.len() - i,
    {
        r.push(v[i]);
        assert(v@.take(i + 1) == v@.take(i as int).push(v@[i as int]));
        i = i + 1;
    }
    assert(v@.take(v@.len() as int) == v@);
    r
}

pub proof fn lemma_take_next<T>(s: Seq<T>, i: int)
    requires
        0 <= i < s.len(),
        s.no_duplicates(),
    ensures
        !s.take(i).contains(s[i]),
        forall|k: T| #[trigger] s.take(i + 1).contains(k) <==> (s.take(i).contains(k) || k == s[i]),
{
    if s.take(i).contains(s[i]) {
        let j = s.take(i).index_of(s[i]);
        assert(s[j] == s[i]);
    }
    assert forall|k: T| #[trigger]
        s.take(i + 1).contains(k) <==> (s.take(i).contains(k) || k == s[i]) by {
        if s.take(i).contains(k) {
            let j = s.take(i).index_of(k);
            assert(s.take(i + 1)[j] == k);
        }
        assert(s.take(i + 1)[i] == s[i]);
        if s.take(i + 1).contains(k) && k != s[i] {
            let j = s.take(i + 1).index_of(k);
            assert(s.take(i)[j] == k);
        }
    }
}

pub proof fn lemma_push_contains<T>(s: Seq<T>, x: T)
    ensures
        forall|k: T| #[trigger] s.push(x).contains(k) <==> (s.contains(k) || k == x),
{
    assert forall|k: T| #[trigger] s.push(x).contains(k) <==> (s.contains(k) || k == x) by {
        if s.contains(k) {
            let j = s.index_of(k);
            assert(s.push(x)[j] == k);
        }
        assert(s.push(x)[s.len() as int] == x);
        if s.push(x).contains(k) && k != x {
            let j = s.push(x).index_of(k);
            assert(s[j] == k);
        }
    }
}

pub proof fn lemma_push_new<T>(s: Seq<T>, x: T)
    requires
        s.no_duplicates(),
        !s.contains(x),
    ensures
        s.push(x).no_duplicates(),
        forall|k: T| #[trigger] s.push(x).contains(k) <==> (s.contains(k) || k == x),
{
    lemma_push_contains(s, x);
    assert forall|i: int, j: int|
        0 <= i < s.push(x).len() && 0 <= j < s.push(x).len() && i != j implies s.push(x)[i]
        != s.push(x)[j] by {
        if i < s.len() {
            assert(s.contains(s[i]));
        }
        if j < s.len() {
            assert(s.contains(s[j]));
        }
    }
}

/// A map whose keys are compared with [`Key::same`].
pub struct VecMap<K: Key, V> {
    keys: Vec<K>,
    values: Vec<V>,
}

impl<K: Key, V> VecMap<K, V> {
    #[verifier::type_invariant]
    spec fn inv(self) -> bool {
        &&& self.keys@.len() == self.values@.len()
        &&& self.keys@.no_duplicates()
    }

    /// The keys in the order in which they were first inserted.
    pub closed spec fn order(self) -> Seq<K> {
        self.keys@
    }

    pub closed spec fn view(self) -> Map<K, V> {
        Map::new(
            |k: K| self.keys@.contains(k),
            |k: K| self.values@[self.keys@.index_of(k)],
        )
    }

    pub fn new() -> (r: Self)
        ensures
            r@ == Map::<K, V>::empty(),
            r.order() == Seq::<K>::empty(),
    {
        let r = VecMap { keys: Vec::new(), values: Vec::new() };
        assert(r@ =~= Map::<K, V>::empty());
        r
    }

    pub fn is_empty(&self) -> (r: bool)
        ensures
            r == (self@ == Map::<K, V>::empty()),
    {
        proof {
            use_type_invariant(self);
        }
        let r = self.keys.len() == 0;
        proof {
            if self.keys@.len() == 0 {
                assert(self@ =~= Map::<K, V>::empty());
            } else {
                assert(self.keys@.contains(self.keys@[0]));
                assert(self@.dom().contains(self.keys@[0]));
            }
        }
        r
    }

    pub fn contains_key(&self, k: &K) -> (r: bool)
        ensures
            r == self@.dom().contains(*k),
    {
        contains(&self.keys, k)
    }

    pub fn get(&self, k: &K) -> (r: Option<&V>)
        ensures
            match r {
                Some(v) => self@.dom().contains(*k) && *v == self@[*k],
                None => !self@.dom().contains(*k),
            },
    {
        proof {
            use_type_invariant(self);
        }
        match position(&self.keys, k) {
            Some(i) => {
                assert(self.keys@.index_of(*k) == i);
                Some(&self.values[i])
            },
            None => None,
        }
    }

    /// Associates `v` with `k` and hands back what was there.
    pub fn insert(&mut self, k: K, v: V) -> (r: Option<V>)
        ensures
            final(self)@ == old(self)@.insert(k, v),
            r == (if old(self)@.dom().contains(k) {
                Some(old(self)@[k])
            } else {
                None::<V>
            }),
            final(self).order() == (if old(self)@.dom().contains(k) {
                old(self).order()
            } else {
                old(self).order().push(k)
            }),
    {
        proof {
            use_type_invariant(&*self);
        }
        let ghost before = *self;
        let mut taken: Self = VecMap::new();
        std::mem::swap(self, &mut taken);
        let VecMap { mut keys, mut values } = taken;
        let mut r: Option<V> = None;
        match position(&keys, &k) {
            Some(i) => {
                let mut slot = v;
                std::mem::swap(&mut values[i], &mut slot);
                r = Some(slot);
                assert(before.keys@.index_of(k) == i);
            },
            None => {
                keys.push(k);
                values.push(v);
            },
        }
        *self = VecMap { keys, values };
        proof {
            let after = *self;
            assert forall|x: K| #![auto] after.keys@.contains(x) <==> (before.keys@.contains(x) || x == k) by {
                if before.keys@.contains(x) {
                    let j = before.keys@.index_of(x);
                    assert(after.keys@[j] == x);
                }
                if x == k && !before.keys@.contains(k) {
                    assert(after.keys@[before.keys@.len() as int] == k);
                }
                if after.keys@.contains(x) && x != k {
                    let j = after.keys@.index_of(x);
                    assert(before.keys@[j] == x);
                }
            }
            assert forall|x: K| after.keys@.contains(x) implies #[trigger] after@[x] == before@.insert(k, v)[x] by {
                let j = after.keys@.index_of(x);
                if x == k {
                    if before.keys@.contains(k) {
                        assert(after.keys@ == before.keys@);
                        assert(after.keys@[before.keys@.index_of(k)] == k);
                    } else {
                        assert(after.keys@[before.keys@.len() as int] == k);
                    }
                } else {
                    let b = before.keys@.index_of(x);
                    assert(before.keys@.contains(x));
                    assert(after.keys@[b] == x);
                    assert(b == j);
                }
            }
            assert(after@ =~= before@.insert(k, v));
        }
        r
    }

    /// Forgets `k` and hands back what was there.
    pub fn remove(&mut self, k: &K) -> (r: Option<V>)
        ensures
            final(self)@ == old(self)@.remove(*k),
            r == (if old(self)@.dom().contains(*k) {
                Some(old(self)@[*k])
            } else {
                None::<V>
            }),
    {
        proof {
            use_type_invariant(&*self);
        }
        let ghost before = *self;
        let mut taken: Self = VecMap::new();
        std::mem::swap(self, &mut taken);
        let VecMap { mut keys, mut values } = taken;
        let mut r: Option<V> = None;
        match position(&keys, k) {
            Some(i) => {
                let _ = keys.remove(i);
                let v = values.remove(i);
                r = Some(v);
                proof {
                    assert(before.keys@.index_of(*k) == i);
                    assert(keys@ == before.keys@.remove(i as int));
                    assert forall|a: int, b: int| 0 <= a < keys@.len() && 0 <= b < keys@.len() && a != b implies keys@[a] != keys@[b] by {
                        let a0 = if a < i { a } else { a + 1 };
                        let b0 = if b < i { b } else { b + 1 };
                        assert(keys@[a] == before.keys@[a0]);
                        assert(keys@[b] == before.keys@[b0]);
                    }
                }
            },
            None => {},
        }
        *self = VecMap { keys, values };
        proof {
            let after = *self;
            if before.keys@.contains(*k) {
                let i = before.keys@.index_of(*k);
                assert forall|x: K| #![auto] after.keys@.contains(x) <==> (before.keys@.contains(x) && x != *k) by {
                    if before.keys@.contains(x) && x != *k {
                        let j = before.keys@.index_of(x);
                        let j0 = if j < i { j } else { j - 1 };
                        assert(after.keys@[j0] == x);
                    }
                    if after.keys@.contains(x) {
                        let j = after.keys@.index_of(x);
                        let j0 = if j < i { j } else { j + 1 };
                        assert(before.keys@[j0] == x);
                        assert(j0 != i);
                    }
                }
                assert forall|x: K| after.keys@.contains(x) implies #[trigger] after@[x] == before@[x] by {
                    let j = after.keys@.index_of(x);
                    let j0 = if j < i { j } else { j + 1 };
                    assert(before.keys@[j0] == x);
                    assert(before.keys@.index_of(x) == j0);
                }
            }
            assert(after@ =~= before@.remove(*k));
        }
        r
    }

    /// Another map with the same entries in the same order.
    pub fn duplicate(&self) -> (r: Self) where V: Copy
        ensures
            r@ == self@,
            r.order() == self.order(),
    {
        proof {
            use_type_invariant(self);
        }
        VecMap { keys: copied(&self.keys), values: copied(&self.values) }
    }

    pub fn clear(&mut self)
        ensures
            final(self)@ == Map::<K, V>::empty(),
            final(self).order() == Seq::<K>::empty(),
    {
        *self = VecMap::new();
    }

    /// Every key, once.
    pub fn keys(&self) -> (r: Vec<K>)
        ensures
            r@ == self.order(),
            r@.no_duplicates(),
            forall|k: K| r@.contains(k) <==> self@.dom().contains(k),
    {
        proof {
            use_type_invariant(self);
        }
        copied(&self.keys)
    }
}

/// A set whose members are compared with [`Key::same`].
pub struct VecSet<K: Key> {
    items: Vec<K>,
}

impl<K: Key> VecSet<K> {
    #[verifier::type_invariant]
    spec fn inv(self) -> bool {
        self.items@.no_duplicates()
    }

    pub closed spec fn view(self) -> Set<K> {
        Set::new(|k: K| self.items@.contains(k))
    }

    pub fn new() -> (r: Self)
        ensures
            r@ == Set::<K>::empty(),
    {
        let r = VecSet { items: Vec::new() };
        assert(r@ =~= Set::<K>::empty());
        r
    }

    pub fn contains(&self, k: &K) -> (r: bool)
        ensures
            r == self@.contains(*k),
    {
        contains(&self.items, k)
    }

    pub fn is_empty(&self) -> (r: bool)
        ensures
            r == (self@ == Set::<K>::empty()),
    {
        proof {
            if self.items@.len() == 0 {
                assert(self@ =~= Set::<K>::empty());
            } else {
                assert(self.items@.contains(self.items@[0]));
                assert(self@.contains(self.items@[0]));
            }
        }
        self.items.len() == 0
    }

    /// Another set with the same members.
    pub fn duplicate(&self) -> (r: Self)
        ensures
            r@ == self@,
    {
        proof {
            use_type_invariant(self);
        }
        VecSet { items: copied(&self.items) }
    }

    /// Adds `k`; the result says whether it was new.
    pub fn insert(&mut self, k: K) -> (r: bool)
        ensures
            final(self)@ == old(self)@.insert(k),
            r == !old(self)@.contains(k),
    {
        proof {
            use_type_invariant(&*self);
        }
        if contains(&self.items, &k) {
            assert(self@ =~= old(self)@.insert(k));
            return false;
        }
        let ghost before = *self;
        let mut items: Vec<K> = Vec::new();
        std::mem::swap(&mut items, &mut self.items);
        items.push(k);
        *self = VecSet { items };
        proof {
            let after = *self;
            assert forall|x: K| #![auto] after.items@.contains(x) <==> (before.items@.contains(x) || x == k) by {
                if before.items@.contains(x) {
                    let j = before.items@.index_of(x);
                    assert(after.items@[j] == x);
                }
                assert(after.items@[before.items@.len() as int] == k);
                if after.items@.contains(x) && x != k {
                    let j = after.items@.index_of(x);
                    assert(before.items@[j] == x);
                }
            }
            assert(after@ =~= before@.insert(k));
        }
        true
    }

    /// Drops `k`; the result says whether it was there.
    pub fn remove(&mut self, k: &K) -> (r: bool)
        ensures
            final(self)@ == old(self)@.remove(*k),
            r == old(self)@.contains(*k),
    {
        proof {
            use_type_invariant(&*self);
        }
        let ghost before = *self;
        match position(&self.items, k) {
            None => {
                assert(self@ =~= old(self)@.remove(*k));
                false
            },
            Some(i) => {
                let mut items: Vec<K> = Vec::new();
                std::mem::swap(&mut items, &mut self.items);
                let _ = items.remove(i);
                proof {
                    assert(items@ == before.items@.remove(i as int));
                    assert forall|a: int, b: int| 0 <= a < items@.len() && 0 <= b < items@.len() && a != b implies items@[a] != items@[b] by {
                        let a0 = if a < i { a } else { a + 1 };
                        let b0 = if b < i { b } else { b + 1 };
                        assert(items@[a] == before.items@[a0]);
                        assert(items@[b] == before.items@[b0]);
                    }
                }
                *self = VecSet { items };
                proof {
                    let after = *self;
                    assert forall|x: K| #![auto] after.items@.contains(x) <==> (before.items@.contains(x) && x != *k) by {
                        if before.items@.contains(x) && x != *k {
                            let j = before.items@.index_of(x);
                            let j0 = if j < i { j } else { j - 1 };
                            assert(after.items@[j0] == x);
                        }
                        if after.items@.contains(x) {
                            let j = after.items@.index_of(x);
                            let j0 = if j < i { j } else { j + 1 };
                            assert(before.items@[j0] == x);
                            assert(j0 != i);
                        }
                    }
                    assert(before.items@[i as int] == *k);
                    assert(after@ =~= before@.remove(*k));
                }
                true
            },
        }
    }

    pub fn clear(&mut self)
        ensures
            final(self)@ == Set::<K>::empty(),
    {
        *self = VecSet::new();
    }

    /// Every member, once.
    pub fn items(&self) -> (r: Vec<K>)
        ensures
            r@.no_duplicates(),
            forall|k: K| r@.contains(k) <==> self@.contains(k),
    {
        proof {
            use_type_invariant(self);
        }
        copied(&self.items)
    }
}

} // verus!
