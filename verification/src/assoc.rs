//! Finite maps kept as a list of bindings, the latest binding of a key winning.

use crate::text::str_eq;
use vstd::prelude::*;

verus! {

/// Values that can be compared through their views.
pub trait SameView: View + Sized {
    fn same(&self, other: &Self) -> (r: bool)
        ensures
            r == (self@ == other@),
    ;
}

impl SameView for String {
    fn same(&self, other: &String) -> (r: bool) {
        str_eq(self.as_str(), other.as_str())
    }
}

impl SameView for usize {
    fn same(&self, other: &usize) -> (r: bool) {
        *self == *other
    }
}

/// A place in a file, by the byte offset where something starts.
#[derive(Debug)]
pub struct PosKey {
    pub file: String,
    pub start: usize,
}

impl View for PosKey {
    type V = (Seq<char>, usize);

    open spec fn view(&self) -> (Seq<char>, usize) {
        (self.file@, self.start)
    }
}

impl SameView for PosKey {
    fn same(&self, other: &PosKey) -> (r: bool) {
        self.start == other.start && str_eq(self.file.as_str(), other.file.as_str())
    }
}

/// A stretch of a file, by its first and last byte offset.
#[derive(Debug)]
pub struct SpanKey {
    pub file: String,
    pub start: usize,
    pub end: usize,
}

impl View for SpanKey {
    type V = (Seq<char>, usize, usize);

    open spec fn view(&self) -> (Seq<char>, usize, usize) {
        (self.file@, self.start, self.end)
    }
}

impl SameView for SpanKey {
    fn same(&self, other: &SpanKey) -> (r: bool) {
        self.start == other.start && self.end == other.end && str_eq(
            self.file.as_str(),
            other.file.as_str(),
        )
    }
}

/// A map from keys to values. A later binding of a key hides the earlier ones;
/// a binding without a value removes the key.
#[derive(Debug)]
pub struct AssocMap<K, V> {
    entries: Vec<(K, Option<V>)>,
}

impl<K: View, V: View> AssocMap<K, V> {
    spec fn fold(entries: Seq<(K, Option<V>)>) -> Map<K::V, V::V>
        decreases entries.len(),
    {
        if entries.len() == 0 {
            Map::empty()
        } else {
            let before = Self::fold(entries.drop_last());
            match entries.last().1 {
                Some(v) => before.insert(entries.last().0@, v@),
                None => before.remove(entries.last().0@),
            }
        }
    }
}

impl<K: View, V: View> View for AssocMap<K, V> {
    type V = Map<K::V, V::V>;

    closed spec fn view(&self) -> Map<K::V, V::V> {
        Self::fold(self.entries@)
    }
}

impl<K: View, V: View> AssocMap<K, V> {
    /// Every key that was ever bound or removed, in order.
    pub closed spec fn slots(self) -> Seq<K::V> {
        Seq::new(self.entries@.len(), |i: int| self.entries@[i].0@)
    }

    /// A bound key is among the slots.
    pub proof fn every_key_has_a_slot(self, key: K::V)
        requires
            self@.contains_key(key),
        ensures
            self.slots().contains(key),
    {
        Self::bound_in(self.entries@, key);
        let i = choose|i: int| 0 <= i < self.entries@.len() && self.entries@[i].0@ == key;
        assert(self.slots()[i] == key);
    }

    proof fn bound_in(entries: Seq<(K, Option<V>)>, key: K::V)
        requires
            Self::fold(entries).contains_key(key),
        ensures
            exists|i: int| 0 <= i < entries.len() && entries[i].0@ == key,
        decreases entries.len(),
    {
        if entries.last().0@ != key {
            Self::bound_in(entries.drop_last(), key);
            let i = choose|i: int|
                0 <= i < entries.drop_last().len() && entries.drop_last()[i].0@ == key;
            assert(entries[i].0@ == key);
        }
    }

    /// The number of slots.
    pub fn size(&self) -> (r: usize)
        ensures
            r == self.slots().len(),
    {
        self.entries.len()
    }

    /// The key of a slot.
    pub fn slot(&self, i: usize) -> (r: &K)
        requires
            i < self.slots().len(),
        ensures
            r@ == self.slots()[i as int],
    {
        &self.entries[i].0
    }
}

impl<K: SameView, V: View> AssocMap<K, V> {
    pub fn new() -> (r: Self)
        ensures
            r@ == Map::<K::V, V::V>::empty(),
    {
        AssocMap { entries: Vec::new() }
    }

    /// Binds `key` to `value`.
    pub fn insert(&mut self, key: K, value: V)
        ensures
            final(self)@ == old(self)@.insert(key@, value@),
    {
        self.entries.push((key, Some(value)));
        assert(self.entries@.drop_last() =~= old(self).entries@);
    }

    /// Takes `key` out of the map.
    pub fn remove(&mut self, key: K)
        ensures
            final(self)@ == old(self)@.remove(key@),
    {
        self.entries.push((key, None));
        assert(self.entries@.drop_last() =~= old(self).entries@);
    }

    /// The value bound to `key`.
    pub fn get(&self, key: &K) -> (r: Option<&V>)
        ensures
            r is Some <==> self@.contains_key(key@),
            r matches Some(v) ==> v@ == self@[key@],
    {
        let mut i: usize = self.entries.len();
        assert(self.entries@.take(i as int) =~= self.entries@);
        while i > 0
            invariant
                i <= self.entries@.len(),
                Self::fold(self.entries@).contains_key(key@) == Self::fold(
                    self.entries@.take(i as int),
                ).contains_key(key@),
                Self::fold(self.entries@).contains_key(key@) ==> Self::fold(self.entries@)[key@]
                    == Self::fold(self.entries@.take(i as int))[key@],
            decreases i,
        {
            let ghost here = self.entries@.take(i as int);
            assert(here.drop_last() =~= self.entries@.take(i - 1));
            assert(here.last() == self.entries@[i - 1]);
            i -= 1;
            if self.entries[i].0.same(key) {
                return self.entries[i].1.as_ref();
            }
        }
        assert(self.entries@.take(0) =~= Seq::empty());
        None
    }

    /// Whether `key` is bound.
    pub fn contains(&self, key: &K) -> (r: bool)
        ensures
            r == self@.contains_key(key@),
    {
        self.get(key).is_some()
    }
}

} // verus!
