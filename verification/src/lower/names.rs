//! Lists of named values: a name is bound at most once when each binding goes
//! through [`put_key`].

use crate::text::str_eq;
use vstd::prelude::*;

verus! {

/// A list of named values as a mathematical value.
pub type Named<V> = Seq<(Seq<char>, V)>;

/// A list of named values seen through their views.
pub open spec fn pairs<V: View>(s: Seq<(String, V)>) -> Named<V::V> {
    Seq::new(s.len(), |i: int| (s[i].0@, s[i].1@))
}

/// The place of the first binding of `key`, or the length when there is none.
pub open spec fn slot<V>(m: Named<V>, key: Seq<char>) -> nat
    decreases m.len(),
{
    if m.len() == 0 {
        0
    } else if slot(m.drop_last(), key) < m.len() - 1 {
        slot(m.drop_last(), key)
    } else if m.last().0 == key {
        (m.len() - 1) as nat
    } else {
        m.len()
    }
}

/// What `key` is bound to.
pub open spec fn at<V>(m: Named<V>, key: Seq<char>) -> Option<V> {
    if slot(m, key) < m.len() {
        Some(m[slot(m, key) as int].1)
    } else {
        None
    }
}

/// The list with `key` bound to `value`: in its place when it is bound
/// already, at the end otherwise.
pub open spec fn put<V>(m: Named<V>, key: Seq<char>, value: V) -> Named<V> {
    if slot(m, key) < m.len() {
        m.update(slot(m, key) as int, (key, value))
    } else {
        m.push((key, value))
    }
}

/// The list without the binding of `key`.
pub open spec fn without<V>(m: Named<V>, key: Seq<char>) -> Named<V> {
    if slot(m, key) < m.len() {
        m.remove(slot(m, key) as int)
    } else {
        m
    }
}

/// What `slot` finds in the first bindings of a list it finds in the list.
pub proof fn lemma_slot_prefix<V>(m: Named<V>, key: Seq<char>, n: int)
    requires
        0 <= n <= m.len(),
        slot(m.take(n), key) < n,
    ensures
        slot(m, key) == slot(m.take(n), key),
    decreases m.len(),
{
    if n == m.len() {
        assert(m.take(n) =~= m);
    } else {
        assert(m.drop_last().take(n) =~= m.take(n));
        lemma_slot_prefix(m.drop_last(), key, n);
    }
}

/// The slot of a key holds the key, and no earlier place does.
pub proof fn lemma_slot<V>(m: Named<V>, key: Seq<char>)
    ensures
        slot(m, key) <= m.len(),
        slot(m, key) < m.len() ==> m[slot(m, key) as int].0 == key,
        forall|i: int| 0 <= i < slot(m, key) ==> (#[trigger] m[i]).0 != key,
    decreases m.len(),
{
    if m.len() > 0 {
        lemma_slot(m.drop_last(), key);
        assert forall|i: int| 0 <= i < slot(m, key) implies (#[trigger] m[i]).0 != key by {
            if i < m.len() - 1 {
                assert(m.drop_last()[i] == m[i]);
            }
        }
        if slot(m.drop_last(), key) < m.len() - 1 {
            assert(m.drop_last()[slot(m.drop_last(), key) as int] == m[slot(m.drop_last(), key) as int]);
        }
    }
}

/// A place that holds the key with no earlier one that does is its slot.
pub proof fn lemma_slot_is<V>(m: Named<V>, key: Seq<char>, i: int)
    requires
        0 <= i < m.len(),
        m[i].0 == key,
        forall|j: int| 0 <= j < i ==> (#[trigger] m[j]).0 != key,
    ensures
        slot(m, key) == i,
{
    lemma_slot(m, key);
    let s = slot(m, key) as int;
    if s < i {
        assert(m[s].0 == key);
    }
}

/// Binding a key makes it read back, and changes what no other key reads.
pub proof fn put_reads_back<V>(m: Named<V>, key: Seq<char>, value: V, other: Seq<char>)
    ensures
        at(put(m, key, value), key) == Some(value),
        other != key ==> at(put(m, key, value), other) == at(m, other),
{
    let m2 = put(m, key, value);
    lemma_slot(m, key);
    let s = slot(m, key) as int;
    assert(m2[s].0 == key);
    assert forall|j: int| 0 <= j < s implies (#[trigger] m2[j]).0 != key by {
        assert(m[j].0 != key);
    }
    lemma_slot_is(m2, key, s);
    if other != key {
        lemma_slot(m, other);
        lemma_slot(m2, other);
        let o = slot(m, other) as int;
        let o2 = slot(m2, other) as int;
        if o < m.len() {
            assert(m2[o] == m[o]);
            assert forall|j: int| 0 <= j < o implies (#[trigger] m2[j]).0 != other by {
                assert(m[j].0 != other);
            }
            lemma_slot_is(m2, other, o);
        } else if o2 < m2.len() {
            assert(o2 != s);
            assert(m[o2].0 == other);
        }
    }
}

/// Where `key` is bound.
pub fn find_key<V: View>(v: &Vec<(String, V)>, key: &str) -> (r: Option<usize>)
    ensures
        r is Some <==> slot(pairs(v@), key@) < v@.len(),
        r matches Some(i) ==> i == slot(pairs(v@), key@) && i < v@.len(),
{
    let ghost all = pairs(v@);
    let mut i: usize = 0;
    while i < v.len()
        invariant
            all == pairs(v@),
            i <= v@.len(),
            slot(all.take(i as int), key@) == i,
        decreases v@.len() - i,
    {
        assert(all.take(i + 1).drop_last() =~= all.take(i as int));
        if str_eq(v[i].0.as_str(), key) {
            proof {
                lemma_slot_prefix(all, key@, i + 1);
            }
            return Some(i);
        }
        i += 1;
    }
    assert(all.take(i as int) =~= all);
    None
}

/// Binds `key` to `value`.
pub fn put_key<V: View>(v: &mut Vec<(String, V)>, key: String, value: V)
    ensures
        pairs(final(v)@) == put(pairs(old(v)@), key@, value@),
{
    match find_key(v, key.as_str()) {
        Some(i) => {
            v.set(i, (key, value));
        },
        None => {
            v.push((key, value));
        },
    }
    assert(pairs(v@) =~= put(pairs(old(v)@), key@, value@));
}

} // verus!
