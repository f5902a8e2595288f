//! An insertion-ordered map from numbers to numbers.

use indexmap::IndexMap;
use vstd::prelude::*;

verus! {

/// `indexmap::IndexMap`.
#[verifier::external_type_specification]
#[verifier::external_body]
#[verifier::reject_recursive_types(K)]
#[verifier::reject_recursive_types(V)]
#[verifier::reject_recursive_types(S)]
pub struct ExIndexMap<K, V, S>(indexmap::IndexMap<K, V, S>);

/// The pairs that an `indexmap::IndexMap` holds, in their order.
pub uninterp spec fn pairs(map: IndexMap<u64, usize>) -> Seq<(u64, usize)>;

/// The position of the first pair with a key, from `from` on.
pub open spec fn pair_from(v: Seq<(u64, usize)>, key: u64, from: int) -> Option<int>
    decreases v.len() - from,
{
    if from < 0 || from >= v.len() {
        None
    } else if v[from].0 == key {
        Some(from)
    } else {
        pair_from(v, key, from + 1)
    }
}

/// The position of the pair with a key.
pub open spec fn pair_of(v: Seq<(u64, usize)>, key: u64) -> Option<int> {
    pair_from(v, key, 0)
}

/// A position that was found is the first one.
pub proof fn lemma_pair_from(v: Seq<(u64, usize)>, key: u64, from: int)
    requires
        0 <= from,
    ensures
        match pair_from(v, key, from) {
            Some(i) => from <= i < v.len() && v[i].0 == key && forall|j: int|
                from <= j < i ==> (#[trigger] v[j]).0 != key,
            None => forall|j: int| from <= j < v.len() ==> (#[trigger] v[j]).0 != key,
        },
    decreases v.len() - from,
{
    if from < v.len() && v[from].0 != key {
        lemma_pair_from(v, key, from + 1);
    }
}

/// The pairs after an insertion: a key that is there keeps its place and gets
/// the value, another one goes to the end.
pub open spec fn inserted(v: Seq<(u64, usize)>, key: u64, value: usize) -> Seq<(u64, usize)> {
    match pair_of(v, key) {
        Some(i) => v.update(i, (key, value)),
        None => v.push((key, value)),
    }
}

/// The pairs without a key; those behind it move up.
pub open spec fn removed(v: Seq<(u64, usize)>, key: u64) -> Seq<(u64, usize)> {
    match pair_of(v, key) {
        Some(i) => v.remove(i),
        None => v,
    }
}

/// `indexmap::IndexMap::new`.
///
/// Trusted: the map is empty.
#[verifier::external_body]
pub(crate) fn new_map() -> (r: IndexMap<u64, usize>)
    ensures
        pairs(r) == Seq::<(u64, usize)>::empty(),
{
    IndexMap::new()
}

/// `indexmap::IndexMap::insert`.
///
/// Trusted: a key that is there keeps its place and gets the value; another one
/// goes to the end.
#[verifier::external_body]
pub(crate) fn insert(map: &mut IndexMap<u64, usize>, key: u64, value: usize)
    ensures
        pairs(*final(map)) == inserted(pairs(*old(map)), key, value),
{
    map.insert(key, value);
}

/// `indexmap::IndexMap::shift_remove`.
///
/// Trusted: the pair with the key is gone, if there was one, and the others
/// keep their order.
#[verifier::external_body]
pub(crate) fn shift_remove(map: &mut IndexMap<u64, usize>, key: u64)
    ensures
        pairs(*final(map)) == removed(pairs(*old(map)), key),
{
    map.shift_remove(&key);
}

/// `indexmap::IndexMap::clear`.
///
/// Trusted: the map is empty.
#[verifier::external_body]
pub(crate) fn clear(map: &mut IndexMap<u64, usize>)
    ensures
        pairs(*final(map)) == Seq::<(u64, usize)>::empty(),
{
    map.clear();
}

/// `indexmap::IndexMap::len`.
///
/// Trusted: the number of pairs.
#[verifier::external_body]
pub(crate) fn len(map: &IndexMap<u64, usize>) -> (r: usize)
    ensures
        r == pairs(*map).len(),
{
    map.len()
}

/// `indexmap::IndexMap::get_index`.
///
/// Trusted: the pair at a position, if there are so many.
#[verifier::external_body]
pub(crate) fn get_index(map: &IndexMap<u64, usize>, index: usize) -> (r: Option<(u64, usize)>)
    ensures
        r == (if index < pairs(*map).len() {
            Some(pairs(*map)[index as int])
        } else {
            None
        }),
{
    map.get_index(index).map(|(k, v)| (*k, *v))
}

/// Inserting gives the key the value and leaves the other pairs, and removing takes
/// the key out and leaves the other pairs; nothing else moves out of its order.
pub proof fn law_pairs_after_a_change(v: Seq<(u64, usize)>, key: u64, value: usize, i: int)
    ensures
        (forall|j: int| 0 <= j < v.len() ==> (#[trigger] v[j]).0 != key) ==> inserted(v, key, value)
            == v.push((key, value)) && removed(v, key) == v,
        0 <= i < v.len() && v[i].0 == key && (forall|j: int|
            0 <= j < i ==> (#[trigger] v[j]).0 != key) ==> inserted(v, key, value) == v.take(i)
            + seq![(key, value)] + v.skip(i + 1) && removed(v, key) == v.take(i) + v.skip(i + 1),
{
    lemma_pair_from(v, key, 0);
    if 0 <= i < v.len() && v[i].0 == key && (forall|j: int|
        0 <= j < i ==> (#[trigger] v[j]).0 != key) {
        assert(pair_of(v, key) == Some(i));
        assert(inserted(v, key, value) =~= v.take(i) + seq![(key, value)] + v.skip(i + 1));
        assert(removed(v, key) =~= v.take(i) + v.skip(i + 1));
    }
}

} // verus!
