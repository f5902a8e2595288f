//! The configured key bindings.

use indexmap::IndexMap;
use vstd::prelude::*;

use crate::config::index_map::{
    self, inserted, lemma_pair_from, pair_of, pairs, removed,
};
use crate::console::action::{
    lemma_same_symmetric, lemma_same_transitive, same_action, Action,
};
use crate::console::keymap::{action_for, key_for, Bindings, Keymap, KeymapGroup};
use crate::term::key::Key;
use crate::term::key_number::{key_number, law_keys_have_their_own_numbers, number_of};

verus! {

/// The configured bindings of one group, in the order in which the keys first
/// came.
#[derive(Debug)]
pub struct KeyTable {
    /// From the number of a key to the slot of its binding.
    map: IndexMap<u64, usize>,
    slots: Vec<(Key, Action)>,
}

/// The bindings with a key bound: one that is there keeps its place.
pub open spec fn bound(v: Seq<(Key, Action)>, key: Key, action: Action) -> Seq<(Key, Action)> {
    match place_of(v, key) {
        Some(i) => v.update(i, (key, action)),
        None => v.push((key, action)),
    }
}

/// The bindings without a key.
pub open spec fn unbound(v: Seq<(Key, Action)>, key: Key) -> Seq<(Key, Action)> {
    match place_of(v, key) {
        Some(i) => v.remove(i),
        None => v,
    }
}

/// The place of a key, from `from` on.
pub open spec fn place_from(v: Seq<(Key, Action)>, key: Key, from: int) -> Option<int>
    decreases v.len() - from,
{
    if from < 0 || from >= v.len() {
        None
    } else if v[from].0 == key {
        Some(from)
    } else {
        place_from(v, key, from + 1)
    }
}

/// The place of a key.
pub open spec fn place_of(v: Seq<(Key, Action)>, key: Key) -> Option<int> {
    place_from(v, key, 0)
}

impl View for KeyTable {
    type V = Seq<(Key, Action)>;

    closed spec fn view(&self) -> Seq<(Key, Action)> {
        Seq::new(pairs(self.map).len(), |i: int| self.slots@[pairs(self.map)[i].1 as int])
    }
}

impl KeyTable {
    /// Every pair leads to a binding of its key, and no key is there twice.
    pub closed spec fn wf(&self) -> bool {
        let v = pairs(self.map);
        &&& forall|i: int|
            0 <= i < v.len() ==> (#[trigger] v[i]).1 < self.slots@.len() && number_of(
                self.slots@[v[i].1 as int].0,
            ) == v[i].0
        &&& forall|i: int, j: int|
            0 <= i < j < v.len() ==> (#[trigger] v[i]).0 != (#[trigger] v[j]).0
    }

    proof fn lemma_places(&self, key: Key, from: int)
        requires
            self.wf(),
            0 <= from,
        ensures
            crate::config::index_map::pair_from(pairs(self.map), number_of(key) as u64, from)
                == place_from(self@, key, from),
        decreases pairs(self.map).len() - from,
    {
        let v = pairs(self.map);
        if from < v.len() {
            let there = self.slots@[v[from].1 as int].0;
            lemma_number_fits(key);
            assert(self@[from].0 == there);
            if number_of(there) == number_of(key) {
                law_keys_have_their_own_numbers(there, key);
            }
            self.lemma_places(key, from + 1);
        }
    }

    /// No bindings.
    pub fn new() -> (r: Self)
        ensures
            r.wf(),
            r@ == Seq::<(Key, Action)>::empty(),
    {
        let r = KeyTable { map: index_map::new_map(), slots: Vec::new() };
        assert(r@ =~= Seq::<(Key, Action)>::empty());
        r
    }

    /// Binds `key` to `action`.
    pub fn insert(&mut self, key: Key, action: Action)
        requires
            old(self).wf(),
        ensures
            final(self).wf(),
            final(self)@ == bound(old(self)@, key, action),
    {
        let ghost before = *self;
        let ghost v = pairs(self.map);
        let number = key_number(key);
        let slot: usize = self.slots.len();
        proof {
            lemma_pair_from(v, number, 0);
            self.lemma_places(key, 0);
        }
        self.slots.push((key, action));
        index_map::insert(&mut self.map, number, slot);
        proof {
            let w = pairs(self.map);
            assert(w == inserted(v, number, slot));
            assert forall|i: int| 0 <= i < w.len() implies (#[trigger] w[i]).1 < self.slots@.len()
                && number_of(self.slots@[w[i].1 as int].0) == w[i].0 by {
                if i < v.len() {
                    assert(v[i].1 < before.slots@.len());
                }
            }
            assert forall|i: int, j: int| 0 <= i < j < w.len() implies (#[trigger] w[i]).0 != (
            #[trigger] w[j]).0 by {
                if j < v.len() {
                    assert(v[i].0 != v[j].0);
                }
            }
            assert forall|i: int| 0 <= i < v.len() implies #[trigger] before@[i]
                == self.slots@[v[i].1 as int] by {
                assert(v[i].1 < before.slots@.len());
            }
            assert(self@ =~= bound(before@, key, action));
        }
    }

    /// Takes back what `key` does.
    pub fn remove(&mut self, key: Key)
        requires
            old(self).wf(),
        ensures
            final(self).wf(),
            final(self)@ == unbound(old(self)@, key),
    {
        let ghost before = *self;
        let ghost v = pairs(self.map);
        let number = key_number(key);
        proof {
            lemma_pair_from(v, number, 0);
            self.lemma_places(key, 0);
        }
        index_map::shift_remove(&mut self.map, number);
        proof {
            let w = pairs(self.map);
            assert(w == removed(v, number));
            match pair_of(v, number) {
                Some(at) => {
                    assert forall|i: int| 0 <= i < w.len() implies #[trigger] w[i] == (if i < at {
                        v[i]
                    } else {
                        v[i + 1]
                    }) by {}
                },
                None => {},
            }
            assert(self@ =~= unbound(before@, key));
        }
    }

    /// Takes back everything.
    pub fn clear(&mut self)
        requires
            old(self).wf(),
        ensures
            final(self).wf(),
            final(self)@ == Seq::<(Key, Action)>::empty(),
    {
        index_map::clear(&mut self.map);
        assert(self@ =~= Seq::<(Key, Action)>::empty());
    }

    /// The number of bindings.
    pub fn len(&self) -> (r: usize)
        ensures
            r == self@.len(),
    {
        index_map::len(&self.map)
    }

    /// The binding at a place.
    pub fn at(&self, index: usize) -> (r: Option<(Key, &Action)>)
        requires
            self.wf(),
        ensures
            match r {
                Some(found) => index < self@.len() && self@[index as int] == (found.0, *found.1),
                None => index >= self@.len(),
            },
    {
        match index_map::get_index(&self.map, index) {
            Some((_, slot)) => {
                assert(pairs(self.map)[index as int].1 == slot);
                let binding = &self.slots[slot];
                Some((binding.0, &binding.1))
            },
            None => None,
        }
    }
}

proof fn lemma_number_fits(key: Key)
    ensures
        0 <= number_of(key) <= u64::MAX,
{
}

/// The configured key bindings.
#[derive(Debug)]
pub struct KeymapConfig {
    tasks: KeyTable,
    term: KeyTable,
    copy: KeyTable,
}

impl KeymapConfig {
    /// The tables can be used.
    pub closed spec fn wf(&self) -> bool {
        self.tasks.wf() && self.term.wf() && self.copy.wf()
    }

    /// The bindings of a group.
    pub closed spec fn spec_group(&self, group: KeymapGroup) -> Seq<(Key, Action)> {
        match group {
            KeymapGroup::Tasks => self.tasks@,
            KeymapGroup::Term => self.term@,
            KeymapGroup::Copy => self.copy@,
        }
    }

    /// The bindings of a group.
    pub fn group(&self, group: KeymapGroup) -> (r: &KeyTable)
        requires
            self.wf(),
        ensures
            r.wf(),
            r@ == self.spec_group(group),
    {
        match group {
            KeymapGroup::Tasks => &self.tasks,
            KeymapGroup::Term => &self.term,
            KeymapGroup::Copy => &self.copy,
        }
    }

    /// The bindings of a group, to be changed.
    pub fn group_mut(&mut self, group: KeymapGroup) -> (r: &mut KeyTable)
        requires
            old(self).wf(),
        ensures
            r.wf(),
            r@ == old(self).spec_group(group),
            final(r).wf() ==> final(self).wf(),
            final(self).spec_group(group) == final(r)@,
            forall|other: KeymapGroup|
                other != group ==> #[trigger] final(self).spec_group(other) == old(
                    self,
                ).spec_group(other),
    {
        match group {
            KeymapGroup::Tasks => &mut self.tasks,
            KeymapGroup::Term => &mut self.term,
            KeymapGroup::Copy => &mut self.copy,
        }
    }
}

impl KeymapConfig {
    /// Tables without bindings, to be filled.
    pub fn new() -> (r: Self)
        ensures
            r.wf(),
            forall|group: KeymapGroup|
                #[trigger] r.spec_group(group) == Seq::<(Key, Action)>::empty(),
    {
        KeymapConfig { tasks: KeyTable::new(), term: KeyTable::new(), copy: KeyTable::new() }
    }
}

/// What a key does by a list of bindings, the later ones counting.
pub open spec fn last_action(v: Seq<(Key, Action)>, key: Key) -> Option<Action>
    decreases v.len(),
{
    if v.len() == 0 {
        None
    } else if v.last().0 == key {
        Some(v.last().1)
    } else {
        last_action(v.drop_last(), key)
    }
}

/// The key for an action by a list of bindings, the later ones counting.
pub open spec fn last_key(v: Seq<(Key, Action)>, action: Action) -> Option<Key>
    decreases v.len(),
{
    if v.len() == 0 {
        None
    } else if same_action(action, v.last().1) {
        Some(v.last().0)
    } else {
        last_key(v.drop_last(), action)
    }
}

/// Bindings do what a list of bindings says, in both directions.
pub open spec fn follows(b: Bindings, v: Seq<(Key, Action)>) -> bool {
    &&& forall|key: Key|
        match last_action(v, key) {
            Some(action) => #[trigger] action_for(b.by_key@, key) is Some && same_action(
                action_for(b.by_key@, key)->Some_0,
                action,
            ),
            None => action_for(b.by_key@, key) is None,
        }
    &&& forall|action: Action| #[trigger] key_for(b.by_action@, action) == last_key(v, action)
}

proof fn lemma_follows_next(b: Bindings, c: Bindings, v: Seq<(Key, Action)>, key: Key, action: Action, bound: Action)
    requires
        follows(b, v),
        c.binds(b, key, bound),
        same_action(bound, action),
    ensures
        follows(c, v.push((key, action))),
{
    let w = v.push((key, action));
    assert(w.drop_last() =~= v);
    assert forall|k: Key|
        match last_action(w, k) {
            Some(a) => #[trigger] action_for(c.by_key@, k) is Some && same_action(
                action_for(c.by_key@, k)->Some_0,
                a,
            ),
            None => action_for(c.by_key@, k) is None,
        } by {
        if k == key {
            lemma_same_transitive(action_for(c.by_key@, key)->Some_0, bound, action);
        } else {
            assert(action_for(c.by_key@, k) == action_for(b.by_key@, k));
        }
    }
    assert forall|a: Action| #[trigger] key_for(c.by_action@, a) == last_key(w, a) by {
        if same_action(a, bound) {
            lemma_same_transitive(a, bound, action);
        } else {
            if same_action(a, action) {
                lemma_same_symmetric(bound, action);
                lemma_same_transitive(a, action, bound);
            }
            assert(key_for(c.by_action@, a) == key_for(b.by_action@, a));
        }
    }
}

impl KeymapConfig {
    fn build_group(&self, group: KeymapGroup, keymap: &mut Keymap)
        requires
            self.wf(),
            old(keymap).wf(),
            follows(old(keymap).spec_group(group), Seq::empty()),
        ensures
            final(keymap).wf(),
            follows(final(keymap).spec_group(group), self.spec_group(group)),
            forall|other: KeymapGroup|
                other != group ==> #[trigger] final(keymap).spec_group(other) == old(
                    keymap,
                ).spec_group(other),
    {
        let table = self.group(group);
        let ghost all = self.spec_group(group);
        assert(all.take(0) =~= Seq::empty());
        let count: usize = table.len();
        for i in 0..count
            invariant
                count == all.len(),
                keymap.wf(),
                table.wf(),
                table@ == all,
                all == self.spec_group(group),
                follows(keymap.spec_group(group), all.take(i as int)),
                forall|other: KeymapGroup|
                    other != group ==> #[trigger] keymap.spec_group(other) == old(
                        keymap,
                    ).spec_group(other),
        {
            let (key, action) = match table.at(i) {
                Some(binding) => binding,
                None => {
                    return;
                },
            };
            let ghost before = keymap.spec_group(group);
            let copy = action.duplicate();
            let ghost given = copy;
            keymap.bind(group, key, copy);
            proof {
                lemma_follows_next(
                    before,
                    keymap.spec_group(group),
                    all.take(i as int),
                    key,
                    *action,
                    given,
                );
                assert(all.take(i as int).push((key, *action)) =~= all.take(i + 1));
            }
        }
        assert(all.take(all.len() as int) =~= all);
    }

    /// The keymap that does what the configuration says.
    pub fn build(&self) -> (r: Keymap)
        requires
            self.wf(),
        ensures
            r.wf(),
            forall|group: KeymapGroup|
                follows(#[trigger] r.spec_group(group), self.spec_group(group)),
    {
        let mut keymap = Keymap::new();
        self.build_group(KeymapGroup::Tasks, &mut keymap);
        self.build_group(KeymapGroup::Term, &mut keymap);
        self.build_group(KeymapGroup::Copy, &mut keymap);
        keymap
    }
}

/// A binding that was taken back does nothing, and one that was made does what
/// it was made for, whatever was there before.
pub proof fn law_last_word_counts(v: Seq<(Key, Action)>, key: Key, action: Action)
    requires
        forall|i: int, j: int|
            0 <= i < j < v.len() ==> (#[trigger] v[i]).0 != (#[trigger] v[j]).0,
    ensures
        last_action(bound(v, key, action), key) == Some(action),
        last_action(unbound(v, key), key) is None,
{
    lemma_place_from(v, key, 0);
    match place_of(v, key) {
        Some(at) => {
            lemma_last_action_at(v.update(at, (key, action)), key, at);
            lemma_last_action_none(v.remove(at), key);
        },
        None => {
            lemma_last_action_none(v, key);
        },
    }
}

proof fn lemma_place_from(v: Seq<(Key, Action)>, key: Key, from: int)
    requires
        0 <= from,
    ensures
        match place_from(v, key, from) {
            Some(i) => from <= i < v.len() && v[i].0 == key,
            None => forall|j: int| from <= j < v.len() ==> (#[trigger] v[j]).0 != key,
        },
    decreases v.len() - from,
{
    if from < v.len() && v[from].0 != key {
        lemma_place_from(v, key, from + 1);
    }
}

proof fn lemma_last_action_at(v: Seq<(Key, Action)>, key: Key, at: int)
    requires
        0 <= at < v.len(),
        v[at].0 == key,
        forall|j: int| at < j < v.len() ==> (#[trigger] v[j]).0 != key,
    ensures
        last_action(v, key) == Some(v[at].1),
    decreases v.len(),
{
    if at < v.len() - 1 {
        assert(v[v.len() - 1].0 != key);
        lemma_last_action_at(v.drop_last(), key, at);
    }
}

proof fn lemma_last_action_none(v: Seq<(Key, Action)>, key: Key)
    requires
        forall|j: int| 0 <= j < v.len() ==> (#[trigger] v[j]).0 != key,
    ensures
        last_action(v, key) is None,
    decreases v.len(),
{
    if v.len() > 0 {
        assert(v[v.len() - 1].0 != key);
        lemma_last_action_none(v.drop_last(), key);
    }
}

/// No key stands in a list of bindings twice.
pub open spec fn no_key_twice(v: Seq<(Key, Action)>) -> bool {
    forall|i: int, j: int| 0 <= i < j < v.len() ==> (#[trigger] v[i]).0 != (#[trigger] v[j]).0
}

/// Binding a key or taking it back leaves no key there twice.
pub proof fn law_no_key_twice(v: Seq<(Key, Action)>, key: Key, action: Action)
    requires
        no_key_twice(v),
    ensures
        no_key_twice(bound(v, key, action)),
        no_key_twice(unbound(v, key)),
{
    lemma_place_from(v, key, 0);
}

/// Binding a key or taking it back leaves what every other key does.
pub proof fn law_other_keys_stay(v: Seq<(Key, Action)>, key: Key, action: Action, other: Key)
    requires
        no_key_twice(v),
        other != key,
    ensures
        last_action(bound(v, key, action), other) == last_action(v, other),
        last_action(unbound(v, key), other) == last_action(v, other),
{
    lemma_place_from(v, key, 0);
    lemma_place_from(v, other, 0);
    let (b, u) = (bound(v, key, action), unbound(v, key));
    match place_of(v, other) {
        Some(i) => {
            lemma_last_action_at(v, other, i);
            lemma_last_action_at(b, other, i);
            match place_of(v, key) {
                Some(at) => {
                    let j = if i < at {
                        i
                    } else {
                        i - 1
                    };
                    assert(u[j] == v[i]);
                    lemma_last_action_at(u, other, j);
                },
                None => {},
            }
        },
        None => {
            lemma_last_action_none(v, other);
            lemma_last_action_none(b, other);
            lemma_last_action_none(u, other);
        },
    }
}

/// What a key does by a list of bindings is what the last binding of the key says;
/// a key that is not there does nothing.
pub proof fn law_last_binding_counts(v: Seq<(Key, Action)>, key: Key, at: int)
    ensures
        0 <= at < v.len() && v[at].0 == key && (forall|j: int|
            at < j < v.len() ==> (#[trigger] v[j]).0 != key) ==> last_action(v, key) == Some(
            v[at].1,
        ),
        (forall|j: int| 0 <= j < v.len() ==> (#[trigger] v[j]).0 != key) ==> last_action(v, key)
            is None,
{
    if 0 <= at < v.len() && v[at].0 == key && (forall|j: int|
        at < j < v.len() ==> (#[trigger] v[j]).0 != key) {
        lemma_last_action_at(v, key, at);
    }
    if forall|j: int| 0 <= j < v.len() ==> (#[trigger] v[j]).0 != key {
        lemma_last_action_none(v, key);
    }
}

/// The key for an action is that of the last binding to it; an action without a
/// binding has none.
pub proof fn law_last_key_counts(v: Seq<(Key, Action)>, action: Action, at: int)
    ensures
        0 <= at < v.len() && same_action(action, v[at].1) && (forall|j: int|
            at < j < v.len() ==> !same_action(action, (#[trigger] v[j]).1)) ==> last_key(v, action)
            == Some(v[at].0),
        (forall|j: int| 0 <= j < v.len() ==> !same_action(action, (#[trigger] v[j]).1))
            ==> last_key(v, action) is None,
    decreases v.len(),
{
    if v.len() > 0 {
        let init = v.drop_last();
        law_last_key_counts(init, action, at);
        assert(v.last() == v[v.len() - 1]);
        if !same_action(action, v.last().1) {
            assert(forall|j: int| 0 <= j < init.len() ==> init[j] == v[j]);
        }
    }
}

/// A key that comes for the first time goes to the end, one that is there keeps
/// its place, and the order of the others stays.
pub proof fn law_order_of_bindings(v: Seq<(Key, Action)>, key: Key, action: Action, at: int)
    requires
        no_key_twice(v),
    ensures
        (forall|j: int| 0 <= j < v.len() ==> (#[trigger] v[j]).0 != key) ==> bound(v, key, action)
            == v.push((key, action)) && unbound(v, key) == v,
        0 <= at < v.len() && v[at].0 == key ==> bound(v, key, action) == v.take(at) + seq![
            (key, action),
        ] + v.skip(at + 1) && unbound(v, key) == v.take(at) + v.skip(at + 1),
{
    lemma_place_from(v, key, 0);
    if 0 <= at < v.len() && v[at].0 == key {
        assert(place_of(v, key) == Some(at));
        assert(bound(v, key, action) =~= v.take(at) + seq![(key, action)] + v.skip(at + 1));
        assert(unbound(v, key) =~= v.take(at) + v.skip(at + 1));
    }
}

/// What a keymap that follows a configuration does: a key does what its last binding
/// says and nothing without one, and an action has the key of its last binding.
pub proof fn law_keymaps_follow_their_configuration(
    b: Bindings,
    v: Seq<(Key, Action)>,
    key: Key,
    action: Action,
    at: int,
)
    requires
        follows(b, v),
    ensures
        0 <= at < v.len() && v[at].0 == key && (forall|j: int|
            at < j < v.len() ==> (#[trigger] v[j]).0 != key) ==> (action_for(b.by_key@, key)
            matches Some(found) && same_action(found, v[at].1)),
        (forall|j: int| 0 <= j < v.len() ==> (#[trigger] v[j]).0 != key) ==> action_for(
            b.by_key@,
            key,
        ) is None,
        0 <= at < v.len() && same_action(action, v[at].1) && (forall|j: int|
            at < j < v.len() ==> !same_action(action, (#[trigger] v[j]).1)) ==> key_for(
            b.by_action@,
            action,
        ) == Some(v[at].0),
{
    law_last_binding_counts(v, key, at);
    law_last_key_counts(v, action, at);
    assert(action_for(b.by_key@, key) is Some || action_for(b.by_key@, key) is None);
    assert(key_for(b.by_action@, action) == last_key(v, action));
}

} // verus!
