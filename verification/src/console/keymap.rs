//! Which key does what.

use vstd::prelude::*;

use crate::console::action::{same_action, Action};
use crate::term::key::Key;

verus! {

/// The key bindings of one part of the console.
#[derive(Debug)]
pub struct Bindings {
    pub by_key: Vec<(Key, Action)>,
    pub by_action: Vec<(Action, Key)>,
}

/// The key bindings of the console.
#[derive(Debug)]
pub struct Keymap {
    tasks: Bindings,
    term: Bindings,
    copy: Bindings,
}

/// A part of the console with key bindings of its own.
#[derive(Clone, Copy, Debug, PartialEq, Eq, Structural)]
pub enum KeymapGroup {
    Tasks,
    Term,
    Copy,
}

/// The action of a key, if it has one.
pub open spec fn action_for(v: Seq<(Key, Action)>, key: Key) -> Option<Action>
    decreases v.len(),
{
    if v.len() == 0 {
        None
    } else if v[0].0 == key {
        Some(v[0].1)
    } else {
        action_for(v.skip(1), key)
    }
}

/// The key of an action, if it has one.
pub open spec fn key_for(v: Seq<(Action, Key)>, action: Action) -> Option<Key>
    decreases v.len(),
{
    if v.len() == 0 {
        None
    } else if same_action(v[0].0, action) {
        Some(v[0].1)
    } else {
        key_for(v.skip(1), action)
    }
}

proof fn lemma_action_at(v: Seq<(Key, Action)>, key: Key, i: int)
    requires
        0 <= i < v.len(),
        v[i].0 == key,
        forall|j: int| 0 <= j < i ==> (#[trigger] v[j]).0 != key,
    ensures
        action_for(v, key) == Some(v[i].1),
    decreases i,
{
    if i > 0 {
        lemma_action_at(v.skip(1), key, i - 1);
    }
}

proof fn lemma_no_action(v: Seq<(Key, Action)>, key: Key)
    requires
        forall|j: int| 0 <= j < v.len() ==> (#[trigger] v[j]).0 != key,
    ensures
        action_for(v, key) is None,
    decreases v.len(),
{
    if v.len() > 0 {
        lemma_no_action(v.skip(1), key);
    }
}

proof fn lemma_key_at(v: Seq<(Action, Key)>, action: Action, i: int)
    requires
        0 <= i < v.len(),
        same_action(v[i].0, action),
        forall|j: int| 0 <= j < i ==> !same_action((#[trigger] v[j]).0, action),
    ensures
        key_for(v, action) == Some(v[i].1),
    decreases i,
{
    if i > 0 {
        lemma_key_at(v.skip(1), action, i - 1);
    }
}

proof fn lemma_no_key(v: Seq<(Action, Key)>, action: Action)
    requires
        forall|j: int| 0 <= j < v.len() ==> !same_action((#[trigger] v[j]).0, action),
    ensures
        key_for(v, action) is None,
    decreases v.len(),
{
    if v.len() > 0 {
        lemma_no_key(v.skip(1), action);
    }
}

proof fn lemma_set_action(v: Seq<(Key, Action)>, i: int, a: Action, other: Key)
    requires
        0 <= i < v.len(),
        other != v[i].0,
    ensures
        action_for(v.update(i, (v[i].0, a)), other) == action_for(v, other),
    decreases v.len(),
{
    let w = v.update(i, (v[i].0, a));
    if i == 0 {
        assert(w.skip(1) =~= v.skip(1));
    } else {
        lemma_set_action(v.skip(1), i - 1, a, other);
        assert(w.skip(1) =~= v.skip(1).update(i - 1, (v.skip(1)[i - 1].0, a)));
    }
}

proof fn lemma_push_action(v: Seq<(Key, Action)>, e: (Key, Action), other: Key)
    requires
        other != e.0,
    ensures
        action_for(v.push(e), other) == action_for(v, other),
    decreases v.len(),
{
    let w = v.push(e);
    if v.len() == 0 {
        assert(w.skip(1) =~= v);
    } else {
        lemma_push_action(v.skip(1), e, other);
        assert(w.skip(1) =~= v.skip(1).push(e));
    }
}

proof fn lemma_set_key(v: Seq<(Action, Key)>, i: int, a: Action, k: Key, other: Action)
    requires
        0 <= i < v.len(),
        same_action(v[i].0, a),
        !same_action(other, a),
    ensures
        key_for(v.update(i, (a, k)), other) == key_for(v, other),
    decreases v.len(),
{
    let w = v.update(i, (a, k));
    if i == 0 {
        assert(w.skip(1) =~= v.skip(1));
        if same_action(a, other) {
            crate::console::action::lemma_same_symmetric(a, other);
        }
        if same_action(v[0].0, other) {
            crate::console::action::lemma_same_symmetric(v[0].0, other);
            crate::console::action::lemma_same_transitive(other, v[0].0, a);
        }
    } else {
        lemma_set_key(v.skip(1), i - 1, a, k, other);
        assert(w.skip(1) =~= v.skip(1).update(i - 1, (a, k)));
    }
}

proof fn lemma_push_key(v: Seq<(Action, Key)>, e: (Action, Key), other: Action)
    requires
        !same_action(other, e.0),
    ensures
        key_for(v.push(e), other) == key_for(v, other),
    decreases v.len(),
{
    let w = v.push(e);
    if v.len() == 0 {
        assert(w.skip(1) =~= v);
        if same_action(e.0, other) {
            crate::console::action::lemma_same_symmetric(e.0, other);
        }
    } else {
        lemma_push_key(v.skip(1), e, other);
        assert(w.skip(1) =~= v.skip(1).push(e));
    }
}

proof fn lemma_distinct_set(v: Seq<(Action, Key)>, i: int, a: Action, k: Key)
    requires
        0 <= i < v.len(),
        same_action(v[i].0, a),
        distinct_actions(v),
    ensures
        distinct_actions(v.update(i, (a, k))),
{
    let w = v.update(i, (a, k));
    assert forall|x: int, y: int| 0 <= x < y < w.len() implies !same_action(
        (#[trigger] w[x]).0,
        (#[trigger] w[y]).0,
    ) by {
        assert(!same_action(v[x].0, v[y].0));
        if x == i && same_action(a, v[y].0) {
            crate::console::action::lemma_same_transitive(v[i].0, a, v[y].0);
        }
        if y == i && same_action(v[x].0, a) {
            crate::console::action::lemma_same_symmetric(v[i].0, a);
            crate::console::action::lemma_same_transitive(v[x].0, a, v[i].0);
        }
    }
}

/// No key stands twice.
pub open spec fn distinct_keys(v: Seq<(Key, Action)>) -> bool {
    forall|i: int, j: int| 0 <= i < j < v.len() ==> (#[trigger] v[i]).0 != (#[trigger] v[j]).0
}

/// No action stands twice.
pub open spec fn distinct_actions(v: Seq<(Action, Key)>) -> bool {
    forall|i: int, j: int|
        0 <= i < j < v.len() ==> !same_action((#[trigger] v[i]).0, (#[trigger] v[j]).0)
}

impl Bindings {
    /// No key does two things, and no action has two keys.
    pub open spec fn wf(self) -> bool {
        distinct_keys(self.by_key@) && distinct_actions(self.by_action@)
    }

    /// No bindings.
    pub fn new() -> (r: Self)
        ensures
            r.wf(),
            r.by_key@ == Seq::<(Key, Action)>::empty(),
            r.by_action@ == Seq::<(Action, Key)>::empty(),
    {
        Bindings { by_key: Vec::new(), by_action: Vec::new() }
    }

    /// The action of `key`.
    pub fn action(&self, key: &Key) -> (r: Option<&Action>)
        ensures
            match r {
                Some(action) => action_for(self.by_key@, *key) == Some(*action),
                None => action_for(self.by_key@, *key) is None,
            },
    {
        for i in 0..self.by_key.len()
            invariant
                forall|j: int| 0 <= j < i ==> (#[trigger] self.by_key@[j]).0 != *key,
        {
            if self.by_key[i].0 == *key {
                proof {
                    lemma_action_at(self.by_key@, *key, i as int);
                }
                return Some(&self.by_key[i].1);
            }
        }
        proof {
            lemma_no_action(self.by_key@, *key);
        }
        None
    }

    /// The key of `action`.
    pub fn key(&self, action: &Action) -> (r: Option<&Key>)
        ensures
            match r {
                Some(key) => key_for(self.by_action@, *action) == Some(*key),
                None => key_for(self.by_action@, *action) is None,
            },
    {
        for i in 0..self.by_action.len()
            invariant
                forall|j: int|
                    0 <= j < i ==> !same_action((#[trigger] self.by_action@[j]).0, *action),
        {
            if self.by_action[i].0.same(action) {
                proof {
                    lemma_key_at(self.by_action@, *action, i as int);
                }
                return Some(&self.by_action[i].1);
            }
        }
        proof {
            lemma_no_key(self.by_action@, *action);
        }
        None
    }

    /// Binds `key` to `action`, in place of what it did before.
    pub fn bind(&mut self, key: Key, action: Action)
        ensures
            final(self).binds(*old(self), key, action),
            old(self).wf() ==> final(self).wf(),
    {
        let ghost before = *self;
        let copy = action.duplicate();
        let mut at: Option<usize> = None;
        for i in 0..self.by_key.len()
            invariant
                *self == before,
                match at {
                    Some(k) => k < self.by_key@.len() && self.by_key@[k as int].0 == key && forall|
                        j: int,
                    |
                        0 <= j < k ==> (#[trigger] self.by_key@[j]).0 != key,
                    None => forall|j: int| 0 <= j < i ==> (#[trigger] self.by_key@[j]).0 != key,
                },
        {
            if at.is_none() && self.by_key[i].0 == key {
                at = Some(i);
            }
        }
        match at {
            Some(i) => {
                self.by_key.set(i, (key, copy));
                proof {
                    lemma_action_at(self.by_key@, key, i as int);
                    assert forall|other: Key| other != key implies #[trigger] action_for(
                        self.by_key@,
                        other,
                    ) == action_for(before.by_key@, other) by {
                        lemma_set_action(before.by_key@, i as int, copy, other);
                    }
                }
            },
            None => {
                self.by_key.push((key, copy));
                proof {
                    lemma_action_at(self.by_key@, key, self.by_key@.len() - 1);
                    assert forall|other: Key| other != key implies #[trigger] action_for(
                        self.by_key@,
                        other,
                    ) == action_for(before.by_key@, other) by {
                        lemma_push_action(before.by_key@, (key, copy), other);
                    }
                }
            },
        }
        let mut at: Option<usize> = None;
        for i in 0..self.by_action.len()
            invariant
                self.by_action == before.by_action,
                match at {
                    Some(k) => k < self.by_action@.len() && same_action(
                        self.by_action@[k as int].0,
                        action,
                    ) && forall|j: int|
                        0 <= j < k ==> !same_action((#[trigger] self.by_action@[j]).0, action),
                    None => forall|j: int|
                        0 <= j < i ==> !same_action((#[trigger] self.by_action@[j]).0, action),
                },
        {
            if at.is_none() && self.by_action[i].0.same(&action) {
                at = Some(i);
            }
        }
        let ghost middle = *self;
        proof {
            crate::console::action::lemma_same_reflexive(action);
        }
        match at {
            Some(i) => {
                self.by_action.set(i, (action, key));
                proof {
                    if before.wf() {
                        lemma_distinct_set(before.by_action@, i as int, action, key);
                    }
                    assert forall|other: Action|
                        #![trigger key_for(self.by_action@, other)]
                        key_for(self.by_action@, other) == (if same_action(other, action) {
                            Some(key)
                        } else {
                            key_for(before.by_action@, other)
                        }) by {
                        if same_action(other, action) {
                            lemma_found(self.by_action@, i as int, action, other);
                        } else {
                            lemma_set_key(before.by_action@, i as int, action, key, other);
                        }
                    }
                }
            },
            None => {
                self.by_action.push((action, key));
                proof {
                    assert forall|other: Action|
                        #![trigger key_for(self.by_action@, other)]
                        key_for(self.by_action@, other) == (if same_action(other, action) {
                            Some(key)
                        } else {
                            key_for(before.by_action@, other)
                        }) by {
                        if same_action(other, action) {
                            lemma_found(
                                self.by_action@,
                                self.by_action@.len() - 1,
                                action,
                                other,
                            );
                        } else {
                            lemma_push_key(before.by_action@, (action, key), other);
                        }
                    }
                }
            },
        }
    }

    /// These bindings are those of `before`, but that `key` does `action`, and
    /// that the way to do `action` is `key`.
    pub open spec fn binds(self, before: Bindings, key: Key, action: Action) -> bool {
        &&& action_for(self.by_key@, key) is Some
        &&& same_action(action_for(self.by_key@, key)->Some_0, action)
        &&& forall|other: Key|
            other != key ==> #[trigger] action_for(self.by_key@, other) == action_for(
                before.by_key@,
                other,
            )
        &&& forall|other: Action|
            #![trigger key_for(self.by_action@, other)]
            key_for(self.by_action@, other) == (if same_action(other, action) {
                Some(key)
            } else {
                key_for(before.by_action@, other)
            })
    }
}

proof fn lemma_found(v: Seq<(Action, Key)>, i: int, action: Action, other: Action)
    requires
        0 <= i < v.len(),
        v[i].0 == action,
        same_action(other, action),
        forall|j: int| 0 <= j < i ==> !same_action((#[trigger] v[j]).0, action),
    ensures
        key_for(v, other) == Some(v[i].1),
{
    crate::console::action::lemma_same_symmetric(other, action);
    assert forall|j: int| 0 <= j < i implies !same_action((#[trigger] v[j]).0, other) by {
        if same_action(v[j].0, other) {
            crate::console::action::lemma_same_transitive(v[j].0, other, action);
        }
    }
    lemma_key_at(v, other, i);
}

impl Keymap {
    /// The bindings of a group.
    pub closed spec fn spec_group(self, group: KeymapGroup) -> Bindings {
        match group {
            KeymapGroup::Tasks => self.tasks,
            KeymapGroup::Term => self.term,
            KeymapGroup::Copy => self.copy,
        }
    }

    /// In no group does a key do two things, or has an action two keys.
    pub open spec fn wf(self) -> bool {
        forall|group: KeymapGroup| (#[trigger] self.spec_group(group)).wf()
    }

    /// A keymap without bindings.
    pub fn new() -> (r: Self)
        ensures
            r.wf(),
            forall|group: KeymapGroup, key: Key|
                #[trigger] action_for(r.spec_group(group).by_key@, key) is None,
            forall|group: KeymapGroup, action: Action|
                #[trigger] key_for(r.spec_group(group).by_action@, action) is None,
    {
        Keymap { tasks: Bindings::new(), term: Bindings::new(), copy: Bindings::new() }
    }

    /// The bindings of `group`.
    pub fn group(&self, group: KeymapGroup) -> (r: &Bindings)
        ensures
            *r == self.spec_group(group),
    {
        match group {
            KeymapGroup::Tasks => &self.tasks,
            KeymapGroup::Term => &self.term,
            KeymapGroup::Copy => &self.copy,
        }
    }

    /// Binds `key` to `action` in `group`.
    pub fn bind(&mut self, group: KeymapGroup, key: Key, action: Action)
        ensures
            final(self).spec_group(group).binds(old(self).spec_group(group), key, action),
            old(self).wf() ==> final(self).wf(),
            forall|other: KeymapGroup|
                other != group ==> #[trigger] final(self).spec_group(other) == old(
                    self,
                ).spec_group(other),
    {
        assert(old(self).wf() ==> old(self).spec_group(group).wf());
        match group {
            KeymapGroup::Tasks => self.tasks.bind(key, action),
            KeymapGroup::Term => self.term.bind(key, action),
            KeymapGroup::Copy => self.copy.bind(key, action),
        }
        assert forall|other: KeymapGroup| old(self).wf() implies (#[trigger] self.spec_group(
            other,
        )).wf() by {
            assert(old(self).spec_group(other).wf());
        }
    }

    /// The action of `key` in `group`.
    pub fn action(&self, group: KeymapGroup, key: &Key) -> (r: Option<&Action>)
        ensures
            match r {
                Some(action) => action_for(self.spec_group(group).by_key@, *key) == Some(*action),
                None => action_for(self.spec_group(group).by_key@, *key) is None,
            },
    {
        self.group(group).action(key)
    }

    /// The key of `action` in `group`.
    pub fn key(&self, group: KeymapGroup, action: &Action) -> (r: Option<&Key>)
        ensures
            match r {
                Some(key) => key_for(self.spec_group(group).by_action@, *action) == Some(*key),
                None => key_for(self.spec_group(group).by_action@, *action) is None,
            },
    {
        self.group(group).key(action)
    }
}

impl Default for Keymap {
    fn default() -> (r: Self)
        ensures
            r.wf(),
            forall|group: KeymapGroup, key: Key|
                #[trigger] action_for(r.spec_group(group).by_key@, key) is None,
            forall|group: KeymapGroup, action: Action|
                #[trigger] key_for(r.spec_group(group).by_action@, action) is None,
    {
        Keymap::new()
    }
}

/// A bound key does what it was bound to, and the same key is found for it.
pub proof fn law_binding_is_found_both_ways(
    after: Bindings,
    before: Bindings,
    key: Key,
    action: Action,
)
    requires
        after.binds(before, key, action),
    ensures
        action_for(after.by_key@, key) is Some,
        same_action(action_for(after.by_key@, key)->Some_0, action),
        key_for(after.by_action@, action) == Some(key),
{
    crate::console::action::lemma_same_reflexive(action);
}

/// The action of a key is that of its first binding, and the key of an action that
/// of the first binding to an action that says the same; without one there is none.
pub proof fn law_first_binding_counts(
    v: Seq<(Key, Action)>,
    w: Seq<(Action, Key)>,
    key: Key,
    action: Action,
    i: int,
)
    ensures
        0 <= i < v.len() && v[i].0 == key && (forall|j: int|
            0 <= j < i ==> (#[trigger] v[j]).0 != key) ==> action_for(v, key) == Some(v[i].1),
        (forall|j: int| 0 <= j < v.len() ==> (#[trigger] v[j]).0 != key) ==> action_for(v, key)
            is None,
        0 <= i < w.len() && same_action(w[i].0, action) && (forall|j: int|
            0 <= j < i ==> !same_action((#[trigger] w[j]).0, action)) ==> key_for(w, action) == Some(
            w[i].1,
        ),
        (forall|j: int| 0 <= j < w.len() ==> !same_action((#[trigger] w[j]).0, action)) ==> key_for(
            w,
            action,
        ) is None,
{
    if 0 <= i < v.len() && v[i].0 == key && (forall|j: int|
        0 <= j < i ==> (#[trigger] v[j]).0 != key) {
        lemma_action_at(v, key, i);
    }
    if forall|j: int| 0 <= j < v.len() ==> (#[trigger] v[j]).0 != key {
        lemma_no_action(v, key);
    }
    if 0 <= i < w.len() && same_action(w[i].0, action) && (forall|j: int|
        0 <= j < i ==> !same_action((#[trigger] w[j]).0, action)) {
        lemma_key_at(w, action, i);
    }
    if forall|j: int| 0 <= j < w.len() ==> !same_action((#[trigger] w[j]).0, action) {
        lemma_no_key(w, action);
    }
}

/// Binding a key leaves what the other keys do, and the keys of other actions.
pub proof fn law_binding_leaves_the_rest(
    after: Bindings,
    before: Bindings,
    key: Key,
    action: Action,
    other_key: Key,
    other_action: Action,
)
    requires
        after.binds(before, key, action),
        other_key != key,
        !same_action(other_action, action),
    ensures
        action_for(after.by_key@, other_key) == action_for(before.by_key@, other_key),
        key_for(after.by_action@, other_action) == key_for(before.by_action@, other_action),
{
}

} // verus!
