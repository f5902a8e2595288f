//! Naming and pub/sub for tasks: resolves paths to ids and routes
//! notifications to subscribers.

use std::collections::HashSet;

use vstd::multiset::Multiset;
use vstd::prelude::*;

use crate::kernel::kernel_message::{SpaceSelector, SpaceSelectorView};
use crate::kernel::task::TaskId;
use crate::kernel::task_key::{TaskKey, TaskSpaceId};
use crate::kernel::task_path::{components, glob_matches, is_below, TaskPath};
use crate::text::same_str;

verus! {

/// How far a subscription reaches.
#[derive(Clone, Copy, Debug, PartialEq, Eq, Structural)]
pub enum SubMode {
    /// The path alone.
    Exact,
    /// The path and everything under it.
    Subtree,
}

/// A path that is taken already.
#[derive(Debug)]
pub struct PathConflictError {
    pub path: TaskPath,
}

/// Task names and subscriptions, over all spaces.
pub struct Namespace {
    names: Vec<(TaskKey, TaskId)>,
    subs: Vec<(TaskId, TaskKey, SubMode)>,
}

/// A task's name.
pub struct NameEntry {
    pub space: Seq<char>,
    pub path: Seq<char>,
    pub id: TaskId,
}

/// A subscription.
pub struct SubEntry {
    pub subscriber: TaskId,
    pub space: Seq<char>,
    pub path: Seq<char>,
    pub mode: SubMode,
}

/// What a namespace holds.
pub struct NamespaceView {
    pub names: Set<NameEntry>,
    pub subs: Set<SubEntry>,
}

spec fn name_entry(e: (TaskKey, TaskId)) -> NameEntry {
    NameEntry { space: e.0.space@, path: e.0.path@, id: e.1 }
}

spec fn sub_entry(e: (TaskId, TaskKey, SubMode)) -> SubEntry {
    SubEntry { subscriber: e.0, space: e.1.space@, path: e.1.path@, mode: e.2 }
}

spec fn name_set(v: Seq<(TaskKey, TaskId)>) -> Set<NameEntry> {
    Set::new(|e: NameEntry| exists|i: int| 0 <= i < v.len() && #[trigger] name_entry(v[i]) == e)
}

spec fn sub_set(v: Seq<(TaskId, TaskKey, SubMode)>) -> Set<SubEntry> {
    Set::new(|e: SubEntry| exists|i: int| 0 <= i < v.len() && #[trigger] sub_entry(v[i]) == e)
}

spec fn distinct_keys(v: Seq<(TaskKey, TaskId)>) -> bool {
    forall|i: int, j: int|
        0 <= i < j < v.len() ==> (#[trigger] v[i]).0@ != (#[trigger] v[j]).0@
}

spec fn distinct_subs(v: Seq<(TaskId, TaskKey, SubMode)>) -> bool {
    forall|i: int, j: int|
        0 <= i < j < v.len() ==> sub_entry(#[trigger] v[i]) != sub_entry(#[trigger] v[j])
}

/// `hits` lists the members of `s`, each once.
pub open spec fn lists<T>(hits: Seq<T>, s: Set<T>) -> bool {
    hits.no_duplicates() && hits.to_set() == s
}

/// A subscription at `at` reaches `path`.
pub open spec fn reaches(mode: SubMode, at: Seq<char>, path: Seq<char>) -> bool {
    path == at || (mode is Subtree && is_below(path, at))
}

/// The spaces that are meant include `space`.
pub open spec fn includes_space(sel: SpaceSelectorView, space: Seq<char>) -> bool {
    match sel {
        SpaceSelectorView::One(name) => name == space,
        SpaceSelectorView::Any => true,
    }
}

/// The names that a glob selects.
pub open spec fn globbed(names: Set<NameEntry>, sel: SpaceSelectorView, pattern: Seq<char>) -> Set<
    NameEntry,
> {
    names.filter(
        |e: NameEntry|
            includes_space(sel, e.space) && glob_matches(components(pattern), components(e.path)),
    )
}

/// `ids` are the tasks that a glob selects: one for each name, in any order.
pub open spec fn globs(
    names: Set<NameEntry>,
    sel: SpaceSelectorView,
    pattern: Seq<char>,
    ids: Seq<TaskId>,
) -> bool {
    exists|hits: Seq<NameEntry>| #[trigger]
        lists(hits, globbed(names, sel, pattern)) && ids == hits.map_values(
            |e: NameEntry| e.id,
        )
}

/// Several lists of tasks as one multiset.
pub open spec fn summed(each: Seq<Seq<TaskId>>) -> Multiset<TaskId>
    decreases each.len(),
{
    if each.len() == 0 {
        Multiset::empty()
    } else {
        summed(each.drop_last()).add(each.last().to_multiset())
    }
}

/// The names that a subscription at a key would reach.
pub open spec fn scope(
    names: Set<NameEntry>,
    key: (Seq<char>, Seq<char>),
    mode: SubMode,
) -> Set<NameEntry> {
    names.filter(|e: NameEntry| e.space == key.0 && reaches(mode, key.1, e.path))
}

/// `id` is told of what happens to the task at a key.
pub open spec fn notified(subs: Set<SubEntry>, id: TaskId, space: Seq<char>, path: Seq<char>) -> bool {
    exists|s: SubEntry| #[trigger]
        subs.contains(s) && s.subscriber == id && s.space == space && reaches(s.mode, s.path, path)
}

/// Some task has the name.
pub open spec fn is_named(names: Set<NameEntry>, key: (Seq<char>, Seq<char>)) -> bool {
    exists|e: NameEntry| #[trigger] names.contains(e) && e.space == key.0 && e.path == key.1
}

impl View for Namespace {
    type V = NamespaceView;

    closed spec fn view(&self) -> NamespaceView {
        NamespaceView { names: name_set(self.names@), subs: sub_set(self.subs@) }
    }
}

fn reached(mode: SubMode, at: &TaskPath, path: &TaskPath) -> (r: bool)
    ensures
        r == reaches(mode, at@, path@),
{
    if same_str(path.as_str(), at.as_str()) {
        return true;
    }
    match mode {
        SubMode::Exact => false,
        SubMode::Subtree => path.is_under(at),
    }
}

proof fn lemma_push_name(v: Seq<(TaskKey, TaskId)>, e: (TaskKey, TaskId))
    ensures
        name_set(v.push(e)) == name_set(v).insert(name_entry(e)),
{
    let w = v.push(e);
    assert forall|x: NameEntry| name_set(w).contains(x) == name_set(v).insert(name_entry(e)).contains(x) by {
        if name_set(v).contains(x) {
            let i = choose|i: int| 0 <= i < v.len() && #[trigger] name_entry(v[i]) == x;
            assert(name_entry(w[i]) == x);
        }
        if x == name_entry(e) {
            assert(name_entry(w[v.len() as int]) == x);
        }
        if name_set(w).contains(x) && x != name_entry(e) {
            let i = choose|i: int| 0 <= i < w.len() && #[trigger] name_entry(w[i]) == x;
            assert(name_entry(v[i]) == x);
        }
    }
    assert(name_set(w) =~= name_set(v).insert(name_entry(e)));
}

proof fn lemma_push_sub(v: Seq<(TaskId, TaskKey, SubMode)>, e: (TaskId, TaskKey, SubMode))
    ensures
        sub_set(v.push(e)) == sub_set(v).insert(sub_entry(e)),
{
    let w = v.push(e);
    assert forall|x: SubEntry| sub_set(w).contains(x) == sub_set(v).insert(sub_entry(e)).contains(x) by {
        if sub_set(v).contains(x) {
            let i = choose|i: int| 0 <= i < v.len() && #[trigger] sub_entry(v[i]) == x;
            assert(sub_entry(w[i]) == x);
        }
        if x == sub_entry(e) {
            assert(sub_entry(w[v.len() as int]) == x);
        }
        if sub_set(w).contains(x) && x != sub_entry(e) {
            let i = choose|i: int| 0 <= i < w.len() && #[trigger] sub_entry(w[i]) == x;
            assert(sub_entry(v[i]) == x);
        }
    }
    assert(sub_set(w) =~= sub_set(v).insert(sub_entry(e)));
}

proof fn lemma_remove_name(v: Seq<(TaskKey, TaskId)>, at: int)
    requires
        0 <= at < v.len(),
        distinct_keys(v),
    ensures
        name_set(v.remove(at)) == name_set(v).remove(name_entry(v[at])),
        distinct_keys(v.remove(at)),
{
    let w = v.remove(at);
    let gone = name_entry(v[at]);
    assert forall|x: NameEntry| name_set(w).contains(x) == name_set(v).remove(gone).contains(x) by {
        if name_set(w).contains(x) {
            let i = choose|i: int| 0 <= i < w.len() && #[trigger] name_entry(w[i]) == x;
            let j = if i < at {
                i
            } else {
                i + 1
            };
            assert(w[i] == v[j]);
            assert(name_entry(v[j]) == x);
            assert(v[j].0@ != v[at].0@);
        }
        if name_set(v).contains(x) && x != gone {
            let j = choose|j: int| 0 <= j < v.len() && #[trigger] name_entry(v[j]) == x;
            let i = if j < at {
                j
            } else {
                j - 1
            };
            assert(w[i] == v[j]);
            assert(name_entry(w[i]) == x);
        }
    }
    assert(name_set(w) =~= name_set(v).remove(gone));
}

proof fn lemma_remove_sub(v: Seq<(TaskId, TaskKey, SubMode)>, at: int)
    requires
        0 <= at < v.len(),
        distinct_subs(v),
    ensures
        sub_set(v.remove(at)) == sub_set(v).remove(sub_entry(v[at])),
        distinct_subs(v.remove(at)),
{
    let w = v.remove(at);
    let gone = sub_entry(v[at]);
    assert forall|x: SubEntry| sub_set(w).contains(x) == sub_set(v).remove(gone).contains(x) by {
        if sub_set(w).contains(x) {
            let i = choose|i: int| 0 <= i < w.len() && #[trigger] sub_entry(w[i]) == x;
            let j = if i < at {
                i
            } else {
                i + 1
            };
            assert(w[i] == v[j]);
            assert(sub_entry(v[j]) == x);
        }
        if sub_set(v).contains(x) && x != gone {
            let j = choose|j: int| 0 <= j < v.len() && #[trigger] sub_entry(v[j]) == x;
            let i = if j < at {
                j
            } else {
                j - 1
            };
            assert(w[i] == v[j]);
            assert(sub_entry(w[i]) == x);
        }
    }
    assert(sub_set(w) =~= sub_set(v).remove(gone));
}

impl Namespace {
    /// No key has two names and no subscription stands twice.
    pub closed spec fn wf(&self) -> bool {
        distinct_keys(self.names@) && distinct_subs(self.subs@)
    }

    /// An empty namespace.
    pub fn new() -> (r: Self)
        ensures
            r.wf(),
            r@.names == Set::<NameEntry>::empty(),
            r@.subs == Set::<SubEntry>::empty(),
    {
        let r = Namespace { names: Vec::new(), subs: Vec::new() };
        assert(r@.names =~= Set::<NameEntry>::empty());
        assert(r@.subs =~= Set::<SubEntry>::empty());
        r
    }

    fn position(&self, key: &TaskKey) -> (r: Option<usize>)
        ensures
            match r {
                Some(i) => i < self.names@.len() && self.names@[i as int].0@ == key@,
                None => forall|i: int|
                    0 <= i < self.names@.len() ==> (#[trigger] self.names@[i]).0@ != key@,
            },
    {
        for i in 0..self.names.len()
            invariant
                forall|j: int| 0 <= j < i ==> (#[trigger] self.names@[j]).0@ != key@,
        {
            if self.names[i].0 == *key {
                return Some(i);
            }
        }
        None
    }

    /// Gives the task `id` the name `key`, unless the name is taken.
    pub fn insert(&mut self, key: &TaskKey, id: TaskId) -> (r: Result<(), PathConflictError>)
        requires
            old(self).wf(),
        ensures
            final(self).wf(),
            final(self)@.subs == old(self)@.subs,
            match r {
                Ok(()) => !is_named(old(self)@.names, key@) && final(self)@.names
                    == old(self)@.names.insert(
                    NameEntry { space: key.space@, path: key.path@, id },
                ),
                Err(err) => is_named(old(self)@.names, key@) && final(self)@ == old(self)@
                    && err.path == key.path,
            },
    {
        match self.position(key) {
            Some(i) => {
                assert(self@.names.contains(name_entry(self.names@[i as int])));
                Err(PathConflictError { path: key.path.clone() })
            },
            None => {
                let ghost v = self.names@;
                let entry = (key.clone(), id);
                proof {
                    lemma_push_name(v, entry);
                }
                self.names.push(entry);
                Ok(())
            },
        }
    }

    /// Takes the name `key` from the task that has it.
    pub fn remove(&mut self, key: &TaskKey) -> (r: Option<TaskId>)
        requires
            old(self).wf(),
        ensures
            final(self).wf(),
            final(self)@.subs == old(self)@.subs,
            match r {
                Some(id) => old(self)@.names.contains(
                    NameEntry { space: key.space@, path: key.path@, id },
                ) && final(self)@.names == old(self)@.names.remove(
                    NameEntry { space: key.space@, path: key.path@, id },
                ),
                None => !is_named(old(self)@.names, key@) && final(self)@ == old(self)@,
            },
    {
        match self.position(key) {
            Some(i) => {
                proof {
                    lemma_remove_name(self.names@, i as int);
                    assert(self@.names.contains(name_entry(self.names@[i as int])));
                }
                let (_, id) = self.names.remove(i);
                Some(id)
            },
            None => None,
        }
    }

    /// The tasks whose path matches `pattern`, in no particular order.
    pub fn glob(&self, space: &SpaceSelector, pattern: &str) -> (r: Vec<TaskId>)
        requires
            self.wf(),
        ensures
            globs(self@.names, space@, pattern@, r@),
    {
        let mut out: Vec<TaskId> = Vec::new();
        let ghost mut hits: Seq<NameEntry> = Seq::empty();
        assert(hits.map_values(|e: NameEntry| e.id) =~= out@);
        for i in 0..self.names.len()
            invariant
                self.wf(),
                out@ == hits.map_values(|e: NameEntry| e.id),
                hits.no_duplicates(),
                forall|e: NameEntry|
                    #![trigger hits.contains(e)]
                    hits.contains(e) <==> (exists|j: int|
                        0 <= j < i && #[trigger] name_entry(self.names@[j]) == e) && includes_space(
                        space@,
                        e.space,
                    ) && glob_matches(components(pattern@), components(e.path)),
        {
            let (key, id) = &self.names[i];
            let here = match space {
                SpaceSelector::One(name) => *name == key.space,
                SpaceSelector::Any => true,
            };
            let ghost e = name_entry(self.names@[i as int]);
            let ghost before = hits;
            assert(!before.contains(e)) by {
                if before.contains(e) {
                    let j = choose|j: int|
                        0 <= j < i && #[trigger] name_entry(self.names@[j]) == e;
                    assert(self.names@[j].0@ == self.names@[i as int].0@);
                }
            }
            if here && key.path.matches(pattern) {
                out.push(*id);
                proof {
                    hits = hits.push(e);
                    assert(hits.map_values(|e: NameEntry| e.id) =~= out@);
                    assert forall|x: NameEntry| #![trigger hits.contains(x)] hits.contains(x) <==> before.contains(x) || x == e by {
                        if before.contains(x) {
                            let k = choose|k: int| 0 <= k < before.len() && before[k] == x;
                            assert(hits[k] == x);
                        }
                        if x == e {
                            assert(hits[before.len() as int] == x);
                        }
                    }
                }
            }
            proof {
                assert forall|x: NameEntry| #![trigger hits.contains(x)] hits.contains(x) <==> (exists|j: int|
                    0 <= j < i + 1 && #[trigger] name_entry(self.names@[j]) == x) && includes_space(
                    space@,
                    x.space,
                ) && glob_matches(components(pattern@), components(x.path)) by {
                    assert(before.contains(x) <==> (exists|j: int|
                        0 <= j < i && #[trigger] name_entry(self.names@[j]) == x)
                        && includes_space(space@, x.space) && glob_matches(
                        components(pattern@),
                        components(x.path),
                    ));
                    if exists|j: int| 0 <= j < i + 1 && #[trigger] name_entry(self.names@[j]) == x {
                        let j = choose|j: int|
                            0 <= j < i + 1 && #[trigger] name_entry(self.names@[j]) == x;
                        assert(j == i || 0 <= j < i);
                    }
                    if x == e {
                        assert(name_entry(self.names@[i as int]) == x);
                    }
                }
            }
        }
        proof {
            let all = globbed(self@.names, space@, pattern@);
            assert forall|x: NameEntry| hits.to_set().contains(x) == all.contains(x) by {
                assert(hits.to_set().contains(x) == hits.contains(x));
            }
            assert(hits.to_set() =~= all);
            assert(lists(hits, all));
        }
        out
    }

    /// Tasks a subscription at `key` with `mode` would match: the task at `key`
    /// itself first, then those under it in no particular order.
    pub fn in_scope(&self, key: &TaskKey, mode: SubMode) -> (r: Vec<(TaskPath, TaskId)>)
        requires
            self.wf(),
        ensures
            exists|hits: Seq<NameEntry>| #[trigger]
                lists(hits, scope(self@.names, key@, mode)) && scope_views(r@) == hits.map_values(
                    |e: NameEntry| (e.path, e.id),
                ),
            is_named(self@.names, key@) ==> r@.len() > 0 && r@[0].0@ == key.path@,
    {
        let mut out: Vec<(TaskPath, TaskId)> = Vec::new();
        let ghost mut hits: Seq<NameEntry> = Seq::empty();
        let found = self.position(key);
        let ghost first = match found {
            Some(i) => i as int,
            None => -1,
        };
        if let Some(i) = found {
            out.push((key.path.clone(), self.names[i].1));
            proof {
                hits = hits.push(name_entry(self.names@[i as int]));
            }
        }
        proof {
            assert(scope_views(out@) =~= hits.map_values(|e: NameEntry| (e.path, e.id)));
            assert forall|e: NameEntry| #![trigger hits.contains(e)] hits.contains(e) <==> (first >= 0 && e == name_entry(
                self.names@[first],
            )) by {
                if first >= 0 && e == name_entry(self.names@[first]) {
                    assert(hits[0] == e);
                }
            }
            if is_named(self@.names, key@) {
                let e = choose|e: NameEntry| #[trigger]
                    self@.names.contains(e) && e.space == key@.0 && e.path == key@.1;
                let j = choose|j: int|
                    0 <= j < self.names@.len() && #[trigger] name_entry(self.names@[j]) == e;
                assert(self.names@[j].0@ == key@);
            }
        }
        match mode {
            SubMode::Exact => {
                proof {
                    let all = scope(self@.names, key@, mode);
                    assert forall|x: NameEntry| hits.to_set().contains(x) == all.contains(x) by {
                        assert(hits.to_set().contains(x) == hits.contains(x));
                        if all.contains(x) {
                            let j = choose|j: int|
                                0 <= j < self.names@.len() && #[trigger] name_entry(self.names@[j])
                                    == x;
                            assert(self.names@[j].0@ == key@);
                            assert(j == first);
                        }
                        if hits.contains(x) {
                            assert(name_entry(self.names@[first]) == x);
                        }
                    }
                    assert(hits.to_set() =~= all);
                    assert(lists(hits, all));
                }
                return out;
            },
            SubMode::Subtree => {},
        }
        for i in 0..self.names.len()
            invariant
                self.wf(),
                -1 <= first < self.names@.len(),
                first >= 0 ==> self.names@[first].0@ == key@,
                first < 0 ==> forall|j: int|
                    0 <= j < self.names@.len() ==> (#[trigger] self.names@[j]).0@ != key@,
                is_named(self@.names, key@) ==> out@.len() > 0 && out@[0].0@ == key.path@,
                scope_views(out@) == hits.map_values(|e: NameEntry| (e.path, e.id)),
                hits.no_duplicates(),
                forall|e: NameEntry|
                    #![trigger hits.contains(e)]
                    hits.contains(e) <==> (first >= 0 && e == name_entry(self.names@[first])) || ((
                    exists|j: int| 0 <= j < i && #[trigger] name_entry(self.names@[j]) == e)
                        && e.space == key.space@ && is_below(e.path, key.path@)),
        {
            let (k, id) = &self.names[i];
            let ghost e = name_entry(self.names@[i as int]);
            let ghost before = hits;
            if k.space == key.space && k.path.is_under(&key.path) {
                assert(!before.contains(e)) by {
                    if before.contains(e) {
                        if first >= 0 && e == name_entry(self.names@[first]) {
                            assert(e.path == key.path@);
                        } else {
                            let j = choose|j: int|
                                0 <= j < i && #[trigger] name_entry(self.names@[j]) == e;
                            assert(self.names@[j].0@ == self.names@[i as int].0@);
                        }
                    }
                }
                let ghost old_out = out@;
                out.push((k.path.clone(), *id));
                proof {
                    hits = hits.push(e);
                    assert(scope_views(out@) =~= scope_views(old_out).push((e.path, e.id)));
                    assert(hits.map_values(|e: NameEntry| (e.path, e.id)) =~= before.map_values(
                        |e: NameEntry| (e.path, e.id),
                    ).push((e.path, e.id)));
                    assert forall|x: NameEntry| #![trigger hits.contains(x)] hits.contains(x) <==> before.contains(x) || x == e by {
                        if before.contains(x) {
                            let k = choose|k: int| 0 <= k < before.len() && before[k] == x;
                            assert(hits[k] == x);
                        }
                        if x == e {
                            assert(hits[before.len() as int] == x);
                        }
                    }
                }
            }
            proof {
                assert forall|x: NameEntry| #![trigger hits.contains(x)] hits.contains(x) <==> (first >= 0 && x == name_entry(
                    self.names@[first],
                )) || ((exists|j: int|
                    0 <= j < i + 1 && #[trigger] name_entry(self.names@[j]) == x) && x.space
                    == key.space@ && is_below(x.path, key.path@)) by {
                    assert(before.contains(x) <==> (first >= 0 && x == name_entry(
                        self.names@[first],
                    )) || ((exists|j: int| 0 <= j < i && #[trigger] name_entry(self.names@[j]) == x)
                        && x.space == key.space@ && is_below(x.path, key.path@)));
                    if exists|j: int| 0 <= j < i + 1 && #[trigger] name_entry(self.names@[j]) == x {
                        let j = choose|j: int|
                            0 <= j < i + 1 && #[trigger] name_entry(self.names@[j]) == x;
                        assert(j == i || 0 <= j < i);
                    }
                    if x == e {
                        assert(name_entry(self.names@[i as int]) == x);
                    }
                }
            }
        }
        proof {
            let all = scope(self@.names, key@, mode);
            assert forall|x: NameEntry| hits.to_set().contains(x) == all.contains(x) by {
                assert(hits.to_set().contains(x) == hits.contains(x));
                if all.contains(x) {
                    let j = choose|j: int|
                        0 <= j < self.names@.len() && #[trigger] name_entry(self.names@[j]) == x;
                    if x.path == key.path@ {
                        assert(self.names@[j].0@ == key@);
                        assert(j == first);
                    }
                }
                if hits.contains(x) && first >= 0 && x == name_entry(self.names@[first]) {
                    assert(name_entry(self.names@[first]) == x);
                }
            }
            assert(hits.to_set() =~= all);
            assert(lists(hits, all));
        }
        out
    }

    fn sub_position(&self, subscriber: TaskId, key: &TaskKey, mode: SubMode) -> (r: Option<usize>)
        ensures
            match r {
                Some(i) => i < self.subs@.len() && sub_entry(self.subs@[i as int]) == (SubEntry {
                    subscriber,
                    space: key.space@,
                    path: key.path@,
                    mode,
                }),
                None => !self@.subs.contains(
                    SubEntry { subscriber, space: key.space@, path: key.path@, mode },
                ),
            },
    {
        let ghost e = SubEntry { subscriber, space: key.space@, path: key.path@, mode };
        for i in 0..self.subs.len()
            invariant
                e == (SubEntry { subscriber, space: key.space@, path: key.path@, mode }),
                forall|j: int| 0 <= j < i ==> #[trigger] sub_entry(self.subs@[j]) != e,
        {
            let (s, k, m) = &self.subs[i];
            if *s == subscriber && *k == *key && *m == mode {
                return Some(i);
            }
        }
        None
    }

    /// Tells `subscriber` from now on what happens within reach of `key`.
    pub fn subscribe(&mut self, subscriber: TaskId, key: &TaskKey, mode: SubMode)
        requires
            old(self).wf(),
        ensures
            final(self).wf(),
            final(self)@.names == old(self)@.names,
            final(self)@.subs == old(self)@.subs.insert(
                SubEntry { subscriber, space: key.space@, path: key.path@, mode },
            ),
    {
        match self.sub_position(subscriber, key, mode) {
            Some(i) => {
                assert(self@.subs.contains(sub_entry(self.subs@[i as int])));
                assert(self@.subs =~= old(self)@.subs.insert(sub_entry(self.subs@[i as int])));
            },
            None => {
                let ghost v = self.subs@;
                let entry = (subscriber, key.clone(), mode);
                proof {
                    lemma_push_sub(v, entry);
                    assert forall|i: int| 0 <= i < v.len() implies sub_entry(#[trigger] v[i])
                        != sub_entry(entry) by {
                        assert(self@.subs.contains(sub_entry(v[i])));
                    }
                }
                self.subs.push(entry);
            },
        }
    }

    /// Takes back a subscription.
    pub fn unsubscribe(&mut self, subscriber: TaskId, key: &TaskKey, mode: SubMode)
        requires
            old(self).wf(),
        ensures
            final(self).wf(),
            final(self)@.names == old(self)@.names,
            final(self)@.subs == old(self)@.subs.remove(
                SubEntry { subscriber, space: key.space@, path: key.path@, mode },
            ),
    {
        match self.sub_position(subscriber, key, mode) {
            Some(i) => {
                proof {
                    lemma_remove_sub(self.subs@, i as int);
                }
                self.subs.remove(i);
            },
            None => {
                assert(self@.subs =~= old(self)@.subs.remove(
                    SubEntry { subscriber, space: key.space@, path: key.path@, mode },
                ));
            },
        }
    }

    /// Takes back every subscription of `subscriber`.
    pub fn remove_subscriber(&mut self, subscriber: TaskId)
        requires
            old(self).wf(),
        ensures
            final(self).wf(),
            final(self)@.names == old(self)@.names,
            final(self)@.subs == old(self)@.subs.filter(
                |s: SubEntry| s.subscriber != subscriber,
            ),
    {
        let mut i: usize = 0;
        while i < self.subs.len()
            invariant
                i <= self.subs@.len(),
                distinct_subs(self.subs@),
                self.names == old(self).names,
                distinct_keys(self.names@),
                forall|j: int| 0 <= j < i ==> (#[trigger] self.subs@[j]).0 != subscriber,
                self@.subs.filter(|s: SubEntry| s.subscriber != subscriber) == old(
                    self,
                )@.subs.filter(|s: SubEntry| s.subscriber != subscriber),
            decreases self.subs@.len() - i,
        {
            if self.subs[i].0 == subscriber {
                let ghost before = self.subs@;
                proof {
                    lemma_remove_sub(before, i as int);
                }
                self.subs.remove(i);
                proof {
                    let keep = |s: SubEntry| s.subscriber != subscriber;
                    assert(sub_set(self.subs@).filter(keep) =~= sub_set(before).filter(keep));
                }
            } else {
                i += 1;
            }
        }
        proof {
            let keep = |s: SubEntry| s.subscriber != subscriber;
            assert(self@.subs =~= self@.subs.filter(keep));
        }
    }

    /// Whether `subscriber` is told of what happens at `path` in `space`.
    pub fn is_subscribed(&self, subscriber: TaskId, space: &TaskSpaceId, path: &TaskPath) -> (r: bool)
        ensures
            r == notified(self@.subs, subscriber, space@, path@),
    {
        for i in 0..self.subs.len()
            invariant
                forall|j: int|
                    0 <= j < i ==> {
                        let e = sub_entry(#[trigger] self.subs@[j]);
                        !(e.subscriber == subscriber && e.space == space@ && reaches(
                            e.mode,
                            e.path,
                            path@,
                        ))
                    },
        {
            let (s, k, m) = &self.subs[i];
            if *s == subscriber && k.space == *space && reached(*m, &k.path, path) {
                assert(self@.subs.contains(sub_entry(self.subs@[i as int])));
                return true;
            }
        }
        proof {
            if notified(self@.subs, subscriber, space@, path@) {
                let e = choose|s: SubEntry| #[trigger]
                    self@.subs.contains(s) && s.subscriber == subscriber && s.space == space@
                        && reaches(s.mode, s.path, path@);
                let j = choose|j: int|
                    0 <= j < self.subs@.len() && #[trigger] sub_entry(self.subs@[j]) == e;
                assert(sub_entry(self.subs@[j]) == e);
            }
        }
        false
    }

    /// Adds the ids of those who are told of what happens at `key`.
    pub fn collect(&self, key: &TaskKey, out: &mut HashSet<usize>)
        ensures
            final(out)@ == old(out)@.union(
                Set::new(|n: usize| notified(self@.subs, TaskId(n), key.space@, key.path@)),
            ),
    {
        let ghost start = out@;
        let ghost told = Set::new(
            |n: usize| notified(self@.subs, TaskId(n), key.space@, key.path@),
        );
        for i in 0..self.subs.len()
            invariant
                told == Set::new(
                    |n: usize| notified(self@.subs, TaskId(n), key.space@, key.path@),
                ),
                forall|n: usize| #[trigger] out@.contains(n) ==> start.contains(n) || told.contains(n),
                forall|n: usize| start.contains(n) ==> #[trigger] out@.contains(n),
                forall|j: int|
                    0 <= j < i ==> {
                        let e = sub_entry(#[trigger] self.subs@[j]);
                        e.space == key.space@ && reaches(e.mode, e.path, key.path@)
                            ==> out@.contains(e.subscriber.0)
                    },
        {
            let (s, k, m) = &self.subs[i];
            let ghost e = sub_entry(self.subs@[i as int]);
            if k.space == key.space && reached(*m, &k.path, &key.path) {
                proof {
                    assert(self@.subs.contains(e));
                    assert(notified(self@.subs, e.subscriber, key.space@, key.path@));
                    assert(TaskId(s.0) == *s);
                    assert(told.contains(s.0));
                }
                out.insert(s.0);
            }
        }
        proof {
            assert forall|n: usize| told.contains(n) implies out@.contains(n) by {
                let e = choose|s: SubEntry| #[trigger]
                    self@.subs.contains(s) && s.subscriber == TaskId(n) && s.space == key.space@
                        && reaches(s.mode, s.path, key.path@);
                let j = choose|j: int|
                    0 <= j < self.subs@.len() && #[trigger] sub_entry(self.subs@[j]) == e;
                assert(sub_entry(self.subs@[j]) == e);
            }
            assert(out@ =~= start.union(told));
        }
    }
}

/// The contents of a list of named tasks.
pub open spec fn scope_views(v: Seq<(TaskPath, TaskId)>) -> Seq<(Seq<char>, TaskId)> {
    v.map_values(|e: (TaskPath, TaskId)| (e.0@, e.1))
}

/// In a well-formed namespace a name means one task.
pub proof fn law_names_are_unambiguous(ns: Namespace, a: NameEntry, b: NameEntry)
    requires
        ns.wf(),
        ns@.names.contains(a),
        ns@.names.contains(b),
        a.space == b.space,
        a.path == b.path,
    ensures
        a == b,
{
    let i = choose|i: int| 0 <= i < ns.names@.len() && #[trigger] name_entry(ns.names@[i]) == a;
    let j = choose|j: int| 0 <= j < ns.names@.len() && #[trigger] name_entry(ns.names@[j]) == b;
    assert(ns.names@[i].0@ == ns.names@[j].0@);
}

/// A subscription in one space says nothing about another space.
pub proof fn law_subscriptions_are_space_local(
    subs: Set<SubEntry>,
    added: SubEntry,
    id: TaskId,
    space: Seq<char>,
    path: Seq<char>,
)
    requires
        added.space != space,
    ensures
        notified(subs.insert(added), id, space, path) == notified(subs, id, space, path),
{
    let more = subs.insert(added);
    if notified(subs, id, space, path) {
        let s = choose|s: SubEntry| #[trigger]
            subs.contains(s) && s.subscriber == id && s.space == space && reaches(
                s.mode,
                s.path,
                path,
            );
        assert(more.contains(s));
    }
    if notified(more, id, space, path) {
        let s = choose|s: SubEntry| #[trigger]
            more.contains(s) && s.subscriber == id && s.space == space && reaches(
                s.mode,
                s.path,
                path,
            );
        assert(subs.contains(s));
    }
}

/// The tasks in the scope of a key are those of which a subscription there,
/// with the same mode, tells its subscriber.
pub proof fn law_scope_is_what_a_subscription_reaches(
    names: Set<NameEntry>,
    sub: SubEntry,
    e: NameEntry,
)
    requires
        names.contains(e),
    ensures
        scope(names, (sub.space, sub.path), sub.mode).contains(e) == notified(
            Set::<SubEntry>::empty().insert(sub),
            sub.subscriber,
            e.space,
            e.path,
        ),
{
    let one = Set::<SubEntry>::empty().insert(sub);
    assert(one.contains(sub));
}

/// Once a subscriber is removed it is told of nothing.
pub proof fn law_removed_subscriber_hears_nothing(
    subs: Set<SubEntry>,
    id: TaskId,
    space: Seq<char>,
    path: Seq<char>,
)
    ensures
        !notified(subs.filter(|s: SubEntry| s.subscriber != id), id, space, path),
{
}

/// Taking back a new subscription, or a new name, leaves what was there before.
pub proof fn law_undo(ns: NamespaceView, sub: SubEntry, name: NameEntry)
    ensures
        !ns.subs.contains(sub) ==> ns.subs.insert(sub).remove(sub) == ns.subs,
        !ns.names.contains(name) ==> ns.names.insert(name).remove(name) == ns.names,
{
    if !ns.subs.contains(sub) {
        assert(ns.subs.insert(sub).remove(sub) =~= ns.subs);
    }
    if !ns.names.contains(name) {
        assert(ns.names.insert(name).remove(name) =~= ns.names);
    }
}

/// Two lists of the same names hold the same tasks, each as often.
proof fn lemma_same_ids(a: Seq<NameEntry>, b: Seq<NameEntry>)
    requires
        a.no_duplicates(),
        b.no_duplicates(),
        a.to_set() == b.to_set(),
    ensures
        a.map_values(|e: NameEntry| e.id).to_multiset() == b.map_values(
            |e: NameEntry| e.id,
        ).to_multiset(),
    decreases a.len(),
{
    broadcast use {vstd::seq_lib::group_to_multiset_ensures, vstd::multiset::group_multiset_axioms};

    let ids = |e: NameEntry| e.id;
    if a.len() == 0 {
        if b.len() > 0 {
            assert(b.to_set().contains(b[0]));
            assert(a.to_set().contains(b[0]));
        }
        assert(a =~= b);
    } else {
        let e = a.last();
        let rest = a.drop_last();
        assert(a.to_set().contains(e));
        assert(b.contains(e));
        let k = choose|k: int| 0 <= k < b.len() && b[k] == e;
        let others = b.remove(k);
        assert forall|x: NameEntry| rest.to_set().contains(x) == others.to_set().contains(x) by {
            if rest.contains(x) {
                let i = choose|i: int| 0 <= i < rest.len() && rest[i] == x;
                assert(a[i] == x);
                assert(a.to_set().contains(x));
                assert(b.contains(x));
                let j = choose|j: int| 0 <= j < b.len() && b[j] == x;
                let j2 = if j < k {
                    j
                } else {
                    j - 1
                };
                assert(others[j2] == x);
            }
            if others.contains(x) {
                let j = choose|j: int| 0 <= j < others.len() && others[j] == x;
                let j2 = if j < k {
                    j
                } else {
                    j + 1
                };
                assert(b[j2] == x);
                assert(b.to_set().contains(x));
                assert(a.contains(x));
                let i = choose|i: int| 0 <= i < a.len() && a[i] == x;
                assert(rest[i] == x);
            }
        }
        assert(rest.to_set() =~= others.to_set());
        lemma_same_ids(rest, others);
        assert(a.map_values(ids) =~= rest.map_values(ids).push(e.id));
        assert(others.map_values(ids) =~= b.map_values(ids).remove(k));
        assert(b.map_values(ids)[k] == e.id);
        assert(b.map_values(ids).to_multiset().contains(e.id));
        assert(b.map_values(ids).to_multiset() =~= b.map_values(ids).to_multiset().remove(
            e.id,
        ).insert(e.id));
    }
}

/// Names listed space by space, and their tasks as the sum over the spaces.
proof fn lemma_space_by_space(
    names: Set<NameEntry>,
    pattern: Seq<char>,
    spaces: Seq<Seq<char>>,
    each: Seq<Seq<TaskId>>,
) -> (hits: Seq<NameEntry>)
    requires
        spaces.no_duplicates(),
        each.len() == spaces.len(),
        forall|i: int|
            0 <= i < spaces.len() ==> globs(
                names,
                SpaceSelectorView::One(#[trigger] spaces[i]),
                pattern,
                each[i],
            ),
    ensures
        hits.no_duplicates(),
        forall|e: NameEntry| #[trigger]
            hits.contains(e) <==> globbed(names, SpaceSelectorView::Any, pattern).contains(e)
                && spaces.contains(e.space),
        hits.map_values(|e: NameEntry| e.id).to_multiset() == summed(each),
    decreases spaces.len(),
{
    broadcast use {vstd::seq_lib::group_to_multiset_ensures, vstd::multiset::group_multiset_axioms};

    let ids = |e: NameEntry| e.id;
    if spaces.len() == 0 {
        let hits = Seq::<NameEntry>::empty();
        assert(hits.map_values(ids).to_multiset() =~= summed(each));
        hits
    } else {
        let space = spaces.last();
        let fewer = spaces.drop_last();
        assert forall|i: int| 0 <= i < fewer.len() implies globs(
            names,
            SpaceSelectorView::One(#[trigger] fewer[i]),
            pattern,
            each.drop_last()[i],
        ) by {
            assert(fewer[i] == spaces[i]);
        }
        let before = lemma_space_by_space(names, pattern, fewer, each.drop_last());
        let sel = SpaceSelectorView::One(space);
        assert(space == spaces[spaces.len() - 1]);
        assert(globs(names, sel, pattern, each.last()));
        let here = choose|h: Seq<NameEntry>| #[trigger]
            lists(h, globbed(names, sel, pattern)) && each.last() == h.map_values(ids);
        let hits = before + here;
        assert forall|e: NameEntry| here.contains(e) == globbed(names, sel, pattern).contains(
            e,
        ) by {
            assert(here.to_set().contains(e) == here.contains(e));
        }
        assert forall|e: NameEntry| #[trigger]
            hits.contains(e) <==> globbed(names, SpaceSelectorView::Any, pattern).contains(e)
                && spaces.contains(e.space) by {
            if hits.contains(e) {
                let i = choose|i: int| 0 <= i < hits.len() && hits[i] == e;
                if i < before.len() {
                    assert(before[i] == e);
                    assert(before.contains(e));
                    let j = choose|j: int| 0 <= j < fewer.len() && fewer[j] == e.space;
                    assert(spaces[j] == e.space);
                } else {
                    assert(here[i - before.len()] == e);
                    assert(here.contains(e));
                    assert(spaces[spaces.len() - 1] == e.space);
                }
            }
            if globbed(names, SpaceSelectorView::Any, pattern).contains(e) && spaces.contains(
                e.space,
            ) {
                let j = choose|j: int| 0 <= j < spaces.len() && spaces[j] == e.space;
                if j < fewer.len() {
                    assert(fewer[j] == e.space);
                    assert(before.contains(e));
                    let i = choose|i: int| 0 <= i < before.len() && before[i] == e;
                    assert(hits[i] == e);
                } else {
                    assert(here.contains(e));
                    let i = choose|i: int| 0 <= i < here.len() && here[i] == e;
                    assert(hits[before.len() + i] == e);
                }
            }
        }
        assert forall|i: int, j: int| 0 <= i < j < hits.len() implies hits[i] != hits[j] by {
            if i < before.len() && j >= before.len() {
                assert(before.contains(before[i]));
                assert(here.contains(here[j - before.len()]));
                if hits[i] == hits[j] {
                    let k = choose|k: int| 0 <= k < fewer.len() && fewer[k] == space;
                    assert(fewer.contains(space));
                    assert(spaces[k] == spaces[spaces.len() - 1]);
                }
            }
        }
        assert(hits.map_values(ids) =~= before.map_values(ids) + here.map_values(ids));
        vstd::seq_lib::lemma_multiset_commutative(before.map_values(ids), here.map_values(ids));
        hits
    }
}

/// A glob over all spaces selects, as a multiset, what it selects in each space
/// together. `spaces` are all that are in use, and may be more.
pub proof fn law_any_space_is_the_sum(
    names: Set<NameEntry>,
    pattern: Seq<char>,
    spaces: Seq<Seq<char>>,
    each: Seq<Seq<TaskId>>,
    all: Seq<TaskId>,
)
    requires
        spaces.no_duplicates(),
        forall|e: NameEntry| #[trigger] names.contains(e) ==> spaces.contains(e.space),
        each.len() == spaces.len(),
        forall|i: int|
            0 <= i < spaces.len() ==> globs(
                names,
                SpaceSelectorView::One(#[trigger] spaces[i]),
                pattern,
                each[i],
            ),
        globs(names, SpaceSelectorView::Any, pattern, all),
    ensures
        all.to_multiset() == summed(each),
{
    let ids = |e: NameEntry| e.id;
    let any = globbed(names, SpaceSelectorView::Any, pattern);
    let hits = lemma_space_by_space(names, pattern, spaces, each);
    let found = choose|h: Seq<NameEntry>| #[trigger] lists(h, any) && all == h.map_values(ids);
    assert forall|e: NameEntry| found.to_set().contains(e) == hits.to_set().contains(e) by {
        assert(hits.to_set().contains(e) == hits.contains(e));
        assert(found.to_set().contains(e) == any.contains(e));
        if any.contains(e) {
            assert(names.contains(e));
        }
    }
    assert(found.to_set() =~= hits.to_set());
    lemma_same_ids(found, hits);
}

/// A glob over one space holds the task of a name exactly where the name stands
/// in that space and its path matches; in a space that is not in use it holds
/// nothing.
pub proof fn law_one_space_is_its_own(
    names: Set<NameEntry>,
    space: Seq<char>,
    pattern: Seq<char>,
    ids: Seq<TaskId>,
    id: TaskId,
)
    requires
        globs(names, SpaceSelectorView::One(space), pattern, ids),
    ensures
        ids.contains(id) <==> exists|e: NameEntry| #[trigger]
            names.contains(e) && e.space == space && e.id == id && glob_matches(
                components(pattern),
                components(e.path),
            ),
        (forall|e: NameEntry| #[trigger] names.contains(e) ==> e.space != space) ==> ids.len()
            == 0,
{
    let sel = SpaceSelectorView::One(space);
    let hits = choose|h: Seq<NameEntry>| #[trigger]
        lists(h, globbed(names, sel, pattern)) && ids == h.map_values(|e: NameEntry| e.id);
    assert forall|e: NameEntry| hits.contains(e) == globbed(names, sel, pattern).contains(e) by {
        assert(hits.to_set().contains(e) == hits.contains(e));
    }
    if ids.contains(id) {
        let i = choose|i: int| 0 <= i < ids.len() && ids[i] == id;
        assert(hits.contains(hits[i]));
        assert(names.contains(hits[i]));
    }
    if exists|e: NameEntry| #[trigger]
        names.contains(e) && e.space == space && e.id == id && glob_matches(
            components(pattern),
            components(e.path),
        ) {
        let e = choose|e: NameEntry| #[trigger]
            names.contains(e) && e.space == space && e.id == id && glob_matches(
                components(pattern),
                components(e.path),
            );
        assert(hits.contains(e));
        let i = choose|i: int| 0 <= i < hits.len() && hits[i] == e;
        assert(ids[i] == id);
    }
    if ids.len() > 0 {
        assert(hits.contains(hits[0]));
        assert(names.contains(hits[0]));
    }
}

/// A subscription reaches the path at which it stands, and with the whole subtree
/// also everything whose path goes on behind that with a slash.
pub proof fn law_what_subscriptions_reach(at: Seq<char>, path: Seq<char>)
    ensures
        reaches(SubMode::Exact, at, path) <==> path == at,
        at.len() > 0 ==> (reaches(SubMode::Subtree, at, path) <==> path == at || exists|
            rest: Seq<char>,
        |
            path == #[trigger] (at + seq!['/'] + rest)),
        at.len() == 0 ==> reaches(SubMode::Subtree, at, path),
{
    crate::kernel::task_path::law_below(path, at);
    if at.len() == 0 && path.len() == 0 {
        assert(path =~= at);
    }
}

/// A further subscription adds exactly what it reaches, for its own subscriber, in
/// its own space.
pub proof fn law_a_further_subscription(
    subs: Set<SubEntry>,
    added: SubEntry,
    id: TaskId,
    space: Seq<char>,
    path: Seq<char>,
)
    ensures
        !notified(Set::<SubEntry>::empty(), id, space, path),
        notified(subs.insert(added), id, space, path) <==> notified(subs, id, space, path) || (
        added.subscriber == id && added.space == space && (path == added.path || (added.mode
            is Subtree && is_below(path, added.path)))),
{
    let more = subs.insert(added);
    if notified(subs, id, space, path) {
        let s = choose|s: SubEntry| #[trigger]
            subs.contains(s) && s.subscriber == id && s.space == space && reaches(
                s.mode,
                s.path,
                path,
            );
        assert(more.contains(s));
    }
    if notified(more, id, space, path) {
        let s = choose|s: SubEntry| #[trigger]
            more.contains(s) && s.subscriber == id && s.space == space && reaches(
                s.mode,
                s.path,
                path,
            );
        if s != added {
            assert(subs.contains(s));
        }
    }
    assert(more.contains(added));
}

/// A glob selects the names of the spaces that are meant whose paths match it, and
/// no others.
pub proof fn law_what_globs_select(
    names: Set<NameEntry>,
    space: Seq<char>,
    pattern: Seq<char>,
    e: NameEntry,
)
    ensures
        globbed(names, SpaceSelectorView::One(space), pattern).contains(e) <==> names.contains(e)
            && e.space == space && glob_matches(components(pattern), components(e.path)),
        globbed(names, SpaceSelectorView::Any, pattern).contains(e) <==> names.contains(e)
            && glob_matches(components(pattern), components(e.path)),
{
}

/// What lies in the scope of a key: its own name, and with the whole subtree the
/// names under it, all of the same space.
pub proof fn law_what_lies_in_scope(
    names: Set<NameEntry>,
    key: (Seq<char>, Seq<char>),
    e: NameEntry,
)
    ensures
        scope(names, key, SubMode::Exact).contains(e) <==> names.contains(e) && e.space == key.0
            && e.path == key.1,
        scope(names, key, SubMode::Subtree).contains(e) <==> names.contains(e) && e.space == key.0
            && (e.path == key.1 || is_below(e.path, key.1)),
{
}

/// The path of a task, as a glob in its space, selects that task and no other.
pub proof fn law_a_path_selects_its_task(ns: Namespace, e: NameEntry, ids: Seq<TaskId>)
    requires
        ns.wf(),
        ns@.names.contains(e),
        crate::kernel::task_path::is_path(e.path),
        globs(ns@.names, SpaceSelectorView::One(e.space), e.path, ids),
    ensures
        ids == seq![e.id],
{
    let all = globbed(ns@.names, SpaceSelectorView::One(e.space), e.path);
    let hits = choose|hits: Seq<NameEntry>| #[trigger]
        lists(hits, all) && ids == hits.map_values(|e: NameEntry| e.id);
    assert forall|x: NameEntry| all.contains(x) <==> x == e by {
        crate::kernel::task_path::law_a_path_matches_itself(e.path, x.path);
        if all.contains(x) {
            law_names_are_unambiguous(ns, x, e);
        }
    }
    assert(hits.to_set().contains(e));
    assert(hits.len() > 0);
    assert forall|i: int| 0 <= i < hits.len() implies #[trigger] hits[i] == e by {
        assert(hits.to_set().contains(hits[i]));
        assert(all.contains(hits[i]));
    }
    if hits.len() > 1 {
        assert(hits[0] == hits[1]);
    }
    assert(hits =~= seq![e]);
    assert(ids =~= seq![e.id]);
}

/// A key is named once a task has it, and no other key is named by that.
pub proof fn law_names_that_are_taken(names: Set<NameEntry>, e: NameEntry, key: (Seq<char>, Seq<char>))
    ensures
        !is_named(Set::<NameEntry>::empty(), key),
        is_named(names.insert(e), key) <==> is_named(names, key) || (e.space == key.0 && e.path
            == key.1),
{
    if is_named(names, key) {
        let x = choose|x: NameEntry| #[trigger]
            names.contains(x) && x.space == key.0 && x.path == key.1;
        assert(names.insert(e).contains(x));
    }
    if is_named(names.insert(e), key) {
        let x = choose|x: NameEntry| #[trigger]
            names.insert(e).contains(x) && x.space == key.0 && x.path == key.1;
        if x != e {
            assert(names.contains(x));
        }
    }
    assert(names.insert(e).contains(e));
}

/// Tasks in scope are known by their paths and ids, one by one, and a list of names
/// holds each of them once.
pub proof fn law_what_lists_are(
    v: Seq<(TaskPath, TaskId)>,
    hits: Seq<NameEntry>,
    s: Set<NameEntry>,
    e: NameEntry,
    i: int,
    j: int,
)
    ensures
        scope_views(v).len() == v.len(),
        0 <= i < v.len() ==> scope_views(v)[i] == (v[i].0@, v[i].1),
        lists(hits, s) && 0 <= i < hits.len() ==> s.contains(hits[i]),
        lists(hits, s) && 0 <= i < j < hits.len() ==> hits[i] != hits[j],
        lists(hits, s) && s.contains(e) ==> hits.contains(e),
{
    if lists(hits, s) {
        if 0 <= i < hits.len() {
            assert(hits.contains(hits[i]));
            assert(hits.to_set().contains(hits[i]));
        }
        if s.contains(e) {
            assert(hits.to_set().contains(e));
        }
    }
}

} // verus!
