//! What is said to a kernel: which tasks are meant, and what to do with them.

use vstd::prelude::*;

use crate::kernel::task::TaskId;
use crate::kernel::task_key::{key_text, TaskSpaceId};
use crate::text::{decimal, push_decimal};

verus! {

/// One space or all of them.
#[derive(Debug, PartialEq, Eq)]
pub enum SpaceSelector {
    One(TaskSpaceId),
    Any,
}

/// Which spaces a selector means.
pub enum SpaceSelectorView {
    One(Seq<char>),
    Any,
}

/// Which tasks a request means.
#[derive(Debug, PartialEq, Eq)]
pub enum TaskSelector {
    Id(TaskId),
    Glob(SpaceSelector, String),
    Tag(SpaceSelector, String),
    /// Every task of a space.
    All(TaskSpaceId),
}

/// Which tasks a selector means.
pub enum TaskSelectorView {
    Id(TaskId),
    Glob(SpaceSelectorView, Seq<char>),
    Tag(SpaceSelectorView, Seq<char>),
    All(Seq<char>),
}

/// What a kernel does with the tasks it selects.
#[derive(Clone, Copy, Debug, PartialEq, Eq, Structural)]
pub enum Verb {
    Start,
    Stop,
    Down,
    Kill,
    Veto,
    Restart,
    ForceRestart,
}

/// A message to a kernel. `ack` asks for the number of tasks that matched.
#[derive(Debug, PartialEq, Eq)]
pub enum KernelCommand {
    Quit,
    Act { verb: Verb, selector: TaskSelector, ack: bool },
    RemoveTask(TaskId),
}

/// A message to a kernel.
pub enum KernelCommandView {
    Quit,
    Act { verb: Verb, selector: TaskSelectorView, ack: bool },
    RemoveTask(TaskId),
}

impl View for SpaceSelector {
    type V = SpaceSelectorView;

    open spec fn view(&self) -> SpaceSelectorView {
        match self {
            SpaceSelector::One(space) => SpaceSelectorView::One(space@),
            SpaceSelector::Any => SpaceSelectorView::Any,
        }
    }
}

impl View for TaskSelector {
    type V = TaskSelectorView;

    open spec fn view(&self) -> TaskSelectorView {
        match self {
            TaskSelector::Id(id) => TaskSelectorView::Id(*id),
            TaskSelector::Glob(space, pattern) => TaskSelectorView::Glob(space@, pattern@),
            TaskSelector::Tag(space, tag) => TaskSelectorView::Tag(space@, tag@),
            TaskSelector::All(space) => TaskSelectorView::All(space@),
        }
    }
}

impl View for KernelCommand {
    type V = KernelCommandView;

    open spec fn view(&self) -> KernelCommandView {
        match self {
            KernelCommand::Quit => KernelCommandView::Quit,
            KernelCommand::Act { verb, selector, ack } => KernelCommandView::Act {
                verb: *verb,
                selector: selector@,
                ack: *ack,
            },
            KernelCommand::RemoveTask(id) => KernelCommandView::RemoveTask(*id),
        }
    }
}

/// The views of a list of kernel commands.
pub open spec fn kernel_views(v: Seq<KernelCommand>) -> Seq<KernelCommandView> {
    v.map_values(|c: KernelCommand| c@)
}

impl Clone for SpaceSelector {
    fn clone(&self) -> (r: Self)
        ensures
            r == *self,
    {
        match self {
            SpaceSelector::One(space) => SpaceSelector::One(space.clone()),
            SpaceSelector::Any => SpaceSelector::Any,
        }
    }
}

impl Clone for TaskSelector {
    fn clone(&self) -> (r: Self)
        ensures
            r == *self,
    {
        match self {
            TaskSelector::Id(id) => TaskSelector::Id(*id),
            TaskSelector::Glob(space, pattern) => TaskSelector::Glob(
                space.clone(),
                pattern.clone(),
            ),
            TaskSelector::Tag(space, tag) => TaskSelector::Tag(space.clone(), tag.clone()),
            TaskSelector::All(space) => TaskSelector::All(space.clone()),
        }
    }
}

impl Clone for KernelCommand {
    fn clone(&self) -> (r: Self)
        ensures
            r == *self,
    {
        match self {
            KernelCommand::Quit => KernelCommand::Quit,
            KernelCommand::Act { verb, selector, ack } => KernelCommand::Act {
                verb: *verb,
                selector: selector.clone(),
                ack: *ack,
            },
            KernelCommand::RemoveTask(id) => KernelCommand::RemoveTask(*id),
        }
    }
}

/// `what` behind the qualifier of the spaces that are meant.
pub open spec fn qualified(space: SpaceSelectorView, what: Seq<char>) -> Seq<char> {
    match space {
        SpaceSelectorView::One(name) => key_text(name, what),
        SpaceSelectorView::Any => seq!['@', '*', '/'] + what,
    }
}

/// A selector as text.
pub open spec fn selector_text(s: TaskSelectorView) -> Seq<char> {
    match s {
        TaskSelectorView::Id(id) => seq!['{'] + decimal(id.0 as nat) + seq!['}'],
        TaskSelectorView::Glob(space, pattern) => qualified(space, pattern),
        TaskSelectorView::Tag(space, tag) => qualified(space, seq!['+'] + tag),
        TaskSelectorView::All(space) => key_text(space, seq!['*', '*']),
    }
}

fn push_space(out: &mut String, space: &TaskSpaceId)
    ensures
        final(out)@ == old(out)@ + key_text(space@, Seq::<char>::empty()),
{
    if !space.is_default() {
        out.push('@');
        out.append(space.as_str());
        out.push('/');
    }
    assert(out@ =~= old(out)@ + key_text(space@, Seq::<char>::empty()));
}

fn push_spaces(out: &mut String, space: &SpaceSelector)
    ensures
        final(out)@ == old(out)@ + qualified(space@, Seq::<char>::empty()),
{
    match space {
        SpaceSelector::One(space) => push_space(out, space),
        SpaceSelector::Any => {
            out.push('@');
            out.push('*');
            out.push('/');
        },
    }
    assert(out@ =~= old(out)@ + qualified(space@, Seq::<char>::empty()));
}

impl TaskSelector {
    /// Every task of the default space.
    pub fn all() -> (r: Self)
        ensures
            r@ == TaskSelectorView::All(Seq::<char>::empty()),
    {
        TaskSelector::All(TaskSpaceId::default_space())
    }

    /// The selector as text.
    pub fn to_string(&self) -> (r: String)
        ensures
            r@ == selector_text(self@),
    {
        let mut out = String::new();
        match self {
            TaskSelector::Id(id) => {
                out.push('{');
                push_decimal(&mut out, id.0 as u64);
                out.push('}');
            },
            TaskSelector::Glob(space, pattern) => {
                push_spaces(&mut out, space);
                out.append(pattern.as_str());
            },
            TaskSelector::Tag(space, tag) => {
                push_spaces(&mut out, space);
                out.push('+');
                out.append(tag.as_str());
            },
            TaskSelector::All(space) => {
                push_space(&mut out, space);
                out.push('*');
                out.push('*');
            },
        }
        assert(out@ =~= selector_text(self@));
        out
    }
}

/// How selectors are written: a task by its id in braces, a glob as it is, a tag
/// behind a `+`, everything as `**`, each behind the space that is meant, if that
/// is not the default one.
pub proof fn law_selector_texts(id: TaskId, space: Seq<char>, s: Seq<char>)
    ensures
        selector_text(TaskSelectorView::Id(id)) == seq!['{'] + decimal(id.0 as nat) + seq!['}'],
        selector_text(TaskSelectorView::Glob(SpaceSelectorView::One(Seq::empty()), s)) == s,
        selector_text(TaskSelectorView::Tag(SpaceSelectorView::One(Seq::empty()), s)) == seq!['+']
            + s,
        selector_text(TaskSelectorView::All(Seq::empty())) == seq!['*', '*'],
        selector_text(TaskSelectorView::Glob(SpaceSelectorView::Any, s)) == seq!['@', '*', '/'] + s,
        selector_text(TaskSelectorView::Tag(SpaceSelectorView::Any, s)) == seq!['@', '*', '/', '+']
            + s,
        space.len() > 0 ==> selector_text(TaskSelectorView::Glob(SpaceSelectorView::One(space), s))
            == seq!['@'] + space + seq!['/'] + s,
        space.len() > 0 ==> selector_text(TaskSelectorView::Tag(SpaceSelectorView::One(space), s))
            == seq!['@'] + space + seq!['/', '+'] + s,
        space.len() > 0 ==> selector_text(TaskSelectorView::All(space)) == seq!['@'] + space + seq![
            '/',
            '*',
            '*',
        ],
{
    assert(seq!['@', '*', '/'] + (seq!['+'] + s) =~= seq!['@', '*', '/', '+'] + s);
    assert(seq!['@'] + space + seq!['/'] + (seq!['+'] + s) =~= seq!['@'] + space + seq!['/', '+']
        + s);
    assert(seq!['@'] + space + seq!['/'] + seq!['*', '*'] =~= seq!['@'] + space + seq![
        '/',
        '*',
        '*',
    ]);
}

/// What messages to a kernel are known by: the same kinds, with the same verbs,
/// tasks, spaces and texts, one by one.
pub proof fn law_what_messages_are(
    id: TaskId,
    space: TaskSpaceId,
    spaces: SpaceSelector,
    s: String,
    verb: Verb,
    selector: TaskSelector,
    ack: bool,
    v: Seq<KernelCommand>,
    i: int,
)
    ensures
        SpaceSelector::One(space)@ == SpaceSelectorView::One(space@),
        SpaceSelector::Any@ == SpaceSelectorView::Any,
        TaskSelector::Id(id)@ == TaskSelectorView::Id(id),
        TaskSelector::Glob(spaces, s)@ == TaskSelectorView::Glob(spaces@, s@),
        TaskSelector::Tag(spaces, s)@ == TaskSelectorView::Tag(spaces@, s@),
        TaskSelector::All(space)@ == TaskSelectorView::All(space@),
        KernelCommand::Quit@ == KernelCommandView::Quit,
        KernelCommand::RemoveTask(id)@ == KernelCommandView::RemoveTask(id),
        (KernelCommand::Act { verb, selector, ack })@ == (KernelCommandView::Act {
            verb,
            selector: selector@,
            ack,
        }),
        kernel_views(v).len() == v.len(),
        0 <= i < v.len() ==> kernel_views(v)[i] == v[i]@,
{
}

} // verus!
