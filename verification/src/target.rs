//! Targets: `[runner::][@space/]selector`, or the exact runtime id of a task.
//!
//! A target is parsed eagerly at every boundary. The runner is resolved by the
//! client and never reaches a kernel.

use std::str::FromStr;

use vstd::prelude::*;
use vstd::slice::slice_subrange;

use crate::kernel::kernel_message::{
    selector_text, SpaceSelector, SpaceSelectorView, TaskSelector, TaskSelectorView,
};
use crate::kernel::task::TaskId;
use crate::kernel::task_key::{
    is_space_name, space_fault, TaskKey, TaskSpaceId,
};
use crate::kernel::task_path::{
    all_component_chars, is_glob, is_path, is_wildcard, only_component_chars, path_fault, pieces,
    valid_component_char, TaskPath,
};
use crate::text::{
    alnum, chars_of, find, first_at, is_alnum, is_at, last_at, rfind, same, string_of,
};

verus! {

/// What a request is aimed at.
#[derive(Debug, PartialEq, Eq)]
pub enum Target {
    Id(TaskId),
    Select { runner: Option<Runner>, space: SpaceSelector, selector: Selector },
}

/// Where the tasks run.
#[derive(Debug, PartialEq, Eq)]
pub enum Runner {
    /// Built-in (`host`, `project`, `cloud`) or user alias.
    Name(String),
    /// `/abs`, `~/rel`, or `./rel`: a local project runner.
    Path(String),
    /// `ssh://...`, `cloud://...`.
    Url(String),
}

/// Which tasks of a runner are meant.
#[derive(Debug, PartialEq, Eq)]
pub enum Selector {
    /// A path or a glob; an exact path is a glob without wildcards.
    Glob(String),
    Tag(String),
}

/// Why a text is not a target, or a target does not serve.
#[derive(Debug, PartialEq, Eq)]
pub struct InvalidTarget(pub String);

/// The contents of a target.
pub enum TargetView {
    Id(TaskId),
    Select { runner: Option<RunnerView>, space: SpaceSelectorView, selector: SelectorView },
}

/// The contents of a runner.
pub enum RunnerView {
    Name(Seq<char>),
    Path(Seq<char>),
    Url(Seq<char>),
}

/// The contents of a selector.
pub enum SelectorView {
    Glob(Seq<char>),
    Tag(Seq<char>),
}

impl View for Runner {
    type V = RunnerView;

    open spec fn view(&self) -> RunnerView {
        match self {
            Runner::Name(s) => RunnerView::Name(s@),
            Runner::Path(s) => RunnerView::Path(s@),
            Runner::Url(s) => RunnerView::Url(s@),
        }
    }
}

impl View for Selector {
    type V = SelectorView;

    open spec fn view(&self) -> SelectorView {
        match self {
            Selector::Glob(s) => SelectorView::Glob(s@),
            Selector::Tag(s) => SelectorView::Tag(s@),
        }
    }
}

impl View for Target {
    type V = TargetView;

    open spec fn view(&self) -> TargetView {
        match self {
            Target::Id(id) => TargetView::Id(*id),
            Target::Select { runner, space, selector } => TargetView::Select {
                runner: runner_view(*runner),
                space: space@,
                selector: selector@,
            },
        }
    }
}

/// The contents of an optional runner.
pub open spec fn runner_view(runner: Option<Runner>) -> Option<RunnerView> {
    match runner {
        Some(r) => Some(r@),
        None => None,
    }
}

/// A character of a runner name.
pub open spec fn valid_runner_char(c: char) -> bool {
    is_alnum(c) || c == '-' || c == '_'
}

/// The runner that a text names, or why it names none.
pub open spec fn runner_of(s: Seq<char>) -> Result<RunnerView, Seq<char>> {
    if s.len() == 0 {
        Err("runner is empty"@)
    } else if s == seq!['*'] {
        Err("fleet-wide targeting ('*::') is reserved"@)
    } else if s.contains('#') {
        Err("sub-world selectors ('runner#sub') are reserved"@)
    } else if seq!['g', 'i', 't', '+'].is_prefix_of(s) {
        Err("repo runners ('git+') are reserved"@)
    } else if s[0] == '/' || seq!['~', '/'].is_prefix_of(s) || seq!['.', '/'].is_prefix_of(s) {
        Ok(RunnerView::Path(s))
    } else if first_at(s, seq![':', '/', '/']) is Some {
        Ok(RunnerView::Url(s))
    } else if forall|i: int| 0 <= i < s.len() ==> valid_runner_char(#[trigger] s[i]) {
        Ok(RunnerView::Name(s))
    } else {
        Err("bad runner '"@ + s + "'"@)
    }
}

/// The target of a selector text inside known spaces of a known runner.
pub open spec fn selected(
    runner: Option<RunnerView>,
    space: SpaceSelectorView,
    s: Seq<char>,
) -> Result<TargetView, Seq<char>> {
    if s.len() > 0 && s[0] == '+' {
        let tag = s.skip(1);
        if tag.len() == 0 || !all_component_chars(tag) {
            Err("bad tag '+"@ + tag + "'"@)
        } else {
            Ok(TargetView::Select { runner, space, selector: SelectorView::Tag(tag) })
        }
    } else {
        match path_fault(s, true) {
            Some(fault) => Err(fault.message()),
            None => Ok(TargetView::Select { runner, space, selector: SelectorView::Glob(s) }),
        }
    }
}

/// The target of `[@space/]selector` on a known runner.
pub open spec fn referenced(runner: Option<RunnerView>, s: Seq<char>) -> Result<
    TargetView,
    Seq<char>,
> {
    if s.len() > 0 && s[0] == '@' {
        let rest = s.skip(1);
        match first_at(rest, seq!['/']) {
            None => Err("a space qualifier must be followed by '/'"@),
            Some(i) => {
                let name = rest.take(i);
                if name == seq!['*'] {
                    selected(runner, SpaceSelectorView::Any, rest.skip(i + 1))
                } else if is_space_name(name) {
                    selected(runner, SpaceSelectorView::One(name), rest.skip(i + 1))
                } else {
                    Err(space_fault(name))
                }
            },
        }
    } else {
        selected(runner, SpaceSelectorView::One(Seq::empty()), s)
    }
}

/// The target that a text names, or why it names none.
pub open spec fn target_of(s: Seq<char>) -> Result<TargetView, Seq<char>> {
    match last_at(s, seq![':', ':']) {
        Some(i) => match runner_of(s.take(i)) {
            Ok(runner) => referenced(Some(runner), s.skip(i + 2)),
            Err(message) => Err(message),
        },
        None => referenced(None, s),
    }
}

/// A runner as text.
pub open spec fn runner_text(r: RunnerView) -> Seq<char> {
    match r {
        RunnerView::Name(s) => s,
        RunnerView::Path(s) => s,
        RunnerView::Url(s) => s,
    }
}

/// The kernel selector of a target, without its runner.
pub open spec fn selector_of(t: TargetView) -> TaskSelectorView {
    match t {
        TargetView::Id(id) => TaskSelectorView::Id(id),
        TargetView::Select { runner, space, selector } => match selector {
            SelectorView::Glob(pattern) => TaskSelectorView::Glob(space, pattern),
            SelectorView::Tag(tag) => TaskSelectorView::Tag(space, tag),
        },
    }
}

/// The runner of a target, if it names one.
pub open spec fn runner_in(t: TargetView) -> Option<RunnerView> {
    match t {
        TargetView::Id(_) => None,
        TargetView::Select { runner, .. } => runner,
    }
}

/// A target as text.
pub open spec fn target_text(t: TargetView) -> Seq<char> {
    match runner_in(t) {
        Some(runner) => runner_text(runner) + seq![':', ':'] + selector_text(selector_of(t)),
        None => selector_text(selector_of(t)),
    }
}

/// A selecting target whose parts could have been parsed.
pub open spec fn is_parsed(t: TargetView) -> bool {
    match t {
        TargetView::Id(_) => false,
        TargetView::Select { runner, space, selector } => {
            &&& match runner {
                Some(r) => runner_of(runner_text(r)) == Ok::<RunnerView, Seq<char>>(r),
                None => true,
            }
            &&& match space {
                SpaceSelectorView::One(name) => name.len() == 0 || is_space_name(name),
                SpaceSelectorView::Any => true,
            }
            &&& match selector {
                SelectorView::Glob(pattern) => is_glob(pattern),
                SelectorView::Tag(tag) => tag.len() > 0 && all_component_chars(tag),
            }
        },
    }
}

/// The key that a target names, if it names one task in one space.
pub open spec fn key_of(t: TargetView) -> Option<(Seq<char>, Seq<char>)> {
    match t {
        TargetView::Select {
            runner: None,
            space: SpaceSelectorView::One(space),
            selector: SelectorView::Glob(pattern),
        } => if is_path(pattern) {
            Some((space, pattern))
        } else {
            None
        },
        _ => None,
    }
}

fn contains_char(s: &[char], c: char) -> (r: bool)
    ensures
        r == s@.contains(c),
{
    for i in 0..s.len()
        invariant
            forall|j: int| 0 <= j < i ==> s@[j] != c,
    {
        if s[i] == c {
            return true;
        }
    }
    false
}

/// The runner that a text names.
pub fn parse_runner(runner: &str) -> (r: Result<Runner, InvalidTarget>)
    ensures
        match r {
            Ok(found) => runner_of(runner@) == Ok::<RunnerView, Seq<char>>(found@),
            Err(err) => runner_of(runner@) == Err::<RunnerView, Seq<char>>(err.0@),
        },
{
    let chars = chars_of(runner);
    let s = chars.as_slice();
    if s.len() == 0 {
        return Err(InvalidTarget("runner is empty".to_string()));
    }
    if s.len() == 1 && s[0] == '*' {
        assert(s@ =~= seq!['*']);
        return Err(InvalidTarget("fleet-wide targeting ('*::') is reserved".to_string()));
    }
    if contains_char(s, '#') {
        return Err(InvalidTarget("sub-world selectors ('runner#sub') are reserved".to_string()));
    }
    if s.len() >= 4 && s[0] == 'g' && s[1] == 'i' && s[2] == 't' && s[3] == '+' {
        assert(seq!['g', 'i', 't', '+'] =~= s@.subrange(0, 4));
        return Err(InvalidTarget("repo runners ('git+') are reserved".to_string()));
    }
    proof {
        let git = seq!['g', 'i', 't', '+'];
        if git.is_prefix_of(s@) {
            assert(s@.subrange(0, 4)[0] == 'g' && s@.subrange(0, 4)[1] == 'i' && s@.subrange(
                0,
                4,
            )[2] == 't' && s@.subrange(0, 4)[3] == '+');
        }
        let home = seq!['~', '/'];
        let here = seq!['.', '/'];
        if s@.len() >= 2 {
            assert(s@.subrange(0, 2)[0] == s@[0] && s@.subrange(0, 2)[1] == s@[1]);
            if s@[0] == '~' && s@[1] == '/' {
                assert(home =~= s@.subrange(0, 2));
            }
            if s@[0] == '.' && s@[1] == '/' {
                assert(here =~= s@.subrange(0, 2));
            }
        }
    }
    if s[0] == '/' || (s.len() >= 2 && (s[0] == '~' || s[0] == '.') && s[1] == '/') {
        return Ok(Runner::Path(string_of(s)));
    }
    let scheme = vec![':', '/', '/'];
    assert(scheme@ =~= seq![':', '/', '/']);
    if find(s, scheme.as_slice()).is_some() {
        return Ok(Runner::Url(string_of(s)));
    }
    for i in 0..s.len()
        invariant
            s@ == runner@,
            runner_of(s@) == if forall|j: int| 0 <= j < s@.len() ==> valid_runner_char(#[trigger] s@[j]) {
                Ok(RunnerView::Name(s@))
            } else {
                Err("bad runner '"@ + s@ + "'"@)
            },
            forall|j: int| 0 <= j < i ==> valid_runner_char(#[trigger] s@[j]),
    {
        let c = s[i];
        if !(alnum(c) || c == '-' || c == '_') {
            let mut message = "bad runner '".to_string();
            message.append(runner);
            message.append("'");
            assert(!valid_runner_char(s@[i as int]));
            return Err(InvalidTarget(message));
        }
    }
    Ok(Runner::Name(string_of(s)))
}

fn parse_selector(runner: Option<Runner>, space: SpaceSelector, s: &[char]) -> (r: Result<
    Target,
    InvalidTarget,
>)
    ensures
        match r {
            Ok(t) => selected(runner_view(runner), space@, s@) == Ok::<TargetView, Seq<char>>(t@),
            Err(err) => selected(runner_view(runner), space@, s@) == Err::<TargetView, Seq<char>>(
                err.0@,
            ),
        },
{
    if s.len() > 0 && s[0] == '+' {
        let tag = slice_subrange(s, 1, s.len());
        assert(tag@ =~= s@.skip(1));
        if tag.len() == 0 || !only_component_chars(tag) {
            let mut message = "bad tag '+".to_string();
            message.append(string_of(tag).as_str());
            message.append("'");
            return Err(InvalidTarget(message));
        }
        return Ok(Target::Select { runner, space, selector: Selector::Tag(string_of(tag)) });
    }
    let text = string_of(s);
    match TaskPath::check_glob(text.as_str()) {
        Ok(()) => Ok(Target::Select { runner, space, selector: Selector::Glob(text) }),
        Err(fault) => Err(InvalidTarget(fault.to_string())),
    }
}

fn parse_reference(runner: Option<Runner>, s: &[char]) -> (r: Result<Target, InvalidTarget>)
    ensures
        match r {
            Ok(t) => referenced(runner_view(runner), s@) == Ok::<TargetView, Seq<char>>(t@),
            Err(err) => referenced(runner_view(runner), s@) == Err::<TargetView, Seq<char>>(err.0@),
        },
{
    if s.len() > 0 && s[0] == '@' {
        let rest = slice_subrange(s, 1, s.len());
        assert(rest@ =~= s@.skip(1));
        let slash = vec!['/'];
        assert(slash@ =~= seq!['/']);
        let at = match find(rest, slash.as_slice()) {
            Some(i) => i,
            None => {
                return Err(InvalidTarget("a space qualifier must be followed by '/'".to_string()));
            },
        };
        proof {
            crate::text::lemma_first_from(rest@, seq!['/'], 0);
        }
        let name = slice_subrange(rest, 0, at);
        let selector = slice_subrange(rest, at + 1, rest.len());
        assert(name@ =~= rest@.take(at as int));
        assert(selector@ =~= rest@.skip(at + 1));
        if name.len() == 1 && name[0] == '*' {
            assert(name@ =~= seq!['*']);
            return parse_selector(runner, SpaceSelector::Any, selector);
        }
        return match TaskSpaceId::new(string_of(name).as_str()) {
            Ok(space) => parse_selector(runner, SpaceSelector::One(space), selector),
            Err(message) => Err(InvalidTarget(message)),
        };
    }
    parse_selector(runner, SpaceSelector::One(TaskSpaceId::default_space()), s)
}

impl Clone for Selector {
    fn clone(&self) -> (r: Self)
        ensures
            r == *self,
    {
        match self {
            Selector::Glob(pattern) => Selector::Glob(pattern.clone()),
            Selector::Tag(tag) => Selector::Tag(tag.clone()),
        }
    }
}

impl Clone for Target {
    fn clone(&self) -> (r: Self)
        ensures
            r == *self,
    {
        match self {
            Target::Id(id) => Target::Id(*id),
            Target::Select { runner, space, selector } => Target::Select {
                runner: match runner {
                    Some(runner) => Some(runner.clone()),
                    None => None,
                },
                space: space.clone(),
                selector: selector.clone(),
            },
        }
    }
}

impl Clone for Runner {
    fn clone(&self) -> (r: Self)
        ensures
            r == *self,
    {
        match self {
            Runner::Name(s) => Runner::Name(s.clone()),
            Runner::Path(s) => Runner::Path(s.clone()),
            Runner::Url(s) => Runner::Url(s.clone()),
        }
    }
}

impl Runner {
    /// The runner as text.
    pub fn to_string(&self) -> (r: String)
        ensures
            r@ == runner_text(self@),
    {
        match self {
            Runner::Name(s) | Runner::Path(s) | Runner::Url(s) => s.clone(),
        }
    }
}

impl InvalidTarget {
    /// The error as text.
    pub fn to_string(&self) -> (r: String)
        ensures
            r@ == "invalid target: "@ + self.0@,
    {
        let mut out = "invalid target: ".to_string();
        out.append(self.0.as_str());
        out
    }
}

impl Target {
    /// The target that `text` names.
    pub fn parse(text: &str) -> (r: Result<Self, InvalidTarget>)
        ensures
            match r {
                Ok(t) => target_of(text@) == Ok::<TargetView, Seq<char>>(t@),
                Err(err) => target_of(text@) == Err::<TargetView, Seq<char>>(err.0@),
            },
    {
        let chars = chars_of(text);
        let s = chars.as_slice();
        let separator = vec![':', ':'];
        assert(separator@ =~= seq![':', ':']);
        match rfind(s, separator.as_slice()) {
            Some(i) => {
                proof {
                    crate::text::lemma_last_before(s@, seq![':', ':'], s@.len() as int + 1);
                }
                let name = slice_subrange(s, 0, i);
                let reference = slice_subrange(s, i + 2, s.len());
                assert(name@ =~= s@.take(i as int));
                assert(reference@ =~= s@.skip(i + 2));
                match parse_runner(string_of(name).as_str()) {
                    Ok(runner) => parse_reference(Some(runner), reference),
                    Err(err) => Err(err),
                }
            },
            None => parse_reference(None, s),
        }
    }

    /// The tasks of the default space that match `pattern`.
    pub fn glob(pattern: &str) -> (r: Self)
        ensures
            r@ == (TargetView::Select {
                runner: None,
                space: SpaceSelectorView::One(Seq::empty()),
                selector: SelectorView::Glob(pattern@),
            }),
    {
        Target::Select {
            runner: None,
            space: SpaceSelector::One(TaskSpaceId::default_space()),
            selector: Selector::Glob(pattern.to_string()),
        }
    }

    /// The tasks of the default space that carry `tag`.
    pub fn tag(tag: &str) -> (r: Self)
        ensures
            r@ == (TargetView::Select {
                runner: None,
                space: SpaceSelectorView::One(Seq::empty()),
                selector: SelectorView::Tag(tag@),
            }),
    {
        Target::Select {
            runner: None,
            space: SpaceSelector::One(TaskSpaceId::default_space()),
            selector: Selector::Tag(tag.to_string()),
        }
    }

    /// The runner, if the target names one.
    pub fn runner(&self) -> (r: Option<&Runner>)
        ensures
            match r {
                Some(runner) => runner_in(self@) == Some(runner@),
                None => runner_in(self@) is None,
            },
    {
        match self {
            Target::Id(_) => None,
            Target::Select { runner, .. } => runner.as_ref(),
        }
    }

    /// The same target with its runner dropped, once the client has resolved
    /// which runner it is talking to.
    pub fn without_runner(self) -> (r: Self)
        ensures
            runner_in(r@) is None,
            selector_of(r@) == selector_of(self@),
            self is Id <==> r is Id,
    {
        match self {
            Target::Id(id) => Target::Id(id),
            Target::Select { space, selector, .. } => Target::Select {
                runner: None,
                space,
                selector,
            },
        }
    }

    /// The kernel selector. A runner qualifier is an error here: kernels only
    /// see targets that a client already routed to them.
    pub fn selector(&self) -> (r: Result<TaskSelector, InvalidTarget>)
        ensures
            match r {
                Ok(s) => runner_in(self@) is None && s@ == selector_of(self@),
                Err(err) => runner_in(self@) is Some && err.0@
                    == "runner qualifiers are resolved by the client"@,
            },
    {
        if self.runner().is_some() {
            return Err(InvalidTarget("runner qualifiers are resolved by the client".to_string()));
        }
        Ok(self.local_selector())
    }

    /// The selector part, ignoring the runner.
    fn local_selector(&self) -> (r: TaskSelector)
        ensures
            r@ == selector_of(self@),
    {
        match self {
            Target::Id(id) => TaskSelector::Id(*id),
            Target::Select { space, selector, .. } => match selector {
                Selector::Glob(pattern) => TaskSelector::Glob(space.clone(), pattern.clone()),
                Selector::Tag(tag) => TaskSelector::Tag(space.clone(), tag.clone()),
            },
        }
    }

    /// The exact key for a target that names one task in one space.
    pub fn key(&self) -> (r: Result<TaskKey, InvalidTarget>)
        ensures
            match r {
                Ok(key) => key_of(self@) == Some(key@),
                Err(err) => key_of(self@) is None && err.0@ == "expected a single task path"@,
            },
    {
        if let Target::Select {
            runner: None,
            space: SpaceSelector::One(space),
            selector: Selector::Glob(pattern),
        } = self {
            match TaskPath::new(pattern.as_str()) {
                Ok(path) => Ok(TaskKey::new(space.clone(), path)),
                Err(_) => Err(InvalidTarget("expected a single task path".to_string())),
            }
        } else {
            Err(InvalidTarget("expected a single task path".to_string()))
        }
    }

    /// The target as text.
    pub fn to_string(&self) -> (r: String)
        ensures
            r@ == target_text(self@),
    {
        let mut out = String::new();
        if let Some(runner) = self.runner() {
            out.append(runner.to_string().as_str());
            out.push(':');
            out.push(':');
        }
        out.append(self.local_selector().to_string().as_str());
        assert(out@ =~= target_text(self@));
        out
    }
}

impl FromStr for Target {
    type Err = InvalidTarget;

    fn from_str(s: &str) -> (r: Result<Self, InvalidTarget>)
        ensures
            match r {
                Ok(t) => target_of(s@) == Ok::<TargetView, Seq<char>>(t@),
                Err(err) => target_of(s@) == Err::<TargetView, Seq<char>>(err.0@),
            },
    {
        Target::parse(s)
    }
}

/// A character that `[@space/]selector` may hold: never a colon.
spec fn reference_char(c: char) -> bool {
    valid_component_char(c) || c == '*' || c == '/' || c == '@' || c == '+'
}

proof fn lemma_selected(runner: Option<RunnerView>, space: SpaceSelectorView, s: Seq<char>)
    requires
        selected(runner, space, s) is Ok,
    ensures
        ({
            let t = selected(runner, space, s)->Ok_0;
            &&& runner_in(t) == runner
            &&& selector_text(selector_of(t)) == crate::kernel::kernel_message::qualified(space, s)
        }),
{
    if s.len() > 0 && s[0] == '+' {
        assert(seq!['+'] + s.skip(1) =~= s);
    }
}

proof fn lemma_referenced(runner: Option<RunnerView>, s: Seq<char>)
    requires
        referenced(runner, s) is Ok,
    ensures
        ({
            let t = referenced(runner, s)->Ok_0;
            &&& runner_in(t) == runner
            &&& selector_text(selector_of(t)) == s
        }),
{
    if s.len() > 0 && s[0] == '@' {
        let rest = s.skip(1);
        crate::text::lemma_first_from(rest, seq!['/'], 0);
        let i = first_at(rest, seq!['/'])->Some_0;
        let name = rest.take(i);
        assert(rest.subrange(i, i + 1)[0] == '/');
        if name == seq!['*'] {
            lemma_selected(runner, SpaceSelectorView::Any, rest.skip(i + 1));
            assert(seq!['@', '*', '/'] + rest.skip(i + 1) =~= s) by {
                assert(name[0] == '*');
                assert(name.len() == 1);
            }
        } else {
            lemma_selected(runner, SpaceSelectorView::One(name), rest.skip(i + 1));
            assert(seq!['@'] + name + seq!['/'] + rest.skip(i + 1) =~= s);
        }
    } else {
        lemma_selected(runner, SpaceSelectorView::One(Seq::empty()), s);
    }
}

/// Writing a parsed target gives back the text that it was parsed from.
pub proof fn law_parse_then_write(s: Seq<char>)
    requires
        target_of(s) is Ok,
    ensures
        target_text(target_of(s)->Ok_0) == s,
{
    let separator = seq![':', ':'];
    match last_at(s, separator) {
        Some(i) => {
            crate::text::lemma_last_before(s, separator, s.len() as int + 1);
            let runner = runner_of(s.take(i))->Ok_0;
            lemma_referenced(Some(runner), s.skip(i + 2));
            assert(s.subrange(i, i + 2) == separator);
            assert(s.take(i) + separator + s.skip(i + 2) =~= s) by {
                assert forall|k: int| 0 <= k < s.len() implies (s.take(i) + separator + s.skip(
                    i + 2,
                ))[k] == s[k] by {
                    if i <= k < i + 2 {
                        assert(s.subrange(i, i + 2)[k - i] == s[k]);
                    }
                }
            }
        },
        None => {
            lemma_referenced(None, s);
        },
    }
}

proof fn lemma_pieces_chars(s: Seq<char>, ok: spec_fn(char) -> bool)
    requires
        forall|k: int, j: int|
            0 <= k < pieces(s).len() && 0 <= j < pieces(s)[k].len() ==> ok(
                #[trigger] pieces(s)[k][j],
            ),
    ensures
        pieces(s).len() > 0,
        forall|i: int| 0 <= i < s.len() ==> s[i] == '/' || ok(#[trigger] s[i]),
    decreases s.len(),
{
    if s.len() > 0 {
        let init = s.drop_last();
        let before = pieces(init);
        let parts = pieces(s);
        crate::kernel::task_path::lemma_pieces_nonempty(init);
        assert forall|k: int, j: int| 0 <= k < before.len() && 0 <= j < before[k].len() implies ok(
            #[trigger] before[k][j],
        ) by {
            assert(before[k][j] == parts[k][j]);
        }
        lemma_pieces_chars(init, ok);
        assert forall|i: int| 0 <= i < s.len() implies s[i] == '/' || ok(#[trigger] s[i]) by {
            if i < s.len() - 1 {
                assert(s[i] == init[i]);
            } else if s.last() != '/' {
                let word = parts.last();
                assert(parts[parts.len() - 1][word.len() - 1] == s.last());
            }
        }
    }
}

proof fn lemma_no_fault(parts: Seq<Seq<char>>, glob: bool, from: int)
    requires
        0 <= from,
        crate::kernel::task_path::first_fault(parts, glob, from) is None,
    ensures
        forall|k: int|
            from <= k < parts.len() ==> crate::kernel::task_path::component_fault(
                #[trigger] parts[k],
                glob,
            ) is None,
    decreases parts.len() - from,
{
    if from < parts.len() {
        lemma_no_fault(parts, glob, from + 1);
    }
}

proof fn lemma_glob_chars(s: Seq<char>)
    requires
        is_glob(s),
    ensures
        s.len() > 0,
        forall|i: int|
            0 <= i < s.len() ==> valid_component_char(#[trigger] s[i]) || s[i] == '*' || s[i] == '/',
{
    let parts = pieces(s);
    lemma_no_fault(parts, true, 0);
    let ok = |c: char| valid_component_char(c) || c == '*';
    assert forall|k: int, j: int| 0 <= k < parts.len() && 0 <= j < parts[k].len() implies ok(
        #[trigger] parts[k][j],
    ) by {
        assert(crate::kernel::task_path::component_fault(parts[k], true) is None);
        if is_wildcard(parts[k]) {
            assert(parts[k][j] == '*');
        }
    }
    lemma_pieces_chars(s, ok);
    assert forall|i: int| 0 <= i < s.len() implies valid_component_char(#[trigger] s[i]) || s[i]
        == '*' || s[i] == '/' by {
        assert(s[i] == '/' || ok(s[i]));
    }
}

/// The text behind the space qualifier.
spec fn selector_part(selector: SelectorView) -> Seq<char> {
    match selector {
        SelectorView::Glob(pattern) => pattern,
        SelectorView::Tag(tag) => seq!['+'] + tag,
    }
}

proof fn lemma_select_part(
    runner: Option<RunnerView>,
    space: SpaceSelectorView,
    selector: SelectorView,
)
    requires
        is_parsed(TargetView::Select { runner, space, selector }),
    ensures
        selected(runner, space, selector_part(selector)) == Ok::<TargetView, Seq<char>>(
            TargetView::Select { runner, space, selector },
        ),
        selector_part(selector).len() > 0,
        selector_part(selector)[0] != '@',
        forall|i: int|
            0 <= i < selector_part(selector).len() ==> reference_char(
                #[trigger] selector_part(selector)[i],
            ),
{
    let part = selector_part(selector);
    match selector {
        SelectorView::Glob(pattern) => {
            lemma_glob_chars(pattern);
            assert(valid_component_char(pattern[0]) || pattern[0] == '*' || pattern[0] == '/');
        },
        SelectorView::Tag(tag) => {
            assert(part.skip(1) =~= tag);
            assert forall|i: int| 0 <= i < part.len() implies reference_char(#[trigger] part[i]) by {
                if i > 0 {
                    assert(part[i] == tag[i - 1]);
                }
            }
        },
    }
}

#[verifier::spinoff_prover]
#[verifier::rlimit(40)]
proof fn lemma_reference_part(
    runner: Option<RunnerView>,
    space: SpaceSelectorView,
    selector: SelectorView,
)
    requires
        is_parsed(TargetView::Select { runner, space, selector }),
    ensures
        ({
            let t = TargetView::Select { runner, space, selector };
            let text = selector_text(selector_of(t));
            &&& referenced(runner, text) == Ok::<TargetView, Seq<char>>(t)
            &&& forall|i: int| 0 <= i < text.len() ==> reference_char(#[trigger] text[i])
        }),
{
    let t = TargetView::Select { runner, space, selector };
    let text = selector_text(selector_of(t));
    let part = selector_part(selector);
    lemma_select_part(runner, space, selector);
    let name = match space {
        SpaceSelectorView::One(name) => name,
        SpaceSelectorView::Any => seq!['*'],
    };
    if space is One && name.len() == 0 {
        assert(text == part);
        assert(name =~= Seq::<char>::empty());
    } else {
        assert(text =~= seq!['@'] + name + seq!['/'] + part);
        let rest = text.skip(1);
        let at = name.len() as int;
        assert(rest =~= name + seq!['/'] + part);
        assert(rest.subrange(at, at + 1) =~= seq!['/']);
        assert forall|j: int| 0 <= j < at implies !#[trigger] is_at(rest, seq!['/'], j) by {
            assert(rest[j] == name[j]);
            assert(name[j] != '/');
            if is_at(rest, seq!['/'], j) {
                assert(rest.subrange(j, j + 1)[0] == '/');
            }
        }
        crate::text::lemma_first_from(rest, seq!['/'], 0);
        assert(is_at(rest, seq!['/'], at));
        assert(rest.take(at) =~= name);
        assert(rest.skip(at + 1) =~= part);
        if space is One {
            assert(name != seq!['*']) by {
                assert(crate::kernel::task_key::valid_space_char(name[0]));
            }
        }
        assert forall|i: int| 0 <= i < text.len() implies reference_char(#[trigger] text[i]) by {
            if 0 < i <= at {
                assert(text[i] == name[i - 1]);
                if space is One {
                    assert(crate::kernel::task_key::valid_space_char(name[i - 1]));
                }
            } else if i > at + 1 {
                assert(text[i] == part[i - at - 2]);
            }
        }
    }
}

proof fn lemma_no_separator(local: Seq<char>)
    requires
        forall|i: int| 0 <= i < local.len() ==> reference_char(#[trigger] local[i]),
    ensures
        last_at(local, seq![':', ':']) is None,
{
    let separator = seq![':', ':'];
    crate::text::lemma_last_before(local, separator, local.len() as int + 1);
    if let Some(i) = last_at(local, separator) {
        assert(local.subrange(i, i + 2)[0] == ':');
        assert(reference_char(local[i]));
    }
}

proof fn lemma_last_separator(head: Seq<char>, local: Seq<char>)
    requires
        forall|i: int| 0 <= i < local.len() ==> reference_char(#[trigger] local[i]),
    ensures
        last_at(head + seq![':', ':'] + local, seq![':', ':']) == Some(head.len() as int),
{
    let separator = seq![':', ':'];
    let text = head + separator + local;
    let n = head.len() as int;
    let to = text.len() as int + 1;
    assert(is_at(text, separator, n)) by {
        assert(text.subrange(n, n + 2) =~= separator);
    }
    assert forall|i: int| n < i implies !is_at(text, separator, i) by {
        if is_at(text, separator, i) {
            assert(text.subrange(i, i + 2)[1] == separator[1]);
            assert(text[i + 1] == local[i - n - 1]);
            assert(reference_char(local[i - n - 1]));
        }
    }
    lemma_unique_last(text, separator, n, to);
}

proof fn lemma_unique_last(s: Seq<char>, pat: Seq<char>, n: int, to: int)
    requires
        0 <= n < to,
        is_at(s, pat, n),
        forall|i: int| n < i < to ==> !is_at(s, pat, i),
    ensures
        crate::text::last_before(s, pat, to) == Some(n),
    decreases to,
{
    if n < to - 1 {
        assert(!is_at(s, pat, to - 1));
        lemma_unique_last(s, pat, n, to - 1);
    }
}

/// Parsing the text of a target that could have been parsed gives it back.
pub proof fn law_write_then_parse(t: TargetView)
    requires
        is_parsed(t),
    ensures
        target_of(target_text(t)) == Ok::<TargetView, Seq<char>>(t),
{
    if let TargetView::Select { runner, space, selector } = t {
        lemma_reference_part(runner, space, selector);
        let local = selector_text(selector_of(t));
        match runner {
            Some(r) => {
                let head = runner_text(r);
                lemma_last_separator(head, local);
                let text = head + seq![':', ':'] + local;
                assert(text.take(head.len() as int) =~= head);
                assert(text.skip(head.len() as int + 2) =~= local);
            },
            None => {
                lemma_no_separator(local);
            },
        }
    }
}

/// Every target that comes out of parsing is one whose parts could have been
/// parsed.
pub proof fn law_parsed_targets_are_sound(s: Seq<char>)
    requires
        target_of(s) is Ok,
    ensures
        is_parsed(target_of(s)->Ok_0),
{
}

/// A runner is named by ASCII letters, digits, `-` and `_`: a text that holds
/// something and nothing else is the name of a runner, and no other text is.
pub proof fn law_runner_names(s: Seq<char>, name: Seq<char>)
    ensures
        runner_of(s) == Ok::<RunnerView, Seq<char>>(RunnerView::Name(name)) <==> name == s && s.len()
            > 0 && forall|i: int|
            0 <= i < s.len() ==> {
                let c = #[trigger] s[i];
                ('a' <= c <= 'z') || ('A' <= c <= 'Z') || ('0' <= c <= '9') || c == '-' || c == '_'
            },
{
    if s.len() > 0 && (forall|i: int|
        0 <= i < s.len() ==> {
            let c = #[trigger] s[i];
            ('a' <= c <= 'z') || ('A' <= c <= 'Z') || ('0' <= c <= '9') || c == '-' || c == '_'
        }) {
        assert(s[0] != '*' && s[0] != '/' && s[0] != '~' && s[0] != '.');
        assert(s != seq!['*']) by {
            if s == seq!['*'] {
                assert(s[0] == '*');
            }
        }
        assert(!s.contains('#'));
        if seq!['g', 'i', 't', '+'].is_prefix_of(s) {
            assert(s.subrange(0, 4)[3] == '+');
            assert(s[3] == '+');
        }
        if seq!['~', '/'].is_prefix_of(s) {
            assert(s.subrange(0, 2)[0] == '~');
        }
        if seq!['.', '/'].is_prefix_of(s) {
            assert(s.subrange(0, 2)[0] == '.');
        }
        crate::text::lemma_first_from(s, seq![':', '/', '/'], 0);
        if let Some(i) = first_at(s, seq![':', '/', '/']) {
            assert(s.subrange(i, i + 3)[0] == ':');
            assert(s[i] == ':');
        }
        assert(forall|i: int| 0 <= i < s.len() ==> valid_runner_char(#[trigger] s[i]));
    } else if runner_of(s) is Ok && runner_of(s)->Ok_0 is Name {
        assert(forall|i: int| 0 <= i < s.len() ==> valid_runner_char(#[trigger] s[i]));
    }
}

/// A text that begins with `/`, `~/` or `./` is the path of a runner, and no other
/// text is; what is reserved is no path.
pub proof fn law_runner_paths(s: Seq<char>, path: Seq<char>)
    ensures
        runner_of(s) == Ok::<RunnerView, Seq<char>>(RunnerView::Path(path)) <==> path == s
            && !s.contains('#') && (s.len() >= 1 && s[0] == '/' || s.len() >= 2 && (s[0] == '~'
            || s[0] == '.') && s[1] == '/'),
{
    lemma_runner_prefixes(s);
}

/// A text with `://` in it is the address of a runner, unless it is reserved or
/// begins as a path does, and no other text is.
pub proof fn law_runner_urls(s: Seq<char>, url: Seq<char>)
    ensures
        runner_of(s) == Ok::<RunnerView, Seq<char>>(RunnerView::Url(url)) <==> url == s
            && !s.contains('#') && (exists|i: int|
            0 <= i <= s.len() - 3 && #[trigger] s[i] == ':' && s[i + 1] == '/' && s[i + 2] == '/')
            && !(s.len() >= 4 && s[0] == 'g' && s[1] == 'i' && s[2] == 't' && s[3] == '+') && !(
        s[0] == '/' || (s[0] == '~' || s[0] == '.') && s[1] == '/'),
{
    lemma_runner_prefixes(s);
    let scheme = seq![':', '/', '/'];
    crate::text::lemma_first_from(s, scheme, 0);
    match first_at(s, scheme) {
        Some(i) => {
            assert(s.subrange(i, i + 3)[0] == ':');
            assert(s.subrange(i, i + 3)[1] == '/');
            assert(s.subrange(i, i + 3)[2] == '/');
            assert(s[i] == ':' && s[i + 1] == '/' && s[i + 2] == '/');
        },
        None => {
            assert forall|i: int| 0 <= i <= s.len() - 3 && #[trigger] s[i] == ':' implies !(s[i + 1]
                == '/' && s[i + 2] == '/') by {
                if s[i + 1] == '/' && s[i + 2] == '/' {
                    assert(s.subrange(i, i + 3) =~= scheme);
                    assert(is_at(s, scheme, i));
                }
            }
        },
    }
}

/// What is reserved names no runner: nothing at all, `*`, anything with `#`, and
/// anything that begins with `git+`.
pub proof fn law_reserved_runners(s: Seq<char>)
    ensures
        s.len() == 0 ==> runner_of(s) == Err::<RunnerView, Seq<char>>("runner is empty"@),
        s == seq!['*'] ==> runner_of(s) == Err::<RunnerView, Seq<char>>(
            "fleet-wide targeting ('*::') is reserved"@,
        ),
        s.contains('#') ==> runner_of(s) == Err::<RunnerView, Seq<char>>(
            "sub-world selectors ('runner#sub') are reserved"@,
        ),
        s.len() >= 4 && s[0] == 'g' && s[1] == 'i' && s[2] == 't' && s[3] == '+' && !s.contains('#')
            ==> runner_of(s) == Err::<RunnerView, Seq<char>>("repo runners ('git+') are reserved"@),
{
    lemma_runner_prefixes(s);
    if s == seq!['*'] {
        assert(!s.contains('#'));
    }
}

proof fn lemma_runner_prefixes(s: Seq<char>)
    ensures
        seq!['g', 'i', 't', '+'].is_prefix_of(s) <==> s.len() >= 4 && s[0] == 'g' && s[1] == 'i'
            && s[2] == 't' && s[3] == '+',
        seq!['~', '/'].is_prefix_of(s) <==> s.len() >= 2 && s[0] == '~' && s[1] == '/',
        seq!['.', '/'].is_prefix_of(s) <==> s.len() >= 2 && s[0] == '.' && s[1] == '/',
        s == seq!['*'] ==> s[0] == '*',
{
    let git = seq!['g', 'i', 't', '+'];
    if s.len() >= 4 {
        let head = s.subrange(0, 4);
        assert(head[0] == s[0] && head[1] == s[1] && head[2] == s[2] && head[3] == s[3]);
        if s[0] == 'g' && s[1] == 'i' && s[2] == 't' && s[3] == '+' {
            assert(git =~= head);
        }
    }
    if s.len() >= 2 {
        let head = s.subrange(0, 2);
        assert(head[0] == s[0] && head[1] == s[1]);
        if s[0] == '~' && s[1] == '/' {
            assert(seq!['~', '/'] =~= head);
        }
        if s[0] == '.' && s[1] == '/' {
            assert(seq!['.', '/'] =~= head);
        }
    }
}

/// A `+` before ASCII letters, digits, `-`, `_` and `.` selects by that tag, and a
/// `+` before anything else selects nothing.
pub proof fn law_tags(runner: Option<RunnerView>, space: SpaceSelectorView, tag: Seq<char>)
    ensures
        (tag.len() > 0 && forall|i: int|
            0 <= i < tag.len() ==> {
                let c = #[trigger] tag[i];
                ('a' <= c <= 'z') || ('A' <= c <= 'Z') || ('0' <= c <= '9') || c == '-' || c == '_'
                    || c == '.'
            }) ==> selected(runner, space, seq!['+'] + tag) == Ok::<TargetView, Seq<char>>(
            TargetView::Select { runner, space, selector: SelectorView::Tag(tag) },
        ),
        !(tag.len() > 0 && forall|i: int|
            0 <= i < tag.len() ==> {
                let c = #[trigger] tag[i];
                ('a' <= c <= 'z') || ('A' <= c <= 'Z') || ('0' <= c <= '9') || c == '-' || c == '_'
                    || c == '.'
            }) ==> selected(runner, space, seq!['+'] + tag) == Err::<TargetView, Seq<char>>(
            "bad tag '+"@ + tag + "'"@,
        ),
{
    assert((seq!['+'] + tag).skip(1) =~= tag);
    if all_component_chars(tag) {
        assert forall|i: int| 0 <= i < tag.len() implies {
            let c = #[trigger] tag[i];
            ('a' <= c <= 'z') || ('A' <= c <= 'Z') || ('0' <= c <= '9') || c == '-' || c == '_' || c
                == '.'
        } by {
            assert(valid_component_char(tag[i]));
        }
    }
}

/// A glob selects by itself, and what is no glob and no tag selects nothing.
pub proof fn law_globs(runner: Option<RunnerView>, space: SpaceSelectorView, s: Seq<char>)
    requires
        s.len() == 0 || s[0] != '+',
    ensures
        is_glob(s) ==> selected(runner, space, s) == Ok::<TargetView, Seq<char>>(
            TargetView::Select { runner, space, selector: SelectorView::Glob(s) },
        ),
        !is_glob(s) ==> selected(runner, space, s) is Err,
{
}

/// A reference without `@` is about the default space; behind `@`, up to the first
/// slash, stands the name of a space, or `*` for all of them.
#[verifier::spinoff_prover]
#[verifier::rlimit(40)]
pub proof fn law_space_qualifiers(runner: Option<RunnerView>, name: Seq<char>, s: Seq<char>)
    requires
        !name.contains('/'),
    ensures
        s.len() == 0 || s[0] != '@' ==> referenced(runner, s) == selected(
            runner,
            SpaceSelectorView::One(Seq::empty()),
            s,
        ),
        referenced(runner, seq!['@'] + name + seq!['/'] + s) == (if name == seq!['*'] {
            selected(runner, SpaceSelectorView::Any, s)
        } else if name.len() > 0 && forall|i: int|
            0 <= i < name.len() ==> {
                let c = #[trigger] name[i];
                ('a' <= c <= 'z') || ('A' <= c <= 'Z') || ('0' <= c <= '9') || c == '-' || c == '_'
                    || c == '.'
            } {
            selected(runner, SpaceSelectorView::One(name), s)
        } else {
            Err(
                if name.len() == 0 {
                    "space name is empty"@
                } else {
                    "space name contains an invalid character"@
                },
            )
        }),
        referenced(runner, seq!['@'] + name) == Err::<TargetView, Seq<char>>(
            "a space qualifier must be followed by '/'"@,
        ),
{
    let text = seq!['@'] + name + seq!['/'] + s;
    let rest = text.skip(1);
    let n = name.len() as int;
    assert(rest =~= name + seq!['/'] + s);
    let slash = seq!['/'];
    assert(rest.subrange(n, n + 1) =~= slash);
    assert forall|j: int| 0 <= j < n implies !#[trigger] is_at(rest, slash, j) && !is_at(
        name,
        slash,
        j,
    ) by {
        assert(name.contains(name[j]));
        assert(rest[j] == name[j]);
        if is_at(rest, slash, j) {
            assert(rest.subrange(j, j + 1)[0] == '/');
        }
        if is_at(name, slash, j) {
            assert(name.subrange(j, j + 1)[0] == '/');
        }
    }
    crate::text::lemma_first_from(rest, slash, 0);
    assert(is_at(rest, slash, n));
    assert(rest.take(n) =~= name);
    assert(rest.skip(n + 1) =~= s);
    crate::kernel::task_key::law_space_names(name);
    crate::text::lemma_first_from(name, slash, 0);
    assert((seq!['@'] + name).skip(1) =~= name);
    if let Some(i) = first_at(name, slash) {
        assert(is_at(rest, slash, i));
    }
}

/// What stands before the last `::` of a text is its runner, and what stands behind
/// it is the reference; a text without `::` is a reference alone.
pub proof fn law_runner_qualifiers(head: Seq<char>, s: Seq<char>)
    requires
        forall|i: int| 0 <= i < s.len() - 1 ==> !(#[trigger] s[i] == ':' && s[i + 1] == ':'),
    ensures
        target_of(s) == referenced(None, s),
        s.len() == 0 || s[0] != ':' ==> target_of(head + seq![':', ':'] + s) == (match runner_of(
            head,
        ) {
            Ok(runner) => referenced(Some(runner), s),
            Err(message) => Err(message),
        }),
{
    let separator = seq![':', ':'];
    let n = head.len() as int;
    crate::text::lemma_last_before(s, separator, s.len() as int + 1);
    if let Some(i) = last_at(s, separator) {
        assert(s.subrange(i, i + 2)[0] == s[i] && s.subrange(i, i + 2)[1] == s[i + 1]);
    }
    if s.len() == 0 || s[0] != ':' {
        let text = head + separator + s;
        assert(text.subrange(n, n + 2) =~= separator);
        assert forall|i: int| n < i < text.len() + 1 implies !is_at(text, separator, i) by {
            if is_at(text, separator, i) {
                assert(text.subrange(i, i + 2)[0] == text[i]);
                assert(text.subrange(i, i + 2)[1] == text[i + 1]);
                if i == n + 1 {
                    assert(text[i + 1] == s[0]);
                } else {
                    assert(text[i] == s[i - n - 2] && text[i + 1] == s[i - n - 1]);
                }
            }
        }
        lemma_unique_last(text, separator, n, text.len() as int + 1);
        assert(text.take(n) =~= head);
        assert(text.skip(n + 2) =~= s);
    }
}

/// A target names one task exactly if it has no runner, one space and the text of
/// a path; the key is that space and that path. What has a key loses nothing by
/// being written as the key.
pub proof fn law_keys_of_targets(t: TargetView, space: Seq<char>, path: Seq<char>)
    ensures
        key_of(t) == Some((space, path)) <==> is_path(path) && t == (TargetView::Select {
            runner: None,
            space: SpaceSelectorView::One(space),
            selector: SelectorView::Glob(path),
        }),
        key_of(t) == Some((space, path)) ==> target_text(t)
            == crate::kernel::task_key::key_text(space, path),
{
}

/// What a target asks of a kernel is what it selects, without its runner; its text
/// is the runner with `::` behind it, if there is one, and then what it selects.
pub proof fn law_parts_of_targets(
    id: TaskId,
    runner: Option<RunnerView>,
    space: SpaceSelectorView,
    s: Seq<char>,
)
    ensures
        selector_of(TargetView::Id(id)) == TaskSelectorView::Id(id),
        runner_in(TargetView::Id(id)) is None,
        ({
            let glob = TargetView::Select { runner, space, selector: SelectorView::Glob(s) };
            let tag = TargetView::Select { runner, space, selector: SelectorView::Tag(s) };
            &&& selector_of(glob) == TaskSelectorView::Glob(space, s)
            &&& selector_of(tag) == TaskSelectorView::Tag(space, s)
            &&& runner_in(glob) == runner && runner_in(tag) == runner
            &&& runner is None ==> target_text(glob) == selector_text(selector_of(glob))
            &&& runner is Some ==> target_text(glob) == runner_text(runner->Some_0) + seq![':', ':']
                + selector_text(selector_of(glob))
        }),
        runner_text(RunnerView::Name(s)) == s,
        runner_text(RunnerView::Path(s)) == s,
        runner_text(RunnerView::Url(s)) == s,
{
}

/// What targets are known by: the same kinds, with the same texts.
pub proof fn law_what_targets_are(
    s: String,
    id: TaskId,
    runner: Option<Runner>,
    space: SpaceSelector,
    selector: Selector,
)
    ensures
        Runner::Name(s)@ == RunnerView::Name(s@),
        Runner::Path(s)@ == RunnerView::Path(s@),
        Runner::Url(s)@ == RunnerView::Url(s@),
        Selector::Glob(s)@ == SelectorView::Glob(s@),
        Selector::Tag(s)@ == SelectorView::Tag(s@),
        Target::Id(id)@ == TargetView::Id(id),
        (Target::Select { runner, space, selector })@ == (TargetView::Select {
            runner: runner_view(runner),
            space: space@,
            selector: selector@,
        }),
        runner is None ==> runner_view(runner) is None,
        runner is Some ==> runner_view(runner) == Some(runner->Some_0@),
{
}

} // verus!
