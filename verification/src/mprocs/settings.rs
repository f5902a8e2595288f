//! Settings: what the keys do, how the list of processes looks, and what is
//! kept of their output.

use vstd::prelude::*;

use crate::config::keymap::{bound, last_action, unbound, KeyTable, KeymapConfig};
use crate::config::node::{
    fault_of, field, get, lemma_same_field, lemma_same_fields, node_view, same_fields, ConfigError,
    FaultView, Node,
};
use crate::config::yaml::{read_document, yaml_document};
use crate::console::action::Action;
use crate::console::keymap::KeymapGroup;
use crate::term::key::Key;
use crate::text::same_str;

verus! {

/// Where the output of processes is logged.
#[derive(Debug, PartialEq, Eq)]
pub struct LogConfig {
    pub path: String,
}

/// The settings.
#[derive(Debug)]
pub struct Settings {
    pub keymap: KeymapConfig,
    pub hide_keymap_window: bool,
    pub mouse_scroll_speed: usize,
    pub scrollback_len: usize,
    pub proc_list_width: usize,
    pub proc_list_title: String,
    pub on_all_finished: Option<Action>,
    pub proc_log: Option<LogConfig>,
}

/// What the key of a line of a keymap means, and what it is said to do, or why
/// they cannot be read.
#[derive(Debug)]
pub struct KeyReading {
    pub key: Result<Key, String>,
    pub action: Result<Action, String>,
}

/// What the parts of a document mean that are read elsewhere. There is one
/// reading for each line of a keymap but `reset`, in the order of the document.
#[derive(Debug)]
pub struct Readings {
    pub keymap_procs: Vec<KeyReading>,
    pub keymap_term: Vec<KeyReading>,
    pub keymap_copy: Vec<KeyReading>,
    pub on_all_finished: Result<Action, String>,
    pub proc_log: Result<Option<LogConfig>, String>,
}

/// The settings.
#[verifier::ext_equal]
pub struct SettingsView {
    pub tasks: Seq<(Key, Action)>,
    pub term: Seq<(Key, Action)>,
    pub copy: Seq<(Key, Action)>,
    pub hide_keymap_window: bool,
    pub mouse_scroll_speed: usize,
    pub scrollback_len: usize,
    pub proc_list_width: usize,
    pub proc_list_title: Seq<char>,
    pub on_all_finished: Option<Action>,
    pub proc_log: Option<LogConfig>,
}

impl View for Settings {
    type V = SettingsView;

    open spec fn view(&self) -> SettingsView {
        SettingsView {
            tasks: self.keymap.spec_group(KeymapGroup::Tasks),
            term: self.keymap.spec_group(KeymapGroup::Term),
            copy: self.keymap.spec_group(KeymapGroup::Copy),
            hide_keymap_window: self.hide_keymap_window,
            mouse_scroll_speed: self.mouse_scroll_speed,
            scrollback_len: self.scrollback_len,
            proc_list_width: self.proc_list_width,
            proc_list_title: self.proc_list_title@,
            on_all_finished: self.on_all_finished,
            proc_log: self.proc_log,
        }
    }
}

/// The settings without any document, with the bindings that keys have then.
pub open spec fn default_settings(keymap: KeymapConfig) -> SettingsView {
    SettingsView {
        tasks: keymap.spec_group(KeymapGroup::Tasks),
        term: keymap.spec_group(KeymapGroup::Term),
        copy: keymap.spec_group(KeymapGroup::Copy),
        hide_keymap_window: false,
        mouse_scroll_speed: 5,
        scrollback_len: 1000,
        proc_list_width: 30,
        proc_list_title: "Processes"@,
        on_all_finished: None,
        proc_log: None,
    }
}

/// Settings, and what went wrong after they were reached.
#[verifier::ext_equal]
pub struct Merge {
    pub settings: SettingsView,
    pub fault: Option<FaultView>,
}

/// Bindings, and what went wrong after they were reached.
pub struct KeyMerge {
    pub keys: Seq<(Key, Action)>,
    pub fault: Option<FaultView>,
}

/// Bindings after the lines of a keymap, up to the first that is wrong. A key
/// with nothing behind it is taken out.
pub open spec fn lines_added(
    keys: Seq<(Key, Action)>,
    fields: Seq<(String, Node)>,
    lines: Seq<KeyReading>,
) -> KeyMerge
    decreases fields.len(),
{
    if fields.len() == 0 {
        KeyMerge { keys, fault: None }
    } else if fields[0].0@ == "reset"@ {
        lines_added(keys, fields.skip(1), lines)
    } else if lines.len() == 0 {
        KeyMerge { keys, fault: Some(FaultView::Invalid("unread key"@)) }
    } else {
        match lines[0].key {
            Err(message) => KeyMerge { keys, fault: Some(FaultView::Invalid(message@)) },
            Ok(key) => if fields[0].1 is Null {
                lines_added(unbound(keys, key), fields.skip(1), lines.skip(1))
            } else {
                match lines[0].action {
                    Err(message) => KeyMerge { keys, fault: Some(FaultView::Invalid(message@)) },
                    Ok(action) => lines_added(
                        bound(keys, key, action),
                        fields.skip(1),
                        lines.skip(1),
                    ),
                }
            },
        }
    }
}

/// Bindings after a keymap of a document: `reset` takes back everything first.
pub open spec fn keys_added(
    keys: Seq<(Key, Action)>,
    node: Option<Node>,
    lines: Seq<KeyReading>,
) -> KeyMerge {
    match node {
        None => KeyMerge { keys, fault: None },
        Some(Node::Obj(fields)) => match field(fields@, "reset"@) {
            None => lines_added(keys, fields@, lines),
            Some(Node::Bool(reset)) => lines_added(
                if reset {
                    Seq::empty()
                } else {
                    keys
                },
                fields@,
                lines,
            ),
            Some(_) => KeyMerge { keys, fault: Some(FaultView::WrongType("reset"@)) },
        },
        Some(_) => KeyMerge { keys, fault: Some(FaultView::NotAnObject) },
    }
}

/// A size in a node.
pub open spec fn size_in(node: Node) -> Option<usize> {
    match node {
        Node::Int(n) => if 0 <= n <= usize::MAX {
            Some(n as usize)
        } else {
            None
        },
        _ => None,
    }
}

/// Settings with the bindings of a group.
pub open spec fn with_group(
    s: SettingsView,
    group: KeymapGroup,
    keys: Seq<(Key, Action)>,
) -> SettingsView {
    match group {
        KeymapGroup::Tasks => SettingsView { tasks: keys, ..s },
        KeymapGroup::Term => SettingsView { term: keys, ..s },
        KeymapGroup::Copy => SettingsView { copy: keys, ..s },
    }
}

/// The bindings of a group.
pub open spec fn group_in(s: SettingsView, group: KeymapGroup) -> Seq<(Key, Action)> {
    match group {
        KeymapGroup::Tasks => s.tasks,
        KeymapGroup::Term => s.term,
        KeymapGroup::Copy => s.copy,
    }
}

/// A further keymap, unless something went wrong before.
pub open spec fn then_keys(
    m: Merge,
    group: KeymapGroup,
    node: Option<Node>,
    lines: Seq<KeyReading>,
) -> Merge {
    if m.fault is Some {
        m
    } else {
        let added = keys_added(group_in(m.settings, group), node, lines);
        Merge { settings: with_group(m.settings, group, added.keys), fault: added.fault }
    }
}

/// Whether the keymap window is hidden.
pub open spec fn then_hide(m: Merge, node: Option<Node>) -> Merge {
    if m.fault is Some {
        m
    } else {
        match node {
            None => m,
            Some(Node::Bool(b)) => Merge {
                settings: SettingsView { hide_keymap_window: b, ..m.settings },
                fault: None,
            },
            Some(_) => Merge {
                fault: Some(FaultView::WrongType("hide_keymap_window"@)),
                ..m
            },
        }
    }
}

/// How fast the mouse scrolls.
pub open spec fn then_speed(m: Merge, node: Option<Node>) -> Merge {
    if m.fault is Some {
        m
    } else {
        match node {
            None => m,
            Some(node) => match size_in(node) {
                Some(n) => Merge {
                    settings: SettingsView { mouse_scroll_speed: n, ..m.settings },
                    fault: None,
                },
                None => Merge { fault: Some(FaultView::WrongType("mouse_scroll_speed"@)), ..m },
            },
        }
    }
}

/// How many lines are kept.
pub open spec fn then_scrollback(m: Merge, node: Option<Node>) -> Merge {
    if m.fault is Some {
        m
    } else {
        match node {
            None => m,
            Some(node) => match size_in(node) {
                Some(n) => Merge {
                    settings: SettingsView { scrollback_len: n, ..m.settings },
                    fault: None,
                },
                None => Merge { fault: Some(FaultView::WrongType("scrollback"@)), ..m },
            },
        }
    }
}

/// The title of the list of processes.
pub open spec fn then_title(m: Merge, node: Option<Node>) -> Merge {
    if m.fault is Some {
        m
    } else {
        match node {
            None => m,
            Some(Node::Text(s)) => Merge {
                settings: SettingsView { proc_list_title: s@, ..m.settings },
                fault: None,
            },
            Some(_) => Merge { fault: Some(FaultView::WrongType("proc_list_title"@)), ..m },
        }
    }
}

/// The width of the list of processes.
pub open spec fn then_width(m: Merge, node: Option<Node>) -> Merge {
    if m.fault is Some {
        m
    } else {
        match node {
            None => m,
            Some(node) => match size_in(node) {
                Some(n) => Merge {
                    settings: SettingsView { proc_list_width: n, ..m.settings },
                    fault: None,
                },
                None => Merge { fault: Some(FaultView::WrongType("proc_list_width"@)), ..m },
            },
        }
    }
}

/// What is done when all processes have finished.
pub open spec fn then_finished(
    m: Merge,
    node: Option<Node>,
    reading: Result<Action, String>,
) -> Merge {
    if m.fault is Some || node is None {
        m
    } else {
        match reading {
            Ok(action) => Merge {
                settings: SettingsView { on_all_finished: Some(action), ..m.settings },
                fault: None,
            },
            Err(message) => Merge { fault: Some(FaultView::Invalid(message@)), ..m },
        }
    }
}

/// Where output is logged.
pub open spec fn then_log(
    m: Merge,
    node: Option<Node>,
    reading: Result<Option<LogConfig>, String>,
) -> Merge {
    if m.fault is Some || node is None {
        m
    } else {
        match reading {
            Ok(log) => Merge { settings: SettingsView { proc_log: log, ..m.settings }, fault: None },
            Err(message) => Merge { fault: Some(FaultView::Invalid(message@)), ..m },
        }
    }
}

/// The keymaps of a document.
pub open spec fn merged_keys(
    s: SettingsView,
    fields: Seq<(String, Node)>,
    readings: Readings,
) -> Merge {
    let start = Merge { settings: s, fault: None };
    let procs = then_keys(
        start,
        KeymapGroup::Tasks,
        field(fields, "keymap_procs"@),
        readings.keymap_procs@,
    );
    let term = then_keys(
        procs,
        KeymapGroup::Term,
        field(fields, "keymap_term"@),
        readings.keymap_term@,
    );
    then_keys(term, KeymapGroup::Copy, field(fields, "keymap_copy"@), readings.keymap_copy@)
}

/// The plain values of a document.
pub open spec fn merged_values(m: Merge, fields: Seq<(String, Node)>) -> Merge {
    let hide = then_hide(m, field(fields, "hide_keymap_window"@));
    let speed = then_speed(hide, field(fields, "mouse_scroll_speed"@));
    let scrollback = then_scrollback(speed, field(fields, "scrollback"@));
    let title = then_title(scrollback, field(fields, "proc_list_title"@));
    then_width(title, field(fields, "proc_list_width"@))
}

/// The settings after a document: it takes effect part by part, up to the first
/// that is wrong.
pub open spec fn merged_settings(s: SettingsView, doc: Node, readings: Readings) -> Merge {
    match doc {
        Node::Obj(fields) => {
            let values = merged_values(merged_keys(s, fields@, readings), fields@);
            let finished = then_finished(
                values,
                field(fields@, "on_all_finished"@),
                readings.on_all_finished,
            );
            then_log(finished, field(fields@, "proc_log"@), readings.proc_log)
        },
        _ => Merge { settings: s, fault: Some(FaultView::NotAnObject) },
    }
}

fn read_size(node: &Node) -> (r: Option<usize>)
    ensures
        r == size_in(*node),
{
    match node {
        Node::Int(n) => if *n >= 0 && *n <= usize::MAX as i128 {
            Some(*n as usize)
        } else {
            None
        },
        _ => None,
    }
}

#[verifier::loop_isolation(false)]
fn add_lines(into: &mut KeyTable, fields: &Vec<(String, Node)>, lines: Vec<KeyReading>) -> (r:
    Result<(), ConfigError>)
    requires
        old(into).wf(),
    ensures
        final(into).wf(),
        (KeyMerge { keys: final(into)@, fault: fault_of(r) }) == lines_added(
            old(into)@,
            fields@,
            lines@,
        ),
{
    let mut lines = lines;
    let ghost all = lines_added(old(into)@, fields@, lines@);
    assert(fields@.skip(0) =~= fields@);
    for i in 0..fields.len()
        invariant
            into.wf(),
            all == lines_added(into@, fields@.skip(i as int), lines@),
    {
        assert(fields@.skip(i as int).skip(1) =~= fields@.skip(i + 1));
        if !same_str(fields[i].0.as_str(), "reset") {
            if lines.len() == 0 {
                return Err(ConfigError::Invalid("unread key".to_string()));
            }
            let ghost before = lines@;
            let line = lines.remove(0);
            assert(lines@ =~= before.skip(1));
            let key = match line.key {
                Ok(key) => key,
                Err(message) => {
                    return Err(ConfigError::Invalid(message));
                },
            };
            match &fields[i].1 {
                Node::Null => into.remove(key),
                _ => match line.action {
                    Ok(action) => into.insert(key, action),
                    Err(message) => {
                        return Err(ConfigError::Invalid(message));
                    },
                },
            }
        }
    }
    Ok(())
}

fn add_keys(into: &mut KeyTable, node: Option<&Node>, lines: Vec<KeyReading>) -> (r: Result<
    (),
    ConfigError,
>)
    requires
        old(into).wf(),
    ensures
        final(into).wf(),
        (KeyMerge { keys: final(into)@, fault: fault_of(r) }) == keys_added(
            old(into)@,
            (match node {
                Some(node) => Some(*node),
                None => None,
            }),
            lines@,
        ),
{
    let node = match node {
        Some(node) => node,
        None => {
            return Ok(());
        },
    };
    let fields = match node.as_obj() {
        Ok(fields) => fields,
        Err(err) => {
            return Err(err);
        },
    };
    match get(fields, "reset") {
        None => {},
        Some(Node::Bool(reset)) => {
            if *reset {
                into.clear();
            }
        },
        Some(_) => {
            return Err(ConfigError::WrongType("reset".to_string()));
        },
    }
    add_lines(into, fields, lines)
}

impl Settings {
    /// The settings without any document. `keymap` is what the keys do then.
    pub fn default(keymap: KeymapConfig) -> (r: Self)
        ensures
            r.keymap == keymap,
            r@ == default_settings(keymap),
    {
        Settings {
            keymap,
            hide_keymap_window: false,
            mouse_scroll_speed: 5,
            scrollback_len: 1000,
            proc_list_width: 30,
            proc_list_title: "Processes".to_string(),
            on_all_finished: None,
            proc_log: None,
        }
    }

    /// Settings and the outcome of a step.
    pub open spec fn merge_of(self, r: Result<(), ConfigError>) -> Merge {
        Merge { settings: self@, fault: fault_of(r) }
    }

    fn merge_group(
        &mut self,
        group: KeymapGroup,
        node: Option<&Node>,
        lines: Vec<KeyReading>,
    ) -> (r: Result<(), ConfigError>)
        requires
            old(self).keymap.wf(),
        ensures
            final(self).keymap.wf(),
            final(self).merge_of(r) == then_keys(
                old(self).merge_of(Ok(())),
                group,
                (match node {
                    Some(node) => Some(*node),
                    None => None,
                }),
                lines@,
            ),
    {
        let ghost before = self@;
        let table: &mut KeyTable = self.keymap.group_mut(group);
        let r = add_keys(table, node, lines);
        proof {
            let added = keys_added(
                group_in(before, group),
                (match node {
                    Some(node) => Some(*node),
                    None => None,
                }),
                lines@,
            );
            assert(self@ =~= with_group(before, group, added.keys));
        }
        r
    }

    fn merge_keys(
        &mut self,
        fields: &Vec<(String, Node)>,
        procs: Vec<KeyReading>,
        term: Vec<KeyReading>,
        copy: Vec<KeyReading>,
    ) -> (r: Result<(), ConfigError>)
        requires
            old(self).keymap.wf(),
        ensures
            final(self).keymap.wf(),
            forall|readings: Readings|
                #![trigger merged_keys(old(self)@, fields@, readings)]
                readings.keymap_procs == procs && readings.keymap_term == term
                    && readings.keymap_copy == copy ==> final(self).merge_of(r) == merged_keys(
                    old(self)@,
                    fields@,
                    readings,
                ),
    {
        match self.merge_group(KeymapGroup::Tasks, get(fields, "keymap_procs"), procs) {
            Ok(()) => {},
            Err(err) => {
                return Err(err);
            },
        }
        match self.merge_group(KeymapGroup::Term, get(fields, "keymap_term"), term) {
            Ok(()) => {},
            Err(err) => {
                return Err(err);
            },
        }
        self.merge_group(KeymapGroup::Copy, get(fields, "keymap_copy"), copy)
    }

    fn merge_plain(&mut self, fields: &Vec<(String, Node)>) -> (r: Result<(), ConfigError>)
        requires
            old(self).keymap.wf(),
        ensures
            final(self).keymap.wf(),
            final(self).merge_of(r) == merged_values(old(self).merge_of(Ok(())), fields@),
    {
        match get(fields, "hide_keymap_window") {
            None => {},
            Some(Node::Bool(hide)) => {
                self.hide_keymap_window = *hide;
            },
            Some(_) => {
                return Err(ConfigError::WrongType("hide_keymap_window".to_string()));
            },
        }
        if let Some(node) = get(fields, "mouse_scroll_speed") {
            match read_size(node) {
                Some(speed) => {
                    self.mouse_scroll_speed = speed;
                },
                None => {
                    return Err(ConfigError::WrongType("mouse_scroll_speed".to_string()));
                },
            }
        }
        if let Some(node) = get(fields, "scrollback") {
            match read_size(node) {
                Some(len) => {
                    self.scrollback_len = len;
                },
                None => {
                    return Err(ConfigError::WrongType("scrollback".to_string()));
                },
            }
        }
        match get(fields, "proc_list_title") {
            None => {},
            Some(Node::Text(title)) => {
                self.proc_list_title = title.clone();
            },
            Some(_) => {
                return Err(ConfigError::WrongType("proc_list_title".to_string()));
            },
        }
        if let Some(node) = get(fields, "proc_list_width") {
            match read_size(node) {
                Some(width) => {
                    self.proc_list_width = width;
                },
                None => {
                    return Err(ConfigError::WrongType("proc_list_width".to_string()));
                },
            }
        }
        Ok(())
    }

    /// Takes over what a document says.
    pub fn merge_value(&mut self, doc: &Node, readings: Readings) -> (r: Result<(), ConfigError>)
        requires
            old(self).keymap.wf(),
        ensures
            final(self).keymap.wf(),
            final(self).merge_of(r) == merged_settings(old(self)@, *doc, readings),
    {
        let ghost given = readings;
        let fields = match doc.as_obj() {
            Ok(fields) => fields,
            Err(err) => {
                return Err(err);
            },
        };
        let Readings { keymap_procs, keymap_term, keymap_copy, on_all_finished, proc_log } =
            readings;
        match self.merge_keys(fields, keymap_procs, keymap_term, keymap_copy) {
            Ok(()) => {},
            Err(err) => {
                assert(self.merge_of(Err(err)) == merged_keys(old(self)@, fields@, given));
                return Err(err);
            },
        }
        assert(self.merge_of(Ok(())) == merged_keys(old(self)@, fields@, given));
        match self.merge_plain(fields) {
            Ok(()) => {},
            Err(err) => {
                return Err(err);
            },
        }
        if get(fields, "on_all_finished").is_some() {
            match on_all_finished {
                Ok(action) => {
                    self.on_all_finished = Some(action);
                },
                Err(message) => {
                    return Err(ConfigError::Invalid(message));
                },
            }
        }
        if get(fields, "proc_log").is_some() {
            match proc_log {
                Ok(log) => {
                    self.proc_log = log;
                },
                Err(message) => {
                    return Err(ConfigError::Invalid(message));
                },
            }
        }
        Ok(())
    }

    /// Takes over the document of the user, if there is one: `bytes` is what its
    /// file holds. No such file is no error.
    pub fn merge_from_xdg(&mut self, bytes: Option<&[u8]>, readings: Readings) -> (r: Result<
        (),
        ConfigError,
    >)
        requires
            old(self).keymap.wf(),
        ensures
            final(self).keymap.wf(),
            match bytes {
                None => r is Ok && *final(self) == *old(self),
                Some(bytes) => match yaml_document(bytes@) {
                    Ok(view) => exists|doc: Node|
                        doc@ == view && final(self).merge_of(r) == #[trigger] merged_settings(
                            old(self)@,
                            doc,
                            readings,
                        ),
                    Err(message) => *final(self) == *old(self) && r is Err && r->Err_0@
                        == FaultView::Invalid(message),
                },
            },
    {
        match bytes {
            None => Ok(()),
            Some(bytes) => match read_document(bytes) {
                Ok(doc) => self.merge_value(&doc, readings),
                Err(err) => Err(err),
            },
        }
    }
}

proof fn lemma_same_lines(
    keys: Seq<(Key, Action)>,
    a: Seq<(String, Node)>,
    b: Seq<(String, Node)>,
    lines: Seq<KeyReading>,
)
    requires
        same_fields(a, b),
    ensures
        lines_added(keys, a, lines) == lines_added(keys, b, lines),
    decreases a.len(),
{
    if a.len() > 0 {
        assert(a[0].0@ == b[0].0@);
        assert(a[0].1 is Null == b[0].1 is Null);
        assert forall|i: int|
            #![trigger a.skip(1)[i]]
            #![trigger b.skip(1)[i]]
            0 <= i < a.skip(1).len() implies a.skip(1)[i].0@ == b.skip(1)[i].0@ && node_view(
            a.skip(1)[i].1,
        ) == node_view(b.skip(1)[i].1) by {
            assert(a[i + 1].0@ == b[i + 1].0@);
        }
        let (c, d) = (a.skip(1), b.skip(1));
        lemma_same_lines(keys, c, d, lines);
        if lines.len() > 0 {
            if let Ok(key) = lines[0].key {
                lemma_same_lines(unbound(keys, key), c, d, lines.skip(1));
                if let Ok(action) = lines[0].action {
                    lemma_same_lines(bound(keys, key, action), c, d, lines.skip(1));
                }
            }
        }
    }
}

proof fn lemma_same_keys(
    keys: Seq<(Key, Action)>,
    a: Option<Node>,
    b: Option<Node>,
    lines: Seq<KeyReading>,
)
    requires
        a is Some == b is Some,
        a is Some ==> node_view(a->Some_0) == node_view(b->Some_0),
    ensures
        keys_added(keys, a, lines) == keys_added(keys, b, lines),
{
    if let (Some(Node::Obj(x)), Some(Node::Obj(y))) = (a, b) {
        lemma_same_fields(x@, y@);
        lemma_same_field(x@, y@, "reset"@);
        lemma_same_lines(keys, x@, y@, lines);
        lemma_same_lines(Seq::empty(), x@, y@, lines);
    }
}

/// Documents that say the same make the same settings.
pub proof fn law_settings_follow_what_is_said(
    s: SettingsView,
    a: Node,
    b: Node,
    readings: Readings,
)
    requires
        a@ == b@,
    ensures
        merged_settings(s, a, readings) == merged_settings(s, b, readings),
{
    if let (Node::Obj(x), Node::Obj(y)) = (a, b) {
        let (x, y) = (x@, y@);
        lemma_same_fields(x, y);
        lemma_same_field(x, y, "keymap_procs"@);
        lemma_same_field(x, y, "keymap_term"@);
        lemma_same_field(x, y, "keymap_copy"@);
        lemma_same_field(x, y, "hide_keymap_window"@);
        lemma_same_field(x, y, "mouse_scroll_speed"@);
        lemma_same_field(x, y, "scrollback"@);
        lemma_same_field(x, y, "proc_list_title"@);
        lemma_same_field(x, y, "proc_list_width"@);
        lemma_same_field(x, y, "on_all_finished"@);
        lemma_same_field(x, y, "proc_log"@);
        lemma_same_keys(
            s.tasks,
            field(x, "keymap_procs"@),
            field(y, "keymap_procs"@),
            readings.keymap_procs@,
        );
        lemma_same_keys(
            s.term,
            field(x, "keymap_term"@),
            field(y, "keymap_term"@),
            readings.keymap_term@,
        );
        lemma_same_keys(
            s.copy,
            field(x, "keymap_copy"@),
            field(y, "keymap_copy"@),
            readings.keymap_copy@,
        );
        assert(merged_keys(s, x, readings) == merged_keys(s, y, readings));
        let m = merged_keys(s, x, readings);
        assert(merged_values(m, x) == merged_values(m, y));
    }
}

/// A document without any of the known parts leaves the settings as they are.
pub proof fn law_silent_settings_change_nothing(
    s: SettingsView,
    fields: Vec<(String, Node)>,
    readings: Readings,
)
    requires
        fields@.len() == 0,
    ensures
        merged_settings(s, Node::Obj(fields), readings) == (Merge { settings: s, fault: None }),
{
}

/// After a reset a keymap holds only what its own lines say.
pub proof fn law_reset_forgets(
    a: Seq<(Key, Action)>,
    b: Seq<(Key, Action)>,
    fields: Vec<(String, Node)>,
    lines: Seq<KeyReading>,
)
    requires
        field(fields@, "reset"@) == Some(Node::Bool(true)),
    ensures
        keys_added(a, Some(Node::Obj(fields)), lines) == keys_added(
            b,
            Some(Node::Obj(fields)),
            lines,
        ),
{
}

/// After a document without a fault the bindings of each group are those of before,
/// changed by the keymap of that group alone: `keymap_procs` is about the list of
/// tasks, `keymap_term` about a terminal and `keymap_copy` about copying.
pub proof fn law_each_keymap_has_its_group(
    s: SettingsView,
    fields: Vec<(String, Node)>,
    readings: Readings,
)
    requires
        merged_settings(s, Node::Obj(fields), readings).fault is None,
    ensures
        ({
            let after = merged_settings(s, Node::Obj(fields), readings).settings;
            &&& after.tasks == keys_added(
                s.tasks,
                field(fields@, "keymap_procs"@),
                readings.keymap_procs@,
            ).keys
            &&& after.term == keys_added(
                s.term,
                field(fields@, "keymap_term"@),
                readings.keymap_term@,
            ).keys
            &&& after.copy == keys_added(
                s.copy,
                field(fields@, "keymap_copy"@),
                readings.keymap_copy@,
            ).keys
        }),
{
}

/// Two documents without a fault that have the same to say of one group make the
/// same of it, whatever they say of the others and whatever else they say.
#[verifier::spinoff_prover]
#[verifier::rlimit(40)]
pub proof fn law_groups_do_not_mix(
    s: SettingsView,
    t: SettingsView,
    a: Vec<(String, Node)>,
    b: Vec<(String, Node)>,
    x: Readings,
    y: Readings,
)
    requires
        merged_settings(s, Node::Obj(a), x).fault is None,
        merged_settings(t, Node::Obj(b), y).fault is None,
    ensures
        s.tasks == t.tasks && field(a@, "keymap_procs"@) == field(b@, "keymap_procs"@)
            && x.keymap_procs@ == y.keymap_procs@ ==> merged_settings(
            s,
            Node::Obj(a),
            x,
        ).settings.tasks == merged_settings(t, Node::Obj(b), y).settings.tasks,
        s.term == t.term && field(a@, "keymap_term"@) == field(b@, "keymap_term"@)
            && x.keymap_term@ == y.keymap_term@ ==> merged_settings(
            s,
            Node::Obj(a),
            x,
        ).settings.term == merged_settings(t, Node::Obj(b), y).settings.term,
        s.copy == t.copy && field(a@, "keymap_copy"@) == field(b@, "keymap_copy"@)
            && x.keymap_copy@ == y.keymap_copy@ ==> merged_settings(
            s,
            Node::Obj(a),
            x,
        ).settings.copy == merged_settings(t, Node::Obj(b), y).settings.copy,
{
    law_each_keymap_has_its_group(s, a, x);
    law_each_keymap_has_its_group(t, b, y);
}

/// A group of whose keymap a document says nothing keeps its bindings, with or
/// without a fault elsewhere.
pub proof fn law_silent_groups_stay(s: SettingsView, doc: Node, readings: Readings)
    ensures
        doc !is Obj || field(doc->Obj_0@, "keymap_procs"@) is None ==> merged_settings(
            s,
            doc,
            readings,
        ).settings.tasks == s.tasks,
        doc !is Obj || field(doc->Obj_0@, "keymap_term"@) is None ==> merged_settings(
            s,
            doc,
            readings,
        ).settings.term == s.term,
        doc !is Obj || field(doc->Obj_0@, "keymap_copy"@) is None ==> merged_settings(
            s,
            doc,
            readings,
        ).settings.copy == s.copy,
{
}

/// After a document without a fault each plain value is the one that the document
/// has under its name, and the one of before where it has none.
pub proof fn law_each_value_has_its_name(
    s: SettingsView,
    fields: Vec<(String, Node)>,
    readings: Readings,
)
    requires
        merged_settings(s, Node::Obj(fields), readings).fault is None,
    ensures
        ({
            let after = merged_settings(s, Node::Obj(fields), readings).settings;
            let hide = field(fields@, "hide_keymap_window"@);
            let speed = field(fields@, "mouse_scroll_speed"@);
            let scrollback = field(fields@, "scrollback"@);
            let title = field(fields@, "proc_list_title"@);
            let width = field(fields@, "proc_list_width"@);
            &&& hide is None ==> after.hide_keymap_window == s.hide_keymap_window
            &&& hide is Some ==> hide == Some(Node::Bool(after.hide_keymap_window))
            &&& speed is None ==> after.mouse_scroll_speed == s.mouse_scroll_speed
            &&& speed is Some ==> speed->Some_0 is Int && speed->Some_0->Int_0
                == after.mouse_scroll_speed
            &&& scrollback is None ==> after.scrollback_len == s.scrollback_len
            &&& scrollback is Some ==> scrollback->Some_0 is Int && scrollback->Some_0->Int_0
                == after.scrollback_len
            &&& title is None ==> after.proc_list_title == s.proc_list_title
            &&& title is Some ==> title->Some_0 is Text && title->Some_0->Text_0@
                == after.proc_list_title
            &&& width is None ==> after.proc_list_width == s.proc_list_width
            &&& width is Some ==> width->Some_0 is Int && width->Some_0->Int_0
                == after.proc_list_width
            &&& if field(fields@, "on_all_finished"@) is Some {
                after.on_all_finished is Some && readings.on_all_finished
                    == Ok::<Action, String>(after.on_all_finished->Some_0)
            } else {
                after.on_all_finished == s.on_all_finished
            }
            &&& if field(fields@, "proc_log"@) is Some {
                readings.proc_log == Ok::<Option<LogConfig>, String>(after.proc_log)
            } else {
                after.proc_log == s.proc_log
            }
        }),
{
}

/// A document has no fault exactly if each of its parts has none: its keymaps, and
/// its values, which must be of their type.
pub proof fn law_sound_settings_have_no_fault(
    s: SettingsView,
    fields: Vec<(String, Node)>,
    readings: Readings,
)
    ensures
        merged_settings(s, Node::Obj(fields), readings).fault is None <==> {
            let hide = field(fields@, "hide_keymap_window"@);
            let speed = field(fields@, "mouse_scroll_speed"@);
            let scrollback = field(fields@, "scrollback"@);
            let title = field(fields@, "proc_list_title"@);
            let width = field(fields@, "proc_list_width"@);
            &&& keys_added(
                s.tasks,
                field(fields@, "keymap_procs"@),
                readings.keymap_procs@,
            ).fault is None
            &&& keys_added(
                s.term,
                field(fields@, "keymap_term"@),
                readings.keymap_term@,
            ).fault is None
            &&& keys_added(
                s.copy,
                field(fields@, "keymap_copy"@),
                readings.keymap_copy@,
            ).fault is None
            &&& hide is None || hide->Some_0 is Bool
            &&& speed is None || (speed->Some_0 is Int && 0 <= speed->Some_0->Int_0 <= usize::MAX)
            &&& scrollback is None || (scrollback->Some_0 is Int && 0 <= scrollback->Some_0->Int_0
                <= usize::MAX)
            &&& title is None || title->Some_0 is Text
            &&& width is None || (width->Some_0 is Int && 0 <= width->Some_0->Int_0 <= usize::MAX)
            &&& field(fields@, "on_all_finished"@) is Some ==> readings.on_all_finished is Ok
            &&& field(fields@, "proc_log"@) is Some ==> readings.proc_log is Ok
        },
{
}

/// The number of lines of a keymap, `reset` not among them.
pub open spec fn line_count(fields: Seq<(String, Node)>) -> nat
    decreases fields.len(),
{
    if fields.len() == 0 {
        0
    } else {
        line_count(fields.drop_last()) + if fields.last().0@ == "reset"@ {
            0nat
        } else {
            1nat
        }
    }
}

/// A further line of a keymap changes what the lines before it led to: the key
/// with something behind it does that, the key with nothing behind it does nothing
/// any more, and no other key does anything else than before. A line with a key
/// that cannot be read changes nothing and is a fault, and so is one with an action
/// that cannot be read.
pub proof fn law_a_further_line(
    keys: Seq<(Key, Action)>,
    fields: Seq<(String, Node)>,
    lines: Seq<KeyReading>,
    name: String,
    node: Node,
    line: KeyReading,
    other: Key,
)
    requires
        crate::config::keymap::no_key_twice(keys),
        lines.len() == line_count(fields),
        name@ != "reset"@,
        lines_added(keys, fields, lines).fault is None,
    ensures
        ({
            let before = lines_added(keys, fields, lines).keys;
            let after = lines_added(keys, fields.push((name, node)), lines.push(line));
            &&& line.key is Err ==> after.keys == before && after.fault == Some(
                FaultView::Invalid(line.key->Err_0@),
            )
            &&& line.key is Ok && node is Null ==> after.fault is None && last_action(
                after.keys,
                line.key->Ok_0,
            ) is None
            &&& line.key is Ok && node !is Null && line.action is Ok ==> after.fault is None
                && last_action(after.keys, line.key->Ok_0) == Some(line.action->Ok_0)
            &&& line.key is Ok && node !is Null && line.action is Err ==> after.keys == before
                && after.fault == Some(FaultView::Invalid(line.action->Err_0@))
            &&& line.key is Ok && other != line.key->Ok_0 ==> last_action(after.keys, other)
                == last_action(before, other)
        }),
{
    let before = lines_added(keys, fields, lines).keys;
    lemma_line_behind(keys, fields, lines, name, node, line);
    lemma_lines_keep_keys_apart(keys, fields, lines);
    reveal_with_fuel(lines_added, 2);
    assert(seq![(name, node)].skip(1) =~= Seq::empty());
    if let Ok(key) = line.key {
        match line.action {
            Ok(action) => {
                crate::config::keymap::law_last_word_counts(before, key, action);
                if other != key {
                    crate::config::keymap::law_other_keys_stay(before, key, action, other);
                }
            },
            Err(_) => {
                if node is Null {
                    let any = arbitrary_action();
                    crate::config::keymap::law_last_word_counts(before, key, any);
                    if other != key {
                        crate::config::keymap::law_other_keys_stay(before, key, any, other);
                    }
                }
            },
        }
    }
}

spec fn arbitrary_action() -> Action {
    Action::QuitOrAsk
}

proof fn lemma_line_behind(
    keys: Seq<(Key, Action)>,
    fields: Seq<(String, Node)>,
    lines: Seq<KeyReading>,
    name: String,
    node: Node,
    line: KeyReading,
)
    requires
        lines.len() == line_count(fields),
        name@ != "reset"@,
        lines_added(keys, fields, lines).fault is None,
    ensures
        lines_added(keys, fields.push((name, node)), lines.push(line)) == lines_added(
            lines_added(keys, fields, lines).keys,
            seq![(name, node)],
            seq![line],
        ),
    decreases fields.len(),
{
    let more = fields.push((name, node));
    let read = lines.push(line);
    if fields.len() == 0 {
        assert(more =~= seq![(name, node)]);
        assert(read =~= seq![line]);
    } else {
        let rest = fields.skip(1);
        assert(more.skip(1) =~= rest.push((name, node)));
        assert(more[0] == fields[0]);
        lemma_line_count(fields);
        if fields[0].0@ == "reset"@ {
            lemma_line_behind(keys, rest, lines, name, node, line);
        } else {
            assert(lines.len() > 0);
            assert(read[0] == lines[0]);
            assert(read.skip(1) =~= lines.skip(1).push(line));
            if let Ok(key) = lines[0].key {
                if fields[0].1 is Null {
                    lemma_line_behind(unbound(keys, key), rest, lines.skip(1), name, node, line);
                } else if let Ok(action) = lines[0].action {
                    lemma_line_behind(
                        bound(keys, key, action),
                        rest,
                        lines.skip(1),
                        name,
                        node,
                        line,
                    );
                }
            }
        }
    }
}

proof fn lemma_line_count(fields: Seq<(String, Node)>)
    requires
        fields.len() > 0,
    ensures
        line_count(fields) == line_count(fields.skip(1)) + if fields[0].0@ == "reset"@ {
            0nat
        } else {
            1nat
        },
    decreases fields.len(),
{
    if fields.len() > 1 {
        lemma_line_count(fields.drop_last());
        assert(fields.drop_last().skip(1) =~= fields.skip(1).drop_last());
    } else {
        assert(fields.drop_last() =~= Seq::empty());
        assert(fields.skip(1) =~= Seq::empty());
    }
}

proof fn lemma_lines_keep_keys_apart(
    keys: Seq<(Key, Action)>,
    fields: Seq<(String, Node)>,
    lines: Seq<KeyReading>,
)
    requires
        crate::config::keymap::no_key_twice(keys),
    ensures
        crate::config::keymap::no_key_twice(lines_added(keys, fields, lines).keys),
    decreases fields.len(),
{
    if fields.len() > 0 {
        let rest = fields.skip(1);
        if fields[0].0@ == "reset"@ {
            lemma_lines_keep_keys_apart(keys, rest, lines);
        } else if lines.len() > 0 {
            if let Ok(key) = lines[0].key {
                if fields[0].1 is Null {
                    crate::config::keymap::law_no_key_twice(keys, key, arbitrary_action());
                    lemma_lines_keep_keys_apart(unbound(keys, key), rest, lines.skip(1));
                } else if let Ok(action) = lines[0].action {
                    crate::config::keymap::law_no_key_twice(keys, key, action);
                    lemma_lines_keep_keys_apart(bound(keys, key, action), rest, lines.skip(1));
                }
            }
        }
    }
}

/// A keymap without lines changes nothing, but that `reset` takes back every
/// binding; a keymap that is no object, or whose `reset` is no truth value, changes
/// nothing and is a fault.
pub proof fn law_keymaps_without_lines(
    keys: Seq<(Key, Action)>,
    fields: Vec<(String, Node)>,
    node: Node,
    lines: Seq<KeyReading>,
)
    requires
        forall|i: int| 0 <= i < fields@.len() ==> (#[trigger] fields@[i]).0@ == "reset"@,
    ensures
        keys_added(keys, None, lines) == (KeyMerge { keys, fault: None }),
        fields@.len() == 0 ==> keys_added(keys, Some(Node::Obj(fields)), lines) == (KeyMerge {
            keys,
            fault: None,
        }),
        fields@.len() > 0 && fields@[0].1 == Node::Bool(true) ==> keys_added(
            keys,
            Some(Node::Obj(fields)),
            lines,
        ) == (KeyMerge { keys: Seq::empty(), fault: None }),
        fields@.len() > 0 && fields@[0].1 == Node::Bool(false) ==> keys_added(
            keys,
            Some(Node::Obj(fields)),
            lines,
        ) == (KeyMerge { keys, fault: None }),
        fields@.len() > 0 && fields@[0].1 !is Bool ==> keys_added(
            keys,
            Some(Node::Obj(fields)),
            lines,
        ) == (KeyMerge { keys, fault: Some(FaultView::WrongType("reset"@)) }),
        node !is Obj ==> keys_added(keys, Some(node), lines) == (KeyMerge {
            keys,
            fault: Some(FaultView::NotAnObject),
        }),
{
    lemma_only_reset(keys, fields@, lines);
    lemma_only_reset(Seq::empty(), fields@, lines);
}

proof fn lemma_only_reset(
    keys: Seq<(Key, Action)>,
    fields: Seq<(String, Node)>,
    lines: Seq<KeyReading>,
)
    requires
        forall|i: int| 0 <= i < fields.len() ==> (#[trigger] fields[i]).0@ == "reset"@,
    ensures
        lines_added(keys, fields, lines) == (KeyMerge { keys, fault: None }),
    decreases fields.len(),
{
    if fields.len() > 0 {
        assert(fields[0].0@ == "reset"@);
        assert forall|i: int| 0 <= i < fields.skip(1).len() implies (#[trigger] fields.skip(
            1,
        )[i]).0@ == "reset"@ by {
            assert(fields[i + 1].0@ == "reset"@);
        }
        lemma_only_reset(keys, fields.skip(1), lines);
    }
}

/// The settings without any document.
pub proof fn law_default_settings(keymap: KeymapConfig)
    ensures
        ({
            let s = default_settings(keymap);
            &&& !s.hide_keymap_window
            &&& s.mouse_scroll_speed == 5
            &&& s.scrollback_len == 1000
            &&& s.proc_list_width == 30
            &&& s.proc_list_title == "Processes"@
            &&& s.on_all_finished is None
            &&& s.proc_log is None
            &&& forall|group: KeymapGroup| #[trigger]
                group_in(s, group) == keymap.spec_group(group)
        }),
{
}

/// A keymap with a fault is the end of a document: what its lines before the fault
/// say counts, what comes behind it does not. The keymaps come in their order, and
/// before everything else.
#[verifier::spinoff_prover]
#[verifier::rlimit(40)]
pub proof fn law_faults_of_keymaps(
    s: SettingsView,
    fields: Vec<(String, Node)>,
    readings: Readings,
)
    ensures
        ({
            let r = merged_settings(s, Node::Obj(fields), readings);
            let procs = keys_added(
                s.tasks,
                field(fields@, "keymap_procs"@),
                readings.keymap_procs@,
            );
            let term = keys_added(s.term, field(fields@, "keymap_term"@), readings.keymap_term@);
            let copy = keys_added(s.copy, field(fields@, "keymap_copy"@), readings.keymap_copy@);
            &&& procs.fault is Some ==> r.fault == procs.fault && r.settings == (SettingsView {
                tasks: procs.keys,
                ..s
            })
            &&& procs.fault is None && term.fault is Some ==> r.fault == term.fault && r.settings
                == (SettingsView { tasks: procs.keys, term: term.keys, ..s })
            &&& procs.fault is None && term.fault is None && copy.fault is Some ==> r.fault
                == copy.fault && r.settings == (SettingsView {
                tasks: procs.keys,
                term: term.keys,
                copy: copy.keys,
                ..s
            })
        }),
        forall|doc: Node|
            doc !is Obj ==> #[trigger] merged_settings(s, doc, readings) == (Merge {
                settings: s,
                fault: Some(FaultView::NotAnObject),
            }),
{
}

/// A size is a whole number that is not negative and not too large.
pub open spec fn holds_size(node: Option<Node>) -> bool {
    node is None || (node->Some_0 is Int && 0 <= node->Some_0->Int_0 <= usize::MAX)
}

/// Of the plain values the first that is of another type is the fault, under its own
/// name; the values come in their order, behind the keymaps.
#[verifier::spinoff_prover]
#[verifier::rlimit(40)]
pub proof fn law_faults_of_values(
    s: SettingsView,
    fields: Vec<(String, Node)>,
    readings: Readings,
)
    requires
        merged_keys(s, fields@, readings).fault is None,
    ensures
        ({
            let fault = merged_settings(s, Node::Obj(fields), readings).fault;
            let hide = field(fields@, "hide_keymap_window"@);
            let title = field(fields@, "proc_list_title"@);
            let a = hide is None || hide->Some_0 is Bool;
            let b = holds_size(field(fields@, "mouse_scroll_speed"@));
            let c = holds_size(field(fields@, "scrollback"@));
            let d = title is None || title->Some_0 is Text;
            let e = holds_size(field(fields@, "proc_list_width"@));
            let f = field(fields@, "on_all_finished"@) is None || readings.on_all_finished is Ok;
            let g = field(fields@, "proc_log"@) is None || readings.proc_log is Ok;
            let wrong = |name: Seq<char>| fault == Some(FaultView::WrongType(name));
            &&& !a ==> wrong("hide_keymap_window"@)
            &&& a && !b ==> wrong("mouse_scroll_speed"@)
            &&& a && b && !c ==> wrong("scrollback"@)
            &&& a && b && c && !d ==> wrong("proc_list_title"@)
            &&& a && b && c && d && !e ==> wrong("proc_list_width"@)
            &&& a && b && c && d && e && !f ==> fault == Some(
                FaultView::Invalid(readings.on_all_finished->Err_0@),
            )
            &&& a && b && c && d && e && f && !g ==> fault == Some(
                FaultView::Invalid(readings.proc_log->Err_0@),
            )
        }),
{
}

/// What settings are known by: the bindings of each group under its own name, and
/// every other value as it is. A step that fails is known by its fault.
pub proof fn law_what_settings_are(s: Settings, err: ConfigError)
    ensures
        s@.tasks == s.keymap.spec_group(KeymapGroup::Tasks),
        s@.term == s.keymap.spec_group(KeymapGroup::Term),
        s@.copy == s.keymap.spec_group(KeymapGroup::Copy),
        s@.hide_keymap_window == s.hide_keymap_window,
        s@.mouse_scroll_speed == s.mouse_scroll_speed,
        s@.scrollback_len == s.scrollback_len,
        s@.proc_list_width == s.proc_list_width,
        s@.proc_list_title == s.proc_list_title@,
        s@.on_all_finished == s.on_all_finished,
        s@.proc_log == s.proc_log,
        s.merge_of(Ok(())).fault is None,
        s.merge_of(Err(err)).fault == Some(err@),
        s.merge_of(Ok(())).settings == s@,
        s.merge_of(Err(err)).settings == s@,
{
}

} // verus!
