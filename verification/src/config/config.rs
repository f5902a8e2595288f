//! The configuration of a runner, from the global and the project document.

use vstd::prelude::*;

use crate::command::Command;
use crate::config::hook::{hook_from_cfg, hook_read, Hook};
use crate::config::node::{
    field, get, known_keys, words, ConfigError, FaultView, Node,
};
use crate::config::tui::{builtin_tui, key_fault, merged_tui, Merged, TuiConfig, TuiView};
use crate::wire::command_read;

verus! {

/// The configuration of a runner. What is logged, what the tasks are and what
/// the keys do is read elsewhere.
#[derive(Debug)]
pub struct Config<L, T, K> {
    pub log: L,
    pub tasks: Vec<T>,
    pub defaults: T,
    pub tui: TuiConfig,
    pub keymap: K,
    pub on_init: Option<Hook>,
    pub on_idle: Option<Hook>,
}

/// What a document says of the parts that are read elsewhere, on top of what
/// was configured before.
#[derive(Debug)]
pub struct Sections<L, T, K> {
    pub log: Result<L, ConfigError>,
    pub defaults: Result<T, ConfigError>,
    pub keymap: Result<K, ConfigError>,
    /// Each task of the document, in its order.
    pub tasks: Vec<Result<T, ConfigError>>,
}

/// A document: its root, or why it could not be read, and what it says of the
/// parts that are read elsewhere.
#[derive(Debug)]
pub struct Document<L, T, K> {
    pub root: Result<Node, ConfigError>,
    pub sections: Sections<L, T, K>,
}

/// Whether a list of tasks is what was read, or a fault the first among them.
pub open spec fn collects<T>(
    readings: Seq<Result<T, ConfigError>>,
    r: Result<Vec<T>, ConfigError>,
) -> bool {
    match r {
        Ok(tasks) => tasks@.len() == readings.len() && forall|i: int|
            0 <= i < readings.len() ==> #[trigger] readings[i] == Ok::<T, ConfigError>(tasks@[i]),
        Err(err) => exists|i: int|
            0 <= i < readings.len() && #[trigger] readings[i] == Err::<T, ConfigError>(err)
                && forall|j: int| 0 <= j < i ==> (#[trigger] readings[j]) is Ok,
    }
}

#[verifier::loop_isolation(false)]
fn collect_tasks<T>(readings: Vec<Result<T, ConfigError>>) -> (r: Result<Vec<T>, ConfigError>)
    ensures
        collects(readings@, r),
{
    let ghost all = readings@;
    let mut readings = readings;
    let mut tasks: Vec<T> = Vec::new();
    while readings.len() > 0
        invariant
            tasks@.len() + readings@.len() == all.len(),
            readings@ == all.skip(tasks@.len() as int),
            forall|i: int|
                0 <= i < tasks@.len() ==> #[trigger] all[i] == Ok::<T, ConfigError>(tasks@[i]),
        decreases readings@.len(),
    {
        let ghost n = tasks@.len() as int;
        let reading = readings.remove(0);
        assert(reading == all[n]);
        match reading {
            Ok(task) => {
                tasks.push(task);
                assert(readings@ =~= all.skip(n + 1));
            },
            Err(err) => {
                return Err(err);
            },
        }
    }
    Ok(tasks)
}

/// The top-level keys of the global document.
pub open spec fn global_keys() -> Seq<Seq<char>> {
    seq!["log"@, "defaults"@, "tui"@, "keymap"@, "on_init"@, "on_idle"@]
}

/// The top-level keys of a project document.
pub open spec fn local_keys() -> Seq<Seq<char>> {
    seq!["log"@, "defaults"@, "tui"@, "keymap"@, "on_init"@, "on_idle"@, "tasks"@]
}

/// The message for tasks in the global document.
pub open spec fn tasks_message(path: Seq<char>) -> Seq<char> {
    "'tasks' is not allowed in the global config ("@ + path
        + "); define tasks in the workspace dekit.yaml"@
}

/// The first fault in a document, in the order in which its parts are taken.
pub open spec fn apply_fault<L, T, K>(
    tui: TuiView,
    fields: Seq<(String, Node)>,
    sections: Sections<L, T, K>,
    init: Result<Option<Hook>, ConfigError>,
    idle: Result<Option<Hook>, ConfigError>,
) -> Option<FaultView> {
    if sections.log is Err {
        Some(sections.log->Err_0@)
    } else if field(fields, "defaults"@) is Some && !(field(fields, "defaults"@)->Some_0 is Obj) {
        Some(FaultView::NotAnObject)
    } else if field(fields, "defaults"@) is Some && sections.defaults is Err {
        Some(sections.defaults->Err_0@)
    } else if merged_tui(tui, fields).fault is Some {
        merged_tui(tui, fields).fault
    } else if sections.keymap is Err {
        Some(sections.keymap->Err_0@)
    } else if init is Err {
        Some(init->Err_0@)
    } else if idle is Err {
        Some(idle->Err_0@)
    } else {
        None
    }
}

/// Whether a configuration is what an earlier one and a document make.
pub open spec fn applied<L, T, K>(
    old_config: Config<L, T, K>,
    fields: Seq<(String, Node)>,
    sections: Sections<L, T, K>,
    init: Result<Option<Hook>, ConfigError>,
    idle: Result<Option<Hook>, ConfigError>,
    config: Config<L, T, K>,
) -> bool {
    &&& Ok::<L, ConfigError>(config.log) == sections.log
    &&& config.tasks == old_config.tasks
    &&& if field(fields, "defaults"@) is Some {
        Ok::<T, ConfigError>(config.defaults) == sections.defaults
    } else {
        config.defaults == old_config.defaults
    }
    &&& (Merged { tui: config.tui@, fault: None }) == merged_tui(old_config.tui@, fields)
    &&& Ok::<K, ConfigError>(config.keymap) == sections.keymap
    &&& config.on_init == (match init {
        Ok(Some(hook)) => Some(hook),
        _ => old_config.on_init,
    })
    &&& config.on_idle == (match idle {
        Ok(Some(hook)) => Some(hook),
        _ => old_config.on_idle,
    })
}

/// Whether what came of a document is what it says.
pub open spec fn applies<L, T, K>(
    old_config: Config<L, T, K>,
    fields: Seq<(String, Node)>,
    sections: Sections<L, T, K>,
    r: Result<Config<L, T, K>, ConfigError>,
) -> bool {
    exists|init: Result<Option<Hook>, ConfigError>, idle: Result<Option<Hook>, ConfigError>|
        #![trigger hook_read(fields, "on_init"@, init), hook_read(fields, "on_idle"@, idle)]
        {
            &&& hook_read(fields, "on_init"@, init)
            &&& hook_read(fields, "on_idle"@, idle)
            &&& match r {
                Ok(config) => apply_fault(old_config.tui@, fields, sections, init, idle) is None
                    && applied(old_config, fields, sections, init, idle, config),
                Err(err) => apply_fault(old_config.tui@, fields, sections, init, idle) == Some(
                    err@,
                ),
            }
        }
}

/// Whether what came of the global document is what it says. It must be an
/// object with known keys, and without tasks.
pub open spec fn loads_global<L, T, K>(
    old_config: Config<L, T, K>,
    path: Seq<char>,
    root: Node,
    sections: Sections<L, T, K>,
    r: Result<Config<L, T, K>, ConfigError>,
) -> bool {
    match root {
        Node::Obj(fields) => if field(fields@, "tasks"@) is Some {
            r matches Err(err) && err@ == FaultView::NotAllowed(tasks_message(path))
        } else if key_fault(fields@, global_keys()) is Some {
            r matches Err(err) && key_fault(fields@, global_keys()) == Some(err@)
        } else {
            applies(old_config, fields@, sections, r)
        },
        _ => r matches Err(err) && err@ == FaultView::NotAnObject,
    }
}

/// Whether what came of the document of the project is what it says. It must be
/// an object with known keys.
pub open spec fn loads_project<L, T, K>(
    old_config: Config<L, T, K>,
    root: Node,
    sections: Sections<L, T, K>,
    r: Result<Config<L, T, K>, ConfigError>,
) -> bool {
    match root {
        Node::Obj(fields) => if key_fault(fields@, local_keys()) is Some {
            r matches Err(err) && key_fault(fields@, local_keys()) == Some(err@)
        } else {
            loads_local(old_config, fields@, sections, r)
        },
        _ => r matches Err(err) && err@ == FaultView::NotAnObject,
    }
}

/// Whether a configuration is the one without any document.
pub open spec fn is_default<L, T, K>(
    config: Config<L, T, K>,
    log: L,
    defaults: T,
    keymap: K,
) -> bool {
    &&& config.log == log
    &&& config.tasks@.len() == 0
    &&& config.defaults == defaults
    &&& config.tui@ == builtin_tui()
    &&& config.keymap == keymap
    &&& config.on_init is None
    &&& config.on_idle is None
}

/// Whether `middle` is what comes of a configuration and the global document,
/// if there is one.
pub open spec fn passes_global<L, T, K>(
    first: Config<L, T, K>,
    global: Option<(String, Document<L, T, K>)>,
    middle: Result<Config<L, T, K>, ConfigError>,
) -> bool {
    match global {
        None => middle == Ok::<Config<L, T, K>, ConfigError>(first),
        Some((path, document)) => match document.root {
            Ok(root) => loads_global(first, path@, root, document.sections, middle),
            Err(err) => middle == Err::<Config<L, T, K>, ConfigError>(err),
        },
    }
}

/// Whether `r` is what comes of a configuration and the document of the
/// project, if there is one.
pub open spec fn passes_local<L, T, K>(
    middle: Config<L, T, K>,
    local: Option<Document<L, T, K>>,
    r: Result<Config<L, T, K>, ConfigError>,
) -> bool {
    match local {
        None => r == Ok::<Config<L, T, K>, ConfigError>(middle),
        Some(document) => match document.root {
            Ok(root) => loads_project(middle, root, document.sections, r),
            Err(err) => r == Err::<Config<L, T, K>, ConfigError>(err),
        },
    }
}

/// Whether `r` is what comes of a configuration and the two documents. A fault
/// of the global document hides the other one.
pub open spec fn loads_dir<L, T, K>(
    first: Config<L, T, K>,
    global: Option<(String, Document<L, T, K>)>,
    local: Option<Document<L, T, K>>,
    r: Result<Config<L, T, K>, ConfigError>,
) -> bool {
    exists|middle: Result<Config<L, T, K>, ConfigError>|
        {
            &&& #[trigger] passes_global(first, global, middle)
            &&& match middle {
                Ok(config) => passes_local(config, local, r),
                Err(_) => r == middle,
            }
        }
}

impl<L, T, K> Config<L, T, K> {
    /// The configuration without any document.
    pub fn make_default(log: L, defaults: T, keymap: K) -> (r: Self)
        ensures
            is_default(r, log, defaults, keymap),
    {
        Config {
            log,
            tasks: Vec::new(),
            defaults,
            tui: TuiConfig::builtin(),
            keymap,
            on_init: None,
            on_idle: None,
        }
    }

    /// The configuration of a directory: the one without any document, then the
    /// global document with its path, then the document of the project.
    pub fn load_dir(
        log: L,
        defaults: T,
        keymap: K,
        global: Option<(String, Document<L, T, K>)>,
        local: Option<Document<L, T, K>>,
    ) -> (r: Result<Self, ConfigError>)
        ensures
            exists|first: Self| #[trigger]
                loads_dir(first, global, local, r) && is_default(first, log, defaults, keymap),
    {
        let first = Config::make_default(log, defaults, keymap);
        let ghost start = first;
        let middle: Result<Self, ConfigError> = match global {
            None => Ok(first),
            Some((path, document)) => match document.root {
                Ok(root) => first.load_global(path.as_str(), &root, document.sections),
                Err(err) => Err(err),
            },
        };
        assert(passes_global(start, global, middle));
        let ghost between = middle;
        let r: Result<Self, ConfigError> = match middle {
            Ok(config) => match local {
                None => Ok(config),
                Some(document) => match document.root {
                    Ok(root) => config.load_local(&root, document.sections),
                    Err(err) => Err(err),
                },
            },
            Err(err) => Err(err),
        };
        assert(loads_dir(start, global, local, r)) by {
            assert(passes_global(start, global, between));
        }
        r
    }

    /// Takes over what a document says, up to its tasks.
    fn apply(self, fields: &Vec<(String, Node)>, sections: Sections<L, T, K>) -> (r: Result<
        Self,
        ConfigError,
    >)
        ensures
            applies(self, fields@, sections, r),
    {
        let init = hook_from_cfg(fields, "on_init");
        let idle = hook_from_cfg(fields, "on_idle");
        let ghost given = sections;
        let ghost before = self;
        let ghost read_init = init;
        let ghost read_idle = idle;
        assert(hook_read(fields@, "on_init"@, read_init) && hook_read(
            fields@,
            "on_idle"@,
            read_idle,
        ));
        let mut config = self;
        match sections.log {
            Ok(log) => {
                config.log = log;
            },
            Err(err) => {
                return Err(err);
            },
        }
        if let Some(node) = get(fields, "defaults") {
            match node.as_obj() {
                Ok(_) => {},
                Err(err) => {
                    return Err(err);
                },
            }
            match sections.defaults {
                Ok(defaults) => {
                    config.defaults = defaults;
                },
                Err(err) => {
                    return Err(err);
                },
            }
        }
        match config.tui.merge(fields) {
            Ok(()) => {},
            Err(err) => {
                return Err(err);
            },
        }
        match sections.keymap {
            Ok(keymap) => {
                config.keymap = keymap;
            },
            Err(err) => {
                return Err(err);
            },
        }
        match init {
            Ok(Some(hook)) => {
                config.on_init = Some(hook);
            },
            Ok(None) => {},
            Err(err) => {
                return Err(err);
            },
        }
        match idle {
            Ok(Some(hook)) => {
                config.on_idle = Some(hook);
            },
            Ok(None) => {},
            Err(err) => {
                return Err(err);
            },
        }
        assert(applied(before, fields@, given, read_init, read_idle, config));
        Ok(config)
    }

    /// Takes over the global document, which stands at `path`. It must not hold
    /// tasks.
    pub fn load_global(self, path: &str, root: &Node, sections: Sections<L, T, K>) -> (r: Result<
        Self,
        ConfigError,
    >)
        ensures
            loads_global(self, path@, *root, sections, r),
    {
        let fields = match root.as_obj() {
            Ok(fields) => fields,
            Err(err) => {
                return Err(err);
            },
        };
        if get(fields, "tasks").is_some() {
            let mut message = "'tasks' is not allowed in the global config (".to_string();
            message.append(path);
            message.append("); define tasks in the workspace dekit.yaml");
            return Err(ConfigError::NotAllowed(message));
        }
        let known = ["log", "defaults", "tui", "keymap", "on_init", "on_idle"];
        assert(words(known@) =~= global_keys());
        match known_keys(fields, known.as_slice()) {
            Ok(()) => self.apply(fields, sections),
            Err(err) => Err(err),
        }
    }

    /// Takes over the document of the project; its tasks take the place of all
    /// others.
    pub fn load_local(self, root: &Node, sections: Sections<L, T, K>) -> (r: Result<
        Self,
        ConfigError,
    >)
        ensures
            loads_project(self, *root, sections, r),
    {
        let fields = match root.as_obj() {
            Ok(fields) => fields,
            Err(err) => {
                return Err(err);
            },
        };
        let known = ["log", "defaults", "tui", "keymap", "on_init", "on_idle", "tasks"];
        assert(words(known@) =~= local_keys());
        match known_keys(fields, known.as_slice()) {
            Ok(()) => {},
            Err(err) => {
                return Err(err);
            },
        }
        let ghost given = sections;
        let Sections { log, defaults, keymap, tasks } = sections;
        let rest = Sections { log, defaults, keymap, tasks: Vec::new() };
        let ghost before = self;
        match self.apply(fields, rest) {
            Ok(config) => {
                let ghost middle = config;
                proof {
                    lemma_tasks_do_not_matter(
                        before,
                        fields@,
                        rest,
                        given,
                        Ok::<Config<L, T, K>, ConfigError>(middle),
                    );
                }
                let mut config = config;
                match get(fields, "tasks") {
                    None => Ok(config),
                    Some(node) => {
                        match node.as_obj() {
                            Ok(_) => {},
                            Err(err) => {
                                return Err(err);
                            },
                        }
                        match collect_tasks(tasks) {
                            Ok(tasks) => {
                                config.tasks = tasks;
                                Ok(config)
                            },
                            Err(err) => Err(err),
                        }
                    },
                }
            },
            Err(err) => {
                proof {
                    lemma_tasks_do_not_matter(
                        before,
                        fields@,
                        rest,
                        given,
                        Err::<Config<L, T, K>, ConfigError>(err),
                    );
                }
                Err(err)
            },
        }
    }
}

/// The configuration that a runner works with: a failed load is no reason not to
/// run, and leaves it with the one without any document.
pub fn or_default<L, T, K>(
    loaded: Result<Config<L, T, K>, ConfigError>,
    log: L,
    defaults: T,
    keymap: K,
) -> (r: (Config<L, T, K>, Option<ConfigError>))
    ensures
        match loaded {
            Ok(config) => r == (config, None::<ConfigError>),
            Err(err) => r.1 == Some(err) && is_default(r.0, log, defaults, keymap),
        },
{
    match loaded {
        Ok(config) => (config, None),
        Err(err) => (Config::make_default(log, defaults, keymap), Some(err)),
    }
}

/// Without any document the configuration stays as it is.
pub proof fn law_no_document_changes_nothing<L, T, K>(
    first: Config<L, T, K>,
    r: Result<Config<L, T, K>, ConfigError>,
)
    requires
        loads_dir(first, None, None, r),
    ensures
        r == Ok::<Config<L, T, K>, ConfigError>(first),
{
}

/// Tasks come from the document of the project alone: without one that holds
/// tasks there are none.
pub proof fn law_only_the_project_has_tasks<L, T, K>(
    first: Config<L, T, K>,
    global: Option<(String, Document<L, T, K>)>,
    local: Option<Document<L, T, K>>,
    r: Result<Config<L, T, K>, ConfigError>,
)
    requires
        loads_dir(first, global, local, r),
        r is Ok,
        local matches Some(document) ==> document.root matches Ok(Node::Obj(fields)) ==> field(
            fields@,
            "tasks"@,
        ) is None,
    ensures
        r->Ok_0.tasks == first.tasks,
{
}

proof fn lemma_tasks_do_not_matter<L, T, K>(
    config: Config<L, T, K>,
    fields: Seq<(String, Node)>,
    a: Sections<L, T, K>,
    b: Sections<L, T, K>,
    r: Result<Config<L, T, K>, ConfigError>,
)
    requires
        a.log == b.log,
        a.defaults == b.defaults,
        a.keymap == b.keymap,
        applies(config, fields, a, r),
    ensures
        applies(config, fields, b, r),
{
    let (init, idle) = choose|
        init: Result<Option<Hook>, ConfigError>,
        idle: Result<Option<Hook>, ConfigError>,
    |
        #![trigger hook_read(fields, "on_init"@, init), hook_read(fields, "on_idle"@, idle)]
        {
            &&& hook_read(fields, "on_init"@, init)
            &&& hook_read(fields, "on_idle"@, idle)
            &&& match r {
                Ok(c) => apply_fault(config.tui@, fields, a, init, idle) is None && applied(
                    config,
                    fields,
                    a,
                    init,
                    idle,
                    c,
                ),
                Err(err) => apply_fault(config.tui@, fields, a, init, idle) == Some(err@),
            }
        };
    assert(hook_read(fields, "on_init"@, init) && hook_read(fields, "on_idle"@, idle));
}

/// Whether what came of a project document is what it says: first everything
/// but the tasks, then the tasks.
pub open spec fn loads_local<L, T, K>(
    old_config: Config<L, T, K>,
    fields: Seq<(String, Node)>,
    sections: Sections<L, T, K>,
    r: Result<Config<L, T, K>, ConfigError>,
) -> bool {
    match r {
        Ok(config) => exists|before: Config<L, T, K>|
            {
                &&& #[trigger] applies(
                    old_config,
                    fields,
                    sections,
                    Ok::<Config<L, T, K>, ConfigError>(before),
                )
                &&& config == (match field(fields, "tasks"@) {
                    Some(_) => Config { tasks: config.tasks, ..before },
                    None => before,
                })
                &&& field(fields, "tasks"@) is Some ==> field(fields, "tasks"@)->Some_0 is Obj
                    && collects(sections.tasks@, Ok::<Vec<T>, ConfigError>(config.tasks))
            },
        Err(err) => {
            ||| applies(old_config, fields, sections, r)
            ||| {
                &&& exists|before: Config<L, T, K>| #[trigger]
                    applies(
                        old_config,
                        fields,
                        sections,
                        Ok::<Config<L, T, K>, ConfigError>(before),
                    )
                &&& field(fields, "tasks"@) is Some
                &&& if field(fields, "tasks"@)->Some_0 is Obj {
                    collects(sections.tasks@, Err::<Vec<T>, ConfigError>(err))
                } else {
                    err@ == FaultView::NotAnObject
                }
            }
        },
    }
}

/// If a document has a hook and is taken over, the hook is the command that stands
/// there; a hook of which the document says nothing stays the one of before.
pub proof fn law_hooks_of_a_document<L, T, K>(
    old_config: Config<L, T, K>,
    fields: Seq<(String, Node)>,
    sections: Sections<L, T, K>,
    config: Config<L, T, K>,
)
    requires
        applies(old_config, fields, sections, Ok::<Config<L, T, K>, ConfigError>(config)),
    ensures
        field(fields, "on_idle"@) is Some ==> (config.on_idle matches Some(Hook::Command(c))
            && command_read(field(fields, "on_idle"@)->Some_0, c)),
        field(fields, "on_idle"@) is None ==> config.on_idle == old_config.on_idle,
        field(fields, "on_init"@) is Some ==> (config.on_init matches Some(Hook::Command(c))
            && command_read(field(fields, "on_init"@)->Some_0, c)),
        field(fields, "on_init"@) is None ==> config.on_init == old_config.on_init,
{
}

/// What the other parts of a document were read as is what they are after it: what
/// is logged and what the keys do always, the defaults if the document has some.
/// The tasks are left alone.
pub proof fn law_sections_of_a_document<L, T, K>(
    old_config: Config<L, T, K>,
    fields: Seq<(String, Node)>,
    sections: Sections<L, T, K>,
    config: Config<L, T, K>,
)
    requires
        applies(old_config, fields, sections, Ok::<Config<L, T, K>, ConfigError>(config)),
    ensures
        sections.log == Ok::<L, ConfigError>(config.log),
        sections.keymap == Ok::<K, ConfigError>(config.keymap),
        field(fields, "defaults"@) is Some ==> sections.defaults == Ok::<T, ConfigError>(
            config.defaults,
        ) && field(fields, "defaults"@)->Some_0 is Obj,
        field(fields, "defaults"@) is None ==> config.defaults == old_config.defaults,
        config.tasks == old_config.tasks,
        merged_tui(old_config.tui@, fields).fault is None,
        merged_tui(old_config.tui@, fields).tui == config.tui@,
{
}

/// A document is taken over exactly if none of its parts has a fault, and then its
/// fault is that of one of its parts.
pub proof fn law_sound_documents_are_taken_over<L, T, K>(
    old_config: Config<L, T, K>,
    fields: Seq<(String, Node)>,
    sections: Sections<L, T, K>,
    r: Result<Config<L, T, K>, ConfigError>,
)
    requires
        applies(old_config, fields, sections, r),
    ensures
        r is Ok <==> {
            &&& sections.log is Ok
            &&& sections.keymap is Ok
            &&& field(fields, "defaults"@) is Some ==> field(fields, "defaults"@)->Some_0 is Obj
                && sections.defaults is Ok
            &&& merged_tui(old_config.tui@, fields).fault is None
            &&& field(fields, "on_init"@) is Some ==> exists|c: Command| #[trigger]
                command_read(field(fields, "on_init"@)->Some_0, c)
            &&& field(fields, "on_idle"@) is Some ==> exists|c: Command| #[trigger]
                command_read(field(fields, "on_idle"@)->Some_0, c)
        },
{
}

/// The document of the project has the last word on a hook, then the global one:
/// whichever of them has the hook, it is the command that stands there.
pub proof fn law_later_hooks_replace_earlier_ones<L, T, K>(
    first: Config<L, T, K>,
    path: String,
    global: Vec<(String, Node)>,
    global_sections: Sections<L, T, K>,
    local: Vec<(String, Node)>,
    local_sections: Sections<L, T, K>,
    config: Config<L, T, K>,
)
    requires
        loads_dir(
            first,
            Some((path, Document { root: Ok(Node::Obj(global)), sections: global_sections })),
            Some(Document { root: Ok(Node::Obj(local)), sections: local_sections }),
            Ok::<Config<L, T, K>, ConfigError>(config),
        ),
    ensures
        field(local@, "on_idle"@) is Some ==> (config.on_idle matches Some(Hook::Command(c))
            && command_read(field(local@, "on_idle"@)->Some_0, c)),
        field(local@, "on_idle"@) is None && field(global@, "on_idle"@) is Some ==> (
        config.on_idle matches Some(Hook::Command(c)) && command_read(
            field(global@, "on_idle"@)->Some_0,
            c,
        )),
        field(local@, "on_idle"@) is None && field(global@, "on_idle"@) is None ==> config.on_idle
            == first.on_idle,
        field(local@, "on_init"@) is Some ==> (config.on_init matches Some(Hook::Command(c))
            && command_read(field(local@, "on_init"@)->Some_0, c)),
        field(local@, "on_init"@) is None && field(global@, "on_init"@) is Some ==> (
        config.on_init matches Some(Hook::Command(c)) && command_read(
            field(global@, "on_init"@)->Some_0,
            c,
        )),
        field(local@, "on_init"@) is None && field(global@, "on_init"@) is None ==> config.on_init
            == first.on_init,
{
    let r = Ok::<Config<L, T, K>, ConfigError>(config);
    let g = Some((path, Document { root: Ok(Node::Obj(global)), sections: global_sections }));
    let l = Some(Document { root: Ok(Node::Obj(local)), sections: local_sections });
    let middle = choose|middle: Result<Config<L, T, K>, ConfigError>|
        {
            &&& #[trigger] passes_global(first, g, middle)
            &&& match middle {
                Ok(between) => passes_local(between, l, r),
                Err(_) => r == middle,
            }
        };
    let between = middle->Ok_0;
    law_hooks_of_a_document(first, global@, global_sections, between);
    let before = choose|before: Config<L, T, K>|
        {
            &&& #[trigger] applies(
                between,
                local@,
                local_sections,
                Ok::<Config<L, T, K>, ConfigError>(before),
            )
            &&& config == (match field(local@, "tasks"@) {
                Some(_) => Config { tasks: config.tasks, ..before },
                None => before,
            })
        };
    law_hooks_of_a_document(between, local@, local_sections, before);
}

/// What a project document without a fault was read as: everything but its tasks
/// as in any document, and its tasks one by one, in its order, in the place of all
/// others.
pub proof fn law_project_documents<L, T, K>(
    old_config: Config<L, T, K>,
    fields: Vec<(String, Node)>,
    sections: Sections<L, T, K>,
    config: Config<L, T, K>,
)
    requires
        loads_project(
            old_config,
            Node::Obj(fields),
            sections,
            Ok::<Config<L, T, K>, ConfigError>(config),
        ),
    ensures
        applies(
            old_config,
            fields@,
            sections,
            Ok::<Config<L, T, K>, ConfigError>(Config { tasks: old_config.tasks, ..config }),
        ),
        field(fields@, "tasks"@) is None ==> config.tasks == old_config.tasks,
        field(fields@, "tasks"@) is Some ==> field(fields@, "tasks"@)->Some_0 is Obj
            && config.tasks@.len() == sections.tasks@.len() && forall|i: int|
            0 <= i < config.tasks@.len() ==> sections.tasks@[i] == Ok::<T, ConfigError>(
                #[trigger] config.tasks@[i],
            ),
        forall|i: int|
            0 <= i < fields@.len() ==> {
                let key = (#[trigger] fields@[i]).0@;
                key == "log"@ || key == "defaults"@ || key == "tui"@ || key == "keymap"@ || key
                    == "on_init"@ || key == "on_idle"@ || key == "tasks"@
            },
{
    let before = choose|before: Config<L, T, K>|
        {
            &&& #[trigger] applies(
                old_config,
                fields@,
                sections,
                Ok::<Config<L, T, K>, ConfigError>(before),
            )
            &&& config == (match field(fields@, "tasks"@) {
                Some(_) => Config { tasks: config.tasks, ..before },
                None => before,
            })
            &&& field(fields@, "tasks"@) is Some ==> field(fields@, "tasks"@)->Some_0 is Obj
                && collects(sections.tasks@, Ok::<Vec<T>, ConfigError>(config.tasks))
        };
    law_sections_of_a_document(old_config, fields@, sections, before);
    assert(Config { tasks: old_config.tasks, ..config } == before);
    crate::config::node::law_first_unknown_key(fields@, local_keys(), 0);
    assert forall|i: int| 0 <= i < fields@.len() implies {
        let key = (#[trigger] fields@[i]).0@;
        key == "log"@ || key == "defaults"@ || key == "tui"@ || key == "keymap"@ || key
            == "on_init"@ || key == "on_idle"@ || key == "tasks"@
    } by {
        assert(local_keys().contains(fields@[i].0@));
    }
}

/// A global document without a fault is taken over as any document is. It has no
/// tasks, and no keys but the known ones.
pub proof fn law_global_documents<L, T, K>(
    old_config: Config<L, T, K>,
    path: Seq<char>,
    fields: Vec<(String, Node)>,
    sections: Sections<L, T, K>,
    config: Config<L, T, K>,
)
    requires
        loads_global(
            old_config,
            path,
            Node::Obj(fields),
            sections,
            Ok::<Config<L, T, K>, ConfigError>(config),
        ),
    ensures
        applies(old_config, fields@, sections, Ok::<Config<L, T, K>, ConfigError>(config)),
        config.tasks == old_config.tasks,
        forall|i: int|
            0 <= i < fields@.len() ==> {
                let key = (#[trigger] fields@[i]).0@;
                key == "log"@ || key == "defaults"@ || key == "tui"@ || key == "keymap"@ || key
                    == "on_init"@ || key == "on_idle"@
            },
{
    crate::config::node::law_first_unknown_key(fields@, global_keys(), 0);
    assert forall|i: int| 0 <= i < fields@.len() implies {
        let key = (#[trigger] fields@[i]).0@;
        key == "log"@ || key == "defaults"@ || key == "tui"@ || key == "keymap"@ || key
            == "on_init"@ || key == "on_idle"@
    } by {
        assert(global_keys().contains(fields@[i].0@));
    }
}

/// Tasks in the global document are refused with its path, whatever else stands in
/// it, and a document that is no object is refused as one.
pub proof fn law_refused_documents<L, T, K>(
    old_config: Config<L, T, K>,
    path: Seq<char>,
    root: Node,
    sections: Sections<L, T, K>,
    r: Result<Config<L, T, K>, ConfigError>,
)
    ensures
        loads_global(old_config, path, root, sections, r) && root !is Obj ==> (r matches Err(err)
            && err@ == FaultView::NotAnObject),
        loads_project(old_config, root, sections, r) && root !is Obj ==> (r matches Err(err) && err@
            == FaultView::NotAnObject),
        loads_global(old_config, path, root, sections, r) && root is Obj && field(
            root->Obj_0@,
            "tasks"@,
        ) is Some ==> (r matches Err(err) && err@ == FaultView::NotAllowed(
            "'tasks' is not allowed in the global config ("@ + path
                + "); define tasks in the workspace dekit.yaml"@,
        )),
{
}

/// Without any document there are no tasks and no hooks, the look is the built-in
/// one, and what is logged, the defaults and the keys are those that were given.
pub proof fn law_without_documents<L, T, K>(config: Config<L, T, K>, log: L, defaults: T, keymap: K)
    requires
        is_default(config, log, defaults, keymap),
    ensures
        config.tasks@.len() == 0,
        config.on_init is None,
        config.on_idle is None,
        config.log == log,
        config.defaults == defaults,
        config.keymap == keymap,
        config.tui.sidebar.title@ == "Tasks"@,
        config.tui.sidebar.width == 30,
        config.tui.tips.show,
        config.tui.zoom_tip,
{
}

/// The tasks of a document are taken one by one; the first that cannot be read is
/// what is wrong with them.
pub proof fn law_tasks_are_taken_one_by_one<T>(
    readings: Seq<Result<T, ConfigError>>,
    r: Result<Vec<T>, ConfigError>,
)
    requires
        collects(readings, r),
    ensures
        r is Ok <==> forall|i: int| 0 <= i < readings.len() ==> (#[trigger] readings[i]) is Ok,
        r matches Ok(tasks) ==> tasks@.len() == readings.len() && forall|i: int|
            0 <= i < readings.len() ==> readings[i]->Ok_0 == #[trigger] tasks@[i],
{
    if let Ok(tasks) = r {
        assert forall|i: int| 0 <= i < readings.len() implies readings[i]->Ok_0
            == #[trigger] tasks@[i] by {
            assert(readings[i] == Ok::<T, ConfigError>(tasks@[i]));
        }
    }
}

/// A document that could not be read is the fault of the load, the global one before
/// the other.
pub proof fn law_unread_documents<L, T, K>(
    first: Config<L, T, K>,
    path: String,
    sections: Sections<L, T, K>,
    local: Option<Document<L, T, K>>,
    err: ConfigError,
    r: Result<Config<L, T, K>, ConfigError>,
)
    ensures
        loads_dir(first, Some((path, Document { root: Err(err), sections })), local, r) ==> r
            == Err::<Config<L, T, K>, ConfigError>(err),
        loads_dir(first, None, Some(Document { root: Err(err), sections }), r) ==> r == Err::<
            Config<L, T, K>,
            ConfigError,
        >(err),
{
}

/// Of the parts of a document the first that has a fault is what is wrong with it:
/// what is logged, the defaults, the look, the keys, and then the two hooks.
pub proof fn law_first_fault_of_a_document<L, T, K>(
    old_config: Config<L, T, K>,
    fields: Seq<(String, Node)>,
    sections: Sections<L, T, K>,
    err: ConfigError,
)
    requires
        applies(old_config, fields, sections, Err::<Config<L, T, K>, ConfigError>(err)),
    ensures
        ({
            let defaults = field(fields, "defaults"@);
            let look = merged_tui(old_config.tui@, fields).fault;
            let a = sections.log is Ok;
            let b = defaults is None || defaults->Some_0 is Obj;
            let c = defaults is None || sections.defaults is Ok;
            let d = look is None;
            let e = sections.keymap is Ok;
            &&& !a ==> err@ == sections.log->Err_0@
            &&& a && !b ==> err@ == FaultView::NotAnObject
            &&& a && b && !c ==> err@ == sections.defaults->Err_0@
            &&& a && b && c && !d ==> Some(err@) == look
            &&& a && b && c && d && !e ==> err@ == sections.keymap->Err_0@
            &&& a && b && c && d && e ==> err@ == FaultView::Invalid("not a command"@)
        }),
{
}

} // verus!
