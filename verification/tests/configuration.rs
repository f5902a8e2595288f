use dekit::command::Command;
use dekit::config::config::{or_default, Config, Document, Sections};
use dekit::config::hook::Hook;
use dekit::config::keymap::{KeyTable, KeymapConfig};
use dekit::config::node::{ConfigError, Node};
use dekit::config::tui::TuiConfig;
use dekit::config::yaml::read_document;
use dekit::console::action::Action;
use dekit::console::keymap::KeymapGroup;
use dekit::dekit::boot::{Boot, InitHook};
use dekit::mprocs::settings::{KeyReading, LogConfig, Readings, Settings};
use dekit::term::key::{Key, KeyCode, KeyMods};

fn parse(yaml: &str) -> Node {
    read_document(yaml.as_bytes()).unwrap()
}

fn fields(yaml: &str) -> Vec<(String, Node)> {
    match parse(yaml) {
        Node::Obj(fields) => fields,
        other => panic!("{other:?}"),
    }
}

fn press(c: char) -> Key {
    Key::new(KeyCode::Char(c), KeyMods::none())
}

#[test]
fn builtin_look() {
    let tui = TuiConfig::builtin();
    assert_eq!(tui.sidebar.title, "Tasks");
    assert_eq!(tui.sidebar.width, 30);
    assert!(tui.tips.show);
    assert!(tui.zoom_tip);
}

#[test]
fn looks_are_merged() {
    let mut tui = TuiConfig::builtin();
    assert!(tui.merge(&fields("{}")).is_ok());
    tui.merge(&fields(
        "tui: {sidebar: {width: 12}, tips: {show: false}, zoom_tip: false}",
    ))
    .unwrap();
    assert_eq!(tui.sidebar.title, "Tasks");
    assert_eq!(tui.sidebar.width, 12);
    assert!(!tui.tips.show);
    assert!(!tui.zoom_tip);
}

#[test]
fn wrong_looks() {
    let fault = |yaml: &str| TuiConfig::builtin().merge(&fields(yaml)).unwrap_err();
    assert_eq!(fault("tui: 1"), ConfigError::NotAnObject);
    assert_eq!(fault("tui: {x: 1}"), ConfigError::UnknownKey("x".into()));
    assert_eq!(fault("tui: {sidebar: 1}"), ConfigError::NotAnObject);
    assert_eq!(fault("tui: {sidebar: {y: 1}}"), ConfigError::UnknownKey("y".into()));
    assert_eq!(fault("tui: {sidebar: {width: -1}}"), ConfigError::WrongType("width".into()));
    assert_eq!(fault("tui: {sidebar: {title: 1}}"), ConfigError::WrongType("title".into()));
    assert_eq!(fault("tui: {tips: {show: 1}}"), ConfigError::WrongType("show".into()));
    assert_eq!(fault("tui: {zoom_tip: 1}"), ConfigError::WrongType("zoom_tip".into()));
    let mut tui = TuiConfig::builtin();
    assert!(tui.merge(&fields("tui: {sidebar: {title: X, width: []}}")).is_err());
    assert_eq!(tui.sidebar.title, "X");
    assert_eq!(tui.sidebar.width, 30);
}

fn sections(log: u8, defaults: u8) -> Sections<u8, u8, u8> {
    Sections { log: Ok(log), defaults: Ok(defaults), keymap: Ok(7), tasks: vec![Ok(1), Ok(2)] }
}

fn default_config() -> Config<u8, u8, u8> {
    Config::make_default(0, 0, 0)
}

#[test]
fn global_documents() {
    let config = default_config()
        .load_global(
            "/etc/dekit.yaml",
            &parse("{log: {}, defaults: {}, on_init: {command: quit}}"),
            sections(1, 2),
        )
        .unwrap();
    assert_eq!((config.log, config.defaults, config.keymap), (1, 2, 7));
    assert!(config.tasks.is_empty());
    assert!(config.on_init.is_some());
    assert!(config.on_idle.is_none());
    let without = default_config().load_global("p", &parse("{}"), sections(1, 2)).unwrap();
    assert_eq!(without.defaults, 0);
}

#[test]
fn global_faults() {
    let fault = |yaml: &str| {
        default_config()
            .load_global("/etc/dekit.yaml", &parse(yaml), sections(1, 2))
            .unwrap_err()
    };
    assert_eq!(
        fault("{tasks: {}}"),
        ConfigError::NotAllowed(
            "'tasks' is not allowed in the global config (/etc/dekit.yaml); define tasks in the \
             workspace dekit.yaml"
                .into()
        )
    );
    assert_eq!(fault("{unknown: 1}"), ConfigError::UnknownKey("unknown".into()));
    assert_eq!(fault("1"), ConfigError::NotAnObject);
    assert_eq!(fault("{defaults: 1}"), ConfigError::NotAnObject);
    assert_eq!(fault("{on_idle: 1}"), ConfigError::Invalid("not a command".into()));
    let bad = Sections { log: Err(ConfigError::Invalid("log".into())), ..sections(1, 2) };
    assert_eq!(
        default_config().load_global("p", &parse("{tui: 1}"), bad).unwrap_err(),
        ConfigError::Invalid("log".into())
    );
    let bad = Sections { keymap: Err(ConfigError::Invalid("keys".into())), ..sections(1, 2) };
    assert_eq!(
        default_config().load_global("p", &parse("{on_init: 1}"), bad).unwrap_err(),
        ConfigError::Invalid("keys".into())
    );
}

#[test]
fn project_documents_bring_the_tasks() {
    let config = default_config().load_local(&parse("{tasks: {}}"), sections(1, 2)).unwrap();
    assert_eq!(config.tasks, vec![1, 2]);
    let without = default_config().load_local(&parse("{}"), sections(1, 2)).unwrap();
    assert!(without.tasks.is_empty());
    let fault = |yaml: &str, s| default_config().load_local(&parse(yaml), s).unwrap_err();
    assert_eq!(fault("{tasks: 1}", sections(1, 2)), ConfigError::NotAnObject);
    let bad = Sections {
        tasks: vec![Ok(1), Err(ConfigError::Invalid("task".into())), Err(ConfigError::NotAnObject)],
        ..sections(1, 2)
    };
    assert_eq!(fault("{tasks: {}}", bad), ConfigError::Invalid("task".into()));
    assert_eq!(fault("{x: {}}", sections(1, 2)), ConfigError::UnknownKey("x".into()));
    assert_eq!(fault("[]", sections(1, 2)), ConfigError::NotAnObject);
}

#[test]
fn tables_keep_their_order() {
    let keys = |table: &KeyTable| {
        (0..table.len())
            .map(|i| {
                let (key, action) = table.at(i).unwrap();
                (key, action.duplicate())
            })
            .collect::<Vec<_>>()
    };
    let mut table = KeyTable::new();
    table.insert(press('a'), Action::Quit);
    table.insert(press('b'), Action::NextTask);
    table.insert(press('c'), Action::PrevTask);
    table.insert(press('a'), Action::ForceQuit);
    assert_eq!(
        keys(&table),
        vec![
            (press('a'), Action::ForceQuit),
            (press('b'), Action::NextTask),
            (press('c'), Action::PrevTask),
        ]
    );
    table.remove(press('b'));
    table.remove(press('z'));
    assert_eq!(
        keys(&table),
        vec![(press('a'), Action::ForceQuit), (press('c'), Action::PrevTask)]
    );
    assert!(table.at(2).is_none());
    table.clear();
    assert_eq!(table.len(), 0);
}

#[test]
fn keymaps_are_built_in_order() {
    let mut config = KeymapConfig::new();
    config.group_mut(KeymapGroup::Tasks).insert(press('a'), Action::Quit);
    config.group_mut(KeymapGroup::Tasks).insert(press('b'), Action::Quit);
    config.group_mut(KeymapGroup::Copy).insert(press('a'), Action::CopyModeLeave);
    assert_eq!(config.group(KeymapGroup::Tasks).len(), 2);
    let keymap = config.build();
    assert_eq!(keymap.action(KeymapGroup::Tasks, &press('a')), Some(&Action::Quit));
    assert_eq!(keymap.key(KeymapGroup::Tasks, &Action::Quit), Some(&press('b')));
    assert_eq!(keymap.action(KeymapGroup::Copy, &press('a')), Some(&Action::CopyModeLeave));
    assert_eq!(keymap.action(KeymapGroup::Term, &press('a')), None);
}

fn bind(c: char, action: Action) -> KeyReading {
    KeyReading { key: Ok(press(c)), action: Ok(action) }
}

fn readings() -> Readings {
    Readings {
        keymap_procs: vec![],
        keymap_term: vec![],
        keymap_copy: vec![],
        on_all_finished: Err("missing".into()),
        proc_log: Err("missing".into()),
    }
}

#[test]
fn default_settings() {
    let mut keymap = KeymapConfig::new();
    keymap.group_mut(KeymapGroup::Tasks).insert(press('q'), Action::QuitOrAsk);
    keymap.group_mut(KeymapGroup::Tasks).insert(press('?'), Action::ToggleKeymapWindow);
    let s = Settings::default(keymap);
    let built = s.keymap.build();
    assert_eq!(built.action(KeymapGroup::Tasks, &press('q')), Some(&Action::QuitOrAsk));
    assert_eq!(
        built.action(KeymapGroup::Tasks, &press('?')),
        Some(&Action::ToggleKeymapWindow)
    );
    assert!(!s.hide_keymap_window);
    assert_eq!(s.mouse_scroll_speed, 5);
    assert_eq!(s.scrollback_len, 1000);
    assert_eq!(s.proc_list_width, 30);
    assert_eq!(s.proc_list_title, "Processes");
    assert!(s.on_all_finished.is_none());
    assert!(s.proc_log.is_none());
}

#[test]
fn settings_are_merged() {
    let mut s = Settings::default(KeymapConfig::new());
    let doc = parse(
        "{keymap_procs: {reset: true, a: x}, keymap_term: {b: x, reset: false, q: null}, \
         hide_keymap_window: true, \
         mouse_scroll_speed: 9, scrollback: 50, proc_list_title: P, proc_list_width: 3, \
         on_all_finished: x, proc_log: y}",
    );
    s.keymap.group_mut(KeymapGroup::Tasks).insert(press('q'), Action::Quit);
    s.keymap.group_mut(KeymapGroup::Term).insert(press('q'), Action::Quit);
    let read = Readings {
        keymap_procs: vec![bind('a', Action::NextTask)],
        keymap_term: vec![
            bind('b', Action::Zoom),
            KeyReading { key: Ok(press('q')), action: Err("no event".into()) },
        ],
        on_all_finished: Ok(Action::Quit),
        proc_log: Ok(Some(LogConfig { path: "logs".into() })),
        ..readings()
    };
    s.merge_value(&doc, read).unwrap();
    let keymap = s.keymap.build();
    assert_eq!(keymap.action(KeymapGroup::Tasks, &press('a')), Some(&Action::NextTask));
    assert_eq!(keymap.action(KeymapGroup::Tasks, &press('q')), None);
    assert_eq!(keymap.action(KeymapGroup::Term, &press('b')), Some(&Action::Zoom));
    assert_eq!(keymap.action(KeymapGroup::Term, &press('q')), None);
    assert!(s.hide_keymap_window);
    assert_eq!(s.mouse_scroll_speed, 9);
    assert_eq!(s.scrollback_len, 50);
    assert_eq!(s.proc_list_title, "P");
    assert_eq!(s.proc_list_width, 3);
    assert_eq!(s.on_all_finished, Some(Action::Quit));
    assert_eq!(s.proc_log, Some(LogConfig { path: "logs".into() }));
}

#[test]
fn settings_stop_at_the_first_fault() {
    let fault = |yaml: &str, read: Readings| {
        let mut s = Settings::default(KeymapConfig::new());
        let err = s.merge_value(&parse(yaml), read).unwrap_err();
        (err, s)
    };
    assert_eq!(fault("1", readings()).0, ConfigError::NotAnObject);
    assert_eq!(fault("{keymap_copy: 1}", readings()).0, ConfigError::NotAnObject);
    assert_eq!(
        fault("{keymap_procs: {reset: 1}}", readings()).0,
        ConfigError::WrongType("reset".into())
    );
    let (err, s) = fault("{scrollback: 7, proc_list_title: 1, proc_list_width: 2}", readings());
    assert_eq!(err, ConfigError::WrongType("proc_list_title".into()));
    assert_eq!(s.scrollback_len, 7);
    assert_eq!(s.proc_list_width, 30);
    for key in ["hide_keymap_window", "mouse_scroll_speed", "scrollback", "proc_list_width"] {
        assert_eq!(
            fault(&format!("{key}: x"), readings()).0,
            ConfigError::WrongType(key.into())
        );
    }
    assert_eq!(
        fault("{on_all_finished: x}", readings()).0,
        ConfigError::Invalid("missing".into())
    );
    assert_eq!(fault("{proc_log: x}", readings()).0, ConfigError::Invalid("missing".into()));
    let read = Readings {
        keymap_procs: vec![
            bind('a', Action::Quit),
            KeyReading { key: Err("bad key".into()), action: Ok(Action::Quit) },
            bind('b', Action::Quit),
        ],
        ..readings()
    };
    let (err, s) = fault("{keymap_procs: {a: x, b: null, c: x}}", read);
    assert_eq!(err, ConfigError::Invalid("bad key".into()));
    assert_eq!(s.keymap.group(KeymapGroup::Tasks).len(), 1);
    let read = Readings {
        keymap_term: vec![KeyReading {
            key: Ok(press('a')),
            action: Err("bad event".into()),
        }],
        ..readings()
    };
    assert_eq!(
        fault("{keymap_term: {a: x}}", read).0,
        ConfigError::Invalid("bad event".into())
    );
    assert_eq!(
        fault("{keymap_copy: {a: x}}", readings()).0,
        ConfigError::Invalid("unread key".into())
    );
    let mut fraction = Settings::default(KeymapConfig::new());
    let doc = Node::Obj(vec![("proc_list_title".into(), Node::Other)]);
    assert_eq!(
        fraction.merge_value(&doc, readings()).unwrap_err(),
        ConfigError::WrongType("proc_list_title".into())
    );
    let mut untouched = Settings::default(KeymapConfig::new());
    assert!(untouched.merge_value(&parse("{}"), readings()).is_ok());
    assert_eq!(untouched.proc_list_title, "Processes");
}

fn document(yaml: &str, a: u8, b: u8) -> Document<u8, u8, u8> {
    Document { root: Ok(parse(yaml)), sections: sections(a, b) }
}

#[test]
fn directories_without_documents_have_the_default() {
    let config = Config::load_dir(3u8, 4u8, 5u8, None, None).unwrap();
    assert_eq!((config.log, config.defaults, config.keymap), (3, 4, 5));
    assert!(config.tasks.is_empty());
}

#[test]
fn projects_come_after_the_global_document() {
    let global = document("{defaults: {}, on_init: {command: quit}}", 1, 2);
    let local = document("{tasks: {}}", 8, 9);
    let config =
        Config::load_dir(0u8, 0u8, 0u8, Some(("g".into(), global)), Some(local)).unwrap();
    assert_eq!((config.log, config.defaults), (8, 2));
    assert_eq!(config.tasks, vec![1, 2]);
    assert!(config.on_init.is_some());
}

#[test]
fn global_faults_come_first() {
    let load = |global: &str, local: &str| {
        Config::load_dir(
            0u8,
            0u8,
            0u8,
            Some(("g".into(), document(global, 1, 2))),
            Some(document(local, 1, 2)),
        )
        .unwrap_err()
    };
    assert_eq!(load("{a: 1}", "{b: 1}"), ConfigError::UnknownKey("a".into()));
    assert_eq!(load("{}", "{b: 1}"), ConfigError::UnknownKey("b".into()));
    let unread: Document<u8, u8, u8> =
        Document { root: Err(ConfigError::Invalid("unread".into())), sections: sections(1, 2) };
    assert_eq!(
        Config::load_dir(0, 0, 0, None, Some(unread)).unwrap_err(),
        ConfigError::Invalid("unread".into())
    );
}

#[test]
fn failed_loads_leave_the_default() {
    let loaded = default_config().load_local(&parse("{}"), sections(1, 2));
    let (config, err) = or_default(loaded, 7, 8, 9);
    assert_eq!((config.log, config.defaults, config.keymap, err), (1, 0, 7, None));
    let (config, err) = or_default(Err(ConfigError::NotAnObject), 7, 8, 9);
    assert_eq!((config.log, config.defaults, config.keymap), (7, 8, 9));
    assert!(config.tasks.is_empty() && config.on_init.is_none());
    assert_eq!(err, Some(ConfigError::NotAnObject));
}

#[test]
fn runners_start_by_their_configuration() {
    let mut config = default_config();
    let boot = Boot::of(&config);
    assert_eq!((boot.idle_hook, boot.init_hook), (false, InitHook::Missing));
    config.on_idle = Some(Hook::Command(Command::Quit));
    config.on_init = Some(Hook::LegacyAction(Action::Quit));
    let boot = Boot::of(&config);
    assert_eq!((boot.idle_hook, boot.init_hook), (true, InitHook::Other));
}

#[test]
fn documents_are_read_from_bytes() {
    let read = |yaml: &str| read_document(yaml.as_bytes());
    match read("a: [1, -2, x, true, null, 1.5, !tag y]\n3: {}\ntrue: z").unwrap() {
        Node::Obj(fields) => {
            let keys: Vec<&str> = fields.iter().map(|(key, _)| key.as_str()).collect();
            assert_eq!(keys, vec!["a", "3", "true"]);
            match &fields[0].1 {
                Node::List(items) => {
                    assert!(matches!(items[0], Node::Int(1)));
                    assert!(matches!(items[1], Node::Int(-2)));
                    assert!(matches!(&items[2], Node::Text(s) if s == "x"));
                    assert!(matches!(items[3], Node::Bool(true)));
                    assert!(matches!(items[4], Node::Null));
                    assert!(matches!(items[5], Node::Other));
                    assert!(matches!(items[6], Node::Other));
                }
                other => panic!("{other:?}"),
            }
            assert!(matches!(&fields[1].1, Node::Obj(inner) if inner.is_empty()));
        }
        other => panic!("{other:?}"),
    }
    assert!(matches!(read("18446744073709551615").unwrap(), Node::Int(18446744073709551615)));
    let message = serde_yaml::from_str::<serde_yaml::Value>("a: [").unwrap_err().to_string();
    assert_eq!(read("a: [").unwrap_err(), ConfigError::Invalid(message));
    assert!(read("{a: 1, a: 2}").is_err());
    assert!(Command::from_node(&read("!t {command: quit}").unwrap()).is_err());
}

#[test]
fn settings_of_the_user() {
    let mut s = Settings::default(KeymapConfig::new());
    s.merge_from_xdg(None, readings()).unwrap();
    assert_eq!(s.scrollback_len, 1000);
    s.merge_from_xdg(Some(b"scrollback: 7\nproc_list_title: T"), readings()).unwrap();
    assert_eq!((s.scrollback_len, s.proc_list_title.as_str()), (7, "T"));
    let message = serde_yaml::from_str::<serde_yaml::Value>("[").unwrap_err().to_string();
    assert_eq!(
        s.merge_from_xdg(Some(b"["), readings()).unwrap_err(),
        ConfigError::Invalid(message)
    );
    assert_eq!(
        s.merge_from_xdg(Some(b"scrollback: 8\nproc_list_title: 1"), readings()).unwrap_err(),
        ConfigError::WrongType("proc_list_title".into())
    );
    assert_eq!(s.scrollback_len, 8);
}
