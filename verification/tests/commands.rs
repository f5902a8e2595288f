use dekit::command::{
    conclude, execute, issue, request, Command, CommandError, CommandResult, RegisterError, Target,
};
use dekit::config::hook::{hook_from_cfg, watch_idle, Hook, HookRun, Watch};
use dekit::config::node::{ConfigError, Node};
use dekit::config::yaml::read_document;
use dekit::console::action::Action;
use dekit::kernel::kernel_message::{KernelCommand, SpaceSelector, TaskSelector, Verb};
use dekit::kernel::task::TaskId;
use dekit::kernel::task_key::{TaskKey, TaskSpaceId};
use dekit::kernel::task_path::TaskPath;

fn json_of(node: &Node) -> serde_json::Value {
    match node {
        Node::Null | Node::Other => serde_json::Value::Null,
        Node::Bool(b) => serde_json::Value::Bool(*b),
        Node::Int(n) => serde_json::Value::from(*n as i64),
        Node::Text(s) => serde_json::Value::String(s.clone()),
        Node::List(v) => serde_json::Value::Array(v.iter().map(json_of).collect()),
        Node::Obj(fields) => {
            let mut map = serde_json::Map::new();
            for (key, value) in fields {
                map.insert(key.clone(), json_of(value));
            }
            serde_json::Value::Object(map)
        }
    }
}

fn yaml_of(node: &Node) -> serde_yaml::Value {
    match node {
        Node::Null | Node::Other => serde_yaml::Value::Null,
        Node::Bool(b) => serde_yaml::Value::Bool(*b),
        Node::Int(n) => serde_yaml::Value::from(*n as i64),
        Node::Text(s) => serde_yaml::Value::String(s.clone()),
        Node::List(v) => serde_yaml::Value::Sequence(v.iter().map(yaml_of).collect()),
        Node::Obj(fields) => {
            let mut map = serde_yaml::Mapping::new();
            for (key, value) in fields {
                map.insert(serde_yaml::Value::String(key.clone()), yaml_of(value));
            }
            serde_yaml::Value::Mapping(map)
        }
    }
}

fn parse(yaml: &str) -> Node {
    read_document(yaml.as_bytes()).unwrap()
}

#[test]
fn serde_round_trip() {
    let command = Command::Batch {
        commands: vec![
            Command::Start { target: Target::Selector("+dev".to_string()) },
            Command::Stop { target: Target::id(TaskId(7)) },
        ],
    };
    let yaml = serde_yaml::to_string(&yaml_of(&command.to_node())).unwrap();
    assert_eq!(Command::from_node(&parse(&yaml)).unwrap(), command);
}

#[test]
fn stable_json_shape() {
    assert_eq!(
        serde_json::to_string(&json_of(
            &Command::Start { target: Target::Selector("+dev".to_string()) }.to_node()
        ))
        .unwrap(),
        r#"{"command":"start","target":"+dev"}"#
    );
    assert_eq!(
        serde_json::to_string(&json_of(
            &Command::ForceRestart { target: Target::id(TaskId(7)) }.to_node()
        ))
        .unwrap(),
        r#"{"command":"force-restart","target":{"id":7}}"#
    );
}

#[test]
fn parses_space_and_tag() {
    assert!(matches!(
        Target::Selector("@dekit/+ui".to_string()).selector(),
        Ok(TaskSelector::Tag(SpaceSelector::One(space), tag))
            if space == TaskSpaceId::dekit() && tag == "ui"
    ));
}

#[test]
fn every_command_has_its_word() {
    let all = Target::All { all: TaskSpaceId::dekit() };
    assert_eq!(
        serde_json::to_string(&json_of(&Command::Kill { target: all }.to_node())).unwrap(),
        r#"{"command":"kill","target":{"all":"dekit"}}"#
    );
    for (word, verb) in [
        ("start", Verb::Start),
        ("stop", Verb::Stop),
        ("down", Verb::Down),
        ("kill", Verb::Kill),
        ("veto", Verb::Veto),
        ("restart", Verb::Restart),
        ("force-restart", Verb::ForceRestart),
    ] {
        let command =
            Command::from_node(&parse(&format!("command: {word}\ntarget: {{id: 3}}"))).unwrap();
        let (sent, outcome) = issue(&command);
        assert!(outcome.is_ok());
        assert_eq!(
            sent,
            vec![KernelCommand::Act { verb, selector: TaskSelector::Id(TaskId(3)), ack: false }]
        );
    }
    assert_eq!(Command::from_node(&parse("command: quit")).unwrap(), Command::Quit);
}

#[test]
fn documents_that_are_no_commands() {
    for yaml in [
        "7",
        "{}",
        "command: fly",
        "command: start",
        "command: batch",
        "{command: batch, commands: [{command: fly}]}",
        "{command: stop, target: [1]}",
    ] {
        assert_eq!(
            Command::from_node(&parse(yaml)).unwrap_err(),
            ConfigError::Invalid("not a command".to_string()),
            "{yaml}"
        );
    }
    assert!(Target::from_node(&parse("{id: -1}")).is_err());
    assert_eq!(
        Target::from_node(&parse("{all: x}")).unwrap(),
        Target::All { all: TaskSpaceId::of_text("x") }
    );
}

#[test]
fn selector_faults() {
    let fault = |s: &str| match Target::Selector(s.to_string()).selector() {
        Err(CommandError::InvalidTarget(message)) => message,
        other => panic!("{other:?}"),
    };
    assert_eq!(fault("@dekit"), "qualified target must contain '/'");
    assert_eq!(fault("+"), "tag is empty");
    assert_eq!(fault("@/x"), "space name is empty");
    assert_eq!(fault("@a b/x"), "space name contains an invalid character");
    assert!(Target::Selector("a b".to_string()).selector().is_err());
}

#[test]
fn a_batch_stops_at_a_bad_target() {
    let command = Command::Batch {
        commands: vec![
            Command::Start { target: Target::id(TaskId(1)) },
            Command::Stop { target: Target::Selector("+".to_string()) },
            Command::Quit,
        ],
    };
    let (sent, outcome) = request(&command);
    assert_eq!(
        sent,
        vec![KernelCommand::Act {
            verb: Verb::Start,
            selector: TaskSelector::Id(TaskId(1)),
            ack: true
        }]
    );
    assert_eq!(outcome, Err(CommandError::InvalidTarget("tag is empty".to_string())));
}

#[test]
fn outcomes_of_commands() {
    let start = Command::Start { target: Target::Selector("api".to_string()) };
    assert_eq!(conclude(&start, Some(vec![1])), Ok(CommandResult::Matched(1)));
    assert_eq!(conclude(&start, None), Err(CommandError::KernelClosed));
    assert_eq!(conclude(&Command::Quit, Some(vec![])), Ok(CommandResult::Nothing));
    let batch = Command::Batch { commands: vec![] };
    assert_eq!(conclude(&batch, Some(vec![3])), Ok(CommandResult::Nothing));
}

#[test]
fn messages_of_errors() {
    let key = || TaskKey::default_space(TaskPath::new("api").unwrap());
    assert_eq!(CommandError::KernelClosed.to_string(), "kernel closed the reply channel");
    assert_eq!(CommandError::InvalidCommand("x".into()).to_string(), "x");
    for (err, text) in [
        (RegisterError::MissingDep(key()), "no such dependency: api"),
        (RegisterError::PathTaken(key()), "path is taken: api"),
        (RegisterError::ReservedSpace(TaskSpaceId::dekit()), "space is reserved: dekit"),
        (RegisterError::IdTaken, "task id is taken"),
    ] {
        assert_eq!(CommandError::Register(err).to_string(), text);
    }
}

#[test]
fn hooks_are_commands() {
    let doc = match parse("on_init: {command: start, target: +dev}\non_idle: 7") {
        Node::Obj(fields) => fields,
        _ => unreachable!(),
    };
    let hook = hook_from_cfg(&doc, "on_init").unwrap().unwrap();
    match hook.run() {
        HookRun::Kernel(sent) => assert_eq!(
            sent,
            vec![KernelCommand::Act {
                verb: Verb::Start,
                selector: TaskSelector::Tag(
                    SpaceSelector::One(TaskSpaceId::default_space()),
                    "dev".to_string()
                ),
                ack: false
            }]
        ),
        other => panic!("{other:?}"),
    }
    assert!(hook_from_cfg(&doc, "on_idle").is_err());
    assert!(hook_from_cfg(&doc, "missing").unwrap().is_none());
    match Hook::LegacyAction(Action::Quit).run() {
        HookRun::Console(action) => assert_eq!(action, Action::Quit),
        other => panic!("{other:?}"),
    }
}

#[test]
fn idle_hooks_run_when_tasks_fall_idle() {
    assert_eq!(watch_idle(Some(false)), Watch::Run);
    assert_eq!(watch_idle(Some(true)), Watch::Wait);
    assert_eq!(watch_idle(None), Watch::End);
}

#[test]
fn faults_come_before_answers() {
    let start = Command::Start { target: Target::Selector("api".into()) };
    let fault = || CommandError::InvalidTarget("x".into());
    assert_eq!(execute(&start, Err(fault()), Some(vec![1])), Err(fault()));
    assert_eq!(execute(&start, Ok(()), Some(vec![2])), Ok(CommandResult::Matched(2)));
    assert_eq!(execute(&start, Ok(()), None), Err(CommandError::KernelClosed));
}

#[test]
fn clones_say_the_same() {
    let command = Command::Batch {
        commands: vec![
            Command::Quit,
            Command::Batch { commands: vec![Command::Kill { target: Target::Id { id: TaskId(3) } }] },
        ],
    };
    assert_eq!(command.clone(), command);
}

#[test]
fn lists_name_commands_too() {
    let read = |yaml: &str| Command::from_node(&parse(yaml));
    let start = || Command::Start { target: Target::Selector("api".into()) };
    assert_eq!(read("[quit]").unwrap(), Command::Quit);
    assert_eq!(read("[start, api]").unwrap(), start());
    assert_eq!(
        read("[batch, [[quit], {command: start, target: api}]]").unwrap(),
        Command::Batch { commands: vec![Command::Quit, start()] }
    );
    assert_eq!(
        read("{command: batch, commands: [[1], [2, api], {command: 1}]}").unwrap(),
        Command::Batch { commands: vec![Command::Quit, start(), Command::Quit] }
    );
    for yaml in
        ["[]", "[quit, 1]", "[start]", "[start, api, 1]", "[1]", "{command: 1}", "[batch, 1]"]
    {
        assert_eq!(read(yaml).unwrap_err(), ConfigError::Invalid("not a command".into()));
    }
    assert!(read("[batch, [[9]]]").is_err());
}
