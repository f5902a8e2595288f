use dekit::config::node::{ConfigError, Node};
use dekit::kernel::kernel_message::{SpaceSelector, TaskSelector};
use dekit::kernel::task::TaskId;
use dekit::kernel::task_key::{TaskKey, TaskSpaceId};
use dekit::kernel::task_path::TaskPath;
use dekit::target::{parse_runner, Runner, Target};

fn parse(s: &str) -> Target {
    s.parse().unwrap_or_else(|err| panic!("{s}: {err:?}"))
}

fn to_json(node: &Node) -> serde_json::Value {
    match node {
        Node::Null | Node::Other => serde_json::Value::Null,
        Node::Bool(b) => serde_json::Value::Bool(*b),
        Node::Int(n) => serde_json::Value::from(*n as i64),
        Node::Text(s) => serde_json::Value::String(s.clone()),
        Node::List(v) => serde_json::Value::Array(v.iter().map(to_json).collect()),
        Node::Obj(fields) => {
            let mut map = serde_json::Map::new();
            for (key, value) in fields {
                map.insert(key.clone(), to_json(value));
            }
            serde_json::Value::Object(map)
        }
    }
}

fn from_json(value: &serde_json::Value) -> Node {
    match value {
        serde_json::Value::Null => Node::Null,
        serde_json::Value::Bool(b) => Node::Bool(*b),
        serde_json::Value::Number(n) => Node::Int(n.as_i64().unwrap() as i128),
        serde_json::Value::String(s) => Node::Text(s.clone()),
        serde_json::Value::Array(v) => Node::List(v.iter().map(from_json).collect()),
        serde_json::Value::Object(map) => {
            Node::Obj(map.iter().map(|(k, v)| (k.clone(), from_json(v))).collect())
        }
    }
}

fn read(json: &str) -> Result<Target, dekit::config::node::ConfigError> {
    Target::from_node(&from_json(&serde_json::from_str(json).unwrap()))
}

#[test]
fn parses_examples_from_targets_md() {
    for s in [
        "tmp/proc1",
        "+dev",
        "host::emacs-server",
        "project::@dekit/console",
        "prod::+ci",
        "~/dev/proj::web/*",
        "cloud://pvolok/proj::tmp/proc1",
        "ssh://ubuntu@host/~/dev/proj::@dekit/console",
        "@*/app",
        "**",
    ] {
        assert_eq!(parse(s).to_string(), s);
    }
}

#[test]
fn splits_runner_at_last_separator() {
    let target = parse("ssh://[::1]:2222/~/x::web");
    assert_eq!(target.runner(), Some(&Runner::Url("ssh://[::1]:2222/~/x".to_string())));
}

#[test]
fn runner_kinds() {
    assert_eq!(parse("host::a").runner(), Some(&Runner::Name("host".into())));
    assert_eq!(parse("/p::a").runner(), Some(&Runner::Path("/p".into())));
    assert_eq!(parse("./p::a").runner(), Some(&Runner::Path("./p".into())));
    assert_eq!(
        parse("cloud://o/p::a").runner(),
        Some(&Runner::Url("cloud://o/p".into()))
    );
}

#[test]
fn reserved_syntax_is_an_error() {
    for s in [
        "*::web",
        "proj#main::web",
        "#main::web",
        "git+https://h/o/r::@fs/x",
        "::web",
        "@dekit",
        "@dekit/",
        "+",
        "+bad tag",
        "web*",
        "a b",
    ] {
        assert!(s.parse::<Target>().is_err(), "{s} should not parse");
    }
}

#[test]
fn selector_and_key() {
    assert!(matches!(
        parse("@dekit/+ui").selector(),
        Ok(TaskSelector::Tag(SpaceSelector::One(space), tag))
            if space == TaskSpaceId::dekit() && tag == "ui"
    ));
    assert!(matches!(
        parse("@*/app").selector(),
        Ok(TaskSelector::Glob(SpaceSelector::Any, pattern)) if pattern == "app"
    ));
    assert!(parse("host::a").selector().is_err());
    assert_eq!(
        parse("@dekit/console").key().unwrap(),
        TaskKey::new(TaskSpaceId::dekit(), TaskPath::new("console").unwrap())
    );
    assert!(parse("web/*").key().is_err());
    assert!(parse("+dev").key().is_err());
    assert!(parse("@*/app").key().is_err());
}

#[test]
fn serde_forms() {
    let select = parse("prod::@dekit/+ui");
    assert_eq!(
        serde_json::to_string(&to_json(&select.to_node())).unwrap(),
        r#""prod::@dekit/+ui""#
    );
    assert_eq!(read(r#""prod::@dekit/+ui""#).unwrap(), select);
    assert_eq!(
        serde_json::to_string(&to_json(&Target::Id(TaskId(7)).to_node())).unwrap(),
        r#"{"id":7}"#
    );
    assert_eq!(read(r#"{"id":7}"#).unwrap(), Target::Id(TaskId(7)));
    assert!(read(r#""*::web""#).is_err());
}

#[test]
fn wrong_shapes_are_no_targets() {
    assert!(read("7").is_err());
    assert_eq!(
        read(r#""::web""#).unwrap_err(),
        ConfigError::Invalid("invalid target: runner is empty".into())
    );
    assert!(read(r#"{"id":-1}"#).is_err());
    assert!(read(r#"{"all":"x"}"#).is_err());
    assert!(read("null").is_err());
    assert!(read("[]").is_err());
}

#[test]
fn runner_is_resolved_by_the_client() {
    let err = parse("host::a").selector().unwrap_err();
    assert_eq!(err.0, "runner qualifiers are resolved by the client");
    let local = parse("host::@dekit/+ui").without_runner();
    assert!(local.runner().is_none());
    assert_eq!(local.to_string(), "@dekit/+ui");
    assert_eq!(parse("+dev").key().unwrap_err().0, "expected a single task path");
}

#[test]
fn ids_are_written_in_braces() {
    assert_eq!(Target::Id(TaskId(42)).to_string(), "{42}");
}

#[test]
fn runners_by_themselves() {
    assert_eq!(parse_runner("host").unwrap(), Runner::Name("host".into()));
    assert_eq!(parse_runner("~/x").unwrap(), Runner::Path("~/x".into()));
    assert!(parse_runner("").is_err());
    assert!(parse_runner("*").is_err());
}

#[test]
fn globs_and_tags_of_the_default_space() {
    assert_eq!(Target::glob("**").to_string(), "**");
    assert_eq!(Target::tag("dev").to_string(), "+dev");
}
