use std::collections::HashSet;

use dekit::kernel::kernel_message::{SpaceSelector, TaskSelector};
use dekit::kernel::namespace::{Namespace, SubMode};
use dekit::kernel::task::{ExitInfo, TaskId, TaskState};
use dekit::kernel::task_key::{TaskKey, TaskSpaceId};
use dekit::kernel::task_path::TaskPath;

fn key(path: &str) -> TaskKey {
    TaskKey::default_space(TaskPath::new(path).unwrap())
}

#[test]
fn subscriptions_are_space_local() {
    let mut ns = Namespace::new();
    let subscriber = TaskId(1);
    ns.subscribe(subscriber, &TaskKey::default_space(TaskPath::root()), SubMode::Subtree);

    let mut default_targets = HashSet::new();
    ns.collect(
        &TaskKey::default_space(TaskPath::new("app").unwrap()),
        &mut default_targets,
    );
    assert_eq!(default_targets, HashSet::from([subscriber.0]));

    let mut dekit_targets = HashSet::new();
    ns.collect(
        &TaskKey::new(TaskSpaceId::dekit(), TaskPath::new("console").unwrap()),
        &mut dekit_targets,
    );
    assert!(dekit_targets.is_empty());
}

#[test]
fn display_key() {
    let path = TaskPath::new("console").unwrap();
    assert_eq!(TaskKey::default_space(path.clone()).to_string(), "console");
    assert_eq!(TaskKey::new(TaskSpaceId::dekit(), path).to_string(), "@dekit/console");
}

#[test]
fn validate_space() {
    assert!(TaskSpaceId::new("worktree-a").is_ok());
    assert!(TaskSpaceId::new("").is_err());
    assert!(TaskSpaceId::new("bad/name").is_err());
    assert!(TaskSpaceId::new("*").is_err());
}

#[test]
fn names_are_unique_and_can_be_taken_back() {
    let mut ns = Namespace::new();
    assert!(ns.insert(&key("a/b"), TaskId(1)).is_ok());
    let err = ns.insert(&key("a/b"), TaskId(2)).unwrap_err();
    assert_eq!(err.path.to_string(), "a/b");
    assert_eq!(ns.remove(&key("a/b")), Some(TaskId(1)));
    assert_eq!(ns.remove(&key("a/b")), None);
    assert!(ns.insert(&key("a/b"), TaskId(2)).is_ok());
}

#[test]
fn globs_find_names() {
    let mut ns = Namespace::new();
    for (path, id) in [("web/api", 1), ("web/db", 2), ("tool", 3)] {
        ns.insert(&key(path), TaskId(id)).unwrap();
    }
    ns.insert(
        &TaskKey::new(TaskSpaceId::dekit(), TaskPath::new("web/x").unwrap()),
        TaskId(4),
    )
    .unwrap();
    let default = SpaceSelector::One(TaskSpaceId::default_space());
    let find = |space: &SpaceSelector, glob: &str| {
        let mut ids: Vec<usize> = ns.glob(space, glob).into_iter().map(|id| id.0).collect();
        ids.sort();
        ids
    };
    assert_eq!(find(&default, "web/*"), vec![1, 2]);
    assert_eq!(find(&default, "**"), vec![1, 2, 3]);
    assert_eq!(find(&default, "tool"), vec![3]);
    assert_eq!(find(&SpaceSelector::Any, "web/*"), vec![1, 2, 4]);
    assert_eq!(find(&default, "nope"), Vec::<usize>::new());

    let mut below: Vec<(String, usize)> = ns
        .in_scope(&key("web"), SubMode::Subtree)
        .into_iter()
        .map(|(path, id)| (path.to_string(), id.0))
        .collect();
    below.sort();
    assert_eq!(below, vec![("web/api".to_string(), 1), ("web/db".to_string(), 2)]);
    assert_eq!(ns.in_scope(&key("tool"), SubMode::Exact).len(), 1);
    assert_eq!(ns.in_scope(&key("web"), SubMode::Exact).len(), 0);
}

#[test]
fn any_space_is_the_sum_of_all() {
    let mut ns = Namespace::new();
    let spaces = ["a", "b", "c"].map(|name| TaskSpaceId::new(name).unwrap());
    for (i, space) in spaces.iter().take(2).enumerate() {
        let key = TaskKey::new(space.clone(), TaskPath::new("web").unwrap());
        ns.insert(&key, TaskId(i)).unwrap();
    }
    let find = |space: SpaceSelector| {
        let mut ids: Vec<usize> = ns.glob(&space, "web").into_iter().map(|id| id.0).collect();
        ids.sort();
        ids
    };
    let sum: Vec<usize> =
        spaces.iter().flat_map(|space| find(SpaceSelector::One(space.clone()))).collect();
    assert_eq!(find(SpaceSelector::Any), sum);
    assert_eq!(sum, vec![0, 1]);
    assert!(find(SpaceSelector::One(spaces[2].clone())).is_empty());
}

#[test]
fn subscribers_come_and_go() {
    let mut ns = Namespace::new();
    let root = TaskKey::default_space(TaskPath::root());
    let space = TaskSpaceId::default_space();
    let api = TaskPath::new("web/api").unwrap();
    ns.subscribe(TaskId(1), &root, SubMode::Subtree);
    ns.subscribe(TaskId(2), &key("web/api"), SubMode::Exact);
    assert!(ns.is_subscribed(TaskId(1), &space, &api));
    assert!(ns.is_subscribed(TaskId(2), &space, &api));
    assert!(!ns.is_subscribed(TaskId(2), &space, &TaskPath::new("web").unwrap()));
    ns.unsubscribe(TaskId(1), &root, SubMode::Subtree);
    assert!(!ns.is_subscribed(TaskId(1), &space, &api));
    ns.remove_subscriber(TaskId(2));
    assert!(!ns.is_subscribed(TaskId(2), &space, &api));
    let mut out = HashSet::new();
    ns.collect(&key("web/api"), &mut out);
    assert!(out.is_empty());
}

#[test]
fn selectors_as_text() {
    assert_eq!(TaskSelector::all().to_string(), "**");
    assert_eq!(TaskSelector::Id(TaskId(3)).to_string(), "{3}");
    assert_eq!(TaskSelector::All(TaskSpaceId::dekit()).to_string(), "@dekit/**");
}

#[test]
fn task_states() {
    let info = ExitInfo { code: Some(0), signal: None };
    for (state, active) in [
        (TaskState::Idle, false),
        (TaskState::Starting, true),
        (TaskState::Running, true),
        (TaskState::Ready, true),
        (TaskState::Stopping, true),
        (TaskState::Backoff, true),
        (TaskState::Done(info), false),
        (TaskState::Exited(info), false),
    ] {
        assert_eq!(state.is_active(), active);
    }
}

#[test]
fn spaces() {
    assert!(TaskSpaceId::default_space().is_default());
    assert!(TaskSpaceId::dekit().is_reserved());
    assert!(!TaskSpaceId::new("x").unwrap().is_reserved());
    assert_eq!(TaskSpaceId::new("").unwrap_err(), "space name is empty");
    assert_eq!(
        TaskSpaceId::new("*").unwrap_err(),
        "space name contains an invalid character"
    );
}

#[test]
fn paths() {
    assert!(TaskPath::new("a//b").is_err());
    assert!(TaskPath::new("").is_err());
    assert!(TaskPath::new("a*").is_err());
    let path = TaskPath::new("web/api").unwrap();
    assert_eq!(path.name(), "api");
    assert!(path.matches("web/*"));
    assert!(path.matches("**"));
    assert!(!path.matches("*"));
    assert!(path.is_under(&TaskPath::root()));
    assert!(path.is_under(&TaskPath::new("web").unwrap()));
    assert!(!path.is_under(&TaskPath::new("we").unwrap()));
}
