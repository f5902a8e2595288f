use dekit::attach_client::{
    attach_request, client_loop, client_main, AttachEnd, LocalAction, LocalEvent, LoopEnd,
};
use dekit::command::{Command, CommandError, RegisterError, Target as CommandTarget};
use dekit::config::hook::Hook;
use dekit::config::node::Node;
use dekit::console::action::Action;
use dekit::console::task_view::SharedVt;
use dekit::dekit::attach::{
    attach_session, screen_cmd, session, AttachAction, AttachEvent, AttachPhase, ClientMsg,
    OutPart, ScreenNotify, Session, SessionAction,
};
use dekit::dekit::boot::{Boot, BootEnd, BootStep, InitHook};
use dekit::dekit::connection::{ConnAction, ConnEvent, Connection, Phase};
use dekit::dekit::rpc_client::{rpc_request, RpcStep, RunnerMsg};
use dekit::dekit::server::{
    command_error, list_selector, one, resolve_screen, rpc_answer, rpc_query, screen_answer,
    task_state, Answer, Explain, ExplainDep, Query, QueryReply, TaskInfo,
};
use dekit::kernel::kernel_message::{KernelCommand, TaskSelector, Verb};
use dekit::kernel::task::{ExitInfo, TaskId, TaskState};
use dekit::kernel::task_key::{TaskKey, TaskSpaceId};
use dekit::kernel::task_path::TaskPath;
use dekit::kernel::task_screen::{CopyMove, ScrollUnit, TaskScreenCmd};
use dekit::protocol::codes::Code;
use dekit::protocol::screen::{self, ScreenCommand};
use dekit::protocol::{RpcError, RpcRequest, RpcResult, RpcState};
use dekit::target::Target;
use dekit::term::key::{Key, KeyCode, KeyEventKind, KeyMods};
use dekit::term::{Size, TermEvent, Winsize};

fn target(s: &str) -> Target {
    s.parse().unwrap()
}

fn info(id: usize, name: &str, vt: Option<usize>) -> TaskInfo {
    TaskInfo {
        id: TaskId(id),
        name: name.to_string(),
        label: None,
        state: TaskState::Running,
        vt: vt.map(SharedVt),
    }
}

fn from_json(value: &serde_json::Value) -> Node {
    match value {
        serde_json::Value::Bool(b) => Node::Bool(*b),
        serde_json::Value::Number(n) => Node::Int(n.as_i64().unwrap() as i128),
        serde_json::Value::String(s) => Node::Text(s.clone()),
        serde_json::Value::Array(v) => Node::List(v.iter().map(from_json).collect()),
        serde_json::Value::Object(map) => {
            Node::Obj(map.iter().map(|(k, v)| (k.clone(), from_json(v))).collect())
        }
        serde_json::Value::Null => Node::Null,
    }
}

fn write_json(node: &Node, out: &mut String) {
    match node {
        Node::Null | Node::Other => out.push_str("null"),
        Node::Bool(b) => out.push_str(&b.to_string()),
        Node::Int(n) => out.push_str(&n.to_string()),
        Node::Text(s) => out.push_str(&serde_json::to_string(s).unwrap()),
        Node::List(v) => {
            out.push('[');
            for (i, item) in v.iter().enumerate() {
                if i > 0 {
                    out.push(',');
                }
                write_json(item, out);
            }
            out.push(']');
        }
        Node::Obj(fields) => {
            out.push('{');
            for (i, (key, value)) in fields.iter().enumerate() {
                if i > 0 {
                    out.push(',');
                }
                out.push_str(&serde_json::to_string(key).unwrap());
                out.push(':');
                write_json(value, out);
            }
            out.push('}');
        }
    }
}

/// Append-only: these encodings are wire API.
#[test]
fn golden_encodings() {
    let samples = [
        (
            ScreenCommand::Scroll { delta: 3, unit: screen::ScrollUnit::Line },
            r#"{"command":"scroll","delta":3,"unit":"line"}"#,
        ),
        (
            ScreenCommand::Scroll { delta: -1, unit: screen::ScrollUnit::HalfScreen },
            r#"{"command":"scroll","delta":-1,"unit":"half-screen"}"#,
        ),
        (ScreenCommand::CopyEnter, r#"{"command":"copy-enter"}"#),
        (ScreenCommand::CopyLeave, r#"{"command":"copy-leave"}"#),
        (
            ScreenCommand::CopyMove { dir: screen::CopyMove::Up },
            r#"{"command":"copy-move","dir":"up"}"#,
        ),
        (ScreenCommand::CopySelect, r#"{"command":"copy-select"}"#),
        (ScreenCommand::CopyYank, r#"{"command":"copy-yank"}"#),
    ];
    for (command, json) in samples {
        let mut text = String::new();
        write_json(&command.to_node(), &mut text);
        assert_eq!(text, json);
        assert_eq!(
            ScreenCommand::from_node(&from_json(&serde_json::from_str(json).unwrap())).unwrap(),
            command
        );
    }
}

#[test]
fn lists_name_screen_commands_too() {
    let read =
        |json: &str| ScreenCommand::from_node(&from_json(&serde_json::from_str(json).unwrap()));
    assert_eq!(read(r#"["copy-enter"]"#).unwrap(), ScreenCommand::CopyEnter);
    assert_eq!(
        read(r#"["scroll",3,"line"]"#).unwrap(),
        ScreenCommand::Scroll { delta: 3, unit: screen::ScrollUnit::Line }
    );
    assert_eq!(
        read(r#"["copy-move",{"up":null}]"#).unwrap(),
        ScreenCommand::CopyMove { dir: screen::CopyMove::Up }
    );
    assert_eq!(
        read(r#"{"command":"copy-move","dir":{"left":{}}}"#).unwrap(),
        ScreenCommand::CopyMove { dir: screen::CopyMove::Left }
    );
}

#[test]
fn wrong_screen_commands() {
    for json in [
        "[]",
        r#"["copy-enter",1]"#,
        r#"["scroll",3]"#,
        r#"{"command":"copy-move","dir":{"up":1}}"#,
        r#"{"command":0}"#,
        "1",
        "{}",
        r#"{"command":"fly"}"#,
        r#"{"command":"scroll","unit":"line"}"#,
        r#"{"command":"scroll","delta":2147483648,"unit":"line"}"#,
        r#"{"command":"scroll","delta":1,"unit":"page"}"#,
        r#"{"command":"copy-move","dir":"north"}"#,
    ] {
        assert!(
            ScreenCommand::from_node(&from_json(&serde_json::from_str(json).unwrap())).is_err(),
            "{json}"
        );
    }
}

#[test]
fn states_in_words() {
    let ended = ExitInfo { code: Some(2), signal: Some(9) };
    for (state, word) in [
        (TaskState::Idle, "idle"),
        (TaskState::Starting, "starting"),
        (TaskState::Running, "running"),
        (TaskState::Ready, "ready"),
        (TaskState::Stopping, "stopping"),
        (TaskState::Backoff, "backoff"),
    ] {
        assert_eq!(
            task_state(state),
            RpcState { state: word.into(), exit_code: None, signal: None }
        );
    }
    for (state, word) in [(TaskState::Done(ended), "done"), (TaskState::Exited(ended), "exited")] {
        assert_eq!(
            task_state(state),
            RpcState { state: word.into(), exit_code: Some(2), signal: Some(9) }
        );
    }
}

#[test]
fn one_match_is_needed() {
    let t = target("web/*");
    assert_eq!(one(vec![5], &t), Ok(5));
    assert_eq!(
        one(Vec::<u8>::new(), &t),
        Err(RpcError::new(Code::NoMatch, "no task matches 'web/*'".into()))
    );
    assert_eq!(
        one(vec![1, 2], &t),
        Err(RpcError::new(Code::Ambiguous, "'web/*' matches more than one task".into()))
    );
}

#[test]
fn screens_are_resolved() {
    let t = target("api");
    let (task, vt) = resolve_screen(vec![info(1, "api", Some(4))], &t).unwrap();
    assert_eq!((task.id, vt), (TaskId(1), SharedVt(4)));
    assert_eq!(
        resolve_screen(vec![info(1, "api", None)], &t).unwrap_err(),
        RpcError::new(Code::NoScreen, "'api' has no screen".into())
    );
    assert_eq!(resolve_screen(vec![], &t).unwrap_err().code, Code::NoMatch);
}

#[test]
fn command_errors_have_codes() {
    let key = || TaskKey::default_space(TaskPath::new("api").unwrap());
    for (err, code) in [
        (CommandError::InvalidTarget("x".into()), Code::BadTarget),
        (CommandError::InvalidCommand("x".into()), Code::InvalidParams),
        (CommandError::Register(RegisterError::MissingDep(key())), Code::NoMatch),
        (CommandError::Register(RegisterError::PathTaken(key())), Code::PathTaken),
        (
            CommandError::Register(RegisterError::ReservedSpace(TaskSpaceId::dekit())),
            Code::BadTarget,
        ),
        (CommandError::Register(RegisterError::IdTaken), Code::Internal),
        (CommandError::KernelClosed, Code::Internal),
    ] {
        let rpc = command_error(&err);
        assert_eq!(rpc.code, code);
        assert_eq!(rpc.message, err.to_string());
    }
}

#[test]
fn requests_ask_the_kernel() {
    match rpc_query(&RpcRequest::Ls { target: None }).unwrap() {
        Query::ListTasks(selector) => assert_eq!(selector.to_string(), "**"),
        other => panic!("{other:?}"),
    }
    match rpc_query(&RpcRequest::Why { target: target("@dekit/+ui") }).unwrap() {
        Query::Explain(selector) => assert_eq!(selector.to_string(), "@dekit/+ui"),
        other => panic!("{other:?}"),
    }
    match rpc_query(&RpcRequest::Screen { target: target("api") }).unwrap() {
        Query::ListTasks(selector) => assert_eq!(selector.to_string(), "api"),
        other => panic!("{other:?}"),
    }
    let command = Command::Stop { target: CommandTarget::id(TaskId(2)) };
    match rpc_query(&RpcRequest::Command(command)).unwrap() {
        Query::Execute { sent, outcome } => {
            assert!(outcome.is_ok());
            assert_eq!(
                sent,
                vec![KernelCommand::Act {
                    verb: Verb::Stop,
                    selector: TaskSelector::Id(TaskId(2)),
                    ack: true
                }]
            );
        }
        other => panic!("{other:?}"),
    }
    let err = rpc_query(&RpcRequest::Attach { target: target("a"), width: 1, height: 1 })
        .unwrap_err();
    assert_eq!(err.message, "attach is handled by the connection loop");
    assert_eq!(
        list_selector(&target("host::a")).unwrap_err(),
        RpcError::new(
            Code::BadTarget,
            "invalid target: runner qualifiers are resolved by the client".into()
        )
    );
}

#[test]
fn replies_become_answers() {
    let ls = RpcRequest::Ls { target: None };
    match rpc_answer(&ls, QueryReply::TaskList(vec![info(1, "api", None)])).unwrap() {
        Answer::Result(RpcResult::Tasks(tasks)) => {
            assert_eq!(tasks.len(), 1);
            assert_eq!(tasks[0].path, "api");
            assert_eq!(tasks[0].state.state, "running");
        }
        other => panic!("{other:?}"),
    }
    for reply in [QueryReply::Explain(vec![]), QueryReply::Lost] {
        let err = rpc_answer(&ls, reply).unwrap_err();
        assert_eq!((err.code, err.message.as_str()), (Code::Internal, "unexpected query response"));
    }
    let why = RpcRequest::Why { target: target("nope") };
    assert_eq!(
        rpc_answer(&why, QueryReply::Explain(vec![])).unwrap_err().code,
        Code::NoMatch
    );
    let explain = Explain {
        id: TaskId(1),
        name: "api".into(),
        state: TaskState::Ready,
        wanted: true,
        supported: true,
        vetoed: false,
        pinned: false,
        required_by: vec!["web".into()],
        deps: vec![ExplainDep {
            name: "db".into(),
            state: TaskState::Idle,
            wanted: false,
            satisfied: true,
        }],
        attempts: 2,
    };
    match rpc_answer(&why, QueryReply::Explain(vec![explain])).unwrap() {
        Answer::Result(RpcResult::Why(why)) => {
            assert_eq!(why.path, "api");
            assert_eq!(why.deps[0].path, "db");
            assert!(why.deps[0].satisfied);
            assert_eq!(why.required_by, vec!["web".to_string()]);
            assert_eq!(why.attempts, 2);
        }
        other => panic!("{other:?}"),
    }
    let shot = RpcRequest::Screen { target: target("api") };
    match rpc_answer(&shot, QueryReply::TaskList(vec![info(1, "api", Some(8))])).unwrap() {
        Answer::Screen(vt) => assert_eq!(vt, SharedVt(8)),
        other => panic!("{other:?}"),
    }
    assert_eq!(screen_answer(None).unwrap_err().message, "screen lock poisoned");
    let command =
        RpcRequest::Command(Command::Stop { target: CommandTarget::id(TaskId(2)) });
    let done = |replies| {
        rpc_answer(&command, QueryReply::Executed { outcome: Ok(()), replies })
    };
    assert!(matches!(
        done(Some(vec![3])),
        Ok(Answer::Result(RpcResult::Matched(3)))
    ));
    assert!(matches!(done(Some(vec![])), Ok(Answer::Result(RpcResult::Done))));
    assert_eq!(done(None).unwrap_err().message, "kernel closed the reply channel");
    let bad = QueryReply::Executed {
        outcome: Err(CommandError::InvalidTarget("tag is empty".into())),
        replies: None,
    };
    assert_eq!(
        rpc_answer(&command, bad).unwrap_err(),
        RpcError::new(Code::BadTarget, "tag is empty".into())
    );
}

fn ask(id: u64) -> ConnEvent {
    ConnEvent::Request { id, request: Ok(RpcRequest::Ls { target: None }) }
}

fn served(id: u64) -> ConnEvent {
    ConnEvent::Served { id, result: Some(Ok(RpcResult::Done)) }
}

#[test]
fn requests_are_answered_by_id() {
    let mut conn = Connection::new();
    for id in [7, 8, 9] {
        let actions = conn.step(ask(id));
        assert!(matches!(actions.as_slice(), [ConnAction::Serve { id: n, .. }] if *n == id));
    }
    let actions = conn.step(served(8));
    assert!(matches!(actions.as_slice(), [ConnAction::Send(reply)] if reply.id == 8));
    assert_eq!(conn.pending, vec![7, 9]);
    assert!(conn.step(ConnEvent::Other).is_empty());
    let err = RpcError::new(Code::InvalidParams, "x".into());
    let actions = conn.step(ConnEvent::Request { id: 3, request: Err(err) });
    assert!(matches!(actions.as_slice(), [ConnAction::Send(reply)] if reply.id == 3));
    assert!(conn.step(ConnEvent::Closed).is_empty());
    assert!(conn.step(ask(10)).is_empty());
    assert!(conn.step(ConnEvent::Served { id: 9, result: None }).is_empty());
    let actions = conn.step(served(7));
    assert!(matches!(actions.as_slice(), [ConnAction::Send(_), ConnAction::End]));
    assert!(matches!(conn.phase, Phase::Ended));
}

#[test]
fn attachments_wait_for_earlier_answers() {
    let attach = || ConnEvent::Request {
        id: 2,
        request: Ok(RpcRequest::Attach { target: target("api"), width: 80, height: 24 }),
    };
    let mut conn = Connection::new();
    conn.step(ask(1));
    assert!(conn.step(attach()).is_empty());
    let actions = conn.step(served(1));
    match actions.as_slice() {
        [ConnAction::Send(_), ConnAction::Attach(attachment)] => {
            assert_eq!(attachment.id, 2);
            assert_eq!(attachment.size, Size { width: 80, height: 24 });
        }
        other => panic!("{other:?}"),
    }
    let mut conn = Connection::new();
    assert!(matches!(conn.step(attach()).as_slice(), [ConnAction::Attach(_)]));
    let mut conn = Connection::new();
    assert!(matches!(conn.step(ConnEvent::Closed).as_slice(), [ConnAction::End]));
    let mut conn = Connection::new();
    conn.fail();
    assert!(conn.step(ask(1)).is_empty());
}

#[test]
fn starts_and_ends() {
    let run = |boot: Boot, outcomes: &[bool]| {
        outcomes.iter().enumerate().fold(boot, |boot, (i, ok)| {
            boot.next(if *ok { Ok(()) } else { Err(format!("step {i}")) })
        })
    };
    let boot = || Boot::new(true, InitHook::Command);
    let serving = || run(boot(), &[true; 9]);
    assert_eq!(serving().step, BootStep::Serve);
    assert!(serving().kernel && serving().waiter);
    let ended = run(serving(), &[true; 3]);
    assert_eq!((ended.step, &ended.end), (BootStep::Ended, &BootEnd::Done));
    assert!(!ended.kernel && !ended.waiter && !ended.locked);
    assert_eq!(ended.end.result(), Ok(()));
    let failed = run(boot(), &[true, true, true, true, true, true, false, true, false, true, true]);
    assert_eq!((failed.step, &failed.end), (BootStep::Ended, &BootEnd::Failed("step 6".into())));
    assert!(!failed.kernel && !failed.waiter && !failed.locked);
    assert_eq!(failed.end.result(), Err("step 6".into()));
    let no_console = run(boot(), &[true, true, true, false, true]);
    assert_eq!(no_console.step, BootStep::UnlockAfterFailure);
    assert!(no_console.locked);
    let no_console = no_console.next(Ok(()));
    assert_eq!(no_console.step, BootStep::Ended);
    assert!(!no_console.locked && !no_console.waiter);
    assert_eq!(
        no_console.end.result(),
        Err("Failed to register console task: step 3".into())
    );
    let no_uninit = run(boot(), &[true, true, true, false, false, true]);
    assert_eq!(no_uninit.end, BootEnd::Failed("step 4".into()));
    let no_waiter = run(boot(), &[true, true, false, true]);
    assert_eq!(
        (no_waiter.step, &no_waiter.end),
        (BootStep::Ended, &BootEnd::Failed("step 2".into()))
    );
    assert!(!no_waiter.locked);
    let lost = run(serving(), &[false, true]);
    assert_eq!((lost.step, &lost.end), (BootStep::Ended, &BootEnd::Failed("step 0".into())));
    assert!(!lost.locked && !lost.kernel);
    let legacy = run(Boot::new(false, InitHook::Other), &[true; 10]);
    assert_eq!(legacy.step, BootStep::Ended);
    assert_eq!(legacy.end.result(), Err("dekit on_init hook is not a command".into()));
    let bare = run(Boot::new(false, InitHook::Missing), &[true; 6]);
    assert_eq!(bare.step, BootStep::BindSocket);
    assert_eq!(boot().next(Err("no log".into())).end, BootEnd::Failed("no log".into()));
}

#[test]
fn sessions_open_with_a_request() {
    let size = Size { width: 80, height: 24 };
    let request = attach_request(target("host::web"), size, true);
    assert_eq!((request.id, request.width, request.height), (1, 80, 24));
    assert!(request.until_exit);
    assert_eq!(request.target.to_string(), "host::web");
}

#[test]
fn hooks_for_the_start_have_kinds() {
    assert_eq!(InitHook::of(&None), InitHook::Missing);
    assert_eq!(InitHook::of(&Some(Hook::Command(Command::Quit))), InitHook::Command);
    assert_eq!(InitHook::of(&Some(Hook::LegacyAction(Action::Quit))), InitHook::Other);
}

#[test]
fn every_attachment_is_taken_back() {
    let phase = AttachPhase::Resolving { size: Size { width: 80, height: 24 } };
    let error = RpcError::new(Code::NoMatch, "x".into());
    let (ended, actions) = attach_session(phase, AttachEvent::Resolved(Err(error)));
    assert_eq!(ended, AttachPhase::Ended);
    assert!(matches!(actions.as_slice(), [AttachAction::SendError(_)]));
    let (phase, actions) = attach_session(phase, AttachEvent::Resolved(Ok(TaskId(3))));
    match actions.as_slice() {
        [AttachAction::Attach { task, size }, AttachAction::Confirm] => {
            assert_eq!(*task, TaskId(3));
            assert_eq!(*size, Winsize { x: 80, y: 24, x_px: 0, y_px: 0 });
        }
        other => panic!("{other:?}"),
    }
    let (_, actions) = attach_session(phase, AttachEvent::Confirmed(false));
    assert!(matches!(actions.as_slice(), [AttachAction::Detach { task: TaskId(3) }]));
    let (phase, actions) = attach_session(phase, AttachEvent::Confirmed(true));
    assert!(matches!(actions.as_slice(), [AttachAction::RunSession { .. }]));
    let (phase, actions) = attach_session(phase, AttachEvent::SessionEnded);
    assert!(matches!(
        actions.as_slice(),
        [AttachAction::Detach { task: TaskId(3) }, AttachAction::SendBye { code: Code::Quit }]
    ));
    assert!(attach_session(phase, AttachEvent::SessionEnded).1.is_empty());
}

#[test]
fn sessions_paint() {
    let mut s = Session::new(SharedVt(1));
    let (parts, paint) = s.notified(&vec![
        ScreenNotify::Bell,
        ScreenNotify::Yank { text: "copied".into() },
    ]);
    assert!(!paint);
    assert!(matches!(
        parts.as_slice(),
        [OutPart::Bell, OutPart::Clipboard(text)] if text == "copied"
    ));
    let (parts, paint) = s.notified(&vec![ScreenNotify::Attached]);
    assert!(parts.is_empty() && paint);
    let parts = s.paint(Some("vim"));
    assert!(matches!(
        parts.as_slice(),
        [OutPart::Title(title), OutPart::Diff(SharedVt(1))] if title == "vim"
    ));
    assert!(matches!(s.paint(Some("vim")).as_slice(), [OutPart::Diff(SharedVt(1))]));
    let (_, paint) = s.notified(&vec![
        ScreenNotify::CopyPresent { vt: Some(SharedVt(2)) },
        ScreenNotify::Render,
    ]);
    assert!(paint);
    assert_eq!(s.shown(), SharedVt(2));
    assert!(matches!(s.paint(None).as_slice(), [OutPart::Diff(SharedVt(2))]));
    s.notified(&vec![ScreenNotify::CopyPresent { vt: None }]);
    assert_eq!(s.shown(), SharedVt(1));
}

#[test]
fn messages_of_attached_clients() {
    assert!(matches!(
        session(ClientMsg::Input(Some(TermEvent::FocusLost))),
        SessionAction::Input(TermEvent::FocusLost)
    ));
    assert!(matches!(session(ClientMsg::Input(None)), SessionAction::Ignore));
    assert!(matches!(session(ClientMsg::Screen(None)), SessionAction::Ignore));
    assert!(matches!(session(ClientMsg::Other), SessionAction::Ignore));
    assert!(matches!(session(ClientMsg::Failed), SessionAction::End));
    assert!(matches!(session(ClientMsg::Closed), SessionAction::End));
    assert!(matches!(
        session(ClientMsg::Screen(Some(ScreenCommand::CopySelect))),
        SessionAction::Screen(TaskScreenCmd::CopyBeginSelection)
    ));
    assert_eq!(
        screen_cmd(ScreenCommand::Scroll { delta: -2, unit: screen::ScrollUnit::Screen }),
        TaskScreenCmd::Scroll { delta: -2, unit: ScrollUnit::Screen }
    );
    assert_eq!(
        screen_cmd(ScreenCommand::CopyMove { dir: screen::CopyMove::Left }),
        TaskScreenCmd::CopyMove { dir: CopyMove::Left }
    );
}

#[test]
fn one_request_and_its_answer() {
    let response = |id, error, found| rpc_request(&RunnerMsg::Response { id, error, found });
    assert!(matches!(response(2, None, true), RpcStep::Wait));
    assert!(matches!(response(1, None, true), RpcStep::Return { found: true }));
    assert!(matches!(response(1, None, false), RpcStep::Return { found: false }));
    let failed = |step| match step {
        RpcStep::Fail { message } => message,
        other => panic!("{other:?}"),
    };
    let error = RpcError::new(Code::NoMatch, "nothing".into());
    assert_eq!(failed(response(1, Some(error), false)), "nothing");
    assert_eq!(
        failed(rpc_request(&RunnerMsg::Bye { code: "quit".into() })),
        "runner closed the connection: quit"
    );
    assert_eq!(failed(rpc_request(&RunnerMsg::Broken { message: "eof".into() })), "eof");
    assert!(matches!(rpc_request(&RunnerMsg::Other), RpcStep::Wait));
}

#[test]
fn the_local_end_of_a_session() {
    assert!(matches!(client_loop(LocalEvent::Out), LocalAction::Write));
    assert!(matches!(client_loop(LocalEvent::Other), LocalAction::Ignore));
    assert!(matches!(
        client_loop(LocalEvent::Response { error: None }),
        LocalAction::Ignore
    ));
    let failed = |event| match client_loop(event) {
        LocalAction::Fail { message } => message,
        other => panic!("{other:?}"),
    };
    let error = RpcError::new(Code::NoMatch, "nothing".into());
    assert_eq!(failed(LocalEvent::Response { error: Some(error) }), "attach failed: nothing");
    let bye = |code: &str| LocalEvent::Bye {
        code: code.into(),
        state: None,
        screen: Some("last".into()),
    };
    assert_eq!(failed(bye("odd")), "runner closed the session: odd");
    assert_eq!(failed(LocalEvent::Broken { message: "eof".into() }), "eof");
    assert!(matches!(client_loop(bye("quit")), LocalAction::End(LoopEnd::Detached)));
    match client_loop(bye("task_exited")) {
        LocalAction::End(end) => {
            let (end, text) = client_main(end);
            assert!(matches!(end, AttachEnd::TaskExited(None)));
            assert_eq!(text.unwrap(), "last\n");
        }
        other => panic!("{other:?}"),
    }
    assert!(client_main(LoopEnd::Detached).1.is_none());
    assert!(matches!(
        client_loop(LocalEvent::Closed),
        LocalAction::End(LoopEnd::Detached)
    ));
    assert!(matches!(
        client_loop(LocalEvent::Term(None)),
        LocalAction::End(LoopEnd::Detached)
    ));
    let mut key = Key::new(KeyCode::Char('x'), KeyMods::none());
    assert!(matches!(
        client_loop(LocalEvent::Term(Some(TermEvent::Key(key)))),
        LocalAction::Send(TermEvent::Key(_))
    ));
    key.kind = KeyEventKind::Release;
    assert!(matches!(
        client_loop(LocalEvent::Term(Some(TermEvent::Key(key)))),
        LocalAction::Ignore
    ));
    assert!(matches!(
        client_loop(LocalEvent::Term(Some(TermEvent::Resize(1, 2)))),
        LocalAction::Send(TermEvent::Resize(1, 2))
    ));
}

#[test]
fn codes_have_words() {
    for code in [
        Code::BadTarget,
        Code::InvalidParams,
        Code::NoMatch,
        Code::Ambiguous,
        Code::NoScreen,
        Code::PathTaken,
        Code::Internal,
        Code::Quit,
        Code::TaskExited,
    ] {
        assert_eq!(Code::from_word(code.as_str()), Some(code));
    }
    assert_eq!(Code::from_word("x"), None);
}
