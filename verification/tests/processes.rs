use dekit::runner::kill::{
    kill_verified, session_members, KillAction, KillEvent, KillStage, ProcessInfo, Reap,
    SessionReaper,
};
use dekit::runner::proc_stat::{is_zombie, parse_pid, parse_proc_stat, process_start_time};

#[test]
fn proc_stat_parses_awkward_comm() {
    let stat = "123 (a b) c) R 1 123 123 0 -1 4194304 0 0 0 0 0 0 0 0 20 0 1 0 4242 0 0";
    assert_eq!(parse_proc_stat(stat), Some(("R", 4242)));
}

#[test]
fn odd_stat_lines() {
    assert_eq!(parse_proc_stat("no parens"), None);
    assert_eq!(parse_proc_stat("1 (x) R 1 2"), None);
    let zombie = "9 (x)\tZ 1 9 9 0 -1 0 0 0 0 0 0 0 0 0 20 0 1 0 +77 0";
    assert_eq!(parse_proc_stat(zombie), Some(("Z", 77)));
    assert_eq!(process_start_time(zombie), Some(77));
    assert!(is_zombie(Some(zombie)));
    assert!(!is_zombie(None));
    assert!(!is_zombie(Some("gone")));
    let huge = "9 (x) R 1 9 9 0 -1 0 0 0 0 0 0 0 0 0 20 0 1 0 18446744073709551616 0";
    assert_eq!(parse_proc_stat(huge), None);
    let largest = "9 (x) R 1 9 9 0 -1 0 0 0 0 0 0 0 0 0 20 0 1 0 18446744073709551615 0";
    assert_eq!(process_start_time(largest), Some(u64::MAX));
}

#[test]
fn pids_from_names() {
    assert_eq!(parse_pid("42"), Some(42));
    assert_eq!(parse_pid("+42"), Some(42));
    assert_eq!(parse_pid("self"), None);
    assert_eq!(parse_pid(""), None);
    assert_eq!(parse_pid("+"), None);
    assert_eq!(parse_pid("4294967295"), Some(u32::MAX));
    assert_eq!(parse_pid("4294967296"), None);
}

#[test]
fn only_the_recorded_instance_is_killed() {
    let (stage, action) = kill_verified(7, 100, KillStage::Opening, KillEvent::Opened);
    assert!(matches!(action, KillAction::ReadStartTime));
    let (ended, refused) = kill_verified(7, 100, stage, KillEvent::StartTime(Some(101)));
    assert!(matches!(refused, KillAction::Return(false)));
    assert_eq!(ended, KillStage::Ended);
    let (_, gone) = kill_verified(7, 100, stage, KillEvent::StartTime(None));
    assert!(matches!(gone, KillAction::Return(false)));
    let (stage, kill) = kill_verified(7, 100, stage, KillEvent::StartTime(Some(100)));
    assert!(matches!(kill, KillAction::Signal { handle: true }));
    let (_, sent) = kill_verified(7, 100, stage, KillEvent::Sent);
    assert!(matches!(sent, KillAction::Return(true)));
    let (_, raced) = kill_verified(7, 100, stage, KillEvent::NoProcess);
    assert!(matches!(raced, KillAction::Return(false)));
}

#[test]
fn killing_without_handles() {
    let (stage, _) = kill_verified(7, 100, KillStage::Opening, KillEvent::NoHandles);
    let (stage, kill) = kill_verified(7, 100, stage, KillEvent::StartTime(Some(100)));
    assert!(matches!(kill, KillAction::Signal { handle: false }));
    let (_, raced) = kill_verified(7, 100, stage, KillEvent::NoProcess);
    assert!(matches!(raced, KillAction::Return(false)));
}

#[test]
fn failures_name_the_pid() {
    let failed = |stage, event| match kill_verified(7, 1, stage, event).1 {
        KillAction::Fail { message } => message,
        other => panic!("{other:?}"),
    };
    assert_eq!(failed(KillStage::Opening, KillEvent::BadPid), "bad pid 7");
    assert_eq!(
        failed(KillStage::Opening, KillEvent::Failed { message: "no".into() }),
        "failed to open pid 7: no"
    );
    assert_eq!(
        failed(KillStage::Signaling { handle: true }, KillEvent::Failed { message: "no".into() }),
        "failed to kill pid 7: no"
    );
    assert!(matches!(
        kill_verified(7, 1, KillStage::Opening, KillEvent::NoProcess).1,
        KillAction::Return(false)
    ));
}

#[test]
fn members_are_live_and_not_the_caller() {
    let p = |pid, session, zombie| ProcessInfo { pid, session, zombie };
    let all = vec![p(1, 5, false), p(2, 5, true), p(3, 6, false), p(4, 5, false)];
    assert_eq!(session_members(&all, 5, 4), vec![1]);
    assert_eq!(session_members(&all, 5, 9), vec![1, 4]);
}

#[test]
fn reaping_goes_on_until_nothing_is_new() {
    let mut reaper = SessionReaper::new();
    match reaper.kill_session(&vec![1, 2, 1]) {
        Reap::Kill(pids) => assert_eq!(pids, vec![1, 2]),
        other => panic!("{other:?}"),
    }
    match reaper.kill_session(&vec![2, 3]) {
        Reap::Kill(pids) => assert_eq!(pids, vec![3]),
        other => panic!("{other:?}"),
    }
    assert!(matches!(reaper.kill_session(&vec![3]), Reap::Done(0)));
}

#[test]
fn a_fork_storm_is_counted() {
    let mut reaper = SessionReaper::new();
    for pass in 0..8u32 {
        assert!(matches!(reaper.kill_session(&vec![pass]), Reap::Kill(_)));
    }
    assert!(matches!(reaper.kill_session(&vec![7, 100, 101]), Reap::Done(2)));
}
