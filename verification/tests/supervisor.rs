use rswatch::report::Line;
use rswatch::supervisor::{status_of, ProcReply, ProcRequest, Supervisor};

fn cmd(items: &[&str]) -> Vec<String> {
    items.iter().map(|s| s.to_string()).collect()
}

fn running(verbose: bool, id: u32) -> Supervisor {
    let (s, _) = Supervisor::new(verbose).try_spawn(cmd(&["sleep", "9"]), false, false);
    let (s, lines) = s.reply(ProcReply::Spawned(id));
    assert_eq!(lines, vec![]);
    assert_eq!(s.child(), Some(id));
    s
}

#[test]
fn new_supervisor_is_idle() {
    let s = Supervisor::new(false);
    assert_eq!(s.child(), None);
    assert!(s.is_settled());
    assert_eq!(s.request(), None);
}

#[test]
fn idle_supervisor_spawns_at_once() {
    let (s, lines) = Supervisor::new(true).try_spawn(cmd(&["make", "all"]), true, true);
    assert_eq!(lines, vec![Line::Executing(cmd(&["make", "all"]))]);
    assert_eq!(s.request(), Some(ProcRequest::Spawn { command: cmd(&["make", "all"]), clear: true }));
    assert_eq!(s.child(), None);
    assert!(!s.is_settled());
    let (s, lines) = s.reply(ProcReply::Spawned(41));
    assert_eq!(lines, vec![]);
    assert_eq!(s.child(), Some(41));
    assert!(s.is_settled());
}

#[test]
fn quiet_supervisor_prints_no_diagnostics() {
    let (s, lines) = Supervisor::new(false).try_spawn(cmd(&["make"]), false, false);
    assert_eq!(lines, vec![]);
    let (s, _) = s.reply(ProcReply::Spawned(1));
    let (s, lines) = s.try_spawn(cmd(&["make"]), true, false);
    assert_eq!(lines, vec![]);
    let (s, lines) = s.reply(ProcReply::Killed);
    assert_eq!(lines, vec![]);
    let (s, lines) = s.reply(ProcReply::Waited(Some(2)));
    assert_eq!(lines, vec![]);
    assert_eq!(s.request(), Some(ProcRequest::Spawn { command: cmd(&["make"]), clear: false }));
}

#[test]
fn spawn_failure_leaves_the_supervisor_idle() {
    let (s, _) = Supervisor::new(false).try_spawn(cmd(&["no-such-program", "-v"]), false, false);
    let (s, lines) = s.reply(ProcReply::SpawnFailed("not found".to_string()));
    assert_eq!(
        lines,
        vec![Line::SpawnFailed {
            program: "no-such-program".to_string(),
            reason: "not found".to_string()
        }]
    );
    assert_eq!(s.child(), None);
    assert!(s.is_settled());
}

#[test]
fn empty_command_is_not_spawned() {
    let (s, lines) = Supervisor::new(false).try_spawn(cmd(&[]), false, false);
    assert_eq!(lines, vec![Line::NoCommand]);
    assert!(s.is_settled());
    assert_eq!(s.child(), None);
}

#[test]
fn empty_command_still_resolves_the_running_child() {
    let (s, _) = running(false, 5).try_spawn(cmd(&[]), false, false);
    assert_eq!(s.request(), Some(ProcRequest::Wait(5)));
    let (s, lines) = s.reply(ProcReply::Waited(Some(0)));
    assert_eq!(lines, vec![Line::NoCommand]);
    assert!(s.is_settled());
    assert_eq!(s.child(), None);
}

#[test]
fn kill_policy_kills_then_reaps_then_spawns() {
    let (s, lines) = running(true, 7).try_spawn(cmd(&["run", "a"]), true, false);
    assert_eq!(lines, vec![Line::Killing]);
    assert_eq!(s.request(), Some(ProcRequest::Kill(7)));
    assert_eq!(s.child(), Some(7));
    let (s, lines) = s.reply(ProcReply::Killed);
    assert_eq!(lines, vec![Line::Waiting]);
    assert_eq!(s.request(), Some(ProcRequest::Wait(7)));
    assert_eq!(s.child(), Some(7));
    let (s, lines) = s.reply(ProcReply::Waited(None));
    assert_eq!(lines, vec![Line::Exited(0), Line::Executing(cmd(&["run", "a"]))]);
    assert_eq!(s.child(), None);
    assert_eq!(s.request(), Some(ProcRequest::Spawn { command: cmd(&["run", "a"]), clear: false }));
    let (s, _) = s.reply(ProcReply::Spawned(8));
    assert_eq!(s.child(), Some(8));
    assert_eq!(s.request(), None);
}

#[test]
fn wait_policy_blocks_until_the_child_exits_before_spawning() {
    let (s, lines) = running(true, 7).try_spawn(cmd(&["run"]), false, true);
    assert_eq!(lines, vec![Line::Waiting]);
    assert_eq!(s.request(), Some(ProcRequest::Wait(7)));
    let (s, lines) = s.reply(ProcReply::Waited(Some(3)));
    assert_eq!(lines, vec![Line::Exited(3), Line::Executing(cmd(&["run"]))]);
    assert_eq!(s.request(), Some(ProcRequest::Spawn { command: cmd(&["run"]), clear: true }));
    assert_eq!(s.child(), None);
}

#[test]
fn failed_signal_aborts_the_spawn() {
    let (s, _) = running(true, 7).try_spawn(cmd(&["run"]), true, false);
    let (s, lines) = s.reply(ProcReply::KillFailed("no such process".to_string()));
    assert_eq!(lines, vec![Line::KillFailed("no such process".to_string())]);
    assert_eq!(s.child(), None);
    assert!(s.is_settled());
    assert_eq!(s.request(), None);
}

#[test]
fn failed_wait_aborts_the_spawn() {
    let (s, _) = running(true, 7).try_spawn(cmd(&["run"]), false, false);
    let (s, lines) = s.reply(ProcReply::WaitFailed("interrupted".to_string()));
    assert_eq!(lines, vec![Line::WaitFailed("interrupted".to_string())]);
    assert_eq!(s.child(), None);
    assert!(s.is_settled());
}

#[test]
fn resolve_kills_or_waits_and_starts_nothing() {
    let (s, lines) = running(true, 9).resolve(true);
    assert_eq!(lines, vec![Line::Killing]);
    assert_eq!(s.request(), Some(ProcRequest::Kill(9)));
    let (s, _) = s.reply(ProcReply::Killed);
    let (s, lines) = s.reply(ProcReply::Waited(Some(130)));
    assert_eq!(lines, vec![Line::Exited(130)]);
    assert!(s.is_settled());
    assert_eq!(s.child(), None);

    let (s, lines) = running(true, 9).resolve(false);
    assert_eq!(lines, vec![Line::Waiting]);
    assert_eq!(s.request(), Some(ProcRequest::Wait(9)));
}

#[test]
fn resolve_without_a_child_does_nothing() {
    let (s, lines) = Supervisor::new(true).resolve(true);
    assert_eq!(lines, vec![]);
    assert!(s.is_settled());
    assert_eq!(s.child(), None);
}

#[test]
fn poll_reports_exit_and_goes_idle() {
    let s = running(true, 4).poll();
    assert_eq!(s.request(), Some(ProcRequest::Poll(4)));
    let (s, lines) = s.reply(ProcReply::Exited(Some(1)));
    assert_eq!(lines, vec![Line::Exited(1)]);
    assert_eq!(s.child(), None);
    assert!(s.is_settled());
}

#[test]
fn poll_of_a_running_child_keeps_it() {
    let s = running(true, 4).poll();
    let (s, lines) = s.reply(ProcReply::StillRunning);
    assert_eq!(lines, vec![]);
    assert_eq!(s.child(), Some(4));
    assert!(s.is_settled());
}

#[test]
fn failed_poll_falls_back_to_idle() {
    let s = running(true, 4).poll();
    let (s, lines) = s.reply(ProcReply::PollFailed("gone".to_string()));
    assert_eq!(lines, vec![Line::PollFailed("gone".to_string())]);
    assert_eq!(s.child(), None);
    assert!(s.is_settled());
}

#[test]
fn poll_without_a_child_asks_for_nothing() {
    let s = Supervisor::new(false).poll();
    assert!(s.is_settled());
    assert_eq!(s.request(), None);
}

#[test]
fn replies_to_other_operations_are_ignored() {
    let (s, _) = running(false, 7).try_spawn(cmd(&["run"]), true, false);
    let (s, lines) = s.reply(ProcReply::Spawned(99));
    assert_eq!(lines, vec![]);
    assert_eq!(s.request(), Some(ProcRequest::Kill(7)));
    assert_eq!(s.child(), Some(7));
    let (s, _) = s.reply(ProcReply::Waited(Some(0)));
    assert_eq!(s.request(), Some(ProcRequest::Kill(7)));
    let (s, _) = running(false, 7).reply(ProcReply::Killed);
    assert_eq!(s.child(), Some(7));
    assert!(s.is_settled());
}

#[test]
fn requests_in_the_middle_of_an_operation_are_ignored() {
    let (s, _) = running(false, 7).try_spawn(cmd(&["one"]), true, false);
    let (s, lines) = s.try_spawn(cmd(&["two"]), false, true);
    assert_eq!(lines, vec![]);
    assert_eq!(s.request(), Some(ProcRequest::Kill(7)));
    let (s, _) = s.resolve(false);
    let s = s.poll();
    assert_eq!(s.request(), Some(ProcRequest::Kill(7)));
    let (s, _) = s.reply(ProcReply::Killed);
    let (s, _) = s.reply(ProcReply::Waited(Some(0)));
    assert_eq!(s.request(), Some(ProcRequest::Spawn { command: cmd(&["one"]), clear: false }));
}

#[test]
fn never_more_than_one_child_through_many_restarts() {
    let mut s = Supervisor::new(false);
    let mut alive: Vec<u32> = Vec::new();
    for round in 0..20u32 {
        let (next, _) = s.try_spawn(cmd(&["job"]), round % 2 == 0, false);
        s = next;
        loop {
            let reply = match s.request() {
                None => break,
                Some(ProcRequest::Kill(id)) => {
                    assert!(alive.contains(&id));
                    ProcReply::Killed
                }
                Some(ProcRequest::Wait(id)) => {
                    alive.retain(|x| *x != id);
                    ProcReply::Waited(Some(0))
                }
                Some(ProcRequest::Poll(_)) => ProcReply::StillRunning,
                Some(ProcRequest::Spawn { .. }) => {
                    assert!(alive.is_empty());
                    alive.push(100 + round);
                    ProcReply::Spawned(100 + round)
                }
            };
            let (next, _) = s.reply(reply);
            s = next;
            assert!(alive.len() <= 1);
        }
        assert_eq!(s.child(), Some(100 + round));
        assert_eq!(alive, vec![100 + round]);
    }
}

#[test]
fn missing_exit_code_is_reported_as_zero() {
    assert_eq!(status_of(None), 0);
    assert_eq!(status_of(Some(0)), 0);
    assert_eq!(status_of(Some(-7)), -7);
    assert_eq!(status_of(Some(255)), 255);
}
