use robogit::machine::{run_plan, Action, Phase};

#[test]
fn successful_run_performs_all_six_steps_once() {
    let events = vec![true, true, true, true, true, true];
    let (phase, trace) = run_plan(&events);
    assert_eq!(phase, Phase::Pushed);
    assert_eq!(
        trace,
        vec![
            Action::RemoveTarget,
            Action::CloneRemote,
            Action::AppendLine,
            Action::StageReadme,
            Action::CreateCommit,
            Action::PushBranch,
        ]
    );
    let commits = trace.iter().filter(|a| **a == Action::CreateCommit).count();
    assert_eq!(commits, 1);
    let pushes = trace.iter().filter(|a| **a == Action::PushBranch).count();
    assert_eq!(pushes, 1);
}

#[test]
fn remove_failure_makes_no_network_call() {
    let events = vec![false, true, true, true, true, true];
    let (phase, trace) = run_plan(&events);
    assert_eq!(phase, Phase::Failed);
    assert_eq!(trace, vec![Action::RemoveTarget]);
    assert!(trace
        .iter()
        .all(|a| *a != Action::CloneRemote && *a != Action::PushBranch));
}

#[test]
fn append_failure_stops_before_staging() {
    let events = vec![true, true, false, true, true, true];
    let (phase, trace) = run_plan(&events);
    assert_eq!(phase, Phase::Failed);
    assert_eq!(
        trace,
        vec![Action::RemoveTarget, Action::CloneRemote, Action::AppendLine]
    );
    assert!(trace
        .iter()
        .all(|a| *a != Action::CreateCommit && *a != Action::PushBranch));
}

#[test]
fn stage_failure_commits_and_pushes_nothing() {
    let events = vec![true, true, true, false, true, true];
    let (phase, trace) = run_plan(&events);
    assert_eq!(phase, Phase::Failed);
    assert_eq!(
        trace,
        vec![
            Action::RemoveTarget,
            Action::CloneRemote,
            Action::AppendLine,
            Action::StageReadme,
        ]
    );
    assert!(trace
        .iter()
        .all(|a| *a != Action::CreateCommit && *a != Action::PushBranch));
}

#[test]
fn push_rejection_ends_the_run_without_retry() {
    let events = vec![true, true, true, true, true, false];
    let (phase, trace) = run_plan(&events);
    assert_eq!(phase, Phase::Failed);
    assert_eq!(trace.len(), 6);
    assert_eq!(*trace.last().unwrap(), Action::PushBranch);
    let pushes = trace.iter().filter(|a| **a == Action::PushBranch).count();
    assert_eq!(pushes, 1);
}

#[test]
fn terminal_phase_ignores_further_events() {
    let events = vec![false, true, true, true, true, true, true, true];
    let (phase, trace) = run_plan(&events);
    assert_eq!(phase, Phase::Failed);
    assert_eq!(trace, vec![Action::RemoveTarget]);
}

#[test]
fn phases_advance_in_a_fixed_line() {
    let mut p = Phase::Start;
    assert_eq!(p.next_action(), Some(Action::RemoveTarget));
    p = p.advance(true);
    assert_eq!(p, Phase::Removed);
    assert_eq!(p.next_action(), Some(Action::CloneRemote));
    p = p.advance(true);
    assert_eq!(p, Phase::Cloned);
    assert_eq!(p.next_action(), Some(Action::AppendLine));
    p = p.advance(true);
    assert_eq!(p, Phase::Written);
    assert_eq!(p.next_action(), Some(Action::StageReadme));
    p = p.advance(true);
    assert_eq!(p, Phase::Staged);
    assert_eq!(p.next_action(), Some(Action::CreateCommit));
    p = p.advance(true);
    assert_eq!(p, Phase::Committed);
    assert_eq!(p.next_action(), Some(Action::PushBranch));
    p = p.advance(true);
    assert_eq!(p, Phase::Pushed);
    assert!(p.is_terminal());
    assert_eq!(p.next_action(), None);
}

#[test]
fn any_failure_lands_in_failed_and_stays() {
    let mut p = Phase::Cloned;
    p = p.advance(false);
    assert_eq!(p, Phase::Failed);
    assert!(p.is_terminal());
    assert_eq!(p.next_action(), None);
}
