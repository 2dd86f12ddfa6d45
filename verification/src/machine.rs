//! The run plan: a linear, fail-fast machine over the six steps of a run
//! (reset the target, clone, append the line, stage, commit, push). A driver
//! asks which step is pending, performs it, and reports whether it succeeded;
//! the machine advances to the next phase on success and to `Failed`
//! otherwise, and a terminal phase never moves again. The lemmas show that a
//! run that reaches `Pushed` performed each step exactly once in order, and
//! that a failed step ends the run at once, with no later step attempted.

use vstd::prelude::*;

verus! {

/// The step a run performs next.
#[derive(Clone, Copy, Debug, PartialEq, Eq, Structural)]
pub enum Action {
    /// Forcibly delete the local target path.
    RemoveTarget,
    /// Clone the remote into the target path (network).
    CloneRemote,
    /// Append the timestamped line to the tracked file.
    AppendLine,
    /// Record the tracked file in the staging index.
    StageReadme,
    /// Write the index as a tree and commit it on top of HEAD.
    CreateCommit,
    /// Push the branch to the remote (network).
    PushBranch,
}

/// Where a run stands. Each phase is reachable only from its predecessor;
/// any failed step ends the run in `Failed`.
#[derive(Clone, Copy, Debug, PartialEq, Eq, Structural)]
pub enum Phase {
    Start,
    Removed,
    Cloned,
    Written,
    Staged,
    Committed,
    Pushed,
    Failed,
}

/// The step pending in phase `p`; `None` in the terminal phases.
pub open spec fn action_of(p: Phase) -> Option<Action> {
    match p {
        Phase::Start => Some(Action::RemoveTarget),
        Phase::Removed => Some(Action::CloneRemote),
        Phase::Cloned => Some(Action::AppendLine),
        Phase::Written => Some(Action::StageReadme),
        Phase::Staged => Some(Action::CreateCommit),
        Phase::Committed => Some(Action::PushBranch),
        Phase::Pushed => None,
        Phase::Failed => None,
    }
}

/// The phase after performing the pending step with outcome `ok`. A terminal
/// phase stays where it is.
pub open spec fn next_phase(p: Phase, ok: bool) -> Phase {
    match p {
        Phase::Start => if ok {
            Phase::Removed
        } else {
            Phase::Failed
        },
        Phase::Removed => if ok {
            Phase::Cloned
        } else {
            Phase::Failed
        },
        Phase::Cloned => if ok {
            Phase::Written
        } else {
            Phase::Failed
        },
        Phase::Written => if ok {
            Phase::Staged
        } else {
            Phase::Failed
        },
        Phase::Staged => if ok {
            Phase::Committed
        } else {
            Phase::Failed
        },
        Phase::Committed => if ok {
            Phase::Pushed
        } else {
            Phase::Failed
        },
        Phase::Pushed => Phase::Pushed,
        Phase::Failed => Phase::Failed,
    }
}

/// The phase a run reaches from `p` when the successive steps' outcomes are
/// `events`, front first; it stops early in a terminal phase.
pub open spec fn run_spec(p: Phase, events: Seq<bool>) -> Phase
    decreases events.len(),
{
    if events.len() == 0 || action_of(p) is None {
        p
    } else {
        run_spec(next_phase(p, events[0]), events.drop_first())
    }
}

/// The steps a run performs from `p` under the outcomes `events`, in order.
pub open spec fn trace_spec(p: Phase, events: Seq<bool>) -> Seq<Action>
    decreases events.len(),
{
    if events.len() == 0 || action_of(p) is None {
        Seq::<Action>::empty()
    } else {
        seq![action_of(p).unwrap()] + trace_spec(next_phase(p, events[0]), events.drop_first())
    }
}

/// The six steps of a complete run, in order.
pub open spec fn full_actions() -> Seq<Action> {
    seq![
        Action::RemoveTarget,
        Action::CloneRemote,
        Action::AppendLine,
        Action::StageReadme,
        Action::CreateCommit,
        Action::PushBranch,
    ]
}

/// How many steps a run starting at `p` has already completed.
pub open spec fn phase_index(p: Phase) -> int {
    match p {
        Phase::Start => 0,
        Phase::Removed => 1,
        Phase::Cloned => 2,
        Phase::Written => 3,
        Phase::Staged => 4,
        Phase::Committed => 5,
        Phase::Pushed => 6,
        Phase::Failed => 6,
    }
}

/// Whether a step reaches the network.
pub open spec fn is_network_action(a: Action) -> bool {
    a == Action::CloneRemote || a == Action::PushBranch
}

/// How many times step `a` occurs in the trace `t`.
pub open spec fn count_action(t: Seq<Action>, a: Action) -> nat
    decreases t.len(),
{
    if t.len() == 0 {
        0
    } else {
        count_action(t.drop_last(), a) + if t.last() == a {
            1nat
        } else {
            0nat
        }
    }
}

impl Phase {
    /// The step pending in this phase, or `None` when the run is over.
    pub fn next_action(&self) -> (a: Option<Action>)
        ensures
            a == action_of(*self),
    {
        match *self {
            Phase::Start => Some(Action::RemoveTarget),
            Phase::Removed => Some(Action::CloneRemote),
            Phase::Cloned => Some(Action::AppendLine),
            Phase::Written => Some(Action::StageReadme),
            Phase::Staged => Some(Action::CreateCommit),
            Phase::Committed => Some(Action::PushBranch),
            Phase::Pushed => None,
            Phase::Failed => None,
        }
    }

    /// Advances past the pending step, to its successor on success and to
    /// `Failed` otherwise.
    pub fn advance(&self, ok: bool) -> (p: Phase)
        ensures
            p == next_phase(*self, ok),
    {
        if !ok {
            match *self {
                Phase::Pushed => Phase::Pushed,
                Phase::Failed => Phase::Failed,
                _ => Phase::Failed,
            }
        } else {
            match *self {
                Phase::Start => Phase::Removed,
                Phase::Removed => Phase::Cloned,
                Phase::Cloned => Phase::Written,
                Phase::Written => Phase::Staged,
                Phase::Staged => Phase::Committed,
                Phase::Committed => Phase::Pushed,
                Phase::Pushed => Phase::Pushed,
                Phase::Failed => Phase::Failed,
            }
        }
    }

    /// Whether the run is over, successfully or not.
    pub fn is_terminal(&self) -> (b: bool)
        ensures
            b == (action_of(*self) is None),
    {
        match *self {
            Phase::Pushed => true,
            Phase::Failed => true,
            _ => false,
        }
    }
}

/// Replays a whole run: feeds the outcomes in `events` to the machine from
/// `Start` and returns the final phase with the steps performed, in order.
pub fn run_plan(events: &Vec<bool>) -> (r: (Phase, Vec<Action>))
    ensures
        r.0 == run_spec(Phase::Start, events@),
        r.1@ == trace_spec(Phase::Start, events@),
{
    let mut p = Phase::Start;
    let mut acts: Vec<Action> = Vec::new();
    let mut i: usize = 0;
    proof {
        assert(events@.skip(0) =~= events@);
    }
    while i < events.len() && !p.is_terminal()
        invariant
            0 <= i <= events@.len(),
            run_spec(Phase::Start, events@) == run_spec(p, events@.skip(i as int)),
            trace_spec(Phase::Start, events@) == acts@ + trace_spec(p, events@.skip(i as int)),
        decreases events@.len() - i,
    {
        let ghost s = events@.skip(i as int);
        let ghost p0 = p;
        let ghost acts0 = acts@;
        let a = p.next_action();
        match a {
            Some(act) => {
                let ok = events[i];
                acts.push(act);
                p = p.advance(ok);
                i = i + 1;
                proof {
                    assert(s[0] == events@[i - 1]);
                    assert(s.drop_first() =~= events@.skip(i as int));
                    assert(trace_spec(p0, s) == seq![act] + trace_spec(p, events@.skip(i as int)));
                    assert(acts@ =~= acts0 + seq![act]);
                    assert(acts@ + trace_spec(p, events@.skip(i as int)) =~= acts0 + trace_spec(
                        p0,
                        s,
                    ));
                }
            },
            None => {
                proof {
                    assert(false);
                }
            },
        }
    }
    proof {
        let s = events@.skip(i as int);
        if i == events@.len() {
            assert(s =~= Seq::<bool>::empty());
        }
        assert(trace_spec(p, s) =~= Seq::<Action>::empty());
        assert(acts@ + trace_spec(p, s) =~= acts@);
    }
    (p, acts)
}

proof fn lemma_pushed_from(p: Phase, events: Seq<bool>)
    requires
        p != Phase::Failed,
        run_spec(p, events) == Phase::Pushed,
    ensures
        trace_spec(p, events) == full_actions().skip(phase_index(p)),
    decreases events.len(),
{
    if p == Phase::Pushed {
        assert(full_actions().skip(6) =~= Seq::<Action>::empty());
    } else {
        assert(events.len() > 0);
        if !events[0] {
            assert(run_spec(Phase::Failed, events.drop_first()) == Phase::Failed);
            assert(false);
        }
        let q = next_phase(p, true);
        lemma_pushed_from(q, events.drop_first());
        assert(full_actions().skip(phase_index(p)) =~= seq![action_of(p).unwrap()]
            + full_actions().skip(phase_index(q)));
    }
}

/// A run that ends `Pushed` performed each of the six steps exactly once, in
/// order: in particular it created exactly one commit and pushed exactly once.
pub proof fn lemma_pushed_run_is_full(events: Seq<bool>)
    requires
        run_spec(Phase::Start, events) == Phase::Pushed,
    ensures
        trace_spec(Phase::Start, events) == full_actions(),
        count_action(trace_spec(Phase::Start, events), Action::CreateCommit) == 1,
        count_action(trace_spec(Phase::Start, events), Action::PushBranch) == 1,
{
    lemma_pushed_from(Phase::Start, events);
    assert(full_actions().skip(0) =~= full_actions());
    lemma_full_actions_counts();
}

/// Of the six steps of a complete run, exactly one creates a commit and
/// exactly one pushes.
pub proof fn lemma_full_actions_counts()
    ensures
        count_action(full_actions(), Action::CreateCommit) == 1,
        count_action(full_actions(), Action::PushBranch) == 1,
{
    reveal_with_fuel(count_action, 8);
    let s6 = full_actions();
    let s5 = seq![
        Action::RemoveTarget,
        Action::CloneRemote,
        Action::AppendLine,
        Action::StageReadme,
        Action::CreateCommit,
    ];
    let s4 = seq![Action::RemoveTarget, Action::CloneRemote, Action::AppendLine, Action::StageReadme];
    let s3 = seq![Action::RemoveTarget, Action::CloneRemote, Action::AppendLine];
    let s2 = seq![Action::RemoveTarget, Action::CloneRemote];
    let s1 = seq![Action::RemoveTarget];
    let s0 = Seq::<Action>::empty();
    assert(s6.drop_last() =~= s5);
    assert(s5.drop_last() =~= s4);
    assert(s4.drop_last() =~= s3);
    assert(s3.drop_last() =~= s2);
    assert(s2.drop_last() =~= s1);
    assert(s1.drop_last() =~= s0);
}

proof fn lemma_fail_from(p: Phase, events: Seq<bool>, k: int)
    requires
        0 <= k,
        phase_index(p) + k <= 5,
        p != Phase::Failed,
        p != Phase::Pushed,
        k < events.len(),
        forall|j: int| 0 <= j < k ==> events[j],
        !events[k],
    ensures
        run_spec(p, events) == Phase::Failed,
        trace_spec(p, events) == full_actions().subrange(phase_index(p), phase_index(p) + k + 1),
    decreases k,
{
    let i = phase_index(p);
    if k == 0 {
        assert(run_spec(Phase::Failed, events.drop_first()) == Phase::Failed);
        assert(trace_spec(Phase::Failed, events.drop_first()) =~= Seq::<Action>::empty());
        assert(trace_spec(p, events) =~= full_actions().subrange(i, i + 1));
    } else {
        assert(events[0]);
        let q = next_phase(p, true);
        let rest = events.drop_first();
        assert(forall|j: int| 0 <= j < k - 1 ==> rest[j]);
        assert(!rest[k - 1]);
        lemma_fail_from(q, rest, k - 1);
        assert(full_actions().subrange(i, i + k + 1) =~= seq![action_of(p).unwrap()]
            + full_actions().subrange(i + 1, i + k + 1));
    }
}

/// A failed step ends the run at once: if the first `k` steps succeed and
/// step `k` fails, the run ends `Failed` having performed exactly the first
/// `k + 1` steps of the plan and nothing after.
pub proof fn lemma_fail_fast(events: Seq<bool>, k: int)
    requires
        0 <= k < 6,
        k < events.len(),
        forall|j: int| 0 <= j < k ==> events[j],
        !events[k],
    ensures
        run_spec(Phase::Start, events) == Phase::Failed,
        trace_spec(Phase::Start, events) == full_actions().take(k + 1),
{
    lemma_fail_from(Phase::Start, events, k);
}

/// If the local target path cannot be deleted, the run fails before any
/// network step: nothing is cloned and nothing is pushed.
pub proof fn lemma_remove_failure_stays_local(events: Seq<bool>)
    requires
        events.len() > 0,
        !events[0],
    ensures
        run_spec(Phase::Start, events) == Phase::Failed,
        trace_spec(Phase::Start, events) == seq![Action::RemoveTarget],
        forall|i: int|
            0 <= i < trace_spec(Phase::Start, events).len() ==> !is_network_action(
                #[trigger] trace_spec(Phase::Start, events)[i],
            ),
{
    lemma_fail_fast(events, 0);
    assert(full_actions().take(1) =~= seq![Action::RemoveTarget]);
}

/// If any step up to and including staging fails, no commit is created and
/// nothing is pushed.
pub proof fn lemma_failure_before_commit(events: Seq<bool>, k: int)
    requires
        0 <= k <= 3,
        k < events.len(),
        forall|j: int| 0 <= j < k ==> events[j],
        !events[k],
    ensures
        run_spec(Phase::Start, events) == Phase::Failed,
        forall|i: int|
            0 <= i < trace_spec(Phase::Start, events).len() ==> #[trigger] trace_spec(
                Phase::Start,
                events,
            )[i] != Action::CreateCommit && trace_spec(Phase::Start, events)[i]
                != Action::PushBranch,
{
    lemma_fail_fast(events, k);
    let t = trace_spec(Phase::Start, events);
    assert forall|i: int| 0 <= i < t.len() implies #[trigger] t[i] != Action::CreateCommit && t[i]
        != Action::PushBranch by {
        assert(t[i] == full_actions()[i]);
        assert(0 <= i <= 3);
    }
}

/// If the push is rejected, the run ends `Failed`; the push was attempted
/// exactly once, as the last step, and nothing was retried after it.
pub proof fn lemma_push_failure_ends_run(events: Seq<bool>)
    requires
        events.len() >= 6,
        forall|j: int| 0 <= j < 5 ==> events[j],
        !events[5],
    ensures
        run_spec(Phase::Start, events) == Phase::Failed,
        trace_spec(Phase::Start, events) == full_actions(),
        trace_spec(Phase::Start, events).last() == Action::PushBranch,
        count_action(trace_spec(Phase::Start, events), Action::PushBranch) == 1,
{
    lemma_fail_fast(events, 5);
    assert(full_actions().take(6) =~= full_actions());
    lemma_full_actions_counts();
}

} // verus!
