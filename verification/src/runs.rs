//! Whole runs of the lifecycle machine: the steps that a session names in
//! answer to a sequence of reports, and what holds of every such run.

use crate::error::{OogitError, Outcome};
use crate::lifecycle::{ActionView, EventView, Fault, Operation, Phase, SessionView};
use vstd::prelude::*;

verus! {

/// Whether a phase is one in which the operation has ended.
pub open spec fn is_over(phase: Phase) -> bool {
    phase is Succeeded || phase is Failed
}

/// An upper bound on the steps that can still follow from a phase.
pub open spec fn rank(phase: Phase) -> nat {
    match phase {
        Phase::Idle => 15,
        Phase::Probing => 14,
        Phase::Locking => 13,
        Phase::Loading => 12,
        Phase::Preparing => 12,
        Phase::Cloning => 11,
        Phase::CloningDefault => 10,
        Phase::Adopting => 9,
        Phase::Recording => 8,
        Phase::Fetching => 7,
        Phase::Syncing => 6,
        Phase::Expanding => 5,
        Phase::Collapsing => 4,
        Phase::Committing => 3,
        Phase::Pushing => 2,
        Phase::Succeeded(_) => 0,
        Phase::Failed(_) => 0,
    }
}

/// The session after a sequence of reports.
pub open spec fn session_after(s: SessionView, events: Seq<EventView>) -> SessionView
    decreases events.len(),
{
    if events.len() == 0 {
        s
    } else {
        session_after(s.step(events[0]).0, events.drop_first())
    }
}

/// The steps that a session names in answer to a sequence of reports, one
/// for each report.
pub open spec fn actions_of(s: SessionView, events: Seq<EventView>) -> Seq<ActionView>
    decreases events.len(),
{
    if events.len() == 0 {
        Seq::empty()
    } else {
        seq![s.step(events[0]).1] + actions_of(s.step(events[0]).0, events.drop_first())
    }
}

/// The step that a session that has ended answers every report with.
pub open spec fn last_word(phase: Phase) -> ActionView {
    match phase {
        Phase::Succeeded(outcome) => ActionView::Finish { outcome },
        Phase::Failed(error) => ActionView::Abort { error },
        _ => ActionView::Abort { error: OogitError::IoFailure },
    }
}

/// Every step brings an operation that has not ended closer to its end.
pub proof fn lemma_step_advances(s: SessionView, event: EventView)
    requires
        !is_over(s.phase),
    ensures
        rank(s.step(event).0.phase) < rank(s.phase),
{
}

/// A step changes neither the operation nor the document worked on, and the
/// step that ends an operation is named exactly when the session ends.
pub proof fn lemma_step_keeps_subject(s: SessionView, event: EventView)
    ensures
        s.step(event).0.operation == s.operation,
        s.step(event).0.binding.document_path == s.binding.document_path,
        s.step(event).1.is_final() <==> is_over(s.step(event).0.phase),
        is_over(s.step(event).0.phase) ==> s.step(event).1 == last_word(s.step(event).0.phase),
{
}

/// Every report gets one step in answer.
pub proof fn lemma_one_action_each(s: SessionView, events: Seq<EventView>)
    ensures
        actions_of(s, events).len() == events.len(),
    decreases events.len(),
{
    if events.len() > 0 {
        lemma_one_action_each(s.step(events[0]).0, events.drop_first());
    }
}

/// Once an operation has ended, the session stays as it is and answers every
/// report with its end.
pub proof fn lemma_over_stays_over(s: SessionView, events: Seq<EventView>)
    requires
        is_over(s.phase),
    ensures
        session_after(s, events) == s,
        actions_of(s, events).len() == events.len(),
        forall|i: int| 0 <= i < events.len() ==> actions_of(s, events)[i] == last_word(s.phase),
    decreases events.len(),
{
    if events.len() > 0 {
        assert(s.step(events[0]).0 == s);
        lemma_over_stays_over(s, events.drop_first());
        let rest = actions_of(s, events.drop_first());
        assert forall|i: int| 0 <= i < events.len() implies actions_of(s, events)[i] == last_word(
            s.phase,
        ) by {
            if i > 0 {
                assert(actions_of(s, events)[i] == rest[i - 1]);
            }
        }
    }
}

/// No run is longer than the rank of its first phase: after that many
/// reports the operation has ended.
pub proof fn lemma_run_ends(s: SessionView, events: Seq<EventView>)
    requires
        events.len() >= rank(s.phase),
    ensures
        is_over(session_after(s, events).phase),
    decreases events.len(),
{
    if is_over(s.phase) {
        lemma_over_stays_over(s, events);
    } else {
        lemma_step_advances(s, events[0]);
        lemma_run_ends(s.step(events[0]).0, events.drop_first());
    }
}

/// An initialize without leave to overwrite, on a document whose sidecar
/// directory exists, ends with `AlreadyBound` and names no step that changes
/// anything, whatever is reported afterwards.
pub proof fn lemma_initialize_leaves_bound_document_alone(
    s: SessionView,
    events: Seq<EventView>,
    tree_exists: bool,
)
    requires
        s.operation == Operation::Initialize,
        s.phase == Phase::Idle,
        !s.binding.force,
        events.len() >= 2,
        events[0] == EventView::Begin,
        events[1] == (EventView::Probed { sidecar_exists: true, tree_exists }),
    ensures
        actions_of(s, events).len() == events.len(),
        forall|i: int| 0 <= i < events.len() ==> !actions_of(s, events)[i].mutates(),
        forall|i: int|
            1 <= i < events.len() ==> actions_of(s, events)[i] == (ActionView::Abort {
                error: OogitError::AlreadyBound,
            }),
        session_after(s, events).phase == Phase::Failed(OogitError::AlreadyBound),
{
    let s1 = s.step(events[0]).0;
    let s2 = s1.step(events[1]).0;
    let rest = events.drop_first().drop_first();
    assert(events.drop_first()[0] == events[1]);
    assert(s2.phase == Phase::Failed(OogitError::AlreadyBound));
    lemma_over_stays_over(s2, rest);
    lemma_one_action_each(s, events);
    let tail = actions_of(s2, rest);
    let all = actions_of(s, events);
    let e1 = events.drop_first();
    assert(e1.drop_first() == rest);
    assert(actions_of(s1, e1) == seq![s1.step(events[1]).1] + tail);
    assert(all == seq![s.step(events[0]).1] + actions_of(s1, e1));
    assert forall|i: int| 0 <= i < events.len() implies !all[i].mutates() by {
        if i >= 2 {
            assert(all[i] == tail[i - 2]);
        }
    }
    assert forall|i: int| 1 <= i < events.len() implies all[i] == (ActionView::Abort {
        error: OogitError::AlreadyBound,
    }) by {
        if i >= 2 {
            assert(all[i] == tail[i - 2]);
        }
    }
    assert(session_after(s1, e1) == session_after(s2, rest));
    assert(session_after(s, events) == session_after(s1, e1));
}

/// An initialize with leave to overwrite is never refused: whatever was
/// found where the sidecar directory belongs, it locks the directory and
/// makes the working tree anew, removing the old one exactly where there is
/// one. Whether the steps that follow succeed is for the reports to say.
pub proof fn lemma_initialize_with_force_claims(
    s: SessionView,
    sidecar_exists: bool,
    tree_exists: bool,
)
    requires
        s.operation == Operation::Initialize,
        s.phase == Phase::Probing,
        s.binding.force,
    ensures
        ({
            let probed = s.step(EventView::Probed { sidecar_exists, tree_exists });
            let locked = probed.0.step(EventView::Done);
            &&& probed.1 == s.lock()
            &&& locked.0.phase == Phase::Preparing
            &&& locked.1 == (ActionView::ResetTree {
                working_tree: s.binding.working_tree(),
                remove_first: tree_exists,
            })
        }),
{
}

/// A checkout claims the sidecar directory whether or not it has leave to
/// overwrite: that leave governs the document alone.
pub proof fn lemma_checkout_claims_sidecar(s: SessionView, sidecar_exists: bool, tree_exists: bool)
    requires
        s.operation == Operation::Checkout,
        s.phase == Phase::Probing,
    ensures
        ({
            let probed = s.step(EventView::Probed { sidecar_exists, tree_exists });
            let locked = probed.0.step(EventView::Done);
            &&& probed.1 == s.lock()
            &&& locked.1 == (ActionView::ResetTree {
                working_tree: s.binding.working_tree(),
                remove_first: tree_exists,
            })
        }),
{
}

/// When staging finds nothing changed, no later step of the run can add a
/// commit, and a run that succeeds reports an empty change set.
pub proof fn lemma_unchanged_content_adds_no_commit(s: SessionView, events: Seq<EventView>)
    requires
        s.phase == Phase::Committing,
        events.len() >= 1,
        events[0] == (EventView::Staged { committed: false }),
    ensures
        forall|i: int| 0 <= i < events.len() ==> !actions_of(s, events)[i].commits(),
        forall|i: int|
            0 <= i < events.len() && actions_of(s, events)[i] is Finish ==> actions_of(
                s,
                events,
            )[i] == (ActionView::Finish { outcome: Outcome::EmptyChangeSet }),
        session_after(s, events).phase is Succeeded ==> session_after(s, events).phase
            == Phase::Succeeded(Outcome::EmptyChangeSet),
{
    let s1 = s.step(events[0]).0;
    let first = s.step(events[0]).1;
    let rest = events.drop_first();
    let all = actions_of(s, events);
    lemma_one_action_each(s1, rest);
    assert(all == seq![first] + actions_of(s1, rest));
    if is_over(s1.phase) {
        lemma_over_stays_over(s1, rest);
        assert forall|i: int| 0 <= i < events.len() implies !all[i].commits() && (all[i] is Finish
            ==> all[i] == (ActionView::Finish { outcome: Outcome::EmptyChangeSet })) by {
            if i >= 1 {
                assert(all[i] == actions_of(s1, rest)[i - 1]);
            }
        }
    } else {
        assert(s1.phase == Phase::Pushing);
        assert(!s1.committed);
        if rest.len() > 0 {
            let s2 = s1.step(rest[0]).0;
            let second = s1.step(rest[0]).1;
            let tail = rest.drop_first();
            assert(is_over(s2.phase));
            lemma_over_stays_over(s2, tail);
            assert(actions_of(s1, rest) == seq![second] + actions_of(s2, tail));
            assert forall|i: int| 0 <= i < events.len() implies !all[i].commits() && (all[i]
                is Finish ==> all[i] == (ActionView::Finish {
                outcome: Outcome::EmptyChangeSet,
            })) by {
                if i >= 2 {
                    assert(all[i] == actions_of(s1, rest)[i - 1]);
                    assert(actions_of(s1, rest)[i - 1] == actions_of(s2, tail)[i - 2]);
                } else if i == 1 {
                    assert(all[i] == actions_of(s1, rest)[0]);
                }
            }
            assert(session_after(s, events) == session_after(s2, tail));
        } else {
            assert(session_after(s1, rest) == s1);
        }
    }
}

/// A commit creates a commit exactly when the content changed: the run ends
/// at once, with `Committed` where staging created one and with
/// `EmptyChangeSet` where it did not, and nothing is pushed.
pub proof fn lemma_commit_reports_change(s: SessionView, committed: bool)
    requires
        s.operation == Operation::Commit,
        s.phase == Phase::Committing,
    ensures
        s.step(EventView::Staged { committed }).1 == (ActionView::Finish {
            outcome: if committed {
                Outcome::Committed
            } else {
                Outcome::EmptyChangeSet
            },
        }),
{
}

/// A failed clone is answered with a clone of the default branch exactly
/// when a branch was asked for and the failure is that it was not found;
/// every other failed clone ends the operation with `CloneFailure`.
pub proof fn lemma_fallback_exactly_on_missing_branch(s: SessionView, fault: Fault)
    requires
        s.phase == Phase::Cloning,
    ensures
        s.step(EventView::Failed { fault }).1 is Clone <==> s.binding.branch is Some && fault
            == Fault::NotFound,
        s.step(EventView::Failed { fault }).1 is Clone ==> s.step(EventView::Failed { fault }).1
            == (ActionView::Clone {
            repo_url: s.binding.repo_url,
            branch: None,
            into: s.binding.working_tree(),
        }),
        !(s.step(EventView::Failed { fault }).1 is Clone) ==> s.step(
            EventView::Failed { fault },
        ).1 == (ActionView::Abort { error: OogitError::CloneFailure }),
{
}

/// After the fallback the branch asked for is created at the tip that was
/// cloned, and the binding is stored: no step between the clone and the
/// unpacking of the archive can add a commit.
pub proof fn lemma_fallback_adopts_cloned_tip(s: SessionView, branch: Seq<char>)
    requires
        s.phase == Phase::Cloning,
        s.binding.branch == Some(branch),
    ensures
        ({
            let events = seq![
                EventView::Failed { fault: Fault::NotFound },
                EventView::Done,
                EventView::Done,
            ];
            let actions = actions_of(s, events);
            &&& actions.len() == 3
            &&& actions[0] == s.clone_at(None)
            &&& actions[1] == s.adopt(branch)
            &&& actions[2] == s.record()
            &&& forall|i: int| 0 <= i < 3 ==> !actions[i].commits()
            &&& session_after(s, events).phase == Phase::Recording
        }),
{
    let events = seq![EventView::Failed { fault: Fault::NotFound }, EventView::Done, EventView::Done];
    let s1 = s.step(events[0]).0;
    let s2 = s1.step(events[1]).0;
    let s3 = s2.step(events[2]).0;
    let e1 = events.drop_first();
    let e2 = e1.drop_first();
    let e3 = e2.drop_first();
    assert(e1[0] == events[1]);
    assert(e2[0] == events[2]);
    assert(e3.len() == 0);
    assert(actions_of(s3, e3) == Seq::<ActionView>::empty());
    assert(actions_of(s2, e2) == seq![s2.step(events[2]).1] + actions_of(s3, e3));
    assert(actions_of(s1, e1) == seq![s1.step(events[1]).1] + actions_of(s2, e2));
    assert(actions_of(s, events) == seq![s.step(events[0]).1] + actions_of(s1, e1));
    assert(session_after(s3, e3) == s3);
    assert(session_after(s2, e2) == s3);
    assert(session_after(s1, e1) == s3);
    assert(session_after(s, events) == s3);
}

/// A commit never pushes: no run of it names a push, whatever is reported.
pub proof fn lemma_commit_never_pushes(s: SessionView, events: Seq<EventView>)
    requires
        s.operation == Operation::Commit,
    ensures
        forall|i: int| 0 <= i < events.len() ==> !(actions_of(s, events)[i] is Push),
    decreases events.len(),
{
    lemma_one_action_each(s, events);
    if events.len() > 0 {
        let next = s.step(events[0]).0;
        let rest = events.drop_first();
        lemma_step_keeps_subject(s, events[0]);
        lemma_commit_never_pushes(next, rest);
        lemma_one_action_each(next, rest);
        assert forall|i: int| 0 <= i < events.len() implies !(actions_of(s, events)[i] is Push) by {
            if i > 0 {
                assert(actions_of(s, events)[i] == actions_of(next, rest)[i - 1]);
            }
        }
    }
}

/// Whether an operation ever comes to a phase: each operation passes
/// through the phases of its own steps only.
pub open spec fn belongs(operation: Operation, phase: Phase) -> bool {
    match phase {
        Phase::Idle | Phase::Locking | Phase::Succeeded(_) | Phase::Failed(_) => true,
        Phase::Probing | Phase::Preparing | Phase::Cloning | Phase::CloningDefault
        | Phase::Adopting | Phase::Recording => operation == Operation::Initialize || operation
            == Operation::Checkout,
        Phase::Loading => operation != Operation::Initialize && operation != Operation::Checkout,
        Phase::Fetching => operation == Operation::Update,
        Phase::Syncing => operation == Operation::Update || operation == Operation::Reset,
        Phase::Expanding => operation != Operation::Checkout && operation != Operation::Reset,
        Phase::Collapsing => operation != Operation::Initialize && operation != Operation::Commit,
        Phase::Committing => operation != Operation::Checkout && operation != Operation::Reset,
        Phase::Pushing => operation == Operation::Initialize || operation == Operation::Update,
    }
}

/// A step never takes an operation to a phase of another operation.
pub proof fn lemma_step_stays_in_operation(s: SessionView, event: EventView)
    requires
        belongs(s.operation, s.phase),
    ensures
        belongs(s.step(event).0.operation, s.step(event).0.phase),
{
}

/// Checkout and reset leave the history as it is: no run of them names a
/// commit or a push, whatever is reported.
pub proof fn lemma_restoring_leaves_history_alone(s: SessionView, events: Seq<EventView>)
    requires
        s.operation == Operation::Checkout || s.operation == Operation::Reset,
        belongs(s.operation, s.phase),
    ensures
        forall|i: int|
            0 <= i < events.len() ==> !actions_of(s, events)[i].commits() && !(actions_of(
                s,
                events,
            )[i] is Push),
    decreases events.len(),
{
    lemma_one_action_each(s, events);
    if events.len() > 0 {
        let next = s.step(events[0]).0;
        let rest = events.drop_first();
        lemma_step_keeps_subject(s, events[0]);
        lemma_step_stays_in_operation(s, events[0]);
        lemma_restoring_leaves_history_alone(next, rest);
        lemma_one_action_each(next, rest);
        assert forall|i: int| 0 <= i < events.len() implies !actions_of(s, events)[i].commits()
            && !(actions_of(s, events)[i] is Push) by {
            if i > 0 {
                assert(actions_of(s, events)[i] == actions_of(next, rest)[i - 1]);
            }
        }
    }
}

/// Only the fallback repeats a step: a second clone is named in no other
/// way than in answer to a clone that did not find the branch asked for.
pub proof fn lemma_no_retry_but_the_fallback(s: SessionView, event: EventView)
    requires
        s.step(event).1 is Clone,
    ensures
        s.phase == Phase::Preparing && event == EventView::Done || s.phase == Phase::Cloning
            && event == (EventView::Failed { fault: Fault::NotFound }) && s.binding.branch is Some,
        event is Failed ==> s.step(event).0.phase == Phase::CloningDefault,
{
}

} // verus!
