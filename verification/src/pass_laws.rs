//! What holds of every pass, whatever the engine answers.

use crate::laws::{rank, stage, steps_go_forward};
use crate::pass::{first_pending, lemma_first_pending, pass_next, pass_run, PassActionView, PassView};
use crate::spawn::{next, SpawnEvent, SpawnState, TaskView};
use vstd::prelude::*;

verus! {

/// `first_pending` is the one index, counted from `from`, before which
/// every task is `Processed` and at which the task is not.
pub proof fn lemma_first_pending_is(tasks: Seq<TaskView>, from: nat, at: nat)
    requires
        from <= at <= tasks.len(),
        forall|i: int| from <= i < at ==> (#[trigger] tasks[i]).state == SpawnState::Processed,
        at < tasks.len() ==> tasks[at as int].state != SpawnState::Processed,
    ensures
        first_pending(tasks, from) == at,
    decreases at - from,
{
    if from < at {
        lemma_first_pending_is(tasks, from + 1, at);
    }
}

/// Idempotency, for the pass. A pass asks nothing for an entity that has its
/// marker: what it asks for is for the first entity without one, no other
/// task changes, and a task that is `Processed` stays as it is. No request is
/// ever changed, added or dropped.
pub proof fn pass_leaves_processed_requests_alone(pass: PassView, event: SpawnEvent)
    ensures
        ({
            let (after, action) = pass_next(pass, event);
            &&& after.tasks.len() == pass.tasks.len()
            &&& forall|i: int|
                0 <= i < pass.tasks.len() ==> (#[trigger] after.tasks[i]).scene
                    == pass.tasks[i].scene
            &&& forall|i: int|
                0 <= i < pass.tasks.len() && pass.tasks[i].state == SpawnState::Processed
                    ==> #[trigger] after.tasks[i] == pass.tasks[i]
            &&& action matches PassActionView::Perform { index, .. } ==> {
                &&& 0 <= index < pass.tasks.len()
                &&& pass.tasks[index].state != SpawnState::Processed
                &&& forall|i: int|
                    0 <= i < index ==> (#[trigger] pass.tasks[i]).state == SpawnState::Processed
                &&& forall|i: int|
                    0 <= i < pass.tasks.len() && i != index ==> #[trigger] after.tasks[i]
                        == pass.tasks[i]
            }
        }),
{
    lemma_first_pending(pass.tasks, 0);
}

/// No partly served pass. A pass says `Complete` exactly when it has not
/// been given up and every entity has its marker; and once a fatal
/// condition has ended the pass, it asks for nothing more and changes
/// nothing.
pub proof fn complete_pass_has_served_every_request(pass: PassView, event: SpawnEvent)
    ensures
        ({
            let (after, action) = pass_next(pass, event);
            &&& action is Complete <==> !pass.aborted && forall|i: int|
                0 <= i < pass.tasks.len() ==> (#[trigger] pass.tasks[i]).state
                    == SpawnState::Processed
            &&& action is Complete ==> after == pass
            &&& pass.aborted ==> after == pass && action is Idle
            &&& after.aborted <==> pass.aborted || (action matches PassActionView::Perform {
                action: inner,
                ..
            } && inner is Abort)
        }),
{
    lemma_first_pending(pass.tasks, 0);
    let at = first_pending(pass.tasks, 0);
    if at < pass.tasks.len() {
        assert(pass.tasks[at as int].state != SpawnState::Processed);
    }
}

/// Whether `pass` has come at least as far as stage `reached` of the entity
/// with the given index.
pub open spec fn at_least(pass: PassView, index: int, reached: nat) -> bool {
    let at = first_pending(pass.tasks, 0);
    at > index || (at == index && at < pass.tasks.len() && rank(pass.tasks[at as int].state)
        >= reached)
}

/// What one step of a pass does to the first pending task.
proof fn lemma_pass_step(pass: PassView, event: SpawnEvent)
    ensures
        ({
            let (after, action) = pass_next(pass, event);
            let at = first_pending(pass.tasks, 0);
            &&& !(action is Perform) ==> after == pass
            &&& action matches PassActionView::Perform { index, action: inner } ==> {
                &&& !pass.aborted
                &&& index == at
                &&& at < pass.tasks.len()
                &&& first_pending(after.tasks, 0) >= at
                &&& !(inner is Abort) ==> at_least(after, index, stage(inner)) && stage(inner)
                    > rank(pass.tasks[index].state)
            }
        }),
{
    lemma_first_pending(pass.tasks, 0);
    let at = first_pending(pass.tasks, 0);
    let (after, action) = pass_next(pass, event);
    if !pass.aborted && at < pass.tasks.len() {
        let task = pass.tasks[at as int];
        let (state, inner) = next(task.scene, task.state, event);
        steps_go_forward(task.scene, task.state, event);
        if inner is Idle {
            assert(after.tasks =~= pass.tasks);
        } else {
            assert forall|i: int| 0 <= i < at implies (#[trigger] after.tasks[i]).state
                == SpawnState::Processed by {
                assert(pass.tasks[i].state == SpawnState::Processed);
            }
            if state == SpawnState::Processed {
                lemma_first_pending(after.tasks, at + 1);
                let later = first_pending(after.tasks, at + 1);
                assert forall|i: int| 0 <= i < later implies (#[trigger] after.tasks[i]).state
                    == SpawnState::Processed by {
                    if i < at {
                        assert(pass.tasks[i].state == SpawnState::Processed);
                    }
                }
                lemma_first_pending_is(after.tasks, 0, later);
            } else {
                lemma_first_pending_is(after.tasks, 0, at);
            }
        }
    }
}

/// A run over `events` and one more event is the run over `events`, then one
/// step.
pub proof fn lemma_pass_run_push(start: PassView, events: Seq<SpawnEvent>, event: SpawnEvent)
    ensures
        pass_run(start, events.push(event)) == ({
            let (pass, actions) = pass_run(start, events);
            let (end, action) = pass_next(pass, event);
            (end, actions.push(action))
        }),
{
    assert(events.push(event).drop_last() =~= events);
}

/// A run asks for one action for each event.
pub proof fn lemma_pass_run_len(start: PassView, events: Seq<SpawnEvent>)
    ensures
        pass_run(start, events).1.len() == events.len(),
    decreases events.len(),
{
    if events.len() > 0 {
        lemma_pass_run_len(start, events.drop_last());
    }
}

/// The actions of the first `n` events are the first `n` actions.
pub proof fn lemma_pass_run_take(start: PassView, events: Seq<SpawnEvent>, n: int)
    requires
        0 <= n <= events.len(),
    ensures
        pass_run(start, events.take(n)).1 == pass_run(start, events).1.take(n),
    decreases events.len() - n,
{
    lemma_pass_run_len(start, events);
    if n == events.len() {
        assert(events.take(n) =~= events);
        assert(pass_run(start, events).1.take(n) =~= pass_run(start, events).1);
    } else {
        lemma_pass_run_take(start, events.drop_last(), n);
        lemma_pass_run_len(start, events.drop_last());
        assert(events.drop_last().take(n) =~= events.take(n));
        let shorter = pass_run(start, events.drop_last()).1;
        let action = pass_next(pass_run(start, events.drop_last()).0, events.last()).1;
        assert(shorter.push(action).take(n) =~= shorter.take(n));
    }
}

/// The action in answer to event `n` is the step from the pass after the
/// first `n` events.
proof fn lemma_pass_run_at(start: PassView, events: Seq<SpawnEvent>, n: int)
    requires
        0 <= n < events.len(),
    ensures
        pass_run(start, events).1[n] == pass_next(pass_run(start, events.take(n)).0, events[n]).1,
        pass_run(start, events.take(n + 1)).0 == pass_next(
            pass_run(start, events.take(n)).0,
            events[n],
        ).0,
{
    lemma_pass_run_take(start, events, n + 1);
    lemma_pass_run_push(start, events.take(n), events[n]);
    lemma_pass_run_len(start, events.take(n));
    lemma_pass_run_len(start, events);
    assert(events.take(n + 1) =~= events.take(n).push(events[n]));
    assert(pass_run(start, events).1.take(n + 1)[n] == pass_run(start, events).1[n]);
}

/// A pass that has been given up stays so.
proof fn lemma_aborted_stays(start: PassView, events: Seq<SpawnEvent>, m: int, n: int)
    requires
        0 <= m <= n <= events.len(),
        pass_run(start, events.take(m)).0.aborted,
    ensures
        pass_run(start, events.take(n)).0.aborted,
    decreases n - m,
{
    if m < n {
        lemma_aborted_stays(start, events, m, n - 1);
        lemma_pass_run_at(start, events, n - 1);
    }
}

/// While the pass goes on after action `i`, it stays at least as far as
/// that action.
proof fn lemma_pass_keeps_up(start: PassView, events: Seq<SpawnEvent>, i: int, n: int)
    requires
        0 <= i < n <= events.len(),
        pass_run(start, events).1[i] is Perform,
        !pass_run(start, events.take(n)).0.aborted,
    ensures
        ({
            let action = pass_run(start, events).1[i];
            at_least(
                pass_run(start, events.take(n)).0,
                action->index,
                stage(action->action),
            )
        }),
    decreases n - i,
{
    let before = pass_run(start, events.take(n - 1)).0;
    lemma_pass_run_at(start, events, n - 1);
    lemma_pass_step(before, events[n - 1]);
    if before.aborted {
        lemma_aborted_stays(start, events, n - 1, n);
    }
    if n - 1 > i {
        lemma_pass_keeps_up(start, events, i, n - 1);
    }
}

/// Order within a pass. Of two things that a pass asks for, the later one
/// is for a later entity, or for the same entity and a later stage (or it
/// gives that entity up). So in one pass every entity is taken up at most
/// once, the entities are served one after the other, and for each of them
/// resolution, instantiation, attachment, placement and marking are asked
/// for at most once and in that order.
pub proof fn pass_actions_keep_the_order(
    start: PassView,
    events: Seq<SpawnEvent>,
    i: int,
    j: int,
)
    requires
        0 <= i < j < events.len(),
        pass_run(start, events).1[i] is Perform,
        pass_run(start, events).1[j] is Perform,
    ensures
        ({
            let first = pass_run(start, events).1[i];
            let second = pass_run(start, events).1[j];
            ||| first->index < second->index
            ||| (first->index == second->index && (second->action is Abort || stage(first->action)
                < stage(second->action)))
        }),
{
    let at_j = pass_run(start, events.take(j)).0;
    lemma_pass_run_at(start, events, j);
    lemma_pass_step(at_j, events[j]);
    lemma_pass_keeps_up(start, events, i, j);
}

} // verus!
