//! One pass of the driver over the entities that carry a request.
//!
//! A [`SpawnPass`] holds the tasks of those entities and serves them one
//! after the other: each event goes to the first task that is not yet
//! `Processed`. A fatal condition ends the pass.

use crate::spawn::{next, ActionView, SpawnAction, SpawnEvent, SpawnState, SpawnTask, TaskView};
use vstd::prelude::*;

verus! {

/// What a pass asks of the driver.
#[derive(Debug, PartialEq)]
pub enum PassAction {
    /// Do `action` for the entity whose task has the given index, and answer
    /// it as the action says. `Mark` and `Abort` need no answer; after a
    /// `Mark`, `Visit` takes the pass on to the next entity.
    Perform { index: usize, action: SpawnAction },
    /// Every entity of the pass has its marker.
    Complete,
    /// Nothing to do: the event was not awaited, or the pass has been given up.
    Idle,
}

/// What a [`PassAction`] is.
pub enum PassActionView {
    Perform { index: int, action: ActionView },
    Complete,
    Idle,
}

impl View for PassAction {
    type V = PassActionView;

    open spec fn view(&self) -> PassActionView {
        match self {
            PassAction::Perform { index, action } => PassActionView::Perform {
                index: *index as int,
                action: action@,
            },
            PassAction::Complete => PassActionView::Complete,
            PassAction::Idle => PassActionView::Idle,
        }
    }
}

/// What a [`SpawnPass`] is: the tasks in the order of their entities, and
/// whether the pass has been given up.
pub struct PassView {
    pub tasks: Seq<TaskView>,
    pub aborted: bool,
}

/// The index of the first task at or after `from` that is not `Processed`,
/// or the number of tasks if there is none.
pub open spec fn first_pending(tasks: Seq<TaskView>, from: nat) -> nat
    decreases tasks.len() - from,
{
    if from >= tasks.len() {
        tasks.len()
    } else if tasks[from as int].state != SpawnState::Processed {
        from
    } else {
        first_pending(tasks, from + 1)
    }
}

/// The transition of a pass: the event goes to the first pending task.
pub open spec fn pass_next(pass: PassView, event: SpawnEvent) -> (PassView, PassActionView) {
    let at = first_pending(pass.tasks, 0);
    if pass.aborted {
        (pass, PassActionView::Idle)
    } else if at >= pass.tasks.len() {
        (pass, PassActionView::Complete)
    } else {
        let task = pass.tasks[at as int];
        let (state, action) = next(task.scene, task.state, event);
        (
            PassView {
                tasks: pass.tasks.update(at as int, TaskView { scene: task.scene, state }),
                aborted: action is Abort,
            },
            if action is Idle {
                PassActionView::Idle
            } else {
                PassActionView::Perform { index: at as int, action }
            },
        )
    }
}

/// The pass that is reached from `start` over `events`, and the actions asked
/// for on the way, one for each event.
pub open spec fn pass_run(start: PassView, events: Seq<SpawnEvent>) -> (
    PassView,
    Seq<PassActionView>,
)
    decreases events.len(),
{
    if events.len() == 0 {
        (start, Seq::empty())
    } else {
        let (pass, actions) = pass_run(start, events.drop_last());
        let (end, action) = pass_next(pass, events.last());
        (end, actions.push(action))
    }
}

/// What `first_pending` finds: the tasks it passes over are `Processed`, and
/// the one it stops at is not.
pub proof fn lemma_first_pending(tasks: Seq<TaskView>, from: nat)
    requires
        from <= tasks.len(),
    ensures
        from <= first_pending(tasks, from) <= tasks.len(),
        forall|i: int|
            from <= i < first_pending(tasks, from) ==> (#[trigger] tasks[i]).state
                == SpawnState::Processed,
        first_pending(tasks, from) < tasks.len() ==> tasks[first_pending(tasks, from) as int].state
            != SpawnState::Processed,
    decreases tasks.len() - from,
{
    if from < tasks.len() && tasks[from as int].state == SpawnState::Processed {
        lemma_first_pending(tasks, from + 1);
    }
}

/// The tasks of the entities that carry a request, served in their order.
#[derive(Debug, PartialEq)]
pub struct SpawnPass {
    tasks: Vec<SpawnTask>,
    aborted: bool,
}

impl View for SpawnPass {
    type V = PassView;

    closed spec fn view(&self) -> PassView {
        PassView { tasks: self.tasks@.map_values(|task: SpawnTask| task@), aborted: self.aborted }
    }
}

impl SpawnPass {
    /// A pass over no entities yet.
    pub fn new() -> (pass: Self)
        ensures
            pass@ == (PassView { tasks: Seq::empty(), aborted: false }),
    {
        let pass = SpawnPass { tasks: Vec::new(), aborted: false };
        assert(pass@.tasks =~= Seq::empty());
        pass
    }

    /// Adds the task of one more entity, after those already there, and
    /// returns its index.
    pub fn push(&mut self, task: SpawnTask) -> (index: usize)
        ensures
            index == old(self)@.tasks.len(),
            final(self)@ == (PassView { tasks: old(self)@.tasks.push(task@), ..old(self)@ }),
    {
        let index: usize = self.tasks.len();
        self.tasks.push(task);
        assert(self@.tasks =~= old(self)@.tasks.push(task@));
        index
    }

    /// The number of entities in the pass.
    pub fn len(&self) -> (n: usize)
        ensures
            n == self@.tasks.len(),
    {
        self.tasks.len()
    }

    /// The task with the given index, if there is one.
    pub fn task(&self, index: usize) -> (task: Option<&SpawnTask>)
        ensures
            index < self@.tasks.len() ==> (task matches Some(t) && t@ == self@.tasks[index as int]),
            index >= self@.tasks.len() ==> task is None,
    {
        if index < self.tasks.len() {
            Some(&self.tasks[index])
        } else {
            None
        }
    }

    /// Whether a fatal condition has ended the pass.
    pub fn is_aborted(&self) -> (aborted: bool)
        ensures
            aborted == self@.aborted,
    {
        self.aborted
    }

    /// Takes `event` and says what to do next.
    pub fn step(&mut self, event: SpawnEvent) -> (action: PassAction)
        ensures
            (final(self)@, action@) == pass_next(old(self)@, event),
    {
        if self.aborted {
            return PassAction::Idle;
        }
        let mut at: usize = 0;
        while at < self.tasks.len() && self.tasks[at].is_processed()
            invariant
                at <= self.tasks.len(),
                first_pending(self@.tasks, 0) == first_pending(self@.tasks, at as nat),
                *self == *old(self),
            decreases self.tasks.len() - at,
        {
            at += 1;
        }
        if at == self.tasks.len() {
            return PassAction::Complete;
        }
        let action = self.tasks[at].step(event);
        assert(self@.tasks =~= old(self)@.tasks.update(at as int, self.tasks[at as int]@));
        match action {
            SpawnAction::Idle => PassAction::Idle,
            SpawnAction::Abort { error } => {
                self.aborted = true;
                PassAction::Perform { index: at, action: SpawnAction::Abort { error } }
            },
            action => PassAction::Perform { index: at, action },
        }
    }
}

} // verus!
