//! What holds of every request, whatever the engine answers.

use crate::erased::{ErasedGd, ErasedGdResource};
use crate::scene::{GodotSceneTransform, ResourceView, SceneView};
use crate::spawn::{
    add_child, dimension_of, instantiate, load_path, next, run, ActionView, Dimension,
    Instantiation, SpawnEvent, SpawnState,
};
use vstd::prelude::*;

verus! {

/// A run over `events` and one more event is the run over `events`, then one
/// step.
pub proof fn lemma_run_push(
    scene: SceneView,
    start: SpawnState,
    events: Seq<SpawnEvent>,
    event: SpawnEvent,
)
    ensures
        run(scene, start, events.push(event)) == ({
            let (state, actions) = run(scene, start, events);
            let (end, action) = next(scene, state, event);
            (end, actions.push(action))
        }),
{
    assert(events.push(event).drop_last() =~= events);
}

/// A run over `first + second` is the run over `first`, then the run over
/// `second` from where the first ended.
pub proof fn lemma_run_concat(
    scene: SceneView,
    start: SpawnState,
    first: Seq<SpawnEvent>,
    second: Seq<SpawnEvent>,
)
    ensures
        run(scene, start, first + second) == ({
            let (middle, head) = run(scene, start, first);
            let (end, tail) = run(scene, middle, second);
            (end, head + tail)
        }),
    decreases second.len(),
{
    let (middle, head) = run(scene, start, first);
    if second.len() == 0 {
        assert(first + second =~= first);
        assert(head + Seq::<ActionView>::empty() =~= head);
    } else {
        lemma_run_concat(scene, start, first, second.drop_last());
        assert((first + second).drop_last() =~= first + second.drop_last());
        let (state, tail) = run(scene, middle, second.drop_last());
        let (end, action) = next(scene, state, second.last());
        assert((head + tail).push(action) =~= head + tail.push(action));
    }
}

/// A run asks for one action for each event.
pub proof fn lemma_run_len(scene: SceneView, start: SpawnState, events: Seq<SpawnEvent>)
    ensures
        run(scene, start, events).1.len() == events.len(),
    decreases events.len(),
{
    if events.len() > 0 {
        lemma_run_len(scene, start, events.drop_last());
    }
}

/// Idempotency. Once a request has reached `Processed`, nothing the driver
/// tells it makes it ask for anything again: it is not resolved, instantiated
/// or attached a second time, and it stays `Processed`.
pub proof fn processed_requests_are_left_alone(
    scene: SceneView,
    start: SpawnState,
    before: Seq<SpawnEvent>,
    after: Seq<SpawnEvent>,
)
    requires
        run(scene, start, before).0 == SpawnState::Processed,
    ensures
        run(scene, start, before + after).0 == SpawnState::Processed,
        run(scene, start, before + after).1.len() == before.len() + after.len(),
        forall|i: int|
            before.len() <= i < before.len() + after.len() ==> run(
                scene,
                start,
                before + after,
            ).1[i] == ActionView::Idle,
{
    lemma_run_concat(scene, start, before, after);
    lemma_run_len(scene, start, before);
    lemma_processed_is_final(scene, after);
}

proof fn lemma_processed_is_final(scene: SceneView, events: Seq<SpawnEvent>)
    ensures
        run(scene, SpawnState::Processed, events).0 == SpawnState::Processed,
        run(scene, SpawnState::Processed, events).1.len() == events.len(),
        forall|i: int|
            0 <= i < events.len() ==> run(scene, SpawnState::Processed, events).1[i]
                == ActionView::Idle,
    decreases events.len(),
{
    if events.len() > 0 {
        lemma_processed_is_final(scene, events.drop_last());
    }
}

/// The nodes that a run put into the scene graph: those for which the task
/// asked `AddChild` and the engine confirmed it.
pub open spec fn attached_nodes(scene: SceneView, start: SpawnState, events: Seq<SpawnEvent>) -> Seq<
    ErasedGd,
>
    decreases events.len(),
{
    if events.len() == 0 {
        Seq::empty()
    } else {
        let before = attached_nodes(scene, start, events.drop_last());
        match (run(scene, start, events.drop_last()).0, events.last()) {
            (SpawnState::Attaching(node), SpawnEvent::Attached(true)) => before.push(node),
            _ => before,
        }
    }
}

/// The nodes that the actions give to the entity, together with the marker.
pub open spec fn marked_nodes(actions: Seq<ActionView>) -> Seq<ErasedGd>
    decreases actions.len(),
{
    if actions.len() == 0 {
        Seq::empty()
    } else {
        let before = marked_nodes(actions.drop_last());
        match actions.last() {
            ActionView::Mark { node, .. } => before.push(node),
            _ => before,
        }
    }
}

/// The transforms that the actions ask the engine to set, each with its node.
pub open spec fn transforms_set(actions: Seq<ActionView>) -> Seq<(ErasedGd, GodotSceneTransform)>
    decreases actions.len(),
{
    if actions.len() == 0 {
        Seq::empty()
    } else {
        let before = transforms_set(actions.drop_last());
        match actions.last() {
            ActionView::SetGlobalTransform { node, transform } => before.push((node, transform)),
            _ => before,
        }
    }
}

/// The mismatches that the actions report, each with its node.
pub open spec fn mismatches_reported(actions: Seq<ActionView>) -> Seq<(ErasedGd, Dimension)>
    decreases actions.len(),
{
    if actions.len() == 0 {
        Seq::empty()
    } else {
        let before = mismatches_reported(actions.drop_last());
        match actions.last() {
            ActionView::Mark { node, mismatch: Some(dim) } => before.push((node, dim)),
            _ => before,
        }
    }
}

/// What a run has done to the scene graph and to the entity.
pub struct Ledger {
    /// The nodes put into the scene graph.
    pub attached: Seq<ErasedGd>,
    /// The nodes given to the entity with the marker.
    pub marked: Seq<ErasedGd>,
    /// The transforms set.
    pub set: Seq<(ErasedGd, GodotSceneTransform)>,
    /// The mismatches reported.
    pub reported: Seq<(ErasedGd, Dimension)>,
}

/// The ledger of the run from `Unprocessed` over `events`.
pub open spec fn ledger(scene: SceneView, events: Seq<SpawnEvent>) -> Ledger {
    let actions = run(scene, SpawnState::Unprocessed, events).1;
    Ledger {
        attached: attached_nodes(scene, SpawnState::Unprocessed, events),
        marked: marked_nodes(actions),
        set: transforms_set(actions),
        reported: mismatches_reported(actions),
    }
}

/// How the state of a task that began unprocessed goes with its ledger.
pub open spec fn ledger_fits(scene: SceneView, state: SpawnState, book: Ledger) -> bool {
    match state {
        SpawnState::Casting(node, transform) => {
            &&& book.attached == seq![node]
            &&& book.marked.len() == 0
            &&& book.set.len() == 0
            &&& book.reported.len() == 0
            &&& scene.transform == Some(transform)
        },
        SpawnState::Transforming(node) => {
            &&& book.attached == seq![node]
            &&& book.marked.len() == 0
            &&& book.set.len() == 1
            &&& book.set[0].0 == node
            &&& scene.transform == Some(book.set[0].1)
            &&& book.reported.len() == 0
        },
        SpawnState::Processed => {
            &&& book.attached.len() == 1
            &&& book.marked == book.attached
            &&& book.set.len() + book.reported.len() == if scene.transform is Some {
                1nat
            } else {
                0nat
            }
            &&& book.set.len() == 1 ==> book.set[0].0 == book.attached[0] && scene.transform
                == Some(book.set[0].1)
            &&& book.reported.len() == 1 ==> book.reported[0].0 == book.attached[0]
                && scene.transform is Some && book.reported[0].1 == dimension_of(
                scene.transform->0,
            )
        },
        _ => {
            &&& book.attached.len() == 0
            &&& book.marked.len() == 0
            &&& book.set.len() == 0
            &&& book.reported.len() == 0
        },
    }
}

/// The bookkeeping behind the laws on attachment and placement: after every
/// run from `Unprocessed`, the state and the ledger fit.
pub proof fn lemma_ledger_fits(scene: SceneView, events: Seq<SpawnEvent>)
    ensures
        ledger_fits(scene, run(scene, SpawnState::Unprocessed, events).0, ledger(scene, events)),
    decreases events.len(),
{
    let start = SpawnState::Unprocessed;
    if events.len() > 0 {
        lemma_ledger_fits(scene, events.drop_last());
        let (state, actions) = run(scene, start, events.drop_last());
        let (end, action) = next(scene, state, events.last());
        assert(actions.push(action).drop_last() =~= actions);
        assert(actions.push(action).last() == action);
        let before = ledger(scene, events.drop_last());
        let after = ledger(scene, events);
        match state {
            SpawnState::Attaching(node) => {
                assert(Seq::<ErasedGd>::empty().push(node) =~= seq![node]);
                assert(before.attached =~= Seq::<ErasedGd>::empty());
                assert(before.marked =~= Seq::<ErasedGd>::empty());
            },
            SpawnState::Casting(node, _) => {
                assert(before.marked =~= Seq::<ErasedGd>::empty());
                assert(Seq::<ErasedGd>::empty().push(node) =~= seq![node]);
            },
            SpawnState::Transforming(node) => {
                assert(before.marked =~= Seq::<ErasedGd>::empty());
                assert(Seq::<ErasedGd>::empty().push(node) =~= seq![node]);
            },
            _ => {},
        }
    }
}

/// Exactly-once attachment. Of a request that began unprocessed, at most one
/// node is ever put into the scene graph. Once the request is `Processed`
/// there is exactly one, and it is the node that the entity was given with
/// its marker; until then the entity is given none.
pub proof fn processed_requests_are_attached_once(scene: SceneView, events: Seq<SpawnEvent>)
    ensures
        ({
            let (end, actions) = run(scene, SpawnState::Unprocessed, events);
            let attached = attached_nodes(scene, SpawnState::Unprocessed, events);
            &&& attached.len() <= 1
            &&& end == SpawnState::Processed ==> attached.len() == 1 && marked_nodes(actions)
                == attached
            &&& end != SpawnState::Processed ==> marked_nodes(actions).len() == 0
        }),
{
    lemma_ledger_fits(scene, events);
}

/// Placement is settled once. Of a request that began unprocessed, whatever
/// the engine answers and however often a pass was given up:
/// the engine is asked at most once to set a transform, and then it is the
/// request's own, unchanged, on the attached node; a mismatch is reported at
/// most once, for the dimension of the request's transform, and then the
/// engine is never asked to set a transform; and a request that is
/// `Processed` has had the one or the other if it has a placement, and
/// neither if it has none.
pub proof fn placement_is_settled_once(scene: SceneView, events: Seq<SpawnEvent>)
    ensures
        ({
            let (end, actions) = run(scene, SpawnState::Unprocessed, events);
            let attached = attached_nodes(scene, SpawnState::Unprocessed, events);
            let set = transforms_set(actions);
            let reported = mismatches_reported(actions);
            &&& set.len() + reported.len() <= 1
            &&& set.len() == 1 ==> attached.len() == 1 && set[0].0 == attached[0]
                && scene.transform == Some(set[0].1)
            &&& reported.len() == 1 ==> {
                &&& end == SpawnState::Processed
                &&& attached.len() == 1
                &&& reported[0].0 == attached[0]
                &&& scene.transform is Some
                &&& reported[0].1 == dimension_of(scene.transform->0)
            }
            &&& end == SpawnState::Processed ==> set.len() + reported.len() == if scene.transform
                is Some {
                1nat
            } else {
                0nat
            }
        }),
{
    lemma_ledger_fits(scene, events);
}

/// Whether the driver never starts a pass in `events`.
pub open spec fn no_visit(events: Seq<SpawnEvent>) -> bool {
    forall|i: int| 0 <= i < events.len() ==> events[i] != SpawnEvent::Visit
}

proof fn lemma_run_forgets_resource(
    a: SceneView,
    b: SceneView,
    start: SpawnState,
    events: Seq<SpawnEvent>,
)
    requires
        a.transform == b.transform,
        no_visit(events),
    ensures
        run(a, start, events) == run(b, start, events),
    decreases events.len(),
{
    if events.len() > 0 {
        assert(no_visit(events.drop_last()));
        lemma_run_forgets_resource(a, b, start, events.drop_last());
        assert(events.last() == events[events.len() - 1]);
    }
}

/// Resolution equivalence. However a request names its template, once the
/// template is found the engine is asked the same thing: to instantiate that
/// template, without edit state. If two requests also agree on the
/// placement, the rest of the pass is the same for both, whatever the engine
/// answers.
pub proof fn resolution_erases_origin(
    a: SceneView,
    b: SceneView,
    template: ErasedGdResource,
    rest: Seq<SpawnEvent>,
)
    requires
        !(a.resource is Resource),
        !(b.resource is Resource),
        no_visit(rest),
    ensures
        ({
            let found = seq![SpawnEvent::Visit, SpawnEvent::Resolved(Some(template))];
            let inline = SceneView { resource: ResourceView::Resource(template), transform: a.transform };
            let (state_a, actions_a) = run(a, SpawnState::Unprocessed, found);
            let (state_b, actions_b) = run(b, SpawnState::Unprocessed, found);
            let (state_i, actions_i) = run(inline, SpawnState::Unprocessed, seq![SpawnEvent::Visit]);
            &&& state_a == SpawnState::Instantiating
            &&& state_b == SpawnState::Instantiating
            &&& state_i == SpawnState::Instantiating
            &&& actions_a[1] == instantiate(template)
            &&& actions_b[1] == instantiate(template)
            &&& actions_i[0] == instantiate(template)
            &&& a.transform == b.transform ==> run(a, state_a, rest) == run(b, state_b, rest)
                && run(a, state_a, rest) == run(inline, state_i, rest)
        }),
{
    let visit = seq![SpawnEvent::Visit];
    let found = seq![SpawnEvent::Visit, SpawnEvent::Resolved(Some(template))];
    let inline = SceneView { resource: ResourceView::Resource(template), transform: a.transform };
    assert(visit =~= Seq::<SpawnEvent>::empty().push(SpawnEvent::Visit));
    assert(found =~= visit.push(SpawnEvent::Resolved(Some(template))));
    lemma_run_push(a, SpawnState::Unprocessed, Seq::empty(), SpawnEvent::Visit);
    lemma_run_push(b, SpawnState::Unprocessed, Seq::empty(), SpawnEvent::Visit);
    lemma_run_push(inline, SpawnState::Unprocessed, Seq::empty(), SpawnEvent::Visit);
    lemma_run_push(a, SpawnState::Unprocessed, visit, SpawnEvent::Resolved(Some(template)));
    lemma_run_push(b, SpawnState::Unprocessed, visit, SpawnEvent::Resolved(Some(template)));
    if a.transform == b.transform {
        lemma_run_forgets_resource(a, b, SpawnState::Instantiating, rest);
        lemma_run_forgets_resource(a, inline, SpawnState::Instantiating, rest);
    }
}

/// The events of a pass in which nothing fatal happens: the template is
/// found (`template`, unless the request holds its own), it instantiates to
/// `node`, there is a current scene, and, if the request has a placement, the
/// node has the interface for it or not, as `fits` says.
pub open spec fn smooth_pass(
    scene: SceneView,
    template: ErasedGdResource,
    node: ErasedGd,
    fits: bool,
) -> Seq<SpawnEvent> {
    let resolving = match scene.resource {
        ResourceView::Resource(_) => seq![SpawnEvent::Visit],
        _ => seq![SpawnEvent::Visit, SpawnEvent::Resolved(Some(template))],
    };
    let attaching = seq![
        SpawnEvent::Instantiated(Instantiation::Root(node)),
        SpawnEvent::Attached(true),
    ];
    let placing = match scene.transform {
        None => Seq::empty(),
        Some(_) => if fits {
            seq![SpawnEvent::Downcast(true), SpawnEvent::TransformSet]
        } else {
            seq![SpawnEvent::Downcast(false)]
        },
    };
    resolving + attaching + placing
}

/// What a task asks for in the course of [`smooth_pass`].
pub open spec fn smooth_pass_actions(
    scene: SceneView,
    template: ErasedGdResource,
    node: ErasedGd,
    fits: bool,
) -> Seq<ActionView> {
    let resolving = match scene.resource {
        ResourceView::Path(path) => seq![load_path(path), instantiate(template)],
        ResourceView::Handle(handle) => seq![
            ActionView::LookupAsset { handle },
            instantiate(template),
        ],
        ResourceView::Resource(res) => seq![instantiate(res)],
    };
    let attaching = seq![add_child(node)];
    let placing = match scene.transform {
        None => seq![ActionView::Mark { node, mismatch: None }],
        Some(transform) => if fits {
            seq![
                ActionView::Downcast { node, to: dimension_of(transform) },
                ActionView::SetGlobalTransform { node, transform },
                ActionView::Mark { node, mismatch: None },
            ]
        } else {
            seq![
                ActionView::Downcast { node, to: dimension_of(transform) },
                ActionView::Mark { node, mismatch: Some(dimension_of(transform)) },
            ]
        },
    };
    resolving + attaching + placing
}

/// A pass in which nothing fatal happens takes the request from
/// `Unprocessed` to `Processed`, and asks for resolution, instantiation,
/// attachment, placement and marking, once each and in that order.
pub proof fn smooth_pass_runs_in_order(
    scene: SceneView,
    template: ErasedGdResource,
    node: ErasedGd,
    fits: bool,
)
    ensures
        run(scene, SpawnState::Unprocessed, smooth_pass(scene, template, node, fits)) == (
            SpawnState::Processed,
            smooth_pass_actions(scene, template, node, fits),
        ),
{
    let start = SpawnState::Unprocessed;
    let resolving = match scene.resource {
        ResourceView::Resource(_) => seq![SpawnEvent::Visit],
        _ => seq![SpawnEvent::Visit, SpawnEvent::Resolved(Some(template))],
    };
    let attaching = seq![
        SpawnEvent::Instantiated(Instantiation::Root(node)),
        SpawnEvent::Attached(true),
    ];
    let placing = match scene.transform {
        None => Seq::empty(),
        Some(_) => if fits {
            seq![SpawnEvent::Downcast(true), SpawnEvent::TransformSet]
        } else {
            seq![SpawnEvent::Downcast(false)]
        },
    };
    // Resolution.
    let visit = seq![SpawnEvent::Visit];
    assert(visit =~= Seq::<SpawnEvent>::empty().push(SpawnEvent::Visit));
    lemma_run_push(scene, start, Seq::empty(), SpawnEvent::Visit);
    if !(scene.resource is Resource) {
        assert(resolving =~= visit.push(SpawnEvent::Resolved(Some(template))));
        lemma_run_push(scene, start, visit, SpawnEvent::Resolved(Some(template)));
    }
    let (s1, a1) = run(scene, start, resolving);
    assert(s1 == SpawnState::Instantiating);
    // Attachment.
    let root = seq![SpawnEvent::Instantiated(Instantiation::Root(node))];
    assert(root =~= Seq::<SpawnEvent>::empty().push(root[0]));
    assert(attaching =~= root.push(SpawnEvent::Attached(true)));
    lemma_run_push(scene, s1, Seq::empty(), root[0]);
    lemma_run_push(scene, s1, root, SpawnEvent::Attached(true));
    let (s2, a2) = run(scene, s1, attaching);
    // Placement.
    if scene.transform is Some {
        if fits {
            let cast = seq![SpawnEvent::Downcast(true)];
            assert(cast =~= Seq::<SpawnEvent>::empty().push(SpawnEvent::Downcast(true)));
            assert(placing =~= cast.push(SpawnEvent::TransformSet));
            lemma_run_push(scene, s2, Seq::empty(), SpawnEvent::Downcast(true));
            lemma_run_push(scene, s2, cast, SpawnEvent::TransformSet);
        } else {
            assert(placing =~= Seq::<SpawnEvent>::empty().push(SpawnEvent::Downcast(false)));
            lemma_run_push(scene, s2, Seq::empty(), SpawnEvent::Downcast(false));
        }
    }
    let (s3, a3) = run(scene, s2, placing);
    lemma_run_concat(scene, start, resolving, attaching);
    lemma_run_concat(scene, start, resolving + attaching, placing);
    assert(run(scene, start, resolving + attaching + placing) == (s3, a1 + a2 + a3));
    assert(s3 == SpawnState::Processed);
    assert(a1 + a2 + a3 =~= smooth_pass_actions(scene, template, node, fits));
}

/// Transform mismatch is not fatal. When the attached node lacks the
/// interface that the request's placement needs, the pass still ends with the
/// request `Processed`: the last action gives the entity the node and the
/// marker and reports the mismatch, and at no point is the engine asked to
/// set the node's transform.
pub proof fn mismatch_is_not_fatal(
    scene: SceneView,
    template: ErasedGdResource,
    node: ErasedGd,
    transform: GodotSceneTransform,
)
    requires
        scene.transform == Some(transform),
    ensures
        ({
            let (end, actions) = run(
                scene,
                SpawnState::Unprocessed,
                smooth_pass(scene, template, node, false),
            );
            &&& end == SpawnState::Processed
            &&& actions.len() > 0
            &&& actions.last() == (ActionView::Mark {
                node,
                mismatch: Some(dimension_of(transform)),
            })
            &&& forall|i: int| 0 <= i < actions.len() ==> !(actions[i] is SetGlobalTransform)
        }),
{
    smooth_pass_runs_in_order(scene, template, node, false);
}

/// Transform applied as given. When the attached node has the interface
/// that the request's placement needs, the engine is asked exactly once to
/// set a transform: the request's own, unchanged, on the attached node, and
/// after that the request is `Processed`.
pub proof fn transform_is_applied_as_given(
    scene: SceneView,
    template: ErasedGdResource,
    node: ErasedGd,
    transform: GodotSceneTransform,
)
    requires
        scene.transform == Some(transform),
    ensures
        ({
            let (end, actions) = run(
                scene,
                SpawnState::Unprocessed,
                smooth_pass(scene, template, node, true),
            );
            let at = actions.len() - 2;
            &&& end == SpawnState::Processed
            &&& actions.len() >= 2
            &&& actions[at] == (ActionView::SetGlobalTransform { node, transform })
            &&& actions.last() == (ActionView::Mark { node, mismatch: None })
            &&& forall|i: int|
                0 <= i < actions.len() && i != at ==> !(actions[i] is SetGlobalTransform)
        }),
{
    smooth_pass_runs_in_order(scene, template, node, true);
}

/// How far a state is into the pass.
pub open spec fn rank(state: SpawnState) -> nat {
    match state {
        SpawnState::Unprocessed => 0,
        SpawnState::LoadingPath => 1,
        SpawnState::LookingUpAsset => 1,
        SpawnState::Instantiating => 2,
        SpawnState::Attaching(_) => 3,
        SpawnState::Casting(_, _) => 4,
        SpawnState::Transforming(_) => 5,
        SpawnState::Processed => 6,
    }
}

/// The place of an action in the order of a pass: resolve, instantiate,
/// attach, see whether the placement fits, place, mark. `Abort` and `Idle`
/// have none.
pub open spec fn stage(action: ActionView) -> nat {
    match action {
        ActionView::LoadPath { .. } => 1,
        ActionView::LookupAsset { .. } => 1,
        ActionView::Instantiate { .. } => 2,
        ActionView::AddChild { .. } => 3,
        ActionView::Downcast { .. } => 4,
        ActionView::SetGlobalTransform { .. } => 5,
        ActionView::Mark { .. } => 6,
        ActionView::Abort { .. } => 0,
        ActionView::Idle => 0,
    }
}

/// Whether `event` is what a task in `state` is waiting for.
pub open spec fn awaited(state: SpawnState, event: SpawnEvent) -> bool {
    match (state, event) {
        (SpawnState::Unprocessed, SpawnEvent::Visit) => true,
        (SpawnState::LoadingPath, SpawnEvent::Resolved(_)) => true,
        (SpawnState::LookingUpAsset, SpawnEvent::Resolved(_)) => true,
        (SpawnState::Instantiating, SpawnEvent::Instantiated(_)) => true,
        (SpawnState::Attaching(_), SpawnEvent::Attached(_)) => true,
        (SpawnState::Casting(_, _), SpawnEvent::Downcast(_)) => true,
        (SpawnState::Transforming(_), SpawnEvent::TransformSet) => true,
        _ => false,
    }
}

/// No step goes back or stands still without saying so. An event that the
/// task was not waiting for is answered with `Idle` and changes nothing. An
/// event that it was waiting for either ends the pass with `Abort`, or takes
/// the task to a later state, with the action that belongs to that state.
pub proof fn steps_go_forward(scene: SceneView, state: SpawnState, event: SpawnEvent)
    ensures
        ({
            let (end, action) = next(scene, state, event);
            &&& action is Idle <==> !awaited(state, event)
            &&& action is Idle ==> end == state
            &&& !(action is Idle) && !(action is Abort) ==> rank(state) < rank(end) && stage(action)
                == rank(end)
        }),
{
}

/// The actions of the first `n` events are the first `n` actions.
pub proof fn lemma_run_take(scene: SceneView, start: SpawnState, events: Seq<SpawnEvent>, n: int)
    requires
        0 <= n <= events.len(),
    ensures
        run(scene, start, events.take(n)).1 == run(scene, start, events).1.take(n),
{
    lemma_run_concat(scene, start, events.take(n), events.skip(n));
    lemma_run_len(scene, start, events.take(n));
    assert(events.take(n) + events.skip(n) =~= events);
    let head = run(scene, start, events.take(n)).1;
    let tail = run(scene, run(scene, start, events.take(n)).0, events.skip(n)).1;
    assert((head + tail).take(n) =~= head);
}

/// The action in answer to event `n` is the step from the state after the
/// first `n` events.
proof fn lemma_run_at(scene: SceneView, start: SpawnState, events: Seq<SpawnEvent>, n: int)
    requires
        0 <= n < events.len(),
    ensures
        run(scene, start, events).1[n] == next(
            scene,
            run(scene, start, events.take(n)).0,
            events[n],
        ).1,
        run(scene, start, events.take(n + 1)).0 == next(
            scene,
            run(scene, start, events.take(n)).0,
            events[n],
        ).0,
{
    lemma_run_take(scene, start, events, n + 1);
    lemma_run_push(scene, start, events.take(n), events[n]);
    lemma_run_len(scene, start, events.take(n));
    lemma_run_len(scene, start, events);
    assert(events.take(n + 1) =~= events.take(n).push(events[n]));
    assert(run(scene, start, events).1.take(n + 1)[n] == run(scene, start, events).1[n]);
}

/// While nothing is given up after action `i`, the task is at least as far
/// into the pass as that action.
proof fn lemma_rank_keeps_up(
    scene: SceneView,
    start: SpawnState,
    events: Seq<SpawnEvent>,
    i: int,
    n: int,
)
    requires
        0 <= i < n <= events.len(),
        !(run(scene, start, events).1[i] is Idle),
        forall|k: int| i <= k < n ==> !(#[trigger] run(scene, start, events).1[k] is Abort),
    ensures
        stage(run(scene, start, events).1[i]) <= rank(run(scene, start, events.take(n)).0),
    decreases n - i,
{
    let actions = run(scene, start, events).1;
    lemma_run_at(scene, start, events, n - 1);
    let before = run(scene, start, events.take(n - 1)).0;
    steps_go_forward(scene, before, events[n - 1]);
    assert(!(actions[n - 1] is Abort));
    if n - 1 > i {
        lemma_rank_keeps_up(scene, start, events, i, n - 1);
    }
}

/// Order within a pass. Of two actions of a run with no `Abort` from the
/// first to the second, the later one belongs to a later stage: a task
/// resolves before it instantiates, instantiates before it attaches,
/// attaches before it places, and marks last.
pub proof fn actions_keep_the_order(
    scene: SceneView,
    start: SpawnState,
    events: Seq<SpawnEvent>,
    i: int,
    j: int,
)
    requires
        0 <= i < j < events.len(),
        !(run(scene, start, events).1[i] is Idle),
        !(run(scene, start, events).1[j] is Idle),
        forall|k: int| i <= k <= j ==> !(#[trigger] run(scene, start, events).1[k] is Abort),
    ensures
        stage(run(scene, start, events).1[i]) < stage(run(scene, start, events).1[j]),
{
    let actions = run(scene, start, events).1;
    lemma_rank_keeps_up(scene, start, events, i, j);
    lemma_run_at(scene, start, events, j);
    steps_go_forward(scene, run(scene, start, events.take(j)).0, events[j]);
    assert(!(actions[j] is Abort));
}

/// A fatal condition leaves no trace: whenever a task gives up, it is back
/// at `Unprocessed`, and it gives up exactly when an answer it was waiting
/// for says that the template, the root node or the current scene is missing.
pub proof fn aborts_leave_the_request_unprocessed(
    scene: SceneView,
    state: SpawnState,
    event: SpawnEvent,
)
    ensures
        next(scene, state, event).1 is Abort ==> next(scene, state, event).0
            == SpawnState::Unprocessed,
        next(scene, state, event).1 is Abort <==> {
            ||| (state == SpawnState::LoadingPath && event == SpawnEvent::Resolved(None))
            ||| (state == SpawnState::LookingUpAsset && event == SpawnEvent::Resolved(None))
            ||| (state == SpawnState::Instantiating && event == SpawnEvent::Instantiated(
                Instantiation::NotAPackedScene,
            ))
            ||| (state == SpawnState::Instantiating && event == SpawnEvent::Instantiated(
                Instantiation::NoRoot,
            ))
            ||| (state is Attaching && event == SpawnEvent::Attached(false))
        },
{
}

} // verus!
