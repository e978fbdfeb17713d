//! Serving one spawn request, step by step.
//!
//! The engine and the asset store are not called from here. A [`SpawnTask`]
//! says what to ask of them next (a [`SpawnAction`]) and is told what came
//! back (a [`SpawnEvent`]); whoever drives it performs the calls. The order
//! is fixed: resolve the template, instantiate it, attach the node to the
//! current scene, place it, mark the entity.

use crate::erased::{ErasedGd, ErasedGdResource};
use crate::scene::{GodotScene, GodotSceneResource, GodotSceneTransform, ResourceView, SceneView};
use bevy::asset::HandleId;
use vstd::prelude::*;

verus! {

/// The two node interfaces that can take a global transform.
#[derive(Debug, Clone, Copy, PartialEq, Eq, Structural)]
pub enum Dimension {
    Two,
    Three,
}

/// Why a request could not be served. Each of these ends the pass.
#[derive(Debug, Clone, Copy, PartialEq, Eq, Structural)]
pub enum SpawnError {
    /// The asset store holds nothing under the request's handle.
    AssetMissing,
    /// The request's path does not lead to a loadable resource.
    LoadFailed,
    /// The resolved resource is not a scene template.
    NotAPackedScene,
    /// The template was instantiated and gave no root node.
    NoInstanceRoot,
    /// The scene graph has no current scene to attach the node to.
    NoCurrentScene,
}

/// What the engine made of a request to instantiate a resource.
#[derive(Debug, Clone, Copy, PartialEq, Eq)]
pub enum Instantiation {
    /// The root of a fresh node tree, not yet in the scene graph.
    Root(ErasedGd),
    /// The resource is not a scene template.
    NotAPackedScene,
    /// The template gave no root node.
    NoRoot,
}

/// How far a request has come.
///
/// Between passes an entity is either `Unprocessed` or `Processed`. The other
/// states occur only inside a pass, while an answer is awaited.
#[derive(Debug, Clone, Copy, PartialEq)]
pub enum SpawnState {
    /// The entity has a request and no marker.
    Unprocessed,
    /// The engine is loading the request's path.
    LoadingPath,
    /// The asset store is looking up the request's handle.
    LookingUpAsset,
    /// The engine is instantiating the template.
    Instantiating,
    /// The engine is adding the node to the current scene.
    Attaching(ErasedGd),
    /// The engine is asked whether the attached node can take the transform.
    Casting(ErasedGd, GodotSceneTransform),
    /// The engine is setting the attached node's global transform.
    Transforming(ErasedGd),
    /// The entity has its marker and its node.
    Processed,
}

/// What the driver tells a task.
#[derive(Debug, Clone, Copy, PartialEq, Eq)]
pub enum SpawnEvent {
    /// The pass has reached the entity.
    Visit,
    /// The answer to `LoadPath` or `LookupAsset`: the template, if there is one.
    Resolved(Option<ErasedGdResource>),
    /// The answer to `Instantiate`.
    Instantiated(Instantiation),
    /// The answer to `AddChild`: whether there was a current scene to add to.
    Attached(bool),
    /// The answer to `Downcast`: whether the node has the interface.
    Downcast(bool),
    /// The answer to `SetGlobalTransform`.
    TransformSet,
}

/// What a task asks of the driver.
#[derive(Debug, PartialEq)]
pub enum SpawnAction {
    /// Load `path` with the engine's resource loader, expecting a resource of
    /// class `type_hint`, and reusing a cached resource if `cache_reuse`.
    /// Answer with `Resolved`.
    LoadPath { path: String, type_hint: String, cache_reuse: bool },
    /// Look `handle` up in the asset store. Answer with `Resolved`.
    LookupAsset { handle: HandleId },
    /// Check that `template` is a scene template and instantiate it,
    /// generating edit state only if `edit_state`. Answer with `Instantiated`.
    Instantiate { template: ErasedGdResource, edit_state: bool },
    /// Add `node` as a child of the current scene, with the given flags of
    /// the engine's call. Answer with `Attached`.
    AddChild { node: ErasedGd, force_readable_name: bool, internal: bool },
    /// Try to see `node` through the transformable interface of dimension
    /// `to`. Answer with `Downcast`.
    Downcast { node: ErasedGd, to: Dimension },
    /// Set the global transform of `node`, through the interface that the
    /// preceding `Downcast` confirmed. Answer with `TransformSet`.
    SetGlobalTransform { node: ErasedGd, transform: GodotSceneTransform },
    /// Give the entity `node` and the marker. If `mismatch` is set, report
    /// that the node lacks the interface of that dimension and that its
    /// transform was not set.
    Mark { node: ErasedGd, mismatch: Option<Dimension> },
    /// Give up the pass with `error`.
    Abort { error: SpawnError },
    /// Nothing to do.
    Idle,
}

/// What a [`SpawnAction`] is, with strings as sequences of characters.
pub enum ActionView {
    LoadPath { path: Seq<char>, type_hint: Seq<char>, cache_reuse: bool },
    LookupAsset { handle: HandleId },
    Instantiate { template: ErasedGdResource, edit_state: bool },
    AddChild { node: ErasedGd, force_readable_name: bool, internal: bool },
    Downcast { node: ErasedGd, to: Dimension },
    SetGlobalTransform { node: ErasedGd, transform: GodotSceneTransform },
    Mark { node: ErasedGd, mismatch: Option<Dimension> },
    Abort { error: SpawnError },
    Idle,
}

impl View for SpawnAction {
    type V = ActionView;

    open spec fn view(&self) -> ActionView {
        match self {
            SpawnAction::LoadPath { path, type_hint, cache_reuse } => ActionView::LoadPath {
                path: path@,
                type_hint: type_hint@,
                cache_reuse: *cache_reuse,
            },
            SpawnAction::LookupAsset { handle } => ActionView::LookupAsset { handle: *handle },
            SpawnAction::Instantiate { template, edit_state } => ActionView::Instantiate {
                template: *template,
                edit_state: *edit_state,
            },
            SpawnAction::AddChild { node, force_readable_name, internal } => ActionView::AddChild {
                node: *node,
                force_readable_name: *force_readable_name,
                internal: *internal,
            },
            SpawnAction::Downcast { node, to } => ActionView::Downcast { node: *node, to: *to },
            SpawnAction::SetGlobalTransform { node, transform } => ActionView::SetGlobalTransform {
                node: *node,
                transform: *transform,
            },
            SpawnAction::Mark { node, mismatch } => ActionView::Mark {
                node: *node,
                mismatch: *mismatch,
            },
            SpawnAction::Abort { error } => ActionView::Abort { error: *error },
            SpawnAction::Idle => ActionView::Idle,
        }
    }
}

/// The interface that a transform of the given kind needs.
pub open spec fn dimension_of(transform: GodotSceneTransform) -> Dimension {
    match transform {
        GodotSceneTransform::Transform2D(_) => Dimension::Two,
        GodotSceneTransform::Transform3D(_) => Dimension::Three,
    }
}

/// The request to load `path`: as a scene template, reusing the cache.
pub open spec fn load_path(path: Seq<char>) -> ActionView {
    ActionView::LoadPath { path, type_hint: "PackedScene"@, cache_reuse: true }
}

/// The request to instantiate `template`: without edit state.
pub open spec fn instantiate(template: ErasedGdResource) -> ActionView {
    ActionView::Instantiate { template, edit_state: false }
}

/// The request to attach `node`: as an ordinary child, under its own name.
pub open spec fn add_child(node: ErasedGd) -> ActionView {
    ActionView::AddChild { node, force_readable_name: false, internal: false }
}

/// What a pass does first for an unprocessed request.
pub open spec fn begin(scene: SceneView) -> (SpawnState, ActionView) {
    match scene.resource {
        ResourceView::Path(path) => (SpawnState::LoadingPath, load_path(path)),
        ResourceView::Handle(handle) => (
            SpawnState::LookingUpAsset,
            ActionView::LookupAsset { handle },
        ),
        ResourceView::Resource(res) => (SpawnState::Instantiating, instantiate(res)),
    }
}

/// What follows once `node` is in the scene graph.
pub open spec fn place(node: ErasedGd, transform: Option<GodotSceneTransform>) -> (
    SpawnState,
    ActionView,
) {
    match transform {
        Some(t) => (
            SpawnState::Casting(node, t),
            ActionView::Downcast { node, to: dimension_of(t) },
        ),
        None => (SpawnState::Processed, ActionView::Mark { node, mismatch: None }),
    }
}

/// The transition of a task: the state after `event`, and what to do next.
///
/// An event that does not answer what the task is waiting for changes nothing.
/// A fatal condition puts the task back to `Unprocessed`.
pub open spec fn next(scene: SceneView, state: SpawnState, event: SpawnEvent) -> (
    SpawnState,
    ActionView,
) {
    match (state, event) {
        (SpawnState::Unprocessed, SpawnEvent::Visit) => begin(scene),
        (SpawnState::LoadingPath, SpawnEvent::Resolved(Some(template))) => (
            SpawnState::Instantiating,
            instantiate(template),
        ),
        (SpawnState::LoadingPath, SpawnEvent::Resolved(None)) => (
            SpawnState::Unprocessed,
            ActionView::Abort { error: SpawnError::LoadFailed },
        ),
        (SpawnState::LookingUpAsset, SpawnEvent::Resolved(Some(template))) => (
            SpawnState::Instantiating,
            instantiate(template),
        ),
        (SpawnState::LookingUpAsset, SpawnEvent::Resolved(None)) => (
            SpawnState::Unprocessed,
            ActionView::Abort { error: SpawnError::AssetMissing },
        ),
        (SpawnState::Instantiating, SpawnEvent::Instantiated(Instantiation::Root(node))) => (
            SpawnState::Attaching(node),
            add_child(node),
        ),
        (SpawnState::Instantiating, SpawnEvent::Instantiated(Instantiation::NotAPackedScene)) => (
            SpawnState::Unprocessed,
            ActionView::Abort { error: SpawnError::NotAPackedScene },
        ),
        (SpawnState::Instantiating, SpawnEvent::Instantiated(Instantiation::NoRoot)) => (
            SpawnState::Unprocessed,
            ActionView::Abort { error: SpawnError::NoInstanceRoot },
        ),
        (SpawnState::Attaching(node), SpawnEvent::Attached(true)) => place(node, scene.transform),
        (SpawnState::Attaching(_), SpawnEvent::Attached(false)) => (
            SpawnState::Unprocessed,
            ActionView::Abort { error: SpawnError::NoCurrentScene },
        ),
        (SpawnState::Casting(node, transform), SpawnEvent::Downcast(true)) => (
            SpawnState::Transforming(node),
            ActionView::SetGlobalTransform { node, transform },
        ),
        (SpawnState::Casting(node, transform), SpawnEvent::Downcast(false)) => (
            SpawnState::Processed,
            ActionView::Mark { node, mismatch: Some(dimension_of(transform)) },
        ),
        (SpawnState::Transforming(node), SpawnEvent::TransformSet) => (
            SpawnState::Processed,
            ActionView::Mark { node, mismatch: None },
        ),
        _ => (state, ActionView::Idle),
    }
}

/// The state that a task reaches from `start` over `events`, and the actions
/// it asks for on the way, one for each event.
pub open spec fn run(scene: SceneView, start: SpawnState, events: Seq<SpawnEvent>) -> (
    SpawnState,
    Seq<ActionView>,
)
    decreases events.len(),
{
    if events.len() == 0 {
        (start, Seq::empty())
    } else {
        let (state, actions) = run(scene, start, events.drop_last());
        let (end, action) = next(scene, state, events.last());
        (end, actions.push(action))
    }
}

/// A request together with how far it has come.
#[derive(Debug, PartialEq)]
pub struct SpawnTask {
    scene: GodotScene,
    state: SpawnState,
}

/// What a [`SpawnTask`] is.
pub struct TaskView {
    pub scene: SceneView,
    pub state: SpawnState,
}

impl View for SpawnTask {
    type V = TaskView;

    closed spec fn view(&self) -> TaskView {
        TaskView { scene: self.scene@, state: self.state }
    }
}

impl SpawnTask {
    /// The task of an entity that carries `scene`, and the marker if `spawned`.
    pub fn new(scene: GodotScene, spawned: bool) -> (task: Self)
        ensures
            task@.scene == scene@,
            task@.state == if spawned {
                SpawnState::Processed
            } else {
                SpawnState::Unprocessed
            },
    {
        let state = if spawned {
            SpawnState::Processed
        } else {
            SpawnState::Unprocessed
        };
        SpawnTask { scene, state }
    }

    /// The request.
    pub fn scene(&self) -> (scene: &GodotScene)
        ensures
            scene@ == self@.scene,
    {
        &self.scene
    }

    /// How far the request has come.
    pub fn state(&self) -> (state: SpawnState)
        ensures
            state == self@.state,
    {
        self.state
    }

    /// Whether the entity has its marker.
    pub fn is_processed(&self) -> (done: bool)
        ensures
            done == (self@.state == SpawnState::Processed),
    {
        match self.state {
            SpawnState::Processed => true,
            _ => false,
        }
    }

    /// Takes `event` and says what to do next. The request itself is never
    /// changed.
    pub fn step(&mut self, event: SpawnEvent) -> (action: SpawnAction)
        ensures
            final(self)@.scene == old(self)@.scene,
            (final(self)@.state, action@) == next(old(self)@.scene, old(self)@.state, event),
    {
        match self.state {
            SpawnState::Unprocessed => match event {
                SpawnEvent::Visit => match self.scene.resource() {
                    GodotSceneResource::Path(path) => {
                        let action = SpawnAction::LoadPath {
                            path: path.clone(),
                            type_hint: "PackedScene".to_owned(),
                            cache_reuse: true,
                        };
                        self.state = SpawnState::LoadingPath;
                        action
                    },
                    GodotSceneResource::Handle(handle) => {
                        let action = SpawnAction::LookupAsset { handle: *handle };
                        self.state = SpawnState::LookingUpAsset;
                        action
                    },
                    GodotSceneResource::Resource(res) => {
                        let action = SpawnAction::Instantiate { template: *res, edit_state: false };
                        self.state = SpawnState::Instantiating;
                        action
                    },
                },
                _ => SpawnAction::Idle,
            },
            SpawnState::LoadingPath => match event {
                SpawnEvent::Resolved(found) => self.resolved(found, SpawnError::LoadFailed),
                _ => SpawnAction::Idle,
            },
            SpawnState::LookingUpAsset => match event {
                SpawnEvent::Resolved(found) => self.resolved(found, SpawnError::AssetMissing),
                _ => SpawnAction::Idle,
            },
            SpawnState::Instantiating => match event {
                SpawnEvent::Instantiated(Instantiation::Root(node)) => {
                    self.state = SpawnState::Attaching(node);
                    SpawnAction::AddChild { node, force_readable_name: false, internal: false }
                },
                SpawnEvent::Instantiated(Instantiation::NotAPackedScene) => self.abort(
                    SpawnError::NotAPackedScene,
                ),
                SpawnEvent::Instantiated(Instantiation::NoRoot) => self.abort(
                    SpawnError::NoInstanceRoot,
                ),
                _ => SpawnAction::Idle,
            },
            SpawnState::Attaching(node) => match event {
                SpawnEvent::Attached(true) => match self.scene.transform() {
                    Some(transform) => {
                        self.state = SpawnState::Casting(node, transform);
                        SpawnAction::Downcast { node, to: dimension(transform) }
                    },
                    None => {
                        self.state = SpawnState::Processed;
                        SpawnAction::Mark { node, mismatch: None }
                    },
                },
                SpawnEvent::Attached(false) => self.abort(SpawnError::NoCurrentScene),
                _ => SpawnAction::Idle,
            },
            SpawnState::Casting(node, transform) => match event {
                SpawnEvent::Downcast(true) => {
                    self.state = SpawnState::Transforming(node);
                    SpawnAction::SetGlobalTransform { node, transform }
                },
                SpawnEvent::Downcast(false) => {
                    self.state = SpawnState::Processed;
                    SpawnAction::Mark { node, mismatch: Some(dimension(transform)) }
                },
                _ => SpawnAction::Idle,
            },
            SpawnState::Transforming(node) => match event {
                SpawnEvent::TransformSet => {
                    self.state = SpawnState::Processed;
                    SpawnAction::Mark { node, mismatch: None }
                },
                _ => SpawnAction::Idle,
            },
            SpawnState::Processed => SpawnAction::Idle,
        }
    }

    /// Takes `events` one after the other and returns what the task asked for
    /// in answer to each.
    pub fn replay(&mut self, events: &Vec<SpawnEvent>) -> (actions: Vec<SpawnAction>)
        ensures
            final(self)@.scene == old(self)@.scene,
            (final(self)@.state, action_views(actions@)) == run(
                old(self)@.scene,
                old(self)@.state,
                events@,
            ),
    {
        let ghost scene = self@.scene;
        let ghost start = self@.state;
        let mut actions: Vec<SpawnAction> = Vec::new();
        let mut i: usize = 0;
        assert(action_views(actions@) =~= Seq::empty());
        while i < events.len()
            invariant
                i <= events.len(),
                self@.scene == scene,
                (self@.state, action_views(actions@)) == run(scene, start, events@.take(i as int)),
            decreases events.len() - i,
        {
            let ghost before = actions@;
            let action = self.step(events[i]);
            actions.push(action);
            proof {
                assert(events@.take(i + 1).drop_last() =~= events@.take(i as int));
                assert(action_views(actions@) =~= action_views(before).push(action@));
            }
            i += 1;
        }
        assert(events@.take(i as int) =~= events@);
        actions
    }

    /// Resolution has ended: go on to instantiate what was found, or give up
    /// with `missing`.
    fn resolved(&mut self, found: Option<ErasedGdResource>, missing: SpawnError) -> (action:
        SpawnAction)
        ensures
            final(self)@.scene == old(self)@.scene,
            found matches Some(template) ==> final(self)@.state == SpawnState::Instantiating
                && action@ == instantiate(template),
            found is None ==> final(self)@.state == SpawnState::Unprocessed && action@ == (
            ActionView::Abort { error: missing }),
    {
        match found {
            Some(template) => {
                self.state = SpawnState::Instantiating;
                SpawnAction::Instantiate { template, edit_state: false }
            },
            None => self.abort(missing),
        }
    }

    /// Gives up the pass: the entity stays without marker.
    fn abort(&mut self, error: SpawnError) -> (action: SpawnAction)
        ensures
            final(self)@.scene == old(self)@.scene,
            final(self)@.state == SpawnState::Unprocessed,
            action@ == (ActionView::Abort { error }),
    {
        self.state = SpawnState::Unprocessed;
        SpawnAction::Abort { error }
    }
}

/// What a sequence of actions is, each by its view.
pub open spec fn action_views(actions: Seq<SpawnAction>) -> Seq<ActionView> {
    actions.map_values(|action: SpawnAction| action@)
}

/// The words for each fatal condition.
pub open spec fn error_text(error: SpawnError) -> Seq<char> {
    match error {
        SpawnError::AssetMissing => "packed scene to exist in assets"@,
        SpawnError::LoadFailed => "packed scene to load"@,
        SpawnError::NotAPackedScene => "resource to be a packed scene"@,
        SpawnError::NoInstanceRoot => "packed scene to instantiate a root node"@,
        SpawnError::NoCurrentScene => "scene tree to have a current scene"@,
    }
}

/// The words that report a node without the interface of a dimension.
pub open spec fn mismatch_text(dim: Dimension) -> Seq<char> {
    match dim {
        Dimension::Two =>
            "attempted to spawn a scene with a transform on Node that did not inherit from Node2D, the transform was not set"@,
        Dimension::Three =>
            "attempted to spawn a scene with a transform on Node that did not inherit from Node3D, the transform was not set"@,
    }
}

impl SpawnError {
    /// What was expected and did not hold.
    pub fn message(&self) -> (text: &'static str)
        ensures
            text@ == error_text(*self),
    {
        match self {
            SpawnError::AssetMissing => "packed scene to exist in assets",
            SpawnError::LoadFailed => "packed scene to load",
            SpawnError::NotAPackedScene => "resource to be a packed scene",
            SpawnError::NoInstanceRoot => "packed scene to instantiate a root node",
            SpawnError::NoCurrentScene => "scene tree to have a current scene",
        }
    }
}

impl Dimension {
    /// The report for a node that lacks the interface of this dimension.
    pub fn mismatch_message(&self) -> (text: &'static str)
        ensures
            text@ == mismatch_text(*self),
    {
        match self {
            Dimension::Two =>
                "attempted to spawn a scene with a transform on Node that did not inherit from Node2D, the transform was not set",
            Dimension::Three =>
                "attempted to spawn a scene with a transform on Node that did not inherit from Node3D, the transform was not set",
        }
    }
}

/// The interface that a transform of the given kind needs.
pub fn dimension(transform: GodotSceneTransform) -> (dim: Dimension)
    ensures
        dim == dimension_of(transform),
{
    match transform {
        GodotSceneTransform::Transform2D(_) => Dimension::Two,
        GodotSceneTransform::Transform3D(_) => Dimension::Three,
    }
}

} // verus!
