//! The spawn request: which scene to instantiate, and where to put it.

use crate::engine::{identity_translated2d, identity_translated3d, translation2d, translation3d};
use crate::erased::ErasedGdResource;
use bevy::asset::HandleId;
use godot::builtin::{Transform2D, Transform3D, Vector2, Vector3};
use vstd::prelude::*;

verus! {

/// One of the three ways to name the scene template of a request.
#[derive(Debug, PartialEq)]
pub enum GodotSceneResource {
    /// A path for the engine's resource loader. Loading blocks.
    Path(String),
    /// A key into the asset store, where the template must already be.
    Handle(HandleId),
    /// The template itself.
    Resource(ErasedGdResource),
}

/// What a [`GodotSceneResource`] is, with the path as a sequence of characters.
pub enum ResourceView {
    Path(Seq<char>),
    Handle(HandleId),
    Resource(ErasedGdResource),
}

impl View for GodotSceneResource {
    type V = ResourceView;

    open spec fn view(&self) -> ResourceView {
        match self {
            GodotSceneResource::Path(path) => ResourceView::Path(path@),
            GodotSceneResource::Handle(handle) => ResourceView::Handle(*handle),
            GodotSceneResource::Resource(res) => ResourceView::Resource(*res),
        }
    }
}

impl Clone for GodotSceneResource {
    fn clone(&self) -> (copy: Self)
        ensures
            copy@ == self@,
    {
        match self {
            GodotSceneResource::Path(path) => GodotSceneResource::Path(path.clone()),
            GodotSceneResource::Handle(handle) => GodotSceneResource::Handle(*handle),
            GodotSceneResource::Resource(res) => GodotSceneResource::Resource(*res),
        }
    }
}

/// Where to put the instantiated node: a global transform in two or in three
/// dimensions.
#[derive(Debug, Clone, Copy, PartialEq)]
pub enum GodotSceneTransform {
    Transform2D(Transform2D),
    Transform3D(Transform3D),
}

/// A to-be-instanced-and-spawned engine scene.
///
/// Attached to an entity, it asks for the scene to be instantiated and added
/// to the scene graph at the next spawn pass. The request is never removed:
/// a marker on the entity records that it has been served.
#[derive(Debug, PartialEq)]
pub struct GodotScene {
    resource: GodotSceneResource,
    transform: Option<GodotSceneTransform>,
}

/// What a [`GodotScene`] is.
pub struct SceneView {
    pub resource: ResourceView,
    pub transform: Option<GodotSceneTransform>,
}

impl View for GodotScene {
    type V = SceneView;

    closed spec fn view(&self) -> SceneView {
        SceneView { resource: self.resource@, transform: self.transform }
    }
}

impl Clone for GodotScene {
    fn clone(&self) -> (copy: Self)
        ensures
            copy@ == self@,
    {
        GodotScene { resource: self.resource.clone(), transform: self.transform }
    }
}

impl GodotScene {
    /// Instantiate the scene from the given path.
    ///
    /// The engine loads the path when the request is served, and that load
    /// blocks. To have the template loaded beforehand, keep it in the asset
    /// store and use [`GodotScene::from_handle`] or
    /// [`GodotScene::from_resource`].
    pub fn from_path(path: &str) -> (scene: Self)
        ensures
            scene@ == (SceneView { resource: ResourceView::Path(path@), transform: None }),
    {
        GodotScene { resource: GodotSceneResource::Path(path.to_owned()), transform: None }
    }

    /// Instantiate the scene that the asset store holds under `handle`.
    pub fn from_handle(handle: &HandleId) -> (scene: Self)
        ensures
            scene@ == (SceneView { resource: ResourceView::Handle(*handle), transform: None }),
    {
        GodotScene { resource: GodotSceneResource::Handle(*handle), transform: None }
    }

    /// Instantiate the scene from a template that is already at hand.
    pub fn from_resource(res: ErasedGdResource) -> (scene: Self)
        ensures
            scene@ == (SceneView { resource: ResourceView::Resource(res), transform: None }),
    {
        GodotScene { resource: GodotSceneResource::Resource(res), transform: None }
    }

    /// Place the instantiated node at `transform`, replacing any earlier
    /// placement.
    pub fn with_transform3d(self, transform: Transform3D) -> (scene: Self)
        ensures
            scene@ == (SceneView {
                resource: self@.resource,
                transform: Some(GodotSceneTransform::Transform3D(transform)),
            }),
    {
        GodotScene {
            resource: self.resource,
            transform: Some(GodotSceneTransform::Transform3D(transform)),
        }
    }

    /// Place the instantiated node at `transform`, replacing any earlier
    /// placement.
    pub fn with_transform2d(self, transform: Transform2D) -> (scene: Self)
        ensures
            scene@ == (SceneView {
                resource: self@.resource,
                transform: Some(GodotSceneTransform::Transform2D(transform)),
            }),
    {
        GodotScene {
            resource: self.resource,
            transform: Some(GodotSceneTransform::Transform2D(transform)),
        }
    }

    /// Place the instantiated node at `translation`, unrotated and unscaled,
    /// replacing any earlier placement.
    pub fn with_translation3d(self, translation: Vector3) -> (scene: Self)
        ensures
            scene@ == (SceneView {
                resource: self@.resource,
                transform: Some(GodotSceneTransform::Transform3D(translation3d(translation))),
            }),
    {
        self.with_transform3d(identity_translated3d(translation))
    }

    /// Place the instantiated node at `translation`, unrotated and unscaled,
    /// replacing any earlier placement.
    pub fn with_translation2d(self, translation: Vector2) -> (scene: Self)
        ensures
            scene@ == (SceneView {
                resource: self@.resource,
                transform: Some(GodotSceneTransform::Transform2D(translation2d(translation))),
            }),
    {
        self.with_transform2d(identity_translated2d(translation))
    }

    /// How the request names its scene template.
    pub fn resource(&self) -> (resource: &GodotSceneResource)
        ensures
            resource@ == self@.resource,
    {
        &self.resource
    }

    /// Where the request wants the node, if it says.
    pub fn transform(&self) -> (transform: Option<GodotSceneTransform>)
        ensures
            transform == self@.transform,
    {
        self.transform
    }
}

} // verus!
