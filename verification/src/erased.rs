//! Type-erased references to engine objects.
//!
//! A reference is the engine's identifier of the object and nothing more. It
//! says neither what class the object has nor whether it is still alive: both
//! are the engine's to answer when the reference is resolved.

use godot::obj::InstanceId;
use vstd::prelude::*;

verus! {

/// A type-erased reference to a live scene-graph node.
///
/// The scene graph owns the node; the reference does not keep it alive.
#[derive(Debug, Clone, Copy, PartialEq, Eq, Hash)]
pub struct ErasedGd {
    instance_id: InstanceId,
}

impl View for ErasedGd {
    type V = InstanceId;

    closed spec fn view(&self) -> InstanceId {
        self.instance_id
    }
}

impl ErasedGd {
    /// Erases the node that the engine knows under `instance_id`.
    pub fn new(instance_id: InstanceId) -> (node: Self)
        ensures
            node@ == instance_id,
    {
        ErasedGd { instance_id }
    }

    /// The engine's identifier of the node.
    pub fn instance_id(&self) -> (id: InstanceId)
        ensures
            id == self@,
    {
        self.instance_id
    }
}

/// A type-erased reference to an engine resource, such as a scene template.
#[derive(Debug, Clone, Copy, PartialEq, Eq, Hash)]
pub struct ErasedGdResource {
    resource_id: InstanceId,
}

impl View for ErasedGdResource {
    type V = InstanceId;

    closed spec fn view(&self) -> InstanceId {
        self.resource_id
    }
}

impl ErasedGdResource {
    /// Erases the resource that the engine knows under `resource_id`.
    pub fn new(resource_id: InstanceId) -> (res: Self)
        ensures
            res@ == resource_id,
    {
        ErasedGdResource { resource_id }
    }

    /// The engine's identifier of the resource.
    pub fn instance_id(&self) -> (id: InstanceId)
        ensures
            id == self@,
    {
        self.resource_id
    }
}

} // verus!
