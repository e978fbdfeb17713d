//! The engine-side and asset-side values that the spawn logic carries but never
//! looks into, and the two engine computations the request builders rely on.
//!
//! Everything in this module is taken on trust: the types are opaque to the
//! verifier, and the contracts of the two functions are stated, not proved.

use vstd::prelude::*;

verus! {

/// `godot::builtin::Vector2`, carried as an opaque value.
#[verifier::external_type_specification]
#[verifier::external_body]
pub struct ExVector2(godot::builtin::Vector2);

/// `godot::builtin::Vector3`, carried as an opaque value.
#[verifier::external_type_specification]
#[verifier::external_body]
pub struct ExVector3(godot::builtin::Vector3);

/// `godot::builtin::Transform2D`, carried as an opaque value.
#[verifier::external_type_specification]
#[verifier::external_body]
pub struct ExTransform2D(godot::builtin::Transform2D);

/// `godot::builtin::Transform3D`, carried as an opaque value.
#[verifier::external_type_specification]
#[verifier::external_body]
pub struct ExTransform3D(godot::builtin::Transform3D);

/// `godot::obj::InstanceId`, the engine's identifier of a live object, carried
/// as an opaque value.
#[verifier::external_type_specification]
#[verifier::external_body]
pub struct ExInstanceId(godot::obj::InstanceId);

/// `bevy::asset::HandleId`, the key under which the asset store files an
/// asset, carried as an opaque value.
#[verifier::external_type_specification]
#[verifier::external_body]
pub struct ExHandleId(bevy::asset::HandleId);

/// The transform that `Transform2D::translated` returns when it is applied to
/// `Transform2D::IDENTITY` with `offset`.
pub uninterp spec fn translation2d(offset: godot::builtin::Vector2) -> godot::builtin::Transform2D;

/// The transform that `Transform3D::translated` returns when it is applied to
/// `Transform3D::IDENTITY` with `offset`.
pub uninterp spec fn translation3d(offset: godot::builtin::Vector3) -> godot::builtin::Transform3D;

/// Calls `Transform2D::translated` on `Transform2D::IDENTITY`.
///
/// Trusted: the result is a function of `offset` alone (the method adds
/// `offset` to the origin of the identity and keeps its axes), which the
/// contract names `translation2d(offset)`.
#[verifier::external_body]
pub(crate) fn identity_translated2d(offset: godot::builtin::Vector2) -> (t: godot::builtin::Transform2D)
    ensures
        t == translation2d(offset),
{
    godot::builtin::Transform2D::IDENTITY.translated(offset)
}

/// Calls `Transform3D::translated` on `Transform3D::IDENTITY`.
///
/// Trusted: the result is a function of `offset` alone (the method adds
/// `offset` to the origin of the identity and keeps its basis), which the
/// contract names `translation3d(offset)`.
#[verifier::external_body]
pub(crate) fn identity_translated3d(offset: godot::builtin::Vector3) -> (t: godot::builtin::Transform3D)
    ensures
        t == translation3d(offset),
{
    godot::builtin::Transform3D::IDENTITY.translated(offset)
}

} // verus!
