use bevy::asset::HandleId;
use bevy::utils::Uuid;
use godot::builtin::{Basis, Transform2D, Transform3D, Vector2, Vector3};
use godot::obj::InstanceId;
use godot_scene::{ErasedGd, ErasedGdResource, GodotScene, GodotSceneResource, GodotSceneTransform};

fn handle(id: u64) -> HandleId {
    HandleId::new(Uuid::from_u128(0x1234_5678), id)
}

fn template(id: i64) -> ErasedGdResource {
    ErasedGdResource::new(InstanceId::from_i64(id))
}

#[test]
fn from_path_names_the_path_and_no_placement() {
    let scene = GodotScene::from_path("scenes/prop.tpl");
    assert_eq!(scene.resource(), &GodotSceneResource::Path("scenes/prop.tpl".to_string()));
    assert_eq!(scene.transform(), None);
}

#[test]
fn from_path_takes_the_empty_path() {
    let scene = GodotScene::from_path("");
    assert_eq!(scene.resource(), &GodotSceneResource::Path(String::new()));
}

#[test]
fn from_handle_names_the_handle_and_no_placement() {
    let scene = GodotScene::from_handle(&handle(9));
    assert_eq!(scene.resource(), &GodotSceneResource::Handle(handle(9)));
    assert_ne!(scene.resource(), &GodotSceneResource::Handle(handle(10)));
    assert_eq!(scene.transform(), None);
}

#[test]
fn from_resource_holds_the_template_and_no_placement() {
    let scene = GodotScene::from_resource(template(41));
    assert_eq!(scene.resource(), &GodotSceneResource::Resource(template(41)));
    assert_eq!(scene.transform(), None);
}

#[test]
fn with_transform3d_keeps_the_transform_as_given() {
    let placed = Transform3D::new(Basis::FLIP_X, Vector3::new(1.5, -2.0, 8.0));
    let scene = GodotScene::from_path("a.tscn").with_transform3d(placed);
    assert_eq!(scene.transform(), Some(GodotSceneTransform::Transform3D(placed)));
    assert_eq!(scene.resource(), &GodotSceneResource::Path("a.tscn".to_string()));
}

#[test]
fn with_transform2d_keeps_the_transform_as_given() {
    let placed = Transform2D::from_cols(
        Vector2::new(0.0, 1.0),
        Vector2::new(-1.0, 0.0),
        Vector2::new(3.0, 4.0),
    );
    let scene = GodotScene::from_resource(template(5)).with_transform2d(placed);
    assert_eq!(scene.transform(), Some(GodotSceneTransform::Transform2D(placed)));
    assert_eq!(scene.resource(), &GodotSceneResource::Resource(template(5)));
}

#[test]
fn with_translation3d_moves_the_identity() {
    let scene = GodotScene::from_path("a.tscn").with_translation3d(Vector3::new(1.0, 2.0, 3.0));
    let expected = Transform3D::new(Basis::IDENTITY, Vector3::new(1.0, 2.0, 3.0));
    assert_eq!(scene.transform(), Some(GodotSceneTransform::Transform3D(expected)));
    match scene.transform() {
        Some(GodotSceneTransform::Transform3D(t)) => {
            assert_eq!(t.origin, Vector3::new(1.0, 2.0, 3.0));
            assert_eq!(t.basis, Basis::IDENTITY);
            assert_eq!(t, Transform3D::IDENTITY.translated(Vector3::new(1.0, 2.0, 3.0)));
        }
        other => panic!("expected a 3D placement, got {:?}", other),
    }
}

#[test]
fn with_translation2d_moves_the_identity() {
    let scene = GodotScene::from_path("a.tscn").with_translation2d(Vector2::new(4.0, -5.0));
    match scene.transform() {
        Some(GodotSceneTransform::Transform2D(t)) => {
            assert_eq!(t.origin, Vector2::new(4.0, -5.0));
            assert_eq!(t.a, Vector2::new(1.0, 0.0));
            assert_eq!(t.b, Vector2::new(0.0, 1.0));
            assert_eq!(t, Transform2D::IDENTITY.translated(Vector2::new(4.0, -5.0)));
        }
        other => panic!("expected a 2D placement, got {:?}", other),
    }
}

#[test]
fn with_translation_by_zero_is_the_identity() {
    let three = GodotScene::from_path("a").with_translation3d(Vector3::new(0.0, 0.0, 0.0));
    assert_eq!(three.transform(), Some(GodotSceneTransform::Transform3D(Transform3D::IDENTITY)));
    let two = GodotScene::from_path("a").with_translation2d(Vector2::new(0.0, 0.0));
    assert_eq!(two.transform(), Some(GodotSceneTransform::Transform2D(Transform2D::IDENTITY)));
}

#[test]
fn a_later_placement_replaces_an_earlier_one() {
    let first = Transform3D::new(Basis::IDENTITY, Vector3::new(1.0, 1.0, 1.0));
    let second = Transform2D::IDENTITY.translated(Vector2::new(2.0, 2.0));
    let scene = GodotScene::from_handle(&handle(1))
        .with_transform3d(first)
        .with_transform2d(second);
    assert_eq!(scene.transform(), Some(GodotSceneTransform::Transform2D(second)));
    assert_eq!(scene.resource(), &GodotSceneResource::Handle(handle(1)));
    let scene = scene.with_translation3d(Vector3::new(7.0, 8.0, 9.0));
    assert_eq!(
        scene.transform(),
        Some(GodotSceneTransform::Transform3D(Transform3D::new(
            Basis::IDENTITY,
            Vector3::new(7.0, 8.0, 9.0)
        )))
    );
}

#[test]
fn erased_references_keep_their_identifier() {
    let node = ErasedGd::new(InstanceId::from_i64(77));
    assert_eq!(node.instance_id(), InstanceId::from_i64(77));
    assert_eq!(node.instance_id().to_i64(), 77);
    assert_ne!(node, ErasedGd::new(InstanceId::from_i64(78)));
    let res = template(-3);
    assert_eq!(res.instance_id().to_i64(), -3);
    assert_eq!(res, template(-3));
}
