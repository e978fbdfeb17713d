use bevy::asset::HandleId;
use bevy::utils::Uuid;
use godot::builtin::{Basis, Transform3D, Vector3};
use godot::obj::InstanceId;
use godot_scene::{
    Dimension, ErasedGd, ErasedGdResource, GodotScene, GodotSceneTransform, Instantiation,
    PassAction, SpawnAction, SpawnError, SpawnEvent, SpawnPass, SpawnState, SpawnTask,
};

fn handle_of(id: u64) -> HandleId {
    HandleId::new(Uuid::from_u128(0xabcd), id)
}

fn template_of(id: i64) -> ErasedGdResource {
    ErasedGdResource::new(InstanceId::from_i64(id))
}

fn node_of(id: i64) -> ErasedGd {
    ErasedGd::new(InstanceId::from_i64(id))
}

fn perform(index: usize, action: SpawnAction) -> PassAction {
    PassAction::Perform { index, action }
}

fn state_at(pass: &SpawnPass, index: usize) -> SpawnState {
    match pass.task(index) {
        Some(task) => task.state(),
        None => panic!("no task at {}", index),
    }
}

#[test]
fn an_empty_pass_is_complete_at_once() {
    let mut pass = SpawnPass::new();
    assert_eq!(pass.len(), 0);
    assert!(!pass.is_aborted());
    assert_eq!(pass.step(SpawnEvent::Visit), PassAction::Complete);
    assert_eq!(pass.step(SpawnEvent::Attached(true)), PassAction::Complete);
    assert!(pass.task(0).is_none());
}

#[test]
fn push_numbers_the_entities_in_order() {
    let mut pass = SpawnPass::new();
    assert_eq!(pass.push(SpawnTask::new(GodotScene::from_path("a.tscn"), false)), 0);
    assert_eq!(pass.push(SpawnTask::new(GodotScene::from_path("b.tscn"), true)), 1);
    assert_eq!(pass.push(SpawnTask::new(GodotScene::from_handle(&handle_of(3)), false)), 2);
    assert_eq!(pass.len(), 3);
    assert_eq!(pass.task(0), Some(&SpawnTask::new(GodotScene::from_path("a.tscn"), false)));
    assert_eq!(state_at(&pass, 1), SpawnState::Processed);
    assert_eq!(pass.task(2), Some(&SpawnTask::new(GodotScene::from_handle(&handle_of(3)), false)));
    assert!(pass.task(3).is_none());
}

#[test]
fn a_pass_serves_the_unmarked_entities_in_order_and_skips_the_marked() {
    let placed = Transform3D::new(Basis::IDENTITY, Vector3::new(0.0, 5.0, 0.0));
    let mut pass = SpawnPass::new();
    pass.push(SpawnTask::new(GodotScene::from_path("done.tscn"), true));
    pass.push(SpawnTask::new(GodotScene::from_path("scenes/prop.tpl"), false));
    pass.push(SpawnTask::new(GodotScene::from_path("also_done.tscn"), true));
    pass.push(SpawnTask::new(
        GodotScene::from_resource(template_of(30)).with_transform3d(placed),
        false,
    ));

    assert_eq!(
        pass.step(SpawnEvent::Visit),
        perform(
            1,
            SpawnAction::LoadPath {
                path: "scenes/prop.tpl".to_string(),
                type_hint: "PackedScene".to_string(),
                cache_reuse: true,
            }
        )
    );
    assert_eq!(
        pass.step(SpawnEvent::Resolved(Some(template_of(10)))),
        perform(1, SpawnAction::Instantiate { template: template_of(10), edit_state: false })
    );
    assert_eq!(
        pass.step(SpawnEvent::Instantiated(Instantiation::Root(node_of(11)))),
        perform(
            1,
            SpawnAction::AddChild { node: node_of(11), force_readable_name: false, internal: false }
        )
    );
    assert_eq!(
        pass.step(SpawnEvent::Attached(true)),
        perform(1, SpawnAction::Mark { node: node_of(11), mismatch: None })
    );
    assert_eq!(state_at(&pass, 1), SpawnState::Processed);
    assert_eq!(state_at(&pass, 3), SpawnState::Unprocessed);

    assert_eq!(
        pass.step(SpawnEvent::Visit),
        perform(3, SpawnAction::Instantiate { template: template_of(30), edit_state: false })
    );
    assert_eq!(
        pass.step(SpawnEvent::Instantiated(Instantiation::Root(node_of(31)))),
        perform(
            3,
            SpawnAction::AddChild { node: node_of(31), force_readable_name: false, internal: false }
        )
    );
    assert_eq!(
        pass.step(SpawnEvent::Attached(true)),
        perform(3, SpawnAction::Downcast { node: node_of(31), to: Dimension::Three })
    );
    assert_eq!(
        pass.step(SpawnEvent::Downcast(true)),
        perform(
            3,
            SpawnAction::SetGlobalTransform {
                node: node_of(31),
                transform: GodotSceneTransform::Transform3D(placed),
            }
        )
    );
    assert_eq!(
        pass.step(SpawnEvent::TransformSet),
        perform(3, SpawnAction::Mark { node: node_of(31), mismatch: None })
    );
    assert_eq!(pass.step(SpawnEvent::Visit), PassAction::Complete);
    assert!(!pass.is_aborted());
    for index in 0..pass.len() {
        assert_eq!(state_at(&pass, index), SpawnState::Processed);
    }
    assert_eq!(pass.step(SpawnEvent::Visit), PassAction::Complete);
}

#[test]
fn a_pass_over_marked_entities_asks_for_nothing() {
    let mut pass = SpawnPass::new();
    pass.push(SpawnTask::new(GodotScene::from_path("a.tscn"), true));
    pass.push(SpawnTask::new(GodotScene::from_handle(&handle_of(1)), true));
    pass.push(SpawnTask::new(GodotScene::from_resource(template_of(2)), true));
    assert_eq!(pass.step(SpawnEvent::Visit), PassAction::Complete);
    assert_eq!(pass.step(SpawnEvent::Resolved(Some(template_of(2)))), PassAction::Complete);
    assert_eq!(pass.len(), 3);
    for index in 0..3 {
        assert_eq!(state_at(&pass, index), SpawnState::Processed);
    }
}

#[test]
fn a_missing_asset_ends_the_pass_and_leaves_the_entity_unprocessed() {
    let mut pass = SpawnPass::new();
    pass.push(SpawnTask::new(GodotScene::from_handle(&handle_of(404)), false));
    pass.push(SpawnTask::new(GodotScene::from_path("later.tscn"), false));
    assert_eq!(
        pass.step(SpawnEvent::Visit),
        perform(0, SpawnAction::LookupAsset { handle: handle_of(404) })
    );
    assert_eq!(
        pass.step(SpawnEvent::Resolved(None)),
        perform(0, SpawnAction::Abort { error: SpawnError::AssetMissing })
    );
    assert!(pass.is_aborted());
    assert_eq!(state_at(&pass, 0), SpawnState::Unprocessed);
    assert_eq!(state_at(&pass, 1), SpawnState::Unprocessed);
    assert_eq!(pass.step(SpawnEvent::Visit), PassAction::Idle);
    assert_eq!(pass.step(SpawnEvent::Resolved(Some(template_of(1)))), PassAction::Idle);
    assert_eq!(state_at(&pass, 0), SpawnState::Unprocessed);
    assert_eq!(state_at(&pass, 1), SpawnState::Unprocessed);
}

#[test]
fn an_answer_that_the_pass_did_not_await_changes_nothing() {
    let mut pass = SpawnPass::new();
    pass.push(SpawnTask::new(GodotScene::from_path("a.tscn"), false));
    assert_eq!(pass.step(SpawnEvent::Attached(true)), PassAction::Idle);
    assert_eq!(state_at(&pass, 0), SpawnState::Unprocessed);
    pass.step(SpawnEvent::Visit);
    assert_eq!(pass.step(SpawnEvent::Visit), PassAction::Idle);
    assert_eq!(state_at(&pass, 0), SpawnState::LoadingPath);
    assert!(!pass.is_aborted());
}

#[test]
fn a_second_pass_finds_nothing_left_to_do() {
    let mut first = SpawnPass::new();
    first.push(SpawnTask::new(GodotScene::from_resource(template_of(5)), false));
    let mut asked = Vec::new();
    asked.push(first.step(SpawnEvent::Visit));
    asked.push(first.step(SpawnEvent::Instantiated(Instantiation::Root(node_of(6)))));
    asked.push(first.step(SpawnEvent::Attached(true)));
    asked.push(first.step(SpawnEvent::Visit));
    assert_eq!(
        asked,
        vec![
            perform(0, SpawnAction::Instantiate { template: template_of(5), edit_state: false }),
            perform(
                0,
                SpawnAction::AddChild { node: node_of(6), force_readable_name: false, internal: false }
            ),
            perform(0, SpawnAction::Mark { node: node_of(6), mismatch: None }),
            PassAction::Complete,
        ]
    );
    let marked = match first.task(0) {
        Some(task) => task.is_processed(),
        None => false,
    };
    assert!(marked);

    let mut second = SpawnPass::new();
    second.push(SpawnTask::new(GodotScene::from_resource(template_of(5)), marked));
    assert_eq!(second.step(SpawnEvent::Visit), PassAction::Complete);
}
