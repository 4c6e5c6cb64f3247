use sara_ecs::resources::Resources;
use std::any::TypeId;

struct WorldWidth(pub f32);

#[test]
fn add_resource() {
    let resources = get_test_resources();
    let stored_resource = resources.entry(&TypeId::of::<WorldWidth>()).unwrap();
    let extracted_world_width = stored_resource.get::<WorldWidth>().unwrap();

    assert_eq!(extracted_world_width.0, 100.0);
}

#[test]
fn resources_get_resource() {
    let resources = get_test_resources();

    if let Some(extracted_world_width) = resources.get_ref::<WorldWidth>() {
        assert_eq!(extracted_world_width.0, 100.0);
    }
}

#[test]
fn resources_get_resource_mut() {
    let mut resources = get_test_resources();

    {
        let world_width = resources.get_mut::<WorldWidth>().unwrap();
        world_width.0 += 1.0;
    }

    let world_width = resources.get_ref::<WorldWidth>().unwrap();
    assert_eq!(world_width.0, 101.0);
}

#[test]
fn resources_remove_resource() {
    let mut resources = get_test_resources();
    resources.remove::<WorldWidth>();

    let world_width_type_id = TypeId::of::<WorldWidth>();
    let is_resource_deleted = resources.entry(&world_width_type_id).is_none();

    assert!(is_resource_deleted);
}

fn get_test_resources() -> Resources {
    let mut resources = Resources::default();
    let world_width = WorldWidth(100.0);

    resources.add(world_width);
    resources
}
