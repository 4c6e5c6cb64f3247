use sara_ecs::resource_storage::ResourceStorage;

struct WorldWidth(pub f32);

#[test]
fn insert_resource() {
    let mut resources = ResourceStorage::default();

    assert!(resources.insert(WorldWidth(100.0)).is_ok());
    assert!(resources.contains::<WorldWidth>());
}

#[test]
fn insert_duplicate_resource_fails() {
    let mut resources = ResourceStorage::default();
    resources.insert(WorldWidth(100.0)).unwrap();

    let result = resources.insert(WorldWidth(200.0));

    assert!(result.is_err());
}

#[test]
fn resource_storage_replace_resource() {
    let mut resources = ResourceStorage::default();

    resources.insert(WorldWidth(100.0)).unwrap();
    resources.replace(WorldWidth(200.0));

    let world_width = resources.get::<WorldWidth>().unwrap();

    assert_eq!(world_width.0, 200.0);
}

#[test]
fn resource_storage_get_resource() {
    let mut resources = ResourceStorage::default();
    resources.insert(WorldWidth(100.0)).unwrap();

    if let Some(world_width) = resources.get::<WorldWidth>() {
        assert_eq!(world_width.0, 100.0);
    } else {
        panic!("Resource not found");
    }
}

#[test]
fn resource_storage_get_resource_mut() {
    let mut resources = ResourceStorage::default();
    resources.insert(WorldWidth(100.0)).unwrap();

    {
        let world_width = resources.get_mut::<WorldWidth>().unwrap();
        world_width.0 += 1.0;
    }

    let world_width = resources.get::<WorldWidth>().unwrap();

    assert_eq!(world_width.0, 101.0);
}

#[test]
fn resource_storage_remove_resource() {
    let mut resources = ResourceStorage::default();
    resources.insert(WorldWidth(100.0)).unwrap();

    assert!(resources.remove::<WorldWidth>());
    assert!(!resources.contains::<WorldWidth>());
}

#[test]
fn resource_storage_contains_resource() {
    let mut resources = ResourceStorage::default();
    resources.insert(WorldWidth(100.0)).unwrap();

    assert!(resources.contains::<WorldWidth>());

    resources.remove::<WorldWidth>();

    assert!(!resources.contains::<WorldWidth>());
}
