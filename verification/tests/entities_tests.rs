use sara_ecs::ecs_errors::ECSError;
use sara_ecs::entities::Entities;
use std::any::TypeId;

struct Health(pub u32);
struct Speed(pub u32);

#[test]
fn entities_register_an_entity() {
    let mut entities = Entities::default();
    entities.register_component::<Health>();

    let type_id = TypeId::of::<Health>();
    let health_components = entities.as_storage().column_len(&type_id).unwrap();

    assert_eq!(health_components, 0);
}

#[test]
fn entities_bitmask_updated_when_registering_entities() {
    let mut entities = Entities::default();
    entities.register_component::<Health>();

    let type_id = TypeId::of::<Health>();
    let mask = entities.get_bitmask(&type_id).unwrap();

    assert_eq!(mask, 1);

    entities.register_component::<Speed>();

    let type_id = TypeId::of::<Speed>();
    let mask = entities.get_bitmask(&type_id).unwrap();

    assert_eq!(mask, 2);
}

#[test]
fn entities_create_entity() {
    let mut entities = Entities::default();

    entities.register_component::<Health>();
    entities.register_component::<Speed>();
    entities.create_entity();

    let health = entities.as_storage().column_len(&TypeId::of::<Health>()).unwrap();
    let speed = entities.as_storage().column_len(&TypeId::of::<Speed>()).unwrap();

    assert!(health == speed && health == 1);
    assert!(
        entities.as_storage().component(0, &TypeId::of::<Health>()).is_none()
            && entities.as_storage().component(0, &TypeId::of::<Speed>()).is_none()
    );
}

#[test]
fn entities_with_component() -> Result<(), ECSError> {
    let mut entities = Entities::default();

    entities.register_component::<Health>();
    entities.register_component::<Speed>();
    entities
        .create_entity()
        .with_component(Health(100))?
        .with_component(Speed(15))?;

    let wrapped_health = entities.as_storage().component(0, &TypeId::of::<Health>()).unwrap();
    let health = wrapped_health.read::<Health>()?;

    assert_eq!(health.0, 100);
    Ok(())
}

#[test]
fn entities_map_is_updated_when_creating_entities() -> Result<(), ECSError> {
    let mut entities = Entities::default();

    entities.register_component::<Health>();
    entities.register_component::<Speed>();
    entities
        .create_entity()
        .with_component(Health(100))?
        .with_component(Speed(15))?;

    let entity_map = entities.as_storage().entity_mask(0).unwrap();

    assert_eq!(entity_map, 3);
    entities.create_entity().with_component(Speed(15))?;

    let entity_map = entities.as_storage().entity_mask(1).unwrap();
    assert_eq!(entity_map, 2);
    Ok(())
}

#[test]
fn entities_remove_component_by_entity_id() -> Result<(), ECSError> {
    let mut entities = Entities::default();

    entities.register_component::<Health>();
    entities.register_component::<Speed>();
    entities
        .create_entity()
        .with_component(Health(100))?
        .with_component(Speed(50))?;

    entities.remove_entity_component::<Health>(0)?;

    assert_eq!(entities.as_storage().entity_mask(0).unwrap(), 2);
    Ok(())
}

#[test]
fn entities_add_component_to_entity_by_id() -> Result<(), ECSError> {
    let mut entities = Entities::default();

    entities.register_component::<Health>();
    entities.register_component::<Speed>();
    entities.create_entity().with_component(Health(100))?;
    entities.add_component_to_entity(0, Speed(50))?;

    assert_eq!(entities.as_storage().entity_mask(0).unwrap(), 3);

    let speed_type_id = TypeId::of::<Speed>();
    let wrapped_speed = entities.as_storage().component(0, &speed_type_id).unwrap();
    let speed = wrapped_speed.read::<Speed>()?;

    assert_eq!(speed.0, 50);
    Ok(())
}

#[test]
fn entities_remove_entity_by_id() -> Result<(), ECSError> {
    let mut entities = Entities::default();

    entities.register_component::<Health>();
    entities.create_entity().with_component(Health(100))?;
    entities.remove_entity(0)?;

    assert_eq!(entities.as_storage().entity_mask(0).unwrap(), 0);
    Ok(())
}

#[test]
fn entities_created_entities_are_inserted_into_deleted_entities_columns(
) -> Result<(), ECSError> {
    let mut entities = Entities::default();

    entities.register_component::<Health>();
    entities.create_entity().with_component(Health(100))?;
    entities.create_entity().with_component(Health(50))?;
    entities.remove_entity(0)?;
    entities.create_entity().with_component(Health(25))?;

    assert_eq!(entities.as_storage().entity_mask(0).unwrap(), 1);

    let type_id = TypeId::of::<Health>();
    let wrapped_health = entities.as_storage().component(0, &type_id).unwrap();
    let health = wrapped_health.read::<Health>()?;

    assert_eq!(health.0, 25);

    Ok(())
}

#[test]
fn entities_should_not_add_component_back_after_deleting_twice() -> Result<(), ECSError> {
    let mut entities = Entities::default();

    entities.register_component::<u32>();
    entities.register_component::<f32>();
    entities
        .create_entity()
        .with_component(100_u32)?
        .with_component(50.0_f32)?;
    entities.remove_entity_component::<u32>(0)?;
    entities.remove_entity_component::<u32>(0)?;

    assert_eq!(entities.as_storage().entity_mask(0).unwrap(), 2);

    Ok(())
}

#[test]
fn entities_inserting_into_index_should_change_when_adding_components(
) -> Result<(), ECSError> {
    let mut entities = Entities::default();

    entities.register_component::<f32>();
    entities.register_component::<u32>();

    // An entity with two components: the cursor stays on its row.
    let creating_entity = entities.create_entity();

    assert_eq!(creating_entity.as_storage().next_free_entity_id(), 0);
    creating_entity
        .with_component(100.0_f32)?
        .with_component(10_u32)?;
    assert_eq!(entities.as_storage().next_free_entity_id(), 0);

    // A second entity with two components: the cursor is now on row 1.
    let creating_entity = entities.create_entity();
    assert_eq!(creating_entity.as_storage().next_free_entity_id(), 1);
    creating_entity
        .with_component(110.0_f32)?
        .with_component(20_u32)?;
    assert_eq!(entities.as_storage().next_free_entity_id(), 1);

    // Delete the first entity and create another: the cursor is back on
    // row 0.
    entities.remove_entity(0)?;
    let creating_entity = entities.create_entity();

    assert_eq!(creating_entity.as_storage().next_free_entity_id(), 0);

    creating_entity
        .with_component(100.0_f32)?
        .with_component(10_u32)?;

    assert_eq!(entities.as_storage().next_free_entity_id(), 0);
    Ok(())
}
