use sara_ecs::bitmask::{bit_at, mask_covers, MAX_COMPONENT_TYPES};
use sara_ecs::component::Component;
use sara_ecs::ecs_errors::ECSError;
use sara_ecs::entity_storage::EntityStorage;
use std::any::TypeId;

struct Health(pub u32);
struct Speed(pub u32);
struct Armor(pub u32);

fn thirty_three_keys() -> Vec<TypeId> {
    vec![
        TypeId::of::<[u8; 0]>(),
        TypeId::of::<[u8; 1]>(),
        TypeId::of::<[u8; 2]>(),
        TypeId::of::<[u8; 3]>(),
        TypeId::of::<[u8; 4]>(),
        TypeId::of::<[u8; 5]>(),
        TypeId::of::<[u8; 6]>(),
        TypeId::of::<[u8; 7]>(),
        TypeId::of::<[u8; 8]>(),
        TypeId::of::<[u8; 9]>(),
        TypeId::of::<[u8; 10]>(),
        TypeId::of::<[u8; 11]>(),
        TypeId::of::<[u8; 12]>(),
        TypeId::of::<[u8; 13]>(),
        TypeId::of::<[u8; 14]>(),
        TypeId::of::<[u8; 15]>(),
        TypeId::of::<[u8; 16]>(),
        TypeId::of::<[u8; 17]>(),
        TypeId::of::<[u8; 18]>(),
        TypeId::of::<[u8; 19]>(),
        TypeId::of::<[u8; 20]>(),
        TypeId::of::<[u8; 21]>(),
        TypeId::of::<[u8; 22]>(),
        TypeId::of::<[u8; 23]>(),
        TypeId::of::<[u8; 24]>(),
        TypeId::of::<[u8; 25]>(),
        TypeId::of::<[u8; 26]>(),
        TypeId::of::<[u8; 27]>(),
        TypeId::of::<[u8; 28]>(),
        TypeId::of::<[u8; 29]>(),
        TypeId::of::<[u8; 30]>(),
        TypeId::of::<[u8; 31]>(),
        TypeId::of::<[u8; 32]>(),
    ]
}

#[test]
fn bits_follow_the_order_of_registration() {
    let mut table = EntityStorage::default();
    table.register_component::<Health>();
    table.register_component::<Speed>();
    table.register_component::<Armor>();

    assert_eq!(table.get_bitmask(&TypeId::of::<Health>()), Some(1));
    assert_eq!(table.get_bitmask(&TypeId::of::<Speed>()), Some(2));
    assert_eq!(table.get_bitmask(&TypeId::of::<Armor>()), Some(4));
    assert_eq!(table.component_count(), 3);
}

#[test]
fn every_position_has_its_own_bit() {
    let keys = thirty_three_keys();
    let mut table = EntityStorage::default();
    for k in 0..32 {
        assert!(!table.is_registered(&keys[k]));
        table.register_type(keys[k]);
    }
    for k in 0..32 {
        assert_eq!(table.get_bitmask(&keys[k]), Some(1u32 << k));
    }
    assert_eq!(table.get_bitmask(&keys[31]), Some(2147483648));
}

#[test]
fn registering_a_type_again_changes_nothing() {
    let mut table = EntityStorage::default();
    table.register_component::<Health>();
    table.register_component::<Speed>();
    table.register_component::<Health>();

    assert_eq!(table.component_count(), 2);
    assert_eq!(table.get_bitmask(&TypeId::of::<Health>()), Some(1));
    assert_eq!(table.get_bitmask(&TypeId::of::<Speed>()), Some(2));

    table.register_component::<Armor>();
    assert_eq!(table.get_bitmask(&TypeId::of::<Armor>()), Some(4));
}

#[test]
fn a_thirty_third_type_is_not_registered() {
    let mut table = EntityStorage::default();
    table.register_component::<[u8; 0]>();
    table.register_component::<[u8; 1]>();
    table.register_component::<[u8; 2]>();
    table.register_component::<[u8; 3]>();
    table.register_component::<[u8; 4]>();
    table.register_component::<[u8; 5]>();
    table.register_component::<[u8; 6]>();
    table.register_component::<[u8; 7]>();
    table.register_component::<[u8; 8]>();
    table.register_component::<[u8; 9]>();
    table.register_component::<[u8; 10]>();
    table.register_component::<[u8; 11]>();
    table.register_component::<[u8; 12]>();
    table.register_component::<[u8; 13]>();
    table.register_component::<[u8; 14]>();
    table.register_component::<[u8; 15]>();
    table.register_component::<[u8; 16]>();
    table.register_component::<[u8; 17]>();
    table.register_component::<[u8; 18]>();
    table.register_component::<[u8; 19]>();
    table.register_component::<[u8; 20]>();
    table.register_component::<[u8; 21]>();
    table.register_component::<[u8; 22]>();
    table.register_component::<[u8; 23]>();
    table.register_component::<[u8; 24]>();
    table.register_component::<[u8; 25]>();
    table.register_component::<[u8; 26]>();
    table.register_component::<[u8; 27]>();
    table.register_component::<[u8; 28]>();
    table.register_component::<[u8; 29]>();
    table.register_component::<[u8; 30]>();
    table.register_component::<[u8; 31]>();
    assert_eq!(table.component_count(), 32);
    assert_eq!(MAX_COMPONENT_TYPES, 32);

    table.register_component::<[u8; 32]>();

    assert_eq!(table.component_count(), 32);
    assert_eq!(table.get_bitmask(&TypeId::of::<[u8; 32]>()), None);
    assert_eq!(table.get_bitmask(&TypeId::of::<[u8; 31]>()), Some(1 << 31));
    assert_eq!(
        table.create_entity().with_component([0u8; 32]).err(),
        Some(ECSError::ComponentNotRegistered)
    );
}

#[test]
fn register_if_new_reports_what_it_did() {
    let keys = thirty_three_keys();
    let mut table = EntityStorage::default();

    assert!(table.register_if_new(keys[0]));
    assert!(!table.register_if_new(keys[0]));
    for k in 1..32 {
        assert!(table.register_if_new(keys[k]));
    }
    assert!(!table.register_if_new(keys[32]));
    assert_eq!(table.component_count(), 32);
    assert_eq!(table.get_bitmask(&keys[0]), Some(1));
    assert_eq!(table.get_bitmask(&keys[32]), None);
}

#[test]
fn bit_at_shifts_one() {
    assert_eq!(bit_at(0), 1);
    assert_eq!(bit_at(1), 2);
    assert_eq!(bit_at(5), 32);
    assert_eq!(bit_at(31), 0x8000_0000);
}

#[test]
fn mask_covers_is_superset() {
    assert!(mask_covers(0b111, 0b011));
    assert!(mask_covers(0b011, 0b011));
    assert!(!mask_covers(0b001, 0b011));
    assert!(!mask_covers(0b010, 0b011));
    assert!(!mask_covers(0, 0b011));
    assert!(mask_covers(0, 0));
    assert!(mask_covers(0b101, 0));
}

#[test]
fn mask_after_attaching_two_components_is_their_union() -> Result<(), ECSError> {
    let mut table = EntityStorage::default();
    table.register_component::<Health>();
    table.register_component::<Speed>();
    table.register_component::<Armor>();

    table
        .create_entity()
        .with_component(Speed(1))?
        .with_component(Armor(2))?;

    let speed = table.get_bitmask(&TypeId::of::<Speed>()).unwrap();
    let armor = table.get_bitmask(&TypeId::of::<Armor>()).unwrap();
    assert_eq!(table.entity_mask(0), Some(speed | armor));
    assert_eq!(table.entity_mask(0), Some(6));
    Ok(())
}

#[test]
fn rows_ascend_while_none_is_free() -> Result<(), ECSError> {
    let mut table = EntityStorage::default();
    table.register_component::<Health>();

    assert_eq!(table.create_row(), 0);
    table.attach_component(Component::new(Health(1)))?;
    assert_eq!(table.create_row(), 1);
    table.attach_component(Component::new(Health(2)))?;
    assert_eq!(table.create_row(), 2);
    table.attach_component(Component::new(Health(3)))?;

    assert_eq!(table.row_count(), 3);
    assert_eq!(table.entity_mask(0), Some(1));
    assert_eq!(table.entity_mask(1), Some(1));
    assert_eq!(table.entity_mask(2), Some(1));
    assert_eq!(table.entity_mask(3), None);
    Ok(())
}

#[test]
fn a_row_without_components_is_handed_out_again() {
    let mut table = EntityStorage::default();
    table.register_component::<Health>();

    assert_eq!(table.create_row(), 0);
    assert_eq!(table.create_row(), 0);
    assert_eq!(table.row_count(), 1);
}

#[test]
fn a_deleted_row_is_reused_before_the_table_grows() -> Result<(), ECSError> {
    let mut table = EntityStorage::default();
    table.register_component::<Health>();
    table.register_component::<Speed>();
    table
        .create_entity()
        .with_component(Health(1))?
        .with_component(Speed(1))?;
    table.create_entity().with_component(Health(2))?;
    table.create_entity().with_component(Health(3))?;

    table.remove_entity(1)?;
    assert_eq!(table.entity_mask(1), Some(0));

    assert_eq!(table.create_row(), 1);
    assert_eq!(table.row_count(), 3);
    assert_eq!(table.entity_mask(1), Some(0));
    assert!(table.component(1, &TypeId::of::<Health>()).is_none());

    table.attach_component(Component::new(Speed(9)))?;
    assert_eq!(table.entity_mask(1), Some(2));
    assert!(table.component(1, &TypeId::of::<Health>()).is_none());
    let speed = table.component(1, &TypeId::of::<Speed>()).unwrap();
    assert_eq!(speed.read::<Speed>()?.0, 9);

    assert_eq!(table.create_row(), 3);
    assert_eq!(table.row_count(), 4);
    Ok(())
}

#[test]
fn the_first_of_two_free_rows_is_reused() -> Result<(), ECSError> {
    let mut table = EntityStorage::default();
    table.register_component::<Health>();
    table.create_entity().with_component(Health(1))?;
    table.create_entity().with_component(Health(2))?;
    table.create_entity().with_component(Health(3))?;

    table.remove_entity(2)?;
    table.remove_entity(0)?;

    assert_eq!(table.create_row(), 0);
    table.attach_component(Component::new(Health(4)))?;
    assert_eq!(table.create_row(), 2);
    Ok(())
}

#[test]
fn detaching_twice_is_detaching_once() -> Result<(), ECSError> {
    let mut table = EntityStorage::default();
    table.register_component::<Health>();
    table.register_component::<Speed>();
    table
        .create_entity()
        .with_component(Health(1))?
        .with_component(Speed(2))?;

    assert_eq!(table.detach_component(0, TypeId::of::<Health>()), Ok(()));
    assert_eq!(table.entity_mask(0), Some(2));
    assert_eq!(table.detach_component(0, TypeId::of::<Health>()), Ok(()));
    assert_eq!(table.entity_mask(0), Some(2));
    Ok(())
}

#[test]
fn a_detached_component_is_no_longer_reported() -> Result<(), ECSError> {
    let mut table = EntityStorage::default();
    table.register_component::<Health>();
    table.create_entity().with_component(Health(7))?;
    assert!(table.component(0, &TypeId::of::<Health>()).is_some());

    table.remove_entity_component::<Health>(0)?;

    assert!(table.component(0, &TypeId::of::<Health>()).is_none());
    assert_eq!(table.entity_mask(0), Some(0));
    assert_eq!(table.column_len(&TypeId::of::<Health>()), Some(1));
    Ok(())
}

#[test]
fn attaching_before_any_row_exists_is_refused() {
    let mut table = EntityStorage::default();
    table.register_component::<Health>();

    assert_eq!(
        table.with_component(Health(1)).err(),
        Some(ECSError::CreateComponentNeverCalled)
    );
    assert_eq!(
        table.attach_component(Component::new(Health(1))),
        Err(ECSError::CreateComponentNeverCalled)
    );
    assert_eq!(table.row_count(), 0);
}

#[test]
fn an_unregistered_type_is_refused_before_the_row_is_looked_at() {
    let mut table = EntityStorage::default();

    assert_eq!(
        table.with_component(Health(1)).err(),
        Some(ECSError::ComponentNotRegistered)
    );
    assert_eq!(
        table.add_component_to_entity(7, Health(1)),
        Err(ECSError::ComponentNotRegistered)
    );
    assert_eq!(
        table.remove_entity_component::<Health>(7),
        Err(ECSError::ComponentNotRegistered)
    );
    assert_eq!(
        table.attach_component_to_row(7, Component::new(Health(1))),
        Err(ECSError::ComponentNotRegistered)
    );
    assert_eq!(
        table.detach_component(7, TypeId::of::<Health>()),
        Err(ECSError::ComponentNotRegistered)
    );
    assert_eq!(table.get_bitmask(&TypeId::of::<Health>()), None);
    assert_eq!(table.column_len(&TypeId::of::<Health>()), None);
}

#[test]
fn a_row_outside_the_table_is_refused() -> Result<(), ECSError> {
    let mut table = EntityStorage::default();
    table.register_component::<Health>();
    table.create_entity().with_component(Health(1))?;

    assert_eq!(table.remove_entity(1), Err(ECSError::EntityDoesNotExist));
    assert_eq!(
        table.add_component_to_entity(1, Health(2)),
        Err(ECSError::EntityDoesNotExist)
    );
    assert_eq!(
        table.remove_entity_component::<Health>(1),
        Err(ECSError::EntityDoesNotExist)
    );
    assert_eq!(table.entity_mask(0), Some(1));
    assert_eq!(table.row_count(), 1);
    assert_eq!(table.remove_entity(0), Ok(()));
    Ok(())
}

#[test]
fn a_type_registered_late_gets_a_slot_in_every_row() -> Result<(), ECSError> {
    let mut table = EntityStorage::default();
    table.register_component::<Health>();
    table.create_entity().with_component(Health(1))?;
    table.create_entity().with_component(Health(2))?;

    table.register_component::<Speed>();

    assert_eq!(table.column_len(&TypeId::of::<Speed>()), Some(2));
    assert_eq!(table.column_len(&TypeId::of::<Health>()), Some(2));
    table.add_component_to_entity(1, Speed(5))?;
    assert_eq!(table.entity_mask(1), Some(3));
    assert_eq!(table.entity_mask(0), Some(1));
    Ok(())
}

#[test]
fn attaching_again_overwrites_the_value() -> Result<(), ECSError> {
    let mut table = EntityStorage::default();
    table.register_component::<Health>();
    table
        .create_entity()
        .with_component(Health(1))?
        .with_component(Health(2))?;

    assert_eq!(table.entity_mask(0), Some(1));
    let health = table.component(0, &TypeId::of::<Health>()).unwrap();
    assert_eq!(health.read::<Health>()?.0, 2);
    Ok(())
}

#[test]
fn the_keyed_operations_agree_with_the_typed_ones() -> Result<(), ECSError> {
    let health = TypeId::of::<Health>();
    let speed = TypeId::of::<Speed>();
    let mut table = EntityStorage::default();
    table.register_type(health);
    table.register_type(speed);
    assert!(table.is_registered(&health));
    assert!(!table.is_registered(&TypeId::of::<Armor>()));

    let row = table.create_row();
    assert_eq!(row, table.next_free_entity_id());
    table.attach_component(Component::new(Health(3)))?;
    table.attach_component_to_row(row, Component::new(Speed(4)))?;
    assert_eq!(table.entity_mask(row), Some(3));

    table.detach_component(row, speed)?;
    assert_eq!(table.entity_mask(row), Some(1));
    assert_eq!(
        table.component(row, &health).unwrap().type_key(),
        health
    );
    Ok(())
}
