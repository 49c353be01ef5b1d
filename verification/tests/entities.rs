use jecs::entities::Entities;
use jecs::errors::JecsError;

const HEALTH: u64 = 1;
const SPEED: u64 = 2;

#[derive(Debug, Clone, Copy, PartialEq)]
enum Comp {
    Health(u32),
    Speed(f32),
}

fn health_of(c: Comp) -> u32 {
    match c {
        Comp::Health(h) => h,
        Comp::Speed(_) => panic!("expected a health component"),
    }
}

fn speed_of(c: Comp) -> f32 {
    match c {
        Comp::Speed(s) => s,
        Comp::Health(_) => panic!("expected a speed component"),
    }
}

#[test]
fn register_component() {
    let mut entities: Entities<Comp> = Entities::new();
    entities.register_component(HEALTH);
    let health_components = &entities.components[0];
    assert_eq!(health_components.len(), 0);
}

#[test]
fn register_entity() {
    let mut entities: Entities<Comp> = Entities::new();
    entities.register_component(HEALTH);
    let health_components = &entities.components[0];
    assert_eq!(health_components.len(), 0);
}

#[test]
fn entities_bitmask_updated_when_registering_entities() {
    let mut entities: Entities<Comp> = Entities::new();
    entities.register_component(HEALTH);
    let mask = entities.get_bit_mask(HEALTH).unwrap();
    assert_eq!(mask, 1);

    entities.register_component(SPEED);
    let mask = entities.get_bit_mask(SPEED).unwrap();
    assert_eq!(mask, 2);
}

#[test]
fn entities_create_entity() {
    let mut entities: Entities<Comp> = Entities::new();
    entities.register_component(HEALTH);
    entities.register_component(SPEED);
    entities.create_entity();

    let health = &entities.components[0];
    assert_eq!(health.len(), 1);
    assert!(health[0].is_none());
    let speed = &entities.components[1];
    assert_eq!(speed.len(), 1);
    assert!(speed[0].is_none());
}

#[test]
fn entities_with_component() -> Result<(), JecsError> {
    let mut entities: Entities<Comp> = Entities::new();
    entities.register_component(HEALTH);
    entities.register_component(SPEED);
    entities.create_entity();
    entities.with_component(HEALTH, Comp::Health(100))?;
    entities.with_component(SPEED, Comp::Speed(16.0))?;

    let first_health = entities.components[0][0].unwrap();
    assert_eq!(health_of(first_health), 100);

    Ok(())
}

#[test]
fn entities_map_is_updated_when_creating_entities() -> Result<(), JecsError> {
    let mut entities: Entities<Comp> = Entities::new();
    entities.register_component(HEALTH);
    entities.register_component(SPEED);
    entities.create_entity();
    entities.with_component(HEALTH, Comp::Health(100))?;
    entities.with_component(SPEED, Comp::Speed(16.0))?;

    let entity_map = entities.bitmap[0];
    assert_eq!(entity_map, 3);

    entities.create_entity();
    entities.with_component(SPEED, Comp::Speed(20.0))?;
    let entity_map = entities.bitmap[1];
    assert_eq!(entity_map, 2);

    Ok(())
}

#[test]
fn entities_delete_component_by_entity_id() -> Result<(), JecsError> {
    let mut entities: Entities<Comp> = Entities::new();
    entities.register_component(HEALTH);
    entities.register_component(SPEED);
    entities.create_entity();
    entities.with_component(HEALTH, Comp::Health(100))?;
    entities.with_component(SPEED, Comp::Speed(16.0))?;

    entities.delete_component_by_entity_id(HEALTH, 0)?;

    assert_eq!(entities.bitmap[0], 2);
    Ok(())
}

#[test]
fn entities_add_component_by_entity_id() -> Result<(), JecsError> {
    let mut entities: Entities<Comp> = Entities::new();
    entities.register_component(HEALTH);
    entities.register_component(SPEED);
    entities.create_entity();
    entities.with_component(HEALTH, Comp::Health(100))?;

    entities.add_component_by_entity_id(SPEED, Comp::Speed(16.0), 0)?;

    assert_eq!(entities.bitmap[0], 3);

    let speed = entities.components[1][0].unwrap();
    assert_eq!(speed_of(speed), 16.0);

    Ok(())
}

#[test]
fn entities_delete_entity_by_id() -> Result<(), JecsError> {
    let mut entities: Entities<Comp> = Entities::new();
    entities.register_component(HEALTH);
    entities.create_entity();
    entities.with_component(HEALTH, Comp::Health(100))?;
    entities.delete_entity_by_id(0)?;
    assert_eq!(entities.bitmap[0], 0);
    Ok(())
}

#[test]
fn entities_created_entities_are_inserted_into_deleted_entities_columns() -> Result<(), JecsError>
{
    let mut entities: Entities<Comp> = Entities::new();
    entities.register_component(HEALTH);
    entities.create_entity();
    entities.with_component(HEALTH, Comp::Health(100))?;
    entities.create_entity();
    entities.with_component(HEALTH, Comp::Health(200))?;
    entities.delete_entity_by_id(0)?;
    entities.create_entity();
    entities.with_component(HEALTH, Comp::Health(300))?;

    assert_eq!(entities.bitmap[0], 1);

    let health = entities.components[0][0].unwrap();
    assert_eq!(health_of(health), 300);

    Ok(())
}

#[test]
fn with_component_unregistered_type_is_rejected() {
    let mut entities: Entities<Comp> = Entities::new();
    entities.register_component(HEALTH);
    entities.create_entity();
    let result = entities.with_component(SPEED, Comp::Speed(16.0));
    assert_eq!(result, Err(JecsError::ComponentNotRegistered));
}

#[test]
fn with_component_without_open_slot_is_rejected() {
    let mut entities: Entities<Comp> = Entities::new();
    entities.register_component(HEALTH);
    let result = entities.with_component(HEALTH, Comp::Health(100));
    assert_eq!(result, Err(JecsError::CreateEntityNeverCalled));
}

#[test]
fn delete_entity_out_of_range_is_rejected() {
    let mut entities: Entities<Comp> = Entities::new();
    entities.register_component(HEALTH);
    let result = entities.delete_entity_by_id(0);
    assert_eq!(result, Err(JecsError::EntityDoesNotExist));
}

#[test]
fn delete_component_twice_keeps_bit_clear() -> Result<(), JecsError> {
    let mut entities: Entities<Comp> = Entities::new();
    entities.register_component(HEALTH);
    entities.register_component(SPEED);
    entities.create_entity();
    entities.with_component(HEALTH, Comp::Health(100))?;
    entities.with_component(SPEED, Comp::Speed(16.0))?;

    entities.delete_component_by_entity_id(HEALTH, 0)?;
    entities.delete_component_by_entity_id(HEALTH, 0)?;

    assert_eq!(entities.bitmap[0], 2);
    Ok(())
}

#[test]
fn bit_masks_are_distinct_powers_of_two() {
    let mut entities: Entities<Comp> = Entities::new();
    let keys: [u64; 5] = [7, 3, 9, 20, 11];
    for key in keys {
        entities.register_component(key);
    }
    for (k, key) in keys.iter().enumerate() {
        assert_eq!(entities.get_bit_mask(*key).unwrap(), 1u32 << k);
    }
}
