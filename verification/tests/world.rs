use jecs::errors::JecsError;
use jecs::World;

const LOCATION: u64 = 1;
const SIZE: u64 = 2;
const FPS: u64 = 10;

#[derive(Debug, Clone, Copy, PartialEq)]
enum Comp {
    Location(f32, f32),
    Size(f32),
}

fn location_of(c: Comp) -> (f32, f32) {
    match c {
        Comp::Location(x, y) => (x, y),
        Comp::Size(_) => panic!("expected a location component"),
    }
}

fn size_of(c: Comp) -> f32 {
    match c {
        Comp::Size(s) => s,
        Comp::Location(_, _) => panic!("expected a size component"),
    }
}

#[derive(Debug, Clone, Copy, PartialEq)]
struct FPSResource(pub u32);

impl FPSResource {
    pub fn new(fps: u32) -> Self {
        Self(fps)
    }
}

fn initialize_world() -> World<Comp, FPSResource> {
    let mut world = World::new();
    world.add_resource(FPS, FPSResource::new(60));
    world
}

#[test]
fn resources_create_and_get_resource_immutably() {
    let world = initialize_world();
    let fps = world.get_resource(FPS).unwrap();
    assert_eq!(fps.0, 60);
}

#[test]
fn world_get_resource_mutably() {
    let mut world = initialize_world();
    {
        let fps = world.get_resource_mut(FPS).unwrap();
        fps.0 += 10;
    }
    let fps = world.get_resource(FPS).unwrap();
    assert_eq!(fps.0, 70);
}

#[test]
fn delete_resource() {
    let mut world = initialize_world();
    world.delete_resource(FPS);
    let deleted_resource = world.get_resource(FPS);
    assert!(deleted_resource.is_none());
}

#[test]
fn resource_round_trip() {
    let mut world = initialize_world();
    assert_eq!(world.get_resource(FPS).unwrap().0, 60);
    {
        let fps = world.get_resource_mut(FPS).unwrap();
        fps.0 += 10;
    }
    assert_eq!(world.get_resource(FPS).unwrap().0, 70);
    world.delete_resource(FPS);
    assert!(world.get_resource(FPS).is_none());
}

#[test]
fn world_create_entity() -> Result<(), JecsError> {
    let mut world: World<Comp, FPSResource> = World::new();
    world.register_component(LOCATION);
    world.register_component(SIZE);

    world.create_entity();
    world.with_component(LOCATION, Comp::Location(16.0, 64.0))?;
    world.with_component(SIZE, Comp::Size(10.0))?;

    Ok(())
}

#[test]
fn query_for_entities() -> Result<(), JecsError> {
    let mut world: World<Comp, FPSResource> = World::new();
    world.register_component(LOCATION);
    world.register_component(SIZE);

    world.create_entity();
    world.with_component(LOCATION, Comp::Location(16.0, 64.0))?;
    world.with_component(SIZE, Comp::Size(10.0))?;
    world.create_entity();
    world.with_component(SIZE, Comp::Size(32.0))?;
    world.create_entity();
    world.with_component(LOCATION, Comp::Location(20.0, 80.0))?;
    world.create_entity();
    world.with_component(LOCATION, Comp::Location(32.0, 128.0))?;
    world.with_component(SIZE, Comp::Size(20.0))?;

    let mut query = world.query();
    query.with_component(LOCATION)?;
    query.with_component(SIZE)?;
    let query = query.run();

    let locations = &query.result[0];
    let sizes = &query.result[1];

    assert_eq!(locations.len(), 2);
    assert_eq!(sizes.len(), 2);

    let first_location = location_of(locations[0]);
    assert_eq!(first_location.0, 16.0);

    let first_size = size_of(sizes[0]);
    assert_eq!(first_size, 10.0);

    let second_location = location_of(locations[1]);
    assert_eq!(second_location.0, 32.0);

    let mut second_size = size_of(sizes[1]);
    second_size += 10.0;
    assert_eq!(second_size, 30.0);

    Ok(())
}

#[test]
fn delete_component_from_entity() -> Result<(), JecsError> {
    let mut world: World<Comp, FPSResource> = World::new();
    world.register_component(LOCATION);
    world.register_component(SIZE);

    world.create_entity();
    world.with_component(LOCATION, Comp::Location(16.0, 64.0))?;
    world.with_component(SIZE, Comp::Size(10.0))?;
    world.create_entity();
    world.with_component(LOCATION, Comp::Location(32.0, 128.0))?;
    world.with_component(SIZE, Comp::Size(20.0))?;

    world.delete_component_by_entity_id(LOCATION, 0)?;

    let mut query = world.query();
    query.with_component(LOCATION)?;
    query.with_component(SIZE)?;
    let query = query.run();

    assert_eq!(query.indexes.len(), 1);
    assert_eq!(query.indexes[0], 1);

    Ok(())
}

#[test]
fn add_component_to_entity() -> Result<(), JecsError> {
    let mut world: World<Comp, FPSResource> = World::new();
    world.register_component(LOCATION);
    world.register_component(SIZE);

    world.create_entity();
    world.with_component(LOCATION, Comp::Location(16.0, 64.0))?;

    world.add_component_by_entity_id(SIZE, Comp::Size(20.0), 0)?;

    let mut query = world.query();
    query.with_component(LOCATION)?;
    query.with_component(SIZE)?;
    let query = query.run();

    assert_eq!(query.indexes.len(), 1);
    Ok(())
}

#[test]
fn delete_entity() -> Result<(), JecsError> {
    let mut world: World<Comp, FPSResource> = World::new();
    world.register_component(LOCATION);

    world.create_entity();
    world.with_component(LOCATION, Comp::Location(16.0, 64.0))?;
    world.create_entity();
    world.with_component(LOCATION, Comp::Location(32.0, 128.0))?;

    world.delete_entity_by_id(0)?;

    let mut query = world.query();
    query.with_component(LOCATION)?;
    let query = query.run();
    assert_eq!(query.indexes.len(), 1);

    let location = location_of(query.result[0][0]);
    assert_eq!(location.0, 32.0);

    world.create_entity();
    world.with_component(LOCATION, Comp::Location(64.0, 256.0))?;

    let mut query = world.query();
    query.with_component(LOCATION)?;
    let query = query.run();
    assert_eq!(query.indexes.len(), 2);

    let location = location_of(query.result[0][0]);
    assert_eq!(location.0, 64.0);
    Ok(())
}

#[test]
fn deleting_one_component_leaves_the_other_queryable() -> Result<(), JecsError> {
    let mut world: World<Comp, FPSResource> = World::new();
    world.register_component(LOCATION);
    world.register_component(SIZE);

    world.create_entity();
    world.with_component(LOCATION, Comp::Location(1.0, 2.0))?;
    world.with_component(SIZE, Comp::Size(3.0))?;

    world.delete_component_by_entity_id(LOCATION, 0)?;

    let mut for_location = world.query();
    for_location.with_component(LOCATION)?;
    assert_eq!(for_location.run().indexes.len(), 0);

    let mut for_size = world.query();
    for_size.with_component(SIZE)?;
    let result = for_size.run();
    assert_eq!(result.indexes, vec![0]);
    assert_eq!(size_of(result.result[0][0]), 3.0);
    Ok(())
}

#[test]
fn deleted_entity_is_invisible_to_every_query() -> Result<(), JecsError> {
    let mut world: World<Comp, FPSResource> = World::new();
    world.register_component(LOCATION);

    world.create_entity();
    world.with_component(LOCATION, Comp::Location(1.0, 2.0))?;

    world.delete_entity_by_id(0)?;

    let mut for_location = world.query();
    for_location.with_component(LOCATION)?;
    assert_eq!(for_location.run().indexes.len(), 0);

    let zero_filter = world.query().run();
    assert_eq!(zero_filter.indexes.len(), 0);
    Ok(())
}
