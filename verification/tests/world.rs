use arena_world::bootstrap::init;
use arena_world::{Config, Database, DbVector2, Entity, Error, Food, Player, ScheduleAt};
use spacetimedb::Identity;

fn point(x: f32, y: f32) -> DbVector2 {
    DbVector2 { x: x.to_bits(), y: y.to_bits() }
}

fn row(n: u8, player_id: u32) -> Player {
    Player { identity: Identity::from_byte_array([n; 32]), player_id, name: String::new() }
}

#[test]
fn a_new_world_is_empty_and_well_formed() {
    let db = Database::new();
    assert!(db.is_well_formed());
    assert!(db.config.is_none());
    assert!(db.spawn_food_timer.is_none());
    assert!(db.entity.is_empty());
    assert!(db.food.is_empty());
    assert!(db.player.is_empty());
    assert!(db.logged_out_player.is_empty());
    assert_eq!(db.entity_seq, 0);
    assert_eq!(db.player_seq, 0);
}

#[test]
fn world_size_before_setup_is_not_initialized() {
    let db = Database::new();
    assert_eq!(db.world_size(), Err(Error::NotInitialized));
}

#[test]
fn initialize_stores_the_world_size_once() {
    let mut db = Database::new();
    assert_eq!(db.initialize(250), Ok(()));
    assert_eq!(db.config, Some(Config { id: 0, world_size: 250 }));
    assert_eq!(db.world_size(), Ok(250));
    assert_eq!(db.initialize(300), Err(Error::AlreadyInitialized));
    assert_eq!(db.world_size(), Ok(250));
}

#[test]
fn init_stores_configuration_and_timer() {
    let mut db = Database::new();
    assert_eq!(init(&mut db), Ok(()));
    assert_eq!(db.config, Some(Config { id: 0, world_size: 1000 }));
    let timer = db.spawn_food_timer.unwrap();
    assert_eq!(timer.scheduled_id, 1);
    assert_eq!(timer.scheduled_at, ScheduleAt::Interval { micros: 500_000 });
    assert!(db.is_well_formed());
}

#[test]
fn init_twice_is_already_bootstrapped() {
    let mut db = Database::new();
    init(&mut db).unwrap();
    let before = db.clone();
    assert_eq!(init(&mut db), Err(Error::AlreadyBootstrapped));
    assert_eq!(db, before);
}

#[test]
fn init_after_initialize_is_already_bootstrapped() {
    let mut db = Database::new();
    db.initialize(77).unwrap();
    let before = db.clone();
    assert_eq!(init(&mut db), Err(Error::AlreadyBootstrapped));
    assert_eq!(db, before);
    assert!(db.spawn_food_timer.is_none());
}

#[test]
fn init_with_a_timer_left_over_is_already_bootstrapped() {
    let mut db = Database::new();
    init(&mut db).unwrap();
    db.config = None;
    let before = db.clone();
    assert_eq!(init(&mut db), Err(Error::AlreadyBootstrapped));
    assert_eq!(db, before);
}

#[test]
fn create_entity_hands_out_increasing_identifiers() {
    let mut db = Database::new();
    assert_eq!(db.create_entity(point(1.0, 2.0), 5), Ok(1));
    assert_eq!(db.create_entity(point(3.0, 4.0), 6), Ok(2));
    assert_eq!(db.create_entity(point(5.0, 6.0), 7), Ok(3));
    assert_eq!(
        db.entity,
        vec![
            Entity { entity_id: 1, position: point(1.0, 2.0), mass: 5 },
            Entity { entity_id: 2, position: point(3.0, 4.0), mass: 6 },
            Entity { entity_id: 3, position: point(5.0, 6.0), mass: 7 },
        ]
    );
    assert_eq!(db.entity_seq, 3);
    assert!(db.food.is_empty());
    assert!(db.is_well_formed());
}

#[test]
fn create_entity_is_refused_when_no_identifier_is_left() {
    let mut db = Database::new();
    db.entity_seq = u32::MAX - 1;
    assert_eq!(db.create_entity(point(1.0, 1.0), 2), Ok(u32::MAX));
    let before = db.clone();
    assert_eq!(db.create_entity(point(1.0, 1.0), 2), Err(Error::InsertConflict));
    assert_eq!(db, before);
}

#[test]
fn create_food_stores_entity_and_marker() {
    let mut db = Database::new();
    db.create_entity(point(9.0, 9.0), 40).unwrap();
    assert_eq!(db.create_food(point(2.5, 3.5), 3), Ok(2));
    assert_eq!(db.entity.len(), 2);
    assert_eq!(db.entity[1], Entity { entity_id: 2, position: point(2.5, 3.5), mass: 3 });
    assert_eq!(db.food, vec![Food { entity_id: 2 }]);
    assert!(db.is_well_formed());
}

#[test]
fn create_food_is_refused_when_no_identifier_is_left() {
    let mut db = Database::new();
    db.entity_seq = u32::MAX;
    let before = db.clone();
    assert_eq!(db.create_food(point(2.5, 3.5), 3), Err(Error::InsertConflict));
    assert_eq!(db, before);
}

#[test]
fn finite_and_other_coordinates_are_told_apart() {
    assert!(point(0.0, 0.0).check_finite());
    assert!(point(-12.5, 1.0e30).check_finite());
    assert!(point(f32::MAX, f32::MIN).check_finite());
    assert!(!point(f32::INFINITY, 0.0).check_finite());
    assert!(!point(0.0, f32::NEG_INFINITY).check_finite());
    assert!(!point(f32::NAN, 0.0).check_finite());
    assert!(!point(1.0, f32::NAN).check_finite());
}

#[test]
fn a_configuration_under_another_key_is_not_well_formed() {
    let mut db = Database::new();
    db.config = Some(Config { id: 1, world_size: 10 });
    assert!(!db.is_well_formed());
}

#[test]
fn an_entity_identifier_used_twice_is_not_well_formed() {
    let mut db = Database::new();
    db.entity_seq = 5;
    db.entity.push(Entity { entity_id: 2, position: point(1.0, 1.0), mass: 2 });
    db.entity.push(Entity { entity_id: 3, position: point(1.0, 1.0), mass: 2 });
    assert!(db.is_well_formed());
    db.entity.push(Entity { entity_id: 2, position: point(4.0, 1.0), mass: 3 });
    assert!(!db.is_well_formed());
}

#[test]
fn an_entity_identifier_that_was_not_handed_out_is_not_well_formed() {
    let mut db = Database::new();
    db.entity_seq = 5;
    db.entity.push(Entity { entity_id: 6, position: point(1.0, 1.0), mass: 2 });
    assert!(!db.is_well_formed());
    db.entity[0].entity_id = 0;
    assert!(!db.is_well_formed());
    db.entity[0].entity_id = 5;
    assert!(db.is_well_formed());
}

#[test]
fn an_entity_without_mass_or_off_the_plane_is_not_well_formed() {
    let mut db = Database::new();
    db.entity_seq = 1;
    db.entity.push(Entity { entity_id: 1, position: point(1.0, 1.0), mass: 0 });
    assert!(!db.is_well_formed());
    db.entity[0].mass = 1;
    assert!(db.is_well_formed());
    db.entity[0].position = point(f32::INFINITY, 1.0);
    assert!(!db.is_well_formed());
}

#[test]
fn food_without_its_entity_is_not_well_formed() {
    let mut db = Database::new();
    db.create_food(point(2.0, 2.0), 2).unwrap();
    db.food.push(Food { entity_id: 7 });
    assert!(!db.is_well_formed());
}

#[test]
fn an_entity_marked_twice_is_not_well_formed() {
    let mut db = Database::new();
    db.create_food(point(2.0, 2.0), 2).unwrap();
    db.food.push(Food { entity_id: 1 });
    assert!(!db.is_well_formed());
}

#[test]
fn an_identity_in_both_partitions_is_not_well_formed() {
    let mut db = Database::new();
    db.player_seq = 9;
    db.player.push(row(1, 1));
    db.logged_out_player.push(row(2, 2));
    assert!(db.is_well_formed());
    db.logged_out_player.push(row(1, 3));
    assert!(!db.is_well_formed());
}

#[test]
fn an_identity_twice_in_one_partition_is_not_well_formed() {
    let mut db = Database::new();
    db.player_seq = 9;
    db.player.push(row(1, 1));
    db.player.push(row(2, 2));
    db.player.push(row(1, 3));
    assert!(!db.is_well_formed());
    let mut db = Database::new();
    db.player_seq = 9;
    db.logged_out_player.push(row(4, 1));
    db.logged_out_player.push(row(4, 2));
    assert!(!db.is_well_formed());
}

#[test]
fn a_player_identifier_used_twice_is_not_well_formed() {
    let mut db = Database::new();
    db.player_seq = 9;
    db.player.push(row(1, 4));
    db.logged_out_player.push(row(2, 4));
    assert!(!db.is_well_formed());
    let mut db = Database::new();
    db.player_seq = 9;
    db.player.push(row(1, 4));
    db.player.push(row(2, 4));
    assert!(!db.is_well_formed());
}

#[test]
fn a_player_identifier_that_was_not_handed_out_is_not_well_formed() {
    let mut db = Database::new();
    db.player_seq = 3;
    db.player.push(row(1, 4));
    assert!(!db.is_well_formed());
    db.player[0].player_id = 0;
    assert!(!db.is_well_formed());
    db.player[0].player_id = 3;
    assert!(db.is_well_formed());
    db.logged_out_player.push(row(2, 4));
    assert!(!db.is_well_formed());
}

#[test]
fn a_cloned_player_equals_its_source() {
    let mut source = row(3, 12);
    source.name = String::from("cee");
    let copy = source.clone();
    assert_eq!(copy, source);
    assert_eq!(copy.name, "cee");
}

#[test]
fn every_failure_has_its_message() {
    assert_eq!(Error::PlayerNotFound.message(), "Player not found");
    assert_eq!(Error::NotInitialized.message(), "Config not found");
    let all = [
        Error::AlreadyInitialized,
        Error::AlreadyBootstrapped,
        Error::NotInitialized,
        Error::ConfigurationError,
        Error::DuplicateIdentity,
        Error::PlayerNotFound,
        Error::InsertConflict,
    ];
    for (i, a) in all.iter().enumerate() {
        assert!(!a.message().is_empty());
        for b in all.iter().skip(i + 1) {
            assert_ne!(a.message(), b.message());
        }
    }
}
