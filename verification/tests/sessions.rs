use arena_world::session::{connect, disconnect};
use arena_world::{Database, Error, Player};
use spacetimedb::Identity;

fn identity(n: u8) -> Identity {
    Identity::from_byte_array([n; 32])
}

fn active<'a>(db: &'a Database, who: &Identity) -> Option<&'a Player> {
    let found = db.find_player(who);
    assert_eq!(found, db.player.iter().find(|p| p.identity == *who));
    found
}

fn logged_out<'a>(db: &'a Database, who: &Identity) -> Option<&'a Player> {
    let found = db.find_logged_out_player(who);
    assert_eq!(found, db.logged_out_player.iter().find(|p| p.identity == *who));
    found
}

#[test]
fn first_connect_creates_player_with_fresh_id_and_empty_name() {
    let mut db = Database::new();
    let a = identity(1);
    assert_eq!(connect(&mut db, a), Ok(()));
    assert_eq!(db.player.len(), 1);
    assert_eq!(db.logged_out_player.len(), 0);
    let row = active(&db, &a).unwrap();
    assert_eq!(row.player_id, 1);
    assert_eq!(row.name, "");
    assert_eq!(db.player_seq, 1);
    assert!(db.is_well_formed());
}

#[test]
fn distinct_identities_get_distinct_player_ids() {
    let mut db = Database::new();
    let a = identity(1);
    let b = identity(2);
    assert_eq!(connect(&mut db, a), Ok(()));
    assert_eq!(connect(&mut db, b), Ok(()));
    assert_eq!(db.player.len(), 2);
    assert_eq!(active(&db, &a).unwrap().player_id, 1);
    assert_eq!(active(&db, &b).unwrap().player_id, 2);
    assert!(db.is_well_formed());
}

#[test]
fn identities_that_differ_in_one_byte_are_told_apart() {
    let mut bytes = [7u8; 32];
    let a = Identity::from_byte_array(bytes);
    bytes[31] = 8;
    let b = Identity::from_byte_array(bytes);
    let mut db = Database::new();
    assert_eq!(connect(&mut db, a), Ok(()));
    assert_eq!(connect(&mut db, b), Ok(()));
    assert_eq!(disconnect(&mut db, a), Ok(()));
    assert!(active(&db, &a).is_none());
    assert!(active(&db, &b).is_some());
    assert!(logged_out(&db, &a).is_some());
    assert!(logged_out(&db, &b).is_none());
}

#[test]
fn connect_twice_for_a_new_identity_is_refused_the_second_time() {
    let mut db = Database::new();
    let a = identity(9);
    assert_eq!(connect(&mut db, a), Ok(()));
    let before = db.clone();
    assert_eq!(connect(&mut db, a), Err(Error::DuplicateIdentity));
    assert_eq!(db, before);
    assert_eq!(db.player.iter().filter(|p| p.identity == a).count(), 1);
    assert_eq!(db.player_seq, 1);
}

#[test]
fn disconnect_moves_the_record_to_the_logged_out_partition() {
    let mut db = Database::new();
    let a = identity(1);
    connect(&mut db, a).unwrap();
    assert_eq!(disconnect(&mut db, a), Ok(()));
    assert!(active(&db, &a).is_none());
    let row = logged_out(&db, &a).unwrap();
    assert_eq!(row.player_id, 1);
    assert_eq!(row.name, "");
    assert!(db.is_well_formed());
}

#[test]
fn disconnect_of_an_unknown_identity_is_player_not_found() {
    let mut db = Database::new();
    connect(&mut db, identity(1)).unwrap();
    let before = db.clone();
    assert_eq!(disconnect(&mut db, identity(2)), Err(Error::PlayerNotFound));
    assert_eq!(db, before);
}

#[test]
fn disconnect_of_a_logged_out_identity_is_player_not_found() {
    let mut db = Database::new();
    let a = identity(1);
    connect(&mut db, a).unwrap();
    disconnect(&mut db, a).unwrap();
    let before = db.clone();
    assert_eq!(disconnect(&mut db, a), Err(Error::PlayerNotFound));
    assert_eq!(db, before);
}

#[test]
fn reconnect_preserves_name_and_player_id() {
    let mut db = Database::new();
    let a = identity(1);
    let b = identity(2);
    connect(&mut db, a).unwrap();
    connect(&mut db, b).unwrap();
    db.player[1].name = String::from("bee");
    assert!(db.is_well_formed());
    disconnect(&mut db, b).unwrap();
    let parked = logged_out(&db, &b).unwrap();
    assert_eq!(parked.player_id, 2);
    assert_eq!(parked.name, "bee");
    assert_eq!(connect(&mut db, b), Ok(()));
    let back = active(&db, &b).unwrap();
    assert_eq!(back.player_id, 2);
    assert_eq!(back.name, "bee");
    assert!(logged_out(&db, &b).is_none());
    assert_eq!(db.player_seq, 2);
}

#[test]
fn a_returning_player_does_not_use_up_an_identifier() {
    let mut db = Database::new();
    let a = identity(1);
    let b = identity(2);
    connect(&mut db, a).unwrap();
    disconnect(&mut db, a).unwrap();
    connect(&mut db, a).unwrap();
    connect(&mut db, b).unwrap();
    assert_eq!(active(&db, &a).unwrap().player_id, 1);
    assert_eq!(active(&db, &b).unwrap().player_id, 2);
}

#[test]
fn an_identity_is_never_in_both_partitions() {
    let mut db = Database::new();
    let a = identity(1);
    let other = identity(2);
    connect(&mut db, other).unwrap();
    let calls = [true, true, false, false, true, false, true, true, false, true, false, false];
    let mut player_id = None;
    for is_connect in calls {
        let _ = if is_connect { connect(&mut db, a) } else { disconnect(&mut db, a) };
        let in_active = active(&db, &a).is_some();
        let in_logged_out = logged_out(&db, &a).is_some();
        assert!(!(in_active && in_logged_out));
        assert!(in_active || in_logged_out);
        let row = active(&db, &a).or(logged_out(&db, &a)).unwrap();
        match player_id {
            None => player_id = Some(row.player_id),
            Some(id) => assert_eq!(row.player_id, id),
        }
        assert!(db.is_well_formed());
        assert_eq!(active(&db, &other).unwrap().player_id, 1);
    }
    assert_eq!(player_id, Some(2));
}

#[test]
fn connect_is_refused_when_no_player_identifier_is_left() {
    let mut db = Database::new();
    db.player_seq = u32::MAX;
    assert!(db.is_well_formed());
    let before = db.clone();
    assert_eq!(connect(&mut db, identity(1)), Err(Error::InsertConflict));
    assert_eq!(db, before);
}

#[test]
fn the_last_player_identifier_is_handed_out() {
    let mut db = Database::new();
    db.player_seq = u32::MAX - 1;
    let a = identity(1);
    assert_eq!(connect(&mut db, a), Ok(()));
    assert_eq!(active(&db, &a).unwrap().player_id, u32::MAX);
    assert_eq!(connect(&mut db, identity(2)), Err(Error::InsertConflict));
}

#[test]
fn a_logged_out_player_returns_even_when_no_identifier_is_left() {
    let mut db = Database::new();
    let a = identity(1);
    connect(&mut db, a).unwrap();
    disconnect(&mut db, a).unwrap();
    db.player_seq = u32::MAX;
    assert_eq!(connect(&mut db, a), Ok(()));
    assert_eq!(active(&db, &a).unwrap().player_id, 1);
}

#[test]
fn sessions_leave_the_rest_of_the_world_alone() {
    let mut db = Database::new();
    arena_world::bootstrap::init(&mut db).unwrap();
    let a = identity(1);
    connect(&mut db, a).unwrap();
    disconnect(&mut db, a).unwrap();
    assert_eq!(db.config.unwrap().world_size, 1000);
    assert!(db.spawn_food_timer.is_some());
    assert!(db.entity.is_empty());
    assert!(db.food.is_empty());
    assert_eq!(db.entity_seq, 0);
}

#[test]
fn lookups_find_each_player_in_its_partition() {
    let mut db = Database::new();
    let a = identity(1);
    let b = identity(2);
    let c = identity(3);
    connect(&mut db, a).unwrap();
    connect(&mut db, b).unwrap();
    disconnect(&mut db, a).unwrap();
    assert_eq!(db.find_player(&b).map(|p| p.player_id), Some(2));
    assert_eq!(db.find_player(&a), None);
    assert_eq!(db.find_logged_out_player(&a).map(|p| p.player_id), Some(1));
    assert_eq!(db.find_logged_out_player(&b), None);
    assert_eq!(db.find_player(&c), None);
    assert_eq!(db.find_logged_out_player(&c), None);
    assert_eq!(arena_world::database::find_row(&db.player, &b), Some(0));
    assert_eq!(arena_world::database::find_row(&db.player, &a), None);
}
