//! The tables of the world, what holds of them between two operations, and the
//! operations on a single table.

use crate::error::Error;
use crate::host::same_identity;
use crate::model::{Config, DbVector2, Entity, Food, Player, SpawnFoodTimer};
use spacetimedb::Identity;
use vstd::prelude::*;

verus! {

/// The key of the one configuration row.
pub const CONFIG_ID: u32 = 0;

/// The whole state of the world. Every operation runs on it from start to end
/// with nothing else in between.
#[derive(Debug, PartialEq, Eq)]
pub struct Database {
    /// The configuration row, once the world is set up.
    pub config: Option<Config>,
    /// Every object of the world.
    pub entity: Vec<Entity>,
    /// The last entity identifier that was handed out; 0 before the first.
    pub entity_seq: u32,
    /// The markers of the entities that are food.
    pub food: Vec<Food>,
    /// The active partition: the players that are connected.
    pub player: Vec<Player>,
    /// The logged-out partition: the players that were connected once.
    pub logged_out_player: Vec<Player>,
    /// The last player identifier that was handed out; 0 before the first.
    pub player_seq: u32,
    /// The record that drives the food job, once the world is set up.
    pub spawn_food_timer: Option<SpawnFoodTimer>,
}

/// Some entity carries the identifier `id`.
pub open spec fn has_entity(entities: Seq<Entity>, id: u32) -> bool {
    exists|j: int| 0 <= j < entities.len() && (#[trigger] entities[j]).entity_id == id
}

/// Every entity has an identifier that was handed out, a mass and a finite
/// position, and no identifier occurs twice.
pub open spec fn entities_valid(entities: Seq<Entity>, seq: u32) -> bool {
    &&& forall|i: int|
        0 <= i < entities.len() ==> {
            let e = #[trigger] entities[i];
            1 <= e.entity_id <= seq && e.mass > 0 && e.position.is_finite()
        }
    &&& forall|i: int, j: int|
        0 <= i < j < entities.len() ==> (#[trigger] entities[i]).entity_id != (
        #[trigger] entities[j]).entity_id
}

/// Every marker names an entity that exists, and no entity is marked twice.
pub open spec fn food_valid(food: Seq<Food>, entities: Seq<Entity>) -> bool {
    &&& forall|i: int| 0 <= i < food.len() ==> has_entity(entities, (#[trigger] food[i]).entity_id)
    &&& forall|i: int, j: int|
        0 <= i < j < food.len() ==> (#[trigger] food[i]).entity_id != (#[trigger] food[j]).entity_id
}

/// Some row is filed under `identity`.
pub open spec fn holds(rows: Seq<Player>, identity: Identity) -> bool {
    exists|i: int| 0 <= i < rows.len() && (#[trigger] rows[i]).identity == identity
}

/// No identity and no player identifier occurs in two rows.
pub open spec fn rows_unique(rows: Seq<Player>) -> bool {
    forall|i: int, j: int|
        0 <= i < j < rows.len() ==> {
            &&& (#[trigger] rows[i]).identity != (#[trigger] rows[j]).identity
            &&& rows[i].player_id != rows[j].player_id
        }
}

/// No identity and no player identifier occurs both in a row of `a` and in a
/// row of `b`.
pub open spec fn rows_apart(a: Seq<Player>, b: Seq<Player>) -> bool {
    forall|i: int, j: int|
        0 <= i < a.len() && 0 <= j < b.len() ==> {
            &&& (#[trigger] a[i]).identity != (#[trigger] b[j]).identity
            &&& a[i].player_id != b[j].player_id
        }
}

/// Every row carries a player identifier that was handed out.
pub open spec fn rows_issued(rows: Seq<Player>, seq: u32) -> bool {
    forall|i: int| 0 <= i < rows.len() ==> 1 <= (#[trigger] rows[i]).player_id <= seq
}

impl Clone for Database {
    /// A copy of the world, row for row.
    fn clone(&self) -> (copy: Database)
        ensures
            self.same_setup(copy),
            copy.entity@ == self.entity@,
            copy.entity_seq == self.entity_seq,
            copy.food@ == self.food@,
            copy.player@ == self.player@,
            copy.logged_out_player@ == self.logged_out_player@,
            copy.player_seq == self.player_seq,
            copy.wf() == self.wf(),
    {
        Database {
            config: self.config,
            entity: self.entity.clone(),
            entity_seq: self.entity_seq,
            food: self.food.clone(),
            player: self.player.clone(),
            logged_out_player: self.logged_out_player.clone(),
            player_seq: self.player_seq,
            spawn_food_timer: self.spawn_food_timer,
        }
    }
}

impl Database {
    /// What holds of the world between two operations.
    pub open spec fn wf(self) -> bool {
        &&& self.config matches Some(c) ==> c.id == CONFIG_ID
        &&& entities_valid(self.entity@, self.entity_seq)
        &&& food_valid(self.food@, self.entity@)
        &&& rows_unique(self.player@)
        &&& rows_unique(self.logged_out_player@)
        &&& rows_apart(self.player@, self.logged_out_player@)
        &&& rows_issued(self.player@, self.player_seq)
        &&& rows_issued(self.logged_out_player@, self.player_seq)
    }

    /// `other` has the configuration and the timer of `self`.
    pub open spec fn same_setup(self, other: Database) -> bool {
        self.config == other.config && self.spawn_food_timer == other.spawn_food_timer
    }

    /// `other` has the entities and the food of `self`.
    pub open spec fn same_population(self, other: Database) -> bool {
        &&& self.entity == other.entity
        &&& self.entity_seq == other.entity_seq
        &&& self.food == other.food
    }

    /// `other` has both partitions of `self`.
    pub open spec fn same_sessions(self, other: Database) -> bool {
        &&& self.player == other.player
        &&& self.logged_out_player == other.logged_out_player
        &&& self.player_seq == other.player_seq
    }

    /// The world before anything happened: no row in any table.
    pub fn new() -> (db: Database)
        ensures
            db.wf(),
            db.config is None,
            db.spawn_food_timer is None,
            db.entity@.len() == 0,
            db.food@.len() == 0,
            db.player@.len() == 0,
            db.logged_out_player@.len() == 0,
            db.entity_seq == 0,
            db.player_seq == 0,
    {
        Database {
            config: None,
            entity: Vec::new(),
            entity_seq: 0,
            food: Vec::new(),
            player: Vec::new(),
            logged_out_player: Vec::new(),
            player_seq: 0,
            spawn_food_timer: None,
        }
    }

    /// Tells whether the world is well formed. A world that was put together
    /// from stored rows is checked with this before any operation runs on it.
    pub fn is_well_formed(&self) -> (valid: bool)
        ensures
            valid == self.wf(),
    {
        let config_valid = match self.config {
            Some(c) => c.id == CONFIG_ID,
            None => true,
        };
        config_valid && check_entities(&self.entity, self.entity_seq) && check_food(
            &self.food,
            &self.entity,
        ) && check_rows_unique(&self.player) && check_rows_unique(&self.logged_out_player)
            && check_rows_apart(&self.player, &self.logged_out_player) && check_rows_issued(
            &self.player,
            self.player_seq,
        ) && check_rows_issued(&self.logged_out_player, self.player_seq)
    }

    /// Creates the configuration row. Refused with `AlreadyInitialized` where
    /// the row exists.
    pub fn initialize(&mut self, world_size: u64) -> (result: Result<(), Error>)
        requires
            old(self).wf(),
        ensures
            final(self).wf(),
            old(self).same_population(*final(self)),
            old(self).same_sessions(*final(self)),
            final(self).spawn_food_timer == old(self).spawn_food_timer,
            result is Ok <==> old(self).config is None,
            result is Ok ==> final(self).config == Some(Config { id: CONFIG_ID, world_size }),
            result is Err ==> result == Err::<(), Error>(Error::AlreadyInitialized) && *final(self)
                == *old(self),
    {
        if self.config.is_some() {
            return Err(Error::AlreadyInitialized);
        }
        self.config = Some(Config { id: CONFIG_ID, world_size });
        Ok(())
    }

    /// The size of the world. Refused with `NotInitialized` before the
    /// configuration row exists.
    pub fn world_size(&self) -> (result: Result<u64, Error>)
        ensures
            match self.config {
                Some(c) => result == Ok::<u64, Error>(c.world_size),
                None => result == Err::<u64, Error>(Error::NotInitialized),
            },
    {
        match self.config {
            Some(c) => Ok(c.world_size),
            None => Err(Error::NotInitialized),
        }
    }

    /// Stores a new entity under the next identifier and returns that
    /// identifier. Refused with `InsertConflict` once every identifier has been
    /// handed out.
    pub fn create_entity(&mut self, position: DbVector2, mass: u32) -> (result: Result<u32, Error>)
        requires
            old(self).wf(),
            mass > 0,
            position.is_finite(),
        ensures
            final(self).wf(),
            old(self).same_setup(*final(self)),
            old(self).same_sessions(*final(self)),
            final(self).food == old(self).food,
            match result {
                Ok(id) => {
                    &&& old(self).entity_seq < u32::MAX
                    &&& id == old(self).entity_seq + 1
                    &&& final(self).entity_seq == id
                    &&& final(self).entity@ == old(self).entity@.push(
                        Entity { entity_id: id, position, mass },
                    )
                },
                Err(e) => {
                    &&& e == Error::InsertConflict
                    &&& old(self).entity_seq == u32::MAX
                    &&& *final(self) == *old(self)
                },
            },
    {
        if self.entity_seq == u32::MAX {
            return Err(Error::InsertConflict);
        }
        let id: u32 = self.entity_seq + 1;
        self.entity_seq = id;
        self.entity.push(Entity { entity_id: id, position, mass });
        proof {
            let before = old(self).entity@;
            let after = self.entity@;
            assert forall|i: int| 0 <= i < self.food@.len() implies has_entity(
                after,
                (#[trigger] self.food@[i]).entity_id,
            ) by {
                let j = choose|j: int|
                    0 <= j < before.len() && (#[trigger] before[j]).entity_id
                        == self.food@[i].entity_id;
                assert(after[j] == before[j]);
            }
        }
        Ok(id)
    }

    /// Stores a new entity and marks it as food. Returns the entity's
    /// identifier. Refused with `InsertConflict` once every identifier has been
    /// handed out.
    pub fn create_food(&mut self, position: DbVector2, mass: u32) -> (result: Result<u32, Error>)
        requires
            old(self).wf(),
            mass > 0,
            position.is_finite(),
        ensures
            final(self).wf(),
            old(self).same_setup(*final(self)),
            old(self).same_sessions(*final(self)),
            match result {
                Ok(id) => {
                    &&& old(self).entity_seq < u32::MAX
                    &&& id == old(self).entity_seq + 1
                    &&& final(self).entity_seq == id
                    &&& final(self).entity@ == old(self).entity@.push(
                        Entity { entity_id: id, position, mass },
                    )
                    &&& final(self).food@ == old(self).food@.push(Food { entity_id: id })
                },
                Err(e) => {
                    &&& e == Error::InsertConflict
                    &&& old(self).entity_seq == u32::MAX
                    &&& *final(self) == *old(self)
                },
            },
    {
        match self.create_entity(position, mass) {
            Ok(id) => {
                proof {
                    let entities = self.entity@;
                    assert(entities[entities.len() - 1].entity_id == id);
                }
                self.food.push(Food { entity_id: id });
                Ok(id)
            },
            Err(e) => Err(e),
        }
    }
}

/// Looks for the row filed under `identity` and returns its place.
pub fn find_row(rows: &Vec<Player>, identity: &Identity) -> (found: Option<usize>)
    ensures
        match found {
            Some(i) => i < rows@.len() && rows@[i as int].identity == *identity,
            None => !holds(rows@, *identity),
        },
{
    let mut i: usize = 0;
    while i < rows.len()
        invariant
            i <= rows@.len(),
            forall|k: int| 0 <= k < i ==> (#[trigger] rows@[k]).identity != *identity,
        decreases rows@.len() - i,
    {
        if same_identity(&rows[i].identity, identity) {
            return Some(i);
        }
        i += 1;
    }
    None
}

/// Tells whether some entity carries the identifier `id`.
fn entity_exists(entities: &Vec<Entity>, id: u32) -> (found: bool)
    ensures
        found == has_entity(entities@, id),
{
    let mut j: usize = 0;
    while j < entities.len()
        invariant
            j <= entities@.len(),
            forall|k: int| 0 <= k < j ==> (#[trigger] entities@[k]).entity_id != id,
        decreases entities@.len() - j,
    {
        if entities[j].entity_id == id {
            return true;
        }
        j += 1;
    }
    false
}

/// Tells whether the entity table is valid for the given last identifier.
fn check_entities(entities: &Vec<Entity>, seq: u32) -> (valid: bool)
    ensures
        valid == entities_valid(entities@, seq),
{
    let mut i: usize = 0;
    while i < entities.len()
        invariant
            i <= entities@.len(),
            forall|a: int|
                0 <= a < i ==> {
                    let e = #[trigger] entities@[a];
                    1 <= e.entity_id <= seq && e.mass > 0 && e.position.is_finite()
                },
            forall|a: int, b: int|
                0 <= a < i && a < b < entities@.len() ==> (#[trigger] entities@[a]).entity_id != (
                #[trigger] entities@[b]).entity_id,
        decreases entities@.len() - i,
    {
        let e = entities[i];
        if e.entity_id < 1 || e.entity_id > seq || e.mass == 0 || !e.position.check_finite() {
            return false;
        }
        let mut j: usize = i + 1;
        while j < entities.len()
            invariant
                i < j <= entities@.len(),
                e == entities@[i as int],
                forall|b: int|
                    i < b < j ==> e.entity_id != (#[trigger] entities@[b]).entity_id,
            decreases entities@.len() - j,
        {
            if entities[j].entity_id == e.entity_id {
                return false;
            }
            j += 1;
        }
        i += 1;
    }
    true
}

/// Tells whether the food table is valid beside the given entity table.
fn check_food(food: &Vec<Food>, entities: &Vec<Entity>) -> (valid: bool)
    ensures
        valid == food_valid(food@, entities@),
{
    let mut i: usize = 0;
    while i < food.len()
        invariant
            i <= food@.len(),
            forall|a: int| 0 <= a < i ==> has_entity(entities@, (#[trigger] food@[a]).entity_id),
            forall|a: int, b: int|
                0 <= a < i && a < b < food@.len() ==> (#[trigger] food@[a]).entity_id != (
                #[trigger] food@[b]).entity_id,
        decreases food@.len() - i,
    {
        let id = food[i].entity_id;
        if !entity_exists(entities, id) {
            return false;
        }
        let mut j: usize = i + 1;
        while j < food.len()
            invariant
                i < j <= food@.len(),
                id == food@[i as int].entity_id,
                forall|b: int| i < b < j ==> id != (#[trigger] food@[b]).entity_id,
            decreases food@.len() - j,
        {
            if food[j].entity_id == id {
                return false;
            }
            j += 1;
        }
        i += 1;
    }
    true
}

/// Tells whether a row of `rows`, from the place `from` on, shares its identity
/// or its player identifier with `row`.
fn clashes(rows: &Vec<Player>, from: usize, row: &Player) -> (clash: bool)
    requires
        from <= rows@.len(),
    ensures
        clash == exists|b: int|
            from <= b < rows@.len() && ((#[trigger] rows@[b]).identity == row.identity
                || rows@[b].player_id == row.player_id),
{
    let mut j: usize = from;
    while j < rows.len()
        invariant
            from <= j <= rows@.len(),
            forall|b: int|
                from <= b < j ==> (#[trigger] rows@[b]).identity != row.identity
                    && rows@[b].player_id != row.player_id,
        decreases rows@.len() - j,
    {
        if same_identity(&rows[j].identity, &row.identity) || rows[j].player_id == row.player_id {
            return true;
        }
        j += 1;
    }
    false
}

/// Tells whether no identity and no player identifier occurs in two rows.
fn check_rows_unique(rows: &Vec<Player>) -> (valid: bool)
    ensures
        valid == rows_unique(rows@),
{
    let mut i: usize = 0;
    while i < rows.len()
        invariant
            i <= rows@.len(),
            forall|a: int, b: int|
                0 <= a < i && a < b < rows@.len() ==> {
                    &&& (#[trigger] rows@[a]).identity != (#[trigger] rows@[b]).identity
                    &&& rows@[a].player_id != rows@[b].player_id
                },
        decreases rows@.len() - i,
    {
        if clashes(rows, i + 1, &rows[i]) {
            return false;
        }
        i += 1;
    }
    true
}

/// Tells whether the two partitions share no identity and no player
/// identifier.
fn check_rows_apart(a: &Vec<Player>, b: &Vec<Player>) -> (valid: bool)
    ensures
        valid == rows_apart(a@, b@),
{
    let mut i: usize = 0;
    while i < a.len()
        invariant
            i <= a@.len(),
            forall|k: int, j: int|
                0 <= k < i && 0 <= j < b@.len() ==> {
                    &&& (#[trigger] a@[k]).identity != (#[trigger] b@[j]).identity
                    &&& a@[k].player_id != b@[j].player_id
                },
        decreases a@.len() - i,
    {
        if clashes(b, 0, &a[i]) {
            return false;
        }
        i += 1;
    }
    true
}

/// Tells whether every row carries a player identifier that was handed out.
fn check_rows_issued(rows: &Vec<Player>, seq: u32) -> (valid: bool)
    ensures
        valid == rows_issued(rows@, seq),
{
    let mut i: usize = 0;
    while i < rows.len()
        invariant
            i <= rows@.len(),
            forall|k: int| 0 <= k < i ==> 1 <= (#[trigger] rows@[k]).player_id <= seq,
        decreases rows@.len() - i,
    {
        if rows[i].player_id < 1 || rows[i].player_id > seq {
            return false;
        }
        i += 1;
    }
    true
}

} // verus!
