//! The rows of the world's tables.

use spacetimedb::Identity;
use vstd::prelude::*;

verus! {

/// The exponent field of a single-precision bit pattern. A pattern whose
/// exponent field is all ones stands for an infinity or for no number at all.
pub const EXPONENT_MASK: u32 = 0x7f80_0000;

/// The world's parameters. The table holds at most one row, under the key 0.
#[derive(Clone, Copy, Debug, PartialEq, Eq, Structural)]
pub struct Config {
    pub id: u32,
    pub world_size: u64,
}

/// A point of the plane. Each coordinate is kept as the IEEE 754
/// single-precision bit pattern of the number: the world stores coordinates and
/// hands them on, and never computes with them.
#[derive(Clone, Copy, Debug, PartialEq, Eq, Structural)]
pub struct DbVector2 {
    pub x: u32,
    pub y: u32,
}

/// A physical object of the world, food or player-controlled.
#[derive(Clone, Copy, Debug, PartialEq, Eq, Structural)]
pub struct Entity {
    pub entity_id: u32,
    pub position: DbVector2,
    pub mass: u32,
}

/// A food marker: the entity with this identifier is food.
#[derive(Clone, Copy, Debug, PartialEq, Eq, Structural)]
pub struct Food {
    pub entity_id: u32,
}

/// A player's record. The same record lives in the active partition while the
/// player is connected and in the logged-out partition otherwise.
#[derive(Debug, PartialEq, Eq)]
pub struct Player {
    pub identity: Identity,
    pub player_id: u32,
    pub name: String,
}

/// When a scheduled job runs: again and again after a fixed number of
/// microseconds, or once at a point in time given in microseconds since the
/// Unix epoch.
#[derive(Clone, Copy, Debug, PartialEq, Eq, Structural)]
pub enum ScheduleAt {
    Interval { micros: i64 },
    Time { micros_since_unix_epoch: i64 },
}

/// The record that makes the host run the food job.
#[derive(Clone, Copy, Debug, PartialEq, Eq, Structural)]
pub struct SpawnFoodTimer {
    pub scheduled_id: u64,
    pub scheduled_at: ScheduleAt,
}

/// What a player's record says of the player, apart from the identity it is
/// filed under.
pub struct PlayerData {
    pub player_id: u32,
    pub name: Seq<char>,
}

/// Whether a single-precision bit pattern stands for a finite number.
pub open spec fn is_finite_pattern(bits: u32) -> bool {
    bits & EXPONENT_MASK != EXPONENT_MASK
}

impl DbVector2 {
    /// Both coordinates are finite numbers.
    pub open spec fn is_finite(self) -> bool {
        is_finite_pattern(self.x) && is_finite_pattern(self.y)
    }

    /// Tells whether both coordinates are finite numbers.
    pub fn check_finite(&self) -> (finite: bool)
        ensures
            finite == self.is_finite(),
    {
        (self.x & EXPONENT_MASK != EXPONENT_MASK) && (self.y & EXPONENT_MASK != EXPONENT_MASK)
    }
}

impl Clone for Player {
    /// A copy of the record, field for field.
    fn clone(&self) -> (copy: Player)
        ensures
            copy == *self,
    {
        Player { identity: self.identity, player_id: self.player_id, name: self.name.clone() }
    }
}

impl Player {
    /// The record without its key.
    pub open spec fn data(self) -> PlayerData {
        PlayerData { player_id: self.player_id, name: self.name@ }
    }
}

} // verus!
