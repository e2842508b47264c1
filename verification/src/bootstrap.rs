//! Setting the world up: the configuration row and the record that makes the
//! host run the food job.

use crate::database::{Database, CONFIG_ID};
use crate::error::Error;
use crate::model::{Config, ScheduleAt, SpawnFoodTimer};
use vstd::prelude::*;

verus! {

/// The size that a new world has.
pub const INITIAL_WORLD_SIZE: u64 = 1000;

/// The time between two runs of the food job: half a second.
pub const SPAWN_FOOD_INTERVAL_MICROS: i64 = 500_000;

/// The identifier of the first scheduled record.
pub const FIRST_SCHEDULED_ID: u64 = 1;

/// The configuration that `init` stores.
pub open spec fn initial_config() -> Config {
    Config { id: CONFIG_ID, world_size: INITIAL_WORLD_SIZE }
}

/// The timer record that `init` stores.
pub open spec fn initial_timer() -> SpawnFoodTimer {
    SpawnFoodTimer {
        scheduled_id: FIRST_SCHEDULED_ID,
        scheduled_at: ScheduleAt::Interval { micros: SPAWN_FOOD_INTERVAL_MICROS },
    }
}

/// Sets the world up, once: stores the configuration with the initial world
/// size and the timer record of the food job. Refused with
/// `AlreadyBootstrapped` where either of the two exists already.
pub fn init(db: &mut Database) -> (result: Result<(), Error>)
    requires
        old(db).wf(),
    ensures
        final(db).wf(),
        old(db).same_population(*final(db)),
        old(db).same_sessions(*final(db)),
        result is Ok <==> old(db).config is None && old(db).spawn_food_timer is None,
        result is Ok ==> final(db).config == Some(initial_config()) && final(db).spawn_food_timer
            == Some(initial_timer()),
        result is Err ==> result == Err::<(), Error>(Error::AlreadyBootstrapped) && *final(db)
            == *old(db),
{
    if db.spawn_food_timer.is_some() {
        return Err(Error::AlreadyBootstrapped);
    }
    match db.initialize(INITIAL_WORLD_SIZE) {
        Ok(()) => {},
        Err(_) => {
            return Err(Error::AlreadyBootstrapped);
        },
    }
    db.spawn_food_timer = Some(
        SpawnFoodTimer {
            scheduled_id: FIRST_SCHEDULED_ID,
            scheduled_at: ScheduleAt::Interval { micros: SPAWN_FOOD_INTERVAL_MICROS },
        },
    );
    Ok(())
}

} // verus!
