//! The food population: a recurring job tops it up to its target while players
//! are connected.

use crate::database::Database;
use crate::error::Error;
use crate::host::gen_range_u32;
use crate::model::{DbVector2, Entity, Food, SpawnFoodTimer};
use crate::session::lemma_nobody_active;
use spacetimedb::StdbRng;
use vstd::prelude::*;

verus! {

/// The least mass of a piece of food.
pub const FOOD_MASS_MIN: u32 = 2;

/// The bound that the mass of a piece of food stays under.
pub const FOOD_MASS_MAX: u32 = 4;

/// The number of pieces of food that the job fills the world up to.
pub const TARGET_FOOD_COUNT: usize = 600;

/// From this world size on, an object of any mass has room.
pub const ROOMY_WORLD_SIZE: u64 = 0x2_0000;

/// An object of mass `mass` is a circle of radius `sqrt(mass)`. Its centre has
/// to lie at least one radius away from every border, in the half-open range
/// from `radius` to `world_size - radius`. That range is empty where
/// `world_size <= 2 * radius`, which is to say `world_size * world_size <= 4 *
/// mass`.
pub open spec fn placement_range_is_empty(world_size: u64, mass: u32) -> bool {
    world_size * world_size <= 4 * mass
}

/// The point `p / q` of the line is a place for the centre of an object of mass
/// `mass`: it lies in the half-open range from `radius` to `world_size -
/// radius`, where `radius * radius == mass`. Both bounds are stated by their
/// squares, so that no root is taken.
pub open spec fn in_placement_range(world_size: u64, mass: u32, p: int, q: int) -> bool {
    &&& q > 0
    &&& p >= 0
    &&& p * p >= mass * q * q
    &&& world_size * q - p > 0
    &&& (world_size * q - p) * (world_size * q - p) > mass * q * q
}

/// A piece of food of any mass has room in a world of this size.
pub open spec fn every_food_fits(world_size: u64) -> bool {
    forall|mass: u32|
        FOOD_MASS_MIN <= mass < FOOD_MASS_MAX ==> !#[trigger] placement_range_is_empty(
            world_size,
            mass,
        )
}

/// No piece of food has room in a world of this size, whatever its mass.
pub open spec fn no_food_fits(world_size: u64) -> bool {
    forall|mass: u32|
        FOOD_MASS_MIN <= mass < FOOD_MASS_MAX ==> #[trigger] placement_range_is_empty(
            world_size,
            mass,
        )
}

/// `place` can be asked for the position of a piece of food of every mass that
/// has room in a world of this size, and every position it gives is finite.
pub open spec fn places_food<P: Fn(u32, u64) -> DbVector2>(place: P, world_size: u64) -> bool {
    forall|mass: u32|
        FOOD_MASS_MIN <= mass < FOOD_MASS_MAX && !#[trigger] placement_range_is_empty(
            world_size,
            mass,
        ) ==> {
            &&& call_requires(place, (mass, world_size))
            &&& forall|position: DbVector2| #[trigger]
                call_ensures(place, (mass, world_size), position) ==> position.is_finite()
        }
}

/// The entities that `post` has after those of `pre`.
pub open spec fn spawned(pre: Database, post: Database) -> Seq<Entity> {
    post.entity@.skip(pre.entity@.len() as int)
}

/// The entity is a piece of food as the job makes it for a world of size
/// `world_size`: its mass is a food mass that has room in the world, and its
/// position is one that `place` gave for that mass and that world size.
pub open spec fn is_placed_food<P: Fn(u32, u64) -> DbVector2>(
    place: P,
    world_size: u64,
    e: Entity,
) -> bool {
    &&& FOOD_MASS_MIN <= e.mass < FOOD_MASS_MAX
    &&& !placement_range_is_empty(world_size, e.mass)
    &&& call_ensures(place, (e.mass, world_size), e.position)
}

/// `post` is `pre` topped up with food. Where no food is missing, `post` is
/// `pre`. Else the configuration exists, the tables of `pre` are a prefix of
/// those of `post`, the new entities number exactly the deficit of `pre`, they
/// carry the next identifiers in order, each is a piece of food placed by
/// `place`, and each is marked as food, in the same order.
pub open spec fn refilled<P: Fn(u32, u64) -> DbVector2>(place: P, pre: Database, post: Database)
    -> bool {
    let missing = pre.food_deficit();
    let fresh = spawned(pre, post);
    if missing == 0 {
        post == pre
    } else {
        &&& pre.config is Some
        &&& pre.same_setup(post)
        &&& pre.same_sessions(post)
        &&& post.entity_seq == pre.entity_seq + missing
        &&& post.entity@.len() == pre.entity@.len() + missing
        &&& post.entity@.take(pre.entity@.len() as int) == pre.entity@
        &&& post.food@.len() == pre.food@.len() + missing
        &&& post.food@.take(pre.food@.len() as int) == pre.food@
        &&& forall|k: int|
            0 <= k < missing ==> {
                let e = #[trigger] fresh[k];
                &&& e.entity_id == pre.entity_seq + 1 + k
                &&& is_placed_food(place, pre.config.unwrap().world_size, e)
                &&& post.food@[pre.food@.len() + k] == (Food { entity_id: e.entity_id })
            }
    }
}

impl Database {
    /// The number of pieces of food that the job has to add: none while nobody
    /// is connected, else what is missing up to the target.
    pub open spec fn food_deficit(self) -> nat {
        if self.sessions().nobody_active() || self.food@.len() >= TARGET_FOOD_COUNT {
            0
        } else {
            (TARGET_FOOD_COUNT - self.food@.len()) as nat
        }
    }

    /// The entity identifiers that are left do not suffice for the food that
    /// is missing.
    pub open spec fn identifiers_short(self) -> bool {
        self.entity_seq + self.food_deficit() > u32::MAX
    }

    /// The results that the food job can have on this state.
    ///
    /// While nobody is connected it succeeds. Else it fails with
    /// `NotInitialized` where the configuration is missing, and succeeds where
    /// no food is missing. Where food is missing, the pieces are drawn one
    /// after the other and the first that cannot be added ends the job: with
    /// `ConfigurationError` where the mass drawn for it has no room in the
    /// world, with `InsertConflict` where no identifier is left for it. So a
    /// world without room for any food mass gives `ConfigurationError`; a world
    /// with room for every food mass gives `InsertConflict` where the
    /// identifiers do not suffice and success where they do; and in a world
    /// with room for some food masses only, the draws decide.
    pub open spec fn food_job_may_end(self, result: Result<(), Error>) -> bool {
        if self.sessions().nobody_active() {
            result is Ok
        } else if self.config is None {
            result == Err::<(), Error>(Error::NotInitialized)
        } else if self.food_deficit() == 0 {
            result is Ok
        } else {
            let world_size = self.config.unwrap().world_size;
            match result {
                Ok(()) => !self.identifiers_short() && !no_food_fits(world_size),
                Err(Error::ConfigurationError) => !every_food_fits(world_size),
                Err(Error::InsertConflict) => self.identifiers_short() && !no_food_fits(
                    world_size,
                ),
                Err(_) => false,
            }
        }
    }
}

/// One run of the food job from `pre` with result `result` and end state
/// `post`: the result is one that `pre` allows, a success tops the food up, and
/// a failure changes nothing.
pub open spec fn food_job<P: Fn(u32, u64) -> DbVector2>(
    place: P,
    pre: Database,
    result: Result<(), Error>,
    post: Database,
) -> bool {
    &&& pre.food_job_may_end(result)
    &&& result is Ok ==> refilled(place, pre, post)
    &&& result is Err ==> post == pre
}

/// Tells whether an object of mass `mass` has room in a world of size
/// `world_size`. Refused with `ConfigurationError` where the range for its
/// centre is empty.
pub fn check_placement(world_size: u64, mass: u32) -> (result: Result<(), Error>)
    ensures
        result is Err <==> placement_range_is_empty(world_size, mass),
        result is Err ==> result == Err::<(), Error>(Error::ConfigurationError),
{
    if world_size >= ROOMY_WORLD_SIZE {
        assert(world_size * world_size >= 0x2_0000 * 0x2_0000) by (nonlinear_arith)
            requires
                world_size >= 0x2_0000,
        ;
        return Ok(());
    }
    assert(world_size * world_size < 0x2_0000 * 0x2_0000) by (nonlinear_arith)
        requires
            world_size < 0x2_0000,
    ;
    let area: u64 = world_size * world_size;
    let needed: u64 = 4 * (mass as u64);
    if area <= needed {
        Err(Error::ConfigurationError)
    } else {
        Ok(())
    }
}

/// The food markers of the given entities, in the same order.
pub open spec fn markers(entities: Seq<Entity>) -> Seq<Food> {
    entities.map_values(|e: Entity| Food { entity_id: e.entity_id })
}

/// The entities are pieces of food as the job draws them for a world of size
/// `world_size`: they carry the identifiers that follow `last_id`, in order,
/// and each is placed by `place` at a finite position.
pub open spec fn drawn<P: Fn(u32, u64) -> DbVector2>(
    place: P,
    world_size: u64,
    last_id: u32,
    staged: Seq<Entity>,
) -> bool {
    forall|k: int|
        0 <= k < staged.len() ==> {
            let e = #[trigger] staged[k];
            &&& e.entity_id == last_id + 1 + k
            &&& is_placed_food(place, world_size, e)
            &&& e.position.is_finite()
        }
}

/// Draws `count` pieces of food, one after the other, and stores none. The
/// first piece that cannot be added ends the drawing: with `ConfigurationError`
/// where the mass drawn for it has no room in the world, with `InsertConflict`
/// where no identifier is left for it.
fn draw_food<P: Fn(u32, u64) -> DbVector2>(
    rng: &StdbRng,
    place: P,
    world_size: u64,
    last_id: u32,
    count: usize,
) -> (result: Result<Vec<Entity>, Error>)
    requires
        places_food(place, world_size),
        count > 0,
    ensures
        match result {
            Ok(staged) => {
                &&& staged@.len() == count
                &&& last_id + count <= u32::MAX
                &&& drawn(place, world_size, last_id, staged@)
                &&& !no_food_fits(world_size)
            },
            Err(Error::ConfigurationError) => !every_food_fits(world_size),
            Err(Error::InsertConflict) => last_id + count > u32::MAX && !no_food_fits(world_size),
            Err(_) => false,
        },
{
    let ids_left: usize = (u32::MAX - last_id) as usize;
    let mut staged: Vec<Entity> = Vec::new();
    while staged.len() < count
        invariant
            places_food(place, world_size),
            ids_left == u32::MAX - last_id,
            staged@.len() <= count,
            staged@.len() <= ids_left,
            drawn(place, world_size, last_id, staged@),
            staged@.len() > 0 ==> !no_food_fits(world_size),
        decreases count - staged@.len(),
    {
        let mass = gen_range_u32(rng, FOOD_MASS_MIN, FOOD_MASS_MAX);
        if check_placement(world_size, mass).is_err() {
            return Err(Error::ConfigurationError);
        }
        if staged.len() >= ids_left {
            return Err(Error::InsertConflict);
        }
        let position = place(mass, world_size);
        let entity_id: u32 = last_id + 1 + staged.len() as u32;
        staged.push(Entity { entity_id, position, mass });
    }
    Ok(staged)
}

/// Stores the pieces of food that were drawn, each with its marker.
fn store_food(db: &mut Database, staged: &Vec<Entity>)
    requires
        old(db).wf(),
        old(db).entity_seq + staged@.len() <= u32::MAX,
        forall|k: int|
            0 <= k < staged@.len() ==> {
                let e = #[trigger] staged@[k];
                &&& e.entity_id == old(db).entity_seq + 1 + k
                &&& e.mass > 0
                &&& e.position.is_finite()
            },
    ensures
        final(db).wf(),
        old(db).same_setup(*final(db)),
        old(db).same_sessions(*final(db)),
        final(db).entity_seq == old(db).entity_seq + staged@.len(),
        final(db).entity@ == old(db).entity@ + staged@,
        final(db).food@ == old(db).food@ + markers(staged@),
{
    let mut stored: usize = 0;
    while stored < staged.len()
        invariant
            stored <= staged@.len(),
            old(db).entity_seq + staged@.len() <= u32::MAX,
            forall|k: int|
                0 <= k < staged@.len() ==> {
                    let e = #[trigger] staged@[k];
                    &&& e.entity_id == old(db).entity_seq + 1 + k
                    &&& e.mass > 0
                    &&& e.position.is_finite()
                },
            db.wf(),
            old(db).same_setup(*db),
            old(db).same_sessions(*db),
            db.entity_seq == old(db).entity_seq + stored,
            db.entity@ == old(db).entity@ + staged@.take(stored as int),
            db.food@ == old(db).food@ + markers(staged@.take(stored as int)),
        decreases staged@.len() - stored,
    {
        let e = staged[stored];
        match db.create_food(e.position, e.mass) {
            Ok(_) => {},
            Err(_) => {
                // Cannot happen: an identifier is left for every piece.
                return ;
            },
        }
        stored += 1;
    }
}

/// The food job. While nobody is connected it does nothing. Else it reads the
/// size of the world and adds food until the target is met: for each piece it
/// draws a mass from `rng`, makes sure that the mass has room in the world and
/// that an identifier is left, and asks `place` for a position. Nothing is
/// stored before every piece is drawn, so a failure leaves the world as it was.
/// The timer record is the one that made the host call; the job does not read
/// it.
pub fn spawn_food<P: Fn(u32, u64) -> DbVector2>(
    db: &mut Database,
    rng: &StdbRng,
    _timer: SpawnFoodTimer,
    place: P,
) -> (result: Result<(), Error>)
    requires
        old(db).wf(),
        old(db).config matches Some(config) ==> places_food(place, config.world_size),
    ensures
        final(db).wf(),
        food_job(place, *old(db), result, *final(db)),
{
    proof {
        lemma_nobody_active(*db);
    }
    if db.player.len() == 0 {
        return Ok(());
    }
    let world_size = match db.config {
        Some(config) => config.world_size,
        None => {
            return Err(Error::NotInitialized);
        },
    };
    let food_count = db.food.len();
    if food_count >= TARGET_FOOD_COUNT {
        return Ok(());
    }
    let staged = draw_food(rng, place, world_size, db.entity_seq, TARGET_FOOD_COUNT - food_count)?;
    store_food(db, &staged);
    proof {
        let pre = *old(db);
        assert(db.entity@.take(pre.entity@.len() as int) =~= pre.entity@);
        assert(db.food@.take(pre.food@.len() as int) =~= pre.food@);
    }
    Ok(())
}

/// The test for room is exact. The range for the centre of an object holds a
/// point exactly when `placement_range_is_empty` says that it is not empty;
/// where it is not empty, the middle of the world is such a point.
pub proof fn law_placement_range(world_size: u64, mass: u32)
    ensures
        placement_range_is_empty(world_size, mass) <==> forall|p: int, q: int|
            !#[trigger] in_placement_range(world_size, mass, p, q),
        !placement_range_is_empty(world_size, mass) ==> in_placement_range(
            world_size,
            mass,
            world_size as int,
            2,
        ),
{
    let w = world_size as int;
    let m = mass as int;
    if placement_range_is_empty(world_size, mass) {
        assert forall|p: int, q: int| !#[trigger] in_placement_range(world_size, mass, p, q) by {
            if in_placement_range(world_size, mass, p, q) {
                lemma_room_needed(w, m, p, q);
            }
        }
    } else {
        assert(in_placement_range(world_size, mass, w, 2)) by (nonlinear_arith)
            requires
                w * w > 4 * m,
                w >= 0,
                m >= 0,
                w == world_size,
                m == mass,
        {}
    }
}

/// Two lengths whose squares are at least `m * q * q`, one of them more, add up
/// to a length whose square is more than `4 * m * q * q`: a world that holds a
/// place for the centre is more than two radii wide.
proof fn lemma_room_needed(w: int, m: int, p: int, q: int)
    requires
        w >= 0,
        m >= 0,
        q > 0,
        p >= 0,
        p * p >= m * q * q,
        w * q - p > 0,
        (w * q - p) * (w * q - p) > m * q * q,
    ensures
        w * w > 4 * m,
{
    let a = p;
    let b = w * q - p;
    let bound = m * q * q;
    if a == 0 {
        assert(m == 0) by (nonlinear_arith)
            requires
                m >= 0,
                q > 0,
                m * q * q <= 0,
        ;
        assert(w > 0) by (nonlinear_arith)
            requires
                w >= 0,
                q > 0,
                w * q > 0,
        ;
        assert(w * w > 0) by (nonlinear_arith)
            requires
                w > 0,
        ;
    } else {
        if b >= a {
            assert(a * b >= b * b || a * b > a * a) by (nonlinear_arith)
                requires
                    a > 0,
                    b >= a,
            ;
        } else {
            assert(a * b > b * b) by (nonlinear_arith)
                requires
                    b > 0,
                    a > b,
            ;
        }
        assert(a * b > bound);
        assert((a + b) * (a + b) >= 4 * (a * b)) by (nonlinear_arith);
        assert(w * w > 4 * m) by (nonlinear_arith)
            requires
                (w * q) * (w * q) > 4 * (m * q * q),
                q > 0,
        ;
    }
}

/// The world sizes that have room: from 4 on a piece of food of any mass fits,
/// and up to 2 none does. In a world of size 3 only the lightest fits.
pub proof fn law_room_for_food(world_size: u64)
    ensures
        every_food_fits(world_size) <==> world_size >= 4,
        no_food_fits(world_size) <==> world_size <= 2,
        world_size == 3 ==> !placement_range_is_empty(world_size, 2) && placement_range_is_empty(
            world_size,
            3,
        ),
{
    if world_size >= 4 {
        assert(world_size * world_size >= 16) by (nonlinear_arith)
            requires
                world_size >= 4,
        ;
    } else {
        assert(placement_range_is_empty(world_size, 3)) by (nonlinear_arith)
            requires
                world_size <= 3,
        {}
    }
    if world_size <= 2 {
        assert(world_size * world_size <= 4) by (nonlinear_arith)
            requires
                world_size <= 2,
        ;
    } else {
        assert(!placement_range_is_empty(world_size, 2)) by (nonlinear_arith)
            requires
                world_size >= 3,
        {}
    }
}

/// A series of runs of the food job, each starting where the one before it
/// ended: `states[k]` is the world before run `k` and `states[k + 1]` the world
/// after it, and `results[k]` is its result.
pub open spec fn food_job_series<P: Fn(u32, u64) -> DbVector2>(
    place: P,
    states: Seq<Database>,
    results: Seq<Result<(), Error>>,
) -> bool {
    &&& states.len() == results.len() + 1
    &&& forall|k: int|
        0 <= k < results.len() ==> food_job(place, states[k], #[trigger] results[k], states[k + 1])
}

/// Density convergence. While players are connected, in a world that has room
/// for food of every mass and with enough identifiers left, every run of a
/// series of runs of the food job succeeds. The first brings a food count that
/// is not over the target to exactly the target, and every further run leaves
/// the world as it is.
pub proof fn law_density_converges<P: Fn(u32, u64) -> DbVector2>(
    place: P,
    states: Seq<Database>,
    results: Seq<Result<(), Error>>,
    run: int,
)
    requires
        food_job_series(place, states, results),
        !states[0].sessions().nobody_active(),
        states[0].config is Some,
        every_food_fits(states[0].config.unwrap().world_size),
        !states[0].identifiers_short(),
        states[0].food@.len() <= TARGET_FOOD_COUNT,
        0 <= run < results.len(),
    ensures
        results[run] is Ok,
        states[run + 1].food@.len() == TARGET_FOOD_COUNT,
        states[0].same_setup(states[run + 1]),
        states[0].same_sessions(states[run + 1]),
        run >= 1 ==> states[run + 1] == states[run],
    decreases run,
{
    if run >= 1 {
        law_density_converges(place, states, results, run - 1);
    }
}

/// No work in an empty world. While nobody is connected the food job succeeds
/// and leaves the world as it is, whatever the number of pieces of food and
/// whether or not the world is set up.
pub proof fn law_idle_without_players<P: Fn(u32, u64) -> DbVector2>(
    place: P,
    start: Database,
    result: Result<(), Error>,
    after: Database,
)
    requires
        start.sessions().nobody_active(),
        food_job(place, start, result, after),
    ensures
        result is Ok,
        after == start,
{
}

/// Placement. After a run of the food job that succeeded, every entity that it
/// added is food: its mass is a food mass, the world has room for that mass,
/// its position is one that `place` gave for it, and it carries a food marker.
pub proof fn law_spawned_is_food<P: Fn(u32, u64) -> DbVector2>(
    place: P,
    start: Database,
    after: Database,
    k: int,
)
    requires
        food_job(place, start, Ok(()), after),
        0 <= k < spawned(start, after).len(),
    ensures
        start.config is Some,
        is_placed_food(place, start.config.unwrap().world_size, spawned(start, after)[k]),
        after.food@[start.food@.len() + k].entity_id == spawned(start, after)[k].entity_id,
{
}

} // verus!
