//! The authoritative state core of a multiplayer arena world: the entity
//! registry, the food population that a recurring job keeps at its target, and
//! the sessions that move a player between the active and the logged-out
//! partition.
//!
//! The world is a [`Database`]. The host calls [`init`] once, [`connect`] and
//! [`disconnect`] as clients come and go, and [`spawn_food`] on a timer. Each
//! call either succeeds or leaves the world as it was.

pub mod bootstrap;
pub mod database;
pub mod error;
pub mod food;
pub mod host;
pub mod model;
pub mod session;

pub use bootstrap::init;
pub use database::Database;
pub use error::Error;
pub use food::spawn_food;
pub use model::{Config, DbVector2, Entity, Food, Player, PlayerData, ScheduleAt, SpawnFoodTimer};
pub use session::{connect, disconnect, SessionCall, Sessions};
