//! Simulation and round logic of a small arcade shooter: a ship thrusts and
//! fires shots, meteoroids drift through a bounded arena, and collisions end
//! or win the round.
//!
//! Rendering, input polling, audio, movement in floating point and the frame
//! loop belong to the host engine; this crate holds the decisions, over
//! integer positions and entity labels.
//!
//! - `timer`: one-shot countdowns.
//! - `speed`: the thrust accumulator, one speed bucket per heading.
//! - `arena`: the playing field and the placement of meteoroids.
//! - `world`: entity labels, the registry of live entities, the boundary rule.
//! - `label`: the text form of entity labels.
//! - `round`: the per-frame round state machine.

mod arena;
mod label;
mod round;
mod speed;
mod timer;
mod world;

pub use arena::{fallback_spot, is_clear_of, place_clear_of, Arena, PLACEMENT_TRIES, SAFE_DISTANCE};
pub use label::{format_label, parse_label};
pub use round::{
    classify, without_number, Action, Collision, Command, Contact, GameState, Mode, Outcome,
    CLOCK_TIME, METEOROID_COUNT, RELOAD_TIME, THRUST_TIME,
};
pub use speed::{Speed, Thrust, THRUST_DECAY, THRUST_SPEED};
pub use timer::Timer;
pub use world::{boundary_pass, list_contains, Entity, EntityId, Kind, Registry};
