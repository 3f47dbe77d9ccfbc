//! Decision logic of a crow-flock game: the crows' state machine, the
//! commands the player gives the flock, the hawk that hunts isolated crows,
//! the cat and the hazards that capture them, the spatial grid that finds
//! flock neighbours, the mission clock and the roster of crows.
//!
//! Positions are carried through as an opaque type `P`; entities are named by
//! their 64-bit identifiers. Everything geometric is measured by the caller
//! and handed in as plain values.

pub mod crow;
pub mod order;
pub mod command;
pub mod world;
pub mod capture;
pub mod hawk;
pub mod roster;
pub mod grid;
pub mod input;

