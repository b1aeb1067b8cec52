//! Server-authoritative simulation core of a multiplayer survival game.
//!
//! A tick-driven engine advances autonomous hostile agents (melee "zombie"
//! and ranged "spitter" archetypes) toward and against connected players.
//! A behavior-tree decision layer drives each agent once per AI tick; a
//! population controller spawns new agents under capacity and probability
//! constraints; an entity-lifecycle layer enforces cascading ownership
//! between agents and their navigation/collision handles.
//!
//! Positions are fixed-point: 1000 coordinate units stand for one
//! world-space distance unit. Timestamps and durations are microseconds.
//! Everything the host supplies (the navigation solver's per-tick results,
//! random draws, the current time, session events) enters as plain values,
//! so every state transition in this crate is verified.

pub mod math;
pub mod entities;
pub mod world;
pub mod actions;
pub mod behavior;
pub mod ticks;
pub mod laws;
