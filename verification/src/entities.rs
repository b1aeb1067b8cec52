//! Record types of the simulation and the archetype configuration.
//!
//! Each record kind mirrors one table of the persisted store: players,
//! agents (one table per archetype), spitter area-of-effect hazards,
//! navigation handles, trigger handles, spawn points and periodic tick
//! jobs. Identities are plain integers drawn from one monotone counter.

use vstd::prelude::*;
use crate::math::Vec3;

verus! {

/// Maximum concurrent agent population across both archetypes.
pub const AGENT_CAP: u64 = 100;

/// One spawn trial in `SPITTER_SPAWN_ONE_IN` creates a ranged agent
/// (spawn probability one tenth).
pub const SPITTER_SPAWN_ONE_IN: u64 = 10;

/// Melee attack range in fixed-point coordinate units (one distance unit).
pub const ZOMBIE_ATTACK_RANGE: i64 = 1000;

/// Ranged attack range in fixed-point coordinate units (ten distance units).
pub const SPITTER_ATTACK_RANGE: i64 = 10_000;

/// Melee attack cooldown in microseconds (one second).
pub const ZOMBIE_COOLDOWN_MICROS: u64 = 1_000_000;

/// Ranged attack cooldown in microseconds (three seconds).
pub const SPITTER_COOLDOWN_MICROS: u64 = 3_000_000;

/// World-step interval in microseconds.
pub const WORLD_TICK_MICROS: u64 = 100_000;

/// Per-archetype AI-step interval in microseconds.
pub const AGENT_TICK_MICROS: u64 = 250_000;

/// Spawn-step interval in microseconds.
pub const SPAWN_TICK_MICROS: u64 = 500_000;

/// Effect-expiry polling interval in microseconds.
pub const AOE_TICK_MICROS: u64 = 500_000;

/// The two hostile-agent archetypes.
#[derive(Clone, Copy, PartialEq, Eq, Structural, Debug)]
pub enum Archetype {
    Zombie,
    SpitterZombie,
}

impl Archetype {
    /// Attack range of the archetype, in fixed-point coordinate units.
    pub open spec fn spec_attack_range(self) -> i64 {
        match self {
            Archetype::Zombie => ZOMBIE_ATTACK_RANGE,
            Archetype::SpitterZombie => SPITTER_ATTACK_RANGE,
        }
    }

    /// Attack cooldown of the archetype, in microseconds.
    pub open spec fn spec_cooldown(self) -> u64 {
        match self {
            Archetype::Zombie => ZOMBIE_COOLDOWN_MICROS,
            Archetype::SpitterZombie => SPITTER_COOLDOWN_MICROS,
        }
    }

    pub fn attack_range(self) -> (r: i64)
        ensures
            r == self.spec_attack_range(),
    {
        match self {
            Archetype::Zombie => ZOMBIE_ATTACK_RANGE,
            Archetype::SpitterZombie => SPITTER_ATTACK_RANGE,
        }
    }

    pub fn cooldown(self) -> (r: u64)
        ensures
            r == self.spec_cooldown(),
    {
        match self {
            Archetype::Zombie => ZOMBIE_COOLDOWN_MICROS,
            Archetype::SpitterZombie => SPITTER_COOLDOWN_MICROS,
        }
    }
}

/// Movement state a navigation handle reports for its agent.
#[derive(Clone, Copy, PartialEq, Eq, Structural, Debug)]
pub enum NavState {
    Idle,
    Moving,
    ReachedTarget,
}

/// A navigation handle: the movement/pathing resource exclusively owned by
/// one agent. The external solver owns the motion; this record carries the
/// values the decision layer reads and writes.
#[derive(Clone, Copy, PartialEq, Eq, Structural, Debug)]
pub struct NavAgent {
    pub id: u64,
    pub position: Vec3,
    pub state: NavState,
    pub current_target: Option<Vec3>,
    pub paused: bool,
}

/// A collision trigger handle, exclusively owned by one attack effect.
#[derive(Clone, Copy, PartialEq, Eq, Structural, Debug)]
pub struct TriggerHandle {
    pub id: u64,
    pub position: Vec3,
}

/// A connected player.
#[derive(Clone, Copy, PartialEq, Eq, Structural, Debug)]
pub struct Player {
    pub id: u64,
    /// Stable external identity of the session.
    pub identity: u64,
    pub joined_at: u64,
    pub position: Vec3,
}

/// One hostile agent record. Both archetype tables store this shape; the
/// table an agent lives in decides its archetype.
#[derive(Clone, Copy, PartialEq, Eq, Structural, Debug)]
pub struct Agent {
    pub id: u64,
    /// Identity of the exclusively owned navigation handle.
    pub navigation_agent_id: u64,
    /// Cached copy of the navigation handle's position, refreshed once per
    /// world step.
    pub position: Vec3,
    /// Weak reference to the targeted player: an id only, never assumed to
    /// still exist.
    pub target_player: Option<u64>,
    pub is_attacking: bool,
    /// The next instant (microseconds) at which an attack may land.
    pub next_attack_time: u64,
}

/// A spitter's transient area-of-effect hazard, exclusively owning one
/// trigger handle and expiring on its own schedule.
#[derive(Clone, Copy, PartialEq, Eq, Structural, Debug)]
pub struct SpitterAoE {
    pub id: u64,
    /// Identity of the exclusively owned trigger handle.
    pub trigger_id: u64,
    pub position: Vec3,
    /// The instant (microseconds) at which the hazard deletes itself.
    pub delete_at: u64,
}

/// A static spawn location, created once at world initialization.
#[derive(Clone, Copy, PartialEq, Eq, Structural, Debug)]
pub struct ZombieSpawnPoint {
    pub id: u64,
    pub position: Vec3,
}

/// The periodic jobs of the simulation.
#[derive(Clone, Copy, PartialEq, Eq, Structural, Debug)]
pub enum TickKind {
    WorldStep,
    ZombieUpdate,
    SpitterZombieUpdate,
    ZombieSpawn,
}

/// A persisted self-rescheduling tick job: exists implies fires at the
/// fixed interval.
#[derive(Clone, Copy, PartialEq, Eq, Structural, Debug)]
pub struct TickJob {
    pub id: u64,
    pub kind: TickKind,
    /// Fixed firing interval in microseconds; each firing runs with a
    /// delta time equal to this interval, independent of wall-clock drift.
    pub interval_micros: u64,
}

impl TickKind {
    /// The fixed interval each job kind is registered with.
    pub open spec fn spec_interval(self) -> u64 {
        match self {
            TickKind::WorldStep => WORLD_TICK_MICROS,
            TickKind::ZombieUpdate => AGENT_TICK_MICROS,
            TickKind::SpitterZombieUpdate => AGENT_TICK_MICROS,
            TickKind::ZombieSpawn => SPAWN_TICK_MICROS,
        }
    }

    pub fn interval(self) -> (r: u64)
        ensures
            r == self.spec_interval(),
    {
        match self {
            TickKind::WorldStep => WORLD_TICK_MICROS,
            TickKind::ZombieUpdate => AGENT_TICK_MICROS,
            TickKind::SpitterZombieUpdate => AGENT_TICK_MICROS,
            TickKind::ZombieSpawn => SPAWN_TICK_MICROS,
        }
    }
}

} // verus!
