//! The agent action set: the five leaf operations of the decision policy,
//! shared by both archetypes.
//!
//! `spec_run_action` is the mathematical model of one leaf execution;
//! `run_action` is the executable form, proved to produce exactly the
//! model's outcome. An action reads the player table, reads and writes
//! its own agent record and navigation handle, and (for a ranged attack)
//! creates an attack effect with its trigger handle; it touches nothing
//! else.

use vstd::prelude::*;
use crate::math::{dist_sq, within_range};
use crate::entities::{Agent, Archetype, NavAgent, NavState, Player, SpitterAoE, TriggerHandle};
use crate::entities::SPITTER_COOLDOWN_MICROS;
use crate::world::{seq_find_player, WorldState};

verus! {

/// Terminal verdict of an action or of a whole tree evaluation.
#[derive(Clone, Copy, PartialEq, Eq, Structural, Debug)]
pub enum Status {
    Success,
    Failure,
}

/// The leaf operations of the shared decision policy.
#[derive(Clone, Copy, PartialEq, Eq, Structural, Debug)]
pub enum ZombieAction {
    IsMoving,
    TargetRandomPlayer,
    Chase,
    IsTargetReached,
    Attack,
}

/// Everything one action execution may read or write: the agent record,
/// its navigation handle, the player table (read-only), the attack
/// effects with their trigger handles, and the identity counter.
#[verifier::ext_equal]
pub struct ActionCtx {
    pub agent: Agent,
    pub nav: NavAgent,
    pub players: Seq<Player>,
    pub aoes: Seq<SpitterAoE>,
    pub triggers: Seq<TriggerHandle>,
    pub next_id: u64,
}

/// Outcome of evaluating an action (or a tree): the written-back context
/// and the verdict.
#[verifier::ext_equal]
pub struct ActionOutcome {
    pub c: ActionCtx,
    pub status: Status,
}

/// The context an action execution starts from.
pub open spec fn action_ctx(a: Agent, n: NavAgent, st: WorldState) -> ActionCtx {
    ActionCtx {
        agent: a,
        nav: n,
        players: st.players@,
        aoes: st.spitter_aoes@,
        triggers: st.triggers@,
        next_id: st.next_id,
    }
}

/// The model of one action execution.
///
/// - `IsMoving` / `IsTargetReached` report the navigation state.
/// - `TargetRandomPlayer` fails with no players; otherwise it picks the
///   player at `rand` modulo the player count, unpauses the handle,
///   targets that player's position, records the id and clears the
///   attacking flag.
/// - `Chase` re-targets the stored player's current position, failing if
///   the reference dangles (including a never-set reference).
/// - `Attack` is modeled by `spec_run_attack`.
pub open spec fn spec_run_action(
    arch: Archetype,
    c: ActionCtx,
    action: ZombieAction,
    now: u64,
    rand: u64,
) -> ActionOutcome {
    match action {
        ZombieAction::IsMoving => ActionOutcome {
            c,
            status: if c.nav.state == NavState::Moving {
                Status::Success
            } else {
                Status::Failure
            },
        },
        ZombieAction::IsTargetReached => ActionOutcome {
            c,
            status: if c.nav.state == NavState::ReachedTarget {
                Status::Success
            } else {
                Status::Failure
            },
        },
        ZombieAction::TargetRandomPlayer => {
            if c.players.len() == 0 {
                ActionOutcome { c, status: Status::Failure }
            } else {
                let target = c.players[rand as int % c.players.len() as int];
                ActionOutcome {
                    c: ActionCtx {
                        nav: NavAgent {
                            paused: false,
                            current_target: Some(target.position),
                            ..c.nav
                        },
                        agent: Agent {
                            target_player: Some(target.id),
                            is_attacking: false,
                            ..c.agent
                        },
                        ..c
                    },
                    status: Status::Success,
                }
            }
        },
        ZombieAction::Chase => {
            match c.agent.target_player {
                None => ActionOutcome { c, status: Status::Failure },
                Some(pid) => match seq_find_player(c.players, pid) {
                    None => ActionOutcome { c, status: Status::Failure },
                    Some(p) => ActionOutcome {
                        c: ActionCtx {
                            nav: NavAgent { current_target: Some(p.position), ..c.nav },
                            ..c
                        },
                        status: Status::Success,
                    },
                },
            }
        },
        ZombieAction::Attack => spec_run_attack(arch, c, now),
    }
}

/// The model of the `Attack` leaf alone.
///
/// It fails on a dangling target reference; succeeds as a cosmetic no-op
/// (attacking flag cleared, nothing created) while `now` is within the
/// cooldown window; fails when the target is strictly out of range (a
/// distance equal to the range is in range); otherwise it lands the
/// attack: sets the attacking flag, starts the cooldown, and for the
/// ranged archetype creates an attack effect (with its trigger handle)
/// at the target's position, expiring one cooldown later.
pub open spec fn spec_run_attack(arch: Archetype, c: ActionCtx, now: u64) -> ActionOutcome {
    match c.agent.target_player {
        None => ActionOutcome { c, status: Status::Failure },
        Some(pid) => match seq_find_player(c.players, pid) {
            None => ActionOutcome { c, status: Status::Failure },
            Some(p) => {
                if now <= c.agent.next_attack_time {
                    ActionOutcome {
                        c: ActionCtx { agent: Agent { is_attacking: false, ..c.agent }, ..c },
                        status: Status::Success,
                    }
                } else if dist_sq(p.position, c.nav.position) > arch.spec_attack_range()
                    * arch.spec_attack_range() {
                    ActionOutcome {
                        c: ActionCtx { agent: Agent { is_attacking: false, ..c.agent }, ..c },
                        status: Status::Failure,
                    }
                } else {
                    let eligible = (now + arch.spec_cooldown()) as u64;
                    let landed = Agent { is_attacking: true, next_attack_time: eligible, ..c.agent };
                    if arch == Archetype::SpitterZombie {
                        ActionOutcome {
                            c: ActionCtx {
                                agent: landed,
                                aoes: c.aoes.push(
                                    SpitterAoE {
                                        id: (c.next_id + 1) as u64,
                                        trigger_id: c.next_id,
                                        position: p.position,
                                        delete_at: eligible,
                                    },
                                ),
                                triggers: c.triggers.push(
                                    TriggerHandle { id: c.next_id, position: p.position },
                                ),
                                next_id: (c.next_id + 2) as u64,
                                ..c
                            },
                            status: Status::Success,
                        }
                    } else {
                        ActionOutcome {
                            c: ActionCtx { agent: landed, ..c },
                            status: Status::Success,
                        }
                    }
                }
            },
        },
    }
}

/// Executes one action against the shared state, producing exactly the
/// outcome of `spec_run_action` on the starting context.
pub fn run_action(
    arch: Archetype,
    agent: &mut Agent,
    nav: &mut NavAgent,
    st: &mut WorldState,
    action: &ZombieAction,
    now: u64,
    rand: u64,
) -> (r: Status)
    requires
        old(st).wf(),
        old(nav).position.in_bounds(),
        old(st).can_alloc(2),
        now + SPITTER_COOLDOWN_MICROS <= u64::MAX,
    ensures
        ({
            let o = spec_run_action(
                arch,
                action_ctx(*old(agent), *old(nav), *old(st)),
                *action,
                now,
                rand,
            );
            &&& action_ctx(*final(agent), *final(nav), *final(st)) == o.c
            &&& r == o.status
        }),
        final(st).wf(),
        final(st).players@ == old(st).players@,
        final(st).zombies@ == old(st).zombies@,
        final(st).spitter_zombies@ == old(st).spitter_zombies@,
        final(st).nav_agents@ == old(st).nav_agents@,
        final(st).spawn_points@ == old(st).spawn_points@,
        final(st).jobs@ == old(st).jobs@,
        old(st).next_id <= final(st).next_id <= old(st).next_id + 2,
        final(agent).id == old(agent).id,
        final(agent).navigation_agent_id == old(agent).navigation_agent_id,
        final(agent).position == old(agent).position,
        final(nav).id == old(nav).id,
        final(nav).position == old(nav).position,
        final(nav).current_target matches Some(t) ==> (old(nav).current_target == Some(t)
            || t.in_bounds()),
{
    let r = match action {
        ZombieAction::IsMoving => {
            if nav.state == NavState::Moving {
                Status::Success
            } else {
                Status::Failure
            }
        },
        ZombieAction::IsTargetReached => {
            if nav.state == NavState::ReachedTarget {
                Status::Success
            } else {
                Status::Failure
            }
        },
        ZombieAction::TargetRandomPlayer => {
            let count = st.players.len();
            if count == 0 {
                Status::Failure
            } else {
                let idx = (rand % (count as u64)) as usize;
                let target = st.players[idx];
                nav.paused = false;
                nav.current_target = Some(target.position);
                agent.target_player = Some(target.id);
                agent.is_attacking = false;
                Status::Success
            }
        },
        ZombieAction::Chase => {
            match agent.target_player {
                None => Status::Failure,
                Some(pid) => match st.find_player(pid) {
                    None => Status::Failure,
                    Some(p) => {
                        nav.current_target = Some(p.position);
                        Status::Success
                    },
                },
            }
        },
        ZombieAction::Attack => {
            match agent.target_player {
                None => Status::Failure,
                Some(pid) => match st.find_player(pid) {
                    None => Status::Failure,
                    Some(p) => {
                        if now <= agent.next_attack_time {
                            agent.is_attacking = false;
                            Status::Success
                        } else if !within_range(p.position, nav.position, arch.attack_range()) {
                            agent.is_attacking = false;
                            Status::Failure
                        } else {
                            agent.is_attacking = true;
                            agent.next_attack_time = now + arch.cooldown();
                            if arch == Archetype::SpitterZombie {
                                st.create_aoe(p.position, agent.next_attack_time);
                            }
                            Status::Success
                        }
                    },
                },
            }
        },
    };
    proof {
        let o = spec_run_action(
            arch,
            action_ctx(*old(agent), *old(nav), *old(st)),
            *action,
            now,
            rand,
        );
        assert(action_ctx(*final(agent), *final(nav), *final(st)) =~= o.c);
    }
    r
}

} // verus!
