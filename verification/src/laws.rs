//! Laws of the simulation, stated and proved over the models that the
//! executable functions are verified against.

use vstd::prelude::*;
use crate::math::dist_sq;
use crate::entities::Archetype;
use crate::world::{seq_find_player, WorldState};
use crate::actions::{spec_run_attack, ActionCtx, Status};
use crate::behavior::{is_standard_tree, spec_eval, spec_eval_list, BehaviorNode};

verus! {

/// In a well-formed world there are no orphans in either direction: an
/// agent record exists exactly when its navigation handle exists, and
/// no two agents share a handle.
pub proof fn lemma_no_orphan_handles(st: WorldState)
    requires
        st.wf(),
    ensures
        forall|i: int|
            0 <= i < st.zombies@.len() ==> st.has_nav(
                (#[trigger] st.zombies@[i]).navigation_agent_id,
            ),
        forall|i: int|
            0 <= i < st.spitter_zombies@.len() ==> st.has_nav(
                (#[trigger] st.spitter_zombies@[i]).navigation_agent_id,
            ),
        forall|i: int|
            0 <= i < st.nav_agents@.len() ==> st.nav_owned((#[trigger] st.nav_agents@[i]).id),
        forall|i: int, j: int|
            0 <= i < j < st.zombies@.len() ==> st.zombies@[i].navigation_agent_id
                != st.zombies@[j].navigation_agent_id,
{
}

/// A world no agent or attack effect inhabits holds no handle either:
/// with both agent tables and the effect table empty, the handle
/// stores are empty. Together with the purge on the last player's
/// disconnection, nothing survives an unobserved world.
pub proof fn lemma_unobserved_world_holds_nothing(st: WorldState)
    requires
        st.wf(),
        st.zombies@.len() == 0,
        st.spitter_zombies@.len() == 0,
        st.spitter_aoes@.len() == 0,
    ensures
        st.nav_agents@.len() == 0,
        st.triggers@.len() == 0,
{
    if st.nav_agents@.len() > 0 {
        assert(st.nav_owned(st.nav_agents@[0].id));
    }
    if st.triggers@.len() > 0 {
        assert(st.trigger_owned(st.triggers@[0].id));
    }
}

/// An agent whose target player is gone (never set, or disconnected)
/// re-acquires a target within one evaluation of the standard tree,
/// provided any player is connected: whatever the navigation state, the
/// evaluation ends in `TargetRandomPlayer` succeeding, and the agent
/// leaves the tick targeting a player that exists.
pub proof fn lemma_retarget_after_target_lost(
    t: BehaviorNode,
    arch: Archetype,
    c: ActionCtx,
    now: u64,
    rand: u64,
)
    requires
        is_standard_tree(t),
        c.players.len() > 0,
        match c.agent.target_player {
            None => true,
            Some(pid) => seq_find_player(c.players, pid) is None,
        },
    ensures
        ({
            let o = spec_eval(t, arch, c, now, rand);
            let chosen = c.players[rand as int % c.players.len() as int];
            &&& o.status == Status::Success
            &&& o.c.agent.target_player == Some(chosen.id)
            &&& exists|k: int| 0 <= k < c.players.len() && c.players[k].id == chosen.id
            &&& o.c.nav.current_target == Some(chosen.position)
            &&& o.c.nav.paused == false
            &&& o.c.agent.is_attacking == false
        }),
{
    let top = t->Select_0;
    let s0 = top@[0]->Sequence_0;
    let s1 = top@[1]->Sequence_0;
    let idx = rand as int % c.players.len() as int;
    let chosen = c.players[idx];

    // First branch: Sequence [IsMoving, Chase] fails without changing
    // the context, whether at IsMoving or at Chase.
    let a_ismoving = spec_eval(s0@[0], arch, c, now, rand);
    assert(a_ismoving.c == c);
    let a_chase = spec_eval(s0@[1], arch, c, now, rand);
    assert(a_chase.c == c && a_chase.status == Status::Failure);
    let l0 = spec_eval_list(s0@, 0, Status::Success, arch, c, now, rand);
    if a_ismoving.status == Status::Success {
        assert(spec_eval_list(s0@, 1, Status::Success, arch, c, now, rand) == a_chase);
        assert(l0 == a_chase);
    } else {
        assert(l0 == a_ismoving);
    }
    let o0 = spec_eval(top@[0], arch, c, now, rand);
    assert(o0 == l0);
    assert(o0.c == c && o0.status == Status::Failure);

    // Second branch: Sequence [IsTargetReached, Attack] fails without
    // changing the context, whether at the check or at Attack.
    let a_reached = spec_eval(s1@[0], arch, c, now, rand);
    assert(a_reached.c == c);
    let a_attack = spec_eval(s1@[1], arch, c, now, rand);
    assert(a_attack.c == c && a_attack.status == Status::Failure);
    let l1 = spec_eval_list(s1@, 0, Status::Success, arch, c, now, rand);
    if a_reached.status == Status::Success {
        assert(spec_eval_list(s1@, 1, Status::Success, arch, c, now, rand) == a_attack);
        assert(l1 == a_attack);
    } else {
        assert(l1 == a_reached);
    }
    let o1 = spec_eval(top@[1], arch, c, now, rand);
    assert(o1 == l1);
    assert(o1.c == c && o1.status == Status::Failure);

    // Third branch: TargetRandomPlayer succeeds and targets the chosen
    // player.
    let o2 = spec_eval(top@[2], arch, c, now, rand);
    assert(o2.status == Status::Success && o2.c.agent.target_player == Some(chosen.id));

    // The select short-circuits into the third branch's outcome.
    assert(spec_eval_list(top@, 2, Status::Failure, arch, c, now, rand) == o2);
    assert(spec_eval_list(top@, 1, Status::Failure, arch, c, now, rand) == o2);
    assert(spec_eval_list(top@, 0, Status::Failure, arch, c, now, rand) == o2);
    assert(spec_eval(t, arch, c, now, rand) == o2);
}

/// Attack cooldown: an agent that lands an attack at `now` is put on
/// cooldown until `now + cooldown`; a second `Attack` evaluation at any
/// `now2` inside that window returns `Success` as a cosmetic no-op — the
/// attacking flag is cleared, no attack effect is created, and the
/// cooldown window is unchanged.
pub proof fn lemma_attack_cooldown(arch: Archetype, c: ActionCtx, now: u64, now2: u64)
    requires
        ({
            match c.agent.target_player {
                None => false,
                Some(pid) => match seq_find_player(c.players, pid) {
                    None => false,
                    Some(p) => now > c.agent.next_attack_time && dist_sq(p.position, c.nav.position)
                        <= arch.spec_attack_range() * arch.spec_attack_range(),
                },
            }
        }),
        now + arch.spec_cooldown() <= u64::MAX,
        now2 <= now + arch.spec_cooldown(),
    ensures
        ({
            let o1 = spec_run_attack(arch, c, now);
            let o2 = spec_run_attack(arch, o1.c, now2);
            &&& o1.status == Status::Success
            &&& o1.c.agent.is_attacking
            &&& o1.c.agent.next_attack_time == now + arch.spec_cooldown()
            &&& o2.status == Status::Success
            &&& !o2.c.agent.is_attacking
            &&& o2.c.aoes == o1.c.aoes
            &&& o2.c.triggers == o1.c.triggers
            &&& o2.c.agent.next_attack_time == o1.c.agent.next_attack_time
        }),
{
}

/// Range boundary: with the target found and the cooldown elapsed, an
/// attack at a squared distance exactly equal to the squared range
/// lands, and one strictly beyond it fails and forces a re-chase; both
/// archetypes classify the boundary the same way at their own range.
pub proof fn lemma_attack_range_boundary(arch: Archetype, c: ActionCtx, now: u64)
    requires
        ({
            match c.agent.target_player {
                None => false,
                Some(pid) => seq_find_player(c.players, pid) is Some,
            }
        }),
        now > c.agent.next_attack_time,
        now + arch.spec_cooldown() <= u64::MAX,
    ensures
        ({
            let p = seq_find_player(c.players, c.agent.target_player->0)->0;
            let o = spec_run_attack(arch, c, now);
            &&& dist_sq(p.position, c.nav.position) == arch.spec_attack_range()
                * arch.spec_attack_range() ==> o.status == Status::Success
                && o.c.agent.is_attacking
            &&& dist_sq(p.position, c.nav.position) > arch.spec_attack_range()
                * arch.spec_attack_range() ==> o.status == Status::Failure
                && !o.c.agent.is_attacking && o.c.aoes == c.aoes
        }),
{
}

} // verus!
