//! The persisted world state and its entity-lifecycle operations.
//!
//! One `WorldState` value stands for the whole shared store: one row
//! vector per table. `wf` is the global well-formedness invariant; every
//! operation of the crate preserves it. Its heart is the cascading
//! ownership contract: an agent record exists exactly when its navigation
//! handle exists, an attack effect exactly when its trigger handle exists,
//! and deletion always removes the owned handle together with its owner.

use vstd::prelude::*;
use crate::math::Vec3;
use crate::entities::{
    Agent, NavAgent, NavState, Player, SpitterAoE, TickJob, TickKind, TriggerHandle,
    ZombieSpawnPoint,
};

verus! {

pub struct WorldState {
    pub players: Vec<Player>,
    /// Melee-archetype agents.
    pub zombies: Vec<Agent>,
    /// Ranged-archetype agents.
    pub spitter_zombies: Vec<Agent>,
    pub spitter_aoes: Vec<SpitterAoE>,
    pub nav_agents: Vec<NavAgent>,
    pub triggers: Vec<TriggerHandle>,
    pub spawn_points: Vec<ZombieSpawnPoint>,
    pub jobs: Vec<TickJob>,
    /// Monotone counter every identity is drawn from.
    pub next_id: u64,
}

/// A freshly created navigation handle: idle, unpaused, no target.
pub open spec fn fresh_nav(id: u64, position: Vec3) -> NavAgent {
    NavAgent { id, position, state: NavState::Idle, current_target: None, paused: false }
}

/// A freshly created agent record referencing its navigation handle.
pub open spec fn fresh_agent(id: u64, nav_id: u64, position: Vec3, next_attack_time: u64) -> Agent {
    Agent {
        id,
        navigation_agent_id: nav_id,
        position,
        target_player: None,
        is_attacking: false,
        next_attack_time,
    }
}

/// Looks a player up by id, scanning front to back.
pub open spec fn seq_find_player(s: Seq<Player>, id: u64) -> Option<Player>
    decreases s.len(),
{
    if s.len() == 0 {
        None
    } else if s[0].id == id {
        Some(s[0])
    } else {
        seq_find_player(s.drop_first(), id)
    }
}

/// Looks a navigation handle up by id, scanning front to back.
pub open spec fn seq_find_nav(s: Seq<NavAgent>, id: u64) -> Option<NavAgent>
    decreases s.len(),
{
    if s.len() == 0 {
        None
    } else if s[0].id == id {
        Some(s[0])
    } else {
        seq_find_nav(s.drop_first(), id)
    }
}

impl WorldState {
    pub open spec fn has_player(self, id: u64) -> bool {
        exists|i: int| 0 <= i < self.players@.len() && self.players@[i].id == id
    }

    pub open spec fn has_player_identity(self, identity: u64) -> bool {
        exists|i: int| 0 <= i < self.players@.len() && self.players@[i].identity == identity
    }

    pub open spec fn has_nav(self, id: u64) -> bool {
        exists|i: int| 0 <= i < self.nav_agents@.len() && self.nav_agents@[i].id == id
    }

    pub open spec fn has_trigger(self, id: u64) -> bool {
        exists|i: int| 0 <= i < self.triggers@.len() && self.triggers@[i].id == id
    }

    /// Some agent of either archetype owns the navigation handle `nav_id`.
    pub open spec fn nav_owned(self, nav_id: u64) -> bool {
        (exists|i: int|
            0 <= i < self.zombies@.len() && self.zombies@[i].navigation_agent_id == nav_id)
            || (exists|i: int|
            0 <= i < self.spitter_zombies@.len()
                && self.spitter_zombies@[i].navigation_agent_id == nav_id)
    }

    /// Some attack effect owns the trigger handle `trigger_id`.
    pub open spec fn trigger_owned(self, trigger_id: u64) -> bool {
        exists|i: int|
            0 <= i < self.spitter_aoes@.len() && self.spitter_aoes@[i].trigger_id == trigger_id
    }

    pub open spec fn players_wf(self) -> bool {
        &&& forall|i: int, j: int|
            0 <= i < j < self.players@.len() ==> self.players@[i].id != self.players@[j].id
        &&& forall|i: int, j: int|
            0 <= i < j < self.players@.len()
                ==> self.players@[i].identity != self.players@[j].identity
        &&& forall|i: int|
            0 <= i < self.players@.len() ==> (#[trigger] self.players@[i]).id < self.next_id
        &&& forall|i: int|
            0 <= i < self.players@.len() ==> (#[trigger] self.players@[i]).position.in_bounds()
    }

    /// Well-formedness of one agent table.
    pub open spec fn agent_table_wf(s: Seq<Agent>, next_id: u64) -> bool {
        &&& forall|i: int, j: int| 0 <= i < j < s.len() ==> s[i].id != s[j].id
        &&& forall|i: int, j: int|
            0 <= i < j < s.len() ==> s[i].navigation_agent_id != s[j].navigation_agent_id
        &&& forall|i: int| 0 <= i < s.len() ==> (#[trigger] s[i]).id < next_id
        &&& forall|i: int| 0 <= i < s.len() ==> (#[trigger] s[i]).navigation_agent_id < next_id
        &&& forall|i: int| 0 <= i < s.len() ==> (#[trigger] s[i]).position.in_bounds()
    }

    /// No navigation handle is shared between the two archetype tables.
    pub open spec fn agents_disjoint(self) -> bool {
        forall|i: int, j: int|
            0 <= i < self.zombies@.len() && 0 <= j < self.spitter_zombies@.len()
                ==> self.zombies@[i].navigation_agent_id
                != self.spitter_zombies@[j].navigation_agent_id
    }

    pub open spec fn navs_wf(self) -> bool {
        &&& forall|i: int, j: int|
            0 <= i < j < self.nav_agents@.len()
                ==> self.nav_agents@[i].id != self.nav_agents@[j].id
        &&& forall|i: int|
            0 <= i < self.nav_agents@.len() ==> (#[trigger] self.nav_agents@[i]).id < self.next_id
        &&& forall|i: int|
            0 <= i < self.nav_agents@.len()
                ==> (#[trigger] self.nav_agents@[i]).position.in_bounds()
        &&& forall|i: int|
            0 <= i < self.nav_agents@.len()
                ==> ((#[trigger] self.nav_agents@[i]).current_target matches Some(t)
                ==> t.in_bounds())
    }

    /// Agents and navigation handles exist exactly together.
    pub open spec fn nav_link(self) -> bool {
        &&& forall|i: int|
            0 <= i < self.zombies@.len()
                ==> self.has_nav((#[trigger] self.zombies@[i]).navigation_agent_id)
        &&& forall|i: int|
            0 <= i < self.spitter_zombies@.len()
                ==> self.has_nav((#[trigger] self.spitter_zombies@[i]).navigation_agent_id)
        &&& forall|i: int|
            0 <= i < self.nav_agents@.len()
                ==> self.nav_owned((#[trigger] self.nav_agents@[i]).id)
    }

    pub open spec fn aoes_wf(self) -> bool {
        &&& forall|i: int, j: int|
            0 <= i < j < self.spitter_aoes@.len()
                ==> self.spitter_aoes@[i].id != self.spitter_aoes@[j].id
        &&& forall|i: int, j: int|
            0 <= i < j < self.spitter_aoes@.len()
                ==> self.spitter_aoes@[i].trigger_id != self.spitter_aoes@[j].trigger_id
        &&& forall|i: int|
            0 <= i < self.spitter_aoes@.len()
                ==> (#[trigger] self.spitter_aoes@[i]).id < self.next_id
        &&& forall|i: int|
            0 <= i < self.spitter_aoes@.len()
                ==> (#[trigger] self.spitter_aoes@[i]).trigger_id < self.next_id
        &&& forall|i: int|
            0 <= i < self.spitter_aoes@.len()
                ==> (#[trigger] self.spitter_aoes@[i]).position.in_bounds()
    }

    pub open spec fn triggers_wf(self) -> bool {
        &&& forall|i: int, j: int|
            0 <= i < j < self.triggers@.len() ==> self.triggers@[i].id != self.triggers@[j].id
        &&& forall|i: int|
            0 <= i < self.triggers@.len() ==> (#[trigger] self.triggers@[i]).id < self.next_id
        &&& forall|i: int|
            0 <= i < self.triggers@.len()
                ==> (#[trigger] self.triggers@[i]).position.in_bounds()
    }

    /// Attack effects and trigger handles exist exactly together.
    pub open spec fn trigger_link(self) -> bool {
        &&& forall|i: int|
            0 <= i < self.spitter_aoes@.len()
                ==> self.has_trigger((#[trigger] self.spitter_aoes@[i]).trigger_id)
        &&& forall|i: int|
            0 <= i < self.triggers@.len()
                ==> self.trigger_owned((#[trigger] self.triggers@[i]).id)
    }

    pub open spec fn spawn_points_wf(self) -> bool {
        &&& forall|i: int, j: int|
            0 <= i < j < self.spawn_points@.len()
                ==> self.spawn_points@[i].id != self.spawn_points@[j].id
        &&& forall|i: int|
            0 <= i < self.spawn_points@.len()
                ==> (#[trigger] self.spawn_points@[i]).id < self.next_id
        &&& forall|i: int|
            0 <= i < self.spawn_points@.len()
                ==> (#[trigger] self.spawn_points@[i]).position.in_bounds()
    }

    pub open spec fn jobs_wf(self) -> bool {
        &&& forall|i: int, j: int|
            0 <= i < j < self.jobs@.len() ==> self.jobs@[i].id != self.jobs@[j].id
        &&& forall|i: int, j: int|
            0 <= i < j < self.jobs@.len() ==> self.jobs@[i].kind != self.jobs@[j].kind
        &&& forall|i: int| 0 <= i < self.jobs@.len() ==> (#[trigger] self.jobs@[i]).id < self.next_id
        &&& forall|i: int|
            0 <= i < self.jobs@.len()
                ==> (#[trigger] self.jobs@[i]).interval_micros == self.jobs@[i].kind.spec_interval()
    }

    /// The global well-formedness invariant of the store.
    pub open spec fn wf(self) -> bool {
        &&& self.players_wf()
        &&& Self::agent_table_wf(self.zombies@, self.next_id)
        &&& Self::agent_table_wf(self.spitter_zombies@, self.next_id)
        &&& self.agents_disjoint()
        &&& self.navs_wf()
        &&& self.nav_link()
        &&& self.aoes_wf()
        &&& self.triggers_wf()
        &&& self.trigger_link()
        &&& self.spawn_points_wf()
        &&& self.jobs_wf()
    }

    /// Total live agent population across both archetype tables.
    pub open spec fn spec_agent_count(self) -> int {
        self.zombies@.len() as int + self.spitter_zombies@.len() as int
    }

    /// The identity counter can still draw `k` fresh identities.
    pub open spec fn can_alloc(self, k: int) -> bool {
        self.next_id + k <= u64::MAX
    }

    /// An empty world with the identity counter at zero.
    pub fn new() -> (st: WorldState)
        ensures
            st.wf(),
            st.players@.len() == 0,
            st.zombies@.len() == 0,
            st.spitter_zombies@.len() == 0,
            st.spitter_aoes@.len() == 0,
            st.nav_agents@.len() == 0,
            st.triggers@.len() == 0,
            st.spawn_points@.len() == 0,
            st.jobs@.len() == 0,
            st.next_id == 0,
    {
        WorldState {
            players: Vec::new(),
            zombies: Vec::new(),
            spitter_zombies: Vec::new(),
            spitter_aoes: Vec::new(),
            nav_agents: Vec::new(),
            triggers: Vec::new(),
            spawn_points: Vec::new(),
            jobs: Vec::new(),
            next_id: 0,
        }
    }

    pub fn agent_count(&self) -> (n: u64)
        requires
            self.spec_agent_count() <= u64::MAX,
        ensures
            n == self.spec_agent_count(),
    {
        self.zombies.len() as u64 + self.spitter_zombies.len() as u64
    }

    /// Fallible lookup of a player by id; `None` exactly when no such
    /// player exists.
    pub fn find_player(&self, id: u64) -> (r: Option<Player>)
        ensures
            r == seq_find_player(self.players@, id),
            r is Some <==> self.has_player(id),
            r matches Some(p) ==> self.players@.contains(p),
    {
        let n = self.players.len();
        let mut i: usize = 0;
        while i < n
            invariant
                n == self.players@.len(),
                0 <= i <= n,
                forall|k: int| 0 <= k < i ==> self.players@[k].id != id,
            decreases n - i,
        {
            if self.players[i].id == id {
                proof {
                    lemma_seq_find_player_at(self.players@, id, i as int);
                }
                return Some(self.players[i]);
            }
            i += 1;
        }
        proof {
            lemma_seq_find_player_at(self.players@, id, n as int);
        }
        None
    }

    /// Fallible lookup of a navigation handle by id.
    pub fn find_nav(&self, id: u64) -> (r: Option<NavAgent>)
        ensures
            r == seq_find_nav(self.nav_agents@, id),
            r is Some <==> self.has_nav(id),
            r matches Some(n) ==> self.nav_agents@.contains(n),
    {
        let n = self.nav_agents.len();
        let mut i: usize = 0;
        while i < n
            invariant
                n == self.nav_agents@.len(),
                0 <= i <= n,
                forall|k: int| 0 <= k < i ==> self.nav_agents@[k].id != id,
            decreases n - i,
        {
            if self.nav_agents[i].id == id {
                proof {
                    lemma_seq_find_nav_at(self.nav_agents@, id, i as int);
                }
                return Some(self.nav_agents[i]);
            }
            i += 1;
        }
        proof {
            lemma_seq_find_nav_at(self.nav_agents@, id, n as int);
        }
        None
    }

    /// Creates a player for a newly connected session at the default
    /// spawn position. Connecting twice with one identity is a no-op.
    pub fn create_player(&mut self, identity: u64, now: u64) -> (created: bool)
        requires
            old(self).wf(),
            old(self).can_alloc(1),
        ensures
            final(self).wf(),
            created == !old(self).has_player_identity(identity),
            !created ==> *final(self) == *old(self),
            created ==> final(self).players@ == old(self).players@.push(
                (Player {
                    id: old(self).next_id,
                    identity,
                    joined_at: now,
                    position: (Vec3 { x: 0, y: 0, z: 0 }),
                }),
            ),
            created ==> final(self).next_id == old(self).next_id + 1,
            final(self).zombies@ == old(self).zombies@,
            final(self).spitter_zombies@ == old(self).spitter_zombies@,
            final(self).spitter_aoes@ == old(self).spitter_aoes@,
            final(self).nav_agents@ == old(self).nav_agents@,
            final(self).triggers@ == old(self).triggers@,
            final(self).spawn_points@ == old(self).spawn_points@,
            final(self).jobs@ == old(self).jobs@,
            final(self).has_player_identity(identity),
    {
        match self.find_player_index_by_identity(identity) {
            Some(i) => {
                proof {
                    assert(self.players@[i as int].identity == identity);
                }
                return false;
            },
            None => {},
        }
        let id = self.next_id;
        self.next_id = self.next_id + 1;
        self.players.push(Player { id, identity, joined_at: now, position: Vec3::new(0, 0, 0) });
        proof {
            assert(final(self).players@[old(self).players@.len() as int].identity == identity);
            lemma_links_stable_navs(*old(self), *final(self));
            lemma_links_stable_triggers(*old(self), *final(self));
        }
        true
    }

    /// Updates a player's current position; a vanished player is a no-op.
    pub fn player_update_position(&mut self, identity: u64, new_position: Vec3)
        requires
            old(self).wf(),
            new_position.in_bounds(),
        ensures
            final(self).wf(),
            final(self).players@.len() == old(self).players@.len(),
            forall|k: int|
                0 <= k < old(self).players@.len() && old(self).players@[k].identity != identity
                    ==> final(self).players@[k] == old(self).players@[k],
            forall|k: int|
                0 <= k < old(self).players@.len() && old(self).players@[k].identity == identity
                    ==> final(self).players@[k] == (Player {
                    position: new_position,
                    ..old(self).players@[k]
                }),
            final(self).zombies@ == old(self).zombies@,
            final(self).spitter_zombies@ == old(self).spitter_zombies@,
            final(self).spitter_aoes@ == old(self).spitter_aoes@,
            final(self).nav_agents@ == old(self).nav_agents@,
            final(self).triggers@ == old(self).triggers@,
            final(self).spawn_points@ == old(self).spawn_points@,
            final(self).jobs@ == old(self).jobs@,
            final(self).next_id == old(self).next_id,
    {
        match self.find_player_index_by_identity(identity) {
            None => {},
            Some(i) => {
                let p = self.players[i];
                self.players[i] = Player { position: new_position, ..p };
                proof {
                    let ii = i as int;
                    assert forall|k: int|
                        0 <= k < old(self).players@.len() && old(self).players@[k].identity
                            == identity implies final(self).players@[k] == (Player {
                        position: new_position,
                        ..old(self).players@[k]
                    }) by {
                        if k != ii {
                            assert(old(self).players@[k].identity
                                == old(self).players@[ii].identity);
                            assert(false);
                        }
                    }
                    lemma_links_stable_navs(*old(self), *final(self));
                    lemma_links_stable_triggers(*old(self), *final(self));
                }
            },
        }
    }

    /// Creates a melee agent together with its navigation handle.
    /// Cascading ownership starts here: the handle is inserted first and
    /// the new record references it.
    pub fn create_zombie(&mut self, position: Vec3, now: u64) -> (id: u64)
        requires
            old(self).wf(),
            position.in_bounds(),
            old(self).can_alloc(2),
        ensures
            final(self).wf(),
            final(self).nav_agents@ == old(self).nav_agents@.push(
                fresh_nav(old(self).next_id, position),
            ),
            final(self).zombies@ == old(self).zombies@.push(
                fresh_agent((old(self).next_id + 1) as u64, old(self).next_id, position, now),
            ),
            final(self).next_id == old(self).next_id + 2,
            id == old(self).next_id + 1,
            final(self).players@ == old(self).players@,
            final(self).spitter_zombies@ == old(self).spitter_zombies@,
            final(self).spitter_aoes@ == old(self).spitter_aoes@,
            final(self).triggers@ == old(self).triggers@,
            final(self).spawn_points@ == old(self).spawn_points@,
            final(self).jobs@ == old(self).jobs@,
    {
        let nav_id = self.next_id;
        let id = self.next_id + 1;
        self.next_id = self.next_id + 2;
        self.nav_agents.push(NavAgent {
            id: nav_id,
            position,
            state: NavState::Idle,
            current_target: None,
            paused: false,
        });
        self.zombies.push(Agent {
            id,
            navigation_agent_id: nav_id,
            position,
            target_player: None,
            is_attacking: false,
            next_attack_time: now,
        });
        proof {
            let zlen = old(self).zombies@.len() as int;
            let nlen = old(self).nav_agents@.len() as int;
            assert(final(self).zombies@[zlen].navigation_agent_id == nav_id);
            assert(final(self).nav_agents@[nlen].id == nav_id);
            assert(final(self).nav_owned(nav_id));
            assert(final(self).has_nav(nav_id));
            lemma_nav_link_push(
                *old(self),
                *final(self),
                fresh_nav(nav_id, position),
                fresh_agent(id, nav_id, position, now),
                true,
            );
            lemma_links_stable_triggers(*old(self), *final(self));
        }
        id
    }

    /// Creates a ranged agent together with its navigation handle. A new
    /// spitter starts with no attack on cooldown.
    pub fn create_spitter_zombie(&mut self, position: Vec3) -> (id: u64)
        requires
            old(self).wf(),
            position.in_bounds(),
            old(self).can_alloc(2),
        ensures
            final(self).wf(),
            final(self).nav_agents@ == old(self).nav_agents@.push(
                fresh_nav(old(self).next_id, position),
            ),
            final(self).spitter_zombies@ == old(self).spitter_zombies@.push(
                fresh_agent((old(self).next_id + 1) as u64, old(self).next_id, position, 0),
            ),
            final(self).next_id == old(self).next_id + 2,
            id == old(self).next_id + 1,
            final(self).players@ == old(self).players@,
            final(self).zombies@ == old(self).zombies@,
            final(self).spitter_aoes@ == old(self).spitter_aoes@,
            final(self).triggers@ == old(self).triggers@,
            final(self).spawn_points@ == old(self).spawn_points@,
            final(self).jobs@ == old(self).jobs@,
    {
        let nav_id = self.next_id;
        let id = self.next_id + 1;
        self.next_id = self.next_id + 2;
        self.nav_agents.push(NavAgent {
            id: nav_id,
            position,
            state: NavState::Idle,
            current_target: None,
            paused: false,
        });
        self.spitter_zombies.push(Agent {
            id,
            navigation_agent_id: nav_id,
            position,
            target_player: None,
            is_attacking: false,
            next_attack_time: 0,
        });
        proof {
            let slen = old(self).spitter_zombies@.len() as int;
            let nlen = old(self).nav_agents@.len() as int;
            assert(final(self).spitter_zombies@[slen].navigation_agent_id == nav_id);
            assert(final(self).nav_agents@[nlen].id == nav_id);
            assert(final(self).nav_owned(nav_id));
            assert(final(self).has_nav(nav_id));
            lemma_nav_link_push(
                *old(self),
                *final(self),
                fresh_nav(nav_id, position),
                fresh_agent(id, nav_id, position, 0),
                false,
            );
            lemma_links_stable_triggers(*old(self), *final(self));
        }
        id
    }

    /// Creates an attack effect together with its trigger handle at the
    /// struck position, expiring at `delete_at`.
    pub fn create_aoe(&mut self, position: Vec3, delete_at: u64) -> (id: u64)
        requires
            old(self).wf(),
            position.in_bounds(),
            old(self).can_alloc(2),
        ensures
            final(self).wf(),
            final(self).triggers@ == old(self).triggers@.push(
                (TriggerHandle { id: old(self).next_id, position }),
            ),
            final(self).spitter_aoes@ == old(self).spitter_aoes@.push(
                (SpitterAoE {
                    id: (old(self).next_id + 1) as u64,
                    trigger_id: old(self).next_id,
                    position,
                    delete_at,
                }),
            ),
            final(self).next_id == old(self).next_id + 2,
            id == old(self).next_id + 1,
            final(self).players@ == old(self).players@,
            final(self).zombies@ == old(self).zombies@,
            final(self).spitter_zombies@ == old(self).spitter_zombies@,
            final(self).nav_agents@ == old(self).nav_agents@,
            final(self).spawn_points@ == old(self).spawn_points@,
            final(self).jobs@ == old(self).jobs@,
    {
        let trigger_id = self.next_id;
        let id = self.next_id + 1;
        self.next_id = self.next_id + 2;
        self.triggers.push(TriggerHandle { id: trigger_id, position });
        self.spitter_aoes.push(SpitterAoE { id, trigger_id, position, delete_at });
        proof {
            let alen = old(self).spitter_aoes@.len() as int;
            let tlen = old(self).triggers@.len() as int;
            assert(final(self).spitter_aoes@[alen].trigger_id == trigger_id);
            assert(final(self).triggers@[tlen].id == trigger_id);
            assert(final(self).trigger_owned(trigger_id));
            assert(final(self).has_trigger(trigger_id));
            lemma_trigger_link_push(
                *old(self),
                *final(self),
                (TriggerHandle { id: trigger_id, position }),
                (SpitterAoE { id, trigger_id, position, delete_at }),
            );
            lemma_links_stable_navs(*old(self), *final(self));
        }
        id
    }

    /// Creates a static spawn point.
    pub fn create_spawn_point(&mut self, position: Vec3) -> (id: u64)
        requires
            old(self).wf(),
            position.in_bounds(),
            old(self).can_alloc(1),
        ensures
            final(self).wf(),
            final(self).spawn_points@ == old(self).spawn_points@.push(
                (ZombieSpawnPoint { id: old(self).next_id, position }),
            ),
            final(self).next_id == old(self).next_id + 1,
            id == old(self).next_id,
            final(self).players@ == old(self).players@,
            final(self).zombies@ == old(self).zombies@,
            final(self).spitter_zombies@ == old(self).spitter_zombies@,
            final(self).spitter_aoes@ == old(self).spitter_aoes@,
            final(self).nav_agents@ == old(self).nav_agents@,
            final(self).triggers@ == old(self).triggers@,
            final(self).jobs@ == old(self).jobs@,
    {
        let id = self.next_id;
        self.next_id = self.next_id + 1;
        self.spawn_points.push(ZombieSpawnPoint { id, position });
        proof {
            lemma_links_stable_navs(*old(self), *final(self));
            lemma_links_stable_triggers(*old(self), *final(self));
        }
        id
    }

    pub open spec fn has_job(self, kind: TickKind) -> bool {
        exists|i: int| 0 <= i < self.jobs@.len() && self.jobs@[i].kind == kind
    }

    /// Registers the periodic job of `kind` at its fixed interval.
    /// Registration is idempotent: re-running initialization never
    /// duplicates a job.
    pub fn schedule(&mut self, kind: TickKind) -> (created: bool)
        requires
            old(self).wf(),
            old(self).can_alloc(1),
        ensures
            final(self).wf(),
            created == !old(self).has_job(kind),
            !created ==> *final(self) == *old(self),
            created ==> final(self).jobs@ == old(self).jobs@.push(
                (TickJob {
                    id: old(self).next_id,
                    kind,
                    interval_micros: kind.spec_interval(),
                }),
            ),
            created ==> final(self).next_id == old(self).next_id + 1,
            final(self).has_job(kind),
            final(self).players@ == old(self).players@,
            final(self).zombies@ == old(self).zombies@,
            final(self).spitter_zombies@ == old(self).spitter_zombies@,
            final(self).spitter_aoes@ == old(self).spitter_aoes@,
            final(self).nav_agents@ == old(self).nav_agents@,
            final(self).triggers@ == old(self).triggers@,
            final(self).spawn_points@ == old(self).spawn_points@,
    {
        match self.find_job_index(kind) {
            Some(i) => {
                proof {
                    assert(self.jobs@[i as int].kind == kind);
                }
                return false;
            },
            None => {},
        }
        let id = self.next_id;
        self.next_id = self.next_id + 1;
        self.jobs.push(TickJob { id, kind, interval_micros: kind.interval() });
        proof {
            assert(final(self).jobs@[old(self).jobs@.len() as int].kind == kind);
            lemma_links_stable_navs(*old(self), *final(self));
            lemma_links_stable_triggers(*old(self), *final(self));
        }
        true
    }
}


/// Inserting an agent together with the navigation handle it owns keeps
/// the two stores linked in both directions.
pub proof fn lemma_nav_link_push(
    pre: WorldState,
    post: WorldState,
    nav: NavAgent,
    agent: Agent,
    melee: bool,
)
    requires
        pre.nav_link(),
        agent.navigation_agent_id == nav.id,
        post.nav_agents@ == pre.nav_agents@.push(nav),
        melee ==> post.zombies@ == pre.zombies@.push(agent) && post.spitter_zombies@
            == pre.spitter_zombies@,
        !melee ==> post.spitter_zombies@ == pre.spitter_zombies@.push(agent) && post.zombies@
            == pre.zombies@,
    ensures
        post.nav_link(),
{
    assert forall|i: int| 0 <= i < post.zombies@.len() implies post.has_nav(
        (#[trigger] post.zombies@[i]).navigation_agent_id,
    ) by {
        if melee && i == pre.zombies@.len() {
            assert(post.nav_agents@[pre.nav_agents@.len() as int].id
                == post.zombies@[i].navigation_agent_id);
        } else {
            assert(pre.has_nav(pre.zombies@[i].navigation_agent_id));
            let k = choose|k: int|
                0 <= k < pre.nav_agents@.len() && pre.nav_agents@[k].id
                    == pre.zombies@[i].navigation_agent_id;
            assert(post.nav_agents@[k].id == post.zombies@[i].navigation_agent_id);
        }
    }
    assert forall|i: int| 0 <= i < post.spitter_zombies@.len() implies post.has_nav(
        (#[trigger] post.spitter_zombies@[i]).navigation_agent_id,
    ) by {
        if !melee && i == pre.spitter_zombies@.len() {
            assert(post.nav_agents@[pre.nav_agents@.len() as int].id
                == post.spitter_zombies@[i].navigation_agent_id);
        } else {
            assert(pre.has_nav(pre.spitter_zombies@[i].navigation_agent_id));
            let k = choose|k: int|
                0 <= k < pre.nav_agents@.len() && pre.nav_agents@[k].id
                    == pre.spitter_zombies@[i].navigation_agent_id;
            assert(post.nav_agents@[k].id == post.spitter_zombies@[i].navigation_agent_id);
        }
    }
    assert forall|i: int| 0 <= i < post.nav_agents@.len() implies post.nav_owned(
        (#[trigger] post.nav_agents@[i]).id,
    ) by {
        if i == pre.nav_agents@.len() {
            if melee {
                assert(post.zombies@[pre.zombies@.len() as int].navigation_agent_id
                    == post.nav_agents@[i].id);
            } else {
                assert(post.spitter_zombies@[pre.spitter_zombies@.len() as int].navigation_agent_id
                    == post.nav_agents@[i].id);
            }
        } else {
            assert(pre.nav_owned(pre.nav_agents@[i].id));
            if exists|k: int|
                0 <= k < pre.zombies@.len() && pre.zombies@[k].navigation_agent_id
                    == pre.nav_agents@[i].id {
                let k = choose|k: int|
                    0 <= k < pre.zombies@.len() && pre.zombies@[k].navigation_agent_id
                        == pre.nav_agents@[i].id;
                assert(post.zombies@[k].navigation_agent_id == post.nav_agents@[i].id);
            } else {
                let k = choose|k: int|
                    0 <= k < pre.spitter_zombies@.len()
                        && pre.spitter_zombies@[k].navigation_agent_id == pre.nav_agents@[i].id;
                assert(post.spitter_zombies@[k].navigation_agent_id == post.nav_agents@[i].id);
            }
        }
    }
}

/// Inserting an attack effect together with the trigger handle it owns
/// keeps the two stores linked in both directions.
pub proof fn lemma_trigger_link_push(
    pre: WorldState,
    post: WorldState,
    trigger: TriggerHandle,
    aoe: SpitterAoE,
)
    requires
        pre.trigger_link(),
        aoe.trigger_id == trigger.id,
        post.triggers@ == pre.triggers@.push(trigger),
        post.spitter_aoes@ == pre.spitter_aoes@.push(aoe),
    ensures
        post.trigger_link(),
{
    assert forall|i: int| 0 <= i < post.spitter_aoes@.len() implies post.has_trigger(
        (#[trigger] post.spitter_aoes@[i]).trigger_id,
    ) by {
        if i == pre.spitter_aoes@.len() {
            assert(post.triggers@[pre.triggers@.len() as int].id
                == post.spitter_aoes@[i].trigger_id);
        } else {
            assert(pre.has_trigger(pre.spitter_aoes@[i].trigger_id));
            let k = choose|k: int|
                0 <= k < pre.triggers@.len() && pre.triggers@[k].id
                    == pre.spitter_aoes@[i].trigger_id;
            assert(post.triggers@[k].id == post.spitter_aoes@[i].trigger_id);
        }
    }
    assert forall|i: int| 0 <= i < post.triggers@.len() implies post.trigger_owned(
        (#[trigger] post.triggers@[i]).id,
    ) by {
        if i == pre.triggers@.len() {
            assert(post.spitter_aoes@[pre.spitter_aoes@.len() as int].trigger_id
                == post.triggers@[i].id);
        } else {
            assert(pre.trigger_owned(pre.triggers@[i].id));
            let k = choose|k: int|
                0 <= k < pre.spitter_aoes@.len() && pre.spitter_aoes@[k].trigger_id
                    == pre.triggers@[i].id;
            assert(post.spitter_aoes@[k].trigger_id == post.triggers@[i].id);
        }
    }
}

/// The agent/navigation link only depends on the three tables it reads.
pub proof fn lemma_links_stable_navs(pre: WorldState, post: WorldState)
    requires
        post.zombies@ == pre.zombies@,
        post.spitter_zombies@ == pre.spitter_zombies@,
        post.nav_agents@ == pre.nav_agents@,
        pre.nav_link(),
    ensures
        post.nav_link(),
{
    assert forall|i: int| 0 <= i < post.zombies@.len() implies post.has_nav(
        (#[trigger] post.zombies@[i]).navigation_agent_id,
    ) by {
        assert(pre.has_nav(pre.zombies@[i].navigation_agent_id));
        let k = choose|k: int|
            0 <= k < pre.nav_agents@.len() && pre.nav_agents@[k].id
                == pre.zombies@[i].navigation_agent_id;
        assert(post.nav_agents@[k].id == post.zombies@[i].navigation_agent_id);
    }
    assert forall|i: int| 0 <= i < post.spitter_zombies@.len() implies post.has_nav(
        (#[trigger] post.spitter_zombies@[i]).navigation_agent_id,
    ) by {
        assert(pre.has_nav(pre.spitter_zombies@[i].navigation_agent_id));
        let k = choose|k: int|
            0 <= k < pre.nav_agents@.len() && pre.nav_agents@[k].id
                == pre.spitter_zombies@[i].navigation_agent_id;
        assert(post.nav_agents@[k].id == post.spitter_zombies@[i].navigation_agent_id);
    }
    assert forall|i: int| 0 <= i < post.nav_agents@.len() implies post.nav_owned(
        (#[trigger] post.nav_agents@[i]).id,
    ) by {
        assert(pre.nav_owned(pre.nav_agents@[i].id));
        if exists|k: int|
            0 <= k < pre.zombies@.len() && pre.zombies@[k].navigation_agent_id
                == pre.nav_agents@[i].id {
            let k = choose|k: int|
                0 <= k < pre.zombies@.len() && pre.zombies@[k].navigation_agent_id
                    == pre.nav_agents@[i].id;
            assert(post.zombies@[k].navigation_agent_id == post.nav_agents@[i].id);
        } else {
            let k = choose|k: int|
                0 <= k < pre.spitter_zombies@.len() && pre.spitter_zombies@[k].navigation_agent_id
                    == pre.nav_agents@[i].id;
            assert(post.spitter_zombies@[k].navigation_agent_id == post.nav_agents@[i].id);
        }
    }
}

/// The effect/trigger link only depends on the two tables it reads.
pub proof fn lemma_links_stable_triggers(pre: WorldState, post: WorldState)
    requires
        post.spitter_aoes@ == pre.spitter_aoes@,
        post.triggers@ == pre.triggers@,
        pre.trigger_link(),
    ensures
        post.trigger_link(),
{
    assert forall|i: int| 0 <= i < post.spitter_aoes@.len() implies post.has_trigger(
        (#[trigger] post.spitter_aoes@[i]).trigger_id,
    ) by {
        assert(pre.has_trigger(pre.spitter_aoes@[i].trigger_id));
        let k = choose|k: int|
            0 <= k < pre.triggers@.len() && pre.triggers@[k].id == pre.spitter_aoes@[i].trigger_id;
        assert(post.triggers@[k].id == post.spitter_aoes@[i].trigger_id);
    }
    assert forall|i: int| 0 <= i < post.triggers@.len() implies post.trigger_owned(
        (#[trigger] post.triggers@[i]).id,
    ) by {
        assert(pre.trigger_owned(pre.triggers@[i].id));
        let k = choose|k: int|
            0 <= k < pre.spitter_aoes@.len() && pre.spitter_aoes@[k].trigger_id
                == pre.triggers@[i].id;
        assert(post.spitter_aoes@[k].trigger_id == post.triggers@[i].id);
    }
}

impl WorldState {
    /// Index of the player with this session identity, if any.
    pub fn find_player_index_by_identity(&self, identity: u64) -> (r: Option<usize>)
        ensures
            match r {
                Some(i) => i < self.players@.len() && self.players@[i as int].identity == identity,
                None => !self.has_player_identity(identity),
            },
    {
        let n = self.players.len();
        let mut i: usize = 0;
        while i < n
            invariant
                n == self.players@.len(),
                0 <= i <= n,
                forall|k: int| 0 <= k < i ==> self.players@[k].identity != identity,
            decreases n - i,
        {
            if self.players[i].identity == identity {
                return Some(i);
            }
            i += 1;
        }
        None
    }

    /// The character snapshot handed to the navigation solver once per
    /// world step: every live player's current position, in table order.
    pub fn player_positions(&self) -> (r: Vec<Vec3>)
        ensures
            r@ == self.players@.map_values(|p: Player| p.position),
    {
        let n = self.players.len();
        let mut out: Vec<Vec3> = Vec::new();
        let mut i: usize = 0;
        while i < n
            invariant
                n == self.players@.len(),
                0 <= i <= n,
                out@ == self.players@.take(i as int).map_values(|p: Player| p.position),
            decreases n - i,
        {
            out.push(self.players[i].position);
            proof {
                assert(self.players@.take(i + 1).map_values(|p: Player| p.position)
                    =~= self.players@.take(i as int).map_values(|p: Player| p.position).push(
                    self.players@[i as int].position,
                ));
            }
            i += 1;
        }
        proof {
            assert(self.players@.take(n as int) =~= self.players@);
        }
        out
    }

    /// Fallible lookup of a player by session identity.
    pub fn find_by_identity(&self, identity: u64) -> (r: Option<Player>)
        ensures
            match r {
                Some(p) => p.identity == identity && self.players@.contains(p),
                None => !self.has_player_identity(identity),
            },
    {
        match self.find_player_index_by_identity(identity) {
            None => None,
            Some(i) => {
                proof {
                    assert(self.players@.contains(self.players@[i as int]));
                }
                Some(self.players[i])
            },
        }
    }

    /// Index of the job record of this kind, if any.
    pub fn find_job_index(&self, kind: TickKind) -> (r: Option<usize>)
        ensures
            match r {
                Some(i) => i < self.jobs@.len() && self.jobs@[i as int].kind == kind,
                None => !self.has_job(kind),
            },
    {
        let n = self.jobs.len();
        let mut i: usize = 0;
        while i < n
            invariant
                n == self.jobs@.len(),
                0 <= i <= n,
                forall|k: int| 0 <= k < i ==> self.jobs@[k].kind != kind,
            decreases n - i,
        {
            if self.jobs[i].kind == kind {
                return Some(i);
            }
            i += 1;
        }
        None
    }
}

/// If no player before `i` matches, the scan outcome is decided at `i`:
/// a match there is the result, and a scan that ran off the end is `None`.
pub proof fn lemma_seq_find_player_at(s: Seq<Player>, id: u64, i: int)
    requires
        0 <= i <= s.len(),
        forall|k: int| 0 <= k < i ==> s[k].id != id,
        i < s.len() ==> s[i].id == id,
    ensures
        seq_find_player(s, id) == if i < s.len() {
            Some(s[i])
        } else {
            None::<Player>
        },
    decreases i,
{
    if i == 0 {
        if s.len() == 0 {
        } else {
        }
    } else {
        assert(s.drop_first().len() == s.len() - 1);
        assert(forall|k: int| 0 <= k < i - 1 ==> s.drop_first()[k].id != id);
        lemma_seq_find_player_at(s.drop_first(), id, i - 1);
    }
}

pub proof fn lemma_seq_find_nav_at(s: Seq<NavAgent>, id: u64, i: int)
    requires
        0 <= i <= s.len(),
        forall|k: int| 0 <= k < i ==> s[k].id != id,
        i < s.len() ==> s[i].id == id,
    ensures
        seq_find_nav(s, id) == if i < s.len() {
            Some(s[i])
        } else {
            None::<NavAgent>
        },
    decreases i,
{
    if i > 0 {
        assert(forall|k: int| 0 <= k < i - 1 ==> s.drop_first()[k].id != id);
        lemma_seq_find_nav_at(s.drop_first(), id, i - 1);
    }
}


impl WorldState {
    /// Index of the navigation handle with this id, if any.
    pub fn find_nav_index(&self, id: u64) -> (r: Option<usize>)
        ensures
            match r {
                Some(j) => j < self.nav_agents@.len() && self.nav_agents@[j as int].id == id,
                None => !self.has_nav(id),
            },
    {
        let n = self.nav_agents.len();
        let mut i: usize = 0;
        while i < n
            invariant
                n == self.nav_agents@.len(),
                0 <= i <= n,
                forall|k: int| 0 <= k < i ==> self.nav_agents@[k].id != id,
            decreases n - i,
        {
            if self.nav_agents[i].id == id {
                return Some(i);
            }
            i += 1;
        }
        None
    }

    /// Index of the trigger handle with this id, if any.
    pub fn find_trigger_index(&self, id: u64) -> (r: Option<usize>)
        ensures
            match r {
                Some(j) => j < self.triggers@.len() && self.triggers@[j as int].id == id,
                None => !self.has_trigger(id),
            },
    {
        let n = self.triggers.len();
        let mut i: usize = 0;
        while i < n
            invariant
                n == self.triggers@.len(),
                0 <= i <= n,
                forall|k: int| 0 <= k < i ==> self.triggers@[k].id != id,
            decreases n - i,
        {
            if self.triggers[i].id == id {
                return Some(i);
            }
            i += 1;
        }
        None
    }

    /// Deletes the melee agent at table index `i`. The cascading-delete
    /// contract: the owned navigation handle is deleted first, then the
    /// record itself; well-formedness guarantees the handle is found.
    pub fn delete_zombie_at(&mut self, i: usize)
        requires
            old(self).wf(),
            i < old(self).zombies@.len(),
        ensures
            final(self).wf(),
            final(self).zombies@ == old(self).zombies@.remove(i as int),
            !final(self).has_nav(old(self).zombies@[i as int].navigation_agent_id),
            exists|j: int|
                0 <= j < old(self).nav_agents@.len() && old(self).nav_agents@[j].id == old(self).zombies@[i as int].navigation_agent_id && final(self).nav_agents@ == old(self).nav_agents@.remove(j),
            final(self).players@ == old(self).players@,
            final(self).spitter_zombies@ == old(self).spitter_zombies@,
            final(self).spitter_aoes@ == old(self).spitter_aoes@,
            final(self).triggers@ == old(self).triggers@,
            final(self).spawn_points@ == old(self).spawn_points@,
            final(self).jobs@ == old(self).jobs@,
            final(self).next_id == old(self).next_id,
    {
        let nav_id = self.zombies[i].navigation_agent_id;
        let j = match self.find_nav_index(nav_id) {
            Some(j) => j,
            None => {
                proof {
                    assert(self.has_nav(nav_id));
                }
                unreached()
            },
        };
        self.nav_agents.remove(j);
        self.zombies.remove(i);
        proof {
            lemma_nav_link_remove(*old(self), *final(self), i as int, j as int, true);
            lemma_links_stable_triggers(*old(self), *final(self));
            assert forall|id: u64| final(self).has_nav(id) implies old(self).has_nav(id) && id
                != nav_id by {
                let k = choose|k: int|
                    0 <= k < final(self).nav_agents@.len() && final(self).nav_agents@[k].id == id;
                if k < j {
                    assert(old(self).nav_agents@[k].id == id);
                } else {
                    assert(old(self).nav_agents@[k + 1].id == id);
                }
            }
        }
    }

    /// Deletes the ranged agent at table index `i`, handle first.
    pub fn delete_spitter_zombie_at(&mut self, i: usize)
        requires
            old(self).wf(),
            i < old(self).spitter_zombies@.len(),
        ensures
            final(self).wf(),
            final(self).spitter_zombies@ == old(self).spitter_zombies@.remove(i as int),
            !final(self).has_nav(old(self).spitter_zombies@[i as int].navigation_agent_id),
            exists|j: int|
                0 <= j < old(self).nav_agents@.len() && old(self).nav_agents@[j].id == old(self).spitter_zombies@[i as int].navigation_agent_id && final(self).nav_agents@ == old(self).nav_agents@.remove(j),
            final(self).players@ == old(self).players@,
            final(self).zombies@ == old(self).zombies@,
            final(self).spitter_aoes@ == old(self).spitter_aoes@,
            final(self).triggers@ == old(self).triggers@,
            final(self).spawn_points@ == old(self).spawn_points@,
            final(self).jobs@ == old(self).jobs@,
            final(self).next_id == old(self).next_id,
    {
        let nav_id = self.spitter_zombies[i].navigation_agent_id;
        let j = match self.find_nav_index(nav_id) {
            Some(j) => j,
            None => {
                proof {
                    assert(self.has_nav(nav_id));
                }
                unreached()
            },
        };
        self.nav_agents.remove(j);
        self.spitter_zombies.remove(i);
        proof {
            lemma_nav_link_remove(*old(self), *final(self), i as int, j as int, false);
            lemma_links_stable_triggers(*old(self), *final(self));
            assert forall|id: u64| final(self).has_nav(id) implies old(self).has_nav(id) && id
                != nav_id by {
                let k = choose|k: int|
                    0 <= k < final(self).nav_agents@.len() && final(self).nav_agents@[k].id == id;
                if k < j {
                    assert(old(self).nav_agents@[k].id == id);
                } else {
                    assert(old(self).nav_agents@[k + 1].id == id);
                }
            }
        }
    }

    /// Deletes the attack effect at table index `i`, its owned trigger
    /// handle first.
    pub fn delete_aoe_at(&mut self, i: usize)
        requires
            old(self).wf(),
            i < old(self).spitter_aoes@.len(),
        ensures
            final(self).wf(),
            final(self).spitter_aoes@ == old(self).spitter_aoes@.remove(i as int),
            !final(self).has_trigger(old(self).spitter_aoes@[i as int].trigger_id),
            exists|j: int|
                0 <= j < old(self).triggers@.len() && old(self).triggers@[j].id == old(self).spitter_aoes@[i as int].trigger_id && final(self).triggers@ == old(self).triggers@.remove(j),
            final(self).players@ == old(self).players@,
            final(self).zombies@ == old(self).zombies@,
            final(self).spitter_zombies@ == old(self).spitter_zombies@,
            final(self).nav_agents@ == old(self).nav_agents@,
            final(self).spawn_points@ == old(self).spawn_points@,
            final(self).jobs@ == old(self).jobs@,
            final(self).next_id == old(self).next_id,
    {
        let trigger_id = self.spitter_aoes[i].trigger_id;
        let j = match self.find_trigger_index(trigger_id) {
            Some(j) => j,
            None => {
                proof {
                    assert(self.has_trigger(trigger_id));
                }
                unreached()
            },
        };
        self.triggers.remove(j);
        self.spitter_aoes.remove(i);
        proof {
            lemma_trigger_link_remove(*old(self), *final(self), i as int, j as int);
            lemma_links_stable_navs(*old(self), *final(self));
            assert forall|id: u64| final(self).has_trigger(id) implies old(self).has_trigger(id)
                && id != trigger_id by {
                let k = choose|k: int|
                    0 <= k < final(self).triggers@.len() && final(self).triggers@[k].id == id;
                if k < j {
                    assert(old(self).triggers@[k].id == id);
                } else {
                    assert(old(self).triggers@[k + 1].id == id);
                }
            }
        }
    }

    /// Deletes every melee agent, each together with its navigation
    /// handle.
    pub fn clear_zombies(&mut self)
        requires
            old(self).wf(),
        ensures
            final(self).wf(),
            final(self).zombies@.len() == 0,
            final(self).players@ == old(self).players@,
            final(self).spitter_zombies@ == old(self).spitter_zombies@,
            final(self).spitter_aoes@ == old(self).spitter_aoes@,
            final(self).triggers@ == old(self).triggers@,
            final(self).spawn_points@ == old(self).spawn_points@,
            final(self).jobs@ == old(self).jobs@,
            final(self).next_id == old(self).next_id,
    {
        while self.zombies.len() > 0
            invariant
                self.wf(),
                self.players@ == old(self).players@,
                self.spitter_zombies@ == old(self).spitter_zombies@,
                self.spitter_aoes@ == old(self).spitter_aoes@,
                self.triggers@ == old(self).triggers@,
                self.spawn_points@ == old(self).spawn_points@,
                self.jobs@ == old(self).jobs@,
                self.next_id == old(self).next_id,
            decreases self.zombies@.len(),
        {
            let last = self.zombies.len() - 1;
            self.delete_zombie_at(last);
        }
    }

    /// Deletes every ranged agent, each together with its navigation
    /// handle.
    pub fn clear_spitter_zombies(&mut self)
        requires
            old(self).wf(),
        ensures
            final(self).wf(),
            final(self).spitter_zombies@.len() == 0,
            final(self).players@ == old(self).players@,
            final(self).zombies@ == old(self).zombies@,
            final(self).spitter_aoes@ == old(self).spitter_aoes@,
            final(self).triggers@ == old(self).triggers@,
            final(self).spawn_points@ == old(self).spawn_points@,
            final(self).jobs@ == old(self).jobs@,
            final(self).next_id == old(self).next_id,
    {
        while self.spitter_zombies.len() > 0
            invariant
                self.wf(),
                self.players@ == old(self).players@,
                self.zombies@ == old(self).zombies@,
                self.spitter_aoes@ == old(self).spitter_aoes@,
                self.triggers@ == old(self).triggers@,
                self.spawn_points@ == old(self).spawn_points@,
                self.jobs@ == old(self).jobs@,
                self.next_id == old(self).next_id,
            decreases self.spitter_zombies@.len(),
        {
            let last = self.spitter_zombies.len() - 1;
            self.delete_spitter_zombie_at(last);
        }
    }

    /// Deletes every attack effect, each together with its trigger
    /// handle.
    pub fn clear_aoes(&mut self)
        requires
            old(self).wf(),
        ensures
            final(self).wf(),
            final(self).spitter_aoes@.len() == 0,
            final(self).players@ == old(self).players@,
            final(self).zombies@ == old(self).zombies@,
            final(self).spitter_zombies@ == old(self).spitter_zombies@,
            final(self).nav_agents@ == old(self).nav_agents@,
            final(self).spawn_points@ == old(self).spawn_points@,
            final(self).jobs@ == old(self).jobs@,
            final(self).next_id == old(self).next_id,
    {
        while self.spitter_aoes.len() > 0
            invariant
                self.wf(),
                self.players@ == old(self).players@,
                self.zombies@ == old(self).zombies@,
                self.spitter_zombies@ == old(self).spitter_zombies@,
                self.nav_agents@ == old(self).nav_agents@,
                self.spawn_points@ == old(self).spawn_points@,
                self.jobs@ == old(self).jobs@,
                self.next_id == old(self).next_id,
            decreases self.spitter_aoes@.len(),
        {
            let last = self.spitter_aoes.len() - 1;
            self.delete_aoe_at(last);
        }
    }

    /// Session boundary on disconnection: deletes the player, and if it
    /// was the last one, purges the whole population, so no agent,
    /// attack effect or handle survives an unobserved world.
    pub fn on_disconnect(&mut self, identity: u64)
        requires
            old(self).wf(),
        ensures
            final(self).wf(),
            !final(self).has_player_identity(identity),
            final(self).players@.len() == if old(self).has_player_identity(identity) {
                old(self).players@.len() - 1
            } else {
                old(self).players@.len() as int
            },
            final(self).players@.len() == 0 ==> final(self).zombies@.len() == 0
                && final(self).spitter_zombies@.len() == 0
                && final(self).spitter_aoes@.len() == 0
                && final(self).nav_agents@.len() == 0
                && final(self).triggers@.len() == 0,
            final(self).players@.len() > 0 ==> final(self).zombies@ == old(self).zombies@
                && final(self).spitter_zombies@ == old(self).spitter_zombies@
                && final(self).spitter_aoes@ == old(self).spitter_aoes@
                && final(self).nav_agents@ == old(self).nav_agents@
                && final(self).triggers@ == old(self).triggers@,
            final(self).spawn_points@ == old(self).spawn_points@,
            final(self).jobs@ == old(self).jobs@,
            forall|k: int|
                0 <= k < final(self).players@.len() ==> old(self).players@.contains(
                    #[trigger] final(self).players@[k],
                ),
    {
        match self.find_player_index_by_identity(identity) {
            None => {
                proof {
                    assert forall|k: int| 0 <= k < self.players@.len() implies old(
                        self,
                    ).players@.contains(#[trigger] self.players@[k]) by {
                        assert(old(self).players@[k] == self.players@[k]);
                    }
                }
            },
            Some(i) => {
                self.players.remove(i);
                proof {
                    lemma_links_stable_navs(*old(self), *self);
                    lemma_links_stable_triggers(*old(self), *self);
                    assert forall|k: int| 0 <= k < self.players@.len() implies old(self).players@.contains(#[trigger] self.players@[k]) by {
                        if k < i {
                            assert(old(self).players@[k] == self.players@[k]);
                        } else {
                            assert(old(self).players@[k + 1] == self.players@[k]);
                        }
                    }
                    assert forall|k: int| 0 <= k < self.players@.len() implies self.players@[
                        k
                    ].identity != identity by {
                        if k < i {
                            assert(old(self).players@[k].identity != old(self).players@[i as int].identity);
                        } else {
                            assert(old(self).players@[k + 1].identity != old(self).players@[i as int].identity);
                        }
                    }
                }
            },
        }
        if self.players.len() == 0 {
            self.clear_zombies();
            self.clear_spitter_zombies();
            self.clear_aoes();
            proof {
                if self.nav_agents@.len() > 0 {
                    assert(self.nav_owned(self.nav_agents@[0].id));
                    assert(false);
                }
                if self.triggers@.len() > 0 {
                    assert(self.trigger_owned(self.triggers@[0].id));
                    assert(false);
                }
            }
        }
    }
}

/// Removing an agent together with the one navigation handle it owns
/// keeps the two stores linked in both directions. Exclusive ownership
/// (no two agents share a handle) is what makes this sound.
pub proof fn lemma_nav_link_remove(
    pre: WorldState,
    post: WorldState,
    zi: int,
    nj: int,
    melee: bool,
)
    requires
        pre.wf(),
        0 <= nj < pre.nav_agents@.len(),
        post.nav_agents@ == pre.nav_agents@.remove(nj),
        melee ==> 0 <= zi < pre.zombies@.len() && pre.nav_agents@[nj].id
            == pre.zombies@[zi].navigation_agent_id && post.zombies@ == pre.zombies@.remove(zi)
            && post.spitter_zombies@ == pre.spitter_zombies@,
        !melee ==> 0 <= zi < pre.spitter_zombies@.len() && pre.nav_agents@[nj].id
            == pre.spitter_zombies@[zi].navigation_agent_id && post.spitter_zombies@
            == pre.spitter_zombies@.remove(zi) && post.zombies@ == pre.zombies@,
    ensures
        post.nav_link(),
{
    let removed_id = pre.nav_agents@[nj].id;
    assert forall|i: int| 0 <= i < post.zombies@.len() implies post.has_nav(
        (#[trigger] post.zombies@[i]).navigation_agent_id,
    ) by {
        let pi: int = if melee && i >= zi {
            i + 1
        } else {
            i
        };
        assert(post.zombies@[i] == pre.zombies@[pi]);
        assert(pre.has_nav(pre.zombies@[pi].navigation_agent_id));
        let m = choose|m: int|
            0 <= m < pre.nav_agents@.len() && pre.nav_agents@[m].id
                == pre.zombies@[pi].navigation_agent_id;
        assert(m != nj);
        let m2: int = if m < nj {
            m
        } else {
            m - 1
        };
        assert(post.nav_agents@[m2].id == post.zombies@[i].navigation_agent_id);
    }
    assert forall|i: int| 0 <= i < post.spitter_zombies@.len() implies post.has_nav(
        (#[trigger] post.spitter_zombies@[i]).navigation_agent_id,
    ) by {
        let pi: int = if !melee && i >= zi {
            i + 1
        } else {
            i
        };
        assert(post.spitter_zombies@[i] == pre.spitter_zombies@[pi]);
        assert(pre.has_nav(pre.spitter_zombies@[pi].navigation_agent_id));
        let m = choose|m: int|
            0 <= m < pre.nav_agents@.len() && pre.nav_agents@[m].id
                == pre.spitter_zombies@[pi].navigation_agent_id;
        assert(m != nj);
        let m2: int = if m < nj {
            m
        } else {
            m - 1
        };
        assert(post.nav_agents@[m2].id == post.spitter_zombies@[i].navigation_agent_id);
    }
    assert forall|m: int| 0 <= m < post.nav_agents@.len() implies post.nav_owned(
        (#[trigger] post.nav_agents@[m]).id,
    ) by {
        let pm: int = if m < nj {
            m
        } else {
            m + 1
        };
        assert(post.nav_agents@[m] == pre.nav_agents@[pm]);
        assert(pre.nav_agents@[pm].id != removed_id);
        assert(pre.nav_owned(pre.nav_agents@[pm].id));
        if exists|k: int|
            0 <= k < pre.zombies@.len() && pre.zombies@[k].navigation_agent_id
                == pre.nav_agents@[pm].id {
            let k = choose|k: int|
                0 <= k < pre.zombies@.len() && pre.zombies@[k].navigation_agent_id
                    == pre.nav_agents@[pm].id;
            if melee {
                assert(k != zi);
                let k2: int = if k < zi {
                    k
                } else {
                    k - 1
                };
                assert(post.zombies@[k2].navigation_agent_id == post.nav_agents@[m].id);
            } else {
                assert(post.zombies@[k].navigation_agent_id == post.nav_agents@[m].id);
            }
        } else {
            let k = choose|k: int|
                0 <= k < pre.spitter_zombies@.len() && pre.spitter_zombies@[k].navigation_agent_id
                    == pre.nav_agents@[pm].id;
            if !melee {
                assert(k != zi);
                let k2: int = if k < zi {
                    k
                } else {
                    k - 1
                };
                assert(post.spitter_zombies@[k2].navigation_agent_id == post.nav_agents@[m].id);
            } else {
                assert(post.spitter_zombies@[k].navigation_agent_id == post.nav_agents@[m].id);
            }
        }
    }
}

/// Removing an attack effect together with the one trigger handle it
/// owns keeps the two stores linked in both directions.
pub proof fn lemma_trigger_link_remove(pre: WorldState, post: WorldState, ai: int, tj: int)
    requires
        pre.wf(),
        0 <= ai < pre.spitter_aoes@.len(),
        0 <= tj < pre.triggers@.len(),
        pre.triggers@[tj].id == pre.spitter_aoes@[ai].trigger_id,
        post.spitter_aoes@ == pre.spitter_aoes@.remove(ai),
        post.triggers@ == pre.triggers@.remove(tj),
    ensures
        post.trigger_link(),
{
    let removed_id = pre.triggers@[tj].id;
    assert forall|i: int| 0 <= i < post.spitter_aoes@.len() implies post.has_trigger(
        (#[trigger] post.spitter_aoes@[i]).trigger_id,
    ) by {
        let pi: int = if i >= ai {
            i + 1
        } else {
            i
        };
        assert(post.spitter_aoes@[i] == pre.spitter_aoes@[pi]);
        assert(pre.has_trigger(pre.spitter_aoes@[pi].trigger_id));
        let m = choose|m: int|
            0 <= m < pre.triggers@.len() && pre.triggers@[m].id
                == pre.spitter_aoes@[pi].trigger_id;
        assert(m != tj);
        let m2: int = if m < tj {
            m
        } else {
            m - 1
        };
        assert(post.triggers@[m2].id == post.spitter_aoes@[i].trigger_id);
    }
    assert forall|m: int| 0 <= m < post.triggers@.len() implies post.trigger_owned(
        (#[trigger] post.triggers@[m]).id,
    ) by {
        let pm: int = if m < tj {
            m
        } else {
            m + 1
        };
        assert(post.triggers@[m] == pre.triggers@[pm]);
        assert(pre.triggers@[pm].id != removed_id);
        assert(pre.trigger_owned(pre.triggers@[pm].id));
        let k = choose|k: int|
            0 <= k < pre.spitter_aoes@.len() && pre.spitter_aoes@[k].trigger_id
                == pre.triggers@[pm].id;
        assert(k != ai);
        let k2: int = if k < ai {
            k
        } else {
            k - 1
        };
        assert(post.spitter_aoes@[k2].trigger_id == post.triggers@[m].id);
    }
}

} // verus!

