//! The periodic jobs: world step, per-archetype AI step, spawn step and
//! effect-expiry step.
//!
//! Each handler is a function from the stored state and the values the
//! host supplies (the current time, random draws, the navigation
//! solver's per-handle results) to the next state; the host only fires
//! them at their fixed intervals.

use vstd::prelude::*;
use crate::math::Vec3;
use crate::entities::{
    Agent, Archetype, NavAgent, NavState, TickKind, AGENT_CAP, SPITTER_COOLDOWN_MICROS,
    SPITTER_SPAWN_ONE_IN,
};
use crate::world::{fresh_agent, fresh_nav, seq_find_nav, WorldState};
use crate::actions::{action_ctx, ActionCtx};
use crate::behavior::{
    count_actions, eval_node, is_standard_tree, lemma_standard_tree_count, spec_eval, BehaviorNode,
};

verus! {

/// One navigation handle's result of a solver step: the advanced
/// position and the reported movement state.
#[derive(Clone, Copy, PartialEq, Eq, Structural, Debug)]
pub struct NavUpdate {
    pub id: u64,
    pub position: Vec3,
    pub state: NavState,
}

/// One solver result applied to the handle store: the matching handle
/// takes the new position and state, everything else is untouched.
pub open spec fn apply_one_update(navs: Seq<NavAgent>, u: NavUpdate) -> Seq<NavAgent> {
    navs.map_values(
        |x: NavAgent|
            if x.id == u.id {
                NavAgent { position: u.position, state: u.state, ..x }
            } else {
                x
            },
    )
}

/// Solver results from index `i` on, applied in order.
pub open spec fn apply_updates(navs: Seq<NavAgent>, ups: Seq<NavUpdate>, i: int) -> Seq<NavAgent>
    decreases ups.len() - i,
{
    if i < 0 || i >= ups.len() {
        navs
    } else {
        apply_updates(apply_one_update(navs, ups[i]), ups, i + 1)
    }
}

impl WorldState {
    /// Population controller: a no-op when the population is at the cap,
    /// no player is connected or no spawn point exists; otherwise it
    /// creates one agent at the spawn point picked by `rand_point`
    /// modulo the point count — ranged exactly when `rand_kind` modulo
    /// `SPITTER_SPAWN_ONE_IN` is zero (probability one tenth under a
    /// uniform draw), melee otherwise. It never removes agents and
    /// never grows the population past the cap.
    pub fn spawn_zombies(&mut self, now: u64, rand_point: u64, rand_kind: u64)
        requires
            old(self).wf(),
            old(self).can_alloc(2),
        ensures
            final(self).wf(),
            old(self).spec_agent_count() >= AGENT_CAP || old(self).players@.len() == 0 || old(self).spawn_points@.len() == 0 ==> *final(self) == *old(self),
            final(self).spec_agent_count() <= old(self).spec_agent_count() + 1,
            ({
                let blocked = old(self).spec_agent_count() >= AGENT_CAP || old(self).players@.len() == 0 || old(self).spawn_points@.len() == 0;
                let sp = old(self).spawn_points@[rand_point as int % old(self).spawn_points@.len() as int];
                let ranged = rand_kind % SPITTER_SPAWN_ONE_IN == 0;
                &&& (!blocked && ranged) ==> final(self).spitter_zombies@ == old(self).spitter_zombies@.push(
                    fresh_agent(
                        (old(self).next_id + 1) as u64,
                        old(self).next_id,
                        sp.position,
                        0,
                    ),
                ) && final(self).zombies@ == old(self).zombies@ && final(self).nav_agents@ == old(self).nav_agents@.push(fresh_nav(old(self).next_id, sp.position))
                &&& (!blocked && !ranged) ==> final(self).zombies@ == old(self).zombies@.push(
                    fresh_agent(
                        (old(self).next_id + 1) as u64,
                        old(self).next_id,
                        sp.position,
                        now,
                    ),
                ) && final(self).spitter_zombies@ == old(self).spitter_zombies@ && final(self).nav_agents@ == old(self).nav_agents@.push(
                    fresh_nav(old(self).next_id, sp.position),
                )
                &&& !blocked ==> final(self).next_id == old(self).next_id + 2
            }),
            final(self).players@ == old(self).players@,
            final(self).spitter_aoes@ == old(self).spitter_aoes@,
            final(self).triggers@ == old(self).triggers@,
            final(self).spawn_points@ == old(self).spawn_points@,
            final(self).jobs@ == old(self).jobs@,
    {
        let total: u128 = self.zombies.len() as u128 + self.spitter_zombies.len() as u128;
        if total >= AGENT_CAP as u128 || self.players.len() == 0 {
            return ;
        }
        let point_count = self.spawn_points.len();
        if point_count == 0 {
            return ;
        }
        let idx = (rand_point % (point_count as u64)) as usize;
        let position = self.spawn_points[idx].position;
        if rand_kind % SPITTER_SPAWN_ONE_IN == 0 {
            self.create_spitter_zombie(position);
        } else {
            self.create_zombie(position, now);
        }
    }

    /// Index of the attack effect with this id, if any.
    pub fn find_aoe_index(&self, id: u64) -> (r: Option<usize>)
        ensures
            match r {
                Some(i) => i < self.spitter_aoes@.len() && self.spitter_aoes@[i as int].id == id,
                None => forall|k: int|
                    0 <= k < self.spitter_aoes@.len() ==> self.spitter_aoes@[k].id != id,
            },
    {
        let n = self.spitter_aoes.len();
        let mut i: usize = 0;
        while i < n
            invariant
                n == self.spitter_aoes@.len(),
                0 <= i <= n,
                forall|k: int| 0 <= k < i ==> self.spitter_aoes@[k].id != id,
            decreases n - i,
        {
            if self.spitter_aoes[i].id == id {
                return Some(i);
            }
            i += 1;
        }
        None
    }

    /// Effect-expiry step of one attack effect: once `now` has reached
    /// its expiry, the effect deletes itself, trigger handle first. A
    /// vanished effect or one not yet expired is left alone.
    pub fn tick_spitter_aoe(&mut self, aoe_id: u64, now: u64)
        requires
            old(self).wf(),
        ensures
            final(self).wf(),
            ({
                let expired = exists|i: int|
                    0 <= i < old(self).spitter_aoes@.len() && old(self).spitter_aoes@[i].id
                        == aoe_id && old(self).spitter_aoes@[i].delete_at <= now;
                &&& !expired ==> *final(self) == *old(self)
                &&& expired ==> exists|i: int, j: int|
                    {
                        &&& 0 <= i < old(self).spitter_aoes@.len()
                        &&& old(self).spitter_aoes@[i].id == aoe_id
                        &&& 0 <= j < old(self).triggers@.len()
                        &&& old(self).triggers@[j].id == old(self).spitter_aoes@[i].trigger_id
                        &&& final(self).spitter_aoes@ == old(self).spitter_aoes@.remove(i)
                        &&& final(self).triggers@ == old(self).triggers@.remove(j)
                    }
            }),
            final(self).players@ == old(self).players@,
            final(self).zombies@ == old(self).zombies@,
            final(self).spitter_zombies@ == old(self).spitter_zombies@,
            final(self).nav_agents@ == old(self).nav_agents@,
            final(self).spawn_points@ == old(self).spawn_points@,
            final(self).jobs@ == old(self).jobs@,
            final(self).next_id == old(self).next_id,
    {
        match self.find_aoe_index(aoe_id) {
            None => {},
            Some(i) => {
                if self.spitter_aoes[i].delete_at <= now {
                    self.delete_aoe_at(i);
                    proof {
                        assert forall|k: int|
                            0 <= k < old(self).spitter_aoes@.len() && k != i as int implies old(self).spitter_aoes@[k].id != aoe_id by {
                            if k < i as int {
                                assert(old(self).spitter_aoes@[k].id != old(self).spitter_aoes@[i as int].id);
                            } else {
                                assert(old(self).spitter_aoes@[i as int].id != old(self).spitter_aoes@[k].id);
                            }
                        }
                    }
                }
            },
        }
    }

    /// World initialization: registers the four periodic jobs (each
    /// idempotently, so re-running never duplicates one) and, on first
    /// run, creates the static spawn points.
    #[verifier::rlimit(100)]
    pub fn init(&mut self)
        requires
            old(self).wf(),
            old(self).can_alloc(8),
        ensures
            final(self).wf(),
            final(self).has_job(TickKind::WorldStep),
            final(self).has_job(TickKind::ZombieUpdate),
            final(self).has_job(TickKind::SpitterZombieUpdate),
            final(self).has_job(TickKind::ZombieSpawn),
            old(self).spawn_points@.len() == 0 ==> final(self).spawn_points@.map_values(
                |p: crate::entities::ZombieSpawnPoint| p.position,
            ) == seq![
                (Vec3 { x: 0i64, y: 0i64, z: -50_000i64 }),
                (Vec3 { x: -16_000i64, y: 0i64, z: 0i64 }),
                (Vec3 { x: 44_000i64, y: 0i64, z: 2_000i64 }),
                (Vec3 { x: 0i64, y: 0i64, z: 40_000i64 }),
            ],
            old(self).spawn_points@.len() > 0 ==> final(self).spawn_points@ == old(self).spawn_points@,
            final(self).players@ == old(self).players@,
            final(self).zombies@ == old(self).zombies@,
            final(self).spitter_zombies@ == old(self).spitter_zombies@,
            final(self).spitter_aoes@ == old(self).spitter_aoes@,
            final(self).nav_agents@ == old(self).nav_agents@,
            final(self).triggers@ == old(self).triggers@,
    {
        self.schedule(TickKind::ZombieUpdate);
        self.schedule(TickKind::SpitterZombieUpdate);
        self.schedule(TickKind::ZombieSpawn);
        self.schedule(TickKind::WorldStep);
        if self.spawn_points.len() == 0 {
            self.create_spawn_point(Vec3::new(0, 0, -50_000));
            self.create_spawn_point(Vec3::new(-16_000, 0, 0));
            self.create_spawn_point(Vec3::new(44_000, 0, 2_000));
            self.create_spawn_point(Vec3::new(0, 0, 40_000));
            proof {
                assert(final(self).spawn_points@.map_values(
                    |p: crate::entities::ZombieSpawnPoint| p.position,
                ) =~= seq![
                    (Vec3 { x: 0i64, y: 0i64, z: -50_000i64 }),
                    (Vec3 { x: -16_000i64, y: 0i64, z: 0i64 }),
                    (Vec3 { x: 44_000i64, y: 0i64, z: 2_000i64 }),
                    (Vec3 { x: 0i64, y: 0i64, z: 40_000i64 }),
                ]);
            }
        }
    }
}

/// A navigation handle's written-back value: the handle whose id matches
/// takes the new value, everything else is untouched.
pub open spec fn put_nav(navs: Seq<NavAgent>, nv: NavAgent) -> Seq<NavAgent> {
    navs.map_values(
        |x: NavAgent|
            if x.id == nv.id {
                nv
            } else {
                x
            },
    )
}

/// State of the stores an AI step runs over, after some agents of the
/// table have been stepped.
#[verifier::ext_equal]
pub struct StepOutcome {
    pub agents: Seq<Agent>,
    pub navs: Seq<NavAgent>,
    pub aoes: Seq<crate::entities::SpitterAoE>,
    pub triggers: Seq<crate::entities::TriggerHandle>,
    pub next_id: u64,
}

/// One agent's AI step: evaluate the tree once against the agent and
/// its navigation handle, then write both back. An agent whose handle
/// is missing (impossible in a well-formed store) is skipped.
pub open spec fn spec_tick_one(
    agents: Seq<Agent>,
    navs: Seq<NavAgent>,
    players: Seq<crate::entities::Player>,
    aoes: Seq<crate::entities::SpitterAoE>,
    trigs: Seq<crate::entities::TriggerHandle>,
    next_id: u64,
    arch: Archetype,
    tree: BehaviorNode,
    now: u64,
    rand: u64,
    i: int,
) -> StepOutcome {
    let a = agents[i];
    match seq_find_nav(navs, a.navigation_agent_id) {
        None => StepOutcome { agents, navs, aoes, triggers: trigs, next_id },
        Some(n) => {
            let o = spec_eval(
                tree,
                arch,
                ActionCtx { agent: a, nav: n, players, aoes, triggers: trigs, next_id },
                now,
                rand,
            );
            StepOutcome {
                agents: agents.update(i, o.c.agent),
                navs: put_nav(navs, o.c.nav),
                aoes: o.c.aoes,
                triggers: o.c.triggers,
                next_id: o.c.next_id,
            }
        },
    }
}

/// The whole table's AI step, one agent at a time from index `i` on,
/// each agent seeing the effects of the agents before it.
pub open spec fn spec_tick_all(
    agents: Seq<Agent>,
    navs: Seq<NavAgent>,
    players: Seq<crate::entities::Player>,
    aoes: Seq<crate::entities::SpitterAoE>,
    trigs: Seq<crate::entities::TriggerHandle>,
    next_id: u64,
    arch: Archetype,
    tree: BehaviorNode,
    now: u64,
    rands: Seq<u64>,
    i: int,
) -> StepOutcome
    decreases agents.len() - i,
{
    if i < 0 || i >= agents.len() {
        StepOutcome { agents, navs, aoes, triggers: trigs, next_id }
    } else {
        let s = spec_tick_one(agents, navs, players, aoes, trigs, next_id, arch, tree, now, rands[i], i);
        spec_tick_all(
            s.agents,
            s.navs,
            players,
            s.aoes,
            s.triggers,
            s.next_id,
            arch,
            tree,
            now,
            rands,
            i + 1,
        )
    }
}

/// The agent/navigation link depends only on the identities involved,
/// not on the other fields of the records.
pub proof fn lemma_nav_link_same_ids(pre: WorldState, post: WorldState)
    requires
        post.zombies@.len() == pre.zombies@.len(),
        forall|k: int|
            0 <= k < pre.zombies@.len() ==> (#[trigger] post.zombies@[k]).navigation_agent_id
                == pre.zombies@[k].navigation_agent_id,
        post.spitter_zombies@.len() == pre.spitter_zombies@.len(),
        forall|k: int|
            0 <= k < pre.spitter_zombies@.len()
                ==> (#[trigger] post.spitter_zombies@[k]).navigation_agent_id
                == pre.spitter_zombies@[k].navigation_agent_id,
        post.nav_agents@.len() == pre.nav_agents@.len(),
        forall|k: int|
            0 <= k < pre.nav_agents@.len() ==> (#[trigger] post.nav_agents@[k]).id
                == pre.nav_agents@[k].id,
        pre.nav_link(),
    ensures
        post.nav_link(),
{
    assert forall|i: int| 0 <= i < post.zombies@.len() implies post.has_nav(
        (#[trigger] post.zombies@[i]).navigation_agent_id,
    ) by {
        assert(pre.has_nav(pre.zombies@[i].navigation_agent_id));
        let k = choose|k: int|
            0 <= k < pre.nav_agents@.len() && pre.nav_agents@[k].id
                == pre.zombies@[i].navigation_agent_id;
        assert(post.nav_agents@[k].id == post.zombies@[i].navigation_agent_id);
    }
    assert forall|i: int| 0 <= i < post.spitter_zombies@.len() implies post.has_nav(
        (#[trigger] post.spitter_zombies@[i]).navigation_agent_id,
    ) by {
        assert(pre.has_nav(pre.spitter_zombies@[i].navigation_agent_id));
        let k = choose|k: int|
            0 <= k < pre.nav_agents@.len() && pre.nav_agents@[k].id
                == pre.spitter_zombies@[i].navigation_agent_id;
        assert(post.nav_agents@[k].id == post.spitter_zombies@[i].navigation_agent_id);
    }
    assert forall|i: int| 0 <= i < post.nav_agents@.len() implies post.nav_owned(
        (#[trigger] post.nav_agents@[i]).id,
    ) by {
        assert(pre.nav_owned(pre.nav_agents@[i].id));
        if exists|k: int|
            0 <= k < pre.zombies@.len() && pre.zombies@[k].navigation_agent_id
                == pre.nav_agents@[i].id {
            let k = choose|k: int|
                0 <= k < pre.zombies@.len() && pre.zombies@[k].navigation_agent_id
                    == pre.nav_agents@[i].id;
            assert(post.zombies@[k].navigation_agent_id == post.nav_agents@[i].id);
        } else {
            let k = choose|k: int|
                0 <= k < pre.spitter_zombies@.len() && pre.spitter_zombies@[k].navigation_agent_id
                    == pre.nav_agents@[i].id;
            assert(post.spitter_zombies@[k].navigation_agent_id == post.nav_agents@[i].id);
        }
    }
}

impl WorldState {
    /// The agent table of the archetype.
    pub open spec fn table_of(self, arch: Archetype) -> Seq<Agent> {
        if arch == Archetype::Zombie {
            self.zombies@
        } else {
            self.spitter_zombies@
        }
    }

    /// One agent's AI step: evaluates the tree once against the agent at
    /// table index `i` and its navigation handle, committing every side
    /// effect, then writes the agent and the handle back.
    pub fn tick_agent_at(
        &mut self,
        arch: Archetype,
        i: usize,
        tree: &BehaviorNode,
        now: u64,
        rand: u64,
    )
        requires
            old(self).wf(),
            now + SPITTER_COOLDOWN_MICROS <= u64::MAX,
            old(self).next_id + 2 * count_actions(*tree) <= u64::MAX,
            i < old(self).table_of(arch).len(),
        ensures
            final(self).wf(),
            ({
                let s = spec_tick_one(
                    old(self).table_of(arch),
                    old(self).nav_agents@,
                    old(self).players@,
                    old(self).spitter_aoes@,
                    old(self).triggers@,
                    old(self).next_id,
                    arch,
                    *tree,
                    now,
                    rand,
                    i as int,
                );
                &&& final(self).table_of(arch) == s.agents
                &&& final(self).nav_agents@ == s.navs
                &&& final(self).spitter_aoes@ == s.aoes
                &&& final(self).triggers@ == s.triggers
                &&& final(self).next_id == s.next_id
            }),
            arch == Archetype::Zombie ==> final(self).spitter_zombies@ == old(
                self,
            ).spitter_zombies@,
            arch == Archetype::SpitterZombie ==> final(self).zombies@ == old(self).zombies@,
            final(self).players@ == old(self).players@,
            final(self).spawn_points@ == old(self).spawn_points@,
            final(self).jobs@ == old(self).jobs@,
            old(self).next_id <= final(self).next_id <= old(self).next_id + 2 * count_actions(
                *tree,
            ),
            final(self).table_of(arch).len() == old(self).table_of(arch).len(),
    {
        let a = match arch {
            Archetype::Zombie => self.zombies[i],
            Archetype::SpitterZombie => self.spitter_zombies[i],
        };
        let j = match self.find_nav_index(a.navigation_agent_id) {
            Some(j) => j,
            None => {
                proof {
                    assert(self.has_nav(a.navigation_agent_id));
                }
                unreached()
            },
        };
        proof {
            assert forall|k: int| 0 <= k < j implies self.nav_agents@[k].id
                != a.navigation_agent_id by {
                assert(self.nav_agents@[k].id != self.nav_agents@[j as int].id);
            }
            crate::world::lemma_seq_find_nav_at(self.nav_agents@, a.navigation_agent_id, j as int);
        }
        let mut nv = self.nav_agents[j];
        let mut ag = a;
        let ghost pre = *self;
        eval_node(tree, arch, &mut ag, &mut nv, self, now, rand);
        let ghost mid = *self;
        self.nav_agents[j] = nv;
        match arch {
            Archetype::Zombie => {
                self.zombies[i] = ag;
            },
            Archetype::SpitterZombie => {
                self.spitter_zombies[i] = ag;
            },
        }
        proof {
            assert forall|k: int| 0 <= k < pre.nav_agents@.len() && k != j implies pre.nav_agents@[
                k
            ].id != nv.id by {
                if k < j {
                    assert(pre.nav_agents@[k].id != pre.nav_agents@[j as int].id);
                } else {
                    assert(pre.nav_agents@[j as int].id != pre.nav_agents@[k].id);
                }
            }
            assert(self.nav_agents@ =~= put_nav(pre.nav_agents@, nv));
            lemma_nav_link_same_ids(mid, *self);
            crate::world::lemma_links_stable_triggers(mid, *self);
            assert(action_ctx(ag, nv, mid) == spec_eval(
                *tree,
                arch,
                ActionCtx {
                    agent: a,
                    nav: pre.nav_agents@[j as int],
                    players: pre.players@,
                    aoes: pre.spitter_aoes@,
                    triggers: pre.triggers@,
                    next_id: pre.next_id,
                },
                now,
                rand,
            ).c) by {
                assert(action_ctx(a, pre.nav_agents@[j as int], pre) =~= (ActionCtx {
                    agent: a,
                    nav: pre.nav_agents@[j as int],
                    players: pre.players@,
                    aoes: pre.spitter_aoes@,
                    triggers: pre.triggers@,
                    next_id: pre.next_id,
                }));
            }
        }
    }

    /// One archetype table's whole AI step: every agent of the table is
    /// stepped once, in table order, each seeing the effects committed
    /// by the agents before it. `rands` supplies one random draw per
    /// agent.
    pub fn tick_agents(&mut self, arch: Archetype, tree: &BehaviorNode, now: u64, rands: &Vec<u64>)
        requires
            old(self).wf(),
            is_standard_tree(*tree),
            now + SPITTER_COOLDOWN_MICROS <= u64::MAX,
            rands@.len() >= old(self).table_of(arch).len(),
            old(self).next_id + 10 * old(self).table_of(arch).len() <= u64::MAX,
        ensures
            final(self).wf(),
            ({
                let s = spec_tick_all(
                    old(self).table_of(arch),
                    old(self).nav_agents@,
                    old(self).players@,
                    old(self).spitter_aoes@,
                    old(self).triggers@,
                    old(self).next_id,
                    arch,
                    *tree,
                    now,
                    rands@,
                    0,
                );
                &&& final(self).table_of(arch) == s.agents
                &&& final(self).nav_agents@ == s.navs
                &&& final(self).spitter_aoes@ == s.aoes
                &&& final(self).triggers@ == s.triggers
                &&& final(self).next_id == s.next_id
            }),
            arch == Archetype::Zombie ==> final(self).spitter_zombies@ == old(
                self,
            ).spitter_zombies@,
            arch == Archetype::SpitterZombie ==> final(self).zombies@ == old(self).zombies@,
            final(self).players@ == old(self).players@,
            final(self).spawn_points@ == old(self).spawn_points@,
            final(self).jobs@ == old(self).jobs@,
    {
        proof {
            lemma_standard_tree_count(*tree);
        }
        let n = match arch {
            Archetype::Zombie => self.zombies.len(),
            Archetype::SpitterZombie => self.spitter_zombies.len(),
        };
        let mut i: usize = 0;
        while i < n
            invariant
                self.wf(),
                n == self.table_of(arch).len(),
                0 <= i <= n,
                rands@.len() >= n,
                is_standard_tree(*tree),
                count_actions(*tree) == 5,
                now + SPITTER_COOLDOWN_MICROS <= u64::MAX,
                self.next_id + 10 * (n - i) <= u64::MAX,
                self.players@ == old(self).players@,
                arch == Archetype::Zombie ==> self.spitter_zombies@ == old(self).spitter_zombies@,
                arch == Archetype::SpitterZombie ==> self.zombies@ == old(self).zombies@,
                self.spawn_points@ == old(self).spawn_points@,
                self.jobs@ == old(self).jobs@,
                spec_tick_all(
                    old(self).table_of(arch),
                    old(self).nav_agents@,
                    old(self).players@,
                    old(self).spitter_aoes@,
                    old(self).triggers@,
                    old(self).next_id,
                    arch,
                    *tree,
                    now,
                    rands@,
                    0,
                ) == spec_tick_all(
                    self.table_of(arch),
                    self.nav_agents@,
                    self.players@,
                    self.spitter_aoes@,
                    self.triggers@,
                    self.next_id,
                    arch,
                    *tree,
                    now,
                    rands@,
                    i as int,
                ),
            decreases n - i,
        {
            let ghost prev = *self;
            self.tick_agent_at(arch, i, tree, now, rands[i]);
            proof {
                let s = spec_tick_one(
                    prev.table_of(arch),
                    prev.nav_agents@,
                    prev.players@,
                    prev.spitter_aoes@,
                    prev.triggers@,
                    prev.next_id,
                    arch,
                    *tree,
                    now,
                    rands@[i as int],
                    i as int,
                );
                assert(spec_tick_all(
                    prev.table_of(arch),
                    prev.nav_agents@,
                    prev.players@,
                    prev.spitter_aoes@,
                    prev.triggers@,
                    prev.next_id,
                    arch,
                    *tree,
                    now,
                    rands@,
                    i as int,
                ) == spec_tick_all(
                    s.agents,
                    s.navs,
                    prev.players@,
                    s.aoes,
                    s.triggers,
                    s.next_id,
                    arch,
                    *tree,
                    now,
                    rands@,
                    i as int + 1,
                ));
            }
            i += 1;
        }
    }

    /// AI step of the melee table.
    pub fn tick_zombie(&mut self, tree: &BehaviorNode, now: u64, rands: &Vec<u64>)
        requires
            old(self).wf(),
            is_standard_tree(*tree),
            now + SPITTER_COOLDOWN_MICROS <= u64::MAX,
            rands@.len() >= old(self).zombies@.len(),
            old(self).next_id + 10 * old(self).zombies@.len() <= u64::MAX,
        ensures
            final(self).wf(),
            ({
                let s = spec_tick_all(
                    old(self).zombies@,
                    old(self).nav_agents@,
                    old(self).players@,
                    old(self).spitter_aoes@,
                    old(self).triggers@,
                    old(self).next_id,
                    Archetype::Zombie,
                    *tree,
                    now,
                    rands@,
                    0,
                );
                &&& final(self).zombies@ == s.agents
                &&& final(self).nav_agents@ == s.navs
                &&& final(self).spitter_aoes@ == s.aoes
                &&& final(self).triggers@ == s.triggers
                &&& final(self).next_id == s.next_id
            }),
            final(self).spitter_zombies@ == old(self).spitter_zombies@,
            final(self).players@ == old(self).players@,
            final(self).spawn_points@ == old(self).spawn_points@,
            final(self).jobs@ == old(self).jobs@,
    {
        self.tick_agents(Archetype::Zombie, tree, now, rands);
    }

    /// AI step of the ranged table.
    pub fn tick_spitter_zombie(&mut self, tree: &BehaviorNode, now: u64, rands: &Vec<u64>)
        requires
            old(self).wf(),
            is_standard_tree(*tree),
            now + SPITTER_COOLDOWN_MICROS <= u64::MAX,
            rands@.len() >= old(self).spitter_zombies@.len(),
            old(self).next_id + 10 * old(self).spitter_zombies@.len() <= u64::MAX,
        ensures
            final(self).wf(),
            ({
                let s = spec_tick_all(
                    old(self).spitter_zombies@,
                    old(self).nav_agents@,
                    old(self).players@,
                    old(self).spitter_aoes@,
                    old(self).triggers@,
                    old(self).next_id,
                    Archetype::SpitterZombie,
                    *tree,
                    now,
                    rands@,
                    0,
                );
                &&& final(self).spitter_zombies@ == s.agents
                &&& final(self).nav_agents@ == s.navs
                &&& final(self).spitter_aoes@ == s.aoes
                &&& final(self).triggers@ == s.triggers
                &&& final(self).next_id == s.next_id
            }),
            final(self).zombies@ == old(self).zombies@,
            final(self).players@ == old(self).players@,
            final(self).spawn_points@ == old(self).spawn_points@,
            final(self).jobs@ == old(self).jobs@,
    {
        self.tick_agents(Archetype::SpitterZombie, tree, now, rands);
    }

    /// World step: applies the navigation solver's per-handle results in
    /// order, then copies every agent's refreshed position from its
    /// handle back into the agent record — for each archetype table
    /// independently. After the step, every agent's cached position
    /// equals its handle's reported position.
    pub fn tick_world(&mut self, updates: &Vec<NavUpdate>)
        requires
            old(self).wf(),
            forall|k: int|
                0 <= k < updates@.len() ==> (#[trigger] updates@[k]).position.in_bounds(),
        ensures
            final(self).wf(),
            final(self).nav_agents@ == apply_updates(old(self).nav_agents@, updates@, 0),
            final(self).zombies@.len() == old(self).zombies@.len(),
            final(self).spitter_zombies@.len() == old(self).spitter_zombies@.len(),
            forall|k: int|
                0 <= k < final(self).zombies@.len() ==> ({
                    let a = #[trigger] final(self).zombies@[k];
                    &&& seq_find_nav(final(self).nav_agents@, a.navigation_agent_id) matches Some(
                        n,
                    ) && a.position == n.position
                    &&& a == (Agent { position: a.position, ..old(self).zombies@[k] })
                }),
            forall|k: int|
                0 <= k < final(self).spitter_zombies@.len() ==> ({
                    let a = #[trigger] final(self).spitter_zombies@[k];
                    &&& seq_find_nav(final(self).nav_agents@, a.navigation_agent_id) matches Some(
                        n,
                    ) && a.position == n.position
                    &&& a == (Agent { position: a.position, ..old(self).spitter_zombies@[k] })
                }),
            final(self).players@ == old(self).players@,
            final(self).spitter_aoes@ == old(self).spitter_aoes@,
            final(self).triggers@ == old(self).triggers@,
            final(self).spawn_points@ == old(self).spawn_points@,
            final(self).jobs@ == old(self).jobs@,
            final(self).next_id == old(self).next_id,
    {
        let m = updates.len();
        let mut u: usize = 0;
        while u < m
            invariant
                self.wf(),
                m == updates@.len(),
                0 <= u <= m,
                forall|k: int|
                    0 <= k < updates@.len() ==> (#[trigger] updates@[k]).position.in_bounds(),
                apply_updates(old(self).nav_agents@, updates@, 0) == apply_updates(
                    self.nav_agents@,
                    updates@,
                    u as int,
                ),
                self.players@ == old(self).players@,
                self.zombies@ == old(self).zombies@,
                self.spitter_zombies@ == old(self).spitter_zombies@,
                self.spitter_aoes@ == old(self).spitter_aoes@,
                self.triggers@ == old(self).triggers@,
                self.spawn_points@ == old(self).spawn_points@,
                self.jobs@ == old(self).jobs@,
                self.next_id == old(self).next_id,
            decreases m - u,
        {
            let up = updates[u];
            let ghost prev = *self;
            match self.find_nav_index(up.id) {
                None => {
                    proof {
                        assert(apply_one_update(self.nav_agents@, up) =~= self.nav_agents@);
                    }
                },
                Some(j) => {
                    let n0 = self.nav_agents[j];
                    self.nav_agents[j] = NavAgent {
                        position: up.position,
                        state: up.state,
                        ..n0
                    };
                    proof {
                        assert forall|k: int|
                            0 <= k < prev.nav_agents@.len() && k != j implies prev.nav_agents@[
                            k
                        ].id != up.id by {
                            if k < j {
                                assert(prev.nav_agents@[k].id != prev.nav_agents@[j as int].id);
                            } else {
                                assert(prev.nav_agents@[j as int].id != prev.nav_agents@[k].id);
                            }
                        }
                        assert(self.nav_agents@ =~= apply_one_update(prev.nav_agents@, up));
                        lemma_nav_link_same_ids(prev, *self);
                        crate::world::lemma_links_stable_triggers(prev, *self);
                    }
                },
            }
            u += 1;
        }
        let zn = self.zombies.len();
        let mut i: usize = 0;
        while i < zn
            invariant
                self.wf(),
                zn == self.zombies@.len(),
                0 <= i <= zn,
                self.zombies@.len() == old(self).zombies@.len(),
                forall|k: int|
                    i <= k < self.zombies@.len() ==> #[trigger] self.zombies@[k] == old(
                        self,
                    ).zombies@[k],
                forall|k: int|
                    0 <= k < i ==> ({
                        let a = #[trigger] self.zombies@[k];
                        &&& seq_find_nav(self.nav_agents@, a.navigation_agent_id) matches Some(n)
                            && a.position == n.position
                        &&& a == (Agent { position: a.position, ..old(self).zombies@[k] })
                    }),
                self.players@ == old(self).players@,
                self.spitter_zombies@ == old(self).spitter_zombies@,
                self.spitter_aoes@ == old(self).spitter_aoes@,
                self.nav_agents@ == apply_updates(old(self).nav_agents@, updates@, 0),
                self.triggers@ == old(self).triggers@,
                self.spawn_points@ == old(self).spawn_points@,
                self.jobs@ == old(self).jobs@,
                self.next_id == old(self).next_id,
            decreases zn - i,
        {
            let a = self.zombies[i];
            let ghost prev = *self;
            match self.find_nav(a.navigation_agent_id) {
                None => {
                    proof {
                        assert(self.has_nav(self.zombies@[i as int].navigation_agent_id));
                        assert(false);
                    }
                },
                Some(nv) => {
                    proof {
                        let w = choose|w: int|
                            0 <= w < prev.nav_agents@.len() && prev.nav_agents@[w] == nv;
                        assert(prev.nav_agents@[w].position.in_bounds());
                    }
                    self.zombies[i] = Agent { position: nv.position, ..a };
                    proof {
                        lemma_nav_link_same_ids(prev, *self);
                        crate::world::lemma_links_stable_triggers(prev, *self);
                    }
                },
            }
            i += 1;
        }
        let sn = self.spitter_zombies.len();
        let mut i2: usize = 0;
        while i2 < sn
            invariant
                self.wf(),
                sn == self.spitter_zombies@.len(),
                0 <= i2 <= sn,
                self.spitter_zombies@.len() == old(self).spitter_zombies@.len(),
                forall|k: int|
                    i2 <= k < self.spitter_zombies@.len() ==> #[trigger] self.spitter_zombies@[k]
                        == old(self).spitter_zombies@[k],
                forall|k: int|
                    0 <= k < i2 ==> ({
                        let a = #[trigger] self.spitter_zombies@[k];
                        &&& seq_find_nav(self.nav_agents@, a.navigation_agent_id) matches Some(n)
                            && a.position == n.position
                        &&& a == (Agent { position: a.position, ..old(self).spitter_zombies@[k] })
                    }),
                forall|k: int|
                    0 <= k < self.zombies@.len() ==> ({
                        let a = #[trigger] self.zombies@[k];
                        &&& seq_find_nav(self.nav_agents@, a.navigation_agent_id) matches Some(n)
                            && a.position == n.position
                        &&& a == (Agent { position: a.position, ..old(self).zombies@[k] })
                    }),
                self.zombies@.len() == old(self).zombies@.len(),
                self.players@ == old(self).players@,
                self.spitter_aoes@ == old(self).spitter_aoes@,
                self.nav_agents@ == apply_updates(old(self).nav_agents@, updates@, 0),
                self.triggers@ == old(self).triggers@,
                self.spawn_points@ == old(self).spawn_points@,
                self.jobs@ == old(self).jobs@,
                self.next_id == old(self).next_id,
            decreases sn - i2,
        {
            let a = self.spitter_zombies[i2];
            let ghost prev = *self;
            match self.find_nav(a.navigation_agent_id) {
                None => {
                    proof {
                        assert(self.has_nav(
                            self.spitter_zombies@[i2 as int].navigation_agent_id,
                        ));
                        assert(false);
                    }
                },
                Some(nv) => {
                    proof {
                        let w = choose|w: int|
                            0 <= w < prev.nav_agents@.len() && prev.nav_agents@[w] == nv;
                        assert(prev.nav_agents@[w].position.in_bounds());
                    }
                    self.spitter_zombies[i2] = Agent { position: nv.position, ..a };
                    proof {
                        lemma_nav_link_same_ids(prev, *self);
                        crate::world::lemma_links_stable_triggers(prev, *self);
                    }
                },
            }
            i2 += 1;
        }
    }
}

} // verus!
