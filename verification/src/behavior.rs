//! The behavior-tree engine: `Select` / `Sequence` composites over
//! action leaves, evaluated once per agent per tick.
//!
//! `Sequence` runs its children in order and fails on the first failing
//! child; `Select` runs its children in order and succeeds on the first
//! succeeding child; both short-circuit, and side effects of already-run
//! children are kept even when a later sibling overrides the verdict.
//! `spec_eval` is the model of an evaluation; `eval_node` is proved to
//! produce exactly its outcome.

use vstd::prelude::*;
use crate::entities::{Agent, Archetype, NavAgent, SPITTER_COOLDOWN_MICROS};
use crate::world::WorldState;
use crate::actions::{
    action_ctx, spec_run_action, run_action, ActionCtx, ActionOutcome, Status, ZombieAction,
};

verus! {

/// A node of a behavior tree. The tree structure is data, fixed at
/// initialization; it is never mutated at runtime.
pub enum BehaviorNode {
    Action(ZombieAction),
    Sequence(Vec<BehaviorNode>),
    Select(Vec<BehaviorNode>),
}

/// Number of action leaves in a tree: each leaf can draw at most two
/// fresh identities, so this bounds an evaluation's identity use.
pub open spec fn count_actions(node: BehaviorNode) -> int
    decreases node, 0int,
{
    match node {
        BehaviorNode::Action(_) => 1,
        BehaviorNode::Sequence(cs) => count_actions_list(cs@, 0),
        BehaviorNode::Select(cs) => count_actions_list(cs@, 0),
    }
}

pub open spec fn count_actions_list(nodes: Seq<BehaviorNode>, i: int) -> int
    decreases nodes, nodes.len() - i, 1int,
{
    if i < 0 || i >= nodes.len() {
        0
    } else {
        count_actions(nodes[i]) + count_actions_list(nodes, i + 1)
    }
}

pub proof fn lemma_count_actions_nonneg(node: BehaviorNode)
    ensures
        count_actions(node) >= 0,
    decreases node, 0int,
{
    match node {
        BehaviorNode::Action(_) => {},
        BehaviorNode::Sequence(cs) => lemma_count_actions_list_nonneg(cs@, 0),
        BehaviorNode::Select(cs) => lemma_count_actions_list_nonneg(cs@, 0),
    }
}

pub proof fn lemma_count_actions_list_nonneg(nodes: Seq<BehaviorNode>, i: int)
    ensures
        count_actions_list(nodes, i) >= 0,
    decreases nodes, nodes.len() - i, 1int,
{
    if 0 <= i && i < nodes.len() {
        lemma_count_actions_nonneg(nodes[i]);
        lemma_count_actions_list_nonneg(nodes, i + 1);
    }
}

/// The model of evaluating one node against a context.
pub open spec fn spec_eval(
    node: BehaviorNode,
    arch: Archetype,
    c: ActionCtx,
    now: u64,
    rand: u64,
) -> ActionOutcome
    decreases node, 0int,
{
    match node {
        BehaviorNode::Action(a) => spec_run_action(arch, c, a, now, rand),
        BehaviorNode::Sequence(cs) => spec_eval_list(cs@, 0, Status::Success, arch, c, now, rand),
        BehaviorNode::Select(cs) => spec_eval_list(cs@, 0, Status::Failure, arch, c, now, rand),
    }
}

/// Evaluates children from `i` on, continuing while each child returns
/// `cont` (`Success` for a sequence, `Failure` for a select) and
/// stopping at the first child that returns the other verdict, whose
/// outcome is kept. An exhausted list returns `cont` itself.
pub open spec fn spec_eval_list(
    nodes: Seq<BehaviorNode>,
    i: int,
    cont: Status,
    arch: Archetype,
    c: ActionCtx,
    now: u64,
    rand: u64,
) -> ActionOutcome
    decreases nodes, nodes.len() - i, 1int,
{
    if i < 0 || i >= nodes.len() {
        ActionOutcome { c, status: cont }
    } else {
        let o = spec_eval(nodes[i], arch, c, now, rand);
        if o.status == cont {
            spec_eval_list(nodes, i + 1, cont, arch, o.c, now, rand)
        } else {
            o
        }
    }
}

/// Evaluates one node, producing exactly the outcome of `spec_eval` on
/// the starting context.
pub fn eval_node(
    node: &BehaviorNode,
    arch: Archetype,
    agent: &mut Agent,
    nav: &mut NavAgent,
    st: &mut WorldState,
    now: u64,
    rand: u64,
) -> (r: Status)
    requires
        old(st).wf(),
        old(nav).position.in_bounds(),
        now + SPITTER_COOLDOWN_MICROS <= u64::MAX,
        old(st).next_id + 2 * count_actions(*node) <= u64::MAX,
    ensures
        ({
            let o = spec_eval(*node, arch, action_ctx(*old(agent), *old(nav), *old(st)), now, rand);
            &&& action_ctx(*final(agent), *final(nav), *final(st)) == o.c
            &&& r == o.status
        }),
        final(st).wf(),
        final(st).players@ == old(st).players@,
        final(st).zombies@ == old(st).zombies@,
        final(st).spitter_zombies@ == old(st).spitter_zombies@,
        final(st).nav_agents@ == old(st).nav_agents@,
        final(st).spawn_points@ == old(st).spawn_points@,
        final(st).jobs@ == old(st).jobs@,
        old(st).next_id <= final(st).next_id <= old(st).next_id + 2 * count_actions(*node),
        final(agent).id == old(agent).id,
        final(agent).navigation_agent_id == old(agent).navigation_agent_id,
        final(agent).position == old(agent).position,
        final(nav).id == old(nav).id,
        final(nav).position == old(nav).position,
        final(nav).current_target matches Some(t) ==> (old(nav).current_target == Some(t)
            || t.in_bounds()),
    decreases node, 0int,
{
    proof {
        lemma_count_actions_nonneg(*node);
    }
    match node {
        BehaviorNode::Action(a) => run_action(arch, agent, nav, st, a, now, rand),
        BehaviorNode::Sequence(cs) => eval_list(cs, 0, Status::Success, arch, agent, nav, st, now, rand),
        BehaviorNode::Select(cs) => eval_list(cs, 0, Status::Failure, arch, agent, nav, st, now, rand),
    }
}

/// Evaluates children from `i` on, as `spec_eval_list` prescribes.
pub fn eval_list(
    nodes: &Vec<BehaviorNode>,
    i: usize,
    cont: Status,
    arch: Archetype,
    agent: &mut Agent,
    nav: &mut NavAgent,
    st: &mut WorldState,
    now: u64,
    rand: u64,
) -> (r: Status)
    requires
        old(st).wf(),
        old(nav).position.in_bounds(),
        now + SPITTER_COOLDOWN_MICROS <= u64::MAX,
        i <= nodes@.len(),
        old(st).next_id + 2 * count_actions_list(nodes@, i as int) <= u64::MAX,
    ensures
        ({
            let o = spec_eval_list(
                nodes@,
                i as int,
                cont,
                arch,
                action_ctx(*old(agent), *old(nav), *old(st)),
                now,
                rand,
            );
            &&& action_ctx(*final(agent), *final(nav), *final(st)) == o.c
            &&& r == o.status
        }),
        final(st).wf(),
        final(st).players@ == old(st).players@,
        final(st).zombies@ == old(st).zombies@,
        final(st).spitter_zombies@ == old(st).spitter_zombies@,
        final(st).nav_agents@ == old(st).nav_agents@,
        final(st).spawn_points@ == old(st).spawn_points@,
        final(st).jobs@ == old(st).jobs@,
        old(st).next_id <= final(st).next_id <= old(st).next_id + 2 * count_actions_list(
            nodes@,
            i as int,
        ),
        final(agent).id == old(agent).id,
        final(agent).navigation_agent_id == old(agent).navigation_agent_id,
        final(agent).position == old(agent).position,
        final(nav).id == old(nav).id,
        final(nav).position == old(nav).position,
        final(nav).current_target matches Some(t) ==> (old(nav).current_target == Some(t)
            || t.in_bounds()),
    decreases nodes@, nodes@.len() - i, 0int,
{
    proof {
        lemma_count_actions_list_nonneg(nodes@, i as int);
    }
    if i == nodes.len() {
        return cont;
    }
    proof {
        lemma_count_actions_nonneg(nodes@[i as int]);
        lemma_count_actions_list_nonneg(nodes@, i as int + 1);
    }
    let r = eval_node(&nodes[i], arch, agent, nav, st, now, rand);
    if r == cont {
        eval_list(nodes, i + 1, cont, arch, agent, nav, st, now, rand)
    } else {
        r
    }
}

/// Whether a tree is the standard per-archetype decision tree:
/// `Select [ Sequence [IsMoving, Chase], Sequence [IsTargetReached,
/// Attack], TargetRandomPlayer ]`.
pub open spec fn is_standard_tree(t: BehaviorNode) -> bool {
    &&& t matches BehaviorNode::Select(top)
    &&& top@.len() == 3
    &&& top@[0] matches BehaviorNode::Sequence(s0)
    &&& s0@.len() == 2
    &&& s0@[0] == BehaviorNode::Action(ZombieAction::IsMoving)
    &&& s0@[1] == BehaviorNode::Action(ZombieAction::Chase)
    &&& top@[1] matches BehaviorNode::Sequence(s1)
    &&& s1@.len() == 2
    &&& s1@[0] == BehaviorNode::Action(ZombieAction::IsTargetReached)
    &&& s1@[1] == BehaviorNode::Action(ZombieAction::Attack)
    &&& top@[2] == BehaviorNode::Action(ZombieAction::TargetRandomPlayer)
}

/// A standard tree has five action leaves.
pub proof fn lemma_standard_tree_count(t: BehaviorNode)
    requires
        is_standard_tree(t),
    ensures
        count_actions(t) == 5,
{
    let top = t->Select_0;
    let s0 = top@[0]->Sequence_0;
    let s1 = top@[1]->Sequence_0;
    assert(count_actions(s0@[0]) == 1);
    assert(count_actions(s0@[1]) == 1);
    assert(count_actions_list(s0@, 2) == 0);
    assert(count_actions_list(s0@, 1) == 1);
    assert(count_actions_list(s0@, 0) == 2);
    assert(count_actions(top@[0]) == 2);
    assert(count_actions(s1@[0]) == 1);
    assert(count_actions(s1@[1]) == 1);
    assert(count_actions_list(s1@, 2) == 0);
    assert(count_actions_list(s1@, 1) == 1);
    assert(count_actions_list(s1@, 0) == 2);
    assert(count_actions(top@[1]) == 2);
    assert(count_actions(top@[2]) == 1);
    assert(count_actions_list(top@, 3) == 0);
    assert(count_actions_list(top@, 2) == 1);
    assert(count_actions_list(top@, 1) == 3);
    assert(count_actions_list(top@, 0) == 5);
}

/// Builds the standard decision tree of the melee archetype.
pub fn create_zombie_behavior_tree() -> (t: BehaviorNode)
    ensures
        is_standard_tree(t),
{
    let chase: Vec<BehaviorNode> = vec![
        BehaviorNode::Action(ZombieAction::IsMoving),
        BehaviorNode::Action(ZombieAction::Chase),
    ];
    let attack: Vec<BehaviorNode> = vec![
        BehaviorNode::Action(ZombieAction::IsTargetReached),
        BehaviorNode::Action(ZombieAction::Attack),
    ];
    let top: Vec<BehaviorNode> = vec![
        BehaviorNode::Sequence(chase),
        BehaviorNode::Sequence(attack),
        BehaviorNode::Action(ZombieAction::TargetRandomPlayer),
    ];
    BehaviorNode::Select(top)
}

/// Builds the standard decision tree of the ranged archetype; the two
/// archetypes share one decision structure and differ only in their
/// action configuration.
pub fn create_spitter_zombie_behavior_tree() -> (t: BehaviorNode)
    ensures
        is_standard_tree(t),
{
    create_zombie_behavior_tree()
}

} // verus!
