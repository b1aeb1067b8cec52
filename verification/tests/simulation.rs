use zombie_sim::actions::{run_action, Status, ZombieAction};
use zombie_sim::behavior::{create_spitter_zombie_behavior_tree, create_zombie_behavior_tree};
use zombie_sim::entities::{Archetype, NavState, TickKind};
use zombie_sim::math::{distance_squared, within_range, Vec3};
use zombie_sim::ticks::NavUpdate;
use zombie_sim::world::WorldState;

fn world_with_player(identity: u64) -> WorldState {
    let mut st = WorldState::new();
    st.create_player(identity, 0);
    st
}

#[test]
fn distance_squared_exact() {
    let a = Vec3::new(0, 0, 0);
    let b = Vec3::new(3, 4, 0);
    assert_eq!(distance_squared(a, b), 25);
    assert_eq!(distance_squared(b, a), 25);
    assert_eq!(distance_squared(a, a), 0);
}

#[test]
fn within_range_boundary() {
    let a = Vec3::new(0, 0, 0);
    assert!(within_range(a, Vec3::new(1000, 0, 0), 1000));
    assert!(!within_range(a, Vec3::new(1001, 0, 0), 1000));
    assert!(within_range(a, Vec3::new(10_000, 0, 0), 10_000));
    assert!(!within_range(a, Vec3::new(10_001, 0, 0), 10_000));
}

#[test]
fn create_player_is_idempotent_per_identity() {
    let mut st = WorldState::new();
    assert!(st.create_player(7, 100));
    assert!(!st.create_player(7, 200));
    assert_eq!(st.players.len(), 1);
    assert_eq!(st.players[0].joined_at, 100);
    assert_eq!(st.players[0].position, Vec3::new(0, 0, 0));
}

#[test]
fn agent_and_handle_exist_together() {
    let mut st = WorldState::new();
    let zid = st.create_zombie(Vec3::new(5, 0, 0), 0);
    assert_eq!(st.zombies.len(), 1);
    assert_eq!(st.nav_agents.len(), 1);
    assert_eq!(st.zombies[0].id, zid);
    assert_eq!(st.zombies[0].navigation_agent_id, st.nav_agents[0].id);
    let sid = st.create_spitter_zombie(Vec3::new(9, 0, 0));
    assert_eq!(st.spitter_zombies.len(), 1);
    assert_eq!(st.nav_agents.len(), 2);
    assert_eq!(st.spitter_zombies[0].id, sid);
    // deleting the agent deletes its handle, and only its handle
    st.delete_zombie_at(0);
    assert_eq!(st.zombies.len(), 0);
    assert_eq!(st.nav_agents.len(), 1);
    assert_eq!(st.nav_agents[0].id, st.spitter_zombies[0].navigation_agent_id);
    st.delete_spitter_zombie_at(0);
    assert_eq!(st.nav_agents.len(), 0);
}

#[test]
fn last_player_disconnect_purges_population() {
    let mut st = WorldState::new();
    st.create_player(1, 0);
    st.create_player(2, 0);
    st.create_zombie(Vec3::new(0, 0, 0), 0);
    st.create_spitter_zombie(Vec3::new(0, 0, 0));
    st.create_aoe(Vec3::new(0, 0, 0), 99);
    st.on_disconnect(1);
    // one player left: nothing purged
    assert_eq!(st.players.len(), 1);
    assert_eq!(st.zombies.len(), 1);
    assert_eq!(st.spitter_zombies.len(), 1);
    assert_eq!(st.spitter_aoes.len(), 1);
    assert_eq!(st.nav_agents.len(), 2);
    assert_eq!(st.triggers.len(), 1);
    st.on_disconnect(2);
    // last player gone: zero agents, zero effects, zero handles
    assert_eq!(st.players.len(), 0);
    assert_eq!(st.zombies.len(), 0);
    assert_eq!(st.spitter_zombies.len(), 0);
    assert_eq!(st.spitter_aoes.len(), 0);
    assert_eq!(st.nav_agents.len(), 0);
    assert_eq!(st.triggers.len(), 0);
}

#[test]
fn disconnect_of_unknown_identity_with_no_players_purges() {
    let mut st = WorldState::new();
    st.create_zombie(Vec3::new(0, 0, 0), 0);
    st.on_disconnect(42);
    assert_eq!(st.zombies.len(), 0);
    assert_eq!(st.nav_agents.len(), 0);
}

#[test]
fn spawn_respects_cap_exactly() {
    let mut st = world_with_player(1);
    st.init();
    for i in 0..150u64 {
        st.spawn_zombies(0, i, i + 1);
    }
    assert_eq!(st.zombies.len() + st.spitter_zombies.len(), 100);
    // firing the job any number of times at the cap changes nothing
    let zombies_before = st.zombies.len();
    let spitters_before = st.spitter_zombies.len();
    for i in 0..50u64 {
        st.spawn_zombies(0, i, i);
    }
    assert_eq!(st.zombies.len(), zombies_before);
    assert_eq!(st.spitter_zombies.len(), spitters_before);
}

#[test]
fn spawn_needs_players_and_spawn_points() {
    let mut st = WorldState::new();
    st.init();
    st.spawn_zombies(0, 0, 0);
    assert_eq!(st.zombies.len() + st.spitter_zombies.len(), 0);

    let mut st2 = world_with_player(1);
    // no spawn points yet
    st2.spawn_zombies(0, 0, 0);
    assert_eq!(st2.zombies.len() + st2.spitter_zombies.len(), 0);
}

#[test]
fn spawn_archetype_fraction_is_one_tenth() {
    // a uniform sweep of draws gives exactly one ranged agent in ten
    let mut st = world_with_player(1);
    st.init();
    for i in 0..50u64 {
        st.spawn_zombies(0, i, i);
    }
    assert_eq!(st.spitter_zombies.len(), 5);
    assert_eq!(st.zombies.len(), 45);

    // pseudo-random draws: the fraction converges near one tenth
    let mut seed: u64 = 0x9e3779b97f4a7c15;
    let mut ranged: u32 = 0;
    let trials: u32 = 2000;
    for _ in 0..trials {
        seed ^= seed << 13;
        seed ^= seed >> 7;
        seed ^= seed << 17;
        let mut st3 = world_with_player(1);
        st3.init();
        st3.spawn_zombies(0, seed, seed);
        if st3.spitter_zombies.len() == 1 {
            ranged += 1;
        }
    }
    let fraction = ranged as f64 / trials as f64;
    assert!(fraction > 0.05 && fraction < 0.15, "fraction was {fraction}");
}

#[test]
fn spawn_uses_selected_spawn_point() {
    let mut st = world_with_player(1);
    st.init();
    assert_eq!(st.spawn_points.len(), 4);
    st.spawn_zombies(0, 1, 1); // second spawn point, melee
    assert_eq!(st.zombies.len(), 1);
    assert_eq!(st.zombies[0].position, st.spawn_points[1].position);
}

#[test]
fn init_is_idempotent_for_jobs() {
    let mut st = WorldState::new();
    st.init();
    assert_eq!(st.jobs.len(), 4);
    assert_eq!(st.spawn_points.len(), 4);
    st.init();
    assert_eq!(st.jobs.len(), 4);
    assert_eq!(st.spawn_points.len(), 4);
    let world_step = st.jobs.iter().find(|j| j.kind == TickKind::WorldStep).unwrap();
    assert_eq!(world_step.interval_micros, 100_000);
    let ai = st.jobs.iter().find(|j| j.kind == TickKind::ZombieUpdate).unwrap();
    assert_eq!(ai.interval_micros, 250_000);
    let spawn = st.jobs.iter().find(|j| j.kind == TickKind::ZombieSpawn).unwrap();
    assert_eq!(spawn.interval_micros, 500_000);
}

#[test]
fn world_step_copies_positions_back() {
    let mut st = world_with_player(1);
    st.create_zombie(Vec3::new(0, 0, 0), 0);
    st.create_spitter_zombie(Vec3::new(0, 0, 0));
    let znav = st.zombies[0].navigation_agent_id;
    let snav = st.spitter_zombies[0].navigation_agent_id;
    let updates = vec![
        NavUpdate { id: znav, position: Vec3::new(250, 0, 0), state: NavState::Moving },
        NavUpdate { id: snav, position: Vec3::new(0, 0, 125), state: NavState::Moving },
        NavUpdate { id: 9999, position: Vec3::new(7, 7, 7), state: NavState::Idle },
    ];
    st.tick_world(&updates);
    // every agent's cached position equals its handle's reported position
    assert_eq!(st.zombies[0].position, Vec3::new(250, 0, 0));
    assert_eq!(st.nav_agents.iter().find(|n| n.id == znav).unwrap().position, Vec3::new(250, 0, 0));
    assert_eq!(st.spitter_zombies[0].position, Vec3::new(0, 0, 125));
    assert_eq!(st.zombies[0].is_attacking, false);
    // the unknown handle id was ignored
    assert_eq!(st.nav_agents.len(), 2);
}

#[test]
fn aoe_expiry_deletes_effect_and_trigger() {
    let mut st = WorldState::new();
    let aid = st.create_aoe(Vec3::new(0, 0, 0), 1_000_000);
    assert_eq!(st.spitter_aoes.len(), 1);
    assert_eq!(st.triggers.len(), 1);
    st.tick_spitter_aoe(aid, 999_999);
    // not yet expired
    assert_eq!(st.spitter_aoes.len(), 1);
    assert_eq!(st.triggers.len(), 1);
    st.tick_spitter_aoe(aid, 1_000_000);
    // expired: effect and its trigger handle are both gone
    assert_eq!(st.spitter_aoes.len(), 0);
    assert_eq!(st.triggers.len(), 0);
    // a vanished effect's tick is a no-op
    st.tick_spitter_aoe(aid, 2_000_000);
    assert_eq!(st.spitter_aoes.len(), 0);
}

#[test]
fn player_update_position_moves_only_that_player() {
    let mut st = WorldState::new();
    st.create_player(1, 0);
    st.create_player(2, 0);
    st.player_update_position(1, Vec3::new(10, 20, 30));
    assert_eq!(st.players[0].position, Vec3::new(10, 20, 30));
    assert_eq!(st.players[1].position, Vec3::new(0, 0, 0));
    // unknown identity: no-op
    st.player_update_position(5, Vec3::new(1, 1, 1));
    assert_eq!(st.players.len(), 2);
}

#[test]
fn run_action_is_moving_reports_nav_state() {
    let mut st = world_with_player(1);
    st.create_zombie(Vec3::new(0, 0, 0), 0);
    let mut agent = st.zombies[0];
    let mut nav = st.nav_agents[0];
    let r = run_action(Archetype::Zombie, &mut agent, &mut nav, &mut st, &ZombieAction::IsMoving, 0, 0);
    assert_eq!(r, Status::Failure);
    nav.state = NavState::Moving;
    let r2 = run_action(Archetype::Zombie, &mut agent, &mut nav, &mut st, &ZombieAction::IsMoving, 0, 0);
    assert_eq!(r2, Status::Success);
}

#[test]
fn target_random_player_targets_an_existing_player() {
    let mut st = WorldState::new();
    st.create_player(1, 0);
    st.create_player(2, 0);
    st.player_update_position(2, Vec3::new(500, 0, 0));
    st.create_zombie(Vec3::new(0, 0, 0), 0);
    let mut agent = st.zombies[0];
    let mut nav = st.nav_agents[0];
    let r = run_action(
        Archetype::Zombie,
        &mut agent,
        &mut nav,
        &mut st,
        &ZombieAction::TargetRandomPlayer,
        0,
        3, // 3 % 2 == 1: the second player
    );
    assert_eq!(r, Status::Success);
    assert_eq!(agent.target_player, Some(st.players[1].id));
    assert_eq!(nav.current_target, Some(Vec3::new(500, 0, 0)));
    assert!(!nav.paused);
    assert!(!agent.is_attacking);
}

#[test]
fn chase_fails_when_target_vanished() {
    let mut st = WorldState::new();
    st.create_player(1, 0);
    st.create_zombie(Vec3::new(0, 0, 0), 0);
    let mut agent = st.zombies[0];
    let mut nav = st.nav_agents[0];
    run_action(Archetype::Zombie, &mut agent, &mut nav, &mut st, &ZombieAction::TargetRandomPlayer, 0, 0);
    st.on_disconnect(1);
    let r = run_action(Archetype::Zombie, &mut agent, &mut nav, &mut st, &ZombieAction::Chase, 0, 0);
    assert_eq!(r, Status::Failure);
    // a target never set also fails rather than crashing
    let mut st2 = world_with_player(1);
    st2.create_zombie(Vec3::new(0, 0, 0), 0);
    let mut agent2 = st2.zombies[0];
    let mut nav2 = st2.nav_agents[0];
    let r2 = run_action(Archetype::Zombie, &mut agent2, &mut nav2, &mut st2, &ZombieAction::Chase, 0, 0);
    assert_eq!(r2, Status::Failure);
}

#[test]
fn melee_attack_at_exact_range_boundary() {
    // distance == range: the attack lands
    let mut st = world_with_player(1);
    st.player_update_position(1, Vec3::new(1000, 0, 0));
    st.create_zombie(Vec3::new(0, 0, 0), 0);
    let mut agent = st.zombies[0];
    let mut nav = st.nav_agents[0];
    agent.target_player = Some(st.players[0].id);
    let r = run_action(Archetype::Zombie, &mut agent, &mut nav, &mut st, &ZombieAction::Attack, 5, 0);
    assert_eq!(r, Status::Success);
    assert!(agent.is_attacking);
    assert_eq!(agent.next_attack_time, 5 + 1_000_000);
    assert_eq!(st.spitter_aoes.len(), 0); // melee leaves no effect record

    // distance > range: the attack fails and forces a re-chase
    let mut st2 = world_with_player(1);
    st2.player_update_position(1, Vec3::new(1001, 0, 0));
    st2.create_zombie(Vec3::new(0, 0, 0), 0);
    let mut agent2 = st2.zombies[0];
    let mut nav2 = st2.nav_agents[0];
    agent2.target_player = Some(st2.players[0].id);
    let r2 = run_action(Archetype::Zombie, &mut agent2, &mut nav2, &mut st2, &ZombieAction::Attack, 5, 0);
    assert_eq!(r2, Status::Failure);
    assert!(!agent2.is_attacking);
}

#[test]
fn spitter_attack_at_exact_range_boundary() {
    let mut st = world_with_player(1);
    st.player_update_position(1, Vec3::new(10_000, 0, 0));
    st.create_spitter_zombie(Vec3::new(0, 0, 0));
    let mut agent = st.spitter_zombies[0];
    let mut nav = st.nav_agents[0];
    agent.target_player = Some(st.players[0].id);
    let r = run_action(Archetype::SpitterZombie, &mut agent, &mut nav, &mut st, &ZombieAction::Attack, 5, 0);
    assert_eq!(r, Status::Success);
    assert!(agent.is_attacking);
    assert_eq!(agent.next_attack_time, 5 + 3_000_000);
    // the ranged attack creates an effect with its trigger at the target
    assert_eq!(st.spitter_aoes.len(), 1);
    assert_eq!(st.triggers.len(), 1);
    assert_eq!(st.spitter_aoes[0].position, Vec3::new(10_000, 0, 0));
    assert_eq!(st.spitter_aoes[0].trigger_id, st.triggers[0].id);
    assert_eq!(st.spitter_aoes[0].delete_at, 5 + 3_000_000);

    let mut st2 = world_with_player(1);
    st2.player_update_position(1, Vec3::new(10_001, 0, 0));
    st2.create_spitter_zombie(Vec3::new(0, 0, 0));
    let mut agent2 = st2.spitter_zombies[0];
    let mut nav2 = st2.nav_agents[0];
    agent2.target_player = Some(st2.players[0].id);
    let r2 = run_action(Archetype::SpitterZombie, &mut agent2, &mut nav2, &mut st2, &ZombieAction::Attack, 5, 0);
    assert_eq!(r2, Status::Failure);
    assert_eq!(st2.spitter_aoes.len(), 0);
}

#[test]
fn attack_on_cooldown_is_cosmetic_no_op() {
    let mut st = world_with_player(1);
    st.create_spitter_zombie(Vec3::new(0, 0, 0));
    let mut agent = st.spitter_zombies[0];
    let mut nav = st.nav_agents[0];
    agent.target_player = Some(st.players[0].id);
    // the first attack at tick 10 lands and starts the cooldown
    let r1 = run_action(Archetype::SpitterZombie, &mut agent, &mut nav, &mut st, &ZombieAction::Attack, 10, 0);
    assert_eq!(r1, Status::Success);
    assert_eq!(st.spitter_aoes.len(), 1);
    assert_eq!(agent.next_attack_time, 10 + 3_000_000);
    // a second attack inside the window succeeds without a new effect
    let r2 = run_action(Archetype::SpitterZombie, &mut agent, &mut nav, &mut st, &ZombieAction::Attack, 3_000_000, 0);
    assert_eq!(r2, Status::Success);
    assert!(!agent.is_attacking);
    assert_eq!(st.spitter_aoes.len(), 1);
    assert_eq!(agent.next_attack_time, 10 + 3_000_000);
    // after the window, the attack lands again
    let r3 = run_action(Archetype::SpitterZombie, &mut agent, &mut nav, &mut st, &ZombieAction::Attack, 3_000_011, 0);
    assert_eq!(r3, Status::Success);
    assert!(agent.is_attacking);
    assert_eq!(st.spitter_aoes.len(), 2);
}

#[test]
fn ai_tick_retargets_after_target_disconnects() {
    let mut st = WorldState::new();
    st.create_player(1, 0);
    st.create_player(2, 0);
    st.create_zombie(Vec3::new(0, 0, 0), 0);
    let tree = create_zombie_behavior_tree();
    // first AI tick: the idle zombie targets the player picked by the draw
    st.tick_zombie(&tree, 10, &vec![0]);
    let first_target = st.zombies[0].target_player.unwrap();
    assert_eq!(first_target, st.players[0].id);
    // the targeted player disconnects mid-chase
    let identity = st.players[0].identity;
    st.on_disconnect(identity);
    assert_eq!(st.players.len(), 1);
    // within one more AI tick the zombie targets the remaining player
    st.tick_zombie(&tree, 20, &vec![0]);
    assert_eq!(st.zombies[0].target_player, Some(st.players[0].id));
}

#[test]
fn ai_tick_chases_while_moving() {
    let mut st = world_with_player(1);
    st.create_zombie(Vec3::new(0, 0, 0), 0);
    let tree = create_zombie_behavior_tree();
    st.tick_zombie(&tree, 0, &vec![0]); // acquire the target
    st.player_update_position(1, Vec3::new(777, 0, 0));
    let nav_id = st.zombies[0].navigation_agent_id;
    st.tick_world(&vec![NavUpdate { id: nav_id, position: Vec3::new(10, 0, 0), state: NavState::Moving }]);
    st.tick_zombie(&tree, 250_000, &vec![0]); // chase updates the target position
    let nav = st.nav_agents.iter().find(|n| n.id == nav_id).unwrap();
    assert_eq!(nav.current_target, Some(Vec3::new(777, 0, 0)));
}

#[test]
fn spitter_ai_tick_attacks_when_target_reached() {
    let mut st = world_with_player(1);
    st.create_spitter_zombie(Vec3::new(0, 0, 0));
    let tree = create_spitter_zombie_behavior_tree();
    st.tick_spitter_zombie(&tree, 1, &vec![0]); // acquire the target
    assert_eq!(st.spitter_zombies[0].target_player, Some(st.players[0].id));
    let nav_id = st.spitter_zombies[0].navigation_agent_id;
    st.tick_world(&vec![NavUpdate { id: nav_id, position: Vec3::new(0, 0, 0), state: NavState::ReachedTarget }]);
    st.tick_spitter_zombie(&tree, 10, &vec![0]);
    assert!(st.spitter_zombies[0].is_attacking);
    assert_eq!(st.spitter_aoes.len(), 1);
    assert_eq!(st.triggers.len(), 1);
}

#[test]
fn schedule_returns_whether_created() {
    let mut st = WorldState::new();
    assert!(st.schedule(TickKind::WorldStep));
    assert!(!st.schedule(TickKind::WorldStep));
    assert_eq!(st.jobs.len(), 1);
}

fn assert_no_orphans(st: &WorldState) {
    let mut owned: Vec<u64> = st
        .zombies
        .iter()
        .chain(st.spitter_zombies.iter())
        .map(|a| a.navigation_agent_id)
        .collect();
    let mut handles: Vec<u64> = st.nav_agents.iter().map(|n| n.id).collect();
    owned.sort();
    handles.sort();
    assert_eq!(owned, handles);
    let mut trigger_refs: Vec<u64> = st.spitter_aoes.iter().map(|a| a.trigger_id).collect();
    let mut triggers: Vec<u64> = st.triggers.iter().map(|t| t.id).collect();
    trigger_refs.sort();
    triggers.sort();
    assert_eq!(trigger_refs, triggers);
}

#[test]
fn no_orphans_after_any_tick() {
    let mut st = world_with_player(1);
    st.init();
    let tree = create_zombie_behavior_tree();
    for round in 0..20u64 {
        st.spawn_zombies(round, round, round);
        assert_no_orphans(&st);
        let zr: Vec<u64> = (0..st.zombies.len() as u64).collect();
        st.tick_zombie(&tree, round * 250_000 + 1, &zr);
        assert_no_orphans(&st);
        let sr: Vec<u64> = (0..st.spitter_zombies.len() as u64).collect();
        st.tick_spitter_zombie(&tree, round * 250_000 + 1, &sr);
        assert_no_orphans(&st);
        let updates: Vec<NavUpdate> = st
            .nav_agents
            .iter()
            .map(|n| NavUpdate { id: n.id, position: n.position, state: NavState::ReachedTarget })
            .collect();
        st.tick_world(&updates);
        assert_no_orphans(&st);
        let effects: Vec<u64> = st.spitter_aoes.iter().map(|a| a.id).collect();
        for id in effects {
            st.tick_spitter_aoe(id, round * 250_000 + 1);
            assert_no_orphans(&st);
        }
    }
    st.on_disconnect(1);
    assert_no_orphans(&st);
    assert_eq!(st.nav_agents.len(), 0);
}
