use flappy_core::collision::{CollisionEvent, Contact};
use flappy_core::geometry::Vector2;
use flappy_core::pipe::{Pipe, PipeType};
use flappy_core::player::{Health, Player, Score};
use flappy_core::session::{
    can_tick, check_player_health, check_world, process_player_input, restart, setup, tick, World,
};

const PLAYER: u32 = 5;

fn started(first: u32, second: u32, sensor: bool) -> CollisionEvent {
    CollisionEvent::Started(Contact { first, second, sensor })
}

fn pipe(pipe_type: PipeType, original_x: i32, x: i32, y: i32) -> Pipe {
    Pipe { pipe_type, original_x, position: Vector2 { x, y } }
}

/// Two pairs in mid-flight and a falling player with three points.
fn world_in_play() -> World {
    World {
        player: Player {
            entity: PLAYER,
            position: Vector2 { x: 0, y: -40 },
            linvel: Vector2 { x: 0, y: -150 },
            angvel: 1,
            rotation: -250,
            health: Health { current: 1 },
            score: Score { current: 3 },
        },
        pipes: vec![
            pipe(PipeType::DOWN, 200, -20, -200),
            pipe(PipeType::UP, 200, -20, 240),
            pipe(PipeType::DOWN, 340, 120, -290),
            pipe(PipeType::UP, 340, 120, 150),
        ],
        physics_pipeline_active: true,
    }
}

fn restarted_world() -> World {
    World {
        player: Player::new(PLAYER),
        pipes: vec![
            pipe(PipeType::DOWN, 200, 200, -200),
            pipe(PipeType::UP, 200, 200, 240),
            pipe(PipeType::DOWN, 340, 340, -290),
            pipe(PipeType::UP, 340, 340, 150),
        ],
        physics_pipeline_active: true,
    }
}

fn assert_same(a: &World, b: &World) {
    assert_eq!(a.player, b.player);
    assert_eq!(a.pipes, b.pipes);
    assert_eq!(a.physics_pipeline_active, b.physics_pipeline_active);
}

#[test]
fn setup_starts_a_session() {
    fastrand::seed(5);
    for _ in 0..100 {
        let world = setup(PLAYER);
        assert_eq!(world.player, Player::new(PLAYER));
        assert!(world.physics_pipeline_active);
        assert_eq!(world.pipes.len(), 8);
        for k in 0..4 {
            let lower = world.pipes[2 * k];
            let upper = world.pipes[2 * k + 1];
            let x = 200 + 140 * k as i32;
            assert_eq!(lower.pipe_type, PipeType::DOWN);
            assert_eq!(upper.pipe_type, PipeType::UP);
            assert_eq!(lower.original_x, x);
            assert_eq!(upper.original_x, x);
            assert_eq!(lower.position.x, x);
            assert_eq!(upper.position.x, x);
            assert!(-300 <= lower.position.y && lower.position.y < -180);
            assert_eq!(upper.position.y - lower.position.y, 440);
        }
        assert!(check_world(&world));
    }
}

#[test]
fn setup_draws_a_gap_for_each_pair() {
    fastrand::seed(6);
    let mut differ = false;
    for _ in 0..50 {
        let world = setup(PLAYER);
        if world.pipes[0].position.y != world.pipes[2].position.y {
            differ = true;
        }
    }
    assert!(differ);
}

#[test]
fn check_world_wants_a_health_of_zero_or_one() {
    let mut world = world_in_play();
    assert!(check_world(&world));
    world.player.health.current = 0;
    assert!(check_world(&world));
    world.player.health.current = 2;
    assert!(!check_world(&world));
}

#[test]
fn check_world_wants_aligned_pairs() {
    let mut world = world_in_play();
    world.pipes[3].position.x += 1;
    assert!(!check_world(&world));
    let mut world = world_in_play();
    world.pipes.pop();
    assert!(!check_world(&world));
}

#[test]
fn jump_key_makes_the_player_jump() {
    let mut world = World { player: Player::new(PLAYER), ..world_in_play() };
    process_player_input(true, false, &mut world);
    assert_eq!(world.player.linvel, Vector2 { x: 0, y: 300 });
    assert_eq!(world.player.rotation, 500);
    assert_eq!(world.player.position, Vector2 { x: 0, y: 0 });
    assert_eq!(world.pipes, world_in_play().pipes);
    assert!(world.physics_pipeline_active);
    process_player_input(false, false, &mut world);
    assert_eq!(world.player.linvel, Vector2 { x: 0, y: 300 });
    assert_eq!(world.player.rotation, 500);
}

#[test]
fn input_without_keys_only_tilts() {
    let mut world = world_in_play();
    world.player.rotation = 0;
    process_player_input(false, false, &mut world);
    let mut expected = world_in_play();
    expected.player.rotation = -250;
    assert_same(&world, &expected);
}

#[test]
fn restart_resets_player_and_pipes() {
    let mut world = world_in_play();
    world.player.health.current = 0;
    world.physics_pipeline_active = false;
    restart(&mut world);
    assert_same(&world, &restarted_world());
}

#[test]
fn restart_twice_is_restart_once() {
    let mut world = world_in_play();
    restart(&mut world);
    let once = world.clone();
    restart(&mut world);
    assert_same(&world, &once);
    assert_same(&world, &restarted_world());
}

#[test]
fn restart_key_twice_is_restart_key_once() {
    let mut world = world_in_play();
    process_player_input(true, true, &mut world);
    assert_same(&world, &restarted_world());
    process_player_input(false, true, &mut world);
    assert_same(&world, &restarted_world());
}

#[test]
fn restart_is_accepted_while_running() {
    let mut world = world_in_play();
    assert!(world.physics_pipeline_active);
    assert_eq!(world.player.health.current, 1);
    process_player_input(false, true, &mut world);
    assert_same(&world, &restarted_world());
}

#[test]
fn health_check_freezes_on_death_only() {
    let alive = Player::new(PLAYER);
    let mut dead = Player::new(PLAYER);
    dead.health.current = 0;

    let mut switch = true;
    check_player_health(&alive, &mut switch);
    assert!(switch);
    check_player_health(&dead, &mut switch);
    assert!(!switch);
    check_player_health(&dead, &mut switch);
    assert!(!switch);
    check_player_health(&alive, &mut switch);
    assert!(!switch);
}

#[test]
fn tick_jump_scenario() {
    let mut world = World { player: Player::new(PLAYER), ..world_in_play() };
    tick(&mut world, true, false, &Vec::new());
    assert_eq!(world.player.linvel, Vector2 { x: 0, y: 300 });
    assert_eq!(world.player.rotation, 500);
    assert_eq!(world.player.health, Health { current: 1 });
    assert_eq!(world.player.score, Score { current: 0 });
    assert!(world.physics_pipeline_active);
    tick(&mut world, false, false, &Vec::new());
    assert_eq!(world.player.linvel, Vector2 { x: 0, y: 300 });
    assert_eq!(world.player.rotation, 500);
}

#[test]
fn tick_lethal_contact_scenario() {
    let mut world = world_in_play();
    tick(&mut world, false, false, &vec![started(40, PLAYER, false)]);
    let mut expected = world_in_play();
    expected.player.health.current = 0;
    expected.physics_pipeline_active = false;
    assert_same(&world, &expected);
}

#[test]
fn tick_scoring_pass_scenario() {
    let mut world = world_in_play();
    tick(&mut world, false, false, &vec![started(PLAYER, 41, true)]);
    let mut expected = world_in_play();
    expected.player.score.current = 4;
    assert_same(&world, &expected);
}

#[test]
fn tick_takes_events_in_before_the_jump() {
    let mut world = world_in_play();
    tick(&mut world, true, false, &vec![started(40, PLAYER, false)]);
    assert_eq!(world.player.health, Health { current: 0 });
    assert_eq!(world.player.linvel, Vector2 { x: 0, y: -150 });
    assert!(!world.physics_pipeline_active);
}

#[test]
fn tick_keeps_the_dead_dead_and_the_session_frozen() {
    let mut world = world_in_play();
    tick(&mut world, false, false, &vec![started(40, PLAYER, false)]);
    let frozen = world.clone();
    for _ in 0..5 {
        tick(&mut world, true, false, &Vec::new());
        assert_same(&world, &frozen);
    }
}

#[test]
fn tick_restart_revives_and_resumes() {
    let mut world = world_in_play();
    tick(&mut world, false, false, &vec![started(40, PLAYER, false)]);
    assert!(!world.physics_pipeline_active);
    tick(&mut world, false, true, &Vec::new());
    assert_same(&world, &restarted_world());
    tick(&mut world, false, true, &Vec::new());
    assert_same(&world, &restarted_world());
}

#[test]
fn tick_restart_outweighs_a_death_in_the_same_tick() {
    let mut world = world_in_play();
    tick(&mut world, false, true, &vec![started(40, PLAYER, false), started(PLAYER, 41, true)]);
    assert_same(&world, &restarted_world());
}

#[test]
fn tick_score_never_falls_without_a_restart() {
    let mut world = world_in_play();
    let frames: Vec<Vec<CollisionEvent>> = vec![
        vec![],
        vec![started(PLAYER, 41, true)],
        vec![started(1, 2, true)],
        vec![started(PLAYER, 41, true), started(42, PLAYER, true)],
        vec![started(PLAYER, 40, false)],
        vec![],
    ];
    let expected: [u64; 6] = [3, 4, 4, 6, 6, 6];
    for (events, score) in frames.iter().zip(expected) {
        let before = world.player.score.current;
        tick(&mut world, false, false, events);
        assert!(world.player.score.current >= before);
        assert_eq!(world.player.score.current, score);
    }
    tick(&mut world, false, true, &Vec::new());
    assert_eq!(world.player.score.current, 0);
}

#[test]
fn tick_recycles_pipes_and_keeps_the_gap() {
    fastrand::seed(8);
    let mut world = world_in_play();
    world.pipes[0].position.x = -300;
    world.pipes[1].position.x = -300;
    tick(&mut world, false, false, &Vec::new());
    assert_eq!(world.pipes[0].position.x, 270);
    assert_eq!(world.pipes[1].position.x, 270);
    assert!(-300 <= world.pipes[0].position.y && world.pipes[0].position.y < -180);
    assert_eq!(world.pipes[1].position.y - world.pipes[0].position.y, 440);
    assert_eq!(world.pipes[2], world_in_play().pipes[2]);
    assert_eq!(world.pipes[3], world_in_play().pipes[3]);
    assert!(check_world(&world));
}

#[test]
fn tick_restart_comes_after_the_recycling() {
    fastrand::seed(9);
    let mut world = world_in_play();
    world.pipes[0].position.x = -300;
    world.pipes[1].position.x = -300;
    tick(&mut world, false, true, &Vec::new());
    assert_eq!(world.pipes[0].position.x, 200);
    assert_eq!(world.pipes[1].position.x, 200);
    assert!(-300 <= world.pipes[0].position.y && world.pipes[0].position.y < -180);
    assert_eq!(world.pipes[1].position.y - world.pipes[0].position.y, 440);
    assert_eq!(world.pipes[2], restarted_world().pipes[2]);
    assert_eq!(world.pipes[3], restarted_world().pipes[3]);
    assert_eq!(world.player, Player::new(PLAYER));
}

#[test]
fn can_tick_tells_whether_the_score_has_room() {
    let mut world = world_in_play();
    assert!(can_tick(&world, &vec![started(PLAYER, 41, true)]));
    world.player.score.current = u64::MAX;
    assert!(can_tick(&world, &vec![started(PLAYER, 40, false)]));
    assert!(!can_tick(&world, &vec![started(PLAYER, 41, true)]));
}
