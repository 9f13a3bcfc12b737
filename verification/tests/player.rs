use flappy_core::geometry::Vector2;
use flappy_core::player::{Health, Player, Score};

fn player_at(y: i32, vx: i32, vy: i32, health: u8, score: u64) -> Player {
    Player {
        entity: 5,
        position: Vector2 { x: 0, y },
        linvel: Vector2 { x: vx, y: vy },
        angvel: 3,
        rotation: 0,
        health: Health { current: health },
        score: Score { current: score },
    }
}

#[test]
fn new_player_rests_at_the_origin() {
    let p = Player::new(9);
    assert_eq!(
        p,
        Player {
            entity: 9,
            position: Vector2 { x: 0, y: 0 },
            linvel: Vector2 { x: 0, y: 0 },
            angvel: 0,
            rotation: 0,
            health: Health { current: 1 },
            score: Score { current: 0 },
        }
    );
    assert!(p.alive());
}

#[test]
fn jump_sets_velocity_and_tilt() {
    let mut p = Player::new(5);
    p.react(true);
    assert_eq!(p.linvel, Vector2 { x: 0, y: 300 });
    assert_eq!(p.rotation, 500);
    assert_eq!(p.position, Vector2 { x: 0, y: 0 });
    assert_eq!(p.health, Health { current: 1 });
    assert_eq!(p.score, Score { current: 0 });
    p.react(false);
    assert_eq!(p.linvel, Vector2 { x: 0, y: 300 });
    assert_eq!(p.rotation, 500);
}

#[test]
fn jump_overwrites_the_vertical_velocity_only() {
    let mut p = player_at(-120, 4, -750, 1, 2);
    p.jump();
    assert_eq!(p.linvel, Vector2 { x: 4, y: 300 });
    assert_eq!(p.rotation, 0);
    assert_eq!(p.angvel, 3);
    assert_eq!(p.score, Score { current: 2 });
}

#[test]
fn jump_needs_room_below_the_top() {
    let mut below = player_at(299, 0, -10, 1, 0);
    below.jump();
    assert_eq!(below.linvel, Vector2 { x: 0, y: 300 });

    let mut at_top = player_at(300, 0, -10, 1, 0);
    at_top.jump();
    assert_eq!(at_top, player_at(300, 0, -10, 1, 0));

    let mut above = player_at(1000, 0, -10, 1, 0);
    above.jump();
    assert_eq!(above, player_at(1000, 0, -10, 1, 0));
}

#[test]
fn dead_player_does_not_jump() {
    let mut p = player_at(0, 0, -40, 0, 3);
    assert!(!p.alive());
    p.jump();
    assert_eq!(p, player_at(0, 0, -40, 0, 3));
    p.react(true);
    assert_eq!(p.linvel, Vector2 { x: 0, y: -40 });
    assert_eq!(p.rotation, -66);
    assert_eq!(p.health, Health { current: 0 });
}

#[test]
fn no_key_no_jump() {
    let mut p = player_at(0, 0, -40, 1, 3);
    p.react(false);
    assert_eq!(p.linvel, Vector2 { x: 0, y: -40 });
}

#[test]
fn tilt_is_proportional_to_vertical_velocity() {
    let cases: [(i32, i64); 12] = [
        (0, 0),
        (300, 500),
        (-300, -500),
        (150, 250),
        (600, 1000),
        (-600, -1000),
        (100, 166),
        (-100, -166),
        (1, 1),
        (-1, -1),
        (i32::MAX, 3_579_139_411),
        (i32::MIN, -3_579_139_413),
    ];
    for (vy, rotation) in cases {
        let mut p = player_at(0, 0, vy, 1, 0);
        p.tilt();
        assert_eq!(p.rotation, rotation, "vy = {}", vy);
        assert_eq!(p.linvel, Vector2 { x: 0, y: vy });
    }
}

#[test]
fn respawn_resets_everything_but_the_handle() {
    let mut p = Player {
        entity: 77,
        position: Vector2 { x: 3, y: -290 },
        linvel: Vector2 { x: 1, y: -900 },
        angvel: -8,
        rotation: -1500,
        health: Health { current: 0 },
        score: Score { current: 12 },
    };
    p.respawn();
    assert_eq!(p, Player::new(77));
    p.respawn();
    assert_eq!(p, Player::new(77));
}
