use astro::math::{circles_collide, cos_mdeg, heading_dir, isqrt, normalize, sin_mdeg, Vec2};
use astro::meteor::{
    despawn_meteor, despawn_meteors, meteor_catalog, meteor_movement, new_spawn_timer,
    random_type, spawn_meteors, spawn_meteors_over_time, tick_meteor_spawn_timer, Meteor,
};
use astro::player::{
    confine_player_movement, handle_fire_laser, laser_hit_meteor, laser_movement,
    meteor_hit_player, player_movement, Fire, Laser, Player,
};
use astro::rng::uniform_scalar;
use astro::state::{enter_game, exit_game, run_frame};
use astro::world::{new_world, FrameInput, GameEvent, World};
use astro::AppState;

const W: u64 = 1_280_000;
const H: u64 = 720_000;

fn idle_input() -> FrameInput {
    FrameInput {
        rotate_left: false,
        rotate_right: false,
        thrust: false,
        thrust_released: false,
        fire_released: false,
    }
}

fn meteor_at(id: u64, x: i64, y: i64, size: u16) -> Meteor {
    let (speed, image) = match size {
        84 => (60, "sprites/meteors/meteorGrey_big1.png"),
        43 => (80, "sprites/meteors/meteorGrey_med1.png"),
        28 => (120, "sprites/meteors/meteorGrey_small1.png"),
        _ => (180, "sprites/meteors/meteorGrey_tiny1.png"),
    };
    Meteor { id, pos: Vec2 { x, y }, direction: Vec2 { x: 0, y: -1000 }, size, speed, image }
}

fn world_with(player: Option<Player>, meteors: Vec<Meteor>, lasers: Vec<Laser>) -> World {
    let fire = player.as_ref().map(|_| Fire { visible: false });
    World { next_id: 100, player, fire, meteors, lasers }
}

#[test]
fn catalog_has_exactly_four_sizes_with_paired_speeds() {
    let cat = meteor_catalog();
    assert_eq!(cat.len(), 8);
    for t in cat.iter() {
        let expected_speed = match t.size {
            84 => 60,
            43 => 80,
            28 => 120,
            18 => 180,
            other => panic!("unexpected size {other}"),
        };
        assert_eq!(t.speed, expected_speed);
        // Collision radius is half the size, halved on whole units.
        let radius_milli = ((t.size / 2) as i64) * 1000;
        assert_eq!(radius_milli, (t.size as i64 / 2) * 1000);
    }
}

#[test]
fn random_type_draws_from_the_catalog() {
    let cat = meteor_catalog();
    for _ in 0..64 {
        let t = random_type();
        assert!(cat.iter().any(|c| c.size == t.size && c.speed == t.speed && c.image == t.image));
    }
}

#[test]
fn uniform_scalar_stays_in_unit_range() {
    for _ in 0..256 {
        let r = uniform_scalar();
        assert!((0..1000).contains(&r));
    }
}

#[test]
fn isqrt_matches_exact_squares() {
    assert_eq!(isqrt(0), 0);
    assert_eq!(isqrt(1), 1);
    assert_eq!(isqrt(2), 1);
    assert_eq!(isqrt(250_000), 500);
    assert_eq!(isqrt(999_999), 999);
    assert_eq!(isqrt(1_000_000), 1000);
}

#[test]
fn normalize_yields_near_unit_vectors() {
    let v = normalize(300, 400);
    assert_eq!((v.x, v.y), (600, 800));
    let len_sq = v.x * v.x + v.y * v.y;
    assert!((996_000..=1_021_000).contains(&len_sq));
    let w = normalize(-300, 400);
    assert_eq!((w.x, w.y), (-600, 800));
}

#[test]
fn normalize_zero_vector_yields_no_movement() {
    let v = normalize(0, 0);
    assert_eq!((v.x, v.y), (0, 0));
}

#[test]
fn trig_hits_the_axes() {
    assert_eq!(sin_mdeg(0), 0);
    assert_eq!(sin_mdeg(90_000), 1000);
    assert_eq!(cos_mdeg(90_000), 0);
    assert_eq!(cos_mdeg(0), 1000);
    let d = heading_dir(90_000);
    assert_eq!((d.x, d.y), (0, 1000));
}

#[test]
fn boundary_clamp_pins_far_player_to_right_inset() {
    // Player at x = viewport width + 1000 world units.
    let p = Player { id: 0, pos: Vec2 { x: W as i64 + 1_000_000, y: 360_000 }, angle: 90_000 };
    let mut world = world_with(Some(p), vec![], vec![]);
    confine_player_movement(&mut world, W, H);
    let q = world.player.unwrap();
    assert_eq!(q.pos.x, W as i64 - 37_000);
    assert_eq!(q.pos.y, 360_000);
}

#[test]
fn boundary_cull_destroys_meteor_above_top_inset() {
    let out = meteor_at(1, 500_000, -1000, 84);
    let stays = meteor_at(2, 500_000, H as i64 / 2, 84);
    let mut world = world_with(None, vec![out, stays], vec![]);
    despawn_meteor(&mut world, W, H);
    assert_eq!(world.meteors.len(), 1);
    assert_eq!(world.meteors[0].id, 2);
}

#[test]
fn boundary_cull_is_per_axis() {
    // Outside on x only, still inside on y: destroyed all the same.
    let m = meteor_at(1, -50_000, H as i64 / 2, 43);
    let mut world = world_with(None, vec![m], vec![]);
    despawn_meteor(&mut world, W, H);
    assert_eq!(world.meteors.len(), 0);
}

#[test]
fn spawn_timer_fires_on_the_third_frame_of_point_four_seconds() {
    let mut world = new_world();
    let mut timer = new_spawn_timer();
    for frame in 0..3 {
        tick_meteor_spawn_timer(&mut timer, 400);
        spawn_meteors_over_time(&mut world, &timer, W, H);
        if frame < 2 {
            assert!(!timer.finished);
            assert_eq!(world.meteors.len(), 0);
        }
    }
    assert!(timer.finished);
    assert_eq!(world.meteors.len(), 1);
    assert_eq!(timer.elapsed_ms, 200);
}

#[test]
fn spawn_timer_carries_the_remainder_of_a_long_frame() {
    let mut timer = new_spawn_timer();
    tick_meteor_spawn_timer(&mut timer, 1500);
    assert!(timer.finished);
    assert_eq!(timer.elapsed_ms, 500);
    tick_meteor_spawn_timer(&mut timer, 400);
    assert!(!timer.finished);
    assert_eq!(timer.elapsed_ms, 900);
}

#[test]
fn collision_circle_test_matches_the_radii_sum() {
    let a = Vec2 { x: 100_000, y: 100_000 };
    let b = Vec2 { x: 100_000, y: 100_000 };
    let c = Vec2 { x: 200_000, y: 100_000 };
    // Distance 0 < 37 + 21.
    assert!(circles_collide(a, b, 37_000, 21_000));
    // Distance 100 >= 58.
    assert!(!circles_collide(a, c, 37_000, 21_000));
}

#[test]
fn meteor_hitting_player_destroys_it_with_a_crunch() {
    let p = Player { id: 0, pos: Vec2 { x: 100_000, y: 100_000 }, angle: 90_000 };
    let m = meteor_at(1, 100_000, 100_000, 43);
    let mut world = world_with(Some(p), vec![m], vec![]);
    let ev = meteor_hit_player(&mut world);
    assert!(world.player.is_none());
    assert!(world.fire.is_none());
    assert_eq!(world.meteors.len(), 1);
    assert_eq!(ev.len(), 1);
    match ev[0] {
        GameEvent::Sound { key } => assert_eq!(key, "audio/explosionCrunch_000.ogg"),
        _ => panic!("expected a sound request"),
    }
}

#[test]
fn distant_meteor_leaves_player_alone() {
    let p = Player { id: 0, pos: Vec2 { x: 100_000, y: 100_000 }, angle: 90_000 };
    let m = meteor_at(1, 200_000, 100_000, 43);
    let mut world = world_with(Some(p), vec![m], vec![]);
    let ev = meteor_hit_player(&mut world);
    assert!(world.player.is_some());
    assert!(ev.is_empty());
}

#[test]
fn one_laser_two_overlapping_meteors_destroys_only_the_first() {
    let l = Laser {
        id: 10,
        pos: Vec2 { x: 100_000, y: 100_000 },
        direction: Vec2 { x: 0, y: 1000 },
    };
    let m1 = meteor_at(1, 100_000, 100_000, 84);
    let m2 = meteor_at(2, 110_000, 100_000, 84);
    let mut world = world_with(None, vec![m1, m2], vec![l]);
    let ev = laser_hit_meteor(&mut world);
    assert_eq!(world.lasers.len(), 0);
    assert_eq!(world.meteors.len(), 1);
    assert_eq!(world.meteors[0].id, 2);
    assert_eq!(ev.len(), 2);
    match ev[0] {
        GameEvent::Explosion { image, pos } => {
            assert_eq!(image, "sprites/effects/explosion01.png");
            assert_eq!(pos, Vec2 { x: 100_000, y: 100_000 });
        }
        _ => panic!("expected an explosion request"),
    }
    match ev[1] {
        GameEvent::Sound { key } => assert_eq!(key, "audio/explosionCrunch_000.ogg"),
        _ => panic!("expected a sound request"),
    }
}

#[test]
fn laser_passes_by_a_distant_meteor() {
    let l = Laser { id: 10, pos: Vec2 { x: 100_000, y: 100_000 }, direction: Vec2 { x: 0, y: 1000 } };
    // 43-size meteor: hit radius 37 + 21 = 58; distance 100.
    let m = meteor_at(1, 200_000, 100_000, 43);
    let mut world = world_with(None, vec![m], vec![l]);
    let ev = laser_hit_meteor(&mut world);
    assert_eq!(world.lasers.len(), 1);
    assert_eq!(world.meteors.len(), 1);
    assert!(ev.is_empty());
}

#[test]
fn explosion_sprites_follow_the_size_classes() {
    assert_eq!(meteor_at(0, 0, 0, 84).explosion(), "sprites/effects/explosion01.png");
    assert_eq!(meteor_at(0, 0, 0, 43).explosion(), "sprites/effects/explosion02.png");
    assert_eq!(meteor_at(0, 0, 0, 28).explosion(), "sprites/effects/explosion03.png");
    assert_eq!(meteor_at(0, 0, 0, 18).explosion(), "sprites/effects/explosion04.png");
}

#[test]
fn entering_game_spawns_four_meteors_and_one_player() {
    let mut world = new_world();
    enter_game(&mut world, W, H);
    assert_eq!(world.meteors.len(), 4);
    assert!(world.player.is_some());
    assert_eq!(world.fire, Some(Fire { visible: false }));
    let cat = meteor_catalog();
    for m in world.meteors.iter() {
        assert!([84u16, 43, 28, 18].contains(&m.size));
        assert_eq!(m.pos.y, H as i64 - (m.size as i64) * 500);
        assert!(m.pos.x >= 0 && m.pos.x < W as i64);
        assert!(m.direction.y <= 0);
        // The drawn sprite belongs to the same archetype as the size and
        // speed.
        assert!(cat.iter().any(|c| c.size == m.size && c.speed == m.speed && c.image == m.image));
        // Near-unit direction, except the double-zero draw which must
        // yield no movement.
        let len_sq = m.direction.x * m.direction.x + m.direction.y * m.direction.y;
        assert!(
            (m.direction.x == 0 && m.direction.y == 0)
                || (996_000..=1_021_000).contains(&len_sq)
        );
    }
    let p = world.player.unwrap();
    assert_eq!(p.pos.x, (W / 2) as i64);
    assert_eq!(p.pos.y, (H / 2) as i64);
    assert_eq!(p.angle, 90_000);
}

#[test]
fn exiting_game_leaves_nothing_behind() {
    let mut world = new_world();
    enter_game(&mut world, W, H);
    let l = Laser { id: 50, pos: Vec2 { x: 100_000, y: 100_000 }, direction: Vec2 { x: 0, y: 1000 } };
    world.lasers.push(l);
    exit_game(&mut world);
    assert!(world.player.is_none());
    assert!(world.fire.is_none());
    assert_eq!(world.meteors.len(), 0);
    assert_eq!(world.lasers.len(), 0);
}

#[test]
fn meteor_movement_advances_by_speed_times_time() {
    // 84-size meteor, 60 units per second, one second straight down.
    let m = meteor_at(1, 500_000, 500_000, 84);
    let mut world = world_with(None, vec![m], vec![]);
    meteor_movement(&mut world, 1000);
    assert_eq!(world.meteors[0].pos.y, 500_000 - 60_000);
    assert_eq!(world.meteors[0].pos.x, 500_000);
}

#[test]
fn laser_movement_uses_the_fixed_laser_speed() {
    let l = Laser { id: 1, pos: Vec2 { x: 100_000, y: 100_000 }, direction: Vec2 { x: 0, y: 1000 } };
    let mut world = world_with(None, vec![], vec![l]);
    laser_movement(&mut world, 100);
    assert_eq!(world.lasers[0].pos.y, 100_000 + 50_000);
}

#[test]
fn thrust_moves_along_the_heading_and_shows_the_exhaust() {
    let p = Player { id: 0, pos: Vec2 { x: 500_000, y: 300_000 }, angle: 90_000 };
    let mut world = world_with(Some(p), vec![], vec![]);
    let input = FrameInput { thrust: true, ..idle_input() };
    player_movement(&mut world, input, 1000);
    let q = world.player.unwrap();
    assert_eq!(q.pos.y, 300_000 + 500_000);
    assert_eq!(q.pos.x, 500_000);
    assert_eq!(world.fire, Some(Fire { visible: true }));
}

#[test]
fn releasing_thrust_hides_the_exhaust_and_stops_movement() {
    let p = Player { id: 0, pos: Vec2 { x: 500_000, y: 300_000 }, angle: 90_000 };
    let mut world = world_with(Some(p), vec![], vec![]);
    world.fire = Some(Fire { visible: true });
    let input = FrameInput { thrust_released: true, ..idle_input() };
    player_movement(&mut world, input, 1000);
    let q = world.player.unwrap();
    assert_eq!(q.pos, Vec2 { x: 500_000, y: 300_000 });
    assert_eq!(world.fire, Some(Fire { visible: false }));
}

#[test]
fn rotation_runs_at_ninety_degrees_per_second_and_wraps() {
    let p = Player { id: 0, pos: Vec2 { x: 500_000, y: 300_000 }, angle: 90_000 };
    let mut world = world_with(Some(p), vec![], vec![]);
    let input = FrameInput { rotate_left: true, ..idle_input() };
    player_movement(&mut world, input, 500);
    assert_eq!(world.player.unwrap().angle, 135_000);
    let input = FrameInput { rotate_right: true, ..idle_input() };
    player_movement(&mut world, input, 2000);
    // 135 - 180 wraps to 315 degrees.
    assert_eq!(world.player.unwrap().angle, 315_000);
}

#[test]
fn laser_fires_on_the_release_edge_only() {
    let p = Player { id: 0, pos: Vec2 { x: 500_000, y: 300_000 }, angle: 90_000 };
    let mut world = world_with(Some(p), vec![], vec![]);
    let held = FrameInput { ..idle_input() };
    let ev = handle_fire_laser(&mut world, held);
    assert!(world.lasers.is_empty() && ev.is_empty());
    let released = FrameInput { fire_released: true, ..idle_input() };
    let ev = handle_fire_laser(&mut world, released);
    assert_eq!(world.lasers.len(), 1);
    let l = &world.lasers[0];
    assert_eq!(l.pos, Vec2 { x: 500_000, y: 300_000 });
    assert_eq!(l.direction, Vec2 { x: 0, y: 1000 });
    assert_eq!(ev.len(), 1);
    match ev[0] {
        GameEvent::Sound { key } => assert_eq!(key, "audio/laserLarge_000.ogg"),
        _ => panic!("expected a sound request"),
    }
}

#[test]
fn destroying_a_handle_twice_is_a_no_op() {
    let m1 = meteor_at(1, 500_000, 300_000, 84);
    let m2 = meteor_at(2, 600_000, 300_000, 43);
    let mut world = world_with(None, vec![m1, m2], vec![]);
    world.destroy_meteor(1);
    assert_eq!(world.meteors.len(), 1);
    world.destroy_meteor(1);
    assert_eq!(world.meteors.len(), 1);
    world.destroy_meteor(999);
    assert_eq!(world.meteors.len(), 1);
    assert_eq!(world.meteors[0].id, 2);
}

#[test]
fn despawn_meteors_clears_them_all() {
    let mut world = world_with(None, vec![meteor_at(1, 1, 1, 84), meteor_at(2, 2, 2, 18)], vec![]);
    despawn_meteors(&mut world);
    assert!(world.meteors.is_empty());
}

#[test]
fn spawn_meteors_adds_four_with_fresh_handles() {
    let mut world = new_world();
    spawn_meteors(&mut world, W, H);
    assert_eq!(world.meteors.len(), 4);
    let ids: Vec<u64> = world.meteors.iter().map(|m| m.id).collect();
    assert_eq!(ids, vec![0, 1, 2, 3]);
    assert_eq!(world.next_id, 4);
}

#[test]
fn game_over_frame_changes_nothing() {
    let mut world = new_world();
    enter_game(&mut world, W, H);
    let before_meteors = world.meteors.clone();
    let mut timer = new_spawn_timer();
    let ev = run_frame(&mut world, &mut timer, AppState::GameOver, idle_input(), 400, W, H);
    assert!(ev.is_empty());
    assert_eq!(world.meteors, before_meteors);
    assert_eq!(timer.elapsed_ms, 0);
}

#[test]
fn a_game_frame_runs_the_pipeline() {
    let mut world = new_world();
    enter_game(&mut world, W, H);
    let mut timer = new_spawn_timer();
    let before = world.meteors.clone();
    run_frame(&mut world, &mut timer, AppState::Game, idle_input(), 100, W, H);
    // The frame really ran: the timer advanced and every meteor moved by
    // its own direction times speed times 0.1 s.
    assert_eq!(timer.elapsed_ms, 100);
    for (m, b) in world.meteors.iter().zip(before.iter()) {
        assert_eq!(m.pos.x, b.pos.x + b.direction.x * b.speed * 100 / 1000);
        assert_eq!(m.pos.y, b.pos.y + b.direction.y * b.speed * 100 / 1000);
    }
    for _ in 0..9 {
        run_frame(&mut world, &mut timer, AppState::Game, idle_input(), 100, W, H);
    }
    // One second elapsed: the repeating timer has fired exactly once, and
    // culling may only ever remove meteors.
    assert!(world.meteors.len() <= 5);
    assert!(world.player.is_some());
}
