//! The game lifecycle and the explicit frame pipeline: what runs on
//! entering and leaving the `Game` state, and the fixed order of the
//! systems within one frame.

use crate::math::Vec2;
use crate::meteor::{
    cull_meteors_rel, despawn_meteor, despawn_meteors, meteor_movement, meteor_movement_rel,
    spawn_meteors, spawn_meteors_over_time, spawn_over_time_rel, tick_meteor_spawn_timer,
    timer_tick_rel, SpawnTimer,
};
use crate::player::{
    confine_player_movement, confine_player_rel, cull_lasers_rel, despawn_laser, despawn_player,
    fire_laser_rel, handle_fire_laser, hit_player_rel, laser_hit_meteor, laser_hit_rel,
    laser_movement, laser_movement_rel, meteor_hit_player, player_movement, player_movement_rel,
    Fire, Player,
};
use crate::world::{FrameInput, GameEvent, World, POS_LIMIT};
use crate::AppState;
use vstd::prelude::*;

verus! {

/// Entering `Game`: spawn the initial batch of four meteors and exactly
/// one player with its hidden exhaust effect.
pub fn enter_game(world: &mut World, w: u64, h: u64)
    requires
        old(world).wf(),
        old(world).next_id <= u64::MAX - 5,
        84_000 <= w <= 1_000_000_000,
        84_000 <= h <= 1_000_000_000,
    ensures
        final(world).wf(),
        final(world).meteors@.len() == old(world).meteors@.len() + 4,
        final(world).meteors@.subrange(0, old(world).meteors@.len() as int) == old(
            world,
        ).meteors@,
        forall|k: int|
            old(world).meteors@.len() <= k < final(world).meteors@.len()
                ==> crate::meteor::spawned_meteor_ok(
                #[trigger] final(world).meteors@[k],
                old(world).next_id + k - old(world).meteors@.len(),
                w as int,
                h as int,
            ),
        final(world).player == (Some(
            Player {
                id: (old(world).next_id + 4) as u64,
                pos: Vec2 { x: (w / 2) as i64, y: (h / 2) as i64 },
                angle: 90_000,
            },
        )),
        final(world).fire == (Some(Fire { visible: false })),
        final(world).lasers == old(world).lasers,
        final(world).next_id == old(world).next_id + 5,
        (old(world).meteors_within(1_000_000_000) && old(world).lasers_within(1_000_000_000))
            ==> final(world).positions_within(POS_LIMIT as int),
{
    spawn_meteors(world, w, h);
    crate::player::spawn_player(world, w, h);
    proof {
        if old(world).meteors_within(1_000_000_000) && old(world).lasers_within(1_000_000_000) {
            crate::world::lemma_within_weaken(*world, 1_000_000_000, POS_LIMIT as int);
        }
    }
}

/// Leaving `Game`: destroy every player, exhaust effect, meteor and
/// laser, so nothing of the session survives into the next state.
pub fn exit_game(world: &mut World)
    requires
        old(world).wf(),
    ensures
        final(world).wf(),
        final(world).player.is_none(),
        final(world).fire.is_none(),
        final(world).meteors@.len() == 0,
        final(world).lasers@.len() == 0,
        final(world).next_id == old(world).next_id,
{
    despawn_meteors(world);
    despawn_player(world);
    world.lasers = Vec::new();
}

/// One `Game`-state frame is the ordered composition of the systems:
/// there are intermediate worlds and event batches such that player,
/// meteor and laser movement, the player clamp, the meteor and laser
/// culls, the timer tick, the timed spawn, the weapon pass, the player
/// collision and the laser collision each relate one world to the next by
/// that system's own relation, and the returned requests are the weapon's,
/// the player collision's and the laser collision's, concatenated in that
/// order.  (The intermediates are existential because the spawn and spawn
/// direction draw random values.)
pub open spec fn frame_outcome(
    w0: World,
    wz: World,
    t0: SpawnTimer,
    t1: SpawnTimer,
    input: FrameInput,
    dt: int,
    vw: int,
    vh: int,
    ev: Seq<GameEvent>,
) -> bool {
    &&& timer_tick_rel(t0, t1, dt)
    &&& exists|
        w1: World,
        w2: World,
        w3: World,
        w4: World,
        w5: World,
        w6: World,
        w7: World,
        w8: World,
        w9: World,
        e1: Seq<GameEvent>,
        e2: Seq<GameEvent>,
        e3: Seq<GameEvent>,
    |
        {
            &&& #[trigger] player_movement_rel(w0, w1, input, dt)
            &&& #[trigger] meteor_movement_rel(w1, w2, dt)
            &&& #[trigger] laser_movement_rel(w2, w3, dt)
            &&& #[trigger] confine_player_rel(w3, w4, vw, vh)
            &&& #[trigger] cull_meteors_rel(w4, w5, vw, vh)
            &&& #[trigger] cull_lasers_rel(w5, w6, vw, vh)
            &&& #[trigger] spawn_over_time_rel(w6, w7, t1, vw, vh)
            &&& #[trigger] fire_laser_rel(w7, w8, input, e1)
            &&& #[trigger] hit_player_rel(w8, w9, e2)
            &&& #[trigger] laser_hit_rel(w9, wz, e3)
            &&& ev == e1 + e2 + e3
        }
}

/// One frame of the simulation, in the fixed system order: movement
/// first, then the boundary policy (clamp and cull) on the post-move
/// positions, then the spawn controller, then the weapon system, and the
/// collision detector last so it sees the frame's final positions.  In
/// `GameOver` nothing runs.  The returned requests are the frame's
/// fire-and-forget sounds and explosion sprites, in the order the systems
/// raised them.
#[verifier::loop_isolation(false)]
pub fn run_frame(
    world: &mut World,
    timer: &mut SpawnTimer,
    state: AppState,
    input: FrameInput,
    dt: i64,
    w: u64,
    h: u64,
) -> (ev: Vec<GameEvent>)
    requires
        old(world).wf(),
        crate::meteor::timer_wf(*old(timer)),
        old(world).positions_within(POS_LIMIT as int),
        old(world).next_id <= u64::MAX - 8,
        0 <= dt <= 1_000_000,
        84_000 <= w <= 1_000_000_000,
        84_000 <= h <= 1_000_000_000,
    ensures
        final(world).wf(),
        crate::meteor::timer_wf(*final(timer)),
        final(world).positions_within(POS_LIMIT as int),
        state == AppState::GameOver ==> *final(world) == *old(world) && *final(timer) == *old(
            timer,
        ) && ev@.len() == 0,
        state == AppState::Game ==> frame_outcome(
            *old(world),
            *final(world),
            *old(timer),
            *final(timer),
            input,
            dt as int,
            w as int,
            h as int,
            ev@,
        ),
{
    match state {
        AppState::GameOver => Vec::new(),
        AppState::Game => {
            player_movement(world, input, dt);
            let ghost g1 = *world;
            meteor_movement(world, dt);
            let ghost g2 = *world;
            laser_movement(world, dt);
            let ghost g3 = *world;
            confine_player_movement(world, w, h);
            let ghost g4 = *world;
            despawn_meteor(world, w, h);
            let ghost g5 = *world;
            despawn_laser(world, w, h);
            let ghost g6 = *world;
            tick_meteor_spawn_timer(timer, dt);
            spawn_meteors_over_time(world, timer, w, h);
            let ghost g7 = *world;
            let mut ev = handle_fire_laser(world, input);
            let ghost g8 = *world;
            let ghost e1 = ev@;
            proof {
                crate::world::lemma_within_weaken(
                    *world,
                    1_000_000_000,
                    POS_LIMIT + crate::world::MOVE_SLACK,
                );
            }
            let mut ev2 = meteor_hit_player(world);
            let ghost g9 = *world;
            let ghost e2 = ev2@;
            ev.append(&mut ev2);
            let ghost pre = *world;
            let mut ev3 = laser_hit_meteor(world);
            let ghost e3 = ev3@;
            ev.append(&mut ev3);
            proof {
                let r = crate::player::greedy_from(
                    pre.lasers@,
                    pre.meteors@,
                    0,
                    Seq::new(pre.meteors@.len(), |i: int| true),
                );
                assert forall|i: int|
                    0 <= i < world.meteors@.len() implies crate::world::pos_ok(
                    (#[trigger] world.meteors@[i]).pos,
                    1_000_000_000,
                ) by {
                    assert(world.meteors@.contains(world.meteors@[i]));
                    crate::player::lemma_mask_contains(pre.meteors@, r.1, world.meteors@[i]);
                    let x = choose|x: int|
                        0 <= x < pre.meteors@.len() && pre.meteors@[x] == world.meteors@[i];
                    assert(crate::world::pos_ok(pre.meteors@[x].pos, 1_000_000_000));
                }
                assert forall|i: int|
                    0 <= i < world.lasers@.len() implies crate::world::pos_ok(
                    (#[trigger] world.lasers@[i]).pos,
                    1_000_000_000,
                ) by {
                    assert(world.lasers@.contains(world.lasers@[i]));
                    crate::player::lemma_mask_contains(pre.lasers@, r.0, world.lasers@[i]);
                    let x = choose|x: int|
                        0 <= x < pre.lasers@.len() && pre.lasers@[x] == world.lasers@[i];
                    assert(crate::world::pos_ok(pre.lasers@[x].pos, 1_000_000_000));
                }
                crate::world::lemma_within_weaken(*world, 1_000_000_000, POS_LIMIT as int);
                assert(ev@ =~= e1 + e2 + e3);
                assert(frame_outcome(
                    *old(world),
                    *world,
                    *old(timer),
                    *timer,
                    input,
                    dt as int,
                    w as int,
                    h as int,
                    ev@,
                )) by {
                    assert(player_movement_rel(*old(world), g1, input, dt as int));
                    assert(meteor_movement_rel(g1, g2, dt as int));
                    assert(laser_movement_rel(g2, g3, dt as int));
                    assert(confine_player_rel(g3, g4, w as int, h as int));
                    assert(cull_meteors_rel(g4, g5, w as int, h as int));
                    assert(cull_lasers_rel(g5, g6, w as int, h as int));
                    assert(spawn_over_time_rel(g6, g7, *timer, w as int, h as int));
                    assert(fire_laser_rel(g7, g8, input, e1));
                    assert(hit_player_rel(g8, g9, e2));
                    assert(laser_hit_rel(g9, *world, e3));
                    assert(ev@ == e1 + e2 + e3);
                }
            }
            ev
        },
    }
}

} // verus!
