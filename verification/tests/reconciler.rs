use fartball::fx::SCALE;
use fartball::guy::{CannonConfig, Config, Guy};
use fartball::level::LevelInfo;
use fartball::game::{ClientMessage, Game, ServerMessage};
use fartball::net::Reconciler;
use fartball::vec2::Vec2;

fn base_config() -> Config {
    Config {
        gravity: 10 * SCALE,
        angular_acceleration: SCALE,
        max_angular_speed: 4 * SCALE,
        guy_radius: 500_000,
        guy_mass: SCALE,
        max_penetration: 1_000_000,
        fart_pressure_released: 1_000_000_000,
        max_fart_pressure: 2_000_000_000,
        fart_continuation_pressure_speed: SCALE,
        force_fart_pressure_multiplier: 2 * SCALE,
        fart_continued_force: SCALE,
        fart_strength: 10 * SCALE,
        growl_time: SCALE,
        bubble_time: SCALE,
        bubble_target_speed: SCALE,
        bubble_acceleration: SCALE,
        stick_force_fadeout_speed: SCALE,
        snow_falloff_impulse_min: 0,
        snow_falloff_impulse_max: SCALE,
        max_snow_layer: SCALE,
        cannon: CannonConfig { activate_distance: SCALE, shoot_time: 100_000, strength: 5 * SCALE },
        portal_size: SCALE,
    }
}

fn guy_at(id: i64, x: i64) -> Guy {
    Guy::spawn(id, Vec2 { x, y: 0 }, &base_config())
}

#[test]
fn later_snapshot_wins_out_of_order_arrival() {
    // The snapshot stamped t2 = 2s arrives before the one stamped t1 = 1s.
    // Buffering is by timestamp, so once the tracked clock passes t2 the
    // visible state is the t2 snapshot.
    let mut r = Reconciler::new();
    let early = guy_at(7, 1_000_000);
    let late = guy_at(7, 2_000_000);
    r.enqueue_update(7, 2_000_000, late);
    // The tracked clock starts one second behind the first arrival: 1s.
    r.enqueue_update(7, 1_000_000, early);
    let (applied, stale) = r.advance(1_000_000);
    // Clock reached 2s: both snapshots are due, in order t1 then t2.
    assert_eq!(applied.len(), 1);
    assert_eq!(applied[0].id, 7);
    assert_eq!(applied[0].guy, late);
    assert!(stale.is_empty());
}

#[test]
fn snapshots_apply_in_timestamp_order_when_partially_due() {
    let mut r = Reconciler::new();
    let a = guy_at(3, 10);
    let b = guy_at(3, 20);
    r.enqueue_update(3, 2_000_000, b);
    r.enqueue_update(3, 1_000_000, a);
    // Clock starts at 1s; nothing more arrives.  First advance by 0: only
    // the t1 snapshot is due.
    let (applied, _) = r.advance(0);
    assert_eq!(applied.len(), 1);
    assert_eq!(applied[0].guy, a);
    // One more second: now the t2 snapshot lands.
    let (applied2, _) = r.advance(1_000_000);
    assert_eq!(applied2.len(), 1);
    assert_eq!(applied2[0].guy, b);
}

#[test]
fn stale_entity_is_removed_after_five_seconds() {
    // One snapshot at t = 0, then silence while the tracked clock advances
    // one second per tick: after drifting more than 5 simulated seconds past
    // the newest snapshot, the entity is dropped.
    let mut r = Reconciler::new();
    r.enqueue_update(9, 0, guy_at(9, 0));
    assert_eq!(r.entities.len(), 1);
    let mut removed_at = None;
    for step in 0..10 {
        let (_, stale) = r.advance(1_000_000);
        if r.entities.len() == 0 {
            assert_eq!(stale, vec![9], "the dropped id is reported");
            removed_at = Some(step);
            break;
        }
        assert!(stale.is_empty());
    }
    // The clock starts at -1s; it exceeds 0 + 5s strictly after 7 advances.
    assert_eq!(removed_at, Some(6));
}

#[test]
fn explicit_despawn_removes_immediately() {
    let mut r = Reconciler::new();
    r.enqueue_update(4, 1_000_000, guy_at(4, 0));
    r.enqueue_update(5, 1_000_000, guy_at(5, 0));
    assert_eq!(r.entities.len(), 2);
    r.despawn(4);
    assert_eq!(r.entities.len(), 1);
    assert_eq!(r.entities[0].id, 5);
    // Despawning an unknown id changes nothing.
    r.despawn(4);
    assert_eq!(r.entities.len(), 1);
}

#[test]
fn session_applies_due_remote_snapshots() {
    let config = base_config();
    let mut game = Game::new(config, LevelInfo::empty(), 1);
    let remote = guy_at(7, 3_000_000);
    let msgs = vec![ServerMessage::UpdateGuy { simulation_time: 1_000_000, guy: remote }];
    let replies = game.handle_connection(&msgs);
    assert!(replies.is_empty());
    assert_eq!(game.guys.len(), 0, "snapshots are staged, not applied directly");
    game.sync_remote(1_000_000);
    assert_eq!(game.guys.len(), 1);
    assert_eq!(game.guys[0].ball.pos.x, 3_000_000);
    assert_eq!(game.guys[0].id, 7);
}

#[test]
fn pong_triggers_ping_and_state_resend() {
    let config = base_config();
    let mut game = Game::new(config, LevelInfo::empty(), 1);
    let replies = game.handle_connection(&vec![ServerMessage::Pong]);
    assert_eq!(replies, vec![ClientMessage::Ping]);
    let despawn = game.respawn_my_guy();
    assert_eq!(despawn, ClientMessage::Despawn);
    assert_eq!(game.my_guy, Some(1));
    let replies2 = game.handle_connection(&vec![ServerMessage::Pong]);
    assert_eq!(replies2.len(), 2);
    assert_eq!(replies2[0], ClientMessage::Ping);
    assert!(matches!(replies2[1], ClientMessage::Update { .. }));
}

#[test]
fn force_reset_respawns_and_announces_despawn() {
    let config = base_config();
    let mut game = Game::new(config, LevelInfo::empty(), 5);
    let replies = game.handle_connection(&vec![ServerMessage::ForceReset]);
    assert_eq!(replies, vec![ClientMessage::Despawn]);
    assert_eq!(game.my_guy, Some(5));
    assert_eq!(game.guys.len(), 1);
    assert_eq!(game.guys[0].id, 5);
    assert_eq!(game.simulation_time, 0);
}

#[test]
fn server_despawn_removes_guy_and_buffer() {
    let config = base_config();
    let mut game = Game::new(config, LevelInfo::empty(), 1);
    let remote = guy_at(7, 3_000_000);
    game.handle_connection(&vec![ServerMessage::UpdateGuy {
        simulation_time: 1_000_000,
        guy: remote,
    }]);
    game.sync_remote(1_000_000);
    assert_eq!(game.guys.len(), 1);
    game.handle_connection(&vec![ServerMessage::Despawn { id: 7 }]);
    assert_eq!(game.guys.len(), 0);
    assert_eq!(game.reconciler.entities.len(), 0);
}

#[test]
fn input_change_is_announced_once() {
    let config = base_config();
    let mut game = Game::new(config, LevelInfo::empty(), 1);
    game.respawn_my_guy();
    let held = fartball::guy::Input { roll_direction: SCALE, force_fart: false };
    let first = game.update_my_guy_input(held);
    assert!(matches!(first, Some(ClientMessage::Update { .. })));
    let second = game.update_my_guy_input(held);
    assert!(second.is_none(), "unchanged input is not re-sent");
}

#[test]
fn fixed_update_advances_clock_until_finished() {
    let config = base_config();
    let mut level = LevelInfo::empty();
    level.finish_point = Vec2 { x: 50_000_000, y: 0 };
    let mut game = Game::new(config, level, 1);
    game.respawn_my_guy();
    let mut events = Vec::new();
    game.fixed_update(10_000, &mut events);
    game.fixed_update(10_000, &mut events);
    assert_eq!(game.simulation_time, 20_000);
    // A finished local avatar freezes the clock.
    let mut me = game.guys[0];
    me.progress.finished = true;
    game.guys[0] = me;
    game.fixed_update(10_000, &mut events);
    assert_eq!(game.simulation_time, 20_000);
}

#[test]
fn stale_remote_avatar_leaves_the_session() {
    // A remote snapshot arrives once and the connection then goes silent:
    // after the tracked clock drifts past the desync threshold, both the
    // tracking record and the avatar itself are gone from the session.
    let config = base_config();
    let mut level = LevelInfo::empty();
    level.finish_point = Vec2 { x: 50_000_000, y: 0 };
    let mut game = Game::new(config, level, 1);
    game.handle_connection(&vec![ServerMessage::UpdateGuy {
        simulation_time: 0,
        guy: guy_at(7, 3_000_000),
    }]);
    let mut events = Vec::new();
    game.fixed_update(1_000_000, &mut events);
    assert!(game.guys.iter().any(|g| g.id == 7), "the due snapshot appears");
    for _ in 0..6 {
        game.fixed_update(1_000_000, &mut events);
    }
    assert_eq!(game.reconciler.entities.len(), 0, "tracking record dropped");
    assert!(game.guys.iter().all(|g| g.id != 7), "avatar dropped with it");
}

#[test]
fn progress_bookkeeping_keeps_the_best() {
    let config = base_config();
    let mut level = LevelInfo::empty();
    level.finish_point = Vec2 { x: 50_000_000, y: 0 };
    level.max_progress_distance = 2_000_000;
    level.expected_path.push(vec![Vec2 { x: 0, y: 0 }, Vec2 { x: 10_000_000, y: 0 }]);
    let mut game = Game::new(config, level, 1);
    game.respawn_my_guy();
    // Halfway along the path.
    game.guys[0].ball.pos = Vec2 { x: 5_000_000, y: 1_000_000 };
    game.update_progress();
    assert_eq!(game.guys[0].progress.fraction, 500_000);
    assert_eq!(game.guys[0].progress.best_fraction, 500_000);
    // Rolling backwards lowers the fraction but not the best.
    game.guys[0].ball.pos = Vec2 { x: 2_500_000, y: 1_000_000 };
    game.update_progress();
    assert_eq!(game.guys[0].progress.fraction, 250_000);
    assert_eq!(game.guys[0].progress.best_fraction, 500_000);
    // Far from the path the fraction is kept, not zeroed.
    game.guys[0].ball.pos = Vec2 { x: 5_000_000, y: 9_000_000 };
    game.update_progress();
    assert_eq!(game.guys[0].progress.fraction, 250_000);
    // The best time is the minimum finishing time.
    game.guys[0].progress.finished = true;
    game.simulation_time = 77_000;
    game.update_progress();
    assert_eq!(game.guys[0].progress.best_time, Some(77_000));
    game.simulation_time = 99_000;
    game.update_progress();
    assert_eq!(game.guys[0].progress.best_time, Some(77_000));
    game.simulation_time = 50_000;
    game.update_progress();
    assert_eq!(game.guys[0].progress.best_time, Some(50_000));
}
