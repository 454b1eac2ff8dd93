use fartball::fx::SCALE;
use fartball::guy::{CannonConfig, Config, Guy};
use fartball::tas::Tas;
use fartball::vec2::Vec2;

fn base_config() -> Config {
    Config {
        gravity: 10 * SCALE,
        angular_acceleration: SCALE,
        max_angular_speed: 4 * SCALE,
        guy_radius: 500_000,
        guy_mass: SCALE,
        max_penetration: 1_000_000,
        fart_pressure_released: 1_000_000_000,
        max_fart_pressure: 2_000_000_000,
        fart_continuation_pressure_speed: SCALE,
        force_fart_pressure_multiplier: 2 * SCALE,
        fart_continued_force: SCALE,
        fart_strength: 10 * SCALE,
        growl_time: SCALE,
        bubble_time: SCALE,
        bubble_target_speed: SCALE,
        bubble_acceleration: SCALE,
        stick_force_fadeout_speed: SCALE,
        snow_falloff_impulse_min: 0,
        snow_falloff_impulse_max: SCALE,
        max_snow_layer: SCALE,
        cannon: CannonConfig { activate_distance: SCALE, shoot_time: 100_000, strength: 5 * SCALE },
        portal_size: SCALE,
    }
}

fn guy_at(x: i64) -> Guy {
    Guy::spawn(1, Vec2 { x, y: 0 }, &base_config())
}

const TICK: i64 = 1_000_000;

#[test]
fn save_then_load_is_the_identity() {
    let mut tas = Tas::new();
    for i in 0..5 {
        tas.record(TICK, guy_at(i));
    }
    let snapshot = guy_at(42);
    let saved_time = tas.time;
    tas.save_state(snapshot);
    // Keep playing past the save.
    for i in 5..9 {
        tas.record(TICK, guy_at(i));
    }
    assert_eq!(tas.time, 9 * TICK);
    let restored = tas.load_state(0, guy_at(999));
    assert_eq!(restored, Some(snapshot), "round trip reproduces the exact snapshot");
    assert_eq!(tas.time, saved_time, "recording cursor reset to the saved time");
    assert_eq!(tas.timeline.len(), 5, "timeline restored wholesale");
}

#[test]
fn loading_an_unknown_save_changes_nothing() {
    let mut tas = Tas::new();
    tas.record(TICK, guy_at(1));
    let restored = tas.load_state(3, guy_at(0));
    assert!(restored.is_none());
    assert_eq!(tas.timeline.len(), 1);
}

#[test]
fn rewind_then_record_discards_the_old_future() {
    // Record ticks 1..=10, rewind to tick 4, then advance 3 new ticks: the
    // timeline must hold exactly the first 4 ticks followed by the 3 new
    // ones.
    let mut tas = Tas::new();
    for i in 0..10 {
        tas.record(TICK, guy_at(i));
    }
    assert_eq!(tas.timeline.len(), 10);
    let restored = tas.rewind_to(4 * TICK, guy_at(999));
    // The nearest not-yet-passed entry is the one at exactly 4s.
    assert_eq!(restored.map(|g| g.ball.pos.x), Some(3));
    for i in 100..103 {
        tas.record(TICK, guy_at(i));
    }
    assert_eq!(tas.timeline.len(), 7);
    for i in 0..4 {
        assert_eq!(tas.timeline[i].time, (i as i64 + 1) * TICK);
        assert_eq!(tas.timeline[i].guy.ball.pos.x, i as i64);
    }
    for i in 4..7 {
        assert_eq!(tas.timeline[i].time, (i as i64 + 1) * TICK);
        assert_eq!(tas.timeline[i].guy.ball.pos.x, 96 + i as i64);
    }
    assert_eq!(tas.time, 7 * TICK);
}

#[test]
fn rewind_restore_preserves_cosmetics() {
    let mut tas = Tas::new();
    let mut recorded = guy_at(5);
    recorded.look.name_id = 1;
    recorded.look.color_id = 2;
    tas.record(TICK, recorded);
    let mut current = guy_at(50);
    current.look.name_id = 7;
    current.look.color_id = 8;
    let restored = tas.rewind_to(TICK, current).unwrap();
    assert_eq!(restored.ball.pos.x, 5, "kinematic state comes from the timeline");
    assert_eq!(restored.look, current.look, "cosmetic identity is kept");
}

#[test]
fn pause_freezes_recording_entirely() {
    let mut tas = Tas::new();
    tas.record(TICK, guy_at(1));
    tas.set_paused(true);
    tas.record(TICK, guy_at(2));
    tas.record(TICK, guy_at(3));
    assert_eq!(tas.timeline.len(), 1);
    assert_eq!(tas.time, TICK);
    tas.set_paused(false);
    tas.record(TICK, guy_at(2));
    assert_eq!(tas.timeline.len(), 2);
}

#[test]
fn replay_drives_state_from_the_recording() {
    let mut tas = Tas::new();
    for i in 0..3 {
        tas.record(TICK, guy_at(i * 10));
    }
    tas.start_replay();
    let first = tas.replay_tick(TICK);
    assert_eq!(first.map(|g| g.ball.pos.x), Some(0));
    let second = tas.replay_tick(TICK);
    assert_eq!(second.map(|g| g.ball.pos.x), Some(10));
    let third = tas.replay_tick(TICK);
    assert_eq!(third.map(|g| g.ball.pos.x), Some(20));
    // Past the end of the recording the last snapshot stays current.
    let after = tas.replay_tick(TICK);
    assert_eq!(after.map(|g| g.ball.pos.x), Some(20));
}
