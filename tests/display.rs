use soulstar::colour::Rgb;
use soulstar::configuration::{NEW_SOUL_ANIMATION, PENDING_CAPACITY, TRACKER_FLUSH_AGE};
use soulstar::display::{Display, DisplayState, LedCommand};
use soulstar::presence::PresenceMessage;

fn message(last_byte: u8, colour: Rgb, last_seen: u64) -> PresenceMessage {
    PresenceMessage {
        rssi: -40,
        tx_power: 0,
        address: [9, 9, 9, 9, 9, last_byte],
        last_seen,
        name: b"peer".to_vec(),
        colour,
    }
}

#[test]
fn default_animation_runs() {
    let mut d = Display::new(Rgb::new(10, 20, 30), 0);
    assert!(d.is_running());
    assert_eq!(d.brightness(), 128);
    assert!(d.current_is_interruptable());
    let f = d.on_animation_tick(200).expect("frame");
    assert!(f.iter().all(|p| p.r <= 10 && p.g <= 20 && p.b <= 30));
}

#[test]
fn arrival_queues_sparkle_and_presence() {
    let mut d = Display::new(Rgb::new(10, 20, 30), 0);
    assert_eq!(d.on_message(DisplayState::PresenceUpdate(message(1, Rgb::new(1, 2, 3), 0)), 0), LedCommand::Keep);
    assert_eq!(d.soul_count(), 1);
    assert_eq!(d.pending_count(), 2);
    // a refresh of the same soul queues nothing
    d.on_message(DisplayState::PresenceUpdate(message(1, Rgb::new(4, 5, 6), 10)), 10);
    assert_eq!(d.soul_count(), 1);
    assert_eq!(d.pending_count(), 2);
}

#[test]
fn interruptable_current_gives_way() {
    let mut d = Display::new(Rgb::new(10, 20, 30), 0);
    d.on_message(DisplayState::PresenceUpdate(message(1, Rgb::new(1, 2, 3), 0)), 0);
    assert!(d.current_is_interruptable());
    assert!(d.on_animation_tick(100).is_some());
    // the arrival sparkle is now current and blocks the queue
    assert_eq!(d.pending_count(), 1);
    assert!(!d.current_is_interruptable());
}

#[test]
fn uninterruptable_current_keeps_running() {
    let mut d = Display::new(Rgb::new(10, 20, 30), 0);
    d.on_message(DisplayState::PresenceUpdate(message(1, Rgb::new(1, 2, 3), 0)), 0);
    d.on_animation_tick(100);
    let f = d.on_animation_tick(NEW_SOUL_ANIMATION - 1).expect("frame");
    assert!(f.iter().all(|p| p.r <= 1 && p.g <= 2 && p.b <= 3));
    assert_eq!(d.pending_count(), 1);
    assert!(!d.current_is_interruptable());
    // once expired, the presence animation takes over
    let f = d.on_animation_tick(NEW_SOUL_ANIMATION).expect("frame");
    assert_eq!(f[0], Rgb::new(1, 2, 3));
    assert_eq!(d.pending_count(), 0);
    assert!(d.current_is_interruptable());
    let f = d.on_animation_tick(NEW_SOUL_ANIMATION + 200).expect("frame");
    assert_eq!(f[1], Rgb::new(1, 2, 3));
}

#[test]
fn exhausted_animation_reverts_to_default() {
    let mut d = Display::new(Rgb::new(10, 20, 30), 0);
    d.on_message(DisplayState::PresenceUpdate(message(1, Rgb::new(1, 2, 3), 0)), 0);
    d.on_animation_tick(0);
    d.on_animation_tick(NEW_SOUL_ANIMATION);
    assert_eq!(d.pending_count(), 0);
    // the soul leaves: a presence animation over nobody is queued, runs out, and the
    // default sparkle returns
    d.on_flush_tick(TRACKER_FLUSH_AGE);
    assert_eq!(d.soul_count(), 0);
    assert_eq!(d.pending_count(), 1);
    d.on_animation_tick(TRACKER_FLUSH_AGE + 100);
    assert_eq!(d.pending_count(), 0);
    let f = d.on_animation_tick(TRACKER_FLUSH_AGE + 200).expect("frame");
    assert!(f.iter().all(|p| p.r <= 10 && p.g <= 20 && p.b <= 30));
    assert!(d.current_is_interruptable());
}

#[test]
fn flush_without_stale_souls_queues_nothing() {
    let mut d = Display::new(Rgb::new(10, 20, 30), 0);
    d.on_message(DisplayState::PresenceUpdate(message(1, Rgb::new(1, 2, 3), 0)), 0);
    d.on_flush_tick(1_000);
    assert_eq!(d.soul_count(), 1);
    assert_eq!(d.pending_count(), 2);
}

#[test]
fn control_messages() {
    let mut d = Display::new(Rgb::new(10, 20, 30), 0);
    assert_eq!(d.on_message(DisplayState::Stop, 0), LedCommand::Keep);
    assert!(!d.is_running());
    assert!(d.on_animation_tick(0).is_none());
    assert_eq!(d.on_message(DisplayState::Start, 0), LedCommand::Keep);
    assert!(d.on_animation_tick(0).is_some());
    assert_eq!(d.on_message(DisplayState::Brightness(32), 0), LedCommand::Keep);
    assert_eq!(d.brightness(), 32);
    assert_eq!(d.on_message(DisplayState::Torch(true), 0), LedCommand::Torch(32));
    assert!(!d.is_running());
    assert_eq!(d.on_message(DisplayState::Torch(false), 0), LedCommand::Keep);
    assert!(d.is_running());
    assert_eq!(d.on_message(DisplayState::Off, 0), LedCommand::AllOff);
    assert!(!d.is_running());
    assert!(d.on_animation_tick(0).is_none());
    assert_eq!(d.on_message(DisplayState::On, 0), LedCommand::Keep);
    assert!(d.is_running());
}

#[test]
fn full_queue_drops_new_animations() {
    let mut d = Display::new(Rgb::new(10, 20, 30), 0);
    for i in 0..12u8 {
        d.on_message(DisplayState::PresenceUpdate(message(i, Rgb::new(i, 0, 0), 0)), 0);
    }
    assert_eq!(d.soul_count(), 12);
    assert_eq!(d.pending_count(), PENDING_CAPACITY);
}
