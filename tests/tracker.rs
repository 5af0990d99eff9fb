use soulstar::colour::Rgb;
use soulstar::configuration::{MAX_SOULS_TRACKED, TRACKER_FLUSH_AGE};
use soulstar::presence::PresenceMessage;
use soulstar::tracker::{SoulSummary, Tracker};

fn message(last_byte: u8, colour: Rgb, rssi: i8, last_seen: u64) -> PresenceMessage {
    PresenceMessage {
        rssi,
        tx_power: 4,
        address: [0, 0, 0, 0, 0, last_byte],
        last_seen,
        name: b"peer".to_vec(),
        colour,
    }
}

#[test]
fn first_update_is_an_arrival() {
    let mut t = Tracker::new();
    assert_eq!(t.len(), 0);
    assert!(t.update(message(1, Rgb::new(1, 2, 3), -50, 0)));
    assert_eq!(t.len(), 1);
    assert_eq!(t.get_soul_summary(), vec![SoulSummary { colour: Rgb::new(1, 2, 3), tx_loss: 54 }]);
}

#[test]
fn repeated_update_overwrites() {
    let mut t = Tracker::new();
    assert!(t.update(message(1, Rgb::new(1, 2, 3), -50, 0)));
    assert!(!t.update(message(1, Rgb::new(9, 9, 9), -80, 100)));
    assert_eq!(t.len(), 1);
    assert_eq!(t.get_soul_summary(), vec![SoulSummary { colour: Rgb::new(9, 9, 9), tx_loss: 84 }]);
    // the refreshed last_seen keeps it past the first message's horizon
    assert!(!t.flush(TRACKER_FLUSH_AGE));
    assert!(t.flush(TRACKER_FLUSH_AGE + 100));
    assert_eq!(t.len(), 0);
}

#[test]
fn flush_removes_exactly_the_stale() {
    let mut t = Tracker::new();
    t.update(message(1, Rgb::new(1, 0, 0), -50, 1_000));
    t.update(message(2, Rgb::new(2, 0, 0), -50, 5_000));
    t.update(message(3, Rgb::new(3, 0, 0), -50, 5_001));
    assert!(t.flush(20_000));
    assert_eq!(t.len(), 1);
    assert_eq!(t.get_soul_summary()[0].colour, Rgb::new(3, 0, 0));
    assert!(!t.flush(20_000));
    assert_eq!(t.len(), 1);
}

#[test]
fn flush_before_the_age_removes_nothing() {
    let mut t = Tracker::new();
    t.update(message(1, Rgb::new(1, 0, 0), -50, 0));
    assert!(!t.flush(TRACKER_FLUSH_AGE - 1));
    assert_eq!(t.len(), 1);
    assert!(t.flush(TRACKER_FLUSH_AGE));
    assert_eq!(t.len(), 0);
}

#[test]
fn flush_of_empty_tracker() {
    let mut t = Tracker::new();
    assert!(!t.flush(1_000_000));
    assert!(t.get_soul_summary().is_empty());
}

#[test]
fn tracker_stops_at_capacity() {
    let mut t = Tracker::new();
    for i in 0..MAX_SOULS_TRACKED {
        assert!(t.update(message(i as u8, Rgb::new(i as u8, 0, 0), -50, 0)));
    }
    assert!(!t.update(message(200, Rgb::new(0, 0, 0), -50, 0)));
    assert_eq!(t.len(), MAX_SOULS_TRACKED);
    // a known soul is still refreshed when the tracker is full
    assert!(!t.update(message(3, Rgb::new(7, 7, 7), -50, 0)));
    let summary = t.get_soul_summary();
    assert_eq!(summary.len(), MAX_SOULS_TRACKED);
    assert!(summary.iter().any(|s| s.colour == Rgb::new(7, 7, 7)));
}

#[test]
fn summary_has_one_entry_per_soul() {
    let mut t = Tracker::new();
    t.update(message(1, Rgb::new(1, 0, 0), -10, 0));
    t.update(message(2, Rgb::new(2, 0, 0), -20, 0));
    t.update(message(1, Rgb::new(5, 0, 0), -30, 0));
    let mut colours: Vec<u8> = t.get_soul_summary().iter().map(|s| s.colour.r).collect();
    colours.sort();
    assert_eq!(colours, vec![2, 5]);
}
