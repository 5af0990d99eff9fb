use soulstar::animations::{
    is_interruptable, next_buffer, sparkle_frame, Animation, Interruptable, PresenceAnimation, SparkleAnimation,
};
use soulstar::colour::Rgb;
use soulstar::configuration::LED_STRING_SIZE;
use soulstar::tracker::SoulSummary;

fn souls(colours: &[Rgb]) -> Vec<SoulSummary> {
    colours.iter().map(|c| SoulSummary { colour: *c, tx_loss: 0 }).collect()
}

#[test]
fn presence_frame_places_colours_first() {
    let s = souls(&[Rgb::new(1, 0, 0), Rgb::new(2, 0, 0)]);
    let mut p = PresenceAnimation::new(&s);
    let f = p.next().expect("frame");
    assert_eq!(f.len(), LED_STRING_SIZE);
    assert_eq!(f[0], Rgb::new(1, 0, 0));
    assert_eq!(f[1], Rgb::new(2, 0, 0));
    assert!(f[2..].iter().all(|c| *c == Rgb::new(0, 0, 0)));
}

#[test]
fn presence_frames_rotate_right() {
    let s = souls(&[Rgb::new(1, 0, 0), Rgb::new(2, 0, 0), Rgb::new(3, 0, 0)]);
    let mut p = PresenceAnimation::new(&s);
    let first = p.next().expect("frame");
    for k in 1..(3 * LED_STRING_SIZE) {
        let f = p.next().expect("frame");
        let mut expected = first.clone();
        expected.rotate_right(k % LED_STRING_SIZE);
        assert_eq!(f, expected);
    }
}

#[test]
fn presence_with_no_souls_ends_at_once() {
    let mut p = PresenceAnimation::new(&Vec::new());
    assert!(p.next().is_none());
    assert!(p.is_interruptable());
}

#[test]
fn sparkle_expires() {
    let colour = Rgb::new(200, 100, 50);
    let mut s = SparkleAnimation::new(colour, Some(1_000), 500);
    assert!(!s.is_interruptable());
    let f = s.next(1_499).expect("still running");
    assert_eq!(f.len(), LED_STRING_SIZE);
    for p in &f {
        assert!(p.r <= colour.r && p.g <= colour.g && p.b <= colour.b);
    }
    assert!(s.next(1_500).is_none());
    assert!(s.next(u64::MAX).is_none());
}

#[test]
fn sparkle_without_expiry_runs_forever() {
    let mut s = SparkleAnimation::new(Rgb::new(1, 2, 3), None, 0);
    assert!(s.is_interruptable());
    assert!(s.next(u64::MAX).is_some());
}

#[test]
fn sparkle_pixels_are_scaled_colour() {
    let colour = Rgb::new(255, 255, 0);
    let mut s = SparkleAnimation::new(colour, None, 42);
    for _ in 0..10 {
        let f = s.next(0).expect("frame");
        for p in &f {
            assert_eq!(p.r, p.g);
            assert_eq!(p.b, 0);
        }
    }
}

#[test]
fn animation_dispatch() {
    let mut a = Animation::Sparkle(SparkleAnimation::new(Rgb::new(1, 2, 3), Some(10), 0));
    assert!(!is_interruptable(&a));
    assert!(next_buffer(&mut a, 5).is_some());
    assert!(next_buffer(&mut a, 10).is_none());
    let mut b = Animation::Presence(PresenceAnimation::new(&souls(&[Rgb::new(1, 1, 1)])));
    assert!(is_interruptable(&b));
    assert_eq!(next_buffer(&mut b, 0).expect("frame")[0], Rgb::new(1, 1, 1));
    assert_eq!(next_buffer(&mut b, 0).expect("frame")[1], Rgb::new(1, 1, 1));
}

#[test]
fn sparkle_frame_scales_each_pixel() {
    let f = sparkle_frame(Rgb::new(255, 100, 2), &vec![0, 128, 255]);
    assert_eq!(f, vec![Rgb::new(0, 0, 0), Rgb::new(128, 50, 1), Rgb::new(255, 100, 2)]);
    assert!(sparkle_frame(Rgb::new(1, 2, 3), &Vec::new()).is_empty());
}
