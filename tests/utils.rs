use soulstar::utils::{clip, clip_min};

#[test]
fn if_it_clips() {
    assert_eq!(clip(-1), 0);
    assert_eq!(clip(1), 1);
    assert_eq!(clip(255), 255);
    assert_eq!(clip(256), 255);
}

#[test]
fn if_it_limits() {
    assert_eq!(clip_min(128, 10), 128);
    assert_eq!(clip_min(5, 10), 10);
    assert_eq!(clip_min(256, 10), 255);
    assert_eq!(clip_min(255, 10), 255);
}

#[test]
fn clip_handles_extremes() {
    assert_eq!(clip(i16::MIN), 0);
    assert_eq!(clip(i16::MAX), 255);
    assert_eq!(clip_min(i16::MIN, 0), 0);
    assert_eq!(clip_min(10, 10), 10);
}
