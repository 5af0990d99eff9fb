use soulstar::colour::Rgb;
use soulstar::configuration::LED_STRING_SIZE;
use soulstar::output::{dim_frame, output_frame, solid_frame};

#[test]
fn output_applies_gamma() {
    let out = output_frame(&vec![Rgb::new(128, 64, 255), Rgb::new(0, 0, 0)], 255);
    assert_eq!(out, vec![Rgb::new(37, 5, 255), Rgb::new(0, 0, 0)]);
}

#[test]
fn output_applies_gamma_then_brightness() {
    let out = output_frame(&vec![Rgb::new(200, 0, 255)], 127);
    assert_eq!(out, vec![Rgb::new(64, 0, 127)]);
}

#[test]
fn dim_scales_by_level_plus_one() {
    let frame = vec![Rgb::new(100, 200, 255)];
    assert_eq!(dim_frame(&frame, 0), vec![Rgb::new(0, 0, 0)]);
    assert_eq!(dim_frame(&frame, 127), vec![Rgb::new(50, 100, 127)]);
    assert_eq!(dim_frame(&frame, 255), frame);
}

#[test]
fn solid_frame_fills_the_string() {
    let f = solid_frame(Rgb::new(255, 255, 255));
    assert_eq!(f.len(), LED_STRING_SIZE);
    assert!(f.iter().all(|p| *p == Rgb::new(255, 255, 255)));
}
