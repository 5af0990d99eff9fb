use soulstar::colour::{adjust_brightness_for_rssi, set_brightness, Rgb};

#[test]
fn brightness_zero_turns_off() {
    assert_eq!(set_brightness(0, Rgb::new(10, 20, 30)), Rgb::new(0, 0, 0));
}

#[test]
fn brightness_full_keeps_colour() {
    assert_eq!(set_brightness(255, Rgb::new(10, 20, 30)), Rgb::new(10, 20, 30));
}

#[test]
fn brightness_scales_each_channel() {
    assert_eq!(set_brightness(128, Rgb::new(255, 100, 2)), Rgb::new(128, 50, 1));
}

#[test]
fn rssi_dims_colour() {
    assert_eq!(adjust_brightness_for_rssi(Rgb::new(255, 255, 255), -100, 128), Rgb::new(0, 0, 0));
    assert_eq!(adjust_brightness_for_rssi(Rgb::new(255, 255, 255), -128, 255), Rgb::new(0, 0, 0));
    assert_eq!(adjust_brightness_for_rssi(Rgb::new(255, 0, 51), -40, 128), Rgb::new(90, 0, 18));
    assert_eq!(adjust_brightness_for_rssi(Rgb::new(255, 0, 0), 127, 255), Rgb::new(255, 0, 0));
}
