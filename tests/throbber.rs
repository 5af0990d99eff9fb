use soulstar::throbber::Throbber;

#[test]
fn if_it_throbs_forever() {
    let mut t = Throbber::new(16, 8, false);
    let mut count = 0;
    let mut max_brightness = 0;
    let mut min_brightness = 255;
    while let Some(b) = t.next() {
        count += 1;
        max_brightness = max_brightness.max(b);
        min_brightness = min_brightness.min(b);
        if count > 1024 {
            break;
        }
    }
    assert_eq!(min_brightness, 8);
    assert_eq!(max_brightness, 255);
}

#[test]
fn if_it_throbs_once() {
    let mut t = Throbber::new_once(16);
    let mut max_brightness = 0;
    let mut last_brightness = 100;
    let mut count = 0;
    while let Some(b) = t.next() {
        count += 1;
        max_brightness = max_brightness.max(b);
        last_brightness = b;
        if count > 1024 {
            break;
        }
    }
    assert_eq!(last_brightness, 0);
    assert_eq!(count, 32);
    assert_eq!(max_brightness, 255);
}

#[test]
fn advance_skips_levels() {
    let mut t = Throbber::new(16, 0, false);
    t.advance(3);
    assert_eq!(t.next(), Some(64));
    let mut u = Throbber::new(100, 0, false);
    assert_eq!(u.next(), Some(100));
    assert_eq!(u.next(), Some(200));
    assert_eq!(u.next(), Some(255));
    assert_eq!(u.next(), Some(155));
}
