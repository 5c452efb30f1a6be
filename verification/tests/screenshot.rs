use fractol::screenshot::{append_decimal, screenshot_dir, screenshot_path};

#[test]
fn path_of_screenshot() {
    assert_eq!(screenshot_path(1234), "screenshots/shot_1234.png");
    assert_eq!(screenshot_path(0), "screenshots/shot_0.png");
    assert_eq!(screenshot_dir(), "screenshots");
}

#[test]
fn path_matches_format() {
    for ts in [1u64, 9, 10, 99, 100, 1_700_000_000, u64::MAX] {
        assert_eq!(screenshot_path(ts), format!("{}/shot_{}.png", "screenshots", ts));
    }
}

#[test]
fn decimal_appends() {
    let mut s = String::from("x=");
    append_decimal(&mut s, 907);
    assert_eq!(s, "x=907");
}
