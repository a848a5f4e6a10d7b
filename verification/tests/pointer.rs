use jetkvm_rdp::pointer::{rdp_to_hid_coords, wheel_units};
use jetkvm_rdp::video::DesktopSize;

#[test]
fn wheel_counts_whole_notches() {
    assert_eq!(wheel_units(0), 0);
    assert_eq!(wheel_units(120), 1);
    assert_eq!(wheel_units(239), 1);
    assert_eq!(wheel_units(240), 2);
    assert_eq!(wheel_units(-120), -1);
    assert_eq!(wheel_units(-360), -3);
}

#[test]
fn a_turned_wheel_never_stands_still() {
    assert_eq!(wheel_units(1), 1);
    assert_eq!(wheel_units(-1), -1);
    assert_eq!(wheel_units(119), 1);
    assert_eq!(wheel_units(-119), -1);
}

#[test]
fn wheel_stays_within_a_signed_byte() {
    assert_eq!(wheel_units(i16::MAX), 127);
    assert_eq!(wheel_units(15240), 127);
    assert_eq!(wheel_units(15239), 126);
    assert_eq!(wheel_units(-15240), -127);
    assert_eq!(wheel_units(-15360), -128);
    assert_eq!(wheel_units(i16::MIN), -128);
}

#[test]
fn wheel_is_monotone() {
    let mut last = wheel_units(i16::MIN);
    for value in i16::MIN..=i16::MAX {
        let steps = wheel_units(value);
        assert!(last <= steps);
        last = steps;
    }
}

#[test]
fn corners_reach_both_ends() {
    let size = DesktopSize { width: 1920, height: 1080 };
    assert_eq!(rdp_to_hid_coords(0, 0, size), (0, 0));
    assert_eq!(rdp_to_hid_coords(1919, 1079, size), (32767, 32767));
    assert_eq!(rdp_to_hid_coords(65535, 65535, size), (32767, 32767));
}

#[test]
fn positions_are_scaled_down_to_the_pixel() {
    let size = DesktopSize { width: 1920, height: 1080 };
    assert_eq!(rdp_to_hid_coords(960, 540, size), (16392, 16398));
    assert_eq!(rdp_to_hid_coords(1, 1, size), (17, 30));
}

#[test]
fn degenerate_axes_are_zero() {
    assert_eq!(rdp_to_hid_coords(5, 7, DesktopSize { width: 0, height: 1 }), (0, 0));
}

#[test]
fn scaling_is_monotone_and_in_range() {
    let size = DesktopSize { width: 1366, height: 768 };
    let mut last = (0, 0);
    for position in 0..2000u16 {
        let here = rdp_to_hid_coords(position, position, size);
        assert!(last.0 <= here.0 && last.1 <= here.1);
        assert!(here.0 <= 32767 && here.1 <= 32767);
        last = here;
    }
}
