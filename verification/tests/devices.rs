use std::path::PathBuf;

use helligkeit::backlight::{connected, Backlight};
use helligkeit::ddc::ddc;
use helligkeit::led::Led;
use helligkeit::shared::{rank_report, sort_key, Class, Device, DeviceError, IRRELEVANT};

fn backlight(name: &str, kind: Option<&str>, connected: Option<bool>) -> Backlight {
    Backlight {
        name: name.to_string(),
        path: PathBuf::from(format!("/sys/class/backlight/{name}")),
        max_brightness: 255,
        kind: kind.map(|k| k.to_string()),
        connected,
    }
}

fn led(name: &str) -> Led {
    Led { name: name.to_string(), path: PathBuf::from(format!("/sys/class/leds/{name}")), max_brightness: 1 }
}

#[test]
fn backlight_ranks_by_interface() {
    assert_eq!(backlight("a", Some("firmware"), None).rank(), 0);
    assert_eq!(backlight("a", Some("platform"), Some(true)).rank(), 1);
    assert_eq!(backlight("a", Some("raw"), None).rank(), 2);
    assert_eq!(backlight("a", Some("other"), None).rank(), 3);
    assert_eq!(backlight("a", None, None).rank(), 3);
}

#[test]
fn disconnected_backlights_are_irrelevant() {
    assert_eq!(backlight("a", Some("firmware"), Some(false)).rank(), IRRELEVANT);
    assert_eq!(backlight("a", Some("raw"), Some(false)).rank(), IRRELEVANT + 2);
    assert_eq!(backlight("a", None, Some(false)).rank(), IRRELEVANT + 3);
}

#[test]
fn led_ranks_by_function() {
    assert_eq!(led("tpacpi::kbd_backlight").rank(), IRRELEVANT);
    assert_eq!(led("input3::capslock").rank(), IRRELEVANT + 2);
    assert_eq!(led("input3::numlock").rank(), IRRELEVANT + 2);
    assert_eq!(led("input3::scrolllock").rank(), IRRELEVANT + 2);
    assert_eq!(led("input3::kana").rank(), IRRELEVANT + 2);
    assert_eq!(led("input3::compose").rank(), IRRELEVANT + 2);
    assert_eq!(led("capslock").rank(), IRRELEVANT + 2);
    assert_eq!(led("phy0-led").rank(), IRRELEVANT + 1);
    assert_eq!(led("input3::capslock::x").rank(), IRRELEVANT + 1);
}

#[test]
fn class_names_and_order() {
    assert_eq!(Class::Backlight.as_str(), "backlight");
    assert_eq!(Class::Ddc.as_str(), "ddc");
    assert_eq!(Class::Led.as_str(), "led");
    assert!(Class::Backlight < Class::Ddc && Class::Ddc < Class::Led);
    assert_eq!(Class::Backlight.index(), 0);
    assert_eq!(Class::Led.index(), 2);
}

#[test]
fn sort_keys() {
    let b = backlight("intel_backlight", Some("raw"), None);
    assert_eq!(sort_key(&b), (Class::Backlight, 2, "intel_backlight".to_string()));
    let l = led("input3::capslock");
    assert_eq!(sort_key(&l), (Class::Led, IRRELEVANT + 2, "input3::capslock".to_string()));
    assert_eq!(b.class(), Class::Backlight);
    assert_eq!(l.name(), "input3::capslock");
    assert_eq!(b.max(), Ok(255));
}

#[test]
fn connection_of_a_connector() {
    assert_eq!(connected(Some("connected\n".to_string()), None), Some(true));
    assert_eq!(connected(Some("disconnected\n".to_string()), None), Some(false));
    assert_eq!(connected(Some("unknown".to_string()), Some(vec!["connected".to_string()])), Some(false));
}

#[test]
fn connection_of_a_gpu() {
    assert_eq!(connected(None, None), None);
    assert_eq!(connected(None, Some(vec![])), None);
    assert_eq!(
        connected(None, Some(vec!["disconnected\n".to_string(), " connected \n".to_string()])),
        Some(true)
    );
    assert_eq!(connected(None, Some(vec!["disconnected\n".to_string()])), Some(false));
}

#[test]
fn backlight_from_sysfs() {
    let path = PathBuf::from("/sys/class/backlight/intel_backlight");
    let b = Backlight::try_from_parts(
        path.clone(),
        Some("intel_backlight".to_string()),
        b"96000\n",
        Some("raw\n".to_string()),
        Some(true),
    )
    .unwrap();
    assert_eq!(b.name, "intel_backlight");
    assert_eq!(b.path, path);
    assert_eq!(b.max_brightness, 96000);
    assert_eq!(b.kind.as_deref(), Some("raw"));
    assert_eq!(b.connected, Some(true));
    assert_eq!(b.rank(), 2);
}

#[test]
fn backlight_from_broken_sysfs() {
    let path = PathBuf::from("/");
    let e = Backlight::try_from_parts(path.clone(), None, b"1\n", None, None).unwrap_err();
    assert_eq!(e, DeviceError::InvalidFilename);
    let e = Backlight::try_from_parts(path.clone(), Some("x".into()), b"x\n", None, None).unwrap_err();
    assert_eq!(e, DeviceError::InvalidNumber);
    let e = Backlight::try_from_parts(path, Some("x".into()), b"\xc3", None, None).unwrap_err();
    assert_eq!(e, DeviceError::InvalidUtf8);
}

#[test]
fn led_from_sysfs() {
    let path = PathBuf::from("/sys/class/leds/input3::capslock");
    let l = Led::try_from_parts(path.clone(), Some("input3::capslock".into()), b"1\n").unwrap();
    assert_eq!(l.name, "input3::capslock");
    assert_eq!(l.max_brightness, 1);
    assert_eq!(l.path, path);
    let e = Led::try_from_parts(path, None, b"1\n").unwrap_err();
    assert_eq!(e, DeviceError::InvalidFilename);
}

#[test]
fn backlight_report() {
    let b = backlight("intel_backlight", Some("raw"), Some(false));
    assert_eq!(
        b.describe(51),
        "intel_backlight\n\tType: raw\n\tDisplay: disconnected\n\tCurrent brightness: 51 (20%)\n\tMax brightness: 255\n"
    );
    let b = backlight("acpi_video0", None, None);
    assert_eq!(
        b.describe(255),
        "acpi_video0\n\tCurrent brightness: 255 (100%)\n\tMax brightness: 255\n"
    );
    let b = backlight("nvidia_0", Some("firmware"), Some(true));
    assert_eq!(
        b.describe(0),
        "nvidia_0\n\tType: firmware\n\tDisplay: connected\n\tCurrent brightness: 0 (0%)\n\tMax brightness: 255\n"
    );
}

#[test]
fn led_report() {
    let l = led("input3::capslock");
    assert_eq!(
        l.describe(1),
        "input3::capslock\n\tCurrent brightness: 1 (100%)\n\tMax brightness: 1\n"
    );
}

#[test]
fn device_requests() {
    let b = backlight("a", None, None);
    assert_eq!(b.brightness_request(128), Ok("128\n".to_string()));
    assert_eq!(b.brightness_request(256), Err(DeviceError::ExceedsMax));
    assert_eq!(b.brightness_from(b"17\n"), Ok(17));
    let l = led("x");
    assert_eq!(l.brightness_request(1), Ok("1\n".to_string()));
    assert_eq!(l.brightness_request(2), Err(DeviceError::ExceedsMax));
    assert_eq!(l.brightness_from(b"0"), Ok(0));
}

#[test]
fn no_ddc_devices_yet() {
    assert_eq!(ddc().map(|v| v.len()), Ok(0));
}

#[test]
fn rank_reports() {
    assert_eq!(rank_report(&backlight("intel_backlight", Some("raw"), None)), "intel_backlight: backlight rank 2");
    assert_eq!(rank_report(&led("input3::capslock")), "input3::capslock: led rank 130, irrelevant");
    assert_eq!(rank_report(&backlight("nvidia_0", Some("firmware"), Some(false))), "nvidia_0: backlight rank 128, irrelevant");
}

#[test]
fn report_of_a_device_without_range() {
    let mut b = backlight("dummy", None, None);
    b.max_brightness = 0;
    assert_eq!(
        b.describe(usize::MAX),
        format!("dummy\n\tCurrent brightness: {} (0%)\n\tMax brightness: 0\n", usize::MAX)
    );
}
