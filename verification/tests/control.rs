use std::path::PathBuf;

use helligkeit::backlight::Backlight;
use helligkeit::cli::{Action, Adjust, Cli, Value};
use helligkeit::control::{AnyDevice, FindError, Helligkeit, Operation};
use helligkeit::led::Led;
use helligkeit::shared::{Device, DeviceError};

fn backlight(name: &str, kind: Option<&str>, connected: Option<bool>, max: usize) -> AnyDevice {
    AnyDevice::Backlight(Backlight {
        name: name.to_string(),
        path: PathBuf::from(format!("/sys/class/backlight/{name}")),
        max_brightness: max,
        kind: kind.map(|k| k.to_string()),
        connected,
    })
}

fn led(name: &str) -> AnyDevice {
    AnyDevice::Led(Led { name: name.to_string(), path: PathBuf::from(format!("/sys/class/leds/{name}")), max_brightness: 1 })
}

fn cli(like: bool, verbose: bool, command: Option<Action>) -> Cli {
    Cli { like, command, silent: false, verbose }
}

fn devices() -> Vec<AnyDevice> {
    vec![
        led("input3::capslock"),
        backlight("nvidia_0", Some("raw"), Some(false), 100),
        led("tpacpi::kbd_backlight"),
        backlight("intel_backlight", Some("raw"), Some(true), 96000),
        backlight("acpi_video0", Some("firmware"), None, 255),
        led("phy0-led"),
    ]
}

fn names(h: &Helligkeit) -> Vec<String> {
    h.devices().iter().map(|d| d.name().to_string()).collect()
}

#[test]
fn devices_are_ordered_by_class_rank_name() {
    let h = Helligkeit::new(cli(false, false, None), devices());
    assert_eq!(
        names(&h),
        vec![
            "acpi_video0",
            "intel_backlight",
            "nvidia_0",
            "tpacpi::kbd_backlight",
            "phy0-led",
            "input3::capslock"
        ]
    );
}

#[test]
fn equal_rank_orders_by_name() {
    let h = Helligkeit::new(
        cli(false, false, None),
        vec![backlight("b", None, None, 1), backlight("a", None, None, 1), backlight("c", None, None, 1)],
    );
    assert_eq!(names(&h), vec!["a", "b", "c"]);
}

#[test]
fn default_device_is_the_first() {
    let h = Helligkeit::new(cli(false, false, Some(Action::Get { device: None })), devices());
    assert_eq!(h.target(), "");
    assert_eq!(h.find_device(), Ok(vec![0]));
    assert_eq!(h.devices()[0].name(), "acpi_video0");
}

#[test]
fn no_device_to_fall_back_to() {
    let h = Helligkeit::new(cli(false, false, None), vec![]);
    assert_eq!(h.find_device(), Err(FindError::NoDevices));
}

#[test]
fn exact_names() {
    let h = Helligkeit::new(cli(false, false, Some(Action::Info { device: Some("nvidia_0".into()) })), devices());
    assert_eq!(h.target(), "nvidia_0");
    assert_eq!(h.find_device(), Ok(vec![2]));
    let h = Helligkeit::new(cli(false, false, Some(Action::Info { device: Some("nvidia".into()) })), devices());
    assert_eq!(h.find_device(), Ok(vec![]));
}

#[test]
fn names_like() {
    let h = Helligkeit::new(cli(true, false, Some(Action::Get { device: Some("back".into()) })), devices());
    assert_eq!(h.find_device(), Ok(vec![1, 3]));
    let h = Helligkeit::new(cli(true, false, None), devices());
    assert_eq!(h.find_device(), Ok(vec![0, 1, 2, 3, 4, 5]));
    let h = Helligkeit::new(cli(true, false, None), vec![]);
    assert_eq!(h.find_device(), Ok(vec![]));
}

#[test]
fn listings_hide_irrelevant_devices() {
    let h = Helligkeit::new(cli(false, false, Some(Action::List)), devices());
    assert_eq!(h.list(), (vec![0, 1], 4));
    let h = Helligkeit::new(cli(false, true, Some(Action::List)), devices());
    assert_eq!(h.list(), (vec![0, 1, 2, 3, 4, 5], 0));
}

#[test]
fn operations() {
    let run = |command| Helligkeit::new(cli(false, false, command), vec![]).run();
    assert_eq!(run(None), Operation::Get);
    assert_eq!(run(Some(Action::List)), Operation::List);
    assert_eq!(run(Some(Action::Info { device: None })), Operation::Info);
    assert_eq!(run(Some(Action::Get { device: Some("x".into()) })), Operation::Get);
    let adjust = Adjust::Increase(Value::Percent(5));
    assert_eq!(run(Some(Action::SetBrightness { value: adjust, device: None })), Operation::SetBrightness(adjust));
}

#[test]
fn setting_brightness() {
    let h = Helligkeit::new(cli(false, false, None), devices());
    // acpi_video0, max 255
    assert_eq!(h.set(0, Adjust::Exactly(Value::Percent(50)), 0), Ok("128\n".to_string()));
    assert_eq!(h.set(0, Adjust::Exactly(Value::Absolute(1000)), 0), Ok("255\n".to_string()));
    assert_eq!(h.set(0, Adjust::Increase(Value::Absolute(10)), 100), Ok("110\n".to_string()));
    assert_eq!(h.set(0, Adjust::Decrease(Value::Absolute(10)), 5), Ok("0\n".to_string()));
    // a decrease from above the maximum lands at the maximum
    assert_eq!(h.set(0, Adjust::Decrease(Value::Absolute(10)), 300), Ok("255\n".to_string()));
    // a led, max 1
    assert_eq!(h.set(5, Adjust::Exactly(Value::Percent(100)), 0), Ok("1\n".to_string()));
}

#[test]
fn reports_of_any_device() {
    let h = Helligkeit::new(cli(false, false, None), devices());
    assert_eq!(
        h.devices()[5].describe(0),
        "input3::capslock\n\tCurrent brightness: 0 (0%)\n\tMax brightness: 1\n"
    );
    assert_eq!(h.devices()[0].brightness_from(b"12\n"), Ok(12));
    assert_eq!(h.devices()[0].brightness_request(256), Err(DeviceError::ExceedsMax));
    assert!(h.args().command.is_none());
}

#[test]
fn default_device_is_relevant_when_one_is() {
    let h = Helligkeit::new(cli(false, false, None), devices());
    let first = h.find_device().unwrap()[0];
    assert!(h.devices()[first].rank() < helligkeit::shared::IRRELEVANT);
    // with only irrelevant devices there is no default
    let h = Helligkeit::new(
        cli(false, false, None),
        vec![led("input3::capslock"), backlight("nvidia_0", None, Some(false), 10)],
    );
    assert_eq!(h.find_device(), Err(FindError::NoDevices));
    // an irrelevant device is still found by its name
    let h = Helligkeit::new(
        cli(false, false, Some(Action::Get { device: Some("nvidia_0".into()) })),
        vec![backlight("nvidia_0", None, Some(false), 10)],
    );
    assert_eq!(h.find_device(), Ok(vec![0]));
}
