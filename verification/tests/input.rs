use osvwm::input::{
    AccelProfile, ClickMethod, InputBackend, InputDeviceType, ScrollMethod, SysInputEntry,
};

const LIBINPUT: &str = "Device:           Power Button
Kernel:           /dev/input/event1
Capabilities:     keyboard

Device:           SynPS/2 Synaptics TouchPad
Kernel:           /dev/input/event5
Capabilities:     pointer gesture
Tap-to-click:     disabled
Left-handed:      disabled

Device:           Logitech USB Trackball
Kernel:           /dev/input/event7
Capabilities:     pointer

Device:           Logitech M705
Kernel:           /dev/input/event9
Capabilities:     pointer
";

#[test]
fn defaults_of_the_input_enums() {
    assert_eq!(ScrollMethod::default(), ScrollMethod::OnButtonDown);
    assert_eq!(ClickMethod::default(), ClickMethod::ButtonAreas);
    assert_eq!(AccelProfile::default(), AccelProfile::Adaptive);
}

#[test]
fn libinput_devices_are_typed_by_capability_and_name() {
    let d = InputBackend::parse_libinput_list(LIBINPUT);
    assert_eq!(d.len(), 4);
    assert_eq!(d[0].name, "Power Button");
    assert_eq!(d[0].path, "/dev/input/event1");
    assert_eq!(d[0].device_type, InputDeviceType::Unknown);
    assert_eq!(d[1].device_type, InputDeviceType::Touchpad);
    assert!(d[1].supports_tap && d[1].supports_natural_scroll && d[1].supports_left_handed);
    assert_eq!(d[2].device_type, InputDeviceType::Trackball);
    assert!(!d[2].supports_natural_scroll);
    assert_eq!(d[3].device_type, InputDeviceType::Mouse);
    assert!(d[3].supports_natural_scroll && d[3].supports_left_handed && !d[3].supports_tap);
    assert!(InputBackend::parse_libinput_list("").is_empty());
}

fn entry(name: &str, has_device: bool, device_name: Option<&str>) -> SysInputEntry {
    SysInputEntry {
        name: name.to_string(),
        has_device,
        device_name: device_name.map(|s| s.to_string()),
    }
}

#[test]
fn kernel_event_devices() {
    let es = vec![
        entry("event0", true, Some("AT Translated Set 2 keyboard\n")),
        entry("mouse0", true, Some("mouse")),
        entry("event3", false, Some("ignored")),
        entry("event4", true, Some("ELAN Touchpad")),
        entry("event6", true, None),
    ];
    let d = InputBackend::scan_sys_input(&es);
    assert_eq!(d.len(), 3);
    assert_eq!(d[0].name, "AT Translated Set 2 keyboard");
    assert_eq!(d[0].device_type, InputDeviceType::Keyboard);
    assert_eq!(d[0].path, "/dev/input/event0");
    assert_eq!(d[1].device_type, InputDeviceType::Touchpad);
    assert!(d[1].supports_tap && d[1].supports_natural_scroll && !d[1].supports_left_handed);
    assert_eq!(d[2].name, "event6");
    assert_eq!(d[2].device_type, InputDeviceType::Unknown);
}

#[test]
fn enumeration_falls_back_to_the_kernel_list() {
    let mut b = InputBackend::new();
    let found = b.enumerate_devices(Some(LIBINPUT), Ok(vec![])).unwrap();
    assert_eq!(found.len(), 4);
    assert_eq!(b.get_mice().len(), 1);
    assert_eq!(b.get_touchpads()[0].name, "SynPS/2 Synaptics TouchPad");

    let fallback = b
        .enumerate_devices(None, Ok(vec![entry("event2", true, Some("USB Optical Mouse"))]))
        .unwrap();
    assert_eq!(fallback.len(), 1);
    assert_eq!(b.get_mice()[0].name, "USB Optical Mouse");
    assert!(b.get_touchpads().is_empty());

    let err = b.enumerate_devices(Some("nothing useful\n"), Err("permission denied".to_string()));
    assert_eq!(err.unwrap_err(), "permission denied");
    assert_eq!(b.get_mice().len(), 1);
}
