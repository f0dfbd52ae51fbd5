use osvwm::applets::{AppletsBackend, NetworkType};
use osvwm::applets::BatteryState;

#[test]
fn battery_applet_status() {
    let b = AppletsBackend::battery_status(
        Some("76\n"),
        Some("Discharging\n"),
        Some("9500000\n"),
        Some("4000000"),
        Some("5000000"),
        Some(3600),
    );
    assert_eq!(b.percentage, 76);
    assert_eq!(b.state, BatteryState::Discharging);
    assert_eq!(b.power_microwatts, Some(9_500_000));
    assert_eq!(b.health, Some(80));
    assert_eq!(b.time_remaining, Some(3600));
    let empty = AppletsBackend::battery_status(None, None, None, None, Some("0"), None);
    assert_eq!(empty.percentage, 0);
    assert_eq!(empty.state, BatteryState::Unknown);
    assert_eq!(empty.health, None);
    assert!(AppletsBackend::is_battery("Battery\n"));
    assert!(!AppletsBackend::is_battery("Mains"));
}

#[test]
fn audio_applet_status() {
    assert_eq!(AppletsBackend::wpctl_volume_word("Volume: 0.45 [MUTED]\n"), Some("0.45".to_string()));
    assert_eq!(AppletsBackend::wpctl_volume_word("error"), None);
    let p = AppletsBackend::audio_status_pactl(
        "Volume: front-left: 32768 /  50% / -18.06 dB,   front-right: 32768 /  50% / -18.06 dB",
        "Mute: yes",
        "Mute: no",
    );
    assert_eq!(p.volume, 50);
    assert!(p.muted);
    assert!(!p.mic_muted);
    assert_eq!(p.output_device, "Default");
    assert_eq!(AppletsBackend::volume_arg(150), "100%");
    assert_eq!(AppletsBackend::volume_arg(35), "35%");
}

#[test]
fn network_applet_status() {
    assert_eq!(AppletsBackend::get_wifi_signal(" :40\n*:72\n"), Some(72));
    assert_eq!(AppletsBackend::get_wifi_signal(" :40\n"), None);
    let n = AppletsBackend::network_indicator(
        "wifi:connected:Home\nethernet:unavailable:\n",
        Some(72),
        "vpn:activated\n",
    );
    assert_eq!(n.connection_type, NetworkType::Wifi);
    assert_eq!(n.network_name, Some("Home".to_string()));
    assert_eq!(n.signal_strength, Some(72));
    assert!(n.vpn_active);
    let vpn_only = AppletsBackend::network_indicator("", None, "vpn:activated\n");
    assert_eq!(vpn_only.connection_type, NetworkType::VpnOnly);
    assert!(vpn_only.vpn_active);
}

#[test]
fn bluetooth_and_clock() {
    let bt = AppletsBackend::bluetooth_status("Controller 00:11\n\tPowered: yes\n", "Device A\nDevice B\n");
    assert!(bt.powered);
    assert_eq!(bt.connected_devices, 2);
    assert_eq!(AppletsBackend::bluetooth_toggle_action(true), "off");
    assert_eq!(
        AppletsBackend::timezone_name(None, Some("/usr/share/zoneinfo/Europe/Paris")),
        "Europe/Paris"
    );
    assert_eq!(AppletsBackend::timezone_name(None, None), "UTC");
    assert_eq!(AppletsBackend::timezone_name(Some("Asia/Tokyo"), None), "Asia/Tokyo");
}

#[test]
fn resources_and_cpu_counters() {
    let r = AppletsBackend::resource_usage("MemTotal:       16000000 kB\nMemAvailable:    6000000 kB\n");
    assert_eq!(r.memory_total, 16_000_000 * 1024);
    assert_eq!(r.memory_used, 10_000_000 * 1024);
    assert_eq!(
        AppletsBackend::cpu_stats("cpu  10 20 30 40 50 0 0 0\ncpu0 1 2 3 4\n"),
        Some((40, 150))
    );
    assert_eq!(AppletsBackend::cpu_stats("cpu 1 2\n"), None);
}

#[test]
fn battery_time_from_energy_and_power() {
    assert_eq!(
        AppletsBackend::battery_time_basis(Some("30000000\n"), Some("15000000"), Some("Discharging\n"), None),
        Some((30_000_000, 15_000_000))
    );
    assert_eq!(
        AppletsBackend::battery_time_basis(Some("30000000"), Some("10000000"), Some("Charging"), Some("50000000")),
        Some((20_000_000, 10_000_000))
    );
    assert_eq!(AppletsBackend::battery_time_basis(Some("30000000"), Some("10000000"), Some("Charging"), None), None);
    assert_eq!(AppletsBackend::battery_time_basis(Some("1"), Some("0"), Some("Discharging"), None), None);
    assert_eq!(AppletsBackend::battery_time_basis(Some("1"), Some("2"), Some("Full"), Some("3")), None);
    assert_eq!(AppletsBackend::battery_time_basis(None, Some("2"), Some("Discharging"), None), None);
    assert_eq!(AppletsBackend::battery_time_basis(Some("1"), Some("2"), None, None), None);
}

#[test]
fn audio_through_wpctl() {
    let a = AppletsBackend::audio_status_wpctl(
        Some(42),
        "Volume: 0.42 [MUTED]\n",
        "id 51, type PipeWire:Interface:Node\n  * node.description = \"Built-in Audio Speakers\"\n",
        "Volume: 1.00\n",
    );
    assert_eq!(a.volume, 42);
    assert!(a.muted);
    assert_eq!(a.output_device, "Built-in Audio Speakers");
    assert!(!a.mic_muted);
    let b = AppletsBackend::audio_status_wpctl(None, "error", "", "Volume: 0.30 [MUTED]");
    assert_eq!(b.volume, 50);
    assert!(!b.muted);
    assert_eq!(b.output_device, "Default");
    assert!(b.mic_muted);
    let chosen = AppletsBackend::audio_status(None, Some(b.clone()));
    assert_eq!(chosen.unwrap().output_device, "Default");
    assert_eq!(AppletsBackend::audio_status(Some(a), Some(b)).unwrap().volume, 42);
    assert!(AppletsBackend::audio_status(None, None).is_none());
}

#[test]
fn date_and_time_applet() {
    let d = AppletsBackend::datetime_info(
        1_700_000_000,
        None,
        Some("/usr/share/zoneinfo/Europe/Paris"),
        Some("14:05\n"),
        Some("Tue, Nov 14\n"),
    );
    assert_eq!(d.timestamp, 1_700_000_000);
    assert_eq!(d.timezone, "Europe/Paris");
    assert_eq!(d.time_formatted, "14:05");
    assert_eq!(d.date_formatted, "Tue, Nov 14");
    let u = AppletsBackend::datetime_info(0, Some("Asia/Tokyo"), None, None, None);
    assert_eq!(u.timezone, "Asia/Tokyo");
    assert_eq!(u.time_formatted, "00:00");
    assert_eq!(u.date_formatted, "Unknown");
    assert_eq!(AppletsBackend::datetime_info(0, None, None, None, None).timezone, "UTC");
}

#[test]
fn test_datetime() {
    let dt = AppletsBackend::datetime_info(1_700_000_000, None, None, Some("09:30\n"), Some("Tue, Nov 14\n"));
    assert!(!dt.time_formatted.is_empty());
    let fallback = AppletsBackend::datetime_info(0, None, None, None, None);
    assert!(!fallback.time_formatted.is_empty());
}

#[test]
fn boosted_volume_counts_as_full() {
    let a = AppletsBackend::audio_status_wpctl(Some(150), "Volume: 1.50\n", "", "");
    assert_eq!(a.volume, 100);
    assert!(!a.muted);
    let p = AppletsBackend::audio_status_pactl("Volume: front-left: 98304 / 150% / 10.57 dB", "Mute: no", "Mute: no");
    assert_eq!(p.volume, 100);
    let q = AppletsBackend::audio_status_pactl("Volume: front-left: 45875 / 70% / -9.29 dB", "Mute: yes", "Mute: no");
    assert_eq!(q.volume, 70);
    assert!(q.muted);
}
