use core::time::Duration;
use osvwm::battery::{
    format_duration, format_time_remaining, read_battery, BatteryBackend, BatteryFiles,
    BatteryHealth, BatteryHistoryPoint, BatteryState, BatteryTechnology, PowerSupplyKind,
    PowerSupplyStatus, battery_files_fit,
};

fn no_files() -> BatteryFiles {
    BatteryFiles {
        capacity: None,
        status: None,
        energy_now: None,
        energy_full: None,
        energy_full_design: None,
        charge_now: None,
        charge_full: None,
        charge_full_design: None,
        voltage_now: None,
        power_now: None,
        current_now: None,
        technology: None,
        manufacturer: None,
        model_name: None,
        serial_number: None,
        cycle_count: None,
        temp: None,
    }
}

#[test]
fn test_battery_state_from_str() {
    assert_eq!(BatteryState::from("Charging"), BatteryState::Charging);
    assert_eq!(BatteryState::from("Discharging"), BatteryState::Discharging);
    assert_eq!(BatteryState::from("Full"), BatteryState::Full);
    assert_eq!(BatteryState::from("Not charging"), BatteryState::NotCharging);
    assert_eq!(BatteryState::from("unknown"), BatteryState::Unknown);
}

#[test]
fn battery_state_ignores_case_and_surrounding_space() {
    assert_eq!(BatteryState::from("  CHARGING\n"), BatteryState::Charging);
    assert_eq!(BatteryState::from("not Charging"), BatteryState::NotCharging);
    assert_eq!(BatteryState::from(""), BatteryState::Unknown);
}

#[test]
fn battery_technology_names() {
    assert_eq!(BatteryTechnology::from_text("Li-ion"), BatteryTechnology::LithiumIon);
    assert_eq!(BatteryTechnology::from_text("LiPo"), BatteryTechnology::LithiumPolymer);
}

#[test]
fn test_format_duration() {
    assert_eq!(format_duration(Duration::from_secs(3600)), "1h 0m");
    assert_eq!(format_duration(Duration::from_secs(5400)), "1h 30m");
    assert_eq!(format_duration(Duration::from_secs(1800)), "30m");
    assert_eq!(format_duration(Duration::from_secs(90)), "1m");
}

#[test]
fn format_duration_edges() {
    assert_eq!(format_duration(Duration::from_secs(0)), "0m");
    assert_eq!(format_duration(Duration::from_secs(59)), "0m");
    assert_eq!(format_duration(Duration::new(7199, 999_999_999)), "1h 59m");
    assert_eq!(format_time_remaining(5400), "1h 30m");
}

fn health_of(full: &str, design: &str) -> (BatteryHealth, Option<u8>) {
    let mut f = no_files();
    f.energy_full = Some(full.to_string());
    f.energy_full_design = Some(design.to_string());
    let info = read_battery("BAT0", &f);
    (info.health, info.health_percentage)
}

#[test]
fn test_health_calculation() {
    // 90% of design = Good
    assert_eq!(health_of("90000000", "100000000"), (BatteryHealth::Good, Some(90)));
    // 60% of design = Degraded
    assert_eq!(health_of("60000000", "100000000"), (BatteryHealth::Degraded, Some(60)));
    // 40% of design = Critical
    assert_eq!(health_of("40000000", "100000000"), (BatteryHealth::Critical, Some(40)));
}

#[test]
fn health_is_capped_and_unknown_without_design() {
    assert_eq!(health_of("120", "100"), (BatteryHealth::Good, Some(100)));
    assert_eq!(health_of("80", "100"), (BatteryHealth::Good, Some(80)));
    assert_eq!(health_of("50", "100"), (BatteryHealth::Degraded, Some(50)));
    assert_eq!(health_of("10", "0"), (BatteryHealth::Unknown, None));
}

#[test]
fn percentage_comes_from_capacity_or_energy() {
    let mut f = no_files();
    f.capacity = Some("87\n".to_string());
    f.status = Some("Discharging\n".to_string());
    let info = read_battery("BAT1", &f);
    assert_eq!(info.name, "BAT1");
    assert_eq!(info.percentage, 87);
    assert_eq!(info.state, BatteryState::Discharging);

    let mut g = no_files();
    g.capacity = Some("250".to_string());
    assert_eq!(read_battery("BAT0", &g).percentage, 100);

    let mut h = no_files();
    h.energy_now = Some("25".to_string());
    h.energy_full = Some("100".to_string());
    assert_eq!(read_battery("BAT0", &h).percentage, 25);
}

#[test]
fn history_keeps_points_spaced_and_bounded() {
    let mut b = BatteryBackend::new();
    for i in 0..1200u64 {
        b.record_history(BatteryHistoryPoint {
            timestamp: i * 60,
            percentage: 50,
            state: BatteryState::Discharging,
            power_microwatts: None,
        });
    }
    let all = b.get_history(1200 * 60, u32::MAX / 60);
    assert!(all.len() <= 1000);
    // A point too close to the last one is not recorded.
    let before = b.get_history(1200 * 60, u32::MAX / 60).len();
    b.record_history(BatteryHistoryPoint {
        timestamp: 1199 * 60 + 10,
        percentage: 49,
        state: BatteryState::Discharging,
        power_microwatts: None,
    });
    assert_eq!(b.get_history(1200 * 60, u32::MAX / 60).len(), before);
}

#[test]
fn power_supply_kinds() {
    let t = |s: &str| Some(s.to_string());
    assert_eq!(BatteryBackend::supply_kind(t("Battery\n").as_ref()), PowerSupplyKind::Battery);
    assert_eq!(BatteryBackend::supply_kind(t("Mains\n").as_ref()), PowerSupplyKind::Adapter);
    assert_eq!(BatteryBackend::supply_kind(t("USB").as_ref()), PowerSupplyKind::Adapter);
    assert_eq!(BatteryBackend::supply_kind(t("UPS").as_ref()), PowerSupplyKind::Other);
    assert_eq!(BatteryBackend::supply_kind(None), PowerSupplyKind::Other);
}

fn status_at(pct: Option<u8>, state: BatteryState) -> PowerSupplyStatus {
    PowerSupplyStatus {
        batteries: vec![],
        ac_adapters: vec![],
        on_ac_power: false,
        combined_percentage: pct,
        overall_state: state,
    }
}

#[test]
fn low_and_critical_thresholds() {
    let b = BatteryBackend::new();
    let low = status_at(Some(15), BatteryState::Discharging);
    assert!(b.is_low(Some(&low), 20));
    assert!(!b.is_low(Some(&low), 15));
    assert!(!b.is_critical(Some(&low), 5));
    let charging = status_at(Some(3), BatteryState::Charging);
    assert!(!b.is_critical(Some(&charging), 5));
    assert!(!b.is_low(Some(&status_at(None, BatteryState::Discharging)), 20));
    assert!(!b.is_low(None, 20));
}

#[test]
fn battery_life_from_recent_discharge() {
    let mut b = BatteryBackend::new();
    for (t, p) in [(1000u64, 80u8), (1060, 79), (1120, 78)] {
        b.record_history(BatteryHistoryPoint {
            timestamp: t,
            percentage: p,
            state: BatteryState::Discharging,
            power_microwatts: None,
        });
    }
    let d = b.estimate_battery_life(1200).unwrap();
    assert_eq!(d.as_secs(), 78 * 60);
    assert!(b.estimate_battery_life(1120 + 3600).is_none());
    assert!(BatteryBackend::new().estimate_battery_life(0).is_none());
}

#[test]
fn large_readings_only_matter_where_they_are_used() {
    let big = (u64::MAX / 100 + 1).to_string();
    let mut f = no_files();
    f.capacity = Some("50\n".to_string());
    f.energy_now = Some(big.clone());
    f.energy_full = Some(big.clone());
    f.status = Some("Full\n".to_string());
    f.power_now = Some("1000".to_string());
    let info = read_battery("BAT0", &f);
    assert_eq!(info.percentage, 50);
    assert_eq!(info.state, BatteryState::Full);
    assert_eq!(info.time_to_empty, None);
    assert_eq!(info.time_to_full, None);
    assert_eq!(info.energy_now, Some(u64::MAX / 100 + 1));
}

#[test]
fn combined_percentage_weighs_by_full_energy() {
    let mut small = no_files();
    small.capacity = Some("100".to_string());
    small.energy_full = Some("10".to_string());
    let mut large = no_files();
    large.capacity = Some("0".to_string());
    large.energy_full = Some("90".to_string());
    let mut b = BatteryBackend::new();
    let st = b.get_status(0, vec![read_battery("BAT0", &small), read_battery("BAT1", &large)], vec![]);
    assert_eq!(st.combined_percentage, Some(10));
    let mut plain_a = no_files();
    plain_a.capacity = Some("80".to_string());
    let mut plain_b = no_files();
    plain_b.capacity = Some("41".to_string());
    let mut c = BatteryBackend::new();
    let eq = c.get_status(0, vec![read_battery("A", &plain_a), read_battery("B", &plain_b)], vec![]);
    assert_eq!(eq.combined_percentage, Some(60));
    let mut d = BatteryBackend::new();
    assert_eq!(d.get_status(0, vec![], vec![]).combined_percentage, None);
}

#[test]
fn files_that_fit_are_told_apart() {
    let mut f = no_files();
    f.energy_now = Some((u64::MAX / 100 + 1).to_string());
    f.energy_full = Some("100".to_string());
    assert!(!battery_files_fit(&f));
    f.capacity = Some("50".to_string());
    assert!(battery_files_fit(&f));
    f.status = Some("Discharging".to_string());
    f.power_now = Some("5".to_string());
    assert!(!battery_files_fit(&f));
    let mut g = no_files();
    g.charge_now = Some(u64::MAX.to_string());
    assert!(!battery_files_fit(&g));
    assert!(battery_files_fit(&no_files()));
}
