//! What the kernel tells of the hardware.
use cache_cleaner_daemon::config::Celsius;
use cache_cleaner_daemon::hardware::f2fs::{F2fsController, F2fsEntry};
use cache_cleaner_daemon::hardware::telemetry::DeviceEnvironmentSnapshot;
use cache_cleaner_daemon::hardware::thermal::{
    is_soc_zone, is_thermal_zone, read_thermal, ThermalReport, ThermalZone,
};
use cache_cleaner_daemon::hardware::uevent::{
    capacity_paths, charger_fallback_paths, get_battery_percent, get_charger_state,
    get_charger_state_fallback, get_screen_state, supply_kind, Backlight, ChargerState, Led,
    PowerSupply, ScreenFacts, ScreenState, SupplyKind, UeventMessage,
};

fn some(s: &str) -> Option<String> {
    Some(s.to_string())
}

fn supply(kind: Option<&str>, online: Option<&str>, status: Option<&str>) -> PowerSupply {
    PowerSupply {
        supply_type: kind.map(|s| s.to_string()),
        online: online.map(|s| s.to_string()),
        status: status.map(|s| s.to_string()),
    }
}

fn degrees(c: f32) -> Celsius {
    Celsius { bits: c.to_bits() }
}

fn dark() -> ScreenFacts {
    ScreenFacts {
        backlights: Vec::new(),
        leds: Vec::new(),
        blanks: Vec::new(),
        dpms: Vec::new(),
        display_dump: None,
    }
}

#[test]
fn events_are_read() {
    let raw = b"change@/devices/battery\0ACTION=change\0SUBSYSTEM=power_supply\0POWER_SUPPLY_STATUS=Full\0NOTHING\0A=b=c\0";
    let event = UeventMessage::parse(raw).unwrap();
    assert_eq!(event.action, "change");
    assert_eq!(event.devpath, "/devices/battery");
    assert_eq!(event.subsystem, "power_supply");
    assert_eq!(event.properties.len(), 2);
    assert_eq!(event.properties.get("POWER_SUPPLY_STATUS"), Some(&"Full".to_string()));
    assert_eq!(event.properties.get("A"), Some(&"b=c".to_string()));
    assert_eq!(event.properties.get("ACTION"), None);
}

#[test]
fn named_lines_win() {
    let event = UeventMessage::parse(b"add@/x\0DEVPATH=/y\0ACTION=remove\0").unwrap();
    assert_eq!((event.action.as_str(), event.devpath.as_str()), ("remove", "/y"));
    let bare = UeventMessage::parse(b"libudev\0SUBSYSTEM=usb\0").unwrap();
    assert_eq!((bare.action.as_str(), bare.subsystem.as_str()), ("", "usb"));
}

#[test]
fn events_that_tell_nothing_are_dropped() {
    assert!(UeventMessage::parse(b"").is_none());
    assert!(UeventMessage::parse(b"\0\0").is_none());
    assert!(UeventMessage::parse(b"no header\0KEY=value\0").is_none());
    assert!(UeventMessage::parse(&[0xff, 0x40]).is_none());
}

#[test]
fn online_source_means_charging() {
    let nothing: Vec<Option<String>> = Vec::new();
    let usb = supply(Some("usb\n"), Some("1\n"), None);
    let empty = supply(Some("Battery\n"), None, Some("Discharging\n"));
    assert_eq!(get_charger_state(&vec![empty, usb.clone()], &nothing), ChargerState::Charging);
    let full = supply(Some("Battery"), None, Some("FULL"));
    assert_eq!(get_charger_state(&vec![usb, full], &nothing), ChargerState::Full);
}

#[test]
fn nodes_without_a_type_tell_by_their_status() {
    let nothing: Vec<Option<String>> = Vec::new();
    let silent = supply(None, Some("1\n"), None);
    assert_eq!(get_charger_state(&vec![silent.clone()], &nothing), ChargerState::Unknown);
    let empty = supply(Some("Battery"), None, Some("Discharging"));
    assert_eq!(get_charger_state(&vec![empty, silent], &nothing), ChargerState::Discharging);
    let full = supply(None, Some("1\n"), Some("Full\n"));
    assert_eq!(get_charger_state(&vec![full], &nothing), ChargerState::Full);
    let resting = supply(None, None, Some("Not charging"));
    assert_eq!(get_charger_state(&vec![resting], &nothing), ChargerState::Unknown);
}

#[test]
fn events_are_copied() {
    let event = UeventMessage::parse(b"add@/x\0SUBSYSTEM=usb\0A=b\0").unwrap();
    let copy = event.clone();
    assert_eq!((copy.action.as_str(), copy.devpath.as_str()), ("add", "/x"));
    assert_eq!(copy.properties.get("A"), Some(&"b".to_string()));
    assert_eq!(copy, event);
    let turned = UeventMessage::parse(b"add@/x\0B=c\0SUBSYSTEM=usb\0A=b\0").unwrap();
    assert_ne!(turned, event);
    let other = UeventMessage::parse(b"add@/x\0A=b\0SUBSYSTEM=usb\0B=c\0").unwrap();
    assert_eq!(turned, other);
    let changed = UeventMessage::parse(b"add@/x\0A=b\0SUBSYSTEM=usb\0B=d\0").unwrap();
    assert_ne!(changed, other);
}

#[test]
fn battery_tells_without_a_source() {
    let nothing: Vec<Option<String>> = Vec::new();
    let resting = supply(Some("Battery"), None, Some("Not charging"));
    assert_eq!(get_charger_state(&vec![resting.clone()], &nothing), ChargerState::Discharging);
    let charging = supply(Some("bms"), None, Some("charging"));
    assert_eq!(
        get_charger_state(&vec![charging, resting], &nothing),
        ChargerState::Charging
    );
    let plain = supply(None, None, Some("1"));
    assert_eq!(get_charger_state(&vec![plain], &nothing), ChargerState::Charging);
    let typed = supply(Some("Battery"), None, Some("1"));
    assert_eq!(get_charger_state(&vec![typed], &nothing), ChargerState::Unknown);
}

#[test]
fn fallback_files_are_asked_in_order() {
    assert_eq!(charger_fallback_paths()[0], "/sys/class/power_supply/battery/status");
    assert_eq!(
        get_charger_state(&Vec::new(), &vec![None, some("odd"), some("0\n"), some("1")]),
        ChargerState::Discharging
    );
    assert_eq!(get_charger_state_fallback(&vec![some("full")]), ChargerState::Full);
    assert_eq!(get_charger_state_fallback(&Vec::new()), ChargerState::Unknown);
}

#[test]
fn supplies_have_kinds() {
    assert_eq!(supply_kind("USB_PD"), SupplyKind::Source);
    assert_eq!(supply_kind("WIRELESS"), SupplyKind::Source);
    assert_eq!(supply_kind("BATTERY"), SupplyKind::Battery);
    assert_eq!(supply_kind("UPS"), SupplyKind::Other);
}

#[test]
fn percent_is_bounded() {
    assert_eq!(capacity_paths()[2], "/sys/class/power_supply/qcom-battery/capacity");
    assert_eq!(get_battery_percent(&vec![None, some("101"), some(" 87\n")]), Some(87));
    assert_eq!(get_battery_percent(&vec![some("+100")]), Some(100));
    assert_eq!(get_battery_percent(&vec![some("-1"), some("x"), some("300")]), None);
}

#[test]
fn screen_is_told_by_the_first_source() {
    let mut facts = dark();
    assert_eq!(get_screen_state(&facts), ScreenState::Unknown);
    facts.display_dump = some("mHolding; mScreenState=OFF");
    assert_eq!(get_screen_state(&facts), ScreenState::Off);
    facts.display_dump = some("Display Power: state=ON");
    assert_eq!(get_screen_state(&facts), ScreenState::On);
    facts.dpms = vec![some("Standby"), some("off\n")];
    assert_eq!(get_screen_state(&facts), ScreenState::Off);
    facts.blanks = vec![None, some("0")];
    assert_eq!(get_screen_state(&facts), ScreenState::On);
    facts.leds = vec![
        Led { name: "flash".to_string(), brightness: some("9") },
        Led { name: "lcd-backlight".to_string(), brightness: some("0") },
    ];
    assert_eq!(get_screen_state(&facts), ScreenState::Off);
    facts.backlights = vec![
        Backlight { actual_brightness: some("junk"), brightness: some("5") },
        Backlight { actual_brightness: None, brightness: some("12") },
    ];
    assert_eq!(get_screen_state(&facts), ScreenState::On);
}

#[test]
fn hottest_chip_is_reported() {
    let zones = vec![
        ThermalZone { zone_type: "cpu-0-0".to_string(), temp: Some(degrees(41.5)) },
        ThermalZone { zone_type: "PA-THERM".to_string(), temp: Some(degrees(80.0)) },
        ThermalZone { zone_type: "GPUSS".to_string(), temp: Some(degrees(44.25)) },
        ThermalZone { zone_type: "soc".to_string(), temp: Some(degrees(130.0)) },
        ThermalZone { zone_type: "soc".to_string(), temp: None },
    ];
    let report = read_thermal(&vec![None, Some(degrees(0.0)), Some(degrees(30.5))], &zones);
    assert_eq!(report.max_soc_temp_c, degrees(44.25));
    assert_eq!(report.battery_temp_c, degrees(30.5));
    let others = vec![ThermalZone { zone_type: "skin".to_string(), temp: Some(degrees(38.0)) }];
    assert_eq!(read_thermal(&Vec::new(), &others).max_soc_temp_c, degrees(38.0));
}

#[test]
fn missing_sensors_have_defaults() {
    let report = read_thermal(&vec![Some(degrees(f32::NAN)), Some(degrees(100.0))], &Vec::new());
    assert_eq!(report.max_soc_temp_c, degrees(35.0));
    assert_eq!(report.battery_temp_c, degrees(32.0));
    assert!(is_soc_zone("exynos-rear") && !is_soc_zone("battery"));
    assert!(is_thermal_zone("thermal_zone12") && !is_thermal_zone("cooling_device0"));
}

#[test]
fn snapshot_follows_charger_and_screen() {
    let thermal = ThermalReport { max_soc_temp_c: degrees(40.0), battery_temp_c: degrees(30.0) };
    let idle =
        DeviceEnvironmentSnapshot::capture(ScreenState::Off, ChargerState::Full, thermal);
    assert!(idle.is_charging && idle.is_screen_off);
    assert_eq!(idle.soc_temp_c, degrees(40.0));
    let busy =
        DeviceEnvironmentSnapshot::capture(ScreenState::Unknown, ChargerState::Unknown, thermal);
    assert!(!busy.is_charging && !busy.is_screen_off);
}

#[test]
fn guard_puts_modes_back() {
    let entries = vec![
        F2fsEntry { path: "/sys/fs/f2fs/dm-5".to_string(), is_dir: true, has_gc_urgent: true },
        F2fsEntry { path: "/sys/fs/f2fs/features".to_string(), is_dir: true, has_gc_urgent: false },
        F2fsEntry { path: "/sys/fs/f2fs/sda1".to_string(), is_dir: true, has_gc_urgent: true },
    ];
    let controller = F2fsController::discover(&entries);
    assert!(controller.is_available());
    assert_eq!(
        controller.mode_files(),
        vec!["/sys/fs/f2fs/dm-5/gc_urgent", "/sys/fs/f2fs/sda1/gc_urgent"]
    );
    let (now, guard) =
        controller.enter_gc_urgent_scoped(2, &vec![some("1\n"), some("odd")]).unwrap();
    assert_eq!(now.len(), 2);
    assert_eq!((now[1].path.as_str(), now[1].payload.as_str()), ("/sys/fs/f2fs/sda1/gc_urgent", "2\n"));
    let back = guard.restore();
    assert_eq!((back[0].path.as_str(), back[0].payload.as_str()), ("/sys/fs/f2fs/dm-5/gc_urgent", "1\n"));
    assert_eq!(back[1].payload, "0\n");
    let none = F2fsController::discover(&Vec::new());
    assert!(!none.is_available());
    assert!(none.enter_gc_urgent_scoped(2, &Vec::new()).is_none());
}
