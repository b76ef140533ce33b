use amdgpu_profile_switcher::config::{
    perf_level_from_str, power_profile_from_str, AddEntryError, Config, ConfigEntry,
    ConfigPerDevice, ParseConfigError, ParsedConfigPerDevice,
};
use amdgpu_profile_switcher::knob::{PerfLevel, PowerProfile};
use amdgpu_profile_switcher::pci::{contains_pci, PciBus};
use amdgpu_profile_switcher::utils::find_error_line;

fn entry(name: &str) -> ConfigEntry {
    let mut e = ConfigEntry::default();
    e.name = name.to_string();
    e
}

fn device(pci: &str, entries: Vec<ConfigEntry>) -> ConfigPerDevice {
    ConfigPerDevice {
        pci: pci.to_string(),
        _device_name: None,
        default_power_cap_watt: None,
        _power_cap_watt_range: None,
        default_perf_level: None,
        default_profile: None,
        default_fan_target_temperature: None,
        _fan_target_temperature_range: None,
        default_fan_minimum_pwm: None,
        _fan_minimum_pwm_range: None,
        sclk_offset: None,
        _sclk_offset_range: None,
        vddgfx_offset: None,
        _vddgfx_offset_range: None,
        fan_zero_rpm: None,
        acoustic_target_rpm_threshold: None,
        _acoustic_target_rpm_threshold_range: None,
        entries,
    }
}

fn parsed(d: ConfigPerDevice) -> ParsedConfigPerDevice {
    Config { config_devices: vec![d] }.parse().unwrap().config_devices.remove(0)
}

#[test]
fn the_default_entry_is_empty() {
    let e = ConfigEntry::default();
    assert_eq!(e.name, "");
    assert!(e.perf_level.is_none() && e.profile.is_none() && e.power_cap_watt.is_none());
    assert!(e.fan_target_temperature.is_none() && e.fan_minimum_pwm.is_none());
    assert!(e.acoustic_target_rpm_threshold.is_none());
}

#[test]
fn the_words_of_the_performance_levels() {
    assert_eq!(perf_level_from_str("auto"), Some(PerfLevel::Auto));
    assert_eq!(perf_level_from_str("low"), Some(PerfLevel::Low));
    assert_eq!(perf_level_from_str("high"), Some(PerfLevel::High));
    assert_eq!(perf_level_from_str("manual"), Some(PerfLevel::Manual));
    assert_eq!(perf_level_from_str("profile_standard"), Some(PerfLevel::ProfileStandard));
    assert_eq!(perf_level_from_str("profile_peak"), Some(PerfLevel::ProfilePeak));
    assert_eq!(perf_level_from_str("profile_min_sclk"), Some(PerfLevel::ProfileMinSclk));
    assert_eq!(perf_level_from_str("profile_min_mclk"), Some(PerfLevel::ProfileMinMclk));
    assert_eq!(perf_level_from_str("perf_determinism"), Some(PerfLevel::PerfDeterminism));
    assert_eq!(perf_level_from_str("profile_exit"), None);
    assert_eq!(perf_level_from_str("Auto"), None);
    assert_eq!(perf_level_from_str(""), None);
    assert_eq!(perf_level_from_str("auto "), None);
}

#[test]
fn the_words_of_the_power_profiles() {
    assert_eq!(power_profile_from_str("BOOTUP_DEFAULT"), Some(PowerProfile::BootupDefault));
    assert_eq!(power_profile_from_str("3D_FULL_SCREEN"), Some(PowerProfile::Fullscreen3D));
    assert_eq!(power_profile_from_str("POWER_SAVING"), Some(PowerProfile::PowerSaving));
    assert_eq!(power_profile_from_str("VIDEO"), Some(PowerProfile::Video));
    assert_eq!(power_profile_from_str("VR"), Some(PowerProfile::Vr));
    assert_eq!(power_profile_from_str("COMPUTE"), Some(PowerProfile::Compute));
    assert_eq!(power_profile_from_str("CUSTOM"), Some(PowerProfile::Custom));
    assert_eq!(power_profile_from_str("WINDOW_3D"), Some(PowerProfile::Window3D));
    assert_eq!(power_profile_from_str("CAPPED"), Some(PowerProfile::Capped));
    assert_eq!(power_profile_from_str("UNCAPPED"), Some(PowerProfile::Uncapped));
    assert_eq!(power_profile_from_str("compute"), None);
    assert_eq!(power_profile_from_str("COUNT"), None);
    assert_eq!(power_profile_from_str(""), None);
}

#[test]
fn parse_reads_the_address_and_fills_the_defaults() {
    let config = Config { config_devices: vec![device("0000:03:00.0", vec![entry("glxgears")])] };
    let parsed = config.parse().unwrap();
    assert_eq!(parsed.config_devices.len(), 1);
    let d = &parsed.config_devices[0];
    assert_eq!(d.pci, PciBus { domain: 0, bus: 3, dev: 0, func: 0 });
    assert!(d._device_name.is_none());
    assert_eq!(d.default_perf_level, PerfLevel::Auto);
    assert_eq!(d.default_profile, PowerProfile::BootupDefault);
    assert_eq!(d.entries.len(), 1);
    assert_eq!(d.entries[0].name, "glxgears");
    assert!(d.entries[0].profile.is_none());
}

#[test]
fn parse_reads_a_hexadecimal_address() {
    let d = parsed(device("00a1:0d:1f.7", vec![]));
    assert_eq!(d.pci, PciBus { domain: 0xa1, bus: 0x0d, dev: 0x1f, func: 7 });
}

#[test]
fn parse_takes_every_field_over() {
    let mut d = device("0000:03:00.0", vec![]);
    d._device_name = Some("a note".to_string());
    d.default_power_cap_watt = Some(200);
    d.default_perf_level = Some("manual".to_string());
    d.default_profile = Some("VR".to_string());
    d.default_fan_target_temperature = Some(80);
    d.default_fan_minimum_pwm = Some(30);
    d.sclk_offset = Some(-50);
    d.vddgfx_offset = Some(-20);
    d.fan_zero_rpm = Some(false);
    d.acoustic_target_rpm_threshold = Some(1500);
    let mut e = entry("game");
    e.perf_level = Some("high".to_string());
    e.profile = Some("COMPUTE".to_string());
    e.power_cap_watt = Some(100);
    e.fan_target_temperature = Some(70);
    e.fan_minimum_pwm = Some(40);
    e.acoustic_target_rpm_threshold = Some(1800);
    d.entries = vec![entry("first"), e];
    let p = parsed(d);
    assert!(p._device_name.is_none());
    assert_eq!(p.default_power_cap_watt, Some(200));
    assert_eq!(p.default_perf_level, PerfLevel::Manual);
    assert_eq!(p.default_profile, PowerProfile::Vr);
    assert_eq!(p.default_fan_target_temperature, Some(80));
    assert_eq!(p.default_fan_minimum_pwm, Some(30));
    assert_eq!(p.sclk_offset, Some(-50));
    assert_eq!(p.vddgfx_offset, Some(-20));
    assert_eq!(p.fan_zero_rpm, Some(false));
    assert_eq!(p.acoustic_target_rpm_threshold, Some(1500));
    assert_eq!(p.entries.len(), 2);
    assert_eq!(p.entries[0].name, "first");
    let e = &p.entries[1];
    assert_eq!(e.name, "game");
    assert_eq!(e.perf_level, Some(PerfLevel::High));
    assert_eq!(e.profile, Some(PowerProfile::Compute));
    assert_eq!(e.power_cap_watt, Some(100));
    assert_eq!(e.fan_target_temperature, Some(70));
    assert_eq!(e.fan_minimum_pwm, Some(40));
    assert_eq!(e.acoustic_target_rpm_threshold, Some(1800));
}

#[test]
fn a_device_without_rules_is_taken() {
    let p = parsed(device("0000:03:00.0", vec![]));
    assert!(p.entries.is_empty());
    assert!(p.names().is_empty());
}

#[test]
fn a_configuration_without_devices_is_refused() {
    let config = Config { config_devices: vec![] };
    assert!(matches!(config.parse(), Err(ParseConfigError::DevicesIsEmpty)));
}

#[test]
fn an_empty_address_is_refused() {
    let config = Config { config_devices: vec![device("", vec![entry("")])] };
    assert!(matches!(config.parse(), Err(ParseConfigError::PciIsEmpty)));
}

#[test]
fn parse_refuses_a_text_that_is_no_address() {
    for text in ["zz", "0000:03:00", "0000:03:00.x", "10000:03:00.0", "0000:100:00.0"] {
        let config = Config { config_devices: vec![device(text, vec![])] };
        assert!(matches!(config.parse(), Err(ParseConfigError::InvalidPci(s)) if s == text));
    }
}

#[test]
fn an_empty_name_is_refused() {
    let config = Config { config_devices: vec![device("0000:03:00.0", vec![entry("")])] };
    assert!(matches!(config.parse(), Err(ParseConfigError::EntryNameIsEmpty)));
    assert!(matches!(entry("").parse(), Err(ParseConfigError::EntryNameIsEmpty)));
}

#[test]
fn a_word_outside_the_vocabulary_is_refused() {
    let mut e = entry("a");
    e.perf_level = Some("fast".to_string());
    e.profile = Some("nothing".to_string());
    assert!(matches!(e.parse(), Err(ParseConfigError::InvalidPerfLevel(s)) if s == "fast"));
    e.perf_level = None;
    assert!(matches!(e.parse(), Err(ParseConfigError::InvalidProfile(s)) if s == "nothing"));
    let mut d = device("0000:03:00.0", vec![]);
    d.default_perf_level = Some("".to_string());
    d.default_profile = Some("vr".to_string());
    let c = Config { config_devices: vec![d] };
    assert!(matches!(c.parse(), Err(ParseConfigError::InvalidPerfLevel(s)) if s == ""));
    let mut d = device("0000:03:00.0", vec![]);
    d.default_profile = Some("vr".to_string());
    let c = Config { config_devices: vec![d] };
    assert!(matches!(c.parse(), Err(ParseConfigError::InvalidProfile(s)) if s == "vr"));
}

#[test]
fn the_first_error_in_order_is_reported() {
    // The address is tested before the defaults, the defaults before the rules.
    let mut bad_rule = entry("b");
    bad_rule.profile = Some("nope".to_string());
    let mut d = device("0000:03:00.0", vec![entry("a"), bad_rule, entry("")]);
    let c = Config { config_devices: vec![d_clone(&d)] };
    assert!(matches!(c.parse(), Err(ParseConfigError::InvalidProfile(s)) if s == "nope"));
    d.default_perf_level = Some("bad".to_string());
    let c = Config { config_devices: vec![d_clone(&d)] };
    assert!(matches!(c.parse(), Err(ParseConfigError::InvalidPerfLevel(s)) if s == "bad"));
    d.pci = "?".to_string();
    let c = Config { config_devices: vec![d_clone(&d)] };
    assert!(matches!(c.parse(), Err(ParseConfigError::InvalidPci(s)) if s == "?"));
    // The first device that fails gives the error.
    let c = Config {
        config_devices: vec![
            device("0000:03:00.0", vec![]),
            device("0000:04:00.0", vec![entry("")]),
            device("", vec![]),
        ],
    };
    assert!(matches!(c.parse(), Err(ParseConfigError::EntryNameIsEmpty)));
}

fn d_clone(d: &ConfigPerDevice) -> ConfigPerDevice {
    let mut c = device(&d.pci, d.entries.iter().map(|e| e.clone()).collect());
    c.default_perf_level = d.default_perf_level.clone();
    c.default_profile = d.default_profile.clone();
    c
}

#[test]
fn clones_hold_the_same() {
    let mut e = entry("a");
    e.perf_level = Some("low".to_string());
    e.power_cap_watt = Some(5);
    let c = e.clone();
    assert_eq!((c.name.as_str(), c.perf_level.as_deref(), c.power_cap_watt), ("a", Some("low"), Some(5)));
    let p = parsed(device("0000:03:00.0", vec![e]));
    let q = p.clone();
    assert_eq!(q.pci, p.pci);
    assert_eq!(q.entries.len(), 1);
    assert_eq!(q.entries[0].perf_level, Some(PerfLevel::Low));
    assert!(!p.is_default_changed(&q));
    let err = ParseConfigError::InvalidPci("x".to_string());
    assert!(matches!(err.clone(), ParseConfigError::InvalidPci(s) if s == "x"));
}

#[test]
fn names_are_those_of_the_rules_in_order() {
    let p = parsed(device("0000:03:00.0", vec![entry("b"), entry("a"), entry("b")]));
    assert_eq!(p.names(), vec!["b", "a", "b"]);
}

#[test]
fn defaults_differ_where_any_default_differs() {
    let base = parsed(device("0000:03:00.0", vec![entry("a")]));
    assert!(!base.is_default_changed(&base.clone()));
    // The rules are no defaults.
    let other = parsed(device("0000:03:00.0", vec![entry("b"), entry("c")]));
    assert!(!base.is_default_changed(&other));
    // Neither is the address.
    let other = parsed(device("0000:04:00.0", vec![]));
    assert!(!base.is_default_changed(&other));
    let mut d = device("0000:03:00.0", vec![]);
    d.default_power_cap_watt = Some(1);
    assert!(base.is_default_changed(&parsed(d)));
    let mut d = device("0000:03:00.0", vec![]);
    d.default_perf_level = Some("low".to_string());
    assert!(base.is_default_changed(&parsed(d)));
    let mut d = device("0000:03:00.0", vec![]);
    d.default_perf_level = Some("auto".to_string());
    assert!(!base.is_default_changed(&parsed(d)));
    let mut d = device("0000:03:00.0", vec![]);
    d.default_profile = Some("VR".to_string());
    assert!(base.is_default_changed(&parsed(d)));
    let mut d = device("0000:03:00.0", vec![]);
    d.default_fan_target_temperature = Some(1);
    assert!(base.is_default_changed(&parsed(d)));
    let mut d = device("0000:03:00.0", vec![]);
    d.default_fan_minimum_pwm = Some(1);
    assert!(base.is_default_changed(&parsed(d)));
    let mut d = device("0000:03:00.0", vec![]);
    d.sclk_offset = Some(0);
    assert!(base.is_default_changed(&parsed(d)));
    let mut d = device("0000:03:00.0", vec![]);
    d.vddgfx_offset = Some(0);
    assert!(base.is_default_changed(&parsed(d)));
    let mut d = device("0000:03:00.0", vec![]);
    d.fan_zero_rpm = Some(false);
    assert!(base.is_default_changed(&parsed(d)));
    let mut d = device("0000:03:00.0", vec![]);
    d.acoustic_target_rpm_threshold = Some(0);
    assert!(base.is_default_changed(&parsed(d)));
}

#[test]
fn contains_pci_finds_an_address() {
    let a = PciBus { domain: 0, bus: 3, dev: 0, func: 0 };
    let b = PciBus { domain: 0, bus: 3, dev: 0, func: 1 };
    assert!(contains_pci(&vec![b, a], &a));
    assert!(!contains_pci(&vec![b], &a));
    assert!(!contains_pci(&vec![], &a));
}

#[test]
fn a_rule_is_added_before_the_rules_of_its_device() {
    let a = PciBus { domain: 0, bus: 3, dev: 0, func: 0 };
    let mut first = device("0000:04:00.0", vec![entry("x")]);
    first._device_name = Some("other".to_string());
    let mut second = device("0000:03:00.0", vec![entry("old")]);
    second._device_name = Some("mine".to_string());
    second._power_cap_watt_range = Some([1, 2]);
    second.default_power_cap_watt = Some(7);
    let mut c = Config { config_devices: vec![first, second, device("0000:03:00.0", vec![])] };
    assert!(c.add_entry(a, entry("new"), &vec![]).is_ok());
    assert_eq!(c.config_devices.len(), 3);
    let names: Vec<&str> = c.config_devices[1].entries.iter().map(|e| e.name.as_str()).collect();
    assert_eq!(names, vec!["new", "old"]);
    assert_eq!(c.config_devices[1]._device_name.as_deref(), Some("mine"));
    assert_eq!(c.config_devices[1]._power_cap_watt_range, Some([1, 2]));
    assert_eq!(c.config_devices[1].default_power_cap_watt, Some(7));
    assert_eq!(c.config_devices[0].entries.len(), 1);
    assert!(c.config_devices[2].entries.is_empty());
}

#[test]
fn a_rule_for_a_new_device_makes_new_settings() {
    let a = PciBus { domain: 0, bus: 0x0d, dev: 0, func: 0 };
    let mut c = Config { config_devices: vec![device("0000:04:00.0", vec![entry("x")])] };
    assert!(c.add_entry(a, entry("new"), &vec![a]).is_ok());
    assert_eq!(c.config_devices.len(), 2);
    let d = &c.config_devices[1];
    assert_eq!(d.pci, "0000:0d:00.0");
    assert!(d._device_name.is_none() && d.default_perf_level.is_none());
    assert_eq!(d.entries.len(), 1);
    assert_eq!(d.entries[0].name, "new");
    // What was added is read back as the same address.
    assert_eq!(c.parse().unwrap().config_devices[1].pci, a);
}

#[test]
fn addresses_are_written_as_the_driver_names_them() {
    for (pci, text) in [
        (PciBus { domain: 0, bus: 0, dev: 0, func: 0 }, "0000:00:00.0"),
        (PciBus { domain: 0xabcd, bus: 0xff, dev: 0x1f, func: 7 }, "abcd:ff:1f.7"),
        (PciBus { domain: 1, bus: 2, dev: 3, func: 0x1a }, "0001:02:03.1a"),
    ] {
        let mut c = Config { config_devices: vec![] };
        assert!(c.add_entry(pci, entry("p"), &vec![pci]).is_ok());
        assert_eq!(c.config_devices[0].pci, text);
    }
}

#[test]
fn a_rule_for_a_device_that_is_not_there_is_refused() {
    let a = PciBus { domain: 0, bus: 3, dev: 0, func: 0 };
    let b = PciBus { domain: 0, bus: 4, dev: 0, func: 0 };
    let mut c = Config { config_devices: vec![device("0000:04:00.0", vec![entry("x")])] };
    let r = c.add_entry(a, entry("new"), &vec![b]);
    assert!(matches!(r, Err(AddEntryError::DeviceNotPresent(p)) if p == a));
    assert_eq!(c.config_devices.len(), 1);
    assert_eq!(c.config_devices[0].entries.len(), 1);
}

#[test]
fn a_bad_address_before_the_device_stops_the_adding() {
    let a = PciBus { domain: 0, bus: 3, dev: 0, func: 0 };
    let mut c = Config {
        config_devices: vec![device("bad", vec![]), device("0000:03:00.0", vec![])],
    };
    let r = c.add_entry(a, entry("new"), &vec![a]);
    assert!(matches!(r, Err(AddEntryError::InvalidPci(s)) if s == "bad"));
    assert!(c.config_devices[1].entries.is_empty());
    // After the device it is never read.
    let mut c = Config {
        config_devices: vec![device("0000:03:00.0", vec![]), device("bad", vec![])],
    };
    assert!(c.add_entry(a, entry("new"), &vec![]).is_ok());
    assert_eq!(c.config_devices[0].entries.len(), 1);
}

const FILE: &str = "Config(\n    config_devices: [\n        (\n            pci : \"\",\n            default_perf_level: Some(\"fast\"),\n            entries: [\n                (name: \"\", profile: Some(\"NOPE\")),\n                (name:\"\", perf_level: Some(\"fast\")),\n            ],\n        ),\n    ],\n)\n";

#[test]
fn the_line_of_an_error_is_found() {
    assert_eq!(find_error_line(FILE, &ParseConfigError::PciIsEmpty), Some(3));
    assert_eq!(find_error_line(FILE, &ParseConfigError::EntryNameIsEmpty), Some(6));
    let e = ParseConfigError::InvalidPerfLevel("fast".to_string());
    assert_eq!(find_error_line(FILE, &e), Some(4));
    let e = ParseConfigError::InvalidProfile("NOPE".to_string());
    assert_eq!(find_error_line(FILE, &e), Some(6));
}

#[test]
fn an_error_that_shows_nowhere_has_no_line() {
    assert_eq!(find_error_line(FILE, &ParseConfigError::DevicesIsEmpty), None);
    let e = ParseConfigError::InvalidPci("\"\"".to_string());
    assert_eq!(find_error_line(FILE, &e), None);
    let e = ParseConfigError::InvalidProfile("nowhere".to_string());
    assert_eq!(find_error_line(FILE, &e), None);
    assert_eq!(find_error_line("", &ParseConfigError::PciIsEmpty), None);
    assert_eq!(find_error_line("pci: \" \"", &ParseConfigError::PciIsEmpty), Some(0));
    assert_eq!(find_error_line("pci: \"a\"", &ParseConfigError::PciIsEmpty), None);
    // Blanks count where a word is looked for.
    let e = ParseConfigError::InvalidProfile("a b".to_string());
    assert_eq!(find_error_line("ab\na  b\na b\n", &e), Some(2));
    // The empty word shows on the first line.
    let e = ParseConfigError::InvalidPerfLevel("".to_string());
    assert_eq!(find_error_line("x\ny\n", &e), Some(0));
    assert_eq!(find_error_line("", &e), None);
}

#[test]
fn settings_are_checked_with_the_address_that_was_read() {
    let a = PciBus { domain: 0, bus: 9, dev: 0, func: 0 };
    // The address is taken as given, whatever the text says.
    let d = device("0000:03:00.0", vec![entry("x")]);
    let p = d.parse_with(Some(a)).unwrap();
    assert_eq!(p.pci, a);
    assert!(p._device_name.is_none());
    assert_eq!(p.names(), vec!["x"]);
    assert_eq!(p.default_perf_level, PerfLevel::Auto);
    assert!(matches!(d.parse_with(None), Err(ParseConfigError::InvalidPci(s)) if s == "0000:03:00.0"));
    // An empty text is refused before the address is looked at.
    let d = device("", vec![]);
    assert!(matches!(d.parse_with(Some(a)), Err(ParseConfigError::PciIsEmpty)));
    assert!(matches!(d.parse_with(None), Err(ParseConfigError::PciIsEmpty)));
    // The address comes before the defaults and the rules.
    let mut d = device("x", vec![entry("")]);
    d.default_profile = Some("vr".to_string());
    assert!(matches!(d.parse_with(None), Err(ParseConfigError::InvalidPci(s)) if s == "x"));
    assert!(matches!(d.parse_with(Some(a)), Err(ParseConfigError::InvalidProfile(s)) if s == "vr"));
    d.default_profile = None;
    assert!(matches!(d.parse_with(Some(a)), Err(ParseConfigError::EntryNameIsEmpty)));
}

#[test]
fn the_addresses_of_a_configuration() {
    let c = Config {
        config_devices: vec![device("0000:03:00.0", vec![]), device("bad", vec![]), device("", vec![])],
    };
    assert_eq!(
        c.addresses(),
        vec![Some(PciBus { domain: 0, bus: 3, dev: 0, func: 0 }), None, None]
    );
    assert!(Config { config_devices: vec![] }.addresses().is_empty());
}

#[test]
fn a_rule_is_added_by_the_addresses_that_were_read() {
    let a = PciBus { domain: 0, bus: 3, dev: 0, func: 0 };
    let b = PciBus { domain: 0, bus: 4, dev: 0, func: 0 };
    let make = || Config { config_devices: vec![device("one", vec![entry("x")]), device("two", vec![])] };
    // The second device has the address.
    let mut c = make();
    assert!(c.add_entry_with(&vec![Some(b), Some(a)], a, entry("new"), &vec![]).is_ok());
    assert_eq!(c.config_devices[1].entries.len(), 1);
    assert_eq!(c.config_devices[0].entries.len(), 1);
    // The first of two devices with the address takes the rule.
    let mut c = make();
    assert!(c.add_entry_with(&vec![Some(a), Some(a)], a, entry("new"), &vec![]).is_ok());
    let names: Vec<&str> = c.config_devices[0].entries.iter().map(|e| e.name.as_str()).collect();
    assert_eq!(names, vec!["new", "x"]);
    assert!(c.config_devices[1].entries.is_empty());
    // An address that could not be read stops the search.
    let mut c = make();
    let r = c.add_entry_with(&vec![None, Some(a)], a, entry("new"), &vec![a]);
    assert!(matches!(r, Err(AddEntryError::InvalidPci(s)) if s == "one"));
    assert!(c.config_devices[1].entries.is_empty());
    // No device has the address: the hardware decides.
    let mut c = make();
    let r = c.add_entry_with(&vec![Some(b), Some(b)], a, entry("new"), &vec![b]);
    assert!(matches!(r, Err(AddEntryError::DeviceNotPresent(p)) if p == a));
    assert_eq!(c.config_devices.len(), 2);
    assert!(c.add_entry_with(&vec![Some(b), Some(b)], a, entry("new"), &vec![b, a]).is_ok());
    assert_eq!(c.config_devices.len(), 3);
    assert_eq!(c.config_devices[2].pci, "0000:03:00.0");
    // A device without an entry among the addresses is not looked at.
    let mut c = make();
    assert!(c.add_entry_with(&vec![Some(b)], a, entry("new"), &vec![a]).is_ok());
    assert_eq!(c.config_devices.len(), 3);
    assert!(c.config_devices[1].entries.is_empty());
}
