use amdgpu_profile_switcher::args::{AddOptions, AppMode, ArgsError, MainOpt, SubCommand};
use amdgpu_profile_switcher::config::ParseConfigError;
use amdgpu_profile_switcher::pci::PciBus;

fn args(list: &[&str]) -> Vec<String> {
    list.iter().map(|s| s.to_string()).collect()
}

fn mode(list: &[&str]) -> AppMode {
    let opt = MainOpt::parse(&args(list)).unwrap();
    assert!(matches!(opt.sub_command, SubCommand::Nop));
    opt.app_mode
}

#[test]
fn without_arguments_the_program_runs() {
    assert_eq!(mode(&[]), AppMode::Run);
    assert_eq!(AppMode::default(), AppMode::Run);
    assert!(matches!(SubCommand::default(), SubCommand::Nop));
    let opt = MainOpt::default();
    assert!(matches!(opt.sub_command, SubCommand::Nop));
    assert_eq!(opt.app_mode, AppMode::Run);
}

#[test]
fn each_flag_has_its_mode() {
    assert_eq!(mode(&["--procs"]), AppMode::DumpProcs);
    assert_eq!(mode(&["--check-config"]), AppMode::CheckConfig);
    assert_eq!(mode(&["--generate-config"]), AppMode::GenerateConfig);
    assert_eq!(mode(&["--profiles"]), AppMode::DumpSupportedPowerProfile);
    assert_eq!(mode(&["--list-devices"]), AppMode::DeviceList);
}

#[test]
fn the_last_flag_counts() {
    assert_eq!(mode(&["--procs", "--profiles", "--check-config"]), AppMode::CheckConfig);
}

#[test]
fn help_ends_the_reading() {
    assert!(matches!(MainOpt::parse(&args(&["--help"])), Err(ArgsError::Help)));
    assert!(matches!(MainOpt::parse(&args(&["--procs", "--help", "--what"])), Err(ArgsError::Help)));
}

#[test]
fn an_unknown_option_is_refused() {
    let r = MainOpt::parse(&args(&["--procs", "--what", "--help"]));
    assert!(matches!(r, Err(ArgsError::UnknownOption(s)) if s == "--what"));
    let r = MainOpt::parse(&args(&["--procs", "add"]));
    assert!(matches!(r, Err(ArgsError::UnknownOption(s)) if s == "add"));
    let r = MainOpt::parse(&args(&[""]));
    assert!(matches!(r, Err(ArgsError::UnknownOption(s)) if s == ""));
}

#[test]
fn add_gives_the_address_and_the_rule() {
    let r = MainOpt::parse(&args(&[
        "add", "--name", "first", "--pci", "0000:03:00.0", "--profile", "VR", "--perf_level",
        "manual", "--name", "glxgears",
    ]))
    .unwrap();
    assert_eq!(r.app_mode, AppMode::Run);
    match r.sub_command {
        SubCommand::AddEntry((pci, entry)) => {
            assert_eq!(pci, PciBus { domain: 0, bus: 3, dev: 0, func: 0 });
            assert_eq!(entry.name, "glxgears");
            assert_eq!(entry.perf_level.as_deref(), Some("manual"));
            assert_eq!(entry.profile.as_deref(), Some("VR"));
            assert!(entry.power_cap_watt.is_none() && entry.fan_target_temperature.is_none());
            assert!(entry.fan_minimum_pwm.is_none());
            assert!(entry.acoustic_target_rpm_threshold.is_none());
        },
        SubCommand::Nop => panic!("no command"),
    }
    let r = MainOpt::parse(&args(&["add", "--pci", "0000:03:00.0", "--name", "x"])).unwrap();
    match r.sub_command {
        SubCommand::AddEntry((_, entry)) => {
            assert!(entry.perf_level.is_none() && entry.profile.is_none());
        },
        SubCommand::Nop => panic!("no command"),
    }
}

#[test]
fn add_refuses_what_it_does_not_know() {
    let r = MainOpt::parse(&args(&["add", "--pci", "0000:03:00.0", "--procs"]));
    assert!(matches!(r, Err(ArgsError::UnknownAddOption(s)) if s == "--procs"));
    let r = MainOpt::parse(&args(&["add", "--help"]));
    assert!(matches!(r, Err(ArgsError::UnknownAddOption(s)) if s == "--help"));
    // A value is taken as it stands, whatever it looks like.
    let r = MainOpt::parse(&args(&["add", "--name", "--pci", "--pci", "0000:03:00.0"])).unwrap();
    assert!(matches!(r.sub_command, SubCommand::AddEntry((_, e)) if e.name == "--pci"));
}

#[test]
fn add_wants_a_value_for_each_option() {
    let r = MainOpt::parse(&args(&["add", "--pci", "0000:03:00.0", "--name"]));
    assert!(matches!(r, Err(ArgsError::MissingValue(s)) if s == "--name"));
    let r = MainOpt::parse(&args(&["add", "--profile"]));
    assert!(matches!(r, Err(ArgsError::MissingValue(s)) if s == "--profile"));
}

#[test]
fn add_wants_an_address_and_a_name() {
    assert!(matches!(MainOpt::parse(&args(&["add"])), Err(ArgsError::EmptyPci)));
    let r = MainOpt::parse(&args(&["add", "--name", "x"]));
    assert!(matches!(r, Err(ArgsError::EmptyPci)));
    let r = MainOpt::parse(&args(&["add", "--pci", "", "--name", "x"]));
    assert!(matches!(r, Err(ArgsError::EmptyPci)));
    let r = MainOpt::parse(&args(&["add", "--pci", "0000:03:00.0"]));
    assert!(matches!(r, Err(ArgsError::EmptyName)));
    let r = MainOpt::parse(&args(&["add", "--pci", "nothing", "--name", ""]));
    assert!(matches!(r, Err(ArgsError::EmptyName)));
    let r = MainOpt::parse(&args(&["add", "--pci", "nothing", "--name", "x"]));
    assert!(matches!(r, Err(ArgsError::InvalidPci(s)) if s == "nothing"));
}

#[test]
fn add_refuses_a_rule_that_the_configuration_would_refuse() {
    let r = MainOpt::parse(&args(&[
        "add", "--pci", "0000:03:00.0", "--name", "x", "--perf_level", "fast",
    ]));
    assert!(matches!(
        r,
        Err(ArgsError::InvalidEntry(ParseConfigError::InvalidPerfLevel(s))) if s == "fast"
    ));
    let r = MainOpt::parse(&args(&[
        "add", "--pci", "0000:03:00.0", "--name", "x", "--profile", "vr",
    ]));
    assert!(matches!(
        r,
        Err(ArgsError::InvalidEntry(ParseConfigError::InvalidProfile(s))) if s == "vr"
    ));
}

fn options(pci: &str, name: &str) -> AddOptions {
    AddOptions { pci: pci.to_string(), name: name.to_string(), perf_level: None, profile: None }
}

#[test]
fn add_is_made_with_the_address_that_was_read() {
    let a = PciBus { domain: 0, bus: 9, dev: 0, func: 0 };
    let mut o = options("anything", "glxgears");
    o.profile = Some("VR".to_string());
    let (pci, entry) = MainOpt::add_with(o, Some(a)).unwrap();
    assert_eq!(pci, a);
    assert_eq!(entry.name, "glxgears");
    assert_eq!(entry.profile.as_deref(), Some("VR"));
    assert!(entry.perf_level.is_none() && entry.power_cap_watt.is_none());
    let r = MainOpt::add_with(options("anything", "x"), None);
    assert!(matches!(r, Err(ArgsError::InvalidPci(s)) if s == "anything"));
    // What is empty is refused before the address is looked at.
    assert!(matches!(MainOpt::add_with(options("", "x"), Some(a)), Err(ArgsError::EmptyPci)));
    assert!(matches!(MainOpt::add_with(options("", ""), None), Err(ArgsError::EmptyPci)));
    assert!(matches!(MainOpt::add_with(options("p", ""), None), Err(ArgsError::EmptyName)));
    // The address comes before the rule.
    let mut o = options("p", "x");
    o.perf_level = Some("fast".to_string());
    assert!(matches!(MainOpt::add_with(o, None), Err(ArgsError::InvalidPci(s)) if s == "p"));
    let mut o = options("p", "x");
    o.perf_level = Some("fast".to_string());
    assert!(matches!(
        MainOpt::add_with(o, Some(a)),
        Err(ArgsError::InvalidEntry(ParseConfigError::InvalidPerfLevel(s))) if s == "fast"
    ));
}
