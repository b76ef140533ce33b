use amdgpu_profile_switcher::amdgpu_device::{
    parse_hex_id, AmdgpuDevice, FanMinPwm, FanTargetRpm, FanTargetTemp, FanZeroRpm, PowerCap,
    SclkOffset, SysfsProbe, VddgfxOffset,
};
use amdgpu_profile_switcher::pci::PciBus;

const TABLE: &str = "OD_SCLK_OFFSET:\n25MHz\nOD_MCLK:\n0: 97MHz\n1: 1250MHz\nOD_VDDGFX_OFFSET:\n-10mV\nOD_RANGE:\nSCLK_OFFSET:    -500MHz       1000MHz\nMCLK:    97MHz       1500MHz\nVDDGFX_OFFSET:    -200mV          0mV\n";

const TARGET_TEMP: &str = "FAN_TARGET_TEMPERATURE:\n83\nOD_RANGE:\nTARGET_TEMPERATURE: 25 110\n";

const MIN_PWM: &str = "FAN_MINIMUM_PWM:\n20\nOD_RANGE:\nMINIMUM_PWM: 20 100\n";

fn pci() -> PciBus {
    PciBus { domain: 0, bus: 3, dev: 0, func: 0 }
}

fn probe() -> SysfsProbe {
    SysfsProbe {
        has_power_profile: true,
        has_perf_level: true,
        device: Some("0x1114\n".to_string()),
        revision: Some("0xc2\n".to_string()),
        has_hwmon: true,
        power_cap: Some(PowerCap { current: 200, default: 220, min: 100, max: 250 }),
        fan_target_temperature: Some(TARGET_TEMP.to_string()),
        fan_minimum_pwm: Some(MIN_PWM.to_string()),
        pp_od_clk_voltage: Some(TABLE.to_string()),
        fan_zero_rpm_enable: Some("FAN_ZERO_RPM_ENABLE:\n1\nOD_RANGE:\nZERO_RPM_ENABLE: 0 1\n".to_string()),
        acoustic_target_rpm_threshold: true,
    }
}

#[test]
fn sclk_offset_reads_value_and_range() {
    let o = SclkOffset::from_str(TABLE).unwrap();
    assert_eq!(o.current, 25);
    assert_eq!(o.range, Some([-500, 1000]));
}

#[test]
fn vddgfx_offset_reads_value_and_range() {
    let o = VddgfxOffset::from_str(TABLE).unwrap();
    assert_eq!(o.current, -10);
    assert_eq!(o.range, Some([-200, 0]));
}

#[test]
fn an_offset_needs_its_header_its_value_and_its_range_line() {
    assert!(SclkOffset::from_str("").is_none());
    assert!(SclkOffset::from_str("OD_SCLK_OFFSET:\n").is_none());
    assert!(SclkOffset::from_str("OD_SCLK_OFFSET:\n25MHz\n").is_none());
    assert!(SclkOffset::from_str("OD_SCLK_OFFSET:\nMHz\nSCLK_OFFSET: 1MHz 2MHz\n").is_none());
    assert!(SclkOffset::from_str("OD_SCLK_OFFSET:\n25\nSCLK_OFFSET: 1MHz 2MHz\n").is_none());
    assert!(SclkOffset::from_str("25MHz\nSCLK_OFFSET: 1MHz 2MHz\n").is_none());
    assert!(VddgfxOffset::from_str("OD_VDDGFX_OFFSET:\nV\nVDDGFX_OFFSET: 1mV 2mV\n").is_none());
}

#[test]
fn an_offset_may_lack_its_range() {
    let o = SclkOffset::from_str("OD_SCLK_OFFSET:\n7MHz\nSCLK_OFFSET: 1MHz\n").unwrap();
    assert_eq!((o.current, o.range), (7, None));
    let o = SclkOffset::from_str("OD_SCLK_OFFSET:\n7MHz\nSCLK_OFFSET: 1MHz x\n").unwrap();
    assert_eq!((o.current, o.range), (7, None));
    let o = VddgfxOffset::from_str("OD_VDDGFX_OFFSET:\n-7mV\nVDDGFX_OFFSET:\n").unwrap();
    assert_eq!((o.current, o.range), (-7, None));
}

#[test]
fn the_header_is_matched_at_the_end_of_a_line_and_the_range_after_the_value() {
    // The range line before the value does not count; the one after does.
    let text = "SCLK_OFFSET: 1MHz 2MHz\nGFX OD_SCLK_OFFSET:\n+3MHz\nSCLK_OFFSET: -4MHz 5MHz 6MHz\n";
    let o = SclkOffset::from_str(text).unwrap();
    assert_eq!((o.current, o.range), (3, Some([-4, 5])));
    // The line right after the value is not searched for the range.
    let text = "OD_SCLK_OFFSET:\n3MHz\nSCLK_OFFSET: 1MHz 2MHz\n";
    assert_eq!(SclkOffset::from_str(text).unwrap().range, Some([1, 2]));
    let text = "OD_SCLK_OFFSET:\nSCLK_OFFSET: 1MHz 2MHz\n";
    assert!(SclkOffset::from_str(text).is_none());
}

#[test]
fn fan_target_temperature_reads_value_and_range() {
    let t = FanTargetTemp::from_sysfs_path(TARGET_TEMP).unwrap();
    assert_eq!(t.target_temp, 83);
    assert_eq!(t.temp_range, [25, 110]);
}

#[test]
fn fan_minimum_pwm_reads_value_and_range() {
    let p = FanMinPwm::from_sysfs_path(MIN_PWM).unwrap();
    assert_eq!(p.minimum_pwm, 20);
    assert_eq!(p.pwm_range, [20, 100]);
}

#[test]
fn a_fan_value_needs_every_part() {
    assert!(FanTargetTemp::from_sysfs_path("").is_none());
    assert!(FanTargetTemp::from_sysfs_path("FAN_TARGET_TEMPERATURE:\n").is_none());
    assert!(FanTargetTemp::from_sysfs_path("FAN_TARGET_TEMPERATURE:\n83\n").is_none());
    assert!(FanTargetTemp::from_sysfs_path("FAN_TARGET_TEMPERATURE:\n83\nOD_RANGE:\n").is_none());
    assert!(FanTargetTemp::from_sysfs_path(
        "FAN_TARGET_TEMPERATURE:\nx\nOD_RANGE:\nTARGET_TEMPERATURE: 25 110\n"
    )
    .is_none());
    assert!(FanTargetTemp::from_sysfs_path(
        "FAN_TARGET_TEMPERATURE:\n83\nOD_RANGE:\nTARGET_TEMPERATURE: 25\n"
    )
    .is_none());
    assert!(FanTargetTemp::from_sysfs_path(
        "FAN_TARGET_TEMPERATURE:\n83\nOD_RANGE:\nTARGET_TEMPERATURE: 25  110\n"
    )
    .is_none());
    assert!(FanMinPwm::from_sysfs_path(TARGET_TEMP).is_none());
    // Without the label the two numbers still make the range.
    let t = FanTargetTemp::from_sysfs_path("FAN_TARGET_TEMPERATURE:\n83\nOD_RANGE:\n25 110\n");
    assert_eq!(t.unwrap().temp_range, [25, 110]);
}

#[test]
fn fan_zero_rpm_reads_the_line_after_the_header() {
    assert_eq!(FanZeroRpm::from_sysfs_path("FAN_ZERO_RPM_ENABLE:\n1\n"), Some(true));
    assert_eq!(FanZeroRpm::from_sysfs_path("FAN_ZERO_RPM_ENABLE:\n0\n"), Some(false));
    assert_eq!(FanZeroRpm::from_sysfs_path("FAN_ZERO_RPM_ENABLE:\n1 \n"), Some(false));
    assert_eq!(FanZeroRpm::from_sysfs_path("FAN_ZERO_RPM_ENABLE:\n"), None);
    assert_eq!(FanZeroRpm::from_sysfs_path("1\n"), None);
    assert_eq!(FanZeroRpm::from_sysfs_path(""), None);
}

#[test]
fn hex_ids_are_read_without_prefix_and_line_end() {
    assert_eq!(parse_hex_id("0x73bf\n"), Some(0x73bf));
    assert_eq!(parse_hex_id("0xC1"), Some(0xc1));
    assert_eq!(parse_hex_id("73bf"), Some(0x73bf));
    assert_eq!(parse_hex_id("0x\n"), None);
    assert_eq!(parse_hex_id(" 0x12"), None);
    assert_eq!(parse_hex_id("0x1g"), None);
}

#[test]
fn a_device_is_made_from_a_usable_probe() {
    let p = probe();
    assert!(p.check_ids());
    let d = AmdgpuDevice::get_from_pci_bus(pci(), &p).unwrap();
    assert_eq!(d.pci_bus, pci());
    assert_eq!(d.device_id, 0x1114);
    assert_eq!(d.revision_id, 0xc2);
    assert_eq!(d.device_name, "AMD Radeon 860M Graphics");
    assert_eq!(d.power_cap.unwrap().default, 220);
    assert_eq!(d.fan_target_temperature.unwrap().target_temp, 83);
    assert_eq!(d.fan_minimum_pwm.unwrap().minimum_pwm, 20);
    assert_eq!(d.sclk_offset.unwrap().current, 25);
    assert_eq!(d.vddgfx_offset.unwrap().current, -10);
    assert_eq!(d.fan_zero_rpm, Some(true));
    assert!(d.acoustic_target_rpm_threshold);
}

#[test]
fn a_device_that_is_not_known_has_the_common_name() {
    let mut p = probe();
    p.device = Some("0x0001".to_string());
    p.revision = Some("0x00".to_string());
    let d = AmdgpuDevice::get_from_pci_bus(pci(), &p).unwrap();
    assert_eq!(d.device_name, "AMD Radeon Graphics");
}

#[test]
fn no_device_without_control_files_ids_or_sensors() {
    let mut p = probe();
    p.has_power_profile = false;
    assert!(AmdgpuDevice::get_from_pci_bus(pci(), &p).is_none());
    let mut p = probe();
    p.has_perf_level = false;
    assert!(AmdgpuDevice::get_from_pci_bus(pci(), &p).is_none());
    let mut p = probe();
    p.device = None;
    assert!(p.check_ids());
    assert!(AmdgpuDevice::get_from_pci_bus(pci(), &p).is_none());
    let mut p = probe();
    p.revision = None;
    assert!(AmdgpuDevice::get_from_pci_bus(pci(), &p).is_none());
    let mut p = probe();
    p.has_hwmon = false;
    assert!(AmdgpuDevice::get_from_pci_bus(pci(), &p).is_none());
}

#[test]
fn check_ids_refuses_a_text_that_is_no_number() {
    let mut p = probe();
    p.device = Some("what".to_string());
    assert!(!p.check_ids());
    let mut p = probe();
    p.revision = Some("".to_string());
    assert!(!p.check_ids());
    // Without the control files the numbers are never read.
    p.has_perf_level = false;
    assert!(p.check_ids());
}

#[test]
fn knobs_that_are_not_there_are_missing_from_the_device() {
    let mut p = probe();
    p.power_cap = None;
    p.fan_target_temperature = None;
    p.fan_minimum_pwm = Some("nothing".to_string());
    p.pp_od_clk_voltage = None;
    p.fan_zero_rpm_enable = None;
    p.acoustic_target_rpm_threshold = false;
    let d = AmdgpuDevice::get_from_pci_bus(pci(), &p).unwrap();
    assert!(d.power_cap.is_none());
    assert!(d.fan_target_temperature.is_none());
    assert!(d.fan_minimum_pwm.is_none());
    assert!(d.sclk_offset.is_none());
    assert!(d.vddgfx_offset.is_none());
    assert!(d.fan_zero_rpm.is_none());
    assert!(!d.acoustic_target_rpm_threshold);
}

#[test]
fn update_keeps_the_offsets_where_the_table_was_not_read() {
    let mut d = AmdgpuDevice::get_from_pci_bus(pci(), &probe()).unwrap();
    let mut p = probe();
    p.power_cap = Some(PowerCap { current: 150, default: 220, min: 100, max: 250 });
    p.fan_target_temperature = None;
    p.pp_od_clk_voltage = None;
    p.fan_zero_rpm_enable = None;
    d._update(&p);
    assert_eq!(d.power_cap.unwrap().current, 150);
    assert!(d.fan_target_temperature.is_none());
    assert_eq!(d.fan_minimum_pwm.unwrap().minimum_pwm, 20);
    assert_eq!(d.sclk_offset.unwrap().current, 25);
    assert_eq!(d.vddgfx_offset.unwrap().current, -10);
    assert_eq!(d.fan_zero_rpm, Some(true));
    p.pp_od_clk_voltage = Some("OD_SCLK_OFFSET:\n1MHz\nSCLK_OFFSET: 0MHz 9MHz\n".to_string());
    d._update(&p);
    assert_eq!(d.sclk_offset.unwrap().current, 1);
    assert!(d.vddgfx_offset.is_none());
}

#[test]
fn fan_target_rpm_reads_the_line_after_the_header() {
    let text = "OD_ACOUSTIC_TARGET:\n1700\nOD_RANGE:\nACOUSTIC_TARGET: 500 3500\n";
    assert_eq!(FanTargetRpm::from_sysfs_path(text), Some(1700));
    assert_eq!(FanTargetRpm::from_sysfs_path("OD_ACOUSTIC_TARGET:\n0"), Some(0));
    assert_eq!(FanTargetRpm::from_sysfs_path("OD_ACOUSTIC_TARGET:\n"), None);
    assert_eq!(FanTargetRpm::from_sysfs_path("OD_ACOUSTIC_TARGET:\n-1\n"), None);
    assert_eq!(FanTargetRpm::from_sysfs_path("OD_ACOUSTIC_TARGET:\n17 \n"), None);
    assert_eq!(FanTargetRpm::from_sysfs_path("1700\n"), None);
    assert_eq!(FanTargetRpm::from_sysfs_path(""), None);
}
