//! What a device can do: the knobs that it has, read from the texts of its
//! control files.

use crate::knob::KnobKind;
use crate::number::{hex_u32_of, i32_of, parse_hex_u32, parse_i32, parse_u32, u32_of};
use crate::pci::PciBus;
use crate::text::{
    cut_last_bytes, drop_last_bytes, find_char, find_line, first_line, first_of, lines,
    slice, split_lines, split_words, strip_leading, strip_trailing_whitespace, to_chars,
    trim_end, trim_start_matches, views, words,
};
use libdrm_amdgpu_sys::AMDGPU;
use vstd::prelude::*;
use vstd::string::*;

verus! {

/// The number that a line holds before its unit, where the unit takes
/// `unit` bytes: the line without its last `unit` bytes, read as an `i32`.
pub open spec fn offset_value(l: Seq<char>, unit: nat) -> Option<i32> {
    match drop_last_bytes(l, unit) {
        Some(digits) => i32_of(digits),
        None => None,
    }
}

/// The two numbers of a range line: the first two words after the label,
/// each a number with its unit.
pub open spec fn offset_range(l: Seq<char>, label: Seq<char>, unit: nat) -> Option<[i32; 2]> {
    let ws = words(trim_start_matches(l, label));
    if ws.len() >= 2 && offset_value(ws[0], unit) is Some && offset_value(ws[1], unit) is Some {
        Some([offset_value(ws[0], unit).unwrap(), offset_value(ws[1], unit).unwrap()])
    } else {
        None
    }
}

/// An offset in the text of the clock and voltage table: the line after the
/// first line that ends with `header` holds the current value, and the first
/// line after that one that begins with `label` holds the range. There is no
/// offset where the header, the value or the range line is missing; the
/// range itself may be missing.
pub open spec fn offset_of(s: Seq<char>, header: Seq<char>, label: Seq<char>, unit: nat) -> Option<
    (i32, Option<[i32; 2]>),
> {
    let ls = lines(s);
    match first_line(ls, 0, header, true) {
        None => None,
        Some(h) => if h + 1 >= ls.len() {
            None
        } else {
            match offset_value(ls[h + 1], unit) {
                None => None,
                Some(current) => match first_line(ls, h + 2, label, false) {
                    None => None,
                    Some(r) => Some((current, offset_range(ls[r], label, unit))),
                },
            }
        },
    }
}

fn read_offset_value(l: &Vec<char>, unit: usize) -> (r: Option<i32>)
    ensures
        r == offset_value(l@, unit as nat),
{
    match cut_last_bytes(l, unit) {
        Some(digits) => parse_i32(&digits),
        None => None,
    }
}

fn read_offset_range(l: &Vec<char>, label: &Vec<char>, unit: usize) -> (r: Option<[i32; 2]>)
    ensures
        r == offset_range(l@, label@, unit as nat),
{
    let rest = strip_leading(l, label);
    let ws = split_words(&rest);
    if ws.len() < 2 {
        return None;
    }
    assert(views(ws@)[0] == ws@[0]@);
    assert(views(ws@)[1] == ws@[1]@);
    let min = read_offset_value(&ws[0], unit);
    let max = read_offset_value(&ws[1], unit);
    match (min, max) {
        (Some(min), Some(max)) => Some([min, max]),
        _ => None,
    }
}

fn read_offset(s: &str, header: &str, label: &str, unit: usize) -> (r: Option<
    (i32, Option<[i32; 2]>),
>)
    ensures
        r == offset_of(s@, header@, label@, unit as nat),
{
    let text = to_chars(s);
    let header = to_chars(header);
    let label = to_chars(label);
    let ls = split_lines(&text);
    let h = match find_line(&ls, 0, &header, true) {
        Some(h) => h,
        None => {
            return None;
        },
    };
    if h + 1 >= ls.len() {
        return None;
    }
    assert(views(ls@)[h + 1] == ls@[h + 1]@);
    let current = match read_offset_value(&ls[h + 1], unit) {
        Some(v) => v,
        None => {
            return None;
        },
    };
    let r = match find_line(&ls, h + 2, &label, false) {
        Some(r) => r,
        None => {
            return None;
        },
    };
    assert(views(ls@)[r as int] == ls@[r as int]@);
    Some((current, read_offset_range(&ls[r], &label, unit)))
}

/// The offset of the shader clock, in MHz, with the range that the device
/// takes.
#[derive(Clone, Copy, Debug)]
pub struct SclkOffset {
    pub current: i32,
    pub range: Option<[i32; 2]>,
}

impl SclkOffset {
    /// The offset that the text of the clock and voltage table holds: the
    /// value after the line `OD_SCLK_OFFSET:`, in `MHz`, and the range on
    /// the line that begins with `SCLK_OFFSET:`.
    pub open spec fn spec_from_str(s: Seq<char>) -> Option<SclkOffset> {
        match offset_of(s, "OD_SCLK_OFFSET:"@, "SCLK_OFFSET:"@, 3) {
            Some((current, range)) => Some(SclkOffset { current, range }),
            None => None,
        }
    }

    /// Reads the offset of the shader clock from the text of the clock and
    /// voltage table.
    pub fn from_str(s: &str) -> (r: Option<Self>)
        ensures
            r == SclkOffset::spec_from_str(s@),
    {
        match read_offset(s, "OD_SCLK_OFFSET:", "SCLK_OFFSET:", 3) {
            Some((current, range)) => Some(SclkOffset { current, range }),
            None => None,
        }
    }
}

/// The offset of the graphics voltage, in mV, with the range that the
/// device takes.
#[derive(Clone, Copy, Debug)]
pub struct VddgfxOffset {
    pub current: i32,
    pub range: Option<[i32; 2]>,
}

impl VddgfxOffset {
    /// The offset that the text of the clock and voltage table holds: the
    /// value after the line `OD_VDDGFX_OFFSET:`, in `mV`, and the range on
    /// the line that begins with `VDDGFX_OFFSET:`.
    pub open spec fn spec_from_str(s: Seq<char>) -> Option<VddgfxOffset> {
        match offset_of(s, "OD_VDDGFX_OFFSET:"@, "VDDGFX_OFFSET:"@, 2) {
            Some((current, range)) => Some(VddgfxOffset { current, range }),
            None => None,
        }
    }

    /// Reads the offset of the graphics voltage from the text of the clock
    /// and voltage table.
    pub fn from_str(s: &str) -> (r: Option<Self>)
        ensures
            r == VddgfxOffset::spec_from_str(s@),
    {
        match read_offset(s, "OD_VDDGFX_OFFSET:", "VDDGFX_OFFSET:", 2) {
            Some((current, range)) => Some(VddgfxOffset { current, range }),
            None => None,
        }
    }
}

/// The two numbers of a fan range line: what stands after the label up to
/// the first blank, and what stands after that blank, each read as a `u32`.
pub open spec fn fan_range(l: Seq<char>, label: Seq<char>) -> Option<[u32; 2]> {
    let t = trim_start_matches(l, label);
    let blank = first_of(t, ' ') as int;
    if blank < t.len() && u32_of(t.take(blank)) is Some && u32_of(t.skip(blank + 1)) is Some {
        Some([u32_of(t.take(blank)).unwrap(), u32_of(t.skip(blank + 1)).unwrap()])
    } else {
        None
    }
}

/// A value of the fan curve in the text of its control file: the line after
/// the first line that begins with `header` holds the value, and the line
/// after the next line that begins with `OD_RANGE:` holds the range, after
/// `label`. There is no value where one of these is missing or is no number.
pub open spec fn fan_value_of(s: Seq<char>, header: Seq<char>, label: Seq<char>) -> Option<
    (u32, [u32; 2]),
> {
    let ls = lines(s);
    match first_line(ls, 0, header, false) {
        None => None,
        Some(h) => if h + 1 >= ls.len() {
            None
        } else {
            match first_line(ls, h + 2, "OD_RANGE:"@, false) {
                None => None,
                Some(r) => if r + 1 >= ls.len() {
                    None
                } else {
                    match (u32_of(ls[h + 1]), fan_range(ls[r + 1], label)) {
                        (Some(value), Some(range)) => Some((value, range)),
                        _ => None,
                    }
                },
            }
        },
    }
}

fn read_fan_range(l: &Vec<char>, label: &Vec<char>) -> (r: Option<[u32; 2]>)
    ensures
        r == fan_range(l@, label@),
{
    let t = strip_leading(l, label);
    let blank = find_char(&t, 0, ' ');
    assert(t@.skip(0) =~= t@);
    if blank >= t.len() {
        return None;
    }
    let first = slice(&t, 0, blank);
    let second = slice(&t, blank + 1, t.len());
    assert(first@ =~= t@.take(blank as int));
    assert(second@ =~= t@.skip(blank + 1));
    match (parse_u32(&first), parse_u32(&second)) {
        (Some(min), Some(max)) => Some([min, max]),
        _ => None,
    }
}

fn read_fan_value(s: &str, header: &str, label: &str) -> (r: Option<(u32, [u32; 2])>)
    ensures
        r == fan_value_of(s@, header@, label@),
{
    let text = to_chars(s);
    let header = to_chars(header);
    let label = to_chars(label);
    let od_range = to_chars("OD_RANGE:");
    let ls = split_lines(&text);
    let h = match find_line(&ls, 0, &header, false) {
        Some(h) => h,
        None => {
            return None;
        },
    };
    if h + 1 >= ls.len() {
        return None;
    }
    let r = match find_line(&ls, h + 2, &od_range, false) {
        Some(r) => r,
        None => {
            return None;
        },
    };
    if r + 1 >= ls.len() {
        return None;
    }
    assert(views(ls@)[h + 1] == ls@[h + 1]@);
    assert(views(ls@)[r + 1] == ls@[r + 1]@);
    match (parse_u32(&ls[h + 1]), read_fan_range(&ls[r + 1], &label)) {
        (Some(value), Some(range)) => Some((value, range)),
        _ => None,
    }
}

/// The temperature that the fan aims at, in degrees Celsius, with the range
/// that the device takes.
#[derive(Clone, Copy, Debug)]
pub struct FanTargetTemp {
    pub target_temp: u32,
    pub temp_range: [u32; 2],
}

impl FanTargetTemp {
    /// What the text of the control file `fan_target_temperature` holds.
    pub open spec fn spec_from_text(s: Seq<char>) -> Option<FanTargetTemp> {
        match fan_value_of(s, "FAN_TARGET_TEMPERATURE:"@, "TARGET_TEMPERATURE: "@) {
            Some((target_temp, temp_range)) => Some(FanTargetTemp { target_temp, temp_range }),
            None => None,
        }
    }

    /// Reads the target temperature from `contents`, the text of the
    /// control file `gpu_od/fan_ctrl/fan_target_temperature` under the
    /// device's directory.
    pub fn from_sysfs_path(contents: &str) -> (r: Option<Self>)
        ensures
            r == FanTargetTemp::spec_from_text(contents@),
    {
        match read_fan_value(contents, "FAN_TARGET_TEMPERATURE:", "TARGET_TEMPERATURE: ") {
            Some((target_temp, temp_range)) => Some(FanTargetTemp { target_temp, temp_range }),
            None => None,
        }
    }
}

/// The least speed of the fan, in percent, with the range that the device
/// takes.
#[derive(Clone, Copy, Debug)]
pub struct FanMinPwm {
    pub minimum_pwm: u32,
    pub pwm_range: [u32; 2],
}

impl FanMinPwm {
    /// What the text of the control file `fan_minimum_pwm` holds.
    pub open spec fn spec_from_text(s: Seq<char>) -> Option<FanMinPwm> {
        match fan_value_of(s, "FAN_MINIMUM_PWM:"@, "MINIMUM_PWM: "@) {
            Some((minimum_pwm, pwm_range)) => Some(FanMinPwm { minimum_pwm, pwm_range }),
            None => None,
        }
    }

    /// Reads the least fan speed from `contents`, the text of the control
    /// file `gpu_od/fan_ctrl/fan_minimum_pwm` under the device's directory.
    pub fn from_sysfs_path(contents: &str) -> (r: Option<Self>)
        ensures
            r == FanMinPwm::spec_from_text(contents@),
    {
        match read_fan_value(contents, "FAN_MINIMUM_PWM:", "MINIMUM_PWM: ") {
            Some((minimum_pwm, pwm_range)) => Some(FanMinPwm { minimum_pwm, pwm_range }),
            None => None,
        }
    }
}

/// Whether the fan may stop.
#[derive(Clone, Copy, Debug)]
pub struct FanZeroRpm;

impl FanZeroRpm {
    /// What the text of the control file `fan_zero_rpm_enable` holds:
    /// whether the line after the first line that begins with
    /// `FAN_ZERO_RPM_ENABLE:` is `1`, where there is such a line.
    pub open spec fn spec_from_text(s: Seq<char>) -> Option<bool> {
        let ls = lines(s);
        match first_line(ls, 0, "FAN_ZERO_RPM_ENABLE:"@, false) {
            None => None,
            Some(h) => if h + 1 >= ls.len() {
                None
            } else {
                Some(ls[h + 1] == seq!['1'])
            },
        }
    }

    /// Reads whether the fan may stop from `contents`, the text of the
    /// control file `gpu_od/fan_ctrl/fan_zero_rpm_enable` under the device's
    /// directory.
    pub fn from_sysfs_path(contents: &str) -> (r: Option<bool>)
        ensures
            r == FanZeroRpm::spec_from_text(contents@),
    {
        let text = to_chars(contents);
        let header = to_chars("FAN_ZERO_RPM_ENABLE:");
        let ls = split_lines(&text);
        let h = match find_line(&ls, 0, &header, false) {
            Some(h) => h,
            None => {
                return None;
            },
        };
        if h + 1 >= ls.len() {
            return None;
        }
        assert(views(ls@)[h + 1] == ls@[h + 1]@);
        let line = &ls[h + 1];
        let on = line.len() == 1 && line[0] == '1';
        assert(on == (line@ =~= seq!['1']));
        Some(on)
    }
}

/// The speed that the fan aims at, in revolutions per minute.
#[derive(Clone, Copy, Debug)]
pub struct FanTargetRpm;

impl FanTargetRpm {
    /// What the text of the control file `acoustic_target_rpm_threshold`
    /// holds: the line after the first line that begins with
    /// `OD_ACOUSTIC_TARGET:`, read as a `u32`.
    pub open spec fn spec_from_text(s: Seq<char>) -> Option<u32> {
        let ls = lines(s);
        match first_line(ls, 0, "OD_ACOUSTIC_TARGET:"@, false) {
            None => None,
            Some(h) => if h + 1 >= ls.len() {
                None
            } else {
                u32_of(ls[h + 1])
            },
        }
    }

    /// Reads the speed that the fan aims at from `contents`, the text of
    /// the control file `gpu_od/fan_ctrl/acoustic_target_rpm_threshold`
    /// under the device's directory.
    pub fn from_sysfs_path(contents: &str) -> (r: Option<u32>)
        ensures
            r == FanTargetRpm::spec_from_text(contents@),
    {
        let text = to_chars(contents);
        let header = to_chars("OD_ACOUSTIC_TARGET:");
        let ls = split_lines(&text);
        let h = match find_line(&ls, 0, &header, false) {
            Some(h) => h,
            None => {
                return None;
            },
        };
        if h + 1 >= ls.len() {
            return None;
        }
        assert(views(ls@)[h + 1] == ls@[h + 1]@);
        parse_u32(&ls[h + 1])
    }
}

/// The cap on the power that a device draws, in watts: what is set, what
/// the device starts with, and the least and the most that it takes.
#[derive(Clone, Copy, Debug)]
pub struct PowerCap {
    pub current: u32,
    pub default: u32,
    pub min: u32,
    pub max: u32,
}

/// The number that the text of a file `device` or `revision` holds: the text
/// without `0x` before it and without white space after it, read in
/// hexadecimal.
pub open spec fn hex_id_of(s: Seq<char>) -> Option<u32> {
    hex_u32_of(trim_end(trim_start_matches(s, "0x"@)))
}

/// Reads the number of a file `device` or `revision`.
pub fn parse_hex_id(s: &str) -> (r: Option<u32>)
    ensures
        r == hex_id_of(s@),
{
    let text = to_chars(s);
    let prefix = to_chars("0x");
    let rest = strip_leading(&text, &prefix);
    let digits = strip_trailing_whitespace(&rest);
    parse_hex_u32(&digits)
}

/// The name under which libdrm_amdgpu_sys knows the device with these two
/// numbers, or the name that it gives a device that it does not know.
pub uninterp spec fn marketing_name(device_id: u32, revision_id: u32) -> Seq<char>;

/// Calls `AMDGPU::find_device_name_or_default` of libdrm_amdgpu_sys.
/// Trusted: the result is what that function returns for the two numbers,
/// under the name `marketing_name`; the function looks them up in tables
/// that the crate holds.
#[verifier::external_body]
fn find_device_name(device_id: u32, revision_id: u32) -> (r: String)
    ensures
        r@ == marketing_name(device_id, revision_id),
{
    AMDGPU::find_device_name_or_default(device_id, revision_id)
}

/// What was found under the directory of a device: which files are there,
/// and the texts of those that could be read.
#[derive(Debug)]
pub struct SysfsProbe {
    /// Whether the control file of the power profile is there.
    pub has_power_profile: bool,
    /// Whether the control file of the performance level is there.
    pub has_perf_level: bool,
    /// The text of the file `device`.
    pub device: Option<String>,
    /// The text of the file `revision`.
    pub revision: Option<String>,
    /// Whether the device has a directory of sensors.
    pub has_hwmon: bool,
    /// The power cap, as the sensors give it.
    pub power_cap: Option<PowerCap>,
    /// The text of `gpu_od/fan_ctrl/fan_target_temperature`.
    pub fan_target_temperature: Option<String>,
    /// The text of `gpu_od/fan_ctrl/fan_minimum_pwm`.
    pub fan_minimum_pwm: Option<String>,
    /// The text of `pp_od_clk_voltage`.
    pub pp_od_clk_voltage: Option<String>,
    /// The text of `gpu_od/fan_ctrl/fan_zero_rpm_enable`.
    pub fan_zero_rpm_enable: Option<String>,
    /// Whether `gpu_od/fan_ctrl/acoustic_target_rpm_threshold` is there.
    pub acoustic_target_rpm_threshold: bool,
}

/// A device with the knobs that it has.
#[derive(Debug)]
pub struct AmdgpuDevice {
    pub pci_bus: PciBus,
    pub device_id: u32,
    pub revision_id: u32,
    pub device_name: String,
    pub power_cap: Option<PowerCap>,
    pub fan_target_temperature: Option<FanTargetTemp>,
    pub fan_minimum_pwm: Option<FanMinPwm>,
    pub sclk_offset: Option<SclkOffset>,
    pub vddgfx_offset: Option<VddgfxOffset>,
    pub fan_zero_rpm: Option<bool>,
    pub acoustic_target_rpm_threshold: bool,
}

impl SysfsProbe {
    /// Whether what was found makes a device: both control files are there,
    /// the two numbers could be read, and there are sensors.
    pub open spec fn usable(&self) -> bool {
        &&& self.has_power_profile
        &&& self.has_perf_level
        &&& self.device is Some
        &&& self.revision is Some
        &&& self.has_hwmon
    }

    /// Whether the two numbers, where their files were read, are numbers.
    pub open spec fn ids_readable(&self) -> bool {
        self.has_power_profile && self.has_perf_level && self.device is Some && self.revision
            is Some ==> hex_id_of(self.device.unwrap()@) is Some && hex_id_of(
            self.revision.unwrap()@,
        ) is Some
    }

    /// The target temperature that was found.
    pub open spec fn fan_target_temp(&self) -> Option<FanTargetTemp> {
        match self.fan_target_temperature {
            Some(s) => FanTargetTemp::spec_from_text(s@),
            None => None,
        }
    }

    /// The least fan speed that was found.
    pub open spec fn fan_min_pwm(&self) -> Option<FanMinPwm> {
        match self.fan_minimum_pwm {
            Some(s) => FanMinPwm::spec_from_text(s@),
            None => None,
        }
    }

    /// The clock offset that was found.
    pub open spec fn sclk(&self) -> Option<SclkOffset> {
        match self.pp_od_clk_voltage {
            Some(s) => SclkOffset::spec_from_str(s@),
            None => None,
        }
    }

    /// The voltage offset that was found.
    pub open spec fn vddgfx(&self) -> Option<VddgfxOffset> {
        match self.pp_od_clk_voltage {
            Some(s) => VddgfxOffset::spec_from_str(s@),
            None => None,
        }
    }

    /// Whether the fan may stop, as it was found.
    pub open spec fn zero_rpm(&self) -> Option<bool> {
        match self.fan_zero_rpm_enable {
            Some(s) => FanZeroRpm::spec_from_text(s@),
            None => None,
        }
    }

    /// Whether `d` is the device at `pci_bus` that this probe shows.
    pub open spec fn describes(&self, pci_bus: PciBus, d: &AmdgpuDevice) -> bool {
        &&& d.pci_bus == pci_bus
        &&& Some(d.device_id) == hex_id_of(self.device.unwrap()@)
        &&& Some(d.revision_id) == hex_id_of(self.revision.unwrap()@)
        &&& d.device_name@ == marketing_name(d.device_id, d.revision_id)
        &&& d.power_cap == self.power_cap
        &&& d.fan_target_temperature == self.fan_target_temp()
        &&& d.fan_minimum_pwm == self.fan_min_pwm()
        &&& d.sclk_offset == self.sclk()
        &&& d.vddgfx_offset == self.vddgfx()
        &&& d.fan_zero_rpm == self.zero_rpm()
        &&& d.acoustic_target_rpm_threshold == self.acoustic_target_rpm_threshold
    }

    /// Whether the two numbers, where their files were read, are numbers:
    /// what `get_from_pci_bus` asks of a probe.
    pub fn check_ids(&self) -> (r: bool)
        ensures
            r == self.ids_readable(),
    {
        if !(self.has_power_profile && self.has_perf_level) {
            return true;
        }
        match (&self.device, &self.revision) {
            (Some(device), Some(revision)) => parse_hex_id(device.as_str()).is_some()
                && parse_hex_id(revision.as_str()).is_some(),
            _ => true,
        }
    }
}

impl AmdgpuDevice {
    /// Whether the device has the knob of kind `kind`. Every device has a
    /// performance level and a power profile.
    pub open spec fn spec_supports(&self, kind: KnobKind) -> bool {
        match kind {
            KnobKind::PerformanceLevel => true,
            KnobKind::PowerProfile => true,
            KnobKind::PowerCapWatts => self.power_cap is Some,
            KnobKind::FanTargetTempC => self.fan_target_temperature is Some,
            KnobKind::FanMinimumPwmPercent => self.fan_minimum_pwm is Some,
            KnobKind::FanZeroRpmEnabled => self.fan_zero_rpm is Some,
            KnobKind::FanTargetRpm => self.acoustic_target_rpm_threshold,
            KnobKind::ClockOffsetMHz => self.sclk_offset is Some,
            KnobKind::VoltageOffsetMv => self.vddgfx_offset is Some,
        }
    }

    /// The kinds of knob that the device has.
    pub open spec fn supported(&self) -> Set<KnobKind> {
        Set::new(|kind: KnobKind| self.spec_supports(kind))
    }

    /// Whether the device has the knob of kind `kind`.
    #[verifier::when_used_as_spec(spec_supports)]
    pub fn supports(&self, kind: KnobKind) -> (r: bool)
        ensures
            r == self.spec_supports(kind),
            r == self.supported().contains(kind),
    {
        match kind {
            KnobKind::PerformanceLevel => true,
            KnobKind::PowerProfile => true,
            KnobKind::PowerCapWatts => self.power_cap.is_some(),
            KnobKind::FanTargetTempC => self.fan_target_temperature.is_some(),
            KnobKind::FanMinimumPwmPercent => self.fan_minimum_pwm.is_some(),
            KnobKind::FanZeroRpmEnabled => self.fan_zero_rpm.is_some(),
            KnobKind::FanTargetRpm => self.acoustic_target_rpm_threshold,
            KnobKind::ClockOffsetMHz => self.sclk_offset.is_some(),
            KnobKind::VoltageOffsetMv => self.vddgfx_offset.is_some(),
        }
    }

    /// The device at `pci_bus`, from what was found under its directory.
    /// There is none where the probe is not usable. A text of `device` or
    /// `revision` that is no number is an error of the caller.
    pub fn get_from_pci_bus(pci_bus: PciBus, probe: &SysfsProbe) -> (r: Option<Self>)
        requires
            probe.ids_readable(),
        ensures
            r is Some <==> probe.usable(),
            r matches Some(d) ==> probe.describes(pci_bus, &d),
    {
        if !probe.has_power_profile || !probe.has_perf_level {
            return None;
        }
        let (device, revision) = match (&probe.device, &probe.revision) {
            (Some(device), Some(revision)) => (device, revision),
            _ => {
                return None;
            },
        };
        let device_id = parse_hex_id(device.as_str()).unwrap();
        let revision_id = parse_hex_id(revision.as_str()).unwrap();
        let device_name = find_device_name(device_id, revision_id);
        if !probe.has_hwmon {
            return None;
        }
        let fan_target_temperature = match &probe.fan_target_temperature {
            Some(s) => FanTargetTemp::from_sysfs_path(s.as_str()),
            None => None,
        };
        let fan_minimum_pwm = match &probe.fan_minimum_pwm {
            Some(s) => FanMinPwm::from_sysfs_path(s.as_str()),
            None => None,
        };
        let (sclk_offset, vddgfx_offset) = match &probe.pp_od_clk_voltage {
            Some(s) => (SclkOffset::from_str(s.as_str()), VddgfxOffset::from_str(s.as_str())),
            None => (None, None),
        };
        let fan_zero_rpm = match &probe.fan_zero_rpm_enable {
            Some(s) => FanZeroRpm::from_sysfs_path(s.as_str()),
            None => None,
        };
        Some(
            AmdgpuDevice {
                pci_bus,
                device_id,
                revision_id,
                device_name,
                power_cap: probe.power_cap,
                fan_target_temperature,
                fan_minimum_pwm,
                sclk_offset,
                vddgfx_offset,
                fan_zero_rpm,
                acoustic_target_rpm_threshold: probe.acoustic_target_rpm_threshold,
            },
        )
    }

    /// Takes the power cap and the fan values over from a new probe, and the
    /// two offsets where the clock and voltage table could be read.
    pub fn _update(&mut self, probe: &SysfsProbe)
        ensures
            final(self).power_cap == probe.power_cap,
            final(self).fan_target_temperature == probe.fan_target_temp(),
            final(self).fan_minimum_pwm == probe.fan_min_pwm(),
            final(self).sclk_offset == if probe.pp_od_clk_voltage is Some {
                probe.sclk()
            } else {
                old(self).sclk_offset
            },
            final(self).vddgfx_offset == if probe.pp_od_clk_voltage is Some {
                probe.vddgfx()
            } else {
                old(self).vddgfx_offset
            },
            final(self).pci_bus == old(self).pci_bus,
            final(self).device_id == old(self).device_id,
            final(self).revision_id == old(self).revision_id,
            final(self).device_name == old(self).device_name,
            final(self).fan_zero_rpm == old(self).fan_zero_rpm,
            final(self).acoustic_target_rpm_threshold == old(self).acoustic_target_rpm_threshold,
    {
        self.power_cap = probe.power_cap;
        self.fan_target_temperature = match &probe.fan_target_temperature {
            Some(s) => FanTargetTemp::from_sysfs_path(s.as_str()),
            None => None,
        };
        self.fan_minimum_pwm = match &probe.fan_minimum_pwm {
            Some(s) => FanMinPwm::from_sysfs_path(s.as_str()),
            None => None,
        };
        match &probe.pp_od_clk_voltage {
            Some(s) => {
                self.sclk_offset = SclkOffset::from_str(s.as_str());
                self.vddgfx_offset = VddgfxOffset::from_str(s.as_str());
            },
            None => {},
        }
    }
}

} // verus!
