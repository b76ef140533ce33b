//! A device under control: its knobs, its settings, and what was last set.
//! The functions here say what is to be written to a device; writing it is
//! the caller's part.

use crate::amdgpu_device::{
    AmdgpuDevice, FanMinPwm, FanTargetRpm, FanTargetTemp, FanZeroRpm, SclkOffset, VddgfxOffset,
};
use crate::config::{
    opt_text, ParsedConfigEntry, ParsedConfigEntryView, ParsedConfigPerDevice,
    ParsedConfigPerDeviceView,
};
use crate::knob::{Knob, KnobKind, KnobWrite, KnobWriteView, PerfLevel, PowerProfile};
use crate::number::{decimal, digit_of, lemma_decimal_reads_back, parse_u32, u32_of};
use crate::text::{is_whitespace, strip_trailing_whitespace, to_chars, trim_end};
use vstd::prelude::*;
use vstd::string::*;

verus! {

/// What the device reports of a knob before it is set.
#[derive(Clone, Copy, Debug)]
pub enum Reading {
    /// The knob and the value that it has.
    Value(Knob),
    /// The device reports a value that the configuration has no word for.
    Unrecognized,
    /// Nothing was read, or what was read holds no value.
    Unavailable,
}

/// Why a knob was not set.
#[derive(Clone, Copy, Debug, PartialEq, Eq, Structural)]
pub enum KnobError {
    /// The value in force was needed and could not be had.
    CurrentValueUnavailable(KnobKind),
    /// The write to the control file failed.
    WriteFailed(KnobKind),
}

/// A value to set a knob to. With `unless_current` the value in force is
/// read first, and nothing is written where it is the value asked for.
#[derive(Clone, Copy, Debug)]
pub struct KnobRequest {
    pub knob: Knob,
    pub unless_current: bool,
}

/// The watts that the text of the power cap's file holds: the text without
/// the white space that ends it, read as a `u32` of microwatts, in whole
/// watts.
pub open spec fn power_cap_watts(text: Seq<char>) -> Option<u32> {
    match u32_of(trim_end(text)) {
        Some(microwatts) => Some((microwatts / 1_000_000) as u32),
        None => None,
    }
}

/// Reads the watts that the text of the power cap's file holds.
pub fn parse_power_cap_watts(text: &str) -> (r: Option<u32>)
    ensures
        r == power_cap_watts(text@),
{
    let chars = to_chars(text);
    let digits = strip_trailing_whitespace(&chars);
    match parse_u32(&digits) {
        Some(microwatts) => Some(microwatts / 1_000_000),
        None => None,
    }
}

/// The value of the knob of kind `kind` that the text of its control file
/// holds, where the knob is one whose value is read from such a text: the
/// power cap, the fan knobs and the two offsets.
pub open spec fn value_in_text(kind: KnobKind, text: Seq<char>) -> Option<Knob> {
    match kind {
        KnobKind::PerformanceLevel => None,
        KnobKind::PowerProfile => None,
        KnobKind::PowerCapWatts => match power_cap_watts(text) {
            Some(v) => Some(Knob::PowerCapWatts(v)),
            None => None,
        },
        KnobKind::FanTargetTempC => match FanTargetTemp::spec_from_text(text) {
            Some(v) => Some(Knob::FanTargetTempC(v.target_temp)),
            None => None,
        },
        KnobKind::FanMinimumPwmPercent => match FanMinPwm::spec_from_text(text) {
            Some(v) => Some(Knob::FanMinimumPwmPercent(v.minimum_pwm)),
            None => None,
        },
        KnobKind::FanZeroRpmEnabled => match FanZeroRpm::spec_from_text(text) {
            Some(v) => Some(Knob::FanZeroRpmEnabled(v)),
            None => None,
        },
        KnobKind::FanTargetRpm => match FanTargetRpm::spec_from_text(text) {
            Some(v) => Some(Knob::FanTargetRpm(v)),
            None => None,
        },
        KnobKind::ClockOffsetMHz => match SclkOffset::spec_from_str(text) {
            Some(v) => Some(Knob::ClockOffsetMHz(v.current)),
            None => None,
        },
        KnobKind::VoltageOffsetMv => match VddgfxOffset::spec_from_str(text) {
            Some(v) => Some(Knob::VoltageOffsetMv(v.current)),
            None => None,
        },
    }
}

impl Reading {
    /// What the text of a control file says of the knob of kind `kind`: the
    /// value that the text holds, or that none is to be had. The
    /// performance level and the power profile are not read from a text.
    pub open spec fn spec_of_text(kind: KnobKind, text: Seq<char>) -> Reading {
        match value_in_text(kind, text) {
            Some(knob) => Reading::Value(knob),
            None => Reading::Unavailable,
        }
    }

    /// Reads what the text of a control file says of the knob of kind
    /// `kind`.
    pub fn of_text(kind: KnobKind, text: &str) -> (r: Reading)
        ensures
            r == Reading::spec_of_text(kind, text@),
    {
        let value = match kind {
            KnobKind::PerformanceLevel => None,
            KnobKind::PowerProfile => None,
            KnobKind::PowerCapWatts => match parse_power_cap_watts(text) {
                Some(v) => Some(Knob::PowerCapWatts(v)),
                None => None,
            },
            KnobKind::FanTargetTempC => match FanTargetTemp::from_sysfs_path(text) {
                Some(v) => Some(Knob::FanTargetTempC(v.target_temp)),
                None => None,
            },
            KnobKind::FanMinimumPwmPercent => match FanMinPwm::from_sysfs_path(text) {
                Some(v) => Some(Knob::FanMinimumPwmPercent(v.minimum_pwm)),
                None => None,
            },
            KnobKind::FanZeroRpmEnabled => match FanZeroRpm::from_sysfs_path(text) {
                Some(v) => Some(Knob::FanZeroRpmEnabled(v)),
                None => None,
            },
            KnobKind::FanTargetRpm => match FanTargetRpm::from_sysfs_path(text) {
                Some(v) => Some(Knob::FanTargetRpm(v)),
                None => None,
            },
            KnobKind::ClockOffsetMHz => match SclkOffset::from_str(text) {
                Some(v) => Some(Knob::ClockOffsetMHz(v.current)),
                None => None,
            },
            KnobKind::VoltageOffsetMv => match VddgfxOffset::from_str(text) {
                Some(v) => Some(Knob::VoltageOffsetMv(v.current)),
                None => None,
            },
        };
        match value {
            Some(knob) => Reading::Value(knob),
            None => Reading::Unavailable,
        }
    }
}

/// What `reading` says of the knob of kind `kind`. A reading of another
/// knob says nothing.
pub open spec fn observe(kind: KnobKind, reading: Reading) -> Reading {
    match reading {
        Reading::Value(knob) => if knob.spec_kind() == kind {
            reading
        } else {
            Reading::Unavailable
        },
        _ => reading,
    }
}

/// The outcome of a request, as the view of what is to be written.
pub open spec fn resolved_view(r: Result<Option<KnobWrite>, KnobError>) -> Result<
    Option<KnobWriteView>,
    KnobError,
> {
    match r {
        Ok(Some(w)) => Ok(Some(w@)),
        Ok(None) => Ok(None),
        Err(e) => Err(e),
    }
}

impl KnobRequest {
    /// Whether the value in force is to be read before this request is
    /// resolved.
    pub open spec fn spec_needs_reading(self) -> bool {
        self.unless_current
    }

    /// Whether the value in force is to be read before this request is
    /// resolved.
    #[verifier::when_used_as_spec(spec_needs_reading)]
    pub fn needs_reading(self) -> (r: bool)
        ensures
            r == self.spec_needs_reading(),
    {
        self.unless_current
    }

    /// What is to be written for this request, given what the device
    /// reports. A request without `unless_current` is always written. One
    /// with it fails where the value in force is not known, writes nothing
    /// where that value is the one asked for, and is written otherwise.
    pub open spec fn spec_resolve(self, reading: Reading) -> Result<
        Option<KnobWriteView>,
        KnobError,
    > {
        if !self.unless_current {
            Ok(Some(self.knob.spec_write()))
        } else {
            match observe(self.knob.spec_kind(), reading) {
                Reading::Unavailable => Err(
                    KnobError::CurrentValueUnavailable(self.knob.spec_kind()),
                ),
                Reading::Unrecognized => Ok(Some(self.knob.spec_write())),
                Reading::Value(current) => if current == self.knob {
                    Ok(None)
                } else {
                    Ok(Some(self.knob.spec_write()))
                },
            }
        }
    }

    /// Decides what is to be written for this request, given what the
    /// device reports.
    pub fn resolve(self, reading: &Reading) -> (r: Result<Option<KnobWrite>, KnobError>)
        ensures
            resolved_view(r) == self.spec_resolve(*reading),
    {
        if !self.unless_current {
            return Ok(Some(self.knob.write()));
        }
        match reading {
            Reading::Value(current) => {
                if current.kind() != self.knob.kind() {
                    Err(KnobError::CurrentValueUnavailable(self.knob.kind()))
                } else if current.same(self.knob) {
                    Ok(None)
                } else {
                    Ok(Some(self.knob.write()))
                }
            },
            Reading::Unrecognized => Ok(Some(self.knob.write())),
            Reading::Unavailable => Err(KnobError::CurrentValueUnavailable(self.knob.kind())),
        }
    }
}

/// A device under control.
#[derive(Debug)]
pub struct AppDevice {
    pub amdgpu_device: AmdgpuDevice,
    pub config_device: ParsedConfigPerDevice,
    /// The process whose rule is in force.
    pub cache_pid: Option<i32>,
    /// The name of the rule that is in force.
    pub cache_name: Option<String>,
    /// Whether the defaults differed when the settings were last compared
    /// with new ones.
    pub changed_default_config: bool,
}

/// An `AppDevice` with its settings and the name that it holds as views.
pub struct DeviceModel {
    pub amdgpu_device: AmdgpuDevice,
    pub config: ParsedConfigPerDeviceView,
    pub cache_pid: Option<i32>,
    pub cache_name: Option<Seq<char>>,
    pub changed_default_config: bool,
}

impl View for AppDevice {
    type V = DeviceModel;

    open spec fn view(&self) -> DeviceModel {
        DeviceModel {
            amdgpu_device: self.amdgpu_device,
            config: self.config_device@,
            cache_pid: self.cache_pid,
            cache_name: opt_text(self.cache_name),
            changed_default_config: self.changed_default_config,
        }
    }
}

/// The views of the devices that a vector holds.
pub open spec fn device_models(v: Seq<AppDevice>) -> Seq<DeviceModel> {
    Seq::new(v.len(), |i: int| v[i]@)
}

/// The request, where there is one, as a list.
pub open spec fn opt_request(r: Option<KnobRequest>) -> Seq<KnobRequest> {
    match r {
        Some(r) => seq![r],
        None => Seq::empty(),
    }
}

/// The request that sets `knob` whatever is in force.
pub open spec fn always(knob: Knob) -> KnobRequest {
    KnobRequest { knob, unless_current: false }
}

/// The request that sets `knob` unless it is in force.
pub open spec fn unless_current(knob: Knob) -> KnobRequest {
    KnobRequest { knob, unless_current: true }
}

impl AppDevice {
    /// A rule is in force exactly when its name is held.
    pub open spec fn wf(&self) -> bool {
        self.cache_pid is Some <==> self.cache_name is Some
    }

    /// A device that no rule is in force on.
    pub fn new(amdgpu_device: AmdgpuDevice, config_device: ParsedConfigPerDevice) -> (r: Self)
        ensures
            r.wf(),
            r.amdgpu_device == amdgpu_device,
            r.config_device == config_device,
            r.cache_pid is None,
            r.cache_name is None,
            !r.changed_default_config,
    {
        AppDevice {
            amdgpu_device,
            config_device,
            cache_pid: None,
            cache_name: None,
            changed_default_config: false,
        }
    }

    /// The request for `knob`, on a device that has the knob.
    pub open spec fn asked(&self, knob: Knob, unless_current: bool) -> Option<KnobRequest> {
        if self.amdgpu_device.spec_supports(knob.spec_kind()) {
            Some(KnobRequest { knob, unless_current })
        } else {
            None
        }
    }

    /// Asks for `knob`, where the device has the knob.
    fn ask(&self, knob: Knob, unless_current: bool) -> (r: Option<KnobRequest>)
        ensures
            r == self.asked(knob, unless_current),
    {
        if self.amdgpu_device.supports(knob.kind()) {
            Some(KnobRequest { knob, unless_current })
        } else {
            None
        }
    }

    /// Sets the performance level.
    pub fn set_perf_level(&self, perf_level: PerfLevel) -> (r: KnobRequest)
        ensures
            r == always(Knob::PerformanceLevel(perf_level)),
    {
        KnobRequest { knob: Knob::PerformanceLevel(perf_level), unless_current: false }
    }

    /// Sets the performance level to its default, unless it is in force.
    pub fn set_default_perf_level(&self) -> (r: KnobRequest)
        ensures
            r == unless_current(Knob::PerformanceLevel(self.config_device.default_perf_level)),
    {
        KnobRequest {
            knob: Knob::PerformanceLevel(self.config_device.default_perf_level),
            unless_current: true,
        }
    }

    /// Sets the power profile.
    pub fn set_power_profile(&self, profile: PowerProfile) -> (r: KnobRequest)
        ensures
            r == always(Knob::PowerProfile(profile)),
    {
        KnobRequest { knob: Knob::PowerProfile(profile), unless_current: false }
    }

    /// Sets the power profile to its default, unless it is in force.
    pub fn set_default_power_profile(&self) -> (r: KnobRequest)
        ensures
            r == unless_current(Knob::PowerProfile(self.config_device.default_profile)),
    {
        KnobRequest {
            knob: Knob::PowerProfile(self.config_device.default_profile),
            unless_current: true,
        }
    }

    /// Sets the power cap, unless it is in force.
    pub fn set_power_cap(&self, power_cap_watt: u32) -> (r: KnobRequest)
        ensures
            r == unless_current(Knob::PowerCapWatts(power_cap_watt)),
    {
        KnobRequest { knob: Knob::PowerCapWatts(power_cap_watt), unless_current: true }
    }

    /// The default of the power cap, as a request.
    pub open spec fn default_power_cap(&self) -> Option<KnobRequest> {
        match self.config_device.default_power_cap_watt {
            Some(watts) => Some(unless_current(Knob::PowerCapWatts(watts))),
            None => None,
        }
    }

    /// Sets the power cap to its default, where it has one.
    pub fn set_default_power_cap(&self) -> (r: Option<KnobRequest>)
        ensures
            r == self.default_power_cap(),
    {
        match self.config_device.default_power_cap_watt {
            Some(watts) => Some(self.set_power_cap(watts)),
            None => None,
        }
    }

    /// The request for a target temperature, on a device that has the knob.
    pub open spec fn fan_target_temp(&self, target_temp: u32) -> Option<KnobRequest> {
        if self.amdgpu_device.spec_supports(KnobKind::FanTargetTempC) {
            Some(always(Knob::FanTargetTempC(target_temp)))
        } else {
            None
        }
    }

    /// Sets the temperature that the fan aims at, where the device has the
    /// knob.
    pub fn set_fan_target_temp(&self, target_temp: u32) -> (r: Option<KnobRequest>)
        ensures
            r == self.fan_target_temp(target_temp),
    {
        if self.amdgpu_device.supports(KnobKind::FanTargetTempC) {
            Some(KnobRequest { knob: Knob::FanTargetTempC(target_temp), unless_current: false })
        } else {
            None
        }
    }

    /// The default of the target temperature, as a request.
    pub open spec fn default_fan_target_temp(&self) -> Option<KnobRequest> {
        match self.config_device.default_fan_target_temperature {
            Some(target_temp) => self.asked(Knob::FanTargetTempC(target_temp), true),
            None => None,
        }
    }

    /// Sets the temperature that the fan aims at to its default, unless it
    /// is in force, where it has one.
    pub fn set_default_fan_target_temp(&self) -> (r: Option<KnobRequest>)
        ensures
            r == self.default_fan_target_temp(),
    {
        match self.config_device.default_fan_target_temperature {
            Some(target_temp) => self.ask(Knob::FanTargetTempC(target_temp), true),
            None => None,
        }
    }

    /// The request for a least fan speed, on a device that has the knob.
    pub open spec fn fan_minimum_pwm(&self, minimum_pwm: u32) -> Option<KnobRequest> {
        if self.amdgpu_device.spec_supports(KnobKind::FanMinimumPwmPercent) {
            Some(always(Knob::FanMinimumPwmPercent(minimum_pwm)))
        } else {
            None
        }
    }

    /// Sets the least speed of the fan, where the device has the knob.
    pub fn set_fan_minimum_pwm(&self, minimum_pwm: u32) -> (r: Option<KnobRequest>)
        ensures
            r == self.fan_minimum_pwm(minimum_pwm),
    {
        if self.amdgpu_device.supports(KnobKind::FanMinimumPwmPercent) {
            Some(
                KnobRequest { knob: Knob::FanMinimumPwmPercent(minimum_pwm), unless_current: false },
            )
        } else {
            None
        }
    }

    /// The default of the least fan speed, as a request.
    pub open spec fn default_fan_minimum_pwm(&self) -> Option<KnobRequest> {
        match self.config_device.default_fan_minimum_pwm {
            Some(minimum_pwm) => self.asked(Knob::FanMinimumPwmPercent(minimum_pwm), true),
            None => None,
        }
    }

    /// Sets the least speed of the fan to its default, unless it is in
    /// force, where it has one.
    pub fn set_default_fan_minimum_pwm(&self) -> (r: Option<KnobRequest>)
        ensures
            r == self.default_fan_minimum_pwm(),
    {
        match self.config_device.default_fan_minimum_pwm {
            Some(minimum_pwm) => self.ask(Knob::FanMinimumPwmPercent(minimum_pwm), true),
            None => None,
        }
    }

    /// The configured stopping of the fan, as a request, on a device that
    /// has the knob.
    pub open spec fn fan_zero_rpm(&self) -> Option<KnobRequest> {
        match self.config_device.fan_zero_rpm {
            Some(on) => self.asked(Knob::FanZeroRpmEnabled(on), true),
            None => None,
        }
    }

    /// Sets whether the fan may stop, unless that is in force, where it is
    /// configured and the device has the knob.
    pub fn set_fan_zero_rpm(&self) -> (r: Option<KnobRequest>)
        ensures
            r == self.fan_zero_rpm(),
    {
        match self.config_device.fan_zero_rpm {
            Some(on) => self.ask(Knob::FanZeroRpmEnabled(on), true),
            None => None,
        }
    }

    /// The request for a fan speed to aim at, on a device that has the
    /// knob.
    pub open spec fn fan_target_rpm(&self, fan_target_rpm: u32) -> Option<KnobRequest> {
        if self.amdgpu_device.spec_supports(KnobKind::FanTargetRpm) {
            Some(always(Knob::FanTargetRpm(fan_target_rpm)))
        } else {
            None
        }
    }

    /// Sets the speed that the fan aims at, where the device has the knob.
    pub fn set_fan_target_rpm(&self, fan_target_rpm: u32) -> (r: Option<KnobRequest>)
        ensures
            r == self.fan_target_rpm(fan_target_rpm),
    {
        if self.amdgpu_device.supports(KnobKind::FanTargetRpm) {
            Some(KnobRequest { knob: Knob::FanTargetRpm(fan_target_rpm), unless_current: false })
        } else {
            None
        }
    }

    /// The default of the fan speed to aim at, as a request.
    pub open spec fn default_fan_target_rpm(&self) -> Option<KnobRequest> {
        match self.config_device.acoustic_target_rpm_threshold {
            Some(fan_target_rpm) => self.asked(Knob::FanTargetRpm(fan_target_rpm), true),
            None => None,
        }
    }

    /// Sets the speed that the fan aims at to its default, unless it is in
    /// force, where it has one.
    pub fn set_default_fan_target_rpm(&self) -> (r: Option<KnobRequest>)
        ensures
            r == self.default_fan_target_rpm(),
    {
        match self.config_device.acoustic_target_rpm_threshold {
            Some(fan_target_rpm) => self.ask(Knob::FanTargetRpm(fan_target_rpm), true),
            None => None,
        }
    }

    /// The configured clock offset, as a request, on a device that has the
    /// knob.
    pub open spec fn sclk_offset(&self) -> Option<KnobRequest> {
        match self.config_device.sclk_offset {
            Some(offset) => self.asked(Knob::ClockOffsetMHz(offset), true),
            None => None,
        }
    }

    /// Sets the clock offset, unless it is in force, where one is
    /// configured and the device has the knob.
    pub fn set_sclk_offset(&self) -> (r: Option<KnobRequest>)
        ensures
            r == self.sclk_offset(),
    {
        match self.config_device.sclk_offset {
            Some(offset) => self.ask(Knob::ClockOffsetMHz(offset), true),
            None => None,
        }
    }

    /// The configured voltage offset, as a request, on a device that has
    /// the knob.
    pub open spec fn vddgfx_offset(&self) -> Option<KnobRequest> {
        match self.config_device.vddgfx_offset {
            Some(offset) => self.asked(Knob::VoltageOffsetMv(offset), true),
            None => None,
        }
    }

    /// Sets the voltage offset, unless it is in force, where one is
    /// configured and the device has the knob.
    pub fn set_vddgfx_offset(&self) -> (r: Option<KnobRequest>)
        ensures
            r == self.vddgfx_offset(),
    {
        match self.config_device.vddgfx_offset {
            Some(offset) => self.ask(Knob::VoltageOffsetMv(offset), true),
            None => None,
        }
    }

    /// The names of the processes that the rules of the device speak of.
    pub fn name_list(&self) -> (r: Vec<String>)
        ensures
            r.len() == self.config_device.entries.len(),
            forall|i: int|
                0 <= i < r.len() ==> (#[trigger] r[i])@ == self.config_device@.entries[i].name,
    {
        self.config_device.names()
    }

    /// The requests that bring the device to its defaults: one for each
    /// knob that has a default and that the device has, none depending on
    /// another. Each is made unless its value is in force, so that nothing
    /// is written to a knob that has its default already. The performance
    /// level and the power profile always have a default.
    pub open spec fn default_requests(&self) -> Seq<KnobRequest> {
        seq![
            unless_current(Knob::PerformanceLevel(self.config_device.default_perf_level)),
            unless_current(Knob::PowerProfile(self.config_device.default_profile)),
        ] + opt_request(self.default_power_cap()) + opt_request(self.default_fan_target_temp())
            + opt_request(self.default_fan_minimum_pwm()) + opt_request(self.fan_zero_rpm())
            + opt_request(self.default_fan_target_rpm()) + opt_request(self.sclk_offset())
            + opt_request(self.vddgfx_offset())
    }

    /// The requests that bring the device to its defaults.
    pub fn set_default_od_config(&self) -> (r: Vec<KnobRequest>)
        ensures
            r@ == self.default_requests(),
    {
        let mut r: Vec<KnobRequest> = Vec::new();
        r.push(self.set_default_perf_level());
        r.push(self.set_default_power_profile());
        push_request(&mut r, self.set_default_power_cap());
        push_request(&mut r, self.set_default_fan_target_temp());
        push_request(&mut r, self.set_default_fan_minimum_pwm());
        push_request(&mut r, self.set_fan_zero_rpm());
        push_request(&mut r, self.set_default_fan_target_rpm());
        push_request(&mut r, self.set_sclk_offset());
        push_request(&mut r, self.set_vddgfx_offset());
        assert(r@ =~= self.default_requests());
        r
    }

    /// The requests that put a rule in force: one for each value that the
    /// rule holds and whose knob the device has, none depending on another.
    pub open spec fn override_requests(&self, entry: ParsedConfigEntryView) -> Seq<KnobRequest> {
        opt_request(
            match entry.perf_level {
                Some(level) => Some(always(Knob::PerformanceLevel(level))),
                None => None,
            },
        ) + opt_request(
            match entry.profile {
                Some(profile) => Some(always(Knob::PowerProfile(profile))),
                None => None,
            },
        ) + opt_request(
            match entry.power_cap_watt {
                Some(watts) => Some(unless_current(Knob::PowerCapWatts(watts))),
                None => None,
            },
        ) + opt_request(
            match entry.fan_target_temperature {
                Some(target_temp) => self.fan_target_temp(target_temp),
                None => None,
            },
        ) + opt_request(
            match entry.fan_minimum_pwm {
                Some(minimum_pwm) => self.fan_minimum_pwm(minimum_pwm),
                None => None,
            },
        ) + opt_request(
            match entry.acoustic_target_rpm_threshold {
                Some(fan_target_rpm) => self.fan_target_rpm(fan_target_rpm),
                None => None,
            },
        )
    }

    /// The requests that put a rule in force.
    pub fn apply_config(&self, apply_config: &ParsedConfigEntry) -> (r: Vec<KnobRequest>)
        ensures
            r@ == self.override_requests(apply_config@),
    {
        let mut r: Vec<KnobRequest> = Vec::new();
        let perf_level = match apply_config.perf_level {
            Some(perf_level) => Some(self.set_perf_level(perf_level)),
            None => None,
        };
        let profile = match apply_config.profile {
            Some(profile) => Some(self.set_power_profile(profile)),
            None => None,
        };
        let power_cap = match apply_config.power_cap_watt {
            Some(power_cap_watt) => Some(self.set_power_cap(power_cap_watt)),
            None => None,
        };
        let target_temp = match apply_config.fan_target_temperature {
            Some(target_temp) => self.set_fan_target_temp(target_temp),
            None => None,
        };
        let minimum_pwm = match apply_config.fan_minimum_pwm {
            Some(minimum_pwm) => self.set_fan_minimum_pwm(minimum_pwm),
            None => None,
        };
        let fan_target_rpm = match apply_config.acoustic_target_rpm_threshold {
            Some(fan_target_rpm) => self.set_fan_target_rpm(fan_target_rpm),
            None => None,
        };
        push_request(&mut r, perf_level);
        push_request(&mut r, profile);
        push_request(&mut r, power_cap);
        push_request(&mut r, target_temp);
        push_request(&mut r, minimum_pwm);
        push_request(&mut r, fan_target_rpm);
        assert(r@ =~= self.override_requests(apply_config@));
        r
    }

    /// Notes whether the defaults of new settings differ from those of the
    /// device.
    pub fn check_changed_default_config(&mut self, new_config_device: &ParsedConfigPerDevice)
        ensures
            final(self).changed_default_config == (old(self).config_device@.defaults
                != new_config_device@.defaults),
            final(self).amdgpu_device == old(self).amdgpu_device,
            final(self).config_device == old(self).config_device,
            final(self).cache_pid == old(self).cache_pid,
            final(self).cache_name == old(self).cache_name,
    {
        self.changed_default_config = self.config_device.is_default_changed(new_config_device);
    }
}

/// Appends the request, where there is one.
fn push_request(list: &mut Vec<KnobRequest>, request: Option<KnobRequest>)
    ensures
        final(list)@ == old(list)@ + opt_request(request),
{
    match request {
        Some(r) => {
            list.push(r);
        },
        None => {},
    }
    assert(final(list)@ =~= old(list)@ + opt_request(request));
}

/// What became of a request.
#[derive(Clone, Copy, Debug, PartialEq, Eq, Structural)]
pub enum KnobStatus {
    /// The value was written.
    Written,
    /// The value was in force already, and nothing was written.
    Unchanged,
    /// The knob was not set.
    Failed(KnobError),
}

/// What became of the request for one knob.
#[derive(Clone, Copy, Debug, PartialEq, Eq, Structural)]
pub struct KnobOutcome {
    pub knob: KnobKind,
    pub status: KnobStatus,
}

/// What became of a request for the knob `knob`, given how the request was
/// resolved and, where something was to be written, whether the write went
/// through.
pub open spec fn outcome_of(
    knob: KnobKind,
    resolution: Result<Option<KnobWriteView>, KnobError>,
    written: bool,
) -> KnobOutcome {
    KnobOutcome {
        knob,
        status: match resolution {
            Err(e) => KnobStatus::Failed(e),
            Ok(None) => KnobStatus::Unchanged,
            Ok(Some(_)) => if written {
                KnobStatus::Written
            } else {
                KnobStatus::Failed(KnobError::WriteFailed(knob))
            },
        },
    }
}

/// The requests of one tick for one device, with what became of those that
/// were dealt with. Each request is dealt with by itself: what becomes of
/// one has no bearing on the others.
#[derive(Debug)]
pub struct ApplySession {
    pub requests: Vec<KnobRequest>,
    pub outcomes: Vec<KnobOutcome>,
}

/// The errors among `outcomes`, in order.
pub open spec fn failures_of(outcomes: Seq<KnobOutcome>) -> Seq<KnobError>
    decreases outcomes.len(),
{
    if outcomes.len() == 0 {
        Seq::empty()
    } else {
        match outcomes.last().status {
            KnobStatus::Failed(e) => failures_of(outcomes.drop_last()).push(e),
            _ => failures_of(outcomes.drop_last()),
        }
    }
}

impl ApplySession {
    /// A session in which nothing was dealt with yet.
    pub fn start(requests: Vec<KnobRequest>) -> (r: Self)
        ensures
            r.requests == requests,
            r.outcomes@ == Seq::<KnobOutcome>::empty(),
    {
        ApplySession { requests, outcomes: Vec::new() }
    }

    /// The request that is to be dealt with next.
    pub open spec fn spec_pending(&self) -> Option<KnobRequest> {
        if self.outcomes.len() < self.requests.len() {
            Some(self.requests[self.outcomes.len() as int])
        } else {
            None
        }
    }

    /// The request that is to be dealt with next; none when all were.
    pub fn pending(&self) -> (r: Option<KnobRequest>)
        ensures
            r == self.spec_pending(),
    {
        if self.outcomes.len() < self.requests.len() {
            Some(self.requests[self.outcomes.len()])
        } else {
            None
        }
    }

    /// Notes what became of the pending request: how it was resolved and,
    /// where something was to be written, whether the write went through.
    /// Whatever became of it, the request after it is pending next. Without
    /// a pending request nothing is noted.
    pub fn record(&mut self, resolution: &Result<Option<KnobWrite>, KnobError>, written: bool)
        ensures
            final(self).requests == old(self).requests,
            final(self).outcomes@ == match old(self).spec_pending() {
                Some(request) => old(self).outcomes@.push(
                    outcome_of(request.knob.spec_kind(), resolved_view(*resolution), written),
                ),
                None => old(self).outcomes@,
            },
    {
        match self.pending() {
            Some(request) => {
                let knob = request.knob.kind();
                let status = match resolution {
                    Err(e) => KnobStatus::Failed(*e),
                    Ok(None) => KnobStatus::Unchanged,
                    Ok(Some(_)) => if written {
                        KnobStatus::Written
                    } else {
                        KnobStatus::Failed(KnobError::WriteFailed(knob))
                    },
                };
                self.outcomes.push(KnobOutcome { knob, status });
            },
            None => {},
        }
    }

    /// The errors of the requests that were dealt with, in order.
    pub fn failures(&self) -> (r: Vec<KnobError>)
        ensures
            r@ == failures_of(self.outcomes@),
    {
        let mut r: Vec<KnobError> = Vec::new();
        let mut i: usize = 0;
        proof {
            assert(self.outcomes@.take(0) =~= Seq::<KnobOutcome>::empty());
        }
        while i < self.outcomes.len()
            invariant
                i <= self.outcomes.len(),
                r@ == failures_of(self.outcomes@.take(i as int)),
            decreases self.outcomes.len() - i,
        {
            proof {
                assert(self.outcomes@.take(i + 1).drop_last() =~= self.outcomes@.take(i as int));
            }
            match self.outcomes[i].status {
                KnobStatus::Failed(e) => {
                    r.push(e);
                },
                _ => {},
            }
            i += 1;
        }
        proof {
            assert(self.outcomes@.take(i as int) =~= self.outcomes@);
        }
        r
    }
}

/// The outcomes that a session holds after the first `n` requests were
/// recorded in order, the request `i` with the resolution `resolutions[i]`
/// and the write result `written[i]`.
pub open spec fn recorded(
    requests: Seq<KnobRequest>,
    resolutions: Seq<Result<Option<KnobWriteView>, KnobError>>,
    written: Seq<bool>,
    n: int,
) -> Seq<KnobOutcome>
    decreases n,
{
    if n <= 0 {
        Seq::empty()
    } else {
        recorded(requests, resolutions, written, n - 1).push(
            outcome_of(requests[n - 1].knob.spec_kind(), resolutions[n - 1], written[n - 1]),
        )
    }
}

/// A request that fails does not keep the others from being dealt with:
/// once every request was recorded, in order, there is an outcome for each,
/// and the outcome of a request is what its own resolution and its own
/// write make it, whatever became of the others.
pub proof fn lemma_failure_is_isolated(
    requests: Seq<KnobRequest>,
    outcomes: Seq<KnobOutcome>,
    resolutions: Seq<Result<Option<KnobWriteView>, KnobError>>,
    written: Seq<bool>,
    n: int,
)
    requires
        0 <= n <= requests.len(),
        resolutions.len() == requests.len(),
        written.len() == requests.len(),
        outcomes == recorded(requests, resolutions, written, n),
    ensures
        outcomes.len() == n,
        forall|i: int|
            0 <= i < n ==> #[trigger] outcomes[i] == outcome_of(
                requests[i].knob.spec_kind(),
                resolutions[i],
                written[i],
            ),
    decreases n,
{
    if n > 0 {
        lemma_failure_is_isolated(
            requests,
            recorded(requests, resolutions, written, n - 1),
            resolutions,
            written,
            n - 1,
        );
    }
}

/// What a device reports of a knob that has the value of `knob`.
pub open spec fn reading_after(knob: Knob) -> Reading {
    Reading::Value(knob)
}

/// A value that is in force is not written again: a request that is made
/// unless its value is in force writes nothing on a device that reports that
/// value.
pub proof fn lemma_in_force_is_not_written_again(knob: Knob)
    ensures
        unless_current(knob).spec_resolve(reading_after(knob)) == Ok::<
            Option<KnobWriteView>,
            KnobError,
        >(None),
{
}

/// Every request of `s` is made unless its value is in force.
pub open spec fn all_unless_current(s: Seq<KnobRequest>) -> bool {
    forall|k: int| 0 <= k < s.len() ==> (#[trigger] s[k]).unless_current
}

proof fn lemma_all_unless_current_add(s: Seq<KnobRequest>, r: Option<KnobRequest>)
    requires
        all_unless_current(s),
        r matches Some(r) ==> r.unless_current,
    ensures
        all_unless_current(s + opt_request(r)),
{
    let t = s + opt_request(r);
    assert forall|k: int| 0 <= k < t.len() implies (#[trigger] t[k]).unless_current by {
        if k < s.len() {
            assert(t[k] == s[k]);
        }
    }
}

/// Defaults are written only where they differ from what is in force: each
/// request that brings a device to its defaults is made unless its value is
/// in force, and writes nothing on a device that reports that value. On a
/// device on which every default is in force already, bringing it to its
/// defaults writes nothing.
pub proof fn lemma_defaults_in_force_are_not_written(dev: AppDevice)
    ensures
        all_unless_current(dev.default_requests()),
        forall|k: int|
            0 <= k < dev.default_requests().len() ==> (#[trigger] dev.default_requests()[k]).spec_resolve(
                reading_after(dev.default_requests()[k].knob),
            ) == Ok::<Option<KnobWriteView>, KnobError>(None),
{
    let s0 = seq![
        unless_current(Knob::PerformanceLevel(dev.config_device.default_perf_level)),
        unless_current(Knob::PowerProfile(dev.config_device.default_profile)),
    ];
    assert(all_unless_current(s0));
    lemma_all_unless_current_add(s0, dev.default_power_cap());
    let s1 = s0 + opt_request(dev.default_power_cap());
    lemma_all_unless_current_add(s1, dev.default_fan_target_temp());
    let s2 = s1 + opt_request(dev.default_fan_target_temp());
    lemma_all_unless_current_add(s2, dev.default_fan_minimum_pwm());
    let s3 = s2 + opt_request(dev.default_fan_minimum_pwm());
    lemma_all_unless_current_add(s3, dev.fan_zero_rpm());
    let s4 = s3 + opt_request(dev.fan_zero_rpm());
    lemma_all_unless_current_add(s4, dev.default_fan_target_rpm());
    let s5 = s4 + opt_request(dev.default_fan_target_rpm());
    lemma_all_unless_current_add(s5, dev.sclk_offset());
    let s6 = s5 + opt_request(dev.sclk_offset());
    lemma_all_unless_current_add(s6, dev.vddgfx_offset());
    assert(s6 + opt_request(dev.vddgfx_offset()) == dev.default_requests());
}

/// The power cap that was written is read as in force: the text that sets
/// the power cap to `watts`, followed by a line feed as the device reports
/// it, holds `watts`, where a `u32` holds the microwatts.
pub proof fn lemma_power_cap_text_reads_back(watts: u32)
    requires
        watts * 1_000_000 <= u32::MAX,
    ensures
        Reading::spec_of_text(
            KnobKind::PowerCapWatts,
            Knob::PowerCapWatts(watts).payload().push('\n'),
        ) == Reading::Value(Knob::PowerCapWatts(watts)),
{
    let n = (watts * 1_000_000) as nat;
    let written = decimal(n);
    let text = written.push('\n');
    lemma_decimal_reads_back(n);
    assert(is_whitespace('\n'));
    assert(text.drop_last() =~= written);
    assert(digit_of(written.last(), 10) is Some);
    assert(!is_whitespace(written.last()));
    assert(trim_end(written) == written);
    assert(trim_end(text) == written);
    assert(u32_of(written) == Some(n as u32));
    assert((n as u32) / 1_000_000 == watts);
    assert(power_cap_watts(text) == Some(watts));
}

} // verus!
