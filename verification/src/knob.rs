//! The knobs of a device: what can be set, the values a knob takes, and the
//! text that the driver's control file takes for each value.

use crate::number::{decimal, push_decimal, push_signed_decimal, signed_decimal};
use libdrm_amdgpu_sys::AMDGPU;
use vstd::prelude::*;
use vstd::string::*;

verus! {

/// How the driver chooses clocks.
#[derive(Clone, Copy, Debug, PartialEq, Eq, Structural)]
pub enum PerfLevel {
    Auto,
    Low,
    High,
    Manual,
    ProfileStandard,
    ProfilePeak,
    ProfileMinSclk,
    ProfileMinMclk,
    PerfDeterminism,
}

/// A power profile of the driver.
#[derive(Clone, Copy, Debug, PartialEq, Eq, Structural)]
pub enum PowerProfile {
    BootupDefault,
    Fullscreen3D,
    PowerSaving,
    Video,
    Vr,
    Compute,
    Custom,
    Window3D,
    Capped,
    Uncapped,
}

/// The kinds of knob.
#[derive(Clone, Copy, Debug, PartialEq, Eq, Structural)]
pub enum KnobKind {
    PerformanceLevel,
    PowerProfile,
    PowerCapWatts,
    FanTargetTempC,
    FanMinimumPwmPercent,
    FanZeroRpmEnabled,
    FanTargetRpm,
    ClockOffsetMHz,
    VoltageOffsetMv,
}

/// A knob with the value to set it to.
#[derive(Clone, Copy, Debug)]
pub enum Knob {
    PerformanceLevel(PerfLevel),
    PowerProfile(PowerProfile),
    PowerCapWatts(u32),
    FanTargetTempC(u32),
    FanMinimumPwmPercent(u32),
    FanZeroRpmEnabled(bool),
    FanTargetRpm(u32),
    ClockOffsetMHz(i32),
    VoltageOffsetMv(i32),
}

/// One write to a control file: the text to write and whether the file takes
/// the letter `c` after it, which makes the driver carry the value out.
#[derive(Debug)]
pub struct KnobWrite {
    pub knob: KnobKind,
    pub payload: String,
    pub commit: bool,
}

/// A `KnobWrite` with its text as a sequence of characters.
pub struct KnobWriteView {
    pub knob: KnobKind,
    pub payload: Seq<char>,
    pub commit: bool,
}

impl View for KnobWrite {
    type V = KnobWriteView;

    open spec fn view(&self) -> KnobWriteView {
        KnobWriteView { knob: self.knob, payload: self.payload@, commit: self.commit }
    }
}

/// The word that the driver's control file takes for a performance level.
pub open spec fn perf_level_arg(level: PerfLevel) -> Seq<char> {
    match level {
        PerfLevel::Auto => "auto"@,
        PerfLevel::Low => "low"@,
        PerfLevel::High => "high"@,
        PerfLevel::Manual => "manual"@,
        PerfLevel::ProfileStandard => "profile_standard"@,
        PerfLevel::ProfilePeak => "profile_peak"@,
        PerfLevel::ProfileMinSclk => "profile_min_sclk"@,
        PerfLevel::ProfileMinMclk => "profile_min_mclk"@,
        PerfLevel::PerfDeterminism => "perf_determinism"@,
    }
}

/// The number by which the driver knows a power profile.
pub open spec fn profile_id(profile: PowerProfile) -> nat {
    match profile {
        PowerProfile::BootupDefault => 0,
        PowerProfile::Fullscreen3D => 1,
        PowerProfile::PowerSaving => 2,
        PowerProfile::Video => 3,
        PowerProfile::Vr => 4,
        PowerProfile::Compute => 5,
        PowerProfile::Custom => 6,
        PowerProfile::Window3D => 7,
        PowerProfile::Capped => 8,
        PowerProfile::Uncapped => 9,
    }
}

/// Calls `DpmForcedLevel::to_arg` of libdrm_amdgpu_sys on the level of the
/// same name. Trusted: the result is the word of `perf_level_arg`, which is
/// the table in that function's source.
#[verifier::external_body]
fn perf_level_to_arg(level: PerfLevel) -> (r: String)
    ensures
        r@ == perf_level_arg(level),
{
    let level = match level {
        PerfLevel::Auto => AMDGPU::DpmForcedLevel::Auto,
        PerfLevel::Low => AMDGPU::DpmForcedLevel::Low,
        PerfLevel::High => AMDGPU::DpmForcedLevel::High,
        PerfLevel::Manual => AMDGPU::DpmForcedLevel::Manual,
        PerfLevel::ProfileStandard => AMDGPU::DpmForcedLevel::ProfileStandard,
        PerfLevel::ProfilePeak => AMDGPU::DpmForcedLevel::ProfilePeak,
        PerfLevel::ProfileMinSclk => AMDGPU::DpmForcedLevel::ProfileMinSclk,
        PerfLevel::ProfileMinMclk => AMDGPU::DpmForcedLevel::ProfileMinMclk,
        PerfLevel::PerfDeterminism => AMDGPU::DpmForcedLevel::PerfDeterminism,
    };
    level.to_arg().to_string()
}

/// Takes the number of the `PowerProfile` of libdrm_amdgpu_sys that has the
/// same name. Trusted: the result is `profile_id`, the numbers that the
/// enum's declaration gives its variants.
#[verifier::external_body]
fn power_profile_number(profile: PowerProfile) -> (r: u32)
    ensures
        r == profile_id(profile),
{
    let profile = match profile {
        PowerProfile::BootupDefault => AMDGPU::PowerProfile::BOOTUP_DEFAULT,
        PowerProfile::Fullscreen3D => AMDGPU::PowerProfile::FULLSCREEN3D,
        PowerProfile::PowerSaving => AMDGPU::PowerProfile::POWERSAVING,
        PowerProfile::Video => AMDGPU::PowerProfile::VIDEO,
        PowerProfile::Vr => AMDGPU::PowerProfile::VR,
        PowerProfile::Compute => AMDGPU::PowerProfile::COMPUTE,
        PowerProfile::Custom => AMDGPU::PowerProfile::CUSTOM,
        PowerProfile::Window3D => AMDGPU::PowerProfile::WINDOW3D,
        PowerProfile::Capped => AMDGPU::PowerProfile::CAPPED,
        PowerProfile::Uncapped => AMDGPU::PowerProfile::UNCAPPED,
    };
    profile as u32
}

impl Knob {
    /// The kind of this knob.
    pub open spec fn spec_kind(self) -> KnobKind {
        match self {
            Knob::PerformanceLevel(_) => KnobKind::PerformanceLevel,
            Knob::PowerProfile(_) => KnobKind::PowerProfile,
            Knob::PowerCapWatts(_) => KnobKind::PowerCapWatts,
            Knob::FanTargetTempC(_) => KnobKind::FanTargetTempC,
            Knob::FanMinimumPwmPercent(_) => KnobKind::FanMinimumPwmPercent,
            Knob::FanZeroRpmEnabled(_) => KnobKind::FanZeroRpmEnabled,
            Knob::FanTargetRpm(_) => KnobKind::FanTargetRpm,
            Knob::ClockOffsetMHz(_) => KnobKind::ClockOffsetMHz,
            Knob::VoltageOffsetMv(_) => KnobKind::VoltageOffsetMv,
        }
    }

    /// The kind of this knob.
    #[verifier::when_used_as_spec(spec_kind)]
    pub fn kind(self) -> (r: KnobKind)
        ensures
            r == self.spec_kind(),
    {
        match self {
            Knob::PerformanceLevel(_) => KnobKind::PerformanceLevel,
            Knob::PowerProfile(_) => KnobKind::PowerProfile,
            Knob::PowerCapWatts(_) => KnobKind::PowerCapWatts,
            Knob::FanTargetTempC(_) => KnobKind::FanTargetTempC,
            Knob::FanMinimumPwmPercent(_) => KnobKind::FanMinimumPwmPercent,
            Knob::FanZeroRpmEnabled(_) => KnobKind::FanZeroRpmEnabled,
            Knob::FanTargetRpm(_) => KnobKind::FanTargetRpm,
            Knob::ClockOffsetMHz(_) => KnobKind::ClockOffsetMHz,
            Knob::VoltageOffsetMv(_) => KnobKind::VoltageOffsetMv,
        }
    }

    /// Whether this is the knob `other` with the value of `other`.
    pub fn same(self, other: Knob) -> (r: bool)
        ensures
            r == (self == other),
    {
        match (self, other) {
            (Knob::PerformanceLevel(a), Knob::PerformanceLevel(b)) => a == b,
            (Knob::PowerProfile(a), Knob::PowerProfile(b)) => a == b,
            (Knob::PowerCapWatts(a), Knob::PowerCapWatts(b)) => a == b,
            (Knob::FanTargetTempC(a), Knob::FanTargetTempC(b)) => a == b,
            (Knob::FanMinimumPwmPercent(a), Knob::FanMinimumPwmPercent(b)) => a == b,
            (Knob::FanZeroRpmEnabled(a), Knob::FanZeroRpmEnabled(b)) => a == b,
            (Knob::FanTargetRpm(a), Knob::FanTargetRpm(b)) => a == b,
            (Knob::ClockOffsetMHz(a), Knob::ClockOffsetMHz(b)) => a == b,
            (Knob::VoltageOffsetMv(a), Knob::VoltageOffsetMv(b)) => a == b,
            _ => false,
        }
    }

    /// The text that sets the knob to this value: the level's word, the
    /// profile's number, the power cap in microwatts, and for the fan and
    /// offset knobs the number followed by a blank, after the letter of the
    /// offset's table where there is one.
    pub open spec fn payload(self) -> Seq<char> {
        match self {
            Knob::PerformanceLevel(level) => perf_level_arg(level),
            Knob::PowerProfile(profile) => decimal(profile_id(profile)),
            Knob::PowerCapWatts(watts) => decimal(watts as nat * 1_000_000),
            Knob::FanTargetTempC(v) => decimal(v as nat).push(' '),
            Knob::FanMinimumPwmPercent(v) => decimal(v as nat).push(' '),
            Knob::FanZeroRpmEnabled(on) => seq![if on { '1' } else { '0' }, ' '],
            Knob::FanTargetRpm(v) => decimal(v as nat).push(' '),
            Knob::ClockOffsetMHz(v) => (seq!['s', ' '] + signed_decimal(v as int)).push(' '),
            Knob::VoltageOffsetMv(v) => (seq!['v', 'o', ' '] + signed_decimal(v as int)).push(' '),
        }
    }

    /// The write that sets the knob to this value.
    pub open spec fn spec_write(self) -> KnobWriteView {
        KnobWriteView { knob: self.spec_kind(), payload: self.payload(), commit: self.spec_kind().commits() }
    }

    /// The write that sets the knob to this value.
    pub fn write(self) -> (w: KnobWrite)
        ensures
            w@ == self.spec_write(),
    {
        let mut payload = String::new();
        proof {
            reveal_strlit(" ");
            reveal_strlit("0 ");
            reveal_strlit("1 ");
            reveal_strlit("s ");
            reveal_strlit("vo ");
        }
        match self {
            Knob::PerformanceLevel(level) => {
                payload = perf_level_to_arg(level);
            },
            Knob::PowerProfile(profile) => {
                push_decimal(&mut payload, power_profile_number(profile) as u64);
            },
            Knob::PowerCapWatts(watts) => {
                push_decimal(&mut payload, (watts as u64) * 1_000_000);
            },
            Knob::FanTargetTempC(v) | Knob::FanMinimumPwmPercent(v) | Knob::FanTargetRpm(v) => {
                push_decimal(&mut payload, v as u64);
                payload.append(" ");
            },
            Knob::FanZeroRpmEnabled(on) => {
                payload.append(if on { "1 " } else { "0 " });
            },
            Knob::ClockOffsetMHz(v) => {
                payload.append("s ");
                push_signed_decimal(&mut payload, v as i64);
                payload.append(" ");
            },
            Knob::VoltageOffsetMv(v) => {
                payload.append("vo ");
                push_signed_decimal(&mut payload, v as i64);
                payload.append(" ");
            },
        }
        assert(payload@ =~= self.payload());
        KnobWrite { knob: self.kind(), payload, commit: self.kind().commits() }
    }
}

impl KnobKind {
    /// The control file of this knob, as a path below the directory of the
    /// device. The power cap has none there: its file is among the sensors
    /// of the device.
    pub open spec fn spec_control_file(self) -> Option<Seq<char>> {
        match self {
            KnobKind::PerformanceLevel => Some("power_dpm_force_performance_level"@),
            KnobKind::PowerProfile => Some("pp_power_profile_mode"@),
            KnobKind::PowerCapWatts => None,
            KnobKind::FanTargetTempC => Some("gpu_od/fan_ctrl/fan_target_temperature"@),
            KnobKind::FanMinimumPwmPercent => Some("gpu_od/fan_ctrl/fan_minimum_pwm"@),
            KnobKind::FanZeroRpmEnabled => Some("gpu_od/fan_ctrl/fan_zero_rpm_enable"@),
            KnobKind::FanTargetRpm => Some("gpu_od/fan_ctrl/acoustic_target_rpm_threshold"@),
            KnobKind::ClockOffsetMHz => Some("pp_od_clk_voltage"@),
            KnobKind::VoltageOffsetMv => Some("pp_od_clk_voltage"@),
        }
    }

    /// The control file of this knob, as a path below the directory of the
    /// device.
    pub fn control_file(self) -> (r: Option<&'static str>)
        ensures
            r.is_some() == self.spec_control_file().is_some(),
            r matches Some(path) ==> self.spec_control_file() == Some(path@),
    {
        match self {
            KnobKind::PerformanceLevel => Some("power_dpm_force_performance_level"),
            KnobKind::PowerProfile => Some("pp_power_profile_mode"),
            KnobKind::PowerCapWatts => None,
            KnobKind::FanTargetTempC => Some("gpu_od/fan_ctrl/fan_target_temperature"),
            KnobKind::FanMinimumPwmPercent => Some("gpu_od/fan_ctrl/fan_minimum_pwm"),
            KnobKind::FanZeroRpmEnabled => Some("gpu_od/fan_ctrl/fan_zero_rpm_enable"),
            KnobKind::FanTargetRpm => Some("gpu_od/fan_ctrl/acoustic_target_rpm_threshold"),
            KnobKind::ClockOffsetMHz => Some("pp_od_clk_voltage"),
            KnobKind::VoltageOffsetMv => Some("pp_od_clk_voltage"),
        }
    }

    /// Whether the control file of this knob takes the letter `c` after a
    /// value: the files of the fan curve and of the clock and voltage table
    /// do.
    pub open spec fn spec_commits(self) -> bool {
        !(self == KnobKind::PerformanceLevel || self == KnobKind::PowerProfile || self
            == KnobKind::PowerCapWatts)
    }

    /// Whether the control file of this knob takes the letter `c` after a
    /// value.
    #[verifier::when_used_as_spec(spec_commits)]
    pub fn commits(self) -> (r: bool)
        ensures
            r == self.spec_commits(),
    {
        match self {
            KnobKind::PerformanceLevel | KnobKind::PowerProfile | KnobKind::PowerCapWatts => false,
            _ => true,
        }
    }
}

} // verus!
