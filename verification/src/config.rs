//! The configuration: what the file holds, and the checked form that the
//! rest of the library works on.

use crate::knob::{PerfLevel, PowerProfile};
use crate::pci::{contains_pci, has_pci, PciBus};
use crate::text::str_eq;
use vstd::prelude::*;
use vstd::string::*;

verus! {

/// The text of a string that may be absent.
pub open spec fn opt_text(s: Option<String>) -> Option<Seq<char>> {
    match s {
        Some(s) => Some(s@),
        None => None,
    }
}

/// A copy of a string that may be absent.
pub fn clone_opt_string(s: &Option<String>) -> (r: Option<String>)
    ensures
        opt_text(r) == opt_text(*s),
{
    match s {
        Some(s) => Some(s.clone()),
        None => None,
    }
}

/// The performance level that a word of the configuration names.
pub open spec fn perf_level_of(s: Seq<char>) -> Option<PerfLevel> {
    if s == "auto"@ {
        Some(PerfLevel::Auto)
    } else if s == "low"@ {
        Some(PerfLevel::Low)
    } else if s == "high"@ {
        Some(PerfLevel::High)
    } else if s == "manual"@ {
        Some(PerfLevel::Manual)
    } else if s == "profile_standard"@ {
        Some(PerfLevel::ProfileStandard)
    } else if s == "profile_peak"@ {
        Some(PerfLevel::ProfilePeak)
    } else if s == "profile_min_sclk"@ {
        Some(PerfLevel::ProfileMinSclk)
    } else if s == "profile_min_mclk"@ {
        Some(PerfLevel::ProfileMinMclk)
    } else if s == "perf_determinism"@ {
        Some(PerfLevel::PerfDeterminism)
    } else {
        None
    }
}

/// The power profile that a word of the configuration names.
pub open spec fn power_profile_of(s: Seq<char>) -> Option<PowerProfile> {
    if s == "BOOTUP_DEFAULT"@ {
        Some(PowerProfile::BootupDefault)
    } else if s == "3D_FULL_SCREEN"@ {
        Some(PowerProfile::Fullscreen3D)
    } else if s == "POWER_SAVING"@ {
        Some(PowerProfile::PowerSaving)
    } else if s == "VIDEO"@ {
        Some(PowerProfile::Video)
    } else if s == "VR"@ {
        Some(PowerProfile::Vr)
    } else if s == "COMPUTE"@ {
        Some(PowerProfile::Compute)
    } else if s == "CUSTOM"@ {
        Some(PowerProfile::Custom)
    } else if s == "WINDOW_3D"@ {
        Some(PowerProfile::Window3D)
    } else if s == "CAPPED"@ {
        Some(PowerProfile::Capped)
    } else if s == "UNCAPPED"@ {
        Some(PowerProfile::Uncapped)
    } else {
        None
    }
}

/// Reads a performance level from its word.
pub fn perf_level_from_str(s: &str) -> (r: Option<PerfLevel>)
    ensures
        r == perf_level_of(s@),
{
    if str_eq(s, "auto") {
        Some(PerfLevel::Auto)
    } else if str_eq(s, "low") {
        Some(PerfLevel::Low)
    } else if str_eq(s, "high") {
        Some(PerfLevel::High)
    } else if str_eq(s, "manual") {
        Some(PerfLevel::Manual)
    } else if str_eq(s, "profile_standard") {
        Some(PerfLevel::ProfileStandard)
    } else if str_eq(s, "profile_peak") {
        Some(PerfLevel::ProfilePeak)
    } else if str_eq(s, "profile_min_sclk") {
        Some(PerfLevel::ProfileMinSclk)
    } else if str_eq(s, "profile_min_mclk") {
        Some(PerfLevel::ProfileMinMclk)
    } else if str_eq(s, "perf_determinism") {
        Some(PerfLevel::PerfDeterminism)
    } else {
        None
    }
}

/// Reads a power profile from its word.
pub fn power_profile_from_str(s: &str) -> (r: Option<PowerProfile>)
    ensures
        r == power_profile_of(s@),
{
    if str_eq(s, "BOOTUP_DEFAULT") {
        Some(PowerProfile::BootupDefault)
    } else if str_eq(s, "3D_FULL_SCREEN") {
        Some(PowerProfile::Fullscreen3D)
    } else if str_eq(s, "POWER_SAVING") {
        Some(PowerProfile::PowerSaving)
    } else if str_eq(s, "VIDEO") {
        Some(PowerProfile::Video)
    } else if str_eq(s, "VR") {
        Some(PowerProfile::Vr)
    } else if str_eq(s, "COMPUTE") {
        Some(PowerProfile::Compute)
    } else if str_eq(s, "CUSTOM") {
        Some(PowerProfile::Custom)
    } else if str_eq(s, "WINDOW_3D") {
        Some(PowerProfile::Window3D)
    } else if str_eq(s, "CAPPED") {
        Some(PowerProfile::Capped)
    } else if str_eq(s, "UNCAPPED") {
        Some(PowerProfile::Uncapped)
    } else {
        None
    }
}

/// Why a configuration is refused.
#[derive(Debug)]
pub enum ParseConfigError {
    /// The configuration names no device.
    DevicesIsEmpty,
    /// The text is no address of a device.
    InvalidPci(String),
    /// A device has an empty address.
    PciIsEmpty,
    /// A rule has an empty name.
    EntryNameIsEmpty,
    /// The word is no performance level.
    InvalidPerfLevel(String),
    /// The word is no power profile.
    InvalidProfile(String),
}

/// A `ParseConfigError` with its texts as sequences of characters.
pub enum ParseConfigErrorView {
    DevicesIsEmpty,
    InvalidPci(Seq<char>),
    PciIsEmpty,
    EntryNameIsEmpty,
    InvalidPerfLevel(Seq<char>),
    InvalidProfile(Seq<char>),
}

impl View for ParseConfigError {
    type V = ParseConfigErrorView;

    open spec fn view(&self) -> ParseConfigErrorView {
        match self {
            ParseConfigError::DevicesIsEmpty => ParseConfigErrorView::DevicesIsEmpty,
            ParseConfigError::InvalidPci(s) => ParseConfigErrorView::InvalidPci(s@),
            ParseConfigError::PciIsEmpty => ParseConfigErrorView::PciIsEmpty,
            ParseConfigError::EntryNameIsEmpty => ParseConfigErrorView::EntryNameIsEmpty,
            ParseConfigError::InvalidPerfLevel(s) => ParseConfigErrorView::InvalidPerfLevel(s@),
            ParseConfigError::InvalidProfile(s) => ParseConfigErrorView::InvalidProfile(s@),
        }
    }
}

impl Clone for ParseConfigError {
    fn clone(&self) -> (r: Self)
        ensures
            r@ == self@,
    {
        match self {
            ParseConfigError::DevicesIsEmpty => ParseConfigError::DevicesIsEmpty,
            ParseConfigError::InvalidPci(s) => ParseConfigError::InvalidPci(s.clone()),
            ParseConfigError::PciIsEmpty => ParseConfigError::PciIsEmpty,
            ParseConfigError::EntryNameIsEmpty => ParseConfigError::EntryNameIsEmpty,
            ParseConfigError::InvalidPerfLevel(s) => ParseConfigError::InvalidPerfLevel(s.clone()),
            ParseConfigError::InvalidProfile(s) => ParseConfigError::InvalidProfile(s.clone()),
        }
    }
}

/// A rule as the file holds it: the name of a process, and the values to set
/// while it runs.
#[derive(Debug)]
pub struct ConfigEntry {
    pub name: String,
    pub perf_level: Option<String>,
    pub profile: Option<String>,
    pub power_cap_watt: Option<u32>,
    pub fan_target_temperature: Option<u32>,
    pub fan_minimum_pwm: Option<u32>,
    pub acoustic_target_rpm_threshold: Option<u32>,
}

/// A `ConfigEntry` with its texts as sequences of characters.
pub struct ConfigEntryView {
    pub name: Seq<char>,
    pub perf_level: Option<Seq<char>>,
    pub profile: Option<Seq<char>>,
    pub power_cap_watt: Option<u32>,
    pub fan_target_temperature: Option<u32>,
    pub fan_minimum_pwm: Option<u32>,
    pub acoustic_target_rpm_threshold: Option<u32>,
}

impl View for ConfigEntry {
    type V = ConfigEntryView;

    open spec fn view(&self) -> ConfigEntryView {
        ConfigEntryView {
            name: self.name@,
            perf_level: opt_text(self.perf_level),
            profile: opt_text(self.profile),
            power_cap_watt: self.power_cap_watt,
            fan_target_temperature: self.fan_target_temperature,
            fan_minimum_pwm: self.fan_minimum_pwm,
            acoustic_target_rpm_threshold: self.acoustic_target_rpm_threshold,
        }
    }
}

/// A rule in checked form.
#[derive(Debug)]
pub struct ParsedConfigEntry {
    pub name: String,
    pub perf_level: Option<PerfLevel>,
    pub profile: Option<PowerProfile>,
    pub power_cap_watt: Option<u32>,
    pub fan_target_temperature: Option<u32>,
    pub fan_minimum_pwm: Option<u32>,
    pub acoustic_target_rpm_threshold: Option<u32>,
}

/// A `ParsedConfigEntry` with its name as a sequence of characters.
pub struct ParsedConfigEntryView {
    pub name: Seq<char>,
    pub perf_level: Option<PerfLevel>,
    pub profile: Option<PowerProfile>,
    pub power_cap_watt: Option<u32>,
    pub fan_target_temperature: Option<u32>,
    pub fan_minimum_pwm: Option<u32>,
    pub acoustic_target_rpm_threshold: Option<u32>,
}

impl View for ParsedConfigEntry {
    type V = ParsedConfigEntryView;

    open spec fn view(&self) -> ParsedConfigEntryView {
        ParsedConfigEntryView {
            name: self.name@,
            perf_level: self.perf_level,
            profile: self.profile,
            power_cap_watt: self.power_cap_watt,
            fan_target_temperature: self.fan_target_temperature,
            fan_minimum_pwm: self.fan_minimum_pwm,
            acoustic_target_rpm_threshold: self.acoustic_target_rpm_threshold,
        }
    }
}

impl Clone for ParsedConfigEntry {
    fn clone(&self) -> (r: Self)
        ensures
            r@ == self@,
    {
        ParsedConfigEntry {
            name: self.name.clone(),
            perf_level: self.perf_level,
            profile: self.profile,
            power_cap_watt: self.power_cap_watt,
            fan_target_temperature: self.fan_target_temperature,
            fan_minimum_pwm: self.fan_minimum_pwm,
            acoustic_target_rpm_threshold: self.acoustic_target_rpm_threshold,
        }
    }
}

impl Clone for ConfigEntry {
    fn clone(&self) -> (r: Self)
        ensures
            r@ == self@,
    {
        ConfigEntry {
            name: self.name.clone(),
            perf_level: clone_opt_string(&self.perf_level),
            profile: clone_opt_string(&self.profile),
            power_cap_watt: self.power_cap_watt,
            fan_target_temperature: self.fan_target_temperature,
            fan_minimum_pwm: self.fan_minimum_pwm,
            acoustic_target_rpm_threshold: self.acoustic_target_rpm_threshold,
        }
    }
}

impl Default for ConfigEntry {
    fn default() -> (r: Self)
        ensures
            r@ == (ConfigEntryView {
                name: Seq::empty(),
                perf_level: None,
                profile: None,
                power_cap_watt: None,
                fan_target_temperature: None,
                fan_minimum_pwm: None,
                acoustic_target_rpm_threshold: None,
            }),
    {
        ConfigEntry {
            name: String::new(),
            perf_level: None,
            profile: None,
            power_cap_watt: None,
            fan_target_temperature: None,
            fan_minimum_pwm: None,
            acoustic_target_rpm_threshold: None,
        }
    }
}

impl ConfigEntryView {
    /// The checked form of a rule, or why there is none: the name is empty,
    /// or the performance level, or else the profile, is no word of the
    /// vocabulary.
    pub open spec fn parse(self) -> Result<ParsedConfigEntryView, ParseConfigErrorView> {
        if self.name.len() == 0 {
            Err(ParseConfigErrorView::EntryNameIsEmpty)
        } else if self.perf_level is Some && perf_level_of(self.perf_level.unwrap()) is None {
            Err(ParseConfigErrorView::InvalidPerfLevel(self.perf_level.unwrap()))
        } else if self.profile is Some && power_profile_of(self.profile.unwrap()) is None {
            Err(ParseConfigErrorView::InvalidProfile(self.profile.unwrap()))
        } else {
            Ok(
                ParsedConfigEntryView {
                    name: self.name,
                    perf_level: match self.perf_level {
                        Some(s) => perf_level_of(s),
                        None => None,
                    },
                    profile: match self.profile {
                        Some(s) => power_profile_of(s),
                        None => None,
                    },
                    power_cap_watt: self.power_cap_watt,
                    fan_target_temperature: self.fan_target_temperature,
                    fan_minimum_pwm: self.fan_minimum_pwm,
                    acoustic_target_rpm_threshold: self.acoustic_target_rpm_threshold,
                },
            )
        }
    }
}

/// The outcome of a check, as the views of its two cases.
pub open spec fn entry_result_view(r: Result<ParsedConfigEntry, ParseConfigError>) -> Result<
    ParsedConfigEntryView,
    ParseConfigErrorView,
> {
    match r {
        Ok(v) => Ok(v@),
        Err(e) => Err(e@),
    }
}

impl ConfigEntry {
    fn parse_perf_level(&self) -> (r: Result<Option<PerfLevel>, ParseConfigError>)
        ensures
            match self.perf_level {
                None => r == Ok::<Option<PerfLevel>, ParseConfigError>(None),
                Some(s) => match perf_level_of(s@) {
                    Some(level) => r == Ok::<Option<PerfLevel>, ParseConfigError>(Some(level)),
                    None => r is Err && r->Err_0@ == ParseConfigErrorView::InvalidPerfLevel(s@),
                },
            },
    {
        match &self.perf_level {
            Some(s) => match perf_level_from_str(s.as_str()) {
                Some(level) => Ok(Some(level)),
                None => Err(ParseConfigError::InvalidPerfLevel(s.clone())),
            },
            None => Ok(None),
        }
    }

    fn parse_power_profile(&self) -> (r: Result<Option<PowerProfile>, ParseConfigError>)
        ensures
            match self.profile {
                None => r == Ok::<Option<PowerProfile>, ParseConfigError>(None),
                Some(s) => match power_profile_of(s@) {
                    Some(profile) => r == Ok::<Option<PowerProfile>, ParseConfigError>(
                        Some(profile),
                    ),
                    None => r is Err && r->Err_0@ == ParseConfigErrorView::InvalidProfile(s@),
                },
            },
    {
        match &self.profile {
            Some(s) => match power_profile_from_str(s.as_str()) {
                Some(profile) => Ok(Some(profile)),
                None => Err(ParseConfigError::InvalidProfile(s.clone())),
            },
            None => Ok(None),
        }
    }

    /// Checks a rule.
    pub fn parse(&self) -> (r: Result<ParsedConfigEntry, ParseConfigError>)
        ensures
            entry_result_view(r) == self@.parse(),
    {
        if self.name.as_str().is_empty() {
            return Err(ParseConfigError::EntryNameIsEmpty);
        }
        let name = self.name.clone();
        let perf_level = match self.parse_perf_level() {
            Ok(v) => v,
            Err(e) => {
                return Err(e);
            },
        };
        let profile = match self.parse_power_profile() {
            Ok(v) => v,
            Err(e) => {
                return Err(e);
            },
        };
        Ok(
            ParsedConfigEntry {
                name,
                perf_level,
                profile,
                power_cap_watt: self.power_cap_watt,
                fan_target_temperature: self.fan_target_temperature,
                fan_minimum_pwm: self.fan_minimum_pwm,
                acoustic_target_rpm_threshold: self.acoustic_target_rpm_threshold,
            },
        )
    }
}

/// The views of the rules that a vector holds.
pub open spec fn entry_views(v: Seq<ConfigEntry>) -> Seq<ConfigEntryView> {
    Seq::new(v.len(), |i: int| v[i]@)
}

/// The views of the checked rules that a vector holds.
pub open spec fn parsed_entry_views(v: Seq<ParsedConfigEntry>) -> Seq<ParsedConfigEntryView> {
    Seq::new(v.len(), |i: int| v[i]@)
}

/// The checked forms of a list of rules, or the error of the first rule
/// that has none.
pub open spec fn parse_entries(es: Seq<ConfigEntryView>) -> Result<
    Seq<ParsedConfigEntryView>,
    ParseConfigErrorView,
>
    decreases es.len(),
{
    if es.len() == 0 {
        Ok(Seq::empty())
    } else {
        match parse_entries(es.drop_last()) {
            Err(e) => Err(e),
            Ok(ps) => match es.last().parse() {
                Err(e) => Err(e),
                Ok(p) => Ok(ps.push(p)),
            },
        }
    }
}

/// A list of rules has checked forms exactly when each rule has one, and
/// these are then the checked forms of the rules, in order. Otherwise the
/// error is that of the first rule without one.
pub proof fn lemma_parse_entries(es: Seq<ConfigEntryView>)
    ensures
        parse_entries(es) is Ok <==> forall|i: int| 0 <= i < es.len() ==> (#[trigger] es[i].parse()) is Ok,
        parse_entries(es) matches Ok(ps) ==> ps.len() == es.len() && forall|i: int|
            0 <= i < es.len() ==> Ok::<ParsedConfigEntryView, ParseConfigErrorView>(ps[i])
                == #[trigger] es[i].parse(),
        parse_entries(es) matches Err(e) ==> exists|i: int|
            0 <= i < es.len() && (#[trigger] es[i].parse()) == Err::<
                ParsedConfigEntryView,
                ParseConfigErrorView,
            >(e) && forall|j: int| 0 <= j < i ==> (#[trigger] es[j].parse()) is Ok,
    decreases es.len(),
{
    if es.len() > 0 {
        let front = es.drop_last();
        lemma_parse_entries(front);
        assert forall|i: int| 0 <= i < front.len() implies front[i] == es[i] by {}
        match parse_entries(front) {
            Err(e) => {
                let i = choose|i: int|
                    0 <= i < front.len() && (#[trigger] front[i].parse()) == Err::<
                        ParsedConfigEntryView,
                        ParseConfigErrorView,
                    >(e) && forall|j: int| 0 <= j < i ==> (#[trigger] front[j].parse()) is Ok;
                assert(es[i].parse() == front[i].parse());
                assert forall|j: int| 0 <= j < i implies (#[trigger] es[j].parse()) is Ok by {
                    assert(front[j].parse() is Ok);
                }
            },
            Ok(ps) => {
                let last = es.len() - 1;
                match es.last().parse() {
                    Err(e) => {
                        assert(es[last].parse() == Err::<
                            ParsedConfigEntryView,
                            ParseConfigErrorView,
                        >(e));
                        assert forall|j: int| 0 <= j < last implies (#[trigger] es[j].parse()) is Ok by {
                            assert(front[j].parse() is Ok);
                        }
                    },
                    Ok(p) => {
                        assert forall|i: int| 0 <= i < es.len() implies (#[trigger] es[i].parse()) is Ok by {
                            if i < last {
                                assert(front[i].parse() is Ok);
                            }
                        }
                        assert forall|i: int| 0 <= i < es.len() implies Ok::<
                            ParsedConfigEntryView,
                            ParseConfigErrorView,
                        >(ps.push(p)[i]) == #[trigger] es[i].parse() by {
                            if i < last {
                                assert(Ok::<ParsedConfigEntryView, ParseConfigErrorView>(ps[i])
                                    == front[i].parse());
                            }
                        }
                    },
                }
            },
        }
    }
}

/// The settings of one device as the file holds them. The fields that begin
/// with an underscore are notes for the reader of the file.
#[derive(Debug)]
pub struct ConfigPerDevice {
    pub pci: String,
    pub _device_name: Option<String>,
    pub default_power_cap_watt: Option<u32>,
    pub _power_cap_watt_range: Option<[u32; 2]>,
    pub default_perf_level: Option<String>,
    pub default_profile: Option<String>,
    pub default_fan_target_temperature: Option<u32>,
    pub _fan_target_temperature_range: Option<[u32; 2]>,
    pub default_fan_minimum_pwm: Option<u32>,
    pub _fan_minimum_pwm_range: Option<[u32; 2]>,
    pub sclk_offset: Option<i32>,
    pub _sclk_offset_range: Option<[i32; 2]>,
    pub vddgfx_offset: Option<i32>,
    pub _vddgfx_offset_range: Option<[i32; 2]>,
    pub fan_zero_rpm: Option<bool>,
    pub acoustic_target_rpm_threshold: Option<u32>,
    pub _acoustic_target_rpm_threshold_range: Option<[u32; 2]>,
    pub entries: Vec<ConfigEntry>,
}

/// What a `ConfigPerDevice` holds that the check reads: the address, the
/// defaults and the rules.
pub struct ConfigPerDeviceView {
    pub pci: Seq<char>,
    pub default_power_cap_watt: Option<u32>,
    pub default_perf_level: Option<Seq<char>>,
    pub default_profile: Option<Seq<char>>,
    pub default_fan_target_temperature: Option<u32>,
    pub default_fan_minimum_pwm: Option<u32>,
    pub sclk_offset: Option<i32>,
    pub vddgfx_offset: Option<i32>,
    pub fan_zero_rpm: Option<bool>,
    pub acoustic_target_rpm_threshold: Option<u32>,
    pub entries: Seq<ConfigEntryView>,
}

impl View for ConfigPerDevice {
    type V = ConfigPerDeviceView;

    open spec fn view(&self) -> ConfigPerDeviceView {
        ConfigPerDeviceView {
            pci: self.pci@,
            default_power_cap_watt: self.default_power_cap_watt,
            default_perf_level: opt_text(self.default_perf_level),
            default_profile: opt_text(self.default_profile),
            default_fan_target_temperature: self.default_fan_target_temperature,
            default_fan_minimum_pwm: self.default_fan_minimum_pwm,
            sclk_offset: self.sclk_offset,
            vddgfx_offset: self.vddgfx_offset,
            fan_zero_rpm: self.fan_zero_rpm,
            acoustic_target_rpm_threshold: self.acoustic_target_rpm_threshold,
            entries: entry_views(self.entries@),
        }
    }
}

/// The defaults of a device: the values that its knobs take while no rule
/// applies.
#[derive(Clone, Copy, Debug)]
pub struct DeviceDefaults {
    pub power_cap_watt: Option<u32>,
    pub perf_level: PerfLevel,
    pub profile: PowerProfile,
    pub fan_target_temperature: Option<u32>,
    pub fan_minimum_pwm: Option<u32>,
    pub sclk_offset: Option<i32>,
    pub vddgfx_offset: Option<i32>,
    pub fan_zero_rpm: Option<bool>,
    pub acoustic_target_rpm_threshold: Option<u32>,
}

/// The settings of one device in checked form.
#[derive(Debug)]
pub struct ParsedConfigPerDevice {
    pub pci: PciBus,
    pub _device_name: Option<String>,
    pub default_power_cap_watt: Option<u32>,
    pub default_perf_level: PerfLevel,
    pub default_profile: PowerProfile,
    pub default_fan_target_temperature: Option<u32>,
    pub default_fan_minimum_pwm: Option<u32>,
    pub sclk_offset: Option<i32>,
    pub vddgfx_offset: Option<i32>,
    pub fan_zero_rpm: Option<bool>,
    pub acoustic_target_rpm_threshold: Option<u32>,
    pub entries: Vec<ParsedConfigEntry>,
}

/// A `ParsedConfigPerDevice` as the address of the device, its defaults and
/// its rules in order.
pub struct ParsedConfigPerDeviceView {
    pub pci: PciBus,
    pub defaults: DeviceDefaults,
    pub entries: Seq<ParsedConfigEntryView>,
}

impl View for ParsedConfigPerDevice {
    type V = ParsedConfigPerDeviceView;

    open spec fn view(&self) -> ParsedConfigPerDeviceView {
        ParsedConfigPerDeviceView {
            pci: self.pci,
            defaults: self.spec_defaults(),
            entries: parsed_entry_views(self.entries@),
        }
    }
}

impl ConfigPerDeviceView {
    /// The checked form of a device's settings, or why there is none. The
    /// address is tested first, then the default performance level, the
    /// default profile, and the rules in order. Without a default the
    /// performance level is `Auto` and the profile the one of boot-up.
    pub open spec fn parse(self) -> Result<ParsedConfigPerDeviceView, ParseConfigErrorView> {
        self.parse_given(PciBus::spec_parse(self.pci))
    }

    /// The checked form of a device's settings, where `pci` is the address
    /// that the text of the address was read as, or nothing where the text
    /// is no address.
    pub open spec fn parse_given(self, pci: Option<PciBus>) -> Result<
        ParsedConfigPerDeviceView,
        ParseConfigErrorView,
    > {
        if self.pci.len() == 0 {
            Err(ParseConfigErrorView::PciIsEmpty)
        } else if pci is None {
            Err(ParseConfigErrorView::InvalidPci(self.pci))
        } else if self.default_perf_level is Some && perf_level_of(self.default_perf_level.unwrap())
            is None {
            Err(ParseConfigErrorView::InvalidPerfLevel(self.default_perf_level.unwrap()))
        } else if self.default_profile is Some && power_profile_of(self.default_profile.unwrap())
            is None {
            Err(ParseConfigErrorView::InvalidProfile(self.default_profile.unwrap()))
        } else {
            match parse_entries(self.entries) {
                Err(e) => Err(e),
                Ok(entries) => Ok(
                    ParsedConfigPerDeviceView {
                        pci: pci.unwrap(),
                        defaults: DeviceDefaults {
                            power_cap_watt: self.default_power_cap_watt,
                            perf_level: match self.default_perf_level {
                                Some(s) => perf_level_of(s).unwrap(),
                                None => PerfLevel::Auto,
                            },
                            profile: match self.default_profile {
                                Some(s) => power_profile_of(s).unwrap(),
                                None => PowerProfile::BootupDefault,
                            },
                            fan_target_temperature: self.default_fan_target_temperature,
                            fan_minimum_pwm: self.default_fan_minimum_pwm,
                            sclk_offset: self.sclk_offset,
                            vddgfx_offset: self.vddgfx_offset,
                            fan_zero_rpm: self.fan_zero_rpm,
                            acoustic_target_rpm_threshold: self.acoustic_target_rpm_threshold,
                        },
                        entries,
                    },
                ),
            }
        }
    }
}

/// The outcome of a device's check, as the views of its two cases.
pub open spec fn device_result_view(r: Result<ParsedConfigPerDevice, ParseConfigError>) -> Result<
    ParsedConfigPerDeviceView,
    ParseConfigErrorView,
> {
    match r {
        Ok(v) => Ok(v@),
        Err(e) => Err(e@),
    }
}

/// Checks a list of rules, in order.
pub fn parse_entry_list(entries: &Vec<ConfigEntry>) -> (r: Result<
    Vec<ParsedConfigEntry>,
    ParseConfigError,
>)
    ensures
        match r {
            Ok(v) => parse_entries(entry_views(entries@)) == Ok::<
                Seq<ParsedConfigEntryView>,
                ParseConfigErrorView,
            >(parsed_entry_views(v@)),
            Err(e) => parse_entries(entry_views(entries@)) == Err::<
                Seq<ParsedConfigEntryView>,
                ParseConfigErrorView,
            >(e@),
        },
{
    let mut out: Vec<ParsedConfigEntry> = Vec::new();
    let mut i: usize = 0;
    let ghost all = entry_views(entries@);
    proof {
        assert(all.take(0) =~= Seq::<ConfigEntryView>::empty());
        assert(parsed_entry_views(out@) =~= Seq::<ParsedConfigEntryView>::empty());
    }
    while i < entries.len()
        invariant
            i <= entries.len(),
            all == entry_views(entries@),
            parse_entries(all.take(i as int)) == Ok::<
                Seq<ParsedConfigEntryView>,
                ParseConfigErrorView,
            >(parsed_entry_views(out@)),
        decreases entries.len() - i,
    {
        let ghost before = parsed_entry_views(out@);
        proof {
            assert(all.take(i + 1).drop_last() =~= all.take(i as int));
            assert(all.take(i + 1).last() == entries@[i as int]@);
        }
        match entries[i].parse() {
            Ok(p) => {
                out.push(p);
                proof {
                    assert(parsed_entry_views(out@) =~= before.push(p@));
                }
            },
            Err(e) => {
                proof {
                    lemma_parse_entries_prefix_error(all, i + 1);
                }
                return Err(e);
            },
        }
        i += 1;
    }
    proof {
        assert(all.take(i as int) =~= all);
    }
    Ok(out)
}

/// An error among the first `k` rules is the error of the whole list.
proof fn lemma_parse_entries_prefix_error(es: Seq<ConfigEntryView>, k: int)
    requires
        0 <= k <= es.len(),
        parse_entries(es.take(k)) is Err,
    ensures
        parse_entries(es) == parse_entries(es.take(k)),
    decreases es.len(),
{
    if k < es.len() {
        let front = es.drop_last();
        assert(front.take(k) =~= es.take(k));
        lemma_parse_entries_prefix_error(front, k);
    } else {
        assert(es.take(k) =~= es);
    }
}

impl ParsedConfigPerDevice {
    /// The defaults of the device.
    pub open spec fn spec_defaults(&self) -> DeviceDefaults {
        DeviceDefaults {
            power_cap_watt: self.default_power_cap_watt,
            perf_level: self.default_perf_level,
            profile: self.default_profile,
            fan_target_temperature: self.default_fan_target_temperature,
            fan_minimum_pwm: self.default_fan_minimum_pwm,
            sclk_offset: self.sclk_offset,
            vddgfx_offset: self.vddgfx_offset,
            fan_zero_rpm: self.fan_zero_rpm,
            acoustic_target_rpm_threshold: self.acoustic_target_rpm_threshold,
        }
    }

    /// The names of the processes that the rules of the device speak of, in
    /// the order of the rules.
    pub fn names(&self) -> (r: Vec<String>)
        ensures
            r.len() == self.entries.len(),
            forall|i: int| 0 <= i < r.len() ==> (#[trigger] r[i])@ == self@.entries[i].name,
    {
        let mut r: Vec<String> = Vec::new();
        let mut i: usize = 0;
        while i < self.entries.len()
            invariant
                i <= self.entries.len(),
                r.len() == i,
                forall|k: int| 0 <= k < i ==> (#[trigger] r[k])@ == self.entries[k].name@,
            decreases self.entries.len() - i,
        {
            r.push(self.entries[i].name.clone());
            i += 1;
        }
        r
    }

    /// Whether the defaults of `new` differ from those of this device.
    pub fn is_default_changed(&self, new: &Self) -> (r: bool)
        ensures
            r == (self@.defaults != new@.defaults),
    {
        self.default_power_cap_watt != new.default_power_cap_watt || self.default_perf_level
            != new.default_perf_level || self.default_profile != new.default_profile
            || self.default_fan_target_temperature != new.default_fan_target_temperature
            || self.default_fan_minimum_pwm != new.default_fan_minimum_pwm || self.sclk_offset
            != new.sclk_offset || self.vddgfx_offset != new.vddgfx_offset || self.fan_zero_rpm
            != new.fan_zero_rpm || self.acoustic_target_rpm_threshold
            != new.acoustic_target_rpm_threshold
    }
}

impl Clone for ParsedConfigPerDevice {
    fn clone(&self) -> (r: Self)
        ensures
            r@ == self@,
            opt_text(r._device_name) == opt_text(self._device_name),
    {
        let mut entries: Vec<ParsedConfigEntry> = Vec::new();
        let mut i: usize = 0;
        while i < self.entries.len()
            invariant
                i <= self.entries.len(),
                entries.len() == i,
                forall|k: int| 0 <= k < i ==> (#[trigger] entries[k])@ == self.entries[k]@,
            decreases self.entries.len() - i,
        {
            entries.push(self.entries[i].clone());
            i += 1;
        }
        proof {
            assert(parsed_entry_views(entries@) =~= parsed_entry_views(self.entries@));
        }
        ParsedConfigPerDevice {
            pci: self.pci,
            _device_name: clone_opt_string(&self._device_name),
            default_power_cap_watt: self.default_power_cap_watt,
            default_perf_level: self.default_perf_level,
            default_profile: self.default_profile,
            default_fan_target_temperature: self.default_fan_target_temperature,
            default_fan_minimum_pwm: self.default_fan_minimum_pwm,
            sclk_offset: self.sclk_offset,
            vddgfx_offset: self.vddgfx_offset,
            fan_zero_rpm: self.fan_zero_rpm,
            acoustic_target_rpm_threshold: self.acoustic_target_rpm_threshold,
            entries,
        }
    }
}

impl ConfigPerDevice {
    fn parse_default_perf_level(&self) -> (r: Result<PerfLevel, ParseConfigError>)
        ensures
            match self.default_perf_level {
                None => r == Ok::<PerfLevel, ParseConfigError>(PerfLevel::Auto),
                Some(s) => match perf_level_of(s@) {
                    Some(level) => r == Ok::<PerfLevel, ParseConfigError>(level),
                    None => r is Err && r->Err_0@ == ParseConfigErrorView::InvalidPerfLevel(s@),
                },
            },
    {
        match &self.default_perf_level {
            Some(s) => match perf_level_from_str(s.as_str()) {
                Some(level) => Ok(level),
                None => Err(ParseConfigError::InvalidPerfLevel(s.clone())),
            },
            None => Ok(PerfLevel::Auto),
        }
    }

    fn parse_default_power_profile(&self) -> (r: Result<PowerProfile, ParseConfigError>)
        ensures
            match self.default_profile {
                None => r == Ok::<PowerProfile, ParseConfigError>(PowerProfile::BootupDefault),
                Some(s) => match power_profile_of(s@) {
                    Some(profile) => r == Ok::<PowerProfile, ParseConfigError>(profile),
                    None => r is Err && r->Err_0@ == ParseConfigErrorView::InvalidProfile(s@),
                },
            },
    {
        match &self.default_profile {
            Some(s) => match power_profile_from_str(s.as_str()) {
                Some(profile) => Ok(profile),
                None => Err(ParseConfigError::InvalidProfile(s.clone())),
            },
            None => Ok(PowerProfile::BootupDefault),
        }
    }

    /// Checks the settings of one device. The checked form has no device
    /// name.
    pub fn parse(&self) -> (r: Result<ParsedConfigPerDevice, ParseConfigError>)
        ensures
            device_result_view(r) == self@.parse(),
            r matches Ok(d) ==> d._device_name is None,
    {
        let pci = if self.pci.as_str().is_empty() {
            None
        } else {
            PciBus::read(self.pci.as_str())
        };
        self.parse_with(pci)
    }

    /// Checks the settings of one device whose address was read already:
    /// `pci` is the address, or nothing where the text is no address. The
    /// checked form has no device name.
    pub fn parse_with(&self, pci: Option<PciBus>) -> (r: Result<
        ParsedConfigPerDevice,
        ParseConfigError,
    >)
        ensures
            device_result_view(r) == self@.parse_given(pci),
            r matches Ok(d) ==> d._device_name is None,
    {
        if self.pci.as_str().is_empty() {
            return Err(ParseConfigError::PciIsEmpty);
        }
        let pci = match pci {
            Some(pci) => pci,
            None => {
                return Err(ParseConfigError::InvalidPci(self.pci.clone()));
            },
        };
        let default_perf_level = match self.parse_default_perf_level() {
            Ok(v) => v,
            Err(e) => {
                return Err(e);
            },
        };
        let default_profile = match self.parse_default_power_profile() {
            Ok(v) => v,
            Err(e) => {
                return Err(e);
            },
        };
        let entries = match parse_entry_list(&self.entries) {
            Ok(v) => v,
            Err(e) => {
                return Err(e);
            },
        };
        Ok(
            ParsedConfigPerDevice {
                pci,
                _device_name: None,
                default_power_cap_watt: self.default_power_cap_watt,
                default_perf_level,
                default_profile,
                default_fan_target_temperature: self.default_fan_target_temperature,
                default_fan_minimum_pwm: self.default_fan_minimum_pwm,
                sclk_offset: self.sclk_offset,
                vddgfx_offset: self.vddgfx_offset,
                fan_zero_rpm: self.fan_zero_rpm,
                acoustic_target_rpm_threshold: self.acoustic_target_rpm_threshold,
                entries,
            },
        )
    }
}

/// The configuration as the file holds it.
#[derive(Debug)]
pub struct Config {
    pub config_devices: Vec<ConfigPerDevice>,
}

/// The configuration in checked form.
#[derive(Debug)]
pub struct ParsedConfig {
    pub config_devices: Vec<ParsedConfigPerDevice>,
}

/// The views of the devices that a vector holds.
pub open spec fn device_views(v: Seq<ConfigPerDevice>) -> Seq<ConfigPerDeviceView> {
    Seq::new(v.len(), |i: int| v[i]@)
}

/// The views of the checked devices that a vector holds.
pub open spec fn parsed_device_views(v: Seq<ParsedConfigPerDevice>) -> Seq<
    ParsedConfigPerDeviceView,
> {
    Seq::new(v.len(), |i: int| v[i]@)
}

impl View for Config {
    type V = Seq<ConfigPerDeviceView>;

    open spec fn view(&self) -> Seq<ConfigPerDeviceView> {
        device_views(self.config_devices@)
    }
}

impl View for ParsedConfig {
    type V = Seq<ParsedConfigPerDeviceView>;

    open spec fn view(&self) -> Seq<ParsedConfigPerDeviceView> {
        parsed_device_views(self.config_devices@)
    }
}

/// The checked forms of a list of devices, or the error of the first device
/// that has none.
pub open spec fn parse_devices(ds: Seq<ConfigPerDeviceView>) -> Result<
    Seq<ParsedConfigPerDeviceView>,
    ParseConfigErrorView,
>
    decreases ds.len(),
{
    if ds.len() == 0 {
        Ok(Seq::empty())
    } else {
        match parse_devices(ds.drop_last()) {
            Err(e) => Err(e),
            Ok(ps) => match ds.last().parse() {
                Err(e) => Err(e),
                Ok(p) => Ok(ps.push(p)),
            },
        }
    }
}

/// An error among the first `k` devices is the error of the whole list.
proof fn lemma_parse_devices_prefix_error(ds: Seq<ConfigPerDeviceView>, k: int)
    requires
        0 <= k <= ds.len(),
        parse_devices(ds.take(k)) is Err,
    ensures
        parse_devices(ds) == parse_devices(ds.take(k)),
    decreases ds.len(),
{
    if k < ds.len() {
        let front = ds.drop_last();
        assert(front.take(k) =~= ds.take(k));
        lemma_parse_devices_prefix_error(front, k);
    } else {
        assert(ds.take(k) =~= ds);
    }
}

/// The checked form of a configuration: that of each device, in order. A
/// configuration without devices has none, and one with a device that has
/// none has the error of the first such device.
pub open spec fn parse_config(ds: Seq<ConfigPerDeviceView>) -> Result<
    Seq<ParsedConfigPerDeviceView>,
    ParseConfigErrorView,
> {
    if ds.len() == 0 {
        Err(ParseConfigErrorView::DevicesIsEmpty)
    } else {
        parse_devices(ds)
    }
}

/// The outcome of a configuration's check, as the views of its two cases.
pub open spec fn config_result_view(r: Result<ParsedConfig, ParseConfigError>) -> Result<
    Seq<ParsedConfigPerDeviceView>,
    ParseConfigErrorView,
> {
    match r {
        Ok(v) => Ok(v@),
        Err(e) => Err(e@),
    }
}

impl Config {
    /// Checks a configuration.
    pub fn parse(&self) -> (r: Result<ParsedConfig, ParseConfigError>)
        ensures
            config_result_view(r) == parse_config(self@),
    {
        if self.config_devices.len() == 0 {
            return Err(ParseConfigError::DevicesIsEmpty);
        }
        let mut out: Vec<ParsedConfigPerDevice> = Vec::new();
        let mut i: usize = 0;
        let ghost all = self@;
        proof {
            assert(all.take(0) =~= Seq::<ConfigPerDeviceView>::empty());
            assert(parsed_device_views(out@) =~= Seq::<ParsedConfigPerDeviceView>::empty());
        }
        while i < self.config_devices.len()
            invariant
                i <= self.config_devices.len(),
                all == self@,
                parse_devices(all.take(i as int)) == Ok::<
                    Seq<ParsedConfigPerDeviceView>,
                    ParseConfigErrorView,
                >(parsed_device_views(out@)),
            decreases self.config_devices.len() - i,
        {
            let ghost before = parsed_device_views(out@);
            proof {
                assert(all.take(i + 1).drop_last() =~= all.take(i as int));
                assert(all.take(i + 1).last() == self.config_devices@[i as int]@);
            }
            match self.config_devices[i].parse() {
                Ok(p) => {
                    out.push(p);
                    proof {
                        assert(parsed_device_views(out@) =~= before.push(p@));
                    }
                },
                Err(e) => {
                    proof {
                        lemma_parse_devices_prefix_error(all, i + 1);
                    }
                    return Err(e);
                },
            }
            i += 1;
        }
        proof {
            assert(all.take(i as int) =~= all);
        }
        Ok(ParsedConfig { config_devices: out })
    }
}

/// Why a rule was not added to a configuration.
#[derive(Debug)]
pub enum AddEntryError {
    /// A device of the configuration has a text for its address that is no
    /// address.
    InvalidPci(String),
    /// No device of the configuration has the address, and the hardware has
    /// no such device.
    DeviceNotPresent(PciBus),
}

/// An `AddEntryError` with its text as a sequence of characters.
pub enum AddEntryErrorView {
    InvalidPci(Seq<char>),
    DeviceNotPresent(PciBus),
}

impl View for AddEntryError {
    type V = AddEntryErrorView;

    open spec fn view(&self) -> AddEntryErrorView {
        match self {
            AddEntryError::InvalidPci(s) => AddEntryErrorView::InvalidPci(s@),
            AddEntryError::DeviceNotPresent(pci) => AddEntryErrorView::DeviceNotPresent(*pci),
        }
    }
}

/// The addresses that the texts of the devices' addresses are read as.
pub open spec fn addresses_of(ds: Seq<ConfigPerDeviceView>) -> Seq<Option<PciBus>> {
    Seq::new(ds.len(), |i: int| PciBus::spec_parse(ds[i].pci))
}

/// The index of the first device at or after `from` whose address is `pci`,
/// where `addresses` holds what the text of each device's address was read
/// as and the addresses of the devices before it could all be read; else
/// the text of the first address that could not. A device without an entry
/// in `addresses` is not looked at.
pub open spec fn device_among(
    ds: Seq<ConfigPerDeviceView>,
    addresses: Seq<Option<PciBus>>,
    pci: PciBus,
    from: int,
) -> Result<Option<int>, Seq<char>>
    decreases ds.len() - from,
{
    if from < 0 || from >= ds.len() || from >= addresses.len() {
        Ok(None)
    } else {
        match addresses[from] {
            None => Err(ds[from].pci),
            Some(p) => if p == pci {
                Ok(Some(from))
            } else {
                device_among(ds, addresses, pci, from + 1)
            },
        }
    }
}

/// The index of the first device at or after `from` whose address is `pci`,
/// where the addresses of the devices before it can all be read; else the
/// text of the first address that cannot.
pub open spec fn device_for(ds: Seq<ConfigPerDeviceView>, pci: PciBus, from: int) -> Result<
    Option<int>,
    Seq<char>,
> {
    device_among(ds, addresses_of(ds), pci, from)
}

/// The settings `d` with the rule `entry` before all its rules.
pub open spec fn with_first_entry(d: ConfigPerDeviceView, entry: ConfigEntryView) -> ConfigPerDeviceView {
    ConfigPerDeviceView { entries: seq![entry] + d.entries, ..d }
}

/// Settings for the device at `pci` that hold nothing but the rule `entry`.
pub open spec fn new_device(pci: PciBus, entry: ConfigEntryView) -> ConfigPerDeviceView {
    ConfigPerDeviceView {
        pci: pci.text(),
        default_power_cap_watt: None,
        default_perf_level: None,
        default_profile: None,
        default_fan_target_temperature: None,
        default_fan_minimum_pwm: None,
        sclk_offset: None,
        vddgfx_offset: None,
        fan_zero_rpm: None,
        acoustic_target_rpm_threshold: None,
        entries: seq![entry],
    }
}

/// The notes that the settings of a device hold for the reader of the file.
pub open spec fn notes_of(d: ConfigPerDevice) -> (
    Option<Seq<char>>,
    Option<[u32; 2]>,
    Option<[u32; 2]>,
    Option<[u32; 2]>,
    Option<[i32; 2]>,
    Option<[i32; 2]>,
    Option<[u32; 2]>,
) {
    (
        opt_text(d._device_name),
        d._power_cap_watt_range,
        d._fan_target_temperature_range,
        d._fan_minimum_pwm_range,
        d._sclk_offset_range,
        d._vddgfx_offset_range,
        d._acoustic_target_rpm_threshold_range,
    )
}

/// What `add_entry` leaves of the configuration `before`, and what it
/// returns.
pub open spec fn added(
    before: Seq<ConfigPerDeviceView>,
    pci: PciBus,
    entry: ConfigEntryView,
    hardware: Seq<PciBus>,
) -> (Seq<ConfigPerDeviceView>, Result<(), AddEntryErrorView>) {
    added_given(before, addresses_of(before), pci, entry, hardware)
}

/// What `add_entry_with` leaves of the configuration `before`, and what it
/// returns, where `addresses` holds what the text of each device's address
/// was read as.
pub open spec fn added_given(
    before: Seq<ConfigPerDeviceView>,
    addresses: Seq<Option<PciBus>>,
    pci: PciBus,
    entry: ConfigEntryView,
    hardware: Seq<PciBus>,
) -> (Seq<ConfigPerDeviceView>, Result<(), AddEntryErrorView>) {
    match device_among(before, addresses, pci, 0) {
        Err(text) => (before, Err(AddEntryErrorView::InvalidPci(text))),
        Ok(Some(j)) => (before.update(j, with_first_entry(before[j], entry)), Ok(())),
        Ok(None) => if has_pci(hardware, pci) {
            (before.push(new_device(pci, entry)), Ok(()))
        } else {
            (before, Err(AddEntryErrorView::DeviceNotPresent(pci)))
        },
    }
}

/// The outcome of adding a rule, with the error as a view.
pub open spec fn add_result_view(r: Result<(), AddEntryError>) -> Result<(), AddEntryErrorView> {
    match r {
        Ok(_) => Ok(()),
        Err(e) => Err(e@),
    }
}

impl Config {
    /// What the text of each device's address is read as, in order.
    pub fn addresses(&self) -> (r: Vec<Option<PciBus>>)
        ensures
            r@ == addresses_of(self@),
    {
        let mut r: Vec<Option<PciBus>> = Vec::new();
        let mut i: usize = 0;
        while i < self.config_devices.len()
            invariant
                i <= self.config_devices.len(),
                r.len() == i,
                forall|k: int| 0 <= k < i ==> #[trigger] r[k] == PciBus::spec_parse(self@[k].pci),
            decreases self.config_devices.len() - i,
        {
            assert(self@[i as int] == self.config_devices@[i as int]@);
            r.push(PciBus::read(self.config_devices[i].pci.as_str()));
            i += 1;
        }
        assert(r@ =~= addresses_of(self@));
        r
    }

    fn find_device_among(&self, addresses: &Vec<Option<PciBus>>, pci: &PciBus) -> (r: Result<
        Option<usize>,
        String,
    >)
        ensures
            match r {
                Ok(Some(j)) => j < self.config_devices.len() && device_among(
                    self@,
                    addresses@,
                    *pci,
                    0,
                ) == Ok::<Option<int>, Seq<char>>(Some(j as int)),
                Ok(None) => device_among(self@, addresses@, *pci, 0) == Ok::<
                    Option<int>,
                    Seq<char>,
                >(None),
                Err(text) => device_among(self@, addresses@, *pci, 0) == Err::<
                    Option<int>,
                    Seq<char>,
                >(text@),
            },
    {
        let mut i: usize = 0;
        while i < self.config_devices.len() && i < addresses.len()
            invariant
                i <= self.config_devices.len(),
                device_among(self@, addresses@, *pci, 0) == device_among(
                    self@,
                    addresses@,
                    *pci,
                    i as int,
                ),
            decreases self.config_devices.len() - i,
        {
            assert(self@[i as int] == self.config_devices@[i as int]@);
            match addresses[i] {
                None => {
                    return Err(self.config_devices[i].pci.clone());
                },
                Some(p) => {
                    if p == *pci {
                        return Ok(Some(i));
                    }
                },
            }
            i += 1;
        }
        Ok(None)
    }

    /// Adds a rule for the device at `pci`. The rule goes before the rules
    /// of the first settings that have the address, so that it takes
    /// priority over them. Where no settings have the address and the
    /// hardware has the device, new settings with this rule alone are added
    /// after the others. Otherwise nothing changes.
    pub fn add_entry(&mut self, pci: PciBus, entry: ConfigEntry, hardware: &Vec<PciBus>) -> (r:
        Result<(), AddEntryError>)
        ensures
            (final(self)@, add_result_view(r)) == added(old(self)@, pci, entry@, hardware@),
            add_entry_keeps(
                *old(self),
                *final(self),
                device_for(old(self)@, pci, 0),
                add_result_view(r),
            ),
    {
        let addresses = self.addresses();
        self.add_entry_with(&addresses, pci, entry, hardware)
    }

    /// Adds a rule for the device at `pci`, as `add_entry` does, where the
    /// addresses of the devices were read already: `addresses` holds for
    /// each device, in order, its address, or nothing where its text is no
    /// address.
    pub fn add_entry_with(
        &mut self,
        addresses: &Vec<Option<PciBus>>,
        pci: PciBus,
        entry: ConfigEntry,
        hardware: &Vec<PciBus>,
    ) -> (r: Result<(), AddEntryError>)
        ensures
            (final(self)@, add_result_view(r)) == added_given(
                old(self)@,
                addresses@,
                pci,
                entry@,
                hardware@,
            ),
            add_entry_keeps(
                *old(self),
                *final(self),
                device_among(old(self)@, addresses@, pci, 0),
                add_result_view(r),
            ),
    {
        let ghost before = self@;
        match self.find_device_among(addresses, &pci) {
            Err(text) => Err(AddEntryError::InvalidPci(text)),
            Ok(Some(j)) => {
                let ghost old_entries = entry_views(self.config_devices[j as int].entries@);
                let device = &mut self.config_devices[j];
                device.entries.insert(0, entry);
                proof {
                    assert(entry_views(self.config_devices[j as int].entries@) =~= seq![entry@]
                        + old_entries);
                    assert(self@ =~= before.update(
                        j as int,
                        with_first_entry(before[j as int], entry@),
                    ));
                }
                Ok(())
            },
            Ok(None) => {
                if !contains_pci(hardware, &pci) {
                    return Err(AddEntryError::DeviceNotPresent(pci));
                }
                let mut entries: Vec<ConfigEntry> = Vec::new();
                entries.push(entry);
                let device = ConfigPerDevice {
                    pci: pci.write(),
                    _device_name: None,
                    default_power_cap_watt: None,
                    _power_cap_watt_range: None,
                    default_perf_level: None,
                    default_profile: None,
                    default_fan_target_temperature: None,
                    _fan_target_temperature_range: None,
                    default_fan_minimum_pwm: None,
                    _fan_minimum_pwm_range: None,
                    sclk_offset: None,
                    _sclk_offset_range: None,
                    vddgfx_offset: None,
                    _vddgfx_offset_range: None,
                    fan_zero_rpm: None,
                    acoustic_target_rpm_threshold: None,
                    _acoustic_target_rpm_threshold_range: None,
                    entries,
                };
                proof {
                    assert(entry_views(device.entries@) =~= seq![entry@]);
                    assert(device@ == new_device(pci, entry@));
                }
                self.config_devices.push(device);
                proof {
                    assert(self@ =~= before.push(new_device(pci, entry@)));
                }
                Ok(())
            },
        }
    }
}

/// What adding a rule leaves alone, where `found` is the device that was
/// found for the address. Where nothing was added, nothing changed. Where
/// the rule went to a device, that device keeps its notes and every other
/// device stays as it was. Where new settings were made, they have no
/// notes, and every device that was there stays as it was.
pub open spec fn add_entry_keeps(
    before: Config,
    after: Config,
    found: Result<Option<int>, Seq<char>>,
    r: Result<(), AddEntryErrorView>,
) -> bool {
    &&& r is Err ==> after.config_devices@ == before.config_devices@
    &&& r is Ok ==> match found {
        Ok(Some(j)) => {
            &&& after.config_devices.len() == before.config_devices.len()
            &&& notes_of(after.config_devices[j]) == notes_of(before.config_devices[j])
            &&& forall|i: int|
                0 <= i < before.config_devices.len() && i != j
                    ==> #[trigger] after.config_devices[i] == before.config_devices[i]
        },
        Ok(None) => {
            &&& after.config_devices.len() == before.config_devices.len() + 1
            &&& notes_of(after.config_devices[before.config_devices.len() as int]) == (
                None::<Seq<char>>,
                None::<[u32; 2]>,
                None::<[u32; 2]>,
                None::<[u32; 2]>,
                None::<[i32; 2]>,
                None::<[i32; 2]>,
                None::<[u32; 2]>,
            )
            &&& forall|i: int|
                0 <= i < before.config_devices.len()
                    ==> #[trigger] after.config_devices[i] == before.config_devices[i]
        },
        Err(_) => true,
    }
}

/// The word that is written to the driver for a performance level is the
/// word that the configuration reads as that level.
pub proof fn lemma_perf_level_words_agree(level: PerfLevel)
    ensures
        perf_level_of(crate::knob::perf_level_arg(level)) == Some(level),
{
    reveal_strlit("auto");
    reveal_strlit("low");
    reveal_strlit("high");
    reveal_strlit("manual");
    reveal_strlit("profile_standard");
    reveal_strlit("profile_peak");
    reveal_strlit("profile_min_sclk");
    reveal_strlit("profile_min_mclk");
    reveal_strlit("perf_determinism");
    let w = crate::knob::perf_level_arg(level);
    match level {
        PerfLevel::Auto => {},
        PerfLevel::Low => {
            assert(w.len() == 3);
        },
        PerfLevel::High => {
            assert(w[0] == 'h');
        },
        PerfLevel::Manual => {
            assert(w[0] == 'm');
        },
        PerfLevel::ProfileStandard => {
            assert(w[8] == 's');
            assert(w.len() == 16);
        },
        PerfLevel::ProfilePeak => {
            assert(w[8] == 'p');
            assert(w.len() == 12);
        },
        PerfLevel::ProfileMinSclk => {
            assert(w[12] == 's');
            assert(w.len() == 16);
        },
        PerfLevel::ProfileMinMclk => {
            assert(w[12] == 'm');
            assert(w.len() == 16);
        },
        PerfLevel::PerfDeterminism => {
            assert(w[1] == 'e');
            assert(w.len() == 16);
        },
    }
}

} // verus!
