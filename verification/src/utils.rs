//! Around the configuration file: where it is, when it changed, where in
//! its text an error stands, and how a first file is made.

use crate::amdgpu_device::AmdgpuDevice;
use crate::config::{
    opt_text, Config, ConfigEntry, ConfigEntryView, ConfigPerDevice, ParseConfigError,
    ParseConfigErrorView,
};
use crate::text::{
    contains, has, lines, remove_char, split_lines, to_chars, views, without,
};
use vstd::prelude::*;
use vstd::string::*;

verus! {

/// A place where the configuration file may be, with whether a file is
/// there.
#[derive(Debug)]
pub struct PathProbe {
    pub path: String,
    pub exists: bool,
}

/// The index of the first place at or after `from` where a file is.
pub open spec fn first_existing(places: Seq<PathProbe>, from: int) -> Option<int>
    decreases places.len() - from,
{
    if from < 0 || from >= places.len() {
        None
    } else if places[from].exists {
        Some(from)
    } else {
        first_existing(places, from + 1)
    }
}

fn find_existing(places: &Vec<PathProbe>) -> (r: Option<usize>)
    ensures
        r.is_some() == first_existing(places@, 0).is_some(),
        r matches Some(i) ==> i < places.len() && first_existing(places@, 0) == Some(i as int),
{
    let mut i: usize = 0;
    while i < places.len()
        invariant
            i <= places.len(),
            first_existing(places@, 0) == first_existing(places@, i as int),
        decreases places.len() - i,
    {
        if places[i].exists {
            return Some(i);
        }
        i += 1;
    }
    None
}

/// The path of the configuration file: the path that the environment
/// names, whether a file is there or not; else the first of the places of
/// the environment's directories where a file is; else the first of the
/// fixed places where a file is.
pub open spec fn chosen_path(
    named: Option<Seq<char>>,
    from_environment: Seq<PathProbe>,
    fixed: Seq<PathProbe>,
) -> Option<Seq<char>> {
    if named is Some {
        named
    } else if first_existing(from_environment, 0) is Some {
        Some(from_environment[first_existing(from_environment, 0).unwrap()].path@)
    } else if first_existing(fixed, 0) is Some {
        Some(fixed[first_existing(fixed, 0).unwrap()].path@)
    } else {
        None
    }
}

/// Chooses the path of the configuration file.
pub fn config_path(
    named: Option<String>,
    from_environment: &Vec<PathProbe>,
    fixed: &Vec<PathProbe>,
) -> (r: Option<String>)
    ensures
        opt_text(r) == chosen_path(opt_text(named), from_environment@, fixed@),
{
    if named.is_some() {
        return named;
    }
    match find_existing(from_environment) {
        Some(i) => {
            return Some(from_environment[i].path.clone());
        },
        None => {},
    }
    match find_existing(fixed) {
        Some(i) => Some(fixed[i].path.clone()),
        None => None,
    }
}

/// A point in time, as seconds and nanoseconds.
#[derive(Clone, Copy, Debug, PartialEq, Eq, Structural)]
pub struct Timestamp {
    pub secs: i64,
    pub nanos: u32,
}

impl Timestamp {
    /// This point in time is earlier than `other`.
    pub open spec fn before(self, other: Timestamp) -> bool {
        self.secs < other.secs || (self.secs == other.secs && self.nanos < other.nanos)
    }

    /// Whether this point in time is earlier than `other`.
    pub fn is_before(&self, other: &Timestamp) -> (r: bool)
        ensures
            r == self.before(*other),
    {
        self.secs < other.secs || (self.secs == other.secs && self.nanos < other.nanos)
    }
}

/// Watches the time at which the configuration file was last changed.
#[derive(Clone, Copy, Debug)]
pub struct ConfigWatcher {
    /// The latest time of change that was seen.
    pub last_modified: Timestamp,
}

impl ConfigWatcher {
    /// A watcher that has seen the time of change `modified`.
    pub fn new(modified: Timestamp) -> (r: Self)
        ensures
            r.last_modified == modified,
    {
        ConfigWatcher { last_modified: modified }
    }

    /// Takes in the time of change that the file has now, or that it could
    /// not be had, and says whether the configuration is to be read again.
    /// It is where the time moved forward, which is then remembered, and
    /// where the time could not be had, so that the reader meets the error.
    /// A time that is not later changes nothing.
    pub fn observe(&mut self, modified: Option<Timestamp>) -> (dirty: bool)
        ensures
            dirty == match modified {
                Some(t) => old(self).last_modified.before(t),
                None => true,
            },
            final(self).last_modified == match modified {
                Some(t) => if old(self).last_modified.before(t) {
                    t
                } else {
                    old(self).last_modified
                },
                None => old(self).last_modified,
            },
    {
        match modified {
            Some(t) => {
                if self.last_modified.is_before(&t) {
                    self.last_modified = t;
                    true
                } else {
                    false
                }
            },
            None => true,
        }
    }
}

/// What to look for in the text of the file for an error: the text, and
/// whether blanks in a line are passed over. An empty address shows as
/// `pci:""`, an empty name as `name:""`, and a word outside the vocabulary
/// as itself. The other errors show nowhere.
pub open spec fn error_pattern(e: ParseConfigErrorView) -> Option<(Seq<char>, bool)> {
    match e {
        ParseConfigErrorView::PciIsEmpty => Some((seq!['p', 'c', 'i', ':', '"', '"'], true)),
        ParseConfigErrorView::EntryNameIsEmpty => Some(
            (seq!['n', 'a', 'm', 'e', ':', '"', '"'], true),
        ),
        ParseConfigErrorView::InvalidPerfLevel(s) => Some((s, false)),
        ParseConfigErrorView::InvalidProfile(s) => Some((s, false)),
        _ => None,
    }
}

/// Whether a line shows `pattern`, its blanks passed over or not.
pub open spec fn line_shows(l: Seq<char>, pattern: Seq<char>, pass_blanks: bool) -> bool {
    contains(if pass_blanks { without(l, ' ') } else { l }, pattern)
}

/// The index of the first line at or after `from` that shows `pattern`.
pub open spec fn first_showing(
    ls: Seq<Seq<char>>,
    pattern: Seq<char>,
    pass_blanks: bool,
    from: int,
) -> Option<int>
    decreases ls.len() - from,
{
    if from < 0 || from >= ls.len() {
        None
    } else if line_shows(ls[from], pattern, pass_blanks) {
        Some(from)
    } else {
        first_showing(ls, pattern, pass_blanks, from + 1)
    }
}

/// The index of the line of `text`, counted from zero, where the error `e`
/// shows first.
pub open spec fn error_line(text: Seq<char>, e: ParseConfigErrorView) -> Option<int> {
    match error_pattern(e) {
        Some((pattern, pass_blanks)) => first_showing(lines(text), pattern, pass_blanks, 0),
        None => None,
    }
}

/// Finds the line of the file's text where an error of the configuration
/// shows first. Lines are counted from zero.
pub fn find_error_line(text: &str, e: &ParseConfigError) -> (r: Option<usize>)
    ensures
        r.is_some() == error_line(text@, e@).is_some(),
        r matches Some(i) ==> error_line(text@, e@) == Some(i as int),
{
    proof {
        reveal_strlit("pci:\"\"");
        reveal_strlit("name:\"\"");
    }
    let (pattern, pass_blanks) = match e {
        ParseConfigError::PciIsEmpty => (to_chars("pci:\"\""), true),
        ParseConfigError::EntryNameIsEmpty => (to_chars("name:\"\""), true),
        ParseConfigError::InvalidPerfLevel(s) => (to_chars(s.as_str()), false),
        ParseConfigError::InvalidProfile(s) => (to_chars(s.as_str()), false),
        _ => {
            return None;
        },
    };
    assert(error_pattern(e@) == Some((pattern@, pass_blanks))) by {
        assert("pci:\"\""@ =~= seq!['p', 'c', 'i', ':', '"', '"']);
        assert("name:\"\""@ =~= seq!['n', 'a', 'm', 'e', ':', '"', '"']);
    }
    let chars = to_chars(text);
    let ls = split_lines(&chars);
    let mut i: usize = 0;
    while i < ls.len()
        invariant
            i <= ls.len(),
            views(ls@) == lines(text@),
            error_pattern(e@) == Some((pattern@, pass_blanks)),
            first_showing(lines(text@), pattern@, pass_blanks, 0) == first_showing(
                lines(text@),
                pattern@,
                pass_blanks,
                i as int,
            ),
        decreases ls.len() - i,
    {
        assert(views(ls@)[i as int] == ls@[i as int]@);
        let shows = if pass_blanks {
            let packed = remove_char(&ls[i], ' ');
            has(&packed, &pattern)
        } else {
            has(&ls[i], &pattern)
        };
        if shows {
            return Some(i);
        }
        i += 1;
    }
    None
}

/// The rule that a first configuration holds for every device: while
/// `glxgears` runs, the profile of boot-up.
pub open spec fn sample_entry() -> ConfigEntryView {
    ConfigEntryView {
        name: "glxgears"@,
        perf_level: None,
        profile: Some("BOOTUP_DEFAULT"@),
        power_cap_watt: None,
        fan_target_temperature: None,
        fan_minimum_pwm: None,
        acoustic_target_rpm_threshold: None,
    }
}

/// Whether `c` is the part of a first configuration for the device `d`: the
/// address and the name of the device, the power cap that the device starts
/// with as the default, the ranges that the device takes as notes, no other
/// default, and the sample rule.
pub open spec fn is_template(d: &AmdgpuDevice, c: &ConfigPerDevice) -> bool {
    &&& c.pci@ == d.pci_bus.text()
    &&& opt_text(c._device_name) == Some(d.device_name@)
    &&& c.default_power_cap_watt == match d.power_cap {
        Some(cap) => Some(cap.default),
        None => None,
    }
    &&& c._power_cap_watt_range == match d.power_cap {
        Some(cap) => Some([cap.min, cap.max]),
        None => None,
    }
    &&& c.default_perf_level is None
    &&& c.default_profile is None
    &&& c.default_fan_target_temperature is None
    &&& c._fan_target_temperature_range == match d.fan_target_temperature {
        Some(t) => Some(t.temp_range),
        None => None,
    }
    &&& c.default_fan_minimum_pwm is None
    &&& c._fan_minimum_pwm_range == match d.fan_minimum_pwm {
        Some(p) => Some(p.pwm_range),
        None => None,
    }
    &&& c.sclk_offset is None
    &&& c._sclk_offset_range == match d.sclk_offset {
        Some(o) => o.range,
        None => None,
    }
    &&& c.vddgfx_offset is None
    &&& c._vddgfx_offset_range == match d.vddgfx_offset {
        Some(o) => o.range,
        None => None,
    }
    &&& c.fan_zero_rpm is None
    &&& c.acoustic_target_rpm_threshold is None
    &&& c._acoustic_target_rpm_threshold_range is None
    &&& c.entries.len() == 1
    &&& c.entries[0]@ == sample_entry()
}

/// Makes a first configuration for the devices that were found: one part
/// for each, in order.
pub fn generate_config(devices: &Vec<AmdgpuDevice>) -> (r: Config)
    ensures
        r.config_devices.len() == devices.len(),
        forall|i: int|
            0 <= i < devices.len() ==> is_template(&devices[i], &#[trigger] r.config_devices[i]),
{
    let mut config_devices: Vec<ConfigPerDevice> = Vec::new();
    let mut i: usize = 0;
    while i < devices.len()
        invariant
            i <= devices.len(),
            config_devices.len() == i,
            forall|k: int| 0 <= k < i ==> is_template(&devices[k], &#[trigger] config_devices[k]),
        decreases devices.len() - i,
    {
        let d = &devices[i];
        let entry = ConfigEntry {
            name: String::from_str("glxgears"),
            perf_level: None,
            profile: Some(String::from_str("BOOTUP_DEFAULT")),
            power_cap_watt: None,
            fan_target_temperature: None,
            fan_minimum_pwm: None,
            acoustic_target_rpm_threshold: None,
        };
        let mut entries: Vec<ConfigEntry> = Vec::new();
        entries.push(entry);
        let c = ConfigPerDevice {
            pci: d.pci_bus.write(),
            _device_name: Some(d.device_name.clone()),
            default_power_cap_watt: match d.power_cap {
                Some(cap) => Some(cap.default),
                None => None,
            },
            _power_cap_watt_range: match d.power_cap {
                Some(cap) => Some([cap.min, cap.max]),
                None => None,
            },
            default_perf_level: None,
            default_profile: None,
            default_fan_target_temperature: None,
            _fan_target_temperature_range: match d.fan_target_temperature {
                Some(t) => Some(t.temp_range),
                None => None,
            },
            default_fan_minimum_pwm: None,
            _fan_minimum_pwm_range: match d.fan_minimum_pwm {
                Some(p) => Some(p.pwm_range),
                None => None,
            },
            sclk_offset: None,
            _sclk_offset_range: match d.sclk_offset {
                Some(o) => o.range,
                None => None,
            },
            vddgfx_offset: None,
            _vddgfx_offset_range: match d.vddgfx_offset {
                Some(o) => o.range,
                None => None,
            },
            fan_zero_rpm: None,
            acoustic_target_rpm_threshold: None,
            _acoustic_target_rpm_threshold_range: None,
            entries,
        };
        assert(is_template(d, &c));
        config_devices.push(c);
        i += 1;
    }
    Config { config_devices }
}

} // verus!
