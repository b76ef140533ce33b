//! The decisions of a tick: which rule wins, whether anything is to be
//! written, and what a device holds afterwards.

use crate::app::{
    always, device_models, opt_request, unless_current, AppDevice, DeviceModel, KnobRequest,
};
use crate::config::{
    opt_text, parsed_entry_views, DeviceDefaults, ParsedConfig, ParsedConfigEntry,
    ParsedConfigEntryView, ParsedConfigPerDevice, ParsedConfigPerDeviceView,
};
use crate::knob::{Knob, KnobKind};
use crate::pci::{contains_pci, has_pci, PciBus};
use vstd::prelude::*;
use vstd::string::*;

verus! {

/// A running process.
#[derive(Debug)]
pub struct ProcEntry {
    pub pid: i32,
    pub name: String,
}

/// A `ProcEntry` with its name as a sequence of characters.
pub struct ProcEntryView {
    pub pid: i32,
    pub name: Seq<char>,
}

impl View for ProcEntry {
    type V = ProcEntryView;

    open spec fn view(&self) -> ProcEntryView {
        ProcEntryView { pid: self.pid, name: self.name@ }
    }
}

/// The views of the processes that a vector holds.
pub open spec fn proc_views(v: Seq<ProcEntry>) -> Seq<ProcEntryView> {
    Seq::new(v.len(), |i: int| v[i]@)
}

/// The index of the first process at or after `from` that has the name
/// `name`.
pub open spec fn first_proc(procs: Seq<ProcEntryView>, name: Seq<char>, from: int) -> Option<int>
    decreases procs.len() - from,
{
    if from < 0 || from >= procs.len() {
        None
    } else if procs[from].name == name {
        Some(from)
    } else {
        first_proc(procs, name, from + 1)
    }
}

/// The rule that wins among those at or after `from`, with the process that
/// it wins by: the first rule, in the order of the list, whose name a
/// process has, and the first process that has it.
pub open spec fn first_rule(
    entries: Seq<ParsedConfigEntryView>,
    procs: Seq<ProcEntryView>,
    from: int,
) -> Option<(int, i32)>
    decreases entries.len() - from,
{
    if from < 0 || from >= entries.len() {
        None
    } else {
        match first_proc(procs, entries[from].name, 0) {
            Some(j) => Some((from, procs[j].pid)),
            None => first_rule(entries, procs, from + 1),
        }
    }
}

/// The first process at or after `from` with a name is a process with that
/// name that none with that name precedes; there is none exactly when no
/// process at or after `from` has the name.
pub proof fn lemma_first_proc(procs: Seq<ProcEntryView>, name: Seq<char>, from: int)
    requires
        0 <= from,
    ensures
        first_proc(procs, name, from) matches Some(j) ==> from <= j < procs.len() && procs[j].name
            == name && forall|k: int| from <= k < j ==> (#[trigger] procs[k]).name != name,
        first_proc(procs, name, from) is None ==> forall|k: int|
            from <= k < procs.len() ==> (#[trigger] procs[k]).name != name,
    decreases procs.len() - from,
{
    if from < procs.len() && procs[from].name != name {
        lemma_first_proc(procs, name, from + 1);
    }
}

/// First match wins. The winning rule is a rule whose name a process has,
/// no rule before it has a name that a process has, and the process that it
/// wins by is the first with its name. No rule wins exactly when no process
/// has the name of a rule.
pub proof fn lemma_first_rule(
    entries: Seq<ParsedConfigEntryView>,
    procs: Seq<ProcEntryView>,
    from: int,
)
    requires
        0 <= from,
    ensures
        first_rule(entries, procs, from) matches Some((rule, pid)) ==> {
            &&& from <= rule < entries.len()
            &&& first_proc(procs, entries[rule].name, 0) matches Some(j) && procs[j].pid == pid
            &&& forall|i: int|
                from <= i < rule ==> first_proc(procs, (#[trigger] entries[i]).name, 0) is None
        },
        first_rule(entries, procs, from) is None ==> forall|i: int, j: int|
            from <= i < entries.len() && 0 <= j < procs.len() ==> (#[trigger] entries[i]).name
                != (#[trigger] procs[j]).name,
    decreases entries.len() - from,
{
    if from < entries.len() {
        lemma_first_proc(procs, entries[from].name, 0);
        if first_proc(procs, entries[from].name, 0) is None {
            lemma_first_rule(entries, procs, from + 1);
        }
    }
}

/// Of two rules whose processes both run, the earlier one wins: where the
/// process `j` has the name of the rule `i`, a rule wins, and it is not
/// after `i`.
pub proof fn lemma_earlier_rule_wins(
    entries: Seq<ParsedConfigEntryView>,
    procs: Seq<ProcEntryView>,
    i: int,
    j: int,
)
    requires
        0 <= i < entries.len(),
        0 <= j < procs.len(),
        procs[j].name == entries[i].name,
    ensures
        first_rule(entries, procs, 0) matches Some((rule, pid)) && rule <= i,
{
    lemma_first_rule(entries, procs, 0);
    match first_rule(entries, procs, 0) {
        Some((rule, pid)) => {
            if rule > i {
                lemma_first_proc(procs, entries[i].name, 0);
            }
        },
        None => {},
    }
}

/// The winning rule does not depend on the order in which the processes are
/// listed: two lists that hold processes of the same names give the same
/// rule.
pub proof fn lemma_winner_ignores_process_order(
    entries: Seq<ParsedConfigEntryView>,
    a: Seq<ProcEntryView>,
    b: Seq<ProcEntryView>,
)
    requires
        forall|i: int| 0 <= i < a.len() ==> exists|j: int| 0 <= j < b.len() && b[j].name == (#[trigger] a[i]).name,
        forall|j: int| 0 <= j < b.len() ==> exists|i: int| 0 <= i < a.len() && a[i].name == (#[trigger] b[j]).name,
    ensures
        first_rule(entries, a, 0) is Some <==> first_rule(entries, b, 0) is Some,
        first_rule(entries, a, 0) is Some ==> first_rule(entries, a, 0).unwrap().0 == first_rule(
            entries,
            b,
            0,
        ).unwrap().0,
{
    lemma_first_rule(entries, a, 0);
    lemma_first_rule(entries, b, 0);
    match (first_rule(entries, a, 0), first_rule(entries, b, 0)) {
        (Some((ra, _)), Some((rb, _))) => {
            lemma_first_proc(a, entries[ra].name, 0);
            lemma_first_proc(b, entries[rb].name, 0);
            let ja = first_proc(a, entries[ra].name, 0).unwrap();
            let jb = first_proc(b, entries[rb].name, 0).unwrap();
            if ra < rb {
                let j = choose|j: int| 0 <= j < b.len() && b[j].name == a[ja].name;
                lemma_first_proc(b, entries[ra].name, 0);
            } else if rb < ra {
                let i = choose|i: int| 0 <= i < a.len() && a[i].name == b[jb].name;
                lemma_first_proc(a, entries[rb].name, 0);
            }
        },
        (Some((ra, _)), None) => {
            lemma_first_proc(a, entries[ra].name, 0);
            let ja = first_proc(a, entries[ra].name, 0).unwrap();
            let j = choose|j: int| 0 <= j < b.len() && b[j].name == a[ja].name;
            assert(entries[ra].name != b[j].name);
        },
        (None, Some((rb, _))) => {
            lemma_first_proc(b, entries[rb].name, 0);
            let jb = first_proc(b, entries[rb].name, 0).unwrap();
            let i = choose|i: int| 0 <= i < a.len() && a[i].name == b[jb].name;
            assert(entries[rb].name != a[i].name);
        },
        (None, None) => {},
    }
}

/// A rule with the process that it wins by.
#[derive(Clone, Copy, Debug, PartialEq, Eq, Structural)]
pub struct RuleMatch {
    pub rule: usize,
    pub pid: i32,
}

/// The first process with the name `name`.
pub fn find_proc(procs: &Vec<ProcEntry>, name: &String) -> (r: Option<usize>)
    ensures
        r.is_some() == first_proc(proc_views(procs@), name@, 0).is_some(),
        r matches Some(j) ==> j < procs.len() && first_proc(proc_views(procs@), name@, 0) == Some(
            j as int,
        ),
{
    let mut j: usize = 0;
    while j < procs.len()
        invariant
            j <= procs.len(),
            first_proc(proc_views(procs@), name@, 0) == first_proc(
                proc_views(procs@),
                name@,
                j as int,
            ),
        decreases procs.len() - j,
    {
        assert(proc_views(procs@)[j as int] == procs@[j as int]@);
        if procs[j].name == *name {
            return Some(j);
        }
        j += 1;
    }
    None
}

/// The rule that wins, with the process that it wins by.
pub fn find_match(entries: &Vec<ParsedConfigEntry>, procs: &Vec<ProcEntry>) -> (r: Option<
    RuleMatch,
>)
    ensures
        r.is_some() == first_rule(parsed_entry_views(entries@), proc_views(procs@), 0).is_some(),
        r matches Some(m) ==> m.rule < entries.len() && first_rule(
            parsed_entry_views(entries@),
            proc_views(procs@),
            0,
        ) == Some((m.rule as int, m.pid)),
{
    let mut i: usize = 0;
    while i < entries.len()
        invariant
            i <= entries.len(),
            first_rule(parsed_entry_views(entries@), proc_views(procs@), 0) == first_rule(
                parsed_entry_views(entries@),
                proc_views(procs@),
                i as int,
            ),
        decreases entries.len() - i,
    {
        assert(parsed_entry_views(entries@)[i as int] == entries@[i as int]@);
        match find_proc(procs, &entries[i].name) {
            Some(j) => {
                assert(proc_views(procs@)[j as int] == procs@[j as int]@);
                return Some(RuleMatch { rule: i, pid: procs[j].pid });
            },
            None => {},
        }
        i += 1;
    }
    None
}

/// What a tick is to do with a device.
#[derive(Clone, Copy, Debug, PartialEq, Eq, Structural)]
pub enum TickPlan {
    /// Nothing: no rule is to be put in force or taken out of force.
    Idle,
    /// Put the rule `rule` in force, which the process `pid` asks for.
    Apply { rule: usize, pid: i32 },
    /// Bring the device back to its defaults.
    Restore,
}

/// What a tick is to do with a device that has the rules `entries` and holds
/// `cache_pid`, while the processes `procs` run. A device without rules is
/// left alone. Otherwise the process of the winning rule is compared with
/// the one held: where they are the same, or there is neither, nothing is
/// to be done.
pub open spec fn plan_of(
    entries: Seq<ParsedConfigEntryView>,
    cache_pid: Option<i32>,
    procs: Seq<ProcEntryView>,
) -> TickPlan {
    if entries.len() == 0 {
        TickPlan::Idle
    } else {
        match first_rule(entries, procs, 0) {
            Some((rule, pid)) => if cache_pid == Some(pid) {
                TickPlan::Idle
            } else {
                TickPlan::Apply { rule: rule as usize, pid }
            },
            None => if cache_pid is Some {
                TickPlan::Restore
            } else {
                TickPlan::Idle
            },
        }
    }
}

/// The process that a device holds after a plan was carried out.
pub open spec fn pid_after(plan: TickPlan, cache_pid: Option<i32>) -> Option<i32> {
    match plan {
        TickPlan::Idle => cache_pid,
        TickPlan::Apply { rule, pid } => Some(pid),
        TickPlan::Restore => None,
    }
}

/// The process that a device holds after `n` ticks on which it was active,
/// while the same processes run.
pub open spec fn pid_after_ticks(
    entries: Seq<ParsedConfigEntryView>,
    cache_pid: Option<i32>,
    procs: Seq<ProcEntryView>,
    n: nat,
) -> Option<i32>
    decreases n,
{
    if n == 0 {
        cache_pid
    } else {
        let before = pid_after_ticks(entries, cache_pid, procs, (n - 1) as nat);
        pid_after(plan_of(entries, before, procs), before)
    }
}

/// A tick that was carried out leaves nothing to do: while the same
/// processes run, the next tick is idle.
pub proof fn lemma_idle_after_tick(
    entries: Seq<ParsedConfigEntryView>,
    cache_pid: Option<i32>,
    procs: Seq<ProcEntryView>,
)
    ensures
        plan_of(entries, pid_after(plan_of(entries, cache_pid, procs), cache_pid), procs)
            == TickPlan::Idle,
{
}

/// While the same processes run, every tick after the first is idle, and
/// the device holds what the first tick left: the number of writes does not
/// grow with the number of ticks.
pub proof fn lemma_idle_after_first_tick(
    entries: Seq<ParsedConfigEntryView>,
    cache_pid: Option<i32>,
    procs: Seq<ProcEntryView>,
    n: nat,
)
    requires
        n >= 1,
    ensures
        plan_of(entries, pid_after_ticks(entries, cache_pid, procs, n), procs) == TickPlan::Idle,
        pid_after_ticks(entries, cache_pid, procs, n) == pid_after_ticks(
            entries,
            cache_pid,
            procs,
            1,
        ),
    decreases n,
{
    reveal_with_fuel(pid_after_ticks, 2);
    if n > 1 {
        lemma_idle_after_first_tick(entries, cache_pid, procs, (n - 1) as nat);
    }
}

impl AppDevice {
    /// What a tick is to do with this device while `procs` run.
    pub open spec fn spec_plan(&self, procs: Seq<ProcEntryView>) -> TickPlan {
        plan_of(self.config_device@.entries, self.cache_pid, procs)
    }

    /// Decides what a tick is to do with this device. The decision reads
    /// nothing of the device itself.
    pub fn plan(&self, procs: &Vec<ProcEntry>) -> (r: TickPlan)
        ensures
            r == self.spec_plan(proc_views(procs@)),
            r matches TickPlan::Apply { rule, pid } ==> rule < self.config_device.entries.len(),
    {
        if self.config_device.entries.len() == 0 {
            return TickPlan::Idle;
        }
        match find_match(&self.config_device.entries, procs) {
            Some(m) => {
                let held = match self.cache_pid {
                    Some(pid) => pid == m.pid,
                    None => false,
                };
                if held {
                    TickPlan::Idle
                } else {
                    TickPlan::Apply { rule: m.rule, pid: m.pid }
                }
            },
            None => if self.cache_pid.is_some() {
                TickPlan::Restore
            } else {
                TickPlan::Idle
            },
        }
    }

    /// What a tick asks to be written. A device that is not active is left
    /// alone, whatever the plan.
    pub open spec fn tick_requests(&self, procs: Seq<ProcEntryView>, active: bool) -> Seq<
        KnobRequest,
    > {
        if !active {
            Seq::empty()
        } else {
            match self.spec_plan(procs) {
                TickPlan::Idle => Seq::empty(),
                TickPlan::Apply { rule, pid } => self.override_requests(
                    self.config_device@.entries[rule as int],
                ),
                TickPlan::Restore => self.default_requests(),
            }
        }
    }

    /// The process and the rule that the device holds after a tick. A device
    /// that is not active holds what it held.
    pub open spec fn cache_after(&self, procs: Seq<ProcEntryView>, active: bool) -> (
        Option<i32>,
        Option<Seq<char>>,
    ) {
        if !active {
            (self.cache_pid, opt_text(self.cache_name))
        } else {
            match self.spec_plan(procs) {
                TickPlan::Idle => (self.cache_pid, opt_text(self.cache_name)),
                TickPlan::Apply { rule, pid } => (
                    Some(pid),
                    Some(self.config_device@.entries[rule as int].name),
                ),
                TickPlan::Restore => (None, None),
            }
        }
    }

    /// One tick: decides what is to be done while `procs` run, notes what
    /// the device holds from now on, and returns what is to be written.
    /// `active` says whether the device is awake; it need only be known
    /// where the plan is not idle.
    pub fn tick(&mut self, procs: &Vec<ProcEntry>, active: bool) -> (r: Vec<KnobRequest>)
        ensures
            r@ == old(self).tick_requests(proc_views(procs@), active),
            (final(self).cache_pid, opt_text(final(self).cache_name)) == old(self).cache_after(
                proc_views(procs@),
                active,
            ),
            old(self).wf() ==> final(self).wf(),
            final(self).amdgpu_device == old(self).amdgpu_device,
            final(self).config_device == old(self).config_device,
            final(self).changed_default_config == old(self).changed_default_config,
    {
        if !active {
            return Vec::new();
        }
        match self.plan(procs) {
            TickPlan::Idle => Vec::new(),
            TickPlan::Apply { rule, pid } => {
                assert(parsed_entry_views(self.config_device.entries@)[rule as int]
                    == self.config_device.entries@[rule as int]@);
                let requests = self.apply_config(&self.config_device.entries[rule]);
                let name = self.config_device.entries[rule].name.clone();
                self.cache_pid = Some(pid);
                self.cache_name = Some(name);
                requests
            },
            TickPlan::Restore => {
                let requests = self.set_default_od_config();
                self.cache_pid = None;
                self.cache_name = None;
                requests
            },
        }
    }
}

/// The value that a knob takes by the defaults `d`, where it has one.
pub open spec fn default_knob(d: DeviceDefaults, kind: KnobKind) -> Option<Knob> {
    match kind {
        KnobKind::PerformanceLevel => Some(Knob::PerformanceLevel(d.perf_level)),
        KnobKind::PowerProfile => Some(Knob::PowerProfile(d.profile)),
        KnobKind::PowerCapWatts => match d.power_cap_watt {
            Some(v) => Some(Knob::PowerCapWatts(v)),
            None => None,
        },
        KnobKind::FanTargetTempC => match d.fan_target_temperature {
            Some(v) => Some(Knob::FanTargetTempC(v)),
            None => None,
        },
        KnobKind::FanMinimumPwmPercent => match d.fan_minimum_pwm {
            Some(v) => Some(Knob::FanMinimumPwmPercent(v)),
            None => None,
        },
        KnobKind::FanZeroRpmEnabled => match d.fan_zero_rpm {
            Some(v) => Some(Knob::FanZeroRpmEnabled(v)),
            None => None,
        },
        KnobKind::FanTargetRpm => match d.acoustic_target_rpm_threshold {
            Some(v) => Some(Knob::FanTargetRpm(v)),
            None => None,
        },
        KnobKind::ClockOffsetMHz => match d.sclk_offset {
            Some(v) => Some(Knob::ClockOffsetMHz(v)),
            None => None,
        },
        KnobKind::VoltageOffsetMv => match d.vddgfx_offset {
            Some(v) => Some(Knob::VoltageOffsetMv(v)),
            None => None,
        },
    }
}

/// Every request that brings a device to its defaults asks for the default
/// that is configured for its knob.
pub proof fn lemma_default_requests_are_defaults(dev: AppDevice)
    ensures
        forall|k: int|
            0 <= k < dev.default_requests().len() ==> default_knob(
                dev.config_device@.defaults,
                (#[trigger] dev.default_requests()[k]).knob.spec_kind(),
            ) == Some(dev.default_requests()[k].knob),
{
    let d = dev.config_device@.defaults;
    let s0 = seq![
        unless_current(Knob::PerformanceLevel(dev.config_device.default_perf_level)),
        unless_current(Knob::PowerProfile(dev.config_device.default_profile)),
    ];
    assert(all_defaults(s0, d));
    lemma_all_defaults_add(s0, dev.default_power_cap(), d);
    let s1 = s0 + opt_request(dev.default_power_cap());
    lemma_all_defaults_add(s1, dev.default_fan_target_temp(), d);
    let s2 = s1 + opt_request(dev.default_fan_target_temp());
    lemma_all_defaults_add(s2, dev.default_fan_minimum_pwm(), d);
    let s3 = s2 + opt_request(dev.default_fan_minimum_pwm());
    lemma_all_defaults_add(s3, dev.fan_zero_rpm(), d);
    let s4 = s3 + opt_request(dev.fan_zero_rpm());
    lemma_all_defaults_add(s4, dev.default_fan_target_rpm(), d);
    let s5 = s4 + opt_request(dev.default_fan_target_rpm());
    lemma_all_defaults_add(s5, dev.sclk_offset(), d);
    let s6 = s5 + opt_request(dev.sclk_offset());
    lemma_all_defaults_add(s6, dev.vddgfx_offset(), d);
    let s7 = s6 + opt_request(dev.vddgfx_offset());
    assert(s7 == dev.default_requests());
}

/// Every request of `s` asks for the default of its knob.
pub open spec fn all_defaults(s: Seq<KnobRequest>, d: DeviceDefaults) -> bool {
    forall|k: int|
        0 <= k < s.len() ==> default_knob(d, (#[trigger] s[k]).knob.spec_kind()) == Some(s[k].knob)
}

proof fn lemma_all_defaults_add(s: Seq<KnobRequest>, r: Option<KnobRequest>, d: DeviceDefaults)
    requires
        all_defaults(s, d),
        r matches Some(r) ==> default_knob(d, r.knob.spec_kind()) == Some(r.knob),
    ensures
        all_defaults(s + opt_request(r), d),
{
    let t = s + opt_request(r);
    assert forall|k: int| 0 <= k < t.len() implies default_knob(
        d,
        (#[trigger] t[k]).knob.spec_kind(),
    ) == Some(t[k].knob) by {
        if k < s.len() {
            assert(t[k] == s[k]);
        }
    }
}

/// When the process of the rule in force is gone and no other rule's
/// process runs, the next tick of the active device brings it back to the
/// defaults that are configured for it: it asks for exactly the requests of
/// the defaults, each for the configured default of its knob, and the device
/// holds no process afterwards.
pub proof fn lemma_restore_sets_defaults(dev: AppDevice, procs: Seq<ProcEntryView>)
    requires
        dev.cache_pid is Some,
        dev.config_device@.entries.len() > 0,
        first_rule(dev.config_device@.entries, procs, 0) is None,
    ensures
        dev.spec_plan(procs) == TickPlan::Restore,
        dev.tick_requests(procs, true) == dev.default_requests(),
        dev.cache_after(procs, true) == (None::<i32>, None::<Seq<char>>),
        forall|k: int|
            0 <= k < dev.default_requests().len() ==> default_knob(
                dev.config_device@.defaults,
                (#[trigger] dev.default_requests()[k]).knob.spec_kind(),
            ) == Some(dev.default_requests()[k].knob),
        dev.config_device.default_power_cap_watt matches Some(watts) ==> dev.default_requests()[2]
            == unless_current(Knob::PowerCapWatts(watts)),
{
    lemma_default_requests_are_defaults(dev);
}

/// A device holds a process exactly when the last thing done to it was to
/// put a rule in force: after a tick that did something, the device holds
/// a process where the tick put a rule in force, and none where it brought
/// the defaults back.
pub proof fn lemma_holds_process_iff_rule_in_force(dev: AppDevice, procs: Seq<ProcEntryView>)
    requires
        dev.spec_plan(procs) != TickPlan::Idle,
    ensures
        dev.cache_after(procs, true).0 is Some <==> dev.spec_plan(procs) is Apply,
        dev.cache_after(procs, true).0 is Some <==> dev.cache_after(procs, true).1 is Some,
        dev.cache_after(procs, false) == (dev.cache_pid, opt_text(dev.cache_name)),
{
}

/// A tick of an active device leaves nothing to do: while the same
/// processes run and the settings stay, the next tick asks for no write and
/// the device holds what it held, whether it is active then or not.
pub proof fn lemma_tick_settles(
    before: AppDevice,
    after: AppDevice,
    procs: Seq<ProcEntryView>,
    active: bool,
)
    requires
        after.config_device@ == before.config_device@,
        (after.cache_pid, opt_text(after.cache_name)) == before.cache_after(procs, true),
    ensures
        after.spec_plan(procs) == TickPlan::Idle,
        after.tick_requests(procs, active) == Seq::<KnobRequest>::empty(),
        after.cache_after(procs, active) == (after.cache_pid, opt_text(after.cache_name)),
{
}

/// What a reload did with the settings of one device.
#[derive(Clone, Copy, Debug, PartialEq, Eq, Structural)]
pub enum ReloadStep {
    /// The device `device` took the settings over. Its defaults are to be
    /// set again where they changed while no rule is in force.
    Updated { device: usize, reapply_defaults: bool },
    /// No device had the address of the settings `config` when the reload
    /// began: one is to be made for them, unless one was made for earlier
    /// settings of this reload, which `adopt` then gives them to.
    Create { config: usize },
}

/// The index of the first device at or after `from` that has the address
/// `pci`.
pub open spec fn device_at(ds: Seq<DeviceModel>, pci: PciBus, from: int) -> Option<int>
    decreases ds.len() - from,
{
    if from < 0 || from >= ds.len() {
        None
    } else if ds[from].amdgpu_device.pci_bus == pci {
        Some(from)
    } else {
        device_at(ds, pci, from + 1)
    }
}

proof fn lemma_device_at(ds: Seq<DeviceModel>, pci: PciBus, from: int)
    requires
        0 <= from,
    ensures
        device_at(ds, pci, from) matches Some(j) ==> from <= j < ds.len()
            && ds[j].amdgpu_device.pci_bus == pci,
        device_at(ds, pci, from) is None ==> forall|k: int|
            from <= k < ds.len() ==> (#[trigger] ds[k]).amdgpu_device.pci_bus != pci,
    decreases ds.len() - from,
{
    if from < ds.len() && ds[from].amdgpu_device.pci_bus != pci {
        lemma_device_at(ds, pci, from + 1);
    }
}

/// The devices after the settings `cfg`, which stand at `index` in the
/// configuration, were taken in, and what was done. The first device with
/// the address of the settings takes them over and notes whether its
/// defaults changed; nothing else of it changes, and no other device
/// changes.
pub open spec fn reload_one(ds: Seq<DeviceModel>, cfg: ParsedConfigPerDeviceView, index: int) -> (
    Seq<DeviceModel>,
    ReloadStep,
) {
    match device_at(ds, cfg.pci, 0) {
        Some(j) => {
            let changed = ds[j].config.defaults != cfg.defaults;
            (
                ds.update(j, DeviceModel { config: cfg, changed_default_config: changed, ..ds[j] }),
                ReloadStep::Updated {
                    device: j as usize,
                    reapply_defaults: changed && ds[j].cache_pid is None,
                },
            )
        },
        None => (ds, ReloadStep::Create { config: index as usize }),
    }
}

/// The devices after all the settings `cfgs` were taken in, in order, and
/// what was done for each.
pub open spec fn reload_all(ds: Seq<DeviceModel>, cfgs: Seq<ParsedConfigPerDeviceView>) -> (
    Seq<DeviceModel>,
    Seq<ReloadStep>,
)
    decreases cfgs.len(),
{
    if cfgs.len() == 0 {
        (ds, Seq::empty())
    } else {
        let (before, steps) = reload_all(ds, cfgs.drop_last());
        let (after, step) = reload_one(before, cfgs.last(), cfgs.len() - 1);
        (after, steps.push(step))
    }
}

/// The index of the first settings at or after `from` whose address neither
/// a device has nor the hardware.
pub open spec fn first_absent(
    ds: Seq<DeviceModel>,
    cfgs: Seq<ParsedConfigPerDeviceView>,
    hardware: Seq<PciBus>,
    from: int,
) -> Option<int>
    decreases cfgs.len() - from,
{
    if from < 0 || from >= cfgs.len() {
        None
    } else if device_at(ds, cfgs[from].pci, 0) is None && !has_pci(hardware, cfgs[from].pci) {
        Some(from)
    } else {
        first_absent(ds, cfgs, hardware, from + 1)
    }
}

/// A reload touches neither what a device holds nor the device itself: the
/// devices stay as many, each keeps its address, its knobs, the process and
/// the rule that it holds; and a device whose address is not among the new
/// settings keeps its settings too.
pub proof fn lemma_reload_keeps_cache(ds: Seq<DeviceModel>, cfgs: Seq<ParsedConfigPerDeviceView>)
    ensures
        reload_all(ds, cfgs).0.len() == ds.len(),
        reload_all(ds, cfgs).1.len() == cfgs.len(),
        forall|i: int|
            0 <= i < ds.len() ==> {
                let after = #[trigger] reload_all(ds, cfgs).0[i];
                &&& after.amdgpu_device == ds[i].amdgpu_device
                &&& after.cache_pid == ds[i].cache_pid
                &&& after.cache_name == ds[i].cache_name
            },
        forall|i: int|
            0 <= i < ds.len() && (forall|k: int|
                0 <= k < cfgs.len() ==> (#[trigger] cfgs[k]).pci != ds[i].amdgpu_device.pci_bus)
                ==> #[trigger] reload_all(ds, cfgs).0[i] == ds[i],
    decreases cfgs.len(),
{
    if cfgs.len() > 0 {
        let front = cfgs.drop_last();
        lemma_reload_keeps_cache(ds, front);
        let before = reload_all(ds, front).0;
        lemma_device_at(before, cfgs.last().pci, 0);
        assert forall|i: int|
            0 <= i < ds.len() && (forall|k: int|
                0 <= k < cfgs.len() ==> (#[trigger] cfgs[k]).pci
                    != ds[i].amdgpu_device.pci_bus) implies #[trigger] reload_all(ds, cfgs).0[i]
            == ds[i] by {
            assert forall|k: int| 0 <= k < front.len() implies (#[trigger] front[k]).pci
                != ds[i].amdgpu_device.pci_bus by {
                assert(front[k] == cfgs[k]);
            }
            assert(before[i] == ds[i]);
            assert(cfgs[cfgs.len() - 1].pci != ds[i].amdgpu_device.pci_bus);
        }
    }
}

/// The first device that has the address `pci`.
pub fn find_device(devices: &Vec<AppDevice>, pci: &PciBus) -> (r: Option<usize>)
    ensures
        r.is_some() == device_at(device_models(devices@), *pci, 0).is_some(),
        r matches Some(j) ==> j < devices.len() && device_at(device_models(devices@), *pci, 0)
            == Some(j as int),
{
    let mut j: usize = 0;
    while j < devices.len()
        invariant
            j <= devices.len(),
            device_at(device_models(devices@), *pci, 0) == device_at(
                device_models(devices@),
                *pci,
                j as int,
            ),
        decreases devices.len() - j,
    {
        assert(device_models(devices@)[j as int] == devices@[j as int]@);
        if devices[j].amdgpu_device.pci_bus == *pci {
            return Some(j);
        }
        j += 1;
    }
    None
}

/// What `adopt` leaves of the devices `ds`, and what it returns: where a
/// device has the address of the settings, what `reload_one` does; else
/// nothing.
pub open spec fn adopted(ds: Seq<DeviceModel>, cfg: ParsedConfigPerDeviceView) -> (
    Seq<DeviceModel>,
    Option<ReloadStep>,
) {
    if device_at(ds, cfg.pci, 0) is Some {
        (reload_one(ds, cfg, 0).0, Some(reload_one(ds, cfg, 0).1))
    } else {
        (ds, None)
    }
}

/// Gives the settings `cfg` to the first device that has their address.
/// The device takes them over and notes whether its defaults changed, as
/// in a reload; its defaults are to be set again where they changed while
/// no rule is in force. Where no device has the address, nothing changes
/// and nothing is returned.
pub fn adopt(devices: &mut Vec<AppDevice>, cfg: &ParsedConfigPerDevice) -> (r: Option<ReloadStep>)
    ensures
        (device_models(final(devices)@), r) == adopted(device_models(old(devices)@), cfg@),
        final(devices).len() == old(devices).len(),
        r is None ==> final(devices)@ == old(devices)@,
{
    let ghost before = device_models(devices@);
    match find_device(devices, &cfg.pci) {
        Some(j) => {
            let dev = &mut devices[j];
            dev.check_changed_default_config(cfg);
            let reapply_defaults = dev.changed_default_config && dev.cache_pid.is_none();
            dev.config_device = cfg.clone();
            proof {
                assert(device_models(devices@) =~= reload_one(before, cfg@, 0).0);
            }
            Some(ReloadStep::Updated { device: j, reapply_defaults })
        },
        None => None,
    }
}

/// Tests that every device of the configuration is there: among `devices`
/// or in the hardware. The error is the address of the first that is not.
pub fn check_devices_present(
    devices: &Vec<AppDevice>,
    config: &ParsedConfig,
    hardware: &Vec<PciBus>,
) -> (r: Result<(), PciBus>)
    ensures
        match r {
            Ok(_) => first_absent(device_models(devices@), config@, hardware@, 0) is None,
            Err(pci) => first_absent(device_models(devices@), config@, hardware@, 0) matches Some(
                k,
            ) && config@[k].pci == pci,
        },
{
    let mut k: usize = 0;
    while k < config.config_devices.len()
        invariant
            k <= config.config_devices.len(),
            first_absent(device_models(devices@), config@, hardware@, 0) == first_absent(
                device_models(devices@),
                config@,
                hardware@,
                k as int,
            ),
        decreases config.config_devices.len() - k,
    {
        assert(config@[k as int] == config.config_devices@[k as int]@);
        let pci = config.config_devices[k].pci;
        if find_device(devices, &pci).is_none() && !contains_pci(hardware, &pci) {
            return Err(pci);
        }
        k += 1;
    }
    Ok(())
}

/// Takes a new configuration in. Where a device of the configuration is
/// neither among `devices` nor in the hardware, nothing changes and the
/// error is its address. Otherwise the settings are taken in one by one, in
/// order, as `reload_all` has it: a device that is there takes over the
/// settings with its address, and for settings without a device the caller
/// is to make one, after it has tried `adopt`, which finds a device that
/// was made for the same address since. What a device holds of the rule in
/// force stays as it is.
pub fn reload(devices: &mut Vec<AppDevice>, config: &ParsedConfig, hardware: &Vec<PciBus>) -> (r:
    Result<Vec<ReloadStep>, PciBus>)
    ensures
        match r {
            Err(pci) => {
                &&& first_absent(device_models(old(devices)@), config@, hardware@, 0) matches Some(
                    k,
                ) && config@[k].pci == pci
                &&& final(devices)@ == old(devices)@
            },
            Ok(steps) => {
                &&& first_absent(device_models(old(devices)@), config@, hardware@, 0) is None
                &&& (device_models(final(devices)@), steps@) == reload_all(
                    device_models(old(devices)@),
                    config@,
                )
            },
        },
        final(devices).len() == old(devices).len(),
        forall|i: int|
            0 <= i < old(devices).len() ==> {
                let after = #[trigger] final(devices)[i];
                &&& after.amdgpu_device == old(devices)[i].amdgpu_device
                &&& after.cache_pid == old(devices)[i].cache_pid
                &&& opt_text(after.cache_name) == opt_text(old(devices)[i].cache_name)
            },
{
    match check_devices_present(devices, config, hardware) {
        Err(pci) => {
            return Err(pci);
        },
        Ok(_) => {},
    }
    let ghost start = device_models(devices@);
    let ghost cfgs = config@;
    let mut steps: Vec<ReloadStep> = Vec::new();
    let mut k: usize = 0;
    proof {
        assert(cfgs.take(0) =~= Seq::<ParsedConfigPerDeviceView>::empty());
    }
    while k < config.config_devices.len()
        invariant
            k <= config.config_devices.len(),
            cfgs == config@,
            devices.len() == start.len(),
            (device_models(devices@), steps@) == reload_all(start, cfgs.take(k as int)),
        decreases config.config_devices.len() - k,
    {
        let ghost before = device_models(devices@);
        let ghost done = steps@;
        proof {
            assert(cfgs.take(k + 1).drop_last() =~= cfgs.take(k as int));
            assert(cfgs.take(k + 1).last() == config.config_devices@[k as int]@);
        }
        let cfg = &config.config_devices[k];
        match adopt(devices, cfg) {
            Some(step) => {
                steps.push(step);
            },
            None => {
                steps.push(ReloadStep::Create { config: k });
            },
        }
        proof {
            assert(steps@ == done.push(reload_one(before, cfg@, k as int).1));
        }
        k += 1;
    }
    proof {
        assert(cfgs.take(k as int) =~= cfgs);
        lemma_reload_keeps_cache(start, cfgs);
        assert forall|i: int| 0 <= i < old(devices).len() implies {
            let after = #[trigger] devices[i];
            &&& after.amdgpu_device == old(devices)[i].amdgpu_device
            &&& after.cache_pid == old(devices)[i].cache_pid
            &&& opt_text(after.cache_name) == opt_text(old(devices)[i].cache_name)
        } by {
            assert(device_models(devices@)[i] == devices@[i]@);
            assert(start[i] == old(devices)@[i]@);
            assert(reload_all(start, cfgs).0[i].cache_pid == start[i].cache_pid);
        }
    }
    Ok(steps)
}

/// Every request of `s` but one for the power cap asks for a knob that the
/// device has.
pub open spec fn all_supported(s: Seq<KnobRequest>, dev: AppDevice) -> bool {
    forall|k: int|
        0 <= k < s.len() && (#[trigger] s[k]).knob.spec_kind() != KnobKind::PowerCapWatts
            ==> dev.amdgpu_device.spec_supports(s[k].knob.spec_kind())
}

proof fn lemma_all_supported_add(s: Seq<KnobRequest>, r: Option<KnobRequest>, dev: AppDevice)
    requires
        all_supported(s, dev),
        r matches Some(r) ==> r.knob.spec_kind() == KnobKind::PowerCapWatts
            || dev.amdgpu_device.spec_supports(r.knob.spec_kind()),
    ensures
        all_supported(s + opt_request(r), dev),
{
    let t = s + opt_request(r);
    assert forall|k: int|
        0 <= k < t.len() && (#[trigger] t[k]).knob.spec_kind()
            != KnobKind::PowerCapWatts implies dev.amdgpu_device.spec_supports(
        t[k].knob.spec_kind(),
    ) by {
        if k < s.len() {
            assert(t[k] == s[k]);
        }
    }
}

/// The knobs that a device has are looked at before anything is asked for:
/// a tick asks only for knobs that the device has. The one exception is the
/// power cap, which is tried on every device; where the device has none,
/// the request fails by itself when its value in force cannot be read.
pub proof fn lemma_requests_are_supported(dev: AppDevice, procs: Seq<ProcEntryView>, active: bool)
    ensures
        all_supported(dev.tick_requests(procs, active), dev),
        all_supported(dev.default_requests(), dev),
        forall|entry: ParsedConfigEntryView|
            all_supported(#[trigger] dev.override_requests(entry), dev),
{
    let e: Seq<KnobRequest> = Seq::empty();
    assert forall|entry: ParsedConfigEntryView|
        all_supported(#[trigger] dev.override_requests(entry), dev) by {
        let p0 = match entry.perf_level {
            Some(level) => Some(always(Knob::PerformanceLevel(level))),
            None => None,
        };
        let p1 = match entry.profile {
            Some(profile) => Some(always(Knob::PowerProfile(profile))),
            None => None,
        };
        let p2 = match entry.power_cap_watt {
            Some(watts) => Some(unless_current(Knob::PowerCapWatts(watts))),
            None => None,
        };
        let p3 = match entry.fan_target_temperature {
            Some(target_temp) => dev.fan_target_temp(target_temp),
            None => None,
        };
        let p4 = match entry.fan_minimum_pwm {
            Some(minimum_pwm) => dev.fan_minimum_pwm(minimum_pwm),
            None => None,
        };
        let p5 = match entry.acoustic_target_rpm_threshold {
            Some(fan_target_rpm) => dev.fan_target_rpm(fan_target_rpm),
            None => None,
        };
        assert(all_supported(opt_request(p0), dev));
        lemma_all_supported_add(opt_request(p0), p1, dev);
        lemma_all_supported_add(opt_request(p0) + opt_request(p1), p2, dev);
        lemma_all_supported_add(opt_request(p0) + opt_request(p1) + opt_request(p2), p3, dev);
        lemma_all_supported_add(
            opt_request(p0) + opt_request(p1) + opt_request(p2) + opt_request(p3),
            p4,
            dev,
        );
        lemma_all_supported_add(
            opt_request(p0) + opt_request(p1) + opt_request(p2) + opt_request(p3) + opt_request(
                p4,
            ),
            p5,
            dev,
        );
    }
    let s0 = seq![
        unless_current(Knob::PerformanceLevel(dev.config_device.default_perf_level)),
        unless_current(Knob::PowerProfile(dev.config_device.default_profile)),
    ];
    assert(all_supported(s0, dev));
    lemma_all_supported_add(s0, dev.default_power_cap(), dev);
    let s1 = s0 + opt_request(dev.default_power_cap());
    lemma_all_supported_add(s1, dev.default_fan_target_temp(), dev);
    let s2 = s1 + opt_request(dev.default_fan_target_temp());
    lemma_all_supported_add(s2, dev.default_fan_minimum_pwm(), dev);
    let s3 = s2 + opt_request(dev.default_fan_minimum_pwm());
    lemma_all_supported_add(s3, dev.fan_zero_rpm(), dev);
    let s4 = s3 + opt_request(dev.fan_zero_rpm());
    lemma_all_supported_add(s4, dev.default_fan_target_rpm(), dev);
    let s5 = s4 + opt_request(dev.default_fan_target_rpm());
    lemma_all_supported_add(s5, dev.sclk_offset(), dev);
    let s6 = s5 + opt_request(dev.sclk_offset());
    lemma_all_supported_add(s6, dev.vddgfx_offset(), dev);
    assert(s6 + opt_request(dev.vddgfx_offset()) == dev.default_requests());
    assert(all_supported(e, dev));
}

/// The process that a name is running as: the first process with that
/// name.
pub open spec fn first_pid(procs: Seq<ProcEntryView>, name: Seq<char>) -> Option<i32> {
    match first_proc(procs, name, 0) {
        Some(j) => Some(procs[j].pid),
        None => None,
    }
}

/// The processes of `procs` whose names are among `names`, in order.
pub open spec fn with_names(procs: Seq<ProcEntryView>, names: Set<Seq<char>>) -> Seq<
    ProcEntryView,
>
    decreases procs.len(),
{
    if procs.len() == 0 {
        procs
    } else if names.contains(procs.last().name) {
        with_names(procs.drop_last(), names).push(procs.last())
    } else {
        with_names(procs.drop_last(), names)
    }
}

proof fn lemma_first_pid_push(s: Seq<ProcEntryView>, p: ProcEntryView, name: Seq<char>)
    ensures
        first_pid(s.push(p), name) == if first_pid(s, name) is Some {
            first_pid(s, name)
        } else if p.name == name {
            Some(p.pid)
        } else {
            None
        },
{
    let t = s.push(p);
    lemma_first_proc(s, name, 0);
    lemma_first_proc(t, name, 0);
    match first_proc(s, name, 0) {
        Some(j) => {
            assert(t[j] == s[j]);
            match first_proc(t, name, 0) {
                Some(k) => {
                    if k < j {
                        assert(t[k] == s[k]);
                    }
                },
                None => {},
            }
        },
        None => {
            match first_proc(t, name, 0) {
                Some(k) => {
                    if k < s.len() {
                        assert(t[k] == s[k]);
                    }
                },
                None => {
                    assert(t[s.len() as int] == p);
                },
            }
        },
    }
}

proof fn lemma_first_pid_with_names(
    procs: Seq<ProcEntryView>,
    names: Set<Seq<char>>,
    name: Seq<char>,
)
    requires
        names.contains(name),
    ensures
        first_pid(with_names(procs, names), name) == first_pid(procs, name),
    decreases procs.len(),
{
    if procs.len() > 0 {
        let front = procs.drop_last();
        let last = procs.last();
        lemma_first_pid_with_names(front, names, name);
        assert(procs =~= front.push(last));
        lemma_first_pid_push(front, last, name);
        if names.contains(last.name) {
            lemma_first_pid_push(with_names(front, names), last, name);
        }
    }
}

proof fn lemma_first_rule_by_pids(
    entries: Seq<ParsedConfigEntryView>,
    a: Seq<ProcEntryView>,
    b: Seq<ProcEntryView>,
    from: int,
)
    requires
        0 <= from,
        forall|i: int|
            from <= i < entries.len() ==> first_pid(a, (#[trigger] entries[i]).name) == first_pid(
                b,
                entries[i].name,
            ),
    ensures
        first_rule(entries, a, from) == first_rule(entries, b, from),
    decreases entries.len() - from,
{
    if from < entries.len() {
        assert(first_pid(a, entries[from].name) == first_pid(b, entries[from].name));
        lemma_first_rule_by_pids(entries, a, b, from + 1);
    }
}

/// The processes may be listed with a filter: where only the processes are
/// listed whose names are among `names`, and the names of all rules are
/// among them, the same rule wins by the same process, and a tick decides
/// the same.
pub proof fn lemma_name_filter_keeps_winner(
    entries: Seq<ParsedConfigEntryView>,
    cache_pid: Option<i32>,
    procs: Seq<ProcEntryView>,
    names: Set<Seq<char>>,
)
    requires
        forall|i: int| 0 <= i < entries.len() ==> names.contains((#[trigger] entries[i]).name),
    ensures
        first_rule(entries, with_names(procs, names), 0) == first_rule(entries, procs, 0),
        plan_of(entries, cache_pid, with_names(procs, names)) == plan_of(entries, cache_pid, procs),
{
    assert forall|i: int| 0 <= i < entries.len() implies first_pid(
        with_names(procs, names),
        (#[trigger] entries[i]).name,
    ) == first_pid(procs, entries[i].name) by {
        lemma_first_pid_with_names(procs, names, entries[i].name);
    }
    lemma_first_rule_by_pids(entries, with_names(procs, names), procs, 0);
}

proof fn lemma_contains_add(a: Seq<KnobRequest>, b: Seq<KnobRequest>, x: KnobRequest)
    requires
        a.contains(x) || b.contains(x),
    ensures
        (a + b).contains(x),
{
    if a.contains(x) {
        let i = choose|i: int| 0 <= i < a.len() && a[i] == x;
        assert((a + b)[i] == x);
    } else {
        let i = choose|i: int| 0 <= i < b.len() && b[i] == x;
        assert((a + b)[a.len() + i] == x);
    }
}

/// Every value of a rule is asked for, whatever becomes of the others: the
/// requests that put a rule in force hold one for each value of the rule
/// whose knob the device has, and one for the power cap on every device.
pub proof fn lemma_every_override_is_asked_for(dev: AppDevice, entry: ParsedConfigEntryView)
    ensures
        entry.perf_level matches Some(v) ==> dev.override_requests(entry).contains(
            always(Knob::PerformanceLevel(v)),
        ),
        entry.profile matches Some(v) ==> dev.override_requests(entry).contains(
            always(Knob::PowerProfile(v)),
        ),
        entry.power_cap_watt matches Some(v) ==> dev.override_requests(entry).contains(
            unless_current(Knob::PowerCapWatts(v)),
        ),
        dev.amdgpu_device.spec_supports(KnobKind::FanTargetTempC) ==> (
        entry.fan_target_temperature matches Some(v) ==> dev.override_requests(entry).contains(
            always(Knob::FanTargetTempC(v)),
        )),
        dev.amdgpu_device.spec_supports(KnobKind::FanMinimumPwmPercent) ==> (
        entry.fan_minimum_pwm matches Some(v) ==> dev.override_requests(entry).contains(
            always(Knob::FanMinimumPwmPercent(v)),
        )),
        dev.amdgpu_device.spec_supports(KnobKind::FanTargetRpm) ==> (
        entry.acoustic_target_rpm_threshold matches Some(v) ==> dev.override_requests(
            entry,
        ).contains(always(Knob::FanTargetRpm(v)))),
{
    let p0 = opt_request(
        match entry.perf_level {
            Some(level) => Some(always(Knob::PerformanceLevel(level))),
            None => None,
        },
    );
    let p1 = opt_request(
        match entry.profile {
            Some(profile) => Some(always(Knob::PowerProfile(profile))),
            None => None,
        },
    );
    let p2 = opt_request(
        match entry.power_cap_watt {
            Some(watts) => Some(unless_current(Knob::PowerCapWatts(watts))),
            None => None,
        },
    );
    let p3 = opt_request(
        match entry.fan_target_temperature {
            Some(target_temp) => dev.fan_target_temp(target_temp),
            None => None,
        },
    );
    let p4 = opt_request(
        match entry.fan_minimum_pwm {
            Some(minimum_pwm) => dev.fan_minimum_pwm(minimum_pwm),
            None => None,
        },
    );
    let p5 = opt_request(
        match entry.acoustic_target_rpm_threshold {
            Some(fan_target_rpm) => dev.fan_target_rpm(fan_target_rpm),
            None => None,
        },
    );
    assert(dev.override_requests(entry) == p0 + p1 + p2 + p3 + p4 + p5);
    if let Some(v) = entry.perf_level {
        let x = always(Knob::PerformanceLevel(v));
        assert(p0[0] == x);
        lemma_contains_add(p0, p1, x);
        lemma_contains_add(p0 + p1, p2, x);
        lemma_contains_add(p0 + p1 + p2, p3, x);
        lemma_contains_add(p0 + p1 + p2 + p3, p4, x);
        lemma_contains_add(p0 + p1 + p2 + p3 + p4, p5, x);
    }
    if let Some(v) = entry.profile {
        let x = always(Knob::PowerProfile(v));
        assert(p1[0] == x);
        lemma_contains_add(p0, p1, x);
        lemma_contains_add(p0 + p1, p2, x);
        lemma_contains_add(p0 + p1 + p2, p3, x);
        lemma_contains_add(p0 + p1 + p2 + p3, p4, x);
        lemma_contains_add(p0 + p1 + p2 + p3 + p4, p5, x);
    }
    if let Some(v) = entry.power_cap_watt {
        let x = unless_current(Knob::PowerCapWatts(v));
        assert(p2[0] == x);
        lemma_contains_add(p0 + p1, p2, x);
        lemma_contains_add(p0 + p1 + p2, p3, x);
        lemma_contains_add(p0 + p1 + p2 + p3, p4, x);
        lemma_contains_add(p0 + p1 + p2 + p3 + p4, p5, x);
    }
    if let Some(v) = entry.fan_target_temperature {
        if dev.amdgpu_device.spec_supports(KnobKind::FanTargetTempC) {
            let x = always(Knob::FanTargetTempC(v));
            assert(p3[0] == x);
            lemma_contains_add(p0 + p1 + p2, p3, x);
            lemma_contains_add(p0 + p1 + p2 + p3, p4, x);
            lemma_contains_add(p0 + p1 + p2 + p3 + p4, p5, x);
        }
    }
    if let Some(v) = entry.fan_minimum_pwm {
        if dev.amdgpu_device.spec_supports(KnobKind::FanMinimumPwmPercent) {
            let x = always(Knob::FanMinimumPwmPercent(v));
            assert(p4[0] == x);
            lemma_contains_add(p0 + p1 + p2 + p3, p4, x);
            lemma_contains_add(p0 + p1 + p2 + p3 + p4, p5, x);
        }
    }
    if let Some(v) = entry.acoustic_target_rpm_threshold {
        if dev.amdgpu_device.spec_supports(KnobKind::FanTargetRpm) {
            let x = always(Knob::FanTargetRpm(v));
            assert(p5[0] == x);
            lemma_contains_add(p0 + p1 + p2 + p3 + p4, p5, x);
        }
    }
}

} // verus!
