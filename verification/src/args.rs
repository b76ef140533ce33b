//! The arguments of the command line, as a list of texts.

use crate::config::{
    opt_text, ConfigEntry, ConfigEntryView, ParseConfigError,
    ParseConfigErrorView,
};
use crate::pci::PciBus;
use crate::text::str_eq;
use vstd::prelude::*;
use vstd::string::*;

verus! {

/// What the program is to do.
#[derive(Clone, Copy, Debug, PartialEq, Eq, Structural)]
pub enum AppMode {
    /// Watch the processes and switch the settings.
    Run,
    /// Print the names of the processes that run.
    DumpProcs,
    /// Check the configuration and print it.
    CheckConfig,
    /// Print a first configuration for the devices that are there.
    GenerateConfig,
    /// Print the power profiles that each device has.
    DumpSupportedPowerProfile,
    /// Print the devices that are there.
    DeviceList,
}

impl Default for AppMode {
    fn default() -> (r: Self)
        ensures
            r == AppMode::Run,
    {
        AppMode::Run
    }
}

/// A command that changes the configuration file.
#[derive(Debug)]
pub enum SubCommand {
    /// Add a rule for the device with this address.
    AddEntry((PciBus, ConfigEntry)),
    /// No command.
    Nop,
}

impl Default for SubCommand {
    fn default() -> (r: Self)
        ensures
            r is Nop,
    {
        SubCommand::Nop
    }
}

/// The arguments, read.
#[derive(Debug)]
pub struct MainOpt {
    pub sub_command: SubCommand,
    pub app_mode: AppMode,
}

/// A `MainOpt` with the rule to add, where there is one, as a view.
pub struct MainOptView {
    pub add_entry: Option<(PciBus, ConfigEntryView)>,
    pub app_mode: AppMode,
}

impl View for MainOpt {
    type V = MainOptView;

    open spec fn view(&self) -> MainOptView {
        MainOptView {
            add_entry: match self.sub_command {
                SubCommand::AddEntry((pci, entry)) => Some((pci, entry@)),
                SubCommand::Nop => None,
            },
            app_mode: self.app_mode,
        }
    }
}

impl Default for MainOpt {
    fn default() -> (r: Self)
        ensures
            r@ == (MainOptView { add_entry: None, app_mode: AppMode::Run }),
    {
        MainOpt { sub_command: SubCommand::Nop, app_mode: AppMode::Run }
    }
}

/// Why the arguments give nothing to do.
#[derive(Debug)]
pub enum ArgsError {
    /// `--help` was given: the help is to be printed, and nothing done.
    Help,
    /// An option that is none.
    UnknownOption(String),
    /// An option that `add` does not have.
    UnknownAddOption(String),
    /// An option of `add` as the last argument, without its value.
    MissingValue(String),
    /// `add` without an address.
    EmptyPci,
    /// `add` without a name.
    EmptyName,
    /// `add` with a text that is no address.
    InvalidPci(String),
    /// `add` with a rule that the configuration would refuse.
    InvalidEntry(ParseConfigError),
}

/// An `ArgsError` with its texts as sequences of characters.
pub enum ArgsErrorView {
    Help,
    UnknownOption(Seq<char>),
    UnknownAddOption(Seq<char>),
    MissingValue(Seq<char>),
    EmptyPci,
    EmptyName,
    InvalidPci(Seq<char>),
    InvalidEntry(ParseConfigErrorView),
}

impl View for ArgsError {
    type V = ArgsErrorView;

    open spec fn view(&self) -> ArgsErrorView {
        match self {
            ArgsError::Help => ArgsErrorView::Help,
            ArgsError::UnknownOption(s) => ArgsErrorView::UnknownOption(s@),
            ArgsError::UnknownAddOption(s) => ArgsErrorView::UnknownAddOption(s@),
            ArgsError::MissingValue(s) => ArgsErrorView::MissingValue(s@),
            ArgsError::EmptyPci => ArgsErrorView::EmptyPci,
            ArgsError::EmptyName => ArgsErrorView::EmptyName,
            ArgsError::InvalidPci(s) => ArgsErrorView::InvalidPci(s@),
            ArgsError::InvalidEntry(e) => ArgsErrorView::InvalidEntry(e@),
        }
    }
}

/// The texts of the arguments.
pub open spec fn arg_texts(args: Seq<String>) -> Seq<Seq<char>> {
    Seq::new(args.len(), |i: int| args[i]@)
}

/// The mode that a flag asks for.
pub open spec fn mode_of(flag: Seq<char>) -> Option<AppMode> {
    if flag == "--procs"@ {
        Some(AppMode::DumpProcs)
    } else if flag == "--check-config"@ {
        Some(AppMode::CheckConfig)
    } else if flag == "--generate-config"@ {
        Some(AppMode::GenerateConfig)
    } else if flag == "--profiles"@ {
        Some(AppMode::DumpSupportedPowerProfile)
    } else if flag == "--list-devices"@ {
        Some(AppMode::DeviceList)
    } else {
        None
    }
}

/// The mode that the flags from `from` on leave, after `mode`: each flag
/// sets the mode, so that the last one counts. The first `--help`, or the
/// first argument that is no flag, ends the reading.
pub open spec fn parse_flags(args: Seq<Seq<char>>, from: int, mode: AppMode) -> Result<
    AppMode,
    ArgsErrorView,
>
    decreases args.len() - from,
{
    if from < 0 || from >= args.len() {
        Ok(mode)
    } else if args[from] == "--help"@ {
        Err(ArgsErrorView::Help)
    } else {
        match mode_of(args[from]) {
            Some(m) => parse_flags(args, from + 1, m),
            None => Err(ArgsErrorView::UnknownOption(args[from])),
        }
    }
}

/// What the options of `add` gave so far.
pub struct AddFields {
    pub pci: Seq<char>,
    pub name: Seq<char>,
    pub perf_level: Option<Seq<char>>,
    pub profile: Option<Seq<char>>,
}

/// `fields` after the option `option` was given the value `value`; nothing
/// where `option` is no option of `add`.
pub open spec fn with_option(fields: AddFields, option: Seq<char>, value: Seq<char>) -> Option<
    AddFields,
> {
    if option == "--pci"@ {
        Some(AddFields { pci: value, ..fields })
    } else if option == "--name"@ {
        Some(AddFields { name: value, ..fields })
    } else if option == "--perf_level"@ {
        Some(AddFields { perf_level: Some(value), ..fields })
    } else if option == "--profile"@ {
        Some(AddFields { profile: Some(value), ..fields })
    } else {
        None
    }
}

/// What the options of `add` from `from` on give, after `fields`: options
/// and values come in pairs, and a later value replaces an earlier one.
pub open spec fn parse_add_fields(args: Seq<Seq<char>>, from: int, fields: AddFields) -> Result<
    AddFields,
    ArgsErrorView,
>
    decreases args.len() - from,
{
    if from < 0 || from >= args.len() {
        Ok(fields)
    } else if with_option(fields, args[from], Seq::empty()) is None {
        Err(ArgsErrorView::UnknownAddOption(args[from]))
    } else if from + 1 >= args.len() {
        Err(ArgsErrorView::MissingValue(args[from]))
    } else {
        parse_add_fields(args, from + 2, with_option(fields, args[from], args[from + 1]).unwrap())
    }
}

/// The rule that the fields of `add` make.
pub open spec fn entry_of(fields: AddFields) -> ConfigEntryView {
    ConfigEntryView {
        name: fields.name,
        perf_level: fields.perf_level,
        profile: fields.profile,
        power_cap_watt: None,
        fan_target_temperature: None,
        fan_minimum_pwm: None,
        acoustic_target_rpm_threshold: None,
    }
}

/// The address and the rule that the arguments after `add` give. Both the
/// address and the name must be given and not be empty, the address must be
/// one, and the rule must be one that the configuration takes.
pub open spec fn parse_add(args: Seq<Seq<char>>) -> Result<
    (PciBus, ConfigEntryView),
    ArgsErrorView,
> {
    let start = AddFields {
        pci: Seq::empty(),
        name: Seq::empty(),
        perf_level: None,
        profile: None,
    };
    match parse_add_fields(args, 1, start) {
        Err(e) => Err(e),
        Ok(fields) => add_given(fields, PciBus::spec_parse(fields.pci)),
    }
}

/// The address and the rule that the options of `add` give, where `pci` is
/// the address that the text of the address was read as, or nothing where
/// the text is no address. The address and the name are tested for being
/// empty first, then the address for being one, then the rule.
pub open spec fn add_given(fields: AddFields, pci: Option<PciBus>) -> Result<
    (PciBus, ConfigEntryView),
    ArgsErrorView,
> {
    if fields.pci.len() == 0 {
        Err(ArgsErrorView::EmptyPci)
    } else if fields.name.len() == 0 {
        Err(ArgsErrorView::EmptyName)
    } else if pci is None {
        Err(ArgsErrorView::InvalidPci(fields.pci))
    } else {
        match entry_of(fields).parse() {
            Err(e) => Err(ArgsErrorView::InvalidEntry(e)),
            Ok(_) => Ok((pci.unwrap(), entry_of(fields))),
        }
    }
}

/// What the arguments ask for. `args` are the arguments after the name of
/// the program. With `add` as the first, the rest are the options of `add`;
/// otherwise all are flags.
pub open spec fn parse_args(args: Seq<Seq<char>>) -> Result<MainOptView, ArgsErrorView> {
    if args.len() > 0 && args[0] == "add"@ {
        match parse_add(args) {
            Ok(add) => Ok(MainOptView { add_entry: Some(add), app_mode: AppMode::Run }),
            Err(e) => Err(e),
        }
    } else {
        match parse_flags(args, 0, AppMode::Run) {
            Ok(mode) => Ok(MainOptView { add_entry: None, app_mode: mode }),
            Err(e) => Err(e),
        }
    }
}

/// The outcome of reading the arguments, as the views of its two cases.
pub open spec fn args_result_view(r: Result<MainOpt, ArgsError>) -> Result<
    MainOptView,
    ArgsErrorView,
> {
    match r {
        Ok(v) => Ok(v@),
        Err(e) => Err(e@),
    }
}

fn flag_mode(flag: &str) -> (r: Option<AppMode>)
    ensures
        r == mode_of(flag@),
{
    if str_eq(flag, "--procs") {
        Some(AppMode::DumpProcs)
    } else if str_eq(flag, "--check-config") {
        Some(AppMode::CheckConfig)
    } else if str_eq(flag, "--generate-config") {
        Some(AppMode::GenerateConfig)
    } else if str_eq(flag, "--profiles") {
        Some(AppMode::DumpSupportedPowerProfile)
    } else if str_eq(flag, "--list-devices") {
        Some(AppMode::DeviceList)
    } else {
        None
    }
}

/// The values that the options of `add` were given.
#[derive(Debug)]
pub struct AddOptions {
    pub pci: String,
    pub name: String,
    pub perf_level: Option<String>,
    pub profile: Option<String>,
}

impl View for AddOptions {
    type V = AddFields;

    open spec fn view(&self) -> AddFields {
        AddFields {
            pci: self.pci@,
            name: self.name@,
            perf_level: opt_text(self.perf_level),
            profile: opt_text(self.profile),
        }
    }
}

impl AddOptions {
    /// Gives the option `option` the value `value`. Says whether `option`
    /// is an option of `add`; where it is none, nothing changes.
    fn set(&mut self, option: &str, value: &str) -> (known: bool)
        ensures
            known == with_option(old(self)@, option@, value@).is_some(),
            known ==> with_option(old(self)@, option@, value@) == Some(final(self)@),
            !known ==> final(self)@ == old(self)@,
    {
        if str_eq(option, "--pci") {
            self.pci = value.to_owned();
            true
        } else if str_eq(option, "--name") {
            self.name = value.to_owned();
            true
        } else if str_eq(option, "--perf_level") {
            self.perf_level = Some(value.to_owned());
            true
        } else if str_eq(option, "--profile") {
            self.profile = Some(value.to_owned());
            true
        } else {
            false
        }
    }
}

/// Whether `option` is an option of `add`.
fn is_add_option(option: &str) -> (r: bool)
    ensures
        forall|fields: AddFields, value: Seq<char>|
            r == (#[trigger] with_option(fields, option@, value)).is_some(),
{
    str_eq(option, "--pci") || str_eq(option, "--name") || str_eq(option, "--perf_level") || str_eq(
        option,
        "--profile",
    )
}

impl MainOpt {
    fn parse_add_subcommand(args: &Vec<String>) -> (r: Result<(PciBus, ConfigEntry), ArgsError>)
        ensures
            match r {
                Ok((pci, entry)) => parse_add(arg_texts(args@)) == Ok::<
                    (PciBus, ConfigEntryView),
                    ArgsErrorView,
                >((pci, entry@)),
                Err(e) => parse_add(arg_texts(args@)) == Err::<
                    (PciBus, ConfigEntryView),
                    ArgsErrorView,
                >(e@),
            },
    {
        let ghost texts = arg_texts(args@);
        let mut fields = AddOptions {
            pci: String::new(),
            name: String::new(),
            perf_level: None,
            profile: None,
        };
        let ghost start = fields@;
        let mut i: usize = 1;
        while i < args.len()
            invariant
                1 <= i,
                texts == arg_texts(args@),
                start == (AddFields {
                    pci: Seq::empty(),
                    name: Seq::empty(),
                    perf_level: None,
                    profile: None,
                }),
                parse_add_fields(texts, 1, start) == parse_add_fields(texts, i as int, fields@),
            decreases args.len() - i,
        {
            assert(texts[i as int] == args@[i as int]@);
            if !is_add_option(args[i].as_str()) {
                return Err(ArgsError::UnknownAddOption(args[i].clone()));
            }
            if i + 1 >= args.len() {
                return Err(ArgsError::MissingValue(args[i].clone()));
            }
            assert(texts[i + 1] == args@[i + 1]@);
            let known = fields.set(args[i].as_str(), args[i + 1].as_str());
            assert(known);
            i += 2;
        }
        let pci = if fields.pci.as_str().is_empty() || fields.name.as_str().is_empty() {
            None
        } else {
            PciBus::read(fields.pci.as_str())
        };
        MainOpt::add_with(fields, pci)
    }

    /// Makes the address and the rule of `add` from the values that its
    /// options were given, where `pci` is the address that the text of the
    /// address was read as, or nothing where the text is no address.
    pub fn add_with(fields: AddOptions, pci: Option<PciBus>) -> (r: Result<
        (PciBus, ConfigEntry),
        ArgsError,
    >)
        ensures
            match r {
                Ok((address, entry)) => add_given(fields@, pci) == Ok::<
                    (PciBus, ConfigEntryView),
                    ArgsErrorView,
                >((address, entry@)),
                Err(e) => add_given(fields@, pci) == Err::<
                    (PciBus, ConfigEntryView),
                    ArgsErrorView,
                >(e@),
            },
    {
        if fields.pci.as_str().is_empty() {
            return Err(ArgsError::EmptyPci);
        }
        if fields.name.as_str().is_empty() {
            return Err(ArgsError::EmptyName);
        }
        let pci = match pci {
            Some(pci) => pci,
            None => {
                return Err(ArgsError::InvalidPci(fields.pci));
            },
        };
        let entry = ConfigEntry {
            name: fields.name,
            perf_level: fields.perf_level,
            profile: fields.profile,
            power_cap_watt: None,
            fan_target_temperature: None,
            fan_minimum_pwm: None,
            acoustic_target_rpm_threshold: None,
        };
        match entry.parse() {
            Ok(_) => Ok((pci, entry)),
            Err(e) => Err(ArgsError::InvalidEntry(e)),
        }
    }

    /// Reads the arguments that follow the name of the program.
    pub fn parse(args: &Vec<String>) -> (r: Result<MainOpt, ArgsError>)
        ensures
            args_result_view(r) == parse_args(arg_texts(args@)),
    {
        let ghost texts = arg_texts(args@);
        if args.len() > 0 {
            assert(texts[0] == args@[0]@);
            if str_eq(args[0].as_str(), "add") {
                return match MainOpt::parse_add_subcommand(args) {
                    Ok(add) => Ok(
                        MainOpt { sub_command: SubCommand::AddEntry(add), app_mode: AppMode::Run },
                    ),
                    Err(e) => Err(e),
                };
            }
        }
        let mut mode = AppMode::Run;
        let mut i: usize = 0;
        while i < args.len()
            invariant
                texts == arg_texts(args@),
                !(texts.len() > 0 && texts[0] == "add"@),
                parse_flags(texts, 0, AppMode::Run) == parse_flags(texts, i as int, mode),
            decreases args.len() - i,
        {
            assert(texts[i as int] == args@[i as int]@);
            if str_eq(args[i].as_str(), "--help") {
                return Err(ArgsError::Help);
            }
            match flag_mode(args[i].as_str()) {
                Some(m) => {
                    mode = m;
                },
                None => {
                    return Err(ArgsError::UnknownOption(args[i].clone()));
                },
            }
            i += 1;
        }
        Ok(MainOpt { sub_command: SubCommand::Nop, app_mode: mode })
    }
}

} // verus!
