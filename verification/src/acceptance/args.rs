//! The command lines of the trial and of the processes that it starts.
use vstd::prelude::*;

use crate::text;
use crate::text::{
    decimal_text, join, join3, parse_signed, parse_unsigned, quoted, signed_decimal_text,
    str_equal, strings_from,
};

verus! {

/// How hard the trial is.
#[derive(Clone, Copy, Debug, PartialEq, Eq, Structural)]
pub enum Mode {
    Smoke,
    Chaos,
}

/// What is wrong with a command line.
#[derive(Clone, Copy, Debug, PartialEq, Eq, Structural)]
pub enum ArgsFault {
    ValueMissing,
    Required,
    PathMissing,
    SeedMissing,
    SeedInvalid,
    CyclesMissing,
    CyclesInvalid,
    CyclesZero,
    OptionUnknown,
    KillAfterInvalid,
    ExpectExitInvalid,
    TtlInvalid,
    ControllerUnknown,
    InputLengthInvalid,
    TransportUnknown,
    WorkloadUnknown,
    CommandUnknown,
}

/// What is wrong with a command line, and the argument that is.
#[derive(Clone, Debug)]
pub struct ArgsError {
    pub fault: ArgsFault,
    pub argument: String,
}

/// What is wrong with a command line, in terms of texts.
pub struct ArgsErrorView {
    pub fault: ArgsFault,
    pub argument: Seq<char>,
}

impl View for ArgsError {
    type V = ArgsErrorView;

    open spec fn view(&self) -> ArgsErrorView {
        ArgsErrorView { fault: self.fault, argument: self.argument@ }
    }
}

impl ArgsErrorView {
    /// The diagnostic for the error.
    pub open spec fn text(self) -> Seq<char> {
        match self.fault {
            ArgsFault::ValueMissing => self.argument + " requires a value"@,
            ArgsFault::Required => self.argument + " is required"@,
            ArgsFault::PathMissing => "--pipekeep requires a path"@,
            ArgsFault::SeedMissing => "--seed requires an integer"@,
            ArgsFault::SeedInvalid => "--seed must be an unsigned integer"@,
            ArgsFault::CyclesMissing => "--cycles requires an integer"@,
            ArgsFault::CyclesInvalid => "--cycles must be a positive integer"@,
            ArgsFault::CyclesZero => "--cycles must be greater than zero"@,
            ArgsFault::OptionUnknown => "unknown option "@ + text::debug_text(self.argument),
            ArgsFault::KillAfterInvalid => "--kill-after-ms must be an integer"@,
            ArgsFault::ExpectExitInvalid => "--expect-exit must be an integer"@,
            ArgsFault::TtlInvalid => "--ttl-secs must be an integer"@,
            ArgsFault::ControllerUnknown => "unknown controller option "@ + text::debug_text(
                self.argument,
            ),
            ArgsFault::InputLengthInvalid => "--input-len must be an integer"@,
            ArgsFault::TransportUnknown => "unknown stdin transport option "@ + text::debug_text(
                self.argument,
            ),
            ArgsFault::WorkloadUnknown => "unknown stdin workload option "@ + text::debug_text(
                self.argument,
            ),
            ArgsFault::CommandUnknown => "unknown command "@ + text::debug_text(self.argument)
                + "; use smoke, chaos, or --help"@,
        }
    }
}

fn refused(fault: ArgsFault, argument: &str) -> (r: ArgsError)
    ensures
        r@ == (ArgsErrorView { fault, argument: argument@ }),
{
    ArgsError { fault, argument: argument.to_owned() }
}

impl ArgsError {
    pub fn message(&self) -> (r: String)
        ensures
            r@ == self@.text(),
    {
        let argument = self.argument.as_str();
        match self.fault {
            ArgsFault::ValueMissing => join(argument, " requires a value"),
            ArgsFault::Required => join(argument, " is required"),
            ArgsFault::PathMissing => "--pipekeep requires a path".to_owned(),
            ArgsFault::SeedMissing => "--seed requires an integer".to_owned(),
            ArgsFault::SeedInvalid => "--seed must be an unsigned integer".to_owned(),
            ArgsFault::CyclesMissing => "--cycles requires an integer".to_owned(),
            ArgsFault::CyclesInvalid => "--cycles must be a positive integer".to_owned(),
            ArgsFault::CyclesZero => "--cycles must be greater than zero".to_owned(),
            ArgsFault::OptionUnknown => join("unknown option ", quoted(argument).as_str()),
            ArgsFault::KillAfterInvalid => "--kill-after-ms must be an integer".to_owned(),
            ArgsFault::ExpectExitInvalid => "--expect-exit must be an integer".to_owned(),
            ArgsFault::TtlInvalid => "--ttl-secs must be an integer".to_owned(),
            ArgsFault::ControllerUnknown => {
                join("unknown controller option ", quoted(argument).as_str())
            },
            ArgsFault::InputLengthInvalid => "--input-len must be an integer".to_owned(),
            ArgsFault::TransportUnknown => {
                join("unknown stdin transport option ", quoted(argument).as_str())
            },
            ArgsFault::WorkloadUnknown => {
                join("unknown stdin workload option ", quoted(argument).as_str())
            },
            ArgsFault::CommandUnknown => join3(
                "unknown command ",
                quoted(argument).as_str(),
                "; use smoke, chaos, or --help",
            ),
        }
    }
}

/// An option of one of the command lines.
#[derive(Clone, Copy, Debug, PartialEq, Eq, Structural)]
pub enum Flag {
    Pipekeep,
    Runtime,
    Id,
    State,
    Workload,
    Root,
    InputLength,
    Create,
    Resume,
    KillAfter,
    ExpectExit,
    Ttl,
    RetainTemp,
    Seed,
    Cycles,
    Help,
    Other,
}

/// Which option a word is.
pub open spec fn flag_of(word: Seq<char>) -> Flag {
    if word == "--pipekeep"@ {
        Flag::Pipekeep
    } else if word == "--runtime"@ {
        Flag::Runtime
    } else if word == "--id"@ {
        Flag::Id
    } else if word == "--state"@ {
        Flag::State
    } else if word == "--workload"@ {
        Flag::Workload
    } else if word == "--root"@ {
        Flag::Root
    } else if word == "--input-len"@ {
        Flag::InputLength
    } else if word == "--create"@ {
        Flag::Create
    } else if word == "--resume"@ {
        Flag::Resume
    } else if word == "--kill-after-ms"@ {
        Flag::KillAfter
    } else if word == "--expect-exit"@ {
        Flag::ExpectExit
    } else if word == "--ttl-secs"@ {
        Flag::Ttl
    } else if word == "--retain-temp"@ {
        Flag::RetainTemp
    } else if word == "--seed"@ {
        Flag::Seed
    } else if word == "--cycles"@ {
        Flag::Cycles
    } else if word == "--help"@ || word == "-h"@ {
        Flag::Help
    } else {
        Flag::Other
    }
}

fn read_flag(word: &str) -> (r: Flag)
    ensures
        r == flag_of(word@),
{
    if str_equal(word, "--pipekeep") {
        Flag::Pipekeep
    } else if str_equal(word, "--runtime") {
        Flag::Runtime
    } else if str_equal(word, "--id") {
        Flag::Id
    } else if str_equal(word, "--state") {
        Flag::State
    } else if str_equal(word, "--workload") {
        Flag::Workload
    } else if str_equal(word, "--root") {
        Flag::Root
    } else if str_equal(word, "--input-len") {
        Flag::InputLength
    } else if str_equal(word, "--create") {
        Flag::Create
    } else if str_equal(word, "--resume") {
        Flag::Resume
    } else if str_equal(word, "--kill-after-ms") {
        Flag::KillAfter
    } else if str_equal(word, "--expect-exit") {
        Flag::ExpectExit
    } else if str_equal(word, "--ttl-secs") {
        Flag::Ttl
    } else if str_equal(word, "--retain-temp") {
        Flag::RetainTemp
    } else if str_equal(word, "--seed") {
        Flag::Seed
    } else if str_equal(word, "--cycles") {
        Flag::Cycles
    } else if str_equal(word, "--help") || str_equal(word, "-h") {
        Flag::Help
    } else {
        Flag::Other
    }
}

/// An unsigned number as it may be written, if it is one that fits.
pub open spec fn unsigned_value(s: Seq<char>) -> Option<u64> {
    let digits = text::unsigned_digits(s);
    if text::is_number(digits) && text::number(digits) <= u64::MAX {
        Some(text::number(digits) as u64)
    } else {
        None
    }
}

/// A signed number as it may be written, if it is one that fits.
pub open spec fn small_value(s: Seq<char>) -> Option<i32> {
    match text::signed_value(s) {
        Some(value) => if i32::MIN <= value <= i32::MAX {
            Some(value as i32)
        } else {
            None
        },
        None => None,
    }
}

/// The value behind an option: the word after it.
pub open spec fn value_after(args: Seq<Seq<char>>, flag: Seq<char>) -> Result<
    Seq<char>,
    ArgsErrorView,
> {
    if args.len() < 2 {
        Err(ArgsErrorView { fault: ArgsFault::ValueMissing, argument: flag })
    } else {
        Ok(args[1])
    }
}

/// Takes the value behind the option at `index`.
pub fn next_arg(args: &[String], index: usize, flag: &str) -> (r: Result<String, ArgsError>)
    requires
        index < args@.len(),
    ensures
        match r {
            Ok(value) => value_after(text::texts(args@).skip(index as int), flag@) == Ok::<
                Seq<char>,
                ArgsErrorView,
            >(value@) && index + 2 <= args@.len(),
            Err(error) => value_after(text::texts(args@).skip(index as int), flag@) == Err::<
                Seq<char>,
                ArgsErrorView,
            >(error@),
        },
{
    let ghost rest = text::texts(args@).skip(index as int);
    if args.len() - index < 2 {
        return Err(refused(ArgsFault::ValueMissing, flag));
    }
    assert(rest[1] == args@[index + 1]@);
    Ok(args[index + 1].clone())
}

/// The options of the trial.
#[derive(Clone, Debug)]
pub struct Options {
    pub pipekeep: Option<String>,
    pub retain_temp: bool,
    pub seed: Option<u64>,
    pub cycles: usize,
}

/// The options of the trial, in terms of texts.
pub struct OptionsView {
    pub pipekeep: Option<Seq<char>>,
    pub retain_temp: bool,
    pub seed: Option<u64>,
    pub cycles: usize,
}

impl View for Options {
    type V = OptionsView;

    open spec fn view(&self) -> OptionsView {
        OptionsView {
            pipekeep: text::option_text(self.pipekeep),
            retain_temp: self.retain_temp,
            seed: self.seed,
            cycles: self.cycles,
        }
    }
}

/// Reads the options of the trial from the left. Nothing means that help was
/// asked for.
pub open spec fn options_scan(options: OptionsView, args: Seq<Seq<char>>) -> Result<
    Option<OptionsView>,
    ArgsErrorView,
>
    decreases args.len(),
{
    if args.len() == 0 {
        Ok(Some(options))
    } else {
        match flag_of(args[0]) {
            Flag::Pipekeep => if args.len() < 2 {
                Err(ArgsErrorView { fault: ArgsFault::PathMissing, argument: args[0] })
            } else {
                options_scan(OptionsView { pipekeep: Some(args[1]), ..options }, args.skip(2))
            },
            Flag::RetainTemp => options_scan(
                OptionsView { retain_temp: true, ..options },
                args.skip(1),
            ),
            Flag::Seed => if args.len() < 2 {
                Err(ArgsErrorView { fault: ArgsFault::SeedMissing, argument: args[0] })
            } else {
                match unsigned_value(args[1]) {
                    Some(seed) => options_scan(
                        OptionsView { seed: Some(seed), ..options },
                        args.skip(2),
                    ),
                    None => Err(
                        ArgsErrorView { fault: ArgsFault::SeedInvalid, argument: args[1] },
                    ),
                }
            },
            Flag::Cycles => if args.len() < 2 {
                Err(ArgsErrorView { fault: ArgsFault::CyclesMissing, argument: args[0] })
            } else {
                match length_value(args[1]) {
                    Some(cycles) => if cycles == 0 {
                        Err(ArgsErrorView { fault: ArgsFault::CyclesZero, argument: args[1] })
                    } else {
                        options_scan(OptionsView { cycles, ..options }, args.skip(2))
                    },
                    None => Err(
                        ArgsErrorView { fault: ArgsFault::CyclesInvalid, argument: args[1] },
                    ),
                }
            },
            Flag::Help => Ok(None),
            _ => Err(ArgsErrorView { fault: ArgsFault::OptionUnknown, argument: args[0] }),
        }
    }
}

/// The options of a trial that names none.
pub open spec fn default_options() -> OptionsView {
    OptionsView { pipekeep: None, retain_temp: false, seed: None, cycles: 12 }
}

impl Options {
    /// Reads the options of the trial. Nothing means that help was asked for.
    pub fn parse(args: &[String]) -> (r: Result<Option<Options>, ArgsError>)
        ensures
            match options_scan(default_options(), text::texts(args@)) {
                Ok(Some(options)) => r matches Ok(Some(parsed)) && parsed@ == options,
                Ok(None) => r matches Ok(None),
                Err(error) => r matches Err(found) && found@ == error,
            },
    {
        let mut options = Options { pipekeep: None, retain_temp: false, seed: None, cycles: 12 };
        let mut index: usize = 0;
        let ghost all = text::texts(args@);
        assert(all.skip(0) =~= all);
        while index < args.len()
            invariant
                all == text::texts(args@),
                index <= args@.len(),
                options_scan(default_options(), all) == options_scan(
                    options@,
                    all.skip(index as int),
                ),
            decreases args@.len() - index,
        {
            let ghost rest = all.skip(index as int);
            assert(rest[0] == args@[index as int]@);
            proof {
                if rest.len() >= 2 {
                    assert(rest[1] == args@[index + 1]@);
                    assert(rest.skip(2) =~= all.skip(index + 2));
                }
                assert(rest.skip(1) =~= all.skip(index + 1));
            }
            let word = args[index].as_str();
            let has_value = args.len() - index >= 2;
            match read_flag(word) {
                Flag::Pipekeep => {
                    if !has_value {
                        return Err(refused(ArgsFault::PathMissing, word));
                    }
                    options.pipekeep = Some(args[index + 1].clone());
                    index += 2;
                },
                Flag::RetainTemp => {
                    options.retain_temp = true;
                    index += 1;
                },
                Flag::Seed => {
                    if !has_value {
                        return Err(refused(ArgsFault::SeedMissing, word));
                    }
                    match parse_unsigned(args[index + 1].as_str()) {
                        Some(seed) => {
                            options.seed = Some(seed);
                        },
                        None => {
                            return Err(refused(ArgsFault::SeedInvalid, args[index + 1].as_str()));
                        },
                    }
                    index += 2;
                },
                Flag::Cycles => {
                    if !has_value {
                        return Err(refused(ArgsFault::CyclesMissing, word));
                    }
                    match parse_length(args[index + 1].as_str()) {
                        Some(cycles) => {
                            if cycles == 0 {
                                return Err(refused(ArgsFault::CyclesZero, args[index + 1].as_str()));
                            }
                            options.cycles = cycles;
                        },
                        None => {
                            return Err(refused(ArgsFault::CyclesInvalid, args[index + 1].as_str()));
                        },
                    }
                    index += 2;
                },
                Flag::Help => {
                    return Ok(None);
                },
                _ => {
                    return Err(refused(ArgsFault::OptionUnknown, word));
                },
            }
        }
        assert(all.skip(index as int).len() == 0);
        Ok(Some(options))
    }
}

/// What an invocation of the trial asks for.
#[derive(Clone, Debug)]
pub enum Invocation {
    Trial(Mode, Options),
    Controller(ControllerArgs),
    StdinTransport(StdinTransportArgs),
    StdinWorkload(StdinWorkloadArgs),
    Help,
}

/// The arguments of a controller process.
#[derive(Clone, Debug)]
pub struct ControllerArgs {
    pub pipekeep: String,
    pub runtime: String,
    pub id: String,
    pub state: String,
    pub workload: String,
    pub create: bool,
    pub kill_after_ms: Option<u64>,
    pub expect_exit: Option<i32>,
    pub ttl_secs: u64,
}

/// The arguments of a controller process as far as they were read.
pub struct ControllerView {
    pub pipekeep: Option<Seq<char>>,
    pub runtime: Option<Seq<char>>,
    pub id: Option<Seq<char>>,
    pub state: Option<Seq<char>>,
    pub workload: Option<Seq<char>>,
    pub create: bool,
    pub kill_after_ms: Option<u64>,
    pub expect_exit: Option<i32>,
    pub ttl_secs: u64,
}

impl View for ControllerArgs {
    type V = ControllerView;

    open spec fn view(&self) -> ControllerView {
        ControllerView {
            pipekeep: Some(self.pipekeep@),
            runtime: Some(self.runtime@),
            id: Some(self.id@),
            state: Some(self.state@),
            workload: Some(self.workload@),
            create: self.create,
            kill_after_ms: self.kill_after_ms,
            expect_exit: self.expect_exit,
            ttl_secs: self.ttl_secs,
        }
    }
}

/// No arguments of a controller process.
pub open spec fn no_controller() -> ControllerView {
    ControllerView {
        pipekeep: None,
        runtime: None,
        id: None,
        state: None,
        workload: None,
        create: false,
        kill_after_ms: None,
        expect_exit: None,
        ttl_secs: 30,
    }
}

/// Reads the arguments of a controller process from the left.
pub open spec fn controller_scan(found: ControllerView, args: Seq<Seq<char>>) -> Result<
    ControllerView,
    ArgsErrorView,
>
    decreases args.len(),
{
    if args.len() == 0 {
        Ok(found)
    } else {
        let missing = Err(ArgsErrorView { fault: ArgsFault::ValueMissing, argument: args[0] });
        match flag_of(args[0]) {
            Flag::Pipekeep => if args.len() < 2 {
                missing
            } else {
                controller_scan(ControllerView { pipekeep: Some(args[1]), ..found }, args.skip(2))
            },
            Flag::Runtime => if args.len() < 2 {
                missing
            } else {
                controller_scan(ControllerView { runtime: Some(args[1]), ..found }, args.skip(2))
            },
            Flag::Id => if args.len() < 2 {
                missing
            } else {
                controller_scan(ControllerView { id: Some(args[1]), ..found }, args.skip(2))
            },
            Flag::State => if args.len() < 2 {
                missing
            } else {
                controller_scan(ControllerView { state: Some(args[1]), ..found }, args.skip(2))
            },
            Flag::Workload => if args.len() < 2 {
                missing
            } else {
                controller_scan(ControllerView { workload: Some(args[1]), ..found }, args.skip(2))
            },
            Flag::Create => controller_scan(
                ControllerView { create: true, ..found },
                args.skip(1),
            ),
            Flag::Resume => controller_scan(
                ControllerView { create: false, ..found },
                args.skip(1),
            ),
            Flag::KillAfter => if args.len() < 2 {
                missing
            } else {
                match unsigned_value(args[1]) {
                    Some(value) => controller_scan(
                        ControllerView { kill_after_ms: Some(value), ..found },
                        args.skip(2),
                    ),
                    None => Err(
                        ArgsErrorView { fault: ArgsFault::KillAfterInvalid, argument: args[1] },
                    ),
                }
            },
            Flag::ExpectExit => if args.len() < 2 {
                missing
            } else {
                match small_value(args[1]) {
                    Some(value) => controller_scan(
                        ControllerView { expect_exit: Some(value), ..found },
                        args.skip(2),
                    ),
                    None => Err(
                        ArgsErrorView { fault: ArgsFault::ExpectExitInvalid, argument: args[1] },
                    ),
                }
            },
            Flag::Ttl => if args.len() < 2 {
                missing
            } else {
                match unsigned_value(args[1]) {
                    Some(value) => controller_scan(
                        ControllerView { ttl_secs: value, ..found },
                        args.skip(2),
                    ),
                    None => Err(ArgsErrorView { fault: ArgsFault::TtlInvalid, argument: args[1] }),
                }
            },
            _ => Err(ArgsErrorView { fault: ArgsFault::ControllerUnknown, argument: args[0] }),
        }
    }
}

/// The option that a controller still lacks, if it lacks one.
pub open spec fn controller_lacks(found: ControllerView) -> Option<Seq<char>> {
    if found.pipekeep is None {
        Some("--pipekeep"@)
    } else if found.runtime is None {
        Some("--runtime"@)
    } else if found.id is None {
        Some("--id"@)
    } else if found.state is None {
        Some("--state"@)
    } else if found.workload is None {
        Some("--workload"@)
    } else {
        None
    }
}

/// The meaning of a controller's arguments.
pub open spec fn controller_meaning(args: Seq<Seq<char>>) -> Result<ControllerView, ArgsErrorView> {
    match controller_scan(no_controller(), args) {
        Err(error) => Err(error),
        Ok(found) => match controller_lacks(found) {
            Some(flag) => Err(ArgsErrorView { fault: ArgsFault::Required, argument: flag }),
            None => Ok(found),
        },
    }
}

impl ControllerArgs {
    pub fn parse(args: &[String]) -> (r: Result<ControllerArgs, ArgsError>)
        ensures
            match r {
                Ok(parsed) => controller_meaning(text::texts(args@)) == Ok::<
                    ControllerView,
                    ArgsErrorView,
                >(parsed@),
                Err(error) => controller_meaning(text::texts(args@)) == Err::<
                    ControllerView,
                    ArgsErrorView,
                >(error@),
            },
    {
        let mut pipekeep: Option<String> = None;
        let mut runtime: Option<String> = None;
        let mut id: Option<String> = None;
        let mut state: Option<String> = None;
        let mut workload: Option<String> = None;
        let mut create = false;
        let mut kill_after_ms: Option<u64> = None;
        let mut expect_exit: Option<i32> = None;
        let mut ttl_secs: u64 = 30;
        let mut index: usize = 0;
        let ghost all = text::texts(args@);
        assert(all.skip(0) =~= all);
        while index < args.len()
            invariant
                all == text::texts(args@),
                index <= args@.len(),
                controller_scan(no_controller(), all) == controller_scan(
                    (ControllerView {
                        pipekeep: text::option_text(pipekeep),
                        runtime: text::option_text(runtime),
                        id: text::option_text(id),
                        state: text::option_text(state),
                        workload: text::option_text(workload),
                        create,
                        kill_after_ms,
                        expect_exit,
                        ttl_secs,
                    }),
                    all.skip(index as int),
                ),
            decreases args@.len() - index,
        {
            let ghost rest = all.skip(index as int);
            assert(rest[0] == args@[index as int]@);
            proof {
                if rest.len() >= 2 {
                    assert(rest[1] == args@[index + 1]@);
                    assert(rest.skip(2) =~= all.skip(index + 2));
                }
                assert(rest.skip(1) =~= all.skip(index + 1));
            }
            let word = args[index].as_str();
            let flag = read_flag(word);
            match flag {
                Flag::Create => {
                    create = true;
                    index += 1;
                    continue;
                },
                Flag::Resume => {
                    create = false;
                    index += 1;
                    continue;
                },
                Flag::Pipekeep
                | Flag::Runtime
                | Flag::Id
                | Flag::State
                | Flag::Workload
                | Flag::KillAfter
                | Flag::ExpectExit
                | Flag::Ttl => {},
                _ => {
                    return Err(refused(ArgsFault::ControllerUnknown, word));
                },
            }
            let value = match next_arg(args, index, word) {
                Ok(value) => value,
                Err(error) => {
                    return Err(error);
                },
            };
            match flag {
                Flag::Pipekeep => {
                    pipekeep = Some(value);
                },
                Flag::Runtime => {
                    runtime = Some(value);
                },
                Flag::Id => {
                    id = Some(value);
                },
                Flag::State => {
                    state = Some(value);
                },
                Flag::Workload => {
                    workload = Some(value);
                },
                Flag::KillAfter => {
                    match parse_unsigned(value.as_str()) {
                        Some(number) => {
                            kill_after_ms = Some(number);
                        },
                        None => {
                            return Err(refused(ArgsFault::KillAfterInvalid, value.as_str()));
                        },
                    }
                },
                Flag::ExpectExit => {
                    match parse_signed(value.as_str()) {
                        Some(number) => {
                            expect_exit = Some(number);
                        },
                        None => {
                            return Err(refused(ArgsFault::ExpectExitInvalid, value.as_str()));
                        },
                    }
                },
                _ => {
                    match parse_unsigned(value.as_str()) {
                        Some(number) => {
                            ttl_secs = number;
                        },
                        None => {
                            return Err(refused(ArgsFault::TtlInvalid, value.as_str()));
                        },
                    }
                },
            }
            index += 2;
        }
        assert(all.skip(index as int).len() == 0);
        let pipekeep = match pipekeep {
            Some(value) => value,
            None => {
                return Err(refused(ArgsFault::Required, "--pipekeep"));
            },
        };
        let runtime = match runtime {
            Some(value) => value,
            None => {
                return Err(refused(ArgsFault::Required, "--runtime"));
            },
        };
        let id = match id {
            Some(value) => value,
            None => {
                return Err(refused(ArgsFault::Required, "--id"));
            },
        };
        let state = match state {
            Some(value) => value,
            None => {
                return Err(refused(ArgsFault::Required, "--state"));
            },
        };
        let workload = match workload {
            Some(value) => value,
            None => {
                return Err(refused(ArgsFault::Required, "--workload"));
            },
        };
        Ok(
            ControllerArgs {
                pipekeep,
                runtime,
                id,
                state,
                workload,
                create,
                kill_after_ms,
                expect_exit,
                ttl_secs,
            },
        )
    }
}

/// The arguments of a transport of the input trial.
#[derive(Clone, Debug)]
pub struct StdinTransportArgs {
    pub pipekeep: String,
    pub runtime: String,
    pub id: String,
    pub root: String,
    pub input_len: usize,
}

/// The arguments of a transport of the input trial as far as they were read.
pub struct TransportView {
    pub pipekeep: Option<Seq<char>>,
    pub runtime: Option<Seq<char>>,
    pub id: Option<Seq<char>>,
    pub root: Option<Seq<char>>,
    pub input_len: Option<usize>,
}

impl View for StdinTransportArgs {
    type V = TransportView;

    open spec fn view(&self) -> TransportView {
        TransportView {
            pipekeep: Some(self.pipekeep@),
            runtime: Some(self.runtime@),
            id: Some(self.id@),
            root: Some(self.root@),
            input_len: Some(self.input_len),
        }
    }
}

/// A length as it may be written, if it is one that fits.
pub open spec fn length_value(s: Seq<char>) -> Option<usize> {
    match unsigned_value(s) {
        Some(value) => if value <= usize::MAX {
            Some(value as usize)
        } else {
            None
        },
        None => None,
    }
}

fn parse_length(s: &str) -> (r: Option<usize>)
    ensures
        r == length_value(s@),
{
    match parse_unsigned(s) {
        Some(value) => {
            if value <= usize::MAX as u64 {
                Some(value as usize)
            } else {
                None
            }
        },
        None => None,
    }
}

/// No arguments of a transport.
pub open spec fn no_transport() -> TransportView {
    TransportView { pipekeep: None, runtime: None, id: None, root: None, input_len: None }
}

/// Reads the arguments of a transport from the left.
pub open spec fn transport_scan(found: TransportView, args: Seq<Seq<char>>) -> Result<
    TransportView,
    ArgsErrorView,
>
    decreases args.len(),
{
    if args.len() == 0 {
        Ok(found)
    } else {
        let missing = Err(ArgsErrorView { fault: ArgsFault::ValueMissing, argument: args[0] });
        match flag_of(args[0]) {
            Flag::Pipekeep => if args.len() < 2 {
                missing
            } else {
                transport_scan(TransportView { pipekeep: Some(args[1]), ..found }, args.skip(2))
            },
            Flag::Runtime => if args.len() < 2 {
                missing
            } else {
                transport_scan(TransportView { runtime: Some(args[1]), ..found }, args.skip(2))
            },
            Flag::Id => if args.len() < 2 {
                missing
            } else {
                transport_scan(TransportView { id: Some(args[1]), ..found }, args.skip(2))
            },
            Flag::Root => if args.len() < 2 {
                missing
            } else {
                transport_scan(TransportView { root: Some(args[1]), ..found }, args.skip(2))
            },
            Flag::InputLength => if args.len() < 2 {
                missing
            } else {
                match length_value(args[1]) {
                    Some(value) => transport_scan(
                        TransportView { input_len: Some(value), ..found },
                        args.skip(2),
                    ),
                    None => Err(
                        ArgsErrorView { fault: ArgsFault::InputLengthInvalid, argument: args[1] },
                    ),
                }
            },
            _ => Err(ArgsErrorView { fault: ArgsFault::TransportUnknown, argument: args[0] }),
        }
    }
}

/// The option that a transport still lacks, if it lacks one.
pub open spec fn transport_lacks(found: TransportView) -> Option<Seq<char>> {
    if found.pipekeep is None {
        Some("--pipekeep"@)
    } else if found.runtime is None {
        Some("--runtime"@)
    } else if found.id is None {
        Some("--id"@)
    } else if found.root is None {
        Some("--root"@)
    } else if found.input_len is None {
        Some("--input-len"@)
    } else {
        None
    }
}

/// The meaning of a transport's arguments.
pub open spec fn transport_meaning(args: Seq<Seq<char>>) -> Result<TransportView, ArgsErrorView> {
    match transport_scan(no_transport(), args) {
        Err(error) => Err(error),
        Ok(found) => match transport_lacks(found) {
            Some(flag) => Err(ArgsErrorView { fault: ArgsFault::Required, argument: flag }),
            None => Ok(found),
        },
    }
}

impl StdinTransportArgs {
    pub fn parse(args: &[String]) -> (r: Result<StdinTransportArgs, ArgsError>)
        ensures
            match r {
                Ok(parsed) => transport_meaning(text::texts(args@)) == Ok::<
                    TransportView,
                    ArgsErrorView,
                >(parsed@),
                Err(error) => transport_meaning(text::texts(args@)) == Err::<
                    TransportView,
                    ArgsErrorView,
                >(error@),
            },
    {
        let mut pipekeep: Option<String> = None;
        let mut runtime: Option<String> = None;
        let mut id: Option<String> = None;
        let mut root: Option<String> = None;
        let mut input_len: Option<usize> = None;
        let mut index: usize = 0;
        let ghost all = text::texts(args@);
        assert(all.skip(0) =~= all);
        while index < args.len()
            invariant
                all == text::texts(args@),
                index <= args@.len(),
                transport_scan(no_transport(), all) == transport_scan(
                    (TransportView {
                        pipekeep: text::option_text(pipekeep),
                        runtime: text::option_text(runtime),
                        id: text::option_text(id),
                        root: text::option_text(root),
                        input_len,
                    }),
                    all.skip(index as int),
                ),
            decreases args@.len() - index,
        {
            let ghost rest = all.skip(index as int);
            assert(rest[0] == args@[index as int]@);
            proof {
                if rest.len() >= 2 {
                    assert(rest[1] == args@[index + 1]@);
                    assert(rest.skip(2) =~= all.skip(index + 2));
                }
            }
            let word = args[index].as_str();
            let flag = read_flag(word);
            match flag {
                Flag::Pipekeep | Flag::Runtime | Flag::Id | Flag::Root | Flag::InputLength => {},
                _ => {
                    return Err(refused(ArgsFault::TransportUnknown, word));
                },
            }
            let value = match next_arg(args, index, word) {
                Ok(value) => value,
                Err(error) => {
                    return Err(error);
                },
            };
            match flag {
                Flag::Pipekeep => {
                    pipekeep = Some(value);
                },
                Flag::Runtime => {
                    runtime = Some(value);
                },
                Flag::Id => {
                    id = Some(value);
                },
                Flag::Root => {
                    root = Some(value);
                },
                _ => {
                    match parse_length(value.as_str()) {
                        Some(number) => {
                            input_len = Some(number);
                        },
                        None => {
                            return Err(refused(ArgsFault::InputLengthInvalid, value.as_str()));
                        },
                    }
                },
            }
            index += 2;
        }
        assert(all.skip(index as int).len() == 0);
        let pipekeep = match pipekeep {
            Some(value) => value,
            None => {
                return Err(refused(ArgsFault::Required, "--pipekeep"));
            },
        };
        let runtime = match runtime {
            Some(value) => value,
            None => {
                return Err(refused(ArgsFault::Required, "--runtime"));
            },
        };
        let id = match id {
            Some(value) => value,
            None => {
                return Err(refused(ArgsFault::Required, "--id"));
            },
        };
        let root = match root {
            Some(value) => value,
            None => {
                return Err(refused(ArgsFault::Required, "--root"));
            },
        };
        let input_len: usize = match input_len {
            Some(value) => value,
            None => {
                return Err(refused(ArgsFault::Required, "--input-len"));
            },
        };
        Ok(StdinTransportArgs { pipekeep, runtime, id, root, input_len })
    }
}

/// The arguments of the command of the input trial.
#[derive(Clone, Debug)]
pub struct StdinWorkloadArgs {
    pub root: String,
    pub input_len: usize,
}

/// The arguments of the command of the input trial as far as they were read.
pub struct WorkloadView {
    pub root: Option<Seq<char>>,
    pub input_len: Option<usize>,
}

impl View for StdinWorkloadArgs {
    type V = WorkloadView;

    open spec fn view(&self) -> WorkloadView {
        WorkloadView { root: Some(self.root@), input_len: Some(self.input_len) }
    }
}

/// Reads the arguments of the command from the left.
pub open spec fn workload_scan(found: WorkloadView, args: Seq<Seq<char>>) -> Result<
    WorkloadView,
    ArgsErrorView,
>
    decreases args.len(),
{
    if args.len() == 0 {
        Ok(found)
    } else {
        let missing = Err(ArgsErrorView { fault: ArgsFault::ValueMissing, argument: args[0] });
        match flag_of(args[0]) {
            Flag::Root => if args.len() < 2 {
                missing
            } else {
                workload_scan(WorkloadView { root: Some(args[1]), ..found }, args.skip(2))
            },
            Flag::InputLength => if args.len() < 2 {
                missing
            } else {
                match length_value(args[1]) {
                    Some(value) => workload_scan(
                        WorkloadView { input_len: Some(value), ..found },
                        args.skip(2),
                    ),
                    None => Err(
                        ArgsErrorView { fault: ArgsFault::InputLengthInvalid, argument: args[1] },
                    ),
                }
            },
            _ => Err(ArgsErrorView { fault: ArgsFault::WorkloadUnknown, argument: args[0] }),
        }
    }
}

/// The meaning of the command's arguments.
pub open spec fn workload_meaning(args: Seq<Seq<char>>) -> Result<WorkloadView, ArgsErrorView> {
    match workload_scan(WorkloadView { root: None, input_len: None }, args) {
        Err(error) => Err(error),
        Ok(found) => if found.root is None {
            Err(ArgsErrorView { fault: ArgsFault::Required, argument: "--root"@ })
        } else if found.input_len is None {
            Err(ArgsErrorView { fault: ArgsFault::Required, argument: "--input-len"@ })
        } else {
            Ok(found)
        },
    }
}

impl StdinWorkloadArgs {
    pub fn parse(args: &[String]) -> (r: Result<StdinWorkloadArgs, ArgsError>)
        ensures
            match r {
                Ok(parsed) => workload_meaning(text::texts(args@)) == Ok::<
                    WorkloadView,
                    ArgsErrorView,
                >(parsed@),
                Err(error) => workload_meaning(text::texts(args@)) == Err::<
                    WorkloadView,
                    ArgsErrorView,
                >(error@),
            },
    {
        let mut root: Option<String> = None;
        let mut input_len: Option<usize> = None;
        let mut index: usize = 0;
        let ghost all = text::texts(args@);
        assert(all.skip(0) =~= all);
        while index < args.len()
            invariant
                all == text::texts(args@),
                index <= args@.len(),
                workload_scan((WorkloadView { root: None, input_len: None }), all)
                    == workload_scan(
                    (WorkloadView { root: text::option_text(root), input_len }),
                    all.skip(index as int),
                ),
            decreases args@.len() - index,
        {
            let ghost rest = all.skip(index as int);
            assert(rest[0] == args@[index as int]@);
            proof {
                if rest.len() >= 2 {
                    assert(rest[1] == args@[index + 1]@);
                    assert(rest.skip(2) =~= all.skip(index + 2));
                }
            }
            let word = args[index].as_str();
            let flag = read_flag(word);
            match flag {
                Flag::Root | Flag::InputLength => {},
                _ => {
                    return Err(refused(ArgsFault::WorkloadUnknown, word));
                },
            }
            let value = match next_arg(args, index, word) {
                Ok(value) => value,
                Err(error) => {
                    return Err(error);
                },
            };
            match flag {
                Flag::Root => {
                    root = Some(value);
                },
                _ => {
                    match parse_length(value.as_str()) {
                        Some(number) => {
                            input_len = Some(number);
                        },
                        None => {
                            return Err(refused(ArgsFault::InputLengthInvalid, value.as_str()));
                        },
                    }
                },
            }
            index += 2;
        }
        assert(all.skip(index as int).len() == 0);
        let root = match root {
            Some(value) => value,
            None => {
                return Err(refused(ArgsFault::Required, "--root"));
            },
        };
        let input_len: usize = match input_len {
            Some(value) => value,
            None => {
                return Err(refused(ArgsFault::Required, "--input-len"));
            },
        };
        Ok(StdinWorkloadArgs { root, input_len })
    }
}

/// What an invocation of the trial asks for, in terms of texts.
pub enum InvocationView {
    Trial(Mode, OptionsView),
    Controller(ControllerView),
    StdinTransport(TransportView),
    StdinWorkload(WorkloadView),
    Help,
}

impl View for Invocation {
    type V = InvocationView;

    open spec fn view(&self) -> InvocationView {
        match *self {
            Invocation::Trial(mode, options) => InvocationView::Trial(mode, options@),
            Invocation::Controller(args) => InvocationView::Controller(args@),
            Invocation::StdinTransport(args) => InvocationView::StdinTransport(args@),
            Invocation::StdinWorkload(args) => InvocationView::StdinWorkload(args@),
            Invocation::Help => InvocationView::Help,
        }
    }
}

/// The meaning of the options of a trial.
pub open spec fn trial_meaning(mode: Mode, args: Seq<Seq<char>>) -> Result<
    InvocationView,
    ArgsErrorView,
> {
    match options_scan(default_options(), args) {
        Ok(Some(options)) => Ok(InvocationView::Trial(mode, options)),
        Ok(None) => Ok(InvocationView::Help),
        Err(error) => Err(error),
    }
}

/// The meaning of a whole command line.
pub open spec fn invocation_meaning(args: Seq<Seq<char>>) -> Result<InvocationView, ArgsErrorView> {
    if args.len() == 0 || args[0] == "--help"@ || args[0] == "-h"@ {
        Ok(InvocationView::Help)
    } else if args[0] == "smoke"@ {
        trial_meaning(Mode::Smoke, args.skip(1))
    } else if args[0] == "chaos"@ {
        trial_meaning(Mode::Chaos, args.skip(1))
    } else if args[0] == "__controller"@ {
        match controller_meaning(args.skip(1)) {
            Ok(found) => Ok(InvocationView::Controller(found)),
            Err(error) => Err(error),
        }
    } else if args[0] == "__stdin_transport"@ {
        match transport_meaning(args.skip(1)) {
            Ok(found) => Ok(InvocationView::StdinTransport(found)),
            Err(error) => Err(error),
        }
    } else if args[0] == "__stdin_workload"@ {
        match workload_meaning(args.skip(1)) {
            Ok(found) => Ok(InvocationView::StdinWorkload(found)),
            Err(error) => Err(error),
        }
    } else {
        Err(ArgsErrorView { fault: ArgsFault::CommandUnknown, argument: args[0] })
    }
}

fn parse_trial(mode: Mode, args: &[String]) -> (r: Result<Invocation, ArgsError>)
    ensures
        match r {
            Ok(invocation) => trial_meaning(mode, text::texts(args@)) == Ok::<
                InvocationView,
                ArgsErrorView,
            >(invocation@),
            Err(error) => trial_meaning(mode, text::texts(args@)) == Err::<
                InvocationView,
                ArgsErrorView,
            >(error@),
        },
{
    match Options::parse(args) {
        Ok(Some(options)) => Ok(Invocation::Trial(mode, options)),
        Ok(None) => Ok(Invocation::Help),
        Err(error) => Err(error),
    }
}

/// Reads a whole command line, without the name of the program.
pub fn parse(args: &[String]) -> (r: Result<Invocation, ArgsError>)
    ensures
        match r {
            Ok(invocation) => invocation_meaning(text::texts(args@)) == Ok::<
                InvocationView,
                ArgsErrorView,
            >(invocation@),
            Err(error) => invocation_meaning(text::texts(args@)) == Err::<
                InvocationView,
                ArgsErrorView,
            >(error@),
        },
{
    if args.len() == 0 {
        return Ok(Invocation::Help);
    }
    let ghost all = text::texts(args@);
    assert(all[0] == args@[0]@);
    let tail = strings_from(args, 1);
    let word = args[0].as_str();
    if str_equal(word, "--help") || str_equal(word, "-h") {
        Ok(Invocation::Help)
    } else if str_equal(word, "smoke") {
        parse_trial(Mode::Smoke, tail.as_slice())
    } else if str_equal(word, "chaos") {
        parse_trial(Mode::Chaos, tail.as_slice())
    } else if str_equal(word, "__controller") {
        match ControllerArgs::parse(tail.as_slice()) {
            Ok(found) => Ok(Invocation::Controller(found)),
            Err(error) => Err(error),
        }
    } else if str_equal(word, "__stdin_transport") {
        match StdinTransportArgs::parse(tail.as_slice()) {
            Ok(found) => Ok(Invocation::StdinTransport(found)),
            Err(error) => Err(error),
        }
    } else if str_equal(word, "__stdin_workload") {
        match StdinWorkloadArgs::parse(tail.as_slice()) {
            Ok(found) => Ok(Invocation::StdinWorkload(found)),
            Err(error) => Err(error),
        }
    } else {
        Err(refused(ArgsFault::CommandUnknown, word))
    }
}

/// The words that ask for a disconnection, if one is asked for.
pub open spec fn kill_words(kill_after_ms: Option<u64>) -> Seq<Seq<char>> {
    match kill_after_ms {
        Some(value) => seq!["--kill-after-ms"@, text::decimal(value as nat)],
        None => Seq::empty(),
    }
}

/// The words that ask for an exit code, if one is asked for.
pub open spec fn exit_words(expect_exit: Option<i32>) -> Seq<Seq<char>> {
    match expect_exit {
        Some(value) => seq!["--expect-exit"@, text::signed_decimal(value as int)],
        None => Seq::empty(),
    }
}

/// The command line of a controller process.
pub open spec fn controller_words(run: ControllerView) -> Seq<Seq<char>> {
    seq![
        "__controller"@,
        "--pipekeep"@,
        run.pipekeep->0,
        "--runtime"@,
        run.runtime->0,
        "--id"@,
        run.id->0,
        "--state"@,
        run.state->0,
        "--workload"@,
        run.workload->0,
        "--ttl-secs"@,
        text::decimal(run.ttl_secs as nat),
        if run.create {
            "--create"@
        } else {
            "--resume"@
        },
    ] + kill_words(run.kill_after_ms) + exit_words(run.expect_exit)
}

impl ControllerArgs {
    /// The command line that starts a controller process with these arguments.
    pub fn command_line(&self) -> (r: Vec<String>)
        ensures
            text::texts(r@) == controller_words(self@),
    {
        let mut words: Vec<String> = Vec::new();
        words.push("__controller".to_owned());
        words.push("--pipekeep".to_owned());
        words.push(self.pipekeep.clone());
        words.push("--runtime".to_owned());
        words.push(self.runtime.clone());
        words.push("--id".to_owned());
        words.push(self.id.clone());
        words.push("--state".to_owned());
        words.push(self.state.clone());
        words.push("--workload".to_owned());
        words.push(self.workload.clone());
        words.push("--ttl-secs".to_owned());
        words.push(decimal_text(self.ttl_secs));
        if self.create {
            words.push("--create".to_owned());
        } else {
            words.push("--resume".to_owned());
        }
        if let Some(value) = self.kill_after_ms {
            words.push("--kill-after-ms".to_owned());
            words.push(decimal_text(value));
        }
        if let Some(value) = self.expect_exit {
            words.push("--expect-exit".to_owned());
            words.push(signed_decimal_text(value as i64));
        }
        assert(text::texts(words@) =~= controller_words(self@));
        words
    }
}

/// The command line of a transport of the input trial.
pub open spec fn transport_words(run: TransportView) -> Seq<Seq<char>> {
    seq![
        "__stdin_transport"@,
        "--pipekeep"@,
        run.pipekeep->0,
        "--runtime"@,
        run.runtime->0,
        "--id"@,
        run.id->0,
        "--root"@,
        run.root->0,
        "--input-len"@,
        text::decimal(run.input_len->0 as nat),
    ]
}

impl StdinTransportArgs {
    /// The command line that starts a transport with these arguments.
    pub fn command_line(&self) -> (r: Vec<String>)
        ensures
            text::texts(r@) == transport_words(self@),
    {
        let mut words: Vec<String> = Vec::new();
        words.push("__stdin_transport".to_owned());
        words.push("--pipekeep".to_owned());
        words.push(self.pipekeep.clone());
        words.push("--runtime".to_owned());
        words.push(self.runtime.clone());
        words.push("--id".to_owned());
        words.push(self.id.clone());
        words.push("--root".to_owned());
        words.push(self.root.clone());
        words.push("--input-len".to_owned());
        words.push(decimal_text(self.input_len as u64));
        assert(text::texts(words@) =~= transport_words(self@));
        words
    }
}

/// The command line of the command of the input trial.
pub open spec fn workload_words(run: WorkloadView) -> Seq<Seq<char>> {
    seq![
        "__stdin_workload"@,
        "--root"@,
        run.root->0,
        "--input-len"@,
        text::decimal(run.input_len->0 as nat),
    ]
}

impl StdinWorkloadArgs {
    /// The command line that starts the command with these arguments.
    pub fn command_line(&self) -> (r: Vec<String>)
        ensures
            text::texts(r@) == workload_words(self@),
    {
        let mut words: Vec<String> = Vec::new();
        words.push("__stdin_workload".to_owned());
        words.push("--root".to_owned());
        words.push(self.root.clone());
        words.push("--input-len".to_owned());
        words.push(decimal_text(self.input_len as u64));
        assert(text::texts(words@) =~= workload_words(self@));
        words
    }
}

proof fn flags_differ()
    ensures
        flag_of("--pipekeep"@) == Flag::Pipekeep,
        flag_of("--runtime"@) == Flag::Runtime,
        flag_of("--id"@) == Flag::Id,
        flag_of("--state"@) == Flag::State,
        flag_of("--workload"@) == Flag::Workload,
        flag_of("--root"@) == Flag::Root,
        flag_of("--input-len"@) == Flag::InputLength,
        flag_of("--create"@) == Flag::Create,
        flag_of("--resume"@) == Flag::Resume,
        flag_of("--kill-after-ms"@) == Flag::KillAfter,
        flag_of("--expect-exit"@) == Flag::ExpectExit,
        flag_of("--ttl-secs"@) == Flag::Ttl,
{
    reveal_strlit("--pipekeep");
    reveal_strlit("--runtime");
    reveal_strlit("--id");
    reveal_strlit("--state");
    reveal_strlit("--workload");
    reveal_strlit("--root");
    reveal_strlit("--input-len");
    reveal_strlit("--create");
    reveal_strlit("--resume");
    reveal_strlit("--kill-after-ms");
    reveal_strlit("--expect-exit");
    reveal_strlit("--ttl-secs");
    assert("--pipekeep"@.len() == 10 && "--pipekeep"@[2] == 'p');
    assert("--runtime"@.len() == 9);
    assert("--id"@.len() == 4);
    assert("--state"@.len() == 7);
    assert("--workload"@.len() == 10 && "--workload"@[2] == 'w');
    assert("--root"@.len() == 6);
    assert("--input-len"@.len() == 11);
    assert("--create"@.len() == 8 && "--create"@[2] == 'c');
    assert("--resume"@.len() == 8 && "--resume"@[2] == 'r');
    assert("--kill-after-ms"@.len() == 15);
    assert("--expect-exit"@.len() == 13);
    assert("--ttl-secs"@.len() == 10 && "--ttl-secs"@[2] == 't');
}

proof fn commands_differ()
    ensures
        "--help"@.len() == 6,
        "-h"@.len() == 2,
        "smoke"@.len() == 5,
        "chaos"@.len() == 5,
        "__controller"@.len() == 12,
        "__stdin_transport"@.len() == 17,
        "__stdin_workload"@.len() == 16,
{
    reveal_strlit("--help");
    reveal_strlit("-h");
    reveal_strlit("smoke");
    reveal_strlit("chaos");
    reveal_strlit("__controller");
    reveal_strlit("__stdin_transport");
    reveal_strlit("__stdin_workload");
}

proof fn numbers_read_back(value: u64)
    ensures
        unsigned_value(text::decimal(value as nat)) == Some(value),
{
    text::decimal_round_trip(value as nat);
    assert(text::is_digit(text::decimal(value as nat)[0]));
}

proof fn signed_numbers_read_back(value: i32)
    ensures
        small_value(text::signed_decimal(value as int)) == Some(value),
{
    let written = text::signed_decimal(value as int);
    if value < 0 {
        text::decimal_round_trip((-value) as nat);
        assert(written.skip(1) =~= text::decimal((-value) as nat));
    } else {
        text::decimal_round_trip(value as nat);
        assert(text::is_digit(text::decimal(value as nat)[0]));
    }
}

/// A controller process reads from its command line exactly the arguments that
/// it was started with.
pub proof fn controller_command_line_round_trips(run: ControllerView)
    requires
        controller_lacks(run) is None,
    ensures
        invocation_meaning(controller_words(run)) == Ok::<InvocationView, ArgsErrorView>(
            InvocationView::Controller(run),
        ),
{
    flags_differ();
    commands_differ();
    numbers_read_back(run.ttl_secs);
    let all = controller_words(run);
    let start = no_controller();
    let one = ControllerView { pipekeep: run.pipekeep, ..start };
    let two = ControllerView { runtime: run.runtime, ..one };
    let three = ControllerView { id: run.id, ..two };
    let four = ControllerView { state: run.state, ..three };
    let five = ControllerView { workload: run.workload, ..four };
    let six = ControllerView { ttl_secs: run.ttl_secs, ..five };
    let seven = ControllerView { create: run.create, ..six };
    let eight = ControllerView { kill_after_ms: run.kill_after_ms, ..seven };
    let tail = kill_words(run.kill_after_ms) + exit_words(run.expect_exit);
    assert(all.skip(1).skip(2) =~= all.skip(3));
    assert(controller_scan(start, all.skip(1)) == controller_scan(one, all.skip(3)));
    assert(all.skip(3).skip(2) =~= all.skip(5));
    assert(controller_scan(one, all.skip(3)) == controller_scan(two, all.skip(5)));
    assert(all.skip(5).skip(2) =~= all.skip(7));
    assert(controller_scan(two, all.skip(5)) == controller_scan(three, all.skip(7)));
    assert(all.skip(7).skip(2) =~= all.skip(9));
    assert(controller_scan(three, all.skip(7)) == controller_scan(four, all.skip(9)));
    assert(all.skip(9).skip(2) =~= all.skip(11));
    assert(controller_scan(four, all.skip(9)) == controller_scan(five, all.skip(11)));
    assert(all.skip(11).skip(2) =~= all.skip(13));
    assert(controller_scan(five, all.skip(11)) == controller_scan(six, all.skip(13)));
    assert(all.skip(13).skip(1) =~= tail);
    assert(controller_scan(six, all.skip(13)) == controller_scan(seven, tail));
    let last = exit_words(run.expect_exit);
    if run.kill_after_ms is Some {
        numbers_read_back(run.kill_after_ms->0);
        assert(tail.skip(2) =~= last);
    } else {
        assert(tail =~= last);
    }
    assert(controller_scan(seven, tail) == controller_scan(eight, last));
    if run.expect_exit is Some {
        signed_numbers_read_back(run.expect_exit->0);
        assert(last.skip(2).len() == 0);
        assert(controller_scan(eight, last) == controller_scan(run, last.skip(2)));
    }
    assert(controller_scan(eight, last) == Ok::<ControllerView, ArgsErrorView>(run));
}

/// A transport reads from its command line exactly the arguments that it was
/// started with.
pub proof fn transport_command_line_round_trips(run: TransportView)
    requires
        transport_lacks(run) is None,
    ensures
        invocation_meaning(transport_words(run)) == Ok::<InvocationView, ArgsErrorView>(
            InvocationView::StdinTransport(run),
        ),
{
    flags_differ();
    commands_differ();
    numbers_read_back(run.input_len->0 as u64);
    let all = transport_words(run);
    let start = no_transport();
    let one = TransportView { pipekeep: run.pipekeep, ..start };
    let two = TransportView { runtime: run.runtime, ..one };
    let three = TransportView { id: run.id, ..two };
    let four = TransportView { root: run.root, ..three };
    assert(all.skip(1).skip(2) =~= all.skip(3));
    assert(transport_scan(start, all.skip(1)) == transport_scan(one, all.skip(3)));
    assert(all.skip(3).skip(2) =~= all.skip(5));
    assert(transport_scan(one, all.skip(3)) == transport_scan(two, all.skip(5)));
    assert(all.skip(5).skip(2) =~= all.skip(7));
    assert(transport_scan(two, all.skip(5)) == transport_scan(three, all.skip(7)));
    assert(all.skip(7).skip(2) =~= all.skip(9));
    assert(transport_scan(three, all.skip(7)) == transport_scan(four, all.skip(9)));
    assert(all.skip(9).skip(2).len() == 0);
    assert(transport_scan(four, all.skip(9)) == transport_scan(run, all.skip(9).skip(2)));
}

/// The command of the input trial reads from its command line exactly the
/// arguments that it was started with.
pub proof fn workload_command_line_round_trips(run: WorkloadView)
    requires
        run.root is Some,
        run.input_len is Some,
    ensures
        invocation_meaning(workload_words(run)) == Ok::<InvocationView, ArgsErrorView>(
            InvocationView::StdinWorkload(run),
        ),
{
    flags_differ();
    commands_differ();
    numbers_read_back(run.input_len->0 as u64);
    let all = workload_words(run);
    let start = WorkloadView { root: None, input_len: None };
    let one = WorkloadView { root: run.root, ..start };
    assert(all.skip(1).skip(2) =~= all.skip(3));
    assert(workload_scan(start, all.skip(1)) == workload_scan(one, all.skip(3)));
    assert(all.skip(3).skip(2).len() == 0);
    assert(workload_scan(one, all.skip(3)) == workload_scan(run, all.skip(3).skip(2)));
}

/// A controller that is started on the command line that is made for it has exactly
/// the arguments that were meant.
pub proof fn controllers_are_started_as_meant(
    meant: ControllerArgs,
    words: Vec<String>,
    line: &[String],
    r: Result<Invocation, ArgsError>,
)
    requires
        call_ensures(ControllerArgs::command_line, (&meant,), words),
        line@ == words@,
        call_ensures(parse, (line,), r),
    ensures
        r matches Ok(Invocation::Controller(found)) && found.pipekeep@ == meant.pipekeep@
            && found.runtime@ == meant.runtime@ && found.id@ == meant.id@ && found.state@
            == meant.state@ && found.workload@ == meant.workload@ && found.create == meant.create
            && found.kill_after_ms == meant.kill_after_ms && found.expect_exit == meant.expect_exit
            && found.ttl_secs == meant.ttl_secs,
{
    controller_command_line_round_trips(meant@);
    assert(r is Ok);
    assert(r->Ok_0@ == InvocationView::Controller(meant@));
}

/// A transport that is started on the command line that is made for it has exactly
/// the arguments that were meant.
pub proof fn transports_are_started_as_meant(
    meant: StdinTransportArgs,
    words: Vec<String>,
    line: &[String],
    r: Result<Invocation, ArgsError>,
)
    requires
        call_ensures(StdinTransportArgs::command_line, (&meant,), words),
        line@ == words@,
        call_ensures(parse, (line,), r),
    ensures
        r matches Ok(Invocation::StdinTransport(found)) && found.pipekeep@ == meant.pipekeep@
            && found.runtime@ == meant.runtime@ && found.id@ == meant.id@ && found.root@
            == meant.root@ && found.input_len == meant.input_len,
{
    transport_command_line_round_trips(meant@);
    assert(r is Ok);
    assert(r->Ok_0@ == InvocationView::StdinTransport(meant@));
}

/// The command that is started on the command line that is made for it has exactly
/// the arguments that were meant.
pub proof fn workloads_are_started_as_meant(
    meant: StdinWorkloadArgs,
    words: Vec<String>,
    line: &[String],
    r: Result<Invocation, ArgsError>,
)
    requires
        call_ensures(StdinWorkloadArgs::command_line, (&meant,), words),
        line@ == words@,
        call_ensures(parse, (line,), r),
    ensures
        r matches Ok(Invocation::StdinWorkload(found)) && found.root@ == meant.root@
            && found.input_len == meant.input_len,
{
    workload_command_line_round_trips(meant@);
    assert(r is Ok);
    assert(r->Ok_0@ == InvocationView::StdinWorkload(meant@));
}

proof fn trial_flags_differ()
    ensures
        flag_of("--seed"@) == Flag::Seed,
        flag_of("--cycles"@) == Flag::Cycles,
        flag_of("--retain-temp"@) == Flag::RetainTemp,
        flag_of("--help"@) == Flag::Help,
        flag_of("-h"@) == Flag::Help,
{
    flags_differ();
    reveal_strlit("--seed");
    reveal_strlit("--cycles");
    reveal_strlit("--retain-temp");
    reveal_strlit("--help");
    reveal_strlit("-h");
    reveal_strlit("--pipekeep");
    reveal_strlit("--runtime");
    reveal_strlit("--id");
    reveal_strlit("--state");
    reveal_strlit("--workload");
    reveal_strlit("--root");
    reveal_strlit("--input-len");
    reveal_strlit("--create");
    reveal_strlit("--resume");
    reveal_strlit("--kill-after-ms");
    reveal_strlit("--expect-exit");
    reveal_strlit("--ttl-secs");
    assert("--seed"@.len() == 6 && "--seed"@[2] == 's');
    assert("--root"@.len() == 6 && "--root"@[2] == 'r');
    assert("--help"@.len() == 6 && "--help"@[2] == 'h');
    assert("--cycles"@.len() == 8 && "--cycles"@[3] == 'y');
    assert("--create"@.len() == 8 && "--create"@[3] == 'r');
    assert("--resume"@.len() == 8 && "--resume"@[3] == 'e');
    assert("--retain-temp"@.len() == 13 && "--retain-temp"@[2] == 'r');
    assert("--expect-exit"@.len() == 13 && "--expect-exit"@[2] == 'e');
    assert("--pipekeep"@.len() == 10);
    assert("--runtime"@.len() == 9);
    assert("--id"@.len() == 4);
    assert("--state"@.len() == 7);
    assert("--workload"@.len() == 10);
    assert("--input-len"@.len() == 11);
    assert("--kill-after-ms"@.len() == 15);
    assert("--ttl-secs"@.len() == 10);
    assert("-h"@.len() == 2);
}

/// A trial is what its word says, with the seed and the number of cuts that are
/// written behind it; no cuts are refused. Without options it is the same trial
/// with twelve cuts and no seed of its own.
pub proof fn trials_are_what_they_name(
    hard: bool,
    seed: u64,
    cycles: usize,
    plain: &[String],
    full: &[String],
    r: Result<Invocation, ArgsError>,
    s: Result<Invocation, ArgsError>,
)
    requires
        ({
            let word = if hard {
                "chaos"@
            } else {
                "smoke"@
            };
            &&& text::texts(plain@) == seq![word]
            &&& text::texts(full@) == seq![
                word,
                "--seed"@,
                text::decimal(seed as nat),
                "--cycles"@,
                text::decimal(cycles as nat),
            ]
        }),
        call_ensures(parse, (plain,), r),
        call_ensures(parse, (full,), s),
    ensures
        r matches Ok(Invocation::Trial(mode, options)) && (mode is Chaos <==> hard)
            && options.cycles == 12 && options.seed is None && !options.retain_temp
            && options.pipekeep is None,
        s is Ok <==> cycles > 0,
        s is Ok ==> (s->Ok_0 matches Invocation::Trial(mode, options) && (mode is Chaos <==> hard)
            && options.cycles == cycles && options.seed == Some(seed) && !options.retain_temp
            && options.pipekeep is None),
        s matches Err(error) ==> error.fault is CyclesZero,
{
    trial_flags_differ();
    commands_differ();
    reveal_strlit("smoke");
    reveal_strlit("chaos");
    assert("smoke"@[0] != "chaos"@[0]);
    numbers_read_back(seed);
    numbers_read_back(cycles as u64);
    let first = text::texts(plain@);
    let all = text::texts(full@);
    assert(first.skip(1).len() == 0);
    assert(options_scan(default_options(), first.skip(1)) == Ok::<
        Option<OptionsView>,
        ArgsErrorView,
    >(Some(default_options())));
    let seeded = OptionsView { seed: Some(seed), ..default_options() };
    let rest = all.skip(1);
    assert(rest[0] == "--seed"@);
    assert(rest[1] == text::decimal(seed as nat));
    let last = rest.skip(2);
    assert(last[0] == "--cycles"@);
    assert(last[1] == text::decimal(cycles as nat));
    assert(last.skip(2).len() == 0);
    assert(options_scan(default_options(), rest) == options_scan(seeded, last));
    if cycles > 0 {
        assert(options_scan(seeded, last) == options_scan(
            OptionsView { cycles, ..seeded },
            last.skip(2),
        ));
    }
    assert(match r {
        Ok(invocation) => invocation_meaning(first) == Ok::<InvocationView, ArgsErrorView>(
            invocation@,
        ),
        Err(error) => invocation_meaning(first) == Err::<InvocationView, ArgsErrorView>(error@),
    });
    assert(match s {
        Ok(invocation) => invocation_meaning(all) == Ok::<InvocationView, ArgsErrorView>(
            invocation@,
        ),
        Err(error) => invocation_meaning(all) == Err::<InvocationView, ArgsErrorView>(error@),
    });
}

proof fn options_scan_continues(found: OptionsView, a: Seq<Seq<char>>, b: Seq<Seq<char>>)
    requires
        options_scan(found, a) matches Ok(Some(_)),
    ensures
        options_scan(found, a + b) == options_scan(options_scan(found, a)->Ok_0->0, b),
    decreases a.len(),
{
    if a.len() == 0 {
        assert(a + b =~= b);
    } else {
        assert((a + b)[0] == a[0]);
        assert((a + b).skip(1) =~= a.skip(1) + b);
        if a.len() >= 2 {
            assert((a + b)[1] == a[1]);
            assert((a + b).skip(2) =~= a.skip(2) + b);
        }
        match flag_of(a[0]) {
            Flag::Pipekeep => options_scan_continues(OptionsView { pipekeep: Some(a[1]), ..found }, a.skip(2), b),
            Flag::RetainTemp => options_scan_continues(OptionsView { retain_temp: true, ..found }, a.skip(1), b),
            Flag::Seed => options_scan_continues(OptionsView { seed: Some(unsigned_value(a[1])->0), ..found }, a.skip(2), b),
            Flag::Cycles => options_scan_continues(OptionsView { cycles: length_value(a[1])->0, ..found }, a.skip(2), b),
            _ => {},
        }
    }
}

proof fn controller_scan_continues(found: ControllerView, a: Seq<Seq<char>>, b: Seq<Seq<char>>)
    requires
        controller_scan(found, a) is Ok,
    ensures
        controller_scan(found, a + b) == controller_scan(controller_scan(found, a)->Ok_0, b),
    decreases a.len(),
{
    if a.len() == 0 {
        assert(a + b =~= b);
    } else {
        assert((a + b)[0] == a[0]);
        assert((a + b).skip(1) =~= a.skip(1) + b);
        if a.len() >= 2 {
            assert((a + b)[1] == a[1]);
            assert((a + b).skip(2) =~= a.skip(2) + b);
        }
        match flag_of(a[0]) {
            Flag::Pipekeep => controller_scan_continues(ControllerView { pipekeep: Some(a[1]), ..found }, a.skip(2), b),
            Flag::Runtime => controller_scan_continues(ControllerView { runtime: Some(a[1]), ..found }, a.skip(2), b),
            Flag::Id => controller_scan_continues(ControllerView { id: Some(a[1]), ..found }, a.skip(2), b),
            Flag::State => controller_scan_continues(ControllerView { state: Some(a[1]), ..found }, a.skip(2), b),
            Flag::Workload => controller_scan_continues(ControllerView { workload: Some(a[1]), ..found }, a.skip(2), b),
            Flag::Create => controller_scan_continues(ControllerView { create: true, ..found }, a.skip(1), b),
            Flag::Resume => controller_scan_continues(ControllerView { create: false, ..found }, a.skip(1), b),
            Flag::KillAfter => controller_scan_continues(ControllerView { kill_after_ms: Some(unsigned_value(a[1])->0), ..found }, a.skip(2), b),
            Flag::ExpectExit => controller_scan_continues(ControllerView { expect_exit: Some(small_value(a[1])->0), ..found }, a.skip(2), b),
            Flag::Ttl => controller_scan_continues(ControllerView { ttl_secs: unsigned_value(a[1])->0, ..found }, a.skip(2), b),
            _ => {},
        }
    }
}

proof fn transport_scan_continues(found: TransportView, a: Seq<Seq<char>>, b: Seq<Seq<char>>)
    requires
        transport_scan(found, a) is Ok,
    ensures
        transport_scan(found, a + b) == transport_scan(transport_scan(found, a)->Ok_0, b),
    decreases a.len(),
{
    if a.len() == 0 {
        assert(a + b =~= b);
    } else {
        assert((a + b)[0] == a[0]);
        assert((a + b).skip(1) =~= a.skip(1) + b);
        if a.len() >= 2 {
            assert((a + b)[1] == a[1]);
            assert((a + b).skip(2) =~= a.skip(2) + b);
        }
        match flag_of(a[0]) {
            Flag::Pipekeep => transport_scan_continues(TransportView { pipekeep: Some(a[1]), ..found }, a.skip(2), b),
            Flag::Runtime => transport_scan_continues(TransportView { runtime: Some(a[1]), ..found }, a.skip(2), b),
            Flag::Id => transport_scan_continues(TransportView { id: Some(a[1]), ..found }, a.skip(2), b),
            Flag::Root => transport_scan_continues(TransportView { root: Some(a[1]), ..found }, a.skip(2), b),
            Flag::InputLength => transport_scan_continues(TransportView { input_len: Some(length_value(a[1])->0), ..found }, a.skip(2), b),
            _ => {},
        }
    }
}

proof fn workload_scan_continues(found: WorkloadView, a: Seq<Seq<char>>, b: Seq<Seq<char>>)
    requires
        workload_scan(found, a) is Ok,
    ensures
        workload_scan(found, a + b) == workload_scan(workload_scan(found, a)->Ok_0, b),
    decreases a.len(),
{
    if a.len() == 0 {
        assert(a + b =~= b);
    } else {
        assert((a + b)[0] == a[0]);
        assert((a + b).skip(1) =~= a.skip(1) + b);
        if a.len() >= 2 {
            assert((a + b)[1] == a[1]);
            assert((a + b).skip(2) =~= a.skip(2) + b);
        }
        match flag_of(a[0]) {
            Flag::Root => workload_scan_continues(WorkloadView { root: Some(a[1]), ..found }, a.skip(2), b),
            Flag::InputLength => workload_scan_continues(WorkloadView { input_len: Some(length_value(a[1])->0), ..found }, a.skip(2), b),
            _ => {},
        }
    }
}

/// A further option of a trial changes what it names and nothing else, and one that
/// is not known, lacks its value or has a wrong one is refused.
pub proof fn trial_options_mean_what_they_name(
    line: &[String],
    shorter: &[String],
    longer: &[String],
    flag: Seq<char>,
    value: &str,
    number: Option<u64>,
    r: Result<Option<Options>, ArgsError>,
    t: Result<Option<Options>, ArgsError>,
    s: Result<Option<Options>, ArgsError>,
)
    requires
        call_ensures(Options::parse, (line,), r),
        call_ensures(Options::parse, (shorter,), t),
        call_ensures(Options::parse, (longer,), s),
        text::texts(shorter@) == text::texts(line@) + seq![flag],
        text::texts(longer@) == text::texts(line@) + seq![flag, value@],
        call_ensures(parse_unsigned, (value,), number),
    ensures
        r matches Ok(Some(before)) ==> {
            &&& flag == "--pipekeep"@ ==> (s matches Ok(Some(after))
                && text::option_text(after.pipekeep) == Some(value@) && after.seed == before.seed
                && after.cycles == before.cycles && after.retain_temp == before.retain_temp)
            &&& flag == "--seed"@ && number is Some ==> (s matches Ok(Some(after))
                && after.seed == Some(number->0)
                && text::option_text(after.pipekeep) == text::option_text(before.pipekeep)
                && after.cycles == before.cycles && after.retain_temp == before.retain_temp)
            &&& flag == "--seed"@ && !(number is Some) ==> (s matches Err(error)
                && error.argument@ == value@)
            &&& flag == "--cycles"@ && number is Some && number->0 <= usize::MAX && number->0 > 0
                ==> (s matches Ok(Some(after)) && after.cycles == number->0
                && text::option_text(after.pipekeep) == text::option_text(before.pipekeep)
                && after.seed == before.seed && after.retain_temp == before.retain_temp)
            &&& flag == "--cycles"@ && !(number is Some && number->0 <= usize::MAX && number->0 > 0)
                ==> (s matches Err(error) && error.argument@ == value@)
            &&& flag == "--retain-temp"@ ==> (t matches Ok(Some(after)) && after.retain_temp
                && text::option_text(after.pipekeep) == text::option_text(before.pipekeep)
                && after.seed == before.seed && after.cycles == before.cycles)
            &&& flag == "--pipekeep"@ ==> t is Err
            &&& flag == "--seed"@ ==> t is Err
            &&& flag == "--cycles"@ ==> t is Err
            &&& flag != "--pipekeep"@ && flag != "--seed"@ && flag != "--cycles"@
                && flag != "--retain-temp"@ && flag != "--help"@ && flag != "-h"@
                ==> (t matches Err(error) && error.fault is OptionUnknown
                && error.argument@ == flag)
            &&& flag == "--help"@ || flag == "-h"@ ==> (t matches Ok(None))
        },
{
    flags_differ();
    trial_flags_differ();
    let start = default_options();
    let all = text::texts(line@);
    if let Ok(Some(before)) = r {
        reveal_with_fuel(options_scan, 3);
        options_scan_continues(start, all, seq![flag]);
        options_scan_continues(start, all, seq![flag, value@]);
        let one = seq![flag];
        let two = seq![flag, value@];
        assert(one[0] == flag && two[0] == flag && two[1] == value@);
        assert(one.skip(1).len() == 0);
        assert(two.skip(2).len() == 0);
    }
}

/// A further option of a controller changes what it names and nothing else, and one
/// that is not known, lacks its value or has a wrong one is refused.
pub proof fn controller_options_mean_what_they_name(
    line: &[String],
    shorter: &[String],
    longer: &[String],
    flag: Seq<char>,
    value: &str,
    number: Option<u64>,
    whole: Option<i32>,
    r: Result<ControllerArgs, ArgsError>,
    t: Result<ControllerArgs, ArgsError>,
    s: Result<ControllerArgs, ArgsError>,
)
    requires
        call_ensures(ControllerArgs::parse, (line,), r),
        call_ensures(ControllerArgs::parse, (shorter,), t),
        call_ensures(ControllerArgs::parse, (longer,), s),
        text::texts(shorter@) == text::texts(line@) + seq![flag],
        text::texts(longer@) == text::texts(line@) + seq![flag, value@],
        call_ensures(parse_unsigned, (value,), number),
        call_ensures(parse_signed, (value,), whole),
    ensures
        r matches Ok(before) ==> {
            &&& flag == "--pipekeep"@ ==> (s matches Ok(after) && after.pipekeep@ == value@
                && after.runtime@ == before.runtime@ && after.id@ == before.id@
                && after.state@ == before.state@ && after.workload@ == before.workload@
                && after.kill_after_ms == before.kill_after_ms
                && after.expect_exit == before.expect_exit && after.ttl_secs == before.ttl_secs
                && after.create == before.create)
            &&& flag == "--runtime"@ ==> (s matches Ok(after) && after.runtime@ == value@
                && after.pipekeep@ == before.pipekeep@ && after.id@ == before.id@
                && after.state@ == before.state@ && after.workload@ == before.workload@
                && after.kill_after_ms == before.kill_after_ms
                && after.expect_exit == before.expect_exit && after.ttl_secs == before.ttl_secs
                && after.create == before.create)
            &&& flag == "--id"@ ==> (s matches Ok(after) && after.id@ == value@
                && after.pipekeep@ == before.pipekeep@ && after.runtime@ == before.runtime@
                && after.state@ == before.state@ && after.workload@ == before.workload@
                && after.kill_after_ms == before.kill_after_ms
                && after.expect_exit == before.expect_exit && after.ttl_secs == before.ttl_secs
                && after.create == before.create)
            &&& flag == "--state"@ ==> (s matches Ok(after) && after.state@ == value@
                && after.pipekeep@ == before.pipekeep@ && after.runtime@ == before.runtime@
                && after.id@ == before.id@ && after.workload@ == before.workload@
                && after.kill_after_ms == before.kill_after_ms
                && after.expect_exit == before.expect_exit && after.ttl_secs == before.ttl_secs
                && after.create == before.create)
            &&& flag == "--workload"@ ==> (s matches Ok(after) && after.workload@ == value@
                && after.pipekeep@ == before.pipekeep@ && after.runtime@ == before.runtime@
                && after.id@ == before.id@ && after.state@ == before.state@
                && after.kill_after_ms == before.kill_after_ms
                && after.expect_exit == before.expect_exit && after.ttl_secs == before.ttl_secs
                && after.create == before.create)
            &&& flag == "--kill-after-ms"@ && number is Some ==> (s matches Ok(after)
                && after.kill_after_ms == Some(number->0) && after.pipekeep@ == before.pipekeep@
                && after.runtime@ == before.runtime@ && after.id@ == before.id@
                && after.state@ == before.state@ && after.workload@ == before.workload@
                && after.expect_exit == before.expect_exit && after.ttl_secs == before.ttl_secs
                && after.create == before.create)
            &&& flag == "--kill-after-ms"@ && !(number is Some) ==> (s matches Err(error)
                && error.argument@ == value@)
            &&& flag == "--expect-exit"@ && whole is Some ==> (s matches Ok(after)
                && after.expect_exit == whole && after.pipekeep@ == before.pipekeep@
                && after.runtime@ == before.runtime@ && after.id@ == before.id@
                && after.state@ == before.state@ && after.workload@ == before.workload@
                && after.kill_after_ms == before.kill_after_ms && after.ttl_secs == before.ttl_secs
                && after.create == before.create)
            &&& flag == "--expect-exit"@ && !(whole is Some) ==> (s matches Err(error)
                && error.argument@ == value@)
            &&& flag == "--ttl-secs"@ && number is Some ==> (s matches Ok(after)
                && after.ttl_secs == number->0 && after.pipekeep@ == before.pipekeep@
                && after.runtime@ == before.runtime@ && after.id@ == before.id@
                && after.state@ == before.state@ && after.workload@ == before.workload@
                && after.kill_after_ms == before.kill_after_ms
                && after.expect_exit == before.expect_exit && after.create == before.create)
            &&& flag == "--ttl-secs"@ && !(number is Some) ==> (s matches Err(error)
                && error.argument@ == value@)
            &&& flag == "--create"@ ==> (t matches Ok(after) && after.create
                && after.pipekeep@ == before.pipekeep@ && after.runtime@ == before.runtime@
                && after.id@ == before.id@ && after.state@ == before.state@
                && after.workload@ == before.workload@
                && after.kill_after_ms == before.kill_after_ms
                && after.expect_exit == before.expect_exit && after.ttl_secs == before.ttl_secs)
            &&& flag == "--resume"@ ==> (t matches Ok(after) && !after.create
                && after.pipekeep@ == before.pipekeep@ && after.runtime@ == before.runtime@
                && after.id@ == before.id@ && after.state@ == before.state@
                && after.workload@ == before.workload@
                && after.kill_after_ms == before.kill_after_ms
                && after.expect_exit == before.expect_exit && after.ttl_secs == before.ttl_secs)
            &&& flag == "--pipekeep"@ ==> (t matches Err(error) && error.fault is ValueMissing
                && error.argument@ == flag)
            &&& flag == "--runtime"@ ==> (t matches Err(error) && error.fault is ValueMissing
                && error.argument@ == flag)
            &&& flag == "--id"@ ==> (t matches Err(error) && error.fault is ValueMissing
                && error.argument@ == flag)
            &&& flag == "--state"@ ==> (t matches Err(error) && error.fault is ValueMissing
                && error.argument@ == flag)
            &&& flag == "--workload"@ ==> (t matches Err(error) && error.fault is ValueMissing
                && error.argument@ == flag)
            &&& flag == "--kill-after-ms"@ ==> (t matches Err(error) && error.fault is ValueMissing
                && error.argument@ == flag)
            &&& flag == "--expect-exit"@ ==> (t matches Err(error) && error.fault is ValueMissing
                && error.argument@ == flag)
            &&& flag == "--ttl-secs"@ ==> (t matches Err(error) && error.fault is ValueMissing
                && error.argument@ == flag)
            &&& flag != "--pipekeep"@ && flag != "--runtime"@ && flag != "--id"@
                && flag != "--state"@ && flag != "--workload"@ && flag != "--kill-after-ms"@
                && flag != "--expect-exit"@ && flag != "--ttl-secs"@ && flag != "--create"@
                && flag != "--resume"@ ==> (t matches Err(error) && error.fault is ControllerUnknown
                && error.argument@ == flag)
        },
{
    flags_differ();
    let start = no_controller();
    let all = text::texts(line@);
    if let Ok(before) = r {
        reveal_with_fuel(controller_scan, 3);
        controller_scan_continues(start, all, seq![flag]);
        controller_scan_continues(start, all, seq![flag, value@]);
        let one = seq![flag];
        let two = seq![flag, value@];
        assert(one[0] == flag && two[0] == flag && two[1] == value@);
        assert(one.skip(1).len() == 0);
        assert(two.skip(2).len() == 0);
    }
}

/// A further option of a transport changes what it names and nothing else, and one
/// that is not known, lacks its value or has a wrong one is refused.
pub proof fn transport_options_mean_what_they_name(
    line: &[String],
    shorter: &[String],
    longer: &[String],
    flag: Seq<char>,
    value: &str,
    number: Option<u64>,
    r: Result<StdinTransportArgs, ArgsError>,
    t: Result<StdinTransportArgs, ArgsError>,
    s: Result<StdinTransportArgs, ArgsError>,
)
    requires
        call_ensures(StdinTransportArgs::parse, (line,), r),
        call_ensures(StdinTransportArgs::parse, (shorter,), t),
        call_ensures(StdinTransportArgs::parse, (longer,), s),
        text::texts(shorter@) == text::texts(line@) + seq![flag],
        text::texts(longer@) == text::texts(line@) + seq![flag, value@],
        call_ensures(parse_unsigned, (value,), number),
    ensures
        r matches Ok(before) ==> {
            &&& flag == "--pipekeep"@ ==> (s matches Ok(after) && after.pipekeep@ == value@
                && after.runtime@ == before.runtime@ && after.id@ == before.id@
                && after.root@ == before.root@ && after.input_len == before.input_len)
            &&& flag == "--runtime"@ ==> (s matches Ok(after) && after.runtime@ == value@
                && after.pipekeep@ == before.pipekeep@ && after.id@ == before.id@
                && after.root@ == before.root@ && after.input_len == before.input_len)
            &&& flag == "--id"@ ==> (s matches Ok(after) && after.id@ == value@
                && after.pipekeep@ == before.pipekeep@ && after.runtime@ == before.runtime@
                && after.root@ == before.root@ && after.input_len == before.input_len)
            &&& flag == "--root"@ ==> (s matches Ok(after) && after.root@ == value@
                && after.pipekeep@ == before.pipekeep@ && after.runtime@ == before.runtime@
                && after.id@ == before.id@ && after.input_len == before.input_len)
            &&& flag == "--input-len"@ && number is Some && number->0 <= usize::MAX
                ==> (s matches Ok(after) && after.input_len == number->0
                && after.pipekeep@ == before.pipekeep@ && after.runtime@ == before.runtime@
                && after.id@ == before.id@ && after.root@ == before.root@)
            &&& flag == "--input-len"@ && !(number is Some && number->0 <= usize::MAX)
                ==> (s matches Err(error) && error.argument@ == value@)
            &&& flag == "--pipekeep"@ ==> (t matches Err(error) && error.fault is ValueMissing
                && error.argument@ == flag)
            &&& flag == "--runtime"@ ==> (t matches Err(error) && error.fault is ValueMissing
                && error.argument@ == flag)
            &&& flag == "--id"@ ==> (t matches Err(error) && error.fault is ValueMissing
                && error.argument@ == flag)
            &&& flag == "--root"@ ==> (t matches Err(error) && error.fault is ValueMissing
                && error.argument@ == flag)
            &&& flag == "--input-len"@ ==> (t matches Err(error) && error.fault is ValueMissing
                && error.argument@ == flag)
            &&& flag != "--pipekeep"@ && flag != "--runtime"@ && flag != "--id"@
                && flag != "--root"@ && flag != "--input-len"@ ==> (t matches Err(error)
                && error.fault is TransportUnknown && error.argument@ == flag)
        },
{
    flags_differ();
    let start = no_transport();
    let all = text::texts(line@);
    if let Ok(before) = r {
        reveal_with_fuel(transport_scan, 3);
        transport_scan_continues(start, all, seq![flag]);
        transport_scan_continues(start, all, seq![flag, value@]);
        let one = seq![flag];
        let two = seq![flag, value@];
        assert(one[0] == flag && two[0] == flag && two[1] == value@);
        assert(one.skip(1).len() == 0);
        assert(two.skip(2).len() == 0);
    }
}

/// A further option of the command changes what it names and nothing else, and one
/// that is not known, lacks its value or has a wrong one is refused.
pub proof fn workload_options_mean_what_they_name(
    line: &[String],
    shorter: &[String],
    longer: &[String],
    flag: Seq<char>,
    value: &str,
    number: Option<u64>,
    r: Result<StdinWorkloadArgs, ArgsError>,
    t: Result<StdinWorkloadArgs, ArgsError>,
    s: Result<StdinWorkloadArgs, ArgsError>,
)
    requires
        call_ensures(StdinWorkloadArgs::parse, (line,), r),
        call_ensures(StdinWorkloadArgs::parse, (shorter,), t),
        call_ensures(StdinWorkloadArgs::parse, (longer,), s),
        text::texts(shorter@) == text::texts(line@) + seq![flag],
        text::texts(longer@) == text::texts(line@) + seq![flag, value@],
        call_ensures(parse_unsigned, (value,), number),
    ensures
        r matches Ok(before) ==> {
            &&& flag == "--root"@ ==> (s matches Ok(after) && after.root@ == value@
                && after.input_len == before.input_len)
            &&& flag == "--input-len"@ && number is Some && number->0 <= usize::MAX
                ==> (s matches Ok(after) && after.input_len == number->0
                && after.root@ == before.root@)
            &&& flag == "--input-len"@ && !(number is Some && number->0 <= usize::MAX)
                ==> (s matches Err(error) && error.argument@ == value@)
            &&& flag == "--root"@ ==> (t matches Err(error) && error.fault is ValueMissing
                && error.argument@ == flag)
            &&& flag == "--input-len"@ ==> (t matches Err(error) && error.fault is ValueMissing
                && error.argument@ == flag)
            &&& flag != "--root"@ && flag != "--input-len"@ ==> (t matches Err(error)
                && error.fault is WorkloadUnknown && error.argument@ == flag)
        },
{
    flags_differ();
    let start = (WorkloadView { root: None, input_len: None });
    let all = text::texts(line@);
    if let Ok(before) = r {
        reveal_with_fuel(workload_scan, 3);
        workload_scan_continues(start, all, seq![flag]);
        workload_scan_continues(start, all, seq![flag, value@]);
        let one = seq![flag];
        let two = seq![flag, value@];
        assert(one[0] == flag && two[0] == flag && two[1] == value@);
        assert(one.skip(1).len() == 0);
        assert(two.skip(2).len() == 0);
    }
}

/// Without any option only a trial can begin; every other process says what it lacks.
pub proof fn processes_need_their_options(
    line: &[String],
    trial: Result<Option<Options>, ArgsError>,
    controller: Result<ControllerArgs, ArgsError>,
    transport: Result<StdinTransportArgs, ArgsError>,
    workload: Result<StdinWorkloadArgs, ArgsError>,
)
    requires
        line@.len() == 0,
        call_ensures(Options::parse, (line,), trial),
        call_ensures(ControllerArgs::parse, (line,), controller),
        call_ensures(StdinTransportArgs::parse, (line,), transport),
        call_ensures(StdinWorkloadArgs::parse, (line,), workload),
    ensures
        trial matches Ok(Some(options)) && options.cycles == 12 && options.seed is None
            && options.pipekeep is None && !options.retain_temp,
        controller matches Err(error) && error.fault is Required && error.argument@
            == "--pipekeep"@,
        transport matches Err(error) && error.fault is Required && error.argument@
            == "--pipekeep"@,
        workload matches Err(error) && error.fault is Required && error.argument@ == "--root"@,
{
    assert(text::texts(line@).len() == 0);
}

/// The value behind an option is the word after it; without one the option is
/// named.
pub proof fn values_stand_behind_their_options(
    args: &[String],
    index: usize,
    flag: &str,
    r: Result<String, ArgsError>,
)
    requires
        index < args@.len(),
        call_ensures(next_arg, (args, index, flag), r),
    ensures
        r is Ok <==> index + 1 < args@.len(),
        r matches Ok(value) ==> value@ == args@[index + 1]@,
        r matches Err(error) ==> error.fault is ValueMissing && error.argument@ == flag@,
{
    let rest = text::texts(args@).skip(index as int);
    if rest.len() >= 2 {
        assert(rest[1] == args@[index + 1]@);
    }
}

/// A diagnostic names the option that lacks something, and quotes a word that is
/// not known.
pub proof fn diagnostics_name_the_argument(error: ArgsError, r: String)
    requires
        call_ensures(ArgsError::message, (&error,), r),
    ensures
        ({
            let quoted = text::debug_text(error.argument@);
            match error.fault {
                ArgsFault::ValueMissing => r@ == error.argument@ + " requires a value"@,
                ArgsFault::Required => r@ == error.argument@ + " is required"@,
                ArgsFault::PathMissing => r@ == "--pipekeep requires a path"@,
                ArgsFault::SeedMissing => r@ == "--seed requires an integer"@,
                ArgsFault::SeedInvalid => r@ == "--seed must be an unsigned integer"@,
                ArgsFault::CyclesMissing => r@ == "--cycles requires an integer"@,
                ArgsFault::CyclesInvalid => r@ == "--cycles must be a positive integer"@,
                ArgsFault::CyclesZero => r@ == "--cycles must be greater than zero"@,
                ArgsFault::OptionUnknown => r@ == "unknown option "@ + quoted,
                ArgsFault::KillAfterInvalid => r@ == "--kill-after-ms must be an integer"@,
                ArgsFault::ExpectExitInvalid => r@ == "--expect-exit must be an integer"@,
                ArgsFault::TtlInvalid => r@ == "--ttl-secs must be an integer"@,
                ArgsFault::ControllerUnknown => r@ == "unknown controller option "@ + quoted,
                ArgsFault::InputLengthInvalid => r@ == "--input-len must be an integer"@,
                ArgsFault::TransportUnknown => r@ == "unknown stdin transport option "@ + quoted,
                ArgsFault::WorkloadUnknown => r@ == "unknown stdin workload option "@ + quoted,
                ArgsFault::CommandUnknown => r@ == "unknown command "@ + quoted
                    + "; use smoke, chaos, or --help"@,
            }
        }),
{
}

} // verus!
