//! The command line.
use vstd::prelude::*;

use crate::output::MAX_LIMIT;
use crate::protocol::{ATTACHMENT_PROTOCOL_VERSION, FRAMED_ATTACHMENT_V1};
use crate::text;
use crate::text::{
    decimal_text, join, join3, parse_number, quoted, str_equal, strings_from, strings_without, trimmed,
};

verus! {

/// What an invocation asks for.
#[derive(Clone, Debug)]
pub enum Mode {
    Outer { command: Vec<String>, nobuffer: bool },
    Server {
        id: String,
        command: Vec<String>,
        nobuffer: bool,
        force: bool,
        group_pidfd: bool,
        framed: bool,
        output_bounded: bool,
        output_limit: Option<u64>,
    },
    Cancel { id: String, require_group_pidfd: bool, output_bounded: bool },
    Session { id: String },
    Pid { id: String },
    Broker {
        id: String,
        group_pidfd: bool,
        session_dir: String,
        output_limit: Option<u64>,
        command: Vec<String>,
        nobuffer: bool,
    },
    Help,
    Version,
    Capabilities,
}

/// What an invocation asks for, in terms of texts.
pub enum ModeView {
    Outer { command: Seq<Seq<char>>, nobuffer: bool },
    Server {
        id: Seq<char>,
        command: Seq<Seq<char>>,
        nobuffer: bool,
        force: bool,
        group_pidfd: bool,
        framed: bool,
        output_bounded: bool,
        output_limit: Option<u64>,
    },
    Cancel { id: Seq<char>, require_group_pidfd: bool, output_bounded: bool },
    Session { id: Seq<char> },
    Pid { id: Seq<char> },
    Broker {
        id: Seq<char>,
        group_pidfd: bool,
        session_dir: Seq<char>,
        output_limit: Option<u64>,
        command: Seq<Seq<char>>,
        nobuffer: bool,
    },
    Help,
    Version,
    Capabilities,
}

impl View for Mode {
    type V = ModeView;

    open spec fn view(&self) -> ModeView {
        match *self {
            Mode::Outer { command, nobuffer } => ModeView::Outer {
                command: text::texts(command@),
                nobuffer,
            },
            Mode::Server {
                id,
                command,
                nobuffer,
                force,
                group_pidfd,
                framed,
                output_bounded,
                output_limit,
            } => ModeView::Server {
                id: id@,
                command: text::texts(command@),
                nobuffer,
                force,
                group_pidfd,
                framed,
                output_bounded,
                output_limit,
            },
            Mode::Cancel { id, require_group_pidfd, output_bounded } => ModeView::Cancel {
                id: id@,
                require_group_pidfd,
                output_bounded,
            },
            Mode::Session { id } => ModeView::Session { id: id@ },
            Mode::Pid { id } => ModeView::Pid { id: id@ },
            Mode::Broker { id, group_pidfd, session_dir, output_limit, command, nobuffer } => {
                ModeView::Broker {
                    id: id@,
                    group_pidfd,
                    session_dir: session_dir@,
                    output_limit,
                    command: text::texts(command@),
                    nobuffer,
                }
            },
            Mode::Help => ModeView::Help,
            Mode::Version => ModeView::Version,
            Mode::Capabilities => ModeView::Capabilities,
        }
    }
}

/// What is wrong with a command line.
#[derive(Clone, Copy, Debug, PartialEq, Eq, Structural)]
pub enum CliFault {
    IdValue,
    BoundedOrder,
    LimitOrder,
    LimitTwice,
    LimitMissing,
    LimitInvalid,
    LimitTooLarge,
    LimitRange,
    FramedOrder,
    ServerOption,
    FramedNeedsBuffer,
    GroupOrder,
    LimitNeeds,
    CommandRequired,
    GroupNeedsId,
    ForceNeedsId,
    ExpectedId,
    ExpectedControl,
    BrokerOption,
    BrokerCommand,
    BrokerFinite,
    BrokerId,
    BrokerDirectory,
    CapabilitiesJson,
    CapabilitiesArguments,
}

/// What is wrong with a command line, and the argument that is, where the
/// diagnostic names it.
#[derive(Clone, Debug)]
pub struct CliError {
    pub fault: CliFault,
    pub argument: String,
}

/// What is wrong with a command line, in terms of texts.
pub struct CliErrorView {
    pub fault: CliFault,
    pub argument: Seq<char>,
}

impl View for CliError {
    type V = CliErrorView;

    open spec fn view(&self) -> CliErrorView {
        CliErrorView { fault: self.fault, argument: self.argument@ }
    }
}

/// A fault whose diagnostic names no argument.
pub open spec fn plain(fault: CliFault) -> CliErrorView {
    CliErrorView { fault, argument: Seq::empty() }
}

impl CliErrorView {
    /// The diagnostic for the error.
    pub open spec fn text(self) -> Seq<char> {
        match self.fault {
            CliFault::IdValue => "--id requires a value"@,
            CliFault::BoundedOrder => "--output-bounded must follow --id ID"@,
            CliFault::LimitOrder => "--output-limit must follow --id ID"@,
            CliFault::LimitTwice => "duplicate --output-limit"@,
            CliFault::LimitMissing => "--output-limit requires decimal bytes"@,
            CliFault::LimitInvalid => "invalid output limit"@,
            CliFault::LimitTooLarge => "number too large to fit in target type"@,
            CliFault::LimitRange => "output limit exceeds file offset range"@,
            CliFault::FramedOrder => "--framed must follow --id ID"@,
            CliFault::ServerOption => "unknown server option "@ + text::debug_text(self.argument)
                + "; put the command after --"@,
            CliFault::FramedNeedsBuffer => {
                "--framed requires --id and buffered sessions (no --nobuffer)"@
            },
            CliFault::GroupOrder => "finite output requires --id ID before --group-pidfd"@,
            CliFault::LimitNeeds => {
                "--output-limit requires --output-bounded, --group-pidfd and buffering"@
            },
            CliFault::CommandRequired => "a command is required"@,
            CliFault::GroupNeedsId => "--group-pidfd requires --id and new-session creation"@,
            CliFault::ForceNeedsId => {
                "--force requires --id and only applies to attach-only sessions"@
            },
            CliFault::ExpectedId => "expected --id ID"@,
            CliFault::ExpectedControl => "expected --id ID [--require-group-pidfd for cancel]"@,
            CliFault::BrokerOption => "unknown broker option "@ + text::debug_text(self.argument),
            CliFault::BrokerCommand => "broker command is missing"@,
            CliFault::BrokerFinite => "finite output requires buffered group pidfd session"@,
            CliFault::BrokerId => "broker ID is missing"@,
            CliFault::BrokerDirectory => "broker session directory is missing"@,
            CliFault::CapabilitiesJson => {
                "capabilities requires --json; only machine-readable output is provided"@
            },
            CliFault::CapabilitiesArguments => {
                "capabilities accepts exactly one argument: --json"@
            },
        }
    }
}

impl CliError {
    fn new(fault: CliFault) -> (r: CliError)
        ensures
            r@ == plain(fault),
    {
        CliError { fault, argument: String::new() }
    }

    pub fn message(&self) -> (r: String)
        ensures
            r@ == self@.text(),
    {
        match self.fault {
            CliFault::IdValue => "--id requires a value".to_owned(),
            CliFault::BoundedOrder => "--output-bounded must follow --id ID".to_owned(),
            CliFault::LimitOrder => "--output-limit must follow --id ID".to_owned(),
            CliFault::LimitTwice => "duplicate --output-limit".to_owned(),
            CliFault::LimitMissing => "--output-limit requires decimal bytes".to_owned(),
            CliFault::LimitInvalid => "invalid output limit".to_owned(),
            CliFault::LimitTooLarge => "number too large to fit in target type".to_owned(),
            CliFault::LimitRange => "output limit exceeds file offset range".to_owned(),
            CliFault::FramedOrder => "--framed must follow --id ID".to_owned(),
            CliFault::ServerOption => join3(
                "unknown server option ",
                quoted(self.argument.as_str()).as_str(),
                "; put the command after --",
            ),
            CliFault::FramedNeedsBuffer => {
                "--framed requires --id and buffered sessions (no --nobuffer)".to_owned()
            },
            CliFault::GroupOrder => {
                "finite output requires --id ID before --group-pidfd".to_owned()
            },
            CliFault::LimitNeeds => {
                "--output-limit requires --output-bounded, --group-pidfd and buffering".to_owned()
            },
            CliFault::CommandRequired => "a command is required".to_owned(),
            CliFault::GroupNeedsId => {
                "--group-pidfd requires --id and new-session creation".to_owned()
            },
            CliFault::ForceNeedsId => {
                "--force requires --id and only applies to attach-only sessions".to_owned()
            },
            CliFault::ExpectedId => "expected --id ID".to_owned(),
            CliFault::ExpectedControl => {
                "expected --id ID [--require-group-pidfd for cancel]".to_owned()
            },
            CliFault::BrokerOption => join(
                "unknown broker option ",
                quoted(self.argument.as_str()).as_str(),
            ),
            CliFault::BrokerCommand => "broker command is missing".to_owned(),
            CliFault::BrokerFinite => {
                "finite output requires buffered group pidfd session".to_owned()
            },
            CliFault::BrokerId => "broker ID is missing".to_owned(),
            CliFault::BrokerDirectory => "broker session directory is missing".to_owned(),
            CliFault::CapabilitiesJson => {
                "capabilities requires --json; only machine-readable output is provided".to_owned()
            },
            CliFault::CapabilitiesArguments => {
                "capabilities accepts exactly one argument: --json".to_owned()
            },
        }
    }
}

/// The meaning of a command line, or what is wrong with it.
pub type Parsed = Result<ModeView, CliErrorView>;

/// The result of parsing in terms of texts.
pub open spec fn parsed_view(r: Result<Mode, CliError>) -> Parsed {
    match r {
        Ok(mode) => Ok(mode@),
        Err(error) => Err(error@),
    }
}

/// The meaning of an output limit.
pub open spec fn limit_of(value: Option<Seq<char>>) -> Result<u64, CliErrorView> {
    match value {
        None => Err(plain(CliFault::LimitMissing)),
        Some(digits) => if !text::is_number(digits) {
            Err(plain(CliFault::LimitInvalid))
        } else if text::number(digits) > u64::MAX {
            Err(plain(CliFault::LimitTooLarge))
        } else if text::number(digits) > MAX_LIMIT {
            Err(plain(CliFault::LimitRange))
        } else {
            Ok(text::number(digits) as u64)
        },
    }
}

/// What a word among options is.
#[derive(Clone, Copy, Debug, PartialEq, Eq, Structural)]
pub enum Word {
    Id,
    NoBuffer,
    GroupPidfd,
    OutputBounded,
    OutputLimit,
    Framed,
    Force,
    SessionDir,
    End,
    Other,
}

/// What a word among options is.
pub open spec fn word_of(word: Seq<char>) -> Word {
    if word == "--id"@ {
        Word::Id
    } else if word == "--nobuffer"@ {
        Word::NoBuffer
    } else if word == "--group-pidfd"@ {
        Word::GroupPidfd
    } else if word == "--output-bounded"@ {
        Word::OutputBounded
    } else if word == "--output-limit"@ {
        Word::OutputLimit
    } else if word == "--framed"@ {
        Word::Framed
    } else if word == "--force"@ {
        Word::Force
    } else if word == "--session-dir"@ {
        Word::SessionDir
    } else if word == "--"@ {
        Word::End
    } else {
        Word::Other
    }
}

fn read_word(word: &str) -> (r: Word)
    ensures
        r == word_of(word@),
{
    if str_equal(word, "--id") {
        Word::Id
    } else if str_equal(word, "--nobuffer") {
        Word::NoBuffer
    } else if str_equal(word, "--group-pidfd") {
        Word::GroupPidfd
    } else if str_equal(word, "--output-bounded") {
        Word::OutputBounded
    } else if str_equal(word, "--output-limit") {
        Word::OutputLimit
    } else if str_equal(word, "--framed") {
        Word::Framed
    } else if str_equal(word, "--force") {
        Word::Force
    } else if str_equal(word, "--session-dir") {
        Word::SessionDir
    } else if str_equal(word, "--") {
        Word::End
    } else {
        Word::Other
    }
}

/// The options before a command.
pub struct Options {
    pub id: Option<Seq<char>>,
    pub nobuffer: bool,
    pub force: bool,
    pub group_pidfd: bool,
    pub framed: bool,
    pub output_bounded: bool,
    pub group_before_id: bool,
    pub output_limit: Option<u64>,
}

/// No options.
pub open spec fn no_options() -> Options {
    Options {
        id: None,
        nobuffer: false,
        force: false,
        group_pidfd: false,
        framed: false,
        output_bounded: false,
        group_before_id: false,
        output_limit: None,
    }
}

/// Reads options from the left: what they come to, and the command after them.
pub open spec fn scan(options: Options, args: Seq<Seq<char>>) -> Result<
    (Options, Seq<Seq<char>>),
    CliErrorView,
>
    decreases args.len(),
{
    if args.len() == 0 {
        Ok((options, args))
    } else {
        match word_of(args[0]) {
            Word::Id => if args.len() < 2 {
                Err(plain(CliFault::IdValue))
            } else {
                scan(Options { id: Some(args[1]), ..options }, args.skip(2))
            },
            Word::NoBuffer => scan(Options { nobuffer: true, ..options }, args.skip(1)),
            Word::GroupPidfd => scan(
                Options {
                    group_pidfd: true,
                    group_before_id: options.group_before_id || options.id is None,
                    ..options
                },
                args.skip(1),
            ),
            Word::OutputBounded => if options.id is None {
                Err(plain(CliFault::BoundedOrder))
            } else {
                scan(Options { output_bounded: true, framed: true, ..options }, args.skip(1))
            },
            Word::OutputLimit => if options.id is None {
                Err(plain(CliFault::LimitOrder))
            } else if options.output_limit is Some {
                Err(plain(CliFault::LimitTwice))
            } else if args.len() < 2 {
                Err(plain(CliFault::LimitMissing))
            } else {
                match limit_of(Some(args[1])) {
                    Ok(limit) => scan(
                        Options { output_limit: Some(limit), ..options },
                        args.skip(2),
                    ),
                    Err(error) => Err(error),
                }
            },
            Word::Framed => if options.id is None {
                Err(plain(CliFault::FramedOrder))
            } else {
                scan(Options { framed: true, ..options }, args.skip(1))
            },
            Word::Force => scan(Options { force: true, ..options }, args.skip(1)),
            Word::End => Ok((options, args.skip(1))),
            Word::SessionDir | Word::Other => if options.id is None {
                Ok((options, args))
            } else {
                Err(CliErrorView { fault: CliFault::ServerOption, argument: args[0] })
            },
        }
    }
}

/// What options and a command come to together.
pub open spec fn concluded(options: Options, command: Seq<Seq<char>>) -> Parsed {
    if options.framed && (options.nobuffer || options.id is None) {
        Err(plain(CliFault::FramedNeedsBuffer))
    } else if options.output_bounded && options.group_before_id {
        Err(plain(CliFault::GroupOrder))
    } else if options.output_limit is Some && (!options.output_bounded || !options.group_pidfd
        || options.nobuffer) {
        Err(plain(CliFault::LimitNeeds))
    } else if command.len() == 0 {
        Err(plain(CliFault::CommandRequired))
    } else {
        match options.id {
            Some(id) => Ok(
                ModeView::Server {
                    id,
                    command,
                    nobuffer: options.nobuffer,
                    force: options.force,
                    group_pidfd: options.group_pidfd,
                    framed: options.framed,
                    output_bounded: options.output_bounded,
                    output_limit: options.output_limit,
                },
            ),
            None => if options.group_pidfd {
                Err(plain(CliFault::GroupNeedsId))
            } else if options.force {
                Err(plain(CliFault::ForceNeedsId))
            } else {
                Ok(ModeView::Outer { command, nobuffer: options.nobuffer })
            },
        }
    }
}

/// The meaning of `session` with its arguments.
pub open spec fn session_meaning(args: Seq<Seq<char>>) -> Parsed {
    if args.len() != 2 || args[0] != "--id"@ {
        Err(plain(CliFault::ExpectedId))
    } else {
        Ok(ModeView::Session { id: args[1] })
    }
}

/// The meaning of `cancel` or `pid` with its arguments. The switches of `cancel`
/// may stand anywhere.
pub open spec fn control_meaning(args: Seq<Seq<char>>, cancel: bool) -> Parsed {
    let bounded = cancel && args.contains("--output-bounded"@);
    let first = if bounded {
        text::without(args, "--output-bounded"@)
    } else {
        args
    };
    let required = cancel && first.contains("--require-group-pidfd"@);
    let rest = if required {
        text::without(first, "--require-group-pidfd"@)
    } else {
        first
    };
    if rest.len() != 2 || rest[0] != "--id"@ {
        Err(plain(CliFault::ExpectedControl))
    } else if cancel {
        Ok(
            ModeView::Cancel {
                id: rest[1],
                require_group_pidfd: required,
                output_bounded: bounded,
            },
        )
    } else {
        Ok(ModeView::Pid { id: rest[1] })
    }
}

/// The meaning of `capabilities` with its arguments.
pub open spec fn capabilities_meaning(args: Seq<Seq<char>>) -> Parsed {
    if args.len() == 0 {
        Err(plain(CliFault::CapabilitiesJson))
    } else if args.len() == 1 && args[0] == "--json"@ {
        Ok(ModeView::Capabilities)
    } else {
        Err(plain(CliFault::CapabilitiesArguments))
    }
}

/// The options of a broker.
pub struct BrokerOptions {
    pub id: Option<Seq<char>>,
    pub session_dir: Option<Seq<char>>,
    pub output_limit: Option<u64>,
    pub group_pidfd: bool,
    pub nobuffer: bool,
}

/// Reads the options of a broker from the left.
pub open spec fn broker_scan(options: BrokerOptions, args: Seq<Seq<char>>) -> Result<
    (BrokerOptions, Seq<Seq<char>>),
    CliErrorView,
>
    decreases args.len(),
{
    let value = if args.len() < 2 {
        None
    } else {
        Some(args[1])
    };
    let rest = if args.len() < 2 {
        Seq::empty()
    } else {
        args.skip(2)
    };
    if args.len() == 0 {
        Ok((options, args))
    } else {
        match word_of(args[0]) {
            Word::Id => broker_scan(BrokerOptions { id: value, ..options }, rest),
            Word::GroupPidfd => broker_scan(
                BrokerOptions { group_pidfd: true, ..options },
                args.skip(1),
            ),
            Word::OutputLimit => if options.output_limit is Some {
                Err(plain(CliFault::LimitTwice))
            } else {
                match limit_of(value) {
                    Ok(limit) => broker_scan(
                        BrokerOptions { output_limit: Some(limit), ..options },
                        rest,
                    ),
                    Err(error) => Err(error),
                }
            },
            Word::SessionDir => broker_scan(BrokerOptions { session_dir: value, ..options }, rest),
            Word::NoBuffer => broker_scan(
                BrokerOptions { nobuffer: true, ..options },
                args.skip(1),
            ),
            Word::End => Ok((options, args.skip(1))),
            Word::OutputBounded | Word::Framed | Word::Force | Word::Other => Err(
                CliErrorView { fault: CliFault::BrokerOption, argument: args[0] },
            ),
        }
    }
}

/// The meaning of a broker's own command line.
pub open spec fn broker_meaning(args: Seq<Seq<char>>) -> Parsed {
    let none = BrokerOptions {
        id: None,
        session_dir: None,
        output_limit: None,
        group_pidfd: false,
        nobuffer: false,
    };
    match broker_scan(none, args) {
        Err(error) => Err(error),
        Ok((options, command)) => if command.len() == 0 {
            Err(plain(CliFault::BrokerCommand))
        } else if options.output_limit is Some && (!options.group_pidfd || options.nobuffer) {
            Err(plain(CliFault::BrokerFinite))
        } else if options.id is None {
            Err(plain(CliFault::BrokerId))
        } else if options.session_dir is None {
            Err(plain(CliFault::BrokerDirectory))
        } else {
            Ok(
                ModeView::Broker {
                    id: options.id->0,
                    group_pidfd: options.group_pidfd,
                    session_dir: options.session_dir->0,
                    output_limit: options.output_limit,
                    command,
                    nobuffer: options.nobuffer,
                },
            )
        },
    }
}

/// The meaning of a command line.
pub open spec fn meaning(args: Seq<Seq<char>>) -> Parsed {
    if args.len() == 0 || args[0] == "--help"@ || args[0] == "-h"@ {
        Ok(ModeView::Help)
    } else if args[0] == "--version"@ || args[0] == "-V"@ {
        Ok(ModeView::Version)
    } else if args[0] == "cancel"@ {
        control_meaning(args.skip(1), true)
    } else if args[0] == "session"@ {
        session_meaning(args.skip(1))
    } else if args[0] == "pid"@ {
        control_meaning(args.skip(1), false)
    } else if args[0] == "capabilities"@ {
        capabilities_meaning(args.skip(1))
    } else if args[0] == "__broker"@ {
        broker_meaning(args.skip(1))
    } else {
        match scan(no_options(), args) {
            Ok((options, command)) => concluded(options, command),
            Err(error) => Err(error),
        }
    }
}

/// Reads an output limit.
pub fn parse_limit(value: Option<&String>) -> (r: Result<u64, CliError>)
    ensures
        match r {
            Ok(limit) => limit_of(
                match value {
                    Some(digits) => Some(digits@),
                    None => None,
                },
            ) == Ok::<u64, CliErrorView>(limit),
            Err(error) => limit_of(
                match value {
                    Some(digits) => Some(digits@),
                    None => None,
                },
            ) == Err::<u64, CliErrorView>(error@),
        },
{
    let digits = match value {
        Some(digits) => digits,
        None => {
            return Err(CliError::new(CliFault::LimitMissing));
        },
    };
    if !is_decimal(digits.as_str()) {
        return Err(CliError::new(CliFault::LimitInvalid));
    }
    match parse_number(digits.as_str()) {
        None => Err(CliError::new(CliFault::LimitTooLarge)),
        Some(limit) => {
            if limit > MAX_LIMIT {
                Err(CliError::new(CliFault::LimitRange))
            } else {
                Ok(limit)
            }
        },
    }
}

fn is_decimal(s: &str) -> (r: bool)
    ensures
        r == text::is_number(s@),
{
    let count: usize = s.unicode_len();
    if count == 0 {
        return false;
    }
    let mut i: usize = 0;
    while i < count
        invariant
            count == s@.len(),
            i <= count,
            forall|j: int| 0 <= j < i ==> text::is_digit(#[trigger] s@[j]),
        decreases count - i,
    {
        let c = s.get_char(i);
        if !('0' <= c && c <= '9') {
            return false;
        }
        i += 1;
    }
    true
}

fn parse_session(args: &[String]) -> (r: Result<Mode, CliError>)
    ensures
        parsed_view(r) == session_meaning(text::texts(args@)),
{
    if args.len() != 2 || !str_equal(args[0].as_str(), "--id") {
        return Err(CliError::new(CliFault::ExpectedId));
    }
    Ok(Mode::Session { id: args[1].clone() })
}

fn parse_control(args: &[String], cancel: bool) -> (r: Result<Mode, CliError>)
    ensures
        parsed_view(r) == control_meaning(text::texts(args@), cancel),
{
    let mut rest = strings_from(args, 0);
    assert(text::texts(args@).skip(0) =~= text::texts(args@));
    let mut output_bounded = false;
    let mut require_group_pidfd = false;
    if cancel {
        let (kept, found) = strings_without(rest.as_slice(), "--output-bounded");
        if found {
            output_bounded = true;
            rest = kept;
        }
        let (kept, found) = strings_without(rest.as_slice(), "--require-group-pidfd");
        if found {
            require_group_pidfd = true;
            rest = kept;
        }
    }
    let ghost seen = text::texts(rest@);
    assert(seen.len() == rest@.len());
    if rest.len() != 2 || !str_equal(rest[0].as_str(), "--id") {
        return Err(CliError::new(CliFault::ExpectedControl));
    }
    let id = rest[1].clone();
    if cancel {
        Ok(Mode::Cancel { id, require_group_pidfd, output_bounded })
    } else {
        Ok(Mode::Pid { id })
    }
}

fn parse_capabilities(args: &[String]) -> (r: Result<Mode, CliError>)
    ensures
        parsed_view(r) == capabilities_meaning(text::texts(args@)),
{
    if args.len() == 0 {
        Err(CliError::new(CliFault::CapabilitiesJson))
    } else if args.len() == 1 && str_equal(args[0].as_str(), "--json") {
        Ok(Mode::Capabilities)
    } else {
        Err(CliError::new(CliFault::CapabilitiesArguments))
    }
}

fn parse_broker(args: &[String]) -> (r: Result<Mode, CliError>)
    ensures
        parsed_view(r) == broker_meaning(text::texts(args@)),
{
    let mut id: Option<String> = None;
    let mut session_dir: Option<String> = None;
    let mut output_limit: Option<u64> = None;
    let mut group_pidfd = false;
    let mut nobuffer = false;
    let mut index: usize = 0;
    let ghost all = text::texts(args@);
    let ghost none = BrokerOptions {
        id: None,
        session_dir: None,
        output_limit: None,
        group_pidfd: false,
        nobuffer: false,
    };
    let ghost mut options = none;
    assert(all.skip(0) =~= all);
    while index < args.len()
        invariant_except_break
            broker_scan(none, all) == broker_scan(options, all.skip(index as int)),
        invariant
            all == text::texts(args@),
            none == (BrokerOptions {
                id: None,
                session_dir: None,
                output_limit: None,
                group_pidfd: false,
                nobuffer: false,
            }),
            index <= args@.len(),
            options == (BrokerOptions {
                id: text::option_text(id),
                session_dir: text::option_text(session_dir),
                output_limit,
                group_pidfd,
                nobuffer,
            }),
        ensures
            broker_scan(none, all) == Ok::<(BrokerOptions, Seq<Seq<char>>), CliErrorView>(
                (options, all.skip(index as int)),
            ),
        decreases args@.len() - index,
    {
        let ghost rest = all.skip(index as int);
        assert(rest[0] == args@[index as int]@);
        let two: usize = if args.len() - index >= 2 {
            index + 2
        } else {
            args.len()
        };
        let value = if args.len() - index >= 2 {
            Some(&args[index + 1])
        } else {
            None
        };
        proof {
            if rest.len() >= 2 {
                assert(rest[1] == args@[index + 1]@);
                assert(rest.skip(2) =~= all.skip(two as int));
            } else {
                assert(Seq::<Seq<char>>::empty() =~= all.skip(two as int));
            }
            assert(rest.skip(1) =~= all.skip(index + 1));
        }
        match read_word(args[index].as_str()) {
            Word::Id => {
                id = match value {
                    Some(text) => Some(text.clone()),
                    None => None,
                };
                index = two;
            },
            Word::GroupPidfd => {
                group_pidfd = true;
                index += 1;
            },
            Word::OutputLimit => {
                if output_limit.is_some() {
                    return Err(CliError::new(CliFault::LimitTwice));
                }
                match parse_limit(value) {
                    Ok(limit) => {
                        output_limit = Some(limit);
                    },
                    Err(error) => {
                        return Err(error);
                    },
                }
                index = two;
            },
            Word::SessionDir => {
                session_dir = match value {
                    Some(text) => Some(text.clone()),
                    None => None,
                };
                index = two;
            },
            Word::NoBuffer => {
                nobuffer = true;
                index += 1;
            },
            Word::End => {
                index += 1;
                break;
            },
            Word::OutputBounded | Word::Framed | Word::Force | Word::Other => {
                return Err(
                    CliError { fault: CliFault::BrokerOption, argument: args[index].clone() },
                );
            },
        }
        proof {
            options = BrokerOptions {
                id: text::option_text(id),
                session_dir: text::option_text(session_dir),
                output_limit,
                group_pidfd,
                nobuffer,
            };
        }
    }
    let command = strings_from(args, index);
    if command.len() == 0 {
        assert(text::texts(command@).len() == 0);
        return Err(CliError::new(CliFault::BrokerCommand));
    }
    assert(text::texts(command@).len() > 0);
    if output_limit.is_some() && (!group_pidfd || nobuffer) {
        return Err(CliError::new(CliFault::BrokerFinite));
    }
    let id = match id {
        Some(id) => id,
        None => {
            return Err(CliError::new(CliFault::BrokerId));
        },
    };
    let session_dir = match session_dir {
        Some(session_dir) => session_dir,
        None => {
            return Err(CliError::new(CliFault::BrokerDirectory));
        },
    };
    Ok(Mode::Broker { id, group_pidfd, session_dir, output_limit, command, nobuffer })
}

fn parse_options(args: &[String]) -> (r: Result<Mode, CliError>)
    ensures
        parsed_view(r) == (match scan(no_options(), text::texts(args@)) {
            Ok((options, command)) => concluded(options, command),
            Err(error) => Err(error),
        }),
{
    let mut id: Option<String> = None;
    let mut nobuffer = false;
    let mut force = false;
    let mut group_pidfd = false;
    let mut framed = false;
    let mut output_bounded = false;
    let mut group_before_id = false;
    let mut output_limit: Option<u64> = None;
    let mut index: usize = 0;
    let ghost all = text::texts(args@);
    let ghost mut options = no_options();
    assert(all.skip(0) =~= all);
    while index < args.len()
        invariant_except_break
            scan(no_options(), all) == scan(options, all.skip(index as int)),
        invariant
            all == text::texts(args@),
            index <= args@.len(),
            options == (Options {
                id: text::option_text(id),
                nobuffer,
                force,
                group_pidfd,
                framed,
                output_bounded,
                group_before_id,
                output_limit,
            }),
        ensures
            scan(no_options(), all) == Ok::<(Options, Seq<Seq<char>>), CliErrorView>(
                (options, all.skip(index as int)),
            ),
        decreases args@.len() - index,
    {
        let ghost rest = all.skip(index as int);
        assert(rest[0] == args@[index as int]@);
        proof {
            if rest.len() >= 2 {
                assert(rest[1] == args@[index + 1]@);
                assert(rest.skip(2) =~= all.skip(index + 2));
            }
            assert(rest.skip(1) =~= all.skip(index + 1));
        }
        match read_word(args[index].as_str()) {
            Word::Id => {
                if args.len() - index < 2 {
                    return Err(CliError::new(CliFault::IdValue));
                }
                id = Some(args[index + 1].clone());
                index += 2;
            },
            Word::NoBuffer => {
                nobuffer = true;
                index += 1;
            },
            Word::GroupPidfd => {
                group_before_id = group_before_id || id.is_none();
                group_pidfd = true;
                index += 1;
            },
            Word::OutputBounded => {
                if id.is_none() {
                    return Err(CliError::new(CliFault::BoundedOrder));
                }
                output_bounded = true;
                framed = true;
                index += 1;
            },
            Word::OutputLimit => {
                if id.is_none() {
                    return Err(CliError::new(CliFault::LimitOrder));
                }
                if output_limit.is_some() {
                    return Err(CliError::new(CliFault::LimitTwice));
                }
                if args.len() - index < 2 {
                    return Err(CliError::new(CliFault::LimitMissing));
                }
                match parse_limit(Some(&args[index + 1])) {
                    Ok(limit) => {
                        output_limit = Some(limit);
                    },
                    Err(error) => {
                        return Err(error);
                    },
                }
                index += 2;
            },
            Word::Framed => {
                if id.is_none() {
                    return Err(CliError::new(CliFault::FramedOrder));
                }
                framed = true;
                index += 1;
            },
            Word::Force => {
                force = true;
                index += 1;
            },
            Word::End => {
                index += 1;
                break;
            },
            Word::SessionDir | Word::Other => {
                if id.is_none() {
                    break;
                }
                return Err(
                    CliError { fault: CliFault::ServerOption, argument: args[index].clone() },
                );
            },
        }
        proof {
            options = Options {
                id: text::option_text(id),
                nobuffer,
                force,
                group_pidfd,
                framed,
                output_bounded,
                group_before_id,
                output_limit,
            };
        }
    }
    let command = strings_from(args, index);
    assert(text::texts(command@).len() == command@.len());
    if framed && (nobuffer || id.is_none()) {
        return Err(CliError::new(CliFault::FramedNeedsBuffer));
    }
    if output_bounded && group_before_id {
        return Err(CliError::new(CliFault::GroupOrder));
    }
    if output_limit.is_some() && (!output_bounded || !group_pidfd || nobuffer) {
        return Err(CliError::new(CliFault::LimitNeeds));
    }
    if command.len() == 0 {
        return Err(CliError::new(CliFault::CommandRequired));
    }
    match id {
        Some(id) => Ok(
            Mode::Server {
                id,
                command,
                nobuffer,
                force,
                group_pidfd,
                framed,
                output_bounded,
                output_limit,
            },
        ),
        None => {
            if group_pidfd {
                return Err(CliError::new(CliFault::GroupNeedsId));
            }
            if force {
                return Err(CliError::new(CliFault::ForceNeedsId));
            }
            Ok(Mode::Outer { command, nobuffer })
        },
    }
}

/// Reads a command line, without the name of the program.
pub fn parse(args: Vec<String>) -> (r: Result<Mode, CliError>)
    ensures
        parsed_view(r) == meaning(text::texts(args@)),
{
    if args.len() == 0 {
        return Ok(Mode::Help);
    }
    let ghost all = text::texts(args@);
    assert(all[0] == args@[0]@);
    let tail = strings_from(args.as_slice(), 1);
    let word = args[0].as_str();
    if str_equal(word, "--help") || str_equal(word, "-h") {
        Ok(Mode::Help)
    } else if str_equal(word, "--version") || str_equal(word, "-V") {
        Ok(Mode::Version)
    } else if str_equal(word, "cancel") {
        parse_control(tail.as_slice(), true)
    } else if str_equal(word, "session") {
        parse_session(tail.as_slice())
    } else if str_equal(word, "pid") {
        parse_control(tail.as_slice(), false)
    } else if str_equal(word, "capabilities") {
        parse_capabilities(tail.as_slice())
    } else if str_equal(word, "__broker") {
        parse_broker(tail.as_slice())
    } else {
        parse_options(args.as_slice())
    }
}

/// The words of the option that selects finite output, if it is selected.
pub open spec fn limit_words(output_limit: Option<u64>) -> Seq<Seq<char>> {
    match output_limit {
        Some(limit) => seq!["--output-limit"@, text::decimal(limit as nat)],
        None => Seq::empty(),
    }
}

/// The command line on which a broker is started.
pub open spec fn broker_words(
    id: Seq<char>,
    session_dir: Seq<char>,
    group_pidfd: bool,
    nobuffer: bool,
    output_limit: Option<u64>,
    command: Seq<Seq<char>>,
) -> Seq<Seq<char>> {
    let group = if group_pidfd {
        seq!["--group-pidfd"@]
    } else {
        Seq::empty()
    };
    let live = if nobuffer {
        seq!["--nobuffer"@]
    } else {
        Seq::empty()
    };
    seq!["__broker"@, "--id"@, id, "--session-dir"@, session_dir] + group + live + limit_words(
        output_limit,
    ) + seq!["--"@] + command
}

/// Makes the command line on which a broker is started.
pub fn broker_args(
    id: &str,
    session_dir: &str,
    group_pidfd: bool,
    nobuffer: bool,
    output_limit: Option<u64>,
    command: &[String],
) -> (r: Vec<String>)
    ensures
        text::texts(r@) == broker_words(
            id@,
            session_dir@,
            group_pidfd,
            nobuffer,
            output_limit,
            text::texts(command@),
        ),
{
    let mut args: Vec<String> = Vec::new();
    args.push("__broker".to_owned());
    args.push("--id".to_owned());
    args.push(id.to_owned());
    args.push("--session-dir".to_owned());
    args.push(session_dir.to_owned());
    let ghost first = text::texts(args@);
    assert(first =~= seq!["__broker"@, "--id"@, id@, "--session-dir"@, session_dir@]);
    if group_pidfd {
        args.push("--group-pidfd".to_owned());
    }
    let ghost second = text::texts(args@);
    assert(second =~= first + (if group_pidfd {
        seq!["--group-pidfd"@]
    } else {
        Seq::empty()
    }));
    if nobuffer {
        args.push("--nobuffer".to_owned());
    }
    let ghost third = text::texts(args@);
    assert(third =~= second + (if nobuffer {
        seq!["--nobuffer"@]
    } else {
        Seq::empty()
    }));
    if let Some(limit) = output_limit {
        args.push("--output-limit".to_owned());
        args.push(decimal_text(limit));
    }
    let ghost fourth = text::texts(args@);
    assert(fourth =~= third + limit_words(output_limit));
    args.push("--".to_owned());
    let ghost head = text::texts(args@);
    assert(head =~= fourth + seq!["--"@]);
    let mut i: usize = 0;
    while i < command.len()
        invariant
            i <= command@.len(),
            text::texts(args@) == head + text::texts(command@).take(i as int),
        decreases command@.len() - i,
    {
        let ghost before = args@;
        args.push(command[i].clone());
        assert(text::texts(args@) =~= text::texts(before).push(command@[i as int]@));
        assert(text::texts(command@).take(i + 1) =~= text::texts(command@).take(i as int).push(
            command@[i as int]@,
        ));
        i += 1;
        assert(text::texts(args@) =~= head + text::texts(command@).take(i as int));
    }
    assert(text::texts(command@).take(command@.len() as int) =~= text::texts(command@));
    args
}

proof fn words_differ()
    ensures
        word_of("--id"@) == Word::Id,
        word_of("--nobuffer"@) == Word::NoBuffer,
        word_of("--group-pidfd"@) == Word::GroupPidfd,
        word_of("--output-bounded"@) == Word::OutputBounded,
        word_of("--output-limit"@) == Word::OutputLimit,
        word_of("--framed"@) == Word::Framed,
        word_of("--force"@) == Word::Force,
        word_of("--session-dir"@) == Word::SessionDir,
        word_of("--"@) == Word::End,
{
    reveal_strlit("--id");
    reveal_strlit("--nobuffer");
    reveal_strlit("--group-pidfd");
    reveal_strlit("--output-bounded");
    reveal_strlit("--output-limit");
    reveal_strlit("--framed");
    reveal_strlit("--force");
    reveal_strlit("--session-dir");
    reveal_strlit("--");
    assert("--session-dir"@[2] != "--group-pidfd"@[2]);
    assert("--id"@.len() == 4);
    assert("--nobuffer"@.len() == 10);
    assert("--group-pidfd"@.len() == 13);
    assert("--output-bounded"@.len() == 16);
    assert("--output-limit"@.len() == 14);
    assert("--framed"@.len() == 8);
    assert("--force"@.len() == 7);
    assert("--session-dir"@.len() == 13);
    assert("--"@.len() == 2);
}

proof fn broker_word_differs()
    ensures
        "__broker"@ != "--help"@,
        "__broker"@ != "-h"@,
        "__broker"@ != "--version"@,
        "__broker"@ != "-V"@,
        "__broker"@ != "cancel"@,
        "__broker"@ != "session"@,
        "__broker"@ != "pid"@,
        "__broker"@ != "capabilities"@,
{
    reveal_strlit("__broker");
    reveal_strlit("--help");
    reveal_strlit("-h");
    reveal_strlit("--version");
    reveal_strlit("-V");
    reveal_strlit("cancel");
    reveal_strlit("session");
    reveal_strlit("pid");
    reveal_strlit("capabilities");
    assert("__broker"@.len() == 8);
    assert("--help"@.len() == 6);
    assert("-h"@.len() == 2);
    assert("--version"@.len() == 9);
    assert("-V"@.len() == 2);
    assert("cancel"@.len() == 6);
    assert("session"@.len() == 7);
    assert("pid"@.len() == 3);
    assert("capabilities"@.len() == 12);
}

proof fn broker_tail(
    options: BrokerOptions,
    nobuffer: bool,
    output_limit: Option<u64>,
    command: Seq<Seq<char>>,
)
    requires
        options.output_limit is None,
        output_limit is Some ==> output_limit->0 <= MAX_LIMIT,
    ensures
        ({
            let live = if nobuffer {
                seq!["--nobuffer"@]
            } else {
                Seq::empty()
            };
            broker_scan(options, live + limit_words(output_limit) + seq!["--"@] + command) == Ok::<
                (BrokerOptions, Seq<Seq<char>>),
                CliErrorView,
            >(
                (
                    BrokerOptions {
                        nobuffer: options.nobuffer || nobuffer,
                        output_limit,
                        ..options
                    },
                    command,
                ),
            )
        }),
{
    words_differ();
    let live = if nobuffer {
        seq!["--nobuffer"@]
    } else {
        Seq::empty()
    };
    let third = seq!["--"@] + command;
    let second = limit_words(output_limit) + third;
    let first = live + limit_words(output_limit) + seq!["--"@] + command;
    assert(third.skip(1) =~= command);
    assert(third[0] == "--"@);
    let after_live = BrokerOptions { nobuffer: options.nobuffer || nobuffer, ..options };
    let after_limit = BrokerOptions { output_limit, ..after_live };
    assert(broker_scan(after_limit, third) == Ok::<
        (BrokerOptions, Seq<Seq<char>>),
        CliErrorView,
    >((after_limit, command)));
    assert(broker_scan(after_live, second) == broker_scan(after_limit, third)) by {
        match output_limit {
            Some(limit) => {
                text::decimal_round_trip(limit as nat);
                assert(second[0] == "--output-limit"@);
                assert(second[1] == text::decimal(limit as nat));
                assert(second.skip(2) =~= third);
            },
            None => {
                assert(second =~= third);
            },
        }
    }
    assert(broker_scan(options, first) == broker_scan(after_live, second)) by {
        if nobuffer {
            assert(first[0] == "--nobuffer"@);
            assert(first.skip(1) =~= second);
        } else {
            assert(first =~= second);
        }
    }
}

/// The command line that a broker is started on means exactly that broker.
pub proof fn broker_command_line_round_trips(
    id: Seq<char>,
    session_dir: Seq<char>,
    group_pidfd: bool,
    nobuffer: bool,
    output_limit: Option<u64>,
    command: Seq<Seq<char>>,
)
    requires
        command.len() > 0,
        output_limit is Some ==> group_pidfd && !nobuffer && output_limit->0 <= MAX_LIMIT,
    ensures
        meaning(broker_words(id, session_dir, group_pidfd, nobuffer, output_limit, command)) == Ok::<
            ModeView,
            CliErrorView,
        >(ModeView::Broker { id, group_pidfd, session_dir, output_limit, command, nobuffer }),
{
    words_differ();
    broker_word_differs();
    let words = broker_words(id, session_dir, group_pidfd, nobuffer, output_limit, command);
    let none = BrokerOptions {
        id: None,
        session_dir: None,
        output_limit: None,
        group_pidfd: false,
        nobuffer: false,
    };
    let group = if group_pidfd {
        seq!["--group-pidfd"@]
    } else {
        Seq::empty()
    };
    let live = if nobuffer {
        seq!["--nobuffer"@]
    } else {
        Seq::empty()
    };
    let tail = live + limit_words(output_limit) + seq!["--"@] + command;
    let args = words.skip(1);
    let named = BrokerOptions { id: Some(id), ..none };
    let placed = BrokerOptions { session_dir: Some(session_dir), ..named };
    let grouped = BrokerOptions { group_pidfd, ..placed };
    assert(words[0] == "__broker"@);
    assert(args[0] == "--id"@);
    assert(args[1] == id);
    let second = args.skip(2);
    assert(second[0] == "--session-dir"@);
    assert(second[1] == session_dir);
    let third = second.skip(2);
    assert(third =~= group + tail);
    assert(broker_scan(none, args) == broker_scan(named, second));
    assert(broker_scan(named, second) == broker_scan(placed, third));
    assert(broker_scan(placed, third) == broker_scan(grouped, tail)) by {
        if group_pidfd {
            assert(third[0] == "--group-pidfd"@);
            assert(third.skip(1) =~= tail);
        } else {
            assert(third =~= tail);
        }
    }
    broker_tail(grouped, nobuffer, output_limit, command);
}

proof fn scanned_options_are_sound(options: Options, args: Seq<Seq<char>>)
    requires
        options.output_bounded ==> options.framed,
        options.framed ==> options.id is Some,
        options.output_limit is Some ==> options.id is Some && options.output_limit->0 <= MAX_LIMIT,
        scan(options, args) is Ok,
    ensures
        ({
            let (after, _) = scan(options, args)->Ok_0;
            &&& after.output_bounded ==> after.framed
            &&& after.framed ==> after.id is Some
            &&& after.output_limit is Some ==> after.id is Some && after.output_limit->0
                <= MAX_LIMIT
        }),
    decreases args.len(),
{
    if args.len() > 0 {
        match word_of(args[0]) {
            Word::Id => {
                scanned_options_are_sound(
                    Options { id: Some(args[1]), ..options },
                    args.skip(2),
                );
            },
            Word::NoBuffer => {
                scanned_options_are_sound(Options { nobuffer: true, ..options }, args.skip(1));
            },
            Word::GroupPidfd => {
                scanned_options_are_sound(
                    Options {
                        group_pidfd: true,
                        group_before_id: options.group_before_id || options.id is None,
                        ..options
                    },
                    args.skip(1),
                );
            },
            Word::OutputBounded => {
                scanned_options_are_sound(
                    Options { output_bounded: true, framed: true, ..options },
                    args.skip(1),
                );
            },
            Word::OutputLimit => {
                scanned_options_are_sound(
                    Options { output_limit: Some(limit_of(Some(args[1]))->Ok_0), ..options },
                    args.skip(2),
                );
            },
            Word::Framed => {
                scanned_options_are_sound(Options { framed: true, ..options }, args.skip(1));
            },
            Word::Force => {
                scanned_options_are_sound(Options { force: true, ..options }, args.skip(1));
            },
            Word::End | Word::SessionDir | Word::Other => {},
        }
    }
}

/// An accepted command line is consistent: framing needs buffering, finite
/// output is framed, a limit comes with finite output, group control and
/// buffering and is a file offset, and there is always a command.
pub proof fn accepted_modes_are_consistent(args: Seq<Seq<char>>)
    ensures
        meaning(args) matches Ok(
            ModeView::Server {
                id,
                command,
                nobuffer,
                force,
                group_pidfd,
                framed,
                output_bounded,
                output_limit,
            },
        ) ==> {
            &&& framed ==> !nobuffer
            &&& output_bounded ==> framed
            &&& output_limit is Some ==> output_bounded && group_pidfd && !nobuffer
                && output_limit->0 <= MAX_LIMIT
            &&& command.len() > 0
        },
        meaning(args) matches Ok(ModeView::Outer { command, nobuffer }) ==> command.len() > 0,
{
    if scan(no_options(), args) is Ok {
        scanned_options_are_sound(no_options(), args);
    }
}

/// The switches that need an ID first are refused as the first word, so that a
/// parser that does not know them never takes them for a transport command.
pub proof fn new_switches_need_an_id(args: Seq<Seq<char>>)
    requires
        args.len() > 0,
        args[0] == "--framed"@ || args[0] == "--output-bounded"@ || args[0] == "--output-limit"@,
    ensures
        meaning(args) is Err,
{
    words_differ();
    reveal_strlit("--framed");
    reveal_strlit("--output-bounded");
    reveal_strlit("--output-limit");
    reveal_strlit("--help");
    reveal_strlit("-h");
    reveal_strlit("--version");
    reveal_strlit("-V");
    reveal_strlit("cancel");
    reveal_strlit("session");
    reveal_strlit("pid");
    reveal_strlit("capabilities");
    reveal_strlit("__broker");
    assert(args[0][0] == '-' && args[0].len() >= 8);
    assert("--framed"@[2] != "__broker"@[2]);
}

/// What this program can do, for the compatibility probe.
pub open spec fn capability_names() -> Seq<Seq<char>> {
    seq![
        "raw-public-streams"@,
        FRAMED_ATTACHMENT_V1@,
        "absolute-resume-offsets"@,
        "sticky-stdin-eof"@,
        "separate-stdout-stderr"@,
        "process-group-cancel"@,
        "cancel-outcome"@,
        "opt-in-group-pidfd-cancel-v1"@,
        "opt-in-finite-output-v1"@,
        "terminal-replay"@,
        "nobuffer"@,
        "forced-attach-takeover"@,
    ]
}

/// What the compatibility probe prints.
#[derive(Clone, Debug)]
pub struct Capabilities {
    pub name: String,
    pub version: String,
    /// The revision of the source that the program was built from.
    pub revision: String,
    /// The version of the attachment handshake.
    pub protocol: u32,
    pub capabilities: Vec<String>,
}

/// The revision of the source: the one that the build was told, else the one
/// that its checkout names, else a word for neither.
pub open spec fn source_revision(told: Option<Seq<char>>, head: Option<Seq<char>>) -> Seq<char> {
    if told is Some && text::trim(told->0).len() > 0 {
        text::trim(told->0)
    } else if head is Some && text::trim(head->0).len() > 0 {
        text::trim(head->0)
    } else {
        "unknown"@
    }
}

/// The text of an optional word.
pub open spec fn word_text(word: Option<&str>) -> Option<Seq<char>> {
    match word {
        Some(word) => Some(word@),
        None => None,
    }
}

/// Chooses the revision that the program reports. It is never empty.
pub fn build_revision(told: Option<&str>, head: Option<&str>) -> (r: String)
    ensures
        r@ == source_revision(word_text(told), word_text(head)),
        r@.len() > 0,
{
    if let Some(told) = told {
        let revision = trimmed(told);
        if revision.unicode_len() > 0 {
            return revision.to_owned();
        }
    }
    if let Some(head) = head {
        let revision = trimmed(head);
        if revision.unicode_len() > 0 {
            return revision.to_owned();
        }
    }
    proof {
        reveal_strlit("unknown");
    }
    "unknown".to_owned()
}

/// What the compatibility probe prints of a program of this version, whose build
/// was told the one revision and whose checkout names the other.
pub fn capabilities(version: &str, told: Option<&str>, head: Option<&str>) -> (r: Capabilities)
    ensures
        r.name@ == "pipekeep"@,
        r.version@ == version@,
        r.revision@ == source_revision(word_text(told), word_text(head)),
        r.revision@.len() > 0,
        r.protocol == ATTACHMENT_PROTOCOL_VERSION,
        text::texts(r.capabilities@) == capability_names(),
{
    let mut names: Vec<String> = Vec::new();
    names.push("raw-public-streams".to_owned());
    names.push(FRAMED_ATTACHMENT_V1.to_owned());
    names.push("absolute-resume-offsets".to_owned());
    names.push("sticky-stdin-eof".to_owned());
    names.push("separate-stdout-stderr".to_owned());
    names.push("process-group-cancel".to_owned());
    names.push("cancel-outcome".to_owned());
    names.push("opt-in-group-pidfd-cancel-v1".to_owned());
    names.push("opt-in-finite-output-v1".to_owned());
    names.push("terminal-replay".to_owned());
    names.push("nobuffer".to_owned());
    names.push("forced-attach-takeover".to_owned());
    assert(text::texts(names@) =~= capability_names());
    Capabilities {
        name: "pipekeep".to_owned(),
        version: version.to_owned(),
        revision: build_revision(told, head),
        protocol: ATTACHMENT_PROTOCOL_VERSION,
        capabilities: names,
    }
}

/// The text of `--help`.
pub const HELP: &'static str = "pipekeep: resumable process pipes

Usage:
  pipekeep [--nobuffer] [--] TRANSPORT [ARG...]
  pipekeep --id ID [--nobuffer] [--force] [--group-pidfd] [--framed] -- COMMAND [ARG...]
  pipekeep --id ID --output-bounded --group-pidfd --output-limit BYTES -- COMMAND [ARG...]
  pipekeep --id ID --output-bounded [--force] -- COMMAND [ARG...]
  pipekeep cancel --id ID [--require-group-pidfd] [--output-bounded]
  pipekeep session --id ID
  pipekeep pid --id ID
  pipekeep capabilities --json
  pipekeep --version

The outer form reruns TRANSPORT after a disconnection. The --id form creates
or attaches to a detached process session using the opening protocol message.
With --id, --force applies only to attach-only opening requests and supersedes
an existing data attachment without restarting the command.
--framed requires buffering and carries typed frames after a versioned opening.
--output-bounded selects policy-aware framing; creation also requires the checked
shared decimal --output-limit (0..9223372036854775807), --group-pidfd and buffering.
Attach-only openings omit --output-limit and --group-pidfd. Bounded sessions
require output-aware readers and cancellation; use framed stdin EOF intent.
Keep --id ID before new flags, and the workload after -- for old-parser safety.
`capabilities --json` prints a machine-readable compatibility probe.
";

/// Whether a word is one of the switches that may stand in any order behind an ID.
pub open spec fn is_switch(word: Seq<char>) -> bool {
    ||| word == "--nobuffer"@
    ||| word == "--group-pidfd"@
    ||| word == "--output-bounded"@
    ||| word == "--framed"@
    ||| word == "--force"@
}

proof fn switches_are_scanned(options: Options, words: Seq<Seq<char>>, rest: Seq<Seq<char>>)
    requires
        options.id is Some,
        forall|i: int| 0 <= i < words.len() ==> is_switch(#[trigger] words[i]),
    ensures
        scan(options, words + rest) == scan(
            Options {
                nobuffer: options.nobuffer || words.contains("--nobuffer"@),
                force: options.force || words.contains("--force"@),
                group_pidfd: options.group_pidfd || words.contains("--group-pidfd"@),
                framed: options.framed || words.contains("--framed"@) || words.contains(
                    "--output-bounded"@,
                ),
                output_bounded: options.output_bounded || words.contains("--output-bounded"@),
                ..options
            },
            rest,
        ),
    decreases words.len(),
{
    words_differ();
    let all = words + rest;
    if words.len() == 0 {
        assert(all =~= rest);
        assert(!words.contains("--nobuffer"@));
        assert(!words.contains("--force"@));
        assert(!words.contains("--group-pidfd"@));
        assert(!words.contains("--framed"@));
        assert(!words.contains("--output-bounded"@));
    } else {
        let first = words[0];
        let tail = words.skip(1);
        assert(is_switch(first));
        assert(all[0] == first);
        assert(all.skip(1) =~= tail + rest);
        assert forall|i: int| 0 <= i < tail.len() implies is_switch(#[trigger] tail[i]) by {
            assert(tail[i] == words[i + 1]);
        }
        assert forall|w: Seq<char>| #[trigger]
            words.contains(w) <==> w == first || tail.contains(w) by {
            if words.contains(w) && w != first {
                let i = choose|i: int| 0 <= i < words.len() && words[i] == w;
                assert(tail[i - 1] == w);
            }
            if tail.contains(w) {
                let i = choose|i: int| 0 <= i < tail.len() && tail[i] == w;
                assert(words[i + 1] == w);
            }
            if w == first {
                assert(words[0] == w);
            }
        }
        let next = match word_of(first) {
            Word::NoBuffer => Options { nobuffer: true, ..options },
            Word::GroupPidfd => Options { group_pidfd: true, ..options },
            Word::OutputBounded => Options { output_bounded: true, framed: true, ..options },
            Word::Framed => Options { framed: true, ..options },
            _ => Options { force: true, ..options },
        };
        assert(scan(options, all) == scan(next, tail + rest));
        switches_are_scanned(next, tail, rest);
        assert(words.contains("--nobuffer"@) <==> "--nobuffer"@ == first || tail.contains(
            "--nobuffer"@,
        ));
        assert(words.contains("--force"@) <==> "--force"@ == first || tail.contains("--force"@));
        assert(words.contains("--group-pidfd"@) <==> "--group-pidfd"@ == first || tail.contains(
            "--group-pidfd"@,
        ));
        assert(words.contains("--framed"@) <==> "--framed"@ == first || tail.contains(
            "--framed"@,
        ));
        assert(words.contains("--output-bounded"@) <==> "--output-bounded"@ == first
            || tail.contains("--output-bounded"@));
    }
}

proof fn option_words_are_no_commands()
    ensures
        forall|word: Seq<char>|
            #![trigger word_of(word)]
            word == "--id"@ || word == "--nobuffer"@ || word == "--"@ ==> word != "--help"@ && word
                != "-h"@ && word != "--version"@ && word != "-V"@ && word != "cancel"@ && word
                != "session"@ && word != "pid"@ && word != "capabilities"@ && word != "__broker"@,
{
    reveal_strlit("--id");
    reveal_strlit("--nobuffer");
    reveal_strlit("--");
    reveal_strlit("--help");
    reveal_strlit("-h");
    reveal_strlit("--version");
    reveal_strlit("-V");
    reveal_strlit("cancel");
    reveal_strlit("session");
    reveal_strlit("pid");
    reveal_strlit("capabilities");
    reveal_strlit("__broker");
    assert("--id"@.len() == 4);
    assert("--nobuffer"@.len() == 10);
    assert("--"@.len() == 2);
    assert("--"@[1] != "-h"@[1]);
    assert("--"@[1] != "-V"@[1]);
    assert("--help"@.len() == 6);
    assert("-h"@.len() == 2);
    assert("--version"@.len() == 9);
    assert("-V"@.len() == 2);
    assert("cancel"@.len() == 6);
    assert("session"@.len() == 7);
    assert("pid"@.len() == 3);
    assert("capabilities"@.len() == 12);
    assert("__broker"@.len() == 8);
}

/// Behind an ID switches may stand in any order and any number, each says exactly
/// what it names, and the command behind `--` is taken as it is, whatever it looks
/// like. Finite output is framed. Such a line is accepted unless it asks for
/// frames without buffering or has no command.
pub proof fn switches_mean_what_they_name(
    id: Seq<char>,
    words: Seq<Seq<char>>,
    command: Seq<Seq<char>>,
    args: Vec<String>,
    r: Result<Mode, CliError>,
)
    requires
        forall|i: int| 0 <= i < words.len() ==> is_switch(#[trigger] words[i]),
        text::texts(args@) == seq!["--id"@, id] + words + seq!["--"@] + command,
        call_ensures(parse, (args,), r),
    ensures
        ({
            let framed = words.contains("--framed"@) || words.contains("--output-bounded"@);
            &&& r is Ok <==> command.len() > 0 && !(framed && words.contains("--nobuffer"@))
            &&& r matches Ok(mode) ==> {
                &&& mode matches Mode::Server {
                    id: named,
                    command: run,
                    nobuffer,
                    force,
                    group_pidfd,
                    framed: frames,
                    output_bounded,
                    output_limit,
                }
                &&& named@ == id
                &&& text::texts(run@) == command
                &&& nobuffer == words.contains("--nobuffer"@)
                &&& force == words.contains("--force"@)
                &&& group_pidfd == words.contains("--group-pidfd"@)
                &&& frames == framed
                &&& output_bounded == words.contains("--output-bounded"@)
                &&& output_limit is None
            }
        }),
{
    words_differ();
    option_words_are_no_commands();
    let all = text::texts(args@);
    let behind = seq!["--"@] + command;
    let named = Options { id: Some(id), ..no_options() };
    assert(word_of("--id"@) == Word::Id);
    assert(all[0] == "--id"@);
    assert(all[1] == id);
    assert(all.skip(2) =~= words + behind);
    assert(scan(no_options(), all) == scan(named, words + behind));
    switches_are_scanned(named, words, behind);
    assert(behind[0] == "--"@);
    assert(behind.skip(1) =~= command);
    assert(parsed_view(r) == meaning(all));
}

/// A limit behind the ID of a bounded session with group control is taken as it is
/// written.
pub proof fn limits_are_taken_as_written(
    id: Seq<char>,
    limit: u64,
    words: Seq<Seq<char>>,
    command: Seq<Seq<char>>,
    args: Vec<String>,
    r: Result<Mode, CliError>,
)
    requires
        forall|i: int| 0 <= i < words.len() ==> is_switch(#[trigger] words[i]),
        words.contains("--output-bounded"@),
        text::texts(args@) == seq!["--id"@, id, "--output-limit"@, text::decimal(limit as nat)]
            + words + seq!["--"@] + command,
        call_ensures(parse, (args,), r),
    ensures
        r is Ok <==> limit <= 0x7fff_ffff_ffff_ffff && command.len() > 0 && words.contains(
            "--group-pidfd"@,
        ) && !words.contains("--nobuffer"@),
        r matches Ok(mode) ==> {
            &&& mode matches Mode::Server { id: named, output_limit, output_bounded, .. }
            &&& named@ == id
            &&& output_limit == Some(limit)
            &&& output_bounded
        },
{
    words_differ();
    option_words_are_no_commands();
    text::decimal_round_trip(limit as nat);
    let all = text::texts(args@);
    let behind = seq!["--"@] + command;
    let named = Options { id: Some(id), ..no_options() };
    let limited = Options { output_limit: Some(limit), ..named };
    assert(word_of("--id"@) == Word::Id);
    assert(all[0] == "--id"@);
    assert(all[1] == id);
    let rest = all.skip(2);
    assert(rest[0] == "--output-limit"@);
    assert(rest[1] == text::decimal(limit as nat));
    assert(rest.skip(2) =~= words + behind);
    assert(scan(no_options(), all) == scan(named, rest));
    if limit <= MAX_LIMIT {
        assert(scan(named, rest) == scan(limited, words + behind));
        switches_are_scanned(limited, words, behind);
        assert(behind[0] == "--"@);
        assert(behind.skip(1) =~= command);
    }
    assert(parsed_view(r) == meaning(all));
}

/// A line without an ID is a transport command, run as it is written; `--nobuffer`
/// before it turns buffering off, and `--` ends the options.
pub proof fn transports_are_run_as_written(
    live: bool,
    command: Seq<Seq<char>>,
    args: Vec<String>,
    r: Result<Mode, CliError>,
)
    requires
        command.len() > 0,
        text::texts(args@) == (if live {
            seq!["--nobuffer"@]
        } else {
            Seq::empty()
        }) + seq!["--"@] + command,
        call_ensures(parse, (args,), r),
    ensures
        r matches Ok(Mode::Outer { command: run, nobuffer }) && text::texts(run@) == command
            && nobuffer == live,
{
    words_differ();
    option_words_are_no_commands();
    let all = text::texts(args@);
    let behind = seq!["--"@] + command;
    assert(word_of("--nobuffer"@) == Word::NoBuffer && word_of("--"@) == Word::End);
    assert(behind[0] == "--"@);
    assert(behind.skip(1) =~= command);
    if live {
        assert(all[0] == "--nobuffer"@);
        assert(all.skip(1) =~= behind);
        assert(scan(no_options(), all) == scan(
            Options { nobuffer: true, ..no_options() },
            behind,
        ));
    } else {
        assert(all =~= behind);
    }
    assert(parsed_view(r) == meaning(all));
}

/// The words of a command that is no option and no name of a control are run as
/// they stand, options behind the first word with them.
pub proof fn plain_commands_are_transports(
    command: Seq<Seq<char>>,
    args: Vec<String>,
    r: Result<Mode, CliError>,
)
    requires
        command.len() > 0,
        text::texts(args@) == command,
        ({
            let word = command[0];
            &&& word != "--help"@ && word != "-h"@ && word != "--version"@ && word != "-V"@
            &&& word != "cancel"@ && word != "session"@ && word != "pid"@
            &&& word != "capabilities"@ && word != "__broker"@
            &&& word != "--id"@ && word != "--nobuffer"@ && word != "--group-pidfd"@
            &&& word != "--output-bounded"@ && word != "--output-limit"@ && word != "--framed"@
            &&& word != "--force"@ && word != "--"@
        }),
        call_ensures(parse, (args,), r),
    ensures
        r matches Ok(Mode::Outer { command: run, nobuffer }) && text::texts(run@) == command
            && !nobuffer,
{
    assert(parsed_view(r) == meaning(command));
}

proof fn control_words_differ()
    ensures
        "cancel"@ != "--help"@ && "cancel"@ != "-h"@ && "cancel"@ != "--version"@ && "cancel"@
            != "-V"@,
        "session"@ != "--help"@ && "session"@ != "-h"@ && "session"@ != "--version"@ && "session"@
            != "-V"@ && "session"@ != "cancel"@,
        "pid"@ != "--help"@ && "pid"@ != "-h"@ && "pid"@ != "--version"@ && "pid"@ != "-V"@
            && "pid"@ != "cancel"@ && "pid"@ != "session"@,
        "--id"@ != "--output-bounded"@ && "--id"@ != "--require-group-pidfd"@,
        "--output-bounded"@ != "--require-group-pidfd"@,
{
    reveal_strlit("cancel");
    reveal_strlit("session");
    reveal_strlit("pid");
    reveal_strlit("--help");
    reveal_strlit("-h");
    reveal_strlit("--version");
    reveal_strlit("-V");
    reveal_strlit("--id");
    reveal_strlit("--output-bounded");
    reveal_strlit("--require-group-pidfd");
    assert("cancel"@[0] == 'c');
    assert("session"@[0] == 's');
    assert("pid"@[0] == 'p');
    assert("--help"@[0] == '-');
    assert("-h"@[0] == '-');
    assert("--version"@[0] == '-');
    assert("-V"@[0] == '-');
    assert("--id"@.len() == 4);
    assert("--output-bounded"@.len() == 16);
    assert("--require-group-pidfd"@.len() == 21);
}

/// Whether a word is a switch of `cancel`.
pub open spec fn is_cancel_switch(word: Seq<char>) -> bool {
    word == "--output-bounded"@ || word == "--require-group-pidfd"@
}

proof fn switches_can_be_taken_out(words: Seq<Seq<char>>)
    requires
        forall|i: int| 0 <= i < words.len() ==> is_cancel_switch(#[trigger] words[i]),
    ensures
        text::without(
            text::without(words, "--output-bounded"@),
            "--require-group-pidfd"@,
        ) == Seq::<Seq<char>>::empty(),
        forall|i: int|
            0 <= i < text::without(words, "--output-bounded"@).len() ==> #[trigger] text::without(
                words,
                "--output-bounded"@,
            )[i] == "--require-group-pidfd"@,
        text::without(words, "--output-bounded"@).len() > 0 <==> words.contains(
            "--require-group-pidfd"@,
        ),
    decreases words.len(),
{
    control_words_differ();
    if words.len() > 0 {
        let rest = words.drop_last();
        assert forall|i: int| 0 <= i < rest.len() implies is_cancel_switch(#[trigger] rest[i]) by {
            assert(rest[i] == words[i]);
        }
        switches_can_be_taken_out(rest);
        assert(is_cancel_switch(words[words.len() - 1]));
        let kept = text::without(words, "--output-bounded"@);
        if words.last() != "--output-bounded"@ {
            assert(kept.drop_last() =~= text::without(rest, "--output-bounded"@));
            assert(kept.last() == "--require-group-pidfd"@);
            assert(words[words.len() - 1] == "--require-group-pidfd"@);
        } else {
            if words.contains("--require-group-pidfd"@) {
                let i = choose|i: int|
                    0 <= i < words.len() && words[i] == "--require-group-pidfd"@;
                assert(rest[i] == words[i]);
                assert(rest.contains("--require-group-pidfd"@));
            }
            if rest.contains("--require-group-pidfd"@) {
                let i = choose|i: int| 0 <= i < rest.len() && rest[i] == "--require-group-pidfd"@;
                assert(words[i] == rest[i]);
            }
        }
    } else {
        assert(text::without(words, "--output-bounded"@) =~= Seq::<Seq<char>>::empty());
    }
}

/// `cancel` names its session, and its switches, in any order and number behind the
/// ID, say what they name and nothing else.
pub proof fn cancellations_name_what_they_require(
    id: Seq<char>,
    words: Seq<Seq<char>>,
    args: Vec<String>,
    r: Result<Mode, CliError>,
)
    requires
        !is_cancel_switch(id),
        forall|i: int| 0 <= i < words.len() ==> is_cancel_switch(#[trigger] words[i]),
        text::texts(args@) == seq!["cancel"@, "--id"@, id] + words,
        call_ensures(parse, (args,), r),
    ensures
        r matches Ok(Mode::Cancel { id: named, require_group_pidfd, output_bounded }) && named@
            == id && require_group_pidfd == words.contains("--require-group-pidfd"@)
            && output_bounded == words.contains("--output-bounded"@),
{
    control_words_differ();
    let all = text::texts(args@);
    let rest = all.skip(1);
    let bounded = "--output-bounded"@;
    let required = "--require-group-pidfd"@;
    assert(all[0] == "cancel"@);
    let head = seq!["--id"@, id];
    assert(rest =~= head + words);
    assert(!head.contains(bounded)) by {
        assert(head[0] != bounded && head[1] != bounded);
    }
    assert(!head.contains(required)) by {
        assert(head[0] != required && head[1] != required);
    }
    switches_can_be_taken_out(words);
    text::words_are_taken_out_one_by_one(head, bounded, Seq::empty());
    text::words_are_taken_out_one_by_one(head, required, Seq::empty());
    text::without_of_concat(head, words, bounded);
    let first = head + text::without(words, bounded);
    text::without_of_concat(head, text::without(words, bounded), required);
    assert(rest.contains(bounded) <==> words.contains(bounded)) by {
        if rest.contains(bounded) {
            let i = choose|i: int| 0 <= i < rest.len() && rest[i] == bounded;
            if i < 2 {
                assert(head[i] == bounded);
            }
            assert(words[i - 2] == bounded);
        }
        if words.contains(bounded) {
            let i = choose|i: int| 0 <= i < words.len() && words[i] == bounded;
            assert(rest[i + 2] == bounded);
        }
    }
    let kept = text::without(words, bounded);
    if !words.contains(bounded) {
        text::words_are_taken_out_one_by_one(words, bounded, Seq::empty());
        assert(kept == words);
    }
    assert(first.contains(required) <==> words.contains(required)) by {
        if kept.len() > 0 {
            assert(first[2] == kept[0]);
            assert(kept[0] == required);
        }
        if first.contains(required) {
            let i = choose|i: int| 0 <= i < first.len() && first[i] == required;
            if i < 2 {
                assert(head[i] == required);
            }
        }
    }
    let last = head + text::without(kept, required);
    assert(last =~= head);
    if !words.contains(required) {
        assert(kept =~= Seq::<Seq<char>>::empty());
        assert(first =~= head);
    }
    let seen = if words.contains(bounded) {
        text::without(rest, bounded)
    } else {
        rest
    };
    assert(seen =~= first);
    assert(parsed_view(r) == meaning(all));
}

/// `session` and `pid` take an ID and nothing else.
pub proof fn observations_take_an_id(
    observe: bool,
    rest: Seq<Seq<char>>,
    args: Vec<String>,
    r: Result<Mode, CliError>,
)
    requires
        text::texts(args@) == seq![
            if observe {
                "session"@
            } else {
                "pid"@
            },
        ] + rest,
        call_ensures(parse, (args,), r),
    ensures
        r is Ok <==> rest.len() == 2 && rest[0] == "--id"@,
        r is Ok && observe ==> (r->Ok_0 matches Mode::Session { id } && id@ == rest[1]),
        r is Ok && !observe ==> (r->Ok_0 matches Mode::Pid { id } && id@ == rest[1]),
        r is Err && observe ==> r->Err_0.fault is ExpectedId,
        r is Err && !observe ==> r->Err_0.fault is ExpectedControl,
{
    control_words_differ();
    let all = text::texts(args@);
    assert(all.skip(1) =~= rest);
    assert(parsed_view(r) == meaning(all));
}

/// A limit is read exactly if it is digits and a file offset, and then as it is
/// written.
pub proof fn limits_are_file_offsets(value: &String, r: Result<u64, CliError>)
    requires
        call_ensures(parse_limit, (Some(value),), r),
    ensures
        r is Ok <==> text::is_number(value@) && text::number(value@) <= 0x7fff_ffff_ffff_ffff,
        r matches Ok(limit) ==> limit == text::number(value@),
        r matches Err(error) ==> {
            &&& error.fault is LimitInvalid <==> !text::is_number(value@)
            &&& error.fault is LimitTooLarge <==> text::is_number(value@) && text::number(value@)
                > u64::MAX
            &&& !(error.fault is LimitInvalid) && !(error.fault is LimitTooLarge)
                ==> error.fault is LimitRange
        },
{
}

/// A broker that is started on the command line that is made for it is exactly the
/// one that was meant.
pub proof fn brokers_are_started_as_meant(
    id: &str,
    session_dir: &str,
    group_pidfd: bool,
    nobuffer: bool,
    output_limit: Option<u64>,
    command: &[String],
    args: Vec<String>,
    r: Result<Mode, CliError>,
)
    requires
        command@.len() > 0,
        output_limit is Some ==> group_pidfd && !nobuffer && output_limit->0
            <= 0x7fff_ffff_ffff_ffff,
        call_ensures(
            broker_args,
            (id, session_dir, group_pidfd, nobuffer, output_limit, command),
            args,
        ),
        call_ensures(parse, (args,), r),
    ensures
        r is Ok,
        r->Ok_0 matches Mode::Broker {
            id: named,
            group_pidfd: group,
            session_dir: directory,
            output_limit: limit,
            command: run,
            nobuffer: live,
        } && named@ == id@ && group == group_pidfd && directory@ == session_dir@ && limit
            == output_limit && text::texts(run@) == text::texts(command@) && live == nobuffer,
{
    broker_command_line_round_trips(
        id@,
        session_dir@,
        group_pidfd,
        nobuffer,
        output_limit,
        text::texts(command@),
    );
    assert(parsed_view(r) == meaning(text::texts(args@)));
}

/// The revision that is reported is the one that the build was told, without the
/// white space around it; only without one does the checkout's count, and only
/// without either is it unknown.
pub proof fn told_revisions_come_first(told: Option<&str>, head: Option<&str>, r: String)
    requires
        call_ensures(build_revision, (told, head), r),
    ensures
        r@.len() > 0,
        ({
            let given = told is Some && text::trim(told->0@).len() > 0;
            let named = head is Some && text::trim(head->0@).len() > 0;
            &&& given ==> r@ == text::trim(told->0@)
            &&& !given && named ==> r@ == text::trim(head->0@)
            &&& !given && !named ==> r@ == "unknown"@
        }),
{
}

/// The probe tells the program's own name, version and revision, speaks version one
/// of the handshake, and names each capability once.
pub proof fn probes_tell_the_program(
    version: &str,
    told: Option<&str>,
    head: Option<&str>,
    revision: String,
    r: Capabilities,
)
    requires
        call_ensures(build_revision, (told, head), revision),
        call_ensures(capabilities, (version, told, head), r),
    ensures
        r.name@ == "pipekeep"@,
        r.version@ == version@,
        r.revision@ == revision@,
        r.protocol == 1,
        r.capabilities@.len() == 12,
        r.capabilities@[1]@ == "framed-v1"@,
        r.capabilities@[7]@ == "opt-in-group-pidfd-cancel-v1"@,
        r.capabilities@[8]@ == "opt-in-finite-output-v1"@,
{
    let names = text::texts(r.capabilities@);
    assert(names.len() == 12);
    assert(names[1] == r.capabilities@[1]@);
    assert(names[7] == r.capabilities@[7]@);
    assert(names[8] == r.capabilities@[8]@);
}

/// A refused command line says why, and quotes an option that is not known.
pub proof fn refused_lines_say_why(error: CliError, r: String)
    requires
        call_ensures(CliError::message, (&error,), r),
    ensures
        error.fault is IdValue ==> r@ == "--id requires a value"@,
        error.fault is BoundedOrder ==> r@ == "--output-bounded must follow --id ID"@,
        error.fault is LimitOrder ==> r@ == "--output-limit must follow --id ID"@,
        error.fault is LimitTwice ==> r@ == "duplicate --output-limit"@,
        error.fault is LimitMissing ==> r@ == "--output-limit requires decimal bytes"@,
        error.fault is LimitInvalid ==> r@ == "invalid output limit"@,
        error.fault is LimitTooLarge ==> r@ == "number too large to fit in target type"@,
        error.fault is LimitRange ==> r@ == "output limit exceeds file offset range"@,
        error.fault is FramedOrder ==> r@ == "--framed must follow --id ID"@,
        error.fault is FramedNeedsBuffer ==> r@
            == "--framed requires --id and buffered sessions (no --nobuffer)"@,
        error.fault is GroupOrder ==> r@ == "finite output requires --id ID before --group-pidfd"@,
        error.fault is LimitNeeds ==> r@
            == "--output-limit requires --output-bounded, --group-pidfd and buffering"@,
        error.fault is CommandRequired ==> r@ == "a command is required"@,
        error.fault is GroupNeedsId ==> r@
            == "--group-pidfd requires --id and new-session creation"@,
        error.fault is ForceNeedsId ==> r@
            == "--force requires --id and only applies to attach-only sessions"@,
        error.fault is ExpectedId ==> r@ == "expected --id ID"@,
        error.fault is ExpectedControl ==> r@
            == "expected --id ID [--require-group-pidfd for cancel]"@,
        error.fault is BrokerCommand ==> r@ == "broker command is missing"@,
        error.fault is BrokerFinite ==> r@
            == "finite output requires buffered group pidfd session"@,
        error.fault is BrokerId ==> r@ == "broker ID is missing"@,
        error.fault is BrokerDirectory ==> r@ == "broker session directory is missing"@,
        error.fault is CapabilitiesJson ==> r@
            == "capabilities requires --json; only machine-readable output is provided"@,
        error.fault is CapabilitiesArguments ==> r@
            == "capabilities accepts exactly one argument: --json"@,
        error.fault is ServerOption ==> r@ == "unknown server option "@ + text::debug_text(
            error.argument@,
        ) + "; put the command after --"@,
        error.fault is BrokerOption ==> r@ == "unknown broker option "@ + text::debug_text(
            error.argument@,
        ),
{
}

proof fn further_words_are_no_commands()
    ensures
        forall|word: Seq<char>|
            #![trigger word_of(word)]
            word == "--output-bounded"@ || word == "--output-limit"@ || word == "--framed"@ || word
                == "--force"@ || word == "--group-pidfd"@ ==> word != "--help"@ && word != "-h"@
                && word != "--version"@ && word != "-V"@ && word != "cancel"@ && word
                != "session"@ && word != "pid"@ && word != "capabilities"@ && word != "__broker"@,
{
    reveal_strlit("--output-bounded");
    reveal_strlit("--output-limit");
    reveal_strlit("--framed");
    reveal_strlit("--force");
    reveal_strlit("--group-pidfd");
    reveal_strlit("--help");
    reveal_strlit("-h");
    reveal_strlit("--version");
    reveal_strlit("-V");
    reveal_strlit("cancel");
    reveal_strlit("session");
    reveal_strlit("pid");
    reveal_strlit("capabilities");
    reveal_strlit("__broker");
    assert("--output-bounded"@.len() == 16);
    assert("--output-limit"@.len() == 14);
    assert("--framed"@.len() == 8 && "--framed"@[0] == '-');
    assert("--force"@.len() == 7 && "--force"@[0] == '-');
    assert("--group-pidfd"@.len() == 13);
    assert("--help"@.len() == 6);
    assert("-h"@.len() == 2);
    assert("--version"@.len() == 9);
    assert("-V"@.len() == 2);
    assert("cancel"@.len() == 6);
    assert("session"@.len() == 7 && "session"@[0] == 's');
    assert("pid"@.len() == 3);
    assert("capabilities"@.len() == 12);
    assert("__broker"@.len() == 8 && "__broker"@[0] == '_');
}

/// Options that belong to a session are refused before its ID, and those that need
/// one are refused without it.
pub proof fn options_of_sessions_need_an_id(
    flag: Seq<char>,
    rest: Seq<Seq<char>>,
    args: Vec<String>,
    r: Result<Mode, CliError>,
)
    requires
        text::texts(args@) == seq![flag] + rest,
        call_ensures(parse, (args,), r),
    ensures
        flag == "--output-bounded"@ ==> r is Err && r->Err_0.fault is BoundedOrder,
        flag == "--output-limit"@ ==> r is Err && r->Err_0.fault is LimitOrder,
        flag == "--framed"@ ==> r is Err && r->Err_0.fault is FramedOrder,
        flag == "--id"@ && rest.len() == 0 ==> r is Err && r->Err_0.fault is IdValue,
        flag == "--group-pidfd"@ && rest.len() > 1 && rest[0] == "--"@ ==> r is Err
            && r->Err_0.fault is GroupNeedsId,
        flag == "--force"@ && rest.len() > 1 && rest[0] == "--"@ ==> r is Err && r->Err_0.fault
            is ForceNeedsId,
        flag == "--group-pidfd"@ || flag == "--force"@ || flag == "--nobuffer"@ ==> (rest.len() == 0
            ==> r is Err && r->Err_0.fault is CommandRequired),
{
    words_differ();
    option_words_are_no_commands();
    further_words_are_no_commands();
    reveal_with_fuel(scan, 3);
    let all = text::texts(args@);
    assert(all[0] == flag);
    assert(all.skip(1) =~= rest);
    assert(word_of(flag) == word_of(all[0]));
    if rest.len() > 1 {
        assert(rest.skip(1).len() > 0);
    }
    assert(parsed_view(r) == meaning(all));
}

/// A line that asks for too little or for what does not go together says what it is:
/// frames without buffering first, a missing command last.
pub proof fn incomplete_sessions_are_refused_for_their_fault(
    id: Seq<char>,
    words: Seq<Seq<char>>,
    command: Seq<Seq<char>>,
    args: Vec<String>,
    r: Result<Mode, CliError>,
)
    requires
        forall|i: int| 0 <= i < words.len() ==> is_switch(#[trigger] words[i]),
        text::texts(args@) == seq!["--id"@, id] + words + seq!["--"@] + command,
        call_ensures(parse, (args,), r),
    ensures
        ({
            let framed = words.contains("--framed"@) || words.contains("--output-bounded"@);
            let conflict = framed && words.contains("--nobuffer"@);
            &&& conflict ==> r is Err && r->Err_0.fault is FramedNeedsBuffer
            &&& !conflict && command.len() == 0 ==> r is Err && r->Err_0.fault is CommandRequired
        }),
{
    words_differ();
    option_words_are_no_commands();
    let all = text::texts(args@);
    let behind = seq!["--"@] + command;
    let named = Options { id: Some(id), ..no_options() };
    assert(word_of("--id"@) == Word::Id);
    assert(all[0] == "--id"@);
    assert(all[1] == id);
    assert(all.skip(2) =~= words + behind);
    assert(scan(no_options(), all) == scan(named, words + behind));
    switches_are_scanned(named, words, behind);
    assert(behind[0] == "--"@);
    assert(behind.skip(1) =~= command);
    assert(parsed_view(r) == meaning(all));
}

/// Behind an ID a word that is no option is refused by name: a command stands behind
/// `--`. A limit needs its value, stands once, and needs what goes with it.
pub proof fn words_behind_an_id_are_refused(
    id: Seq<char>,
    words: Seq<Seq<char>>,
    word: Seq<char>,
    rest: Seq<Seq<char>>,
    limit: u64,
    args: Vec<String>,
    r: Result<Mode, CliError>,
)
    requires
        forall|i: int| 0 <= i < words.len() ==> is_switch(#[trigger] words[i]),
        text::texts(args@) == seq!["--id"@, id] + words + seq![word] + rest,
        call_ensures(parse, (args,), r),
    ensures
        !is_switch(word) && word != "--"@ && word != "--id"@ && word != "--output-limit"@ ==> r
            is Err && r->Err_0.fault is ServerOption && r->Err_0.argument@ == word,
        word == "--output-limit"@ && rest.len() == 0 ==> r is Err && r->Err_0.fault is LimitMissing,
        word == "--output-limit"@ && limit <= 0x7fff_ffff_ffff_ffff && rest.len() > 1 && rest[0]
            == text::decimal(limit as nat) && rest[1] == "--output-limit"@ ==> r is Err
            && r->Err_0.fault is LimitTwice,
        word == "--output-limit"@ && limit <= 0x7fff_ffff_ffff_ffff && rest.len() > 1 && rest[0]
            == text::decimal(limit as nat) && rest[1] == "--"@ && !words.contains(
            "--output-bounded"@,
        ) && !(words.contains("--framed"@) && words.contains("--nobuffer"@)) ==> r is Err
            && r->Err_0.fault is LimitNeeds,
{
    words_differ();
    option_words_are_no_commands();
    text::decimal_round_trip(limit as nat);
    reveal_with_fuel(scan, 3);
    let all = text::texts(args@);
    let behind = seq![word] + rest;
    let named = Options { id: Some(id), ..no_options() };
    assert(word_of("--id"@) == Word::Id);
    assert(all[0] == "--id"@);
    assert(all[1] == id);
    assert(all.skip(2) =~= words + behind);
    assert(scan(no_options(), all) == scan(named, words + behind));
    switches_are_scanned(named, words, behind);
    assert(behind[0] == word);
    assert(behind.skip(1) =~= rest);
    if rest.len() > 0 {
        assert(behind[1] == rest[0]);
        assert(behind.skip(2) =~= rest.skip(1));
        if rest.len() > 1 {
            assert(rest.skip(1)[0] == rest[1]);
        }
    }
    assert(parsed_view(r) == meaning(all));
}

/// Compatibility is told only in the form that is asked for with `--json`.
pub proof fn probes_need_their_form(rest: Seq<Seq<char>>, args: Vec<String>, r: Result<Mode, CliError>)
    requires
        text::texts(args@) == seq!["capabilities"@] + rest,
        call_ensures(parse, (args,), r),
    ensures
        r is Ok <==> rest == seq!["--json"@],
        r matches Ok(mode) ==> mode is Capabilities,
        rest.len() == 0 ==> r->Err_0.fault is CapabilitiesJson,
        rest.len() > 0 && r is Err ==> r->Err_0.fault is CapabilitiesArguments,
{
    reveal_strlit("capabilities");
    reveal_strlit("--help");
    reveal_strlit("-h");
    reveal_strlit("--version");
    reveal_strlit("-V");
    reveal_strlit("cancel");
    reveal_strlit("session");
    reveal_strlit("pid");
    assert("capabilities"@.len() == 12);
    assert("--help"@.len() == 6);
    assert("-h"@.len() == 2);
    assert("--version"@.len() == 9);
    assert("-V"@.len() == 2);
    assert("cancel"@.len() == 6);
    assert("session"@.len() == 7);
    assert("pid"@.len() == 3);
    let all = text::texts(args@);
    assert(all[0] == "capabilities"@);
    assert(all.skip(1) =~= rest);
    if rest.len() == 1 && rest[0] == "--json"@ {
        assert(rest =~= seq!["--json"@]);
    }
    assert(parsed_view(r) == meaning(all));
}

/// A cancellation without switches takes an ID and nothing else.
pub proof fn plain_cancellations_take_an_id(
    rest: Seq<Seq<char>>,
    args: Vec<String>,
    r: Result<Mode, CliError>,
)
    requires
        text::texts(args@) == seq!["cancel"@] + rest,
        !rest.contains("--output-bounded"@),
        !rest.contains("--require-group-pidfd"@),
        call_ensures(parse, (args,), r),
    ensures
        r is Ok <==> rest.len() == 2 && rest[0] == "--id"@,
        r matches Ok(mode) ==> {
            &&& mode matches Mode::Cancel { id, require_group_pidfd, output_bounded }
            &&& id@ == rest[1]
            &&& !require_group_pidfd
            &&& !output_bounded
        },
        r is Err ==> r->Err_0.fault is ExpectedControl,
{
    control_words_differ();
    let all = text::texts(args@);
    assert(all[0] == "cancel"@);
    assert(all.skip(1) =~= rest);
    assert(parsed_view(r) == meaning(all));
}

/// Help is given when it is asked for and to a line without words, and the version
/// when it is asked for, whatever follows.
pub proof fn help_and_version_are_given(args: Vec<String>, r: Result<Mode, CliError>)
    requires
        call_ensures(parse, (args,), r),
    ensures
        args@.len() == 0 ==> r == Ok::<Mode, CliError>(Mode::Help),
        args@.len() > 0 && (args@[0]@ == "--help"@ || args@[0]@ == "-h"@) ==> r is Ok && r->Ok_0
            is Help,
        args@.len() > 0 && (args@[0]@ == "--version"@ || args@[0]@ == "-V"@) ==> r is Ok && r->Ok_0
            is Version,
{
    reveal_strlit("--help");
    reveal_strlit("-h");
    reveal_strlit("--version");
    reveal_strlit("-V");
    assert("--help"@.len() == 6);
    assert("-h"@.len() == 2 && "-h"@[1] == 'h');
    assert("--version"@.len() == 9);
    assert("-V"@.len() == 2 && "-V"@[1] == 'V');
    let all = text::texts(args@);
    assert(all.len() == args@.len());
    if args@.len() > 0 {
        assert(all[0] == args@[0]@);
    }
    assert(parsed_view(r) == meaning(all));
}

/// A broker refuses a word that is no option of its own by name, and says what it
/// lacks: first a command, then what finite output needs, then its ID and directory.
pub proof fn brokers_say_what_they_lack(
    rest: Seq<Seq<char>>,
    args: Vec<String>,
    r: Result<Mode, CliError>,
)
    requires
        text::texts(args@) == seq!["__broker"@] + rest,
        call_ensures(parse, (args,), r),
    ensures
        rest.len() == 0 ==> r is Err && r->Err_0.fault is BrokerCommand,
        rest.len() > 0 && rest[0] != "--id"@ && rest[0] != "--group-pidfd"@ && rest[0]
            != "--output-limit"@ && rest[0] != "--session-dir"@ && rest[0] != "--nobuffer"@
            && rest[0] != "--"@ ==> r is Err && r->Err_0.fault is BrokerOption
            && r->Err_0.argument@ == rest[0],
        rest.len() == 1 && rest[0] == "--"@ ==> r is Err && r->Err_0.fault is BrokerCommand,
        rest.len() > 1 && rest[0] == "--"@ ==> r is Err && r->Err_0.fault is BrokerId,
        rest.len() > 3 && rest[0] == "--id"@ && rest[2] == "--"@ ==> r is Err && r->Err_0.fault
            is BrokerDirectory,
        rest.len() > 3 && rest[0] == "--session-dir"@ && rest[2] == "--"@ ==> r is Err
            && r->Err_0.fault is BrokerId,
{
    words_differ();
    reveal_with_fuel(broker_scan, 3);
    reveal_strlit("__broker");
    reveal_strlit("--help");
    reveal_strlit("-h");
    reveal_strlit("--version");
    reveal_strlit("-V");
    reveal_strlit("cancel");
    reveal_strlit("session");
    reveal_strlit("pid");
    reveal_strlit("capabilities");
    assert("__broker"@.len() == 8);
    assert("--help"@.len() == 6);
    assert("-h"@.len() == 2);
    assert("--version"@.len() == 9);
    assert("-V"@.len() == 2);
    assert("cancel"@.len() == 6);
    assert("session"@.len() == 7);
    assert("pid"@.len() == 3);
    assert("capabilities"@.len() == 12);
    let all = text::texts(args@);
    assert(all[0] == "__broker"@);
    assert(all.skip(1) =~= rest);
    if rest.len() > 3 {
        assert(rest.skip(2)[0] == rest[2]);
        assert(rest.skip(2).skip(1).len() > 0);
    }
    if rest.len() > 0 {
        assert(word_of(rest[0]) == word_of(all[1]));
        assert(rest.skip(1).len() == rest.len() - 1);
    }
    assert(parsed_view(r) == meaning(all));
}

} // verus!
