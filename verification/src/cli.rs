//! The command line.
//!
//! Arguments are read from left to right. `-t` and `-u` switch a protocol
//! off, `-h` and `-e` ask for the help text or an example configuration,
//! `-c` names a configuration file, and any other argument must look like an
//! endpoint: the first such is where to listen, the second where to forward
//! to. Whether an argument looks like an endpoint is decided by a regular
//! expression.

use crate::pattern::{compile, is_match, pattern_language, regex_language};
use crate::text::{same_text, texts};
use regex::Regex;
use vstd::prelude::*;

verus! {

/// The expression that tells an endpoint argument from anything else.
pub const ADDRESS_PATTERN: &'static str = "^([0-9]{1,3}.){3}[0-9]{1,3}:[0-9]{1,5}$";

/// What the command line asks for.
#[derive(Clone, Debug, PartialEq, Eq)]
pub enum CliCommand {
    /// Show the help text and leave with success.
    Help,
    /// Show an example configuration file and leave with success.
    Example,
    /// The arguments make no sense: show the help text and leave with failure.
    UsageError,
    /// Run the rules of the configuration file at this path.
    ConfigFile(String),
    /// Run one rule between the two endpoints.
    Forward { local: String, remote: String, enable_tcp: bool, enable_udp: bool },
}

/// What has been gathered from the arguments read so far.
#[derive(Clone, Debug, PartialEq, Eq)]
pub struct ScanState {
    pub local: Option<String>,
    pub remote: Option<String>,
    pub enable_tcp: bool,
    pub enable_udp: bool,
}

/// How reading goes on after one argument.
#[derive(Clone, Debug, PartialEq, Eq)]
pub enum Step {
    /// Read the next argument with this state.
    Continue(ScanState),
    /// Stop: the command is decided.
    Done(CliCommand),
}

/// The mathematical content of a `CliCommand`.
pub enum CommandModel {
    Help,
    Example,
    UsageError,
    ConfigFile(Seq<char>),
    Forward { local: Seq<char>, remote: Seq<char>, enable_tcp: bool, enable_udp: bool },
}

/// The mathematical content of a `ScanState`.
pub struct ScanModel {
    pub local: Option<Seq<char>>,
    pub remote: Option<Seq<char>>,
    pub enable_tcp: bool,
    pub enable_udp: bool,
}

/// The mathematical content of a `Step`.
pub enum StepModel {
    Continue(ScanModel),
    Done(CommandModel),
}

/// The text of an optional string.
pub open spec fn optional_text(s: Option<String>) -> Option<Seq<char>> {
    match s {
        Some(s) => Some(s@),
        None => None,
    }
}

impl View for CliCommand {
    type V = CommandModel;

    open spec fn view(&self) -> CommandModel {
        match *self {
            CliCommand::Help => CommandModel::Help,
            CliCommand::Example => CommandModel::Example,
            CliCommand::UsageError => CommandModel::UsageError,
            CliCommand::ConfigFile(path) => CommandModel::ConfigFile(path@),
            CliCommand::Forward { local, remote, enable_tcp, enable_udp } => CommandModel::Forward {
                local: local@,
                remote: remote@,
                enable_tcp,
                enable_udp,
            },
        }
    }
}

impl View for ScanState {
    type V = ScanModel;

    open spec fn view(&self) -> ScanModel {
        ScanModel {
            local: optional_text(self.local),
            remote: optional_text(self.remote),
            enable_tcp: self.enable_tcp,
            enable_udp: self.enable_udp,
        }
    }
}

impl View for Step {
    type V = StepModel;

    open spec fn view(&self) -> StepModel {
        match *self {
            Step::Continue(state) => StepModel::Continue(state@),
            Step::Done(command) => StepModel::Done(command@),
        }
    }
}

/// The exit status that a command ends the program with at once: success
/// after the help text or the example, failure after a usage error, and
/// none for a command that has work to do.
pub open spec fn exit_status_of(command: CommandModel) -> Option<i32> {
    match command {
        CommandModel::Help => Some(0i32),
        CommandModel::Example => Some(0i32),
        CommandModel::UsageError => Some(1i32),
        _ => None,
    }
}

/// The state before any argument is read: no endpoint, both protocols on.
pub open spec fn initial_scan() -> ScanModel {
    ScanModel { local: None, remote: None, enable_tcp: true, enable_udp: true }
}

/// What one argument does. `next` is the argument after it, if there is one,
/// and `is_address` says whether `arg` looks like an endpoint.
pub open spec fn step_of(
    state: ScanModel,
    arg: Seq<char>,
    next: Option<Seq<char>>,
    is_address: bool,
) -> StepModel {
    if arg == "-h"@ {
        StepModel::Done(CommandModel::Help)
    } else if arg == "-u"@ {
        StepModel::Continue(ScanModel { enable_udp: false, ..state })
    } else if arg == "-t"@ {
        StepModel::Continue(ScanModel { enable_tcp: false, ..state })
    } else if arg == "-e"@ {
        StepModel::Done(CommandModel::Example)
    } else if arg == "-c"@ {
        match next {
            Some(path) => StepModel::Done(CommandModel::ConfigFile(path)),
            None => StepModel::Done(CommandModel::UsageError),
        }
    } else if !is_address {
        StepModel::Done(CommandModel::UsageError)
    } else if state.local is None {
        StepModel::Continue(ScanModel { local: Some(arg), ..state })
    } else if state.remote is None {
        StepModel::Continue(ScanModel { remote: Some(arg), ..state })
    } else {
        StepModel::Done(CommandModel::UsageError)
    }
}

/// The command when the arguments run out: a rule if both endpoints were
/// given, a usage error otherwise.
pub open spec fn finish_of(state: ScanModel) -> CommandModel {
    match (state.local, state.remote) {
        (Some(local), Some(remote)) => CommandModel::Forward {
            local,
            remote,
            enable_tcp: state.enable_tcp,
            enable_udp: state.enable_udp,
        },
        _ => CommandModel::UsageError,
    }
}

/// The argument after position `i`, if there is one.
pub open spec fn following(args: Seq<Seq<char>>, i: int) -> Option<Seq<char>> {
    if i + 1 < args.len() {
        Some(args[i + 1])
    } else {
        None
    }
}

/// The command that the arguments from position `i` on give in state
/// `state`, where the texts in `addresses` are those that look like an
/// endpoint.
pub open spec fn command_from(
    addresses: Set<Seq<char>>,
    args: Seq<Seq<char>>,
    state: ScanModel,
    i: int,
) -> CommandModel
    decreases args.len() - i,
{
    if i < 0 || i >= args.len() {
        finish_of(state)
    } else {
        match step_of(state, args[i], following(args, i), addresses.contains(args[i])) {
            StepModel::Continue(next) => command_from(addresses, args, next, i + 1),
            StepModel::Done(command) => command,
        }
    }
}

/// The command that a whole command line gives.
pub open spec fn command_of(addresses: Set<Seq<char>>, args: Seq<Seq<char>>) -> CommandModel {
    command_from(addresses, args, initial_scan(), 0)
}

/// The state before any argument is read.
pub fn start_scan() -> (r: ScanState)
    ensures
        r@ == initial_scan(),
{
    ScanState { local: None, remote: None, enable_tcp: true, enable_udp: true }
}

/// Takes one argument into account.
pub fn scan_step(state: ScanState, arg: &str, next: Option<&str>, is_address: bool) -> (r: Step)
    ensures
        r@ == step_of(
            state@,
            arg@,
            match next {
                Some(s) => Some(s@),
                None => None,
            },
            is_address,
        ),
{
    if same_text(arg, "-h") {
        Step::Done(CliCommand::Help)
    } else if same_text(arg, "-u") {
        Step::Continue(ScanState { enable_udp: false, ..state })
    } else if same_text(arg, "-t") {
        Step::Continue(ScanState { enable_tcp: false, ..state })
    } else if same_text(arg, "-e") {
        Step::Done(CliCommand::Example)
    } else if same_text(arg, "-c") {
        match next {
            Some(path) => Step::Done(CliCommand::ConfigFile(path.to_owned())),
            None => Step::Done(CliCommand::UsageError),
        }
    } else if !is_address {
        Step::Done(CliCommand::UsageError)
    } else if state.local.is_none() {
        Step::Continue(ScanState { local: Some(arg.to_owned()), ..state })
    } else if state.remote.is_none() {
        Step::Continue(ScanState { remote: Some(arg.to_owned()), ..state })
    } else {
        Step::Done(CliCommand::UsageError)
    }
}

/// Decides the command when the arguments have run out.
pub fn finish_scan(state: ScanState) -> (r: CliCommand)
    ensures
        r@ == finish_of(state@),
{
    match (state.local, state.remote) {
        (Some(local), Some(remote)) => CliCommand::Forward {
            local,
            remote,
            enable_tcp: state.enable_tcp,
            enable_udp: state.enable_udp,
        },
        _ => CliCommand::UsageError,
    }
}

impl CliCommand {
    /// The exit status that this command ends the program with at once, if
    /// it does.
    pub fn exit_status(&self) -> (r: Option<i32>)
        ensures
            r == exit_status_of(self@),
    {
        match self {
            CliCommand::Help => Some(0),
            CliCommand::Example => Some(0),
            CliCommand::UsageError => Some(1),
            _ => None,
        }
    }
}

/// A reader of command lines.
pub struct ArgParser {
    address: Regex,
}

impl ArgParser {
    /// The texts that look like an endpoint to this reader.
    pub closed spec fn addresses(&self) -> Set<Seq<char>> {
        regex_language(self.address)
    }

    /// Compiles `ADDRESS_PATTERN`. `None` means that the regular-expression
    /// engine refuses the pattern.
    pub fn new() -> (r: Option<ArgParser>)
        ensures
            match r {
                Some(parser) => pattern_language(ADDRESS_PATTERN@) == Some(parser.addresses()),
                None => pattern_language(ADDRESS_PATTERN@) is None,
            },
    {
        match compile(ADDRESS_PATTERN) {
            Ok(address) => Some(ArgParser { address }),
            Err(_) => None,
        }
    }

    /// Whether `arg` looks like an endpoint.
    pub fn looks_like_address(&self, arg: &str) -> (b: bool)
        ensures
            b == self.addresses().contains(arg@),
    {
        is_match(&self.address, arg)
    }

    /// Reads the arguments (without the program's name) and decides what
    /// they ask for.
    pub fn parse(&self, args: &Vec<String>) -> (r: CliCommand)
        ensures
            r@ == command_of(self.addresses(), texts(args@)),
    {
        let n: usize = args.len();
        let mut state = start_scan();
        let mut i: usize = 0;
        while i < n
            invariant
                n == args.len(),
                0 <= i <= n,
                command_of(self.addresses(), texts(args@)) == command_from(
                    self.addresses(),
                    texts(args@),
                    state@,
                    i as int,
                ),
            decreases n - i,
        {
            let arg: &str = args[i].as_str();
            let next: Option<&str> = if i + 1 < n {
                Some(args[i + 1].as_str())
            } else {
                None
            };
            let is_address = self.looks_like_address(arg);
            match scan_step(state, arg, next, is_address) {
                Step::Continue(s) => {
                    state = s;
                },
                Step::Done(command) => {
                    return command;
                },
            }
            i = i + 1;
        }
        finish_scan(state)
    }
}

} // verus!
