//! The command line: its grammar, and what the options of a command mean.
use vstd::prelude::*;

use crate::activation::DesiredActivation;
use crate::contract::HarnessKind;
use crate::herdr::{natural, read_natural};
use crate::host::{read_variable, value_of};
use crate::paths::{lists_view, pieces, split_chars};
use crate::text::{chars_of, optional_text, same_text, text_of, texts};

verus! {

// ---------------------------------------------------------------------------------------------
// Commands
// ---------------------------------------------------------------------------------------------

/// A parsed command line.
#[derive(Debug)]
pub struct Cli {
    pub command: Command,
}

/// A command.
#[derive(Debug)]
#[allow(inconsistent_fields)]
pub enum Command {
    /// Configure Coordinator activation independently for Herdr workspaces.
    Workspace { state_dir: String, command: WorkspaceCommand },
    /// Own durable state and the local JSONL Unix socket.
    Daemon { state_dir: String, socket: Option<String> },
    /// Send one request from stdin and print one response.
    Call { socket: String },
    /// Proxy newline-delimited requests between stdio and the broker.
    StdioProxy { socket: String },
    /// Run one pane-resident Worker Host and its persistent native Harness.
    WorkerHost { session_id: String, state_dir: String, socket: Option<String> },
    /// Run the managed visible Supervisor terminal and native Harness.
    SupervisorHost { supervisor_capability: String, state_dir: String, socket: Option<String> },
    /// Render the durable Harness Network popup snapshot.
    Popup { supervisor_capability: String, state_dir: String, socket: Option<String> },
    /// Serve identity-bound Coordinator tools over MCP stdio.
    Mcp { session_capability: String, state_dir: String, socket: Option<String> },
    /// Show the version of the program.
    Version,
    /// Show how the program, or the command that is named, is used.
    Help { topic: Vec<String> },
}

/// A command on workspaces.
#[derive(Debug)]
#[allow(inconsistent_fields)]
pub enum WorkspaceCommand {
    /// Get one workspace's saved activation state.
    Get(WorkspaceTarget),
    /// Idempotently request an on or off state.
    SetDesired {
        state: DesiredActivation,
        target: WorkspaceTarget,
        /// Revision returned by a previous operation.
        expected_revision: Option<u64>,
        /// Explicit Supervisor Harness Kind for first setup.
        supervisor_kind: Option<HarnessKind>,
        /// Explicit strong-logic Supervisor model for first setup.
        supervisor_model: Option<String>,
        /// Provider-native Supervisor reasoning effort.
        supervisor_reasoning_effort: Option<String>,
        /// Explicit Worker mappings in `worker-id=profile-id` form.
        worker: Vec<String>,
    },
    /// List every known workspace without changing state.
    List { json: bool },
}

/// Which workspace a command is for.
#[derive(Debug)]
pub struct WorkspaceTarget {
    /// Opaque current Herdr workspace ID.
    pub workspace: String,
    /// Repository root; defaults to the current directory.
    pub root: Option<String>,
    /// Current Herdr session socket, part of workspace identity.
    pub session_socket: String,
    /// Emit the stable JSON projection.
    pub json: bool,
}

/// What a [`WorkspaceTarget`] says.
pub struct TargetView {
    pub workspace: Seq<char>,
    pub root: Option<Seq<char>>,
    pub session_socket: Seq<char>,
    pub json: bool,
}

/// What a [`WorkspaceCommand`] says.
#[allow(inconsistent_fields)]
pub enum WorkspaceView {
    Get(TargetView),
    SetDesired {
        state: DesiredActivation,
        target: TargetView,
        expected_revision: Option<u64>,
        supervisor_kind: Option<HarnessKind>,
        supervisor_model: Option<Seq<char>>,
        supervisor_reasoning_effort: Option<Seq<char>>,
        worker: Seq<Seq<char>>,
    },
    List { json: bool },
}

/// What a [`Command`] says.
#[allow(inconsistent_fields)]
pub enum CommandView {
    Workspace { state_dir: Seq<char>, command: WorkspaceView },
    Daemon { state_dir: Seq<char>, socket: Option<Seq<char>> },
    Call { socket: Seq<char> },
    StdioProxy { socket: Seq<char> },
    WorkerHost { session_id: Seq<char>, state_dir: Seq<char>, socket: Option<Seq<char>> },
    SupervisorHost {
        supervisor_capability: Seq<char>,
        state_dir: Seq<char>,
        socket: Option<Seq<char>>,
    },
    Popup { supervisor_capability: Seq<char>, state_dir: Seq<char>, socket: Option<Seq<char>> },
    Mcp { session_capability: Seq<char>, state_dir: Seq<char>, socket: Option<Seq<char>> },
    Version,
    Help { topic: Seq<Seq<char>> },
}

impl View for WorkspaceTarget {
    type V = TargetView;

    open spec fn view(&self) -> TargetView {
        TargetView {
            workspace: self.workspace@,
            root: optional_text(self.root),
            session_socket: self.session_socket@,
            json: self.json,
        }
    }
}

impl View for WorkspaceCommand {
    type V = WorkspaceView;

    open spec fn view(&self) -> WorkspaceView {
        match self {
            WorkspaceCommand::Get(target) => WorkspaceView::Get(target@),
            WorkspaceCommand::SetDesired {
                state,
                target,
                expected_revision,
                supervisor_kind,
                supervisor_model,
                supervisor_reasoning_effort,
                worker,
            } => WorkspaceView::SetDesired {
                state: *state,
                target: target@,
                expected_revision: *expected_revision,
                supervisor_kind: *supervisor_kind,
                supervisor_model: optional_text(*supervisor_model),
                supervisor_reasoning_effort: optional_text(*supervisor_reasoning_effort),
                worker: texts(worker@),
            },
            WorkspaceCommand::List { json } => WorkspaceView::List { json: *json },
        }
    }
}

impl View for Command {
    type V = CommandView;

    open spec fn view(&self) -> CommandView {
        match self {
            Command::Workspace { state_dir, command } => CommandView::Workspace {
                state_dir: state_dir@,
                command: command@,
            },
            Command::Daemon { state_dir, socket } => CommandView::Daemon {
                state_dir: state_dir@,
                socket: optional_text(*socket),
            },
            Command::Call { socket } => CommandView::Call { socket: socket@ },
            Command::StdioProxy { socket } => CommandView::StdioProxy { socket: socket@ },
            Command::WorkerHost { session_id, state_dir, socket } => CommandView::WorkerHost {
                session_id: session_id@,
                state_dir: state_dir@,
                socket: optional_text(*socket),
            },
            Command::SupervisorHost {
                supervisor_capability,
                state_dir,
                socket,
            } => CommandView::SupervisorHost {
                supervisor_capability: supervisor_capability@,
                state_dir: state_dir@,
                socket: optional_text(*socket),
            },
            Command::Popup { supervisor_capability, state_dir, socket } => CommandView::Popup {
                supervisor_capability: supervisor_capability@,
                state_dir: state_dir@,
                socket: optional_text(*socket),
            },
            Command::Mcp { session_capability, state_dir, socket } => CommandView::Mcp {
                session_capability: session_capability@,
                state_dir: state_dir@,
                socket: optional_text(*socket),
            },
            Command::Version => CommandView::Version,
            Command::Help { topic } => CommandView::Help { topic: texts(topic@) },
        }
    }
}

/// Why a command line is refused.
#[derive(Debug)]
pub enum CliError {
    /// No command is given.
    MissingCommand,
    /// No command has this name.
    UnknownCommand(String),
    /// An argument that the command does not take.
    UnexpectedArgument(String),
    /// An option without its value.
    MissingValue(String),
    /// An option that may be given once.
    RepeatedOption(String),
    /// An option or argument that has to be given.
    MissingArgument(String),
    /// A value that the option or argument does not take.
    InvalidValue(String),
    /// No refusal: the use of the command is asked for.
    HelpWanted,
}

/// What a [`CliError`] says.
pub enum CliFault {
    MissingCommand,
    UnknownCommand(Seq<char>),
    UnexpectedArgument(Seq<char>),
    MissingValue(Seq<char>),
    RepeatedOption(Seq<char>),
    MissingArgument(Seq<char>),
    InvalidValue(Seq<char>),
    HelpWanted,
}

impl View for CliError {
    type V = CliFault;

    open spec fn view(&self) -> CliFault {
        match self {
            CliError::MissingCommand => CliFault::MissingCommand,
            CliError::UnknownCommand(s) => CliFault::UnknownCommand(s@),
            CliError::UnexpectedArgument(s) => CliFault::UnexpectedArgument(s@),
            CliError::MissingValue(s) => CliFault::MissingValue(s@),
            CliError::RepeatedOption(s) => CliFault::RepeatedOption(s@),
            CliError::MissingArgument(s) => CliFault::MissingArgument(s@),
            CliError::InvalidValue(s) => CliFault::InvalidValue(s@),
            CliError::HelpWanted => CliFault::HelpWanted,
        }
    }
}

// ---------------------------------------------------------------------------------------------
// Options
// ---------------------------------------------------------------------------------------------

/// How an option is given.
#[derive(Debug, Clone, Copy, PartialEq, Eq, Structural)]
pub enum Form {
    /// Without a value.
    Flag,
    /// Once, with a value.
    Single,
    /// Any number of times, with a value.
    Many,
}

/// An option that a command takes.
#[derive(Debug, Clone, Copy)]
pub struct OptionRule {
    pub name: &'static str,
    pub form: Form,
}

pub open spec fn is_rule(name: Seq<char>) -> spec_fn(OptionRule) -> bool {
    |o: OptionRule| o.name@ == name
}

/// How an option with a name is given, if the command takes it.
pub open spec fn form_of(rules: Seq<OptionRule>, name: Seq<char>) -> Option<Form> {
    match crate::select::first_where(rules, is_rule(name)) {
        Some(i) => Some(rules[i].form),
        None => None,
    }
}

fn find_form(rules: &Vec<OptionRule>, name: &str) -> (r: Option<Form>)
    ensures
        r == form_of(rules@, name@),
{
    let ghost p = is_rule(name@);
    let mut i: usize = 0;
    while i < rules.len()
        invariant
            i <= rules.len(),
            p == is_rule(name@),
            forall|j: int| 0 <= j < i ==> !p(#[trigger] rules@[j]),
        decreases rules.len() - i,
    {
        if same_text(rules[i].name, name) {
            proof {
                crate::select::first_found(rules@, p, i as int);
            }
            return Some(rules[i].form);
        }
        i += 1;
    }
    proof {
        crate::select::first_missing(rules@, p);
    }
    None
}

/// What was read of a command line: options with their values, and the other arguments.
#[derive(Debug)]
pub struct Scan {
    pub options: Vec<(String, String)>,
    pub others: Vec<String>,
}

/// What a [`Scan`] says.
pub struct ScanView {
    pub options: Seq<(Seq<char>, Seq<char>)>,
    pub others: Seq<Seq<char>>,
}

impl View for Scan {
    type V = ScanView;

    open spec fn view(&self) -> ScanView {
        ScanView { options: crate::herdr::pairs(self.options@), others: texts(self.others@) }
    }
}

/// An argument that looks like an option: it has a hyphen and more.
pub open spec fn hyphened(argument: Seq<char>) -> bool {
    argument.len() > 1 && argument[0] == '-'
}

/// The name of an option and the value behind its equals sign.
pub open spec fn split_option(argument: Seq<char>) -> (Seq<char>, Option<Seq<char>>) {
    let parts = pieces(argument, '=', Some(2nat));
    if parts.len() < 2 {
        (argument, None)
    } else {
        (parts[0], Some(parts[1]))
    }
}

pub open spec fn given(options: Seq<(Seq<char>, Seq<char>)>, name: Seq<char>) -> bool {
    exists|i: int| 0 <= i < options.len() && (#[trigger] options[i]).0 == name
}

/// An option in front of what was read behind it.
pub open spec fn with_option(
    rest: Result<ScanView, CliFault>,
    form: Form,
    name: Seq<char>,
    value: Seq<char>,
) -> Result<ScanView, CliFault> {
    match rest {
        Err(f) => Err(f),
        Ok(s) => if form != Form::Many && given(s.options, name) {
            Err(CliFault::RepeatedOption(name))
        } else {
            Ok(ScanView { options: seq![(name, value)] + s.options, others: s.others })
        },
    }
}

/// What a command line says: options by their rules, until `nested` ends them at the first other
/// argument, which names a command; two hyphens end them where no command is to be named.
pub open spec fn scan(args: Seq<Seq<char>>, rules: Seq<OptionRule>, nested: bool) -> Result<
    ScanView,
    CliFault,
>
    decreases args.len(),
{
    if args.len() == 0 {
        Ok(ScanView { options: Seq::empty(), others: Seq::empty() })
    } else if args[0] == "--"@ {
        if nested {
            Err(CliFault::UnexpectedArgument(args[0]))
        } else {
            Ok(ScanView { options: Seq::empty(), others: args.drop_first() })
        }
    } else if args[0] == "--help"@ || args[0] == "-h"@ {
        Err(CliFault::HelpWanted)
    } else if hyphened(args[0]) {
        let (name, inline) = split_option(args[0]);
        match form_of(rules, name) {
            None => Err(CliFault::UnexpectedArgument(args[0])),
            Some(Form::Flag) => if inline is Some {
                Err(CliFault::InvalidValue(name))
            } else {
                with_option(scan(args.drop_first(), rules, nested), Form::Flag, name, ""@)
            },
            Some(form) => match inline {
                Some(value) => with_option(
                    scan(args.drop_first(), rules, nested),
                    form,
                    name,
                    value,
                ),
                None => if args.len() < 2 || hyphened(args[1]) {
                    Err(CliFault::MissingValue(name))
                } else {
                    with_option(scan(args.skip(2), rules, nested), form, name, args[1])
                },
            },
        }
    } else if nested {
        Ok(ScanView { options: Seq::empty(), others: args })
    } else {
        match scan(args.drop_first(), rules, nested) {
            Err(f) => Err(f),
            Ok(s) => Ok(ScanView { options: s.options, others: seq![args[0]] + s.others }),
        }
    }
}

fn is_hyphened(argument: &str) -> (r: bool)
    ensures
        r == hyphened(argument@),
{
    let chars = chars_of(argument);
    chars.len() > 1 && chars[0] == '-'
}

fn split_argument(argument: &str) -> (r: (String, Option<String>))
    ensures
        (r.0@, optional_text(r.1)) == split_option(argument@),
{
    let chars = chars_of(argument);
    let parts = split_chars(&chars, '=', Some(2));
    let ghost all = pieces(argument@, '=', Some(2nat));
    assert(lists_view(parts@) == all);
    assert(all.len() == parts.len());
    if parts.len() < 2 {
        return (argument.to_owned(), None);
    }
    assert(all[0] == parts@[0]@ && all[1] == parts@[1]@);
    (text_of(parts[0].as_slice()), Some(text_of(parts[1].as_slice())))
}

fn is_given(options: &Vec<(String, String)>, name: &str) -> (r: bool)
    ensures
        r == given(crate::herdr::pairs(options@), name@),
{
    let ghost all = crate::herdr::pairs(options@);
    let mut i: usize = 0;
    while i < options.len()
        invariant
            i <= options.len(),
            all == crate::herdr::pairs(options@),
            forall|j: int| 0 <= j < i ==> (#[trigger] all[j]).0 != name@,
        decreases options.len() - i,
    {
        if same_text(options[i].0.as_str(), name) {
            assert(all[i as int].0 == name@);
            return true;
        }
        i += 1;
    }
    false
}

/// What is said of a reading.
pub open spec fn reads(r: Result<Scan, CliError>, said: Result<ScanView, CliFault>) -> bool {
    match (r, said) {
        (Ok(s), Ok(view)) => s@ == view,
        (Err(e), Err(f)) => e@ == f,
        _ => false,
    }
}

fn add_option(rest: Result<Scan, CliError>, form: Form, name: String, value: String) -> (r: Result<
    Scan,
    CliError,
>)
    ensures
        forall|said: Result<ScanView, CliFault>|
            reads(rest, said) ==> #[trigger] reads(r, with_option(said, form, name@, value@)),
{
    match rest {
        Err(e) => Err(e),
        Ok(s) => {
            let mut s = s;
            if form != Form::Many && is_given(&s.options, name.as_str()) {
                return Err(CliError::RepeatedOption(name));
            }
            let ghost before = s@;
            let ghost option = (name@, value@);
            s.options.insert(0, (name, value));
            assert(s@.options =~= seq![option] + before.options);
            Ok(s)
        },
    }
}

fn copy_from(args: &Vec<String>, from: usize) -> (r: Vec<String>)
    requires
        from <= args.len(),
    ensures
        texts(r@) == texts(args@).skip(from as int),
{
    let mut r: Vec<String> = Vec::new();
    let mut i: usize = from;
    while i < args.len()
        invariant
            from <= i <= args.len(),
            r.len() == i - from,
            forall|j: int| 0 <= j < i - from ==> (#[trigger] r@[j])@ == args@[from + j]@,
        decreases args.len() - i,
    {
        r.push(args[i].as_str().to_owned());
        i += 1;
    }
    assert(texts(r@) =~= texts(args@).skip(from as int));
    r
}

/// Reads a command line from a position on.
fn read_arguments(args: &Vec<String>, from: usize, rules: &Vec<OptionRule>, nested: bool) -> (r:
    Result<Scan, CliError>)
    requires
        from <= args.len(),
    ensures
        reads(r, scan(texts(args@).skip(from as int), rules@, nested)),
    decreases args.len() - from,
{
    let ghost all = texts(args@).skip(from as int);
    if from == args.len() {
        let r = Scan { options: Vec::new(), others: Vec::new() };
        assert(r@.options =~= Seq::empty());
        assert(r@.others =~= Seq::empty());
        return Ok(r);
    }
    let first = args[from].as_str();
    assert(all[0] == first@);
    assert(all.drop_first() =~= texts(args@).skip(from + 1));
    if same_text(first, "--") {
        if nested {
            return Err(CliError::UnexpectedArgument(first.to_owned()));
        }
        let r = Scan { options: Vec::new(), others: copy_from(args, from + 1) };
        assert(r@.options =~= Seq::empty());
        return Ok(r);
    }
    if same_text(first, "--help") || same_text(first, "-h") {
        return Err(CliError::HelpWanted);
    }
    if is_hyphened(first) {
        let (name, inline) = split_argument(first);
        let form = match find_form(rules, name.as_str()) {
            None => {
                return Err(CliError::UnexpectedArgument(first.to_owned()));
            },
            Some(form) => form,
        };
        if form == Form::Flag {
            if inline.is_some() {
                return Err(CliError::InvalidValue(name));
            }
            let rest = read_arguments(args, from + 1, rules, nested);
            assert(reads(rest, scan(all.drop_first(), rules@, nested)));
            return add_option(rest, form, name, "".to_owned());
        }
        match inline {
            Some(value) => {
                let rest = read_arguments(args, from + 1, rules, nested);
                assert(reads(rest, scan(all.drop_first(), rules@, nested)));
                add_option(rest, form, name, value)
            },
            None => {
                if args.len() - from < 2 {
                    return Err(CliError::MissingValue(name));
                }
                assert(all[1] == args@[from + 1]@);
                if is_hyphened(args[from + 1].as_str()) {
                    return Err(CliError::MissingValue(name));
                }
                let value = args[from + 1].as_str().to_owned();
                assert(all.skip(2) =~= texts(args@).skip(from + 2));
                let rest = read_arguments(args, from + 2, rules, nested);
                assert(reads(rest, scan(all.skip(2), rules@, nested)));
                add_option(rest, form, name, value)
            },
        }
    } else if nested {
        let r = Scan { options: Vec::new(), others: copy_from(args, from) };
        assert(r@.options =~= Seq::empty());
        Ok(r)
    } else {
        match read_arguments(args, from + 1, rules, nested) {
            Err(e) => Err(e),
            Ok(s) => {
                let mut s = s;
                let ghost before = s@;
                s.others.insert(0, first.to_owned());
                assert(s@.others =~= seq![first@] + before.others);
                Ok(s)
            },
        }
    }
}

// ---------------------------------------------------------------------------------------------
// Values
// ---------------------------------------------------------------------------------------------

pub open spec fn is_option(name: Seq<char>) -> spec_fn((Seq<char>, Seq<char>)) -> bool {
    |o: (Seq<char>, Seq<char>)| o.0 == name
}

/// The value of an option; where the option is not given, that of a variable of the environment.
pub open spec fn value_in(
    s: ScanView,
    env: Seq<(String, String)>,
    name: Seq<char>,
    variable: Seq<char>,
) -> Option<Seq<char>> {
    match crate::select::first_where(s.options, is_option(name)) {
        Some(i) => Some(s.options[i].1),
        None => if variable.len() == 0 {
            None
        } else {
            value_of(env, variable)
        },
    }
}

/// A path: a value that is not empty.
pub open spec fn path_in(
    s: ScanView,
    env: Seq<(String, String)>,
    name: Seq<char>,
    variable: Seq<char>,
) -> Result<Option<Seq<char>>, CliFault> {
    match value_in(s, env, name, variable) {
        None => Ok(None),
        Some(value) => if value.len() == 0 {
            Err(CliFault::InvalidValue(name))
        } else {
            Ok(Some(value))
        },
    }
}

/// A value that has to be there.
pub open spec fn needed(value: Result<Option<Seq<char>>, CliFault>, name: Seq<char>) -> Result<
    Seq<char>,
    CliFault,
> {
    match value {
        Err(f) => Err(f),
        Ok(None) => Err(CliFault::MissingArgument(name)),
        Ok(Some(value)) => Ok(value),
    }
}

/// All values of an option.
pub open spec fn values_in(options: Seq<(Seq<char>, Seq<char>)>, name: Seq<char>) -> Seq<Seq<char>>
    decreases options.len(),
{
    if options.len() == 0 {
        Seq::empty()
    } else if options.last().0 == name {
        values_in(options.drop_last(), name).push(options.last().1)
    } else {
        values_in(options.drop_last(), name)
    }
}

fn find_value(s: &Scan, env: &Vec<(String, String)>, name: &str, variable: &str) -> (r: Option<
    String,
>)
    ensures
        optional_text(r) == value_in(s@, env@, name@, variable@),
{
    let ghost all = s@.options;
    let ghost p = is_option(name@);
    let mut i: usize = 0;
    while i < s.options.len()
        invariant
            i <= s.options.len(),
            all == s@.options,
            p == is_option(name@),
            forall|j: int| 0 <= j < i ==> !p(#[trigger] all[j]),
        decreases s.options.len() - i,
    {
        if same_text(s.options[i].0.as_str(), name) {
            proof {
                crate::select::first_found(all, p, i as int);
            }
            return Some(s.options[i].1.as_str().to_owned());
        }
        i += 1;
    }
    proof {
        crate::select::first_missing(all, p);
    }
    let named = chars_of(variable);
    if named.len() == 0 {
        return None;
    }
    match read_variable(env, variable) {
        Some(value) => Some(value.to_owned()),
        None => None,
    }
}

fn find_path(s: &Scan, env: &Vec<(String, String)>, name: &str, variable: &str) -> (r: Result<
    Option<String>,
    CliError,
>)
    ensures
        match (r, path_in(s@, env@, name@, variable@)) {
            (Ok(found), Ok(path)) => optional_text(found) == path,
            (Err(e), Err(f)) => e@ == f,
            _ => false,
        },
{
    match find_value(s, env, name, variable) {
        None => Ok(None),
        Some(value) => {
            let chars = chars_of(value.as_str());
            if chars.len() == 0 {
                return Err(CliError::InvalidValue(name.to_owned()));
            }
            Ok(Some(value))
        },
    }
}

fn need_path(s: &Scan, env: &Vec<(String, String)>, name: &str, variable: &str) -> (r: Result<
    String,
    CliError,
>)
    ensures
        match (r, needed(path_in(s@, env@, name@, variable@), name@)) {
            (Ok(found), Ok(path)) => found@ == path,
            (Err(e), Err(f)) => e@ == f,
            _ => false,
        },
{
    match find_path(s, env, name, variable) {
        Err(e) => Err(e),
        Ok(None) => Err(CliError::MissingArgument(name.to_owned())),
        Ok(Some(path)) => Ok(path),
    }
}

fn need_text(s: &Scan, env: &Vec<(String, String)>, name: &str, variable: &str) -> (r: Result<
    String,
    CliError,
>)
    ensures
        match (r, needed(Ok(value_in(s@, env@, name@, variable@)), name@)) {
            (Ok(found), Ok(text)) => found@ == text,
            (Err(e), Err(f)) => e@ == f,
            _ => false,
        },
{
    match find_value(s, env, name, variable) {
        None => Err(CliError::MissingArgument(name.to_owned())),
        Some(value) => Ok(value),
    }
}

fn all_values(s: &Scan, name: &str) -> (r: Vec<String>)
    ensures
        texts(r@) == values_in(s@.options, name@),
{
    let ghost all = s@.options;
    let mut r: Vec<String> = Vec::new();
    let mut i: usize = 0;
    assert(texts(r@) =~= values_in(all.take(0), name@));
    while i < s.options.len()
        invariant
            i <= s.options.len(),
            all == s@.options,
            texts(r@) == values_in(all.take(i as int), name@),
        decreases s.options.len() - i,
    {
        assert(all.take(i + 1).drop_last() =~= all.take(i as int));
        assert(all.take(i + 1).last() == all[i as int]);
        if same_text(s.options[i].0.as_str(), name) {
            let ghost before = texts(r@);
            r.push(s.options[i].1.as_str().to_owned());
            assert(texts(r@) =~= before.push(all[i as int].1));
        }
        i += 1;
    }
    assert(all.take(i as int) =~= all);
    r
}

/// Arguments that a command does not take.
pub open spec fn surplus(s: ScanView, taken: nat) -> Option<CliFault> {
    if s.others.len() > taken {
        Some(CliFault::UnexpectedArgument(s.others[taken as int]))
    } else {
        None
    }
}

fn refuse_surplus(s: &Scan, taken: usize) -> (r: Result<(), CliError>)
    ensures
        match surplus(s@, taken as nat) {
            Some(f) => r is Err && r->Err_0@ == f,
            None => r is Ok,
        },
{
    if s.others.len() > taken {
        return Err(CliError::UnexpectedArgument(s.others[taken].as_str().to_owned()));
    }
    Ok(())
}

// ---------------------------------------------------------------------------------------------
// Rules
// ---------------------------------------------------------------------------------------------

fn rule(name: &'static str, form: Form) -> (r: OptionRule)
    ensures
        r == (OptionRule { name, form }),
{
    OptionRule { name, form }
}

/// The options of workspace commands.
pub open spec fn workspace_rules() -> Seq<OptionRule> {
    seq![
        OptionRule { name: "--state-dir", form: Form::Single },
    ]
}

fn list_workspace_rules() -> (r: Vec<OptionRule>)
    ensures
        r@ == workspace_rules(),
{
    let mut r: Vec<OptionRule> = Vec::new();
    r.push(rule("--state-dir", Form::Single));
    assert(r@ =~= workspace_rules());
    r
}

/// The options of the daemon.
pub open spec fn daemon_rules() -> Seq<OptionRule> {
    seq![
        OptionRule { name: "--state-dir", form: Form::Single },
        OptionRule { name: "--socket", form: Form::Single },
    ]
}

fn list_daemon_rules() -> (r: Vec<OptionRule>)
    ensures
        r@ == daemon_rules(),
{
    let mut r: Vec<OptionRule> = Vec::new();
    r.push(rule("--state-dir", Form::Single));
    r.push(rule("--socket", Form::Single));
    assert(r@ =~= daemon_rules());
    r
}

/// The options of commands that only reach the broker.
pub open spec fn broker_rules() -> Seq<OptionRule> {
    seq![
        OptionRule { name: "--socket", form: Form::Single },
    ]
}

fn list_broker_rules() -> (r: Vec<OptionRule>)
    ensures
        r@ == broker_rules(),
{
    let mut r: Vec<OptionRule> = Vec::new();
    r.push(rule("--socket", Form::Single));
    assert(r@ =~= broker_rules());
    r
}

/// The options of a Worker Host.
pub open spec fn worker_host_rules() -> Seq<OptionRule> {
    seq![
        OptionRule { name: "--session-id", form: Form::Single },
        OptionRule { name: "--state-dir", form: Form::Single },
        OptionRule { name: "--socket", form: Form::Single },
    ]
}

fn list_worker_host_rules() -> (r: Vec<OptionRule>)
    ensures
        r@ == worker_host_rules(),
{
    let mut r: Vec<OptionRule> = Vec::new();
    r.push(rule("--session-id", Form::Single));
    r.push(rule("--state-dir", Form::Single));
    r.push(rule("--socket", Form::Single));
    assert(r@ =~= worker_host_rules());
    r
}

/// The options of commands of the Supervisor.
pub open spec fn supervisor_rules() -> Seq<OptionRule> {
    seq![
        OptionRule { name: "--supervisor-capability", form: Form::Single },
        OptionRule { name: "--state-dir", form: Form::Single },
        OptionRule { name: "--socket", form: Form::Single },
    ]
}

fn list_supervisor_rules() -> (r: Vec<OptionRule>)
    ensures
        r@ == supervisor_rules(),
{
    let mut r: Vec<OptionRule> = Vec::new();
    r.push(rule("--supervisor-capability", Form::Single));
    r.push(rule("--state-dir", Form::Single));
    r.push(rule("--socket", Form::Single));
    assert(r@ =~= supervisor_rules());
    r
}

/// The options of the tool server.
pub open spec fn mcp_rules() -> Seq<OptionRule> {
    seq![
        OptionRule { name: "--session-capability", form: Form::Single },
        OptionRule { name: "--state-dir", form: Form::Single },
        OptionRule { name: "--socket", form: Form::Single },
    ]
}

fn list_mcp_rules() -> (r: Vec<OptionRule>)
    ensures
        r@ == mcp_rules(),
{
    let mut r: Vec<OptionRule> = Vec::new();
    r.push(rule("--session-capability", Form::Single));
    r.push(rule("--state-dir", Form::Single));
    r.push(rule("--socket", Form::Single));
    assert(r@ =~= mcp_rules());
    r
}

/// The options of a workspace.
pub open spec fn target_rules() -> Seq<OptionRule> {
    seq![
        OptionRule { name: "--workspace", form: Form::Single },
        OptionRule { name: "--root", form: Form::Single },
        OptionRule { name: "--session-socket", form: Form::Single },
        OptionRule { name: "--json", form: Form::Flag },
    ]
}

fn list_target_rules() -> (r: Vec<OptionRule>)
    ensures
        r@ == target_rules(),
{
    let mut r: Vec<OptionRule> = Vec::new();
    r.push(rule("--workspace", Form::Single));
    r.push(rule("--root", Form::Single));
    r.push(rule("--session-socket", Form::Single));
    r.push(rule("--json", Form::Flag));
    assert(r@ =~= target_rules());
    r
}

/// The options of a new desired state.
pub open spec fn set_rules() -> Seq<OptionRule> {
    seq![
        OptionRule { name: "--workspace", form: Form::Single },
        OptionRule { name: "--root", form: Form::Single },
        OptionRule { name: "--session-socket", form: Form::Single },
        OptionRule { name: "--json", form: Form::Flag },
        OptionRule { name: "--expected-revision", form: Form::Single },
        OptionRule { name: "--supervisor-kind", form: Form::Single },
        OptionRule { name: "--supervisor-model", form: Form::Single },
        OptionRule { name: "--supervisor-reasoning-effort", form: Form::Single },
        OptionRule { name: "--worker", form: Form::Many },
    ]
}

fn list_set_rules() -> (r: Vec<OptionRule>)
    ensures
        r@ == set_rules(),
{
    let mut r: Vec<OptionRule> = Vec::new();
    r.push(rule("--workspace", Form::Single));
    r.push(rule("--root", Form::Single));
    r.push(rule("--session-socket", Form::Single));
    r.push(rule("--json", Form::Flag));
    r.push(rule("--expected-revision", Form::Single));
    r.push(rule("--supervisor-kind", Form::Single));
    r.push(rule("--supervisor-model", Form::Single));
    r.push(rule("--supervisor-reasoning-effort", Form::Single));
    r.push(rule("--worker", Form::Many));
    assert(r@ =~= set_rules());
    r
}

/// The options of the list of workspaces.
pub open spec fn list_rules() -> Seq<OptionRule> {
    seq![
        OptionRule { name: "--json", form: Form::Flag },
    ]
}

fn list_list_rules() -> (r: Vec<OptionRule>)
    ensures
        r@ == list_rules(),
{
    let mut r: Vec<OptionRule> = Vec::new();
    r.push(rule("--json", Form::Flag));
    assert(r@ =~= list_rules());
    r
}

// ---------------------------------------------------------------------------------------------
// Workspace commands
// ---------------------------------------------------------------------------------------------

/// Which workspace a command is for.
pub open spec fn target_in(s: ScanView, env: Seq<(String, String)>) -> Result<TargetView, CliFault> {
    match needed(Ok(value_in(s, env, "--workspace"@, "HERDR_WORKSPACE_ID"@)), "--workspace"@) {
        Err(f) => Err(f),
        Ok(workspace) => match path_in(s, env, "--root"@, ""@) {
            Err(f) => Err(f),
            Ok(root) => match needed(
                path_in(s, env, "--session-socket"@, "HERDR_SOCKET_PATH"@),
                "--session-socket"@,
            ) {
                Err(f) => Err(f),
                Ok(session_socket) => Ok(
                    TargetView {
                        workspace,
                        root,
                        session_socket,
                        json: given(s.options, "--json"@),
                    },
                ),
            },
        },
    }
}

fn find_target(s: &Scan, env: &Vec<(String, String)>) -> (r: Result<WorkspaceTarget, CliError>)
    ensures
        match (r, target_in(s@, env@)) {
            (Ok(found), Ok(target)) => found@ == target,
            (Err(e), Err(f)) => e@ == f,
            _ => false,
        },
{
    let workspace = match need_text(s, env, "--workspace", "HERDR_WORKSPACE_ID") {
        Err(e) => {
            return Err(e);
        },
        Ok(workspace) => workspace,
    };
    let root = match find_path(s, env, "--root", "") {
        Err(e) => {
            return Err(e);
        },
        Ok(root) => root,
    };
    let session_socket = match need_path(s, env, "--session-socket", "HERDR_SOCKET_PATH") {
        Err(e) => {
            return Err(e);
        },
        Ok(session_socket) => session_socket,
    };
    Ok(
        WorkspaceTarget { workspace, root, session_socket, json: is_given(&s.options, "--json") },
    )
}

/// The desired state that an argument names.
pub open spec fn state_in(s: ScanView) -> Result<DesiredActivation, CliFault> {
    if s.others.len() == 0 {
        Err(CliFault::MissingArgument("state"@))
    } else if s.others[0] == "on"@ {
        Ok(DesiredActivation::On)
    } else if s.others[0] == "off"@ {
        Ok(DesiredActivation::Off)
    } else {
        Err(CliFault::InvalidValue("state"@))
    }
}

fn find_state(s: &Scan) -> (r: Result<DesiredActivation, CliError>)
    ensures
        match (r, state_in(s@)) {
            (Ok(found), Ok(state)) => found == state,
            (Err(e), Err(f)) => e@ == f,
            _ => false,
        },
{
    if s.others.len() == 0 {
        return Err(CliError::MissingArgument("state".to_owned()));
    }
    assert(s@.others[0] == s.others@[0]@);
    if same_text(s.others[0].as_str(), "on") {
        Ok(DesiredActivation::On)
    } else if same_text(s.others[0].as_str(), "off") {
        Ok(DesiredActivation::Off)
    } else {
        Err(CliError::InvalidValue("state".to_owned()))
    }
}

/// A revision: a natural number.
pub open spec fn revision_in(s: ScanView) -> Result<Option<u64>, CliFault> {
    match value_in(s, Seq::empty(), "--expected-revision"@, ""@) {
        None => Ok(None),
        Some(text) => match natural(text) {
            Some(n) => Ok(Some(n)),
            None => Err(CliFault::InvalidValue("--expected-revision"@)),
        },
    }
}

fn find_revision(s: &Scan) -> (r: Result<Option<u64>, CliError>)
    ensures
        match (r, revision_in(s@)) {
            (Ok(found), Ok(revision)) => found == revision,
            (Err(e), Err(f)) => e@ == f,
            _ => false,
        },
{
    let none: Vec<(String, String)> = Vec::new();
    match find_value(s, &none, "--expected-revision", "") {
        None => Ok(None),
        Some(text) => {
            let chars = chars_of(text.as_str());
            match read_natural(&chars) {
                Some(n) => Ok(Some(n)),
                None => Err(CliError::InvalidValue("--expected-revision".to_owned())),
            }
        },
    }
}

/// A Harness Kind; it needs a model beside it.
pub open spec fn kind_in(s: ScanView) -> Result<Option<HarnessKind>, CliFault> {
    match value_in(s, Seq::empty(), "--supervisor-kind"@, ""@) {
        None => Ok(None),
        Some(text) => if text != "omp"@ && text != "codex"@ {
            Err(CliFault::InvalidValue("--supervisor-kind"@))
        } else if !given(s.options, "--supervisor-model"@) {
            Err(CliFault::MissingArgument("--supervisor-model"@))
        } else if text == "omp"@ {
            Ok(Some(HarnessKind::Omp))
        } else {
            Ok(Some(HarnessKind::Codex))
        },
    }
}

fn find_kind(s: &Scan) -> (r: Result<Option<HarnessKind>, CliError>)
    ensures
        match (r, kind_in(s@)) {
            (Ok(found), Ok(kind)) => found == kind,
            (Err(e), Err(f)) => e@ == f,
            _ => false,
        },
{
    let none: Vec<(String, String)> = Vec::new();
    match find_value(s, &none, "--supervisor-kind", "") {
        None => Ok(None),
        Some(text) => {
            let omp = same_text(text.as_str(), "omp");
            if !omp && !same_text(text.as_str(), "codex") {
                return Err(CliError::InvalidValue("--supervisor-kind".to_owned()));
            }
            if !is_given(&s.options, "--supervisor-model") {
                return Err(CliError::MissingArgument("--supervisor-model".to_owned()));
            }
            if omp {
                Ok(Some(HarnessKind::Omp))
            } else {
                Ok(Some(HarnessKind::Codex))
            }
        },
    }
}

/// What a command on workspaces asks for.
pub open spec fn workspace_command(
    args: Seq<Seq<char>>,
    env: Seq<(String, String)>,
) -> Result<WorkspaceView, CliFault> {
    if args.len() == 0 {
        Err(CliFault::MissingCommand)
    } else if args[0] == "get"@ {
        match scan(args.drop_first(), target_rules(), false) {
            Err(f) => Err(f),
            Ok(s) => match (surplus(s, 0), target_in(s, env)) {
                (Some(f), _) => Err(f),
                (None, Err(f)) => Err(f),
                (None, Ok(target)) => Ok(WorkspaceView::Get(target)),
            },
        }
    } else if args[0] == "set"@ {
        match scan(args.drop_first(), set_rules(), false) {
            Err(f) => Err(f),
            Ok(s) => match (surplus(s, 1), state_in(s), target_in(s, env), revision_in(s), kind_in(s)) {
                (Some(f), _, _, _, _) => Err(f),
                (None, Err(f), _, _, _) => Err(f),
                (None, Ok(_), Err(f), _, _) => Err(f),
                (None, Ok(_), Ok(_), Err(f), _) => Err(f),
                (None, Ok(_), Ok(_), Ok(_), Err(f)) => Err(f),
                (None, Ok(state), Ok(target), Ok(expected_revision), Ok(supervisor_kind)) => Ok(
                    WorkspaceView::SetDesired {
                        state,
                        target,
                        expected_revision,
                        supervisor_kind,
                        supervisor_model: value_in(s, env, "--supervisor-model"@, ""@),
                        supervisor_reasoning_effort: value_in(
                            s,
                            env,
                            "--supervisor-reasoning-effort"@,
                            ""@,
                        ),
                        worker: values_in(s.options, "--worker"@),
                    },
                ),
            },
        }
    } else if args[0] == "list"@ {
        match scan(args.drop_first(), list_rules(), false) {
            Err(f) => Err(f),
            Ok(s) => match surplus(s, 0) {
                Some(f) => Err(f),
                None => Ok(WorkspaceView::List { json: given(s.options, "--json"@) }),
            },
        }
    } else {
        Err(CliFault::UnknownCommand(args[0]))
    }
}

/// What is said of a command on workspaces.
pub open spec fn reads_workspace(
    r: Result<WorkspaceCommand, CliError>,
    said: Result<WorkspaceView, CliFault>,
) -> bool {
    match (r, said) {
        (Ok(command), Ok(view)) => command@ == view,
        (Err(e), Err(f)) => e@ == f,
        _ => false,
    }
}

fn read_set(args: &Vec<String>, env: &Vec<(String, String)>) -> (r: Result<
    WorkspaceCommand,
    CliError,
>)
    requires
        args.len() > 0,
        args@[0]@ == "set"@,
    ensures
        reads_workspace(r, workspace_command(texts(args@), env@)),
{
    proof {
        words_differ();
    }
    assert(texts(args@)[0] == args@[0]@);
    let rules = list_set_rules();
    assert(texts(args@).drop_first() =~= texts(args@).skip(1));
    let s = match read_arguments(args, 1, &rules, false) {
        Err(e) => {
            return Err(e);
        },
        Ok(s) => s,
    };
    match refuse_surplus(&s, 1) {
        Err(e) => {
            return Err(e);
        },
        Ok(_) => {},
    }
    let state = match find_state(&s) {
        Err(e) => {
            return Err(e);
        },
        Ok(state) => state,
    };
    let target = match find_target(&s, env) {
        Err(e) => {
            return Err(e);
        },
        Ok(target) => target,
    };
    let expected_revision = match find_revision(&s) {
        Err(e) => {
            return Err(e);
        },
        Ok(revision) => revision,
    };
    let supervisor_kind = match find_kind(&s) {
        Err(e) => {
            return Err(e);
        },
        Ok(kind) => kind,
    };
    let supervisor_model = find_value(&s, env, "--supervisor-model", "");
    let supervisor_reasoning_effort = find_value(&s, env, "--supervisor-reasoning-effort", "");
    let worker = all_values(&s, "--worker");
    Ok(
        WorkspaceCommand::SetDesired {
            state,
            target,
            expected_revision,
            supervisor_kind,
            supervisor_model,
            supervisor_reasoning_effort,
            worker,
        },
    )
}

proof fn words_differ()
    ensures
        "get"@ != "set"@,
        "list"@ != "get"@,
        "list"@ != "set"@,
        ""@.len() == 0,
{
    reveal_strlit("get");
    reveal_strlit("set");
    reveal_strlit("list");
    reveal_strlit("");
    assert("get"@[0] == 'g' && "set"@[0] == 's' && "list"@[0] == 'l');
}

fn read_workspace(args: &Vec<String>, env: &Vec<(String, String)>) -> (r: Result<
    WorkspaceCommand,
    CliError,
>)
    ensures
        reads_workspace(r, workspace_command(texts(args@), env@)),
{
    if args.len() == 0 {
        return Err(CliError::MissingCommand);
    }
    proof {
        words_differ();
    }
    assert(texts(args@)[0] == args@[0]@);
    assert(texts(args@).drop_first() =~= texts(args@).skip(1));
    if same_text(args[0].as_str(), "get") {
        let rules = list_target_rules();
        let s = match read_arguments(args, 1, &rules, false) {
            Err(e) => {
                return Err(e);
            },
            Ok(s) => s,
        };
        match refuse_surplus(&s, 0) {
            Err(e) => {
                return Err(e);
            },
            Ok(_) => {},
        }
        match find_target(&s, env) {
            Err(e) => Err(e),
            Ok(target) => Ok(WorkspaceCommand::Get(target)),
        }
    } else if same_text(args[0].as_str(), "set") {
        read_set(args, env)
    } else if same_text(args[0].as_str(), "list") {
        let rules = list_list_rules();
        let s = match read_arguments(args, 1, &rules, false) {
            Err(e) => {
                return Err(e);
            },
            Ok(s) => s,
        };
        match refuse_surplus(&s, 0) {
            Err(e) => {
                return Err(e);
            },
            Ok(_) => {},
        }
        Ok(WorkspaceCommand::List { json: is_given(&s.options, "--json") })
    } else {
        Err(CliError::UnknownCommand(args[0].as_str().to_owned()))
    }
}

// ---------------------------------------------------------------------------------------------
// All commands
// ---------------------------------------------------------------------------------------------

/// What the commands of Hosts are given: a bearer, a state directory and a socket.
pub struct HostView {
    pub bearer: Seq<char>,
    pub state_dir: Seq<char>,
    pub socket: Option<Seq<char>>,
}

/// The options of the commands of Hosts.
pub open spec fn host_options(
    args: Seq<Seq<char>>,
    env: Seq<(String, String)>,
    rules: Seq<OptionRule>,
    option: Seq<char>,
    variable: Seq<char>,
) -> Result<HostView, CliFault> {
    match scan(args, rules, false) {
        Err(f) => Err(f),
        Ok(s) => match (
            surplus(s, 0),
            needed(Ok(value_in(s, env, option, variable)), option),
            needed(path_in(s, env, "--state-dir"@, "HERDR_PLUGIN_STATE_DIR"@), "--state-dir"@),
            path_in(s, env, "--socket"@, "HERDR_COORDINATOR_SOCKET"@),
        ) {
            (Some(f), _, _, _) => Err(f),
            (None, Err(f), _, _) => Err(f),
            (None, Ok(_), Err(f), _) => Err(f),
            (None, Ok(_), Ok(_), Err(f)) => Err(f),
            (None, Ok(bearer), Ok(state_dir), Ok(socket)) => Ok(
                HostView { bearer, state_dir, socket },
            ),
        },
    }
}

fn read_host(
    args: &Vec<String>,
    env: &Vec<(String, String)>,
    rules: &Vec<OptionRule>,
    option: &str,
    variable: &str,
) -> (r: Result<(String, String, Option<String>), CliError>)
    requires
        args.len() > 0,
    ensures
        match (r, host_options(texts(args@).drop_first(), env@, rules@, option@, variable@)) {
            (Ok((bearer, state_dir, socket)), Ok(view)) => bearer@ == view.bearer && state_dir@
                == view.state_dir && optional_text(socket) == view.socket,
            (Err(e), Err(f)) => e@ == f,
            _ => false,
        },
{
    assert(texts(args@).drop_first() =~= texts(args@).skip(1));
    let s = match read_arguments(args, 1, rules, false) {
        Err(e) => {
            return Err(e);
        },
        Ok(s) => s,
    };
    match refuse_surplus(&s, 0) {
        Err(e) => {
            return Err(e);
        },
        Ok(_) => {},
    }
    let bearer = match need_text(&s, env, option, variable) {
        Err(e) => {
            return Err(e);
        },
        Ok(bearer) => bearer,
    };
    let state_dir = match need_path(&s, env, "--state-dir", "HERDR_PLUGIN_STATE_DIR") {
        Err(e) => {
            return Err(e);
        },
        Ok(state_dir) => state_dir,
    };
    match find_path(&s, env, "--socket", "HERDR_COORDINATOR_SOCKET") {
        Err(e) => Err(e),
        Ok(socket) => Ok((bearer, state_dir, socket)),
    }
}

/// The socket of the commands that only reach the broker.
pub open spec fn broker_socket(args: Seq<Seq<char>>, env: Seq<(String, String)>) -> Result<
    Seq<char>,
    CliFault,
> {
    match scan(args, broker_rules(), false) {
        Err(f) => Err(f),
        Ok(s) => match surplus(s, 0) {
            Some(f) => Err(f),
            None => needed(
                path_in(s, env, "--socket"@, "HERDR_COORDINATOR_SOCKET"@),
                "--socket"@,
            ),
        },
    }
}

fn read_broker(args: &Vec<String>, env: &Vec<(String, String)>) -> (r: Result<String, CliError>)
    requires
        args.len() > 0,
    ensures
        match (r, broker_socket(texts(args@).drop_first(), env@)) {
            (Ok(found), Ok(socket)) => found@ == socket,
            (Err(e), Err(f)) => e@ == f,
            _ => false,
        },
{
    assert(texts(args@).drop_first() =~= texts(args@).skip(1));
    let rules = list_broker_rules();
    let s = match read_arguments(args, 1, &rules, false) {
        Err(e) => {
            return Err(e);
        },
        Ok(s) => s,
    };
    match refuse_surplus(&s, 0) {
        Err(e) => {
            return Err(e);
        },
        Ok(_) => {},
    }
    need_path(&s, env, "--socket", "HERDR_COORDINATOR_SOCKET")
}

/// What the daemon is given.
pub open spec fn daemon_options(args: Seq<Seq<char>>, env: Seq<(String, String)>) -> Result<
    CommandView,
    CliFault,
> {
    match scan(args, daemon_rules(), false) {
        Err(f) => Err(f),
        Ok(s) => match (
            surplus(s, 0),
            needed(path_in(s, env, "--state-dir"@, "HERDR_PLUGIN_STATE_DIR"@), "--state-dir"@),
            path_in(s, env, "--socket"@, ""@),
        ) {
            (Some(f), _, _) => Err(f),
            (None, Err(f), _) => Err(f),
            (None, Ok(_), Err(f)) => Err(f),
            (None, Ok(state_dir), Ok(socket)) => Ok(CommandView::Daemon { state_dir, socket }),
        },
    }
}

/// What is said of a command.
pub open spec fn reads_command(
    r: Result<Command, CliError>,
    said: Result<CommandView, CliFault>,
) -> bool {
    match (r, said) {
        (Ok(command), Ok(view)) => command@ == view,
        (Err(e), Err(f)) => e@ == f,
        _ => false,
    }
}

fn read_daemon(args: &Vec<String>, env: &Vec<(String, String)>) -> (r: Result<Command, CliError>)
    requires
        args.len() > 0,
    ensures
        reads_command(r, daemon_options(texts(args@).drop_first(), env@)),
{
    assert(texts(args@).drop_first() =~= texts(args@).skip(1));
    let rules = list_daemon_rules();
    let s = match read_arguments(args, 1, &rules, false) {
        Err(e) => {
            return Err(e);
        },
        Ok(s) => s,
    };
    match refuse_surplus(&s, 0) {
        Err(e) => {
            return Err(e);
        },
        Ok(_) => {},
    }
    let state_dir = match need_path(&s, env, "--state-dir", "HERDR_PLUGIN_STATE_DIR") {
        Err(e) => {
            return Err(e);
        },
        Ok(state_dir) => state_dir,
    };
    match find_path(&s, env, "--socket", "") {
        Err(e) => Err(e),
        Ok(socket) => Ok(Command::Daemon { state_dir, socket }),
    }
}

/// A command without commands of its own.
pub open spec fn is_plain_command(name: Seq<char>) -> bool {
    name == "daemon"@ || name == "call"@ || name == "stdio-proxy"@ || name == "worker-host"@ || name
        == "supervisor-host"@ || name == "popup"@ || name == "mcp"@ || name == "help"@
}

/// A command on workspaces.
pub open spec fn is_workspace_command(name: Seq<char>) -> bool {
    name == "get"@ || name == "set"@ || name == "list"@ || name == "help"@
}

fn names_plain_command(name: &str) -> (r: bool)
    ensures
        r == is_plain_command(name@),
{
    same_text(name, "daemon") || same_text(name, "call") || same_text(name, "stdio-proxy")
        || same_text(name, "worker-host") || same_text(name, "supervisor-host") || same_text(
        name,
        "popup",
    ) || same_text(name, "mcp") || same_text(name, "help")
}

fn names_workspace_command(name: &str) -> (r: bool)
    ensures
        r == is_workspace_command(name@),
{
    same_text(name, "get") || same_text(name, "set") || same_text(name, "list") || same_text(
        name,
        "help",
    )
}

/// The use of a command, named with the command that it belongs to.
pub open spec fn help_on(words: Seq<Seq<char>>) -> Result<CommandView, CliFault> {
    if words.len() == 0 {
        Ok(CommandView::Help { topic: words })
    } else if words[0] == "workspace"@ {
        if words.len() > 1 && !is_workspace_command(words[1]) {
            Err(CliFault::UnknownCommand(words[1]))
        } else if words.len() > 2 {
            Err(CliFault::UnknownCommand(words[2]))
        } else {
            Ok(CommandView::Help { topic: words })
        }
    } else if !is_plain_command(words[0]) {
        Err(CliFault::UnknownCommand(words[0]))
    } else if words.len() > 1 {
        Err(CliFault::UnknownCommand(words[1]))
    } else {
        Ok(CommandView::Help { topic: words })
    }
}

fn read_topic(words: Vec<String>) -> (r: Result<Command, CliError>)
    ensures
        reads_command(r, help_on(texts(words@))),
{
    let n = words.len();
    if n > 0 {
        assert(texts(words@)[0] == words@[0]@);
        let workspace = same_text(words[0].as_str(), "workspace");
        if !workspace && !names_plain_command(words[0].as_str()) {
            return Err(CliError::UnknownCommand(words[0].as_str().to_owned()));
        }
        if n > 1 {
            assert(texts(words@)[1] == words@[1]@);
            if !workspace || !names_workspace_command(words[1].as_str()) {
                return Err(CliError::UnknownCommand(words[1].as_str().to_owned()));
            }
        }
        if n > 2 {
            assert(texts(words@)[2] == words@[2]@);
            return Err(CliError::UnknownCommand(words[2].as_str().to_owned()));
        }
    }
    Ok(Command::Help { topic: words })
}

/// The command on workspaces: its own options come before the name of what is done.
pub open spec fn workspace_options(args: Seq<Seq<char>>, env: Seq<(String, String)>) -> Result<
    CommandView,
    CliFault,
> {
    match scan(args, workspace_rules(), true) {
        Err(f) => Err(f),
        Ok(s) => if s.others.len() > 0 && s.others[0] == "help"@ {
            help_on(seq!["workspace"@] + s.others.drop_first())
        } else {
            match (
                needed(path_in(s, env, "--state-dir"@, "HERDR_PLUGIN_STATE_DIR"@), "--state-dir"@),
                workspace_command(s.others, env),
            ) {
                (Err(f), _) => Err(f),
                (Ok(_), Err(f)) => Err(f),
                (Ok(state_dir), Ok(command)) => Ok(CommandView::Workspace { state_dir, command }),
            }
        },
    }
}

fn read_workspace_options(args: &Vec<String>, env: &Vec<(String, String)>) -> (r: Result<
    Command,
    CliError,
>)
    requires
        args.len() > 0,
    ensures
        reads_command(r, workspace_options(texts(args@).drop_first(), env@)),
{
    assert(texts(args@).drop_first() =~= texts(args@).skip(1));
    let rules = list_workspace_rules();
    let s = match read_arguments(args, 1, &rules, true) {
        Err(e) => {
            return Err(e);
        },
        Ok(s) => s,
    };
    assert(s.others@.len() > 0 ==> s@.others[0] == s.others@[0]@);
    if s.others.len() > 0 && same_text(s.others[0].as_str(), "help") {
        let mut topic = copy_from(&s.others, 1);
        let ghost rest = texts(topic@);
        assert(rest =~= s@.others.drop_first());
        topic.insert(0, "workspace".to_owned());
        assert(texts(topic@) =~= seq!["workspace"@] + rest);
        return read_topic(topic);
    }
    let state_dir = match need_path(&s, env, "--state-dir", "HERDR_PLUGIN_STATE_DIR") {
        Err(e) => {
            return Err(e);
        },
        Ok(state_dir) => state_dir,
    };
    match read_workspace(&s.others, env) {
        Err(e) => Err(e),
        Ok(command) => Ok(Command::Workspace { state_dir, command }),
    }
}

/// What a command line asks for, behind the name of the program.
pub open spec fn command_line(args: Seq<Seq<char>>, env: Seq<(String, String)>) -> Result<
    CommandView,
    CliFault,
> {
    let rest = args.drop_first();
    if args.len() == 0 {
        Err(CliFault::MissingCommand)
    } else if args[0] == "workspace"@ {
        workspace_options(rest, env)
    } else if args[0] == "daemon"@ {
        daemon_options(rest, env)
    } else if args[0] == "call"@ {
        match broker_socket(rest, env) {
            Err(f) => Err(f),
            Ok(socket) => Ok(CommandView::Call { socket }),
        }
    } else if args[0] == "stdio-proxy"@ {
        match broker_socket(rest, env) {
            Err(f) => Err(f),
            Ok(socket) => Ok(CommandView::StdioProxy { socket }),
        }
    } else if args[0] == "worker-host"@ {
        match host_options(rest, env, worker_host_rules(), "--session-id"@, ""@) {
            Err(f) => Err(f),
            Ok(h) => Ok(
                CommandView::WorkerHost {
                    session_id: h.bearer,
                    state_dir: h.state_dir,
                    socket: h.socket,
                },
            ),
        }
    } else if args[0] == "supervisor-host"@ {
        match host_options(rest, env, supervisor_rules(), "--supervisor-capability"@, "HERDR_SUPERVISOR_CAPABILITY"@) {
            Err(f) => Err(f),
            Ok(h) => Ok(
                CommandView::SupervisorHost {
                    supervisor_capability: h.bearer,
                    state_dir: h.state_dir,
                    socket: h.socket,
                },
            ),
        }
    } else if args[0] == "popup"@ {
        match host_options(rest, env, supervisor_rules(), "--supervisor-capability"@, "HERDR_SUPERVISOR_CAPABILITY"@) {
            Err(f) => Err(f),
            Ok(h) => Ok(
                CommandView::Popup {
                    supervisor_capability: h.bearer,
                    state_dir: h.state_dir,
                    socket: h.socket,
                },
            ),
        }
    } else if args[0] == "mcp"@ {
        match host_options(rest, env, mcp_rules(), "--session-capability"@, "HERDR_HARNESS_CAPABILITY"@) {
            Err(f) => Err(f),
            Ok(h) => Ok(
                CommandView::Mcp {
                    session_capability: h.bearer,
                    state_dir: h.state_dir,
                    socket: h.socket,
                },
            ),
        }
    } else if args[0] == "help"@ {
        help_on(rest)
    } else if args[0] == "--version"@ || args[0] == "-V"@ {
        Ok(CommandView::Version)
    } else if args[0] == "--help"@ || args[0] == "-h"@ {
        Err(CliFault::HelpWanted)
    } else if hyphened(args[0]) {
        Err(CliFault::UnexpectedArgument(args[0]))
    } else {
        Err(CliFault::UnknownCommand(args[0]))
    }
}

fn read_command(args: &Vec<String>, env: &Vec<(String, String)>) -> (r: Result<Command, CliError>)
    ensures
        reads_command(r, command_line(texts(args@), env@)),
{
    if args.len() == 0 {
        return Err(CliError::MissingCommand);
    }
    let name = args[0].as_str();
    assert(texts(args@)[0] == name@);
    if same_text(name, "workspace") {
        read_workspace_options(args, env)
    } else if same_text(name, "daemon") {
        read_daemon(args, env)
    } else if same_text(name, "call") {
        match read_broker(args, env) {
            Err(e) => Err(e),
            Ok(socket) => Ok(Command::Call { socket }),
        }
    } else if same_text(name, "stdio-proxy") {
        match read_broker(args, env) {
            Err(e) => Err(e),
            Ok(socket) => Ok(Command::StdioProxy { socket }),
        }
    } else if same_text(name, "worker-host") {
        let rules = list_worker_host_rules();
        match read_host(args, env, &rules, "--session-id", "") {
            Err(e) => Err(e),
            Ok((bearer, state_dir, socket)) => Ok(
                Command::WorkerHost { session_id: bearer, state_dir, socket },
            ),
        }
    } else if same_text(name, "supervisor-host") {
        let rules = list_supervisor_rules();
        match read_host(args, env, &rules, "--supervisor-capability", "HERDR_SUPERVISOR_CAPABILITY") {
            Err(e) => Err(e),
            Ok((bearer, state_dir, socket)) => Ok(
                Command::SupervisorHost { supervisor_capability: bearer, state_dir, socket },
            ),
        }
    } else if same_text(name, "popup") {
        let rules = list_supervisor_rules();
        match read_host(args, env, &rules, "--supervisor-capability", "HERDR_SUPERVISOR_CAPABILITY") {
            Err(e) => Err(e),
            Ok((bearer, state_dir, socket)) => Ok(
                Command::Popup { supervisor_capability: bearer, state_dir, socket },
            ),
        }
    } else if same_text(name, "mcp") {
        let rules = list_mcp_rules();
        match read_host(args, env, &rules, "--session-capability", "HERDR_HARNESS_CAPABILITY") {
            Err(e) => Err(e),
            Ok((bearer, state_dir, socket)) => Ok(
                Command::Mcp { session_capability: bearer, state_dir, socket },
            ),
        }
    } else if same_text(name, "help") {
        assert(texts(args@).drop_first() =~= texts(args@).skip(1));
        read_topic(copy_from(args, 1))
    } else if same_text(name, "--version") || same_text(name, "-V") {
        Ok(Command::Version)
    } else if same_text(name, "--help") || same_text(name, "-h") {
        Err(CliError::HelpWanted)
    } else if is_hyphened(name) {
        Err(CliError::UnexpectedArgument(name.to_owned()))
    } else {
        Err(CliError::UnknownCommand(name.to_owned()))
    }
}

impl Cli {
    /// Reads a command line, the name of the program first; what options leave out comes from the
    /// environment.
    pub fn try_parse_from(args: &Vec<String>, env: &Vec<(String, String)>) -> (r: Result<
        Cli,
        CliError,
    >)
        ensures
            match (
                r,
                command_line(
                    if args@.len() == 0 {
                        Seq::empty()
                    } else {
                        texts(args@).drop_first()
                    },
                    env@,
                ),
            ) {
                (Ok(cli), Ok(view)) => cli.command@ == view,
                (Err(e), Err(f)) => e@ == f,
                _ => false,
            },
    {
        let rest = if args.len() == 0 {
            Vec::new()
        } else {
            copy_from(args, 1)
        };
        proof {
            if args@.len() == 0 {
                assert(texts(rest@) =~= Seq::empty());
            } else {
                assert(texts(args@).drop_first() =~= texts(args@).skip(1));
            }
        }
        match read_command(&rest, env) {
            Err(e) => Err(e),
            Ok(command) => Ok(Cli { command }),
        }
    }
}

/// The socket of a command: the one that is given, else the one in the state directory.
pub fn socket_or_default(socket: Option<String>, state_dir: &str) -> (r: String)
    ensures
        r@ == (match optional_text(socket) {
            Some(path) => path,
            None => crate::paths::below(state_dir@, "coordinator.sock"@),
        }),
{
    match socket {
        Some(path) => path,
        None => crate::paths::join_path(state_dir, "coordinator.sock"),
    }
}

} // verus!
