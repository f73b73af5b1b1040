//! Herdr socket-protocol and plugin boundary.
//!
//! Public pane identifiers are live UI locations. Coordinator sessions bind to
//! [`PaneInfo::terminal_id`] and resolve a fresh [`PaneLocation`] after every
//! snapshot or reconnect.
use vstd::prelude::*;

use crate::json::{copy_value, field, get_member, json_form, member, render, text_member, tree};
use crate::paths::{lists_view, pieces, split_chars};
use crate::select::{count_step, count_where, first_found, first_missing, first_says, first_where};
use crate::text::{chars_of, decimal, decimal_text, join, join3, optional_text, same_text};

verus! {

pub const HERDR_VERSION: &'static str = "0.7.4";

pub const HERDR_PROTOCOL: u32 = 16;

pub const PLUGIN_ID: &'static str = "herdr-harness-coordinator";

pub const WORKER_ENTRYPOINT: &'static str = "worker";

pub const SUPERVISOR_ENTRYPOINT: &'static str = "supervisor";

pub const POPUP_ENTRYPOINT: &'static str = "harness-network";

pub const METADATA_SOURCE: &'static str = "herdr-harness-coordinator";

/// The longest response line, in bytes.
pub const MAX_RESPONSE_BYTES: usize = 1024 * 1024;

// ---------------------------------------------------------------------------------------------
// Failures
// ---------------------------------------------------------------------------------------------

/// A failed exchange with Herdr.
#[derive(Debug)]
#[allow(inconsistent_fields)]
pub enum HerdrError {
    /// The socket failed.
    Io(String),
    /// A frame is not the JSON that was expected.
    Json(String),
    /// Herdr refused the request.
    Remote { code: String, message: String },
    /// The response answers another request.
    Correlation { expected: String, received: String },
    /// The response is longer than a response may be.
    OversizedResponse,
    /// The response is not one to the request.
    UnexpectedResponse(String),
    /// The release or the protocol cannot be used.
    Incompatible { version: String, protocol: u32 },
    /// No pane has the terminal.
    TerminalMissing(String),
    /// More than one pane has the terminal.
    DuplicateTerminal(String),
}

/// What a [`HerdrError`] says.
#[allow(inconsistent_fields)]
pub enum HerdrFault {
    Io(Seq<char>),
    Json(Seq<char>),
    Remote { code: Seq<char>, message: Seq<char> },
    Correlation { expected: Seq<char>, received: Seq<char> },
    OversizedResponse,
    UnexpectedResponse(Seq<char>),
    Incompatible { version: Seq<char>, protocol: u32 },
    TerminalMissing(Seq<char>),
    DuplicateTerminal(Seq<char>),
}

impl View for HerdrError {
    type V = HerdrFault;

    open spec fn view(&self) -> HerdrFault {
        match self {
            HerdrError::Io(s) => HerdrFault::Io(s@),
            HerdrError::Json(s) => HerdrFault::Json(s@),
            HerdrError::Remote { code, message } => HerdrFault::Remote {
                code: code@,
                message: message@,
            },
            HerdrError::Correlation { expected, received } => HerdrFault::Correlation {
                expected: expected@,
                received: received@,
            },
            HerdrError::OversizedResponse => HerdrFault::OversizedResponse,
            HerdrError::UnexpectedResponse(s) => HerdrFault::UnexpectedResponse(s@),
            HerdrError::Incompatible { version, protocol } => HerdrFault::Incompatible {
                version: version@,
                protocol: *protocol,
            },
            HerdrError::TerminalMissing(s) => HerdrFault::TerminalMissing(s@),
            HerdrError::DuplicateTerminal(s) => HerdrFault::DuplicateTerminal(s@),
        }
    }
}

/// The diagnostic text of a fault.
pub open spec fn herdr_text(f: HerdrFault) -> Seq<char> {
    match f {
        HerdrFault::Io(s) => "Herdr socket I/O failed: "@ + s,
        HerdrFault::Json(s) => "Herdr JSON frame is invalid: "@ + s,
        HerdrFault::Remote { code, message } => "Herdr returned "@ + code + ": "@ + message,
        HerdrFault::Correlation { expected, received } => {
            "Herdr response correlation mismatch: expected "@ + expected + ", received "@
                + received
        },
        HerdrFault::OversizedResponse => "Herdr response exceeded the 1048576 byte limit"@,
        HerdrFault::UnexpectedResponse(s) => "unexpected Herdr response: "@ + s,
        HerdrFault::Incompatible { version, protocol } => {
            "Herdr >=0.7.4 with protocol 16 required; received version "@ + version
                + ", protocol "@ + decimal(protocol as nat)
        },
        HerdrFault::TerminalMissing(s) => "terminal "@ + s
            + " is absent from the current Herdr snapshot"@,
        HerdrFault::DuplicateTerminal(s) => "terminal "@ + s
            + " occurs more than once in the current Herdr snapshot"@,
    }
}

impl HerdrError {
    /// The diagnostic text.
    pub fn text(&self) -> (r: String)
        ensures
            r@ == herdr_text(self@),
    {
        match self {
            HerdrError::Io(s) => join("Herdr socket I/O failed: ", s.as_str()),
            HerdrError::Json(s) => join("Herdr JSON frame is invalid: ", s.as_str()),
            HerdrError::Remote { code, message } => {
                let mut r = join3("Herdr returned ", code.as_str(), ": ");
                r.append(message.as_str());
                r
            },
            HerdrError::Correlation { expected, received } => {
                let mut r = join3(
                    "Herdr response correlation mismatch: expected ",
                    expected.as_str(),
                    ", received ",
                );
                r.append(received.as_str());
                r
            },
            HerdrError::OversizedResponse => {
                "Herdr response exceeded the 1048576 byte limit".to_owned()
            },
            HerdrError::UnexpectedResponse(s) => join("unexpected Herdr response: ", s.as_str()),
            HerdrError::Incompatible { version, protocol } => {
                let mut r = join3(
                    "Herdr >=0.7.4 with protocol 16 required; received version ",
                    version.as_str(),
                    ", protocol ",
                );
                let number = decimal_text(*protocol as u64);
                r.append(number.as_str());
                r
            },
            HerdrError::TerminalMissing(s) => join3(
                "terminal ",
                s.as_str(),
                " is absent from the current Herdr snapshot",
            ),
            HerdrError::DuplicateTerminal(s) => join3(
                "terminal ",
                s.as_str(),
                " occurs more than once in the current Herdr snapshot",
            ),
        }
    }
}

// ---------------------------------------------------------------------------------------------
// Releases
// ---------------------------------------------------------------------------------------------

pub open spec fn is_digit(c: char) -> bool {
    '0' <= c <= '9'
}

/// The number that decimal digits write.
pub open spec fn written_number(digits: Seq<char>) -> nat
    decreases digits.len(),
{
    if digits.len() == 0 {
        0
    } else {
        (written_number(digits.drop_last()) * 10 + (digits.last() as nat - '0' as nat)) as nat
    }
}

/// The digits of a number, behind an optional plus sign.
pub open spec fn unsigned_digits(text: Seq<char>) -> Seq<char> {
    if text.len() > 0 && text[0] == '+' {
        text.drop_first()
    } else {
        text
    }
}

/// A natural number of 64 bits.
pub open spec fn natural(text: Seq<char>) -> Option<u64> {
    let digits = unsigned_digits(text);
    if digits.len() == 0 || !(forall|i: int| 0 <= i < digits.len() ==> is_digit(digits[i]))
        || written_number(digits) > u64::MAX {
        None
    } else {
        Some(written_number(digits) as u64)
    }
}

/// Reads a natural number of 64 bits.
pub fn read_natural(text: &Vec<char>) -> (r: Option<u64>)
    ensures
        r == natural(text@),
{
    let ghost digits = unsigned_digits(text@);
    let start: usize = if text.len() > 0 && text[0] == '+' {
        1
    } else {
        0
    };
    assert(digits =~= text@.skip(start as int));
    if start == text.len() {
        return None;
    }
    let mut value: u64 = 0;
    let mut fits = true;
    let mut i: usize = start;
    assert(digits.take(0).len() == 0);
    while i < text.len()
        invariant
            start <= i <= text.len(),
            digits == text@.skip(start as int),
            digits == unsigned_digits(text@),
            forall|j: int| 0 <= j < i - start ==> is_digit(#[trigger] digits[j]),
            fits ==> written_number(digits.take(i - start)) == value,
            !fits ==> written_number(digits.take(i - start)) > u64::MAX,
        decreases text.len() - i,
    {
        let c = text[i];
        assert(digits[i - start] == c);
        if c < '0' || c > '9' {
            assert(!is_digit(digits[i - start]));
            return None;
        }
        assert(digits.take(i - start + 1).drop_last() =~= digits.take(i - start));
        assert(digits.take(i - start + 1).last() == c);
        if fits {
            let digit: u64 = (c as u32 - '0' as u32) as u64;
            match value.checked_mul(10) {
                None => {
                    fits = false;
                },
                Some(tens) => match tens.checked_add(digit) {
                    None => {
                        fits = false;
                    },
                    Some(next) => {
                        value = next;
                    },
                },
            }
        }
        i += 1;
    }
    assert(digits.take(i - start) =~= digits);
    if fits {
        Some(value)
    } else {
        None
    }
}

/// A release: three numbers between dots.
pub open spec fn release(version: Seq<char>) -> Option<(u64, u64, u64)> {
    let parts = pieces(version, '.', None);
    if parts.len() != 3 {
        None
    } else {
        match (natural(parts[0]), natural(parts[1]), natural(parts[2])) {
            (Some(a), Some(b), Some(c)) => Some((a, b, c)),
            _ => None,
        }
    }
}

fn read_release(version: &str) -> (r: Option<(u64, u64, u64)>)
    ensures
        r == release(version@),
{
    let chars = chars_of(version);
    let parts = split_chars(&chars, '.', None);
    let ghost all = pieces(version@, '.', None);
    assert(lists_view(parts@) == all);
    assert(all.len() == parts.len());
    if parts.len() != 3 {
        return None;
    }
    assert(all[0] == parts@[0]@ && all[1] == parts@[1]@ && all[2] == parts@[2]@);
    match (read_natural(&parts[0]), read_natural(&parts[1]), read_natural(&parts[2])) {
        (Some(a), Some(b), Some(c)) => Some((a, b, c)),
        _ => None,
    }
}

/// Releases in order.
pub open spec fn release_at_least(a: (u64, u64, u64), b: (u64, u64, u64)) -> bool {
    a.0 > b.0 || (a.0 == b.0 && (a.1 > b.1 || (a.1 == b.1 && a.2 >= b.2)))
}

/// A release that is no older than another; a malformed one never is.
pub open spec fn at_least(actual: Seq<char>, minimum: Seq<char>) -> bool {
    match (release(actual), release(minimum)) {
        (Some(a), Some(b)) => release_at_least(a, b),
        _ => false,
    }
}

/// Whether a release is no older than another.
pub fn version_at_least(actual: &str, minimum: &str) -> (r: bool)
    ensures
        r == at_least(actual@, minimum@),
{
    match (read_release(actual), read_release(minimum)) {
        (Some(a), Some(b)) => a.0 > b.0 || (a.0 == b.0 && (a.1 > b.1 || (a.1 == b.1 && a.2
            >= b.2))),
        _ => false,
    }
}

/// A release that suffices stays sufficient as it grows.
pub proof fn newer_releases_suffice(a: (u64, u64, u64), b: (u64, u64, u64), c: (u64, u64, u64))
    requires
        release_at_least(a, b),
        release_at_least(b, c),
    ensures
        release_at_least(a, c),
{
}

// ---------------------------------------------------------------------------------------------
// Snapshots
// ---------------------------------------------------------------------------------------------

/// A live pane; its labels and tokens stand in the order of their names.
#[derive(Debug)]
pub struct PaneInfo {
    pub pane_id: String,
    pub terminal_id: String,
    pub workspace_id: String,
    pub tab_id: String,
    pub focused: bool,
    pub agent_status: String,
    pub revision: u64,
    pub state_labels: Vec<(String, String)>,
    pub tokens: Vec<(String, String)>,
}

/// What Herdr shows at one moment.
#[derive(Debug)]
pub struct SessionSnapshot {
    pub version: String,
    pub protocol: u32,
    pub panes: Vec<PaneInfo>,
}

/// Where a terminal is shown now.
#[derive(Debug)]
pub struct PaneLocation {
    pub pane_id: String,
    pub terminal_id: String,
    pub workspace_id: String,
    pub tab_id: String,
}

/// What a [`PaneLocation`] says: pane, terminal, workspace and tab.
pub struct Location {
    pub pane_id: Seq<char>,
    pub terminal_id: Seq<char>,
    pub workspace_id: Seq<char>,
    pub tab_id: Seq<char>,
}

impl View for PaneLocation {
    type V = Location;

    open spec fn view(&self) -> Location {
        Location {
            pane_id: self.pane_id@,
            terminal_id: self.terminal_id@,
            workspace_id: self.workspace_id@,
            tab_id: self.tab_id@,
        }
    }
}

impl PaneInfo {
    /// Where the pane is.
    pub open spec fn place(self) -> Location {
        Location {
            pane_id: self.pane_id@,
            terminal_id: self.terminal_id@,
            workspace_id: self.workspace_id@,
            tab_id: self.tab_id@,
        }
    }

    /// Where the pane is.
    pub fn location(&self) -> (r: PaneLocation)
        ensures
            r@ == self.place(),
    {
        PaneLocation {
            pane_id: self.pane_id.as_str().to_owned(),
            terminal_id: self.terminal_id.as_str().to_owned(),
            workspace_id: self.workspace_id.as_str().to_owned(),
            tab_id: self.tab_id.as_str().to_owned(),
        }
    }
}

pub open spec fn shows_terminal(terminal_id: Seq<char>) -> spec_fn(PaneInfo) -> bool {
    |p: PaneInfo| p.terminal_id@ == terminal_id
}

/// The pane that shows a terminal: the only one.
pub open spec fn resolved(panes: Seq<PaneInfo>, terminal_id: Seq<char>) -> Result<
    Location,
    HerdrFault,
> {
    match first_where(panes, shows_terminal(terminal_id)) {
        None => Err(HerdrFault::TerminalMissing(terminal_id)),
        Some(i) => if count_where(panes, shows_terminal(terminal_id)) > 1 {
            Err(HerdrFault::DuplicateTerminal(terminal_id))
        } else {
            Ok(panes[i].place())
        },
    }
}

impl SessionSnapshot {
    /// Verifies the minimum product release and exact socket protocol.
    pub fn validate_compatibility(&self) -> (r: Result<(), HerdrError>)
        ensures
            match r {
                Ok(_) => at_least(self.version@, HERDR_VERSION@) && self.protocol
                    == HERDR_PROTOCOL,
                Err(e) => !(at_least(self.version@, HERDR_VERSION@) && self.protocol
                    == HERDR_PROTOCOL) && e@ == (HerdrFault::Incompatible {
                    version: self.version@,
                    protocol: self.protocol,
                }),
            },
    {
        if !version_at_least(self.version.as_str(), HERDR_VERSION) || self.protocol
            != HERDR_PROTOCOL {
            return Err(
                HerdrError::Incompatible {
                    version: self.version.as_str().to_owned(),
                    protocol: self.protocol,
                },
            );
        }
        Ok(())
    }

    /// Resolves a live pane location from its stable terminal identity.
    pub fn resolve_terminal(&self, terminal_id: &str) -> (r: Result<PaneLocation, HerdrError>)
        ensures
            match (r, resolved(self.panes@, terminal_id@)) {
                (Ok(found), Ok(location)) => found@ == location,
                (Err(e), Err(f)) => e@ == f,
                _ => false,
            },
    {
        let ghost v = self.panes@;
        let ghost p = shows_terminal(terminal_id@);
        let mut found: Option<usize> = None;
        let mut many = false;
        let mut i: usize = 0;
        assert(v.take(0).len() == 0);
        while i < self.panes.len()
            invariant
                i <= self.panes.len(),
                v == self.panes@,
                p == shows_terminal(terminal_id@),
                many == (count_where(v.take(i as int), p) > 1),
                match found {
                    Some(k) => {
                        &&& k < i
                        &&& p(v[k as int])
                        &&& forall|j: int| 0 <= j < k ==> !p(#[trigger] v[j])
                        &&& count_where(v.take(i as int), p) >= 1
                    },
                    None => {
                        &&& forall|j: int| 0 <= j < i ==> !p(#[trigger] v[j])
                        &&& count_where(v.take(i as int), p) == 0
                    },
                },
            decreases self.panes.len() - i,
        {
            proof {
                count_step(v, p, i as int);
            }
            if same_text(self.panes[i].terminal_id.as_str(), terminal_id) {
                assert(p(v[i as int]));
                match found {
                    Some(_) => {
                        many = true;
                    },
                    None => {
                        found = Some(i);
                    },
                }
            }
            i += 1;
        }
        assert(v.take(i as int) =~= v);
        match found {
            None => {
                proof {
                    first_missing(v, p);
                }
                Err(HerdrError::TerminalMissing(terminal_id.to_owned()))
            },
            Some(k) => {
                proof {
                    first_found(v, p, k as int);
                }
                if many {
                    return Err(HerdrError::DuplicateTerminal(terminal_id.to_owned()));
                }
                Ok(self.panes[k].location())
            },
        }
    }
}

// ---------------------------------------------------------------------------------------------
// Requests
// ---------------------------------------------------------------------------------------------

/// Named texts, in the order of their names.
pub open spec fn pairs(v: Seq<(String, String)>) -> Seq<(Seq<char>, Seq<char>)> {
    Seq::new(v.len(), |i: int| (v[i].0@, v[i].1@))
}

/// A request for a plugin-owned pane; the variables of its environment stand in the order of
/// their names.
#[derive(Debug)]
pub struct PluginPaneOpenParams {
    pub plugin_id: String,
    pub entrypoint: String,
    pub placement: Option<String>,
    pub workspace_id: Option<String>,
    pub cwd: Option<String>,
    pub env: Vec<(String, String)>,
    pub focus: bool,
}

/// What [`PluginPaneOpenParams`] say.
pub struct PaneRequest {
    pub plugin_id: Seq<char>,
    pub entrypoint: Seq<char>,
    pub placement: Option<Seq<char>>,
    pub workspace_id: Option<Seq<char>>,
    pub cwd: Option<Seq<char>>,
    pub env: Seq<(Seq<char>, Seq<char>)>,
    pub focus: bool,
}

impl View for PluginPaneOpenParams {
    type V = PaneRequest;

    open spec fn view(&self) -> PaneRequest {
        PaneRequest {
            plugin_id: self.plugin_id@,
            entrypoint: self.entrypoint@,
            placement: optional_text(self.placement),
            workspace_id: optional_text(self.workspace_id),
            cwd: optional_text(self.cwd),
            env: pairs(self.env@),
            focus: self.focus,
        }
    }
}

impl PluginPaneOpenParams {
    /// A focused tab for the Supervisor.
    pub fn supervisor(session_capability: &str, _cwd: &str, workspace_id: Option<String>) -> (r:
        PluginPaneOpenParams)
        ensures
            r@ == (PaneRequest {
                plugin_id: PLUGIN_ID@,
                entrypoint: SUPERVISOR_ENTRYPOINT@,
                placement: Some("tab"@),
                workspace_id: optional_text(workspace_id),
                cwd: None,
                env: seq![("HERDR_SUPERVISOR_CAPABILITY"@, session_capability@)],
                focus: true,
            }),
    {
        let mut env: Vec<(String, String)> = Vec::new();
        env.push(("HERDR_SUPERVISOR_CAPABILITY".to_owned(), session_capability.to_owned()));
        assert(pairs(env@) =~= seq![("HERDR_SUPERVISOR_CAPABILITY"@, session_capability@)]);
        PluginPaneOpenParams {
            plugin_id: PLUGIN_ID.to_owned(),
            entrypoint: SUPERVISOR_ENTRYPOINT.to_owned(),
            placement: Some("tab".to_owned()),
            workspace_id,
            cwd: None,
            env,
            focus: true,
        }
    }

    /// An unfocused tab for a Worker.
    pub fn worker(session_capability: &str, cwd: &str, workspace_id: Option<String>) -> (r:
        PluginPaneOpenParams)
        ensures
            r@ == (PaneRequest {
                plugin_id: PLUGIN_ID@,
                entrypoint: WORKER_ENTRYPOINT@,
                placement: Some("tab"@),
                workspace_id: optional_text(workspace_id),
                cwd: None,
                env: seq![
                    ("HERDR_HARNESS_CWD"@, cwd@),
                    ("HERDR_HARNESS_SESSION_ID"@, session_capability@),
                ],
                focus: false,
            }),
    {
        let mut env: Vec<(String, String)> = Vec::new();
        env.push(("HERDR_HARNESS_CWD".to_owned(), cwd.to_owned()));
        env.push(("HERDR_HARNESS_SESSION_ID".to_owned(), session_capability.to_owned()));
        assert(pairs(env@) =~= seq![
            ("HERDR_HARNESS_CWD"@, cwd@),
            ("HERDR_HARNESS_SESSION_ID"@, session_capability@),
        ]);
        PluginPaneOpenParams {
            plugin_id: PLUGIN_ID.to_owned(),
            entrypoint: WORKER_ENTRYPOINT.to_owned(),
            placement: Some("tab".to_owned()),
            workspace_id,
            cwd: None,
            env,
            focus: false,
        }
    }

    /// The popup of a workspace.
    pub fn popup(workspace_id: String) -> (r: PluginPaneOpenParams)
        ensures
            r@ == (PaneRequest {
                plugin_id: PLUGIN_ID@,
                entrypoint: POPUP_ENTRYPOINT@,
                placement: Some("popup"@),
                workspace_id: Some(workspace_id@),
                cwd: None,
                env: Seq::empty(),
                focus: true,
            }),
    {
        let env: Vec<(String, String)> = Vec::new();
        assert(pairs(env@) =~= Seq::empty());
        PluginPaneOpenParams {
            plugin_id: PLUGIN_ID.to_owned(),
            entrypoint: POPUP_ENTRYPOINT.to_owned(),
            placement: Some("popup".to_owned()),
            workspace_id: Some(workspace_id),
            cwd: None,
            env,
            focus: true,
        }
    }
}

/// What is shown of a Harness in its pane.
#[derive(Debug)]
pub struct MetadataProjection {
    pub title: String,
    pub state: String,
    pub detail: String,
    pub inbox: u64,
}

/// Presentation-only metadata. It intentionally has no `agent_status` field.
#[derive(Debug)]
pub struct PaneReportMetadataParams {
    pub pane_id: String,
    pub source: String,
    pub seq: Option<u64>,
    pub title: Option<String>,
    pub state_labels: Vec<(String, String)>,
}

impl MetadataProjection {
    /// The metadata of a pane, labels in the order of their names.
    pub fn for_pane(&self, pane_id: &str, sequence: u64) -> (r: PaneReportMetadataParams)
        ensures
            r.pane_id@ == pane_id@,
            r.source@ == METADATA_SOURCE@,
            r.seq == Some(sequence),
            optional_text(r.title) == Some(self.title@),
            pairs(r.state_labels@) == seq![
                ("detail"@, self.detail@),
                ("inbox"@, decimal(self.inbox as nat)),
                ("state"@, self.state@),
            ],
    {
        let mut labels: Vec<(String, String)> = Vec::new();
        labels.push(("detail".to_owned(), self.detail.as_str().to_owned()));
        labels.push(("inbox".to_owned(), decimal_text(self.inbox)));
        labels.push(("state".to_owned(), self.state.as_str().to_owned()));
        assert(pairs(labels@) =~= seq![
            ("detail"@, self.detail@),
            ("inbox"@, decimal(self.inbox as nat)),
            ("state"@, self.state@),
        ]);
        PaneReportMetadataParams {
            pane_id: pane_id.to_owned(),
            source: METADATA_SOURCE.to_owned(),
            seq: Some(sequence),
            title: Some(self.title.as_str().to_owned()),
            state_labels: labels,
        }
    }
}

/// A pane that a plugin owns.
#[derive(Debug)]
pub struct PluginPaneInfo {
    pub plugin_id: String,
    pub entrypoint: String,
    pub pane: PaneInfo,
}

/// A client of one Herdr socket.
#[derive(Debug)]
pub struct HerdrSocketClient {
    pub socket_path: String,
}

impl HerdrSocketClient {
    /// A client of the socket at a path.
    pub fn new(socket_path: String) -> (r: HerdrSocketClient)
        ensures
            r.socket_path == socket_path,
    {
        HerdrSocketClient { socket_path }
    }
}

// ---------------------------------------------------------------------------------------------
// Responses
// ---------------------------------------------------------------------------------------------

pub open spec fn is_newline() -> spec_fn(u8) -> bool {
    |b: u8| b == 10u8
}

/// What a piece of input adds to a line: everything up to the first newline.
pub open spec fn line_part(piece: Seq<u8>) -> Seq<u8> {
    match first_where(piece, is_newline()) {
        Some(i) => piece.take(i + 1),
        None => piece,
    }
}

/// A line is the same however its input is cut: where the first piece ends no line, the second
/// goes on with it, and otherwise the second adds nothing.
pub proof fn lines_do_not_depend_on_cuts(first: Seq<u8>, second: Seq<u8>)
    ensures
        line_part(first + second) == (if first_where(first, is_newline()) is Some {
            line_part(first)
        } else {
            first + line_part(second)
        }),
{
    let p = is_newline();
    let both = first + second;
    first_says(first, p);
    first_says(second, p);
    match (first_where(first, p), first_where(second, p)) {
        (Some(i), _) => {
            assert forall|j: int| 0 <= j < i implies !p(#[trigger] both[j]) by {
                assert(both[j] == first[j]);
            }
            assert(both[i] == first[i]);
            first_found(both, p, i);
            assert(both.take(i + 1) =~= first.take(i + 1));
        },
        (None, Some(k)) => {
            let i = first.len() + k;
            assert forall|j: int| 0 <= j < i implies !p(#[trigger] both[j]) by {
                if j < first.len() {
                    assert(both[j] == first[j]);
                } else {
                    assert(both[j] == second[j - first.len()]);
                }
            }
            assert(both[i] == second[k]);
            first_found(both, p, i);
            assert(both.take(i + 1) =~= first + second.take(k + 1));
        },
        (None, None) => {
            assert forall|j: int| 0 <= j < both.len() implies !p(#[trigger] both[j]) by {
                if j < first.len() {
                    assert(both[j] == first[j]);
                } else {
                    assert(both[j] == second[j - first.len()]);
                }
            }
            first_missing(both, p);
        },
    }
}

/// Takes one more piece of a response line, and says whether the line is complete.
pub fn take_piece(line: &mut Vec<u8>, piece: &[u8]) -> (r: Result<bool, HerdrError>)
    requires
        old(line).len() <= MAX_RESPONSE_BYTES,
    ensures
        final(line).len() <= MAX_RESPONSE_BYTES,
        if piece@.len() == 0 {
            r is Err && r->Err_0@ == HerdrFault::UnexpectedResponse(
                "socket closed before a complete JSONL response"@,
            ) && final(line)@ == old(line)@
        } else if old(line).len() + line_part(piece@).len() > MAX_RESPONSE_BYTES {
            r is Err && r->Err_0@ == HerdrFault::OversizedResponse && final(line)@ == old(line)@
        } else {
            r == Ok::<bool, HerdrError>(first_where(piece@, is_newline()) is Some) && final(line)@
                == old(line)@ + line_part(piece@)
        },
{
    if piece.len() == 0 {
        return Err(
            HerdrError::UnexpectedResponse(
                "socket closed before a complete JSONL response".to_owned(),
            ),
        );
    }
    let mut i: usize = 0;
    while i < piece.len() && piece[i] != 10
        invariant
            i <= piece.len(),
            forall|j: int| 0 <= j < i ==> !is_newline()(#[trigger] piece@[j]),
        decreases piece.len() - i,
    {
        i += 1;
    }
    let complete = i < piece.len();
    let end: usize = if complete {
        i + 1
    } else {
        i
    };
    proof {
        if complete {
            first_found(piece@, is_newline(), i as int);
        } else {
            first_missing(piece@, is_newline());
        }
        assert(line_part(piece@) =~= piece@.take(end as int));
    }
    if end > MAX_RESPONSE_BYTES - line.len() {
        return Err(HerdrError::OversizedResponse);
    }
    let mut k: usize = 0;
    assert(line@ =~= old(line)@ + piece@.take(0));
    while k < end
        invariant
            k <= end <= piece.len(),
            line@ == old(line)@ + piece@.take(k as int),
        decreases end - k,
    {
        line.push(piece[k]);
        k += 1;
        assert(line@ =~= old(line)@ + piece@.take(k as int));
    }
    Ok(complete)
}

/// An error of Herdr.
#[derive(Debug)]
pub struct WireError {
    pub code: String,
    pub message: String,
}

/// One response of Herdr.
#[derive(Debug)]
pub struct WireResponse {
    pub id: String,
    pub result: Option<serde_json::Value>,
    pub error: Option<WireError>,
}

/// The result of the response to a request.
pub fn settle_response(expected: &str, response: WireResponse) -> (r: Result<
    serde_json::Value,
    HerdrError,
>)
    ensures
        if response.id@ != expected@ {
            r is Err && r->Err_0@ == (HerdrFault::Correlation {
                expected: expected@,
                received: response.id@,
            })
        } else {
            match (response.error, response.result) {
                (Some(error), _) => r is Err && r->Err_0@ == (HerdrFault::Remote {
                    code: error.code@,
                    message: error.message@,
                }),
                (None, Some(value)) => r == Ok::<serde_json::Value, HerdrError>(value),
                (None, None) => r is Err && r->Err_0@ == HerdrFault::UnexpectedResponse(
                    "missing result"@,
                ),
            }
        },
{
    if !same_text(response.id.as_str(), expected) {
        return Err(
            HerdrError::Correlation { expected: expected.to_owned(), received: response.id },
        );
    }
    match response.error {
        Some(error) => Err(HerdrError::Remote { code: error.code, message: error.message }),
        None => match response.result {
            Some(value) => Ok(value),
            None => Err(HerdrError::UnexpectedResponse("missing result".to_owned())),
        },
    }
}

/// The part of a result that holds what was asked for, if the result is of the right type.
pub fn result_part(result: &serde_json::Value, expected_type: &str, name: &str) -> (r: Result<
    serde_json::Value,
    HerdrError,
>)
    ensures
        match (text_member(tree(*result), "type"@) == Some(expected_type@), member(
            tree(*result),
            name@,
        )) {
            (true, Some(part)) => r is Ok && tree(r->Ok_0) == part,
            _ => r is Err && r->Err_0@ == HerdrFault::UnexpectedResponse(
                json_form(tree(*result)),
            ),
        },
{
    let right = match field(result, "type") {
        Some(found) => same_text(found.as_str(), expected_type),
        None => false,
    };
    if !right {
        return Err(HerdrError::UnexpectedResponse(render(result)));
    }
    match get_member(result, name) {
        Some(part) => Ok(copy_value(part)),
        None => Err(HerdrError::UnexpectedResponse(render(result))),
    }
}

/// The snapshot in a result.
pub fn parse_snapshot(result: &serde_json::Value) -> (r: Result<serde_json::Value, HerdrError>)
    ensures
        match (text_member(tree(*result), "type"@) == Some("session_snapshot"@), member(
            tree(*result),
            "snapshot"@,
        )) {
            (true, Some(part)) => r is Ok && tree(r->Ok_0) == part,
            _ => r is Err && r->Err_0@ == HerdrFault::UnexpectedResponse(
                json_form(tree(*result)),
            ),
        },
{
    result_part(result, "session_snapshot", "snapshot")
}

/// The pane in a result.
pub fn parse_plugin_pane(result: &serde_json::Value, expected_type: &str) -> (r: Result<
    serde_json::Value,
    HerdrError,
>)
    ensures
        match (text_member(tree(*result), "type"@) == Some(expected_type@), member(
            tree(*result),
            "plugin_pane"@,
        )) {
            (true, Some(part)) => r is Ok && tree(r->Ok_0) == part,
            _ => r is Err && r->Err_0@ == HerdrFault::UnexpectedResponse(
                json_form(tree(*result)),
            ),
        },
{
    result_part(result, expected_type, "plugin_pane")
}

} // verus!
