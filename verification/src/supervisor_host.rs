//! Decisions of the managed visible Supervisor: when events are injected, and in what words.
use vstd::prelude::*;

use crate::adapter::{operation, AdapterError, AdapterFault, AdapterLifecycle, NativeDeliveryKind};
use crate::contract::{HarnessKind, HarnessTier, SupervisorEventKind};
use crate::host::DeliveryResult;
use crate::identity::{uuid_form, uuid_text, AttachmentId, SupervisorEventId, TaskId};
use crate::select::first_where;
use crate::profile::{directory_candidates, first_regular, in_directories, is_present};
use crate::text::{
    blank, decimal, decimal_text, is_blank, join, join3, same_optional, same_text, signed_decimal,
    signed_text, join_words, joined, texts,
};

verus! {

// ---------------------------------------------------------------------------------------------
// The pump
// ---------------------------------------------------------------------------------------------

/// Requires a Session of the Supervisor tier.
pub fn require_tier(tier: HarnessTier) -> (r: Result<(), String>)
    ensures
        match tier {
            HarnessTier::Supervisor => r is Ok,
            HarnessTier::Worker => r is Err && r->Err_0@
                == "managed Supervisor Host requires a Supervisor Session"@,
        },
{
    match tier {
        HarnessTier::Supervisor => Ok(()),
        HarnessTier::Worker => Err(
            "managed Supervisor Host requires a Supervisor Session".to_owned(),
        ),
    }
}

/// Whether the Supervisor's provider can take an event: when it is idle, or when it works and
/// queues input itself.
pub open spec fn receptive(kind: HarnessKind, lifecycle: AdapterLifecycle) -> bool {
    lifecycle == AdapterLifecycle::Idle || (kind == HarnessKind::Omp && lifecycle
        == AdapterLifecycle::Working)
}

/// Whether the next event may be claimed.
pub fn may_claim(kind: HarnessKind, lifecycle: AdapterLifecycle) -> (r: bool)
    ensures
        r == receptive(kind, lifecycle),
{
    lifecycle == AdapterLifecycle::Idle || (kind == HarnessKind::Omp && lifecycle
        == AdapterLifecycle::Working)
}

/// What follows an injection.
#[derive(Debug, Clone, Copy, PartialEq, Eq, Structural)]
pub enum InjectionStep {
    /// Record the acceptance.
    Accept,
    /// Record the doubt.
    Doubt,
    /// Put the event back in line.
    Release,
}

/// Decides what follows an injection: only what was certainly not written goes back in line.
pub fn settle_injection(result: DeliveryResult) -> (r: InjectionStep)
    ensures
        r == (match result {
            DeliveryResult::Accepted => InjectionStep::Accept,
            DeliveryResult::Ambiguous => InjectionStep::Doubt,
            DeliveryResult::Unwritten => InjectionStep::Release,
        }),
{
    match result {
        DeliveryResult::Accepted => InjectionStep::Accept,
        DeliveryResult::Ambiguous => InjectionStep::Doubt,
        DeliveryResult::Unwritten => InjectionStep::Release,
    }
}

/// A native Supervisor Session.
#[derive(Debug)]
pub struct NativeSupervisorSession {
    pub coordinator_session_id: crate::identity::HarnessSessionId,
    pub native_session_id: Option<String>,
    pub thread_id: Option<String>,
}

/// Two views of the same native Session.
pub open spec fn same_session(a: NativeSupervisorSession, b: NativeSupervisorSession) -> bool {
    &&& a.coordinator_session_id == b.coordinator_session_id
    &&& crate::text::optional_text(a.native_session_id) == crate::text::optional_text(
        b.native_session_id,
    )
    &&& crate::text::optional_text(a.thread_id) == crate::text::optional_text(b.thread_id)
}

/// Requires that an event is meant for the bound native Session.
pub fn require_session(
    kind: HarnessKind,
    bound: &Option<NativeSupervisorSession>,
    session: &NativeSupervisorSession,
) -> (r: Result<(), AdapterError>)
    ensures
        match r {
            Ok(_) => *bound is Some && same_session(bound->0, *session),
            Err(e) => !(*bound is Some && same_session(bound->0, *session)) && e@
                == (AdapterFault::Operation {
                kind,
                message: "Supervisor event targeted an unbound native Session"@,
            }),
        },
{
    let same = match bound {
        Some(b) => b.coordinator_session_id == session.coordinator_session_id && same_optional(
            &b.native_session_id,
            &session.native_session_id,
        ) && same_optional(&b.thread_id, &session.thread_id),
        None => false,
    };
    if same {
        Ok(())
    } else {
        Err(
            operation(kind, "Supervisor event targeted an unbound native Session".to_owned()),
        )
    }
}

/// How an event is injected: steering needs a turn that can be steered, anything else starts a turn
/// or queues behind one.
pub open spec fn injection(
    kind: HarnessKind,
    steer: bool,
    steerable: bool,
    lifecycle: AdapterLifecycle,
) -> Result<NativeDeliveryKind, AdapterFault> {
    if steer {
        if steerable {
            Ok(NativeDeliveryKind::Steer)
        } else {
            Err(
                AdapterFault::Operation {
                    kind,
                    message: "native Supervisor turn is not safely steerable"@,
                },
            )
        }
    } else if lifecycle == AdapterLifecycle::Idle {
        Ok(NativeDeliveryKind::StartTurn)
    } else {
        Ok(NativeDeliveryKind::FollowUp)
    }
}

/// Decides how an event is injected.
pub fn injection_kind(
    kind: HarnessKind,
    steer: bool,
    steerable: bool,
    lifecycle: AdapterLifecycle,
) -> (r: Result<NativeDeliveryKind, AdapterError>)
    ensures
        crate::adapter::adapter_outcome(r) == injection(kind, steer, steerable, lifecycle),
{
    if steer {
        if steerable {
            Ok(NativeDeliveryKind::Steer)
        } else {
            Err(operation(kind, "native Supervisor turn is not safely steerable".to_owned()))
        }
    } else if lifecycle == AdapterLifecycle::Idle {
        Ok(NativeDeliveryKind::StartTurn)
    } else {
        Ok(NativeDeliveryKind::FollowUp)
    }
}

/// Decides how a prompt that the user typed is delivered; an empty one is refused.
pub fn prompt_kind(kind: HarnessKind, text: &str, lifecycle: AdapterLifecycle) -> (r: Result<
    NativeDeliveryKind,
    AdapterError,
>)
    ensures
        crate::adapter::adapter_outcome(r) == (if blank(text@) {
            Err(AdapterFault::Operation { kind, message: "Supervisor prompt is empty"@ })
        } else {
            injection(kind, false, false, lifecycle)
        }),
{
    if is_blank(text) {
        return Err(operation(kind, "Supervisor prompt is empty".to_owned()));
    }
    injection_kind(kind, false, false, lifecycle)
}

// ---------------------------------------------------------------------------------------------
// Environment
// ---------------------------------------------------------------------------------------------

/// Variables that the Supervisor's provider inherits.
pub open spec fn safe(name: Seq<char>) -> bool {
    ||| name == "HOME"@
    ||| name == "PATH"@
    ||| name == "USER"@
    ||| name == "LOGNAME"@
    ||| name == "SHELL"@
    ||| name == "TERM"@
    ||| name == "LANG"@
    ||| name == "LC_ALL"@
    ||| name == "XDG_CONFIG_HOME"@
    ||| name == "XDG_DATA_HOME"@
}

/// Whether the Supervisor's provider inherits a variable.
pub fn is_inherited(name: &str) -> (r: bool)
    ensures
        r == safe(name@),
{
    same_text(name, "HOME") || same_text(name, "PATH") || same_text(name, "USER") || same_text(
        name,
        "LOGNAME",
    ) || same_text(name, "SHELL") || same_text(name, "TERM") || same_text(name, "LANG")
        || same_text(name, "LC_ALL") || same_text(name, "XDG_CONFIG_HOME") || same_text(
        name,
        "XDG_DATA_HOME",
    )
}

// ---------------------------------------------------------------------------------------------
// Event texts
// ---------------------------------------------------------------------------------------------

/// An event as it is put to the Supervisor.
#[derive(Debug)]
pub struct SupervisorEvent {
    pub id: SupervisorEventId,
    pub kind: SupervisorEventKind,
    pub task_id: Option<TaskId>,
    pub result_revision: Option<u32>,
    pub summary: String,
    pub attachments: Vec<AttachmentId>,
}

/// The name of an event kind in prose.
pub open spec fn kind_word(kind: SupervisorEventKind) -> Seq<char> {
    match kind {
        SupervisorEventKind::BlockingQuestion => "BlockingQuestion"@,
        SupervisorEventKind::ResultReady => "ResultReady"@,
        SupervisorEventKind::TaskFailed => "TaskFailed"@,
        SupervisorEventKind::DeliveryUnknown => "DeliveryUnknown"@,
        SupervisorEventKind::WorktreeHoldCreated => "WorktreeHoldCreated"@,
        SupervisorEventKind::TaskGraphCompleted => "TaskGraphCompleted"@,
        SupervisorEventKind::Notification => "Notification"@,
    }
}

fn kind_text(kind: SupervisorEventKind) -> (r: &'static str)
    ensures
        r@ == kind_word(kind),
{
    match kind {
        SupervisorEventKind::BlockingQuestion => "BlockingQuestion",
        SupervisorEventKind::ResultReady => "ResultReady",
        SupervisorEventKind::TaskFailed => "TaskFailed",
        SupervisorEventKind::DeliveryUnknown => "DeliveryUnknown",
        SupervisorEventKind::WorktreeHoldCreated => "WorktreeHoldCreated",
        SupervisorEventKind::TaskGraphCompleted => "TaskGraphCompleted",
        SupervisorEventKind::Notification => "Notification",
    }
}

/// The texts of attachment identities.
pub open spec fn attachment_forms(ids: Seq<AttachmentId>) -> Seq<Seq<char>> {
    Seq::new(ids.len(), |i: int| uuid_form(ids[i].0))
}

pub open spec fn or_none(list: Seq<char>) -> Seq<char> {
    if list.len() == 0 {
        "none"@
    } else {
        list
    }
}

/// The words in which an event is put to the Supervisor.
pub open spec fn payload(event: SupervisorEvent) -> Seq<char> {
    "Coordinator Supervisor event\n\nEvent ID: "@ + uuid_form(event.id.0) + "\nKind: "@ + kind_word(
        event.kind,
    ) + "\nTask: "@ + (match event.task_id {
        Some(id) => uuid_form(id.0),
        None => "none"@,
    }) + "\nResult revision: "@ + (match event.result_revision {
        Some(n) => decimal(n as nat),
        None => "none"@,
    }) + "\n\nSummary:\n"@ + event.summary@ + "\n\nAttachments: "@ + or_none(
        joined(attachment_forms(event.attachments@), ", "@),
    )
        + "\n\nRequired action:\nProcess this event using the Coordinator tools, then acknowledge it explicitly or through the matching Reply, Correction, Approval, or reconciliation command."@
}

fn attachment_texts(ids: &Vec<AttachmentId>) -> (r: Vec<String>)
    ensures
        texts(r@) == attachment_forms(ids@),
{
    let mut r: Vec<String> = Vec::new();
    let mut i: usize = 0;
    while i < ids.len()
        invariant
            i <= ids.len(),
            r.len() == i,
            forall|j: int| 0 <= j < i ==> (#[trigger] r@[j])@ == uuid_form(ids@[j].0),
        decreases ids.len() - i,
    {
        r.push(uuid_text(ids[i].0));
        i += 1;
    }
    assert(texts(r@) =~= attachment_forms(ids@));
    r
}

/// Puts an event in words.
pub fn compact_payload(event: &SupervisorEvent) -> (r: String)
    ensures
        r@ == payload(*event),
{
    let id = uuid_text(event.id.0);
    let mut r = join3("Coordinator Supervisor event\n\nEvent ID: ", id.as_str(), "\nKind: ");
    r.append(kind_text(event.kind));
    r.append("\nTask: ");
    match event.task_id {
        Some(id) => {
            let text = uuid_text(id.0);
            r.append(text.as_str());
        },
        None => {
            r.append("none");
        },
    }
    r.append("\nResult revision: ");
    match event.result_revision {
        Some(n) => {
            let text = decimal_text(n as u64);
            r.append(text.as_str());
        },
        None => {
            r.append("none");
        },
    }
    r.append("\n\nSummary:\n");
    r.append(event.summary.as_str());
    r.append("\n\nAttachments: ");
    let names = attachment_texts(&event.attachments);
    let list = join_words(&names, ", ");
    let chars = crate::text::chars_of(list.as_str());
    if chars.len() == 0 {
        r.append("none");
    } else {
        r.append(list.as_str());
    }
    r.append(
        "\n\nRequired action:\nProcess this event using the Coordinator tools, then acknowledge it explicitly or through the matching Reply, Correction, Approval, or reconciliation command.",
    );
    r
}

/// One verification of a Result.
#[derive(Debug)]
pub struct VerificationLine {
    pub command: String,
    pub passed: bool,
    pub exit_code: i32,
}

/// What a Result says of itself.
#[derive(Debug)]
pub struct ResultSummary {
    pub worker: String,
    pub summary: String,
    pub changed_files: Vec<String>,
    pub verification: Vec<VerificationLine>,
    pub risks: Vec<String>,
}

pub open spec fn bullet(text: Seq<char>) -> Seq<char> {
    "- "@ + text
}

pub open spec fn bullets(list: Seq<String>) -> Seq<Seq<char>> {
    Seq::new(list.len(), |i: int| bullet(list[i]@))
}

pub open spec fn verification_bullet(v: VerificationLine) -> Seq<char> {
    "- "@ + v.command@ + ": "@ + (if v.passed {
        "passed"@
    } else {
        "failed"@
    }) + " (exit "@ + signed_decimal(v.exit_code as int) + ")"@
}

pub open spec fn verification_bullets(list: Seq<VerificationLine>) -> Seq<Seq<char>> {
    Seq::new(list.len(), |i: int| verification_bullet(list[i]))
}

/// The summary of a Result in the words of its manifest.
pub open spec fn enriched(s: ResultSummary) -> Seq<char> {
    let files = joined(bullets(s.changed_files@), "\n"@);
    "Worker: "@ + s.worker@ + "\n\nSummary:\n"@ + s.summary@ + "\n\nChanged files:\n"@ + (
    if files.len() == 0 {
        "- None"@
    } else {
        files
    }) + "\n\nVerification:\n"@ + joined(verification_bullets(s.verification@), "\n"@)
        + "\n\nRisks:\n"@ + (if s.risks@.len() == 0 {
        "- None reported"@
    } else {
        joined(bullets(s.risks@), "\n"@)
    })
}

fn write_bullets(list: &Vec<String>) -> (r: Vec<String>)
    ensures
        texts(r@) == bullets(list@),
{
    let mut r: Vec<String> = Vec::new();
    let mut i: usize = 0;
    while i < list.len()
        invariant
            i <= list.len(),
            r.len() == i,
            forall|j: int| 0 <= j < i ==> (#[trigger] r@[j])@ == bullet(list@[j]@),
        decreases list.len() - i,
    {
        r.push(join("- ", list[i].as_str()));
        i += 1;
    }
    assert(texts(r@) =~= bullets(list@));
    r
}

fn write_verification(list: &Vec<VerificationLine>) -> (r: Vec<String>)
    ensures
        texts(r@) == verification_bullets(list@),
{
    let mut r: Vec<String> = Vec::new();
    let mut i: usize = 0;
    while i < list.len()
        invariant
            i <= list.len(),
            r.len() == i,
            forall|j: int| 0 <= j < i ==> (#[trigger] r@[j])@ == verification_bullet(list@[j]),
        decreases list.len() - i,
    {
        let v = &list[i];
        let mut line = join3("- ", v.command.as_str(), ": ");
        if v.passed {
            line.append("passed");
        } else {
            line.append("failed");
        }
        line.append(" (exit ");
        let code = signed_text(v.exit_code as i64);
        line.append(code.as_str());
        line.append(")");
        r.push(line);
        i += 1;
    }
    assert(texts(r@) =~= verification_bullets(list@));
    r
}

/// Writes the summary of a Result.
pub fn enrich_event_summary(s: &ResultSummary) -> (r: String)
    ensures
        r@ == enriched(*s),
{
    let mut r = join3("Worker: ", s.worker.as_str(), "\n\nSummary:\n");
    r.append(s.summary.as_str());
    r.append("\n\nChanged files:\n");
    let file_bullets = write_bullets(&s.changed_files);
    let files = join_words(&file_bullets, "\n");
    let chars = crate::text::chars_of(files.as_str());
    if chars.len() == 0 {
        r.append("- None");
    } else {
        r.append(files.as_str());
    }
    r.append("\n\nVerification:\n");
    let checks = write_verification(&s.verification);
    let verification = join_words(&checks, "\n");
    r.append(verification.as_str());
    r.append("\n\nRisks:\n");
    if s.risks.len() == 0 {
        r.append("- None reported");
    } else {
        let risk_bullets = write_bullets(&s.risks);
        let risks = join_words(&risk_bullets, "\n");
        r.append(risks.as_str());
    }
    r
}

// ---------------------------------------------------------------------------------------------
// The provider's executable
// ---------------------------------------------------------------------------------------------

pub open spec fn executable_name(kind: HarnessKind) -> Seq<char> {
    match kind {
        HarnessKind::Omp => "omp"@,
        HarnessKind::Codex => "codex"@,
    }
}

/// The name of a provider's executable.
pub fn name_executable(kind: HarnessKind) -> (r: &'static str)
    ensures
        r@ == executable_name(kind),
{
    match kind {
        HarnessKind::Omp => "omp",
        HarnessKind::Codex => "codex",
    }
}

/// Finds a provider's executable on the search path; `regular` lists which of the candidates are
/// regular files.
pub fn resolve_provider_executable(kind: HarnessKind, path: Option<&str>, regular: &Vec<String>) -> (r:
    Result<String, String>)
    ensures
        match path {
            None => r is Err && r->Err_0@ == "PATH is unavailable"@,
            Some(path) => {
                let all = in_directories(path@, executable_name(kind));
                match first_where(all, is_present(texts(regular@))) {
                    Some(i) => r is Ok && r->Ok_0@ == all[i],
                    None => r is Err && r->Err_0@ == "resolving `"@ + executable_name(kind)
                        + "` from PATH"@,
                }
            },
        },
{
    let path = match path {
        None => {
            return Err("PATH is unavailable".to_owned());
        },
        Some(path) => path,
    };
    let paths = directory_candidates(path, name_executable(kind));
    match first_regular(&paths, regular) {
        Some(i) => {
            assert(texts(paths@)[i as int] == paths@[i as int]@);
            Ok(paths[i].as_str().to_owned())
        },
        None => Err(join3("resolving `", name_executable(kind), "` from PATH")),
    }
}

} // verus!
