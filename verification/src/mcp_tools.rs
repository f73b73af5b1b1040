//! The tools that a Harness may call: their names, descriptions, arguments and operations.
use vstd::prelude::*;

use crate::contract::HarnessTier;
use crate::ledger::query::{for_supervisor, CoordinatorQuery};
use crate::provider_session::{required_tool, required_tools};
use crate::text::same_text;

verus! {

/// A tool of the Coordinator.
#[derive(Debug, Clone, Copy, PartialEq, Eq, Structural)]
pub enum Tool {
    List,
    Status,
    TaskGraph,
    Inbox,
    SupervisorEvents,
    Start,
    TaskCreate,
    Send,
    Request,
    Complete,
    AttachmentCreate,
    RepositoryObserve,
    TaskApprove,
    TaskCancel,
    HoldClear,
    SupervisorEventAck,
    SupervisorEventReconcile,
    TaskGraphWatch,
    Stop,
}

/// What a tool does.
#[derive(Debug, Clone, Copy, PartialEq, Eq, Structural)]
pub enum ToolOperation {
    /// Ask a query.
    Query(CoordinatorQuery),
    /// Start a selected Worker and open its pane.
    StartWorker,
    /// Write a text and admit it as an Attachment.
    CreateAttachment,
    CreateTask,
    SendMessage,
    CompleteTask,
    CaptureRepositoryObservation,
    ApproveTask,
    CancelTask,
    ClearWorktreeHold,
    AcknowledgeSupervisorEvents,
    ReconcileSupervisorEvent,
    WatchTaskGraph,
    StopWorker,
}

impl Tool {
    /// Public name.
    pub open spec fn name(self) -> Seq<char> {
        match self {
            Tool::List => "harness_list"@,
            Tool::Status => "harness_status"@,
            Tool::TaskGraph => "harness_task_graph"@,
            Tool::Inbox => "harness_inbox"@,
            Tool::SupervisorEvents => "harness_supervisor_events"@,
            Tool::Start => "harness_start"@,
            Tool::TaskCreate => "harness_task_create"@,
            Tool::Send => "harness_send"@,
            Tool::Request => "harness_request"@,
            Tool::Complete => "harness_complete"@,
            Tool::AttachmentCreate => "harness_attachment_create"@,
            Tool::RepositoryObserve => "harness_repository_observe"@,
            Tool::TaskApprove => "harness_task_approve"@,
            Tool::TaskCancel => "harness_task_cancel"@,
            Tool::HoldClear => "harness_hold_clear"@,
            Tool::SupervisorEventAck => "harness_supervisor_event_ack"@,
            Tool::SupervisorEventReconcile => "harness_supervisor_event_reconcile"@,
            Tool::TaskGraphWatch => "harness_task_graph_watch"@,
            Tool::Stop => "harness_stop"@,
        }
    }

    /// Public name.
    pub fn as_str(self) -> (r: &'static str)
        ensures
            r@ == self.name(),
    {
        match self {
            Tool::List => "harness_list",
            Tool::Status => "harness_status",
            Tool::TaskGraph => "harness_task_graph",
            Tool::Inbox => "harness_inbox",
            Tool::SupervisorEvents => "harness_supervisor_events",
            Tool::Start => "harness_start",
            Tool::TaskCreate => "harness_task_create",
            Tool::Send => "harness_send",
            Tool::Request => "harness_request",
            Tool::Complete => "harness_complete",
            Tool::AttachmentCreate => "harness_attachment_create",
            Tool::RepositoryObserve => "harness_repository_observe",
            Tool::TaskApprove => "harness_task_approve",
            Tool::TaskCancel => "harness_task_cancel",
            Tool::HoldClear => "harness_hold_clear",
            Tool::SupervisorEventAck => "harness_supervisor_event_ack",
            Tool::SupervisorEventReconcile => "harness_supervisor_event_reconcile",
            Tool::TaskGraphWatch => "harness_task_graph_watch",
            Tool::Stop => "harness_stop",
        }
    }

    /// What a Harness is told of the tool.
    pub fn description(self) -> (r: &'static str)
        ensures
            r@ == self.told(),
    {
        match self {
            Tool::List => "List durable Harnesses and live status.",
            Tool::Status => "List durable Tasks and lifecycle states.",
            Tool::TaskGraph => "Inspect Task dependencies, blockers, bound Result revisions, and Worker queue positions.",
            Tool::Inbox => "Read unread Messages for this Harness.",
            Tool::SupervisorEvents => "Inspect durable Supervisor event delivery and processing state.",
            Tool::Start => "Start one explicitly selected Worker by its durable ID.",
            Tool::TaskCreate => "Create a bounded Task for an explicit Worker.",
            Tool::Send => "Send a routed Reply, Correction, or Notification.",
            Tool::Request => "Send a blocking Worker Question to the Supervisor.",
            Tool::Complete => "Submit one Result candidate for the current native turn.",
            Tool::AttachmentCreate => "Create one immutable, Coordinator-owned text evidence Attachment and return its Attachment ID.",
            Tool::RepositoryObserve => "Capture trusted Git evidence and return its digest.",
            Tool::TaskApprove => "Approve the current Result against repository evidence.",
            Tool::TaskCancel => "Cancel a queued or active Task.",
            Tool::HoldClear => "Clear a digest-confirmed Worktree Hold without editing files.",
            Tool::SupervisorEventAck => "Acknowledge retry-safe durable Supervisor events as processed.",
            Tool::SupervisorEventReconcile => "Explicitly reconcile an Unknown native Supervisor injection.",
            Tool::TaskGraphWatch => "Register the explicit root Tasks whose review or terminal completion should wake the Supervisor.",
            Tool::Stop => "Stop one explicit Worker Host after settling active cancellation.",
        }
    }

    /// What a Harness is told of the tool.
    pub open spec fn told(self) -> Seq<char> {
        match self {
            Tool::List => "List durable Harnesses and live status."@,
            Tool::Status => "List durable Tasks and lifecycle states."@,
            Tool::TaskGraph => "Inspect Task dependencies, blockers, bound Result revisions, and Worker queue positions."@,
            Tool::Inbox => "Read unread Messages for this Harness."@,
            Tool::SupervisorEvents => "Inspect durable Supervisor event delivery and processing state."@,
            Tool::Start => "Start one explicitly selected Worker by its durable ID."@,
            Tool::TaskCreate => "Create a bounded Task for an explicit Worker."@,
            Tool::Send => "Send a routed Reply, Correction, or Notification."@,
            Tool::Request => "Send a blocking Worker Question to the Supervisor."@,
            Tool::Complete => "Submit one Result candidate for the current native turn."@,
            Tool::AttachmentCreate => "Create one immutable, Coordinator-owned text evidence Attachment and return its Attachment ID."@,
            Tool::RepositoryObserve => "Capture trusted Git evidence and return its digest."@,
            Tool::TaskApprove => "Approve the current Result against repository evidence."@,
            Tool::TaskCancel => "Cancel a queued or active Task."@,
            Tool::HoldClear => "Clear a digest-confirmed Worktree Hold without editing files."@,
            Tool::SupervisorEventAck => "Acknowledge retry-safe durable Supervisor events as processed."@,
            Tool::SupervisorEventReconcile => "Explicitly reconcile an Unknown native Supervisor injection."@,
            Tool::TaskGraphWatch => "Register the explicit root Tasks whose review or terminal completion should wake the Supervisor."@,
            Tool::Stop => "Stop one explicit Worker Host after settling active cancellation."@,
        }
    }

    /// The JSON schema of the arguments.
    pub open spec fn schema_text(self) -> Seq<char> {
        match self {
            Tool::List => "{\"additionalProperties\":false,\"type\":\"object\"}"@,
            Tool::Status => "{\"additionalProperties\":false,\"type\":\"object\"}"@,
            Tool::TaskGraph => "{\"additionalProperties\":false,\"type\":\"object\"}"@,
            Tool::Inbox => "{\"additionalProperties\":false,\"type\":\"object\"}"@,
            Tool::SupervisorEvents => "{\"additionalProperties\":false,\"type\":\"object\"}"@,
            Tool::Start => "{\"additionalProperties\":false,\"properties\":{\"worker_id\":{\"type\":\"string\"}},\"required\":[\"worker_id\"],\"type\":\"object\"}"@,
            Tool::TaskCreate => "{\"additionalProperties\":true,\"type\":\"object\"}"@,
            Tool::Send => "{\"additionalProperties\":true,\"type\":\"object\"}"@,
            Tool::Request => "{\"additionalProperties\":true,\"type\":\"object\"}"@,
            Tool::Complete => "{\"additionalProperties\":true,\"type\":\"object\"}"@,
            Tool::AttachmentCreate => "{\"additionalProperties\":false,\"properties\":{\"content\":{\"maxLength\":524288,\"minLength\":1,\"type\":\"string\"},\"media_type\":{\"maxLength\":255,\"minLength\":1,\"type\":\"string\"},\"original_name\":{\"maxLength\":255,\"minLength\":1,\"type\":\"string\"}},\"required\":[\"content\",\"media_type\",\"original_name\"],\"type\":\"object\"}"@,
            Tool::RepositoryObserve => "{\"additionalProperties\":false,\"properties\":{\"checkpoint\":{\"enum\":[\"before_dispatch\",\"result\",\"cancel\",\"failure\",\"approval\",\"hold_clear\"],\"type\":\"string\"},\"task_id\":{\"type\":\"string\"}},\"required\":[\"task_id\",\"checkpoint\"],\"type\":\"object\"}"@,
            Tool::TaskApprove => "{\"additionalProperties\":true,\"type\":\"object\"}"@,
            Tool::TaskCancel => "{\"additionalProperties\":true,\"type\":\"object\"}"@,
            Tool::HoldClear => "{\"additionalProperties\":true,\"type\":\"object\"}"@,
            Tool::SupervisorEventAck => "{\"additionalProperties\":false,\"properties\":{\"event_ids\":{\"items\":{\"format\":\"uuid\",\"type\":\"string\"},\"maxItems\":32,\"minItems\":1,\"type\":\"array\",\"uniqueItems\":true}},\"required\":[\"event_ids\"],\"type\":\"object\"}"@,
            Tool::SupervisorEventReconcile => "{\"additionalProperties\":false,\"properties\":{\"audit_note\":{\"maxLength\":4096,\"minLength\":1,\"type\":\"string\"},\"event_id\":{\"format\":\"uuid\",\"type\":\"string\"},\"resolution\":{\"enum\":[\"retry\",\"processed\",\"cancel\"],\"type\":\"string\"}},\"required\":[\"event_id\",\"resolution\",\"audit_note\"],\"type\":\"object\"}"@,
            Tool::TaskGraphWatch => "{\"additionalProperties\":false,\"properties\":{\"request_key\":{\"type\":[\"string\",\"null\"]},\"root_task_ids\":{\"items\":{\"format\":\"uuid\",\"type\":\"string\"},\"maxItems\":32,\"minItems\":1,\"type\":\"array\",\"uniqueItems\":true}},\"required\":[\"root_task_ids\"],\"type\":\"object\"}"@,
            Tool::Stop => "{\"additionalProperties\":false,\"properties\":{\"worker_id\":{\"type\":\"string\"}},\"required\":[\"worker_id\"],\"type\":\"object\"}"@,
        }
    }

    /// The JSON schema of the arguments.
    pub fn schema(self) -> (r: &'static str)
        ensures
            r@ == self.schema_text(),
    {
        match self {
            Tool::List => "{\"additionalProperties\":false,\"type\":\"object\"}",
            Tool::Status => "{\"additionalProperties\":false,\"type\":\"object\"}",
            Tool::TaskGraph => "{\"additionalProperties\":false,\"type\":\"object\"}",
            Tool::Inbox => "{\"additionalProperties\":false,\"type\":\"object\"}",
            Tool::SupervisorEvents => "{\"additionalProperties\":false,\"type\":\"object\"}",
            Tool::Start => "{\"additionalProperties\":false,\"properties\":{\"worker_id\":{\"type\":\"string\"}},\"required\":[\"worker_id\"],\"type\":\"object\"}",
            Tool::TaskCreate => "{\"additionalProperties\":true,\"type\":\"object\"}",
            Tool::Send => "{\"additionalProperties\":true,\"type\":\"object\"}",
            Tool::Request => "{\"additionalProperties\":true,\"type\":\"object\"}",
            Tool::Complete => "{\"additionalProperties\":true,\"type\":\"object\"}",
            Tool::AttachmentCreate => "{\"additionalProperties\":false,\"properties\":{\"content\":{\"maxLength\":524288,\"minLength\":1,\"type\":\"string\"},\"media_type\":{\"maxLength\":255,\"minLength\":1,\"type\":\"string\"},\"original_name\":{\"maxLength\":255,\"minLength\":1,\"type\":\"string\"}},\"required\":[\"content\",\"media_type\",\"original_name\"],\"type\":\"object\"}",
            Tool::RepositoryObserve => "{\"additionalProperties\":false,\"properties\":{\"checkpoint\":{\"enum\":[\"before_dispatch\",\"result\",\"cancel\",\"failure\",\"approval\",\"hold_clear\"],\"type\":\"string\"},\"task_id\":{\"type\":\"string\"}},\"required\":[\"task_id\",\"checkpoint\"],\"type\":\"object\"}",
            Tool::TaskApprove => "{\"additionalProperties\":true,\"type\":\"object\"}",
            Tool::TaskCancel => "{\"additionalProperties\":true,\"type\":\"object\"}",
            Tool::HoldClear => "{\"additionalProperties\":true,\"type\":\"object\"}",
            Tool::SupervisorEventAck => "{\"additionalProperties\":false,\"properties\":{\"event_ids\":{\"items\":{\"format\":\"uuid\",\"type\":\"string\"},\"maxItems\":32,\"minItems\":1,\"type\":\"array\",\"uniqueItems\":true}},\"required\":[\"event_ids\"],\"type\":\"object\"}",
            Tool::SupervisorEventReconcile => "{\"additionalProperties\":false,\"properties\":{\"audit_note\":{\"maxLength\":4096,\"minLength\":1,\"type\":\"string\"},\"event_id\":{\"format\":\"uuid\",\"type\":\"string\"},\"resolution\":{\"enum\":[\"retry\",\"processed\",\"cancel\"],\"type\":\"string\"}},\"required\":[\"event_id\",\"resolution\",\"audit_note\"],\"type\":\"object\"}",
            Tool::TaskGraphWatch => "{\"additionalProperties\":false,\"properties\":{\"request_key\":{\"type\":[\"string\",\"null\"]},\"root_task_ids\":{\"items\":{\"format\":\"uuid\",\"type\":\"string\"},\"maxItems\":32,\"minItems\":1,\"type\":\"array\",\"uniqueItems\":true}},\"required\":[\"root_task_ids\"],\"type\":\"object\"}",
            Tool::Stop => "{\"additionalProperties\":false,\"properties\":{\"worker_id\":{\"type\":\"string\"}},\"required\":[\"worker_id\"],\"type\":\"object\"}",
        }
    }

    /// What the tool does.
    pub open spec fn does(self) -> ToolOperation {
        match self {
            Tool::List => ToolOperation::Query(CoordinatorQuery::HarnessStatus),
            Tool::Status => ToolOperation::Query(CoordinatorQuery::ListTasks),
            Tool::TaskGraph => ToolOperation::Query(CoordinatorQuery::TaskGraph),
            Tool::Inbox => ToolOperation::Query(CoordinatorQuery::Inbox),
            Tool::SupervisorEvents => ToolOperation::Query(CoordinatorQuery::SupervisorEvents),
            Tool::Start => ToolOperation::StartWorker,
            Tool::TaskCreate => ToolOperation::CreateTask,
            Tool::Send => ToolOperation::SendMessage,
            Tool::Request => ToolOperation::SendMessage,
            Tool::Complete => ToolOperation::CompleteTask,
            Tool::AttachmentCreate => ToolOperation::CreateAttachment,
            Tool::RepositoryObserve => ToolOperation::CaptureRepositoryObservation,
            Tool::TaskApprove => ToolOperation::ApproveTask,
            Tool::TaskCancel => ToolOperation::CancelTask,
            Tool::HoldClear => ToolOperation::ClearWorktreeHold,
            Tool::SupervisorEventAck => ToolOperation::AcknowledgeSupervisorEvents,
            Tool::SupervisorEventReconcile => ToolOperation::ReconcileSupervisorEvent,
            Tool::TaskGraphWatch => ToolOperation::WatchTaskGraph,
            Tool::Stop => ToolOperation::StopWorker,
        }
    }

    /// What the tool does.
    pub fn operation(self) -> (r: ToolOperation)
        ensures
            r == self.does(),
    {
        match self {
            Tool::List => ToolOperation::Query(CoordinatorQuery::HarnessStatus),
            Tool::Status => ToolOperation::Query(CoordinatorQuery::ListTasks),
            Tool::TaskGraph => ToolOperation::Query(CoordinatorQuery::TaskGraph),
            Tool::Inbox => ToolOperation::Query(CoordinatorQuery::Inbox),
            Tool::SupervisorEvents => ToolOperation::Query(CoordinatorQuery::SupervisorEvents),
            Tool::Start => ToolOperation::StartWorker,
            Tool::TaskCreate => ToolOperation::CreateTask,
            Tool::Send => ToolOperation::SendMessage,
            Tool::Request => ToolOperation::SendMessage,
            Tool::Complete => ToolOperation::CompleteTask,
            Tool::AttachmentCreate => ToolOperation::CreateAttachment,
            Tool::RepositoryObserve => ToolOperation::CaptureRepositoryObservation,
            Tool::TaskApprove => ToolOperation::ApproveTask,
            Tool::TaskCancel => ToolOperation::CancelTask,
            Tool::HoldClear => ToolOperation::ClearWorktreeHold,
            Tool::SupervisorEventAck => ToolOperation::AcknowledgeSupervisorEvents,
            Tool::SupervisorEventReconcile => ToolOperation::ReconcileSupervisorEvent,
            Tool::TaskGraphWatch => ToolOperation::WatchTaskGraph,
            Tool::Stop => ToolOperation::StopWorker,
        }
    }

    /// What is said of arguments that the tool cannot read; queries read none.
    pub open spec fn complaint(self) -> Option<Seq<char>> {
        match self {
            Tool::List => None,
            Tool::Status => None,
            Tool::TaskGraph => None,
            Tool::Inbox => None,
            Tool::SupervisorEvents => None,
            Tool::Start => Some("invalid Worker start arguments"@),
            Tool::TaskCreate => Some("invalid TaskSubmissionV1"@),
            Tool::Send => Some("invalid MessageSubmissionV1"@),
            Tool::Request => Some("invalid MessageSubmissionV1"@),
            Tool::Complete => Some("invalid completion arguments"@),
            Tool::AttachmentCreate => Some("invalid inline Attachment arguments"@),
            Tool::RepositoryObserve => Some("invalid repository observation arguments"@),
            Tool::TaskApprove => Some("invalid Approval arguments"@),
            Tool::TaskCancel => Some("invalid cancellation arguments"@),
            Tool::HoldClear => Some("invalid Hold clearance arguments"@),
            Tool::SupervisorEventAck => Some("invalid Supervisor event acknowledgement arguments"@),
            Tool::SupervisorEventReconcile => Some("invalid Supervisor event reconciliation arguments"@),
            Tool::TaskGraphWatch => Some("invalid Task graph watch arguments"@),
            Tool::Stop => Some("invalid Worker stop arguments"@),
        }
    }

    /// What is said of arguments that the tool cannot read; queries read none.
    pub fn argument_refusal(self) -> (r: Option<&'static str>)
        ensures
            match (r, self.complaint()) {
                (Some(text), Some(complaint)) => text@ == complaint,
                (None, None) => true,
                _ => false,
            },
    {
        match self {
            Tool::List => None,
            Tool::Status => None,
            Tool::TaskGraph => None,
            Tool::Inbox => None,
            Tool::SupervisorEvents => None,
            Tool::Start => Some("invalid Worker start arguments"),
            Tool::TaskCreate => Some("invalid TaskSubmissionV1"),
            Tool::Send => Some("invalid MessageSubmissionV1"),
            Tool::Request => Some("invalid MessageSubmissionV1"),
            Tool::Complete => Some("invalid completion arguments"),
            Tool::AttachmentCreate => Some("invalid inline Attachment arguments"),
            Tool::RepositoryObserve => Some("invalid repository observation arguments"),
            Tool::TaskApprove => Some("invalid Approval arguments"),
            Tool::TaskCancel => Some("invalid cancellation arguments"),
            Tool::HoldClear => Some("invalid Hold clearance arguments"),
            Tool::SupervisorEventAck => Some("invalid Supervisor event acknowledgement arguments"),
            Tool::SupervisorEventReconcile => Some("invalid Supervisor event reconciliation arguments"),
            Tool::TaskGraphWatch => Some("invalid Task graph watch arguments"),
            Tool::Stop => Some("invalid Worker stop arguments"),
        }
    }

    /// The tools in the order in which they are listed.
    pub open spec fn listed(i: usize) -> Option<Tool> {
        match i {
            0 => Some(Tool::List),
            1 => Some(Tool::Status),
            2 => Some(Tool::TaskGraph),
            3 => Some(Tool::Inbox),
            4 => Some(Tool::SupervisorEvents),
            5 => Some(Tool::Start),
            6 => Some(Tool::TaskCreate),
            7 => Some(Tool::Send),
            8 => Some(Tool::Request),
            9 => Some(Tool::Complete),
            10 => Some(Tool::AttachmentCreate),
            11 => Some(Tool::RepositoryObserve),
            12 => Some(Tool::TaskApprove),
            13 => Some(Tool::TaskCancel),
            14 => Some(Tool::HoldClear),
            15 => Some(Tool::SupervisorEventAck),
            16 => Some(Tool::SupervisorEventReconcile),
            17 => Some(Tool::TaskGraphWatch),
            18 => Some(Tool::Stop),
            _ => None,
        }
    }

    /// The position of the tool in the list.
    pub open spec fn position(self) -> usize {
        match self {
            Tool::List => 0,
            Tool::Status => 1,
            Tool::TaskGraph => 2,
            Tool::Inbox => 3,
            Tool::SupervisorEvents => 4,
            Tool::Start => 5,
            Tool::TaskCreate => 6,
            Tool::Send => 7,
            Tool::Request => 8,
            Tool::Complete => 9,
            Tool::AttachmentCreate => 10,
            Tool::RepositoryObserve => 11,
            Tool::TaskApprove => 12,
            Tool::TaskCancel => 13,
            Tool::HoldClear => 14,
            Tool::SupervisorEventAck => 15,
            Tool::SupervisorEventReconcile => 16,
            Tool::TaskGraphWatch => 17,
            Tool::Stop => 18,
        }
    }

    /// The tool at a position of the list.
    pub fn at(i: usize) -> (r: Option<Tool>)
        ensures
            r == Tool::listed(i),
            r is Some <==> i < 19,
    {
        match i {
            0 => Some(Tool::List),
            1 => Some(Tool::Status),
            2 => Some(Tool::TaskGraph),
            3 => Some(Tool::Inbox),
            4 => Some(Tool::SupervisorEvents),
            5 => Some(Tool::Start),
            6 => Some(Tool::TaskCreate),
            7 => Some(Tool::Send),
            8 => Some(Tool::Request),
            9 => Some(Tool::Complete),
            10 => Some(Tool::AttachmentCreate),
            11 => Some(Tool::RepositoryObserve),
            12 => Some(Tool::TaskApprove),
            13 => Some(Tool::TaskCancel),
            14 => Some(Tool::HoldClear),
            15 => Some(Tool::SupervisorEventAck),
            16 => Some(Tool::SupervisorEventReconcile),
            17 => Some(Tool::TaskGraphWatch),
            18 => Some(Tool::Stop),
            _ => None,
        }
    }
}

/// The number of tools.
pub const TOOLS: usize = 19;

/// No two tools have one name.
pub proof fn tool_names_differ(a: Tool, b: Tool)
    ensures
        a.name() == b.name() <==> a == b,
{
    reveal_strlit("harness_list");
    reveal_strlit("harness_status");
    reveal_strlit("harness_task_graph");
    reveal_strlit("harness_inbox");
    reveal_strlit("harness_supervisor_events");
    reveal_strlit("harness_start");
    reveal_strlit("harness_task_create");
    reveal_strlit("harness_send");
    reveal_strlit("harness_request");
    reveal_strlit("harness_complete");
    reveal_strlit("harness_attachment_create");
    reveal_strlit("harness_repository_observe");
    reveal_strlit("harness_task_approve");
    reveal_strlit("harness_task_cancel");
    reveal_strlit("harness_hold_clear");
    reveal_strlit("harness_supervisor_event_ack");
    reveal_strlit("harness_supervisor_event_reconcile");
    reveal_strlit("harness_task_graph_watch");
    reveal_strlit("harness_stop");
    assert("harness_list"@.len() == 12);
    assert("harness_status"@.len() == 14);
    assert("harness_task_graph"@.len() == 18);
    assert("harness_inbox"@.len() == 13);
    assert("harness_supervisor_events"@.len() == 25);
    assert("harness_start"@.len() == 13);
    assert("harness_task_create"@.len() == 19);
    assert("harness_send"@.len() == 12);
    assert("harness_request"@.len() == 15);
    assert("harness_complete"@.len() == 16);
    assert("harness_attachment_create"@.len() == 25);
    assert("harness_repository_observe"@.len() == 26);
    assert("harness_task_approve"@.len() == 20);
    assert("harness_task_cancel"@.len() == 19);
    assert("harness_hold_clear"@.len() == 18);
    assert("harness_supervisor_event_ack"@.len() == 28);
    assert("harness_supervisor_event_reconcile"@.len() == 34);
    assert("harness_task_graph_watch"@.len() == 24);
    assert("harness_stop"@.len() == 12);
    if a != b && a.name() == b.name() {
        assert("harness_list"@[8] == 'l' && "harness_send"@[8] == 's');
        assert("harness_list"@[8] == 'l' && "harness_stop"@[8] == 's');
        assert("harness_send"@[9] == 'e' && "harness_stop"@[9] == 't');
        assert("harness_task_graph"@[8] == 't' && "harness_hold_clear"@[8] == 'h');
        assert("harness_inbox"@[8] == 'i' && "harness_start"@[8] == 's');
        assert("harness_supervisor_events"@[8] == 's' && "harness_attachment_create"@[8] == 'a');
        assert("harness_task_create"@[14] == 'r' && "harness_task_cancel"@[14] == 'a');
    }
}

/// Every tool stands in the list, at its position.
pub proof fn tools_are_listed(tool: Tool)
    ensures
        Tool::listed(tool.position()) == Some(tool),
        0 <= tool.position() < TOOLS,
{
}

/// The tool with a name.
pub open spec fn is_tool(name: Seq<char>, tool: Option<Tool>) -> bool {
    match tool {
        Some(t) => t.name() == name,
        None => forall|t: Tool| (#[trigger] t.name()) != name,
    }
}

/// Finds the tool with a name.
pub fn find_tool(name: &str) -> (r: Option<Tool>)
    ensures
        is_tool(name@, r),
{
    let mut i: usize = 0;
    while i < TOOLS
        invariant
            i <= TOOLS,
            forall|t: Tool| (#[trigger] t.position()) < i ==> t.name() != name@,
        decreases TOOLS - i,
    {
        match Tool::at(i) {
            Some(tool) => {
                if same_text(tool.as_str(), name) {
                    return Some(tool);
                }
                proof {
                    assert forall|t: Tool| (#[trigger] t.position()) < i + 1 implies t.name()
                        != name@ by {
                        if t.position() == i {
                            tools_are_listed(t);
                            assert(t == tool);
                        }
                    }
                }
            },
            None => {},
        }
        i += 1;
    }
    proof {
        assert forall|t: Tool| (#[trigger] t.name()) != name@ by {
            tools_are_listed(t);
            assert(t.position() < i);
        }
    }
    None
}

/// The tools that a tier is offered: the Supervisor all of them, a Worker those that it cannot
/// do without.
pub open spec fn offered_to(tier: HarnessTier) -> spec_fn(Tool) -> bool {
    |t: Tool| tier == HarnessTier::Supervisor || required_tools(HarnessTier::Worker).contains(t.name())
}

/// The first `n` tools of the list that a tier is offered.
pub open spec fn offered(tier: HarnessTier, n: nat) -> Seq<Tool>
    decreases n,
{
    if n == 0 {
        Seq::empty()
    } else {
        let before = offered(tier, (n - 1) as nat);
        match Tool::listed((n - 1) as usize) {
            Some(t) if offered_to(tier)(t) => before.push(t),
            _ => before,
        }
    }
}

fn is_required(name: &str) -> (r: bool)
    ensures
        r == required_tools(HarnessTier::Worker).contains(name@),
{
    let mut i: usize = 0;
    while i < 7
        invariant
            i <= 7,
            forall|j: int|
                0 <= j < i ==> #[trigger] required_tools(HarnessTier::Worker)[j] != name@,
        decreases 7 - i,
    {
        match required_tool(HarnessTier::Worker, i) {
            Some(required) => {
                if same_text(required, name) {
                    assert(required_tools(HarnessTier::Worker)[i as int] == name@);
                    return true;
                }
            },
            None => {},
        }
        i += 1;
    }
    false
}

/// Lists the tools that a tier is offered.
pub fn host_tools(tier: HarnessTier) -> (r: Vec<Tool>)
    ensures
        r@ == offered(tier, TOOLS as nat),
{
    let mut r: Vec<Tool> = Vec::new();
    let mut i: usize = 0;
    while i < TOOLS
        invariant
            i <= TOOLS,
            r@ == offered(tier, i as nat),
        decreases TOOLS - i,
    {
        match Tool::at(i) {
            Some(tool) => {
                let wanted = match tier {
                    HarnessTier::Supervisor => true,
                    HarnessTier::Worker => is_required(tool.as_str()),
                };
                if wanted {
                    r.push(tool);
                }
            },
            None => {},
        }
        i += 1;
    }
    r
}

/// The declaration of a tool for a provider's own tool bridge.
#[derive(Debug, Clone, Copy)]
pub struct HostTool {
    pub name: &'static str,
    pub label: &'static str,
    pub description: &'static str,
    /// The JSON schema of the arguments.
    pub parameters: &'static str,
}

/// What a provider is told of a tool: its label is its name.
pub open spec fn declares(d: HostTool, tool: Tool) -> bool {
    &&& d.name@ == tool.name()
    &&& d.label@ == tool.name()
    &&& d.description@ == tool.told()
    &&& d.parameters@ == tool.schema_text()
}

/// Declares the tools that a tier is offered to a provider's own tool bridge, in their order.
pub fn omp_host_tools(tier: HarnessTier) -> (r: Vec<HostTool>)
    ensures
        r.len() == offered(tier, TOOLS as nat).len(),
        forall|i: int|
            0 <= i < r.len() ==> declares(#[trigger] r@[i], offered(tier, TOOLS as nat)[i]),
        forall|i: int| 0 <= i < r.len() ==> (#[trigger] r@[i]).label@ == r@[i].name@,
{
    let tools = host_tools(tier);
    let mut r: Vec<HostTool> = Vec::new();
    let mut i: usize = 0;
    while i < tools.len()
        invariant
            i <= tools.len(),
            r.len() == i,
            tools@ == offered(tier, TOOLS as nat),
            forall|j: int| 0 <= j < i ==> declares(#[trigger] r@[j], tools@[j]),
        decreases tools.len() - i,
    {
        let tool = tools[i];
        r.push(
            HostTool {
                name: tool.as_str(),
                label: tool.as_str(),
                description: tool.description(),
                parameters: tool.schema(),
            },
        );
        i += 1;
    }
    r
}

/// Every tool that a tier cannot do without is in the list, and a Worker can use its own: none of
/// them asks what only the Supervisor may know.
pub proof fn required_tools_are_listed(tier: HarnessTier, i: int)
    requires
        0 <= i < required_tools(tier).len(),
    ensures
        exists|t: Tool|
            #[trigger] t.name() == required_tools(tier)[i] && offered_to(tier)(t) && match t.does() {
                ToolOperation::Query(q) => tier == HarnessTier::Worker ==> !for_supervisor(q),
                _ => true,
            },
{
    let t = match tier {
        HarnessTier::Worker => if i == 0 {
            Tool::List
        } else if i == 1 {
            Tool::Status
        } else if i == 2 {
            Tool::Inbox
        } else if i == 3 {
            Tool::Request
        } else if i == 4 {
            Tool::Send
        } else if i == 5 {
            Tool::Complete
        } else {
            Tool::AttachmentCreate
        },
        HarnessTier::Supervisor => if i == 0 {
            Tool::Status
        } else if i == 1 {
            Tool::Inbox
        } else if i == 2 {
            Tool::SupervisorEvents
        } else if i == 3 {
            Tool::Start
        } else if i == 4 {
            Tool::TaskCreate
        } else if i == 5 {
            Tool::TaskApprove
        } else {
            Tool::SupervisorEventAck
        },
    };
    assert(t.name() == required_tools(tier)[i]);
    assert(required_tools(tier).contains(t.name()));
}

} // verus!
