//! Decisions of the process-backed OMP and Codex Adapters: what is asked of a provider, and what
//! its answers mean.
use vstd::prelude::*;

use crate::adapter::{
    operation, provider_name, provider_text, AdapterCapabilities, AdapterError, AdapterEvent,
    AdapterEventView, AdapterFault, AdapterLifecycle, AdapterSnapshot, NativeTurnStatus,
    ResolvedAttachment, ResolvedDelivery,
};
use crate::contract::{HarnessKind, NativeSessionHealth};
use crate::json::{
    boolean, field, find_text, get_member, get_text, json_form, member, number, number_member,
    render, shown, text_in, text_member, text_within, tree, true_member, JsonTree,
};
use crate::paths::{lists_view, pieces, split_chars};
use crate::text::{
    chars_of, contains_text, copy_text, has_prefix, includes, join, join3, optional_text,
    same_optional, same_text, starts_with, text_of,
};

verus! {

// ---------------------------------------------------------------------------------------------
// What providers can do
// ---------------------------------------------------------------------------------------------

/// What a provider of a kind can do: only OMP queues input while a turn is active.
pub fn capabilities(kind: HarnessKind) -> (r: AdapterCapabilities)
    ensures
        r == (AdapterCapabilities {
            persistent_session: true,
            active_turn_steering: true,
            active_turn_follow_up: kind == HarnessKind::Omp,
            cooperative_cancellation: true,
        }),
{
    AdapterCapabilities {
        persistent_session: true,
        active_turn_steering: true,
        active_turn_follow_up: kind == HarnessKind::Omp,
        cooperative_cancellation: true,
    }
}

/// The names under which a provider knows the tools that complete a Task.
#[derive(Debug, Clone, Copy)]
pub struct WorkerCompletionTools {
    pub attachment_create: &'static str,
    pub complete: &'static str,
}

/// The completion tools of a provider of a kind: Codex knows them as tools of a server.
pub fn completion_tools(kind: HarnessKind) -> (r: WorkerCompletionTools)
    ensures
        match kind {
            HarnessKind::Omp => r.attachment_create@ == "harness_attachment_create"@
                && r.complete@ == "harness_complete"@,
            HarnessKind::Codex => r.attachment_create@
                == "tools.mcp__herdr__harness_attachment_create"@ && r.complete@
                == "tools.mcp__herdr__harness_complete"@,
        },
{
    match kind {
        HarnessKind::Omp => WorkerCompletionTools {
            attachment_create: "harness_attachment_create",
            complete: "harness_complete",
        },
        HarnessKind::Codex => WorkerCompletionTools {
            attachment_create: "tools.mcp__herdr__harness_attachment_create",
            complete: "tools.mcp__herdr__harness_complete",
        },
    }
}

// ---------------------------------------------------------------------------------------------
// Models
// ---------------------------------------------------------------------------------------------

/// The alias that a model selection stands for: without its provider before the last slash and
/// without the options behind the first colon after it.
pub open spec fn alias(model: Seq<char>) -> Seq<char> {
    pieces(pieces(model, '/', None).last(), ':', None)[0]
}

/// The alias that a model selection stands for.
pub fn selected_omp_alias(model: &str) -> (r: String)
    ensures
        r@ == alias(model@),
{
    let chars = chars_of(model);
    let by_provider = split_chars(&chars, '/', None);
    let last = by_provider.len() - 1;
    assert(lists_view(by_provider@).last() == by_provider@[last as int]@);
    let by_option = split_chars(&by_provider[last], ':', None);
    assert(lists_view(by_option@)[0] == by_option@[0]@);
    text_of(by_option[0].as_slice())
}

/// The model on record: a selection that the provider confirms, by its name or by its alias, stays;
/// otherwise what the provider reports counts.
pub open spec fn compatible_model(selected: Option<Seq<char>>, observed: Option<Seq<char>>) -> Option<
    Seq<char>,
> {
    match (selected, observed) {
        (Some(s), Some(o)) => if s == o || alias(s) == o {
            Some(s)
        } else {
            Some(o)
        },
        (None, Some(o)) => Some(o),
        (Some(s), None) => Some(s),
        (None, None) => None,
    }
}

/// View of an optional text.
pub open spec fn text_view(text: Option<&str>) -> Option<Seq<char>> {
    match text {
        Some(s) => Some(s@),
        None => None,
    }
}

/// The model on record.
pub fn compatible_omp_model(selected: Option<&str>, observed: Option<String>) -> (r: Option<String>)
    ensures
        optional_text(r) == compatible_model(text_view(selected), optional_text(observed)),
{
    match (selected, observed) {
        (Some(s), Some(o)) => {
            let short = selected_omp_alias(s);
            if same_text(s, o.as_str()) || same_text(short.as_str(), o.as_str()) {
                Some(s.to_owned())
            } else {
                Some(o)
            }
        },
        (None, Some(o)) => Some(o),
        (Some(s), None) => Some(s.to_owned()),
        (None, None) => None,
    }
}

/// The model that a provider reports: a text, or an object with an identity.
pub open spec fn reported_model(t: JsonTree) -> Option<Seq<char>> {
    match member(t, "model"@) {
        None => None,
        Some(found) => match text_in(found) {
            Some(s) => Some(s),
            None => match text_member(found, "id"@) {
                Some(s) => Some(s),
                None => text_member(found, "modelId"@),
            },
        },
    }
}

/// Reads the model that a provider reports.
pub fn model(value: &serde_json::Value) -> (r: Option<String>)
    ensures
        shown(r) == reported_model(tree(*value)),
{
    match get_member(value, "model") {
        None => None,
        Some(found) => match get_text(found) {
            Some(s) => Some(s),
            None => match field(found, "id") {
                Some(s) => Some(s),
                None => field(found, "modelId"),
            },
        },
    }
}

// ---------------------------------------------------------------------------------------------
// Requests
// ---------------------------------------------------------------------------------------------

/// The lower-case form of an ASCII letter; other characters stay.
pub open spec fn lower(c: char) -> char {
    if 'A' <= c <= 'Z' {
        (c as u32 + 32) as char
    } else {
        c
    }
}

pub open spec fn lowered(s: Seq<char>) -> Seq<char> {
    s.map_values(|c: char| lower(c))
}

fn lower_text(s: &str) -> (r: String)
    ensures
        r@ == lowered(s@),
{
    let chars = chars_of(s);
    let mut r = String::new();
    let mut i: usize = 0;
    while i < chars.len()
        invariant
            i <= chars.len(),
            chars@ == s@,
            r@ == lowered(s@.take(i as int)),
        decreases chars.len() - i,
    {
        let c = chars[i];
        let x: char = if 'A' <= c && c <= 'Z' {
            ((c as u8) + 32) as char
        } else {
            c
        };
        r.push(x);
        i += 1;
        assert(r@ =~= lowered(s@.take(i as int)));
    }
    assert(s@.take(i as int) =~= s@);
    r
}

/// A diagnostic by which a provider says that it does not know a method.
pub open spec fn method_unknown(message: Seq<char>) -> bool {
    contains_text(message, "\"code\":-32601"@) || contains_text(message, "\"code\": -32601"@)
        || contains_text(lowered(message), "method not found"@)
}

/// Whether a provider says that it does not know a method.
pub fn is_method_not_found(message: &str) -> (r: bool)
    ensures
        r == method_unknown(message@),
{
    let small = lower_text(message);
    includes(message, "\"code\":-32601") || includes(message, "\"code\": -32601") || includes(
        small.as_str(),
        "method not found",
    )
}

/// How a compatibility request ends: a method that the provider does not know is no failure, and
/// any other failed request leaves no delivery in doubt.
pub open spec fn tolerated(fault: AdapterFault) -> Option<AdapterFault> {
    match fault {
        AdapterFault::DeliveryAmbiguous { kind, message } => if method_unknown(message) {
            None
        } else {
            Some(AdapterFault::Operation { kind, message })
        },
        other => Some(other),
    }
}

/// Settles a failed compatibility request.
pub fn tolerate(error: AdapterError) -> (r: Option<AdapterError>)
    ensures
        match r {
            Some(e) => tolerated(error@) == Some(e@),
            None => tolerated(error@) is None,
        },
{
    match error {
        AdapterError::DeliveryAmbiguous { kind, message } => {
            if is_method_not_found(message.as_str()) {
                None
            } else {
                Some(operation(kind, message))
            }
        },
        other => Some(other),
    }
}

/// The text of a delivery: its attachments are listed below it.
pub open spec fn attachment_lines(list: Seq<ResolvedAttachment>, n: nat) -> Seq<char>
    decreases n,
{
    if n == 0 {
        Seq::empty()
    } else {
        attachment_lines(list, (n - 1) as nat) + "- "@ + list[n - 1].path@ + " ("@ + list[n
            - 1].media_type@ + ")\n"@
    }
}

pub open spec fn delivery_form(delivery: ResolvedDelivery) -> Seq<char> {
    if delivery.attachments@.len() == 0 {
        delivery.text@
    } else {
        delivery.text@ + "\n\nImmutable attachments:\n"@ + attachment_lines(
            delivery.attachments@,
            delivery.attachments@.len(),
        )
    }
}

/// Writes the text of a delivery.
pub fn delivery_text(delivery: &ResolvedDelivery) -> (r: String)
    ensures
        r@ == delivery_form(*delivery),
{
    let mut text = delivery.text.as_str().to_owned();
    if delivery.attachments.len() == 0 {
        return text;
    }
    text.append("\n\nImmutable attachments:\n");
    let ghost head = text@;
    let mut i: usize = 0;
    assert(text@ =~= head + attachment_lines(delivery.attachments@, 0));
    while i < delivery.attachments.len()
        invariant
            i <= delivery.attachments.len(),
            text@ == head + attachment_lines(delivery.attachments@, i as nat),
        decreases delivery.attachments.len() - i,
    {
        let a = &delivery.attachments[i];
        text.append("- ");
        text.append(a.path.as_str());
        text.append(" (");
        text.append(a.media_type.as_str());
        text.append(")\n");
        i += 1;
        assert(text@ =~= head + attachment_lines(delivery.attachments@, i as nat));
    }
    text
}

/// One item of the input of a Codex turn.
#[derive(Debug)]
#[allow(inconsistent_fields)]
pub enum CodexInput {
    Text { text: String },
    LocalImage { path: String },
}

/// What a [`CodexInput`] is.
#[allow(inconsistent_fields)]
pub enum CodexInputView {
    Text { text: Seq<char> },
    LocalImage { path: Seq<char> },
}

impl View for CodexInput {
    type V = CodexInputView;

    open spec fn view(&self) -> CodexInputView {
        match self {
            CodexInput::Text { text } => CodexInputView::Text { text: text@ },
            CodexInput::LocalImage { path } => CodexInputView::LocalImage { path: path@ },
        }
    }
}

/// The images among the first `n` attachments.
pub open spec fn images(list: Seq<ResolvedAttachment>, n: nat) -> Seq<CodexInputView>
    decreases n,
{
    if n == 0 {
        Seq::empty()
    } else if has_prefix(list[n - 1].media_type@, "image/"@) {
        images(list, (n - 1) as nat).push(CodexInputView::LocalImage { path: list[n - 1].path@ })
    } else {
        images(list, (n - 1) as nat)
    }
}

/// The input of a Codex turn: the text, then the images among the attachments.
pub open spec fn codex_input_form(delivery: ResolvedDelivery) -> Seq<CodexInputView> {
    seq![CodexInputView::Text { text: delivery_form(delivery) }] + images(
        delivery.attachments@,
        delivery.attachments@.len(),
    )
}

pub open spec fn inputs(v: Seq<CodexInput>) -> Seq<CodexInputView> {
    Seq::new(v.len(), |i: int| v[i]@)
}

/// Makes the input of a Codex turn.
pub fn codex_input(delivery: &ResolvedDelivery) -> (r: Vec<CodexInput>)
    ensures
        inputs(r@) == codex_input_form(*delivery),
{
    let mut r: Vec<CodexInput> = Vec::new();
    r.push(CodexInput::Text { text: delivery_text(delivery) });
    let ghost head = seq![CodexInputView::Text { text: delivery_form(*delivery) }];
    let mut i: usize = 0;
    assert(inputs(r@) =~= head + images(delivery.attachments@, 0));
    while i < delivery.attachments.len()
        invariant
            i <= delivery.attachments.len(),
            inputs(r@) == head + images(delivery.attachments@, i as nat),
        decreases delivery.attachments.len() - i,
    {
        let a = &delivery.attachments[i];
        let ghost before = inputs(r@);
        if starts_with(a.media_type.as_str(), "image/") {
            r.push(CodexInput::LocalImage { path: a.path.as_str().to_owned() });
            assert(inputs(r@) =~= before.push(CodexInputView::LocalImage { path: a.path@ }));
        }
        i += 1;
        assert(inputs(r@) =~= head + images(delivery.attachments@, i as nat));
    }
    r
}

// ---------------------------------------------------------------------------------------------
// Provider state
// ---------------------------------------------------------------------------------------------

/// What is known of a running provider.
#[derive(Debug)]
pub struct ProviderState {
    pub lifecycle: AdapterLifecycle,
    pub session_id: Option<String>,
    pub thread_id: Option<String>,
    pub active_turn_id: Option<String>,
    pub queued_input_count: Option<u32>,
    pub model: Option<String>,
    pub native_health: NativeSessionHealth,
    pub context_tokens: Option<u64>,
    pub context_window: Option<u64>,
    pub compaction_count: Option<u32>,
}

/// What a [`ProviderState`] says.
pub struct ProviderView {
    pub lifecycle: AdapterLifecycle,
    pub session_id: Option<Seq<char>>,
    pub thread_id: Option<Seq<char>>,
    pub active_turn_id: Option<Seq<char>>,
    pub queued_input_count: Option<u32>,
    pub model: Option<Seq<char>>,
    pub native_health: NativeSessionHealth,
    pub context_tokens: Option<u64>,
    pub context_window: Option<u64>,
    pub compaction_count: Option<u32>,
}

impl View for ProviderState {
    type V = ProviderView;

    open spec fn view(&self) -> ProviderView {
        ProviderView {
            lifecycle: self.lifecycle,
            session_id: optional_text(self.session_id),
            thread_id: optional_text(self.thread_id),
            active_turn_id: optional_text(self.active_turn_id),
            queued_input_count: self.queued_input_count,
            model: optional_text(self.model),
            native_health: self.native_health,
            context_tokens: self.context_tokens,
            context_window: self.context_window,
            compaction_count: self.compaction_count,
        }
    }
}

impl ProviderState {
    /// A provider that is starting.
    pub fn new() -> (r: ProviderState)
        ensures
            r@ == (ProviderView {
                lifecycle: AdapterLifecycle::Starting,
                session_id: None,
                thread_id: None,
                active_turn_id: None,
                queued_input_count: None,
                model: None,
                native_health: NativeSessionHealth::Healthy,
                context_tokens: None,
                context_window: None,
                compaction_count: Some(0),
            }),
    {
        ProviderState {
            lifecycle: AdapterLifecycle::Starting,
            session_id: None,
            thread_id: None,
            active_turn_id: None,
            queued_input_count: None,
            model: None,
            native_health: NativeSessionHealth::Healthy,
            context_tokens: None,
            context_window: None,
            compaction_count: Some(0),
        }
    }

    /// The live state as Adapters show it: a turn can be steered while the provider works.
    pub fn snapshot(&self) -> (r: AdapterSnapshot)
        ensures
            r.lifecycle == self.lifecycle,
            optional_text(r.session_id) == self@.session_id,
            optional_text(r.thread_id) == self@.thread_id,
            optional_text(r.active_turn_id) == self@.active_turn_id,
            r.steerable == (self.lifecycle == AdapterLifecycle::Working),
            r.queued_input_count == self.queued_input_count,
            optional_text(r.model) == self@.model,
    {
        AdapterSnapshot {
            lifecycle: self.lifecycle,
            session_id: copy_text(&self.session_id),
            thread_id: copy_text(&self.thread_id),
            active_turn_id: copy_text(&self.active_turn_id),
            steerable: self.lifecycle == AdapterLifecycle::Working,
            queued_input_count: self.queued_input_count,
            model: copy_text(&self.model),
        }
    }
}

/// The turn that an event speaks of.
pub open spec fn turn_of(t: JsonTree) -> JsonTree {
    match member(t, "turn"@) {
        Some(turn) => turn,
        None => t,
    }
}

pub open spec fn started_turn(t: JsonTree) -> Option<Seq<char>> {
    match member(t, "turn"@) {
        Some(turn) => text_member(turn, "id"@),
        None => None,
    }
}

/// How a turn ended: anything but an interruption or a failure is completion.
pub open spec fn turn_status(t: JsonTree) -> NativeTurnStatus {
    match text_member(turn_of(t), "status"@) {
        Some(s) => if s == "interrupted"@ || s == "cancelled"@ {
            NativeTurnStatus::Interrupted
        } else if s == "failed"@ {
            NativeTurnStatus::Failed
        } else {
            NativeTurnStatus::Completed
        },
        None => NativeTurnStatus::Completed,
    }
}

/// What an event of a provider means: the state after it, and what is told of it.
pub open spec fn provider_step(
    kind: HarnessKind,
    event: Seq<char>,
    t: JsonTree,
    state: ProviderView,
) -> (ProviderView, Option<AdapterEventView>) {
    if event == "agent_start"@ || event == "turn_start"@ || event == "turn/started"@ {
        (
            ProviderView {
                lifecycle: AdapterLifecycle::Working,
                active_turn_id: started_turn(t),
                ..state
            },
            Some(AdapterEventView::TurnStarted { turn_id: started_turn(t) }),
        )
    } else if event == "agent_end"@ || event == "turn/completed"@ {
        (
            ProviderView { lifecycle: AdapterLifecycle::Idle, active_turn_id: None, ..state },
            Some(
                AdapterEventView::TurnCompleted {
                    turn_id: text_member(turn_of(t), "id"@),
                    status: turn_status(t),
                },
            ),
        )
    } else if contains_text(event, "agentMessage"@) || event == "message_end"@ {
        (
            state,
            match text_within(t) {
                Some(text) => Some(AdapterEventView::Transcript { text }),
                None => None,
            },
        )
    } else if contains_text(event, "commandExecution"@) || contains_text(event, "fileChange"@) {
        (state, Some(AdapterEventView::Activity { summary: event }))
    } else if event == "error"@ {
        (
            ProviderView { lifecycle: AdapterLifecycle::Failed, ..state },
            Some(
                AdapterEventView::Failed {
                    message: provider_name(kind) + ": "@ + (match text_within(t) {
                        Some(text) => text,
                        None => json_form(t),
                    }),
                },
            ),
        )
    } else {
        (state, None)
    }
}

pub open spec fn event_view(event: Option<AdapterEvent>) -> Option<AdapterEventView> {
    match event {
        Some(e) => Some(e@),
        None => None,
    }
}

/// Takes in an event of a provider; gives what is to be told of it.
pub fn provider_event(
    kind: HarnessKind,
    event: &str,
    value: &serde_json::Value,
    state: &mut ProviderState,
) -> (r: Option<AdapterEvent>)
    ensures
        (final(state)@, event_view(r)) == provider_step(kind, event@, tree(*value), old(state)@),
{
    if same_text(event, "agent_start") || same_text(event, "turn_start") || same_text(
        event,
        "turn/started",
    ) {
        let turn_id = match get_member(value, "turn") {
            Some(turn) => field(turn, "id"),
            None => None,
        };
        state.lifecycle = AdapterLifecycle::Working;
        state.active_turn_id = copy_text(&turn_id);
        return Some(AdapterEvent::TurnStarted { turn_id });
    }
    if same_text(event, "agent_end") || same_text(event, "turn/completed") {
        let turn = match get_member(value, "turn") {
            Some(turn) => turn,
            None => value,
        };
        let turn_id = field(turn, "id");
        let status = match field(turn, "status") {
            Some(s) => {
                if same_text(s.as_str(), "interrupted") || same_text(s.as_str(), "cancelled") {
                    NativeTurnStatus::Interrupted
                } else if same_text(s.as_str(), "failed") {
                    NativeTurnStatus::Failed
                } else {
                    NativeTurnStatus::Completed
                }
            },
            None => NativeTurnStatus::Completed,
        };
        state.lifecycle = AdapterLifecycle::Idle;
        state.active_turn_id = None;
        return Some(AdapterEvent::TurnCompleted { turn_id, status });
    }
    if includes(event, "agentMessage") || same_text(event, "message_end") {
        return match find_text(value) {
            Some(text) => Some(AdapterEvent::Transcript { text }),
            None => None,
        };
    }
    if includes(event, "commandExecution") || includes(event, "fileChange") {
        return Some(AdapterEvent::Activity { summary: event.to_owned() });
    }
    if same_text(event, "error") {
        state.lifecycle = AdapterLifecycle::Failed;
        let text = match find_text(value) {
            Some(text) => text,
            None => render(value),
        };
        return Some(
            AdapterEvent::Failed { message: join3(provider_text(kind), ": ", text.as_str()) },
        );
    }
    None
}

/// Whether a Codex notification belongs to the bound thread: one without a thread always does.
pub fn is_own_notification(params: &serde_json::Value, state: &ProviderState) -> (r: bool)
    ensures
        r == (text_member(tree(*params), "threadId"@) is None || text_member(
            tree(*params),
            "threadId"@,
        ) == state@.thread_id),
{
    let thread = field(params, "threadId");
    match thread {
        None => true,
        Some(_) => same_optional(&thread, &state.thread_id),
    }
}

/// The end of a provider's output: expected while it is stopping, a failure otherwise.
pub fn reader_failed(kind: HarnessKind, state: &mut ProviderState) -> (r: Option<AdapterEvent>)
    ensures
        if old(state).lifecycle == AdapterLifecycle::Stopping {
            r is None && final(state)@ == old(state)@
        } else {
            event_view(r) == Some(
                AdapterEventView::Failed {
                    message: provider_name(kind) + " provider stdout reached EOF"@,
                },
            ) && final(state)@ == (ProviderView {
                lifecycle: AdapterLifecycle::Failed,
                ..old(state)@
            })
        },
{
    if state.lifecycle == AdapterLifecycle::Stopping {
        return None;
    }
    state.lifecycle = AdapterLifecycle::Failed;
    Some(
        AdapterEvent::Failed {
            message: join(provider_text(kind), " provider stdout reached EOF"),
        },
    )
}

/// Takes in a state report of OMP; `pressed` says whether at least seventy percent of the context
/// are in use.
pub fn take_omp_state(state: &mut ProviderState, value: &serde_json::Value, pressed: bool)
    ensures
        final(state)@ == omp_state(old(state)@, tree(*value), pressed),
{
    state.lifecycle = if boolean(value, "isStreaming") {
        AdapterLifecycle::Working
    } else {
        AdapterLifecycle::Idle
    };
    state.session_id = field(value, "sessionId");
    state.queued_input_count = number(value, "queuedMessageCount");
    state.model = model(value);
    match get_member(value, "contextUsage") {
        Some(usage) => {
            state.context_tokens = crate::json::unsigned(usage, "tokens");
            state.context_window = crate::json::unsigned(usage, "contextWindow");
        },
        None => {
            state.context_tokens = None;
            state.context_window = None;
        },
    }
    state.native_health = if pressed {
        NativeSessionHealth::ContextPressure
    } else {
        NativeSessionHealth::Healthy
    };
}

/// The state after a report of OMP.
pub open spec fn omp_state(state: ProviderView, t: JsonTree, pressed: bool) -> ProviderView {
    let usage = match member(t, "contextUsage"@) {
        Some(usage) => usage,
        None => JsonTree::Null,
    };
    ProviderView {
        lifecycle: if true_member(t, "isStreaming"@) {
            AdapterLifecycle::Working
        } else {
            AdapterLifecycle::Idle
        },
        session_id: text_member(t, "sessionId"@),
        queued_input_count: number_member(t, "queuedMessageCount"@),
        model: reported_model(t),
        context_tokens: crate::json::unsigned_member(usage, "tokens"@),
        context_window: crate::json::unsigned_member(usage, "contextWindow"@),
        native_health: if pressed {
            NativeSessionHealth::ContextPressure
        } else {
            NativeSessionHealth::Healthy
        },
        ..state
    }
}

/// Counts a native compaction.
pub fn note_compaction(state: &mut ProviderState)
    requires
        match old(state).compaction_count {
            Some(n) => n < u32::MAX,
            None => true,
        },
    ensures
        final(state)@ == (ProviderView {
            compaction_count: Some(
                match old(state).compaction_count {
                    Some(n) => (n + 1) as u32,
                    None => 1,
                },
            ),
            native_health: NativeSessionHealth::Compacted,
            ..old(state)@
        }),
{
    let n: u32 = match state.compaction_count {
        Some(n) => n,
        None => 0,
    };
    state.compaction_count = Some(n + 1);
    state.native_health = NativeSessionHealth::Compacted;
}

} // verus!
