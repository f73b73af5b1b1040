//! What one line of a provider's output asks of its reader.
use vstd::prelude::*;

use crate::adapter::{
    classify_codex_frame, classify_omp_frame, codex_frame, correlation_text, omp_frame,
    AdapterError, AdapterEvent, AdapterEventView, AdapterFault, CodexFrame, CodexFrameView,
    OmpFrame, OmpFrameView,
};
use crate::contract::HarnessKind;
use crate::json::{json_form, json_of, render, text_member, tree, JsonTree};
use crate::process_adapter::{
    is_own_notification, provider_event, provider_step, ProviderState, ProviderView,
};
use crate::text::{join, join3};

verus! {

/// What follows a line.
#[derive(Debug)]
#[allow(inconsistent_fields)]
pub enum LineStep {
    /// The request with this correlation is answered.
    Answer { id: String, result: Result<serde_json::Value, String> },
    /// Something is to be told.
    Tell { event: AdapterEvent },
    /// Something is to be told, then a Coordinator tool is to be called for the provider.
    CallTool {
        id: String,
        tool_name: String,
        arguments: serde_json::Value,
        event: AdapterEvent,
    },
    /// Nothing.
    Ignore,
    /// The line breaks the protocol.
    Complain { error: AdapterError },
}

/// What a [`LineStep`] says.
#[allow(inconsistent_fields)]
pub enum LineView {
    Answer { id: Seq<char>, result: Result<JsonTree, Seq<char>> },
    Tell { event: AdapterEventView },
    CallTool {
        id: Seq<char>,
        tool_name: Seq<char>,
        arguments: JsonTree,
        event: AdapterEventView,
    },
    Ignore,
    Complain { error: AdapterFault },
}

impl View for LineStep {
    type V = LineView;

    open spec fn view(&self) -> LineView {
        match self {
            LineStep::Answer { id, result } => LineView::Answer {
                id: id@,
                result: match *result {
                    Ok(value) => Ok(tree(value)),
                    Err(message) => Err(message@),
                },
            },
            LineStep::Tell { event } => LineView::Tell { event: event@ },
            LineStep::CallTool { id, tool_name, arguments, event } => LineView::CallTool {
                id: id@,
                tool_name: tool_name@,
                arguments: tree(*arguments),
                event: event@,
            },
            LineStep::Ignore => LineView::Ignore,
            LineStep::Complain { error } => LineView::Complain { error: error@ },
        }
    }
}

/// What an event of a provider means to its reader.
pub open spec fn told(
    kind: HarnessKind,
    event: Seq<char>,
    t: JsonTree,
    state: ProviderView,
) -> (ProviderView, LineView) {
    let (after, said) = provider_step(kind, event, t, state);
    (
        after,
        match said {
            Some(event) => LineView::Tell { event },
            None => LineView::Ignore,
        },
    )
}

fn tell(kind: HarnessKind, event: &str, value: &serde_json::Value, state: &mut ProviderState) -> (r:
    LineStep)
    ensures
        (final(state)@, r@) == told(kind, event@, tree(*value), old(state)@),
{
    match provider_event(kind, event, value, state) {
        Some(event) => LineStep::Tell { event },
        None => LineStep::Ignore,
    }
}

/// What a frame of OMP asks of its reader.
pub open spec fn omp_answer(frame: OmpFrameView, state: ProviderView) -> (ProviderView, LineView) {
    match frame {
        OmpFrameView::Response { id, command: _, result } => (
            state,
            LineView::Answer { id: correlation_text(id), result },
        ),
        OmpFrameView::SessionEvent { event_type, payload } => told(
            HarnessKind::Omp,
            event_type,
            payload,
            state,
        ),
        OmpFrameView::ExtensionUiRequest { id, method, payload: _ } => (
            state,
            LineView::Tell {
                event: AdapterEventView::InputRequired {
                    correlation: Some(correlation_text(id)),
                    prompt: "OMP extension requested "@ + method,
                },
            },
        ),
        OmpFrameView::HostToolCall { id, tool_call_id: _, tool_name, arguments } => (
            state,
            LineView::CallTool {
                id: correlation_text(id),
                tool_name,
                arguments,
                event: AdapterEventView::Activity {
                    summary: "OMP host tool "@ + tool_name + " ("@ + correlation_text(id) + ")"@,
                },
            },
        ),
        _ => (state, LineView::Ignore),
    }
}

/// What a line of OMP asks of its reader.
pub open spec fn omp_line(line: Seq<char>, state: ProviderView) -> (ProviderView, LineView) {
    match json_of(line) {
        Err(source) => (
            state,
            LineView::Complain {
                error: AdapterFault::InvalidJson { kind: HarnessKind::Omp, source },
            },
        ),
        Ok(t) => match omp_frame(t) {
            Err(error) => (state, LineView::Complain { error }),
            Ok(frame) => omp_answer(frame, state),
        },
    }
}

/// Takes in a line of OMP.
pub fn read_omp_line(line: &str, state: &mut ProviderState) -> (r: LineStep)
    ensures
        (final(state)@, r@) == omp_line(line@, old(state)@),
{
    match classify_omp_frame(line) {
        Err(error) => LineStep::Complain { error },
        Ok(OmpFrame::Response { id, command: _, result }) => LineStep::Answer {
            id: id.text(),
            result,
        },
        Ok(OmpFrame::SessionEvent { event_type, payload }) => tell(
            HarnessKind::Omp,
            event_type.as_str(),
            &payload,
            state,
        ),
        Ok(OmpFrame::ExtensionUiRequest { id, method, payload: _ }) => LineStep::Tell {
            event: AdapterEvent::InputRequired {
                correlation: Some(id.text()),
                prompt: join("OMP extension requested ", method.as_str()),
            },
        },
        Ok(OmpFrame::HostToolCall { id, tool_call_id: _, tool_name, arguments }) => {
            let id = id.text();
            let head = join3("OMP host tool ", tool_name.as_str(), " (");
            let summary = join3(head.as_str(), id.as_str(), ")");
            LineStep::CallTool {
                id,
                tool_name,
                arguments,
                event: AdapterEvent::Activity { summary },
            }
        },
        Ok(_) => LineStep::Ignore,
    }
}

/// A notification belongs to the bound thread, or to none.
pub open spec fn is_own(t: JsonTree, state: ProviderView) -> bool {
    text_member(t, "threadId"@) is None || text_member(t, "threadId"@) == state.thread_id
}

/// What a frame of Codex asks of its reader.
pub open spec fn codex_answer(frame: CodexFrameView, state: ProviderView) -> (
    ProviderView,
    LineView,
) {
    match frame {
        CodexFrameView::Response { id, result } => (
            state,
            LineView::Answer {
                id: correlation_text(id),
                result: match result {
                    Ok(t) => Ok(t),
                    Err(t) => Err(json_form(t)),
                },
            },
        ),
        CodexFrameView::Notification { method, params } => if is_own(params, state) {
            told(HarnessKind::Codex, method, params, state)
        } else {
            (state, LineView::Ignore)
        },
        CodexFrameView::ServerRequest { id, method, params: _ } => (
            state,
            LineView::Tell {
                event: AdapterEventView::InputRequired {
                    correlation: Some(correlation_text(id)),
                    prompt: "Codex requested "@ + method,
                },
            },
        ),
    }
}

/// What a line of Codex asks of its reader.
pub open spec fn codex_line(line: Seq<char>, state: ProviderView) -> (ProviderView, LineView) {
    match json_of(line) {
        Err(source) => (
            state,
            LineView::Complain {
                error: AdapterFault::InvalidJson { kind: HarnessKind::Codex, source },
            },
        ),
        Ok(t) => match codex_frame(t) {
            Err(error) => (state, LineView::Complain { error }),
            Ok(frame) => codex_answer(frame, state),
        },
    }
}

/// Takes in a line of Codex.
pub fn read_codex_line(line: &str, state: &mut ProviderState) -> (r: LineStep)
    ensures
        (final(state)@, r@) == codex_line(line@, old(state)@),
{
    match classify_codex_frame(line) {
        Err(error) => LineStep::Complain { error },
        Ok(CodexFrame::Response { id, result }) => {
            let result = match result {
                Ok(value) => Ok(value),
                Err(value) => Err(render(&value)),
            };
            LineStep::Answer { id: id.text(), result }
        },
        Ok(CodexFrame::Notification { method, params }) => {
            if is_own_notification(&params, state) {
                tell(HarnessKind::Codex, method.as_str(), &params, state)
            } else {
                LineStep::Ignore
            }
        },
        Ok(CodexFrame::ServerRequest { id, method, params: _ }) => LineStep::Tell {
            event: AdapterEvent::InputRequired {
                correlation: Some(id.text()),
                prompt: join("Codex requested ", method.as_str()),
            },
        },
    }
}

/// Lines of a foreign thread leave a Codex provider's state as it is and are not told.
pub proof fn foreign_threads_are_ignored(line: Seq<char>, state: ProviderView, t: JsonTree)
    requires
        json_of(line) == Ok::<JsonTree, Seq<char>>(t),
        codex_frame(t) is Ok,
        codex_frame(t)->Ok_0 is Notification,
        !is_own(codex_frame(t)->Ok_0->Notification_params, state),
    ensures
        codex_line(line, state) == (state, LineView::Ignore),
{
}

} // verus!
