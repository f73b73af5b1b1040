//! What the lines of the native providers come to, in the words of their protocols.
use vstd::prelude::*;

use crate::adapter::{
    AdapterEventView, AdapterFault, AdapterLifecycle, NativeTurnStatus, ResolvedAttachment,
    ResolvedDelivery,
};
use crate::contract::{HarnessKind, NativeSessionHealth};
use crate::json::{json_form, json_of, member, text_within, JsonTree};
use crate::process_adapter::{
    alias, attachment_lines, codex_input_form, compatible_model, delivery_form, images, omp_state,
    tolerated, CodexInputView, ProviderView,
};
use crate::reader::{codex_line, omp_line, LineView};
use crate::status_laws::{first_piece_starts, last_piece_ends, tally};
use crate::text::{contains_text, stands_at};

verus! {

// ---------------------------------------------------------------------------------------------
// Frames
// ---------------------------------------------------------------------------------------------

/// A line is a Codex notification: a method with parameters and no correlation.
pub open spec fn codex_notice(
    line: Seq<char>,
    method: Seq<char>,
    params: JsonTree,
    state: ProviderView,
) -> bool {
    exists|t: JsonTree|
        {
            &&& #[trigger] json_of(line) == Ok::<JsonTree, Seq<char>>(t)
            &&& t is Object
            &&& member(t, "id"@) is None
            &&& member(t, "method"@) == Some(JsonTree::Text(method))
            &&& member(t, "params"@) == Some(params)
            &&& member(t, "result"@) is None
            &&& member(t, "error"@) is None
            &&& method.len() > 0
            &&& match member(params, "threadId"@) {
                Some(JsonTree::Text(thread)) => state.thread_id == Some(thread),
                _ => true,
            }
        }
}

/// A line is an event of an OMP session.
pub open spec fn omp_event(line: Seq<char>, name: Seq<char>, t: JsonTree) -> bool {
    &&& json_of(line) == Ok::<JsonTree, Seq<char>>(t)
    &&& t is Object
    &&& member(t, "type"@) == Some(JsonTree::Text(name))
    &&& name.len() > 0
    &&& name != "ready"@ && name != "response"@ && name != "host_tool_call"@
    &&& name != "host_tool_cancel"@ && name != "extension_ui_request"@
}

proof fn words_differ()
    ensures
        "agent_start"@.len() == 11 && "agent_start"@[0] == 'a',
        "turn_start"@.len() == 10,
        "turn/started"@.len() == 12 && "turn/started"@[0] == 't',
        "agent_end"@.len() == 9,
        "turn/completed"@.len() == 14,
        "message_end"@.len() == 11 && "message_end"@[0] == 'm',
        "error"@.len() == 5,
        "agentMessage"@.len() == 12 && "agentMessage"@[0] == 'a',
        "commandExecution"@.len() == 16,
        "fileChange"@.len() == 10 && "fileChange"@[0] == 'f',
        "ready"@.len() == 5 && "ready"@[0] == 'r',
        "response"@.len() == 8,
        "host_tool_call"@.len() == 14 && "host_tool_call"@[0] == 'h',
        "host_tool_cancel"@.len() == 16,
        "extension_ui_request"@.len() == 20,
{
    reveal_strlit("agent_start");
    reveal_strlit("turn_start");
    reveal_strlit("turn/started");
    reveal_strlit("agent_end");
    reveal_strlit("turn/completed");
    reveal_strlit("message_end");
    reveal_strlit("error");
    reveal_strlit("agentMessage");
    reveal_strlit("commandExecution");
    reveal_strlit("fileChange");
    reveal_strlit("ready");
    reveal_strlit("response");
    reveal_strlit("host_tool_call");
    reveal_strlit("host_tool_cancel");
    reveal_strlit("extension_ui_request");
}

// ---------------------------------------------------------------------------------------------
// Turns
// ---------------------------------------------------------------------------------------------

/// The status that goes with the word of a provider: interrupted and cancelled turns are
/// interrupted, failed ones failed, and all others completed.
pub open spec fn ends_as(turn: JsonTree, status: NativeTurnStatus) -> bool {
    match member(turn, "status"@) {
        Some(JsonTree::Text(word)) => {
            &&& (status == NativeTurnStatus::Interrupted) == (word == "interrupted"@ || word
                == "cancelled"@)
            &&& (status == NativeTurnStatus::Failed) == (word == "failed"@)
        },
        _ => status == NativeTurnStatus::Completed,
    }
}

/// The identity of a turn.
pub open spec fn is_called(turn: JsonTree, id: Option<Seq<char>>) -> bool {
    match member(turn, "id"@) {
        Some(JsonTree::Text(name)) => id == Some(name),
        _ => id is None,
    }
}

/// A line tells of the end of a turn, and the provider is idle after it.
pub open spec fn tells_of_end(
    answer: (ProviderView, LineView),
    turn: JsonTree,
    state: ProviderView,
) -> bool {
    &&& answer.0 == (ProviderView {
        lifecycle: AdapterLifecycle::Idle,
        active_turn_id: None,
        ..state
    })
    &&& answer.1 matches LineView::Tell {
        event: AdapterEventView::TurnCompleted { turn_id, status },
    } && ends_as(turn, status) && is_called(turn, turn_id)
}

/// The end of a Codex turn is told with its identity and in the sense of its status word.
pub proof fn ended_codex_turns_are_told(line: Seq<char>, params: JsonTree, state: ProviderView)
    requires
        codex_notice(line, "turn/completed"@, params, state),
    ensures
        tells_of_end(
            codex_line(line, state),
            match member(params, "turn"@) {
                Some(turn) => turn,
                None => params,
            },
            state,
        ),
{
    words_differ();
    status_words_differ();
}

/// The end of an OMP turn is told with its identity and in the sense of its status word.
pub proof fn ended_omp_turns_are_told(line: Seq<char>, t: JsonTree, state: ProviderView)
    requires
        omp_event(line, "agent_end"@, t),
    ensures
        tells_of_end(
            omp_line(line, state),
            match member(t, "turn"@) {
                Some(turn) => turn,
                None => t,
            },
            state,
        ),
{
    words_differ();
    status_words_differ();
}

proof fn status_words_differ()
    ensures
        "interrupted"@ != "failed"@,
        "cancelled"@ != "failed"@,
{
    reveal_strlit("interrupted");
    reveal_strlit("cancelled");
    reveal_strlit("failed");
    assert("interrupted"@.len() == 11 && "cancelled"@.len() == 9 && "failed"@.len() == 6);
}

/// A line tells of the start of a turn, and the provider works after it.
pub open spec fn tells_of_start(
    answer: (ProviderView, LineView),
    turn: Option<JsonTree>,
    state: ProviderView,
) -> bool {
    &&& answer.0.lifecycle == AdapterLifecycle::Working
    &&& answer.0 == (ProviderView {
        lifecycle: answer.0.lifecycle,
        active_turn_id: answer.0.active_turn_id,
        ..state
    })
    &&& answer.1 == (LineView::Tell {
        event: AdapterEventView::TurnStarted { turn_id: answer.0.active_turn_id },
    })
    &&& match turn {
        Some(turn) => is_called(turn, answer.0.active_turn_id),
        None => answer.0.active_turn_id is None,
    }
}

/// The start of a turn is told, and the turn is the active one from then on.
pub proof fn started_turns_are_told(
    line: Seq<char>,
    params: JsonTree,
    name: Seq<char>,
    state: ProviderView,
)
    ensures
        codex_notice(line, "turn/started"@, params, state) ==> tells_of_start(
            codex_line(line, state),
            member(params, "turn"@),
            state,
        ),
        omp_event(line, name, params) && (name == "agent_start"@ || name == "turn_start"@)
            ==> tells_of_start(omp_line(line, state), member(params, "turn"@), state),
{
    words_differ();
}

// ---------------------------------------------------------------------------------------------
// Transcripts, activity and failures
// ---------------------------------------------------------------------------------------------

/// None of the words that start or end a turn.
pub open spec fn is_no_turn(name: Seq<char>) -> bool {
    name != "agent_start"@ && name != "turn_start"@ && name != "turn/started"@ && name
        != "agent_end"@ && name != "turn/completed"@
}

/// Agent messages are transcripts: their text is told, and one without a text is passed over.
pub proof fn agent_messages_are_transcripts(
    line: Seq<char>,
    method: Seq<char>,
    params: JsonTree,
    state: ProviderView,
)
    requires
        codex_notice(line, method, params, state),
        is_no_turn(method),
        contains_text(method, "agentMessage"@) || method == "message_end"@,
    ensures
        codex_line(line, state).0 == state,
        codex_line(line, state).1 is Tell || codex_line(line, state).1 is Ignore,
        match member(params, "text"@) {
            Some(JsonTree::Text(text)) => codex_line(line, state).1 == (LineView::Tell {
                event: AdapterEventView::Transcript { text },
            }),
            _ => true,
        },
        codex_line(line, state).1 matches LineView::Tell { event } ==> event is Transcript,
        text_within(params) is None ==> codex_line(line, state).1 is Ignore,
{
    words_differ();
}

/// The end of an OMP message is a transcript: the text under `text`, else under `message`, else
/// under `delta`.
pub proof fn omp_messages_are_transcripts(line: Seq<char>, t: JsonTree, state: ProviderView)
    requires
        omp_event(line, "message_end"@, t),
    ensures
        omp_line(line, state).0 == state,
        member(t, "text"@) matches Some(JsonTree::Text(text)) ==> omp_line(line, state).1 == (
        LineView::Tell { event: AdapterEventView::Transcript { text } }),
        member(t, "text"@) is None ==> (member(t, "message"@) matches Some(JsonTree::Text(text))
            ==> omp_line(line, state).1 == (LineView::Tell {
            event: AdapterEventView::Transcript { text },
        })),
        member(t, "text"@) is None && member(t, "message"@) is None ==> (member(
            t,
            "delta"@,
        ) matches Some(JsonTree::Text(text)) ==> omp_line(line, state).1 == (LineView::Tell {
            event: AdapterEventView::Transcript { text },
        })),
{
    words_differ();
}

/// Commands and file changes of Codex are activity under the name of their method.
pub proof fn commands_and_changes_are_activity(
    line: Seq<char>,
    method: Seq<char>,
    params: JsonTree,
    state: ProviderView,
)
    requires
        codex_notice(line, method, params, state),
        is_no_turn(method),
        !contains_text(method, "agentMessage"@),
        method != "message_end"@,
        contains_text(method, "commandExecution"@) || contains_text(method, "fileChange"@),
    ensures
        codex_line(line, state) == (
            state,
            LineView::Tell { event: AdapterEventView::Activity { summary: method } },
        ),
{
    words_differ();
}

proof fn short_words_hold_no_long_ones()
    ensures
        !contains_text("error"@, "agentMessage"@),
        !contains_text("error"@, "commandExecution"@),
        !contains_text("error"@, "fileChange"@),
{
    words_differ();
    assert forall|at: int| !stands_at("error"@, "agentMessage"@, at) by {}
    assert forall|at: int| !stands_at("error"@, "commandExecution"@, at) by {}
    assert forall|at: int| !stands_at("error"@, "fileChange"@, at) by {}
}

/// An error fails the provider and is told under the provider's name.
pub proof fn errors_fail_the_provider(line: Seq<char>, params: JsonTree, state: ProviderView)
    ensures
        codex_notice(line, "error"@, params, state) ==> {
            let (after, said) = codex_line(line, state);
            &&& after == (ProviderView { lifecycle: AdapterLifecycle::Failed, ..state })
            &&& said matches LineView::Tell { event: AdapterEventView::Failed { message } }
                && message == "Codex"@ + ": "@ + (match text_within(params) {
                Some(text) => text,
                None => json_form(params),
            })
        },
        omp_event(line, "error"@, params) ==> {
            let (after, said) = omp_line(line, state);
            &&& after == (ProviderView { lifecycle: AdapterLifecycle::Failed, ..state })
            &&& said matches LineView::Tell { event: AdapterEventView::Failed { message } }
                && message == "Omp"@ + ": "@ + (match text_within(params) {
                Some(text) => text,
                None => json_form(params),
            })
        },
{
    words_differ();
    short_words_hold_no_long_ones();
}

/// Other notifications change nothing and are not told.
pub proof fn other_notices_are_passed_over(
    line: Seq<char>,
    method: Seq<char>,
    params: JsonTree,
    state: ProviderView,
)
    requires
        codex_notice(line, method, params, state),
        is_no_turn(method),
        method != "message_end"@,
        method != "error"@,
        !contains_text(method, "agentMessage"@),
        !contains_text(method, "commandExecution"@),
        !contains_text(method, "fileChange"@),
    ensures
        codex_line(line, state) == (state, LineView::Ignore),
{
}

/// A notification of a thread other than the bound one changes nothing and is not told.
pub proof fn notices_of_other_threads_are_passed_over(
    line: Seq<char>,
    t: JsonTree,
    method: Seq<char>,
    params: JsonTree,
    thread: Seq<char>,
    state: ProviderView,
)
    requires
        json_of(line) == Ok::<JsonTree, Seq<char>>(t),
        t is Object,
        member(t, "id"@) is None,
        member(t, "method"@) == Some(JsonTree::Text(method)),
        member(t, "params"@) == Some(params),
        member(t, "result"@) is None,
        member(t, "error"@) is None,
        method.len() > 0,
        member(params, "threadId"@) == Some(JsonTree::Text(thread)),
        state.thread_id != Some(thread),
    ensures
        codex_line(line, state) == (state, LineView::Ignore),
{
}

// ---------------------------------------------------------------------------------------------
// Answers, requests and tool calls
// ---------------------------------------------------------------------------------------------

/// A correlated Codex result answers its request with the result, and a correlated error with the
/// error as text; neither changes the provider.
pub proof fn codex_answers_reach_their_request(
    line: Seq<char>,
    t: JsonTree,
    id: Seq<char>,
    value: JsonTree,
    state: ProviderView,
)
    requires
        json_of(line) == Ok::<JsonTree, Seq<char>>(t),
        t is Object,
        member(t, "id"@) == Some(JsonTree::Text(id)),
        id.len() > 0,
        member(t, "method"@) is None,
    ensures
        member(t, "result"@) == Some(value) && member(t, "error"@) is None ==> codex_line(
            line,
            state,
        ) == (state, LineView::Answer { id, result: Ok(value) }),
        member(t, "error"@) == Some(value) && member(t, "result"@) is None ==> codex_line(
            line,
            state,
        ) == (state, LineView::Answer { id, result: Err(json_form(value)) }),
        member(t, "result"@) is Some && member(t, "error"@) is Some ==> codex_line(
            line,
            state,
        ).1 is Complain,
        member(t, "result"@) is None && member(t, "error"@) is None ==> codex_line(
            line,
            state,
        ).1 is Complain,
{
}

/// A correlated Codex request asks for input and changes nothing.
pub proof fn codex_requests_ask_for_input(
    line: Seq<char>,
    t: JsonTree,
    id: Seq<char>,
    method: Seq<char>,
    state: ProviderView,
)
    requires
        json_of(line) == Ok::<JsonTree, Seq<char>>(t),
        t is Object,
        member(t, "id"@) == Some(JsonTree::Text(id)),
        id.len() > 0,
        member(t, "method"@) == Some(JsonTree::Text(method)),
        method.len() > 0,
        member(t, "result"@) is None,
        member(t, "error"@) is None,
    ensures
        codex_line(line, state) == (
            state,
            LineView::Tell {
                event: AdapterEventView::InputRequired {
                    correlation: Some(id),
                    prompt: "Codex requested "@ + method,
                },
            },
        ),
{
}

/// An OMP response answers its request with its data, nothing where it has none, or with its error.
pub proof fn omp_answers_reach_their_request(
    line: Seq<char>,
    t: JsonTree,
    id: Seq<char>,
    command: Seq<char>,
    state: ProviderView,
)
    requires
        json_of(line) == Ok::<JsonTree, Seq<char>>(t),
        t is Object,
        member(t, "type"@) == Some(JsonTree::Text("response"@)),
        member(t, "id"@) == Some(JsonTree::Text(id)),
        id.len() > 0,
        member(t, "command"@) == Some(JsonTree::Text(command)),
        command.len() > 0,
    ensures
        omp_line(line, state).0 == state,
        member(t, "success"@) == Some(JsonTree::Bool(true)) ==> omp_line(line, state).1 == (
        LineView::Answer {
            id,
            result: Ok(
                match member(t, "data"@) {
                    Some(data) => data,
                    None => JsonTree::Null,
                },
            ),
        }),
        member(t, "success"@) == Some(JsonTree::Bool(false)) ==> (member(
            t,
            "error"@,
        ) matches Some(JsonTree::Text(message)) ==> message.len() > 0 ==> omp_line(line, state).1
            == (LineView::Answer { id, result: Err(message) })),
        !(member(t, "success"@) matches Some(JsonTree::Bool(_))) ==> omp_line(line, state).1
            is Complain,
{
    words_differ();
}

/// An OMP tool call is passed on with the name and the arguments that it has, and told as activity.
pub proof fn omp_tool_calls_are_passed_on(
    line: Seq<char>,
    t: JsonTree,
    id: Seq<char>,
    call: Seq<char>,
    tool: Seq<char>,
    arguments: JsonTree,
    state: ProviderView,
)
    requires
        json_of(line) == Ok::<JsonTree, Seq<char>>(t),
        t is Object,
        member(t, "type"@) == Some(JsonTree::Text("host_tool_call"@)),
        member(t, "id"@) == Some(JsonTree::Text(id)),
        member(t, "toolCallId"@) == Some(JsonTree::Text(call)),
        member(t, "toolName"@) == Some(JsonTree::Text(tool)),
        member(t, "arguments"@) == Some(arguments),
        id.len() > 0,
        call.len() > 0,
        tool.len() > 0,
    ensures
        arguments is Object ==> omp_line(line, state) == (
            state,
            LineView::CallTool {
                id,
                tool_name: tool,
                arguments,
                event: AdapterEventView::Activity {
                    summary: "OMP host tool "@ + tool + " ("@ + id + ")"@,
                },
            },
        ),
        !(arguments is Object) ==> omp_line(line, state).1 is Complain && omp_line(line, state).0
            == state,
{
    words_differ();
}

/// An OMP extension asks for input; readiness and cancelled tool calls ask for nothing.
pub proof fn omp_extensions_ask_for_input(
    line: Seq<char>,
    t: JsonTree,
    id: Seq<char>,
    method: Seq<char>,
    state: ProviderView,
)
    requires
        json_of(line) == Ok::<JsonTree, Seq<char>>(t),
        t is Object,
    ensures
        member(t, "type"@) == Some(JsonTree::Text("extension_ui_request"@)) && member(t, "id"@)
            == Some(JsonTree::Text(id)) && member(t, "method"@) == Some(JsonTree::Text(method))
            && id.len() > 0 && method.len() > 0 ==> omp_line(line, state) == (
            state,
            LineView::Tell {
                event: AdapterEventView::InputRequired {
                    correlation: Some(id),
                    prompt: "OMP extension requested "@ + method,
                },
            },
        ),
        member(t, "type"@) == Some(JsonTree::Text("ready"@)) ==> omp_line(line, state) == (
            state,
            LineView::Ignore,
        ),
{
    words_differ();
}

/// A line that is no JSON object breaks the protocol, and so does an OMP line without a type.
pub proof fn malformed_lines_are_complained_of(line: Seq<char>, state: ProviderView)
    ensures
        json_of(line) matches Err(source) ==> codex_line(line, state) == (
            state,
            LineView::Complain {
                error: AdapterFault::InvalidJson { kind: HarnessKind::Codex, source },
            },
        ) && omp_line(line, state) == (
            state,
            LineView::Complain {
                error: AdapterFault::InvalidJson { kind: HarnessKind::Omp, source },
            },
        ),
        json_of(line) matches Ok(t) ==> !(t is Object) ==> codex_line(line, state).0 == state
            && codex_line(line, state).1 is Complain && omp_line(line, state).0 == state
            && omp_line(line, state).1 is Complain,
        json_of(line) matches Ok(t) ==> member(t, "type"@) is None ==> omp_line(line, state).0
            == state && omp_line(line, state).1 is Complain,
{
}

// ---------------------------------------------------------------------------------------------
// Reports, models and input
// ---------------------------------------------------------------------------------------------

/// A state report of OMP says whether it streams, which session it is, how much input waits and
/// how full the context is; the rest of what is known stays.
pub proof fn omp_reports_are_taken_over(state: ProviderView, t: JsonTree, pressed: bool)
    ensures
        ({
            let after = omp_state(state, t, pressed);
            &&& (after.lifecycle == AdapterLifecycle::Working) == (member(t, "isStreaming"@)
                == Some(JsonTree::Bool(true)))
            &&& after.lifecycle != AdapterLifecycle::Working ==> after.lifecycle
                == AdapterLifecycle::Idle
            &&& match member(t, "sessionId"@) {
                Some(JsonTree::Text(id)) => after.session_id == Some(id),
                _ => after.session_id is None,
            }
            &&& after.thread_id == state.thread_id
            &&& after.active_turn_id == state.active_turn_id
            &&& after.compaction_count == state.compaction_count
            &&& (after.native_health == NativeSessionHealth::ContextPressure) == pressed
            &&& !pressed ==> after.native_health == NativeSessionHealth::Healthy
            &&& member(t, "queuedMessageCount"@) matches Some(
                JsonTree::Number { unsigned: Some(n), .. },
            ) ==> n <= u32::MAX ==> after.queued_input_count == Some(n as u32)
            &&& member(t, "model"@) matches Some(JsonTree::Text(name)) ==> after.model == Some(name)
            &&& member(t, "contextUsage"@) matches Some(usage) ==> {
                &&& member(usage, "tokens"@) matches Some(
                    JsonTree::Number { unsigned, .. },
                ) ==> after.context_tokens == unsigned
                &&& member(usage, "contextWindow"@) matches Some(
                    JsonTree::Number { unsigned, .. },
                ) ==> after.context_window == unsigned
            }
            &&& member(t, "contextUsage"@) is None ==> after.context_tokens is None
                && after.context_window is None
        }),
{
}

/// A selection such as `provider/name:options` stands for the name.
pub proof fn selections_stand_for_names(
    provider: Seq<char>,
    name: Seq<char>,
    options: Seq<char>,
)
    requires
        tally(name, '/') == 0,
        tally(name, ':') == 0,
        tally(options, '/') == 0,
    ensures
        alias(name) == name,
        alias(provider + seq!['/'] + name) == name,
        alias(provider + seq!['/'] + name + seq![':'] + options) == name,
{
    let plain = provider + seq!['/'] + name;
    let full = provider + seq!['/'] + name + seq![':'] + options;
    let tail = name + seq![':'] + options;
    last_piece_is(Seq::empty(), name);
    last_piece_is(provider, name);
    crate::status_laws::tally_adds(name + seq![':'], options, '/');
    crate::status_laws::tally_adds(name, seq![':'], '/');
    crate::status_laws::tally_of_one(':', '/');
    last_piece_is(provider, tail);
    assert(provider + seq!['/'] + tail =~= full);
    first_piece_starts(name, Seq::empty(), ':');
    first_piece_starts(name, options, ':');
}

proof fn last_piece_is(before: Seq<char>, last: Seq<char>)
    requires
        tally(last, '/') == 0,
    ensures
        crate::paths::pieces(before + seq!['/'] + last, '/', None).last() == last,
        before.len() == 0 ==> crate::paths::pieces(last, '/', None).last() == last,
{
    let s = before + seq!['/'] + last;
    assert(s.skip(s.len() - last.len()) =~= last);
    crate::status_laws::last_piece_found(s, '/', last);
    if before.len() == 0 {
        last_piece_ends(last, '/', None);
        crate::status_laws::only_piece(last, '/');
    }
}

/// The model on record is the selection where the provider confirms it or says nothing, and what
/// the provider reports where it differs.
pub proof fn confirmed_selections_stay(selected: Seq<char>, observed: Seq<char>)
    ensures
        compatible_model(Some(selected), None) == Some(selected),
        compatible_model(Some(selected), Some(selected)) == Some(selected),
        compatible_model(Some(selected), Some(alias(selected))) == Some(selected),
        compatible_model(None, Some(observed)) == Some(observed),
        compatible_model(None, None) is None,
        observed != selected && observed != alias(selected) ==> compatible_model(
            Some(selected),
            Some(observed),
        ) == Some(observed),
{
}

/// A provider that does not know a method fails no compatibility request; any other failure counts,
/// and leaves no delivery in doubt.
pub proof fn unknown_methods_are_tolerated(kind: HarnessKind, message: Seq<char>)
    ensures
        contains_text(message, "\"code\":-32601"@) ==> tolerated(
            AdapterFault::DeliveryAmbiguous { kind, message },
        ) is None,
        contains_text(message, "method not found"@) && crate::process_adapter::lowered(message)
            == message ==> tolerated(AdapterFault::DeliveryAmbiguous { kind, message }) is None,
        tolerated(AdapterFault::DeliveryAmbiguous { kind, message }) matches Some(fault)
            ==> fault == (AdapterFault::Operation { kind, message }),
        tolerated(AdapterFault::Operation { kind, message }) == Some(
            AdapterFault::Operation { kind, message },
        ),
        tolerated(AdapterFault::InvalidFrame { kind, message }) == Some(
            AdapterFault::InvalidFrame { kind, message },
        ),
{
}

/// The line of an attachment stands in the lines of all of them.
proof fn every_attachment_has_a_line(list: Seq<ResolvedAttachment>, n: nat, i: int)
    requires
        0 <= i < n <= list.len(),
    ensures
        contains_text(
            attachment_lines(list, n),
            "- "@ + list[i].path@ + " ("@ + list[i].media_type@ + ")\n"@,
        ),
    decreases n,
{
    let line = "- "@ + list[i].path@ + " ("@ + list[i].media_type@ + ")\n"@;
    let before = attachment_lines(list, (n - 1) as nat);
    let all = attachment_lines(list, n);
    if i == n - 1 {
        assert(all =~= before + line);
        assert(all.subrange(before.len() as int, before.len() + line.len() as int) =~= line);
        assert(stands_at(all, line, before.len() as int));
    } else {
        every_attachment_has_a_line(list, (n - 1) as nat, i);
        let at = choose|at: int| stands_at(before, line, at);
        assert(all.subrange(at, at + line.len() as int) =~= before.subrange(
            at,
            at + line.len() as int,
        ));
        assert(stands_at(all, line, at));
    }
}

/// A delivery is its text as it stands, and below it a line for each attachment.
pub proof fn deliveries_list_their_attachments(delivery: ResolvedDelivery, i: int)
    ensures
        delivery.attachments@.len() == 0 ==> delivery_form(delivery) == delivery.text@,
        delivery_form(delivery).len() >= delivery.text@.len(),
        delivery_form(delivery).take(delivery.text@.len() as int) == delivery.text@,
        0 <= i < delivery.attachments@.len() ==> contains_text(
            delivery_form(delivery),
            "- "@ + delivery.attachments@[i].path@ + " ("@ + delivery.attachments@[i].media_type@
                + ")\n"@,
        ),
{
    let form = delivery_form(delivery);
    assert(form.take(delivery.text@.len() as int) =~= delivery.text@);
    if 0 <= i < delivery.attachments@.len() {
        let list = delivery.attachments@;
        every_attachment_has_a_line(list, list.len(), i);
        let line = "- "@ + list[i].path@ + " ("@ + list[i].media_type@ + ")\n"@;
        let lines = attachment_lines(list, list.len());
        let head = delivery.text@ + "\n\nImmutable attachments:\n"@;
        let at = choose|at: int| stands_at(lines, line, at);
        assert(form =~= head + lines);
        assert(form.subrange(head.len() + at, head.len() + at + line.len() as int)
            =~= lines.subrange(at, at + line.len() as int));
        assert(stands_at(form, line, head.len() + at));
    }
}

/// A media type of images.
pub open spec fn is_image(a: ResolvedAttachment) -> bool {
    a.media_type@.len() >= 6 && a.media_type@.take(6) == "image/"@
}

proof fn images_are_those_of_image_types(list: Seq<ResolvedAttachment>, n: nat)
    requires
        n <= list.len(),
    ensures
        forall|i: int|
            0 <= i < n && is_image(#[trigger] list[i]) ==> images(list, n).contains(
                CodexInputView::LocalImage { path: list[i].path@ },
            ),
        forall|k: int|
            0 <= k < images(list, n).len() ==> exists|i: int|
                0 <= i < n && is_image(#[trigger] list[i]) && #[trigger] images(list, n)[k]
                    == (CodexInputView::LocalImage { path: list[i].path@ }),
    decreases n,
{
    if n > 0 {
        images_are_those_of_image_types(list, (n - 1) as nat);
        let before = images(list, (n - 1) as nat);
        let all = images(list, n);
        let a = list[n - 1];
        reveal_strlit("image/");
        assert(is_image(a) == crate::text::has_prefix(a.media_type@, "image/"@)) by {
            if a.media_type@.len() >= 6 {
                assert(a.media_type@.take(6) =~= a.media_type@.subrange(0, 6));
            }
        }
        assert forall|i: int| 0 <= i < n && is_image(#[trigger] list[i]) implies all.contains(
            CodexInputView::LocalImage { path: list[i].path@ },
        ) by {
            let shown = CodexInputView::LocalImage { path: list[i].path@ };
            if i < n - 1 {
                assert(before.contains(shown));
                let k = choose|k: int| 0 <= k < before.len() && before[k] == shown;
                assert(all[k] == shown);
            } else {
                assert(all[all.len() - 1] == shown);
            }
        }
        assert forall|k: int| 0 <= k < all.len() implies exists|i: int|
            0 <= i < n && is_image(#[trigger] list[i]) && #[trigger] all[k] == (
            CodexInputView::LocalImage { path: list[i].path@ }) by {
            if k < before.len() {
                assert(all[k] == before[k]);
                let i = choose|i: int|
                    0 <= i < n - 1 && is_image(#[trigger] list[i]) && before[k] == (
                    CodexInputView::LocalImage { path: list[i].path@ });
                assert(is_image(list[i]));
            } else {
                assert(is_image(list[n - 1]));
            }
        }
    }
}

/// The input of a Codex turn starts with the text, and behind it stand the images among the
/// attachments and nothing else.
pub proof fn codex_gets_text_and_images(delivery: ResolvedDelivery)
    ensures
        ({
            let input = codex_input_form(delivery);
            let list = delivery.attachments@;
            &&& input.len() >= 1
            &&& input[0] == (CodexInputView::Text { text: delivery_form(delivery) })
            &&& forall|i: int|
                0 <= i < list.len() && is_image(#[trigger] list[i]) ==> input.contains(
                    CodexInputView::LocalImage { path: list[i].path@ },
                )
            &&& forall|k: int|
                1 <= k < input.len() ==> exists|i: int|
                    0 <= i < list.len() && is_image(#[trigger] list[i]) && #[trigger] input[k]
                        == (CodexInputView::LocalImage { path: list[i].path@ })
        }),
{
    let input = codex_input_form(delivery);
    let list = delivery.attachments@;
    images_are_those_of_image_types(list, list.len());
    let shown = images(list, list.len());
    assert forall|i: int| 0 <= i < list.len() && is_image(#[trigger] list[i]) implies input.contains(
        CodexInputView::LocalImage { path: list[i].path@ },
    ) by {
        let item = CodexInputView::LocalImage { path: list[i].path@ };
        assert(shown.contains(item));
        let k = choose|k: int| 0 <= k < shown.len() && shown[k] == item;
        assert(input[k + 1] == item);
    }
    assert forall|k: int| 1 <= k < input.len() implies exists|i: int|
        0 <= i < list.len() && is_image(#[trigger] list[i]) && #[trigger] input[k] == (
        CodexInputView::LocalImage { path: list[i].path@ }) by {
        assert(input[k] == shown[k - 1]);
    }
}

} // verus!
