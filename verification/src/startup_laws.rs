//! What a provider is started with, and when it is ready.
use vstd::prelude::*;

use crate::adapter::{AdapterFault, HarnessStartSpec, NativeDeliveryKind};
use crate::contract::{HarnessKind, HarnessTier};
use crate::json::{member, text_member, JsonTree};
use crate::mcp::{answer_to, requested, AnswerBodyView};
use crate::mcp_tools::{offered_to, tool_names_differ, Tool};
use crate::process_adapter::ProviderView;
use crate::provider_session::{
    accepted_turn, codex_turn_for, flag, flags, is_herdr, missing_tools, omp_command_line,
    policies, readiness, required_tools, tool_answer, version_refusal, CodexTurnView, VersionEnd,
};
use crate::select::{first_found, first_missing, first_where};
use crate::text::{optional_text, texts};

verus! {

// ---------------------------------------------------------------------------------------------
// Arguments
// ---------------------------------------------------------------------------------------------

/// A name stands in a list with a value behind it.
pub open spec fn gives(list: Seq<Seq<char>>, name: Seq<char>, value: Seq<char>) -> bool {
    exists|i: int|
        0 <= i && i + 1 < list.len() && #[trigger] list[i] == name && list[i + 1] == value
}

proof fn given_values_stay_given(
    a: Seq<Seq<char>>,
    b: Seq<Seq<char>>,
    name: Seq<char>,
    value: Seq<char>,
)
    ensures
        gives(a, name, value) ==> gives(a + b, name, value),
        gives(b, name, value) ==> gives(a + b, name, value),
{
    let all = a + b;
    if gives(a, name, value) {
        let i = choose|i: int|
            0 <= i && i + 1 < a.len() && #[trigger] a[i] == name && a[i + 1] == value;
        assert(all[i] == name && all[i + 1] == value);
    }
    if gives(b, name, value) {
        let i = choose|i: int|
            0 <= i && i + 1 < b.len() && #[trigger] b[i] == name && b[i + 1] == value;
        let k = a.len() + i;
        assert(all[k] == b[i] && all[k + 1] == b[i + 1]);
    }
}

proof fn listed_values_are_given(name: Seq<char>, values: Seq<Seq<char>>, n: nat, k: int)
    requires
        0 <= k < n <= values.len(),
    ensures
        gives(flags(name, values, n), name, values[k]),
    decreases n,
{
    let before = flags(name, values, (n - 1) as nat);
    let last = seq![name, values[n - 1]];
    given_values_stay_given(before, last, name, values[k]);
    if k == n - 1 {
        assert(last[0] == name && last[1] == values[k]);
    } else {
        listed_values_are_given(name, values, (n - 1) as nat, k);
    }
}

/// OMP is started in its directories, in the mode that the Coordinator speaks, with the profile,
/// the model and the Session to resume where there are any, and with every overlay.
pub proof fn omp_is_started_as_specified(
    spec: HarnessStartSpec,
    session_dir: Seq<char>,
    resume: Option<Seq<char>>,
    k: int,
)
    ensures
        ({
            let line = omp_command_line(spec, session_dir, resume);
            &&& gives(line, "--mode"@, "rpc"@)
            &&& gives(line, "--cwd"@, spec.cwd@)
            &&& gives(line, "--session-dir"@, session_dir)
            &&& spec.provider_profile is Some ==> gives(
                line,
                "--profile"@,
                spec.provider_profile->0@,
            )
            &&& spec.model is Some ==> gives(line, "--model"@, spec.model->0@)
            &&& resume is Some ==> gives(line, "--resume"@, resume->0)
            &&& 0 <= k < spec.config_overlays@.len() ==> gives(
                line,
                "--config"@,
                spec.config_overlays@[k]@,
            )
            &&& line.len() == 6 + 2 * spec.config_overlays@.len() + (if spec.provider_profile is Some {
                2int
            } else {
                0
            }) + (if spec.model is Some {
                2int
            } else {
                0
            }) + (if resume is Some {
                2int
            } else {
                0
            })
        }),
{
    let p = flag("--profile"@, optional_text(spec.provider_profile));
    let m = flag("--model"@, optional_text(spec.model));
    let r = flag("--resume"@, resume);
    let fixed = seq![
        "--mode"@,
        "rpc"@,
        "--cwd"@,
        spec.cwd@,
        "--session-dir"@,
        session_dir,
    ];
    let values = texts(spec.config_overlays@);
    let c = flags("--config"@, values, values.len());
    listed_values_have_a_length("--config"@, values, values.len());
    let line = omp_command_line(spec, session_dir, resume);
    assert(line == p + m + r + fixed + c);
    assert(fixed[0] == "--mode"@ && fixed[1] == "rpc"@);
    assert(fixed[2] == "--cwd"@ && fixed[3] == spec.cwd@);
    assert(fixed[4] == "--session-dir"@ && fixed[5] == session_dir);
    let (x, y) = (p + m + r, p + m + r + fixed);
    given_values_stay_given(x, fixed, "--mode"@, "rpc"@);
    given_values_stay_given(y, c, "--mode"@, "rpc"@);
    given_values_stay_given(x, fixed, "--cwd"@, spec.cwd@);
    given_values_stay_given(y, c, "--cwd"@, spec.cwd@);
    given_values_stay_given(x, fixed, "--session-dir"@, session_dir);
    given_values_stay_given(y, c, "--session-dir"@, session_dir);
    if let Some(text) = spec.provider_profile {
        let v = text@;
        assert(p[0] == "--profile"@ && p[1] == v);
        given_values_stay_given(p, m, "--profile"@, v);
        given_values_stay_given(p + m, r, "--profile"@, v);
        given_values_stay_given(x, fixed, "--profile"@, v);
        given_values_stay_given(y, c, "--profile"@, v);
    }
    if let Some(text) = spec.model {
        let v = text@;
        assert(m[0] == "--model"@ && m[1] == v);
        given_values_stay_given(p, m, "--model"@, v);
        given_values_stay_given(p + m, r, "--model"@, v);
        given_values_stay_given(x, fixed, "--model"@, v);
        given_values_stay_given(y, c, "--model"@, v);
    }
    if let Some(v) = resume {
        assert(r[0] == "--resume"@ && r[1] == v);
        given_values_stay_given(p + m, r, "--resume"@, v);
        given_values_stay_given(x, fixed, "--resume"@, v);
        given_values_stay_given(y, c, "--resume"@, v);
    }
    if 0 <= k < spec.config_overlays@.len() {
        listed_values_are_given("--config"@, values, values.len(), k);
        given_values_stay_given(y, c, "--config"@, values[k]);
    }
}

proof fn listed_values_have_a_length(name: Seq<char>, values: Seq<Seq<char>>, n: nat)
    requires
        n <= values.len(),
    ensures
        flags(name, values, n).len() == 2 * n,
    decreases n,
{
    if n > 0 {
        listed_values_have_a_length(name, values, (n - 1) as nat);
    }
}

/// A Codex thread is opened with both policies of its profile, and not without one of them.
pub proof fn codex_needs_both_policies(spec: HarnessStartSpec)
    ensures
        policies(spec) is Ok <==> spec.codex_approval_policy is Some
            && spec.codex_sandbox_mode is Some,
        policies(spec) is Ok ==> policies(spec)->Ok_0.approval_policy
            == spec.codex_approval_policy->0 && policies(spec)->Ok_0.sandbox
            == spec.codex_sandbox_mode->0,
{
}

/// A provider is accepted exactly where its version check succeeded within its limit and said the
/// one version that is known, with at most one line ending.
pub proof fn one_version_of_each_provider_is_accepted(
    kind: HarnessKind,
    size: usize,
    output: Result<String, String>,
    end: VersionEnd,
)
    ensures
        ({
            let known = match kind {
                HarnessKind::Omp => "omp/17.0.2"@,
                HarnessKind::Codex => "codex-cli 0.144.5"@,
            };
            version_refusal(kind, size, output, end) is None ==> size <= 4096 && end is Succeeded
                && output is Ok && (output->Ok_0@ == known || output->Ok_0@ == known + "\n"@
                || output->Ok_0@ == known + "\r\n"@)
        }),
        size <= 4096 && end is Succeeded && output is Ok && kind == HarnessKind::Omp
            && output->Ok_0@ == "omp/17.0.2"@ + "\n"@ ==> version_refusal(kind, size, output, end)
            is None,
        size <= 4096 && end is Succeeded && output is Ok && kind == HarnessKind::Codex
            && output->Ok_0@ == "codex-cli 0.144.5"@ + "\n"@ ==> version_refusal(
            kind,
            size,
            output,
            end,
        ) is None,
{
    reveal_strlit("omp/17.0.2");
    reveal_strlit("codex-cli 0.144.5");
    reveal_strlit("\n");
    reveal_strlit("\r\n");
    if output is Ok {
        let text = output->Ok_0@;
        let n = text.len() as int;
        if n >= 2 && text.subrange(n - 2, n) == "\r\n"@ {
            assert(text =~= text.take(n - 2) + "\r\n"@);
        }
        if n >= 1 && text.subrange(n - 1, n) == "\n"@ {
            assert(text =~= text.take(n - 1) + "\n"@);
        }
        let a = "omp/17.0.2"@ + "\n"@;
        let b = "codex-cli 0.144.5"@ + "\n"@;
        assert(a.subrange(10, 11) =~= "\n"@);
        assert(a.take(10) =~= "omp/17.0.2"@);
        assert(b.subrange(17, 18) =~= "\n"@);
        assert(b.take(17) =~= "codex-cli 0.144.5"@);
        if a.subrange(9, 11) == "\r\n"@ {
            assert(a.subrange(9, 11)[0] == a[9]);
        }
        if b.subrange(16, 18) == "\r\n"@ {
            assert(b.subrange(16, 18)[0] == b[16]);
        }
    }
}

// ---------------------------------------------------------------------------------------------
// Readiness
// ---------------------------------------------------------------------------------------------

proof fn nothing_is_missing(tools: JsonTree, tier: HarnessTier, n: nat)
    requires
        n <= 7,
    ensures
        (missing_tools(tools, tier, n).len() == 0) == (forall|k: int|
            0 <= k < n ==> member(tools, #[trigger] required_tools(tier)[k]) is Some),
    decreases n,
{
    if n > 0 {
        nothing_is_missing(tools, tier, (n - 1) as nat);
        if missing_tools(tools, tier, n).len() == 0 {
            assert forall|k: int| 0 <= k < n implies member(
                tools,
                #[trigger] required_tools(tier)[k],
            ) is Some by {}
        }
        if forall|k: int|
            0 <= k < n ==> member(tools, #[trigger] required_tools(tier)[k]) is Some {
            assert(member(tools, required_tools(tier)[n - 1]) is Some);
        }
    }
}

/// The Coordinator's tools are ready where the first tool server of that name lists all that the
/// tier needs: a Worker those to look around, to ask, to send and to complete, a Supervisor those
/// to look around, to start Workers, to create and approve Tasks and to take events.
pub proof fn tools_are_ready_when_listed(
    status: JsonTree,
    servers: Seq<JsonTree>,
    i: int,
    tools: JsonTree,
)
    requires
        member(status, "data"@) == Some(JsonTree::Array(servers)),
        0 <= i < servers.len(),
        text_member(servers[i], "name"@) == Some("herdr"@),
        forall|j: int|
            0 <= j < i ==> text_member(#[trigger] servers[j], "name"@) != Some("herdr"@),
        member(servers[i], "tools"@) == Some(tools),
        tools is Object,
    ensures
        readiness(Some(status), HarnessTier::Worker) is None <==> {
            &&& member(tools, "harness_list"@) is Some
            &&& member(tools, "harness_status"@) is Some
            &&& member(tools, "harness_inbox"@) is Some
            &&& member(tools, "harness_request"@) is Some
            &&& member(tools, "harness_send"@) is Some
            &&& member(tools, "harness_complete"@) is Some
            &&& member(tools, "harness_attachment_create"@) is Some
        },
        readiness(Some(status), HarnessTier::Supervisor) is None <==> {
            &&& member(tools, "harness_status"@) is Some
            &&& member(tools, "harness_inbox"@) is Some
            &&& member(tools, "harness_supervisor_events"@) is Some
            &&& member(tools, "harness_start"@) is Some
            &&& member(tools, "harness_task_create"@) is Some
            &&& member(tools, "harness_task_approve"@) is Some
            &&& member(tools, "harness_supervisor_event_ack"@) is Some
        },
{
    let p = is_herdr();
    assert forall|j: int| 0 <= j < i implies !p(#[trigger] servers[j]) by {
        assert(text_member(servers[j], "name"@) != Some("herdr"@));
    }
    first_found(servers, p, i);
    nothing_is_missing(tools, HarnessTier::Worker, 7);
    nothing_is_missing(tools, HarnessTier::Supervisor, 7);
    let w = required_tools(HarnessTier::Worker);
    let s = required_tools(HarnessTier::Supervisor);
    assert(w[0] == "harness_list"@ && w[1] == "harness_status"@ && w[2] == "harness_inbox"@ && w[3]
        == "harness_request"@ && w[4] == "harness_send"@ && w[5] == "harness_complete"@ && w[6]
        == "harness_attachment_create"@);
    assert(s[0] == "harness_status"@ && s[1] == "harness_inbox"@ && s[2]
        == "harness_supervisor_events"@ && s[3] == "harness_start"@ && s[4]
        == "harness_task_create"@ && s[5] == "harness_task_approve"@ && s[6]
        == "harness_supervisor_event_ack"@);
}

/// Without the Coordinator's server among those that are reported, the tools are not ready; a
/// provider that reports none is trusted.
pub proof fn missing_servers_are_not_ready(status: JsonTree, tier: HarnessTier)
    ensures
        readiness(None, tier) is None,
        !(member(status, "data"@) matches Some(JsonTree::Array(_))) ==> readiness(
            Some(status),
            tier,
        ) is Some,
        forall|servers: Seq<JsonTree>|
            member(status, "data"@) == Some(JsonTree::Array(servers)) && (forall|j: int|
                0 <= j < servers.len() ==> text_member(#[trigger] servers[j], "name"@) != Some(
                    "herdr"@,
                )) ==> #[trigger] first_where(servers, is_herdr()) is None && readiness(
                Some(status),
                tier,
            ) is Some,
{
    assert forall|servers: Seq<JsonTree>|
        member(status, "data"@) == Some(JsonTree::Array(servers)) && (forall|j: int|
            0 <= j < servers.len() ==> text_member(#[trigger] servers[j], "name"@) != Some(
                "herdr"@,
            )) implies #[trigger] first_where(servers, is_herdr()) is None && readiness(
        Some(status),
        tier,
    ) is Some by {
        let p = is_herdr();
        assert forall|j: int| 0 <= j < servers.len() implies !p(#[trigger] servers[j]) by {
            assert(text_member(servers[j], "name"@) != Some("herdr"@));
        }
        first_missing(servers, p);
    }
}

// ---------------------------------------------------------------------------------------------
// Turns and answers
// ---------------------------------------------------------------------------------------------

/// Input reaches Codex in its thread: it begins a turn, or steers the one that is active; it never
/// queues behind one.
pub proof fn input_reaches_the_thread(kind: NativeDeliveryKind, state: ProviderView)
    ensures
        kind == NativeDeliveryKind::FollowUp || state.thread_id is None ==> codex_turn_for(
            kind,
            state,
        ) is Err,
        kind == NativeDeliveryKind::StartTurn && state.thread_id is Some ==> codex_turn_for(
            kind,
            state,
        ) == Ok::<CodexTurnView, AdapterFault>(
            CodexTurnView::Start { thread: state.thread_id->0 },
        ),
        kind == NativeDeliveryKind::Steer && state.thread_id is Some && state.active_turn_id is Some
            ==> codex_turn_for(kind, state) == Ok::<CodexTurnView, AdapterFault>(
            CodexTurnView::Steer {
                thread: state.thread_id->0,
                turn: state.active_turn_id->0,
            },
        ),
        kind == NativeDeliveryKind::Steer && state.active_turn_id is None ==> codex_turn_for(
            kind,
            state,
        ) is Err,
{
}

/// The turn that took input is named in the answer, by the turn itself or by its identifier alone.
pub proof fn accepted_turns_are_named(t: JsonTree, turn: JsonTree, id: Seq<char>)
    ensures
        member(t, "turn"@) == Some(turn) && text_member(turn, "id"@) == Some(id) ==> accepted_turn(t)
            == Some(id),
        member(t, "turn"@) is None && text_member(t, "turnId"@) == Some(id) ==> accepted_turn(t)
            == Some(id),
        member(t, "turn"@) is None && text_member(t, "turnId"@) is None ==> accepted_turn(t) is None,
{
}

/// The answer to a tool call tells whether the tool failed; without a result it tells what went
/// wrong.
pub proof fn tool_answers_tell_failures(t: JsonTree, result: JsonTree, e: JsonTree, text: Seq<char>)
    ensures
        member(t, "result"@) == Some(result) && member(result, "isError"@) == Some(
            JsonTree::Bool(true),
        ) ==> tool_answer(Some(t)) == Ok::<bool, Seq<char>>(true),
        member(t, "result"@) == Some(result) && (member(result, "isError"@) is None || member(
            result,
            "isError"@,
        ) == Some(JsonTree::Bool(false))) ==> tool_answer(Some(t)) == Ok::<bool, Seq<char>>(false),
        member(t, "result"@) is None && member(t, "error"@) == Some(e) && text_member(
            e,
            "message"@,
        ) == Some(text) ==> tool_answer(Some(t)) == Err::<bool, Seq<char>>(text),
        member(t, "result"@) is None ==> tool_answer(Some(t)) is Err,
        tool_answer(None) is Err,
{
}

/// Requests are answered by their method; a call of a tool is answered with what came of it,
/// flagged where it failed, and a method that is not known with the error for that.
pub proof fn requests_are_answered_by_method(
    request: JsonTree,
    called: Result<JsonTree, Seq<char>>,
)
    ensures
        text_member(request, "method"@) == Some("tools/call"@) && called is Ok ==> answer_to(
            requested(request),
            called,
        ) == (AnswerBodyView::ToolResult { value: called->Ok_0 }),
        text_member(request, "method"@) == Some("tools/call"@) && called is Err ==> answer_to(
            requested(request),
            called,
        ) == (AnswerBodyView::ToolError { text: called->Err_0 }),
        text_member(request, "method"@) == Some("ping"@) ==> answer_to(requested(request), called)
            == AnswerBodyView::Pong,
        text_member(request, "method"@) == Some("initialize"@) ==> answer_to(
            requested(request),
            called,
        ) is Initialized,
        text_member(request, "method"@) == Some("tools/list"@) ==> answer_to(
            requested(request),
            called,
        ) is Tools,
        answer_to(requested(request), called) is Refused ==> text_member(request, "method"@) != Some(
            "tools/call"@,
        ) && text_member(request, "method"@) != Some("ping"@) && text_member(request, "method"@)
            != Some("initialize"@) && text_member(request, "method"@) != Some("tools/list"@),
        text_member(request, "method"@) is None ==> answer_to(requested(request), called) == (
        AnswerBodyView::Refused { code: -32601, message: "method not found"@ }),
{
    reveal_strlit("initialize");
    reveal_strlit("ping");
    reveal_strlit("tools/list");
    reveal_strlit("tools/call");
    reveal_strlit("");
    assert("initialize"@.len() == 10 && "ping"@.len() == 4 && ""@.len() == 0);
    assert("tools/list"@.len() == 10 && "tools/call"@.len() == 10);
    assert("tools/list"@[6] == 'l' && "tools/call"@[6] == 'c');
    assert("initialize"@[0] == 'i' && "tools/list"@[0] == 't' && "tools/call"@[0] == 't');
}

/// A Worker is offered exactly the tools to look around, to ask and answer, to complete its work
/// and to attach; the Supervisor is offered every tool.
pub proof fn tiers_are_offered_their_tools(t: Tool)
    ensures
        offered_to(HarnessTier::Supervisor)(t),
        offered_to(HarnessTier::Worker)(t) <==> t == Tool::List || t == Tool::Status || t
            == Tool::Inbox || t == Tool::Request || t == Tool::Send || t == Tool::Complete || t
            == Tool::AttachmentCreate,
{
    let w = required_tools(HarnessTier::Worker);
    tool_names_differ(t, Tool::List);
    tool_names_differ(t, Tool::Status);
    tool_names_differ(t, Tool::Inbox);
    tool_names_differ(t, Tool::Request);
    tool_names_differ(t, Tool::Send);
    tool_names_differ(t, Tool::Complete);
    tool_names_differ(t, Tool::AttachmentCreate);
    assert(w[0] == Tool::List.name());
    assert(w[1] == Tool::Status.name());
    assert(w[2] == Tool::Inbox.name());
    assert(w[3] == Tool::Request.name());
    assert(w[4] == Tool::Send.name());
    assert(w[5] == Tool::Complete.name());
    assert(w[6] == Tool::AttachmentCreate.name());
    if w.contains(t.name()) {
        let k = choose|k: int| 0 <= k < w.len() && w[k] == t.name();
        assert(k == 0 || k == 1 || k == 2 || k == 3 || k == 4 || k == 5 || k == 6);
    }
}

} // verus!
