//! Starting a provider, delivering to it and stopping it: what is asked for, and what the answers
//! come to.
use vstd::prelude::*;

use crate::adapter::{
    operation, validate_codex_version_output, validate_omp_version_output, without_ending,
    AdapterError, AdapterFault, AdapterLifecycle, HarnessStartSpec, NativeAcceptance,
    NativeDeliveryKind, NativeSession, NativeSessionView, CODEX_VERSION_OUTPUT, OMP_VERSION_OUTPUT,
};
use crate::contract::{CodexApprovalPolicy, CodexSandboxMode, HarnessKind, HarnessTier};
use crate::json::{
    bool_in, count_parts, field, get_bool, get_element, get_member, is_array, is_object, json_form,
    member, number, number_member, render, text_member, tree, JsonTree,
};
use crate::process_adapter::{
    compatible_model, compatible_omp_model, model, reported_model, text_view, ProviderState,
    ProviderView,
};
use crate::select::{first_found, first_missing, first_where};
use crate::text::{
    contains_text, includes, join, join3, join_words, joined, optional_text, same_text, texts,
};

verus! {

fn push_word(v: &mut Vec<String>, word: &str)
    ensures
        texts(final(v)@) == texts(old(v)@).push(word@),
{
    let ghost before = texts(v@);
    v.push(word.to_owned());
    assert(texts(v@) =~= before.push(word@));
}

pub open spec fn failed(kind: HarnessKind, message: Seq<char>) -> AdapterFault {
    AdapterFault::Operation { kind, message }
}

fn fail(kind: HarnessKind, message: &str) -> (r: AdapterError)
    ensures
        r@ == failed(kind, message@),
{
    operation(kind, message.to_owned())
}

/// Requires that a provider was not started before.
pub fn ensure_fresh(kind: HarnessKind, started: bool) -> (r: Result<(), AdapterError>)
    ensures
        match r {
            Ok(_) => !started,
            Err(e) => started && e@ == failed(kind, "Adapter is already started"@),
        },
{
    if started {
        Err(fail(kind, "Adapter is already started"))
    } else {
        Ok(())
    }
}

// ---------------------------------------------------------------------------------------------
// OMP
// ---------------------------------------------------------------------------------------------

/// A flag with its value, where there is one.
pub open spec fn flag(name: Seq<char>, value: Option<Seq<char>>) -> Seq<Seq<char>> {
    match value {
        Some(v) => seq![name, v],
        None => Seq::empty(),
    }
}

/// A flag for each of the first `n` values.
pub open spec fn flags(name: Seq<char>, values: Seq<Seq<char>>, n: nat) -> Seq<Seq<char>>
    decreases n,
{
    if n == 0 {
        Seq::empty()
    } else {
        flags(name, values, (n - 1) as nat) + seq![name, values[n - 1]]
    }
}

/// The arguments of an OMP process.
pub open spec fn omp_command_line(
    spec: HarnessStartSpec,
    session_dir: Seq<char>,
    resume: Option<Seq<char>>,
) -> Seq<Seq<char>> {
    flag("--profile"@, optional_text(spec.provider_profile)) + flag(
        "--model"@,
        optional_text(spec.model),
    ) + flag("--resume"@, resume) + seq![
        "--mode"@,
        "rpc"@,
        "--cwd"@,
        spec.cwd@,
        "--session-dir"@,
        session_dir,
    ] + flags("--config"@, texts(spec.config_overlays@), spec.config_overlays@.len())
}

fn push_flag(v: &mut Vec<String>, name: &str, value: Option<&str>)
    ensures
        texts(final(v)@) == texts(old(v)@) + flag(name@, text_view(value)),
{
    let ghost before = texts(v@);
    if let Some(value) = value {
        push_word(v, name);
        push_word(v, value);
        assert(texts(v@) =~= before + seq![name@, value@]);
    } else {
        assert(texts(v@) =~= before + Seq::<Seq<char>>::empty());
    }
}

fn as_ref_text(text: &Option<String>) -> (r: Option<&str>)
    ensures
        text_view(r) == optional_text(*text),
{
    match text {
        Some(s) => Some(s.as_str()),
        None => None,
    }
}

/// The arguments of an OMP process.
pub fn omp_arguments(spec: &HarnessStartSpec, session_dir: &str, resume: Option<&str>) -> (r: Vec<
    String,
>)
    ensures
        texts(r@) == omp_command_line(*spec, session_dir@, text_view(resume)),
{
    let mut r: Vec<String> = Vec::new();
    assert(texts(r@) =~= Seq::<Seq<char>>::empty());
    push_flag(&mut r, "--profile", as_ref_text(&spec.provider_profile));
    push_flag(&mut r, "--model", as_ref_text(&spec.model));
    push_flag(&mut r, "--resume", resume);
    let ghost head = texts(r@);
    assert(head =~= flag("--profile"@, optional_text(spec.provider_profile)) + flag(
        "--model"@,
        optional_text(spec.model),
    ) + flag("--resume"@, text_view(resume)));
    push_word(&mut r, "--mode");
    push_word(&mut r, "rpc");
    push_word(&mut r, "--cwd");
    push_word(&mut r, spec.cwd.as_str());
    push_word(&mut r, "--session-dir");
    push_word(&mut r, session_dir);
    let ghost fixed = texts(r@);
    assert(fixed =~= head + seq![
        "--mode"@,
        "rpc"@,
        "--cwd"@,
        spec.cwd@,
        "--session-dir"@,
        session_dir@,
    ]);
    let mut i: usize = 0;
    let ghost overlays = texts(spec.config_overlays@);
    assert(texts(r@) =~= fixed + flags("--config"@, overlays, 0));
    while i < spec.config_overlays.len()
        invariant
            i <= spec.config_overlays.len(),
            overlays == texts(spec.config_overlays@),
            texts(r@) == fixed + flags("--config"@, overlays, i as nat),
        decreases spec.config_overlays.len() - i,
    {
        push_word(&mut r, "--config");
        push_word(&mut r, spec.config_overlays[i].as_str());
        i += 1;
        assert(texts(r@) =~= fixed + flags("--config"@, overlays, i as nat));
    }
    r
}

/// What a started OMP process reports: a resumed Session is the one that was asked for.
pub open spec fn omp_session(
    spec: HarnessStartSpec,
    resume: Option<Seq<char>>,
    t: JsonTree,
) -> Result<NativeSessionView, AdapterFault> {
    let session_id = text_member(t, "sessionId"@);
    if resume is Some && session_id != resume {
        Err(
            failed(
                HarnessKind::Omp,
                "resumed Session identity mismatch: expected `"@ + resume->0 + "`, observed `"@ + (
                match session_id {
                    Some(s) => s,
                    None => "missing"@,
                }) + "`"@,
            ),
        )
    } else {
        Ok(
            NativeSessionView {
                session_id,
                thread_id: None,
                cwd: spec.cwd@,
                model: compatible_model(optional_text(spec.model), reported_model(t)),
            },
        )
    }
}

/// Settles the start of an OMP process by its first state report.
pub fn settle_omp_start(
    spec: &HarnessStartSpec,
    resume: Option<&str>,
    value: &serde_json::Value,
    state: &mut ProviderState,
) -> (r: Result<NativeSession, AdapterError>)
    ensures
        match (r, omp_session(*spec, text_view(resume), tree(*value))) {
            (Ok(native), Ok(view)) => native@ == view && final(state)@ == (ProviderView {
                lifecycle: AdapterLifecycle::Idle,
                session_id: view.session_id,
                model: view.model,
                queued_input_count: number_member(tree(*value), "queuedMessageCount"@),
                ..old(state)@
            }),
            (Err(e), Err(f)) => e@ == f && final(state)@ == old(state)@,
            _ => false,
        },
{
    let session_id = field(value, "sessionId");
    if let Some(expected) = resume {
        let same = match &session_id {
            Some(s) => same_text(s.as_str(), expected),
            None => false,
        };
        if !same {
            let mut message = join3(
                "resumed Session identity mismatch: expected `",
                expected,
                "`, observed `",
            );
            match &session_id {
                Some(s) => {
                    message.append(s.as_str());
                },
                None => {
                    message.append("missing");
                },
            }
            message.append("`");
            return Err(operation(HarnessKind::Omp, message));
        }
    }
    let kept = compatible_omp_model(as_ref_text(&spec.model), model(value));
    state.lifecycle = AdapterLifecycle::Idle;
    state.session_id = copy(&session_id);
    state.model = copy(&kept);
    state.queued_input_count = number(value, "queuedMessageCount");
    Ok(
        NativeSession {
            session_id,
            thread_id: None,
            cwd: spec.cwd.as_str().to_owned(),
            model: kept,
        },
    )
}

fn copy(text: &Option<String>) -> (r: Option<String>)
    ensures
        optional_text(r) == optional_text(*text),
{
    match text {
        Some(s) => Some(s.as_str().to_owned()),
        None => None,
    }
}

// ---------------------------------------------------------------------------------------------
// Codex
// ---------------------------------------------------------------------------------------------

/// Requires a start that Codex can make: without a command-line profile.
pub fn require_codex_start(spec: &HarnessStartSpec) -> (r: Result<(), AdapterError>)
    ensures
        match r {
            Ok(_) => spec.provider_profile is None,
            Err(e) => spec.provider_profile is Some && e@ == failed(
                HarnessKind::Codex,
                "Codex App Server does not accept CLI profiles; use a v3 launch profile with explicit approval_policy and sandbox_mode"@,
            ),
        },
{
    if spec.provider_profile.is_some() {
        Err(
            fail(
                HarnessKind::Codex,
                "Codex App Server does not accept CLI profiles; use a v3 launch profile with explicit approval_policy and sandbox_mode",
            ),
        )
    } else {
        Ok(())
    }
}

/// The arguments of a Codex process, which reaches the Coordinator's tools through a command that
/// is given in its quoted form.
pub open spec fn codex_command_line(coordinator: Seq<char>) -> Seq<Seq<char>> {
    seq![
        "-c"@,
        "mcp_servers.herdr.command="@ + coordinator,
        "-c"@,
        "mcp_servers.herdr.args=[\"mcp\"]"@,
        "app-server"@,
        "--listen"@,
        "stdio://"@,
        "--strict-config"@,
    ]
}

/// The arguments of a Codex process.
pub fn codex_arguments(coordinator: &str) -> (r: Vec<String>)
    ensures
        texts(r@) == codex_command_line(coordinator@),
{
    let mut r: Vec<String> = Vec::new();
    let command = join("mcp_servers.herdr.command=", coordinator);
    push_word(&mut r, "-c");
    push_word(&mut r, command.as_str());
    push_word(&mut r, "-c");
    push_word(&mut r, "mcp_servers.herdr.args=[\"mcp\"]");
    push_word(&mut r, "app-server");
    push_word(&mut r, "--listen");
    push_word(&mut r, "stdio://");
    push_word(&mut r, "--strict-config");
    assert(texts(r@) =~= codex_command_line(coordinator@));
    r
}

/// How a Codex thread is opened.
#[derive(Debug, Clone, Copy, PartialEq, Eq, Structural)]
pub struct CodexPolicies {
    pub approval_policy: CodexApprovalPolicy,
    pub sandbox: CodexSandboxMode,
}

/// The policies that a Codex thread is opened with; both have to be given.
pub open spec fn policies(spec: HarnessStartSpec) -> Result<CodexPolicies, AdapterFault> {
    match (spec.codex_approval_policy, spec.codex_sandbox_mode) {
        (None, _) => Err(
            failed(
                HarnessKind::Codex,
                "Codex App Server requires a v3 launch profile with approval_policy"@,
            ),
        ),
        (Some(_), None) => Err(
            failed(
                HarnessKind::Codex,
                "Codex App Server requires a v3 launch profile with sandbox_mode"@,
            ),
        ),
        (Some(approval_policy), Some(sandbox)) => Ok(CodexPolicies { approval_policy, sandbox }),
    }
}

/// Requires the policies that a Codex thread is opened with.
pub fn codex_policies(spec: &HarnessStartSpec) -> (r: Result<CodexPolicies, AdapterError>)
    ensures
        crate::adapter::adapter_outcome(r) == policies(*spec),
{
    let approval_policy = match spec.codex_approval_policy {
        None => {
            return Err(
                fail(
                    HarnessKind::Codex,
                    "Codex App Server requires a v3 launch profile with approval_policy",
                ),
            );
        },
        Some(p) => p,
    };
    match spec.codex_sandbox_mode {
        None => Err(
            fail(
                HarnessKind::Codex,
                "Codex App Server requires a v3 launch profile with sandbox_mode",
            ),
        ),
        Some(sandbox) => Ok(CodexPolicies { approval_policy, sandbox }),
    }
}

/// The request by which a thread is opened.
pub open spec fn thread_method(resumed: bool) -> Seq<char> {
    if resumed {
        "thread/resume"@
    } else {
        "thread/start"@
    }
}

/// The request by which a thread is opened.
pub fn codex_thread_method(resumed: bool) -> (r: &'static str)
    ensures
        r@ == thread_method(resumed),
{
    if resumed {
        "thread/resume"
    } else {
        "thread/start"
    }
}

pub open spec fn thread_in(t: JsonTree) -> JsonTree {
    match member(t, "thread"@) {
        Some(thread) => thread,
        None => t,
    }
}

/// The first of three texts that is there.
pub open spec fn first_text(
    a: Option<Seq<char>>,
    b: Option<Seq<char>>,
    c: Option<Seq<char>>,
) -> Option<Seq<char>> {
    if a is Some {
        a
    } else if b is Some {
        b
    } else {
        c
    }
}

/// What an opened Codex thread reports: a resumed thread is the one that was asked for.
pub open spec fn codex_session(
    spec: HarnessStartSpec,
    resume: Option<Seq<char>>,
    t: JsonTree,
) -> Result<NativeSessionView, AdapterFault> {
    let thread = thread_in(t);
    match text_member(thread, "id"@) {
        None => Err(
            failed(HarnessKind::Codex, thread_method(resume is Some) + " omitted thread id"@),
        ),
        Some(id) => if resume is Some && resume->0 != id {
            Err(
                failed(
                    HarnessKind::Codex,
                    "resumed thread identity mismatch: expected `"@ + resume->0 + "`, observed `"@
                        + id + "`"@,
                ),
            )
        } else {
            Ok(
                NativeSessionView {
                    session_id: text_member(thread, "sessionId"@),
                    thread_id: Some(id),
                    cwd: first_text(
                        text_member(t, "cwd"@),
                        text_member(thread, "cwd"@),
                        Some(spec.cwd@),
                    )->0,
                    model: first_text(
                        text_member(t, "model"@),
                        text_member(thread, "model"@),
                        optional_text(spec.model),
                    ),
                },
            )
        },
    }
}

/// Reads what an opened Codex thread reports.
pub fn read_codex_session(
    spec: &HarnessStartSpec,
    resume: Option<&str>,
    value: &serde_json::Value,
) -> (r: Result<NativeSession, AdapterError>)
    ensures
        match (r, codex_session(*spec, text_view(resume), tree(*value))) {
            (Ok(native), Ok(view)) => native@ == view,
            (Err(e), Err(f)) => e@ == f,
            _ => false,
        },
{
    let thread = match get_member(value, "thread") {
        Some(thread) => thread,
        None => value,
    };
    let id = match field(thread, "id") {
        None => {
            return Err(
                operation(
                    HarnessKind::Codex,
                    join(codex_thread_method(resume.is_some()), " omitted thread id"),
                ),
            );
        },
        Some(id) => id,
    };
    if let Some(expected) = resume {
        if !same_text(expected, id.as_str()) {
            let mut message = join3(
                "resumed thread identity mismatch: expected `",
                expected,
                "`, observed `",
            );
            message.append(id.as_str());
            message.append("`");
            return Err(operation(HarnessKind::Codex, message));
        }
    }
    let cwd = match field(value, "cwd") {
        Some(cwd) => cwd,
        None => match field(thread, "cwd") {
            Some(cwd) => cwd,
            None => spec.cwd.as_str().to_owned(),
        },
    };
    let model = match field(value, "model") {
        Some(model) => Some(model),
        None => match field(thread, "model") {
            Some(model) => Some(model),
            None => copy(&spec.model),
        },
    };
    Ok(
        NativeSession {
            session_id: field(thread, "sessionId"),
            thread_id: Some(id),
            cwd,
            model,
        },
    )
}

/// Notes the thread of a started Codex process.
pub fn note_codex_session(state: &mut ProviderState, native: &NativeSession)
    ensures
        final(state)@ == (ProviderView {
            lifecycle: AdapterLifecycle::Idle,
            session_id: native@.session_id,
            thread_id: native@.thread_id,
            model: native@.model,
            ..old(state)@
        }),
{
    state.lifecycle = AdapterLifecycle::Idle;
    state.session_id = copy(&native.session_id);
    state.thread_id = copy(&native.thread_id);
    state.model = copy(&native.model);
}

// ---------------------------------------------------------------------------------------------
// Tool readiness
// ---------------------------------------------------------------------------------------------

/// The tools that a tier cannot do without.
pub open spec fn required_tools(tier: HarnessTier) -> Seq<Seq<char>> {
    match tier {
        HarnessTier::Worker => seq![
            "harness_list"@,
            "harness_status"@,
            "harness_inbox"@,
            "harness_request"@,
            "harness_send"@,
            "harness_complete"@,
            "harness_attachment_create"@,
        ],
        HarnessTier::Supervisor => seq![
            "harness_status"@,
            "harness_inbox"@,
            "harness_supervisor_events"@,
            "harness_start"@,
            "harness_task_create"@,
            "harness_task_approve"@,
            "harness_supervisor_event_ack"@,
        ],
    }
}

/// One of the tools that a tier cannot do without.
pub fn required_tool(tier: HarnessTier, i: usize) -> (r: Option<&'static str>)
    ensures
        match r {
            Some(name) => i < required_tools(tier).len() && name@ == required_tools(tier)[i as int],
            None => i >= required_tools(tier).len(),
        },
{
    match tier {
        HarnessTier::Worker => match i {
            0 => Some("harness_list"),
            1 => Some("harness_status"),
            2 => Some("harness_inbox"),
            3 => Some("harness_request"),
            4 => Some("harness_send"),
            5 => Some("harness_complete"),
            6 => Some("harness_attachment_create"),
            _ => None,
        },
        HarnessTier::Supervisor => match i {
            0 => Some("harness_status"),
            1 => Some("harness_inbox"),
            2 => Some("harness_supervisor_events"),
            3 => Some("harness_start"),
            4 => Some("harness_task_create"),
            5 => Some("harness_task_approve"),
            6 => Some("harness_supervisor_event_ack"),
            _ => None,
        },
    }
}

/// The Coordinator's entry in a list of tool servers.
pub open spec fn is_herdr() -> spec_fn(JsonTree) -> bool {
    |t: JsonTree| text_member(t, "name"@) == Some("herdr"@)
}

/// The tools that the Coordinator's server offers, where it is there.
pub open spec fn offered_tools(t: JsonTree) -> Result<JsonTree, AdapterFault> {
    match member(t, "data"@) {
        Some(JsonTree::Array(servers)) => match first_where(servers, is_herdr()) {
            Some(i) => match member(servers[i], "tools"@) {
                Some(tools) if tools is Object => Ok(tools),
                _ => Err(failed(HarnessKind::Codex, "herdr MCP server is not ready"@)),
            },
            None => Err(failed(HarnessKind::Codex, "herdr MCP server is not ready"@)),
        },
        _ => Err(failed(HarnessKind::Codex, "MCP status omitted data"@)),
    }
}

/// The first `n` required tools that are not offered.
pub open spec fn missing_tools(tools: JsonTree, tier: HarnessTier, n: nat) -> Seq<Seq<char>>
    decreases n,
{
    if n == 0 {
        Seq::empty()
    } else {
        let before = missing_tools(tools, tier, (n - 1) as nat);
        if member(tools, required_tools(tier)[n - 1]) is None {
            before.push(required_tools(tier)[n - 1])
        } else {
            before
        }
    }
}

/// Whether a status report of tool servers shows that the Coordinator's tools are ready; a provider
/// that cannot report it is trusted.
pub open spec fn readiness(status: Option<JsonTree>, tier: HarnessTier) -> Option<AdapterFault> {
    match status {
        None => None,
        Some(t) => match offered_tools(t) {
            Err(e) => Some(e),
            Ok(tools) => {
                let missing = missing_tools(tools, tier, 7);
                if missing.len() == 0 {
                    None
                } else {
                    Some(
                        failed(
                            HarnessKind::Codex,
                            "herdr MCP server is not ready; missing tools: "@ + joined(
                                missing,
                                ", "@,
                            ),
                        ),
                    )
                }
            },
        },
    }
}

fn find_offered(status: &serde_json::Value) -> (r: Result<&serde_json::Value, AdapterError>)
    ensures
        match (r, offered_tools(tree(*status))) {
            (Ok(tools), Ok(t)) => tree(*tools) == t,
            (Err(e), Err(f)) => e@ == f,
            _ => false,
        },
{
    let servers = match get_member(status, "data") {
        Some(data) => {
            if !is_array(data) {
                return Err(fail(HarnessKind::Codex, "MCP status omitted data"));
            }
            data
        },
        None => {
            return Err(fail(HarnessKind::Codex, "MCP status omitted data"));
        },
    };
    let ghost list = tree(*servers)->Array_0;
    let n = count_parts(servers);
    let mut i: usize = 0;
    while i < n
        invariant
            i <= n,
            n == list.len(),
            tree(*servers) == JsonTree::Array(list),
            member(tree(*status), "data"@) == Some(tree(*servers)),
            forall|j: int| 0 <= j < i ==> !is_herdr()(#[trigger] list[j]),
        decreases n - i,
    {
        if let Some(server) = get_element(servers, i) {
            let named = match field(server, "name") {
                Some(name) => same_text(name.as_str(), "herdr"),
                None => false,
            };
            if named {
                proof {
                    first_found(list, is_herdr(), i as int);
                }
                return match get_member(server, "tools") {
                    Some(tools) => if is_object(tools) {
                        Ok(tools)
                    } else {
                        Err(fail(HarnessKind::Codex, "herdr MCP server is not ready"))
                    },
                    None => Err(fail(HarnessKind::Codex, "herdr MCP server is not ready")),
                };
            }
        }
        i += 1;
    }
    proof {
        first_missing(list, is_herdr());
    }
    Err(fail(HarnessKind::Codex, "herdr MCP server is not ready"))
}

/// Requires that a status report of tool servers shows the Coordinator's tools.
pub fn verify_codex_mcp_readiness(status: Option<&serde_json::Value>, tier: HarnessTier) -> (r:
    Result<(), AdapterError>)
    ensures
        match readiness(reported(status), tier) {
            None => r is Ok,
            Some(f) => r is Err && r->Err_0@ == f,
        },
{
    let status = match status {
        None => {
            return Ok(());
        },
        Some(status) => status,
    };
    let tools = match find_offered(status) {
        Err(e) => {
            return Err(e);
        },
        Ok(tools) => tools,
    };
    let mut missing: Vec<String> = Vec::new();
    let mut i: usize = 0;
    assert(texts(missing@) =~= missing_tools(tree(*tools), tier, 0));
    while i < 7
        invariant
            i <= 7,
            required_tools(tier).len() == 7,
            texts(missing@) == missing_tools(tree(*tools), tier, i as nat),
        decreases 7 - i,
    {
        if let Some(name) = required_tool(tier, i) {
            if get_member(tools, name).is_none() {
                push_word(&mut missing, name);
            }
        }
        i += 1;
    }
    if missing.len() == 0 {
        return Ok(());
    }
    let list = join_words(&missing, ", ");
    Err(
        operation(
            HarnessKind::Codex,
            join("herdr MCP server is not ready; missing tools: ", list.as_str()),
        ),
    )
}

/// The report of a provider's tool servers, where it can give one.
pub open spec fn reported(status: Option<&serde_json::Value>) -> Option<JsonTree> {
    match status {
        Some(value) => Some(tree(*value)),
        None => None,
    }
}

/// Ends the start of a Codex process whose thread is open: it is idle once the Coordinator's tools
/// are ready, and otherwise nothing is noted of it.
pub fn settle_codex_start(
    native: NativeSession,
    status: Option<&serde_json::Value>,
    tier: HarnessTier,
    state: &mut ProviderState,
) -> (r: Result<NativeSession, AdapterError>)
    ensures
        match readiness(reported(status), tier) {
            None => r == Ok::<NativeSession, AdapterError>(native) && final(state)@ == (
            ProviderView {
                lifecycle: AdapterLifecycle::Idle,
                session_id: native@.session_id,
                thread_id: native@.thread_id,
                model: native@.model,
                ..old(state)@
            }),
            Some(f) => r is Err && r->Err_0@ == f && final(state)@ == old(state)@,
        },
{
    match verify_codex_mcp_readiness(status, tier) {
        Err(e) => Err(e),
        Ok(_) => {
            note_codex_session(state, &native);
            Ok(native)
        },
    }
}

// ---------------------------------------------------------------------------------------------
// Delivery
// ---------------------------------------------------------------------------------------------

/// The OMP command of a delivery.
pub open spec fn omp_command_name(kind: NativeDeliveryKind) -> Seq<char> {
    match kind {
        NativeDeliveryKind::StartTurn => "prompt"@,
        NativeDeliveryKind::FollowUp => "follow_up"@,
        NativeDeliveryKind::Steer => "steer"@,
    }
}

/// The OMP command of a delivery.
pub fn omp_command(kind: NativeDeliveryKind) -> (r: &'static str)
    ensures
        r@ == omp_command_name(kind),
{
    match kind {
        NativeDeliveryKind::StartTurn => "prompt",
        NativeDeliveryKind::FollowUp => "follow_up",
        NativeDeliveryKind::Steer => "steer",
    }
}

/// Acceptance of an OMP delivery.
pub fn omp_acceptance(correlation: String, kind: NativeDeliveryKind, value: &serde_json::Value) -> (r:
    NativeAcceptance)
    ensures
        r.correlation@ == correlation@,
        r.turn_id is None,
        r.evidence@ == "OMP accepted "@ + omp_command_name(kind) + ": "@ + json_form(tree(*value)),
{
    let mut evidence = join3("OMP accepted ", omp_command(kind), ": ");
    let text = render(value);
    evidence.append(text.as_str());
    NativeAcceptance { correlation, turn_id: None, evidence }
}

/// How input reaches Codex.
#[derive(Debug)]
#[allow(inconsistent_fields)]
pub enum CodexTurn {
    /// Begin a turn.
    Start { thread: String },
    /// Steer the active turn.
    Steer { thread: String, turn: String },
}

/// What a [`CodexTurn`] is.
#[allow(inconsistent_fields)]
pub enum CodexTurnView {
    Start { thread: Seq<char> },
    Steer { thread: Seq<char>, turn: Seq<char> },
}

impl View for CodexTurn {
    type V = CodexTurnView;

    open spec fn view(&self) -> CodexTurnView {
        match self {
            CodexTurn::Start { thread } => CodexTurnView::Start { thread: thread@ },
            CodexTurn::Steer { thread, turn } => CodexTurnView::Steer {
                thread: thread@,
                turn: turn@,
            },
        }
    }
}

/// How a delivery reaches Codex: it has no native queue, and only an active turn can be steered.
pub open spec fn codex_turn_for(kind: NativeDeliveryKind, state: ProviderView) -> Result<
    CodexTurnView,
    AdapterFault,
> {
    if kind == NativeDeliveryKind::FollowUp {
        Err(failed(HarnessKind::Codex, "active FollowUp must remain queued"@))
    } else {
        match state.thread_id {
            None => Err(failed(HarnessKind::Codex, "thread is not established"@)),
            Some(thread) => if kind == NativeDeliveryKind::StartTurn {
                Ok(CodexTurnView::Start { thread })
            } else {
                match state.active_turn_id {
                    None => Err(failed(HarnessKind::Codex, "no active turn"@)),
                    Some(turn) => Ok(CodexTurnView::Steer { thread, turn }),
                }
            },
        }
    }
}

/// Decides how a delivery reaches Codex.
pub fn codex_turn(kind: NativeDeliveryKind, state: &ProviderState) -> (r: Result<
    CodexTurn,
    AdapterError,
>)
    ensures
        match (r, codex_turn_for(kind, state@)) {
            (Ok(turn), Ok(view)) => turn@ == view,
            (Err(e), Err(f)) => e@ == f,
            _ => false,
        },
{
    if kind == NativeDeliveryKind::FollowUp {
        return Err(fail(HarnessKind::Codex, "active FollowUp must remain queued"));
    }
    let thread = match &state.thread_id {
        None => {
            return Err(fail(HarnessKind::Codex, "thread is not established"));
        },
        Some(thread) => thread.as_str().to_owned(),
    };
    if kind == NativeDeliveryKind::StartTurn {
        return Ok(CodexTurn::Start { thread });
    }
    match &state.active_turn_id {
        None => Err(fail(HarnessKind::Codex, "no active turn")),
        Some(turn) => Ok(CodexTurn::Steer { thread, turn: turn.as_str().to_owned() }),
    }
}

/// The turn that Codex accepted input for.
pub open spec fn accepted_turn(t: JsonTree) -> Option<Seq<char>> {
    let own = match member(t, "turn"@) {
        Some(turn) => text_member(turn, "id"@),
        None => None,
    };
    if own is Some {
        own
    } else {
        text_member(t, "turnId"@)
    }
}

/// Settles a delivery that Codex accepted: a turn that was begun and still runs is the active one.
pub fn settle_codex_dispatch(
    correlation: String,
    kind: NativeDeliveryKind,
    value: &serde_json::Value,
    state: &mut ProviderState,
) -> (r: NativeAcceptance)
    ensures
        r.correlation@ == correlation@,
        optional_text(r.turn_id) == accepted_turn(tree(*value)),
        r.evidence@ == "Codex accepted "@ + (if kind == NativeDeliveryKind::Steer {
            "turn/steer"@
        } else {
            "turn/start"@
        }),
        final(state)@ == (if kind == NativeDeliveryKind::StartTurn && old(state).lifecycle
            == AdapterLifecycle::Working {
            ProviderView { active_turn_id: accepted_turn(tree(*value)), ..old(state)@ }
        } else {
            old(state)@
        }),
{
    let own = match get_member(value, "turn") {
        Some(turn) => field(turn, "id"),
        None => None,
    };
    let turn_id = match own {
        Some(id) => Some(id),
        None => field(value, "turnId"),
    };
    if kind == NativeDeliveryKind::StartTurn && state.lifecycle == AdapterLifecycle::Working {
        state.active_turn_id = copy(&turn_id);
    }
    let method = if kind == NativeDeliveryKind::Steer {
        "turn/steer"
    } else {
        "turn/start"
    };
    NativeAcceptance { correlation, turn_id, evidence: join("Codex accepted ", method) }
}

/// The turn that a cancellation of Codex interrupts.
pub fn codex_interruption(state: &ProviderState) -> (r: Result<(String, String), AdapterError>)
    ensures
        match (state@.thread_id, state@.active_turn_id) {
            (None, _) => r is Err && r->Err_0@ == failed(
                HarnessKind::Codex,
                "thread is not established"@,
            ),
            (Some(_), None) => r is Err && r->Err_0@ == failed(
                HarnessKind::Codex,
                "no active turn"@,
            ),
            (Some(thread), Some(turn)) => r is Ok && r->Ok_0.0@ == thread && r->Ok_0.1@ == turn,
        },
{
    match (&state.thread_id, &state.active_turn_id) {
        (None, _) => Err(fail(HarnessKind::Codex, "thread is not established")),
        (Some(_), None) => Err(fail(HarnessKind::Codex, "no active turn")),
        (Some(thread), Some(turn)) => Ok((thread.as_str().to_owned(), turn.as_str().to_owned())),
    }
}

// ---------------------------------------------------------------------------------------------
// Shutdown and version
// ---------------------------------------------------------------------------------------------

/// How a provider process ended.
#[derive(Debug)]
#[allow(inconsistent_fields)]
pub enum ProcessEnd {
    Success,
    Failure { status: String },
    Unknown { error: String },
    TimedOut,
}

/// Settles the end of a provider process that was asked to stop.
pub fn settle_stop(kind: HarnessKind, end: ProcessEnd, state: &mut ProviderState) -> (r: Result<
    (),
    AdapterError,
>)
    ensures
        final(state)@ == (ProviderView {
            lifecycle: if end is Success {
                AdapterLifecycle::Stopped
            } else {
                AdapterLifecycle::Failed
            },
            ..old(state)@
        }),
        match end {
            ProcessEnd::Success => r is Ok,
            ProcessEnd::Failure { status } => r is Err && r->Err_0@ == failed(
                kind,
                "process exited with "@ + status@,
            ),
            ProcessEnd::Unknown { error } => r is Err && r->Err_0@ == failed(
                kind,
                "wait for process: "@ + error@,
            ),
            ProcessEnd::TimedOut => r is Err && r->Err_0@ == failed(
                kind,
                "clean shutdown timed out"@,
            ),
        },
{
    match end {
        ProcessEnd::Success => {
            state.lifecycle = AdapterLifecycle::Stopped;
            Ok(())
        },
        ProcessEnd::Failure { status } => {
            state.lifecycle = AdapterLifecycle::Failed;
            Err(operation(kind, join("process exited with ", status.as_str())))
        },
        ProcessEnd::Unknown { error } => {
            state.lifecycle = AdapterLifecycle::Failed;
            Err(operation(kind, join("wait for process: ", error.as_str())))
        },
        ProcessEnd::TimedOut => {
            state.lifecycle = AdapterLifecycle::Failed;
            Err(fail(kind, "clean shutdown timed out"))
        },
    }
}

/// What the Coordinator's answer to a tool call of a provider comes to.
pub open spec fn tool_answer(response: Option<JsonTree>) -> Result<bool, Seq<char>> {
    match response {
        None => Err("Coordinator MCP returned no correlated response"@),
        Some(t) => match member(t, "result"@) {
            Some(result) => Ok(
                match member(result, "isError"@) {
                    Some(flag) => bool_in(flag) == Some(true),
                    None => false,
                },
            ),
            None => Err(
                match member(t, "error"@) {
                    Some(error) => match text_member(error, "message"@) {
                        Some(message) => message,
                        None => "Coordinator MCP returned an invalid response"@,
                    },
                    None => "Coordinator MCP returned an invalid response"@,
                },
            ),
        },
    }
}

/// Reads the Coordinator's answer to a tool call of a provider: whether the result it holds is an
/// error, or why it holds none.
pub fn read_tool_answer(response: Option<&serde_json::Value>) -> (r: Result<bool, String>)
    ensures
        match (r, tool_answer(
            match response {
                Some(value) => Some(tree(*value)),
                None => None,
            },
        )) {
            (Ok(a), Ok(b)) => a == b,
            (Err(a), Err(b)) => a@ == b,
            _ => false,
        },
{
    let response = match response {
        None => {
            return Err("Coordinator MCP returned no correlated response".to_owned());
        },
        Some(response) => response,
    };
    if let Some(result) = get_member(response, "result") {
        let flagged = match get_member(result, "isError") {
            Some(flag) => match get_bool(flag) {
                Some(b) => b,
                None => false,
            },
            None => false,
        };
        return Ok(flagged);
    }
    let message = match get_member(response, "error") {
        Some(error) => field(error, "message"),
        None => None,
    };
    match message {
        Some(message) => Err(message),
        None => Err("Coordinator MCP returned an invalid response".to_owned()),
    }
}

/// The native conversation that a provider resumes: OMP by its Session, Codex by its thread.
pub fn resume_target(kind: HarnessKind, session_id: Option<String>, thread_id: Option<String>) -> (r:
    Result<String, AdapterError>)
    ensures
        match (
            r,
            match kind {
                HarnessKind::Omp => session_id,
                HarnessKind::Codex => thread_id,
            },
        ) {
            (Ok(found), Some(id)) => found == id,
            (Err(e), None) => e@ == failed(
                kind,
                match kind {
                    HarnessKind::Omp => "OMP resume requires a native Session ID"@,
                    HarnessKind::Codex => "Codex resume requires a native thread ID"@,
                },
            ),
            _ => false,
        },
{
    match kind {
        HarnessKind::Omp => match session_id {
            Some(id) => Ok(id),
            None => Err(fail(kind, "OMP resume requires a native Session ID")),
        },
        HarnessKind::Codex => match thread_id {
            Some(id) => Ok(id),
            None => Err(fail(kind, "Codex resume requires a native thread ID")),
        },
    }
}

// ---------------------------------------------------------------------------------------------
// Conversations and versions
// ---------------------------------------------------------------------------------------------

/// Whether a conversation that a provider gave holds a marker.
pub fn conversation_contains(conversation: &serde_json::Value, marker: &str) -> (r: bool)
    ensures
        r == contains_text(json_form(tree(*conversation)), marker@),
{
    let text = render(conversation);
    includes(text.as_str(), marker)
}

/// The most bytes that a provider may say of its version.
pub const MAX_VERSION_BYTES: usize = 4096;

/// How the version check of a provider ended.
#[derive(Debug)]
#[allow(inconsistent_fields)]
pub enum VersionEnd {
    /// It exited successfully.
    Succeeded,
    /// It exited with another status.
    Exited { status: String },
    /// It could not be run, or did not end in time.
    Failed { message: String },
}

/// The exact output that a provider's version check has to have.
pub open spec fn expected_version(kind: HarnessKind) -> Seq<char> {
    match kind {
        HarnessKind::Omp => OMP_VERSION_OUTPUT@,
        HarnessKind::Codex => CODEX_VERSION_OUTPUT@,
    }
}

/// Why the version check of a provider fails; `output` is its text, or why it is no text.
pub open spec fn version_refusal(
    kind: HarnessKind,
    size: usize,
    output: Result<String, String>,
    end: VersionEnd,
) -> Option<AdapterFault> {
    if size > MAX_VERSION_BYTES {
        Some(failed(kind, "version output exceeds 4096 bytes"@))
    } else {
        match end {
            VersionEnd::Failed { message } => Some(failed(kind, message@)),
            VersionEnd::Exited { status } => Some(
                failed(kind, "version check exited with "@ + status@),
            ),
            VersionEnd::Succeeded => match output {
                Err(message) => Some(failed(kind, message@)),
                Ok(text) => if without_ending(text@) == expected_version(kind) {
                    None
                } else {
                    Some(
                        AdapterFault::UnsupportedVersion {
                            kind,
                            expected: expected_version(kind),
                            actual: without_ending(text@),
                        },
                    )
                },
            },
        }
    }
}

/// Requires the version of a provider that the Coordinator knows.
pub fn require_version(
    kind: HarnessKind,
    size: usize,
    output: Result<String, String>,
    end: VersionEnd,
) -> (r: Result<(), AdapterError>)
    ensures
        match version_refusal(kind, size, output, end) {
            None => r is Ok,
            Some(f) => r is Err && r->Err_0@ == f,
        },
{
    if size > MAX_VERSION_BYTES {
        return Err(fail(kind, "version output exceeds 4096 bytes"));
    }
    match end {
        VersionEnd::Failed { message } => Err(operation(kind, message)),
        VersionEnd::Exited { status } => Err(
            operation(kind, join("version check exited with ", status.as_str())),
        ),
        VersionEnd::Succeeded => match output {
            Err(message) => Err(operation(kind, message)),
            Ok(text) => match kind {
                HarnessKind::Omp => validate_omp_version_output(text.as_str()),
                HarnessKind::Codex => validate_codex_version_output(text.as_str()),
            },
        },
    }
}

} // verus!
