//! What an opened native Session is taken for, and where things are looked for.
use vstd::prelude::*;

use crate::adapter::HarnessStartSpec;
use crate::host::{coordinated, value_of};
use crate::json::{member, text_member, JsonTree};
use crate::paths::{components, is_below, parent};
use crate::profile::is_profile_file;
use crate::provider_session::{codex_session, omp_session};
use crate::scopes::{nearest, places_up};
use crate::supervisor_host::{same_session, NativeSupervisorSession};
use crate::text_laws::{names_are_components, parents_lack_the_last_component};

verus! {

// ---------------------------------------------------------------------------------------------
// Native Sessions
// ---------------------------------------------------------------------------------------------

/// An OMP Session is the one that it reports, and a resumed one has to be the one that was asked
/// for.
pub proof fn omp_sessions_are_those_reported(
    spec: HarnessStartSpec,
    resume: Option<Seq<char>>,
    t: JsonTree,
)
    ensures
        ({
            let answer = omp_session(spec, resume, t);
            &&& answer is Ok <==> (resume is None || text_member(t, "sessionId"@) == resume)
            &&& answer is Ok ==> answer->Ok_0.session_id == text_member(t, "sessionId"@)
                && answer->Ok_0.thread_id is None && answer->Ok_0.cwd == spec.cwd@
        }),
{
}

/// A Codex thread is the one that it reports, and a resumed one has to be the one that was asked
/// for; one that reports none is refused. What it says of its directory and its model counts before
/// what it was started with.
pub proof fn codex_threads_are_those_reported(
    spec: HarnessStartSpec,
    resume: Option<Seq<char>>,
    t: JsonTree,
    thread: JsonTree,
)
    requires
        member(t, "thread"@) == Some(thread),
    ensures
        ({
            let answer = codex_session(spec, resume, t);
            let id = text_member(thread, "id"@);
            &&& answer is Ok <==> id is Some && (resume is None || resume == id)
            &&& answer is Ok ==> {
                let s = answer->Ok_0;
                &&& s.thread_id == id
                &&& s.session_id == text_member(thread, "sessionId"@)
                &&& text_member(t, "cwd"@) is Some ==> s.cwd == text_member(t, "cwd"@)->0
                &&& text_member(t, "cwd"@) is None && text_member(thread, "cwd"@) is None ==> s.cwd
                    == spec.cwd@
                &&& text_member(t, "model"@) is Some ==> s.model == text_member(t, "model"@)
                &&& text_member(t, "model"@) is None && text_member(thread, "model"@) is Some
                    ==> s.model == text_member(thread, "model"@)
                &&& text_member(t, "model"@) is None && text_member(thread, "model"@) is None
                    && spec.model is Some ==> s.model == Some(spec.model->0@)
            }
        }),
{
}

/// Two native Sessions of the Supervisor are the same exactly where all their identities are.
pub proof fn sessions_are_the_same_by_identity(
    a: NativeSupervisorSession,
    b: NativeSupervisorSession,
)
    ensures
        same_session(a, b) ==> a.coordinator_session_id == b.coordinator_session_id,
        same_session(a, b) ==> a.thread_id is Some == b.thread_id is Some && (a.thread_id is Some
            ==> a.thread_id->0@ == b.thread_id->0@),
        same_session(a, b) ==> a.native_session_id is Some == b.native_session_id is Some && (
        a.native_session_id is Some ==> a.native_session_id->0@ == b.native_session_id->0@),
        same_session(a, b) == same_session(b, a),
        same_session(a, a),
{
}

/// A provider finds the Coordinator by its socket, its state and its own capability, whatever it
/// inherits; every other variable is the one that it inherits.
pub proof fn providers_find_the_coordinator(
    env: Seq<(String, String)>,
    inherited: Seq<(String, String)>,
    bearer: Seq<char>,
    socket: Seq<char>,
    state_dir: Seq<char>,
    other: Seq<char>,
)
    requires
        coordinated(env, inherited, bearer, socket, state_dir),
        other != "HERDR_HARNESS_CAPABILITY"@,
        other != "HERDR_COORDINATOR_SOCKET"@,
        other != "HERDR_PLUGIN_STATE_DIR"@,
    ensures
        value_of(env, "HERDR_HARNESS_CAPABILITY"@) == Some(bearer),
        value_of(env, "HERDR_COORDINATOR_SOCKET"@) == Some(socket),
        value_of(env, "HERDR_PLUGIN_STATE_DIR"@) == Some(state_dir),
        value_of(env, other) == value_of(inherited, other),
{
    reveal_strlit("HERDR_HARNESS_CAPABILITY");
    reveal_strlit("HERDR_COORDINATOR_SOCKET");
    reveal_strlit("HERDR_PLUGIN_STATE_DIR");
    assert("HERDR_HARNESS_CAPABILITY"@.len() == 24);
    assert("HERDR_COORDINATOR_SOCKET"@.len() == 24);
    assert("HERDR_PLUGIN_STATE_DIR"@.len() == 22);
    assert("HERDR_HARNESS_CAPABILITY"@[6] == 'H' && "HERDR_COORDINATOR_SOCKET"@[6] == 'C');
    assert(value_of(env, "HERDR_HARNESS_CAPABILITY"@) == Some(bearer));
    assert(value_of(env, "HERDR_COORDINATOR_SOCKET"@) == Some(socket));
    assert(value_of(env, "HERDR_PLUGIN_STATE_DIR"@) == Some(state_dir));
}

// ---------------------------------------------------------------------------------------------
// Places
// ---------------------------------------------------------------------------------------------

/// Going up from a path ends at the path itself or above it: at a place that exists, at the root of
/// the worktree, where there is nothing above, or where the steps end.
pub proof fn nearest_places_lie_above(
    path: Seq<char>,
    base: Seq<char>,
    existing: Seq<Seq<char>>,
    steps: nat,
)
    ensures
        ({
            let found = nearest(path, base, existing, steps);
            &&& is_below(components(path), components(found))
            &&& existing.contains(path) ==> found == path
            &&& existing.contains(found) || components(found) == components(base) || parent(found)
                is None || components(path).len() - components(found).len() == steps
        }),
    decreases steps,
{
    let p = components(path);
    assert(p.take(p.len() as int) =~= p);
    if steps > 0 && !existing.contains(path) && components(path) != components(base) && parent(
        path,
    ) is Some {
        let up = parent(path)->0;
        parents_lack_the_last_component(path);
        nearest_places_lie_above(up, base, existing, (steps - 1) as nat);
        let f = components(nearest(path, base, existing, steps));
        let u = components(up);
        assert(p.take(f.len() as int) =~= u.take(f.len() as int));
    }
}

/// The places that are looked at on the way up begin with the path itself, and each is the parent
/// of the one before it; the root of the worktree is not among them.
pub proof fn places_lead_up(path: Seq<char>, base: Seq<char>, steps: nat, k: int)
    ensures
        ({
            let places = places_up(path, base, steps);
            &&& components(path) == components(base) ==> places.len() == 0
            &&& components(path) != components(base) && steps > 0 ==> places.len() > 0 && places[0]
                == path
            &&& 0 <= k < places.len() ==> components(places[k]) != components(base)
            &&& 0 <= k && k + 1 < places.len() ==> parent(places[k]) == Some(places[k + 1])
        }),
    decreases steps,
{
    if steps > 0 && components(path) != components(base) {
        if let Some(up) = parent(path) {
            let rest = places_up(up, base, (steps - 1) as nat);
            let places = places_up(path, base, steps);
            places_lead_up(up, base, (steps - 1) as nat, k - 1);
            places_lead_up(up, base, (steps - 1) as nat, k);
            assert(places[0] == path);
            if k > 0 && k < places.len() {
                assert(places[k] == rest[k - 1]);
            }
            if 0 <= k && k + 1 < places.len() {
                assert(places[k + 1] == rest[k]);
            }
        }
    }
}

/// A file is that of a profile where its name is a stem and `.toml` behind it.
pub proof fn profile_files_end_in_toml(directory: Seq<char>, stem: Seq<char>)
    requires
        directory.len() > 0,
        stem.len() > 0,
        forall|i: int| 0 <= i < stem.len() ==> #[trigger] stem[i] != '/',
    ensures
        is_profile_file(directory.push('/') + (stem + ".toml"@)),
{
    reveal_strlit(".toml");
    let name = stem + ".toml"@;
    let tail = ".toml"@;
    assert(tail.len() == 5);
    assert(tail[0] == '.' && tail[1] == 't' && tail[2] == 'o' && tail[3] == 'm' && tail[4] == 'l');
    assert forall|i: int| 0 <= i < name.len() implies #[trigger] name[i] != '/' by {
        if i < stem.len() {
            assert(name[i] == stem[i]);
        } else {
            assert(name[i] == tail[i - stem.len()]);
        }
    }
    assert(name.len() > 1);
    assert(seq!['.'].len() == 1);
    names_are_components(directory, name);
    assert(components(directory.push('/') + name).last() == name);
    assert(name.subrange(name.len() - 5, name.len() as int) =~= tail);
}

} // verus!
