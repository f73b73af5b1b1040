//! Which profiles are registered, and what a Worker is launched with.
use vstd::prelude::*;

use crate::contract::HarnessTier;
use crate::digest::{digest_form, digest_shaped};
use crate::error::ErrorCategory;
use crate::host::{is_variable, value_of};
use crate::paths::{below, pieces};
use crate::profile::{
    absolute, candidates, declared_version, decoded, found_executable, in_directories, inherits,
    is_later, is_missing, is_present, is_profile, last_value, launch_refusal, load_file,
    load_files, named_files, normal_form, profile_place, toml_of, DeclarationError,
    DeclaredProfile, HarnessDefinitionV1, Profile, ProfileFault, ProfileFile, Registered,
};
use crate::select::{first_found, first_missing, first_says, last_found, last_missing};
use crate::text::{optional_text, texts};

verus! {

// ---------------------------------------------------------------------------------------------
// Registration
// ---------------------------------------------------------------------------------------------

proof fn loaded_files_are_added(entries: Seq<Registered>, file: ProfileFile)
    requires
        load_file(entries, file) is Ok,
    ensures
        ({
            let all = load_file(entries, file)->Ok_0;
            &&& decoded(file) is Ok
            &&& all.len() == entries.len() + 1
            &&& all.contains(decoded(file)->Ok_0)
            &&& forall|k: int| 0 <= k < entries.len() ==> all.contains(#[trigger] entries[k])
            &&& forall|k: int|
                0 <= k < entries.len() ==> (#[trigger] entries[k]).profile.id
                    != decoded(file)->Ok_0.profile.id
        }),
{
    let new = decoded(file)->Ok_0;
    let at = profile_place(entries, new.profile.id);
    first_says(entries, is_later(new.profile.id));
    first_says(entries, is_profile(new.profile.id));
    let all = load_file(entries, file)->Ok_0;
    assert(all[at] == new);
    assert forall|k: int| 0 <= k < entries.len() implies all.contains(#[trigger] entries[k]) by {
        if k < at {
            assert(all[k] == entries[k]);
        } else {
            assert(all[k + 1] == entries[k]);
        }
    }
    assert forall|k: int| 0 <= k < entries.len() implies (#[trigger] entries[k]).profile.id
        != new.profile.id by {
        assert(!is_profile(new.profile.id)(entries[k]));
    }
}

/// Every profile file is read and gives one profile, and every profile that was there stays; a file
/// that cannot be read, or declares a profile that is there already, is told.
pub proof fn every_file_gives_one_profile(
    entries: Seq<Registered>,
    files: Seq<ProfileFile>,
    i: int,
    k: int,
)
    ensures
        match load_files(entries, files) {
            Ok(all) => {
                &&& all.len() == entries.len() + files.len()
                &&& 0 <= i < files.len() ==> decoded(files[i]) is Ok && all.contains(
                    decoded(files[i])->Ok_0,
                )
                &&& 0 <= k < entries.len() ==> all.contains(entries[k])
                &&& 0 <= i < files.len() && 0 <= k < entries.len() ==> entries[k].profile.id
                    != decoded(files[i])->Ok_0.profile.id
            },
            Err(_) => files.len() > 0,
        },
    decreases files.len(),
{
    if files.len() > 0 && load_file(entries, files[0]) is Ok {
        let next = load_file(entries, files[0])->Ok_0;
        let rest = files.drop_first();
        loaded_files_are_added(entries, files[0]);
        if 0 <= k < entries.len() {
            assert(next.contains(entries[k]));
            let at = choose|at: int| 0 <= at < next.len() && next[at] == entries[k];
            every_file_gives_one_profile(next, rest, i - 1, at);
        } else {
            every_file_gives_one_profile(next, rest, i - 1, 0);
        }
        let new = decoded(files[0])->Ok_0;
        let at = choose|at: int| 0 <= at < next.len() && next[at] == new;
        every_file_gives_one_profile(next, rest, i - 1, at);
    }
}

/// A profile that is registered is what its file declares, under the version that it declares: the
/// first has a provider profile and no policies, the second a model and no policies, the third a
/// model and both policies, and no overlays.
pub proof fn profiles_keep_what_they_declare(file: ProfileFile)
    requires
        decoded(file) is Ok,
    ensures
        ({
            let r = decoded(file)->Ok_0;
            let p = r.profile;
            &&& file.snapshot is Ok
            &&& r.snapshot == file.snapshot->Ok_0@
            &&& file.declared is Ok
            &&& match file.declared->Ok_0 {
                DeclaredProfile::V1 {
                    id,
                    kind,
                    executable,
                    provider_profile,
                    model,
                    inherit_env,
                    config_overlays,
                } => {
                    &&& p.schema_version == 1
                    &&& p.id == id@
                    &&& p.kind == kind
                    &&& p.executable == executable@
                    &&& p.provider_profile == Some(provider_profile@)
                    &&& p.model == optional_text(model)
                    &&& p.inherit_env == texts(inherit_env@)
                    &&& p.config_overlays == texts(config_overlays@)
                    &&& p.codex_approval_policy is None
                    &&& p.codex_sandbox_mode is None
                },
                DeclaredProfile::V2 {
                    id,
                    kind,
                    executable,
                    provider_profile,
                    model,
                    inherit_env,
                    config_overlays,
                } => {
                    &&& p.schema_version == 2
                    &&& p.id == id@
                    &&& p.kind == kind
                    &&& p.executable == executable@
                    &&& p.provider_profile == optional_text(provider_profile)
                    &&& p.model == Some(model@)
                    &&& p.inherit_env == texts(inherit_env@)
                    &&& p.config_overlays == texts(config_overlays@)
                    &&& p.codex_approval_policy is None
                    &&& p.codex_sandbox_mode is None
                },
                DeclaredProfile::V3 {
                    id,
                    kind,
                    executable,
                    model,
                    inherit_env,
                    approval_policy,
                    sandbox_mode,
                } => {
                    &&& p.schema_version == 3
                    &&& p.id == id@
                    &&& p.kind == kind
                    &&& p.executable == executable@
                    &&& p.provider_profile is None
                    &&& p.model == Some(model@)
                    &&& p.inherit_env == texts(inherit_env@)
                    &&& p.config_overlays.len() == 0
                    &&& p.codex_approval_policy == Some(approval_policy)
                    &&& p.codex_sandbox_mode == Some(sandbox_mode)
                },
            }
            &&& forall|k: int|
                0 <= k < p.config_overlays.len() ==> texts(file.regular@).contains(
                    #[trigger] p.config_overlays[k],
                )
            &&& absolute(p.executable) ==> texts(file.regular@).contains(p.executable)
        }),
{
    let p = decoded(file)->Ok_0.profile;
    let list = named_files(p);
    let missing = is_missing(texts(file.regular@));
    first_says(list, missing);
    assert forall|k: int| 0 <= k < p.config_overlays.len() implies texts(file.regular@).contains(
        #[trigger] p.config_overlays[k],
    ) by {
        assert(list[k] == p.config_overlays[k]);
        assert(!missing(list[k]));
    }
    if absolute(p.executable) {
        assert(list[list.len() - 1] == p.executable);
        assert(!missing(list[list.len() - 1]));
    }
}

// ---------------------------------------------------------------------------------------------
// Launches
// ---------------------------------------------------------------------------------------------

/// An executable that is named by its path is that file; one that is named otherwise is the first
/// regular file of that name in the directories of the last `PATH`. Where there is none, the Worker
/// is not launched.
pub proof fn executables_are_found_in_order(
    p: Profile,
    env: Seq<(String, String)>,
    regular: Seq<Seq<char>>,
    e: int,
    d: int,
)
    ensures
        ({
            let answer = found_executable(p, env, regular);
            let last = 0 <= e < env.len() && env[e].0@ == "PATH"@ && forall|j: int|
                e < j < env.len() ==> (#[trigger] env[j]).0@ != "PATH"@;
            let dirs = pieces(env[e].1@, ':', None);
            &&& absolute(p.executable) ==> answer is Ok == regular.contains(p.executable)
            &&& absolute(p.executable) && answer is Ok ==> answer->Ok_0 == p.executable
            &&& !absolute(p.executable) && last && 0 <= d < dirs.len() && regular.contains(
                below(dirs[d], p.executable),
            ) && (forall|j: int|
                0 <= j < d ==> !regular.contains(below(#[trigger] dirs[j], p.executable)))
                ==> answer == Ok::<Seq<char>, ProfileFault>(below(dirs[d], p.executable))
            &&& !absolute(p.executable) && last && (forall|j: int|
                0 <= j < dirs.len() ==> !regular.contains(below(#[trigger] dirs[j], p.executable)))
                ==> answer is Err
        }),
{
    let all = candidates(p, env);
    let present = is_present(regular);
    first_says(all, present);
    if absolute(p.executable) {
        assert(all[0] == p.executable);
        if regular.contains(p.executable) {
            assert(present(all[0]));
        }
    } else if 0 <= e < env.len() && env[e].0@ == "PATH"@ && (forall|j: int|
        e < j < env.len() ==> (#[trigger] env[j]).0@ != "PATH"@) {
        last_found(env, is_variable("PATH"@), e);
        let dirs = pieces(env[e].1@, ':', None);
        assert(all == in_directories(env[e].1@, p.executable));
        assert forall|j: int| 0 <= j < dirs.len() implies #[trigger] all[j] == below(
            dirs[j],
            p.executable,
        ) by {}
        if 0 <= d < dirs.len() && regular.contains(below(dirs[d], p.executable)) && (forall|j: int|
            0 <= j < d ==> !regular.contains(below(#[trigger] dirs[j], p.executable))) {
            assert forall|j: int| 0 <= j < d implies !present(#[trigger] all[j]) by {
                assert(!regular.contains(below(dirs[j], p.executable)));
            }
            first_found(all, present, d);
        }
        if forall|j: int|
            0 <= j < dirs.len() ==> !regular.contains(below(#[trigger] dirs[j], p.executable)) {
            assert forall|j: int| 0 <= j < all.len() implies !present(#[trigger] all[j]) by {
                assert(!regular.contains(below(dirs[j], p.executable)));
            }
            first_missing(all, present);
        }
    }
}

/// A variable that a profile names reaches the provider with its last value, and no other does.
pub proof fn named_variables_reach_the_provider(
    inherited: Seq<(String, String)>,
    allowed: Seq<Seq<char>>,
    env: Seq<(String, String)>,
    name: Seq<char>,
    e: int,
)
    requires
        inherits(inherited, allowed, env),
    ensures
        allowed.contains(name) && 0 <= e < env.len() && env[e].0@ == name && (forall|j: int|
            e < j < env.len() ==> (#[trigger] env[j]).0@ != name) ==> value_of(inherited, name)
            == Some(env[e].1@),
        !allowed.contains(name) ==> value_of(inherited, name) is None,
        (forall|j: int| 0 <= j < env.len() ==> (#[trigger] env[j]).0@ != name) ==> value_of(
            inherited,
            name,
        ) is None,
{
    let p = is_variable(name);
    assert(value_of(inherited, name) == (if allowed.contains(name) {
        last_value(env, name)
    } else {
        None
    }));
    if 0 <= e < env.len() && env[e].0@ == name && (forall|j: int|
        e < j < env.len() ==> (#[trigger] env[j]).0@ != name) {
        last_found(env, p, e);
    }
    if forall|j: int| 0 <= j < env.len() ==> (#[trigger] env[j]).0@ != name {
        last_missing(env, p);
    }
}

/// A Worker is launched from a profile exactly where it is a Worker, the digest is that of the
/// snapshot, the snapshot declares a profile, and that profile has the kind, the identifier and the
/// model that the Worker is defined with.
pub proof fn workers_are_launched_from_their_profile(
    definition: HarnessDefinitionV1,
    snapshot: Seq<char>,
    digest: Seq<char>,
    declared: Result<DeclaredProfile, DeclarationError>,
)
    ensures
        launch_refusal(definition, snapshot, digest, declared) is None == ({
            &&& definition.tier == HarnessTier::Worker
            &&& digest_shaped(digest)
            &&& digest_form(vstd::utf8::encode_utf8(snapshot)) == digest
            &&& declared_version(toml_of(snapshot)) is Ok
            &&& declared is Ok
            &&& normal_form(declared->Ok_0).kind == definition.kind
            &&& definition.launch_profile is Some
            &&& definition.launch_profile->0@ == normal_form(declared->Ok_0).id
            &&& optional_text(definition.model) == normal_form(declared->Ok_0).model
        }),
        launch_refusal(definition, snapshot, digest, declared) is Some ==> launch_refusal(
            definition,
            snapshot,
            digest,
            declared,
        )->0.category == ErrorCategory::InvalidInput,
{
}

} // verus!
