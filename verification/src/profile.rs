//! Coordinator-owned explicit Worker launch profile registry.
use vstd::prelude::*;
use vstd::utf8::*;

use crate::contract::{CodexApprovalPolicy, CodexSandboxMode, HarnessKind, HarnessTier};
use crate::digest::{digest_form, digest_shaped, digest_text, not_a_digest, validate_digest};
use crate::error::{refusal, refuse, CoordinatorError, ErrorCategory, Refusal};
use crate::host::{is_variable, named_once, set_variable, value_of};
use crate::identity::HarnessId;
use crate::paths::{
    below, comes_before, components, components_of, join_path, lists_view, one_precedes, path_rank,
    path_rank_passes_on, path_rank_says, pieces, precedes, precedes_passes_on, rank_path_texts,
    split_chars, Rank,
};
use crate::select::{
    first_found, first_missing, first_says, first_where, keep_step, keep_where, last_found,
    last_missing, last_where,
};
use crate::text::{
    chars_of, copy_text, has_suffix, join, join3, optional_text, same_optional, same_text,
    signed_decimal, signed_text, text_of, texts,
};

verus! {

// ---------------------------------------------------------------------------------------------
// Profiles
// ---------------------------------------------------------------------------------------------

/// Version-neutral immutable launch profile contents.
#[derive(Debug)]
pub struct LaunchProfileSnapshot {
    /// Public schema version that produced this normalized view.
    pub schema_version: u32,
    /// Durable profile ID.
    pub id: HarnessId,
    /// Native Harness Kind.
    pub kind: HarnessKind,
    /// Absolute path or bare command.
    pub executable: String,
    /// Optional native profile selection.
    pub provider_profile: Option<String>,
    /// Explicit model, which the first schema version may leave out.
    pub model: Option<String>,
    /// Environment allowlist.
    pub inherit_env: Vec<String>,
    /// OMP configuration overlays.
    pub config_overlays: Vec<String>,
    /// Explicit Codex App Server approval policy.
    pub codex_approval_policy: Option<CodexApprovalPolicy>,
    /// Explicit Codex App Server sandbox mode.
    pub codex_sandbox_mode: Option<CodexSandboxMode>,
}

/// What a [`LaunchProfileSnapshot`] says.
pub struct Profile {
    pub schema_version: u32,
    pub id: Seq<char>,
    pub kind: HarnessKind,
    pub executable: Seq<char>,
    pub provider_profile: Option<Seq<char>>,
    pub model: Option<Seq<char>>,
    pub inherit_env: Seq<Seq<char>>,
    pub config_overlays: Seq<Seq<char>>,
    pub codex_approval_policy: Option<CodexApprovalPolicy>,
    pub codex_sandbox_mode: Option<CodexSandboxMode>,
}

impl View for LaunchProfileSnapshot {
    type V = Profile;

    open spec fn view(&self) -> Profile {
        Profile {
            schema_version: self.schema_version,
            id: self.id@,
            kind: self.kind,
            executable: self.executable@,
            provider_profile: optional_text(self.provider_profile),
            model: optional_text(self.model),
            inherit_env: texts(self.inherit_env@),
            config_overlays: texts(self.config_overlays@),
            codex_approval_policy: self.codex_approval_policy,
            codex_sandbox_mode: self.codex_sandbox_mode,
        }
    }
}

fn copy_texts(v: &Vec<String>) -> (r: Vec<String>)
    ensures
        texts(r@) == texts(v@),
{
    let mut r: Vec<String> = Vec::new();
    let mut i: usize = 0;
    while i < v.len()
        invariant
            i <= v.len(),
            r.len() == i,
            forall|j: int| 0 <= j < i ==> (#[trigger] r@[j])@ == v@[j]@,
        decreases v.len() - i,
    {
        r.push(v[i].as_str().to_owned());
        i += 1;
    }
    assert(texts(r@) =~= texts(v@));
    r
}

fn copy_profile(p: &LaunchProfileSnapshot) -> (r: LaunchProfileSnapshot)
    ensures
        r@ == p@,
{
    LaunchProfileSnapshot {
        schema_version: p.schema_version,
        id: HarnessId(p.id.as_str().to_owned()),
        kind: p.kind,
        executable: p.executable.as_str().to_owned(),
        provider_profile: copy_text(&p.provider_profile),
        model: copy_text(&p.model),
        inherit_env: copy_texts(&p.inherit_env),
        config_overlays: copy_texts(&p.config_overlays),
        codex_approval_policy: p.codex_approval_policy,
        codex_sandbox_mode: p.codex_sandbox_mode,
    }
}

/// A launch profile as one of the public schema versions declares it.
#[derive(Debug)]
#[allow(inconsistent_fields)]
pub enum DeclaredProfile {
    /// Native profile required, model optional.
    V1 {
        id: HarnessId,
        kind: HarnessKind,
        executable: String,
        provider_profile: String,
        model: Option<String>,
        inherit_env: Vec<String>,
        config_overlays: Vec<String>,
    },
    /// Native profile optional, model required.
    V2 {
        id: HarnessId,
        kind: HarnessKind,
        executable: String,
        provider_profile: Option<String>,
        model: String,
        inherit_env: Vec<String>,
        config_overlays: Vec<String>,
    },
    /// Codex policies required, no native profile and no overlays.
    V3 {
        id: HarnessId,
        kind: HarnessKind,
        executable: String,
        model: String,
        inherit_env: Vec<String>,
        approval_policy: CodexApprovalPolicy,
        sandbox_mode: CodexSandboxMode,
    },
}

/// The version-neutral view of a declared profile.
pub open spec fn normal_form(p: DeclaredProfile) -> Profile {
    match p {
        DeclaredProfile::V1 {
            id,
            kind,
            executable,
            provider_profile,
            model,
            inherit_env,
            config_overlays,
        } => Profile {
            schema_version: 1,
            id: id@,
            kind,
            executable: executable@,
            provider_profile: Some(provider_profile@),
            model: optional_text(model),
            inherit_env: texts(inherit_env@),
            config_overlays: texts(config_overlays@),
            codex_approval_policy: None,
            codex_sandbox_mode: None,
        },
        DeclaredProfile::V2 {
            id,
            kind,
            executable,
            provider_profile,
            model,
            inherit_env,
            config_overlays,
        } => Profile {
            schema_version: 2,
            id: id@,
            kind,
            executable: executable@,
            provider_profile: optional_text(provider_profile),
            model: Some(model@),
            inherit_env: texts(inherit_env@),
            config_overlays: texts(config_overlays@),
            codex_approval_policy: None,
            codex_sandbox_mode: None,
        },
        DeclaredProfile::V3 {
            id,
            kind,
            executable,
            model,
            inherit_env,
            approval_policy,
            sandbox_mode,
        } => Profile {
            schema_version: 3,
            id: id@,
            kind,
            executable: executable@,
            provider_profile: None,
            model: Some(model@),
            inherit_env: texts(inherit_env@),
            config_overlays: Seq::empty(),
            codex_approval_policy: Some(approval_policy),
            codex_sandbox_mode: Some(sandbox_mode),
        },
    }
}

/// Makes the version-neutral view of a declared profile.
pub fn normalize(declared: DeclaredProfile) -> (r: LaunchProfileSnapshot)
    ensures
        r@ == normal_form(declared),
{
    match declared {
        DeclaredProfile::V1 {
            id,
            kind,
            executable,
            provider_profile,
            model,
            inherit_env,
            config_overlays,
        } => LaunchProfileSnapshot {
            schema_version: 1,
            id,
            kind,
            executable,
            provider_profile: Some(provider_profile),
            model,
            inherit_env,
            config_overlays,
            codex_approval_policy: None,
            codex_sandbox_mode: None,
        },
        DeclaredProfile::V2 {
            id,
            kind,
            executable,
            provider_profile,
            model,
            inherit_env,
            config_overlays,
        } => LaunchProfileSnapshot {
            schema_version: 2,
            id,
            kind,
            executable,
            provider_profile,
            model: Some(model),
            inherit_env,
            config_overlays,
            codex_approval_policy: None,
            codex_sandbox_mode: None,
        },
        DeclaredProfile::V3 {
            id,
            kind,
            executable,
            model,
            inherit_env,
            approval_policy,
            sandbox_mode,
        } => {
            let config_overlays: Vec<String> = Vec::new();
            assert(texts(config_overlays@) =~= Seq::empty());
            LaunchProfileSnapshot {
                schema_version: 3,
                id,
                kind,
                executable,
                provider_profile: None,
                model: Some(model),
                inherit_env,
                config_overlays,
                codex_approval_policy: Some(approval_policy),
                codex_sandbox_mode: Some(sandbox_mode),
            }
        },
    }
}

// ---------------------------------------------------------------------------------------------
// Schema versions
// ---------------------------------------------------------------------------------------------

/// A TOML value.
#[verifier::external_type_specification]
#[verifier::external_body]
pub struct ExTomlValue(toml::Value);

/// The integers that stand under a name in a TOML table.
pub uninterp spec fn toml_integers(value: toml::Value) -> Map<Seq<char>, i64>;

/// What `toml::from_str` reads: the integers of a document, or its own diagnostic.
pub uninterp spec fn toml_of(text: Seq<char>) -> Result<Map<Seq<char>, i64>, Seq<char>>;

/// `toml::from_str`: the same text always gives the same table or the same diagnostic.
#[verifier::external_body]
fn parse_toml(text: &str) -> (r: Result<toml::Value, String>)
    ensures
        match r {
            Ok(value) => toml_of(text@) == Ok::<Map<Seq<char>, i64>, Seq<char>>(
                toml_integers(value),
            ),
            Err(message) => toml_of(text@) == Err::<Map<Seq<char>, i64>, Seq<char>>(message@),
        },
{
    toml::from_str::<toml::Value>(text).map_err(|error| error.to_string())
}

/// `toml::Value::get` and `toml::Value::as_integer`: the integer that stands under a name, if
/// an integer stands there.
#[verifier::external_body]
fn get_integer(value: &toml::Value, name: &str) -> (r: Option<i64>)
    ensures
        match r {
            Some(n) => toml_integers(*value).dom().contains(name@) && toml_integers(*value)[name@]
                == n,
            None => !toml_integers(*value).dom().contains(name@),
        },
{
    value.get(name).and_then(|found| found.as_integer())
}

/// Which schema version a profile declares, or why it has none.
pub open spec fn declared_version(document: Result<Map<Seq<char>, i64>, Seq<char>>) -> Result<
    u32,
    Seq<char>,
> {
    match document {
        Err(message) => Err(message),
        Ok(integers) => if !integers.dom().contains("schema_version"@) {
            Err("launch profile schema_version is required"@)
        } else if 1 <= integers["schema_version"@] <= 3 {
            Ok(integers["schema_version"@] as u32)
        } else {
            Err(
                "unsupported launch profile schema version "@ + signed_decimal(
                    integers["schema_version"@] as int,
                ),
            )
        },
    }
}

/// Decides what follows from the integer under `schema_version`.
pub fn require_version(version: Option<i64>) -> (r: Result<u32, String>)
    ensures
        match version {
            None => r is Err && r->Err_0@ == "launch profile schema_version is required"@,
            Some(n) => if 1 <= n <= 3 {
                r == Ok::<u32, String>(n as u32)
            } else {
                r is Err && r->Err_0@ == "unsupported launch profile schema version "@
                    + signed_decimal(n as int)
            },
        },
{
    match version {
        None => Err("launch profile schema_version is required".to_owned()),
        Some(n) => if 1 <= n && n <= 3 {
            Ok(n as u32)
        } else {
            let number = signed_text(n);
            Err(join("unsupported launch profile schema version ", number.as_str()))
        },
    }
}

/// Reads which schema version a profile declares.
pub fn profile_version(snapshot: &str) -> (r: Result<u32, String>)
    ensures
        match (r, declared_version(toml_of(snapshot@))) {
            (Ok(n), Ok(version)) => n == version,
            (Err(e), Err(text)) => e@ == text,
            _ => false,
        },
{
    match parse_toml(snapshot) {
        Err(message) => Err(message),
        Ok(value) => require_version(get_integer(&value, "schema_version")),
    }
}

/// Why a document is no profile of the schema version that it names.
#[derive(Debug)]
pub enum DeclarationError {
    /// It does not decode to that version.
    Undecoded(String),
    /// It decodes and breaks a rule of that version.
    Invalid(String),
}

impl DeclarationError {
    /// What is wrong with the document.
    pub open spec fn said(self) -> Seq<char> {
        match self {
            DeclarationError::Undecoded(message) => message@,
            DeclarationError::Invalid(message) => message@,
        }
    }

    /// What is wrong with the document.
    pub fn message(self) -> (r: String)
        ensures
            r@ == self.said(),
    {
        match self {
            DeclarationError::Undecoded(message) => message,
            DeclarationError::Invalid(message) => message,
        }
    }
}

/// Decodes a profile: `declared` is what the schema version that the profile names makes of it.
pub fn parse_launch_profile_snapshot(
    snapshot: &str,
    declared: Result<DeclaredProfile, DeclarationError>,
) -> (r: Result<LaunchProfileSnapshot, String>)
    ensures
        match (declared_version(toml_of(snapshot@)), declared) {
            (Err(text), _) => r is Err && r->Err_0@ == text,
            (Ok(_), Err(e)) => r is Err && r->Err_0@ == e.said(),
            (Ok(_), Ok(p)) => r is Ok && r->Ok_0@ == normal_form(p),
        },
{
    match profile_version(snapshot) {
        Err(message) => Err(message),
        Ok(_) => match declared {
            Err(e) => Err(e.message()),
            Ok(p) => Ok(normalize(p)),
        },
    }
}

// ---------------------------------------------------------------------------------------------
// Failures
// ---------------------------------------------------------------------------------------------

/// Profile discovery or explicit-resolution failure.
#[derive(Debug)]
#[allow(inconsistent_fields)]
pub enum ProfileError {
    /// Profile directory or file could not be read.
    Io { path: String, source: String },
    /// TOML did not decode to the profile contract.
    Toml { path: String, source: String },
    /// Typed profile validation failed.
    Validation { path: String, message: String },
    /// Two files declared the same durable profile ID.
    Duplicate(HarnessId),
    /// Caller selected no registered profile with this ID.
    NotFound(HarnessId),
    /// Explicit Worker Kind differs from the selected profile.
    KindMismatch { profile: HarnessId, actual: HarnessKind },
    /// Referenced executable or overlay is not a regular file.
    MissingFile { profile: HarnessId, path: String },
    /// A bare executable was absent from the current `PATH`.
    ExecutableNotFound { profile: HarnessId, executable: String },
}

/// What a [`ProfileError`] says.
#[allow(inconsistent_fields)]
pub enum ProfileFault {
    Io { path: Seq<char>, source: Seq<char> },
    Toml { path: Seq<char>, source: Seq<char> },
    Validation { path: Seq<char>, message: Seq<char> },
    Duplicate(Seq<char>),
    NotFound(Seq<char>),
    KindMismatch { profile: Seq<char>, actual: HarnessKind },
    MissingFile { profile: Seq<char>, path: Seq<char> },
    ExecutableNotFound { profile: Seq<char>, executable: Seq<char> },
}

impl View for ProfileError {
    type V = ProfileFault;

    open spec fn view(&self) -> ProfileFault {
        match self {
            ProfileError::Io { path, source } => ProfileFault::Io { path: path@, source: source@ },
            ProfileError::Toml { path, source } => ProfileFault::Toml {
                path: path@,
                source: source@,
            },
            ProfileError::Validation { path, message } => ProfileFault::Validation {
                path: path@,
                message: message@,
            },
            ProfileError::Duplicate(id) => ProfileFault::Duplicate(id@),
            ProfileError::NotFound(id) => ProfileFault::NotFound(id@),
            ProfileError::KindMismatch { profile, actual } => ProfileFault::KindMismatch {
                profile: profile@,
                actual: *actual,
            },
            ProfileError::MissingFile { profile, path } => ProfileFault::MissingFile {
                profile: profile@,
                path: path@,
            },
            ProfileError::ExecutableNotFound { profile, executable } => {
                ProfileFault::ExecutableNotFound { profile: profile@, executable: executable@ }
            },
        }
    }
}

/// The diagnostic text of a fault.
pub open spec fn profile_text(f: ProfileFault) -> Seq<char> {
    match f {
        ProfileFault::Io { path, source } => "cannot read launch profile path `"@ + path + "`: "@
            + source,
        ProfileFault::Toml { path, source } => "invalid launch profile TOML `"@ + path + "`: "@
            + source,
        ProfileFault::Validation { path, message } => "invalid launch profile `"@ + path + "`: "@
            + message,
        ProfileFault::Duplicate(id) => "duplicate launch profile ID `"@ + id + "`"@,
        ProfileFault::NotFound(id) => "launch profile `"@ + id + "` does not exist"@,
        ProfileFault::KindMismatch { profile, actual } => "launch profile `"@ + profile
            + "` is not compatible with "@ + (match actual {
            HarnessKind::Omp => "Omp"@,
            HarnessKind::Codex => "Codex"@,
        }),
        ProfileFault::MissingFile { profile, path } => "launch profile `"@ + profile
            + "` references a missing or non-regular file `"@ + path + "`"@,
        ProfileFault::ExecutableNotFound { profile, executable } => "launch profile `"@ + profile
            + "` cannot resolve executable `"@ + executable + "` through PATH"@,
    }
}

/// Four texts in a row.
fn join4(a: &str, b: &str, c: &str, d: &str) -> (r: String)
    ensures
        r@ == a@ + b@ + c@ + d@,
{
    let mut r = join3(a, b, c);
    r.append(d);
    r
}

impl ProfileError {
    /// The diagnostic text.
    pub fn text(&self) -> (r: String)
        ensures
            r@ == profile_text(self@),
    {
        match self {
            ProfileError::Io { path, source } => join4(
                "cannot read launch profile path `",
                path.as_str(),
                "`: ",
                source.as_str(),
            ),
            ProfileError::Toml { path, source } => join4(
                "invalid launch profile TOML `",
                path.as_str(),
                "`: ",
                source.as_str(),
            ),
            ProfileError::Validation { path, message } => join4(
                "invalid launch profile `",
                path.as_str(),
                "`: ",
                message.as_str(),
            ),
            ProfileError::Duplicate(id) => join3(
                "duplicate launch profile ID `",
                id.as_str(),
                "`",
            ),
            ProfileError::NotFound(id) => join3(
                "launch profile `",
                id.as_str(),
                "` does not exist",
            ),
            ProfileError::KindMismatch { profile, actual } => join4(
                "launch profile `",
                profile.as_str(),
                "` is not compatible with ",
                match actual {
                    HarnessKind::Omp => "Omp",
                    HarnessKind::Codex => "Codex",
                },
            ),
            ProfileError::MissingFile { profile, path } => {
                let mut r = join4(
                    "launch profile `",
                    profile.as_str(),
                    "` references a missing or non-regular file `",
                    path.as_str(),
                );
                r.append("`");
                r
            },
            ProfileError::ExecutableNotFound { profile, executable } => {
                let mut r = join4(
                    "launch profile `",
                    profile.as_str(),
                    "` cannot resolve executable `",
                    executable.as_str(),
                );
                r.append("` through PATH");
                r
            },
        }
    }
}

// ---------------------------------------------------------------------------------------------
// Profile files
// ---------------------------------------------------------------------------------------------

/// A file of a profile: its name ends in `.toml` behind a stem.
pub open spec fn is_profile_file(path: Seq<char>) -> bool {
    let parts = components(path);
    parts.len() > 0 && parts.last().len() > 5 && has_suffix(parts.last(), ".toml"@)
}

/// Whether a path is that of a profile file.
pub fn names_profile(path: &str) -> (r: bool)
    ensures
        r == is_profile_file(path@),
{
    let parts = components_of(path);
    assert(components(path@).len() == parts.len());
    if parts.len() == 0 {
        return false;
    }
    let last = &parts[parts.len() - 1];
    assert(components(path@).last() == last@);
    let name = text_of(last.as_slice());
    last.len() > 5 && crate::text::ends_with(name.as_str(), ".toml")
}

/// Paths of one list, in path order.
pub open spec fn in_path_order(paths: Seq<String>) -> bool {
    forall|i: int, j: int|
        0 <= i < j < paths.len() ==> path_rank(
            components((#[trigger] paths[i])@),
            components((#[trigger] paths[j])@),
        ) != Rank::After
}

/// Inserts a path where path order wants it.
fn place_path(paths: &mut Vec<String>, path: String)
    requires
        in_path_order(old(paths)@),
    ensures
        in_path_order(final(paths)@),
        exists|at: int|
            0 <= at <= old(paths).len() && final(paths)@ == #[trigger] old(paths)@.insert(at, path),
{
    let ghost before = paths@;
    let mut i: usize = 0;
    while i < paths.len() && rank_path_texts(paths[i].as_str(), path.as_str()) != Rank::After
        invariant
            i <= paths.len(),
            paths@ == before,
            forall|j: int|
                0 <= j < i ==> path_rank(
                    components((#[trigger] before[j])@),
                    components(path@),
                ) != Rank::After,
        decreases paths.len() - i,
    {
        i += 1;
    }
    paths.insert(i, path);
    proof {
        let after = paths@;
        assert(after =~= before.insert(i as int, path));
        assert forall|x: int, y: int| 0 <= x < y < after.len() implies path_rank(
            components((#[trigger] after[x])@),
            components((#[trigger] after[y])@),
        ) != Rank::After by {
            let x0 = if x > i {
                x - 1
            } else {
                x
            };
            let y0 = if y > i {
                y - 1
            } else {
                y
            };
            if x != i && y != i {
                assert(after[x] == before[x0] && after[y] == before[y0]);
            } else if y == i {
                assert(after[x] == before[x]);
            } else {
                let p = components(path@);
                let q = components(before[i as int]@);
                let z = components(before[y0]@);
                assert(after[y] == before[y0]);
                path_rank_says(q, p);
                path_rank_says(p, z);
                if y0 > i {
                    assert(path_rank(components(before[i as int]@), components(before[y0]@))
                        != Rank::After);
                    path_rank_says(q, z);
                    if path_rank(q, z) == Rank::Before {
                        path_rank_passes_on(p, q, z);
                    }
                }
            }
        }
    }
}

pub open spec fn names_a_profile() -> spec_fn(Seq<char>) -> bool {
    |path: Seq<char>| is_profile_file(path)
}

/// The profile files among the paths of a directory, in path order.
pub fn profile_paths(found: &Vec<String>) -> (r: Vec<String>)
    ensures
        in_path_order(r@),
        texts(r@).to_multiset() == keep_where(texts(found@), names_a_profile()).to_multiset(),
{
    let ghost all = texts(found@);
    let mut r: Vec<String> = Vec::new();
    assert(texts(r@) =~= keep_where(all.take(0), names_a_profile()));
    let mut i: usize = 0;
    while i < found.len()
        invariant
            i <= found.len(),
            all == texts(found@),
            in_path_order(r@),
            texts(r@).to_multiset() == keep_where(
                all.take(i as int),
                names_a_profile(),
            ).to_multiset(),
        decreases found.len() - i,
    {
        proof {
            keep_step(all, names_a_profile(), i as int);
        }
        if names_profile(found[i].as_str()) {
            let path = found[i].as_str().to_owned();
            let ghost before = r@;
            let ghost kept = keep_where(all.take(i as int), names_a_profile());
            place_path(&mut r, path);
            proof {
                let at = choose|at: int|
                    0 <= at <= before.len() && r@ == #[trigger] before.insert(at, path);
                assert(texts(r@) =~= texts(before).insert(at, path@));
                vstd::seq_lib::to_multiset_insert(texts(before), at, path@);
                vstd::seq_lib::to_multiset_build(kept, path@);
            }
        }
        i += 1;
    }
    assert(all.take(i as int) =~= all);
    r
}

// ---------------------------------------------------------------------------------------------
// Referenced files
// ---------------------------------------------------------------------------------------------

pub open spec fn absolute(path: Seq<char>) -> bool {
    path.len() > 0 && path[0] == '/'
}

/// The files that a profile names: its overlays, and its executable where that is a path.
pub open spec fn named_files(p: Profile) -> Seq<Seq<char>> {
    if absolute(p.executable) {
        p.config_overlays.push(p.executable)
    } else {
        p.config_overlays
    }
}

/// A path that is not among the regular files.
pub open spec fn is_missing(regular: Seq<Seq<char>>) -> spec_fn(Seq<char>) -> bool {
    |path: Seq<char>| !regular.contains(path)
}

pub open spec fn is_present(regular: Seq<Seq<char>>) -> spec_fn(Seq<char>) -> bool {
    |path: Seq<char>| regular.contains(path)
}

fn is_absolute(path: &str) -> (r: bool)
    ensures
        r == absolute(path@),
{
    let chars = chars_of(path);
    chars.len() > 0 && chars[0] == '/'
}

fn lists(all: &Vec<String>, text: &str) -> (r: bool)
    ensures
        r == texts(all@).contains(text@),
{
    let mut i: usize = 0;
    while i < all.len()
        invariant
            i <= all.len(),
            forall|j: int| 0 <= j < i ==> (#[trigger] texts(all@)[j]) != text@,
        decreases all.len() - i,
    {
        if same_text(all[i].as_str(), text) {
            assert(texts(all@)[i as int] == text@);
            return true;
        }
        i += 1;
    }
    false
}

/// The files that have to be inspected before a profile is registered.
pub fn files_to_check(profile: &LaunchProfileSnapshot) -> (r: Vec<String>)
    ensures
        texts(r@) == named_files(profile@),
{
    let mut r = copy_texts(&profile.config_overlays);
    if is_absolute(profile.executable.as_str()) {
        let ghost before = r@;
        r.push(profile.executable.as_str().to_owned());
        assert(texts(r@) =~= texts(before).push(profile.executable@));
    }
    r
}

/// Requires that all files of a profile are among the regular files.
pub fn validate_files(profile: &LaunchProfileSnapshot, regular: &Vec<String>) -> (r: Result<
    (),
    ProfileError,
>)
    ensures
        match first_where(named_files(profile@), is_missing(texts(regular@))) {
            None => r is Ok,
            Some(i) => r is Err && r->Err_0@ == (ProfileFault::MissingFile {
                profile: profile.id@,
                path: named_files(profile@)[i],
            }),
        },
{
    let paths = files_to_check(profile);
    let ghost all = named_files(profile@);
    let ghost p = is_missing(texts(regular@));
    let mut i: usize = 0;
    while i < paths.len()
        invariant
            i <= paths.len(),
            all == texts(paths@),
            all == named_files(profile@),
            p == is_missing(texts(regular@)),
            forall|j: int| 0 <= j < i ==> !p(#[trigger] all[j]),
        decreases paths.len() - i,
    {
        if !lists(regular, paths[i].as_str()) {
            assert(all[i as int] == paths@[i as int]@);
            proof {
                first_found(all, p, i as int);
            }
            return Err(
                ProfileError::MissingFile {
                    profile: HarnessId(profile.id.as_str().to_owned()),
                    path: paths[i].as_str().to_owned(),
                },
            );
        }
        i += 1;
    }
    proof {
        first_missing(all, p);
    }
    Ok(())
}

/// The last value of a variable: a later one replaces an earlier one.
pub open spec fn last_value(env: Seq<(String, String)>, name: Seq<char>) -> Option<Seq<char>> {
    match last_where(env, is_variable(name)) {
        Some(i) => Some(env[i].1@),
        None => None,
    }
}

fn read_last<'a>(env: &'a Vec<(String, String)>, name: &str) -> (r: Option<&'a str>)
    ensures
        match r {
            Some(value) => last_value(env@, name@) == Some(value@),
            None => last_value(env@, name@) is None,
        },
{
    let ghost p = is_variable(name@);
    let mut i: usize = env.len();
    while i > 0
        invariant
            i <= env.len(),
            p == is_variable(name@),
            forall|j: int| i <= j < env.len() ==> !p(#[trigger] env@[j]),
        decreases i,
    {
        i -= 1;
        if same_text(env[i].0.as_str(), name) {
            proof {
                last_found(env@, p, i as int);
            }
            return Some(env[i].1.as_str());
        }
    }
    proof {
        last_missing(env@, p);
    }
    None
}

/// A name in each of the directories of a search path.
pub open spec fn in_directories(path: Seq<char>, name: Seq<char>) -> Seq<Seq<char>> {
    let directories = pieces(path, ':', None);
    Seq::new(directories.len(), |i: int| below(directories[i], name))
}

/// Lists a name in each of the directories of a search path.
pub fn directory_candidates(path: &str, name: &str) -> (r: Vec<String>)
    ensures
        texts(r@) == in_directories(path@, name@),
{
    let chars = chars_of(path);
    let directories = split_chars(&chars, ':', None);
    let ghost all = in_directories(path@, name@);
    assert(lists_view(directories@) == pieces(path@, ':', None));
    let mut r: Vec<String> = Vec::new();
    let mut i: usize = 0;
    while i < directories.len()
        invariant
            i <= directories.len(),
            r.len() == i,
            lists_view(directories@) == pieces(path@, ':', None),
            all == in_directories(path@, name@),
            forall|j: int| 0 <= j < i ==> (#[trigger] r@[j])@ == all[j],
        decreases directories.len() - i,
    {
        let directory = text_of(directories[i].as_slice());
        assert(pieces(path@, ':', None)[i as int] == directories@[i as int]@);
        r.push(join_path(directory.as_str(), name));
        i += 1;
    }
    assert(texts(r@) =~= all);
    r
}

/// Finds the first of some paths that is a regular file.
pub fn first_regular(paths: &Vec<String>, regular: &Vec<String>) -> (r: Option<usize>)
    ensures
        match r {
            Some(i) => i < paths.len() && first_where(texts(paths@), is_present(texts(regular@)))
                == Some(i as int),
            None => first_where(texts(paths@), is_present(texts(regular@))) is None,
        },
{
    let ghost all = texts(paths@);
    let ghost p = is_present(texts(regular@));
    let mut i: usize = 0;
    while i < paths.len()
        invariant
            i <= paths.len(),
            all == texts(paths@),
            p == is_present(texts(regular@)),
            forall|j: int| 0 <= j < i ==> !p(#[trigger] all[j]),
        decreases paths.len() - i,
    {
        assert(all[i as int] == paths@[i as int]@);
        if lists(regular, paths[i].as_str()) {
            proof {
                first_found(all, p, i as int);
            }
            return Some(i);
        }
        i += 1;
    }
    proof {
        first_missing(all, p);
    }
    None
}

/// Where an executable can be: at its own path, or in the directories of `PATH`.
pub open spec fn candidates(p: Profile, env: Seq<(String, String)>) -> Seq<Seq<char>> {
    if absolute(p.executable) {
        seq![p.executable]
    } else {
        in_directories(
            match last_value(env, "PATH"@) {
                Some(value) => value,
                None => ""@,
            },
            p.executable,
        )
    }
}

/// The paths that have to be inspected to resolve an executable.
pub fn executable_candidates(
    profile: &LaunchProfileSnapshot,
    environment: &Vec<(String, String)>,
) -> (r: Vec<String>)
    ensures
        texts(r@) == candidates(profile@, environment@),
{
    if is_absolute(profile.executable.as_str()) {
        let mut r: Vec<String> = Vec::new();
        r.push(profile.executable.as_str().to_owned());
        assert(texts(r@) =~= seq![profile.executable@]);
        return r;
    }
    let path = match read_last(environment, "PATH") {
        Some(value) => value,
        None => "",
    };
    directory_candidates(path, profile.executable.as_str())
}

/// The executable of a profile: the first candidate that is a regular file.
pub open spec fn found_executable(
    p: Profile,
    env: Seq<(String, String)>,
    regular: Seq<Seq<char>>,
) -> Result<Seq<char>, ProfileFault> {
    match first_where(candidates(p, env), is_present(regular)) {
        Some(i) => Ok(candidates(p, env)[i]),
        None => if absolute(p.executable) {
            Err(ProfileFault::MissingFile { profile: p.id, path: p.executable })
        } else {
            Err(ProfileFault::ExecutableNotFound { profile: p.id, executable: p.executable })
        },
    }
}

/// Resolves a normalized profile executable for one new Session; `regular` lists which of the
/// candidates are regular files.
pub fn resolve_executable(
    profile: &LaunchProfileSnapshot,
    environment: &Vec<(String, String)>,
    regular: &Vec<String>,
) -> (r: Result<String, ProfileError>)
    ensures
        match (r, found_executable(profile@, environment@, texts(regular@))) {
            (Ok(path), Ok(found)) => path@ == found,
            (Err(e), Err(f)) => e@ == f,
            _ => false,
        },
{
    let paths = executable_candidates(profile, environment);
    if let Some(i) = first_regular(&paths, regular) {
        assert(texts(paths@)[i as int] == paths@[i as int]@);
        return Ok(paths[i].as_str().to_owned());
    }
    let id = HarnessId(profile.id.as_str().to_owned());
    let executable = profile.executable.as_str().to_owned();
    if is_absolute(profile.executable.as_str()) {
        Err(ProfileError::MissingFile { profile: id, path: executable })
    } else {
        Err(ProfileError::ExecutableNotFound { profile: id, executable })
    }
}

// ---------------------------------------------------------------------------------------------
// The registry
// ---------------------------------------------------------------------------------------------

/// Exact profile selection retained with a Harness Session.
#[derive(Debug)]
pub struct ResolvedLaunchProfile {
    /// Parsed, validated public profile.
    pub profile: LaunchProfileSnapshot,
    /// Absolute executable resolved for this new Harness Session.
    pub executable: String,
    /// Exact source file contents.
    pub snapshot: String,
    /// Lowercase SHA-256 of [`Self::snapshot`].
    pub digest: String,
    /// Explicitly inherited environment values that were present.
    pub environment: Vec<(String, String)>,
}

/// A registered profile.
#[derive(Debug)]
struct RegistryEntry {
    profile: LaunchProfileSnapshot,
    snapshot: String,
    digest: String,
}

/// What a registered profile says: the profile and the exact contents of its file.
pub struct Registered {
    pub profile: Profile,
    pub snapshot: Seq<char>,
}

/// Immutable in-memory registry of Coordinator-owned profiles.
#[derive(Debug)]
pub struct ProfileRegistry {
    entries: Vec<RegistryEntry>,
}

pub open spec fn is_profile(id: Seq<char>) -> spec_fn(Registered) -> bool {
    |e: Registered| e.profile.id == id
}

pub open spec fn is_later(id: Seq<char>) -> spec_fn(Registered) -> bool {
    |e: Registered| precedes(id, e.profile.id)
}

/// Where a new profile stands.
pub open spec fn profile_place(entries: Seq<Registered>, id: Seq<char>) -> int {
    match first_where(entries, is_later(id)) {
        Some(i) => i,
        None => entries.len() as int,
    }
}

/// Profiles stand in the order of their identifiers, each once.
pub open spec fn in_id_order(entries: Seq<Registered>) -> bool {
    forall|i: int, j: int|
        0 <= i < j < entries.len() ==> precedes(
            (#[trigger] entries[i]).profile.id,
            (#[trigger] entries[j]).profile.id,
        )
}

/// What an environment hands on: the last values of the allowed names.
pub open spec fn inherits(
    inherited: Seq<(String, String)>,
    allowed: Seq<Seq<char>>,
    env: Seq<(String, String)>,
) -> bool {
    &&& named_once(inherited)
    &&& forall|name: Seq<char>| #[trigger]
        value_of(inherited, name) == (if allowed.contains(name) {
            last_value(env, name)
        } else {
            None
        })
}

/// What a resolved profile is.
pub open spec fn resolves(
    r: Result<ResolvedLaunchProfile, ProfileError>,
    e: Registered,
    env: Seq<(String, String)>,
    regular: Seq<Seq<char>>,
) -> bool {
    match (r, found_executable(e.profile, env, regular)) {
        (Ok(resolved), Ok(path)) => {
            &&& resolved.profile@ == e.profile
            &&& resolved.executable@ == path
            &&& resolved.snapshot@ == e.snapshot
            &&& resolved.digest@ == digest_form(encode_utf8(e.snapshot))
            &&& inherits(resolved.environment@, e.profile.inherit_env, env)
        },
        (Err(error), Err(f)) => error@ == f,
        _ => false,
    }
}

proof fn last_value_step(env: Seq<(String, String)>, i: int, name: Seq<char>)
    requires
        0 <= i < env.len(),
    ensures
        last_value(env.take(i + 1), name) == (if env[i].0@ == name {
            Some(env[i].1@)
        } else {
            last_value(env.take(i), name)
        }),
{
    let more = env.take(i + 1);
    assert(more.drop_last() =~= env.take(i));
    assert(more.last() == env[i]);
    crate::select::last_says(env.take(i), is_variable(name));
}

/// Hands on the allowed part of an environment.
pub fn inherited_environment(allowed: &Vec<String>, environment: &Vec<(String, String)>) -> (r: Vec<
    (String, String),
>)
    ensures
        inherits(r@, texts(allowed@), environment@),
{
    let ghost env = environment@;
    let ghost names = texts(allowed@);
    let mut r: Vec<(String, String)> = Vec::new();
    let mut i: usize = 0;
    while i < environment.len()
        invariant
            i <= environment.len(),
            env == environment@,
            names == texts(allowed@),
            inherits(r@, names, env.take(i as int)),
        decreases environment.len() - i,
    {
        let ghost before = r@;
        if lists(allowed, environment[i].0.as_str()) {
            set_variable(&mut r, environment[i].0.as_str(), environment[i].1.as_str());
        }
        proof {
            assert forall|name: Seq<char>| #[trigger]
                value_of(r@, name) == (if names.contains(name) {
                    last_value(env.take(i + 1), name)
                } else {
                    None
                }) by {
                last_value_step(env, i as int, name);
                assert(value_of(before, name) == (if names.contains(name) {
                    last_value(env.take(i as int), name)
                } else {
                    None
                }));
            }
        }
        i += 1;
    }
    assert(env.take(i as int) =~= env);
    r
}

impl RegistryEntry {
    spec fn shown(self) -> Registered {
        Registered { profile: self.profile@, snapshot: self.snapshot@ }
    }

    spec fn wf(self) -> bool {
        self.digest@ == digest_form(encode_utf8(self.snapshot@))
    }

    /// Resolves a registered profile for a new Session.
    fn resolve_entry(&self, environment: &Vec<(String, String)>, regular: &Vec<String>) -> (r:
        Result<ResolvedLaunchProfile, ProfileError>)
        requires
            self.wf(),
        ensures
            resolves(r, self.shown(), environment@, texts(regular@)),
    {
        match resolve_executable(&self.profile, environment, regular) {
            Err(e) => Err(e),
            Ok(executable) => Ok(
                ResolvedLaunchProfile {
                    profile: copy_profile(&self.profile),
                    executable,
                    snapshot: self.snapshot.as_str().to_owned(),
                    digest: self.digest.as_str().to_owned(),
                    environment: inherited_environment(&self.profile.inherit_env, environment),
                },
            ),
        }
    }
}

impl ProfileRegistry {
    /// What is registered, by identifier.
    pub closed spec fn entries(self) -> Seq<Registered> {
        Seq::new(self.entries@.len(), |i: int| self.entries@[i].shown())
    }

    /// Profiles stand in the order of their identifiers, each with the digest of its file.
    pub open spec fn wf(self) -> bool {
        &&& in_id_order(self.entries())
        &&& self.digested()
    }

    /// Every profile has the digest of its file.
    pub closed spec fn digested(self) -> bool {
        forall|i: int| 0 <= i < self.entries@.len() ==> (#[trigger] self.entries@[i]).wf()
    }

    /// A registry without profiles.
    pub fn new() -> (r: ProfileRegistry)
        ensures
            r.wf(),
            r.entries() == Seq::<Registered>::empty(),
    {
        let r = ProfileRegistry { entries: Vec::new() };
        assert(r.entries() =~= Seq::<Registered>::empty());
        r
    }

    fn find(&self, id: &str) -> (r: Option<usize>)
        ensures
            match r {
                Some(i) => i < self.entries.len() && first_where(self.entries(), is_profile(id@))
                    == Some(i as int),
                None => first_where(self.entries(), is_profile(id@)) is None,
            },
    {
        let ghost p = is_profile(id@);
        let mut i: usize = 0;
        while i < self.entries.len()
            invariant
                i <= self.entries.len(),
                p == is_profile(id@),
                forall|j: int| 0 <= j < i ==> !p(#[trigger] self.entries()[j]),
            decreases self.entries.len() - i,
        {
            if same_text(self.entries[i].profile.id.as_str(), id) {
                proof {
                    first_found(self.entries(), p, i as int);
                }
                return Some(i);
            }
            i += 1;
        }
        proof {
            first_missing(self.entries(), p);
        }
        None
    }

    /// Registers a profile with the exact contents of its file; no identifier is registered
    /// twice.
    pub fn register(&mut self, profile: LaunchProfileSnapshot, snapshot: String) -> (r: Result<
        (),
        ProfileError,
    >)
        requires
            old(self).wf(),
        ensures
            final(self).wf(),
            match first_where(old(self).entries(), is_profile(profile.id@)) {
                Some(_) => r is Err && r->Err_0@ == ProfileFault::Duplicate(profile.id@)
                    && *final(self) == *old(self),
                None => r is Ok && final(self).entries() == old(self).entries().insert(
                    profile_place(old(self).entries(), profile.id@),
                    Registered { profile: profile@, snapshot: snapshot@ },
                ),
            },
    {
        if self.find(profile.id.as_str()).is_some() {
            return Err(ProfileError::Duplicate(HarnessId(profile.id.as_str().to_owned())));
        }
        let ghost all = self.entries();
        let ghost later = is_later(profile.id@);
        let mut at: usize = 0;
        while at < self.entries.len() && !comes_before(
            profile.id.as_str(),
            self.entries[at].profile.id.as_str(),
        )
            invariant
                at <= self.entries.len(),
                *self == *old(self),
                all == self.entries(),
                later == is_later(profile.id@),
                forall|j: int| 0 <= j < at ==> !later(#[trigger] all[j]),
            decreases self.entries.len() - at,
        {
            at += 1;
        }
        proof {
            if at < self.entries.len() {
                first_found(all, later, at as int);
            } else {
                first_missing(all, later);
            }
            first_says(all, is_profile(profile.id@));
        }
        let digest = digest_text(snapshot.as_str());
        let entry = RegistryEntry { profile, snapshot, digest };
        let ghost new = entry.shown();
        self.entries.insert(at, entry);
        proof {
            let after = self.entries();
            assert(after =~= all.insert(at as int, new));
            assert forall|x: int, y: int| 0 <= x < y < after.len() implies precedes(
                (#[trigger] after[x]).profile.id,
                (#[trigger] after[y]).profile.id,
            ) by {
                let x0 = if x > at {
                    x - 1
                } else {
                    x
                };
                let y0 = if y > at {
                    y - 1
                } else {
                    y
                };
                if x != at && y != at {
                    assert(after[x] == all[x0] && after[y] == all[y0]);
                } else if y == at {
                    assert(after[x] == all[x]);
                    assert(!later(all[x]));
                    assert(!is_profile(profile.id@)(all[x]));
                    one_precedes(all[x].profile.id, profile.id@);
                } else {
                    assert(after[y] == all[y0]);
                    if y0 > at {
                        assert(precedes(all[at as int].profile.id, all[y0].profile.id));
                        precedes_passes_on(profile.id@, all[at as int].profile.id, all[y0].profile.id);
                    }
                }
            }
            assert forall|i: int| 0 <= i < self.entries@.len() implies (
            #[trigger] self.entries@[i]).wf() by {
                if i < at {
                    assert(self.entries@[i] == old(self).entries@[i]);
                } else if i > at {
                    assert(self.entries@[i] == old(self).entries@[i - 1]);
                }
            }
        }
        Ok(())
    }

    /// Lists registered identifiers without selecting or ranking one; they rise strictly.
    pub fn ids(&self) -> (r: Vec<HarnessId>)
        requires
            self.wf(),
        ensures
            r.len() == self.entries().len(),
            forall|i: int|
                0 <= i < r.len() ==> (#[trigger] r@[i])@ == self.entries()[i].profile.id,
            forall|i: int, j: int|
                0 <= i < j < r.len() ==> precedes((#[trigger] r@[i])@, (#[trigger] r@[j])@),
    {
        let mut r: Vec<HarnessId> = Vec::new();
        let mut i: usize = 0;
        while i < self.entries.len()
            invariant
                i <= self.entries.len(),
                r.len() == i,
                forall|j: int|
                    0 <= j < i ==> (#[trigger] r@[j])@ == self.entries()[j].profile.id,
            decreases self.entries.len() - i,
        {
            r.push(HarnessId(self.entries[i].profile.id.as_str().to_owned()));
            i += 1;
        }
        r
    }

    /// The profile with an identifier.
    pub fn profile(&self, id: &HarnessId) -> (r: Option<&LaunchProfileSnapshot>)
        ensures
            match first_where(self.entries(), is_profile(id@)) {
                Some(i) => r is Some && r->0@ == self.entries()[i].profile,
                None => r is None,
            },
    {
        match self.find(id.as_str()) {
            Some(i) => Some(&self.entries[i].profile),
            None => None,
        }
    }

    /// Resolves exactly the caller-selected identifier and Kind. The environment is filtered to
    /// names explicitly declared by the profile.
    pub fn resolve(
        &self,
        id: &HarnessId,
        kind: HarnessKind,
        environment: &Vec<(String, String)>,
        regular: &Vec<String>,
    ) -> (r: Result<ResolvedLaunchProfile, ProfileError>)
        requires
            self.wf(),
        ensures
            match first_where(self.entries(), is_profile(id@)) {
                None => r is Err && r->Err_0@ == ProfileFault::NotFound(id@),
                Some(i) => if self.entries()[i].profile.kind != kind {
                    r is Err && r->Err_0@ == (ProfileFault::KindMismatch {
                        profile: id@,
                        actual: kind,
                    })
                } else {
                    resolves(r, self.entries()[i], environment@, texts(regular@))
                },
            },
    {
        match self.find(id.as_str()) {
            None => Err(ProfileError::NotFound(HarnessId(id.as_str().to_owned()))),
            Some(i) => {
                if self.entries[i].profile.kind != kind {
                    return Err(
                        ProfileError::KindMismatch {
                            profile: HarnessId(id.as_str().to_owned()),
                            actual: kind,
                        },
                    );
                }
                self.entries[i].resolve_entry(environment, regular)
            },
        }
    }

    /// Resolves one exact profile and accepts the Kind that it declares.
    pub fn resolve_selected(
        &self,
        id: &HarnessId,
        environment: &Vec<(String, String)>,
        regular: &Vec<String>,
    ) -> (r: Result<ResolvedLaunchProfile, ProfileError>)
        requires
            self.wf(),
        ensures
            match first_where(self.entries(), is_profile(id@)) {
                None => r is Err && r->Err_0@ == ProfileFault::NotFound(id@),
                Some(i) => resolves(r, self.entries()[i], environment@, texts(regular@)),
            },
    {
        match self.find(id.as_str()) {
            None => Err(ProfileError::NotFound(HarnessId(id.as_str().to_owned()))),
            Some(i) => self.entries[i].resolve_entry(environment, regular),
        }
    }
}

// ---------------------------------------------------------------------------------------------
// Loading
// ---------------------------------------------------------------------------------------------

/// A profile file as it was found: its contents or why it could not be read, what the schema
/// version that it names makes of it, and which of the files that it references are regular.
#[derive(Debug)]
pub struct ProfileFile {
    pub path: String,
    pub snapshot: Result<String, String>,
    pub declared: Result<DeclaredProfile, DeclarationError>,
    pub regular: Vec<String>,
}

/// What a profile file declares, or why it is refused: a file that does not decode, as TOML or as a
/// profile of the version that it names, is told apart from one that breaks a rule.
pub open spec fn decoded(file: ProfileFile) -> Result<Registered, ProfileFault> {
    match file.snapshot {
        Err(source) => Err(ProfileFault::Io { path: file.path@, source: source@ }),
        Ok(snapshot) => match (
            toml_of(snapshot@),
            declared_version(toml_of(snapshot@)),
            file.declared,
        ) {
            (Err(source), _, _) => Err(ProfileFault::Toml { path: file.path@, source }),
            (Ok(_), Err(message), _) => Err(ProfileFault::Validation { path: file.path@, message }),
            (Ok(_), Ok(_), Err(DeclarationError::Undecoded(source))) => Err(
                ProfileFault::Toml { path: file.path@, source: source@ },
            ),
            (Ok(_), Ok(_), Err(DeclarationError::Invalid(message))) => Err(
                ProfileFault::Validation { path: file.path@, message: message@ },
            ),
            (Ok(_), Ok(_), Ok(declared)) => {
                let profile = normal_form(declared);
                match first_where(named_files(profile), is_missing(texts(file.regular@))) {
                    Some(i) => Err(
                        ProfileFault::MissingFile {
                            profile: profile.id,
                            path: named_files(profile)[i],
                        },
                    ),
                    None => Ok(Registered { profile, snapshot: snapshot@ }),
                }
            },
        },
    }
}

/// The profiles after one more file.
pub open spec fn load_file(entries: Seq<Registered>, file: ProfileFile) -> Result<
    Seq<Registered>,
    ProfileFault,
> {
    match decoded(file) {
        Err(f) => Err(f),
        Ok(new) => if first_where(entries, is_profile(new.profile.id)) is Some {
            Err(ProfileFault::Duplicate(new.profile.id))
        } else {
            Ok(entries.insert(profile_place(entries, new.profile.id), new))
        },
    }
}

/// The profiles of all files, or what is wrong with the first file that is refused.
pub open spec fn load_files(entries: Seq<Registered>, files: Seq<ProfileFile>) -> Result<
    Seq<Registered>,
    ProfileFault,
>
    decreases files.len(),
{
    if files.len() == 0 {
        Ok(entries)
    } else {
        match load_file(entries, files[0]) {
            Err(f) => Err(f),
            Ok(next) => load_files(next, files.drop_first()),
        }
    }
}

impl ProfileRegistry {
    fn load_one(&mut self, file: ProfileFile) -> (r: Result<(), ProfileError>)
        requires
            old(self).wf(),
        ensures
            final(self).wf(),
            match (r, load_file(old(self).entries(), file)) {
                (Ok(_), Ok(next)) => final(self).entries() == next,
                (Err(e), Err(f)) => e@ == f,
                _ => false,
            },
    {
        let path = file.path;
        let snapshot = match file.snapshot {
            Err(source) => {
                return Err(ProfileError::Io { path, source });
            },
            Ok(snapshot) => snapshot,
        };
        let document = match parse_toml(snapshot.as_str()) {
            Err(source) => {
                return Err(ProfileError::Toml { path, source });
            },
            Ok(document) => document,
        };
        match require_version(get_integer(&document, "schema_version")) {
            Err(message) => {
                return Err(ProfileError::Validation { path, message });
            },
            Ok(_) => {},
        }
        let profile = match file.declared {
            Err(DeclarationError::Undecoded(source)) => {
                return Err(ProfileError::Toml { path, source });
            },
            Err(DeclarationError::Invalid(message)) => {
                return Err(ProfileError::Validation { path, message });
            },
            Ok(declared) => normalize(declared),
        };
        match validate_files(&profile, &file.regular) {
            Err(e) => {
                return Err(e);
            },
            Ok(_) => {},
        }
        self.register(profile, snapshot)
    }

    /// Loads profile files, in the order in which they are given.
    pub fn load(files: Vec<ProfileFile>) -> (r: Result<ProfileRegistry, ProfileError>)
        ensures
            match (r, load_files(Seq::empty(), files@)) {
                (Ok(registry), Ok(entries)) => registry.wf() && registry.entries() == entries,
                (Err(e), Err(f)) => e@ == f,
                _ => false,
            },
    {
        let mut registry = ProfileRegistry::new();
        let mut rest = files;
        while rest.len() > 0
            invariant
                registry.wf(),
                load_files(registry.entries(), rest@) == load_files(Seq::empty(), files@),
            decreases rest.len(),
        {
            let ghost before = rest@;
            let file = rest.remove(0);
            assert(rest@ =~= before.drop_first());
            match registry.load_one(file) {
                Err(e) => {
                    return Err(e);
                },
                Ok(_) => {},
            }
        }
        Ok(registry)
    }
}

// ---------------------------------------------------------------------------------------------
// Worker starts
// ---------------------------------------------------------------------------------------------

/// Durable declaration of a Harness.
#[derive(Debug)]
pub struct HarnessDefinitionV1 {
    pub schema_version: u32,
    pub id: HarnessId,
    pub kind: HarnessKind,
    pub tier: HarnessTier,
    pub cwd: String,
    pub launch_profile: Option<String>,
    pub model: Option<String>,
}

/// Why a Worker cannot be started from a profile; `declared` is what the schema version that the
/// profile names makes of it.
pub open spec fn launch_refusal(
    definition: HarnessDefinitionV1,
    snapshot: Seq<char>,
    digest: Seq<char>,
    declared: Result<DeclaredProfile, DeclarationError>,
) -> Option<Refusal> {
    if definition.tier != HarnessTier::Worker {
        Some(refusal(ErrorCategory::InvalidInput, "Worker start requires Worker tier"@))
    } else if !digest_shaped(digest) {
        Some(not_a_digest())
    } else if digest_form(encode_utf8(snapshot)) != digest {
        Some(
            refusal(ErrorCategory::InvalidInput, "launch profile snapshot digest does not match"@),
        )
    } else {
        match (declared_version(toml_of(snapshot)), declared) {
            (Err(text), _) => Some(
                refusal(
                    ErrorCategory::InvalidInput,
                    "launch profile snapshot is invalid: "@ + text,
                ),
            ),
            (Ok(_), Err(e)) => Some(
                refusal(
                    ErrorCategory::InvalidInput,
                    "launch profile snapshot is invalid: "@ + e.said(),
                ),
            ),
            (Ok(_), Ok(p)) => if normal_form(p).kind != definition.kind || optional_text(
                definition.launch_profile,
            ) != Some(normal_form(p).id) || optional_text(definition.model) != normal_form(
                p,
            ).model {
                Some(
                    refusal(
                        ErrorCategory::InvalidInput,
                        "Worker definition does not match the resolved launch profile"@,
                    ),
                )
            } else {
                None
            },
        }
    }
}

/// Requires the profile that a Worker's definition was made from, unaltered.
pub fn require_launch_profile(
    definition: &HarnessDefinitionV1,
    snapshot: &str,
    digest: &str,
    declared: Result<DeclaredProfile, DeclarationError>,
) -> (r: Result<(), CoordinatorError>)
    ensures
        match launch_refusal(*definition, snapshot@, digest@, declared) {
            None => r is Ok,
            Some(e) => r is Err && r->Err_0@ == e,
        },
{
    if definition.tier != HarnessTier::Worker {
        return Err(refuse(ErrorCategory::InvalidInput, "Worker start requires Worker tier"));
    }
    match validate_digest(digest) {
        Err(e) => {
            return Err(e);
        },
        Ok(_) => {},
    }
    let actual = digest_text(snapshot);
    if !same_text(actual.as_str(), digest) {
        return Err(
            refuse(ErrorCategory::InvalidInput, "launch profile snapshot digest does not match"),
        );
    }
    let profile = match parse_launch_profile_snapshot(snapshot, declared) {
        Err(message) => {
            let text = join("launch profile snapshot is invalid: ", message.as_str());
            return Err(CoordinatorError::new(ErrorCategory::InvalidInput, text));
        },
        Ok(profile) => profile,
    };
    let named = match &definition.launch_profile {
        Some(id) => same_text(id.as_str(), profile.id.as_str()),
        None => false,
    };
    if profile.kind != definition.kind || !named || !same_optional(
        &definition.model,
        &profile.model,
    ) {
        return Err(
            refuse(
                ErrorCategory::InvalidInput,
                "Worker definition does not match the resolved launch profile",
            ),
        );
    }
    Ok(())
}

// ---------------------------------------------------------------------------------------------
// Laws
// ---------------------------------------------------------------------------------------------

/// Nothing is inherited that a profile does not name.
pub proof fn only_named_variables_are_inherited(
    inherited: Seq<(String, String)>,
    allowed: Seq<Seq<char>>,
    env: Seq<(String, String)>,
    i: int,
)
    requires
        inherits(inherited, allowed, env),
        0 <= i < inherited.len(),
    ensures
        allowed.contains(inherited[i].0@),
        last_value(env, inherited[i].0@) == Some(inherited[i].1@),
{
    let name = inherited[i].0@;
    let p = is_variable(name);
    assert(p(inherited[i]));
    assert forall|j: int| 0 <= j < i implies !p(#[trigger] inherited[j]) by {
        assert(inherited[j].0@ != inherited[i].0@);
    }
    first_found(inherited, p, i);
    assert(value_of(inherited, name) == Some(inherited[i].1@));
}

} // verus!
