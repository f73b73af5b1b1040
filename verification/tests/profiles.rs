use herdr_coordinator::contract::{
    CodexApprovalPolicy, CodexSandboxMode, HarnessKind, HarnessTier,
};
use herdr_coordinator::digest::digest_text;
use herdr_coordinator::identity::HarnessId;
use herdr_coordinator::profile::{
    executable_candidates, files_to_check, profile_paths, profile_version, require_launch_profile,
    require_version, DeclarationError, DeclaredProfile, HarnessDefinitionV1, ProfileError, ProfileFile,
    ProfileRegistry,
};

const V2: &str = "schema_version = 2\nid = \"p\"\n";

fn words(list: &[&str]) -> Vec<String> {
    list.iter().map(|word| (*word).to_owned()).collect()
}

fn declared(id: &str, executable: &str) -> DeclaredProfile {
    DeclaredProfile::V2 {
        id: HarnessId(id.to_owned()),
        kind: HarnessKind::Omp,
        executable: executable.to_owned(),
        provider_profile: None,
        model: "m".to_owned(),
        inherit_env: words(&["PATH", "LANG"]),
        config_overlays: words(&["/overlay.yml"]),
    }
}

fn file(path: &str, id: &str, executable: &str) -> ProfileFile {
    ProfileFile {
        path: path.to_owned(),
        snapshot: Ok(V2.to_owned()),
        declared: Ok(declared(id, executable)),
        regular: words(&["/overlay.yml", "/bin/omp"]),
    }
}

fn environment(list: &[(&str, &str)]) -> Vec<(String, String)> {
    list.iter().map(|(name, text)| ((*name).to_owned(), (*text).to_owned())).collect()
}

#[test]
fn schema_versions_are_read() {
    assert_eq!(profile_version(V2), Ok(2));
    assert_eq!(profile_version("schema_version = 3"), Ok(3));
    assert_eq!(
        profile_version("schema_version = -4").unwrap_err(),
        "unsupported launch profile schema version -4"
    );
    assert_eq!(
        profile_version("schema_version = \"1\"").unwrap_err(),
        "launch profile schema_version is required"
    );
    assert!(profile_version("= nothing").is_err());
    assert_eq!(require_version(Some(1)), Ok(1));
    assert_eq!(require_version(None).unwrap_err(), "launch profile schema_version is required");
}

#[test]
fn profile_files_are_read_in_path_order() {
    let found = words(&["/p/b.toml", "/p/a.txt", "/p/.toml", "/p/a.toml", "/p/c.toml"]);
    assert_eq!(profile_paths(&found), words(&["/p/a.toml", "/p/b.toml", "/p/c.toml"]));
}

#[test]
fn profiles_are_registered_once() {
    let registry =
        ProfileRegistry::load(vec![file("/p/1.toml", "b", "/bin/omp"), file("/p/2.toml", "a", "omp")])
            .unwrap();
    let ids: Vec<String> = registry.ids().into_iter().map(|id| id.0).collect();
    assert_eq!(ids, words(&["a", "b"]));
    let twice =
        ProfileRegistry::load(vec![file("/p/1.toml", "a", "omp"), file("/p/2.toml", "a", "omp")]);
    assert_eq!(twice.unwrap_err().text(), "duplicate launch profile ID `a`");
}

#[test]
fn refused_files_say_why() {
    let mut unreadable = file("/p/1.toml", "a", "omp");
    unreadable.snapshot = Err("denied".to_owned());
    assert_eq!(
        ProfileRegistry::load(vec![unreadable]).unwrap_err().text(),
        "cannot read launch profile path `/p/1.toml`: denied"
    );
    let mut invalid = file("/p/1.toml", "a", "omp");
    invalid.declared = Err(DeclarationError::Invalid("no model".to_owned()));
    assert_eq!(
        ProfileRegistry::load(vec![invalid]).unwrap_err().text(),
        "invalid launch profile `/p/1.toml`: no model"
    );
    let mut undecoded = file("/p/1.toml", "a", "omp");
    undecoded.declared = Err(DeclarationError::Undecoded("missing field".to_owned()));
    assert_eq!(
        ProfileRegistry::load(vec![undecoded]).unwrap_err().text(),
        "invalid launch profile TOML `/p/1.toml`: missing field"
    );
    let mut bad = file("/p/bad.toml", "a", "omp");
    bad.snapshot = Ok("= nothing".to_owned());
    assert!(matches!(
        ProfileRegistry::load(vec![bad]).unwrap_err(),
        ProfileError::Toml { path, .. } if path == "/p/bad.toml"
    ));
    let mut unversioned = file("/p/1.toml", "a", "omp");
    unversioned.snapshot = Ok("id = \"a\"".to_owned());
    assert!(matches!(
        ProfileRegistry::load(vec![unversioned]).unwrap_err(),
        ProfileError::Validation { message, .. }
            if message == "launch profile schema_version is required"
    ));
    let mut missing = file("/p/1.toml", "a", "/bin/omp");
    missing.regular = words(&["/overlay.yml"]);
    assert_eq!(
        ProfileRegistry::load(vec![missing]).unwrap_err().text(),
        "launch profile `a` references a missing or non-regular file `/bin/omp`"
    );
}

#[test]
fn profiles_resolve_for_a_session() {
    let registry =
        ProfileRegistry::load(vec![file("/p/1.toml", "a", "omp"), file("/p/2.toml", "b", "/bin/omp")])
            .unwrap();
    let id = HarnessId("a".to_owned());
    let env = environment(&[("PATH", "/old"), ("HOME", "/h"), ("PATH", "/usr/bin:/opt"), ("LANG", "C")]);
    let profile = registry.profile(&id).unwrap();
    assert_eq!(files_to_check(profile), words(&["/overlay.yml"]));
    assert_eq!(executable_candidates(profile, &env), words(&["/usr/bin/omp", "/opt/omp"]));
    let resolved =
        registry.resolve(&id, HarnessKind::Omp, &env, &words(&["/opt/omp"])).unwrap();
    assert_eq!(resolved.executable, "/opt/omp");
    assert_eq!(resolved.snapshot, V2);
    assert_eq!(resolved.digest, digest_text(V2));
    let mut inherited = resolved.environment;
    inherited.sort();
    assert_eq!(inherited, environment(&[("LANG", "C"), ("PATH", "/usr/bin:/opt")]));
    assert_eq!(
        registry.resolve_selected(&id, &env, &Vec::new()).unwrap_err().text(),
        "launch profile `a` cannot resolve executable `omp` through PATH"
    );
    assert_eq!(
        registry
            .resolve_selected(&HarnessId("b".to_owned()), &env, &Vec::new())
            .unwrap_err()
            .text(),
        "launch profile `b` references a missing or non-regular file `/bin/omp`"
    );
    assert_eq!(
        registry.resolve(&id, HarnessKind::Codex, &env, &Vec::new()).unwrap_err().text(),
        "launch profile `a` is not compatible with Codex"
    );
    assert_eq!(
        registry
            .resolve_selected(&HarnessId("z".to_owned()), &env, &Vec::new())
            .unwrap_err()
            .text(),
        "launch profile `z` does not exist"
    );
}

#[test]
fn codex_profiles_carry_their_policies() {
    let declared = DeclaredProfile::V3 {
        id: HarnessId("c".to_owned()),
        kind: HarnessKind::Codex,
        executable: "codex".to_owned(),
        model: "m".to_owned(),
        inherit_env: Vec::new(),
        approval_policy: CodexApprovalPolicy::Never,
        sandbox_mode: CodexSandboxMode::ReadOnly,
    };
    let made = herdr_coordinator::profile::normalize(declared);
    assert_eq!(made.schema_version, 3);
    assert_eq!(made.codex_approval_policy, Some(CodexApprovalPolicy::Never));
    assert_eq!(made.provider_profile, None);
    assert!(made.config_overlays.is_empty());
}

#[test]
fn workers_start_from_their_own_profile() {
    let definition = |tier: HarnessTier, profile: &str| HarnessDefinitionV1 {
        schema_version: 1,
        id: HarnessId("w".to_owned()),
        kind: HarnessKind::Omp,
        tier,
        cwd: "/repo".to_owned(),
        launch_profile: Some(profile.to_owned()),
        model: Some("m".to_owned()),
    };
    let digest = digest_text(V2);
    let refusal = |definition: HarnessDefinitionV1, digest: &str, declared: Result<DeclaredProfile, DeclarationError>| {
        require_launch_profile(&definition, V2, digest, declared).unwrap_err().message
    };
    let good = || Ok(declared("p", "omp"));
    let worker = HarnessTier::Worker;
    assert!(require_launch_profile(&definition(worker, "p"), V2, &digest, good()).is_ok());
    assert_eq!(
        refusal(definition(HarnessTier::Supervisor, "p"), &digest, good()),
        "Worker start requires Worker tier"
    );
    assert_eq!(
        refusal(definition(worker, "p"), &digest_text("else"), good()),
        "launch profile snapshot digest does not match"
    );
    assert!(require_launch_profile(&definition(worker, "p"), V2, "short", good()).is_err());
    assert_eq!(
        refusal(
            definition(worker, "p"),
            &digest,
            Err(DeclarationError::Invalid("no model".to_owned())),
        ),
        "launch profile snapshot is invalid: no model"
    );
    assert_eq!(
        refusal(definition(worker, "q"), &digest, good()),
        "Worker definition does not match the resolved launch profile"
    );
}
