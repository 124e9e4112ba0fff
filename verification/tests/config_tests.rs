use beardist::config::BuildEnv;
use beardist::config::BuildParamsError;
use beardist::config::CONFIG_VERSION;
use beardist::config::binary_path;
use beardist::config::cargo_out_dir;
use beardist::config::cargo_target_dir;
use beardist::config::config_version_ok;
use beardist::config::resolve_build_params;
use beardist::config::triplet_from_libdir;

#[test]
fn only_the_supported_config_version_is_accepted() {
    assert_eq!(CONFIG_VERSION, 3);
    assert!(config_version_ok(3));
    assert!(!config_version_ok(2));
    assert!(!config_version_ok(4));
    assert!(!config_version_ok(0));
}

#[test]
fn full_environment_is_a_real_run() {
    let p = resolve_build_params(
        Some("/cache".to_string()),
        Some("SECRET-REDACTED".to_string()),
        Some("refs/tags/v1.2.3".to_string()),
        Some("https://github.example".to_string()),
        Some("aarch64-apple-darwin".to_string()),
        true,
        None,
    )
    .unwrap();
    assert!(!p.is_dry_run);
    assert_eq!(p.cache_dir, "/cache");
    assert_eq!(p.tag, "v1.2.3");
    assert_eq!(p.server_url, "https://github.example");
    assert_eq!(p.artifact_name, "aarch64-apple-darwin");
}

#[test]
fn missing_token_forces_a_dry_run() {
    let p = resolve_build_params(
        Some("/cache".to_string()),
        None,
        Some("refs/tags/v1.2.3".to_string()),
        None,
        Some("x".to_string()),
        false,
        None,
    )
    .unwrap();
    assert!(p.is_dry_run);
    assert_eq!(p.token, "placeholder_token");
    assert_eq!(p.server_url, "https://github.com");
}

#[test]
fn non_tag_reference_forces_a_dry_run() {
    let p = resolve_build_params(
        Some("/cache".to_string()),
        Some("t".to_string()),
        Some("refs/heads/main".to_string()),
        None,
        Some("x".to_string()),
        false,
        None,
    )
    .unwrap();
    assert!(p.is_dry_run);
    assert_eq!(p.tag, "vX.Y.Z");
}

#[test]
fn missing_cache_dir_fails_fast() {
    let r = resolve_build_params(None, None, None, None, None, false, None);
    assert!(matches!(r, Err(BuildParamsError::MissingCacheDir)));
}

#[test]
fn ci_requires_an_artifact_name() {
    let r = resolve_build_params(
        Some("/cache".to_string()),
        Some("t".to_string()),
        Some("refs/tags/v1".to_string()),
        None,
        None,
        true,
        Some("would-be-ignored".to_string()),
    );
    assert!(matches!(r, Err(BuildParamsError::MissingArtifactName)));
}

#[test]
fn outside_ci_the_toolchain_triple_is_the_fallback() {
    let p = resolve_build_params(
        Some("/cache".to_string()),
        Some("t".to_string()),
        Some("refs/tags/v1".to_string()),
        None,
        None,
        false,
        Some("x86_64-unknown-linux-gnu".to_string()),
    )
    .unwrap();
    assert_eq!(p.artifact_name, "x86_64-unknown-linux-gnu");

    let r = resolve_build_params(
        Some("/cache".to_string()),
        Some("t".to_string()),
        Some("refs/tags/v1".to_string()),
        None,
        None,
        false,
        None,
    );
    assert!(matches!(r, Err(BuildParamsError::NoTriplet)));
}

#[test]
fn triples_come_from_the_stable_toolchain_segment() {
    assert_eq!(
        triplet_from_libdir(
            "/root/.rustup/toolchains/stable-x86_64-unknown-linux-gnu/lib/rustlib/x86_64-unknown-linux-gnu/lib"
        ),
        Some("x86_64-unknown-linux-gnu".to_string())
    );
    assert_eq!(triplet_from_libdir("/usr/lib/rustlib"), None);
}

#[test]
fn toolchain_environment_entries() {
    let env = BuildEnv { cache_dir: "/cache".to_string() }.get_env();
    assert_eq!(
        env,
        vec![
            ("CARGO_HOME".to_string(), "/cache/cargo".to_string()),
            ("RUSTUP_HOME".to_string(), "/cache/rustup".to_string()),
            ("PNPM_CACHE_FOLDER".to_string(), "/cache/pnpm".to_string()),
            ("CLICOLOR_FORCE".to_string(), "1".to_string()),
            ("FORCE_COLOR".to_string(), "1".to_string()),
            ("RUSTC_BOOTSTRAP".to_string(), "1".to_string()),
            ("RUSTFLAGS".to_string(), "-Z remap-cwd-prefix=.".to_string()),
        ]
    );
}

#[test]
fn build_env_adds_the_target_dir() {
    let be = BuildEnv { cache_dir: "/cache".to_string() };
    let env = be.env_with_target_dir("/cache/target/org/name/triple");
    assert_eq!(env.len(), 8);
    assert_eq!(
        env[7],
        (
            "CARGO_TARGET_DIR".to_string(),
            "/cache/target/org/name/triple".to_string()
        )
    );
}

#[test]
fn build_directories() {
    let target = cargo_target_dir("/cache", "bearcove", "home", "aarch64-apple-darwin");
    assert_eq!(target, "/cache/target/bearcove/home/aarch64-apple-darwin");
    let out = cargo_out_dir(target.as_str());
    assert_eq!(out, "/cache/target/bearcove/home/aarch64-apple-darwin/release");
    assert_eq!(
        binary_path(out.as_str(), "home"),
        "/cache/target/bearcove/home/aarch64-apple-darwin/release/home"
    );
}
