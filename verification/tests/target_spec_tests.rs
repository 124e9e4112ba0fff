use beardist::target_spec::TargetSpec;
use beardist::target_spec::TargetSpecError;
use beardist::target_spec::default_dll_suffix;

fn spec(
    arch: &str,
    os: &str,
    vendor: Option<&str>,
    env: Option<&str>,
    dll_suffix: &str,
) -> TargetSpec {
    TargetSpec {
        arch: arch.to_string(),
        os: os.to_string(),
        vendor: vendor.map(|s| s.to_string()),
        env: env.map(|s| s.to_string()),
        dll_suffix: dll_suffix.to_string(),
    }
}

#[test]
fn triple_macos_aarch64() {
    let t = spec("aarch64", "macos", Some("apple"), None, ".dylib");
    assert_eq!(t.full_name(), "aarch64-apple-darwin");
}

#[test]
fn triple_linux_gnu() {
    let t = spec("x86_64", "linux", None, Some("gnu"), ".so");
    assert_eq!(t.full_name(), "x86_64-unknown-linux-gnu");
}

#[test]
fn triple_empty_env_is_omitted() {
    let t = spec("x86_64", "linux", Some("unknown"), Some(""), ".so");
    assert_eq!(t.full_name(), "x86_64-unknown-linux");
}

#[test]
fn triple_other_os_passes_through() {
    let t = spec("x86_64", "freebsd", None, None, ".so");
    assert_eq!(t.full_name(), "x86_64-unknown-freebsd");
}

#[test]
fn from_parts_requires_arch() {
    let r = TargetSpec::from_parts(None, Some("linux".to_string()), None, None, None);
    assert!(matches!(r, Err(TargetSpecError::MissingArch)));
}

#[test]
fn from_parts_requires_os() {
    let r = TargetSpec::from_parts(Some("x86_64".to_string()), None, None, None, None);
    assert!(matches!(r, Err(TargetSpecError::MissingOs)));
}

#[test]
fn from_parts_defaults_dll_suffix() {
    let r = TargetSpec::from_parts(
        Some("x86_64".to_string()),
        Some("linux".to_string()),
        None,
        None,
        None,
    )
    .unwrap();
    assert_eq!(r.dll_suffix, ".so");
    assert_eq!(default_dll_suffix(), ".so");
}

#[test]
fn from_json_reads_fields() {
    let text = r#"{
        "arch": "aarch64",
        "os": "macos",
        "vendor": "apple",
        "dll-suffix": ".dylib",
        "llvm-target": "arm64-apple-macosx",
        "target-pointer-width": "64"
    }"#;
    let t = TargetSpec::from_json(text).unwrap();
    assert_eq!(t.arch, "aarch64");
    assert_eq!(t.os, "macos");
    assert_eq!(t.vendor.as_deref(), Some("apple"));
    assert_eq!(t.env, None);
    assert_eq!(t.dll_suffix, ".dylib");
    assert_eq!(t.full_name(), "aarch64-apple-darwin");
}

#[test]
fn from_json_tolerates_extra_fields() {
    let text = r#"{"arch": "x86_64", "os": "linux", "env": "gnu", "unknown-extra": [1, 2]}"#;
    let t = TargetSpec::from_json(text).unwrap();
    assert_eq!(t.full_name(), "x86_64-unknown-linux-gnu");
    assert_eq!(t.dll_suffix, ".so");
}

#[test]
fn from_json_rejects_malformed_text() {
    let r = TargetSpec::from_json("{not json");
    assert!(matches!(r, Err(TargetSpecError::MalformedJson)));
}

#[test]
fn from_json_rejects_missing_arch() {
    let r = TargetSpec::from_json(r#"{"os": "linux"}"#);
    assert!(matches!(r, Err(TargetSpecError::MissingArch)));
}

#[test]
fn from_json_rejects_missing_os() {
    let r = TargetSpec::from_json(r#"{"arch": "x86_64"}"#);
    assert!(matches!(r, Err(TargetSpecError::MissingOs)));
}

#[test]
fn from_json_rejects_wrongly_typed_arch() {
    let r = TargetSpec::from_json(r#"{"arch": 5, "os": "linux"}"#);
    assert!(matches!(r, Err(TargetSpecError::MissingArch)));
}
