use beardist::homebrew::Formula;
use beardist::homebrew::artifact_digest_hex;
use beardist::homebrew::bump_commit_message;
use beardist::homebrew::extract_formula_version;
use beardist::homebrew::needs_update;
use beardist::homebrew::normalize_remote_url;
use beardist::homebrew::package_artifact_url;

fn formula(repo: &str) -> Formula {
    Formula {
        repo: repo.to_string(),
        homepage: "https://example.org".to_string(),
        desc: "a tool".to_string(),
        license: "MIT".to_string(),
        bins: vec!["home".to_string()],
        deps: vec![],
    }
}

#[test]
fn repo_splits_into_org_and_name() {
    let f = formula("bearcove/home");
    assert_eq!(f.org(), "bearcove");
    assert_eq!(f.name(), "home");
    assert_eq!(f.disk_path(), "Formula/home.rb");
}

#[test]
fn org_without_separator_is_the_whole_text() {
    let f = formula("standalone");
    assert_eq!(f.org(), "standalone");
}

#[test]
fn declared_version_is_read_from_the_recipe() {
    let content = "# frozen_string_literal: true\n\nclass Home < Formula\n  desc \"a tool\"\n  version \"3.2.1\"\n  license \"MIT\"\nend\n";
    assert_eq!(extract_formula_version(content), Some("3.2.1".to_string()));
}

#[test]
fn recipe_without_version_line_has_no_version() {
    let content = "class Home < Formula\n  desc \"a tool\"\nend\n";
    assert_eq!(extract_formula_version(content), None);
}

#[test]
fn version_line_without_quotes_has_no_version() {
    let content = "  version 3.2.1\n";
    assert_eq!(extract_formula_version(content), None);
}

#[test]
fn update_is_owed_unless_versions_match() {
    assert!(!needs_update(&Some("1.0.0".to_string()), "1.0.0"));
    assert!(needs_update(&Some("1.0.0".to_string()), "1.0.1"));
    assert!(needs_update(&None, "1.0.0"));
}

#[test]
fn artifact_urls_name_the_tag_and_architecture() {
    assert_eq!(
        package_artifact_url("bearcove", "home", "1.2.3", "aarch64-apple-darwin"),
        "https://github.com/bearcove/home/releases/download/v1.2.3/aarch64-apple-darwin.tar.xz"
    );
}

#[test]
fn commit_messages_list_each_bump() {
    let bumped = vec![
        ("home".to_string(), "1.2.3".to_string()),
        ("mom".to_string(), "2.0.0".to_string()),
    ];
    assert_eq!(
        bump_commit_message(&bumped),
        "Bump formulas: home to 1.2.3, mom to 2.0.0"
    );
    let one = vec![("home".to_string(), "1.2.3".to_string())];
    assert_eq!(bump_commit_message(&one), "Bump formulas: home to 1.2.3");
}

#[test]
fn ssh_remotes_become_https() {
    assert_eq!(
        normalize_remote_url("git@github.com:bearcove/tap.git"),
        "https://github.com/bearcove/tap.git"
    );
    assert_eq!(
        normalize_remote_url("https://github.com/bearcove/tap.git"),
        "https://github.com/bearcove/tap.git"
    );
}

#[test]
fn digests_are_the_published_sha256() {
    let empty: Vec<u8> = vec![];
    assert_eq!(
        artifact_digest_hex(&empty),
        "e3b0c44298fc1c149afbf4c8996fb92427ae41e4649b934ca495991b7852b855"
    );
    assert_eq!(
        artifact_digest_hex(&vec![b'a', b'b', b'c']),
        "ba7816bf8f01cfea414140de5dae2223b00361a396177a9cb410ff61f20015ad"
    );
}
