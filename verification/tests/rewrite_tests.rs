use beardist::rewrite::FileRewritePlan;
use beardist::rewrite::LibraryCandidate;
use beardist::rewrite::OwnedLibrarySet;
use beardist::rewrite::collect_owned;
use beardist::rewrite::is_libstd_name;
use beardist::rewrite::is_owned_library_name;
use beardist::rewrite::parse_load_commands;
use beardist::rewrite::plan_for_file;
use beardist::rewrite::plan_rewrites;
use beardist::rewrite::rewrite_ref;
use beardist::rewrite::rewrite_supported;
use beardist::rewrite::self_identity;

fn owned_of(names: &[&str]) -> OwnedLibrarySet {
    let mut set = OwnedLibrarySet::new();
    for name in names {
        set.insert(name.to_string());
    }
    set
}

#[test]
fn owned_reference_is_rewritten_by_name() {
    let owned = owned_of(&["libfoo.so"]);
    let r = rewrite_ref("/usr/lib/libfoo.so", &owned);
    assert_eq!(r, Some("@rpath/libfoo.so".to_string()));
}

#[test]
fn foreign_reference_is_left_unchanged() {
    let owned = owned_of(&["libfoo.so"]);
    assert_eq!(rewrite_ref("/usr/lib/libbar.so", &owned), None);
}

#[test]
fn bare_reference_matches_by_name() {
    let owned = owned_of(&["libfoo.so"]);
    assert_eq!(rewrite_ref("libfoo.so", &owned), Some("@rpath/libfoo.so".to_string()));
}

#[test]
fn rewrite_is_idempotent_on_rewritten_reference() {
    let owned = owned_of(&["libfoo.dylib"]);
    let first = rewrite_ref("/deep/build/tree/libfoo.dylib", &owned).unwrap();
    assert_eq!(first, "@rpath/libfoo.dylib");
    // a second pass still matches, but produces the same reference: no change
    let second = rewrite_ref(first.as_str(), &owned).unwrap();
    assert_eq!(second, first);
}

#[test]
fn plan_rewrites_is_positional() {
    let owned = owned_of(&["liba.dylib", "libb.dylib"]);
    let deps = vec![
        "/t/liba.dylib".to_string(),
        "/usr/lib/libSystem.B.dylib".to_string(),
        "@rpath/libb.dylib".to_string(),
    ];
    let plan = plan_rewrites(&deps, &owned);
    assert_eq!(
        plan,
        vec![
            Some("@rpath/liba.dylib".to_string()),
            None,
            Some("@rpath/libb.dylib".to_string()),
        ]
    );
}

#[test]
fn second_plan_changes_nothing() {
    let owned = owned_of(&["liba.dylib"]);
    let deps = vec!["/t/liba.dylib".to_string(), "/usr/lib/libc.dylib".to_string()];
    let plan = plan_rewrites(&deps, &owned);
    let mut after: Vec<String> = Vec::new();
    for (dep, change) in deps.iter().zip(plan.iter()) {
        after.push(change.clone().unwrap_or_else(|| dep.clone()));
    }
    let plan2 = plan_rewrites(&after, &owned);
    for (dep, change) in after.iter().zip(plan2.iter()) {
        let new = change.clone().unwrap_or_else(|| dep.clone());
        assert_eq!(&new, dep);
    }
}

#[test]
fn symlink_counts_for_membership_but_not_for_rewriting() {
    let entries = vec![
        LibraryCandidate {
            name: "libfoo.dylib".to_string(),
            is_symlink: true,
            canonical: Some("/out/libfoo.1.0.dylib".to_string()),
            path: "/out/libfoo.dylib".to_string(),
        },
        LibraryCandidate {
            name: "libfoo.1.0.dylib".to_string(),
            is_symlink: false,
            canonical: Some("/out/libfoo.1.0.dylib".to_string()),
            path: "/out/libfoo.1.0.dylib".to_string(),
        },
    ];
    let (owned, worklist) = collect_owned(&entries, ".dylib");
    assert!(owned.contains("libfoo.dylib"));
    assert!(owned.contains("libfoo.1.0.dylib"));
    assert_eq!(worklist, vec!["/out/libfoo.1.0.dylib".to_string()]);
}

#[test]
fn uncanonicalizable_file_falls_back_to_original_path() {
    let entries = vec![LibraryCandidate {
        name: "libdangling.so".to_string(),
        is_symlink: false,
        canonical: None,
        path: "/out/libdangling.so".to_string(),
    }];
    let (owned, worklist) = collect_owned(&entries, ".so");
    assert!(owned.contains("libdangling.so"));
    assert_eq!(worklist, vec!["/out/libdangling.so".to_string()]);
}

#[test]
fn non_matching_entries_are_ignored() {
    let entries = vec![
        LibraryCandidate {
            name: "mybinary".to_string(),
            is_symlink: false,
            canonical: Some("/out/mybinary".to_string()),
            path: "/out/mybinary".to_string(),
        },
        LibraryCandidate {
            name: "libx.so.debug".to_string(),
            is_symlink: false,
            canonical: Some("/out/libx.so.debug".to_string()),
            path: "/out/libx.so.debug".to_string(),
        },
    ];
    let (owned, worklist) = collect_owned(&entries, ".so");
    assert!(!owned.contains("mybinary"));
    assert!(!owned.contains("libx.so.debug"));
    assert!(worklist.is_empty());
}

#[test]
fn rewriting_applies_only_where_load_commands_are_rewritable() {
    assert!(rewrite_supported("macos"));
    assert!(!rewrite_supported("linux"));
    assert!(!rewrite_supported("windows"));
}

#[test]
fn library_naming_convention() {
    assert!(is_owned_library_name("libfoo.dylib", ".dylib"));
    assert!(!is_owned_library_name("foo.dylib", ".dylib"));
    assert!(!is_owned_library_name("libfoo.so", ".dylib"));
    assert!(is_owned_library_name("libfoo.so", ".so"));
}

#[test]
fn libstd_naming_convention() {
    assert!(is_libstd_name("libstd-a1b2c3.dylib", ".dylib"));
    assert!(is_libstd_name("libstd-.so", ".so"));
    assert!(!is_libstd_name("libstd.so", ".so"));
    assert!(!is_libstd_name("libfoo-123.so", ".so"));
}

#[test]
fn self_identity_only_for_libraries() {
    assert_eq!(
        self_identity("libfoo.dylib", ".dylib"),
        Some("@rpath/libfoo.dylib".to_string())
    );
    assert_eq!(self_identity("mybinary", ".dylib"), None);
}

#[test]
fn plan_for_file_combines_changes_and_identity() {
    let owned = owned_of(&["libfoo.dylib"]);
    let deps = vec!["/t/libfoo.dylib".to_string(), "/usr/lib/libc.dylib".to_string()];
    let p: FileRewritePlan = plan_for_file("libfoo.dylib", &deps, &owned, ".dylib");
    assert_eq!(p.changes.len(), 2);
    assert_eq!(p.changes[0], Some("@rpath/libfoo.dylib".to_string()));
    assert_eq!(p.changes[1], None);
    assert_eq!(p.set_id, Some("@rpath/libfoo.dylib".to_string()));

    let p2 = plan_for_file("mybinary", &deps, &owned, ".dylib");
    assert_eq!(p2.set_id, None);
}

#[test]
fn load_commands_are_parsed() {
    let output = "\
/out/mybinary:
Load command 12
          cmd LC_LOAD_DYLIB
      cmdsize 56
         name /usr/lib/libSystem.B.dylib (offset 24)
Load command 13
          cmd LC_LOAD_DYLIB
      cmdsize 48
         name @rpath/libfoo.dylib (offset 24)
";
    let deps = parse_load_commands(output);
    assert_eq!(
        deps,
        vec![
            "/usr/lib/libSystem.B.dylib".to_string(),
            "@rpath/libfoo.dylib".to_string(),
        ]
    );
}

#[test]
fn name_lines_outside_load_commands_are_ignored() {
    let output = "\
Load command 3
          cmd LC_SEGMENT_64
         name whatever
          cmd LC_LOAD_DYLIB
         name /usr/lib/libc.dylib (offset 24)
         name /usr/lib/ignored.dylib (offset 24)
";
    let deps = parse_load_commands(output);
    assert_eq!(deps, vec!["/usr/lib/libc.dylib".to_string()]);
}

#[test]
fn name_line_without_value_is_skipped() {
    let output = "          cmd LC_LOAD_DYLIB\n         name\n";
    let deps = parse_load_commands(output);
    assert!(deps.is_empty());
}

#[test]
fn empty_output_has_no_dependencies() {
    assert!(parse_load_commands("").is_empty());
}
