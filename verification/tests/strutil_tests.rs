use beardist::strutil::basename;
use beardist::strutil::contains_substr;
use beardist::strutil::ends_with_str;
use beardist::strutil::find_char;
use beardist::strutil::join_with;
use beardist::strutil::parent_dir;
use beardist::strutil::replace_all;
use beardist::strutil::second_token;
use beardist::strutil::split_lines;
use beardist::strutil::split_runs;
use beardist::strutil::starts_with_str;
use beardist::strutil::str_eq;
use beardist::strutil::strip_leading;
use beardist::strutil::strip_prefix_str;
use beardist::strutil::trim_start_str;
use beardist::strutil::trim_str;
use beardist::strutil::u64_to_string;

#[test]
fn string_equality_is_by_characters() {
    assert!(str_eq("macos", "macos"));
    assert!(!str_eq("macos", "macOS"));
    assert!(!str_eq("macos", "maco"));
    assert!(str_eq("", ""));
}

#[test]
fn prefix_and_suffix_tests() {
    assert!(starts_with_str("refs/tags/v1.0.0", "refs/tags/"));
    assert!(!starts_with_str("refs/heads/main", "refs/tags/"));
    assert!(ends_with_str("libfoo.dylib", ".dylib"));
    assert!(!ends_with_str("libfoo.so", ".dylib"));
    assert!(starts_with_str("x", ""));
    assert!(ends_with_str("x", ""));
}

#[test]
fn basename_is_the_final_component() {
    assert_eq!(basename("/usr/lib/libfoo.so"), "libfoo.so");
    assert_eq!(basename("@rpath/libfoo.so"), "libfoo.so");
    assert_eq!(basename("plain"), "plain");
    assert_eq!(basename("/trailing/"), "");
    assert_eq!(basename(""), "");
}

#[test]
fn parent_dir_is_everything_before_the_final_component() {
    assert_eq!(parent_dir("/a/b/c"), Some("/a/b".to_string()));
    assert_eq!(parent_dir("/a"), Some("/".to_string()));
    assert_eq!(parent_dir("a/b"), Some("a".to_string()));
    assert_eq!(parent_dir("plain"), None);
}

#[test]
fn strip_prefix_removes_the_prefix_once() {
    assert_eq!(
        strip_prefix_str("refs/tags/v1.2.3", "refs/tags/"),
        Some("v1.2.3".to_string())
    );
    assert_eq!(strip_prefix_str("refs/heads/main", "refs/tags/"), None);
}

#[test]
fn strip_leading_removes_the_whole_run() {
    assert_eq!(strip_leading("v1.2.3", 'v'), "1.2.3");
    assert_eq!(strip_leading("vvv2.0.0", 'v'), "2.0.0");
    assert_eq!(strip_leading("1.2.3", 'v'), "1.2.3");
    assert_eq!(strip_leading("vvv", 'v'), "");
}

#[test]
fn decimal_rendering() {
    assert_eq!(u64_to_string(0), "0");
    assert_eq!(u64_to_string(7), "7");
    assert_eq!(u64_to_string(10), "10");
    assert_eq!(u64_to_string(1234567890), "1234567890");
    assert_eq!(u64_to_string(u64::MAX), "18446744073709551615");
}

#[test]
fn joining_with_separators() {
    let none: Vec<String> = vec![];
    assert_eq!(join_with(&none, ", "), "");
    assert_eq!(join_with(&vec!["a".to_string()], ", "), "a");
    assert_eq!(
        join_with(&vec!["a".to_string(), "b".to_string(), "c".to_string()], " "),
        "a b c"
    );
}

#[test]
fn replacement_scans_left_to_right() {
    assert_eq!(
        replace_all("https://github.com", "github.com", "api.github.com"),
        "https://api.github.com"
    );
    assert_eq!(replace_all("aaaa", "aa", "b"), "bb");
    assert_eq!(replace_all("no match", "github.com", "x"), "no match");
    assert_eq!(replace_all("", "x", "y"), "");
}

#[test]
fn trimming() {
    assert_eq!(trim_start_str("   cmd LC_LOAD_DYLIB"), "cmd LC_LOAD_DYLIB");
    assert_eq!(trim_str("  2 \n"), "2");
    assert_eq!(trim_str("\t\r\n "), "");
    assert_eq!(trim_str("x"), "x");
}

#[test]
fn second_tokens() {
    assert_eq!(
        second_token("         name /usr/lib/libSystem.B.dylib (offset 24)"),
        Some("/usr/lib/libSystem.B.dylib".to_string())
    );
    assert_eq!(second_token("name"), None);
    assert_eq!(second_token("   name   "), None);
    assert_eq!(second_token("a b"), Some("b".to_string()));
    assert_eq!(second_token(""), None);
}

#[test]
fn line_splitting() {
    assert_eq!(split_lines("a\nb"), vec!["a".to_string(), "b".to_string()]);
    assert_eq!(split_lines("a\nb\n"), vec!["a".to_string(), "b".to_string()]);
    assert_eq!(
        split_lines("\nb"),
        vec!["".to_string(), "b".to_string()]
    );
    let empty: Vec<String> = vec![];
    assert_eq!(split_lines(""), empty);
}

#[test]
fn run_splitting() {
    assert_eq!(
        split_runs("/root/toolchains/stable-x", '/'),
        vec![
            "".to_string(),
            "root".to_string(),
            "toolchains".to_string(),
            "stable-x".to_string(),
        ]
    );
}

#[test]
fn substring_search() {
    assert!(contains_substr("toolchains/stable-aarch64", "stable-"));
    assert!(!contains_substr("toolchains/beta-aarch64", "stable-"));
    assert!(contains_substr("abc", ""));
    assert!(!contains_substr("ab", "abc"));
}

#[test]
fn character_search() {
    assert_eq!(find_char("a/b/c", '/', 0), Some(1));
    assert_eq!(find_char("a/b/c", '/', 2), Some(3));
    assert_eq!(find_char("abc", '/', 0), None);
}
