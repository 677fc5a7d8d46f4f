use boss::dispatch::{installed_step, probe_step};
use boss::model::{Backend, ProbeOutcome, Status};
use boss::text::{
    check_output, contains_sub, first_token_matches, merged_version, reduce_whitespace,
    split_on_char, split_once_char, starts_with_str, str_eq, tokenize,
};

#[test]
fn reduce_whitespace_collapses_runs() {
    assert_eq!(reduce_whitespace("name   version  rev  type   summary"), "name version rev type summary");
    assert_eq!(reduce_whitespace("a \t\n b"), "a b");
    assert_eq!(reduce_whitespace("  lead and trail  "), " lead and trail ");
    assert_eq!(reduce_whitespace(""), "");
}

#[test]
fn check_output_rejects_empty_and_splits_lines() {
    assert!(check_output("").is_none());
    let lines = check_output("a\n\nb\n").unwrap();
    assert_eq!(lines, vec!["a".to_string(), "b".to_string()]);
    let lines = check_output("\n\n").unwrap();
    assert!(lines.is_empty());
}

#[test]
fn tokenize_splits_on_whitespace_runs() {
    let toks = tokenize("  foo   1.0\tbar  ");
    assert_eq!(toks, vec!["foo".to_string(), "1.0".to_string(), "bar".to_string()]);
    assert!(tokenize("   ").is_empty());
}

#[test]
fn first_token_must_match_exactly() {
    assert!(first_token_matches("foo 1.0", "foo"));
    assert!(!first_token_matches("foobar 1.0", "foo"));
    assert!(!first_token_matches("  ", "foo"));
    assert!(first_token_matches("   foo", "foo"));
}

#[test]
fn substring_search() {
    assert!(contains_sub("zlib1g/noble,now", "zlib1g"));
    assert!(!contains_sub("zlib", "zlib1g"));
    assert!(contains_sub("anything", ""));
}

#[test]
fn prefix_and_equality() {
    assert!(starts_with_str("Version: 1.0", "Version:"));
    assert!(!starts_with_str("Version:1.0", "Version: "));
    assert!(str_eq("abc", "abc"));
    assert!(!str_eq("abc", "abd"));
    assert!(!str_eq("abc", "ab"));
}

#[test]
fn split_once_takes_first_separator() {
    let (a, b) = split_once_char("extra/foo/bar", '/').unwrap();
    assert_eq!(a, "extra");
    assert_eq!(b, "foo/bar");
    assert!(split_once_char("noslash", '/').is_none());
}

#[test]
fn split_on_char_keeps_empty_fields() {
    let segs = split_on_char("a//b", '/');
    assert_eq!(segs, vec!["a".to_string(), "".to_string(), "b".to_string()]);
    let segs = split_on_char("plain", '/');
    assert_eq!(segs, vec!["plain".to_string()]);
}

#[test]
fn merged_version_notes_a_difference() {
    assert_eq!(merged_version("1.0", "2.0"), "1.0 -> 2.0");
    assert_eq!(merged_version("2.0", "2.0"), "2.0");
}

#[test]
fn staged_steps_compose_like_the_adapters() {
    let probe = "Package: foo\nVersion: 1.0\nDescription: demo\n";
    let step = probe_step(Backend::Apt, "foo", probe).unwrap();
    match step {
        ProbeOutcome::Exists { version, desc } => {
            assert_eq!(version, "1.0");
            assert_eq!(desc, "demo");
            let r = installed_step(Backend::Apt, "foo", &version, &desc, "foo/now 1.0 amd64 [installed]\n")
                .unwrap();
            assert_eq!(r.status, Status::Installed);
            assert_eq!(r.version, "1.0");
        },
        ProbeOutcome::Resolved(_) => panic!("probe should have found the package"),
    }
}

#[test]
fn single_call_backend_resolves_in_one_step() {
    let raw = "extra/foo 1.2.3 [Installed]\n    a tool\ntrailer\n";
    let step = probe_step(Backend::Yay, "foo", raw).unwrap();
    match step {
        ProbeOutcome::Resolved(q) => {
            assert_eq!(q.status, Status::Installed);
            assert_eq!(q.package, "extra/foo");
        },
        ProbeOutcome::Exists { .. } => panic!("yay has no second stage"),
    }
}
