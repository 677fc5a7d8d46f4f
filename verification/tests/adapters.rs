use boss::apt::check_apt;
use boss::cargo::check_cargo;
use boss::go::check_go;
use boss::model::{Backend, QueryError, Status};
use boss::snap::check_snap;
use boss::yay::check_yay;

#[test]
fn empty_probe_is_not_found_apt() {
    let r = check_apt("foo", "", "anything\n").unwrap();
    assert_eq!(r.manager, Backend::Apt);
    assert_eq!(r.status, Status::NotFound);
    assert_eq!(r.package, "foo");
    assert_eq!(r.version, "");
    assert_eq!(r.desc, "");
    assert_eq!(r.repo, "");
}

#[test]
fn empty_probe_is_not_found_cargo() {
    let r = check_cargo("foo", "", "anything\n").unwrap();
    assert_eq!(r.manager, Backend::Cargo);
    assert_eq!(r.status, Status::NotFound);
    assert_eq!(r.version, "");
}

#[test]
fn empty_probe_is_not_found_snap() {
    let r = check_snap("foo", "", "anything\n").unwrap();
    assert_eq!(r.manager, Backend::Snap);
    assert_eq!(r.status, Status::NotFound);
    assert_eq!(r.desc, "");
}

#[test]
fn empty_probe_is_not_found_yay() {
    let r = check_yay("foo", "").unwrap();
    assert_eq!(r.manager, Backend::Yay);
    assert_eq!(r.status, Status::NotFound);
    assert_eq!(r.repo, "");
}

#[test]
fn empty_probe_is_not_found_go() {
    let r = check_go("foo", "").unwrap();
    assert_eq!(r.manager, Backend::Go);
    assert_eq!(r.status, Status::NotFound);
}

#[test]
fn substring_match_rejected_cargo() {
    let probe = "foobar = \"1.0.0\" # not the one\n";
    let r = check_cargo("foo", probe, "unused\n").unwrap();
    assert_eq!(r.status, Status::NotFound);
}

#[test]
fn substring_match_rejected_snap() {
    let probe = "Name  Version  Publisher  Notes  Summary\nfoobar  1.0  me  -  not the one\n";
    let r = check_snap("foo", probe, "unused\n").unwrap();
    assert_eq!(r.status, Status::NotFound);
}

#[test]
fn substring_match_rejected_yay() {
    let probe = "extra/foobar 1.0 [Installed]\n    not the one\ntrailer\n";
    let r = check_yay("foo", probe).unwrap();
    assert_eq!(r.status, Status::NotFound);
}

#[test]
fn substring_match_rejected_apt_installed_list() {
    let probe = "Package: foo\nVersion: 1.2.3\nDescription: demo\n";
    let inst = "foobar/noble,now 1.2.3 amd64 [installed]\n";
    let r = check_apt("foo", probe, inst).unwrap();
    assert_eq!(r.status, Status::Available);
    assert_eq!(r.version, "1.2.3");
}

#[test]
fn substring_match_rejected_cargo_installed_list() {
    let probe = "foo = \"1.2.3\" # demo\n";
    let inst = "foobar v1.2.3:\n";
    let r = check_cargo("foo", probe, inst).unwrap();
    assert_eq!(r.status, Status::Available);
}

#[test]
fn apt_installed_version_differs() {
    let probe = "Package: zlib1g\nVersion: 1.2.3\nDescription: demo\n";
    let inst = "Listing... Done\nzlib1g/noble,now 1:1.3.dfsg-3.1ubuntu2 amd64 [installed,automatic]\n";
    let r = check_apt("zlib1g", probe, inst).unwrap();
    assert_eq!(r.status, Status::Installed);
    assert_eq!(r.version, "1:1.3.dfsg-3.1ubuntu2 -> 1.2.3");
    assert_eq!(r.desc, "demo");
    assert_eq!(r.package, "zlib1g");
}

#[test]
fn apt_installed_version_matches() {
    let probe = "Package: zlib1g\nVersion: 1.2.3\nDescription: demo\n";
    let inst = "zlib1g/noble,now 1.2.3 amd64 [installed]\n";
    let r = check_apt("zlib1g", probe, inst).unwrap();
    assert_eq!(r.status, Status::Installed);
    assert_eq!(r.version, "1.2.3");
}

#[test]
fn apt_probe_without_package_field_is_not_found() {
    let probe = "Some chatter\nMore chatter\n";
    let r = check_apt("foo", probe, "unused\n").unwrap();
    assert_eq!(r.status, Status::NotFound);
}

#[test]
fn apt_virtual_package_is_not_found() {
    let probe = "Package: foo\nState: not a real package (virtual)\n";
    let r = check_apt("foo", probe, "unused\n").unwrap();
    assert_eq!(r.status, Status::NotFound);
}

#[test]
fn apt_malformed_version_line_is_parse_failure() {
    let probe = "Package: foo\nVersion:broken\n";
    let e = check_apt("foo", probe, "unused\n").unwrap_err();
    assert_eq!(e, QueryError::ParseFailure);
}

#[test]
fn apt_empty_installed_list_is_empty_output() {
    let probe = "Package: foo\nVersion: 1.0\nDescription: demo\n";
    let e = check_apt("foo", probe, "").unwrap_err();
    assert_eq!(e, QueryError::EmptyOutput);
}

#[test]
fn cargo_available_with_metadata() {
    let probe = "demo = \"2.0.0\" # a demo crate\n";
    let inst = "ripgrep v13.0.0:\n    rg\n";
    let r = check_cargo("demo", probe, inst).unwrap();
    assert_eq!(r.status, Status::Available);
    assert_eq!(r.version, "2.0.0");
    assert_eq!(r.desc, "a demo crate");
    assert_eq!(r.package, "demo");
}

#[test]
fn cargo_installed_with_version_arrow() {
    let probe = "demo = \"2.0.0\" # a demo crate\n";
    let inst = "demo v1.9.0:\n    demo\n";
    let r = check_cargo("demo", probe, inst).unwrap();
    assert_eq!(r.status, Status::Installed);
    assert_eq!(r.version, "1.9.0 -> 2.0.0");
    assert_eq!(r.desc, "a demo crate");
}

#[test]
fn cargo_malformed_installed_line_is_parse_failure() {
    let probe = "demo = \"2.0.0\" # a demo crate\n";
    let inst = "demo v1.9.0\n";
    let e = check_cargo("demo", probe, inst).unwrap_err();
    assert_eq!(e, QueryError::ParseFailure);
}

#[test]
fn cargo_probe_row_without_comment_is_parse_failure() {
    let probe = "demo = \"2.0.0\"\n";
    let e = check_cargo("demo", probe, "unused\n").unwrap_err();
    assert_eq!(e, QueryError::ParseFailure);
}

#[test]
fn snap_irregular_columns_normalize_to_five() {
    let probe = "Name  Version  Publisher  Notes  Summary\nfoo   1.0  42  app   neat tool\n";
    let inst = "Name  Version  Rev  Tracking  Publisher  Notes\n";
    let r = check_snap("foo", probe, inst).unwrap();
    assert_eq!(r.status, Status::Available);
    assert_eq!(r.version, "1.0");
    assert_eq!(r.desc, "neat tool");
}

#[test]
fn snap_no_matching_phrase_is_not_found() {
    let probe = "No matching snaps for \"foo\"\n";
    let r = check_snap("foo", probe, "unused\n").unwrap();
    assert_eq!(r.status, Status::NotFound);
}

#[test]
fn snap_installed_with_version_arrow() {
    let probe = "foo  2.0  99  app  neat tool\n";
    let inst = "Name Version Rev Tracking Publisher Notes\nfoo 1.0 77 stable me -\n";
    let r = check_snap("foo", probe, inst).unwrap();
    assert_eq!(r.status, Status::Installed);
    assert_eq!(r.version, "1.0 -> 2.0");
    assert_eq!(r.desc, "neat tool");
}

#[test]
fn snap_short_installed_line_is_parse_failure() {
    let probe = "foo  2.0  99  app  neat tool\n";
    let inst = "foo 1.0\n";
    let e = check_snap("foo", probe, inst).unwrap_err();
    assert_eq!(e, QueryError::ParseFailure);
}

#[test]
fn yay_installed_marker_sets_installed() {
    let raw = "extra/foo 1.2.3 [Installed]\n    a tool\ntrailer\n";
    let r = check_yay("foo", raw).unwrap();
    assert_eq!(r.status, Status::Installed);
    assert_eq!(r.package, "extra/foo");
    assert_eq!(r.version, "1.2.3");
    assert_eq!(r.repo, "extra");
}

#[test]
fn yay_without_marker_is_available() {
    let raw = "extra/foo 1.2.3\n    a tool\ntrailer\n";
    let r = check_yay("foo", raw).unwrap();
    assert_eq!(r.status, Status::Available);
    assert_eq!(r.version, "1.2.3");
    assert_eq!(r.repo, "extra");
}

#[test]
fn yay_too_few_lines_is_not_found() {
    let r = check_yay("foo", "only\ntwo\n").unwrap();
    assert_eq!(r.status, Status::NotFound);
}

#[test]
fn yay_line_without_slash_is_parse_failure() {
    let raw = "noslash 1.2.3\nsecond\nthird\n";
    let e = check_yay("foo", raw).unwrap_err();
    assert_eq!(e, QueryError::ParseFailure);
}

#[test]
fn go_installed_tool() {
    let raw = "/home/user/go/bin/tool: go1.22\n\tpath\tgithub.com/user/tool\n\tmod\tgithub.com/user/tool\tv1.0.0\n";
    let r = check_go("tool", raw).unwrap();
    assert_eq!(r.status, Status::Installed);
    assert_eq!(r.package, "github.com/user/tool");
    assert_eq!(r.repo, "user/tool");
    assert_eq!(r.version, "");
}

#[test]
fn go_unknown_tool_is_not_found() {
    let raw = "/home/user/go/bin/tool: go1.22\n\tpath\tgithub.com/user/tool\n";
    let r = check_go("other", raw).unwrap();
    assert_eq!(r.status, Status::NotFound);
}

#[test]
fn go_short_module_path_is_parse_failure() {
    let raw = "\tpath\tnakedname\n";
    let e = check_go("nakedname", raw).unwrap_err();
    assert_eq!(e, QueryError::ParseFailure);
}
