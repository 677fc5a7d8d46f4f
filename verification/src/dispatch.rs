//! The adapter set as a fixed tagged variant: the active backends in
//! their priority order, the exact command each stage runs, and one
//! verified dispatch for each stage of the protocol.

use vstd::prelude::*;
use vstd::string::*;

use crate::apt::{apt_check_model, apt_installed, apt_probe, apt_scan_model, lemma_apt_scan_wf};
use crate::cargo::{
    cargo_check_model, cargo_installed, cargo_probe, cargo_scan_model, lemma_cargo_scan_wf,
};
use crate::go::go_check_model;
use crate::model::{
    Backend, CheckModel, ProbeOutcome, QueryError, QueryResult, ResultModel, ScanModel,
};
use crate::snap::{
    lemma_snap_scan_wf, snap_check_model, snap_installed, snap_probe, snap_scan_model,
};
use crate::text::{lines, views};
use crate::yay::{check_yay, yay_check_model};

verus! {

/// The whole adapter, by backend, on the captured outputs of its probe
/// and (for the two-call backends) its installed-state check.
pub open spec fn check_model(
    b: Backend,
    name: Seq<char>,
    probe: Seq<char>,
    inst: Seq<char>,
) -> CheckModel {
    match b {
        Backend::Snap => snap_check_model(name, probe, inst),
        Backend::Apt => apt_check_model(name, probe, inst),
        Backend::Yay => yay_check_model(name, probe),
        Backend::Cargo => cargo_check_model(name, probe, inst),
        Backend::Go => go_check_model(name, probe),
    }
}

/// The installed-state scan, by backend.  The single-call backends
/// have none.
pub open spec fn scan_dispatch(
    b: Backend,
    name: Seq<char>,
    latest: Seq<char>,
    desc: Seq<char>,
    ls: Seq<Seq<char>>,
) -> ScanModel {
    match b {
        Backend::Snap => snap_scan_model(name, latest, desc, ls),
        Backend::Apt => apt_scan_model(name, latest, desc, ls),
        Backend::Cargo => cargo_scan_model(name, latest, desc, ls),
        Backend::Yay => ScanModel::Malformed,
        Backend::Go => ScanModel::Malformed,
    }
}

/// What is still owed after a probe that found the package: the
/// installed-state output must be non-empty and survive its scan.
pub open spec fn continue_model(
    b: Backend,
    name: Seq<char>,
    latest: Seq<char>,
    desc: Seq<char>,
    inst: Seq<char>,
) -> CheckModel {
    if inst.len() == 0 {
        CheckModel::Fail(QueryError::EmptyOutput)
    } else {
        match scan_dispatch(b, name, latest, desc, lines(inst)) {
            ScanModel::Done(m) => CheckModel::Done(m),
            ScanModel::Malformed => CheckModel::Fail(QueryError::ParseFailure),
        }
    }
}

/// The active adapter set, in priority order.
pub fn all_backends() -> (r: Vec<Backend>)
    ensures
        r@ == seq![Backend::Snap, Backend::Apt, Backend::Yay, Backend::Cargo],
{
    let mut v: Vec<Backend> = Vec::new();
    v.push(Backend::Snap);
    v.push(Backend::Apt);
    v.push(Backend::Yay);
    v.push(Backend::Cargo);
    proof {
        assert(v@ =~= seq![Backend::Snap, Backend::Apt, Backend::Yay, Backend::Cargo]);
    }
    v
}

/// The arguments of each backend's existence probe.  The go adapter
/// has no fixed command: its caller chooses the binary directory that
/// `go version -m` walks.
pub open spec fn probe_args(b: Backend, name: Seq<char>) -> Seq<Seq<char>> {
    match b {
        Backend::Snap => seq!["find"@, name],
        Backend::Apt => seq!["show"@, name],
        Backend::Yay => seq!["-Ss"@, name],
        Backend::Cargo => seq!["search"@, name],
        Backend::Go => Seq::empty(),
    }
}

/// The program and arguments of a backend's existence probe.
pub fn probe_command(b: Backend, package: &str) -> (r: (String, Vec<String>))
    ensures
        r.0@ == b.spec_name(),
        views(r.1@) == probe_args(b, package@),
{
    let name = b.name();
    let mut args: Vec<String> = Vec::new();
    match b {
        Backend::Snap => {
            args.push(String::from_str("find"));
            args.push(String::from_str(package));
        },
        Backend::Apt => {
            args.push(String::from_str("show"));
            args.push(String::from_str(package));
        },
        Backend::Yay => {
            args.push(String::from_str("-Ss"));
            args.push(String::from_str(package));
        },
        Backend::Cargo => {
            args.push(String::from_str("search"));
            args.push(String::from_str(package));
        },
        Backend::Go => {},
    }
    proof {
        assert(views(args@) =~= probe_args(b, package@));
    }
    (name, args)
}

/// The arguments of each backend's installed-state check; the
/// single-call backends have none.
pub open spec fn installed_args(b: Backend) -> Option<Seq<Seq<char>>> {
    match b {
        Backend::Snap => Option::Some(seq!["list"@]),
        Backend::Apt => Option::Some(seq!["list"@, "--installed"@]),
        Backend::Cargo => Option::Some(seq!["install"@, "--list"@]),
        Backend::Yay => Option::None,
        Backend::Go => Option::None,
    }
}

/// The program and arguments of a backend's installed-state check,
/// where the backend has one.
pub fn installed_command(b: Backend) -> (r: Option<(String, Vec<String>)>)
    ensures
        match r {
            Option::Some(c) => c.0@ == b.spec_name() && installed_args(b) == Option::Some(
                views(c.1@),
            ),
            Option::None => installed_args(b) is None,
        },
{
    let name = b.name();
    let mut args: Vec<String> = Vec::new();
    match b {
        Backend::Snap => {
            args.push(String::from_str("list"));
        },
        Backend::Apt => {
            args.push(String::from_str("list"));
            args.push(String::from_str("--installed"));
        },
        Backend::Cargo => {
            args.push(String::from_str("install"));
            args.push(String::from_str("--list"));
        },
        Backend::Yay => {
            return Option::None;
        },
        Backend::Go => {
            return Option::None;
        },
    }
    proof {
        assert(installed_args(b) == Option::Some(views(args@))) by {
            match b {
                Backend::Snap => {
                    assert(views(args@) =~= seq!["list"@]);
                },
                Backend::Apt => {
                    assert(views(args@) =~= seq!["list"@, "--installed"@]);
                },
                Backend::Cargo => {
                    assert(views(args@) =~= seq!["install"@, "--list"@]);
                },
                _ => {},
            }
        }
    }
    Option::Some((name, args))
}

/// One backend's existence probe on its captured output.  A resolved
/// record settles the whole check whatever a later output would say;
/// an exists outcome leaves exactly the installed-state obligation.
pub fn probe_step(b: Backend, package: &str, raw: &str) -> (r: Result<ProbeOutcome, QueryError>)
    requires
        package@.len() > 0,
    ensures
        match r {
            Result::Ok(ProbeOutcome::Resolved(q)) => q@.wf() && forall|inst: Seq<char>|
                #[trigger] check_model(b, package@, raw@, inst) == CheckModel::Done(q@),
            Result::Ok(ProbeOutcome::Exists { version, desc }) => forall|inst: Seq<char>|
                #[trigger] check_model(b, package@, raw@, inst) == continue_model(
                    b,
                    package@,
                    version@,
                    desc@,
                    inst,
                ),
            Result::Err(e) => forall|inst: Seq<char>|
                #[trigger] check_model(b, package@, raw@, inst) == CheckModel::Fail(e),
        },
{
    match b {
        Backend::Apt => apt_probe(package, raw),
        Backend::Cargo => cargo_probe(package, raw),
        Backend::Snap => snap_probe(package, raw),
        Backend::Yay => {
            match check_yay(package, raw) {
                Result::Ok(q) => Result::Ok(ProbeOutcome::Resolved(q)),
                Result::Err(e) => Result::Err(e),
            }
        },
        Backend::Go => {
            match crate::go::check_go(package, raw) {
                Result::Ok(q) => Result::Ok(ProbeOutcome::Resolved(q)),
                Result::Err(e) => Result::Err(e),
            }
        },
    }
}

/// One backend's installed-state check on its captured output, with
/// the version and description that the probe carried out of the
/// registry.  A backend without a second call refuses the step.
pub fn installed_step(b: Backend, package: &str, latest: &str, desc: &str, raw: &str) -> (r:
    Result<QueryResult, QueryError>)
    requires
        package@.len() > 0,
    ensures
        match r {
            Result::Ok(q) => q@.wf() && continue_model(b, package@, latest@, desc@, raw@)
                == CheckModel::Done(q@),
            Result::Err(e) => continue_model(b, package@, latest@, desc@, raw@)
                == CheckModel::Fail(e),
        },
{
    match b {
        Backend::Apt => {
            proof {
                lemma_apt_scan_wf(package@, latest@, desc@, lines(raw@));
            }
            apt_installed(package, latest, desc, raw)
        },
        Backend::Cargo => {
            proof {
                lemma_cargo_scan_wf(package@, latest@, desc@, lines(raw@));
            }
            cargo_installed(package, latest, desc, raw)
        },
        Backend::Snap => {
            proof {
                lemma_snap_scan_wf(package@, latest@, desc@, lines(raw@));
            }
            snap_installed(package, latest, desc, raw)
        },
        Backend::Yay => {
            if raw.unicode_len() == 0 {
                Result::Err(QueryError::EmptyOutput)
            } else {
                Result::Err(QueryError::ParseFailure)
            }
        },
        Backend::Go => {
            if raw.unicode_len() == 0 {
                Result::Err(QueryError::EmptyOutput)
            } else {
                Result::Err(QueryError::ParseFailure)
            }
        },
    }
}

/// For every backend, an empty probe output resolves the query to a
/// not-found record whose metadata fields are all empty, whatever a
/// later output would say.
pub proof fn law_empty_probe_not_found(b: Backend, name: Seq<char>)
    ensures
        forall|inst: Seq<char>| #[trigger]
            check_model(b, name, Seq::empty(), inst) == CheckModel::Done(
                ResultModel::not_found(b, name),
            ),
{
}

} // verus!
