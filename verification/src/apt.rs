//! The apt adapter: interprets the captured output of `apt show <name>`
//! and `apt list --installed` under apt's `Key: value` and
//! `name/repo version arch [state,...]` line grammars.

use vstd::prelude::*;
use vstd::string::*;

use crate::model::{
    Backend, CheckModel, ProbeModel, ProbeOutcome, QueryError, QueryResult, ResultModel, ScanModel,
    Status,
};
use crate::text::{
    any_line_has, check_output, contains_sub, has_sub, join_from, join_sep, lines,
    merged_version, some_line_contains, split_once_char, split_once_spec, starts_with_str, str_eq,
    tokenize, tokens, version_note, views,
};

verus! {

/// apt's negative markers: empty probe output, no `Package:` field
/// anywhere, or the virtual-package phrase.
pub open spec fn apt_probe_not_found(raw: Seq<char>) -> bool {
    ||| raw.len() == 0
    ||| !any_line_has(lines(raw), "Package:"@)
    ||| any_line_has(lines(raw), "not a real package"@)
}

/// The metadata fold over the probe lines: the last `Version: ` and
/// `Description: ` captures win; a line that opens one of the two keys
/// without completing it is malformed.
pub open spec fn apt_meta_from(
    ls: Seq<Seq<char>>,
    version: Seq<char>,
    desc: Seq<char>,
) -> Option<(Seq<char>, Seq<char>)>
    decreases ls.len(),
{
    if ls.len() == 0 {
        Option::Some((version, desc))
    } else {
        let l = ls[0];
        if "Version:"@.is_prefix_of(l) {
            if "Version: "@.is_prefix_of(l) {
                apt_meta_from(ls.drop_first(), l.skip("Version: "@.len() as int), desc)
            } else {
                Option::None
            }
        } else if "Description:"@.is_prefix_of(l) {
            if "Description: "@.is_prefix_of(l) {
                apt_meta_from(ls.drop_first(), version, l.skip("Description: "@.len() as int))
            } else {
                Option::None
            }
        } else {
            apt_meta_from(ls.drop_first(), version, desc)
        }
    }
}

/// What apt's existence probe decides from its captured output.
pub open spec fn apt_probe_model(raw: Seq<char>) -> ProbeModel {
    if apt_probe_not_found(raw) {
        ProbeModel::NotFound
    } else {
        match apt_meta_from(lines(raw), Seq::empty(), Seq::empty()) {
            Option::Some(p) => ProbeModel::Exists { version: p.0, desc: p.1 },
            Option::None => ProbeModel::Malformed,
        }
    }
}

/// A line of the installed list worth parsing: not the `Listing...`
/// header, not indented, and mentioning the queried name.
pub open spec fn apt_candidate(l: Seq<char>, name: Seq<char>) -> bool {
    !"Listing"@.is_prefix_of(l) && !(l.len() > 0 && l[0] == ' ') && has_sub(l, name)
}

/// One installed-list line under apt's grammar
/// `name/repo version arch [state,...]`: the name before the slash, the
/// locally installed version, and the bracketed state (which may span
/// several trailing tokens).
pub open spec fn apt_inst_parse(l: Seq<char>) -> Option<(Seq<char>, Seq<char>, Seq<char>)> {
    let ts = tokens(l);
    if ts.len() < 4 {
        Option::None
    } else {
        match split_once_spec(ts[0], '/') {
            Option::None => Option::None,
            Option::Some(p) => {
                let bracket = join_sep(ts.skip(3), " "@);
                if bracket.len() >= 2 && bracket[0] == '[' && bracket[bracket.len() - 1] == ']' {
                    Option::Some((p.0, ts[1], bracket.subrange(1, bracket.len() - 1)))
                } else {
                    Option::None
                }
            },
        }
    }
}

/// The scan over the installed list: the first candidate line whose
/// name matches and whose state carries the installed marker wins; a
/// candidate that defeats the grammar is malformed; no winner means the
/// package is only available.
pub open spec fn apt_scan_model(
    name: Seq<char>,
    latest: Seq<char>,
    desc: Seq<char>,
    ls: Seq<Seq<char>>,
) -> ScanModel
    decreases ls.len(),
{
    if ls.len() == 0 {
        ScanModel::Done(
            ResultModel {
                manager: Backend::Apt,
                package: name,
                version: latest,
                desc,
                repo: Seq::empty(),
                status: Status::Available,
            },
        )
    } else if !apt_candidate(ls[0], name) {
        apt_scan_model(name, latest, desc, ls.drop_first())
    } else {
        match apt_inst_parse(ls[0]) {
            Option::None => ScanModel::Malformed,
            Option::Some(p) => {
                if p.0 == name && has_sub(p.2, "installed"@) {
                    ScanModel::Done(
                        ResultModel {
                            manager: Backend::Apt,
                            package: name,
                            version: version_note(p.1, latest),
                            desc,
                            repo: Seq::empty(),
                            status: Status::Installed,
                        },
                    )
                } else {
                    apt_scan_model(name, latest, desc, ls.drop_first())
                }
            },
        }
    }
}

/// Line `i` of the installed list parses to exactly the queried name,
/// with the installed marker in its bracketed state.
pub open spec fn apt_exact_hit(ls: Seq<Seq<char>>, name: Seq<char>, i: int) -> bool {
    apt_inst_parse(ls[i]) matches Option::Some(p) && p.0 == name && has_sub(p.2, "installed"@)
}

/// apt's installed scan accepts no substring match: an installed
/// verdict demands a line that parses to exactly the queried name and
/// carries the installed marker.
pub proof fn law_apt_installed_exact_name(
    name: Seq<char>,
    latest: Seq<char>,
    desc: Seq<char>,
    ls: Seq<Seq<char>>,
)
    ensures
        apt_scan_model(name, latest, desc, ls) matches ScanModel::Done(m) && m.status
            == Status::Installed ==> exists|i: int|
            0 <= i < ls.len() && #[trigger] apt_exact_hit(ls, name, i),
    decreases ls.len(),
{
    if ls.len() > 0 {
        law_apt_installed_exact_name(name, latest, desc, ls.drop_first());
        let model = apt_scan_model(name, latest, desc, ls);
        if model matches ScanModel::Done(m) && m.status == Status::Installed {
            if apt_candidate(ls[0], name) && apt_exact_hit(ls, name, 0) {
                assert(exists|i: int| 0 <= i < ls.len() && #[trigger] apt_exact_hit(ls, name, i));
            } else {
                let d = ls.drop_first();
                let i0 = choose|i: int| 0 <= i < d.len() && #[trigger] apt_exact_hit(d, name, i);
                assert(ls[i0 + 1] == d[i0]);
                assert(apt_exact_hit(ls, name, i0 + 1));
            }
        }
    }
}

/// A record the installed-state scan hands out is well formed: it is
/// never a not-found record, so it may carry metadata.
pub proof fn lemma_apt_scan_wf(
    name: Seq<char>,
    latest: Seq<char>,
    desc: Seq<char>,
    ls: Seq<Seq<char>>,
)
    ensures
        apt_scan_model(name, latest, desc, ls) matches ScanModel::Done(m) ==> m.wf()
            && m.manager == Backend::Apt,
    decreases ls.len(),
{
    if ls.len() > 0 {
        lemma_apt_scan_wf(name, latest, desc, ls.drop_first());
    }
}

/// The whole apt adapter on captured outputs: what the probe decides,
/// and, when the package exists, what the installed-state scan makes of
/// the second output.
pub open spec fn apt_check_model(name: Seq<char>, probe: Seq<char>, inst: Seq<char>) -> CheckModel {
    match apt_probe_model(probe) {
        ProbeModel::NotFound => CheckModel::Done(ResultModel::not_found(Backend::Apt, name)),
        ProbeModel::Malformed => CheckModel::Fail(QueryError::ParseFailure),
        ProbeModel::Exists { version, desc } => {
            if inst.len() == 0 {
                CheckModel::Fail(QueryError::EmptyOutput)
            } else {
                match apt_scan_model(name, version, desc, lines(inst)) {
                    ScanModel::Done(m) => CheckModel::Done(m),
                    ScanModel::Malformed => CheckModel::Fail(QueryError::ParseFailure),
                }
            }
        },
    }
}

/// Interprets the captured output of apt's existence probe,
/// `apt show <name>`.
pub fn apt_probe(package: &str, raw: &str) -> (r: Result<ProbeOutcome, QueryError>)
    requires
        package@.len() > 0,
    ensures
        match r {
            Result::Ok(ProbeOutcome::Resolved(q)) => apt_probe_model(raw@) == ProbeModel::NotFound
                && q@ == ResultModel::not_found(Backend::Apt, package@),
            Result::Ok(ProbeOutcome::Exists { version, desc }) => apt_probe_model(raw@)
                == (ProbeModel::Exists { version: version@, desc: desc@ }),
            Result::Err(e) => apt_probe_model(raw@) == ProbeModel::Malformed && e
                == QueryError::ParseFailure,
        },
{
    let ls = match check_output(raw) {
        Option::None => {
            return Result::Ok(ProbeOutcome::Resolved(QueryResult::none(Backend::Apt, package)));
        },
        Option::Some(v) => v,
    };
    if !some_line_contains(&ls, "Package:") || some_line_contains(&ls, "not a real package") {
        return Result::Ok(ProbeOutcome::Resolved(QueryResult::none(Backend::Apt, package)));
    }
    let ghost vs = views(ls@);
    let mut version = String::new();
    let mut desc = String::new();
    let mut i: usize = 0;
    proof {
        assert(vs.skip(0) =~= vs);
    }
    while i < ls.len()
        invariant
            vs == views(ls@),
            vs == lines(raw@),
            !apt_probe_not_found(raw@),
            i <= ls@.len(),
            apt_meta_from(vs.skip(i as int), version@, desc@) == apt_meta_from(
                vs,
                Seq::empty(),
                Seq::empty(),
            ),
        decreases ls@.len() - i,
    {
        let l = ls[i].as_str();
        proof {
            assert(vs[i as int] == ls@[i as int]@);
            assert(vs.skip(i as int)[0] == vs[i as int]);
            assert(vs.skip(i as int).drop_first() =~= vs.skip(i + 1));
        }
        if starts_with_str(l, "Version:") {
            if starts_with_str(l, "Version: ") {
                let pl = "Version: ".unicode_len();
                version = String::from_str(l.substring_char(pl, l.unicode_len()));
                proof {
                    assert(version@ =~= vs[i as int].skip("Version: "@.len() as int));
                }
            } else {
                return Result::Err(QueryError::ParseFailure);
            }
        } else if starts_with_str(l, "Description:") {
            if starts_with_str(l, "Description: ") {
                let pl = "Description: ".unicode_len();
                desc = String::from_str(l.substring_char(pl, l.unicode_len()));
                proof {
                    assert(desc@ =~= vs[i as int].skip("Description: "@.len() as int));
                }
            } else {
                return Result::Err(QueryError::ParseFailure);
            }
        }
        i = i + 1;
    }
    proof {
        assert(vs.skip(ls@.len() as int) =~= Seq::<Seq<char>>::empty());
    }
    Result::Ok(ProbeOutcome::Exists { version, desc })
}

/// Interprets the captured output of apt's installed-state check,
/// `apt list --installed`, with the registry's version and description
/// carried over from the probe.
pub fn apt_installed(package: &str, latest: &str, desc: &str, raw: &str) -> (r: Result<
    QueryResult,
    QueryError,
>)
    requires
        package@.len() > 0,
    ensures
        match r {
            Result::Ok(q) => raw@.len() > 0 && apt_scan_model(
                package@,
                latest@,
                desc@,
                lines(raw@),
            ) == ScanModel::Done(q@),
            Result::Err(e) => match e {
                QueryError::EmptyOutput => raw@.len() == 0,
                QueryError::ParseFailure => raw@.len() > 0 && apt_scan_model(
                    package@,
                    latest@,
                    desc@,
                    lines(raw@),
                ) == ScanModel::Malformed,
                QueryError::SpawnFailure => false,
            },
        },
{
    let ls = match check_output(raw) {
        Option::None => {
            return Result::Err(QueryError::EmptyOutput);
        },
        Option::Some(v) => v,
    };
    let ghost vs = views(ls@);
    let mut i: usize = 0;
    proof {
        assert(vs.skip(0) =~= vs);
    }
    while i < ls.len()
        invariant
            package@.len() > 0,
            vs == views(ls@),
            vs == lines(raw@),
            raw@.len() > 0,
            i <= ls@.len(),
            apt_scan_model(package@, latest@, desc@, vs.skip(i as int)) == apt_scan_model(
                package@,
                latest@,
                desc@,
                vs,
            ),
        decreases ls@.len() - i,
    {
        let l = ls[i].as_str();
        proof {
            assert(vs[i as int] == ls@[i as int]@);
            assert(vs.skip(i as int)[0] == vs[i as int]);
            assert(vs.skip(i as int).drop_first() =~= vs.skip(i + 1));
        }
        let indented = l.unicode_len() > 0 && l.get_char(0) == ' ';
        let cand = !starts_with_str(l, "Listing") && !indented && contains_sub(l, package);
        if cand {
            let toks = tokenize(l);
            if toks.len() < 4 {
                return Result::Err(QueryError::ParseFailure);
            }
            let split = split_once_char(toks[0].as_str(), '/');
            proof {
                assert(views(toks@)[0] == toks@[0]@);
                assert(views(toks@)[1] == toks@[1]@);
            }
            let (name0, _rest) = match split {
                Option::None => {
                    return Result::Err(QueryError::ParseFailure);
                },
                Option::Some(p) => p,
            };
            let bracket = join_from(&toks, 3, " ");
            proof {
                assert(views(toks@).skip(3) =~= tokens(vs[i as int]).skip(3));
            }
            let bl = bracket.as_str().unicode_len();
            if !(bl >= 2 && bracket.as_str().get_char(0) == '[' && bracket.as_str().get_char(bl - 1)
                == ']') {
                return Result::Err(QueryError::ParseFailure);
            }
            let state = bracket.as_str().substring_char(1, bl - 1);
            if str_eq(name0.as_str(), package) && contains_sub(state, "installed") {
                let version = merged_version(toks[1].as_str(), latest);
                proof {
                    reveal_strlit("");
                    assert(""@ =~= Seq::<char>::empty());
                }
                return Result::Ok(
                    QueryResult::some(
                        Backend::Apt,
                        package,
                        Status::Installed,
                        version.as_str(),
                        desc,
                        "",
                    ),
                );
            }
        }
        i = i + 1;
    }
    proof {
        assert(vs.skip(ls@.len() as int) =~= Seq::<Seq<char>>::empty());
        reveal_strlit("");
        assert(""@ =~= Seq::<char>::empty());
    }
    Result::Ok(
        QueryResult::some(Backend::Apt, package, Status::Available, latest, desc, ""),
    )
}

/// The whole apt adapter on captured outputs: the probe settles
/// not-found by itself; otherwise the installed-state output decides
/// between installed and available.
pub fn check_apt(package: &str, probe_raw: &str, installed_raw: &str) -> (r: Result<
    QueryResult,
    QueryError,
>)
    requires
        package@.len() > 0,
    ensures
        match r {
            Result::Ok(q) => apt_check_model(package@, probe_raw@, installed_raw@)
                == CheckModel::Done(q@) && q@.wf(),
            Result::Err(e) => apt_check_model(package@, probe_raw@, installed_raw@)
                == CheckModel::Fail(e),
        },
{
    match apt_probe(package, probe_raw) {
        Result::Err(e) => Result::Err(e),
        Result::Ok(ProbeOutcome::Resolved(q)) => Result::Ok(q),
        Result::Ok(ProbeOutcome::Exists { version, desc }) => {
            proof {
                lemma_apt_scan_wf(package@, version@, desc@, lines(installed_raw@));
            }
            apt_installed(package, version.as_str(), desc.as_str(), installed_raw)
        },
    }
}

} // verus!
