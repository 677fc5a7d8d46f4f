//! The snap adapter: interprets the captured output of
//! `snap find <name>` and `snap list` under snap's whitespace-normalized
//! column grammars, five columns for the registry
//! (`name version rev type summary`) and three for the installed list
//! (`name version rev ...`).

use vstd::prelude::*;
use vstd::string::*;

use crate::model::{
    Backend, CheckModel, ProbeModel, ProbeOutcome, QueryError, QueryResult, ResultModel, ScanModel,
    Status,
};
use crate::text::{
    any_first_token, any_line_has, check_output, contains_sub, first_token, first_token_matches,
    has_sub, join_from, join_sep, lines, merged_version, some_line_contains,
    some_line_first_token, str_eq, tokenize, tokens, version_note, views,
};

verus! {

/// snap's negative markers: empty probe output, no line at all, the
/// literal no-match phrase, no line mentioning the name, or no line
/// whose first token is exactly the name.
pub open spec fn snap_probe_not_found(name: Seq<char>, raw: Seq<char>) -> bool {
    ||| raw.len() == 0
    ||| lines(raw).len() == 0
    ||| any_line_has(lines(raw), "No matching snaps for"@)
    ||| !any_line_has(lines(raw), name)
    ||| !any_first_token(lines(raw), name)
}

/// One registry row under snap's five-column grammar: the version and
/// the summary, which takes all remaining columns.
pub open spec fn snap_meta_parse(l: Seq<char>) -> Option<(Seq<char>, Seq<char>)> {
    let ts = tokens(l);
    if ts.len() >= 5 {
        Option::Some((ts[1], join_sep(ts.skip(4), " "@)))
    } else {
        Option::None
    }
}

/// The metadata fold over the probe lines: the last row whose first
/// token is the name wins; such a row with fewer than five columns is
/// malformed.
pub open spec fn snap_meta_from(
    name: Seq<char>,
    ls: Seq<Seq<char>>,
    version: Seq<char>,
    desc: Seq<char>,
) -> Option<(Seq<char>, Seq<char>)>
    decreases ls.len(),
{
    if ls.len() == 0 {
        Option::Some((version, desc))
    } else if first_token(ls[0]) == name {
        match snap_meta_parse(ls[0]) {
            Option::None => Option::None,
            Option::Some(p) => snap_meta_from(name, ls.drop_first(), p.0, p.1),
        }
    } else {
        snap_meta_from(name, ls.drop_first(), version, desc)
    }
}

/// What snap's existence probe decides from its captured output.
pub open spec fn snap_probe_model(name: Seq<char>, raw: Seq<char>) -> ProbeModel {
    if snap_probe_not_found(name, raw) {
        ProbeModel::NotFound
    } else {
        match snap_meta_from(name, lines(raw), Seq::empty(), Seq::empty()) {
            Option::Some(p) => ProbeModel::Exists { version: p.0, desc: p.1 },
            Option::None => ProbeModel::Malformed,
        }
    }
}

/// A line of the installed list worth parsing: not indented, and
/// mentioning the queried name.
pub open spec fn snap_candidate(l: Seq<char>, name: Seq<char>) -> bool {
    !(l.len() > 0 && l[0] == ' ') && has_sub(l, name)
}

/// One installed-list line under snap's column grammar: the name and
/// the locally installed version; fewer than three columns is
/// malformed.
pub open spec fn snap_inst_parse(l: Seq<char>) -> Option<(Seq<char>, Seq<char>)> {
    let ts = tokens(l);
    if ts.len() >= 3 {
        Option::Some((ts[0], ts[1]))
    } else {
        Option::None
    }
}

/// The scan over the installed list: the first candidate line whose
/// name matches wins; a candidate that defeats the grammar is
/// malformed; no winner means the package is only available.
pub open spec fn snap_scan_model(
    name: Seq<char>,
    latest: Seq<char>,
    desc: Seq<char>,
    ls: Seq<Seq<char>>,
) -> ScanModel
    decreases ls.len(),
{
    if ls.len() == 0 {
        ScanModel::Done(
            ResultModel {
                manager: Backend::Snap,
                package: name,
                version: latest,
                desc,
                repo: Seq::empty(),
                status: Status::Available,
            },
        )
    } else if !snap_candidate(ls[0], name) {
        snap_scan_model(name, latest, desc, ls.drop_first())
    } else {
        match snap_inst_parse(ls[0]) {
            Option::None => ScanModel::Malformed,
            Option::Some(p) => {
                if p.0 == name {
                    ScanModel::Done(
                        ResultModel {
                            manager: Backend::Snap,
                            package: name,
                            version: version_note(p.1, latest),
                            desc,
                            repo: Seq::empty(),
                            status: Status::Installed,
                        },
                    )
                } else {
                    snap_scan_model(name, latest, desc, ls.drop_first())
                }
            },
        }
    }
}

/// The whole snap adapter on captured outputs.
pub open spec fn snap_check_model(
    name: Seq<char>,
    probe: Seq<char>,
    inst: Seq<char>,
) -> CheckModel {
    match snap_probe_model(name, probe) {
        ProbeModel::NotFound => CheckModel::Done(ResultModel::not_found(Backend::Snap, name)),
        ProbeModel::Malformed => CheckModel::Fail(QueryError::ParseFailure),
        ProbeModel::Exists { version, desc } => {
            if inst.len() == 0 {
                CheckModel::Fail(QueryError::EmptyOutput)
            } else {
                match snap_scan_model(name, version, desc, lines(inst)) {
                    ScanModel::Done(m) => CheckModel::Done(m),
                    ScanModel::Malformed => CheckModel::Fail(QueryError::ParseFailure),
                }
            }
        },
    }
}

/// Interprets the captured output of snap's existence probe,
/// `snap find <name>`.
pub fn snap_probe(package: &str, raw: &str) -> (r: Result<ProbeOutcome, QueryError>)
    requires
        package@.len() > 0,
    ensures
        match r {
            Result::Ok(ProbeOutcome::Resolved(q)) => snap_probe_model(package@, raw@)
                == ProbeModel::NotFound && q@ == ResultModel::not_found(Backend::Snap, package@),
            Result::Ok(ProbeOutcome::Exists { version, desc }) => snap_probe_model(package@, raw@)
                == (ProbeModel::Exists { version: version@, desc: desc@ }),
            Result::Err(e) => snap_probe_model(package@, raw@) == ProbeModel::Malformed && e
                == QueryError::ParseFailure,
        },
{
    let ls = match check_output(raw) {
        Option::None => {
            return Result::Ok(ProbeOutcome::Resolved(QueryResult::none(Backend::Snap, package)));
        },
        Option::Some(v) => v,
    };
    if ls.len() == 0 || some_line_contains(&ls, "No matching snaps for") || !some_line_contains(
        &ls,
        package,
    ) || !some_line_first_token(&ls, package) {
        return Result::Ok(ProbeOutcome::Resolved(QueryResult::none(Backend::Snap, package)));
    }
    let ghost vs = views(ls@);
    let mut version = String::new();
    let mut desc = String::new();
    let mut i: usize = 0;
    proof {
        assert(vs.skip(0) =~= vs);
    }
    while i < ls.len()
        invariant
            package@.len() > 0,
            vs == views(ls@),
            vs == lines(raw@),
            !snap_probe_not_found(package@, raw@),
            i <= ls@.len(),
            snap_meta_from(package@, vs.skip(i as int), version@, desc@) == snap_meta_from(
                package@,
                vs,
                Seq::empty(),
                Seq::empty(),
            ),
        decreases ls@.len() - i,
    {
        let l = ls[i].as_str();
        proof {
            assert(vs[i as int] == ls@[i as int]@);
            assert(vs.skip(i as int)[0] == vs[i as int]);
            assert(vs.skip(i as int).drop_first() =~= vs.skip(i + 1));
        }
        if first_token_matches(l, package) {
            let toks = tokenize(l);
            if toks.len() < 5 {
                return Result::Err(QueryError::ParseFailure);
            }
            proof {
                assert(views(toks@)[1] == toks@[1]@);
            }
            version = String::from_str(toks[1].as_str());
            desc = join_from(&toks, 4, " ");
            proof {
                assert(views(toks@).skip(4) =~= tokens(vs[i as int]).skip(4));
            }
        }
        i = i + 1;
    }
    proof {
        assert(vs.skip(ls@.len() as int) =~= Seq::<Seq<char>>::empty());
    }
    Result::Ok(ProbeOutcome::Exists { version, desc })
}

/// Interprets the captured output of snap's installed-state check,
/// `snap list`, with the registry's version and summary carried over
/// from the probe.
pub fn snap_installed(package: &str, latest: &str, desc: &str, raw: &str) -> (r: Result<
    QueryResult,
    QueryError,
>)
    requires
        package@.len() > 0,
    ensures
        match r {
            Result::Ok(q) => raw@.len() > 0 && snap_scan_model(
                package@,
                latest@,
                desc@,
                lines(raw@),
            ) == ScanModel::Done(q@),
            Result::Err(e) => match e {
                QueryError::EmptyOutput => raw@.len() == 0,
                QueryError::ParseFailure => raw@.len() > 0 && snap_scan_model(
                    package@,
                    latest@,
                    desc@,
                    lines(raw@),
                ) == ScanModel::Malformed,
                QueryError::SpawnFailure => false,
            },
        },
{
    let ls = match check_output(raw) {
        Option::None => {
            return Result::Err(QueryError::EmptyOutput);
        },
        Option::Some(v) => v,
    };
    let ghost vs = views(ls@);
    let mut i: usize = 0;
    proof {
        assert(vs.skip(0) =~= vs);
    }
    while i < ls.len()
        invariant
            package@.len() > 0,
            vs == views(ls@),
            vs == lines(raw@),
            raw@.len() > 0,
            i <= ls@.len(),
            snap_scan_model(package@, latest@, desc@, vs.skip(i as int)) == snap_scan_model(
                package@,
                latest@,
                desc@,
                vs,
            ),
        decreases ls@.len() - i,
    {
        let l = ls[i].as_str();
        proof {
            assert(vs[i as int] == ls@[i as int]@);
            assert(vs.skip(i as int)[0] == vs[i as int]);
            assert(vs.skip(i as int).drop_first() =~= vs.skip(i + 1));
        }
        let indented = l.unicode_len() > 0 && l.get_char(0) == ' ';
        if !indented && contains_sub(l, package) {
            let toks = tokenize(l);
            if toks.len() < 3 {
                return Result::Err(QueryError::ParseFailure);
            }
            proof {
                assert(views(toks@)[0] == toks@[0]@);
                assert(views(toks@)[1] == toks@[1]@);
            }
            if str_eq(toks[0].as_str(), package) {
                let version = merged_version(toks[1].as_str(), latest);
                proof {
                    reveal_strlit("");
                    assert(""@ =~= Seq::<char>::empty());
                }
                return Result::Ok(
                    QueryResult::some(
                        Backend::Snap,
                        package,
                        Status::Installed,
                        version.as_str(),
                        desc,
                        "",
                    ),
                );
            }
        }
        i = i + 1;
    }
    proof {
        assert(vs.skip(ls@.len() as int) =~= Seq::<Seq<char>>::empty());
        reveal_strlit("");
        assert(""@ =~= Seq::<char>::empty());
    }
    Result::Ok(
        QueryResult::some(Backend::Snap, package, Status::Available, latest, desc, ""),
    )
}

/// snap's probe accepts no substring match: without a line whose
/// first whitespace-delimited token is exactly the queried name, the
/// query resolves to not found, whatever the installed list holds.
pub proof fn law_snap_exact_token(name: Seq<char>, probe: Seq<char>, inst: Seq<char>)
    requires
        !any_first_token(lines(probe), name),
    ensures
        snap_check_model(name, probe, inst) == CheckModel::Done(
            ResultModel::not_found(Backend::Snap, name),
        ),
{
}

/// Line `i` of the installed list parses to exactly the queried name.
pub open spec fn snap_exact_hit(ls: Seq<Seq<char>>, name: Seq<char>, i: int) -> bool {
    snap_inst_parse(ls[i]) matches Option::Some(p) && p.0 == name
}

/// snap's installed scan accepts no substring match either: an
/// installed verdict demands a line that parses to exactly the
/// queried name.
pub proof fn law_snap_installed_exact_name(
    name: Seq<char>,
    latest: Seq<char>,
    desc: Seq<char>,
    ls: Seq<Seq<char>>,
)
    ensures
        snap_scan_model(name, latest, desc, ls) matches ScanModel::Done(m) && m.status
            == Status::Installed ==> exists|i: int|
            0 <= i < ls.len() && #[trigger] snap_exact_hit(ls, name, i),
    decreases ls.len(),
{
    if ls.len() > 0 {
        law_snap_installed_exact_name(name, latest, desc, ls.drop_first());
        let model = snap_scan_model(name, latest, desc, ls);
        if model matches ScanModel::Done(m) && m.status == Status::Installed {
            if snap_candidate(ls[0], name) && snap_exact_hit(ls, name, 0) {
                assert(exists|i: int| 0 <= i < ls.len() && #[trigger] snap_exact_hit(ls, name, i));
            } else {
                let d = ls.drop_first();
                let i0 = choose|i: int| 0 <= i < d.len() && #[trigger] snap_exact_hit(d, name, i);
                assert(ls[i0 + 1] == d[i0]);
                assert(snap_exact_hit(ls, name, i0 + 1));
            }
        }
    }
}

/// A record the installed-state scan hands out is well formed.
pub proof fn lemma_snap_scan_wf(
    name: Seq<char>,
    latest: Seq<char>,
    desc: Seq<char>,
    ls: Seq<Seq<char>>,
)
    ensures
        snap_scan_model(name, latest, desc, ls) matches ScanModel::Done(m) ==> m.wf()
            && m.manager == Backend::Snap,
    decreases ls.len(),
{
    if ls.len() > 0 {
        lemma_snap_scan_wf(name, latest, desc, ls.drop_first());
    }
}

/// The whole snap adapter on captured outputs: the probe settles
/// not-found by itself; otherwise the installed-state output decides
/// between installed and available.
pub fn check_snap(package: &str, probe_raw: &str, installed_raw: &str) -> (r: Result<
    QueryResult,
    QueryError,
>)
    requires
        package@.len() > 0,
    ensures
        match r {
            Result::Ok(q) => snap_check_model(package@, probe_raw@, installed_raw@)
                == CheckModel::Done(q@) && q@.wf(),
            Result::Err(e) => snap_check_model(package@, probe_raw@, installed_raw@)
                == CheckModel::Fail(e),
        },
{
    match snap_probe(package, probe_raw) {
        Result::Err(e) => Result::Err(e),
        Result::Ok(ProbeOutcome::Resolved(q)) => Result::Ok(q),
        Result::Ok(ProbeOutcome::Exists { version, desc }) => {
            proof {
                lemma_snap_scan_wf(package@, version@, desc@, lines(installed_raw@));
            }
            snap_installed(package, version.as_str(), desc.as_str(), installed_raw)
        },
    }
}

} // verus!
