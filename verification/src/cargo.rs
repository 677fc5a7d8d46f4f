//! The cargo adapter: interprets the captured output of
//! `cargo search <name>` and `cargo install --list` under cargo's
//! `name = "version" # description` and `name vVERSION:` line grammars.

use vstd::prelude::*;
use vstd::string::*;

use crate::model::{
    Backend, CheckModel, ProbeModel, ProbeOutcome, QueryError, QueryResult, ResultModel, ScanModel,
    Status,
};
use crate::text::{
    any_first_token, any_line_has, check_output, contains_sub, first_token, first_token_matches,
    has_sub, join_from, join_sep, lines, merged_version, some_line_contains,
    some_line_first_token, str_eq, tokenize, tokens, version_note, views,
};

verus! {

/// cargo's negative markers: empty probe output, no line at all, no
/// line mentioning the name, or no line whose first token is exactly
/// the name.
pub open spec fn cargo_probe_not_found(name: Seq<char>, raw: Seq<char>) -> bool {
    ||| raw.len() == 0
    ||| lines(raw).len() == 0
    ||| !any_line_has(lines(raw), name)
    ||| !any_first_token(lines(raw), name)
}

/// A probe line that carries metadata for `name`: it mentions an
/// equals sign the way a registry row does, and its first token is
/// exactly the name.
pub open spec fn cargo_meta_line(l: Seq<char>, name: Seq<char>) -> bool {
    has_sub(l, " = "@) && first_token(l) == name
}

/// One registry row under cargo's grammar `name = "version" # description`:
/// the unquoted version and the description.
pub open spec fn cargo_meta_parse(l: Seq<char>) -> Option<(Seq<char>, Seq<char>)> {
    let ts = tokens(l);
    if ts.len() >= 4 && ts[1] == "="@ && ts[2].len() >= 2 && ts[2][0] == '"' && ts[2][ts[2].len()
        - 1] == '"' && ts[3] == "#"@ {
        Option::Some((ts[2].subrange(1, ts[2].len() - 1), join_sep(ts.skip(4), " "@)))
    } else {
        Option::None
    }
}

/// The metadata fold over the probe lines: the last metadata row for
/// the name wins; a metadata row that defeats the grammar is malformed.
pub open spec fn cargo_meta_from(
    name: Seq<char>,
    ls: Seq<Seq<char>>,
    version: Seq<char>,
    desc: Seq<char>,
) -> Option<(Seq<char>, Seq<char>)>
    decreases ls.len(),
{
    if ls.len() == 0 {
        Option::Some((version, desc))
    } else if cargo_meta_line(ls[0], name) {
        match cargo_meta_parse(ls[0]) {
            Option::None => Option::None,
            Option::Some(p) => cargo_meta_from(name, ls.drop_first(), p.0, p.1),
        }
    } else {
        cargo_meta_from(name, ls.drop_first(), version, desc)
    }
}

/// What cargo's existence probe decides from its captured output.
pub open spec fn cargo_probe_model(name: Seq<char>, raw: Seq<char>) -> ProbeModel {
    if cargo_probe_not_found(name, raw) {
        ProbeModel::NotFound
    } else {
        match cargo_meta_from(name, lines(raw), Seq::empty(), Seq::empty()) {
            Option::Some(p) => ProbeModel::Exists { version: p.0, desc: p.1 },
            Option::None => ProbeModel::Malformed,
        }
    }
}

/// A line of the installed list worth parsing: not indented, and
/// mentioning the queried name.
pub open spec fn cargo_candidate(l: Seq<char>, name: Seq<char>) -> bool {
    !(l.len() > 0 && l[0] == ' ') && has_sub(l, name)
}

/// One installed-list line under cargo's grammar `name vVERSION:`: the
/// name and the locally installed version.
pub open spec fn cargo_inst_parse(l: Seq<char>) -> Option<(Seq<char>, Seq<char>)> {
    let ts = tokens(l);
    if ts.len() == 2 && ts[1].len() >= 2 && ts[1][0] == 'v' && ts[1][ts[1].len() - 1] == ':' {
        Option::Some((ts[0], ts[1].subrange(1, ts[1].len() - 1)))
    } else {
        Option::None
    }
}

/// The scan over the installed list: the first candidate line whose
/// name matches wins; a candidate that defeats the grammar is
/// malformed; no winner means the package is only available.
pub open spec fn cargo_scan_model(
    name: Seq<char>,
    latest: Seq<char>,
    desc: Seq<char>,
    ls: Seq<Seq<char>>,
) -> ScanModel
    decreases ls.len(),
{
    if ls.len() == 0 {
        ScanModel::Done(
            ResultModel {
                manager: Backend::Cargo,
                package: name,
                version: latest,
                desc,
                repo: Seq::empty(),
                status: Status::Available,
            },
        )
    } else if !cargo_candidate(ls[0], name) {
        cargo_scan_model(name, latest, desc, ls.drop_first())
    } else {
        match cargo_inst_parse(ls[0]) {
            Option::None => ScanModel::Malformed,
            Option::Some(p) => {
                if p.0 == name {
                    ScanModel::Done(
                        ResultModel {
                            manager: Backend::Cargo,
                            package: name,
                            version: version_note(p.1, latest),
                            desc,
                            repo: Seq::empty(),
                            status: Status::Installed,
                        },
                    )
                } else {
                    cargo_scan_model(name, latest, desc, ls.drop_first())
                }
            },
        }
    }
}

/// The whole cargo adapter on captured outputs.
pub open spec fn cargo_check_model(
    name: Seq<char>,
    probe: Seq<char>,
    inst: Seq<char>,
) -> CheckModel {
    match cargo_probe_model(name, probe) {
        ProbeModel::NotFound => CheckModel::Done(ResultModel::not_found(Backend::Cargo, name)),
        ProbeModel::Malformed => CheckModel::Fail(QueryError::ParseFailure),
        ProbeModel::Exists { version, desc } => {
            if inst.len() == 0 {
                CheckModel::Fail(QueryError::EmptyOutput)
            } else {
                match cargo_scan_model(name, version, desc, lines(inst)) {
                    ScanModel::Done(m) => CheckModel::Done(m),
                    ScanModel::Malformed => CheckModel::Fail(QueryError::ParseFailure),
                }
            }
        },
    }
}

/// Interprets the captured output of cargo's existence probe,
/// `cargo search <name>`.
pub fn cargo_probe(package: &str, raw: &str) -> (r: Result<ProbeOutcome, QueryError>)
    requires
        package@.len() > 0,
    ensures
        match r {
            Result::Ok(ProbeOutcome::Resolved(q)) => cargo_probe_model(package@, raw@)
                == ProbeModel::NotFound && q@ == ResultModel::not_found(Backend::Cargo, package@),
            Result::Ok(ProbeOutcome::Exists { version, desc }) => cargo_probe_model(
                package@,
                raw@,
            ) == (ProbeModel::Exists { version: version@, desc: desc@ }),
            Result::Err(e) => cargo_probe_model(package@, raw@) == ProbeModel::Malformed && e
                == QueryError::ParseFailure,
        },
{
    let ls = match check_output(raw) {
        Option::None => {
            return Result::Ok(ProbeOutcome::Resolved(QueryResult::none(Backend::Cargo, package)));
        },
        Option::Some(v) => v,
    };
    if ls.len() == 0 || !some_line_contains(&ls, package) || !some_line_first_token(&ls, package) {
        return Result::Ok(ProbeOutcome::Resolved(QueryResult::none(Backend::Cargo, package)));
    }
    let ghost vs = views(ls@);
    let mut version = String::new();
    let mut desc = String::new();
    let mut i: usize = 0;
    proof {
        assert(vs.skip(0) =~= vs);
    }
    while i < ls.len()
        invariant
            package@.len() > 0,
            vs == views(ls@),
            vs == lines(raw@),
            !cargo_probe_not_found(package@, raw@),
            i <= ls@.len(),
            cargo_meta_from(package@, vs.skip(i as int), version@, desc@) == cargo_meta_from(
                package@,
                vs,
                Seq::empty(),
                Seq::empty(),
            ),
        decreases ls@.len() - i,
    {
        let l = ls[i].as_str();
        proof {
            assert(vs[i as int] == ls@[i as int]@);
            assert(vs.skip(i as int)[0] == vs[i as int]);
            assert(vs.skip(i as int).drop_first() =~= vs.skip(i + 1));
        }
        if contains_sub(l, " = ") && first_token_matches(l, package) {
            let toks = tokenize(l);
            proof {
                assert(tokens(vs[i as int]).len() > 0);
            }
            if toks.len() < 4 {
                return Result::Err(QueryError::ParseFailure);
            }
            proof {
                assert(views(toks@)[1] == toks@[1]@);
                assert(views(toks@)[2] == toks@[2]@);
                assert(views(toks@)[3] == toks@[3]@);
            }
            let t2 = toks[2].as_str();
            let t2l = t2.unicode_len();
            let shape = str_eq(toks[1].as_str(), "=") && t2l >= 2 && t2.get_char(0) == '"'
                && t2.get_char(t2l - 1) == '"' && str_eq(toks[3].as_str(), "#");
            if !shape {
                return Result::Err(QueryError::ParseFailure);
            }
            version = String::from_str(t2.substring_char(1, t2l - 1));
            desc = join_from(&toks, 4, " ");
            proof {
                assert(views(toks@).skip(4) =~= tokens(vs[i as int]).skip(4));
            }
        }
        i = i + 1;
    }
    proof {
        assert(vs.skip(ls@.len() as int) =~= Seq::<Seq<char>>::empty());
    }
    Result::Ok(ProbeOutcome::Exists { version, desc })
}

/// Interprets the captured output of cargo's installed-state check,
/// `cargo install --list`, with the registry's version and description
/// carried over from the probe.
pub fn cargo_installed(package: &str, latest: &str, desc: &str, raw: &str) -> (r: Result<
    QueryResult,
    QueryError,
>)
    requires
        package@.len() > 0,
    ensures
        match r {
            Result::Ok(q) => raw@.len() > 0 && cargo_scan_model(
                package@,
                latest@,
                desc@,
                lines(raw@),
            ) == ScanModel::Done(q@),
            Result::Err(e) => match e {
                QueryError::EmptyOutput => raw@.len() == 0,
                QueryError::ParseFailure => raw@.len() > 0 && cargo_scan_model(
                    package@,
                    latest@,
                    desc@,
                    lines(raw@),
                ) == ScanModel::Malformed,
                QueryError::SpawnFailure => false,
            },
        },
{
    let ls = match check_output(raw) {
        Option::None => {
            return Result::Err(QueryError::EmptyOutput);
        },
        Option::Some(v) => v,
    };
    let ghost vs = views(ls@);
    let mut i: usize = 0;
    proof {
        assert(vs.skip(0) =~= vs);
    }
    while i < ls.len()
        invariant
            package@.len() > 0,
            vs == views(ls@),
            vs == lines(raw@),
            raw@.len() > 0,
            i <= ls@.len(),
            cargo_scan_model(package@, latest@, desc@, vs.skip(i as int)) == cargo_scan_model(
                package@,
                latest@,
                desc@,
                vs,
            ),
        decreases ls@.len() - i,
    {
        let l = ls[i].as_str();
        proof {
            assert(vs[i as int] == ls@[i as int]@);
            assert(vs.skip(i as int)[0] == vs[i as int]);
            assert(vs.skip(i as int).drop_first() =~= vs.skip(i + 1));
        }
        let indented = l.unicode_len() > 0 && l.get_char(0) == ' ';
        if !indented && contains_sub(l, package) {
            let toks = tokenize(l);
            proof {
                if toks@.len() >= 1 {
                    assert(views(toks@)[0] == toks@[0]@);
                }
                if toks@.len() >= 2 {
                    assert(views(toks@)[1] == toks@[1]@);
                }
            }
            if toks.len() != 2 {
                return Result::Err(QueryError::ParseFailure);
            }
            let t1 = toks[1].as_str();
            let t1l = t1.unicode_len();
            if !(t1l >= 2 && t1.get_char(0) == 'v' && t1.get_char(t1l - 1) == ':') {
                return Result::Err(QueryError::ParseFailure);
            }
            if str_eq(toks[0].as_str(), package) {
                let local = t1.substring_char(1, t1l - 1);
                let version = merged_version(local, latest);
                proof {
                    reveal_strlit("");
                    assert(""@ =~= Seq::<char>::empty());
                }
                return Result::Ok(
                    QueryResult::some(
                        Backend::Cargo,
                        package,
                        Status::Installed,
                        version.as_str(),
                        desc,
                        "",
                    ),
                );
            }
        }
        i = i + 1;
    }
    proof {
        assert(vs.skip(ls@.len() as int) =~= Seq::<Seq<char>>::empty());
        reveal_strlit("");
        assert(""@ =~= Seq::<char>::empty());
    }
    Result::Ok(
        QueryResult::some(Backend::Cargo, package, Status::Available, latest, desc, ""),
    )
}

/// cargo's probe accepts no substring match: without a line whose
/// first whitespace-delimited token is exactly the queried name, the
/// query resolves to not found, whatever the installed list holds.
pub proof fn law_cargo_exact_token(name: Seq<char>, probe: Seq<char>, inst: Seq<char>)
    requires
        !any_first_token(lines(probe), name),
    ensures
        cargo_check_model(name, probe, inst) == CheckModel::Done(
            ResultModel::not_found(Backend::Cargo, name),
        ),
{
}

/// Line `i` of the installed list parses to exactly the queried name.
pub open spec fn cargo_exact_hit(ls: Seq<Seq<char>>, name: Seq<char>, i: int) -> bool {
    cargo_inst_parse(ls[i]) matches Option::Some(p) && p.0 == name
}

/// cargo's installed scan accepts no substring match either: an
/// installed verdict demands a line that parses to exactly the
/// queried name.
pub proof fn law_cargo_installed_exact_name(
    name: Seq<char>,
    latest: Seq<char>,
    desc: Seq<char>,
    ls: Seq<Seq<char>>,
)
    ensures
        cargo_scan_model(name, latest, desc, ls) matches ScanModel::Done(m) && m.status
            == Status::Installed ==> exists|i: int|
            0 <= i < ls.len() && #[trigger] cargo_exact_hit(ls, name, i),
    decreases ls.len(),
{
    if ls.len() > 0 {
        law_cargo_installed_exact_name(name, latest, desc, ls.drop_first());
        let model = cargo_scan_model(name, latest, desc, ls);
        if model matches ScanModel::Done(m) && m.status == Status::Installed {
            if cargo_candidate(ls[0], name) && cargo_exact_hit(ls, name, 0) {
                assert(exists|i: int| 0 <= i < ls.len() && #[trigger] cargo_exact_hit(ls, name, i));
            } else {
                let d = ls.drop_first();
                let i0 = choose|i: int| 0 <= i < d.len() && #[trigger] cargo_exact_hit(d, name, i);
                assert(ls[i0 + 1] == d[i0]);
                assert(cargo_exact_hit(ls, name, i0 + 1));
            }
        }
    }
}

/// A record the installed-state scan hands out is well formed.
pub proof fn lemma_cargo_scan_wf(
    name: Seq<char>,
    latest: Seq<char>,
    desc: Seq<char>,
    ls: Seq<Seq<char>>,
)
    ensures
        cargo_scan_model(name, latest, desc, ls) matches ScanModel::Done(m) ==> m.wf()
            && m.manager == Backend::Cargo,
    decreases ls.len(),
{
    if ls.len() > 0 {
        lemma_cargo_scan_wf(name, latest, desc, ls.drop_first());
    }
}

/// The whole cargo adapter on captured outputs: the probe settles
/// not-found by itself; otherwise the installed-state output decides
/// between installed and available.
pub fn check_cargo(package: &str, probe_raw: &str, installed_raw: &str) -> (r: Result<
    QueryResult,
    QueryError,
>)
    requires
        package@.len() > 0,
    ensures
        match r {
            Result::Ok(q) => cargo_check_model(package@, probe_raw@, installed_raw@)
                == CheckModel::Done(q@) && q@.wf(),
            Result::Err(e) => cargo_check_model(package@, probe_raw@, installed_raw@)
                == CheckModel::Fail(e),
        },
{
    match cargo_probe(package, probe_raw) {
        Result::Err(e) => Result::Err(e),
        Result::Ok(ProbeOutcome::Resolved(q)) => Result::Ok(q),
        Result::Ok(ProbeOutcome::Exists { version, desc }) => {
            proof {
                lemma_cargo_scan_wf(package@, version@, desc@, lines(installed_raw@));
            }
            cargo_installed(package, version.as_str(), desc.as_str(), installed_raw)
        },
    }
}

} // verus!
