//! The go adapter, a dormant extra alongside the four active backends:
//! it reads the module lines of `go version -m` over a binary
//! directory, and can only tell an installed tool from an unknown one.

use vstd::prelude::*;
use vstd::string::*;

use crate::model::{Backend, CheckModel, QueryError, QueryResult, ResultModel, ScanModel, Status};
use crate::text::{
    check_output, contains_sub, has_sub, join_from, join_sep, lines, split_all, split_on_char,
    str_eq, tokenize, tokens, views,
};

verus! {

/// One module line under go's grammar: the second token is the module
/// path; its first segment (the host) is dropped, the last remaining
/// segment is the tool's name and the remaining segments joined again
/// are its provenance.
pub open spec fn go_line_parse(l: Seq<char>) -> Option<(Seq<char>, Seq<char>, Seq<char>)> {
    let ts = tokens(l);
    if ts.len() < 2 {
        Option::None
    } else {
        let segs = split_all(ts[1], '/');
        if segs.len() < 2 {
            Option::None
        } else {
            let rest = segs.drop_first();
            Option::Some((ts[1], rest.last(), join_sep(rest, "/"@)))
        }
    }
}

/// The scan over the module lines: only lines mentioning `path` are
/// read; the first whose tool name matches wins; such a line that
/// defeats the grammar is malformed; no winner means not found.
pub open spec fn go_scan_model(name: Seq<char>, ls: Seq<Seq<char>>) -> ScanModel
    decreases ls.len(),
{
    if ls.len() == 0 {
        ScanModel::Done(ResultModel::not_found(Backend::Go, name))
    } else if !has_sub(ls[0], "path"@) {
        go_scan_model(name, ls.drop_first())
    } else {
        match go_line_parse(ls[0]) {
            Option::None => ScanModel::Malformed,
            Option::Some(p) => {
                if p.1 == name {
                    ScanModel::Done(
                        ResultModel {
                            manager: Backend::Go,
                            package: p.0,
                            version: Seq::empty(),
                            desc: Seq::empty(),
                            repo: p.2,
                            status: Status::Installed,
                        },
                    )
                } else {
                    go_scan_model(name, ls.drop_first())
                }
            },
        }
    }
}

/// The whole go adapter on its single captured output.
pub open spec fn go_check_model(name: Seq<char>, raw: Seq<char>) -> CheckModel {
    if raw.len() == 0 {
        CheckModel::Done(ResultModel::not_found(Backend::Go, name))
    } else {
        match go_scan_model(name, lines(raw)) {
            ScanModel::Done(m) => CheckModel::Done(m),
            ScanModel::Malformed => CheckModel::Fail(QueryError::ParseFailure),
        }
    }
}

/// A record the module scan hands out is well formed.
pub proof fn lemma_go_scan_wf(name: Seq<char>, ls: Seq<Seq<char>>)
    ensures
        go_scan_model(name, ls) matches ScanModel::Done(m) ==> m.wf() && m.manager == Backend::Go,
    decreases ls.len(),
{
    if ls.len() > 0 {
        lemma_go_scan_wf(name, ls.drop_first());
    }
}

/// The whole go adapter on the captured output of `go version -m` over
/// the go binary directory.
pub fn check_go(package: &str, raw: &str) -> (r: Result<QueryResult, QueryError>)
    requires
        package@.len() > 0,
    ensures
        match r {
            Result::Ok(q) => go_check_model(package@, raw@) == CheckModel::Done(q@) && q@.wf(),
            Result::Err(e) => go_check_model(package@, raw@) == CheckModel::Fail(e),
        },
{
    let ls = match check_output(raw) {
        Option::None => {
            return Result::Ok(QueryResult::none(Backend::Go, package));
        },
        Option::Some(v) => v,
    };
    let ghost vs = views(ls@);
    let mut i: usize = 0;
    proof {
        assert(vs.skip(0) =~= vs);
        lemma_go_scan_wf(package@, vs);
    }
    while i < ls.len()
        invariant
            package@.len() > 0,
            vs == views(ls@),
            vs == lines(raw@),
            raw@.len() > 0,
            i <= ls@.len(),
            go_scan_model(package@, vs.skip(i as int)) == go_scan_model(package@, vs),
        decreases ls@.len() - i,
    {
        let l = ls[i].as_str();
        proof {
            assert(vs[i as int] == ls@[i as int]@);
            assert(vs.skip(i as int)[0] == vs[i as int]);
            assert(vs.skip(i as int).drop_first() =~= vs.skip(i + 1));
        }
        if contains_sub(l, "path") {
            let toks = tokenize(l);
            if toks.len() < 2 {
                return Result::Err(QueryError::ParseFailure);
            }
            proof {
                assert(views(toks@)[1] == toks@[1]@);
            }
            let segs = split_on_char(toks[1].as_str(), '/');
            if segs.len() < 2 {
                return Result::Err(QueryError::ParseFailure);
            }
            proof {
                assert(views(segs@)[segs@.len() - 1] == segs@[segs@.len() - 1]@);
                assert(views(segs@).drop_first().last() == views(segs@)[segs@.len() - 1]);
                assert(views(segs@).skip(1) =~= views(segs@).drop_first());
            }
            let name2 = segs[segs.len() - 1].as_str();
            if str_eq(name2, package) {
                let repo = join_from(&segs, 1, "/");
                proof {
                    reveal_strlit("");
                    assert(""@ =~= Seq::<char>::empty());
                }
                return Result::Ok(
                    QueryResult::some(
                        Backend::Go,
                        toks[1].as_str(),
                        Status::Installed,
                        "",
                        "",
                        repo.as_str(),
                    ),
                );
            }
        }
        i = i + 1;
    }
    proof {
        assert(vs.skip(ls@.len() as int) =~= Seq::<Seq<char>>::empty());
    }
    Result::Ok(QueryResult::none(Backend::Go, package))
}

} // verus!
