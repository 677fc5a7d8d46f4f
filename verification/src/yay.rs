//! The yay adapter: a single-call variant of the protocol.  One probe,
//! `yay -Ss <name>`, answers everything: the examined line follows the
//! grammar `repo/name version [state]`, and the literal `Installed`
//! within it separates installed from available.

use vstd::prelude::*;
use vstd::string::*;

use crate::model::{Backend, CheckModel, QueryError, QueryResult, ResultModel, Status};
use crate::text::{
    check_output, contains_sub, has_sub, lines, split_once_char, split_once_spec, str_eq,
    tokenize, tokens, views,
};

verus! {

/// The line of the probe output that yay's grammar reads: the third
/// line from the end, where the last result's header row stands.
pub open spec fn yay_target_line(ls: Seq<Seq<char>>) -> Seq<char> {
    ls[ls.len() - 3]
}

/// The whole yay adapter on its single captured output.  Empty output
/// or too few lines is a not-found; a target line that defeats the
/// grammar is malformed; otherwise the name after the slash decides,
/// and the `Installed` marker picks the status.
pub open spec fn yay_check_model(name: Seq<char>, raw: Seq<char>) -> CheckModel {
    if raw.len() == 0 || lines(raw).len() < 3 {
        CheckModel::Done(ResultModel::not_found(Backend::Yay, name))
    } else {
        let l = yay_target_line(lines(raw));
        let ts = tokens(l);
        if ts.len() < 2 {
            CheckModel::Fail(QueryError::ParseFailure)
        } else {
            match split_once_spec(ts[0], '/') {
                Option::None => CheckModel::Fail(QueryError::ParseFailure),
                Option::Some(p) => {
                    if p.1 == name {
                        CheckModel::Done(
                            ResultModel {
                                manager: Backend::Yay,
                                package: ts[0],
                                version: ts[1],
                                desc: Seq::empty(),
                                repo: p.0,
                                status: if has_sub(l, "Installed"@) {
                                    Status::Installed
                                } else {
                                    Status::Available
                                },
                            },
                        )
                    } else {
                        CheckModel::Done(ResultModel::not_found(Backend::Yay, name))
                    }
                },
            }
        }
    }
}

/// The examined line's first token names, after its slash, exactly
/// `name`.
pub open spec fn yay_names_exactly(raw: Seq<char>, name: Seq<char>) -> bool {
    split_once_spec(tokens(yay_target_line(lines(raw)))[0], '/') matches Option::Some(p) && p.1
        == name
}

/// yay accepts no substring match: a record other than not-found
/// names, after the slash of the examined line's first token, exactly
/// the queried name.
pub proof fn law_yay_exact_name(name: Seq<char>, raw: Seq<char>)
    ensures
        yay_check_model(name, raw) matches CheckModel::Done(m) && m.status != Status::NotFound
            ==> yay_names_exactly(raw, name),
{
}

/// The `Installed` marker alone separates yay's two positive verdicts:
/// a record other than not-found is installed exactly when the
/// examined line carries the marker.
pub proof fn law_yay_installed_marker(name: Seq<char>, raw: Seq<char>)
    ensures
        yay_check_model(name, raw) matches CheckModel::Done(m) ==> (m.status != Status::NotFound
            ==> (m.status == Status::Installed <==> has_sub(
            yay_target_line(lines(raw)),
            "Installed"@,
        ))),
{
}

/// The whole yay adapter on its single captured output,
/// `yay -Ss <name>`.
pub fn check_yay(package: &str, raw: &str) -> (r: Result<QueryResult, QueryError>)
    requires
        package@.len() > 0,
    ensures
        match r {
            Result::Ok(q) => yay_check_model(package@, raw@) == CheckModel::Done(q@) && q@.wf(),
            Result::Err(e) => yay_check_model(package@, raw@) == CheckModel::Fail(e),
        },
{
    let ls = match check_output(raw) {
        Option::None => {
            return Result::Ok(QueryResult::none(Backend::Yay, package));
        },
        Option::Some(v) => v,
    };
    if ls.len() < 3 {
        return Result::Ok(QueryResult::none(Backend::Yay, package));
    }
    let l = ls[ls.len() - 3].as_str();
    proof {
        assert(views(ls@)[ls@.len() - 3] == ls@[ls@.len() - 3]@);
    }
    let toks = tokenize(l);
    if toks.len() < 2 {
        return Result::Err(QueryError::ParseFailure);
    }
    proof {
        assert(views(toks@)[0] == toks@[0]@);
        assert(views(toks@)[1] == toks@[1]@);
    }
    let (repo, name2) = match split_once_char(toks[0].as_str(), '/') {
        Option::None => {
            return Result::Err(QueryError::ParseFailure);
        },
        Option::Some(p) => p,
    };
    if str_eq(name2.as_str(), package) {
        let status = if contains_sub(l, "Installed") {
            Status::Installed
        } else {
            Status::Available
        };
        proof {
            reveal_strlit("");
            assert(""@ =~= Seq::<char>::empty());
        }
        Result::Ok(
            QueryResult::some(
                Backend::Yay,
                toks[0].as_str(),
                status,
                toks[1].as_str(),
                "",
                repo.as_str(),
            ),
        )
    } else {
        Result::Ok(QueryResult::none(Backend::Yay, package))
    }
}

} // verus!
