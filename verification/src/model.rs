//! The shared result model: one normalized record per (backend, package)
//! query, and the error taxonomy of a failed query.

use vstd::prelude::*;
use vstd::string::*;

verus! {

/// The supported backends, in the fixed priority order in which a run
/// enumerates them.  `Go` has an adapter of its own but is not in the
/// active set that a run walks.
#[derive(Clone, Copy, PartialEq, Eq, Structural, Debug)]
pub enum Backend {
    Snap,
    Apt,
    Yay,
    Cargo,
    Go,
}

impl Backend {
    /// The backend's name, which is also the name of its command.
    pub open spec fn spec_name(self) -> Seq<char> {
        match self {
            Backend::Snap => "snap"@,
            Backend::Apt => "apt"@,
            Backend::Yay => "yay"@,
            Backend::Cargo => "cargo"@,
            Backend::Go => "go"@,
        }
    }

    /// The backend's name as a string.
    pub fn name(&self) -> (r: String)
        ensures
            r@ == self.spec_name(),
    {
        match self {
            Backend::Snap => String::from_str("snap"),
            Backend::Apt => String::from_str("apt"),
            Backend::Yay => String::from_str("yay"),
            Backend::Cargo => String::from_str("cargo"),
            Backend::Go => String::from_str("go"),
        }
    }
}

/// The classification of one query.  The three are mutually exclusive;
/// `Installed` subsumes "installed with an upgrade available", which the
/// version field spells out.
#[derive(Clone, Copy, PartialEq, Eq, Structural, Debug)]
pub enum Status {
    Installed,
    Available,
    NotFound,
}

/// Why one backend's query produced no record.  Empty probe output is
/// not here: the existence probe folds it into a not-found record.
#[derive(Clone, Copy, PartialEq, Eq, Structural, Debug)]
pub enum QueryError {
    /// The backend's executable could not be launched.
    SpawnFailure,
    /// An output that the protocol requires came back empty.
    EmptyOutput,
    /// The backend's output did not match its line grammar.
    ParseFailure,
}

/// The mathematical view of a query result.
pub ghost struct ResultModel {
    pub manager: Backend,
    pub package: Seq<char>,
    pub version: Seq<char>,
    pub desc: Seq<char>,
    pub repo: Seq<char>,
    pub status: Status,
}

impl ResultModel {
    /// The not-found record: nothing is known beyond the queried name.
    pub open spec fn not_found(manager: Backend, package: Seq<char>) -> ResultModel {
        ResultModel {
            manager,
            package,
            version: Seq::empty(),
            desc: Seq::empty(),
            repo: Seq::empty(),
            status: Status::NotFound,
        }
    }

    /// A record never carries metadata for a package it did not find.
    pub open spec fn wf(self) -> bool {
        self.status == Status::NotFound ==> self.version.len() == 0 && self.desc.len() == 0
            && self.repo.len() == 0
    }
}

/// One normalized query result.  `version` is empty when unknown, and
/// reads `local -> latest` when the installed version differs from the
/// backend's latest; `desc` and `repo` are empty when the backend's
/// grammar gives none.
#[derive(Debug)]
pub struct QueryResult {
    pub manager: Backend,
    pub package: String,
    pub version: String,
    pub desc: String,
    pub repo: String,
    pub status: Status,
}

impl View for QueryResult {
    type V = ResultModel;

    open spec fn view(&self) -> ResultModel {
        ResultModel {
            manager: self.manager,
            package: self.package@,
            version: self.version@,
            desc: self.desc@,
            repo: self.repo@,
            status: self.status,
        }
    }
}

impl QueryResult {
    /// A record with every field given.
    pub fn some(
        manager: Backend,
        package: &str,
        status: Status,
        version: &str,
        desc: &str,
        repo: &str,
    ) -> (r: QueryResult)
        ensures
            r@ == (ResultModel {
                manager,
                package: package@,
                version: version@,
                desc: desc@,
                repo: repo@,
                status,
            }),
    {
        QueryResult {
            manager,
            package: String::from_str(package),
            version: String::from_str(version),
            desc: String::from_str(desc),
            repo: String::from_str(repo),
            status,
        }
    }

    /// The not-found record for a queried name.
    pub fn none(manager: Backend, package: &str) -> (r: QueryResult)
        ensures
            r@ == ResultModel::not_found(manager, package@),
    {
        QueryResult {
            manager,
            package: String::from_str(package),
            version: String::new(),
            desc: String::new(),
            repo: String::new(),
            status: Status::NotFound,
        }
    }
}

/// What the existence probe of a two-call backend decided.
pub enum ProbeOutcome {
    /// The probe settled the query by itself.
    Resolved(QueryResult),
    /// The package exists in the registry; the installed-state check is
    /// still owed and carries the registry's version and description.
    Exists { version: String, desc: String },
}

/// The mathematical view of a probe's outcome.
pub ghost enum ProbeModel {
    NotFound,
    Exists { version: Seq<char>, desc: Seq<char> },
    Malformed,
}

/// The mathematical view of an installed-state check's outcome.
pub ghost enum ScanModel {
    Done(ResultModel),
    Malformed,
}

/// The mathematical view of one whole adapter run on captured outputs.
pub ghost enum CheckModel {
    Done(ResultModel),
    Fail(QueryError),
}

} // verus!
