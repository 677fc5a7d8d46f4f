//! The aggregator: collects each backend's outcome, keeps the failures
//! aside, and orders the records for the report.

use vstd::prelude::*;

use crate::model::{Backend, QueryError, QueryResult, Status};

verus! {

/// The predicate "has this status", as a value, so that every mention
/// of one bucket's membership is one and the same function.
pub open spec fn with_status(s: Status) -> spec_fn(QueryResult) -> bool {
    |q: QueryResult| q.status == s
}

/// The report order: a stable partition into the three buckets
/// `Installed`, `Available`, `NotFound`, each keeping the order in
/// which the records arrived.
pub open spec fn sorted_spec(rs: Seq<QueryResult>) -> Seq<QueryResult> {
    rs.filter(with_status(Status::Installed)) + rs.filter(with_status(Status::Available))
        + rs.filter(with_status(Status::NotFound))
}

proof fn lemma_filter_singleton<A>(x: A, p: spec_fn(A) -> bool)
    ensures
        seq![x].filter(p) == if p(x) {
            seq![x]
        } else {
            Seq::<A>::empty()
        },
{
    reveal_with_fuel(Seq::filter, 2);
    assert(seq![x].drop_last() =~= Seq::<A>::empty());
}

/// Sorts the records into the report order.
pub fn sort_results(results: Vec<QueryResult>) -> (r: Vec<QueryResult>)
    ensures
        r@ == sorted_spec(results@),
{
    let ghost orig = results@;
    let mut rest = results;
    let mut inst: Vec<QueryResult> = Vec::new();
    let mut avail: Vec<QueryResult> = Vec::new();
    let mut nf: Vec<QueryResult> = Vec::new();
    let ghost mut k: int = 0;
    proof {
        assert(orig.take(0) =~= Seq::<QueryResult>::empty());
        reveal_with_fuel(Seq::filter, 1);
    }
    while rest.len() > 0
        invariant
            0 <= k <= orig.len(),
            rest@ == orig.skip(k),
            inst@ == orig.take(k).filter(with_status(Status::Installed)),
            avail@ == orig.take(k).filter(with_status(Status::Available)),
            nf@ == orig.take(k).filter(with_status(Status::NotFound)),
        decreases orig.len() - k,
    {
        let q = rest.remove(0);
        proof {
            assert(rest@ =~= orig.skip(k + 1));
            assert(orig.take(k + 1) =~= orig.take(k).push(orig[k]));
            let fi = with_status(Status::Installed);
            let fa = with_status(Status::Available);
            let fn_ = with_status(Status::NotFound);
            Seq::filter_distributes_over_add(orig.take(k), seq![orig[k]], fi);
            Seq::filter_distributes_over_add(orig.take(k), seq![orig[k]], fa);
            Seq::filter_distributes_over_add(orig.take(k), seq![orig[k]], fn_);
            lemma_filter_singleton(orig[k], fi);
            lemma_filter_singleton(orig[k], fa);
            lemma_filter_singleton(orig[k], fn_);
            assert(orig.take(k).push(orig[k]) =~= orig.take(k) + seq![orig[k]]);
        }
        let ghost fi = with_status(Status::Installed);
        let ghost fa = with_status(Status::Available);
        let ghost fn_ = with_status(Status::NotFound);
        if q.status == Status::Installed {
            inst.push(q);
            proof {
                assert(inst@ =~= orig.take(k + 1).filter(fi));
                assert(avail@ =~= orig.take(k + 1).filter(fa));
                assert(nf@ =~= orig.take(k + 1).filter(fn_));
            }
        } else if q.status == Status::Available {
            avail.push(q);
            proof {
                assert(inst@ =~= orig.take(k + 1).filter(fi));
                assert(avail@ =~= orig.take(k + 1).filter(fa));
                assert(nf@ =~= orig.take(k + 1).filter(fn_));
            }
        } else {
            nf.push(q);
            proof {
                assert(inst@ =~= orig.take(k + 1).filter(fi));
                assert(avail@ =~= orig.take(k + 1).filter(fa));
                assert(nf@ =~= orig.take(k + 1).filter(fn_));
            }
        }
        proof {
            k = k + 1;
        }
    }
    proof {
        assert(orig.take(k) =~= orig);
    }
    let mut out = inst;
    out.append(&mut avail);
    out.append(&mut nf);
    proof {
        assert(out@ =~= sorted_spec(orig));
    }
    out
}

/// Whether every record of the set is a not-found record.
pub open spec fn all_not_found(rs: Seq<QueryResult>) -> bool {
    forall|i: int| 0 <= i < rs.len() ==> (#[trigger] rs[i]).status == Status::NotFound
}

/// The terminal verdict of a quiet run: false exactly when the set is
/// non-empty and every record is a not-found record; an empty set is a
/// vacuous success.
pub fn quiet_outcome(results: &Vec<QueryResult>) -> (r: bool)
    ensures
        r == !(results@.len() > 0 && all_not_found(results@)),
{
    let mut i: usize = 0;
    while i < results.len()
        invariant
            i <= results@.len(),
            forall|k: int| 0 <= k < i ==> (#[trigger] results@[k]).status == Status::NotFound,
        decreases results@.len() - i,
    {
        if results[i].status != Status::NotFound {
            return true;
        }
        i = i + 1;
    }
    results.len() == 0
}

/// The records of the succeeded queries, in arrival order.
pub open spec fn successes(os: Seq<(Backend, Result<QueryResult, QueryError>)>) -> Seq<
    QueryResult,
>
    decreases os.len(),
{
    if os.len() == 0 {
        Seq::empty()
    } else {
        let rest = successes(os.drop_first());
        match os[0].1 {
            Result::Ok(q) => seq![q] + rest,
            Result::Err(_) => rest,
        }
    }
}

/// The failed queries, each with its backend, in arrival order.
pub open spec fn failures(os: Seq<(Backend, Result<QueryResult, QueryError>)>) -> Seq<
    (Backend, QueryError),
>
    decreases os.len(),
{
    if os.len() == 0 {
        Seq::empty()
    } else {
        let rest = failures(os.drop_first());
        match os[0].1 {
            Result::Ok(_) => rest,
            Result::Err(e) => seq![(os[0].0, e)] + rest,
        }
    }
}

proof fn lemma_successes_push(
    os: Seq<(Backend, Result<QueryResult, QueryError>)>,
    x: (Backend, Result<QueryResult, QueryError>),
)
    ensures
        successes(os.push(x)) == successes(os) + (match x.1 {
            Result::Ok(q) => seq![q],
            Result::Err(_) => Seq::<QueryResult>::empty(),
        }),
        failures(os.push(x)) == failures(os) + (match x.1 {
            Result::Ok(_) => Seq::<(Backend, QueryError)>::empty(),
            Result::Err(e) => seq![(x.0, e)],
        }),
    decreases os.len(),
{
    if os.len() == 0 {
        let empty_os = Seq::<(Backend, Result<QueryResult, QueryError>)>::empty();
        assert(os.push(x).drop_first() =~= empty_os);
        assert(os =~= empty_os);
        assert(successes(empty_os) == Seq::<QueryResult>::empty());
        assert(failures(empty_os) == Seq::<(Backend, QueryError)>::empty());
        assert(os.push(x)[0] == x);
        assert(successes(os.push(x)) =~= successes(os) + (match x.1 {
            Result::Ok(q) => seq![q],
            Result::Err(_) => Seq::<QueryResult>::empty(),
        }));
        assert(failures(os.push(x)) =~= failures(os) + (match x.1 {
            Result::Ok(_) => Seq::<(Backend, QueryError)>::empty(),
            Result::Err(e) => seq![(x.0, e)],
        }));
    } else {
        lemma_successes_push(os.drop_first(), x);
        assert(os.push(x).drop_first() =~= os.drop_first().push(x));
        assert(os.push(x)[0] == os[0]);
        assert(successes(os.push(x)) =~= successes(os) + (match x.1 {
            Result::Ok(q) => seq![q],
            Result::Err(_) => Seq::<QueryResult>::empty(),
        }));
        assert(failures(os.push(x)) =~= failures(os) + (match x.1 {
            Result::Ok(_) => Seq::<(Backend, QueryError)>::empty(),
            Result::Err(e) => seq![(x.0, e)],
        }));
    }
}

/// One run's report: the ordered records of the backends that
/// answered, and the failures of those that did not.  One backend's
/// failure never costs another backend its record.
pub struct RunReport {
    pub results: Vec<QueryResult>,
    pub errors: Vec<(Backend, QueryError)>,
}

/// Aggregates one outcome per consulted backend, in the order the
/// backends were consulted: the succeeded queries' records, sorted
/// into the report order, and the failures kept aside in arrival
/// order.
pub fn query_all(outcomes: Vec<(Backend, Result<QueryResult, QueryError>)>) -> (r: RunReport)
    ensures
        r.results@ == sorted_spec(successes(outcomes@)),
        r.errors@ == failures(outcomes@),
{
    let ghost orig = outcomes@;
    let mut rest = outcomes;
    let mut res: Vec<QueryResult> = Vec::new();
    let mut errs: Vec<(Backend, QueryError)> = Vec::new();
    let ghost mut k: int = 0;
    proof {
        assert(orig.take(0) =~= Seq::<(Backend, Result<QueryResult, QueryError>)>::empty());
    }
    while rest.len() > 0
        invariant
            0 <= k <= orig.len(),
            rest@ == orig.skip(k),
            res@ == successes(orig.take(k)),
            errs@ == failures(orig.take(k)),
        decreases orig.len() - k,
    {
        let o = rest.remove(0);
        proof {
            assert(rest@ =~= orig.skip(k + 1));
            assert(o == orig[k]);
            lemma_successes_push(orig.take(k), orig[k]);
            assert(orig.take(k + 1) =~= orig.take(k).push(orig[k]));
        }
        let (b, outcome) = o;
        match outcome {
            Result::Ok(q) => {
                res.push(q);
                proof {
                    assert(res@ =~= successes(orig.take(k + 1)));
                    assert(errs@ =~= failures(orig.take(k + 1)));
                }
            },
            Result::Err(e) => {
                errs.push((b, e));
                proof {
                    assert(res@ =~= successes(orig.take(k + 1)));
                    assert(errs@ =~= failures(orig.take(k + 1)));
                }
            },
        }
        proof {
            k = k + 1;
        }
    }
    proof {
        assert(orig.take(k) =~= orig);
    }
    let results = sort_results(res);
    RunReport { results, errors: errs }
}

} // verus!
