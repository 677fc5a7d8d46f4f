use boss::aggregate::{query_all, quiet_outcome, sort_results, RunReport};
use boss::dispatch::{all_backends, installed_command, probe_command};
use boss::model::{Backend, QueryError, QueryResult, Status};

fn record(manager: Backend, package: &str, status: Status) -> QueryResult {
    match status {
        Status::NotFound => QueryResult::none(manager, package),
        _ => QueryResult::some(manager, package, status, "1.0", "", ""),
    }
}

#[test]
fn bucket_order_and_failure_isolation() {
    let outcomes = vec![
        (Backend::Snap, Ok(record(Backend::Snap, "foo", Status::Available))),
        (Backend::Apt, Ok(record(Backend::Apt, "foo", Status::Installed))),
        (Backend::Yay, Err(QueryError::SpawnFailure)),
        (Backend::Cargo, Ok(record(Backend::Cargo, "foo", Status::NotFound))),
    ];
    let RunReport { results, errors } = query_all(outcomes);
    assert_eq!(results.len(), 3);
    assert_eq!(results[0].manager, Backend::Apt);
    assert_eq!(results[0].status, Status::Installed);
    assert_eq!(results[1].manager, Backend::Snap);
    assert_eq!(results[1].status, Status::Available);
    assert_eq!(results[2].manager, Backend::Cargo);
    assert_eq!(results[2].status, Status::NotFound);
    assert_eq!(errors.len(), 1);
    assert_eq!(errors[0].0, Backend::Yay);
    assert_eq!(errors[0].1, QueryError::SpawnFailure);
}

#[test]
fn sort_keeps_arrival_order_within_buckets() {
    let results = vec![
        record(Backend::Snap, "a", Status::NotFound),
        record(Backend::Apt, "a", Status::Installed),
        record(Backend::Yay, "a", Status::Installed),
        record(Backend::Cargo, "a", Status::Available),
    ];
    let sorted = sort_results(results);
    assert_eq!(sorted[0].manager, Backend::Apt);
    assert_eq!(sorted[1].manager, Backend::Yay);
    assert_eq!(sorted[2].manager, Backend::Cargo);
    assert_eq!(sorted[3].manager, Backend::Snap);
}

#[test]
fn quiet_outcome_false_when_all_not_found() {
    let results = vec![
        record(Backend::Apt, "a", Status::NotFound),
        record(Backend::Snap, "a", Status::NotFound),
    ];
    assert!(!quiet_outcome(&results));
}

#[test]
fn quiet_outcome_true_with_any_hit() {
    let results = vec![
        record(Backend::Apt, "a", Status::NotFound),
        record(Backend::Snap, "a", Status::Available),
    ];
    assert!(quiet_outcome(&results));
}

#[test]
fn quiet_outcome_true_on_empty_set() {
    let results: Vec<QueryResult> = vec![];
    assert!(quiet_outcome(&results));
}

#[test]
fn active_set_order() {
    let bs = all_backends();
    assert_eq!(bs, vec![Backend::Snap, Backend::Apt, Backend::Yay, Backend::Cargo]);
}

#[test]
fn probe_commands_match_protocol_table() {
    let (prog, args) = probe_command(Backend::Apt, "foo");
    assert_eq!(prog, "apt");
    assert_eq!(args, vec!["show".to_string(), "foo".to_string()]);
    let (prog, args) = probe_command(Backend::Snap, "foo");
    assert_eq!(prog, "snap");
    assert_eq!(args, vec!["find".to_string(), "foo".to_string()]);
    let (prog, args) = probe_command(Backend::Yay, "foo");
    assert_eq!(prog, "yay");
    assert_eq!(args, vec!["-Ss".to_string(), "foo".to_string()]);
    let (prog, args) = probe_command(Backend::Cargo, "foo");
    assert_eq!(prog, "cargo");
    assert_eq!(args, vec!["search".to_string(), "foo".to_string()]);
}

#[test]
fn installed_commands_match_protocol_table() {
    let (prog, args) = installed_command(Backend::Apt).unwrap();
    assert_eq!(prog, "apt");
    assert_eq!(args, vec!["list".to_string(), "--installed".to_string()]);
    let (prog, args) = installed_command(Backend::Cargo).unwrap();
    assert_eq!(prog, "cargo");
    assert_eq!(args, vec!["install".to_string(), "--list".to_string()]);
    let (prog, args) = installed_command(Backend::Snap).unwrap();
    assert_eq!(prog, "snap");
    assert_eq!(args, vec!["list".to_string()]);
    assert!(installed_command(Backend::Yay).is_none());
    assert!(installed_command(Backend::Go).is_none());
}

#[test]
fn backend_names() {
    assert_eq!(Backend::Snap.name(), "snap");
    assert_eq!(Backend::Apt.name(), "apt");
    assert_eq!(Backend::Yay.name(), "yay");
    assert_eq!(Backend::Cargo.name(), "cargo");
    assert_eq!(Backend::Go.name(), "go");
}
