use csvbench::aggregate::{accounted_for, aggregate};
use csvbench::work::{LoadOutcome, TimingResult};

fn loaded(item: &str, nanos: u64) -> TimingResult {
    TimingResult { item: item.to_string(), outcome: LoadOutcome::Loaded { nanos } }
}

fn failed(item: &str) -> TimingResult {
    TimingResult { item: item.to_string(), outcome: LoadOutcome::Failed }
}

fn paths(names: &[&str]) -> Vec<String> {
    names.iter().map(|n| n.to_string()).collect()
}

#[test]
fn aggregate_of_nothing_is_zero() {
    let agg = aggregate(&Vec::new());
    assert_eq!(agg.total_nanos, 0);
    assert_eq!(agg.succeeded, 0);
    assert_eq!(agg.failed, 0);
}

#[test]
fn aggregate_sums_durations_and_counts() {
    let results = vec![loaded("a.csv", 5), loaded("b.csv", 7), failed("c.csv")];
    let agg = aggregate(&results);
    assert_eq!(agg.total_nanos, 12);
    assert_eq!(agg.succeeded, 2);
    assert_eq!(agg.failed, 1);
}

#[test]
fn aggregate_counts_every_result() {
    let results = vec![
        loaded("a.csv", 1),
        failed("b.csv"),
        loaded("c.csv", 2),
        failed("d.csv"),
        loaded("e.csv", 4),
    ];
    let agg = aggregate(&results);
    assert_eq!(agg.succeeded + agg.failed, results.len());
    assert_eq!(agg.total_nanos, 7);
}

#[test]
fn aggregate_is_order_independent() {
    let one_order = vec![loaded("a.csv", 5), loaded("b.csv", 7), loaded("c.csv", 11)];
    let other_order = vec![loaded("c.csv", 11), loaded("a.csv", 5), loaded("b.csv", 7)];
    let first = aggregate(&one_order);
    let second = aggregate(&other_order);
    assert_eq!(first.total_nanos, second.total_nanos);
    assert_eq!(first.succeeded, second.succeeded);
    assert_eq!(first.failed, second.failed);
}

#[test]
fn accounting_accepts_results_in_any_order() {
    let dispatched = paths(&["a.csv", "b.csv", "c.csv"]);
    let collected = vec![loaded("b.csv", 2), loaded("c.csv", 3), loaded("a.csv", 1)];
    assert!(accounted_for(&dispatched, &collected));
}

#[test]
fn accounting_accepts_failure_markers() {
    let dispatched = paths(&["a.csv", "b.csv"]);
    let collected = vec![failed("b.csv"), loaded("a.csv", 9)];
    assert!(accounted_for(&dispatched, &collected));
}

#[test]
fn accounting_rejects_a_lost_result() {
    let dispatched = paths(&["a.csv", "b.csv", "c.csv"]);
    let collected = vec![loaded("a.csv", 1), loaded("b.csv", 2)];
    assert!(!accounted_for(&dispatched, &collected));
}

#[test]
fn accounting_rejects_a_duplicated_result() {
    let dispatched = paths(&["a.csv", "b.csv", "c.csv"]);
    let collected = vec![loaded("a.csv", 1), loaded("b.csv", 2), loaded("b.csv", 2)];
    assert!(!accounted_for(&dispatched, &collected));
}

#[test]
fn accounting_rejects_an_invented_identifier() {
    let dispatched = paths(&["a.csv", "b.csv"]);
    let collected = vec![loaded("a.csv", 1), loaded("z.csv", 2)];
    assert!(!accounted_for(&dispatched, &collected));
}

#[test]
fn accounting_of_empty_run_holds() {
    assert!(accounted_for(&Vec::new(), &Vec::new()));
}

#[test]
fn accounting_counts_repeated_identifiers_exactly() {
    let dispatched = paths(&["dup.csv", "dup.csv", "b.csv"]);
    let right = vec![loaded("b.csv", 1), loaded("dup.csv", 2), loaded("dup.csv", 3)];
    assert!(accounted_for(&dispatched, &right));
    let short = vec![loaded("b.csv", 1), loaded("dup.csv", 2)];
    assert!(!accounted_for(&dispatched, &short));
}
