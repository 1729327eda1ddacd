use csvbench::aggregate::accounted_for;
use csvbench::loader::{path_has_csv_extension, select_strategy, DataLoader, Strategy};
use csvbench::work::{execute_unit, LoadOutcome};

fn paths(names: &[&str]) -> Vec<String> {
    names.iter().map(|n| n.to_string()).collect()
}

#[test]
fn strategy_follows_the_two_switches() {
    assert_eq!(select_strategy(false, false), Strategy::Sequential);
    assert_eq!(select_strategy(false, true), Strategy::Sequential);
    assert_eq!(select_strategy(true, false), Strategy::Concurrent);
    assert_eq!(select_strategy(true, true), Strategy::Partitioned);
}

#[test]
fn csv_extension_is_recognised() {
    assert!(path_has_csv_extension(&"a.csv".to_string()));
    assert!(path_has_csv_extension(&"data/nested/table.csv".to_string()));
    assert!(path_has_csv_extension(&"dots..csv".to_string()));
    assert!(!path_has_csv_extension(&"a.txt".to_string()));
    assert!(!path_has_csv_extension(&"acsv".to_string()));
    assert!(!path_has_csv_extension(&".csv".to_string()));
    assert!(!path_has_csv_extension(&"dir/.csv".to_string()));
    assert!(!path_has_csv_extension(&"upper.CSV".to_string()));
    assert!(!path_has_csv_extension(&"".to_string()));
}

#[test]
fn filter_keeps_only_csv_entries_in_order() {
    let loader = DataLoader::new("data".to_string());
    let entries = paths(&[
        "data/a.csv",
        "data/readme.txt",
        "data/b.csv",
        "data/.csv",
        "data/notes.md",
        "data/c.csv",
    ]);
    let kept = loader.filter_csv_entries(entries);
    assert_eq!(kept, paths(&["data/a.csv", "data/b.csv", "data/c.csv"]));
}

#[test]
fn loader_remembers_its_folder() {
    let loader = DataLoader::new("some/folder".to_string());
    assert_eq!(loader.folder().as_str(), "some/folder");
}

#[test]
fn missing_file_yields_failure_marker_not_panic() {
    let result = execute_unit("no_such_directory/no_such_file.csv".to_string());
    assert_eq!(result.item, "no_such_directory/no_such_file.csv");
    assert_eq!(result.outcome, LoadOutcome::Failed);
}

#[test]
fn sequential_run_reports_every_file_in_list_order() {
    let loader = DataLoader::new("missing".to_string());
    let input = paths(&["missing/a.csv", "missing/b.csv", "missing/c.csv"]);
    let (results, agg) = loader.load_files_sequentially(input.clone());
    assert_eq!(results.len(), 3);
    for (i, r) in results.iter().enumerate() {
        assert_eq!(r.item, input[i]);
        assert_eq!(r.outcome, LoadOutcome::Failed);
    }
    assert_eq!(agg.succeeded, 0);
    assert_eq!(agg.failed, 3);
    assert_eq!(agg.total_nanos, 0);
    assert!(accounted_for(&input, &results));
}

#[test]
fn sequential_run_of_empty_list_reports_nothing() {
    let loader = DataLoader::new("anywhere".to_string());
    let (results, agg) = loader.load_files_sequentially(Vec::new());
    assert_eq!(results.len(), 0);
    assert_eq!(agg.total_nanos, 0);
    assert_eq!(agg.succeeded, 0);
    assert_eq!(agg.failed, 0);
}
