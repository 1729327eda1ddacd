use csvbench::partition::{chunk_size, partition, partition_for_machine};

fn paths(names: &[&str]) -> Vec<String> {
    names.iter().map(|n| n.to_string()).collect()
}

#[test]
fn chunk_size_is_ceiling_division() {
    assert_eq!(chunk_size(10, 4), 3);
    assert_eq!(chunk_size(12, 4), 3);
    assert_eq!(chunk_size(13, 4), 4);
    assert_eq!(chunk_size(3, 5), 1);
    assert_eq!(chunk_size(1, 8), 1);
    assert_eq!(chunk_size(0, 7), 0);
    assert_eq!(chunk_size(5, 1), 5);
}

#[test]
fn ten_files_four_workers() {
    let input = paths(&["f0", "f1", "f2", "f3", "f4", "f5", "f6", "f7", "f8", "f9"]);
    let chunks = partition(input.clone(), 4);
    assert_eq!(chunks.len(), 4);
    let sizes: Vec<usize> = chunks.iter().map(|c| c.len()).collect();
    assert_eq!(sizes, vec![3, 3, 3, 1]);
    let flat: Vec<String> = chunks.into_iter().flatten().collect();
    assert_eq!(flat, input);
}

#[test]
fn empty_list_gives_no_chunks() {
    let chunks = partition(Vec::new(), 3);
    assert_eq!(chunks.len(), 0);
}

#[test]
fn single_file_many_workers_gives_one_chunk_of_one() {
    let chunks = partition(paths(&["only.csv"]), 8);
    assert_eq!(chunks.len(), 1);
    assert_eq!(chunks[0], paths(&["only.csv"]));
}

#[test]
fn single_worker_gets_whole_list_in_order() {
    let input = paths(&["a.csv", "b.csv", "c.csv", "d.csv", "e.csv"]);
    let chunks = partition(input.clone(), 1);
    assert_eq!(chunks.len(), 1);
    assert_eq!(chunks[0], input);
}

#[test]
fn uneven_split_keeps_order_and_covers_all() {
    let input = paths(&[
        "p01", "p02", "p03", "p04", "p05", "p06", "p07", "p08", "p09", "p10", "p11", "p12", "p13",
        "p14", "p15", "p16", "p17", "p18", "p19",
    ]);
    let chunks = partition(input.clone(), 5);
    assert_eq!(chunks.len(), 5);
    let sizes: Vec<usize> = chunks.iter().map(|c| c.len()).collect();
    assert_eq!(sizes, vec![4, 4, 4, 4, 3]);
    for chunk in &chunks {
        assert!(!chunk.is_empty());
    }
    let flat: Vec<String> = chunks.into_iter().flatten().collect();
    assert_eq!(flat, input);
}

#[test]
fn more_workers_than_files_gives_one_chunk_per_file() {
    let input = paths(&["a.csv", "b.csv", "c.csv"]);
    let chunks = partition(input.clone(), 5);
    assert_eq!(chunks.len(), 3);
    for (i, chunk) in chunks.iter().enumerate() {
        assert_eq!(chunk.len(), 1);
        assert_eq!(chunk[0], input[i]);
    }
}

#[test]
fn machine_plan_covers_list_with_nonempty_chunks() {
    let input = paths(&["a.csv", "b.csv", "c.csv"]);
    let chunks = partition_for_machine(input.clone());
    assert!(chunks.len() >= 1);
    assert!(chunks.len() <= input.len());
    for chunk in &chunks {
        assert!(!chunk.is_empty());
    }
    let flat: Vec<String> = chunks.into_iter().flatten().collect();
    assert_eq!(flat, input);
}

#[test]
fn machine_plan_of_single_file_launches_one_worker() {
    let chunks = partition_for_machine(paths(&["only.csv"]));
    assert_eq!(chunks.len(), 1);
    assert_eq!(chunks[0], paths(&["only.csv"]));
}
