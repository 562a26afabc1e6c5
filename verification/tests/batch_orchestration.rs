use seqfetch::batch::{expand_range, run_batch, snapshot, TaskOutcome};

#[test]
fn worklist_reduced_to_failures() {
    // tasks for 2 and 4 succeed, tasks for 1, 3, 5 do not
    let mut work_list = vec![1, 2, 3, 4, 5];
    let outcomes = vec![
        TaskOutcome::Failed,
        TaskOutcome::Succeeded(2),
        TaskOutcome::Failed,
        TaskOutcome::Succeeded(4),
        TaskOutcome::Failed,
    ];
    let (success, total) = run_batch(&mut work_list, &outcomes);
    assert_eq!(success, 2);
    assert_eq!(total, 5);
    assert_eq!(work_list, vec![1, 3, 5]);
}

#[test]
fn empty_batch_is_a_no_op() {
    let mut work_list: Vec<usize> = vec![];
    let outcomes: Vec<TaskOutcome> = vec![];
    let (success, total) = run_batch(&mut work_list, &outcomes);
    assert_eq!(success, 0);
    assert_eq!(total, 0);
    assert!(work_list.is_empty());
}

#[test]
fn internal_error_keeps_the_item() {
    let mut work_list = vec![7];
    let outcomes = vec![TaskOutcome::InternalError];
    let (success, total) = run_batch(&mut work_list, &outcomes);
    assert_eq!(success, 0);
    assert_eq!(total, 1);
    assert_eq!(work_list, vec![7]);
}

#[test]
fn success_for_unknown_item_still_counts() {
    let mut work_list = vec![1, 2];
    let outcomes = vec![TaskOutcome::Succeeded(9), TaskOutcome::Succeeded(2)];
    let (success, total) = run_batch(&mut work_list, &outcomes);
    assert_eq!(success, 2);
    assert_eq!(total, 2);
    assert_eq!(work_list, vec![1]);
}

#[test]
fn all_tasks_succeed_empties_the_list() {
    let mut work_list = vec![10, 11];
    let outcomes = vec![TaskOutcome::Succeeded(11), TaskOutcome::Succeeded(10)];
    let (success, total) = run_batch(&mut work_list, &outcomes);
    assert_eq!(success, 2);
    assert_eq!(total, 2);
    assert!(work_list.is_empty());
}

#[test]
fn snapshot_copies_the_list() {
    let work_list = vec![3, 1, 2];
    assert_eq!(snapshot(&work_list), vec![3, 1, 2]);
}

#[test]
fn expand_range_is_inclusive_and_ascending() {
    assert_eq!(expand_range(5, 8), vec![5, 6, 7, 8]);
    assert_eq!(expand_range(4, 4), vec![4]);
}
