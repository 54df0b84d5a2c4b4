use tsm::mutate::{exit_outcome, extract_error, traex_args, worker_count, BatchJob, Op, POOL_SIZE};

#[test]
fn extract_error_prefers_stderr_line() {
    assert_eq!(
        extract_error(b"\nError: no rollout found\n", Some(1)),
        "Error: no rollout found"
    );
    assert_eq!(
        extract_error(b"", Some(2)),
        "Error: traex exited with status 2"
    );
    assert_eq!(
        extract_error(b"   ", None),
        "Error: traex terminated by signal"
    );
}

#[test]
fn op_verbs_and_subcommands() {
    assert_eq!(Op::Delete.subcommand(), "delete");
    assert_eq!(Op::Delete.progress_verb(), "Deleting");
    assert_eq!(Op::Delete.past_verb(), "Deleted");
    assert_eq!(Op::Archive.subcommand(), "archive");
    assert_eq!(Op::Unarchive.subcommand(), "unarchive");
}

#[test]
fn all_verbs() {
    assert_eq!(Op::Archive.progress_verb(), "Archiving");
    assert_eq!(Op::Archive.past_verb(), "Archived");
    assert_eq!(Op::Unarchive.progress_verb(), "Unarchiving");
    assert_eq!(Op::Unarchive.past_verb(), "Unarchived");
}

#[test]
fn extract_error_trims_and_decodes() {
    assert_eq!(
        extract_error(b"  \r\n\t warn: retry \r\nError: later\n", Some(1)),
        "warn: retry"
    );
    assert_eq!(extract_error(b"x\xffy\n", Some(1)), "x\u{fffd}y");
    assert_eq!(
        extract_error(b"\n\n", Some(-3)),
        "Error: traex exited with status -3"
    );
    assert_eq!(extract_error(b"last line no newline", None), "last line no newline");
}

#[test]
fn exit_outcome_judges_the_status() {
    assert_eq!(exit_outcome(true, b"Error: ignored", Some(0)), None);
    assert_eq!(
        exit_outcome(false, b"Error: boom\n", Some(1)),
        Some("Error: boom".to_string())
    );
}

#[test]
fn delete_carries_force() {
    assert_eq!(traex_args(Op::Delete, "u-1"), vec!["delete", "u-1", "--force"]);
    assert_eq!(traex_args(Op::Archive, "u-1"), vec!["archive", "u-1"]);
    assert_eq!(traex_args(Op::Unarchive, "u-2"), vec!["unarchive", "u-2"]);
}

#[test]
fn worker_count_is_bounded_by_the_pool() {
    assert_eq!(worker_count(0), 1);
    assert_eq!(worker_count(1), 1);
    assert_eq!(worker_count(3), 3);
    assert_eq!(worker_count(4), POOL_SIZE);
    assert_eq!(worker_count(100), POOL_SIZE);
}

#[test]
fn batch_job_holds_its_ids() {
    let job = BatchJob { op: Op::Delete, ids: vec!["a".to_string(), "b".to_string()] };
    assert_eq!(job.clone(), job);
}
