use std::path::PathBuf;
use tsm::store::{
    check_threads_columns, cli_dir_from_vars, db_in_dir, is_busy_error, join_path, missing_db_message,
    no_db_message, parse_generation, pick_state_db, query_plan, resolve_cli_dir, QueryParam,
    BUSY_MESSAGE,
};

#[test]
fn cli_dir_prefers_traecli_home() {
    let dir = resolve_cli_dir(Some("/a/cli"), Some("/b"), "/home/u");
    assert_eq!(PathBuf::from(dir), PathBuf::from("/a/cli"));
}

#[test]
fn cli_dir_falls_back_to_trae_home_cli() {
    let dir = resolve_cli_dir(None, Some("/b"), "/home/u");
    assert_eq!(PathBuf::from(dir), PathBuf::from("/b/cli"));
}

#[test]
fn cli_dir_defaults_to_dot_trae_cli() {
    let dir = resolve_cli_dir(None, None, "/home/u");
    assert_eq!(PathBuf::from(dir), PathBuf::from("/home/u/.trae/cli"));
}

#[test]
fn empty_env_values_are_ignored() {
    let dir = resolve_cli_dir(Some(""), Some(""), "/home/u");
    assert_eq!(PathBuf::from(dir), PathBuf::from("/home/u/.trae/cli"));
}

#[test]
fn picks_highest_generation() {
    let names = vec![
        "state_5.sqlite".to_string(),
        "state_6.sqlite".to_string(),
        "state_10.sqlite".to_string(),
        "goals_1.sqlite".to_string(),
        "state_.sqlite".to_string(),
        "state_5.sqlite-wal".to_string(),
        "notes.txt".to_string(),
    ];
    assert_eq!(
        pick_state_db(&names),
        Some((10, "state_10.sqlite".to_string()))
    );
}

#[test]
fn no_state_db_returns_none() {
    let names = vec!["goals_1.sqlite".to_string(), "auth.json".to_string()];
    assert_eq!(pick_state_db(&names), None);
}

#[test]
fn parse_generation_rejects_non_digits() {
    assert_eq!(parse_generation("state_5.sqlite"), Some(5));
    assert_eq!(parse_generation("state_05.sqlite"), Some(5));
    assert_eq!(parse_generation("state_.sqlite"), None);
    assert_eq!(parse_generation("state_5x.sqlite"), None);
    assert_eq!(parse_generation("state_5.sqlite-shm"), None);
    assert_eq!(parse_generation("goals_1.sqlite"), None);
}

#[test]
fn parse_generation_rejects_overflow_and_signs() {
    assert_eq!(
        parse_generation("state_18446744073709551615.sqlite"),
        Some(u64::MAX)
    );
    assert_eq!(parse_generation("state_18446744073709551616.sqlite"), None);
    assert_eq!(parse_generation("state_+5.sqlite"), None);
}

#[test]
fn equal_generations_pick_the_last_listed() {
    let names = vec!["state_05.sqlite".to_string(), "state_5.sqlite".to_string()];
    assert_eq!(pick_state_db(&names), Some((5, "state_5.sqlite".to_string())));
    let names = vec!["state_5.sqlite".to_string(), "state_05.sqlite".to_string()];
    assert_eq!(pick_state_db(&names), Some((5, "state_05.sqlite".to_string())));
}

#[test]
fn join_adds_a_separator_only_when_needed() {
    assert_eq!(join_path("/b", "cli"), "/b/cli");
    assert_eq!(join_path("/b/", "cli"), "/b/cli");
    assert_eq!(join_path("", "cli"), "cli");
}

#[test]
fn no_db_message_names_the_directory() {
    assert_eq!(
        no_db_message("/x/cli"),
        "no traex state database found at /x/cli · set --db or $TRAE_HOME"
    );
}

#[test]
fn schema_check_reports_missing_columns() {
    let all: Vec<String> = [
        "id",
        "title",
        "first_user_message",
        "cwd",
        "source",
        "updated_at",
        "updated_at_ms",
        "archived",
        "archived_at",
        "git_branch",
        "model",
        "tokens_used",
        "extra",
    ]
    .iter()
    .map(|s| s.to_string())
    .collect();
    assert_eq!(check_threads_columns(&all, "/db"), Ok(()));
    assert_eq!(
        check_threads_columns(&vec![], "/db"),
        Err("unrecognized traex database schema at /db; tsm may be outdated".to_string())
    );
    let only_id = vec!["id".to_string()];
    let err = check_threads_columns(&only_id, "/db").unwrap_err();
    assert!(err.contains("unrecognized traex database schema"));
    assert_eq!(
        err,
        "unrecognized traex database schema (missing threads.title); tsm may be outdated"
    );
}

#[test]
fn busy_message_is_recognised() {
    assert!(is_busy_error(BUSY_MESSAGE));
    assert!(is_busy_error("traex database is busy · try again"));
    assert!(!is_busy_error("querying threads"));
}

#[test]
fn query_plan_binds_scope_and_band() {
    let (sql, params) = query_plan(Some("/proj"), true);
    assert!(sql.contains("WHERE cwd = ?1 AND archived = ?2"));
    assert!(sql.ends_with("ORDER BY updated_at_ms DESC"));
    assert!(matches!(&params[0], QueryParam::Text(t) if t == "/proj"));
    assert!(matches!(params[1], QueryParam::Integer(1)));
    let (sql, params) = query_plan(None, false);
    assert!(sql.contains("WHERE archived = ?1 AND source IN ('cli', 'vscode')"));
    assert_eq!(params.len(), 1);
    assert!(matches!(params[0], QueryParam::Integer(0)));
}

#[test]
fn db_in_dir_joins_the_highest_generation() {
    let names = vec![
        "state_5.sqlite".to_string(),
        "state_12.sqlite".to_string(),
        "notes.txt".to_string(),
    ];
    assert_eq!(
        db_in_dir("/home/u/.trae/cli", &names),
        Ok("/home/u/.trae/cli/state_12.sqlite".to_string())
    );
    assert_eq!(
        db_in_dir("/home/u/.trae/cli", &["auth.json".to_string()]),
        Err("no traex state database found at /home/u/.trae/cli · set --db or $TRAE_HOME".to_string())
    );
    assert_eq!(
        missing_db_message("/tmp/x.sqlite"),
        "no traex state database found at /tmp/x.sqlite"
    );
}

#[test]
fn cli_dir_from_vars_leaves_the_default_to_home() {
    assert_eq!(cli_dir_from_vars(Some("/a/cli"), Some("/b")), Some("/a/cli".to_string()));
    assert_eq!(cli_dir_from_vars(Some(""), Some("/b")), Some("/b/cli".to_string()));
    assert_eq!(cli_dir_from_vars(None, Some("")), None);
}
