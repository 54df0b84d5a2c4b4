use tsm::app::{App, EmptyReason, Lifecycle, QueryRequest, Scope};
use tsm::cli::{handle_key, parse_db_flag, Key, KeyPress};
use tsm::store::Session;
use tsm::view::{
    empty_line, footer_status, header_labels, preview_fields, preview_id_width, preview_visible,
    row_cells, scope_lifecycle_label, session_column_width, trailing_column,
};

fn session(id: &str, cwd: &str, ms: i64, archived: bool) -> Session {
    Session {
        id: id.to_string(),
        title: id.to_string(),
        first_user_message: String::new(),
        cwd: cwd.to_string(),
        updated_at: ms / 1000,
        updated_at_ms: ms,
        archived,
        archived_at: if archived { Some(ms / 1000 + 50) } else { None },
        git_branch: None,
        model: None,
        tokens_used: 0,
    }
}

/// The `threads` rows the list is queried from: `active_in_proj` active rows
/// under `/proj`, one archived there, and one active and one archived elsewhere.
fn database(active_in_proj: usize) -> Vec<Session> {
    let mut rows: Vec<Session> = (0..active_in_proj)
        .map(|i| session(&format!("p{i}"), "/proj", i as i64 * 1000, false))
        .collect();
    rows.push(session("parch", "/proj", 900_000, true));
    rows.push(session("oact", "/elsewhere", 800_000, false));
    rows.push(session("oarch", "/elsewhere", 700_000, true));
    rows
}

/// Runs a query request against the rows, newest first.
fn run(db: &[Session], q: &QueryRequest) -> Vec<Session> {
    let mut rows: Vec<Session> = db
        .iter()
        .filter(|s| s.archived == q.archived)
        .filter(|s| q.scope_cwd.as_deref().map_or(true, |c| s.cwd == c))
        .cloned()
        .collect();
    rows.sort_by(|a, b| b.updated_at_ms.cmp(&a.updated_at_ms));
    rows
}

fn app_with(n: usize) -> (App, Vec<Session>) {
    let db = database(n);
    let first = QueryRequest { scope_cwd: Some("/proj".to_string()), archived: false };
    let rows = run(&db, &first);
    (App::new("/proj".to_string(), "/home/u".to_string(), rows), db)
}

fn toggle_scope(app: &mut App, db: &[Session]) {
    let q = app.toggle_scope();
    app.apply_query_result(Ok(run(db, &q)));
}

fn toggle_lifecycle(app: &mut App, db: &[Session]) {
    let q = app.toggle_lifecycle();
    app.apply_query_result(Ok(run(db, &q)));
}

#[test]
fn new_app_selects_first_row() {
    let (app, _) = app_with(3);
    assert_eq!(app.view, vec![0, 1, 2]);
    assert_eq!(app.table.selected(), Some(0));
    assert_eq!(app.scope, Scope::Project);
    assert_eq!(app.lifecycle, Lifecycle::Active);
}

#[test]
fn empty_app_selects_nothing() {
    let (app, _) = app_with(0);
    assert_eq!(app.table.selected(), None);
}

#[test]
fn cursor_moves_within_bounds() {
    let (mut app, _) = app_with(3);
    app.cursor_down();
    assert_eq!(app.table.selected(), Some(1));
    app.cursor_down();
    app.cursor_down(); // clamp at last
    assert_eq!(app.table.selected(), Some(2));
    app.cursor_up();
    assert_eq!(app.table.selected(), Some(1));
    app.cursor_up();
    app.cursor_up(); // clamp at first
    assert_eq!(app.table.selected(), Some(0));
}

#[test]
fn jump_to_first_and_last() {
    let (mut app, _) = app_with(5);
    app.cursor_last();
    assert_eq!(app.table.selected(), Some(4));
    app.cursor_first();
    assert_eq!(app.table.selected(), Some(0));
}

#[test]
fn navigation_on_empty_is_noop() {
    let (mut app, _) = app_with(0);
    app.cursor_down();
    app.cursor_up();
    app.cursor_first();
    app.cursor_last();
    assert_eq!(app.table.selected(), None);
}

#[test]
fn toggle_scope_requeries_all_projects() {
    let (mut app, db) = app_with(2);
    assert_eq!(app.all_rows.len(), 2);
    toggle_scope(&mut app, &db);
    assert_eq!(app.scope, Scope::All);
    assert_eq!(app.all_rows.len(), 3);
    assert!(app.all_rows.iter().any(|s| s.id == "oact"));
    assert_eq!(app.table.selected(), Some(0));
    toggle_scope(&mut app, &db);
    assert_eq!(app.scope, Scope::Project);
    assert_eq!(app.all_rows.len(), 2);
}

#[test]
fn toggle_lifecycle_requeries_archived() {
    let (mut app, db) = app_with(2);
    toggle_lifecycle(&mut app, &db);
    assert_eq!(app.lifecycle, Lifecycle::Archived);
    assert_eq!(app.all_rows.len(), 1);
    assert_eq!(app.all_rows[0].id, "parch");
    toggle_lifecycle(&mut app, &db);
    assert_eq!(app.lifecycle, Lifecycle::Active);
    assert_eq!(app.all_rows.len(), 2);
}

#[test]
fn scope_and_lifecycle_compose() {
    let (mut app, db) = app_with(2);
    toggle_scope(&mut app, &db);
    toggle_lifecycle(&mut app, &db);
    assert_eq!(app.all_rows.len(), 2);
    assert!(app.all_rows.iter().any(|s| s.id == "parch"));
    assert!(app.all_rows.iter().any(|s| s.id == "oarch"));
}

#[test]
fn cursor_stays_in_bounds_after_shrinking_requery() {
    let (mut app, db) = app_with(3);
    app.cursor_last();
    toggle_lifecycle(&mut app, &db);
    assert_eq!(app.table.selected(), Some(0));
    assert_eq!(app.table.offset(), 0);
}

#[test]
fn empty_reason_by_cause() {
    let (mut app, db) = app_with(0);
    assert_eq!(app.empty_reason(), EmptyReason::ProjectEmpty);
    toggle_lifecycle(&mut app, &db);
    assert_eq!(app.empty_reason(), EmptyReason::ArchivedEmpty);
    toggle_lifecycle(&mut app, &db);
    toggle_scope(&mut app, &db);
    assert_eq!(app.empty_reason(), EmptyReason::NoSessions);
}

#[test]
fn toggle_preview_flips_intent() {
    let (mut app, _) = app_with(1);
    assert!(app.show_preview);
    app.toggle_preview();
    assert!(!app.show_preview);
    app.toggle_preview();
    assert!(app.show_preview);
}

#[test]
fn selected_session_tracks_cursor() {
    let (mut app, _) = app_with(3);
    assert_eq!(app.selected_session().unwrap().id, "p2");
    app.cursor_last();
    assert_eq!(app.selected_session().unwrap().id, "p0");
}

#[test]
fn busy_requery_keeps_stale_rows() {
    let (mut app, _) = app_with(2);
    app.cursor_down();
    let q = app.toggle_scope();
    assert_eq!(q, QueryRequest { scope_cwd: None, archived: false });
    app.apply_query_result(Err("traex database is busy · try again".to_string()));
    assert_eq!(app.all_rows.len(), 2);
    assert_eq!(app.table.selected(), Some(1));
    assert_eq!(app.message.as_deref(), Some("traex database is busy · try again"));
    assert_eq!(footer_status(&app), "traex database is busy · try again");
}

#[test]
fn visible_sessions_follow_the_view() {
    let (app, _) = app_with(3);
    let ids: Vec<&str> = app.visible_sessions().iter().map(|s| s.id.as_str()).collect();
    assert_eq!(ids, vec!["p2", "p1", "p0"]);
}

#[test]
fn keys_drive_the_list() {
    let (mut app, db) = app_with(3);
    let press = |key| KeyPress { key, ctrl: false };
    assert_eq!(handle_key(&mut app, press(Key::Char('j'))), None);
    assert_eq!(app.table.selected(), Some(1));
    handle_key(&mut app, press(Key::Down));
    handle_key(&mut app, press(Key::Up));
    assert_eq!(app.table.selected(), Some(1));
    handle_key(&mut app, press(Key::Char('G')));
    assert_eq!(app.table.selected(), Some(2));
    handle_key(&mut app, press(Key::Char('g')));
    assert_eq!(app.table.selected(), Some(0));
    let q = handle_key(&mut app, press(Key::Char('p'))).unwrap();
    app.apply_query_result(Ok(run(&db, &q)));
    assert_eq!(app.scope, Scope::All);
    let q = handle_key(&mut app, press(Key::Tab)).unwrap();
    assert_eq!(q, QueryRequest { scope_cwd: None, archived: true });
    handle_key(&mut app, press(Key::Enter));
    assert!(!app.show_preview);
    handle_key(&mut app, press(Key::Char('c')));
    assert!(!app.should_quit);
    handle_key(&mut app, KeyPress { key: Key::Char('c'), ctrl: true });
    assert!(app.should_quit);
    let (mut app, _) = app_with(1);
    handle_key(&mut app, press(Key::Char('q')));
    assert!(app.should_quit);
}

#[test]
fn db_flag_forms() {
    let args = |v: &[&str]| v.iter().map(|s| s.to_string()).collect::<Vec<_>>();
    assert_eq!(parse_db_flag(&args(&[])), Ok(None));
    assert_eq!(parse_db_flag(&args(&["--db", "/x.sqlite"])), Ok(Some("/x.sqlite".to_string())));
    assert_eq!(parse_db_flag(&args(&["--db=/y"])), Ok(Some("/y".to_string())));
    assert_eq!(parse_db_flag(&args(&["--db=/y", "--db", "/z"])), Ok(Some("/z".to_string())));
    assert_eq!(
        parse_db_flag(&args(&["--db"])),
        Err("--db requires a path argument".to_string())
    );
    assert_eq!(parse_db_flag(&args(&["-v"])), Err("unknown argument: -v".to_string()));
}

#[test]
fn screen_texts() {
    let (mut app, db) = app_with(0);
    assert_eq!(scope_lifecycle_label(&app), "project · active");
    assert_eq!(empty_line(&app), "no sessions in this project · switch to all projects");
    assert_eq!(footer_status(&app), "no sessions in this project · switch to all projects");
    assert!(preview_visible(&app, 100));
    assert!(!preview_visible(&app, 99));
    assert_eq!(trailing_column(&app), Some(("tokens", 6)));
    assert_eq!(session_column_width(&app, 120), 120 - 38);
    toggle_scope(&mut app, &db);
    assert_eq!(scope_lifecycle_label(&app), "all · active");
    assert_eq!(trailing_column(&app), None);
    assert_eq!(session_column_width(&app, 120), 120 - 56);
    assert_eq!(footer_status(&app), "1 sessions");
    toggle_lifecycle(&mut app, &db);
    assert_eq!(scope_lifecycle_label(&app), "all · archived");
    assert_eq!(trailing_column(&app), Some(("archived", 11)));
    assert_eq!(session_column_width(&app, 20), 4);
    assert_eq!(preview_id_width(100), 94);
    assert_eq!(preview_id_width(3), 8);
}

#[test]
fn table_rows_follow_the_view() {
    let (mut app, db) = app_with(0);
    let mut s = session("x", "/a/very/long/project/directory/name", 1_609_556_640_000, false);
    s.title = "line one\nline two".to_string();
    s.model = Some("gpt-5-codex-extra-large".to_string());
    s.tokens_used = 442_123;
    assert_eq!(header_labels(&app), vec!["", "updated", "session", "model", "tokens"]);
    assert_eq!(
        row_cells(&app, &s, 12, 3600),
        vec!["▢", "01-02 04:04", "line one li…", "gpt-5-codex-ext…", "442k"]
    );
    toggle_scope(&mut app, &db);
    assert_eq!(header_labels(&app), vec!["", "updated", "cwd", "session", "model"]);
    assert_eq!(
        row_cells(&app, &s, 40, 0),
        vec![
            "▢",
            "01-02 03:04",
            "/a/very/long…ectory/name",
            "line one line two",
            "gpt-5-codex-ext…"
        ]
    );
    toggle_lifecycle(&mut app, &db);
    assert_eq!(
        header_labels(&app),
        vec!["", "updated", "cwd", "session", "model", "archived"]
    );
    s.archived_at = Some(1_609_556_640 + 86_400);
    assert_eq!(row_cells(&app, &s, 40, 0)[5], "01-03 03:04");
    s.archived_at = None;
    assert_eq!(row_cells(&app, &s, 40, 0)[5], "");
}

#[test]
fn preview_shows_the_session_fields() {
    let mut s = session("0197a6b2-8c3d-7e4f-9a0b-1c2d3e4f5a6b", "/proj", 0, false);
    s.first_user_message = "  fix the\tbuild  ".to_string();
    s.git_branch = Some("main".to_string());
    s.tokens_used = 4_300_000;
    let p = preview_fields(&s, 10);
    assert_eq!(p.title, s.id);
    assert_eq!(p.id, "0197a…5a6b");
    assert_eq!(p.git, "main");
    assert_eq!(p.model, "—");
    assert_eq!(p.tokens, "4.3M");
    assert_eq!(p.cwd, "/proj");
    assert_eq!(p.first, Some("fix the b…".to_string()));
    s.first_user_message = " \n ".to_string();
    assert_eq!(preview_fields(&s, 10).first, None);
}

#[test]
fn cwd_column_is_relative_to_home() {
    let (mut app, db) = app_with(0);
    toggle_scope(&mut app, &db);
    let s = session("x", "/home/u/work/tsm", 0, false);
    assert_eq!(row_cells(&app, &s, 20, 0)[2], "~/work/tsm");
    let s = session("x", "/home/u", 0, false);
    assert_eq!(row_cells(&app, &s, 20, 0)[2], "~");
    let s = session("x", "/home/user2/x", 0, false);
    assert_eq!(row_cells(&app, &s, 20, 0)[2], "/home/user2/x");
}

#[test]
fn every_run_keeps_the_cursor_on_a_row() {
    let (mut app, db) = app_with(3);
    let keys = [
        Key::Char('j'),
        Key::Char('G'),
        Key::Char('p'),
        Key::Tab,
        Key::Char('k'),
        Key::Tab,
        Key::Char('p'),
        Key::Enter,
        Key::Char('g'),
    ];
    for key in keys {
        if let Some(q) = handle_key(&mut app, KeyPress { key, ctrl: false }) {
            app.apply_query_result(Ok(run(&db, &q)));
        }
        assert_eq!(app.view, (0..app.all_rows.len()).collect::<Vec<_>>());
        assert_eq!(app.selected_session().is_some(), !app.view.is_empty());
        if let Some(i) = app.table.selected() {
            assert!(i < app.view.len());
        }
    }
    let (mut empty, db) = app_with(0);
    let q = empty.toggle_lifecycle();
    empty.apply_query_result(Ok(run(&db[..0], &q)));
    assert_eq!(empty.selected_session().is_some(), false);
    empty.cursor_down();
    assert_eq!(empty.table.selected(), None);
}
