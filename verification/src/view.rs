//! What the screen shows, short of drawing it: the title-bar label, the
//! preview panel's visibility, the footer's status text, the empty-state
//! guidance and the layout of the table's columns.

use crate::app::{App, EmptyReason, Lifecycle, Scope};
use crate::format::{
    cwd_relative_home, format_tokens, format_updated_with_offset, middle_truncated, relative_home,
    session_display, session_text, stamp_text, tokens_text, truncate_display, truncate_middle,
    truncated,
};
use crate::store::Session;
use crate::text::{
    all_whitespace, append_chars, chars_of, decimal_text, is_blank, string_from_chars,
    u64_to_chars,
};
use vstd::prelude::*;

verus! {

/// Terminal columns below which the preview panel hides itself.
pub const PREVIEW_MIN_WIDTH: u16 = 100;

/// Height of the bottom preview panel when shown.
pub const PREVIEW_HEIGHT: u16 = 8;

/// Width of the checkbox column.
pub const W_CHECK: u16 = 1;

/// Width of the `updated` column (`MM-DD HH:MM`).
pub const W_UPDATED: u16 = 11;

/// Width of the `model` column.
pub const W_MODEL: u16 = 16;

/// Width of the `tokens` column.
pub const W_TOKENS: u16 = 6;

/// Width of the `archived` column (`MM-DD HH:MM`).
pub const W_ARCHIVED_AT: u16 = 11;

/// Width of the `cwd` column of the All view.
pub const W_CWD: u16 = 24;

/// Whether the preview panel is shown: the user wants it and the terminal is
/// at least `PREVIEW_MIN_WIDTH` columns wide.
pub fn preview_visible(app: &App, width: u16) -> (r: bool)
    ensures
        r == (app.show_preview && width >= 100),
{
    app.show_preview && width >= PREVIEW_MIN_WIDTH
}

/// The `scope · lifecycle` label of the title bar.
pub open spec fn label_text(scope: Scope, lifecycle: Lifecycle) -> Seq<char> {
    (match scope {
        Scope::Project => "project"@,
        Scope::All => "all"@,
    }) + " · "@ + (match lifecycle {
        Lifecycle::Active => "active"@,
        Lifecycle::Archived => "archived"@,
    })
}

/// The `scope · lifecycle` label of the title bar.
pub fn scope_lifecycle_label(app: &App) -> (r: String)
    ensures
        r@ == label_text(app.scope, app.lifecycle),
{
    let scope = match app.scope {
        Scope::Project => "project",
        Scope::All => "all",
    };
    let lifecycle = match app.lifecycle {
        Lifecycle::Active => "active",
        Lifecycle::Archived => "archived",
    };
    crate::text::concat3(scope, " · ", lifecycle)
}

/// The guidance line of an empty view, by cause.
pub open spec fn empty_text(reason: EmptyReason) -> Seq<char> {
    match reason {
        EmptyReason::ProjectEmpty => "no sessions in this project · switch to all projects"@,
        EmptyReason::ArchivedEmpty => "no archived sessions in this scope · switch lifecycle back to active"@,
        EmptyReason::NoSessions => "no sessions"@,
    }
}

/// The empty-state guidance line for the current cause.
pub fn empty_line(app: &App) -> (r: String)
    ensures
        r@ == empty_text(
            match (app.scope, app.lifecycle) {
                (_, Lifecycle::Archived) => EmptyReason::ArchivedEmpty,
                (Scope::Project, Lifecycle::Active) => EmptyReason::ProjectEmpty,
                (Scope::All, Lifecycle::Active) => EmptyReason::NoSessions,
            },
        ),
{
    match app.empty_reason() {
        EmptyReason::ProjectEmpty => String::from_str(
            "no sessions in this project · switch to all projects",
        ),
        EmptyReason::ArchivedEmpty => String::from_str(
            "no archived sessions in this scope · switch lifecycle back to active",
        ),
        EmptyReason::NoSessions => String::from_str("no sessions"),
    }
}

/// The left part of the footer: a transient message wins; then, on an empty
/// view, the guidance; otherwise the number of sessions on screen.
pub fn footer_status(app: &App) -> (r: String)
    ensures
        match app.message {
            Some(m) => r@ == m@,
            None => if app.view@.len() == 0 {
                r@ == empty_text(
                    match (app.scope, app.lifecycle) {
                        (_, Lifecycle::Archived) => EmptyReason::ArchivedEmpty,
                        (Scope::Project, Lifecycle::Active) => EmptyReason::ProjectEmpty,
                        (Scope::All, Lifecycle::Active) => EmptyReason::NoSessions,
                    },
                )
            } else {
                r@ == decimal_text(app.view@.len() as nat) + " sessions"@
            },
        },
{
    match &app.message {
        Some(m) => m.clone(),
        None => {
            if app.view.len() == 0 {
                empty_line(app)
            } else {
                let mut v = u64_to_chars(app.view.len() as u64);
                append_chars(&mut v, &chars_of(" sessions"));
                string_from_chars(&v)
            }
        },
    }
}

/// The trailing metadata column of the table, as `(header, width)`: the
/// archive time in the Archived view, none in the All · Active view, the
/// token count otherwise.
pub fn trailing_column(app: &App) -> (r: Option<(&'static str, u16)>)
    ensures
        match r {
            Some((label, w)) => if app.lifecycle == Lifecycle::Archived {
                label@ == "archived"@ && w == W_ARCHIVED_AT
            } else {
                app.scope == Scope::Project && label@ == "tokens"@ && w == W_TOKENS
            },
            None => app.lifecycle == Lifecycle::Active && app.scope == Scope::All,
        },
{
    if app.lifecycle == Lifecycle::Archived {
        Some(("archived", W_ARCHIVED_AT))
    } else if app.scope == Scope::All {
        None
    } else {
        Some(("tokens", W_TOKENS))
    }
}

/// Width left to the `session` column of a table `area_width` columns wide:
/// what the fixed columns (checkbox, updated, model, the `cwd` column of the
/// All view and the trailing column) and one column of spacing between
/// columns leave, and at least 4.
pub fn session_column_width(app: &App, area_width: u16) -> (r: usize)
    ensures
        ({
            let all_view = app.scope == Scope::All;
            let trailing = if app.lifecycle == Lifecycle::Archived {
                11int
            } else if all_view {
                0int
            } else {
                6int
            };
            let n_cols = 3 + (if all_view {
                1int
            } else {
                0int
            }) + (if trailing > 0 {
                1int
            } else {
                0int
            });
            let fixed = 29 + (if all_view {
                24int
            } else {
                0int
            }) + trailing + n_cols - 1;
            r == (if area_width - fixed > 4 {
                area_width - fixed
            } else {
                4
            })
        }),
{
    let all_view = app.scope == Scope::All;
    let trailing = trailing_column(app);
    let mut fixed: u16 = W_CHECK + W_UPDATED + W_MODEL + 1;
    if all_view {
        fixed = fixed + W_CWD;
    }
    let mut n_cols: u16 = 3;
    if all_view {
        n_cols = n_cols + 1;
    }
    if let Some((_, w)) = trailing {
        fixed = fixed + w;
        n_cols = n_cols + 1;
    }
    fixed = fixed + (n_cols - 1);
    let left: u16 = if area_width > fixed {
        area_width - fixed
    } else {
        0
    };
    if left > 4 {
        left as usize
    } else {
        4
    }
}

/// The header labels of the table's columns: the checkbox, `updated`, `cwd`
/// in the All view, `session`, `model`, then the trailing column's label.
pub open spec fn header_texts(scope: Scope, lifecycle: Lifecycle) -> Seq<Seq<char>> {
    let lead = seq![""@, "updated"@];
    let with_cwd = if scope == Scope::All {
        lead.push("cwd"@)
    } else {
        lead
    };
    let cols = with_cwd.push("session"@).push("model"@);
    if lifecycle == Lifecycle::Archived {
        cols.push("archived"@)
    } else if scope == Scope::Project {
        cols.push("tokens"@)
    } else {
        cols
    }
}

/// The texts of a sequence of strings.
pub open spec fn texts(v: Seq<String>) -> Seq<Seq<char>> {
    v.map_values(|c: String| c@)
}

proof fn lemma_texts_push(v: Seq<String>, x: String)
    ensures
        texts(v.push(x)) == texts(v).push(x@),
{
    assert(texts(v.push(x)) =~= texts(v).push(x@));
}

/// Appends `x` to `r`, whose texts grow by the text of `x`.
fn push_cell(r: &mut Vec<String>, x: String)
    ensures
        final(r)@ == old(r)@.push(x),
        texts(final(r)@) == texts(old(r)@).push(x@),
{
    proof {
        lemma_texts_push(r@, x);
    }
    r.push(x);
}

/// The header row of the table.
pub fn header_labels(app: &App) -> (r: Vec<String>)
    ensures
        texts(r@) == header_texts(app.scope, app.lifecycle),
{
    proof {
        reveal_strlit("");
    }
    let mut r: Vec<String> = Vec::new();
    assert(texts(r@) =~= Seq::<Seq<char>>::empty());
    push_cell(&mut r, String::new());
    assert(texts(r@) =~= seq![Seq::<char>::empty()]);
    assert(""@ =~= Seq::<char>::empty());
    push_cell(&mut r, String::from_str("updated"));
    assert(texts(r@) =~= seq![""@, "updated"@]);
    if app.scope == Scope::All {
        push_cell(&mut r, String::from_str("cwd"));
    }
    push_cell(&mut r, String::from_str("session"));
    push_cell(&mut r, String::from_str("model"));
    match trailing_column(app) {
        Some((label, _)) => push_cell(&mut r, String::from_str(label)),
        None => {},
    }
    assert(texts(r@) =~= header_texts(app.scope, app.lifecycle));
    r
}

/// What a `model` or `git` field shows: its value, else `fallback`.
pub open spec fn or_text(v: Option<String>, fallback: Seq<char>) -> Seq<char> {
    match v {
        Some(m) => m@,
        None => fallback,
    }
}

/// The cells of the table row of `s`, in the order of `header_texts`, when
/// the session column is `session_w` wide, the home directory is `home` and
/// local time is `offset_secs` from UTC: an empty checkbox, the update time,
/// the cwd relative to `home` and cut in the middle (All view), the session
/// text, the model, then the archive time (Archived view, empty when unset) or
/// the token count (Project · Active view).
pub open spec fn row_texts(
    scope: Scope,
    lifecycle: Lifecycle,
    home: Seq<char>,
    s: Session,
    session_w: int,
    offset_secs: int,
) -> Seq<Seq<char>> {
    let lead = seq!["▢"@, stamp_text(s.updated_at + offset_secs)];
    let with_cwd = if scope == Scope::All {
        lead.push(middle_truncated(relative_home(s.cwd@, home), 24))
    } else {
        lead
    };
    let cols = with_cwd.push(truncated(session_text(s.title@, s.first_user_message@), session_w)).push(
        truncated(or_text(s.model, ""@), 16),
    );
    if lifecycle == Lifecycle::Archived {
        cols.push(
            match s.archived_at {
                Some(a) => stamp_text(a + offset_secs),
                None => ""@,
            },
        )
    } else if scope == Scope::Project {
        cols.push(tokens_text(s.tokens_used as int))
    } else {
        cols
    }
}

/// The cells of the table row of `s` (see `row_texts`).
pub fn row_cells(app: &App, s: &Session, session_w: usize, offset_secs: i64) -> (r: Vec<String>)
    requires
        i64::MIN <= s.updated_at + offset_secs <= i64::MAX,
        app.lifecycle == Lifecycle::Archived ==> (s.archived_at matches Some(a) ==> i64::MIN <= a
            + offset_secs <= i64::MAX),
    ensures
        texts(r@) == row_texts(
            app.scope,
            app.lifecycle,
            app.home@,
            *s,
            session_w as int,
            offset_secs as int,
        ),
{
    proof {
        reveal_strlit("");
    }
    let mut r: Vec<String> = Vec::new();
    assert(texts(r@) =~= Seq::<Seq<char>>::empty());
    push_cell(&mut r, String::from_str("▢"));
    push_cell(&mut r, format_updated_with_offset(s.updated_at, offset_secs));
    let ghost lead = seq!["▢"@, stamp_text(s.updated_at + offset_secs)];
    assert(texts(r@) =~= lead);
    if app.scope == Scope::All {
        let rel = cwd_relative_home(s.cwd.as_str(), app.home.as_str());
        push_cell(&mut r, truncate_middle(rel.as_str(), W_CWD as usize));
    }
    let ghost with_cwd = if app.scope == Scope::All {
        lead.push(middle_truncated(relative_home(s.cwd@, app.home@), 24))
    } else {
        lead
    };
    assert(texts(r@) =~= with_cwd);
    let shown = session_display(s.title.as_str(), s.first_user_message.as_str());
    push_cell(&mut r, truncate_display(shown.as_str(), session_w));
    let model = match &s.model {
        Some(m) => m.as_str(),
        None => "",
    };
    push_cell(&mut r, truncate_display(model, W_MODEL as usize));
    assert(texts(r@) =~= with_cwd.push(
        truncated(session_text(s.title@, s.first_user_message@), session_w as int),
    ).push(truncated(or_text(s.model, ""@), 16)));
    let ghost cols = texts(r@);
    if app.lifecycle == Lifecycle::Archived {
        match s.archived_at {
            Some(a) => {
                push_cell(&mut r, format_updated_with_offset(a, offset_secs));
                assert(texts(r@) == cols.push(stamp_text(a + offset_secs)));
            },
            None => {
                push_cell(&mut r, String::new());
                assert(""@ =~= Seq::<char>::empty());
                assert(texts(r@) == cols.push(""@));
            },
        }
    } else if app.scope == Scope::Project {
        push_cell(&mut r, format_tokens(s.tokens_used));
        assert(texts(r@) == cols.push(tokens_text(s.tokens_used as int)));
    }
    assert(texts(r@) =~= row_texts(
        app.scope,
        app.lifecycle,
        app.home@,
        *s,
        session_w as int,
        offset_secs as int,
    ));
    r
}

/// A row has one cell per header, in the header's order. The first cells are
/// the checkbox and the update time; the last is, in the Archived lifecycle
/// whatever the scope, the archive time (empty when unset) under `archived`;
/// in Project · Active the token count under `tokens`; in All · Active the
/// model under `model`. In the All view the third cell is the cwd under `cwd`.
pub proof fn lemma_row_matches_header(
    scope: Scope,
    lifecycle: Lifecycle,
    home: Seq<char>,
    s: Session,
    session_w: int,
    offset_secs: int,
)
    ensures
        ({
            let row = row_texts(scope, lifecycle, home, s, session_w, offset_secs);
            let head = header_texts(scope, lifecycle);
            &&& row.len() == head.len()
            &&& head[0] == ""@ && row[0] == "▢"@
            &&& head[1] == "updated"@ && row[1] == stamp_text(s.updated_at + offset_secs)
            &&& scope == Scope::All ==> head[2] == "cwd"@ && row[2] == middle_truncated(
                relative_home(s.cwd@, home),
                24,
            )
            &&& lifecycle == Lifecycle::Archived ==> {
                &&& head.last() == "archived"@
                &&& row.last() == match s.archived_at {
                    Some(a) => stamp_text(a + offset_secs),
                    None => ""@,
                }
            }
            &&& lifecycle == Lifecycle::Active && scope == Scope::Project ==> {
                &&& head.last() == "tokens"@
                &&& row.last() == tokens_text(s.tokens_used as int)
            }
            &&& lifecycle == Lifecycle::Active && scope == Scope::All ==> {
                &&& head.last() == "model"@
                &&& row.last() == truncated(or_text(s.model, ""@), 16)
            }
        }),
{
}

/// What the preview panel shows of a session.
#[derive(Debug, Clone, PartialEq, Eq)]
pub struct PreviewFields {
    /// The session text, in full.
    pub title: String,
    /// The id, cut in the middle to the id width.
    pub id: String,
    /// The git branch, or `—`.
    pub git: String,
    /// The model, or `—`.
    pub model: String,
    /// The token count.
    pub tokens: String,
    /// The working directory, in full.
    pub cwd: String,
    /// The first user message on one line, truncated to the id width; `None`
    /// when it is blank.
    pub first: Option<String>,
}

/// The fields of the preview panel for `s`, whose id line is `id_w` wide.
pub fn preview_fields(s: &Session, id_w: usize) -> (r: PreviewFields)
    ensures
        r.title@ == session_text(s.title@, s.first_user_message@),
        r.id@ == middle_truncated(s.id@, id_w as int),
        r.git@ == or_text(s.git_branch, "—"@),
        r.model@ == or_text(s.model, "—"@),
        r.tokens@ == tokens_text(s.tokens_used as int),
        r.cwd@ == s.cwd@,
        match r.first {
            Some(f) => !is_blank(s.first_user_message@) && f@ == truncated(
                session_text(""@, s.first_user_message@),
                id_w as int,
            ),
            None => is_blank(s.first_user_message@),
        },
{
    let git = match &s.git_branch {
        Some(g) => g.clone(),
        None => String::from_str("—"),
    };
    let model = match &s.model {
        Some(m) => m.clone(),
        None => String::from_str("—"),
    };
    let first = if all_whitespace(&chars_of(s.first_user_message.as_str())) {
        None
    } else {
        let one_line = session_display("", s.first_user_message.as_str());
        Some(truncate_display(one_line.as_str(), id_w))
    };
    PreviewFields {
        title: session_display(s.title.as_str(), s.first_user_message.as_str()),
        id: truncate_middle(s.id.as_str(), id_w),
        git,
        model,
        tokens: format_tokens(s.tokens_used),
        cwd: s.cwd.clone(),
        first,
    }
}

/// Width of the id line of the preview panel, for a panel `inner_width` wide.
pub fn preview_id_width(inner_width: u16) -> (r: usize)
    ensures
        r == (if inner_width >= 14 {
            inner_width - 6
        } else {
            8
        }),
{
    let w = inner_width as usize;
    if w >= 6 && w - 6 > 8 {
        w - 6
    } else {
        8
    }
}

} // verus!
