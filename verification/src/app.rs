//! The in-memory state machine behind the session list: the Scope and
//! Lifecycle filters, the preview toggle and the cursor over the visible rows.
//! Re-querying the database is an action that this state machine asks for; the
//! caller runs the query and hands the result back.

use crate::store::Session;
use vstd::prelude::*;

verus! {

/// Project range of the list. Two-state toggle.
#[derive(Debug, Clone, Copy, PartialEq, Eq, Structural)]
pub enum Scope {
    /// `threads.cwd` byte-exactly equals the launch directory.
    Project,
    /// All projects; the list gains a `cwd` column.
    All,
}

/// Active/archived band of the list. Strictly two-state.
#[derive(Debug, Clone, Copy, PartialEq, Eq, Structural)]
pub enum Lifecycle {
    /// `archived = 0`.
    Active,
    /// `archived = 1`.
    Archived,
}

/// Why the current view has no rows, so that the guidance fits.
#[derive(Debug, Clone, Copy, PartialEq, Eq, Structural)]
pub enum EmptyReason {
    /// Scope=Project, Active, nothing here: offer switching to all projects.
    ProjectEmpty,
    /// Lifecycle=Archived, nothing archived in this scope.
    ArchivedEmpty,
    /// Scope=All, Active, and genuinely no sessions at all.
    NoSessions,
}

/// The other scope.
pub open spec fn other_scope(s: Scope) -> Scope {
    match s {
        Scope::Project => Scope::All,
        Scope::All => Scope::Project,
    }
}

/// The other lifecycle band.
pub open spec fn other_lifecycle(l: Lifecycle) -> Lifecycle {
    match l {
        Lifecycle::Active => Lifecycle::Archived,
        Lifecycle::Archived => Lifecycle::Active,
    }
}

/// Toggling the scope twice, or the lifecycle twice, comes back to where it started.
pub proof fn lemma_toggles_are_involutions(s: Scope, l: Lifecycle)
    ensures
        other_scope(other_scope(s)) == s,
        other_scope(s) != s,
        other_lifecycle(other_lifecycle(l)) == l,
        other_lifecycle(l) != l,
{
}

/// The cursor and scroll position of the table: the row under the cursor and
/// the first row on screen.
#[derive(Debug, Clone, Copy, PartialEq, Eq, Structural)]
pub struct TableCursor {
    selected: Option<usize>,
    offset: usize,
}

impl TableCursor {
    /// The row under the cursor, if any.
    pub closed spec fn selected_spec(&self) -> Option<usize> {
        self.selected
    }

    /// The first row on screen.
    pub closed spec fn offset_spec(&self) -> usize {
        self.offset
    }

    /// No row selected, scrolled to the top.
    pub fn new() -> (r: TableCursor)
        ensures
            r.selected_spec() is None,
            r.offset_spec() == 0,
    {
        TableCursor { selected: None, offset: 0 }
    }

    /// A cursor on `selected`, scrolled to `offset`.
    pub fn with(selected: Option<usize>, offset: usize) -> (r: TableCursor)
        ensures
            r.selected_spec() == selected,
            r.offset_spec() == offset,
    {
        TableCursor { selected, offset }
    }

    /// Index of the selected row.
    pub fn selected(&self) -> (r: Option<usize>)
        ensures
            r == self.selected_spec(),
    {
        self.selected
    }

    /// Index of the first row to be displayed.
    pub fn offset(&self) -> (r: usize)
        ensures
            r == self.offset_spec(),
    {
        self.offset
    }

    /// Scrolls to `offset`.
    pub fn set_offset(&mut self, offset: usize)
        ensures
            final(self).selected_spec() == old(self).selected_spec(),
            final(self).offset_spec() == offset,
    {
        self.offset = offset;
    }

    /// Selects `index`; deselecting also scrolls back to the top.
    pub fn select(&mut self, index: Option<usize>)
        ensures
            final(self).selected_spec() == index,
            final(self).offset_spec() == (if index is None {
                0
            } else {
                old(self).offset_spec()
            }),
    {
        self.selected = index;
        if index.is_none() {
            self.offset = 0;
        }
    }
}

/// The database query that the current scope and lifecycle call for:
/// `scope_cwd` is the project to stay in (`None`: every project).
#[derive(Debug, Clone, PartialEq, Eq)]
pub struct QueryRequest {
    pub scope_cwd: Option<String>,
    pub archived: bool,
}

/// Application state of the list.
pub struct App {
    /// Last query result: the authoritative snapshot.
    pub all_rows: Vec<Session>,
    /// Indices into `all_rows`, in render order.
    pub view: Vec<usize>,
    /// Cursor and scroll position over `view`.
    pub table: TableCursor,
    /// tsm's launch directory; the Scope=Project match key.
    pub cwd: String,
    /// `$HOME`, used only to render `cwd` relative to `~`.
    pub home: String,
    /// Project range.
    pub scope: Scope,
    /// Lifecycle band.
    pub lifecycle: Lifecycle,
    /// The user's preview-panel intent.
    pub show_preview: bool,
    /// Transient footer message (a busy re-query that kept stale rows).
    pub message: Option<String>,
    /// Set once `q` / `Ctrl-c` is pressed.
    pub should_quit: bool,
}

impl App {
    /// Every index of `view` points into `all_rows`.
    pub open spec fn view_in_bounds(&self) -> bool {
        forall|i: int| 0 <= i < self.view@.len() ==> #[trigger] self.view@[i] < self.all_rows@.len()
    }

    /// The cursor is on a visible row, and there is one exactly when the view is not empty.
    pub open spec fn cursor_in_bounds(&self) -> bool {
        match self.table.selected_spec() {
            None => self.view@.len() == 0,
            Some(i) => i < self.view@.len(),
        }
    }

    /// The state is consistent: view and cursor both in bounds.
    pub open spec fn wf(&self) -> bool {
        self.view_in_bounds() && self.cursor_in_bounds()
    }

    /// The identity view over `n` rows.
    pub open spec fn identity_view(v: Seq<usize>, n: int) -> bool {
        v.len() == n && forall|i: int| 0 <= i < n ==> #[trigger] v[i] == i
    }

    /// Where a clamped cursor lands for an old selection over `len` rows.
    pub open spec fn clamped(old_selected: Option<usize>, len: int) -> Option<usize> {
        if len == 0 {
            None
        } else {
            let i = match old_selected {
                Some(i) => i as int,
                None => 0,
            };
            Some((if i < len - 1 {
                i
            } else {
                len - 1
            }) as usize)
        }
    }

    /// Ensures the cursor points at a valid row, or at none when the view is empty.
    fn clamp_cursor(&mut self)
        ensures
            final(self).table.selected_spec() == Self::clamped(
                old(self).table.selected_spec(),
                old(self).view@.len() as int,
            ),
            final(self).table.offset_spec() == (if old(self).view@.len() == 0 {
                0
            } else {
                old(self).table.offset_spec()
            }),
            final(self).view == old(self).view,
            final(self).all_rows == old(self).all_rows,
            final(self).cwd == old(self).cwd,
            final(self).home == old(self).home,
            final(self).scope == old(self).scope,
            final(self).lifecycle == old(self).lifecycle,
            final(self).show_preview == old(self).show_preview,
            final(self).message == old(self).message,
            final(self).should_quit == old(self).should_quit,
    {
        if self.view.len() == 0 {
            self.table.select(None);
        } else {
            let cur = match self.table.selected() {
                Some(i) => i,
                None => 0,
            };
            let last = self.view.len() - 1;
            let idx = if cur < last {
                cur
            } else {
                last
            };
            self.table.select(Some(idx));
        }
    }

    /// Recomputes `view` from `all_rows`: the identity mapping over the
    /// (already sorted) query result; the cursor is clamped into it.
    pub fn rebuild_view(&mut self)
        ensures
            old(self).view_rebuilt(&*final(self)),
            Self::identity_view(final(self).view@, old(self).all_rows@.len() as int),
            final(self).table.selected_spec() == Self::clamped(
                old(self).table.selected_spec(),
                old(self).all_rows@.len() as int,
            ),
            final(self).table.offset_spec() == (if old(self).all_rows@.len() == 0 {
                0
            } else {
                old(self).table.offset_spec()
            }),
            final(self).wf(),
            final(self).all_rows == old(self).all_rows,
            final(self).cwd == old(self).cwd,
            final(self).home == old(self).home,
            final(self).scope == old(self).scope,
            final(self).lifecycle == old(self).lifecycle,
            final(self).show_preview == old(self).show_preview,
            final(self).message == old(self).message,
            final(self).should_quit == old(self).should_quit,
    {
        let n = self.all_rows.len();
        let mut view: Vec<usize> = Vec::new();
        let mut i: usize = 0;
        while i < n
            invariant
                i <= n,
                Self::identity_view(view@, i as int),
            decreases n - i,
        {
            view.push(i);
            i += 1;
        }
        self.view = view;
        self.clamp_cursor();
    }

    /// `self` and `other` agree on everything but the cursor.
    pub open spec fn same_but_cursor(&self, other: &App) -> bool {
        &&& self.all_rows == other.all_rows
        &&& self.view == other.view
        &&& self.cwd == other.cwd
        &&& self.home == other.home
        &&& self.scope == other.scope
        &&& self.lifecycle == other.lifecycle
        &&& self.show_preview == other.show_preview
        &&& self.message == other.message
        &&& self.should_quit == other.should_quit
    }

    /// `new` is `self` after `cursor_down`.
    pub open spec fn moved_down(&self, new: &App) -> bool {
        &&& new.same_but_cursor(self)
        &&& new.table.offset_spec() == self.table.offset_spec()
        &&& new.table.selected_spec() == (if self.view@.len() == 0 {
            self.table.selected_spec()
        } else {
            match self.table.selected_spec() {
                Some(i) => if i + 1 < self.view@.len() {
                    Some((i + 1) as usize)
                } else {
                    Some(i)
                },
                None => Some(0usize),
            }
        })
    }

    /// `new` is `self` after `cursor_up`.
    pub open spec fn moved_up(&self, new: &App) -> bool {
        &&& new.same_but_cursor(self)
        &&& new.table.offset_spec() == self.table.offset_spec()
        &&& new.table.selected_spec() == (if self.view@.len() == 0 {
            self.table.selected_spec()
        } else {
            match self.table.selected_spec() {
                Some(i) => if i > 0 {
                    Some((i - 1) as usize)
                } else {
                    Some(0usize)
                },
                None => Some(0usize),
            }
        })
    }

    /// `new` is `self` after `cursor_first`.
    pub open spec fn moved_first(&self, new: &App) -> bool {
        &&& new.same_but_cursor(self)
        &&& new.table.offset_spec() == self.table.offset_spec()
        &&& new.table.selected_spec() == (if self.view@.len() == 0 {
            self.table.selected_spec()
        } else {
            Some(0usize)
        })
    }

    /// `new` is `self` after `cursor_last`.
    pub open spec fn moved_last(&self, new: &App) -> bool {
        &&& new.same_but_cursor(self)
        &&& new.table.offset_spec() == self.table.offset_spec()
        &&& new.table.selected_spec() == (if self.view@.len() == 0 {
            self.table.selected_spec()
        } else {
            Some((self.view@.len() - 1) as usize)
        })
    }

    /// `self` and `other` agree on everything but `scope`, `lifecycle`,
    /// `show_preview` and `should_quit`.
    pub open spec fn same_rows_and_cursor(&self, other: &App) -> bool {
        &&& self.all_rows == other.all_rows
        &&& self.view == other.view
        &&& self.table == other.table
        &&& self.cwd == other.cwd
        &&& self.home == other.home
        &&& self.message == other.message
    }

    /// `new` is `self` with the scope toggled.
    pub open spec fn scope_toggled(&self, new: &App) -> bool {
        &&& new.same_rows_and_cursor(self)
        &&& new.scope == other_scope(self.scope)
        &&& new.lifecycle == self.lifecycle
        &&& new.show_preview == self.show_preview
        &&& new.should_quit == self.should_quit
    }

    /// `new` is `self` with the lifecycle toggled.
    pub open spec fn lifecycle_toggled(&self, new: &App) -> bool {
        &&& new.same_rows_and_cursor(self)
        &&& new.scope == self.scope
        &&& new.lifecycle == other_lifecycle(self.lifecycle)
        &&& new.show_preview == self.show_preview
        &&& new.should_quit == self.should_quit
    }

    /// `new` is `self` with the preview intent toggled.
    pub open spec fn preview_toggled(&self, new: &App) -> bool {
        &&& new.same_rows_and_cursor(self)
        &&& new.scope == self.scope
        &&& new.lifecycle == self.lifecycle
        &&& new.show_preview == !self.show_preview
        &&& new.should_quit == self.should_quit
    }

    /// `new` is `self` asked to quit.
    pub open spec fn quit_requested(&self, new: &App) -> bool {
        &&& new.same_rows_and_cursor(self)
        &&& new.scope == self.scope
        &&& new.lifecycle == self.lifecycle
        &&& new.show_preview == self.show_preview
        &&& new.should_quit
    }

    /// `new` is `self`, unchanged.
    pub open spec fn unchanged(&self, new: &App) -> bool {
        &&& new.same_rows_and_cursor(self)
        &&& new.scope == self.scope
        &&& new.lifecycle == self.lifecycle
        &&& new.show_preview == self.show_preview
        &&& new.should_quit == self.should_quit
    }

    /// The state invariant of the list: `view` is the identity over
    /// `all_rows`, and the cursor is on a visible row exactly when there is one.
    pub open spec fn list_invariant(&self) -> bool {
        Self::identity_view(self.view@, self.all_rows@.len() as int) && self.cursor_in_bounds()
    }

    /// `new` is `self` after `rebuild_view`.
    pub open spec fn view_rebuilt(&self, new: &App) -> bool {
        &&& Self::identity_view(new.view@, self.all_rows@.len() as int)
        &&& new.table.selected_spec() == Self::clamped(
            self.table.selected_spec(),
            self.all_rows@.len() as int,
        )
        &&& new.all_rows == self.all_rows
        &&& new.cwd == self.cwd
        &&& new.home == self.home
        &&& new.scope == self.scope
        &&& new.lifecycle == self.lifecycle
        &&& new.show_preview == self.show_preview
        &&& new.message == self.message
        &&& new.should_quit == self.should_quit
    }

    /// `new` is `self` after `apply_query_result`: either fresh rows with the
    /// identity view, the cursor on the first row and no message, or the old
    /// rows, view and cursor kept beside an error message.
    pub open spec fn query_applied(&self, new: &App) -> bool {
        &&& new.cwd == self.cwd
        &&& new.home == self.home
        &&& new.scope == self.scope
        &&& new.lifecycle == self.lifecycle
        &&& new.show_preview == self.show_preview
        &&& new.should_quit == self.should_quit
        &&& ({
            ||| {
                &&& new.message is None
                &&& Self::identity_view(new.view@, new.all_rows@.len() as int)
                &&& new.table.offset_spec() == 0
                &&& new.table.selected_spec() == (if new.all_rows@.len() == 0 {
                    None
                } else {
                    Some(0usize)
                })
            }
            ||| {
                &&& new.message is Some
                &&& new.all_rows == self.all_rows
                &&& new.view == self.view
                &&& new.table == self.table
            }
        })
    }

    /// `new` follows from `self` by one of the list's operations: a cursor
    /// move, a toggle, quitting, an ignored key, a rebuilt view or an applied
    /// query result.
    pub open spec fn step(&self, new: &App) -> bool {
        ||| self.moved_down(new)
        ||| self.moved_up(new)
        ||| self.moved_first(new)
        ||| self.moved_last(new)
        ||| self.scope_toggled(new)
        ||| self.lifecycle_toggled(new)
        ||| self.preview_toggled(new)
        ||| self.quit_requested(new)
        ||| self.unchanged(new)
        ||| self.view_rebuilt(new)
        ||| self.query_applied(new)
    }

    /// The request `r` asks for the query of `self`'s scope and lifecycle.
    pub open spec fn asks_for(&self, r: QueryRequest) -> bool {
        (match r.scope_cwd {
            Some(c) => Some(c@),
            None => None,
        }, r.archived) == self.request_for()
    }

    /// Builds the app around the initial snapshot (Project · Active) that the
    /// caller already queried for the launch directory `cwd`.
    pub fn new(cwd: String, home: String, initial_rows: Vec<Session>) -> (r: App)
        ensures
            r.wf(),
            r.list_invariant(),
            r.all_rows@ == initial_rows@,
            Self::identity_view(r.view@, initial_rows@.len() as int),
            r.table.selected_spec() == (if initial_rows@.len() == 0 {
                None
            } else {
                Some(0usize)
            }),
            r.table.offset_spec() == 0,
            r.cwd@ == cwd@,
            r.home@ == home@,
            r.scope == Scope::Project,
            r.lifecycle == Lifecycle::Active,
            r.show_preview,
            r.message is None,
            !r.should_quit,
    {
        let mut app = App {
            all_rows: initial_rows,
            view: Vec::new(),
            table: TableCursor::new(),
            cwd,
            home,
            scope: Scope::Project,
            lifecycle: Lifecycle::Active,
            show_preview: true,
            message: None,
            should_quit: false,
        };
        app.rebuild_view();
        app
    }
}


impl App {
    /// Rows currently on screen, in render order.
    pub fn visible_sessions(&self) -> (r: Vec<&Session>)
        requires
            self.view_in_bounds(),
        ensures
            r@.len() == self.view@.len(),
            forall|i: int| 0 <= i < r@.len() ==> *#[trigger] r@[i] == self.all_rows@[self.view@[i] as int],
    {
        let mut r: Vec<&Session> = Vec::new();
        let mut i: usize = 0;
        while i < self.view.len()
            invariant
                i <= self.view@.len(),
                self.view_in_bounds(),
                r@.len() == i,
                forall|j: int| 0 <= j < i ==> *#[trigger] r@[j] == self.all_rows@[self.view@[j] as int],
            decreases self.view@.len() - i,
        {
            r.push(&self.all_rows[self.view[i]]);
            i += 1;
        }
        r
    }

    /// The row under the cursor, if any.
    pub fn selected_session(&self) -> (r: Option<&Session>)
        requires
            self.view_in_bounds(),
        ensures
            r == (match self.table.selected_spec() {
                Some(i) => if i < self.view@.len() {
                    Some(&self.all_rows@[self.view@[i as int] as int])
                } else {
                    None
                },
                None => None,
            }),
            self.list_invariant() ==> (r is Some <==> self.view@.len() > 0),
    {
        match self.table.selected() {
            Some(i) => {
                if i < self.view.len() {
                    Some(&self.all_rows[self.view[i]])
                } else {
                    None
                }
            },
            None => None,
        }
    }

    /// The query that the current scope and lifecycle call for.
    pub open spec fn request_for(&self) -> (Option<Seq<char>>, bool) {
        (
            match self.scope {
                Scope::Project => Some(self.cwd@),
                Scope::All => None,
            },
            self.lifecycle == Lifecycle::Archived,
        )
    }

    /// The query for the current scope and lifecycle.
    pub fn query_request(&self) -> (r: QueryRequest)
        ensures
            (match r.scope_cwd {
                Some(c) => Some(c@),
                None => None,
            }, r.archived) == self.request_for(),
    {
        let scope_cwd = match self.scope {
            Scope::Project => Some(self.cwd.clone()),
            Scope::All => None,
        };
        QueryRequest { scope_cwd, archived: self.lifecycle == Lifecycle::Archived }
    }

    /// Toggles Scope (Project and All) and asks for the re-query of the new scope.
    pub fn toggle_scope(&mut self) -> (r: QueryRequest)
        ensures
            old(self).scope_toggled(&*final(self)),
            final(self).asks_for(r),
            old(self).wf() ==> final(self).wf(),
    {
        self.scope = match self.scope {
            Scope::Project => Scope::All,
            Scope::All => Scope::Project,
        };
        self.query_request()
    }

    /// Toggles Lifecycle (Active and Archived) and asks for the re-query of the new band.
    pub fn toggle_lifecycle(&mut self) -> (r: QueryRequest)
        ensures
            old(self).lifecycle_toggled(&*final(self)),
            final(self).asks_for(r),
            old(self).wf() ==> final(self).wf(),
    {
        self.lifecycle = match self.lifecycle {
            Lifecycle::Active => Lifecycle::Archived,
            Lifecycle::Archived => Lifecycle::Active,
        };
        self.query_request()
    }

    /// Toggles the preview panel's visibility intent.
    pub fn toggle_preview(&mut self)
        ensures
            old(self).preview_toggled(&*final(self)),
            old(self).wf() ==> final(self).wf(),
    {
        self.show_preview = !self.show_preview;
    }

    /// Points the cursor at the first row (or none when empty) and scrolls to
    /// the top, after the result set changed wholesale.
    fn reset_cursor(&mut self)
        ensures
            final(self).same_but_cursor(old(self)),
            final(self).table.offset_spec() == 0,
            final(self).table.selected_spec() == (if old(self).view@.len() == 0 {
                None
            } else {
                Some(0usize)
            }),
    {
        self.table.set_offset(0);
        if self.view.len() == 0 {
            self.table.select(None);
        } else {
            self.table.select(Some(0));
        }
    }

    /// Takes the result of a re-query. Rows replace the snapshot, clear the
    /// footer message and put the cursor on the first row; an error (such as a
    /// busy database) keeps the stale rows and shows its message.
    pub fn apply_query_result(&mut self, result: Result<Vec<Session>, String>)
        ensures
            match result {
                Ok(rows) => {
                    &&& final(self).all_rows@ == rows@
                    &&& Self::identity_view(final(self).view@, rows@.len() as int)
                    &&& final(self).message is None
                    &&& final(self).table.offset_spec() == 0
                    &&& final(self).table.selected_spec() == (if rows@.len() == 0 {
                        None
                    } else {
                        Some(0usize)
                    })
                    &&& final(self).wf()
                },
                Err(msg) => {
                    &&& final(self).message == Some(msg)
                    &&& final(self).all_rows == old(self).all_rows
                    &&& final(self).view == old(self).view
                    &&& final(self).table == old(self).table
                },
            },
            final(self).cwd == old(self).cwd,
            final(self).home == old(self).home,
            final(self).scope == old(self).scope,
            final(self).lifecycle == old(self).lifecycle,
            final(self).show_preview == old(self).show_preview,
            final(self).should_quit == old(self).should_quit,
            old(self).wf() ==> final(self).wf(),
            old(self).query_applied(&*final(self)),
    {
        match result {
            Ok(rows) => {
                self.all_rows = rows;
                self.message = None;
                self.rebuild_view();
                self.reset_cursor();
            },
            Err(msg) => {
                self.message = Some(msg);
            },
        }
    }

    /// Why the current view is empty, for the guidance text.
    pub fn empty_reason(&self) -> (r: EmptyReason)
        ensures
            r == (match (self.scope, self.lifecycle) {
                (_, Lifecycle::Archived) => EmptyReason::ArchivedEmpty,
                (Scope::Project, Lifecycle::Active) => EmptyReason::ProjectEmpty,
                (Scope::All, Lifecycle::Active) => EmptyReason::NoSessions,
            }),
    {
        match (self.scope, self.lifecycle) {
            (_, Lifecycle::Archived) => EmptyReason::ArchivedEmpty,
            (Scope::Project, Lifecycle::Active) => EmptyReason::ProjectEmpty,
            (Scope::All, Lifecycle::Active) => EmptyReason::NoSessions,
        }
    }

    /// Moves the cursor down one row (`j` / down), stopping at the last row.
    pub fn cursor_down(&mut self)
        ensures
            old(self).moved_down(&*final(self)),
            old(self).wf() ==> final(self).wf(),
    {
        if self.view.len() == 0 {
            return;
        }
        let next = match self.table.selected() {
            Some(i) => if i < self.view.len() - 1 {
                i + 1
            } else {
                i
            },
            None => 0,
        };
        self.table.select(Some(next));
    }

    /// Moves the cursor up one row (`k` / up), stopping at the first row.
    pub fn cursor_up(&mut self)
        ensures
            old(self).moved_up(&*final(self)),
            old(self).wf() ==> final(self).wf(),
    {
        if self.view.len() == 0 {
            return;
        }
        let next = match self.table.selected() {
            Some(i) => if i > 0 {
                i - 1
            } else {
                0
            },
            None => 0,
        };
        self.table.select(Some(next));
    }

    /// Jumps to the first row (`g`).
    pub fn cursor_first(&mut self)
        ensures
            old(self).moved_first(&*final(self)),
            old(self).wf() ==> final(self).wf(),
    {
        if self.view.len() > 0 {
            self.table.select(Some(0));
        }
    }

    /// Jumps to the last row (`G`).
    pub fn cursor_last(&mut self)
        ensures
            old(self).moved_last(&*final(self)),
            old(self).wf() ==> final(self).wf(),
    {
        if self.view.len() > 0 {
            self.table.select(Some(self.view.len() - 1));
        }
    }
}

/// Every operation of the list keeps its invariant: the view stays the
/// identity over the rows, and the cursor is on a visible row exactly when
/// the view is not empty.
pub proof fn lemma_step_keeps_invariant(a: App, b: App)
    requires
        a.list_invariant(),
        a.step(&b),
    ensures
        b.list_invariant(),
{
}

/// Along any run of the list, from `App::new` through any sequence of its
/// operations, the invariant holds at every state; in particular the selected
/// session exists exactly when the view is not empty.
pub proof fn lemma_invariant_along_run(run: Seq<App>)
    requires
        run.len() > 0,
        run[0].list_invariant(),
        forall|i: int| 0 <= i < run.len() - 1 ==> #[trigger] run[i].step(&run[i + 1]),
    ensures
        forall|i: int| 0 <= i < run.len() ==> #[trigger] run[i].list_invariant(),
        forall|i: int|
            0 <= i < run.len() ==> (#[trigger] run[i].table.selected_spec() is Some <==> run[i].view@.len()
                > 0),
    decreases run.len(),
{
    if run.len() > 1 {
        let prefix = run.drop_last();
        assert forall|i: int| 0 <= i < prefix.len() - 1 implies #[trigger] prefix[i].step(
            &prefix[i + 1],
        ) by {
            assert(run[i].step(&run[i + 1]));
        }
        lemma_invariant_along_run(prefix);
        let k = run.len() - 2;
        assert(prefix[k].list_invariant());
        assert(run[k].step(&run[k + 1]));
        lemma_step_keeps_invariant(run[k], run[k + 1]);
        assert forall|i: int| 0 <= i < run.len() implies #[trigger] run[i].list_invariant() by {
            if i < run.len() - 1 {
                assert(prefix[i].list_invariant());
            }
        }
    }
    assert forall|i: int| 0 <= i < run.len() implies (#[trigger] run[i].table.selected_spec() is Some
        <==> run[i].view@.len() > 0) by {
        assert(run[i].list_invariant());
    }
}

} // verus!
