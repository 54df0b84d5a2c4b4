//! The command line and the keyboard: the `--db` flag and the key bindings of
//! the list.

use crate::app::{App, QueryRequest};
use crate::text::{chars_eq, chars_of, concat, string_from_chars};
use vstd::prelude::*;

verus! {

/// Reads the `--db <path>` / `--db=<path>` flags of `args` after `db` (the
/// last one wins); any other argument is an error.
pub open spec fn db_flag_of(args: Seq<Seq<char>>, db: Option<Seq<char>>) -> Result<
    Option<Seq<char>>,
    Seq<char>,
>
    decreases args.len(),
{
    if args.len() == 0 {
        Ok(db)
    } else if args[0] == "--db"@ {
        if args.len() < 2 {
            Err("--db requires a path argument"@)
        } else {
            db_flag_of(args.skip(2), Some(args[1]))
        }
    } else if args[0].len() >= 5 && args[0].take(5) == "--db="@ {
        db_flag_of(args.skip(1), Some(args[0].skip(5)))
    } else {
        Err("unknown argument: "@ + args[0])
    }
}

/// The texts of a list of strings.
pub open spec fn texts_of(v: Seq<String>) -> Seq<Seq<char>> {
    v.map_values(|s: String| s@)
}

fn starts_with_db_eq(c: &Vec<char>) -> (r: bool)
    ensures
        r == (c@.len() >= 5 && c@.take(5) == "--db="@),
{
    if c.len() < 5 {
        return false;
    }
    let p = chars_of("--db=");
    let mut head: Vec<char> = Vec::new();
    let mut i: usize = 0;
    while i < 5
        invariant
            c.len() >= 5,
            i <= 5,
            head@ == c@.take(i as int),
        decreases 5 - i,
    {
        head.push(c[i]);
        i += 1;
        assert(head@ =~= c@.take(i as int));
    }
    chars_eq(&head, &p)
}

/// Parses the program's arguments (without the program name): the only
/// supported flag is `--db <path>` (or `--db=<path>`); unknown arguments are errors.
pub fn parse_db_flag(args: &Vec<String>) -> (r: Result<Option<String>, String>)
    ensures
        match (r, db_flag_of(texts_of(args@), None)) {
            (Ok(None), Ok(None)) => true,
            (Ok(Some(p)), Ok(Some(sp))) => p@ == sp,
            (Err(m), Err(sm)) => m@ == sm,
            _ => false,
        },
{
    let ghost all = texts_of(args@);
    let mut db: Option<String> = None;
    let mut i: usize = 0;
    let dbflag = chars_of("--db");
    assert(all.skip(0) =~= all);
    while i < args.len()
        invariant
            i <= args.len(),
            all == texts_of(args@),
            dbflag@ == "--db"@,
            db_flag_of(all, None) == db_flag_of(
                all.skip(i as int),
                match db {
                    Some(p) => Some(p@),
                    None => None,
                },
            ),
        decreases args.len() - i,
    {
        let c = chars_of(args[i].as_str());
        assert(all.skip(i as int)[0] == c@);
        if chars_eq(&c, &dbflag) {
            if i + 1 >= args.len() {
                return Err(String::from_str("--db requires a path argument"));
            }
            assert(all.skip(i as int).skip(2) =~= all.skip(i + 2));
            assert(all.skip(i as int)[1] == args@[i + 1]@);
            db = Some(args[i + 1].clone());
            i += 2;
        } else if starts_with_db_eq(&c) {
            assert(all.skip(i as int).skip(1) =~= all.skip(i + 1));
            let mut v: Vec<char> = Vec::new();
            let mut j: usize = 5;
            while j < c.len()
                invariant
                    5 <= j <= c.len(),
                    v@ == c@.subrange(5, j as int),
                decreases c.len() - j,
            {
                v.push(c[j]);
                j += 1;
                assert(v@ =~= c@.subrange(5, j as int));
            }
            assert(v@ =~= c@.skip(5));
            db = Some(string_from_chars(&v));
            i += 1;
        } else {
            return Err(concat("unknown argument: ", args[i].as_str()));
        }
    }
    assert(all.skip(i as int).len() == 0);
    Ok(db)
}


/// A key of the keyboard, as far as the list reads it.
#[derive(Debug, Clone, Copy, PartialEq, Eq, Structural)]
pub enum Key {
    Char(char),
    Up,
    Down,
    Tab,
    Enter,
    Other,
}

/// A key press: the key and whether Control was held.
#[derive(Debug, Clone, Copy, PartialEq, Eq, Structural)]
pub struct KeyPress {
    pub key: Key,
    pub ctrl: bool,
}

/// What a key press does to the list.
#[derive(Debug, Clone, Copy, PartialEq, Eq, Structural)]
pub enum KeyAction {
    Quit,
    CursorDown,
    CursorUp,
    CursorFirst,
    CursorLast,
    ToggleScope,
    ToggleLifecycle,
    TogglePreview,
    Ignore,
}

/// The key bindings: `Ctrl-c` / `q` quit, `j`/`k` and the arrows move, `g`/`G`
/// jump to the first/last row, `p` toggles the scope, `Tab` the lifecycle and
/// `Enter` the preview.
pub open spec fn action_of(press: KeyPress) -> KeyAction {
    match press.key {
        Key::Char(c) => if c == 'c' && press.ctrl {
            KeyAction::Quit
        } else if c == 'q' {
            KeyAction::Quit
        } else if c == 'j' {
            KeyAction::CursorDown
        } else if c == 'k' {
            KeyAction::CursorUp
        } else if c == 'g' {
            KeyAction::CursorFirst
        } else if c == 'G' {
            KeyAction::CursorLast
        } else if c == 'p' {
            KeyAction::ToggleScope
        } else {
            KeyAction::Ignore
        },
        Key::Down => KeyAction::CursorDown,
        Key::Up => KeyAction::CursorUp,
        Key::Tab => KeyAction::ToggleLifecycle,
        Key::Enter => KeyAction::TogglePreview,
        Key::Other => KeyAction::Ignore,
    }
}

/// Applies a key press to the list; when it changes the scope or the
/// lifecycle, returns the query that the list now needs.
pub fn handle_key(app: &mut App, press: KeyPress) -> (r: Option<QueryRequest>)
    ensures
        match action_of(press) {
            KeyAction::Quit => old(app).quit_requested(&*final(app)) && r is None,
            KeyAction::CursorDown => old(app).moved_down(&*final(app)) && r is None,
            KeyAction::CursorUp => old(app).moved_up(&*final(app)) && r is None,
            KeyAction::CursorFirst => old(app).moved_first(&*final(app)) && r is None,
            KeyAction::CursorLast => old(app).moved_last(&*final(app)) && r is None,
            KeyAction::ToggleScope => old(app).scope_toggled(&*final(app)) && (r matches Some(q)
                && final(app).asks_for(q)),
            KeyAction::ToggleLifecycle => old(app).lifecycle_toggled(&*final(app)) && (r matches Some(
                q,
            ) && final(app).asks_for(q)),
            KeyAction::TogglePreview => old(app).preview_toggled(&*final(app)) && r is None,
            KeyAction::Ignore => old(app).unchanged(&*final(app)) && r is None,
        },
        old(app).wf() ==> final(app).wf(),
{
    match press.key {
        Key::Char(c) => {
            if c == 'c' && press.ctrl {
                app.should_quit = true;
                None
            } else if c == 'q' {
                app.should_quit = true;
                None
            } else if c == 'j' {
                app.cursor_down();
                None
            } else if c == 'k' {
                app.cursor_up();
                None
            } else if c == 'g' {
                app.cursor_first();
                None
            } else if c == 'G' {
                app.cursor_last();
                None
            } else if c == 'p' {
                Some(app.toggle_scope())
            } else {
                None
            }
        },
        Key::Down => {
            app.cursor_down();
            None
        },
        Key::Up => {
            app.cursor_up();
            None
        },
        Key::Tab => Some(app.toggle_lifecycle()),
        Key::Enter => {
            app.toggle_preview();
            None
        },
        Key::Other => None,
    }
}

/// The key bindings: `j` (without Control) does what the down arrow does and
/// moves the cursor down, `k` what the up arrow does and moves it up; `g` and
/// `G` jump to the first and last row, `p` toggles the scope, `Tab` the
/// lifecycle, `Enter` the preview, and `q` or `Ctrl-c` quit.
pub proof fn lemma_key_bindings(ctrl: bool)
    ensures
        action_of(KeyPress { key: Key::Char('j'), ctrl: false }) == action_of(
            KeyPress { key: Key::Down, ctrl },
        ),
        action_of(KeyPress { key: Key::Down, ctrl }) == KeyAction::CursorDown,
        action_of(KeyPress { key: Key::Char('k'), ctrl: false }) == action_of(
            KeyPress { key: Key::Up, ctrl },
        ),
        action_of(KeyPress { key: Key::Up, ctrl }) == KeyAction::CursorUp,
        action_of(KeyPress { key: Key::Char('g'), ctrl: false }) == KeyAction::CursorFirst,
        action_of(KeyPress { key: Key::Char('G'), ctrl: false }) == KeyAction::CursorLast,
        action_of(KeyPress { key: Key::Char('p'), ctrl: false }) == KeyAction::ToggleScope,
        action_of(KeyPress { key: Key::Tab, ctrl }) == KeyAction::ToggleLifecycle,
        action_of(KeyPress { key: Key::Enter, ctrl }) == KeyAction::TogglePreview,
        action_of(KeyPress { key: Key::Char('q'), ctrl }) == KeyAction::Quit,
        action_of(KeyPress { key: Key::Char('c'), ctrl: true }) == KeyAction::Quit,
        action_of(KeyPress { key: Key::Char('c'), ctrl: false }) == KeyAction::Ignore,
{
}

/// Moving the cursor up goes one row toward the top and moving it down one
/// row toward the bottom, stopping at the ends; the rows themselves stay.
pub proof fn lemma_cursor_moves(a: App, b: App, i: usize)
    requires
        a.wf(),
        a.table.selected_spec() == Some(i),
    ensures
        a.moved_up(&b) ==> b.table.selected_spec() == Some(if i > 0 {
            (i - 1) as usize
        } else {
            0usize
        }) && b.all_rows == a.all_rows && b.view == a.view,
        a.moved_down(&b) ==> b.table.selected_spec() == Some(if i + 1 < a.view@.len() {
            (i + 1) as usize
        } else {
            i
        }) && b.all_rows == a.all_rows && b.view == a.view,
        a.moved_first(&b) ==> b.table.selected_spec() == Some(0usize),
        a.moved_last(&b) ==> b.table.selected_spec() == Some((a.view@.len() - 1) as usize),
{
}

/// `--db PATH` and `--db=PATH` both name the database; when given twice the
/// later one wins; any other argument is refused.
pub proof fn lemma_db_flag_forms(p: Seq<char>, q: Seq<char>, other: Seq<char>)
    requires
        other != "--db"@,
        !(other.len() >= 5 && other.take(5) == "--db="@),
    ensures
        db_flag_of(seq!["--db"@, p], None) == Ok::<Option<Seq<char>>, Seq<char>>(Some(p)),
        db_flag_of(seq!["--db="@ + p], None) == Ok::<Option<Seq<char>>, Seq<char>>(Some(p)),
        db_flag_of(seq!["--db"@, p, "--db"@, q], None) == Ok::<Option<Seq<char>>, Seq<char>>(
            Some(q),
        ),
        db_flag_of(Seq::empty(), None) == Ok::<Option<Seq<char>>, Seq<char>>(None),
        db_flag_of(seq![other], None) is Err,
        db_flag_of(seq!["--db"@], None) is Err,
{
    reveal_strlit("--db=");
    reveal_strlit("--db");
    let a = seq!["--db"@, p];
    assert(a.skip(2) =~= Seq::<Seq<char>>::empty());
    assert(db_flag_of(a.skip(2), Some(p)) == Ok::<Option<Seq<char>>, Seq<char>>(Some(p)));
    let b = seq!["--db="@ + p];
    assert(b[0].take(5) =~= "--db="@);
    assert(b[0].skip(5) =~= p);
    assert(b[0].len() != "--db"@.len());
    assert(b.skip(1) =~= Seq::<Seq<char>>::empty());
    assert(db_flag_of(b.skip(1), Some(p)) == Ok::<Option<Seq<char>>, Seq<char>>(Some(p)));
    let c = seq!["--db"@, p, "--db"@, q];
    assert(c.skip(2) =~= seq!["--db"@, q]);
    assert(c.skip(2).skip(2) =~= Seq::<Seq<char>>::empty());
    assert(db_flag_of(c.skip(2).skip(2), Some(q)) == Ok::<Option<Seq<char>>, Seq<char>>(Some(q)));
    assert(db_flag_of(c.skip(2), Some(p)) == Ok::<Option<Seq<char>>, Seq<char>>(Some(q)));
}

} // verus!
