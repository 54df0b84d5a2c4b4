//! The traex state database as tsm sees it: where it lives, which generation
//! to open, which columns it must have and how the session list is queried.

use crate::text::{
    all_digits, append_chars, chars_eq, chars_of, concat3, decimal_value, is_digit, str_eq,
    string_from_chars,
};
use vstd::prelude::*;

verus! {

/// Startup-facing text of a busy database.
pub const BUSY_MESSAGE: &'static str = "traex database is busy · try again";

/// One row of `threads`, projected to the columns tsm shows.
#[derive(Debug, Clone)]
pub struct Session {
    pub id: String,
    pub title: String,
    pub first_user_message: String,
    pub cwd: String,
    /// epoch seconds
    pub updated_at: i64,
    /// epoch millis, the sort key
    pub updated_at_ms: i64,
    pub archived: bool,
    /// epoch seconds; only set when archived
    pub archived_at: Option<i64>,
    pub git_branch: Option<String>,
    pub model: Option<String>,
    pub tokens_used: i64,
}

/// `base` joined with the relative component `part`, as `Path::join` does on Unix.
pub open spec fn path_join(base: Seq<char>, part: Seq<char>) -> Seq<char> {
    if base.len() > 0 && base.last() != '/' {
        base + seq!['/'] + part
    } else {
        base + part
    }
}

/// `base` joined with the relative component `part`.
pub fn join_path(base: &str, part: &str) -> (r: String)
    ensures
        r@ == path_join(base@, part@),
{
    let b = chars_of(base);
    let mut v = b.clone();
    if b.len() > 0 && b[b.len() - 1] != '/' {
        v.push('/');
    }
    append_chars(&mut v, &chars_of(part));
    string_from_chars(&v)
}

/// A set, non-empty value of an environment variable.
pub open spec fn is_set(v: Option<&str>) -> bool {
    v matches Some(d) && d@.len() > 0
}

/// The traex cli directory: `$TRAECLI_HOME`, else `$TRAE_HOME/cli`, else
/// `~/.trae/cli`; an empty variable counts as unset.
pub open spec fn cli_dir(traecli_home: Option<&str>, trae_home: Option<&str>, home: Seq<char>) -> Seq<
    char,
> {
    if is_set(traecli_home) {
        traecli_home.unwrap()@
    } else if is_set(trae_home) {
        path_join(trae_home.unwrap()@, "cli"@)
    } else {
        path_join(path_join(home, ".trae"@), "cli"@)
    }
}

/// The cli directory that `$TRAECLI_HOME` or `$TRAE_HOME` names, if either is
/// set (and not empty); `None` leaves the choice to the home directory.
pub fn cli_dir_from_vars(traecli_home: Option<&str>, trae_home: Option<&str>) -> (r: Option<String>)
    ensures
        is_set(traecli_home) || is_set(trae_home) <==> r is Some,
        r matches Some(d) ==> d@ == cli_dir(traecli_home, trae_home, Seq::empty()),
{
    if let Some(d) = traecli_home {
        if !d.is_empty() {
            return Some(String::from_str(d));
        }
    }
    if let Some(d) = trae_home {
        if !d.is_empty() {
            return Some(join_path(d, "cli"));
        }
    }
    None
}

/// Resolves the traex cli directory from `$TRAECLI_HOME`, `$TRAE_HOME` and the home directory.
pub fn resolve_cli_dir(traecli_home: Option<&str>, trae_home: Option<&str>, home: &str) -> (r:
    String)
    ensures
        r@ == cli_dir(traecli_home, trae_home, home@),
{
    match cli_dir_from_vars(traecli_home, trae_home) {
        Some(d) => d,
        None => {
            let trae = join_path(home, ".trae");
            join_path(trae.as_str(), "cli")
        },
    }
}


/// The generation `N` of a `state_N.sqlite` file name (`N` all ASCII digits and
/// fitting in a `u64`).
pub open spec fn generation_of(name: Seq<char>) -> Option<u64> {
    if name.len() >= 13 && name.take(6) == "state_"@ && name.skip(name.len() - 7) == ".sqlite"@ {
        let digits = name.subrange(6, name.len() - 7);
        if digits.len() > 0 && all_digits(digits) && decimal_value(digits) <= u64::MAX {
            Some(decimal_value(digits) as u64)
        } else {
            None
        }
    } else {
        None
    }
}

fn has_affixes(c: &Vec<char>) -> (r: bool)
    ensures
        r == (c@.len() >= 13 && c@.take(6) == "state_"@ && c@.skip(c@.len() - 7) == ".sqlite"@),
{
    if c.len() < 13 {
        return false;
    }
    let prefix = chars_of("state_");
    let suffix = chars_of(".sqlite");
    let mut head: Vec<char> = Vec::new();
    let mut i: usize = 0;
    while i < 6
        invariant
            c.len() >= 13,
            i <= 6,
            head@ == c@.take(i as int),
        decreases 6 - i,
    {
        head.push(c[i]);
        i += 1;
        assert(head@ =~= c@.take(i as int));
    }
    let mut tail: Vec<char> = Vec::new();
    let start = c.len() - 7;
    let mut j: usize = start;
    while j < c.len()
        invariant
            start == c.len() - 7,
            start <= j <= c.len(),
            tail@ == c@.subrange(start as int, j as int),
        decreases c.len() - j,
    {
        tail.push(c[j]);
        j += 1;
        assert(tail@ =~= c@.subrange(start as int, j as int));
    }
    assert(c@.skip(start as int) =~= c@.subrange(start as int, c.len() as int));
    chars_eq(&head, &prefix) && chars_eq(&tail, &suffix)
}

/// Parses the generation number out of a `state_N.sqlite` file name.
pub fn parse_generation(name: &str) -> (r: Option<u64>)
    ensures
        r == generation_of(name@),
{
    let c = chars_of(name);
    if !has_affixes(&c) {
        return None;
    }
    let end = c.len() - 7;
    let ghost digits = c@.subrange(6, end as int);
    if end == 6 {
        assert(digits.len() == 0);
        return None;
    }
    let mut value: u64 = 0;
    let mut i: usize = 6;
    while i < end
        invariant
            6 <= i <= end,
            c@ == name@,
            c@.len() >= 13 && c@.take(6) == "state_"@ && c@.skip(c@.len() - 7) == ".sqlite"@,
            end == c.len() - 7,
            digits == c@.subrange(6, end as int),
            all_digits(digits.take(i - 6)),
            value == decimal_value(digits.take(i - 6)),
        decreases end - i,
    {
        let ch = c[i];
        assert(digits.take(i - 5).drop_last() =~= digits.take(i - 6));
        if !('0' <= ch && ch <= '9') {
            assert(!is_digit(digits[i - 6]));
            return None;
        }
        let d = (ch as u32 - 48) as u64;
        let next = match value.checked_mul(10) {
            Some(v) => v.checked_add(d),
            None => None,
        };
        match next {
            Some(v) => {
                assert(digits.take(i - 5) =~= digits.take(i - 6).push(ch));
                value = v;
            },
            None => {
                proof {
                    assert(digits.take(i - 5) =~= digits.take(i - 6).push(ch));
                    assert(decimal_value(digits.take(i - 5)) > u64::MAX);
                    if all_digits(digits) {
                        lemma_decimal_value_monotone(digits, (i - 5) as int);
                    }
                }
                return None;
            },
        }
        i += 1;
    }
    assert(digits.take(end - 6) =~= digits);
    Some(value)
}

proof fn lemma_decimal_value_monotone(s: Seq<char>, k: int)
    requires
        0 <= k <= s.len(),
        all_digits(s.take(k)),
        all_digits(s),
    ensures
        decimal_value(s.take(k)) <= decimal_value(s),
    decreases s.len(),
{
    if k < s.len() {
        assert(s.drop_last().take(k) =~= s.take(k));
        lemma_decimal_value_monotone(s.drop_last(), k);
        assert(s.take(s.len() as int) =~= s);
    } else {
        assert(s.take(k) =~= s);
    }
}


/// The `state_N.sqlite` name of `names` with the highest generation, and that
/// generation; among equal generations the one listed last.
pub open spec fn picked_db(names: Seq<Seq<char>>) -> Option<(u64, Seq<char>)>
    decreases names.len(),
{
    if names.len() == 0 {
        None
    } else {
        let best = picked_db(names.drop_last());
        match generation_of(names.last()) {
            None => best,
            Some(g) => match best {
                Some((bg, bn)) => if g >= bg {
                    Some((g, names.last()))
                } else {
                    best
                },
                None => Some((g, names.last())),
            },
        }
    }
}

/// The names of a list of file names.
pub open spec fn names_of(filenames: Seq<String>) -> Seq<Seq<char>> {
    filenames.map_values(|s: String| s@)
}

/// Given the file names of a directory, picks the `state_N.sqlite` with the
/// highest generation `N`, and returns `(N, name)`.
pub fn pick_state_db(filenames: &[String]) -> (r: Option<(u64, String)>)
    ensures
        match (r, picked_db(names_of(filenames@))) {
            (None, None) => true,
            (Some((g, n)), Some((sg, sn))) => g == sg && n@ == sn,
            _ => false,
        },
{
    let ghost names = names_of(filenames@);
    let mut best: Option<(u64, usize)> = None;
    let mut i: usize = 0;
    while i < filenames.len()
        invariant
            i <= filenames.len(),
            names == names_of(filenames@),
            match (best, picked_db(names.take(i as int))) {
                (None, None) => true,
                (Some((g, k)), Some((sg, sn))) => g == sg && k < i && names[k as int] == sn,
                _ => false,
            },
        decreases filenames.len() - i,
    {
        assert(names.take(i + 1).drop_last() =~= names.take(i as int));
        assert(names.take(i + 1).last() == filenames@[i as int]@);
        let g = parse_generation(filenames[i].as_str());
        match g {
            Some(g) => {
                match best {
                    Some((bg, _)) => {
                        if g >= bg {
                            best = Some((g, i));
                        }
                    },
                    None => {
                        best = Some((g, i));
                    },
                }
            },
            None => {},
        }
        i += 1;
    }
    assert(names.take(filenames.len() as int) =~= names);
    match best {
        Some((g, k)) => Some((g, filenames[k].clone())),
        None => None,
    }
}


/// The picked database has the highest generation of all `state_N.sqlite`
/// names and is one of them; there is one as soon as any name is such a file.
pub proof fn lemma_picked_db_is_highest(names: Seq<Seq<char>>)
    ensures
        picked_db(names) is None <==> (forall|i: int|
            0 <= i < names.len() ==> #[trigger] generation_of(names[i]) is None),
        picked_db(names) matches Some((g, n)) ==> {
            &&& generation_of(n) == Some(g)
            &&& names.contains(n)
            &&& forall|i: int|
                0 <= i < names.len() ==> (#[trigger] generation_of(names[i]) matches Some(h) ==> h
                    <= g)
        },
    decreases names.len(),
{
    if names.len() > 0 {
        let init = names.drop_last();
        lemma_picked_db_is_highest(init);
        assert forall|i: int| 0 <= i < init.len() implies names[i] == #[trigger] init[i] by {}
        if picked_db(names) is None {
            assert forall|i: int| 0 <= i < names.len() implies #[trigger] generation_of(
                names[i],
            ) is None by {
                if i < init.len() {
                    assert(names[i] == init[i]);
                }
            }
        }
        if let Some((g, n)) = picked_db(names) {
            assert forall|i: int| 0 <= i < names.len() implies (#[trigger] generation_of(
                names[i],
            ) matches Some(h) ==> h <= g) by {
                if i < init.len() {
                    assert(names[i] == init[i]);
                }
            }
            if n != names.last() {
                let j = choose|j: int| 0 <= j < init.len() && init[j] == n;
                assert(names[j] == n);
            } else {
                assert(names[names.len() - 1] == n);
            }
        }
    }
}

/// The startup "no state database" message, with the hint on how to point at one.
pub fn no_db_message(dir: &str) -> (r: String)
    ensures
        r@ == "no traex state database found at "@ + dir@ + " · set --db or $TRAE_HOME"@,
{
    concat3("no traex state database found at ", dir, " · set --db or $TRAE_HOME")
}

/// The startup message for a `--db` path that is not a file.
pub fn missing_db_message(path: &str) -> (r: String)
    ensures
        r@ == "no traex state database found at "@ + path@,
{
    crate::text::concat("no traex state database found at ", path)
}

/// The database to open in the cli directory `dir` whose file names are
/// `filenames`: the highest-generation `state_N.sqlite` joined to `dir`, or
/// the "no state database" message when there is none.
pub fn db_in_dir(dir: &str, filenames: &[String]) -> (r: Result<String, String>)
    ensures
        match picked_db(names_of(filenames@)) {
            Some((_, name)) => r matches Ok(p) && p@ == path_join(dir@, name),
            None => r matches Err(m) && m@ == "no traex state database found at "@ + dir@
                + " · set --db or $TRAE_HOME"@,
        },
{
    match pick_state_db(filenames) {
        Some((_, name)) => Ok(join_path(dir, name.as_str())),
        None => Err(no_db_message(dir)),
    }
}

/// The columns tsm relies on in `threads`, in the order they are checked.
pub open spec fn required_columns() -> Seq<Seq<char>> {
    seq![
        "id"@,
        "title"@,
        "first_user_message"@,
        "cwd"@,
        "source"@,
        "updated_at"@,
        "updated_at_ms"@,
        "archived"@,
        "archived_at"@,
        "git_branch"@,
        "model"@,
        "tokens_used"@,
    ]
}

/// The first required column, from position `k` on, that `present` lacks.
pub open spec fn first_missing_column(present: Seq<Seq<char>>, k: int) -> Option<Seq<char>>
    decreases 12 - k,
{
    if k >= 12 || k < 0 {
        None
    } else if !present.contains(required_columns()[k]) {
        Some(required_columns()[k])
    } else {
        first_missing_column(present, k + 1)
    }
}

/// The verdict on the columns `present` that `threads` of the database at
/// `db_path` has: `Ok` when every required column is there, else the message.
pub open spec fn schema_verdict(present: Seq<Seq<char>>, db_path: Seq<char>) -> Result<(), Seq<char>> {
    if present.len() == 0 {
        Err("unrecognized traex database schema at "@ + db_path + "; tsm may be outdated"@)
    } else {
        match first_missing_column(present, 0) {
            Some(col) => Err(
                "unrecognized traex database schema (missing threads."@ + col
                    + "); tsm may be outdated"@,
            ),
            None => Ok(()),
        }
    }
}

fn contains_name(present: &Vec<String>, col: &str) -> (r: bool)
    ensures
        r == names_of(present@).contains(col@),
{
    let ghost names = names_of(present@);
    let mut i: usize = 0;
    while i < present.len()
        invariant
            i <= present.len(),
            names == names_of(present@),
            forall|j: int| 0 <= j < i ==> names[j] != col@,
        decreases present.len() - i,
    {
        if str_eq(present[i].as_str(), col) {
            assert(names[i as int] == col@);
            return true;
        }
        i += 1;
    }
    false
}

/// Checks that `threads` has every column tsm needs, given the column names
/// `present` that the database reports; the error is the startup message.
pub fn check_threads_columns(present: &Vec<String>, db_path: &str) -> (r: Result<(), String>)
    ensures
        match (r, schema_verdict(names_of(present@), db_path@)) {
            (Ok(()), Ok(())) => true,
            (Err(m), Err(sm)) => m@ == sm,
            _ => false,
        },
{
    let ghost names = names_of(present@);
    if present.len() == 0 {
        return Err(concat3("unrecognized traex database schema at ", db_path, "; tsm may be outdated"));
    }
    let cols = vec![
        "id",
        "title",
        "first_user_message",
        "cwd",
        "source",
        "updated_at",
        "updated_at_ms",
        "archived",
        "archived_at",
        "git_branch",
        "model",
        "tokens_used",
    ];
    assert(forall|k: int| 0 <= k < 12 ==> #[trigger] cols@[k]@ == required_columns()[k]);
    let mut k: usize = 0;
    while k < cols.len()
        invariant
            cols@.len() == 12,
            k <= 12,
            present.len() > 0,
            names == names_of(present@),
            forall|k: int| 0 <= k < 12 ==> #[trigger] cols@[k]@ == required_columns()[k],
            first_missing_column(names, 0) == first_missing_column(names, k as int),
        decreases 12 - k,
    {
        if !contains_name(present, cols[k]) {
            return Err(concat3("unrecognized traex database schema (missing threads.", cols[k], "); tsm may be outdated"));
        }
        k += 1;
    }
    Ok(())
}

/// Whether a query error message is the busy text.
pub fn is_busy_error(message: &str) -> (r: bool)
    ensures
        r == (message@ == BUSY_MESSAGE@),
{
    str_eq(message, BUSY_MESSAGE)
}


/// A value bound to a placeholder of the session query.
#[derive(Debug, Clone)]
pub enum QueryParam {
    Text(String),
    Integer(i64),
}

/// The session query of the scope (`Some(cwd)`: that project only; `None`:
/// all projects) and lifecycle band: its SQL text and the values of its placeholders.
pub open spec fn query_sql(by_cwd: bool) -> Seq<char> {
    if by_cwd {
        "SELECT id,title,first_user_message,cwd,updated_at,updated_at_ms,archived,archived_at,git_branch,model,tokens_used FROM threads WHERE cwd = ?1 AND archived = ?2 AND source IN ('cli', 'vscode') ORDER BY updated_at_ms DESC"@
    } else {
        "SELECT id,title,first_user_message,cwd,updated_at,updated_at_ms,archived,archived_at,git_branch,model,tokens_used FROM threads WHERE archived = ?1 AND source IN ('cli', 'vscode') ORDER BY updated_at_ms DESC"@
    }
}

/// The SQL and placeholder values of one scope × lifecycle query: rows of
/// `threads` from the `cli` or `vscode` sources, in the project `scope_cwd`
/// (every project when `None`), archived or not, newest first.
pub fn query_plan(scope_cwd: Option<&str>, archived: bool) -> (r: (String, Vec<QueryParam>))
    ensures
        r.0@ == query_sql(scope_cwd is Some),
        match scope_cwd {
            Some(cwd) => r.1@.len() == 2 && (r.1@[0] matches QueryParam::Text(t) && t@ == cwd@) && (
            r.1@[1] matches QueryParam::Integer(a) && a == (if archived {
                1i64
            } else {
                0i64
            })),
            None => r.1@.len() == 1 && (r.1@[0] matches QueryParam::Integer(a) && a == (if archived {
                1i64
            } else {
                0i64
            })),
        },
{
    let flag: i64 = if archived {
        1
    } else {
        0
    };
    let mut params: Vec<QueryParam> = Vec::new();
    match scope_cwd {
        Some(cwd) => {
            params.push(QueryParam::Text(String::from_str(cwd)));
            params.push(QueryParam::Integer(flag));
            (
                String::from_str(
                    "SELECT id,title,first_user_message,cwd,updated_at,updated_at_ms,archived,archived_at,git_branch,model,tokens_used FROM threads WHERE cwd = ?1 AND archived = ?2 AND source IN ('cli', 'vscode') ORDER BY updated_at_ms DESC",
                ),
                params,
            )
        },
        None => {
            params.push(QueryParam::Integer(flag));
            (
                String::from_str(
                    "SELECT id,title,first_user_message,cwd,updated_at,updated_at_ms,archived,archived_at,git_branch,model,tokens_used FROM threads WHERE archived = ?1 AND source IN ('cli', 'vscode') ORDER BY updated_at_ms DESC",
                ),
                params,
            )
        },
    }
}

/// The two session queries differ only in the project predicate: the
/// project-scoped query is the all-projects query with `cwd = ?1` added (the
/// archived flag moving to `?2`); both keep the rows whose source is `cli` or
/// `vscode`, newest first.
pub proof fn lemma_project_query_adds_only_the_cwd_predicate()
    ensures
        query_sql(true) == "SELECT id,title,first_user_message,cwd,updated_at,updated_at_ms,archived,archived_at,git_branch,model,tokens_used FROM threads"@ + " WHERE "@ + "cwd = ?1 AND "@ + "archived = ?2"@
            + " AND source IN ('cli', 'vscode') ORDER BY updated_at_ms DESC"@,
        query_sql(false) == "SELECT id,title,first_user_message,cwd,updated_at,updated_at_ms,archived,archived_at,git_branch,model,tokens_used FROM threads"@ + " WHERE "@ + "archived = ?1"@
            + " AND source IN ('cli', 'vscode') ORDER BY updated_at_ms DESC"@,
{
    reveal_strlit("SELECT id,title,first_user_message,cwd,updated_at,updated_at_ms,archived,archived_at,git_branch,model,tokens_used FROM threads");
    reveal_strlit(" WHERE ");
    reveal_strlit("cwd = ?1 AND ");
    reveal_strlit("archived = ?2");
    reveal_strlit("archived = ?1");
    reveal_strlit(" AND source IN ('cli', 'vscode') ORDER BY updated_at_ms DESC");
    reveal_strlit("SELECT id,title,first_user_message,cwd,updated_at,updated_at_ms,archived,archived_at,git_branch,model,tokens_used FROM threads WHERE cwd = ?1 AND archived = ?2 AND source IN ('cli', 'vscode') ORDER BY updated_at_ms DESC");
    reveal_strlit("SELECT id,title,first_user_message,cwd,updated_at,updated_at_ms,archived,archived_at,git_branch,model,tokens_used FROM threads WHERE archived = ?1 AND source IN ('cli', 'vscode') ORDER BY updated_at_ms DESC");
    assert(query_sql(true) =~= "SELECT id,title,first_user_message,cwd,updated_at,updated_at_ms,archived,archived_at,git_branch,model,tokens_used FROM threads"@ + " WHERE "@ + "cwd = ?1 AND "@ + "archived = ?2"@
        + " AND source IN ('cli', 'vscode') ORDER BY updated_at_ms DESC"@);
    assert(query_sql(false) =~= "SELECT id,title,first_user_message,cwd,updated_at,updated_at_ms,archived,archived_at,git_branch,model,tokens_used FROM threads"@ + " WHERE "@ + "archived = ?1"@
        + " AND source IN ('cli', 'vscode') ORDER BY updated_at_ms DESC"@);
}

/// `$TRAECLI_HOME` wins over everything; without it `$TRAE_HOME` gives its
/// `cli` subdirectory; without either the directory is `.trae/cli` under the
/// home directory. An empty variable counts as unset.
pub proof fn lemma_cli_dir_priority(traecli_home: Option<&str>, trae_home: Option<&str>, home: Seq<char>)
    ensures
        is_set(traecli_home) ==> cli_dir(traecli_home, trae_home, home) == traecli_home.unwrap()@,
        !is_set(traecli_home) && is_set(trae_home) && trae_home.unwrap()@.last() != '/' ==> cli_dir(
            traecli_home,
            trae_home,
            home,
        ) == trae_home.unwrap()@ + "/cli"@,
        !is_set(traecli_home) && !is_set(trae_home) && home.len() > 0 && home.last() != '/'
            ==> cli_dir(traecli_home, trae_home, home) == home + "/.trae/cli"@,
{
    reveal_strlit("cli");
    reveal_strlit(".trae");
    reveal_strlit("/cli");
    reveal_strlit("/.trae/cli");
    if !is_set(traecli_home) && is_set(trae_home) && trae_home.unwrap()@.last() != '/' {
        assert(trae_home.unwrap()@ + seq!['/'] + "cli"@ =~= trae_home.unwrap()@ + "/cli"@);
    }
    if !is_set(traecli_home) && !is_set(trae_home) && home.len() > 0 && home.last() != '/' {
        let t = home + seq!['/'] + ".trae"@;
        assert(t.last() == 'e');
        assert(t + seq!['/'] + "cli"@ =~= home + "/.trae/cli"@);
    }
}

} // verus!
