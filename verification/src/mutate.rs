//! The batch engine behind delete / archive / unarchive: which traex command
//! each operation runs, how many workers share a batch, and how a finished
//! command is judged.

use crate::text::{
    append_chars, chars_of, i64_to_chars, is_blank, signed_text, string_from_chars, trim,
    trim_chars,
};
use vstd::prelude::*;
use vstd::utf8::{decode_utf8, valid_utf8};

verus! {

/// Fixed concurrency ceiling of the fan-out pool.
pub const POOL_SIZE: usize = 4;

/// The three store-changing operations; they differ only in the verb, the
/// traex subcommand and the `--force` flag.
#[derive(Debug, Clone, Copy, PartialEq, Eq, Structural)]
pub enum Op {
    /// `traex delete <uuid> --force`: irreversible, also deletes rollout files.
    Delete,
    /// `traex archive <uuid>`: reversible, moves rollout files.
    Archive,
    /// `traex unarchive <uuid>`: the reverse of archive.
    Unarchive,
}

impl Op {
    /// The text of the traex subcommand of this operation.
    pub open spec fn subcommand_text(self) -> Seq<char> {
        match self {
            Op::Delete => "delete"@,
            Op::Archive => "archive"@,
            Op::Unarchive => "unarchive"@,
        }
    }

    /// The traex subcommand (`delete` / `archive` / `unarchive`).
    pub fn subcommand(self) -> (r: &'static str)
        ensures
            r@ == self.subcommand_text(),
    {
        match self {
            Op::Delete => "delete",
            Op::Archive => "archive",
            Op::Unarchive => "unarchive",
        }
    }

    /// Present-progressive verb of the progress modal (`Deleting…`).
    pub fn progress_verb(self) -> (r: &'static str)
        ensures
            r@ == match self {
                Op::Delete => "Deleting"@,
                Op::Archive => "Archiving"@,
                Op::Unarchive => "Unarchiving"@,
            },
    {
        match self {
            Op::Delete => "Deleting",
            Op::Archive => "Archiving",
            Op::Unarchive => "Unarchiving",
        }
    }

    /// Past-tense verb of the success toast (`Deleted N.`).
    pub fn past_verb(self) -> (r: &'static str)
        ensures
            r@ == match self {
                Op::Delete => "Deleted"@,
                Op::Archive => "Archived"@,
                Op::Unarchive => "Unarchived"@,
            },
    {
        match self {
            Op::Delete => "Deleted",
            Op::Archive => "Archived",
            Op::Unarchive => "Unarchived",
        }
    }
}

/// A unit of batch work: one operation applied to a set of session ids.
#[derive(Debug, Clone, PartialEq, Eq)]
pub struct BatchJob {
    pub op: Op,
    pub ids: Vec<String>,
}

/// What one worker reports for one id: `error` is `None` on success and the
/// failure line otherwise.
#[derive(Debug, Clone)]
pub struct Outcome {
    pub id: String,
    pub error: Option<String>,
}

/// Number of worker threads for a batch of `n_ids` ids: at most the pool size,
/// and at least one.
pub fn worker_count(n_ids: usize) -> (r: usize)
    ensures
        r == (if n_ids == 0 {
            1
        } else if n_ids < POOL_SIZE {
            n_ids
        } else {
            POOL_SIZE
        }),
        1 <= r <= POOL_SIZE,
{
    let n = if n_ids == 0 {
        1
    } else {
        n_ids
    };
    if n < POOL_SIZE {
        n
    } else {
        POOL_SIZE
    }
}

/// The arguments of the traex command that runs `op` on the session `id`;
/// delete has no TTY under tsm, so it carries `--force`.
pub fn traex_args(op: Op, id: &str) -> (r: Vec<String>)
    ensures
        r@.len() == (if op == Op::Delete {
            3int
        } else {
            2int
        }),
        r@[0]@ == op.subcommand_text(),
        r@[1]@ == id@,
        op == Op::Delete ==> r@[2]@ == "--force"@,
{
    let mut args: Vec<String> = Vec::new();
    args.push(String::from_str(op.subcommand()));
    args.push(String::from_str(id));
    if op == Op::Delete {
        args.push(String::from_str("--force"));
    }
    args
}


/// The text that `String::from_utf8_lossy` decodes from `bytes`.
pub uninterp spec fn utf8_lossy(bytes: Seq<u8>) -> Seq<char>;

/// `String::from_utf8_lossy` of std: the text of `bytes`, with each invalid
/// sequence replaced by U+FFFD. Stated: valid UTF-8 decodes to its characters;
/// the replacement of invalid sequences is left to the name.
#[verifier::external_body]
pub(crate) fn decode_lossy(bytes: &[u8]) -> (r: String)
    ensures
        r@ == utf8_lossy(bytes@),
        valid_utf8(bytes@) ==> r@ == decode_utf8(bytes@),
{
    String::from_utf8_lossy(bytes).into_owned()
}

/// Length of the first line of `text`: the position of its first `\n`, or
/// the whole length when there is none.
pub open spec fn line_end(text: Seq<char>) -> nat
    decreases text.len(),
{
    if text.len() == 0 || text[0] == '\n' {
        0
    } else {
        1 + line_end(text.drop_first())
    }
}

/// The first line (split at `\n`) of `text` that is not blank, trimmed.
pub open spec fn first_nonblank_line(text: Seq<char>) -> Option<Seq<char>>
    decreases text.len(),
{
    let k = line_end(text);
    if !is_blank(text.take(k as int)) {
        Some(trim(text.take(k as int)))
    } else if k >= text.len() {
        None
    } else {
        first_nonblank_line(text.skip(k as int + 1))
    }
}

proof fn lemma_line_end(text: Seq<char>, k: int)
    requires
        0 <= k <= text.len(),
        forall|j: int| 0 <= j < k ==> text[j] != '\n',
        k < text.len() ==> text[k] == '\n',
    ensures
        line_end(text) == k,
    decreases k,
{
    if k > 0 {
        lemma_line_end(text.drop_first(), k - 1);
    }
}

/// The failure line of a traex run that exited unsuccessfully with `stderr`
/// and exit `code` (`None` when a signal ended it).
pub open spec fn failure_line(stderr: Seq<u8>, code: Option<i32>) -> Seq<char> {
    match first_nonblank_line(utf8_lossy(stderr)) {
        Some(line) => line,
        None => match code {
            Some(c) => "Error: traex exited with status "@ + signed_text(c as int),
            None => "Error: traex terminated by signal"@,
        },
    }
}

/// Pulls the human-readable failure line out of traex's stderr: its first
/// non-blank line, trimmed; without one, a line that names the exit status.
pub fn extract_error(stderr: &[u8], code: Option<i32>) -> (r: String)
    ensures
        r@ == failure_line(stderr@, code),
{
    let text = decode_lossy(stderr);
    let t = chars_of(text.as_str());
    let mut start: usize = 0;
    let mut line: Vec<char> = Vec::new();
    let mut i: usize = 0;
    assert(t@.skip(0) =~= t@);
    while i < t.len()
        invariant
            start <= i <= t.len(),
            t@ == utf8_lossy(stderr@),
            first_nonblank_line(t@) == first_nonblank_line(t@.skip(start as int)),
            line@ == t@.subrange(start as int, i as int),
            forall|j: int| 0 <= j < line@.len() ==> line@[j] != '\n',
        decreases t.len() - i,
    {
        if t[i] == '\n' {
            proof {
                let rest = t@.skip(start as int);
                assert(rest.take(i - start) =~= line@);
                assert(rest[i - start] == '\n');
                lemma_line_end(rest, i - start);
                assert(rest.skip(i - start + 1) =~= t@.skip(i + 1));
            }
            if !crate::text::all_whitespace(&line) {
                let r = trim_chars(&line);
                return string_from_chars(&r);
            }
            line = Vec::new();
            start = i + 1;
        } else {
            line.push(t[i]);
            assert(line@ =~= t@.subrange(start as int, i + 1));
        }
        i += 1;
        assert(line@ =~= t@.subrange(start as int, i as int));
    }
    proof {
        let rest = t@.skip(start as int);
        assert(rest =~= line@);
        lemma_line_end(rest, rest.len() as int);
        assert(rest.take(rest.len() as int) =~= rest);
    }
    if !crate::text::all_whitespace(&line) {
        let r = trim_chars(&line);
        return string_from_chars(&r);
    }
    match code {
        Some(c) => {
            let mut v = chars_of("Error: traex exited with status ");
            append_chars(&mut v, &i64_to_chars(c as i64));
            string_from_chars(&v)
        },
        None => String::from_str("Error: traex terminated by signal"),
    }
}

/// The outcome of one finished traex run: `None` when it exited successfully,
/// otherwise its failure line.
pub fn exit_outcome(success: bool, stderr: &[u8], code: Option<i32>) -> (r: Option<String>)
    ensures
        success ==> r is None,
        !success ==> (r matches Some(m) && m@ == failure_line(stderr@, code)),
{
    if success {
        None
    } else {
        Some(extract_error(stderr, code))
    }
}

} // verus!
