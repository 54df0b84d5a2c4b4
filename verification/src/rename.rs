//! Renaming a session: the outcome of the title update and the normalisation
//! of the title the user typed.

use crate::text::{
    append_chars, chars_of, is_trimmed, is_ws, lemma_trim_shape, lemma_trim_trimmed,
    string_from_chars, trim, trim_chars,
};
use vstd::prelude::*;

verus! {

/// What the title update did.
#[derive(Debug, Clone, Copy, PartialEq, Eq, Structural)]
pub enum RenameOutcome {
    /// The session's title was updated.
    Renamed,
    /// No session has that id.
    Missing,
}

/// The outcome of an `UPDATE threads SET title` that changed `changed` rows.
pub fn rename_outcome(changed: usize) -> (r: RenameOutcome)
    ensures
        r == (if changed == 0 {
            RenameOutcome::Missing
        } else {
            RenameOutcome::Renamed
        }),
{
    if changed == 0 {
        RenameOutcome::Missing
    } else {
        RenameOutcome::Renamed
    }
}

/// A line break or tab: the characters that separate the lines of a title.
pub open spec fn is_break(c: char) -> bool {
    c == '\n' || c == '\r' || c == '\t'
}

/// Position of the last line break or tab of `t`, or -1 when there is none.
pub open spec fn last_break(t: Seq<char>) -> int
    decreases t.len(),
{
    if t.len() == 0 {
        -1
    } else if is_break(t.last()) {
        t.len() - 1
    } else {
        last_break(t.drop_last())
    }
}

/// `a` and `b` separated by one space, where an empty side is left out.
pub open spec fn join_spaced(a: Seq<char>, b: Seq<char>) -> Seq<char> {
    if a.len() == 0 {
        b
    } else if b.len() == 0 {
        a
    } else {
        a + seq![' '] + b
    }
}

/// The lines of `t` (split at line breaks and tabs), each trimmed, the blank
/// ones dropped, joined by single spaces.
pub open spec fn joined_lines(t: Seq<char>) -> Seq<char>
    decreases t.len(),
{
    let k = last_break(t);
    if k < 0 || k >= t.len() {
        trim(t)
    } else {
        join_spaced(joined_lines(t.take(k)), trim(t.skip(k + 1)))
    }
}

/// The title that `input` normalises to, if any.
pub open spec fn normalized_title(input: Seq<char>) -> Option<Seq<char>> {
    let t = joined_lines(input);
    if t.len() == 0 {
        None
    } else {
        Some(t)
    }
}

proof fn lemma_last_break(t: Seq<char>, k: int)
    requires
        -1 <= k < t.len(),
        k >= 0 ==> is_break(t[k]),
        forall|j: int| k < j < t.len() ==> !is_break(#[trigger] t[j]),
    ensures
        last_break(t) == k,
    decreases t.len(),
{
    if t.len() > 0 && k < t.len() - 1 {
        lemma_last_break(t.drop_last(), k);
    }
}

/// `s` holds no line break or tab.
pub open spec fn no_breaks(s: Seq<char>) -> bool {
    forall|i: int| 0 <= i < s.len() ==> !is_break(#[trigger] s[i])
}

proof fn lemma_last_break_bounds(t: Seq<char>)
    ensures
        -1 <= last_break(t) < t.len(),
        last_break(t) >= 0 ==> is_break(t[last_break(t)]),
        forall|j: int| last_break(t) < j < t.len() ==> !is_break(#[trigger] t[j]),
    decreases t.len(),
{
    if t.len() > 0 && !is_break(t.last()) {
        lemma_last_break_bounds(t.drop_last());
        assert forall|j: int| last_break(t) < j < t.len() implies !is_break(#[trigger] t[j]) by {
            if j < t.len() - 1 {
                assert(t[j] == t.drop_last()[j]);
            }
        }
    }
}

proof fn lemma_trim_keeps_no_breaks(s: Seq<char>)
    requires
        no_breaks(s),
    ensures
        no_breaks(trim(s)),
        is_trimmed(trim(s)),
{
    lemma_trim_shape(s);
    lemma_trim_trimmed(s);
    let (a, b) = choose|a: int, b: int|
        0 <= a <= b <= s.len() && #[trigger] trim(s) == s.subrange(a, b) && (a < b ==> (!is_ws(
            s[a],
        ) && !is_ws(s[b - 1])));
    assert forall|i: int| 0 <= i < trim(s).len() implies !is_break(#[trigger] trim(s)[i]) by {
        assert(trim(s)[i] == s[a + i]);
    }
}

proof fn lemma_joined_lines_shape(t: Seq<char>)
    ensures
        no_breaks(joined_lines(t)),
        is_trimmed(joined_lines(t)),
    decreases t.len(),
{
    lemma_last_break_bounds(t);
    let k = last_break(t);
    if k < 0 {
        lemma_trim_keeps_no_breaks(t);
    } else {
        let a = joined_lines(t.take(k));
        let rest = t.skip(k + 1);
        lemma_joined_lines_shape(t.take(k));
        assert forall|i: int| 0 <= i < rest.len() implies !is_break(#[trigger] rest[i]) by {
            assert(rest[i] == t[k + 1 + i]);
        }
        lemma_trim_keeps_no_breaks(rest);
        let b = trim(rest);
        if a.len() > 0 && b.len() > 0 {
            let r = a + seq![' '] + b;
            assert forall|i: int| 0 <= i < r.len() implies !is_break(#[trigger] r[i]) by {
                if i < a.len() {
                    assert(r[i] == a[i]);
                } else if i > a.len() {
                    assert(r[i] == b[i - a.len() - 1]);
                }
            }
            assert(r[0] == a[0]);
            assert(r.last() == b.last());
        }
    }
}

/// A normalised title is a single trimmed line: it is not empty, holds no line
/// break or tab, has no whitespace at either end, and normalising it again
/// gives it back unchanged.
pub proof fn lemma_normalized_title_is_stable(input: Seq<char>)
    ensures
        normalized_title(input) matches Some(t) ==> {
            &&& t.len() > 0
            &&& no_breaks(t)
            &&& is_trimmed(t)
            &&& normalized_title(t) == Some(t)
        },
{
    lemma_joined_lines_shape(input);
    let t = joined_lines(input);
    lemma_last_break_bounds(t);
    if last_break(t) >= 0 {
        assert(!is_break(t[last_break(t)]));
    }
    lemma_trim_trimmed(t);
}

/// Normalisation leaves a title that is already one trimmed line alone: a
/// non-empty text without line breaks or tabs and without whitespace at
/// either end normalises to itself, whatever its length.
pub proof fn lemma_one_line_title_is_kept(t: Seq<char>)
    requires
        t.len() > 0,
        no_breaks(t),
        is_trimmed(t),
    ensures
        normalized_title(t) == Some(t),
{
    lemma_last_break(t, -1);
    lemma_trim_trimmed(t);
}

/// Normalises a typed title: lines (split at line breaks and tabs) are trimmed
/// and joined by single spaces, blank ones dropped; `None` when nothing is left.
pub fn normalize_title(input: &str) -> (r: Option<String>)
    ensures
        match (r, normalized_title(input@)) {
            (None, None) => true,
            (Some(s), Some(t)) => s@ == t,
            _ => false,
        },
{
    let t = chars_of(input);
    let mut title: Vec<char> = Vec::new();
    let mut segment: Vec<char> = Vec::new();
    let mut seg_start: usize = 0;
    let mut i: usize = 0;
    while i < t.len()
        invariant
            seg_start <= i <= t.len(),
            t@ == input@,
            title@ == (if seg_start == 0 {
                Seq::<char>::empty()
            } else {
                joined_lines(t@.take(seg_start - 1))
            }),
            seg_start > 0 ==> is_break(t@[seg_start - 1]),
            segment@ == t@.subrange(seg_start as int, i as int),
            forall|j: int| seg_start <= j < i ==> !is_break(#[trigger] t@[j]),
        decreases t.len() - i,
    {
        let ch = t[i];
        if ch == '\n' || ch == '\r' || ch == '\t' {
            let piece = trim_chars(&segment);
            proof {
                let p = t@.take(i as int);
                if seg_start == 0 {
                    lemma_last_break(p, -1);
                    assert(p =~= segment@);
                } else {
                    lemma_last_break(p, seg_start - 1);
                    assert(p.take(seg_start - 1) =~= t@.take(seg_start - 1));
                    assert(p.skip(seg_start as int) =~= segment@);
                }
            }
            if piece.len() > 0 {
                if title.len() > 0 {
                    title.push(' ');
                }
                append_chars(&mut title, &piece);
            }
            segment = Vec::new();
            seg_start = i + 1;
        } else {
            segment.push(ch);
        }
        i += 1;
        assert(segment@ =~= t@.subrange(seg_start as int, i as int));
    }
    let piece = trim_chars(&segment);
    proof {
        let p = t@;
        if seg_start == 0 {
            lemma_last_break(p, -1);
            assert(p =~= segment@);
        } else {
            lemma_last_break(p, seg_start - 1);
            assert(p.skip(seg_start as int) =~= segment@);
        }
    }
    if piece.len() > 0 {
        if title.len() > 0 {
            title.push(' ');
        }
        append_chars(&mut title, &piece);
    }
    if title.len() == 0 {
        None
    } else {
        Some(string_from_chars(&title))
    }
}

} // verus!
