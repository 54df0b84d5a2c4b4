//! Display formatting of the session list: timestamps, token counts, the
//! session cell and width-aware truncation.

use crate::double::{millions_in_tenths, millions_tenths};
use crate::calendar::{
    civil_from_epoch, civil_of, day_of, hour_of, is_civil_date_of, lemma_civil_date_unique, minute_of,
};
use crate::update::trim_slashes;
use crate::text::{
    all_whitespace, chars_of, decimal_text, digit, digit_char, digit_value, is_blank, is_digit,
    is_whitespace, is_ws, lemma_trim_shape, push_two_digits, string_from_chars, trim, trim_chars,
    lemma_digit_char, lemma_parse_decimal_text, parsed_u64, two_digits, u64_to_chars, IntErrorKind,
};
use unicode_width::{UnicodeWidthChar, UnicodeWidthStr};
use vstd::prelude::*;

verus! {

/// The `MM-DD HH:MM` text of a month, day, hour and minute.
pub open spec fn updated_text(month: int, day: int, hour: int, minute: int) -> Seq<char> {
    two_digits(month) + seq!['-'] + two_digits(day) + seq![' '] + two_digits(hour) + seq![':']
        + two_digits(minute)
}

/// The `MM-DD HH:MM` text of the Unix time `secs`.
pub open spec fn stamp_text(secs: int) -> Seq<char> {
    let (y, m, d) = civil_of(day_of(secs));
    updated_text(m, d, hour_of(secs), minute_of(secs))
}

/// Formats the instant `epoch_secs`, shifted by the UTC offset `offset_secs`,
/// as `MM-DD HH:MM` of the proleptic Gregorian calendar.
pub fn format_updated_with_offset(epoch_secs: i64, offset_secs: i64) -> (r: String)
    requires
        i64::MIN <= epoch_secs + offset_secs <= i64::MAX,
    ensures
        ({
            let (y, m, d) = civil_of(day_of(epoch_secs + offset_secs));
            is_civil_date_of(day_of(epoch_secs + offset_secs), y, m, d)
        }),
        r@ == stamp_text(epoch_secs + offset_secs),
{
    let secs = epoch_secs + offset_secs;
    let (year, month, day, hour, min) = civil_from_epoch(secs);
    let mut v: Vec<char> = Vec::new();
    push_two_digits(&mut v, month);
    v.push('-');
    push_two_digits(&mut v, day);
    v.push(' ');
    push_two_digits(&mut v, hour);
    v.push(':');
    push_two_digits(&mut v, min);
    assert(v@ =~= updated_text(month as int, day as int, hour as int, min as int));
    assert(is_civil_date_of(day_of(secs as int), year as int, month as int, day as int));
    proof {
        let (y, m, d) = civil_of(day_of(secs as int));
        lemma_civil_date_unique(day_of(secs as int), y, m, d, year as int, month as int, day as int);
    }
    string_from_chars(&v)
}


/// The value of the two-character text `a b` read as an `i64`: two digits, or a
/// sign followed by one digit.
pub open spec fn two_char_int(a: char, b: char) -> Option<int> {
    if is_digit(a) && is_digit(b) {
        Some(10 * digit_value(a) + digit_value(b))
    } else if a == '+' && is_digit(b) {
        Some(digit_value(b))
    } else if a == '-' && is_digit(b) {
        Some(-digit_value(b))
    } else {
        None
    }
}

/// The offset in seconds of a `+HHMM` / `-HHMM` text.
pub open spec fn tz_offset(s: Seq<char>) -> Option<int> {
    if s.len() < 5 || (s[0] != '+' && s[0] != '-') {
        None
    } else {
        match (two_char_int(s[1], s[2]), two_char_int(s[3], s[4])) {
            (Some(hh), Some(mm)) => Some(
                (if s[0] == '+' {
                    1int
                } else {
                    -1int
                }) * (hh * 3600 + mm * 60),
            ),
            _ => None,
        }
    }
}

fn parse_two(a: char, b: char) -> (r: Option<i64>)
    ensures
        r matches Some(v) ==> two_char_int(a, b) == Some(v as int),
        r is None ==> two_char_int(a, b) is None,
{
    let a_digit = '0' <= a && a <= '9';
    let b_digit = '0' <= b && b <= '9';
    if !b_digit {
        return None;
    }
    let bv = (b as u32 - 48) as i64;
    if a_digit {
        Some(10 * ((a as u32 - 48) as i64) + bv)
    } else if a == '+' {
        Some(bv)
    } else if a == '-' {
        Some(-bv)
    } else {
        None
    }
}

/// Parses a `+HHMM` / `-HHMM` timezone offset (as `date +%z` prints it) into seconds.
pub fn parse_tz_offset(s: &str) -> (r: Option<i64>)
    ensures
        r matches Some(v) ==> tz_offset(s@) == Some(v as int),
        r is None ==> tz_offset(s@) is None,
{
    let c = chars_of(s);
    if c.len() < 5 || (c[0] != '+' && c[0] != '-') {
        return None;
    }
    let hh = match parse_two(c[1], c[2]) {
        Some(v) => v,
        None => return None,
    };
    let mm = match parse_two(c[3], c[4]) {
        Some(v) => v,
        None => return None,
    };
    let sign: i64 = if c[0] == '+' {
        1
    } else {
        -1
    };
    Some(sign * (hh * 3600 + mm * 60))
}

/// `s` with each run of whitespace replaced by a single space.
pub open spec fn squeeze_ws(s: Seq<char>) -> Seq<char>
    decreases s.len(),
{
    if s.len() == 0 {
        s
    } else if is_ws(s.last()) {
        if s.len() >= 2 && is_ws(s[s.len() - 2]) {
            squeeze_ws(s.drop_last())
        } else {
            squeeze_ws(s.drop_last()).push(' ')
        }
    } else {
        squeeze_ws(s.drop_last()).push(s.last())
    }
}

/// `s` on one line: whitespace runs become single spaces, ends are trimmed.
pub open spec fn collapsed(s: Seq<char>) -> Seq<char> {
    trim(squeeze_ws(s))
}

/// Collapses newlines, tabs and other whitespace runs into single spaces, and
/// trims the ends, so that a cell stays on one line.
pub fn collapse_whitespace(s: &Vec<char>) -> (r: Vec<char>)
    ensures
        r@ == collapsed(s@),
{
    let mut out: Vec<char> = Vec::new();
    let mut prev_space = false;
    let mut i: usize = 0;
    while i < s.len()
        invariant
            i <= s.len(),
            out@ == squeeze_ws(s@.take(i as int)),
            prev_space == (i > 0 && is_ws(s@[i - 1])),
        decreases s.len() - i,
    {
        let ch = s[i];
        proof {
            assert(s@.take(i + 1).drop_last() =~= s@.take(i as int));
        }
        if is_whitespace(ch) {
            if !prev_space {
                out.push(' ');
                prev_space = true;
            }
        } else {
            out.push(ch);
            prev_space = false;
        }
        i += 1;
    }
    assert(s@.take(s.len() as int) =~= s@);
    trim_chars(&out)
}

/// `squeeze_ws` turns whitespace into single spaces that never follow other whitespace.
proof fn lemma_squeeze_shape(s: Seq<char>)
    ensures
        squeeze_ws(s).len() == 0 <==> s.len() == 0,
        s.len() > 0 ==> (is_ws(squeeze_ws(s).last()) <==> is_ws(s.last())),
        forall|i: int|
            0 <= i < squeeze_ws(s).len() && is_ws(#[trigger] squeeze_ws(s)[i]) ==> squeeze_ws(s)[i]
                == ' ' && (i > 0 ==> !is_ws(squeeze_ws(s)[i - 1])),
    decreases s.len(),
{
    if s.len() > 0 {
        let p = s.drop_last();
        lemma_squeeze_shape(p);
        let sp = squeeze_ws(p);
        let sq = squeeze_ws(s);
        if is_ws(s.last()) {
            if s.len() >= 2 && is_ws(s[s.len() - 2]) {
                assert(p.last() == s[s.len() - 2]);
            } else {
                assert forall|i: int| 0 <= i < sq.len() && is_ws(#[trigger] sq[i]) implies sq[i]
                    == ' ' && (i > 0 ==> !is_ws(sq[i - 1])) by {
                    if i < sp.len() {
                        assert(sq[i] == sp[i]);
                        if i > 0 {
                            assert(sq[i - 1] == sp[i - 1]);
                        }
                    } else if i > 0 {
                        assert(sq[i - 1] == sp.last());
                        assert(p.last() == s[s.len() - 2]);
                    }
                }
            }
        } else {
            assert forall|i: int| 0 <= i < sq.len() && is_ws(#[trigger] sq[i]) implies sq[i] == ' '
                && (i > 0 ==> !is_ws(sq[i - 1])) by {
                assert(sq[i] == sp[i]);
                if i > 0 {
                    assert(sq[i - 1] == sp[i - 1]);
                }
            }
        }
    }
}

/// A collapsed text is one line: its only whitespace is single spaces, each
/// between two non-whitespace characters.
pub proof fn lemma_collapsed_one_line(s: Seq<char>)
    ensures
        forall|i: int|
            0 <= i < collapsed(s).len() && is_ws(#[trigger] collapsed(s)[i]) ==> {
                &&& collapsed(s)[i] == ' '
                &&& 0 < i < collapsed(s).len() - 1
                &&& !is_ws(collapsed(s)[i - 1])
                &&& !is_ws(collapsed(s)[i + 1])
            },
{
    let sq = squeeze_ws(s);
    lemma_squeeze_shape(s);
    lemma_trim_shape(sq);
    let (a, b) = choose|a: int, b: int|
        0 <= a <= b <= sq.len() && #[trigger] trim(sq) == sq.subrange(a, b) && (a < b ==> (!is_ws(
            sq[a],
        ) && !is_ws(sq[b - 1])));
    let r = collapsed(s);
    assert forall|i: int| 0 <= i < r.len() && is_ws(#[trigger] r[i]) implies {
        &&& r[i] == ' '
        &&& 0 < i < r.len() - 1
        &&& !is_ws(r[i - 1])
        &&& !is_ws(r[i + 1])
    } by {
        assert(r[i] == sq[a + i]);
        assert(is_ws(sq[a + i]));
        if i > 0 {
            assert(r[i - 1] == sq[a + i - 1]);
        }
        if i + 1 < r.len() {
            assert(r[i + 1] == sq[a + i + 1]);
            if is_ws(sq[a + i + 1]) {
                assert(sq[a + i + 1] == ' ' && !is_ws(sq[a + i]));
            }
        }
    }
}

/// A session cell stays on one line: no line break or tab, only single
/// spaces between words, none at either end.
pub proof fn lemma_session_text_one_line(title: Seq<char>, first_user_message: Seq<char>)
    ensures
        forall|i: int|
            0 <= i < session_text(title, first_user_message).len() && is_ws(
                #[trigger] session_text(title, first_user_message)[i],
            ) ==> {
                &&& session_text(title, first_user_message)[i] == ' '
                &&& 0 < i < session_text(title, first_user_message).len() - 1
                &&& !is_ws(session_text(title, first_user_message)[i - 1])
                &&& !is_ws(session_text(title, first_user_message)[i + 1])
            },
{
    lemma_collapsed_one_line(title);
    lemma_collapsed_one_line(first_user_message);
    lemma_collapsed_one_line("(untitled)"@);
}

/// The text of the list's session cell for a title and a first user message.
pub open spec fn session_text(title: Seq<char>, first_user_message: Seq<char>) -> Seq<char> {
    if !is_blank(title) {
        collapsed(title)
    } else if !is_blank(first_user_message) {
        collapsed(first_user_message)
    } else {
        collapsed("(untitled)"@)
    }
}

/// The list's `session` cell: the title, else the first user message, else
/// `(untitled)`, with embedded newlines, tabs and whitespace runs collapsed.
pub fn session_display(title: &str, first_user_message: &str) -> (r: String)
    ensures
        r@ == session_text(title@, first_user_message@),
{
    let t = chars_of(title);
    let f = chars_of(first_user_message);
    let pick = if !all_whitespace(&t) {
        t
    } else if !all_whitespace(&f) {
        f
    } else {
        chars_of("(untitled)")
    };
    let out = collapse_whitespace(&pick);
    string_from_chars(&out)
}


/// The display width in columns that `unicode_width` gives a whole string.
pub uninterp spec fn str_width(s: Seq<char>) -> usize;

/// The display width in columns that `unicode_width` gives one character
/// (`None` for a control character).
pub uninterp spec fn char_width(c: char) -> Option<usize>;

/// A printable ASCII character (`' '` to `'~'`).
pub open spec fn is_plain_ascii(c: char) -> bool {
    0x20 <= (c as u32) && (c as u32) < 0x7f
}

/// Every character of `s` is printable ASCII.
pub open spec fn plain_ascii(s: Seq<char>) -> bool {
    forall|i: int| 0 <= i < s.len() ==> is_plain_ascii(#[trigger] s[i])
}

/// `UnicodeWidthStr::width` of `unicode_width`: the display width of `s`. The
/// crate computes it over the whole string (emoji and ligature sequences count
/// differently from their characters), so in general only its name is stated;
/// a printable-ASCII string is one column per character (every printable ASCII
/// character is one column and no ligature rule involves only such characters).
#[verifier::external_body]
fn width_of_str(s: &str) -> (w: usize)
    ensures
        w == str_width(s@),
        plain_ascii(s@) ==> w == s@.len(),
{
    s.width()
}

/// `UnicodeWidthChar::width` of `unicode_width`: the display width of `c`, or
/// `None` exactly for the control characters below U+0020 and from U+007F to
/// U+009F; a printable ASCII character is one column. Other widths are left
/// to the name.
#[verifier::external_body]
fn width_of_char(c: char) -> (w: Option<usize>)
    ensures
        w == char_width(c),
        is_plain_ascii(c) ==> w == Some(1usize),
        w is None <==> ((c as u32) < 0x20 || (0x7f <= (c as u32) && (c as u32) < 0xa0)),
{
    c.width()
}

/// Columns a character takes when truncating (control characters take none).
pub open spec fn cols(c: char) -> int {
    match char_width(c) {
        Some(w) => w as int,
        None => 0,
    }
}

/// Total columns of the characters of `s`.
pub open spec fn total_cols(s: Seq<char>) -> int
    decreases s.len(),
{
    if s.len() == 0 {
        0
    } else {
        total_cols(s.drop_last()) + cols(s.last())
    }
}

/// Length of the longest prefix of `s` whose characters fit, one after the
/// other, into `budget` columns (stopping at the first one that overflows).
pub open spec fn fitting_len(s: Seq<char>, budget: int) -> nat
    decreases s.len(),
{
    if s.len() == 0 || cols(s[0]) > budget {
        0
    } else {
        1 + fitting_len(s.drop_first(), budget - cols(s[0]))
    }
}

/// What `truncate_display` returns for `s` and `max_width`.
pub open spec fn truncated(s: Seq<char>, max_width: int) -> Seq<char> {
    if str_width(s) <= max_width {
        s
    } else if max_width == 0 {
        Seq::empty()
    } else {
        s.take(fitting_len(s, max_width - 1) as int).push('…')
    }
}

proof fn lemma_fitting_len_step(s: Seq<char>, i: int, budget: int)
    requires
        0 <= i < s.len(),
        cols(s[i]) <= budget,
    ensures
        fitting_len(s.skip(i), budget) == 1 + fitting_len(s.skip(i + 1), budget - cols(s[i])),
{
    assert(s.skip(i).drop_first() =~= s.skip(i + 1));
}

proof fn lemma_total_cols_push(s: Seq<char>, i: int)
    requires
        0 <= i < s.len(),
    ensures
        total_cols(s.take(i + 1)) == total_cols(s.take(i)) + cols(s[i]),
{
    assert(s.take(i + 1).drop_last() =~= s.take(i));
}

proof fn lemma_total_cols_first(s: Seq<char>)
    requires
        s.len() > 0,
    ensures
        total_cols(s) == cols(s[0]) + total_cols(s.drop_first()),
    decreases s.len(),
{
    if s.len() > 1 {
        let d = s.drop_last();
        lemma_total_cols_first(d);
        assert(d[0] == s[0]);
        assert(d.drop_first() =~= s.drop_first().drop_last());
        assert(s.drop_first().last() == s.last());
        assert(total_cols(s) == total_cols(d) + cols(s.last()));
        assert(total_cols(s.drop_first()) == total_cols(s.drop_first().drop_last()) + cols(
            s.drop_first().last(),
        ));
    } else {
        assert(s.drop_last().len() == 0);
        assert(s.drop_first().len() == 0);
        assert(total_cols(s.drop_last()) == 0);
        assert(total_cols(s.drop_first()) == 0);
        assert(s.last() == s[0]);
    }
}

proof fn lemma_fitting_len(s: Seq<char>, budget: int)
    requires
        budget >= 0,
    ensures
        fitting_len(s, budget) <= s.len(),
        total_cols(s.take(fitting_len(s, budget) as int)) <= budget,
        fitting_len(s, budget) < s.len() ==> total_cols(s.take(fitting_len(s, budget) as int + 1))
            > budget,
    decreases s.len(),
{
    let k = fitting_len(s, budget);
    if s.len() == 0 {
        assert(s.take(0).len() == 0);
    } else if cols(s[0]) > budget {
        assert(s.take(0).len() == 0);
        assert(s.take(1).drop_first().len() == 0);
        lemma_total_cols_first(s.take(1));
    } else {
        let t = s.drop_first();
        let b2 = budget - cols(s[0]);
        lemma_fitting_len(t, b2);
        let j = fitting_len(t, b2);
        assert(k == j + 1);
        lemma_total_cols_first(s.take(k as int));
        assert(s.take(k as int).drop_first() =~= t.take(j as int));
        if k < s.len() {
            lemma_total_cols_first(s.take(k as int + 1));
            assert(s.take(k as int + 1).drop_first() =~= t.take(j as int + 1));
        }
    }
}

/// Truncation keeps within the budget: what is kept of an overflowing text
/// takes at most `max_width - 1` columns (the ellipsis takes the last one), and
/// the next character would not have fitted; a text that fits is kept whole.
pub proof fn lemma_truncated_fits(s: Seq<char>, max_width: int)
    requires
        max_width >= 0,
    ensures
        str_width(s) <= max_width ==> truncated(s, max_width) == s,
        str_width(s) > max_width && max_width > 0 ==> {
            let k = fitting_len(s, max_width - 1);
            &&& k <= s.len()
            &&& truncated(s, max_width) == s.take(k as int).push('…')
            &&& total_cols(s.take(k as int)) <= max_width - 1
            &&& k < s.len() ==> total_cols(s.take(k as int + 1)) > max_width - 1
        },
{
    if max_width > 0 {
        lemma_fitting_len(s, max_width - 1);
    }
}

/// Truncates `s` to at most `max_width` display columns, appending `…` when
/// it overflows and never splitting a wide (CJK) character.
pub fn truncate_display(s: &str, max_width: usize) -> (r: String)
    ensures
        r@ == truncated(s@, max_width as int),
        plain_ascii(s@) ==> r@ == (if s@.len() <= max_width {
            s@
        } else if max_width == 0 {
            Seq::empty()
        } else {
            s@.take(max_width - 1).push('…')
        }),
{
    if width_of_str(s) <= max_width {
        return string_from_chars(&chars_of(s));
    }
    if max_width == 0 {
        return String::new();
    }
    let budget = max_width - 1;
    let c = chars_of(s);
    let mut out: Vec<char> = Vec::new();
    let mut used: usize = 0;
    let mut i: usize = 0;
    assert(c@.skip(0) =~= c@);
    while i < c.len()
        invariant
            i <= c.len(),
            c@ == s@,
            used <= budget,
            used == total_cols(c@.take(i as int)),
            out@ == c@.take(i as int),
            fitting_len(c@, budget as int) == i + fitting_len(c@.skip(i as int), budget - used),
            plain_ascii(c@) ==> used == i && c@.len() > budget,
        ensures
            out@ == c@.take(fitting_len(c@, budget as int) as int),
            plain_ascii(c@) ==> out@ == c@.take(budget as int),
        decreases c.len() - i,
    {
        let w = match width_of_char(c[i]) {
            Some(w) => w,
            None => 0,
        };
        assert(w == cols(c@[i as int]));
        assert(plain_ascii(c@) ==> is_plain_ascii(c@[i as int]));
        if w > budget - used {
            assert(c@.skip(i as int)[0] == c@[i as int]);
            assert(fitting_len(c@.skip(i as int), budget - used) == 0);
            break;
        }
        proof {
            lemma_fitting_len_step(c@, i as int, budget - used);
            lemma_total_cols_push(c@, i as int);
        }
        out.push(c[i]);
        used = used + w;
        i += 1;
        assert(out@ =~= c@.take(i as int));
        if i == c.len() {
            assert(c@.skip(i as int) =~= Seq::<char>::empty());
        }
    }
    out.push('…');
    string_from_chars(&out)
}


/// Length of the longest prefix of `c` that fits into `budget` columns, as
/// `fitting_len` defines it.
fn fitting_prefix(c: &Vec<char>, budget: usize) -> (k: usize)
    ensures
        k == fitting_len(c@, budget as int),
        k <= c@.len(),
{
    let mut used: usize = 0;
    let mut i: usize = 0;
    assert(c@.skip(0) =~= c@);
    while i < c.len()
        invariant
            i <= c.len(),
            used <= budget,
            fitting_len(c@, budget as int) == i + fitting_len(c@.skip(i as int), budget - used),
        ensures
            i == fitting_len(c@, budget as int),
        decreases c.len() - i,
    {
        let w = match width_of_char(c[i]) {
            Some(w) => w,
            None => 0,
        };
        assert(w == cols(c@[i as int]));
        if w > budget - used {
            assert(c@.skip(i as int)[0] == c@[i as int]);
            break;
        }
        proof {
            lemma_fitting_len_step(c@, i as int, budget - used);
        }
        used = used + w;
        i += 1;
        if i == c.len() {
            assert(c@.skip(i as int) =~= Seq::<char>::empty());
        }
    }
    i
}

/// Length of the longest suffix of `c` that fits into `budget` columns
/// (characters taken from the end), but at most `limit`.
fn fitting_suffix(c: &Vec<char>, budget: usize, limit: usize) -> (k: usize)
    requires
        limit <= c@.len(),
    ensures
        k == (if fitting_len(c@.reverse(), budget as int) <= limit {
            fitting_len(c@.reverse(), budget as int)
        } else {
            limit as nat
        }),
{
    let ghost rev = c@.reverse();
    let n = c.len();
    let mut used: usize = 0;
    let mut k: usize = 0;
    assert(rev.skip(0) =~= rev);
    while k < limit
        invariant
            k <= limit <= n,
            n == c@.len(),
            rev == c@.reverse(),
            rev.len() == n,
            used <= budget,
            fitting_len(rev, budget as int) == k + fitting_len(rev.skip(k as int), budget - used),
        ensures
            k == (if fitting_len(rev, budget as int) <= limit {
                fitting_len(rev, budget as int)
            } else {
                limit as nat
            }),
        decreases limit - k,
    {
        let w = match width_of_char(c[n - 1 - k]) {
            Some(w) => w,
            None => 0,
        };
        assert(rev[k as int] == c@[n - 1 - k]);
        assert(w == cols(rev[k as int]));
        if w > budget - used {
            assert(rev.skip(k as int)[0] == rev[k as int]);
            break;
        }
        proof {
            lemma_fitting_len_step(rev, k as int, budget - used);
        }
        used = used + w;
        k += 1;
    }
    k
}

/// What `truncate_middle` returns for `s` and `max_width`: `s` itself when it
/// fits; nothing for a zero width; otherwise a head and a tail of `s` around
/// `…`, the head taking the larger half of the `max_width - 1` columns left
/// beside the ellipsis and the tail the smaller half (never overlapping the head).
pub open spec fn middle_truncated(s: Seq<char>, max_width: int) -> Seq<char> {
    if str_width(s) <= max_width {
        s
    } else if max_width == 0 {
        Seq::empty()
    } else {
        let budget = max_width - 1;
        let head = fitting_len(s, budget - budget / 2);
        let fit_tail = fitting_len(s.reverse(), budget / 2);
        let tail = if fit_tail + head <= s.len() {
            fit_tail as int
        } else {
            s.len() - head
        };
        s.take(head as int) + seq!['…'] + s.skip(s.len() - tail)
    }
}

/// Truncates `s` to at most `max_width` display columns by cutting out its
/// middle: the start and the end stay, joined by `…`.
pub fn truncate_middle(s: &str, max_width: usize) -> (r: String)
    ensures
        r@ == middle_truncated(s@, max_width as int),
{
    if width_of_str(s) <= max_width {
        return string_from_chars(&chars_of(s));
    }
    if max_width == 0 {
        return String::new();
    }
    let budget = max_width - 1;
    let c = chars_of(s);
    let head = fitting_prefix(&c, budget - budget / 2);
    let tail = fitting_suffix(&c, budget / 2, c.len() - head);
    let mut out: Vec<char> = Vec::new();
    let mut i: usize = 0;
    while i < head
        invariant
            head <= c.len(),
            i <= head,
            out@ == c@.take(i as int),
        decreases head - i,
    {
        out.push(c[i]);
        i += 1;
        assert(out@ =~= c@.take(i as int));
    }
    out.push('…');
    let ghost front = out@;
    let start = c.len() - tail;
    let mut j: usize = start;
    while j < c.len()
        invariant
            start <= j <= c.len(),
            out@ == front + c@.subrange(start as int, j as int),
        decreases c.len() - j,
    {
        out.push(c[j]);
        j += 1;
        assert(out@ =~= front + c@.subrange(start as int, j as int));
    }
    assert(c@.subrange(start as int, c.len() as int) =~= c@.skip(start as int));
    string_from_chars(&out)
}

proof fn lemma_total_cols_reverse(s: Seq<char>)
    ensures
        total_cols(s.reverse()) == total_cols(s),
    decreases s.len(),
{
    if s.len() > 0 {
        let r = s.reverse();
        lemma_total_cols_first(r);
        lemma_total_cols_reverse(s.drop_last());
        assert(r.drop_first() =~= s.drop_last().reverse());
        assert(r[0] == s.last());
    }
}

/// Middle truncation keeps within the budget: of an overflowing text, the kept
/// head and tail are a prefix and a suffix that do not overlap, and together
/// they take at most `max_width - 1` columns (the ellipsis takes the last one);
/// a text that fits is kept whole.
pub proof fn lemma_middle_truncated_fits(s: Seq<char>, max_width: int)
    requires
        max_width >= 0,
    ensures
        str_width(s) <= max_width ==> middle_truncated(s, max_width) == s,
        str_width(s) > max_width && max_width > 0 ==> exists|h: int, t: int|
            #![trigger s.take(h), s.skip(t)]
            {
                &&& 0 <= h <= t <= s.len()
                &&& middle_truncated(s, max_width) == s.take(h) + seq!['…'] + s.skip(t)
                &&& total_cols(s.take(h)) + total_cols(s.skip(t)) <= max_width - 1
            },
{
    if str_width(s) > max_width && max_width > 0 {
        let budget = max_width - 1;
        let hb = budget - budget / 2;
        let tb = budget / 2;
        lemma_fitting_len(s, hb);
        lemma_fitting_len(s.reverse(), tb);
        let head = fitting_len(s, hb);
        let fit_tail = fitting_len(s.reverse(), tb);
        let tail = if fit_tail + head <= s.len() {
            fit_tail as int
        } else {
            s.len() - head
        };
        let t = s.len() - tail;
        let rev = s.reverse();
        // The kept tail reversed is a prefix of the reversed text that fits.
        assert(s.skip(t).reverse() =~= rev.take(tail));
        lemma_total_cols_reverse(s.skip(t));
        lemma_total_cols_prefix_monotone(rev.take(fit_tail as int), tail);
        assert(rev.take(fit_tail as int).take(tail) =~= rev.take(tail));
        assert(total_cols(s.take(head as int)) + total_cols(s.skip(t)) <= max_width - 1);
    }
}

proof fn lemma_total_cols_nonneg(s: Seq<char>)
    ensures
        total_cols(s) >= 0,
    decreases s.len(),
{
    if s.len() > 0 {
        lemma_total_cols_nonneg(s.drop_last());
    }
}

proof fn lemma_total_cols_prefix_monotone(s: Seq<char>, k: int)
    requires
        0 <= k <= s.len(),
    ensures
        total_cols(s.take(k)) <= total_cols(s),
    decreases s.len() - k,
{
    if k < s.len() {
        lemma_total_cols_push(s, k);
        lemma_total_cols_prefix_monotone(s, k + 1);
        assert(cols(s[k]) >= 0);
    } else {
        assert(s.take(k) =~= s);
    }
}

/// `cwd` shown relative to the home directory `home`: the home directory
/// itself is `~`, a path inside it is `~/…`, anything else stays as it is
/// (trailing `/`s of `home` are ignored; an empty or root `home` changes nothing).
pub open spec fn relative_home(cwd: Seq<char>, home: Seq<char>) -> Seq<char> {
    let h = trim_slashes(home);
    if h.len() == 0 {
        cwd
    } else if cwd == h {
        seq!['~']
    } else if cwd.len() > h.len() && cwd.take(h.len() as int) == h && cwd[h.len() as int] == '/' {
        seq!['~'] + cwd.skip(h.len() as int)
    } else {
        cwd
    }
}

/// Renders `cwd` relative to the home directory `home` (`~`, `~/project`).
pub fn cwd_relative_home(cwd: &str, home: &str) -> (r: String)
    ensures
        r@ == relative_home(cwd@, home@),
{
    let c = chars_of(cwd);
    let h = chars_of(home);
    let mut n: usize = h.len();
    assert(h@.take(h.len() as int) =~= h@);
    while n > 0 && h[n - 1] == '/'
        invariant
            n <= h.len(),
            trim_slashes(h@) == trim_slashes(h@.take(n as int)),
        decreases n,
    {
        assert(h@.take(n as int).drop_last() =~= h@.take(n - 1));
        n -= 1;
    }
    assert(n == 0 || h@.take(n as int).last() != '/');
    let ghost t = h@.take(n as int);
    assert(trim_slashes(h@) == t);
    if n == 0 || c.len() < n {
        return string_from_chars(&c);
    }
    let mut i: usize = 0;
    while i < n
        invariant
            i <= n <= c.len(),
            0 < n <= h.len(),
            c@ == cwd@,
            h@ == home@,
            t == h@.take(n as int),
            trim_slashes(h@) == t,
            c@.take(i as int) == t.take(i as int),
        decreases n - i,
    {
        if c[i] != h[i] {
            assert(c@.take(n as int)[i as int] != t[i as int]);
            proof {
                if c@ == t {
                    assert(c@.take(n as int) =~= c@);
                }
                assert(c@.take(n as int) != t);
                assert(t.len() == n);
                assert(relative_home(c@, h@) == c@);
            }
            return string_from_chars(&c);
        }
        i += 1;
        assert(c@.take(i as int) =~= t.take(i as int));
    }
    assert(c@.take(n as int) =~= t);
    if c.len() == n {
        assert(c@ =~= t);
        proof {
            reveal_strlit("~");
        }
        assert("~"@ =~= seq!['~']);
        return String::from_str("~");
    }
    if c[n] != '/' {
        return string_from_chars(&c);
    }
    let mut out: Vec<char> = Vec::new();
    out.push('~');
    let mut j: usize = n;
    while j < c.len()
        invariant
            n <= j <= c.len(),
            out@ == seq!['~'] + c@.subrange(n as int, j as int),
        decreases c.len() - j,
    {
        out.push(c[j]);
        j += 1;
        assert(out@ =~= seq!['~'] + c@.subrange(n as int, j as int));
    }
    assert(c@.subrange(n as int, c.len() as int) =~= c@.skip(n as int));
    string_from_chars(&out)
}

/// The human-readable token count: `0` for a negative count, the count itself
/// below a thousand, whole thousands as `442k` below a million, and millions
/// as `t as f64 / 1e6` printed with one decimal, as `4.3M`.
pub open spec fn tokens_text(tokens: int) -> Seq<char> {
    if tokens < 0 {
        "0"@
    } else if tokens >= 1_000_000 {
        let d = millions_tenths(tokens as nat);
        decimal_text(d / 10) + seq!['.', digit_char((d % 10) as int), 'M']
    } else if tokens >= 1000 {
        decimal_text((tokens / 1000) as nat) + seq!['k']
    } else {
        decimal_text(tokens as nat)
    }
}

/// Human-readable token count: `442k` / `4.3M`.
pub fn format_tokens(tokens: i64) -> (r: String)
    ensures
        r@ == tokens_text(tokens as int),
{
    if tokens < 0 {
        return String::from_str("0");
    }
    if tokens >= 1_000_000 {
        let d = millions_in_tenths(tokens as u64);
        let mut v = u64_to_chars(d / 10);
        v.push('.');
        v.push(digit((d % 10) as u32));
        v.push('M');
        string_from_chars(&v)
    } else if tokens >= 1000 {
        let mut v = u64_to_chars((tokens / 1000) as u64);
        v.push('k');
        string_from_chars(&v)
    } else {
        string_from_chars(&u64_to_chars(tokens as u64))
    }
}

/// Token counts below a thousand are shown exactly: the text parses back to
/// the count. From a thousand to below a million the text is a whole number
/// of thousands followed by `k`, rounded down: the number `k` before the `k`
/// satisfies `k * 1000 <= tokens < (k + 1) * 1000`. A negative count shows `0`.
pub proof fn lemma_tokens_text_reads_back(tokens: i64)
    ensures
        tokens < 0 ==> tokens_text(tokens as int) == seq!['0'],
        0 <= tokens < 1000 ==> parsed_u64(tokens_text(tokens as int)) == Ok::<u64, IntErrorKind>(
            tokens as u64,
        ),
        1000 <= tokens < 1_000_000 ==> {
            let text = tokens_text(tokens as int);
            &&& text.last() == 'k'
            &&& parsed_u64(text.drop_last()) matches Ok(k)
            &&& k * 1000 <= tokens < k * 1000 + 1000
        },
{
    if tokens < 0 {
        reveal_strlit("0");
        assert("0"@ =~= seq!['0']);
    } else if tokens < 1000 {
        lemma_parse_decimal_text(tokens as u64);
    } else if tokens < 1_000_000 {
        let k = (tokens / 1000) as u64;
        lemma_parse_decimal_text(k);
        let text = tokens_text(tokens as int);
        assert(text == decimal_text(k as nat) + seq!['k']);
        assert(text.last() == 'k');
        assert(text.drop_last() =~= decimal_text(k as nat));
        assert(parsed_u64(text.drop_last()) == Ok::<u64, IntErrorKind>(k));
        assert(k * 1000 <= tokens < k * 1000 + 1000);
    }
}

/// A `±HHMM` offset as `date +%z` prints it reads as that many hours and
/// minutes, in seconds, positive after `+` and negative after `-`.
pub proof fn lemma_tz_offset_reads_hours_and_minutes(hours: int, minutes: int)
    requires
        0 <= hours <= 99,
        0 <= minutes <= 99,
    ensures
        tz_offset(seq!['+'] + two_digits(hours) + two_digits(minutes)) == Some(hours * 3600 + minutes
            * 60),
        tz_offset(seq!['-'] + two_digits(hours) + two_digits(minutes)) == Some(-(hours * 3600
            + minutes * 60)),
{
    lemma_digit_char(hours / 10);
    lemma_digit_char(hours % 10);
    lemma_digit_char(minutes / 10);
    lemma_digit_char(minutes % 10);
    assert(10 * (hours / 10) + hours % 10 == hours);
    assert(10 * (minutes / 10) + minutes % 10 == minutes);
    let p = seq!['+'] + two_digits(hours) + two_digits(minutes);
    let q = seq!['-'] + two_digits(hours) + two_digits(minutes);
    assert(p[1] == digit_char(hours / 10) && p[2] == digit_char(hours % 10));
    assert(p[3] == digit_char(minutes / 10) && p[4] == digit_char(minutes % 10));
    assert(p[0] == '+' && q[0] == '-' && p.len() == 5 && q.len() == 5);
    assert(q[1] == digit_char(hours / 10) && q[2] == digit_char(hours % 10));
    assert(q[3] == digit_char(minutes / 10) && q[4] == digit_char(minutes % 10));
    assert((-1int) * (hours * 3600 + minutes * 60) == -(hours * 3600 + minutes * 60));
}

/// The session cell prefers the title: a title that is not blank decides the
/// cell whatever the first message is; a blank title leaves the cell to the
/// first message, shown as it would be as a title; with both blank the cell is
/// `(untitled)`.
pub proof fn lemma_session_text_prefers_title(
    title: Seq<char>,
    first: Seq<char>,
    other_first: Seq<char>,
    other_title: Seq<char>,
)
    ensures
        !is_blank(title) ==> session_text(title, first) == session_text(title, other_first),
        is_blank(title) && !is_blank(first) ==> session_text(title, first) == session_text(
            first,
            other_title,
        ),
        is_blank(title) && is_blank(first) ==> session_text(title, first) == session_text(
            "(untitled)"@,
            other_title,
        ),
{
    reveal_strlit("(untitled)");
    assert(!is_blank("(untitled)"@)) by {
        assert(!is_ws("(untitled)"@[0]));
    }
}

} // verus!
