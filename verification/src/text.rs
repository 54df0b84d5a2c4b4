//! Character classes, trimming and decimal rendering shared by the other modules.

use vstd::prelude::*;

verus! {

/// Unicode `White_Space`: the characters for which `char::is_whitespace` holds.
pub open spec fn is_ws(c: char) -> bool {
    let u = c as u32;
    ||| 0x09 <= u <= 0x0d
    ||| u == 0x20
    ||| u == 0x85
    ||| u == 0xa0
    ||| u == 0x1680
    ||| 0x2000 <= u <= 0x200a
    ||| u == 0x2028
    ||| u == 0x2029
    ||| u == 0x202f
    ||| u == 0x205f
    ||| u == 0x3000
}

/// Whether `c` carries the Unicode `White_Space` property.
pub fn is_whitespace(c: char) -> (r: bool)
    ensures
        r == is_ws(c),
{
    let u = c as u32;
    (0x09 <= u && u <= 0x0d) || u == 0x20 || u == 0x85 || u == 0xa0 || u == 0x1680 || (0x2000
        <= u && u <= 0x200a) || u == 0x2028 || u == 0x2029 || u == 0x202f || u == 0x205f || u
        == 0x3000
}

/// The characters of `s`, in order.
pub fn chars_of(s: &str) -> (v: Vec<char>)
    ensures
        v@ == s@,
{
    let mut v: Vec<char> = Vec::new();
    for c in it: s.chars()
        invariant
            v@ == it.seq().take(it.index() as int),
    {
        v.push(c);
    }
    v
}


/// Appends `c` to `s`.
#[verifier::external_body]
fn push_char(s: &mut String, c: char)
    ensures
        final(s)@ == old(s)@.push(c),
{
    s.push(c);
}

/// The string made of the characters of `v`.
pub fn string_from_chars(v: &Vec<char>) -> (s: String)
    ensures
        s@ == v@,
{
    let mut s = String::new();
    let mut i: usize = 0;
    while i < v.len()
        invariant
            i <= v.len(),
            s@ == v@.take(i as int),
        decreases v.len() - i,
    {
        push_char(&mut s, v[i]);
        i += 1;
        assert(s@ == v@.take(i as int));
    }
    assert(v@.take(v.len() as int) == v@);
    s
}

/// The ASCII character of decimal digit `d`.
pub open spec fn digit_char(d: int) -> char {
    (d + 48) as char
}

/// Two-digit zero-padded decimal rendering of `n` (for `n < 100`).
pub open spec fn two_digits(n: int) -> Seq<char> {
    seq![digit_char(n / 10), digit_char(n % 10)]
}

/// The character of decimal digit `d`.
pub fn digit(d: u32) -> (c: char)
    requires
        d < 10,
    ensures
        c == digit_char(d as int),
{
    let b: u8 = 48u8 + d as u8;
    b as char
}

/// Appends the two-digit zero-padded rendering of `n` to `v`.
pub fn push_two_digits(v: &mut Vec<char>, n: u32)
    requires
        n < 100,
    ensures
        final(v)@ == old(v)@ + two_digits(n as int),
{
    v.push(digit(n / 10));
    v.push(digit(n % 10));
}


/// `s` without its leading whitespace.
pub open spec fn trim_start(s: Seq<char>) -> Seq<char>
    decreases s.len(),
{
    if s.len() > 0 && is_ws(s[0]) {
        trim_start(s.drop_first())
    } else {
        s
    }
}

/// `s` without its trailing whitespace.
pub open spec fn trim_end(s: Seq<char>) -> Seq<char>
    decreases s.len(),
{
    if s.len() > 0 && is_ws(s.last()) {
        trim_end(s.drop_last())
    } else {
        s
    }
}

/// `s` without leading and trailing whitespace, as `str::trim` returns it.
pub open spec fn trim(s: Seq<char>) -> Seq<char> {
    trim_end(trim_start(s))
}

/// Every character of `s` is whitespace (so that it trims to nothing).
pub open spec fn is_blank(s: Seq<char>) -> bool {
    forall|i: int| 0 <= i < s.len() ==> is_ws(#[trigger] s[i])
}

proof fn lemma_trim_start_skip(s: Seq<char>, i: int)
    requires
        0 <= i < s.len(),
        is_ws(s[i]),
    ensures
        trim_start(s.skip(i)) == trim_start(s.skip(i + 1)),
{
    assert(s.skip(i).drop_first() =~= s.skip(i + 1));
}

proof fn lemma_trim_end_take(s: Seq<char>, j: int)
    requires
        0 < j <= s.len(),
        is_ws(s[j - 1]),
    ensures
        trim_end(s.take(j)) == trim_end(s.take(j - 1)),
{
    assert(s.take(j).drop_last() =~= s.take(j - 1));
}

/// Number of leading whitespace characters of `s`, and `trim_start` skips exactly them.
pub fn leading_ws(s: &Vec<char>) -> (k: usize)
    ensures
        k <= s.len(),
        trim_start(s@) == s@.skip(k as int),
        forall|i: int| 0 <= i < k ==> is_ws(#[trigger] s@[i]),
        k < s.len() ==> !is_ws(s@[k as int]),
{
    let mut k: usize = 0;
    assert(s@.skip(0) =~= s@);
    while k < s.len() && is_whitespace(s[k])
        invariant
            k <= s.len(),
            trim_start(s@) == trim_start(s@.skip(k as int)),
            forall|i: int| 0 <= i < k ==> is_ws(#[trigger] s@[i]),
        decreases s.len() - k,
    {
        proof {
            lemma_trim_start_skip(s@, k as int);
        }
        k += 1;
    }
    if k < s.len() {
        assert(s@.skip(k as int)[0] == s@[k as int]);
    } else {
        assert(s@.skip(k as int) =~= Seq::<char>::empty());
    }
    k
}

/// The characters of `s` with leading and trailing whitespace removed.
pub fn trim_chars(s: &Vec<char>) -> (r: Vec<char>)
    ensures
        r@ == trim(s@),
{
    let k = leading_ws(s);
    let ghost t = s@.skip(k as int);
    let mut j: usize = s.len();
    assert(t.take(t.len() as int) =~= t);
    while j > k && is_whitespace(s[j - 1])
        invariant
            k <= j <= s.len(),
            t == s@.skip(k as int),
            trim_end(t) == trim_end(t.take(j - k)),
        decreases j,
    {
        proof {
            lemma_trim_end_take(t, (j - k) as int);
        }
        j -= 1;
    }
    let mut r: Vec<char> = Vec::new();
    let mut i: usize = k;
    while i < j
        invariant
            k <= i <= j <= s.len(),
            t == s@.skip(k as int),
            r@ == t.take(i - k),
        decreases j - i,
    {
        r.push(s[i]);
        i += 1;
        assert(r@ =~= t.take(i - k));
    }
    if j > k {
        assert(t.take(j - k).last() == s@[j - 1]);
    } else {
        assert(t.take(j - k) =~= Seq::<char>::empty());
    }
    r
}

/// Whether every character of `s` is whitespace.
pub fn all_whitespace(s: &Vec<char>) -> (r: bool)
    ensures
        r == is_blank(s@),
{
    let k = leading_ws(s);
    k == s.len()
}


/// Whether two character sequences are equal.
pub fn chars_eq(a: &Vec<char>, b: &Vec<char>) -> (r: bool)
    ensures
        r == (a@ == b@),
{
    if a.len() != b.len() {
        return false;
    }
    let mut i: usize = 0;
    while i < a.len()
        invariant
            a.len() == b.len(),
            i <= a.len(),
            forall|j: int| 0 <= j < i ==> a@[j] == b@[j],
        decreases a.len() - i,
    {
        if a[i] != b[i] {
            return false;
        }
        i += 1;
    }
    assert(a@ =~= b@);
    true
}

/// Whether two strings hold the same characters.
pub fn str_eq(a: &str, b: &str) -> (r: bool)
    ensures
        r == (a@ == b@),
{
    chars_eq(&chars_of(a), &chars_of(b))
}

/// `a` followed by `b`.
pub fn concat(a: &str, b: &str) -> (r: String)
    ensures
        r@ == a@ + b@,
{
    let mut s = String::from_str(a);
    s.append(b);
    s
}

/// `a`, `b` and `c` one after the other.
pub fn concat3(a: &str, b: &str, c: &str) -> (r: String)
    ensures
        r@ == a@ + b@ + c@,
{
    let mut s = String::from_str(a);
    s.append(b);
    s.append(c);
    s
}

/// Whether `c` is an ASCII decimal digit.
pub open spec fn is_digit(c: char) -> bool {
    '0' <= c <= '9'
}

/// The value of the ASCII decimal digit `c`.
pub open spec fn digit_value(c: char) -> int {
    c as int - 48
}

/// Every character of `s` is an ASCII decimal digit.
pub open spec fn all_digits(s: Seq<char>) -> bool {
    forall|i: int| 0 <= i < s.len() ==> is_digit(#[trigger] s[i])
}

/// The number that the decimal digits `s` write.
pub open spec fn decimal_value(s: Seq<char>) -> nat
    decreases s.len(),
{
    if s.len() == 0 {
        0
    } else {
        (decimal_value(s.drop_last()) * 10 + digit_value(s.last())) as nat
    }
}

/// The decimal digits of `n`, without leading zeros (`"0"` for zero).
pub open spec fn decimal_text(n: nat) -> Seq<char>
    decreases n,
{
    if n < 10 {
        seq![digit_char(n as int)]
    } else {
        decimal_text(n / 10).push(digit_char((n % 10) as int))
    }
}

/// The decimal rendering of a signed number, as `to_string` gives it.
pub open spec fn signed_text(n: int) -> Seq<char> {
    if n < 0 {
        seq!['-'] + decimal_text((-n) as nat)
    } else {
        decimal_text(n as nat)
    }
}

/// The decimal digits of `n`.
pub fn u64_to_chars(n: u64) -> (v: Vec<char>)
    ensures
        v@ == decimal_text(n as nat),
    decreases n,
{
    if n < 10 {
        let mut v: Vec<char> = Vec::new();
        v.push(digit(n as u32));
        v
    } else {
        let mut v = u64_to_chars(n / 10);
        v.push(digit((n % 10) as u32));
        v
    }
}

/// The decimal rendering of `n`, with a leading `-` when negative.
pub fn i64_to_chars(n: i64) -> (v: Vec<char>)
    ensures
        v@ == signed_text(n as int),
{
    if n < 0 {
        let m: u64 = if n == i64::MIN {
            9223372036854775808u64
        } else {
            (-n) as u64
        };
        let mut v: Vec<char> = Vec::new();
        v.push('-');
        let d = u64_to_chars(m);
        let mut i: usize = 0;
        while i < d.len()
            invariant
                i <= d.len(),
                v@ == seq!['-'] + d@.take(i as int),
            decreases d.len() - i,
        {
            v.push(d[i]);
            i += 1;
            assert(v@ =~= seq!['-'] + d@.take(i as int));
        }
        assert(d@.take(d.len() as int) =~= d@);
        v
    } else {
        u64_to_chars(n as u64)
    }
}

/// The characters of `a` followed by those of `b`.
pub fn append_chars(a: &mut Vec<char>, b: &Vec<char>)
    ensures
        final(a)@ == old(a)@ + b@,
{
    let ghost a0 = a@;
    let mut i: usize = 0;
    while i < b.len()
        invariant
            i <= b.len(),
            a@ == a0 + b@.take(i as int),
        decreases b.len() - i,
    {
        a.push(b[i]);
        i += 1;
        assert(a@ =~= a0 + b@.take(i as int));
    }
    assert(b@.take(b.len() as int) =~= b@);
}


/// Why a text is not a `u64` (the kinds of `core::num::IntErrorKind` that `u64` parsing gives).
#[derive(Debug, Clone, Copy, PartialEq, Eq, Structural)]
pub enum IntErrorKind {
    /// The text is empty.
    Empty,
    /// A character is not a decimal digit (a lone `+` counts as one).
    InvalidDigit,
    /// The number is larger than `u64::MAX`.
    PosOverflow,
}

/// Reads the decimal digits `s` on top of `acc`, left to right, stopping at the
/// first character that is not a digit or that makes the number overflow.
pub open spec fn scan_u64(s: Seq<char>, acc: nat) -> Result<u64, IntErrorKind>
    decreases s.len(),
{
    if s.len() == 0 {
        Ok(acc as u64)
    } else if !is_digit(s[0]) {
        Err(IntErrorKind::InvalidDigit)
    } else if acc * 10 + digit_value(s[0]) > u64::MAX {
        Err(IntErrorKind::PosOverflow)
    } else {
        scan_u64(s.drop_first(), (acc * 10 + digit_value(s[0])) as nat)
    }
}

/// What `str::parse::<u64>` gives for `s`: an optional leading `+`, then
/// decimal digits.
pub open spec fn parsed_u64(s: Seq<char>) -> Result<u64, IntErrorKind> {
    if s.len() == 0 {
        Err(IntErrorKind::Empty)
    } else if s[0] == '+' {
        if s.len() == 1 {
            Err(IntErrorKind::InvalidDigit)
        } else {
            scan_u64(s.drop_first(), 0)
        }
    } else {
        scan_u64(s, 0)
    }
}

/// Parses the decimal text `s` as a `u64`, like `str::parse::<u64>`.
pub fn parse_u64(s: &Vec<char>) -> (r: Result<u64, IntErrorKind>)
    ensures
        r == parsed_u64(s@),
{
    if s.len() == 0 {
        return Err(IntErrorKind::Empty);
    }
    let mut i: usize = 0;
    if s[0] == '+' {
        if s.len() == 1 {
            return Err(IntErrorKind::InvalidDigit);
        }
        i = 1;
    }
    let mut acc: u64 = 0;
    if i == 1 {
        assert(s@.skip(1) =~= s@.drop_first());
    } else {
        assert(s@.skip(0) =~= s@);
    }
    while i < s.len()
        invariant
            1 <= s.len(),
            i <= s.len(),
            parsed_u64(s@) == scan_u64(s@.skip(i as int), acc as nat),
        decreases s.len() - i,
    {
        let ch = s[i];
        assert(s@.skip(i as int)[0] == ch);
        assert(s@.skip(i as int).drop_first() =~= s@.skip(i + 1));
        if !('0' <= ch && ch <= '9') {
            return Err(IntErrorKind::InvalidDigit);
        }
        let d = (ch as u32 - 48) as u64;
        let next = match acc.checked_mul(10) {
            Some(v) => v.checked_add(d),
            None => None,
        };
        match next {
            Some(v) => {
                acc = v;
            },
            None => {
                return Err(IntErrorKind::PosOverflow);
            },
        }
        i += 1;
    }
    assert(s@.skip(i as int).len() == 0);
    Ok(acc)
}


/// `s` has no whitespace at either end.
pub open spec fn is_trimmed(s: Seq<char>) -> bool {
    s.len() == 0 || (!is_ws(s[0]) && !is_ws(s.last()))
}

/// `trim_start` drops a whitespace prefix and stops at a non-whitespace character.
pub proof fn lemma_trim_start_shape(s: Seq<char>)
    ensures
        exists|k: int|
            0 <= k <= s.len() && #[trigger] trim_start(s) == s.skip(k) && (k < s.len() ==> !is_ws(
                s[k],
            )),
    decreases s.len(),
{
    if s.len() > 0 && is_ws(s[0]) {
        lemma_trim_start_shape(s.drop_first());
        let k = choose|k: int|
            0 <= k <= s.drop_first().len() && #[trigger] trim_start(s.drop_first())
                == s.drop_first().skip(k) && (k < s.drop_first().len() ==> !is_ws(
                s.drop_first()[k],
            ));
        assert(s.drop_first().skip(k) =~= s.skip(k + 1));
        assert(trim_start(s) == s.skip(k + 1));
    } else {
        assert(s.skip(0) =~= s);
        assert(trim_start(s) == s.skip(0));
    }
}

/// `trim_end` drops a whitespace suffix and stops at a non-whitespace character.
pub proof fn lemma_trim_end_shape(s: Seq<char>)
    ensures
        exists|k: int|
            0 <= k <= s.len() && #[trigger] trim_end(s) == s.take(k) && (k > 0 ==> !is_ws(
                s[k - 1],
            )),
    decreases s.len(),
{
    if s.len() > 0 && is_ws(s.last()) {
        lemma_trim_end_shape(s.drop_last());
        let k = choose|k: int|
            0 <= k <= s.drop_last().len() && #[trigger] trim_end(s.drop_last())
                == s.drop_last().take(k) && (k > 0 ==> !is_ws(s.drop_last()[k - 1]));
        assert(s.drop_last().take(k) =~= s.take(k));
        assert(trim_end(s) == s.take(k));
    } else {
        assert(s.take(s.len() as int) =~= s);
        assert(trim_end(s) == s.take(s.len() as int));
    }
}

/// `trim` keeps a run of `s` that starts and ends with non-whitespace.
pub proof fn lemma_trim_shape(s: Seq<char>)
    ensures
        exists|a: int, b: int|
            0 <= a <= b <= s.len() && #[trigger] trim(s) == s.subrange(a, b) && (a < b ==> (
            !is_ws(s[a]) && !is_ws(s[b - 1]))),
{
    lemma_trim_start_shape(s);
    let a = choose|k: int|
        0 <= k <= s.len() && #[trigger] trim_start(s) == s.skip(k) && (k < s.len() ==> !is_ws(
            s[k],
        ));
    let t = s.skip(a);
    lemma_trim_end_shape(t);
    let k = choose|k: int|
        0 <= k <= t.len() && #[trigger] trim_end(t) == t.take(k) && (k > 0 ==> !is_ws(t[k - 1]));
    assert(t.take(k) =~= s.subrange(a, a + k));
    assert(trim(s) == s.subrange(a, a + k));
}

/// A trimmed text comes out of `trim` unchanged, and what `trim` returns is trimmed.
pub proof fn lemma_trim_trimmed(s: Seq<char>)
    ensures
        is_trimmed(trim(s)),
        is_trimmed(s) ==> trim(s) == s,
{
    lemma_trim_shape(s);
    if is_trimmed(s) && s.len() > 0 {
        assert(trim_start(s) == s);
        assert(trim_end(s) == s);
    }
}

/// The number the digits `s` write when read left to right on top of `acc`.
pub open spec fn horner(acc: int, s: Seq<char>) -> int
    decreases s.len(),
{
    if s.len() == 0 {
        acc
    } else {
        horner(acc * 10 + digit_value(s[0]), s.drop_first())
    }
}

proof fn lemma_horner_push(acc: int, s: Seq<char>, c: char)
    ensures
        horner(acc, s.push(c)) == horner(acc, s) * 10 + digit_value(c),
    decreases s.len(),
{
    if s.len() > 0 {
        assert(s.push(c)[0] == s[0]);
        assert(s.push(c).drop_first() =~= s.drop_first().push(c));
        lemma_horner_push(acc * 10 + digit_value(s[0]), s.drop_first(), c);
    } else {
        assert(s.push(c)[0] == c);
        assert(s.push(c).drop_first() =~= Seq::<char>::empty());
        assert(horner(acc * 10 + digit_value(c), s.push(c).drop_first()) == acc * 10 + digit_value(
            c,
        ));
    }
}

proof fn lemma_horner_decimal_value(s: Seq<char>)
    requires
        all_digits(s),
    ensures
        horner(0, s) == decimal_value(s),
    decreases s.len(),
{
    if s.len() > 0 {
        assert(is_digit(s.last()));
        assert(all_digits(s.drop_last())) by {
            assert forall|i: int| 0 <= i < s.len() - 1 implies is_digit(#[trigger] s.drop_last()[i]) by {
                assert(s.drop_last()[i] == s[i]);
            }
        }
        lemma_horner_decimal_value(s.drop_last());
        lemma_horner_push(0, s.drop_last(), s.last());
        assert(s.drop_last().push(s.last()) =~= s);
    }
}

proof fn lemma_horner_grows(acc: int, s: Seq<char>)
    requires
        acc >= 0,
        all_digits(s),
    ensures
        horner(acc, s) >= acc,
    decreases s.len(),
{
    if s.len() > 0 {
        assert(is_digit(s[0]));
        let t = s.drop_first();
        assert(all_digits(t)) by {
            assert forall|i: int| 0 <= i < t.len() implies is_digit(#[trigger] t[i]) by {
                assert(t[i] == s[i + 1]);
            }
        }
        lemma_horner_grows(acc * 10 + digit_value(s[0]), t);
    }
}

proof fn lemma_scan_digits(s: Seq<char>, acc: nat)
    requires
        all_digits(s),
        horner(acc as int, s) <= u64::MAX,
    ensures
        scan_u64(s, acc) == Ok::<u64, IntErrorKind>(horner(acc as int, s) as u64),
    decreases s.len(),
{
    if s.len() > 0 {
        assert(is_digit(s[0]));
        let t = s.drop_first();
        assert(all_digits(t)) by {
            assert forall|i: int| 0 <= i < t.len() implies is_digit(#[trigger] t[i]) by {
                assert(t[i] == s[i + 1]);
            }
        }
        let next = acc * 10 + digit_value(s[0]);
        lemma_horner_grows(next, t);
        lemma_scan_digits(t, next as nat);
    }
}

/// The character of a decimal digit is a digit and reads back as it.
pub proof fn lemma_digit_char(d: int)
    requires
        0 <= d <= 9,
    ensures
        is_digit(digit_char(d)),
        digit_value(digit_char(d)) == d,
{
}

proof fn lemma_decimal_text_digits(n: nat)
    ensures
        decimal_text(n).len() > 0,
        all_digits(decimal_text(n)),
        decimal_value(decimal_text(n)) == n,
    decreases n,
{
    lemma_digit_char((n % 10) as int);
    if n < 10 {
        assert(n % 10 == n);
        let t = decimal_text(n);
        assert(t.drop_last() =~= Seq::<char>::empty());
        assert(decimal_value(t.drop_last()) == 0);
    } else {
        lemma_decimal_text_digits(n / 10);
        let t = decimal_text(n);
        assert(t.last() == digit_char((n % 10) as int));
        assert(decimal_value(t) == decimal_value(t.drop_last()) * 10 + digit_value(t.last()));
        assert((n / 10) * 10 + n % 10 == n);
        assert(t.drop_last() =~= decimal_text(n / 10));
        assert forall|i: int| 0 <= i < t.len() implies is_digit(#[trigger] t[i]) by {
            if i < t.len() - 1 {
                assert(t[i] == decimal_text(n / 10)[i]);
            }
        }
    }
}

/// Parsing the decimal text of a number gives the number back: `parse::<u64>`
/// undoes `to_string` on every `u64`.
pub proof fn lemma_parse_decimal_text(n: u64)
    ensures
        parsed_u64(decimal_text(n as nat)) == Ok::<u64, IntErrorKind>(n),
        forall|i: int|
            0 <= i < decimal_text(n as nat).len() ==> is_digit(#[trigger] decimal_text(n as nat)[i]),
{
    let t = decimal_text(n as nat);
    lemma_decimal_text_digits(n as nat);
    lemma_horner_decimal_value(t);
    lemma_scan_digits(t, 0);
    assert(is_digit(t[0]));
}

} // verus!
