//! Release versions `MAJOR.MINOR.PATCH`: parsing and numeric comparison.

use crate::text::{
    chars_of, decimal_text, is_digit, lemma_parse_decimal_text, parse_u64, parsed_u64, IntErrorKind,
};
use std::cmp::Ordering;
use vstd::prelude::*;

verus! {

/// Why a text is not a `MAJOR.MINOR.PATCH` version.
#[derive(Debug, Clone, Copy, PartialEq, Eq, Structural)]
pub enum VersionError {
    /// Fewer than three dot-separated components.
    MissingComponent,
    /// A component is not a `u64`.
    InvalidComponent(IntErrorKind),
    /// More than three components.
    TooManyComponents,
}

/// Position of the last `.` of `s`, or -1 when there is none.
pub open spec fn last_dot(s: Seq<char>) -> int
    decreases s.len(),
{
    if s.len() == 0 {
        -1
    } else if s.last() == '.' {
        s.len() - 1
    } else {
        last_dot(s.drop_last())
    }
}

/// The pieces of `s` between dots, as `str::split('.')` yields them.
pub open spec fn split_dots(s: Seq<char>) -> Seq<Seq<char>>
    decreases s.len(),
{
    let k = last_dot(s);
    if k < 0 || k >= s.len() {
        seq![s]
    } else {
        split_dots(s.take(k)).push(s.skip(k + 1))
    }
}

/// The component `i` of a version, read as a `u64`.
pub open spec fn component(parts: Seq<Seq<char>>, i: int) -> Result<u64, VersionError> {
    if i >= parts.len() {
        Err(VersionError::MissingComponent)
    } else {
        match parsed_u64(parts[i]) {
            Ok(n) => Ok(n),
            Err(kind) => Err(VersionError::InvalidComponent(kind)),
        }
    }
}

/// The `(major, minor, patch)` that `version` spells, or why it spells none;
/// components are read left to right and the first problem is the one reported.
pub open spec fn version_of(version: Seq<char>) -> Result<(u64, u64, u64), VersionError> {
    let parts = split_dots(version);
    match component(parts, 0) {
        Err(e) => Err(e),
        Ok(major) => match component(parts, 1) {
            Err(e) => Err(e),
            Ok(minor) => match component(parts, 2) {
                Err(e) => Err(e),
                Ok(patch) => if parts.len() > 3 {
                    Err(VersionError::TooManyComponents)
                } else {
                    Ok((major, minor, patch))
                },
            },
        },
    }
}

proof fn lemma_last_dot(s: Seq<char>, k: int)
    requires
        -1 <= k < s.len(),
        k >= 0 ==> s[k] == '.',
        forall|j: int| k < j < s.len() ==> #[trigger] s[j] != '.',
    ensures
        last_dot(s) == k,
    decreases s.len(),
{
    if s.len() > 0 && k < s.len() - 1 {
        lemma_last_dot(s.drop_last(), k);
    }
}

/// The views of a list of character vectors.
pub open spec fn views_of(v: Seq<Vec<char>>) -> Seq<Seq<char>> {
    v.map_values(|p: Vec<char>| p@)
}

/// Splits `s` at every `.`.
pub fn split_at_dots(s: &Vec<char>) -> (r: Vec<Vec<char>>)
    ensures
        views_of(r@) == split_dots(s@),
{
    let mut parts: Vec<Vec<char>> = Vec::new();
    let mut current: Vec<char> = Vec::new();
    let mut start: usize = 0;
    let mut i: usize = 0;
    while i < s.len()
        invariant
            start <= i <= s.len(),
            views_of(parts@) == (if start == 0 {
                Seq::<Seq<char>>::empty()
            } else {
                split_dots(s@.take(start - 1))
            }),
            start > 0 ==> s@[start - 1] == '.',
            current@ == s@.subrange(start as int, i as int),
            forall|j: int| start <= j < i ==> #[trigger] s@[j] != '.',
        decreases s.len() - i,
    {
        if s[i] == '.' {
            proof {
                let p = s@.take(i as int);
                if start == 0 {
                    lemma_last_dot(p, -1);
                    assert(p =~= current@);
                } else {
                    lemma_last_dot(p, start - 1);
                    assert(p.take(start - 1) =~= s@.take(start - 1));
                    assert(p.skip(start as int) =~= current@);
                }
            }
            let ghost before = parts@;
            parts.push(current);
            assert(views_of(parts@) =~= views_of(before).push(s@.subrange(start as int, i as int)));
            current = Vec::new();
            start = i + 1;
            proof {
                let p = s@.take(i as int);
                if start - 1 == 0 {
                    assert(split_dots(p) == seq![p]);
                    assert(views_of(parts@) =~= split_dots(p));
                }
            }
        } else {
            current.push(s[i]);
        }
        i += 1;
        assert(current@ =~= s@.subrange(start as int, i as int));
    }
    proof {
        let p = s@;
        if start == 0 {
            lemma_last_dot(p, -1);
            assert(p =~= current@);
        } else {
            lemma_last_dot(p, start - 1);
            assert(p.skip(start as int) =~= current@);
        }
    }
    let ghost before = parts@;
    parts.push(current);
    assert(views_of(parts@) =~= views_of(before).push(s@.subrange(start as int, s.len() as int)));
    proof {
        if start == 0 {
            assert(views_of(parts@) =~= seq![s@]);
        }
    }
    parts
}


/// Reads one version component (`None` when the version has run out of them).
pub fn parse_part(part: Option<&Vec<char>>) -> (r: Result<u64, VersionError>)
    ensures
        r == (match part {
            None => Err(VersionError::MissingComponent),
            Some(p) => match parsed_u64(p@) {
                Ok(n) => Ok(n),
                Err(kind) => Err(VersionError::InvalidComponent(kind)),
            },
        }),
{
    match part {
        None => Err(VersionError::MissingComponent),
        Some(p) => match parse_u64(p) {
            Ok(n) => Ok(n),
            Err(kind) => Err(VersionError::InvalidComponent(kind)),
        },
    }
}

/// Parses `MAJOR.MINOR.PATCH` into its three numbers.
pub fn parse_version(version: &str) -> (r: Result<(u64, u64, u64), VersionError>)
    ensures
        r == version_of(version@),
{
    let parts = split_at_dots(&chars_of(version));
    let ghost ps = views_of(parts@);
    let major = parse_part(if parts.len() > 0 {
        Some(&parts[0])
    } else {
        None
    })?;
    let minor = parse_part(if parts.len() > 1 {
        Some(&parts[1])
    } else {
        None
    })?;
    let patch = parse_part(if parts.len() > 2 {
        Some(&parts[2])
    } else {
        None
    })?;
    if parts.len() > 3 {
        return Err(VersionError::TooManyComponents);
    }
    Ok((major, minor, patch))
}

/// Numeric order of two versions: by major, then minor, then patch.
pub open spec fn version_order(a: (u64, u64, u64), b: (u64, u64, u64)) -> Ordering {
    if a.0 < b.0 {
        Ordering::Less
    } else if a.0 > b.0 {
        Ordering::Greater
    } else if a.1 < b.1 {
        Ordering::Less
    } else if a.1 > b.1 {
        Ordering::Greater
    } else if a.2 < b.2 {
        Ordering::Less
    } else if a.2 > b.2 {
        Ordering::Greater
    } else {
        Ordering::Equal
    }
}

/// Compares two versions numerically; the first that fails to parse (left
/// first) gives the error.
pub fn compare_versions(left: &str, right: &str) -> (r: Result<Ordering, VersionError>)
    ensures
        r == (match (version_of(left@), version_of(right@)) {
            (Err(e), _) => Err(e),
            (Ok(_), Err(e)) => Err(e),
            (Ok(a), Ok(b)) => Ok(version_order(a, b)),
        }),
{
    let a = parse_version(left)?;
    let b = parse_version(right)?;
    let r = if a.0 < b.0 {
        Ordering::Less
    } else if a.0 > b.0 {
        Ordering::Greater
    } else if a.1 < b.1 {
        Ordering::Less
    } else if a.1 > b.1 {
        Ordering::Greater
    } else if a.2 < b.2 {
        Ordering::Less
    } else if a.2 > b.2 {
        Ordering::Greater
    } else {
        Ordering::Equal
    };
    Ok(r)
}

/// Version order is a total order: every version equals itself, and swapping
/// the two sides reverses the verdict.
pub proof fn lemma_version_order_is_total(a: (u64, u64, u64), b: (u64, u64, u64))
    ensures
        version_order(a, a) == Ordering::Equal,
        version_order(a, b) == Ordering::Equal <==> a == b,
        version_order(a, b) == Ordering::Less <==> version_order(b, a) == Ordering::Greater,
{
}

/// Version order is transitive.
pub proof fn lemma_version_order_transitive(a: (u64, u64, u64), b: (u64, u64, u64), c: (u64, u64, u64))
    requires
        version_order(a, b) == Ordering::Less,
        version_order(b, c) == Ordering::Less,
    ensures
        version_order(a, c) == Ordering::Less,
{
}

/// Versions are ordered lexicographically by `(major, minor, patch)`: the
/// first component that differs decides, whatever the later ones are, and
/// versions with equal components are equal.
pub proof fn lemma_version_order_is_lexicographic(a: (u64, u64, u64), b: (u64, u64, u64))
    ensures
        a.0 < b.0 ==> version_order(a, b) == Ordering::Less,
        a.0 > b.0 ==> version_order(a, b) == Ordering::Greater,
        a.0 == b.0 && a.1 < b.1 ==> version_order(a, b) == Ordering::Less,
        a.0 == b.0 && a.1 > b.1 ==> version_order(a, b) == Ordering::Greater,
        a.0 == b.0 && a.1 == b.1 && a.2 < b.2 ==> version_order(a, b) == Ordering::Less,
        a.0 == b.0 && a.1 == b.1 && a.2 > b.2 ==> version_order(a, b) == Ordering::Greater,
        a.0 == b.0 && a.1 == b.1 && a.2 == b.2 ==> version_order(a, b) == Ordering::Equal,
{
}

proof fn lemma_split_no_dot(x: Seq<char>)
    requires
        forall|j: int| 0 <= j < x.len() ==> #[trigger] x[j] != '.',
    ensures
        split_dots(x) == seq![x],
{
    lemma_last_dot(x, -1);
}

proof fn lemma_split_dot_then(x: Seq<char>, y: Seq<char>)
    requires
        forall|j: int| 0 <= j < y.len() ==> #[trigger] y[j] != '.',
    ensures
        split_dots(x + seq!['.'] + y) == split_dots(x).push(y),
{
    let w = x + seq!['.'] + y;
    let k = x.len() as int;
    assert forall|j: int| k < j < w.len() implies #[trigger] w[j] != '.' by {
        assert(w[j] == y[j - k - 1]);
    }
    assert(w[k] == '.');
    lemma_last_dot(w, k);
    assert(w.take(k) =~= x);
    assert(w.skip(k + 1) =~= y);
}

/// A version written out as `MAJOR.MINOR.PATCH` in decimal reads back as
/// those three numbers, in that order: major first, then minor, then patch.
pub proof fn lemma_version_text_round_trip(major: u64, minor: u64, patch: u64)
    ensures
        version_of(
            decimal_text(major as nat) + seq!['.'] + decimal_text(minor as nat) + seq!['.']
                + decimal_text(patch as nat),
        ) == Ok::<(u64, u64, u64), VersionError>((major, minor, patch)),
{
    let x = decimal_text(major as nat);
    let y = decimal_text(minor as nat);
    let z = decimal_text(patch as nat);
    lemma_parse_decimal_text(major);
    lemma_parse_decimal_text(minor);
    lemma_parse_decimal_text(patch);
    assert forall|j: int| 0 <= j < x.len() implies #[trigger] x[j] != '.' by {
        assert(is_digit(x[j]));
    }
    assert forall|j: int| 0 <= j < y.len() implies #[trigger] y[j] != '.' by {
        assert(is_digit(y[j]));
    }
    assert forall|j: int| 0 <= j < z.len() implies #[trigger] z[j] != '.' by {
        assert(is_digit(z[j]));
    }
    lemma_split_no_dot(x);
    lemma_split_dot_then(x, y);
    lemma_split_dot_then(x + seq!['.'] + y, z);
    let parts = split_dots(x + seq!['.'] + y + seq!['.'] + z);
    assert(parts =~= seq![x, y, z]);
}

/// The decimal text `MAJOR.MINOR.PATCH` of a version.
pub open spec fn version_text(v: (u64, u64, u64)) -> Seq<char> {
    decimal_text(v.0 as nat) + seq!['.'] + decimal_text(v.1 as nat) + seq!['.'] + decimal_text(
        v.2 as nat,
    )
}

/// Comparing two versions written out in decimal compares their numbers
/// lexicographically: on `"M.m.p"` texts the major decides first, then the
/// minor, then the patch, whatever the later components are.
pub proof fn lemma_version_texts_compare(a: (u64, u64, u64), b: (u64, u64, u64))
    ensures
        version_of(version_text(a)) == Ok::<(u64, u64, u64), VersionError>(a),
        version_of(version_text(b)) == Ok::<(u64, u64, u64), VersionError>(b),
        a.0 < b.0 ==> version_order(a, b) == Ordering::Less,
        a.0 == b.0 && a.1 < b.1 ==> version_order(a, b) == Ordering::Less,
        a.0 == b.0 && a.1 == b.1 && a.2 < b.2 ==> version_order(a, b) == Ordering::Less,
{
    lemma_version_text_round_trip(a.0, a.1, a.2);
    lemma_version_text_round_trip(b.0, b.1, b.2);
}

} // verus!
