//! `tsm self-update`: the decisions between the two commands it runs (the
//! release check and the installer). The caller runs each command and hands
//! its result back.

use crate::mutate::{decode_lossy, utf8_lossy};
use crate::text::{chars_of, concat3, string_from_chars, trim, trim_chars};
use crate::version::{compare_versions, version_of, version_order, VersionError};
use std::cmp::Ordering;
use vstd::prelude::*;
use vstd::utf8::{decode_utf8, valid_utf8};

verus! {

/// The URL that redirects to the latest release.
pub open spec fn latest_release_url() -> Seq<char> {
    "https://github.com/Plasticine-Yang/traex-session-manager/releases/latest"@
}

/// The installer script that the update runs with `sh -c`.
pub open spec fn installer_script() -> Seq<char> {
    "set -eu\nscript=${TMPDIR:-/tmp}/tsm-update.$$\ntrap 'rm -f \"$script\"' EXIT HUP INT TERM\ncurl -fsSL 'https://raw.githubusercontent.com/Plasticine-Yang/traex-session-manager/main/install.sh' -o \"$script\"\nsh \"$script\""@
}

/// A command to run: the program and its arguments.
#[derive(Debug, Clone, PartialEq, Eq)]
pub struct Command {
    pub program: String,
    pub args: Vec<String>,
}

/// The command that asks where the latest release lives: `curl` follows the
/// redirect and prints the final URL.
pub fn release_check_command() -> (r: Command)
    ensures
        r.program@ == "curl"@,
        r.args@.len() == 6,
        r.args@[0]@ == "-fsSL"@,
        r.args@[1]@ == "-o"@,
        r.args@[2]@ == "/dev/null"@,
        r.args@[3]@ == "-w"@,
        r.args@[4]@ == "%{url_effective}"@,
        r.args@[5]@ == latest_release_url(),
{
    let mut args: Vec<String> = Vec::new();
    args.push(String::from_str("-fsSL"));
    args.push(String::from_str("-o"));
    args.push(String::from_str("/dev/null"));
    args.push(String::from_str("-w"));
    args.push(String::from_str("%{url_effective}"));
    args.push(
        String::from_str("https://github.com/Plasticine-Yang/traex-session-manager/releases/latest"),
    );
    Command { program: String::from_str("curl"), args }
}

/// `s` without its trailing `/`s.
pub open spec fn trim_slashes(s: Seq<char>) -> Seq<char>
    decreases s.len(),
{
    if s.len() > 0 && s.last() == '/' {
        trim_slashes(s.drop_last())
    } else {
        s
    }
}

/// What follows the last `/` of `s` (all of `s` when there is none).
pub open spec fn last_segment(s: Seq<char>) -> Seq<char>
    decreases s.len(),
{
    if s.len() == 0 {
        s
    } else if s.last() == '/' {
        Seq::empty()
    } else {
        last_segment(s.drop_last()).push(s.last())
    }
}

/// The version that a release URL names: its last path segment (trailing `/`
/// ignored), which must be a tag starting with `v`; the `v` is dropped.
pub open spec fn tag_version(url: Seq<char>) -> Option<Seq<char>> {
    let tag = last_segment(trim_slashes(url));
    if tag.len() > 0 && tag[0] == 'v' {
        Some(tag.drop_first())
    } else {
        None
    }
}

/// The version that the release URL `url` ends in, if it ends in a `vX.Y.Z` tag.
pub fn latest_version_of(url: &str) -> (r: Option<String>)
    ensures
        match (r, tag_version(url@)) {
            (None, None) => true,
            (Some(v), Some(t)) => v@ == t,
            _ => false,
        },
{
    let c = chars_of(url);
    let mut end: usize = c.len();
    assert(c@.take(c@.len() as int) =~= c@);
    while end > 0 && c[end - 1] == '/'
        invariant
            end <= c.len(),
            trim_slashes(c@) == trim_slashes(c@.take(end as int)),
        decreases end,
    {
        assert(c@.take(end as int).drop_last() =~= c@.take(end - 1));
        end -= 1;
    }
    let ghost base = c@.take(end as int);
    assert(trim_slashes(base) == base);
    let mut start: usize = end;
    while start > 0 && c[start - 1] != '/'
        invariant
            start <= end <= c.len(),
            base == c@.take(end as int),
            last_segment(base) == last_segment(c@.take(start as int)) + c@.subrange(start as int, end as int),
        decreases start,
    {
        let ghost p = c@.take(start as int);
        assert(p.drop_last() =~= c@.take(start - 1));
        assert(last_segment(p) == last_segment(c@.take(start - 1)).push(c@[start - 1]));
        assert(c@.subrange(start - 1, end as int) =~= seq![c@[start - 1]] + c@.subrange(start as int, end as int));
        start -= 1;
    }
    assert(last_segment(c@.take(start as int)) =~= Seq::<char>::empty());
    let ghost tag = c@.subrange(start as int, end as int);
    assert(last_segment(base) =~= tag);
    if start < end && c[start] == 'v' {
        let mut v: Vec<char> = Vec::new();
        let mut i: usize = start + 1;
        while i < end
            invariant
                start < i <= end <= c.len(),
                v@ == c@.subrange(start + 1, i as int),
            decreases end - i,
        {
            v.push(c[i]);
            i += 1;
            assert(v@ =~= c@.subrange(start + 1, i as int));
        }
        assert(v@ =~= tag.drop_first());
        Some(string_from_chars(&v))
    } else {
        None
    }
}


/// Why the update stopped.
#[derive(Debug, Clone, PartialEq, Eq)]
pub enum UpdateError {
    /// The release check failed; its stderr, trimmed.
    CheckFailed(String),
    /// The release URL was not UTF-8.
    UrlNotUtf8,
    /// The release URL did not end in a `vX.Y.Z` tag.
    NoVersionTag,
    /// A version (the text given) is not `MAJOR.MINOR.PATCH`.
    BadVersion(String, VersionError),
    /// The installer failed.
    InstallFailed,
}

/// What to do once the latest release is known.
#[derive(Debug, Clone, PartialEq, Eq)]
pub enum UpdateStep {
    /// Nothing to install: print this line and stop.
    Report(String),
    /// Run the installer.
    Install(Command),
}

/// `String::from_utf8` of std: the text of `bytes` when they are valid UTF-8.
#[verifier::external_body]
fn utf8_text(bytes: Vec<u8>) -> (r: Option<String>)
    ensures
        r is Some <==> valid_utf8(bytes@),
        r matches Some(s) ==> s@ == decode_utf8(bytes@),
{
    String::from_utf8(bytes).ok()
}

/// Decides what follows the release check from its result (`success`,
/// `stdout`, `stderr`): the check must have succeeded with a UTF-8 URL that
/// ends in a version tag; then the current version is compared with the latest
/// one, and an older current version leads to the installer (or, with
/// `check_only`, to a report that an update is available).
pub fn after_release_check(
    check_only: bool,
    current_version: &str,
    success: bool,
    stdout: Vec<u8>,
    stderr: &[u8],
) -> (r: Result<UpdateStep, UpdateError>)
    ensures
        !success ==> (r matches Err(UpdateError::CheckFailed(m)) && m@ == trim(utf8_lossy(stderr@))),
        success && !valid_utf8(stdout@) ==> r == Err::<UpdateStep, UpdateError>(UpdateError::UrlNotUtf8),
        success && valid_utf8(stdout@) && tag_version(decode_utf8(stdout@)) is None ==> r == Err::<
            UpdateStep,
            UpdateError,
        >(UpdateError::NoVersionTag),
        success && valid_utf8(stdout@) ==> (tag_version(decode_utf8(stdout@)) matches Some(latest)
            ==> match (version_of(current_version@), version_of(latest)) {
            (Err(e), _) => r matches Err(UpdateError::BadVersion(v, e2)) && v@ == current_version@
                && e2 == e,
            (Ok(_), Err(e)) => r matches Err(UpdateError::BadVersion(v, e2)) && v@ == latest && e2
                == e,
            (Ok(a), Ok(b)) => match version_order(a, b) {
                Ordering::Equal => r matches Ok(UpdateStep::Report(m)) && m@ == "tsm "@
                    + current_version@ + " is already up to date"@,
                Ordering::Greater => r matches Ok(UpdateStep::Report(m)) && m@ == "tsm "@
                    + current_version@ + " is newer than latest release "@ + latest
                    + "; not downgrading"@,
                Ordering::Less => if check_only {
                    r matches Ok(UpdateStep::Report(m)) && m@ == "update available: "@
                        + current_version@ + " -> "@ + latest
                } else {
                    r matches Ok(UpdateStep::Install(cmd)) && cmd.program@ == "sh"@ && cmd.args@.len()
                        == 2 && cmd.args@[0]@ == "-c"@ && cmd.args@[1]@ == installer_script()
                },
            },
        }),
        r matches Ok(UpdateStep::Install(_)) ==> {
            &&& !check_only
            &&& success
            &&& valid_utf8(stdout@)
            &&& tag_version(decode_utf8(stdout@)) matches Some(latest)
            &&& version_of(current_version@) matches Ok(a)
            &&& version_of(latest) matches Ok(b)
            &&& version_order(a, b) == Ordering::Less
        },
{
    if !success {
        let text = decode_lossy(stderr);
        let t = trim_chars(&chars_of(text.as_str()));
        return Err(UpdateError::CheckFailed(string_from_chars(&t)));
    }
    let url = match utf8_text(stdout) {
        Some(u) => u,
        None => return Err(UpdateError::UrlNotUtf8),
    };
    let latest = match latest_version_of(url.as_str()) {
        Some(v) => v,
        None => return Err(UpdateError::NoVersionTag),
    };
    let order = match compare_versions(current_version, latest.as_str()) {
        Ok(o) => o,
        Err(e) => {
            let bad = match crate::version::parse_version(current_version) {
                Err(_) => String::from_str(current_version),
                Ok(_) => latest,
            };
            return Err(UpdateError::BadVersion(bad, e));
        },
    };
    match order {
        Ordering::Equal => Ok(
            UpdateStep::Report(concat3("tsm ", current_version, " is already up to date")),
        ),
        Ordering::Greater => {
            let mut m = concat3("tsm ", current_version, " is newer than latest release ");
            m.append(latest.as_str());
            m.append("; not downgrading");
            Ok(UpdateStep::Report(m))
        },
        Ordering::Less => {
            if check_only {
                let mut m = concat3("update available: ", current_version, " -> ");
                m.append(latest.as_str());
                Ok(UpdateStep::Report(m))
            } else {
                let mut args: Vec<String> = Vec::new();
                args.push(String::from_str("-c"));
                args.push(
                    String::from_str(
                        "set -eu\nscript=${TMPDIR:-/tmp}/tsm-update.$$\ntrap 'rm -f \"$script\"' EXIT HUP INT TERM\ncurl -fsSL 'https://raw.githubusercontent.com/Plasticine-Yang/traex-session-manager/main/install.sh' -o \"$script\"\nsh \"$script\"",
                    ),
                );
                Ok(UpdateStep::Install(Command { program: String::from_str("sh"), args }))
            }
        },
    }
}

/// What follows the installer: success ends the update, failure is an error.
pub fn after_install(success: bool) -> (r: Result<(), UpdateError>)
    ensures
        success <==> r is Ok,
        !success ==> r == Err::<(), UpdateError>(UpdateError::InstallFailed),
{
    if success {
        Ok(())
    } else {
        Err(UpdateError::InstallFailed)
    }
}

} // verus!
