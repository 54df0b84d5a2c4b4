use std::cmp::Ordering;
use tsm::text::IntErrorKind;
use tsm::update::{
    after_install, after_release_check, latest_version_of, release_check_command, UpdateError,
    UpdateStep,
};
use tsm::version::{compare_versions, parse_version, VersionError};

const LATEST: &str =
    "https://github.com/Plasticine-Yang/traex-session-manager/releases/tag/v0.2.0";

#[test]
fn version_comparison_is_numeric() {
    assert_eq!(
        compare_versions("0.10.0", "0.9.0").unwrap(),
        std::cmp::Ordering::Greater
    );
}

#[test]
fn version_parsing_errors() {
    assert_eq!(parse_version("1.2.3"), Ok((1, 2, 3)));
    assert_eq!(parse_version("1.2"), Err(VersionError::MissingComponent));
    assert_eq!(parse_version("1.2.3.4"), Err(VersionError::TooManyComponents));
    assert_eq!(
        parse_version("1..3"),
        Err(VersionError::InvalidComponent(IntErrorKind::Empty))
    );
    assert_eq!(
        parse_version("1.x.3"),
        Err(VersionError::InvalidComponent(IntErrorKind::InvalidDigit))
    );
    assert_eq!(
        parse_version("1.99999999999999999999.3"),
        Err(VersionError::InvalidComponent(IntErrorKind::PosOverflow))
    );
    assert_eq!(parse_version("+1.2.3"), Ok((1, 2, 3)));
    assert_eq!(
        parse_version("+.2.3"),
        Err(VersionError::InvalidComponent(IntErrorKind::InvalidDigit))
    );
    assert_eq!(compare_versions("1.0.0", "1.0.0"), Ok(Ordering::Equal));
    assert_eq!(compare_versions("1.0.0", "1.0.1"), Ok(Ordering::Less));
    assert_eq!(compare_versions("x", "1.0.0"), Err(VersionError::InvalidComponent(IntErrorKind::InvalidDigit)));
}

#[test]
fn release_url_tag() {
    assert_eq!(latest_version_of(LATEST), Some("0.2.0".to_string()));
    assert_eq!(latest_version_of("https://x/releases/tag/v1.0.0/"), Some("1.0.0".to_string()));
    assert_eq!(latest_version_of("https://x/releases/latest"), None);
    assert_eq!(latest_version_of("v3.0.0"), Some("3.0.0".to_string()));
    assert_eq!(latest_version_of(""), None);
}

#[test]
fn check_command_asks_for_the_effective_url() {
    let cmd = release_check_command();
    assert_eq!(cmd.program, "curl");
    assert_eq!(
        cmd.args,
        vec![
            "-fsSL",
            "-o",
            "/dev/null",
            "-w",
            "%{url_effective}",
            "https://github.com/Plasticine-Yang/traex-session-manager/releases/latest"
        ]
    );
}

#[test]
fn check_only_reports_an_available_update() {
    let step = after_release_check(true, "0.1.0", true, LATEST.as_bytes().to_vec(), b"");
    assert_eq!(step, Ok(UpdateStep::Report("update available: 0.1.0 -> 0.2.0".to_string())));
}

#[test]
fn current_or_newer_version_reports() {
    assert_eq!(
        after_release_check(false, "0.2.0", true, LATEST.as_bytes().to_vec(), b""),
        Ok(UpdateStep::Report("tsm 0.2.0 is already up to date".to_string()))
    );
    assert_eq!(
        after_release_check(false, "0.3.0", true, LATEST.as_bytes().to_vec(), b""),
        Ok(UpdateStep::Report(
            "tsm 0.3.0 is newer than latest release 0.2.0; not downgrading".to_string()
        ))
    );
}

#[test]
fn older_version_installs() {
    match after_release_check(false, "0.1.0", true, LATEST.as_bytes().to_vec(), b"") {
        Ok(UpdateStep::Install(cmd)) => {
            assert_eq!(cmd.program, "sh");
            assert_eq!(cmd.args[0], "-c");
            assert!(cmd.args[1].contains("raw.githubusercontent.com"));
            assert!(cmd.args[1].contains("install.sh"));
            assert!(cmd.args[1].contains("-o \"$script\""));
            assert!(cmd.args[1].contains("sh \"$script\""));
        }
        other => panic!("unexpected {other:?}"),
    }
    assert_eq!(after_install(true), Ok(()));
    assert_eq!(after_install(false), Err(UpdateError::InstallFailed));
}

#[test]
fn release_check_errors() {
    assert_eq!(
        after_release_check(false, "0.1.0", false, vec![], b"  curl: (6) no host\n"),
        Err(UpdateError::CheckFailed("curl: (6) no host".to_string()))
    );
    assert_eq!(
        after_release_check(false, "0.1.0", true, vec![0xff, 0xfe], b""),
        Err(UpdateError::UrlNotUtf8)
    );
    assert_eq!(
        after_release_check(false, "0.1.0", true, b"https://x/latest".to_vec(), b""),
        Err(UpdateError::NoVersionTag)
    );
    assert_eq!(
        after_release_check(false, "0.1", true, LATEST.as_bytes().to_vec(), b""),
        Err(UpdateError::BadVersion("0.1".to_string(), VersionError::MissingComponent))
    );
    assert_eq!(
        after_release_check(false, "0.1.0", true, b"https://x/tag/v2".to_vec(), b""),
        Err(UpdateError::BadVersion("2".to_string(), VersionError::MissingComponent))
    );
}

/// Runs the update the way `tsm self-update` does, with `runner` standing for
/// the process runner: it gets the program and its arguments and answers with
/// the exit success, stdout and stderr.
fn self_update_with(
    check_only: bool,
    current_version: &str,
    runner: impl Fn(&str, &[String]) -> (bool, Vec<u8>, Vec<u8>),
) -> Result<(), UpdateError> {
    let check = release_check_command();
    let (success, stdout, stderr) = runner(&check.program, &check.args);
    match after_release_check(check_only, current_version, success, stdout, &stderr)? {
        UpdateStep::Report(_) => Ok(()),
        UpdateStep::Install(cmd) => {
            let (success, _, _) = runner(&cmd.program, &cmd.args);
            after_install(success)
        }
    }
}

fn output(stdout: &str) -> (bool, Vec<u8>, Vec<u8>) {
    (true, stdout.as_bytes().to_vec(), Vec::new())
}

#[test]
fn check_only_does_not_run_the_installer_when_update_exists() {
    let calls = std::cell::RefCell::new(Vec::new());
    self_update_with(true, "0.1.0", |program, args| {
        calls
            .borrow_mut()
            .push(format!("{program} {}", args.join(" ")));
        output("https://github.com/Plasticine-Yang/traex-session-manager/releases/tag/v0.2.0")
    })
    .unwrap();

    assert_eq!(calls.borrow().len(), 1);
    assert!(calls.borrow()[0].starts_with("curl "));
}

#[test]
fn current_or_newer_version_never_runs_the_installer() {
    for current in ["0.2.0", "0.3.0"] {
        let calls = std::cell::RefCell::new(0);
        self_update_with(false, current, |_, _| {
            *calls.borrow_mut() += 1;
            output("https://github.com/Plasticine-Yang/traex-session-manager/releases/tag/v0.2.0")
        })
        .unwrap();
        assert_eq!(*calls.borrow(), 1);
    }
}

#[test]
fn older_version_runs_the_shared_installer() {
    let calls = std::cell::RefCell::new(Vec::new());
    self_update_with(false, "0.1.0", |program, args| {
        calls
            .borrow_mut()
            .push(format!("{program} {}", args.join(" ")));
        if program == "curl" {
            output("https://github.com/Plasticine-Yang/traex-session-manager/releases/tag/v0.2.0")
        } else {
            output("installed tsm 0.2.0\n")
        }
    })
    .unwrap();

    assert_eq!(calls.borrow().len(), 2);
    assert!(calls.borrow()[1].contains("raw.githubusercontent.com"));
    assert!(calls.borrow()[1].contains("install.sh"));
    assert!(calls.borrow()[1].contains("-o \"$script\""));
    assert!(calls.borrow()[1].contains("sh \"$script\""));
}
