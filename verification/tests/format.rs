use tsm::format::{
    cwd_relative_home, format_tokens, format_updated_with_offset, parse_tz_offset,
    session_display, truncate_display, truncate_middle,
};

#[test]
fn tokens_small() {
    assert_eq!(format_tokens(0), "0");
    assert_eq!(format_tokens(999), "999");
}

#[test]
fn tokens_thousands() {
    assert_eq!(format_tokens(1_000), "1k");
    assert_eq!(format_tokens(442_123), "442k");
    assert_eq!(format_tokens(999_999), "999k");
}

#[test]
fn tokens_millions() {
    assert_eq!(format_tokens(1_000_000), "1.0M");
    assert_eq!(format_tokens(4_300_000), "4.3M");
}

#[test]
fn session_prefers_title() {
    assert_eq!(session_display("My title", "first msg"), "My title");
}

#[test]
fn session_falls_back_to_first_message() {
    assert_eq!(session_display("", "first msg"), "first msg");
    assert_eq!(session_display("   ", "first msg"), "first msg");
}

#[test]
fn session_untitled_when_both_empty() {
    assert_eq!(session_display("", ""), "(untitled)");
}

#[test]
fn session_collapses_newlines() {
    assert_eq!(session_display("line one\nline two", ""), "line one line two");
    assert_eq!(session_display("a\t\tb", ""), "a b");
}

#[test]
fn truncate_leaves_short_strings() {
    assert_eq!(truncate_display("hello", 10), "hello");
    assert_eq!(truncate_display("hello", 5), "hello");
}

#[test]
fn truncate_appends_ellipsis() {
    assert_eq!(truncate_display("hello world", 5), "hell…");
}

#[test]
fn truncate_respects_cjk_width() {
    // Each CJK char is 2 columns wide. Budget 5 => ellipsis(1) + 4 cols => 2 chars.
    assert_eq!(truncate_display("你好世界", 5), "你好…");
    // Never split a wide char: budget 4 => ellipsis(1) + 3 cols fits 1 char.
    assert_eq!(truncate_display("你好世界", 4), "你…");
}

#[test]
fn updated_formats_known_epoch_utc() {
    // 2021-01-02 03:04:00 UTC
    let secs = 1_609_556_640;
    assert_eq!(format_updated_with_offset(secs, 0), "01-02 03:04");
}

#[test]
fn updated_applies_offset() {
    // Same instant, +08:00 -> 11:04 local.
    let secs = 1_609_556_640;
    assert_eq!(format_updated_with_offset(secs, 8 * 3600), "01-02 11:04");
}

#[test]
fn parse_tz_offset_cases() {
    assert_eq!(parse_tz_offset("+0800"), Some(8 * 3600));
    assert_eq!(parse_tz_offset("-0530"), Some(-(5 * 3600 + 30 * 60)));
    assert_eq!(parse_tz_offset("+0000"), Some(0));
    assert_eq!(parse_tz_offset("garbage"), None);
    assert_eq!(parse_tz_offset(""), None);
}

#[test]
fn tokens_negative_is_zero() {
    assert_eq!(format_tokens(-1), "0");
    assert_eq!(format_tokens(i64::MIN), "0");
}

#[test]
fn tokens_millions_match_float_formatting() {
    let mut samples: Vec<i64> = vec![
        1_000_000,
        1_049_999,
        1_050_000,
        1_150_000,
        1_250_000,
        1_350_000,
        1_750_000,
        2_250_000,
        9_950_000,
        9_999_999,
        12_345_678,
        123_456_789,
        999_950_000,
        4_503_599_627_370_495,
        9_007_199_254_740_993,
        9_007_199_254_740_995,
        123_456_789_012_345_678,
        i64::MAX,
    ];
    let mut x: u64 = 0x9E37_79B9_7F4A_7C15;
    for _ in 0..2000 {
        x ^= x << 13;
        x ^= x >> 7;
        x ^= x << 17;
        let t = 1_000_000 + (x % 100_000_000_000) as i64;
        samples.push(t);
        samples.push(1_000_000 + ((x % 10_000) as i64) * 50_000);
        samples.push((x >> 1) as i64);
    }
    for t in samples {
        let want = format!("{:.1}M", t as f64 / 1_000_000.0);
        assert_eq!(format_tokens(t), want, "tokens {t}");
    }
}

#[test]
fn tokens_thousands_match_float_formatting() {
    for t in (1_000i64..1_000_000).step_by(997) {
        let want = format!("{}k", (t as f64 / 1_000.0).floor());
        assert_eq!(format_tokens(t), want);
    }
}

#[test]
fn session_trims_and_squeezes_whitespace() {
    assert_eq!(session_display("  a \u{a0}\r\n b  ", "x"), "a b");
    assert_eq!(session_display("\n\t", " \t first \n message "), "first message");
    assert_eq!(session_display(" ", "\u{3000}"), "(untitled)");
}

#[test]
fn truncate_to_zero_width_is_empty() {
    assert_eq!(truncate_display("hello", 0), "");
    assert_eq!(truncate_display("", 0), "");
}

#[test]
fn truncate_skips_control_characters_in_the_budget() {
    // The control character counts for the whole string's width but takes no
    // column of the kept prefix.
    let s = "ab\u{7}cdef";
    let out = truncate_display(s, 3);
    assert!(out.ends_with('…'));
    assert!(out.chars().count() <= s.chars().count() + 1);
}

#[test]
fn updated_handles_leap_days_and_negative_times() {
    // 2020-02-29 12:00 UTC
    assert_eq!(format_updated_with_offset(1_582_977_600, 0), "02-29 12:00");
    // 1969-12-31 23:59 UTC
    assert_eq!(format_updated_with_offset(-60, 0), "12-31 23:59");
    // 2000-03-01 00:00 UTC
    assert_eq!(format_updated_with_offset(951_868_800, 0), "03-01 00:00");
    // The same instant seen through an offset equals the shifted instant.
    assert_eq!(
        format_updated_with_offset(1_609_556_640, -3600),
        format_updated_with_offset(1_609_556_640 - 3600, 0)
    );
}

#[test]
fn parse_tz_offset_sign_forms() {
    assert_eq!(parse_tz_offset("+-100"), Some(-3600));
    assert_eq!(parse_tz_offset("-0000"), Some(0));
    assert_eq!(parse_tz_offset("+08"), None);
    assert_eq!(parse_tz_offset("+08:0"), None);
    assert_eq!(parse_tz_offset("0800+"), None);
    assert_eq!(parse_tz_offset("+0800 extra"), Some(8 * 3600));
    assert_eq!(parse_tz_offset("+08é0"), None);
}

#[test]
fn truncate_middle_keeps_both_ends() {
    assert_eq!(truncate_middle("short", 10), "short");
    assert_eq!(truncate_middle("abcdefghij", 0), "");
    assert_eq!(truncate_middle("abcdefghij", 1), "…");
    assert_eq!(truncate_middle("abcdefghij", 6), "abc…ij");
    assert_eq!(truncate_middle("abcdefghij", 7), "abc…hij");
    assert_eq!(truncate_middle("你好世界你好", 6), "你…好");
    assert_eq!(truncate_middle("你好世界你好", 8), "你好…好");
}

#[test]
fn cwd_relative_home_cases() {
    assert_eq!(cwd_relative_home("/home/u/proj", "/home/u"), "~/proj");
    assert_eq!(cwd_relative_home("/home/u", "/home/u"), "~");
    assert_eq!(cwd_relative_home("/home/u/proj", "/home/u/"), "~/proj");
    assert_eq!(cwd_relative_home("/home/user2", "/home/u"), "/home/user2");
    assert_eq!(cwd_relative_home("/srv/x", "/home/u"), "/srv/x");
    assert_eq!(cwd_relative_home("/srv/x", ""), "/srv/x");
    assert_eq!(cwd_relative_home("/srv/x", "/"), "/srv/x");
}

#[test]
fn truncate_plain_ascii_keeps_width_minus_one() {
    let s = "abcdefghijklmnopqrstuvwxyz";
    for w in 1..30usize {
        let r = truncate_display(s, w);
        if w >= s.len() {
            assert_eq!(r, s);
        } else {
            assert_eq!(r, format!("{}…", &s[..w - 1]));
        }
    }
}
