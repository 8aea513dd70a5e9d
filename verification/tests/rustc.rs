use rustversion_detect::rustc::{parse, parse_date, parse_nightly, parse_words, ParseResult};
use rustversion_detect::{Channel, Date, RustVersion};

fn version(major: u32, minor: u32, patch: u32, channel: Channel) -> ParseResult {
    ParseResult::Success(RustVersion { major, minor, patch, channel })
}

fn chars(text: &str) -> Vec<char> {
    text.chars().collect()
}

fn words(line: &str) -> Option<RustVersion> {
    let owned: Vec<Vec<char>> = line.split(' ').map(chars).collect();
    let borrowed: Vec<&[char]> = owned.iter().map(|word| word.as_slice()).collect();
    parse_words(&borrowed)
}

#[test]
fn a_stable_compiler_is_recognized() {
    assert_eq!(parse("rustc 1.32.0\n"), version(1, 32, 0, Channel::Stable));
    assert_eq!(
        parse("rustc 1.80.1 (abc12345 2024-07-28)\n"),
        version(1, 80, 1, Channel::Stable)
    );
    assert_eq!(parse("rustc 1.32.0"), version(1, 32, 0, Channel::Stable));
}

#[test]
fn a_beta_compiler_is_recognized() {
    assert_eq!(parse("rustc 1.60.0-beta.2\n"), version(1, 60, 0, Channel::Beta));
    assert_eq!(parse("rustc 1.60.0-beta\n"), version(1, 60, 0, Channel::Beta));
    assert_eq!(
        parse("rustc 1.60.0-beta.2 (abc12345 2022-03-01)\n"),
        version(1, 60, 0, Channel::Beta)
    );
}

#[test]
fn a_nightly_compiler_is_recognized_with_its_date() {
    assert_eq!(
        parse("rustc 1.81.0-nightly (64e0f2462 2024-07-28)\n"),
        version(1, 81, 0, Channel::Nightly(Date { year: 2024, month: 7, day: 28 }))
    );
    assert_eq!(
        parse("rustc 1.81.0-nightly (64e0f2462 2024-7-8)\n"),
        version(1, 81, 0, Channel::Nightly(Date { year: 2024, month: 7, day: 8 }))
    );
    // Words after the date are not read.
    assert_eq!(
        parse("rustc 1.81.0-nightly (64e0f2462 2024-07-28) more\n"),
        version(1, 81, 0, Channel::Nightly(Date { year: 2024, month: 7, day: 28 }))
    );
    // The numbers of the date are taken as they stand.
    assert_eq!(
        parse("rustc 1.81.0-nightly (64e0f2462 2024-13-40)\n"),
        version(1, 81, 0, Channel::Nightly(Date { year: 2024, month: 13, day: 40 }))
    );
}

#[test]
fn a_nightly_compiler_without_a_date_is_a_development_compiler() {
    assert_eq!(parse("rustc 1.81.0-nightly (64e0f2462)\n"), version(1, 81, 0, Channel::Dev));
    assert_eq!(parse("rustc 1.81.0-nightly ()\n"), version(1, 81, 0, Channel::Dev));
}

#[test]
fn a_development_compiler_is_recognized() {
    assert_eq!(parse("rustc 1.81.0-dev\n"), version(1, 81, 0, Channel::Dev));
    assert_eq!(parse("rustc 1.81.0-dev (abc 2024-07-28)\n"), version(1, 81, 0, Channel::Dev));
}

#[test]
fn the_lint_tool_is_told_from_the_compiler() {
    assert_eq!(parse("clippy 0.1.85 (abc12345 2024-11-26)\n"), ParseResult::OopsClippy);
    assert_eq!(parse("clippy\n"), ParseResult::OopsClippy);
    assert_eq!(parse("clippy-driver 0.1.85\n"), ParseResult::OopsClippy);
    assert_eq!(parse("clipp 0.1.85\n"), ParseResult::Unrecognized);
    assert_eq!(parse("Clippy 0.1.85\n"), ParseResult::Unrecognized);
    // The last line is the one that is read.
    assert_eq!(
        parse("clippy 0.1.85 (abc12345 2024-11-26)\nrustc 1.85.0 (abc12345 2024-11-26)\n"),
        version(1, 85, 0, Channel::Stable)
    );
    assert_eq!(
        parse("rustc 1.85.0 (abc12345 2024-11-26)\nclippy 0.1.85 (abc12345 2024-11-26)\n"),
        ParseResult::OopsClippy
    );
}

#[test]
fn anything_else_is_not_recognized() {
    assert_eq!(parse("garbage\n"), ParseResult::Unrecognized);
    assert_eq!(parse(""), ParseResult::Unrecognized);
    assert_eq!(parse("\n"), ParseResult::Unrecognized);
    assert_eq!(parse("   \n"), ParseResult::Unrecognized);
    assert_eq!(parse("rustc\n"), ParseResult::Unrecognized);
    assert_eq!(parse("rustc \n"), ParseResult::Unrecognized);
    assert_eq!(parse("rustcc 1.32.0\n"), ParseResult::Unrecognized);
    assert_eq!(parse("rust 1.32.0\n"), ParseResult::Unrecognized);
    assert_eq!(parse("Rustc 1.32.0\n"), ParseResult::Unrecognized);
    assert_eq!(parse("cargo 1.32.0\n"), ParseResult::Unrecognized);
    // One space stands between two words: a second one makes an empty word.
    assert_eq!(parse("rustc  1.32.0\n"), ParseResult::Unrecognized);
    assert_eq!(parse("rustc\t1.32.0\n"), ParseResult::Unrecognized);
}

#[test]
fn the_numbers_of_the_version_are_read() {
    assert_eq!(parse("rustc 1.32\n"), version(1, 32, 0, Channel::Stable));
    assert_eq!(parse("rustc 1.32.5\n"), version(1, 32, 5, Channel::Stable));
    assert_eq!(parse("rustc 2.0.1\n"), version(2, 0, 1, Channel::Stable));
    assert_eq!(parse("rustc 1.32.5.9\n"), version(1, 32, 5, Channel::Stable));
    assert_eq!(parse("rustc 1.32.5.x\n"), version(1, 32, 5, Channel::Stable));
    assert_eq!(parse("rustc +1.032.05\n"), version(1, 32, 5, Channel::Stable));
    assert_eq!(
        parse("rustc 1.4294967295.4294967295\n"),
        version(1, 4294967295, 4294967295, Channel::Stable)
    );
    assert_eq!(parse("rustc 1\n"), ParseResult::Unrecognized);
    assert_eq!(parse("rustc 1.\n"), ParseResult::Unrecognized);
    assert_eq!(parse("rustc .1\n"), ParseResult::Unrecognized);
    assert_eq!(parse("rustc 1.x\n"), ParseResult::Unrecognized);
    assert_eq!(parse("rustc x.1\n"), ParseResult::Unrecognized);
    assert_eq!(parse("rustc 1.32.\n"), ParseResult::Unrecognized);
    assert_eq!(parse("rustc 1.32.x\n"), ParseResult::Unrecognized);
    assert_eq!(parse("rustc 1.4294967296.0\n"), ParseResult::Unrecognized);
    assert_eq!(parse("rustc 1.32.4294967296\n"), ParseResult::Unrecognized);
    assert_eq!(parse("rustc 1.3a.0\n"), ParseResult::Unrecognized);
    assert_eq!(parse("rustc v1.32.0\n"), ParseResult::Unrecognized);
}

#[test]
fn the_name_of_the_channel_is_all_that_follows_the_first_hyphen() {
    assert_eq!(parse("rustc 1.60.0-beta-2\n"), version(1, 60, 0, Channel::Beta));
    assert_eq!(parse("rustc 1.60.0-betamax\n"), version(1, 60, 0, Channel::Beta));
    assert_eq!(parse("rustc 1.60.0-dev-2\n"), ParseResult::Unrecognized);
    assert_eq!(parse("rustc 1.60.0-devel\n"), ParseResult::Unrecognized);
    assert_eq!(parse("rustc 1.60.0-nightly-2\n"), ParseResult::Unrecognized);
    assert_eq!(parse("rustc 1.60.0-nightlyx (abc 2024-07-28)\n"), ParseResult::Unrecognized);
    assert_eq!(parse("rustc 1.60.0-\n"), ParseResult::Unrecognized);
    assert_eq!(parse("rustc 1.60.0-stable\n"), ParseResult::Unrecognized);
    assert_eq!(parse("rustc 1.60.0-bet\n"), ParseResult::Unrecognized);
    assert_eq!(parse("rustc 1.60.0-Beta\n"), ParseResult::Unrecognized);
    assert_eq!(parse("rustc -beta\n"), ParseResult::Unrecognized);
}

#[test]
fn the_words_after_nightly_have_brackets() {
    assert_eq!(parse("rustc 1.81.0-nightly\n"), ParseResult::Unrecognized);
    assert_eq!(parse("rustc 1.81.0-nightly"), ParseResult::Unrecognized);
    assert_eq!(parse("rustc 1.81.0-nightly \n"), ParseResult::Unrecognized);
    assert_eq!(words("1.81.0-nightly"), None);
    assert_eq!(parse_nightly(&[]), None);
    assert_eq!(parse("rustc 1.81.0-nightly 64e0f2462)\n"), ParseResult::Unrecognized);
    assert_eq!(parse("rustc 1.81.0-nightly (64e0f2462\n"), ParseResult::Unrecognized);
    assert_eq!(parse("rustc 1.81.0-nightly (\n"), ParseResult::Unrecognized);
    assert_eq!(
        parse("rustc 1.81.0-nightly (64e0f2462 2024-07-28\n"),
        ParseResult::Unrecognized
    );
    assert_eq!(
        parse("rustc 1.81.0-nightly 64e0f2462 2024-07-28)\n"),
        ParseResult::Unrecognized
    );
    assert_eq!(parse("rustc 1.81.0-nightly (64e0f2462 )\n"), ParseResult::Unrecognized);
    assert_eq!(
        parse("rustc 1.81.0-nightly (64e0f2462  2024-07-28)\n"),
        ParseResult::Unrecognized
    );
    assert_eq!(
        parse("rustc 1.81.0-nightly (64e0f2462) 2024-07-28)\n"),
        version(1, 81, 0, Channel::Nightly(Date { year: 2024, month: 7, day: 28 }))
    );
}

#[test]
fn the_date_after_nightly_is_three_numbers() {
    assert_eq!(parse("rustc 1.81.0-nightly (abc 2024-07)\n"), ParseResult::Unrecognized);
    assert_eq!(parse("rustc 1.81.0-nightly (abc 2024-07-28-01)\n"), ParseResult::Unrecognized);
    assert_eq!(parse("rustc 1.81.0-nightly (abc 2024-07-)\n"), ParseResult::Unrecognized);
    assert_eq!(parse("rustc 1.81.0-nightly (abc 2024-xx-28)\n"), ParseResult::Unrecognized);
    assert_eq!(parse("rustc 1.81.0-nightly (abc 65536-07-28)\n"), ParseResult::Unrecognized);
    assert_eq!(parse("rustc 1.81.0-nightly (abc 2024-256-28)\n"), ParseResult::Unrecognized);
    assert_eq!(parse("rustc 1.81.0-nightly (abc 2024-07-256)\n"), ParseResult::Unrecognized);
    assert_eq!(parse("rustc 1.81.0-nightly (abc 2024/07/28)\n"), ParseResult::Unrecognized);
    assert_eq!(
        parse("rustc 1.81.0-nightly (abc 65535-255-255)\n"),
        version(1, 81, 0, Channel::Nightly(Date { year: 65535, month: 255, day: 255 }))
    );
}

#[test]
fn the_last_line_that_is_not_empty_is_read() {
    let found = version(1, 32, 0, Channel::Stable);
    assert_eq!(parse("rustc 1.32.0\n\n"), found);
    assert_eq!(parse("rustc 1.32.0\n\n\n\n"), found);
    assert_eq!(parse("rustc 1.32.0\r\n"), found);
    assert_eq!(parse("rustc 1.32.0\r\n\r\n"), found);
    assert_eq!(parse("\nrustc 1.32.0"), found);
    assert_eq!(parse("warning: something\nnote: something else\nrustc 1.32.0\n"), found);
    assert_eq!(parse("rustc 1.99.0\nrustc 1.32.0\n"), found);
    // A line of white space is not empty, and nothing is recognized in it.
    assert_eq!(parse("rustc 1.32.0\n \n"), ParseResult::Unrecognized);
    assert_eq!(parse("rustc 1.32.0\n\r"), ParseResult::Unrecognized);
    assert_eq!(parse("rustc 1.32.0\ngarbage\n"), ParseResult::Unrecognized);
}

#[test]
fn white_space_at_the_ends_of_the_line_is_dropped() {
    let found = version(1, 32, 0, Channel::Stable);
    assert_eq!(parse("  rustc 1.32.0  \n"), found);
    assert_eq!(parse("\trustc 1.32.0\t\n"), found);
    assert_eq!(parse("\u{a0}rustc 1.32.0\u{3000}\n"), found);
    assert_eq!(parse("rustc 1.32.0 \r\n"), found);
    assert_eq!(parse("\u{2003}rustc 1.32.0\u{85}"), found);
    // The zero width space is no white space.
    assert_eq!(parse("\u{200b}rustc 1.32.0\n"), ParseResult::Unrecognized);
}

#[test]
fn words_are_read_without_the_name_of_the_tool() {
    assert_eq!(words("1.32.0"), Some(RustVersion::stable(1, 32, 0)));
    assert_eq!(
        words("1.81.0-nightly (64e0f2462 2024-07-28)"),
        Some(RustVersion {
            major: 1,
            minor: 81,
            patch: 0,
            channel: Channel::Nightly(Date { year: 2024, month: 7, day: 28 }),
        })
    );
    assert_eq!(words("1"), None);
    assert_eq!(words(""), None);
    assert_eq!(parse_words(&[]), None);
}

#[test]
fn dates_are_read_from_text() {
    assert_eq!(parse_date(&chars("2024-07-28")), Some(Date { year: 2024, month: 7, day: 28 }));
    assert_eq!(parse_date(&chars("1-2-3")), Some(Date { year: 1, month: 2, day: 3 }));
    assert_eq!(parse_date(&chars("0-0-0")), Some(Date { year: 0, month: 0, day: 0 }));
    assert_eq!(parse_date(&chars("2024-07")), None);
    assert_eq!(parse_date(&chars("2024-07-28-")), None);
    assert_eq!(parse_date(&chars("")), None);
    assert_eq!(parse_date(&chars("--")), None);
}

#[test]
fn a_version_is_read_back_from_what_it_is_written_as() {
    for channel in [Channel::Stable, Channel::Beta, Channel::Dev] {
        for (major, minor, patch) in [(1, 0, 0), (1, 81, 0), (1, 7, 8), (0, 4294967295, 10)] {
            let written = RustVersion { major, minor, patch, channel };
            let announcement = format!("rustc {}", written.to_string());
            assert_eq!(parse(&announcement), ParseResult::Success(written));
            let after_noise = format!("warning: noise\n\n{}", announcement);
            assert_eq!(parse(&after_noise), ParseResult::Success(written));
        }
    }
    // A nightly compiler is written without the word before its date, and so
    // reads back as a development compiler.
    let nightly = RustVersion {
        major: 1,
        minor: 81,
        patch: 0,
        channel: Channel::Nightly(Date::new(2024, 7, 28)),
    };
    assert_eq!(
        parse(&format!("rustc {}", nightly.to_string())),
        version(1, 81, 0, Channel::Dev)
    );
}
