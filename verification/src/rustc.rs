//! Reading the line in which a compiler announces its version.
//!
//! The compiler answers `--version` with a line such as
//! `rustc 1.81.0-nightly (64e0f2462 2024-07-28)`. Tools that stand in for the
//! compiler may print lines of their own before it, so the last line that is not
//! empty is the one that is read.

use vstd::prelude::*;
use vstd::slice::slice_subrange;
use crate::date::Date;
use crate::decimal::{parse_u16, parse_u32, parse_u8, unsigned_u16, unsigned_u32, unsigned_u8};
use crate::text::{
    after, before, chars_of, equals, final_line, first_index, has_prefix, last_line,
    lemma_final_line, lemma_pieces_first, pieces, split, split_once, starts_with, trim, trimmed,
    views,
};
use crate::version::{Channel, RustVersion};

verus! {

/// What a version announcement turned out to be.
#[derive(Copy, Clone, Debug, PartialEq, Eq, Structural)]
pub enum ParseResult {
    /// The announcement of a compiler, with its version.
    Success(RustVersion),
    /// The announcement of the lint tool that stands in for the compiler: the
    /// compiler behind it has to be asked.
    OopsClippy,
    /// Anything else.
    Unrecognized,
}

/// The date that `s` writes: a year, a month and a day, each a number, with a hyphen
/// between them. The numbers are taken as they stand, in range or not.
pub open spec fn date_of(s: Seq<char>) -> Option<Date> {
    let parts = pieces(s, '-');
    if parts.len() == 3 && unsigned_u16(parts[0]) is Some && unsigned_u8(parts[1]) is Some
        && unsigned_u8(parts[2]) is Some {
        Some(
            Date {
                year: unsigned_u16(parts[0])->0,
                month: unsigned_u8(parts[1])->0,
                day: unsigned_u8(parts[2])->0,
            },
        )
    } else {
        None
    }
}

/// The channel that the words after `-nightly` tell of. There is at least one, and
/// the first opens a bracket. Where it is the only word it closes the bracket too,
/// and the compiler counts as a development compiler, for want of a date. Where a
/// second word follows, that word is a date and a closing bracket, and the compiler
/// is the nightly compiler of that date; how the first word ends is then not looked
/// at, and words after the second are not read. Nothing else tells of a channel.
pub open spec fn nightly_channel(rest: Seq<Seq<char>>) -> Option<Channel> {
    if rest.len() == 0 {
        None
    } else if !(rest[0].len() > 0 && rest[0][0] == '(') {
        None
    } else if rest.len() == 1 {
        if rest[0].last() == ')' {
            Some(Channel::Dev)
        } else {
            None
        }
    } else if !(rest[1].len() > 0 && rest[1].last() == ')') {
        None
    } else {
        match date_of(rest[1].drop_last()) {
            Some(date) => Some(Channel::Nightly(date)),
            None => None,
        }
    }
}

/// The channel that is named by what follows the hyphen in the version word, if
/// anything follows it, and by the words `rest` after the version word: stable
/// without a name, development for `dev`, beta for a name that begins with `beta`,
/// and for `nightly` what `rest` tells. No other name is a channel.
pub open spec fn channel_of(name: Option<Seq<char>>, rest: Seq<Seq<char>>) -> Option<Channel> {
    match name {
        None => Some(Channel::Stable),
        Some(name) => if name == "dev"@ {
            Some(Channel::Dev)
        } else if has_prefix(name, "beta"@) {
            Some(Channel::Beta)
        } else if name == "nightly"@ {
            nightly_channel(rest)
        } else {
            None
        },
    }
}

/// The version that the words after the compiler's name tell of. The first of them
/// is the version word: numbers with full stops between them, then, if a hyphen
/// follows, the name of a channel. The first two numbers are the major and the minor
/// version; the third is the patch version, which is zero where there is no third;
/// numbers after the third are not read.
pub open spec fn version_of(words: Seq<Seq<char>>) -> Option<RustVersion> {
    if words.len() == 0 {
        None
    } else {
        let numbers = pieces(before(words[0], '-'), '.');
        let major = unsigned_u32(numbers[0]);
        let minor = if numbers.len() >= 2 {
            unsigned_u32(numbers[1])
        } else {
            None
        };
        let patch = if numbers.len() >= 3 {
            unsigned_u32(numbers[2])
        } else {
            Some(0u32)
        };
        let channel = channel_of(after(words[0], '-'), words.drop_first());
        if major is Some && minor is Some && patch is Some && channel is Some {
            Some(
                RustVersion {
                    major: major->0,
                    minor: minor->0,
                    patch: patch->0,
                    channel: channel->0,
                },
            )
        } else {
            None
        }
    }
}

/// What `text` announces. Its last line that is not empty is read, without the white
/// space at its ends, as words with one space between them. The first word names the
/// tool: after `rustc` the other words tell of the version, and the line is not
/// recognized where they fail to; a first word that begins with `clippy` is that of
/// the lint tool; nothing else is recognized.
pub open spec fn announced(text: Seq<char>) -> ParseResult {
    let words = pieces(trimmed(final_line(text)), ' ');
    if words[0] == "rustc"@ {
        match version_of(words.drop_first()) {
            Some(version) => ParseResult::Success(version),
            None => ParseResult::Unrecognized,
        }
    } else if has_prefix(words[0], "clippy"@) {
        ParseResult::OopsClippy
    } else {
        ParseResult::Unrecognized
    }
}

/// Only the last line is read: what stands before a line that has a character in
/// it, and ends the text, makes no difference.
pub proof fn lemma_earlier_lines_are_not_read(earlier: Seq<char>, line: Seq<char>)
    requires
        line.len() > 0,
        first_index(line, '\n') == line.len(),
    ensures
        announced(earlier + seq!['\n'] + line) == announced(line),
{
    lemma_final_line(earlier, line);
}

/// Reads a date such as `2024-07-28`.
pub fn parse_date(s: &[char]) -> (r: Option<Date>)
    ensures
        r == date_of(s@),
{
    let parts = split(s, '-');
    assert(forall|i: int| 0 <= i < parts.len() ==> views(parts@)[i] == parts@[i]@);
    if parts.len() != 3 {
        return None;
    }
    let year = match parse_u16(parts[0]) {
        Some(year) => year,
        None => {
            return None;
        },
    };
    let month = match parse_u8(parts[1]) {
        Some(month) => month,
        None => {
            return None;
        },
    };
    let day = match parse_u8(parts[2]) {
        Some(day) => day,
        None => {
            return None;
        },
    };
    Some(Date::unchecked(year, month, day))
}

/// Reads the channel from the words after `-nightly`.
pub fn parse_nightly(rest: &[&[char]]) -> (r: Option<Channel>)
    ensures
        r == nightly_channel(views(rest@)),
{
    assert(forall|i: int| 0 <= i < rest.len() ==> views(rest@)[i] == rest@[i]@);
    if rest.len() == 0 {
        return None;
    }
    let hash = rest[0];
    if !(hash.len() > 0 && hash[0] == '(') {
        return None;
    }
    if rest.len() == 1 {
        return if hash[hash.len() - 1] == ')' {
            Some(Channel::Dev)
        } else {
            None
        };
    }
    let date = rest[1];
    if !(date.len() > 0 && date[date.len() - 1] == ')') {
        return None;
    }
    match parse_date(slice_subrange(date, 0, date.len() - 1)) {
        Some(date) => Some(Channel::Nightly(date)),
        None => None,
    }
}

/// Reads the channel from its name, if there is one, and the words after the
/// version word.
pub fn parse_channel(name: Option<&[char]>, rest: &[&[char]]) -> (r: Option<Channel>)
    ensures
        r == channel_of(
            match name {
                Some(name) => Some(name@),
                None => None,
            },
            views(rest@),
        ),
{
    match name {
        None => Some(Channel::Stable),
        Some(name) => {
            if equals(name, "dev") {
                Some(Channel::Dev)
            } else if starts_with(name, "beta") {
                Some(Channel::Beta)
            } else if equals(name, "nightly") {
                parse_nightly(rest)
            } else {
                None
            }
        },
    }
}

/// Reads the version from the words that follow the compiler's name.
pub fn parse_words(words: &[&[char]]) -> (r: Option<RustVersion>)
    ensures
        r == version_of(views(words@)),
{
    assert(forall|i: int| 0 <= i < words.len() ==> views(words@)[i] == words@[i]@);
    if words.len() == 0 {
        return None;
    }
    let (version, channel) = split_once(words[0], '-');
    let numbers = split(version, '.');
    proof {
        lemma_pieces_first(version@, '.');
    }
    assert(forall|i: int| 0 <= i < numbers.len() ==> views(numbers@)[i] == numbers@[i]@);
    let major = match parse_u32(numbers[0]) {
        Some(major) => major,
        None => {
            return None;
        },
    };
    if numbers.len() < 2 {
        return None;
    }
    let minor = match parse_u32(numbers[1]) {
        Some(minor) => minor,
        None => {
            return None;
        },
    };
    let patch = if numbers.len() >= 3 {
        match parse_u32(numbers[2]) {
            Some(patch) => patch,
            None => {
                return None;
            },
        }
    } else {
        0
    };
    let rest = slice_subrange(words, 1, words.len());
    assert(views(rest@) =~= views(words@).drop_first());
    let channel = match parse_channel(channel, rest) {
        Some(channel) => channel,
        None => {
            return None;
        },
    };
    Some(RustVersion { major, minor, patch, channel })
}

/// Reads what a compiler printed when asked for its version.
pub fn parse(string: &str) -> (r: ParseResult)
    ensures
        r == announced(string@),
{
    let chars = chars_of(string);
    let line = trim(last_line(chars.as_slice()));
    let words = split(line, ' ');
    proof {
        lemma_pieces_first(line@, ' ');
    }
    assert(forall|i: int| 0 <= i < words.len() ==> views(words@)[i] == words@[i]@);
    if equals(words[0], "rustc") {
        let rest = slice_subrange(words.as_slice(), 1, words.len());
        assert(views(rest@) =~= views(words@).drop_first());
        match parse_words(rest) {
            Some(version) => ParseResult::Success(version),
            None => ParseResult::Unrecognized,
        }
    } else if starts_with(words[0], "clippy") {
        ParseResult::OopsClippy
    } else {
        ParseResult::Unrecognized
    }
}

} // verus!
