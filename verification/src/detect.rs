//! Finding out the version of the compiler at hand.
//!
//! Whoever runs the compiler hands each of its answers to [`next_step`] and does
//! what the step says. What a build may rely on in a compiler that was found is
//! told by [`capabilities`].

use vstd::prelude::*;
use crate::rustc::{announced, parse, ParseResult};
use crate::text::{chars_of, equals, pieces, split, views};
use crate::version::{RustVersion, StableVersionSpec};

verus! {

/// What to do after the compiler has answered.
#[derive(Copy, Clone, Debug, PartialEq, Eq, Structural)]
pub enum Step {
    /// The version is found.
    Found(RustVersion),
    /// The lint tool answered in place of the compiler: ask once more, for the
    /// compiler behind it.
    AskCompiler,
    /// The answer is not that of a compiler, or the lint tool answered again.
    Unexpected,
    /// The answer is that of a compiler whose major version is not 1.
    Unsupported(RustVersion),
}

/// The step that follows the answer `output`, where `asked_compiler` says whether
/// the compiler behind the lint tool has been asked for already.
pub open spec fn step_after(asked_compiler: bool, output: Seq<char>) -> Step {
    match announced(output) {
        ParseResult::Success(version) => if version.major == 1 {
            Step::Found(version)
        } else {
            Step::Unsupported(version)
        },
        ParseResult::OopsClippy => if asked_compiler {
            Step::Unexpected
        } else {
            Step::AskCompiler
        },
        ParseResult::Unrecognized => Step::Unexpected,
    }
}

/// Decides what to do with the answer `output`. The compiler behind the lint tool
/// is asked for once and no more.
pub fn next_step(asked_compiler: bool, output: &str) -> (step: Step)
    ensures
        step == step_after(asked_compiler, output@),
        asked_compiler ==> step !is AskCompiler,
        step matches Step::Found(version) ==> version.wf(),
{
    match parse(output) {
        ParseResult::Success(version) => {
            if version.major == 1 {
                Step::Found(version)
            } else {
                Step::Unsupported(version)
            }
        },
        ParseResult::OopsClippy => {
            if asked_compiler {
                Step::Unexpected
            } else {
                Step::AskCompiler
            }
        },
        ParseResult::Unrecognized => Step::Unexpected,
    }
}

/// What a build may rely on in a compiler.
#[derive(Copy, Clone, Debug, PartialEq, Eq, Structural)]
pub struct Capabilities {
    /// Macros match literals: since 1.32.
    pub supports_macro_literal: bool,
    /// Types can be marked as open to new fields and variants: since 1.40.
    pub has_non_exhaustive: bool,
    /// Constant functions can match and branch: since 1.46.
    pub has_const_match: bool,
    /// A panic can name the place of the caller: since 1.46.
    pub has_track_caller: bool,
    /// Constant functions can panic: since 1.57.
    pub has_const_panic: bool,
    /// The names of the conditions of a build are checked: since 1.80.
    pub has_check_cfg: bool,
}

/// What a build may rely on in the compiler of version `version`.
pub open spec fn capabilities_of(version: RustVersion) -> Capabilities {
    Capabilities {
        supports_macro_literal: version.is_since_stable(
            StableVersionSpec { major: 1, minor: 32, patch: None },
        ),
        has_non_exhaustive: version.is_since_stable(
            StableVersionSpec { major: 1, minor: 40, patch: None },
        ),
        has_const_match: version.is_since_stable(
            StableVersionSpec { major: 1, minor: 46, patch: None },
        ),
        has_track_caller: version.is_since_stable(
            StableVersionSpec { major: 1, minor: 46, patch: None },
        ),
        has_const_panic: version.is_since_stable(
            StableVersionSpec { major: 1, minor: 57, patch: None },
        ),
        has_check_cfg: version.is_since_stable(
            StableVersionSpec { major: 1, minor: 80, patch: None },
        ),
    }
}

/// Tells what a build may rely on in the compiler of version `version`.
pub fn capabilities(version: &RustVersion) -> (found: Capabilities)
    ensures
        found == capabilities_of(*version),
{
    Capabilities {
        supports_macro_literal: version.is_since_minor_version(1, 32),
        has_non_exhaustive: version.is_since_minor_version(1, 40),
        has_const_match: version.is_since_minor_version(1, 46),
        has_track_caller: version.is_since_minor_version(1, 46),
        has_const_panic: version.is_since_minor_version(1, 57),
        has_check_cfg: version.is_since_minor_version(1, 80),
    }
}

/// Whether the name `host` of a platform, made of parts with hyphens between them,
/// has `windows` as its third part.
pub open spec fn windows_host(host: Seq<char>) -> bool {
    pieces(host, '-').len() >= 3 && pieces(host, '-')[2] == "windows"@
}

/// Tests whether `host` names a platform that runs Windows, as
/// `x86_64-pc-windows-msvc` does.
pub fn is_windows_host(host: &str) -> (b: bool)
    ensures
        b == windows_host(host@),
{
    let chars = chars_of(host);
    let parts = split(chars.as_slice(), '-');
    assert(forall|i: int| 0 <= i < parts.len() ==> views(parts@)[i] == parts@[i]@);
    parts.len() >= 3 && equals(parts[2], "windows")
}

} // verus!
