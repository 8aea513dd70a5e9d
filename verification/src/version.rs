//! The version of a compiler, its release channel, and the versions to compare it with.

use vstd::prelude::*;
use vstd::string::*;
use crate::date::Date;
use crate::decimal::{
    decimal, lemma_decimal_lacks, lemma_unsigned_u32_decimal, parse_u32, push_decimal,
    unsigned_u32,
};
use crate::text::{
    chars_of, lemma_pieces_first, lemma_pieces_joined, lemma_pieces_single, pieces, split, views,
};

verus! {

/// The release channel of a compiler.
#[derive(Copy, Clone, Debug, PartialEq, Eq, Structural)]
pub enum Channel {
    /// The stable compiler.
    Stable,
    /// The beta compiler.
    Beta,
    /// The nightly compiler, with the date of its release.
    Nightly(Date),
    /// A development compiler: one built from source rather than released.
    Dev,
}

impl Channel {
    /// Tests whether this is the nightly channel.
    pub fn is_nightly(&self) -> (b: bool)
        ensures
            b == (self is Nightly),
    {
        match *self {
            Channel::Nightly(_) => true,
            _ => false,
        }
    }

    /// Tests whether this is the stable channel.
    pub fn is_stable(&self) -> (b: bool)
        ensures
            b == (self is Stable),
    {
        match *self {
            Channel::Stable => true,
            _ => false,
        }
    }

    /// Tests whether this is the beta channel.
    pub fn is_beta(&self) -> (b: bool)
        ensures
            b == (self is Beta),
    {
        match *self {
            Channel::Beta => true,
            _ => false,
        }
    }

    /// Tests whether this is the development channel.
    pub fn is_development(&self) -> (b: bool)
        ensures
            b == (self is Dev),
    {
        match *self {
            Channel::Dev => true,
            _ => false,
        }
    }
}

/// Holds a major version to the one there is: 1. Whoever has a number of which
/// this is not known compares it with 1 first.
pub fn check_major_version(major: u32)
    requires
        major == 1,
{
}

/// A stable version to compare with, such as `1.48` or `1.48.2`.
///
/// It is a threshold and no release: without a patch version it stands for every
/// patch of its minor version.
#[derive(Copy, Clone, Debug, PartialEq, Eq, Structural)]
pub struct StableVersionSpec {
    /// The major version: always 1.
    pub major: u32,
    /// The minor version.
    pub minor: u32,
    /// The patch version, if one is given.
    pub patch: Option<u32>,
}

/// Why a text is not a stable version to compare with.
#[derive(Copy, Clone, Debug, PartialEq, Eq, Structural)]
pub enum StableVersionParseError {
    /// One of the parts is not a number.
    InvalidNumber,
    /// There are fewer than two parts, or more than three.
    BadNumberParts,
    /// The major version is not 1.
    InvalidMajorVersion,
}

impl StableVersionSpec {
    /// Whether the major version is 1.
    pub open spec fn wf(self) -> bool {
        self.major == 1
    }

    /// The lowest version that meets this threshold: a missing patch version is zero.
    pub open spec fn spec_to_version(&self) -> RustVersion {
        RustVersion {
            major: self.major,
            minor: self.minor,
            patch: match self.patch {
                Some(patch) => patch,
                None => 0,
            },
            channel: Channel::Stable,
        }
    }

    /// How this threshold is written: the major and the minor version with a full
    /// stop between them, then a full stop and the patch version if there is one.
    pub open spec fn text(self) -> Seq<char> {
        decimal(self.major as nat) + seq!['.'] + decimal(self.minor as nat) + match self.patch {
            Some(patch) => seq!['.'] + decimal(patch as nat),
            None => Seq::empty(),
        }
    }

    /// What `text` says as a threshold. Its parts are what stands between full stops:
    /// two or three of them, each a number, the first of them 1. Of the first three
    /// parts a wrong number is found before a wrong count, and both before a wrong
    /// major version.
    pub open spec fn parsed(text: Seq<char>) -> Result<
        StableVersionSpec,
        StableVersionParseError,
    > {
        let parts = pieces(text, '.');
        if unsigned_u32(parts[0]) is None {
            Err(StableVersionParseError::InvalidNumber)
        } else if parts.len() < 2 {
            Err(StableVersionParseError::BadNumberParts)
        } else if unsigned_u32(parts[1]) is None {
            Err(StableVersionParseError::InvalidNumber)
        } else if parts.len() >= 3 && unsigned_u32(parts[2]) is None {
            Err(StableVersionParseError::InvalidNumber)
        } else if parts.len() > 3 {
            Err(StableVersionParseError::BadNumberParts)
        } else if unsigned_u32(parts[0]) != Some(1u32) {
            Err(StableVersionParseError::InvalidMajorVersion)
        } else {
            Ok(
                StableVersionSpec {
                    major: 1,
                    minor: unsigned_u32(parts[1])->0,
                    patch: if parts.len() == 3 {
                        unsigned_u32(parts[2])
                    } else {
                        None
                    },
                },
            )
        }
    }

    /// The threshold of a minor version, such as `1.32`.
    pub fn minor(major: u32, minor: u32) -> (spec: StableVersionSpec)
        requires
            major == 1,
        ensures
            spec == (StableVersionSpec { major, minor, patch: None }),
            spec.wf(),
    {
        check_major_version(major);
        StableVersionSpec { major, minor, patch: None }
    }

    /// The threshold of a patch version, such as `1.32.4`.
    pub fn patch(major: u32, minor: u32, patch: u32) -> (spec: StableVersionSpec)
        requires
            major == 1,
        ensures
            spec == (StableVersionSpec { major, minor, patch: Some(patch) }),
            spec.wf(),
    {
        check_major_version(major);
        StableVersionSpec { major, minor, patch: Some(patch) }
    }

    /// The lowest version that meets this threshold: a stable version, whose patch
    /// version is zero where the threshold has none.
    #[verifier::when_used_as_spec(spec_to_version)]
    pub fn to_version(&self) -> (version: RustVersion)
        requires
            self.wf(),
        ensures
            version == self.spec_to_version(),
            version.wf(),
    {
        RustVersion::stable(
            self.major,
            self.minor,
            match self.patch {
                None => 0,
                Some(patch) => patch,
            },
        )
    }

    /// Writes this threshold as text, such as `1.32` or `1.12.3`.
    pub fn to_string(&self) -> (s: String)
        ensures
            s@ == self.text(),
    {
        let mut s = String::new();
        proof {
            reveal_strlit(".");
        }
        push_decimal(&mut s, self.major);
        s.append(".");
        push_decimal(&mut s, self.minor);
        if let Some(patch) = self.patch {
            s.append(".");
            push_decimal(&mut s, patch);
        }
        assert(s@ =~= self.text());
        s
    }
}

/// The version of a compiler: three numbers and the channel it was released on.
#[derive(Copy, Clone, Debug, PartialEq, Eq, Structural)]
pub struct RustVersion {
    /// The major version: 1 for every compiler there is.
    pub major: u32,
    /// The minor version.
    pub minor: u32,
    /// The patch version.
    pub patch: u32,
    /// The release channel.
    pub channel: Channel,
}

impl RustVersion {
    /// Whether the major version is 1.
    pub open spec fn wf(self) -> bool {
        self.major == 1
    }

    /// The place of the three numbers among all versions: a greater number for a
    /// later version. The channel has no part in it.
    pub open spec fn ordinal(self) -> int {
        self.major as int * 0x1_0000_0000_0000_0000 + self.minor as int * 0x1_0000_0000
            + self.patch as int
    }

    /// Whether the three numbers are those of the lowest version that meets `spec`,
    /// or of a later one.
    pub open spec fn spec_is_since_stable(&self, spec: StableVersionSpec) -> bool {
        self.ordinal() >= spec.to_version().ordinal()
    }

    /// Whether the three numbers are those of a version earlier than all that meet `spec`.
    pub open spec fn spec_is_before_stable(&self, spec: StableVersionSpec) -> bool {
        self.ordinal() < spec.to_version().ordinal()
    }

    /// Whether this is a nightly compiler released on `start` or later, or a
    /// development compiler. A stable or beta compiler is never since a date.
    pub open spec fn spec_is_since_nightly(&self, start: Date) -> bool {
        match self.channel {
            Channel::Nightly(date) => date.is_since(start),
            Channel::Stable | Channel::Beta => false,
            Channel::Dev => true,
        }
    }

    /// Whether this is a nightly compiler released before `start`, or a development
    /// compiler. A stable or beta compiler is never before a date.
    pub open spec fn spec_is_before_nightly(&self, start: Date) -> bool {
        match self.channel {
            Channel::Nightly(date) => date.is_before(start),
            Channel::Stable | Channel::Beta => false,
            Channel::Dev => true,
        }
    }

    /// The threshold that names exactly the three numbers of this version.
    pub open spec fn spec_to_spec(&self) -> StableVersionSpec {
        StableVersionSpec { major: self.major, minor: self.minor, patch: Some(self.patch) }
    }

    /// How this version is written: the three numbers with full stops between them,
    /// and after them nothing for a stable compiler, `-beta` for a beta compiler,
    /// `-nightly` and the date in brackets for a nightly compiler, `-dev` for a
    /// development compiler.
    pub open spec fn text(self) -> Seq<char> {
        decimal(self.major as nat) + seq!['.'] + decimal(self.minor as nat) + seq!['.'] + decimal(
            self.patch as nat,
        ) + match self.channel {
            Channel::Stable => Seq::empty(),
            Channel::Beta => "-beta"@,
            Channel::Nightly(date) => "-nightly ("@ + date.text() + ")"@,
            Channel::Dev => "-dev"@,
        }
    }

    /// The stable version of the three numbers.
    pub fn stable(major: u32, minor: u32, patch: u32) -> (version: RustVersion)
        requires
            major == 1,
        ensures
            version == (RustVersion { major, minor, patch, channel: Channel::Stable }),
            version.wf(),
    {
        check_major_version(major);
        RustVersion { major, minor, patch, channel: Channel::Stable }
    }

    /// The threshold that names exactly the three numbers of this version.
    #[verifier::when_used_as_spec(spec_to_spec)]
    pub fn to_spec(&self) -> (spec: StableVersionSpec)
        requires
            self.wf(),
        ensures
            spec == self.spec_to_spec(),
            spec.wf(),
    {
        StableVersionSpec::patch(self.major, self.minor, self.patch)
    }

    /// Tests whether this version meets `spec` or is later. The channel is not looked at.
    #[verifier::when_used_as_spec(spec_is_since_stable)]
    pub fn is_since_stable(&self, spec: StableVersionSpec) -> (b: bool)
        ensures
            b == self.spec_is_since_stable(spec),
    {
        self.major > spec.major || (self.major == spec.major && (self.minor > spec.minor || (
        self.minor == spec.minor && match spec.patch {
            None => true,
            Some(patch) => self.patch >= patch,
        })))
    }

    /// Tests whether this version is earlier than `spec`. The channel is not looked at.
    #[verifier::when_used_as_spec(spec_is_before_stable)]
    pub fn is_before_stable(&self, spec: StableVersionSpec) -> (b: bool)
        ensures
            b == self.spec_is_before_stable(spec),
    {
        !self.is_since_stable(spec)
    }

    /// Tests whether this version is of the minor version given, or later.
    pub fn is_since_minor_version(&self, major: u32, minor: u32) -> (b: bool)
        requires
            major == 1,
        ensures
            b == self.is_since_stable(StableVersionSpec { major, minor, patch: None }),
    {
        self.is_since_stable(StableVersionSpec::minor(major, minor))
    }

    /// Tests whether this version is the patch version given, or later.
    pub fn is_since_patch_version(&self, major: u32, minor: u32, patch: u32) -> (b: bool)
        requires
            major == 1,
        ensures
            b == self.is_since_stable(StableVersionSpec { major, minor, patch: Some(patch) }),
    {
        self.is_since_stable(StableVersionSpec::patch(major, minor, patch))
    }

    /// Tests whether this version is earlier than the minor version given.
    pub fn is_before_minor_version(&self, major: u32, minor: u32) -> (b: bool)
        requires
            major == 1,
        ensures
            b == self.is_before_stable(StableVersionSpec { major, minor, patch: None }),
    {
        self.is_before_stable(StableVersionSpec::minor(major, minor))
    }

    /// Tests whether this version is earlier than the patch version given.
    pub fn is_before_patch_version(&self, major: u32, minor: u32, patch: u32) -> (b: bool)
        requires
            major == 1,
        ensures
            b == self.is_before_stable(StableVersionSpec { major, minor, patch: Some(patch) }),
    {
        self.is_before_stable(StableVersionSpec::patch(major, minor, patch))
    }

    /// Tests whether this is a nightly compiler released on `start` or later, or a
    /// development compiler.
    #[verifier::when_used_as_spec(spec_is_since_nightly)]
    pub fn is_since_nightly(&self, start: Date) -> (b: bool)
        ensures
            b == self.spec_is_since_nightly(start),
    {
        match self.channel {
            Channel::Nightly(date) => date.is_since(start),
            Channel::Stable | Channel::Beta => false,
            Channel::Dev => true,
        }
    }

    /// Tests whether this is a nightly compiler released before `start`, or a
    /// development compiler.
    #[verifier::when_used_as_spec(spec_is_before_nightly)]
    pub fn is_before_nightly(&self, start: Date) -> (b: bool)
        ensures
            b == self.spec_is_before_nightly(start),
    {
        match self.channel {
            Channel::Nightly(date) => date.is_before(start),
            Channel::Stable | Channel::Beta => false,
            Channel::Dev => true,
        }
    }

    /// Tests whether this is a nightly compiler.
    pub fn is_nightly(&self) -> (b: bool)
        ensures
            b == (self.channel is Nightly),
    {
        self.channel.is_nightly()
    }

    /// Tests whether this is a stable compiler.
    pub fn is_stable(&self) -> (b: bool)
        ensures
            b == (self.channel is Stable),
    {
        self.channel.is_stable()
    }

    /// Tests whether this is a beta compiler.
    pub fn is_beta(&self) -> (b: bool)
        ensures
            b == (self.channel is Beta),
    {
        self.channel.is_beta()
    }

    /// Tests whether this is a development compiler.
    pub fn is_development(&self) -> (b: bool)
        ensures
            b == (self.channel is Dev),
    {
        self.channel.is_development()
    }

    /// Writes this version as text, such as `1.81.0-nightly (2024-07-28)`.
    pub fn to_string(&self) -> (s: String)
        ensures
            s@ == self.text(),
    {
        let mut s = String::new();
        proof {
            reveal_strlit(".");
        }
        push_decimal(&mut s, self.major);
        s.append(".");
        push_decimal(&mut s, self.minor);
        s.append(".");
        push_decimal(&mut s, self.patch);
        match self.channel {
            Channel::Stable => {},
            Channel::Beta => {
                s.append("-beta");
            },
            Channel::Nightly(date) => {
                s.append("-nightly (");
                let written = date.to_string();
                s.append(written.as_str());
                s.append(")");
            },
            Channel::Dev => {
                s.append("-dev");
            },
        }
        assert(s@ =~= self.text());
        s
    }
}

impl core::str::FromStr for StableVersionSpec {
    type Err = StableVersionParseError;

    /// Reads a threshold from text such as `1.32` or `1.12.3`.
    fn from_str(s: &str) -> (r: Result<StableVersionSpec, StableVersionParseError>)
        ensures
            r == StableVersionSpec::parsed(s@),
    {
        let chars = chars_of(s);
        let parts = split(chars.as_slice(), '.');
        proof {
            lemma_pieces_first(s@, '.');
        }
        let n = parts.len();
        assert(forall|i: int| 0 <= i < n ==> views(parts@)[i] == parts@[i]@);
        let major = match parse_u32(parts[0]) {
            Some(major) => major,
            None => {
                return Err(StableVersionParseError::InvalidNumber);
            },
        };
        if n < 2 {
            return Err(StableVersionParseError::BadNumberParts);
        }
        let minor = match parse_u32(parts[1]) {
            Some(minor) => minor,
            None => {
                return Err(StableVersionParseError::InvalidNumber);
            },
        };
        let patch = if n >= 3 {
            match parse_u32(parts[2]) {
                Some(patch) => Some(patch),
                None => {
                    return Err(StableVersionParseError::InvalidNumber);
                },
            }
        } else {
            None
        };
        if n > 3 {
            return Err(StableVersionParseError::BadNumberParts);
        }
        if major != 1 {
            return Err(StableVersionParseError::InvalidMajorVersion);
        }
        Ok(StableVersionSpec { major, minor, patch })
    }
}

impl From<StableVersionSpec> for RustVersion {
    /// The lowest version that meets the threshold.
    fn from(value: StableVersionSpec) -> (version: RustVersion) {
        RustVersion {
            major: value.major,
            minor: value.minor,
            patch: match value.patch {
                None => 0,
                Some(patch) => patch,
            },
            channel: Channel::Stable,
        }
    }
}

impl vstd::std_specs::convert::FromSpecImpl<StableVersionSpec> for RustVersion {
    open spec fn obeys_from_spec() -> bool {
        true
    }

    open spec fn from_spec(value: StableVersionSpec) -> RustVersion {
        value.to_version()
    }
}

/// A version is since a threshold exactly when its major version is greater; or
/// the major versions are equal and its minor version is greater; or these are
/// equal too and the threshold has no patch version, or one that is not greater
/// than that of the version.
pub proof fn lemma_since_stable_by_fields(version: RustVersion, spec: StableVersionSpec)
    ensures
        version.is_since_stable(spec) <==> (version.major > spec.major || (version.major
            == spec.major && (version.minor > spec.minor || (version.minor == spec.minor && (
        spec.patch matches Some(patch) ==> version.patch >= patch))))),
{
}

/// A version is before a threshold exactly when it is not since it.
pub proof fn lemma_before_stable_is_not_since(version: RustVersion, spec: StableVersionSpec)
    ensures
        version.is_before_stable(spec) == !version.is_since_stable(spec),
{
}

/// A version is since its own threshold and those of the versions it is not before;
/// and being before is handed on: a version before a second one that is before a
/// third is before the third.
pub proof fn lemma_stable_order(a: RustVersion, b: RustVersion, c: RustVersion)
    ensures
        a.is_since_stable(a.to_spec()),
        a.is_before_stable(b.to_spec()) && b.is_before_stable(c.to_spec()) ==> a.is_before_stable(
            c.to_spec(),
        ),
        a.is_before_stable(b.to_spec()) ==> b.is_since_stable(a.to_spec()),
{
}

/// A stable or beta compiler is neither since nor before any date.
pub proof fn lemma_stable_and_beta_have_no_date(version: RustVersion, date: Date)
    requires
        version.channel is Stable || version.channel is Beta,
    ensures
        !version.is_since_nightly(date),
        !version.is_before_nightly(date),
{
}

/// A development compiler is both since and before every date.
pub proof fn lemma_dev_is_since_and_before(version: RustVersion, date: Date)
    requires
        version.channel is Dev,
    ensures
        version.is_since_nightly(date),
        version.is_before_nightly(date),
{
}

/// A nightly compiler is since a date exactly when it is not before it.
pub proof fn lemma_nightly_since_is_not_before(version: RustVersion, date: Date)
    requires
        version.channel is Nightly,
    ensures
        version.is_since_nightly(date) == !version.is_before_nightly(date),
        version.is_since_nightly(date) == (version.channel->Nightly_0).is_since(date),
{
}

/// Reading what a threshold is written as gives the threshold back.
pub proof fn lemma_parsed_text(spec: StableVersionSpec)
    requires
        spec.wf(),
    ensures
        StableVersionSpec::parsed(spec.text()) == Ok::<StableVersionSpec, StableVersionParseError>(
            spec,
        ),
{
    let major = decimal(spec.major as nat);
    let minor = decimal(spec.minor as nat);
    lemma_decimal_lacks(spec.major as nat, '.');
    lemma_decimal_lacks(spec.minor as nat, '.');
    lemma_unsigned_u32_decimal(spec.major);
    lemma_unsigned_u32_decimal(spec.minor);
    match spec.patch {
        Some(p) => {
            let patch = decimal(p as nat);
            lemma_decimal_lacks(p as nat, '.');
            lemma_unsigned_u32_decimal(p);
            lemma_pieces_single(major, '.');
            lemma_pieces_single(minor, '.');
            lemma_pieces_single(patch, '.');
            lemma_pieces_joined(minor, patch, '.');
            lemma_pieces_joined(major, minor + seq!['.'] + patch, '.');
            assert(spec.text() =~= major + seq!['.'] + (minor + seq!['.'] + patch));
            assert(pieces(spec.text(), '.') =~= seq![major, minor, patch]);
        },
        None => {
            lemma_pieces_single(major, '.');
            lemma_pieces_single(minor, '.');
            lemma_pieces_joined(major, minor, '.');
            assert(spec.text() =~= major + seq!['.'] + minor);
            assert(pieces(spec.text(), '.') =~= seq![major, minor]);
        },
    }
}

} // verus!
