//! Semantic versions: parsing, prerelease detection, version bumps and
//! ordering, on top of the `semver` crate.

use vstd::prelude::*;
use std::cmp::Ordering;
use crate::text::{push_char, push_decimal, decimal_text, copy_string, concat_text, has_prefix};

verus! {

#[verifier::external_type_specification]
#[verifier::external_body]
pub struct ExSemverError(semver::Error);

/// The parts of a semantic version: the three numbers and the prerelease and
/// build metadata texts (empty when absent).
pub struct VersionParts {
    pub major: u64,
    pub minor: u64,
    pub patch: u64,
    pub pre: Seq<char>,
    pub build: Seq<char>,
}

/// What `semver::Version::parse` yields for a text: the parsed version by its
/// parts, or, when it rejects the text, the message that `Display` of its
/// error shows.
pub uninterp spec fn semver_parse_result(text: Seq<char>) -> Result<VersionParts, Seq<char>>;

/// A successful parse into the given parts.
pub open spec fn semver_parsed(parts: VersionParts) -> Result<VersionParts, Seq<char>> {
    Ok(parts)
}

/// A rejected text, with the parse error's message.
pub open spec fn semver_rejected(message: Seq<char>) -> Result<VersionParts, Seq<char>> {
    Err(message)
}

/// A character that may stand in a prerelease or build identifier: an ASCII
/// letter or digit, or `-`.
pub open spec fn is_identifier_char(c: char) -> bool {
    ('A' <= c && c <= 'Z') || ('a' <= c && c <= 'z') || ('0' <= c && c <= '9') || c == '-'
}

/// Dot-separated identifiers: the empty text, or non-empty pieces of
/// identifier characters joined by single dots.
pub open spec fn dotted_identifiers(t: Seq<char>) -> bool {
    t.len() == 0 || {
        &&& forall|i: int| 0 <= i < t.len() ==> is_identifier_char(#[trigger] t[i]) || t[i] == '.'
        &&& t[0] != '.'
        &&& t[t.len() - 1] != '.'
        &&& forall|i: int| 0 <= i < t.len() - 1 ==> !(#[trigger] t[i] == '.' && t[i + 1] == '.')
    }
}

/// Whether the piece of `t` from `i` up to `j` (a whole piece between dots)
/// is a number of more than one digit that starts with `0`.
pub open spec fn zero_led_number(t: Seq<char>, i: int, j: int) -> bool {
    &&& 0 <= i
    &&& i + 1 < j <= t.len()
    &&& (i == 0 || t[i - 1] == '.')
    &&& (j == t.len() || t[j] == '.')
    &&& t[i] == '0'
    &&& forall|k: int| i <= k < j ==> '0' <= #[trigger] t[k] <= '9'
}

/// Whether `semver::Prerelease::new` accepts a text: dot-separated
/// identifiers, none of them a number with a leading zero.
pub open spec fn semver_prerelease_valid(text: Seq<char>) -> bool {
    &&& dotted_identifiers(text)
    &&& forall|i: int, j: int| !#[trigger] zero_led_number(text, i, j)
}

/// Whether `semver::BuildMetadata::new` accepts a text: dot-separated
/// identifiers (leading zeros allowed).
pub open spec fn semver_build_valid(text: Seq<char>) -> bool {
    dotted_identifiers(text)
}

/// How `semver::Prerelease`'s `Ord` orders two prerelease texts.
pub uninterp spec fn semver_prerelease_order(left: Seq<char>, right: Seq<char>) -> Ordering;

/// How `semver::BuildMetadata`'s `Ord` orders two build metadata texts.
pub uninterp spec fn semver_build_order(left: Seq<char>, right: Seq<char>) -> Ordering;

/// The opposite ordering.
pub open spec fn flipped(o: Ordering) -> Ordering {
    match o {
        Ordering::Less => Ordering::Greater,
        Ordering::Equal => Ordering::Equal,
        Ordering::Greater => Ordering::Less,
    }
}

/// Whether three comparisons chain as a total order requires: when `a` is
/// not above `b` and `b` is not above `c`, `a` is not above `c`, and it is
/// below `c` when either step is strictly below. The arguments are the
/// orderings of `a` against `b`, of `b` against `c` and of `a` against `c`.
pub open spec fn chains_through(ab: Ordering, bc: Ordering, ac: Ordering) -> bool {
    &&& (ab != Ordering::Greater && bc != Ordering::Greater ==> ac != Ordering::Greater)
    &&& (ab == Ordering::Less && bc != Ordering::Greater ==> ac == Ordering::Less)
    &&& (ab != Ordering::Greater && bc == Ordering::Less ==> ac == Ordering::Less)
}

/// The numeric ordering of two integers.
pub open spec fn number_order(a: u64, b: u64) -> Ordering {
    if a < b {
        Ordering::Less
    } else if a > b {
        Ordering::Greater
    } else {
        Ordering::Equal
    }
}

/// The ordering of `semver::Version`: major, minor and patch numerically, then
/// the prerelease, then the build metadata, each deciding only on a tie of the
/// ones before.
pub open spec fn version_order(a: VersionParts, b: VersionParts) -> Ordering {
    if a.major != b.major {
        number_order(a.major, b.major)
    } else if a.minor != b.minor {
        number_order(a.minor, b.minor)
    } else if a.patch != b.patch {
        number_order(a.patch, b.patch)
    } else if semver_prerelease_order(a.pre, b.pre) != Ordering::Equal {
        semver_prerelease_order(a.pre, b.pre)
    } else {
        semver_build_order(a.build, b.build)
    }
}

/// The text of a version: `major.minor.patch`, then `-pre` when there is a
/// prerelease and `+build` when there is build metadata.
pub open spec fn version_text(v: VersionParts) -> Seq<char> {
    let core = decimal_text(v.major as nat) + seq!['.'] + decimal_text(v.minor as nat) + seq!['.']
        + decimal_text(v.patch as nat);
    let with_pre = if v.pre.len() > 0 {
        core + seq!['-'] + v.pre
    } else {
        core
    };
    if v.build.len() > 0 {
        with_pre + seq!['+'] + v.build
    } else {
        with_pre
    }
}

/// Whether a text is the text of a version whose prerelease and build
/// metadata `semver` accepts.
pub open spec fn is_version_text(text: Seq<char>) -> bool {
    exists|p: VersionParts|
        semver_prerelease_valid(p.pre) && semver_build_valid(p.build) && #[trigger] version_text(p)
            == text
}

/// `semver::Version::parse`, giving the parsed version by its parts. A text
/// parses exactly when it is the text of some parts whose prerelease and
/// build metadata `Prerelease::new` and `BuildMetadata::new` accept, and then
/// it gives those parts.
#[verifier::external_body]
fn semver_parse(text: &str) -> (r: Result<(u64, u64, u64, String, String), semver::Error>)
    ensures
        r is Ok <==> semver_parse_result(text@) is Ok,
        r matches Ok(p) ==> semver_parse_result(text@) == semver_parsed(
            VersionParts { major: p.0, minor: p.1, patch: p.2, pre: p.3@, build: p.4@ },
        ),
        r matches Err(e) ==> semver_parse_result(text@) == semver_rejected(semver_error_message(e)),
        r matches Ok(p) ==> semver_prerelease_valid(p.3@) && semver_build_valid(p.4@),
        r is Ok <==> is_version_text(text@),
        r matches Ok(p) ==> text@ == version_text(
            VersionParts { major: p.0, minor: p.1, patch: p.2, pre: p.3@, build: p.4@ },
        ),
{
    semver::Version::parse(text).map(
        |v| (v.major, v.minor, v.patch, v.pre.as_str().to_string(), v.build.as_str().to_string()),
    )
}

/// The text of `semver::Prerelease::EMPTY`: empty, and accepted by
/// `Prerelease::new`.
#[verifier::external_body]
fn empty_prerelease() -> (r: String)
    ensures
        r@ == Seq::<char>::empty(),
        semver_prerelease_valid(r@),
{
    semver::Prerelease::EMPTY.as_str().to_string()
}

/// The text of `semver::BuildMetadata::EMPTY`: empty, and accepted by
/// `BuildMetadata::new`.
#[verifier::external_body]
fn empty_build_metadata() -> (r: String)
    ensures
        r@ == Seq::<char>::empty(),
        semver_build_valid(r@),
{
    semver::BuildMetadata::EMPTY.as_str().to_string()
}

/// `semver::Prerelease::new`: accepts a prerelease text (handing back its
/// text, which it keeps as given) or rejects it.
#[verifier::external_body]
fn checked_prerelease(text: &str) -> (r: Result<String, semver::Error>)
    ensures
        r is Ok <==> semver_prerelease_valid(text@),
        r matches Ok(t) ==> t@ == text@,
{
    semver::Prerelease::new(text).map(|pre| pre.as_str().to_string())
}

/// `semver::BuildMetadata::new`: accepts a build metadata text (handing back
/// its text, which it keeps as given) or rejects it.
#[verifier::external_body]
fn checked_build_metadata(text: &str) -> (r: Result<String, semver::Error>)
    ensures
        r is Ok <==> semver_build_valid(text@),
        r matches Ok(t) ==> t@ == text@,
{
    semver::BuildMetadata::new(text).map(|build| build.as_str().to_string())
}

/// `Ord` of `semver::Prerelease` on two accepted texts. It is a total order:
/// equal only on equal texts, opposite when the arguments are swapped,
/// transitive through any third accepted text, and a release (empty text) is
/// above every prerelease.
#[verifier::external_body]
fn prerelease_order(left: &str, right: &str) -> (r: Ordering)
    requires
        semver_prerelease_valid(left@),
        semver_prerelease_valid(right@),
    ensures
        r == semver_prerelease_order(left@, right@),
        r == Ordering::Equal <==> left@ == right@,
        r == flipped(semver_prerelease_order(right@, left@)),
        left@.len() == 0 && right@.len() > 0 ==> r == Ordering::Greater,
        left@.len() > 0 && right@.len() == 0 ==> r == Ordering::Less,
        forall|c: Seq<char>|
            #[trigger] semver_prerelease_valid(c) ==> chains_through(
                r,
                semver_prerelease_order(right@, c),
                semver_prerelease_order(left@, c),
            ) && chains_through(
                semver_prerelease_order(c, left@),
                r,
                semver_prerelease_order(c, right@),
            ),
{
    let left = semver::Prerelease::new(left).unwrap();
    let right = semver::Prerelease::new(right).unwrap();
    left.cmp(&right)
}

/// `Ord` of `semver::BuildMetadata` on two accepted texts, a total order:
/// equal only on equal texts, opposite when the arguments are swapped, and
/// transitive through any third accepted text.
#[verifier::external_body]
fn build_order(left: &str, right: &str) -> (r: Ordering)
    requires
        semver_build_valid(left@),
        semver_build_valid(right@),
    ensures
        r == semver_build_order(left@, right@),
        r == Ordering::Equal <==> left@ == right@,
        r == flipped(semver_build_order(right@, left@)),
        forall|c: Seq<char>|
            #[trigger] semver_build_valid(c) ==> chains_through(
                r,
                semver_build_order(right@, c),
                semver_build_order(left@, c),
            ) && chains_through(semver_build_order(c, left@), r, semver_build_order(c, right@)),
{
    let left = semver::BuildMetadata::new(left).unwrap();
    let right = semver::BuildMetadata::new(right).unwrap();
    left.cmp(&right)
}

/// The kind of version bump to apply.
#[derive(Clone, Copy, Debug, PartialEq, Eq, Structural)]
pub enum VersionBump {
    Patch,
    Minor,
    Major,
}

/// A simple version policy marker for RustUse release flows.
#[derive(Clone, Copy, Debug, PartialEq, Eq, Structural)]
pub enum VersionPolicy {
    StrictSemver,
    RustUseDefault,
}

/// The release level represented by a version transition.
#[derive(Clone, Copy, Debug, PartialEq, Eq, Structural)]
pub enum ReleaseLevel {
    Patch,
    Minor,
    Major,
    PreRelease,
}

/// A typed semantic version value.
#[derive(Debug, PartialEq, Eq)]
pub struct Version {
    major: u64,
    minor: u64,
    patch: u64,
    pre: String,
    build: String,
}

impl View for Version {
    type V = VersionParts;

    closed spec fn view(&self) -> VersionParts {
        VersionParts {
            major: self.major,
            minor: self.minor,
            patch: self.patch,
            pre: self.pre@,
            build: self.build@,
        }
    }
}

impl Version {
    #[verifier::type_invariant]
    spec fn parts_valid(self) -> bool {
        semver_prerelease_valid(self.pre@) && semver_build_valid(self.build@)
    }

    /// A version from its parts; the prerelease and build metadata texts
    /// (empty for none) must be ones that `semver` accepts, else its error is
    /// returned, the prerelease's first.
    pub fn from_parts(major: u64, minor: u64, patch: u64, pre: &str, build: &str) -> (r: Result<
        Version,
        VersionError,
    >)
        ensures
            r is Ok <==> semver_prerelease_valid(pre@) && semver_build_valid(build@),
            r matches Ok(v) ==> v@ == (VersionParts {
                major,
                minor,
                patch,
                pre: pre@,
                build: build@,
            }),
    {
        let pre = match checked_prerelease(pre) {
            Ok(text) => text,
            Err(e) => return Err(VersionError(e)),
        };
        let build = match checked_build_metadata(build) {
            Ok(text) => text,
            Err(e) => return Err(VersionError(e)),
        };
        Ok(Version { major, minor, patch, pre, build })
    }

    /// The major version number.
    pub fn major(&self) -> (r: u64)
        ensures
            r == self@.major,
    {
        self.major
    }

    /// The minor version number.
    pub fn minor(&self) -> (r: u64)
        ensures
            r == self@.minor,
    {
        self.minor
    }

    /// The patch version number.
    pub fn patch(&self) -> (r: u64)
        ensures
            r == self@.patch,
    {
        self.patch
    }

    /// The prerelease text (empty when there is none).
    pub fn pre(&self) -> (r: &str)
        ensures
            r@ == self@.pre,
    {
        self.pre.as_str()
    }

    /// The build metadata text (empty when there is none).
    pub fn build(&self) -> (r: &str)
        ensures
            r@ == self@.build,
    {
        self.build.as_str()
    }

    /// The version text (what `Display` shows).
    pub fn to_string(&self) -> (r: String)
        ensures
            r@ == version_text(self@),
    {
        let mut out = String::new();
        push_decimal(&mut out, self.major);
        push_char(&mut out, '.');
        push_decimal(&mut out, self.minor);
        push_char(&mut out, '.');
        push_decimal(&mut out, self.patch);
        if self.pre.as_str().unicode_len() > 0 {
            push_char(&mut out, '-');
            out.append(self.pre.as_str());
        }
        if self.build.as_str().unicode_len() > 0 {
            push_char(&mut out, '+');
            out.append(self.build.as_str());
        }
        proof {
            assert(out@ =~= version_text(self@));
        }
        out
    }
}

impl Clone for Version {
    fn clone(&self) -> (r: Self)
        ensures
            r@ == self@,
    {
        proof {
            use_type_invariant(self);
        }
        Version {
            major: self.major,
            minor: self.minor,
            patch: self.patch,
            pre: copy_string(&self.pre),
            build: copy_string(&self.build),
        }
    }
}

/// Errors that can occur while parsing semantic versions.
#[derive(Debug)]
pub struct VersionError(semver::Error);

/// What `Display` of `semver::Error` shows for an error: the message
/// `semver` gives for a rejected text.
pub uninterp spec fn semver_error_message(error: semver::Error) -> Seq<char>;

/// `Display` of `semver::Error`: the message `semver` gives for a rejected
/// text, a function of the error alone.
#[verifier::external_body]
fn semver_error_text(error: &semver::Error) -> (r: String)
    ensures
        r@ == semver_error_message(*error),
{
    format!("{error}")
}

impl VersionError {
    /// The `semver` error that this error wraps.
    pub closed spec fn semver_error(&self) -> semver::Error {
        self.0
    }

    /// The error message (what `Display` shows): a fixed prefix, then the
    /// message of the `semver` error.
    pub fn to_string(&self) -> (r: String)
        ensures
            r@ == "failed to parse semantic version: "@ + semver_error_message(self.semver_error()),
            has_prefix(r@, "failed to parse semantic version: "@),
    {
        let detail = semver_error_text(&self.0);
        concat_text("failed to parse semantic version: ", detail.as_str())
    }

    /// The underlying `semver` error.
    pub fn source(&self) -> (r: &semver::Error)
        ensures
            *r == self.semver_error(),
    {
        &self.0
    }

    /// Takes the underlying `semver` error out.
    pub fn into_source(self) -> (r: semver::Error)
        ensures
            r == self.semver_error(),
    {
        self.0
    }
}

impl From<semver::Error> for VersionError {
    fn from(error: semver::Error) -> (r: Self)
        ensures
            r.semver_error() == error,
    {
        VersionError(error)
    }
}

impl vstd::std_specs::convert::FromSpecImpl<semver::Error> for VersionError {
    open spec fn obeys_from_spec() -> bool {
        true
    }

    closed spec fn from_spec(error: semver::Error) -> Self {
        VersionError(error)
    }
}

/// Parses a semantic version string.
pub fn parse_version(value: &str) -> (r: Result<Version, VersionError>)
    ensures
        r is Ok <==> semver_parse_result(value@) is Ok,
        r is Ok <==> is_version_text(value@),
        r matches Ok(v) ==> semver_parse_result(value@) == semver_parsed(v@),
        r matches Err(e) ==> semver_parse_result(value@) == semver_rejected(
            semver_error_message(e.semver_error()),
        ),
        r matches Ok(v) ==> version_text(v@) == value@,
{
    match semver_parse(value) {
        Ok(parts) => Ok(Version {
            major: parts.0,
            minor: parts.1,
            patch: parts.2,
            pre: parts.3,
            build: parts.4,
        }),
        Err(e) => Err(VersionError::from(e)),
    }
}

/// Returns `true` when a version contains prerelease metadata.
pub fn is_prerelease(version: &Version) -> (r: bool)
    ensures
        r == (version@.pre.len() > 0),
{
    version.pre.as_str().unicode_len() > 0
}

/// The version after a patch release: patch plus one, no prerelease or build.
pub open spec fn next_patch_parts(v: VersionParts) -> VersionParts {
    VersionParts {
        major: v.major,
        minor: v.minor,
        patch: (v.patch + 1) as u64,
        pre: Seq::empty(),
        build: Seq::empty(),
    }
}

/// The version after a minor release: minor plus one, patch zero, no
/// prerelease or build.
pub open spec fn next_minor_parts(v: VersionParts) -> VersionParts {
    VersionParts {
        major: v.major,
        minor: (v.minor + 1) as u64,
        patch: 0,
        pre: Seq::empty(),
        build: Seq::empty(),
    }
}

/// The version after a major release: major plus one, minor and patch zero,
/// no prerelease or build.
pub open spec fn next_major_parts(v: VersionParts) -> VersionParts {
    VersionParts {
        major: (v.major + 1) as u64,
        minor: 0,
        patch: 0,
        pre: Seq::empty(),
        build: Seq::empty(),
    }
}

/// Returns the next patch version.
pub fn next_patch(version: &Version) -> (r: Version)
    requires
        version@.patch < u64::MAX,
    ensures
        r@ == next_patch_parts(version@),
        version_order(r@, version@) == Ordering::Greater,
{
    Version {
        major: version.major,
        minor: version.minor,
        patch: version.patch + 1,
        pre: empty_prerelease(),
        build: empty_build_metadata(),
    }
}

/// Returns the next minor version.
pub fn next_minor(version: &Version) -> (r: Version)
    requires
        version@.minor < u64::MAX,
    ensures
        r@ == next_minor_parts(version@),
        version_order(r@, version@) == Ordering::Greater,
{
    Version {
        major: version.major,
        minor: version.minor + 1,
        patch: 0,
        pre: empty_prerelease(),
        build: empty_build_metadata(),
    }
}

/// Returns the next major version.
pub fn next_major(version: &Version) -> (r: Version)
    requires
        version@.major < u64::MAX,
    ensures
        r@ == next_major_parts(version@),
        version_order(r@, version@) == Ordering::Greater,
{
    Version {
        major: version.major + 1,
        minor: 0,
        patch: 0,
        pre: empty_prerelease(),
        build: empty_build_metadata(),
    }
}

/// The numeric ordering of two numbers.
fn order_numbers(a: u64, b: u64) -> (r: Ordering)
    ensures
        r == number_order(a, b),
{
    if a < b {
        Ordering::Less
    } else if a > b {
        Ordering::Greater
    } else {
        Ordering::Equal
    }
}

/// Compares two semantic versions.
pub fn compare_versions(left: &Version, right: &Version) -> (r: Ordering)
    ensures
        r == version_order(left@, right@),
        r == Ordering::Equal <==> left@ == right@,
        r == flipped(version_order(right@, left@)),
        left@.major == right@.major && left@.minor == right@.minor && left@.patch == right@.patch
            && left@.pre.len() == 0 && right@.pre.len() > 0 ==> r == Ordering::Greater,
        forall|c: VersionParts|
            semver_prerelease_valid(c.pre) && semver_build_valid(c.build) ==> chains_through(
                r,
                #[trigger] version_order(right@, c),
                version_order(left@, c),
            ),
        forall|c: VersionParts|
            semver_prerelease_valid(c.pre) && semver_build_valid(c.build) ==> chains_through(
                version_order(c, left@),
                r,
                #[trigger] version_order(c, right@),
            ),
{
    proof {
        use_type_invariant(left);
        use_type_invariant(right);
    }
    if left.major != right.major {
        order_numbers(left.major, right.major)
    } else if left.minor != right.minor {
        order_numbers(left.minor, right.minor)
    } else if left.patch != right.patch {
        order_numbers(left.patch, right.patch)
    } else {
        let pre = prerelease_order(left.pre.as_str(), right.pre.as_str());
        match pre {
            Ordering::Equal => build_order(left.build.as_str(), right.build.as_str()),
            _ => pre,
        }
    }
}

} // verus!
