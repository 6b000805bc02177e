//! Versions and version requirements, read and matched by the `semver` crate.

use std::cmp::Ordering;

use semver::Op as SemverOp;
use vstd::prelude::*;

use crate::text::{decimal_text, joined, same};

verus! {

/// A release version: three numbers, without a prerelease tag or build metadata.
#[derive(Debug, Copy, Clone, PartialEq, Eq, Structural)]
pub struct Release {
    pub major: u64,
    pub minor: u64,
    pub patch: u64,
}

impl Release {
    /// Whether `self` is the older of two different releases: the first number
    /// in which they differ decides.
    pub open spec fn precedes(self, other: Release) -> bool {
        ||| self.major < other.major
        ||| self.major == other.major && self.minor < other.minor
        ||| self.major == other.major && self.minor == other.minor && self.patch < other.patch
    }
}

/// How two releases are ordered.
///
/// Calls `Ord::cmp` of `semver::Version` on two versions made by `Version::new`.
/// That order is derived over the fields, of which the prerelease tag and the
/// build metadata are empty on both sides, so the three numbers decide.
#[verifier::external_body]
pub(crate) fn compare_releases(left: &Release, right: &Release) -> (order: Ordering)
    ensures
        order is Less <==> left.precedes(*right),
        order is Greater <==> right.precedes(*left),
        order is Equal <==> *left == *right,
{
    let older = semver::Version::new(left.major, left.minor, left.patch);
    older.cmp(&semver::Version::new(right.major, right.minor, right.patch))
}

/// `3.10.5`: the numbers of a release, with a dot between them.
pub open spec fn release_text(release: Release) -> Seq<char> {
    crate::text::decimal(release.major as nat).push('.') + (crate::text::decimal(
        release.minor as nat,
    ).push('.') + crate::text::decimal(release.patch as nat))
}

/// The numbers of a release, with a dot between them.
pub fn format_release(release: &Release) -> (r: String)
    ensures
        r@ == release_text(*release),
{
    proof {
        reveal_strlit(".");
    }
    let major: String = joined(decimal_text(release.major).as_str(), ".");
    let minor: String = joined(decimal_text(release.minor).as_str(), ".");
    let tail: String = joined(minor.as_str(), decimal_text(release.patch).as_str());
    let whole: String = joined(major.as_str(), tail.as_str());
    assert(whole@ == release_text(*release));
    whole
}

/// A version: the numbers of a release, a prerelease tag and build metadata,
/// either of which may be empty.
#[derive(Debug, PartialEq, Eq)]
pub struct Version {
    pub release: Release,
    pub pre: String,
    pub build: String,
}

/// The contents of a [`Version`].
pub struct VersionView {
    pub release: Release,
    pub pre: Seq<char>,
    pub build: Seq<char>,
}

impl View for Version {
    type V = VersionView;

    open spec fn view(&self) -> VersionView {
        VersionView { release: self.release, pre: self.pre@, build: self.build@ }
    }
}

/// A release, as a version.
pub open spec fn released(release: Release) -> VersionView {
    VersionView { release, pre: Seq::empty(), build: Seq::empty() }
}

/// `1.2.3-pre+build`: a version in the notation of semantic versioning.
pub open spec fn version_text(version: VersionView) -> Seq<char> {
    let tag = if version.pre.len() > 0 {
        seq!['-'] + version.pre
    } else {
        Seq::empty()
    };
    let build = if version.build.len() > 0 {
        seq!['+'] + version.build
    } else {
        Seq::empty()
    };
    release_text(version.release) + tag + build
}

/// The contents of a version that was read, or of the message in its place.
pub open spec fn version_result(r: Result<Version, String>) -> Result<VersionView, Seq<char>> {
    match r {
        Ok(version) => Ok(version@),
        Err(message) => Err(message@),
    }
}

/// What `semver` makes of a text that should be a version: the version, or the
/// words of its error.
pub uninterp spec fn semver_version(text: Seq<char>) -> Result<VersionView, Seq<char>>;

/// The version that a text writes, with `semver::Version::parse`.
///
/// Two facts stand beside the name of the result. A release in its usual
/// notation is read as that release. And a text that is accepted is the notation
/// of the version it gives, since every number is read without leading zeros and
/// the tag and the metadata are kept as they stand.
#[verifier::external_body]
pub(crate) fn parse_version(text: &str) -> (r: Result<Version, String>)
    ensures
        version_result(r) == semver_version(text@),
        forall|release: Release|
            text@ == #[trigger] release_text(release) ==> r is Ok && r->Ok_0@ == released(release),
        r is Ok ==> version_text(r->Ok_0@) == text@,
{
    match semver::Version::parse(text) {
        Ok(v) => Ok(
            Version {
                release: Release { major: v.major, minor: v.minor, patch: v.patch },
                pre: v.pre.as_str().to_string(),
                build: v.build.as_str().to_string(),
            },
        ),
        Err(error) => Err(error.to_string()),
    }
}

impl Version {
    /// The version of a release.
    pub fn new(major: u64, minor: u64, patch: u64) -> (r: Version)
        ensures
            r@ == released(Release { major, minor, patch }),
    {
        Version {
            release: Release { major, minor, patch },
            pre: String::new(),
            build: String::new(),
        }
    }

    /// Reads a version, or says why the text is none.
    pub fn parse(text: &str) -> (r: Result<Version, String>)
        ensures
            version_result(r) == semver_version(text@),
            forall|release: Release|
                text@ == #[trigger] release_text(release) ==> r is Ok && r->Ok_0@ == released(
                    release,
                ),
            r is Ok ==> version_text(r->Ok_0@) == text@,
    {
        parse_version(text)
    }

    /// The version in the notation of semantic versioning.
    pub fn text(&self) -> (r: String)
        ensures
            r@ == version_text(self@),
    {
        proof {
            reveal_strlit("-");
            reveal_strlit("+");
            assert("-"@ == seq!['-']);
            assert("+"@ == seq!['+']);
        }
        let mut whole: String = format_release(&self.release);
        let ghost release = whole@;
        if !self.pre.as_str().is_empty() {
            whole.append("-");
            whole.append(self.pre.as_str());
            assert(whole@ == release + (seq!['-'] + self.pre@));
        } else {
            assert(whole@ == release + Seq::<char>::empty());
        }
        let ghost tagged = whole@;
        if !self.build.as_str().is_empty() {
            whole.append("+");
            whole.append(self.build.as_str());
            assert(whole@ == tagged + (seq!['+'] + self.build@));
        } else {
            assert(whole@ == tagged + Seq::<char>::empty());
        }
        whole
    }

    /// Whether two versions agree in every part.
    pub fn equals(&self, other: &Version) -> (r: bool)
        ensures
            r == (self@ == other@),
    {
        self.release == other.release && same(self.pre.as_str(), other.pre.as_str()) && same(
            self.build.as_str(),
            other.build.as_str(),
        )
    }
}

/// The operator of a comparator.
#[derive(Debug, Copy, Clone, PartialEq, Eq, Structural)]
pub enum Op {
    Exact,
    Greater,
    GreaterEq,
    Less,
    LessEq,
    Tilde,
    Caret,
    Wildcard,
}

/// One condition of a version requirement. The numbers after the first may be
/// left out, from the right.
#[derive(Debug, PartialEq, Eq)]
pub struct Comparator {
    pub op: Op,
    pub major: u64,
    pub minor: Option<u64>,
    pub patch: Option<u64>,
    pub pre: String,
}

/// The contents of a [`Comparator`].
pub struct ComparatorView {
    pub op: Op,
    pub major: u64,
    pub minor: Option<u64>,
    pub patch: Option<u64>,
    pub pre: Seq<char>,
}

impl View for Comparator {
    type V = ComparatorView;

    open spec fn view(&self) -> ComparatorView {
        ComparatorView {
            op: self.op,
            major: self.major,
            minor: self.minor,
            patch: self.patch,
            pre: self.pre@,
        }
    }
}

/// A version requirement: the conditions that a version has to meet together.
#[derive(Debug, PartialEq, Eq)]
pub struct VersionReq {
    pub comparators: Vec<Comparator>,
}

impl View for VersionReq {
    type V = Seq<ComparatorView>;

    open spec fn view(&self) -> Seq<ComparatorView> {
        self.comparators@.map_values(|c: Comparator| c@)
    }
}

/// A limit on versions: one of the operators `>`, `>=`, `<` and `<=`, and a release.
pub struct Limit {
    pub op: Op,
    pub version: Release,
}

/// Whether an operator limits versions from one side.
pub open spec fn limits(op: Op) -> bool {
    op is Greater || op is GreaterEq || op is Less || op is LessEq
}

/// An operator that limits versions, as it is written.
pub open spec fn limit_op_text(op: Op) -> Seq<char> {
    match op {
        Op::Greater => seq!['>'],
        Op::GreaterEq => seq!['>', '='],
        Op::Less => seq!['<'],
        Op::LessEq => seq!['<', '='],
        _ => Seq::empty(),
    }
}

/// `>=3.10.0,<3.11.0`: limits as they are written, with commas between them.
pub open spec fn limits_text(limits: Seq<Limit>) -> Seq<char>
    decreases limits.len(),
{
    if limits.len() == 0 {
        Seq::empty()
    } else {
        let last = limit_op_text(limits.last().op) + release_text(limits.last().version);
        if limits.len() == 1 {
            last
        } else {
            limits_text(limits.drop_last()).push(',') + last
        }
    }
}

/// A limit as a comparator with all three numbers.
pub open spec fn limit_comparator(limit: Limit) -> ComparatorView {
    ComparatorView {
        op: limit.op,
        major: limit.version.major,
        minor: Some(limit.version.minor),
        patch: Some(limit.version.patch),
        pre: Seq::empty(),
    }
}

/// Limits as a version requirement.
pub open spec fn limits_requirement(limits: Seq<Limit>) -> Seq<ComparatorView> {
    limits.map_values(|limit: Limit| limit_comparator(limit))
}

/// Whether a comparator is a limit with all three numbers and no prerelease tag.
pub open spec fn full_limit(comparator: ComparatorView) -> bool {
    limits(comparator.op) && comparator.minor is Some && comparator.patch is Some
        && comparator.pre.len() == 0
}

/// Whether a release is on the right side of a limit.
pub open spec fn within(comparator: ComparatorView, release: Release) -> bool {
    let edge = Release {
        major: comparator.major,
        minor: comparator.minor->0,
        patch: comparator.patch->0,
    };
    match comparator.op {
        Op::Greater => edge.precedes(release),
        Op::GreaterEq => edge.precedes(release) || edge == release,
        Op::Less => release.precedes(edge),
        Op::LessEq => release.precedes(edge) || edge == release,
        _ => false,
    }
}

/// Whether a version meets a requirement that consists of full limits: it is a
/// release, without a prerelease tag, and within every limit.
pub open spec fn satisfies(requirement: Seq<ComparatorView>, version: VersionView) -> bool {
    version.pre.len() == 0 && forall|i: int|
        0 <= i < requirement.len() ==> within(#[trigger] requirement[i], version.release)
}

/// The contents of a requirement that was read.
pub open spec fn requirement_result(r: Option<VersionReq>) -> Option<Seq<ComparatorView>> {
    match r {
        Some(requirement) => Some(requirement@),
        None => None,
    }
}

/// Whether a text is the usual notation of one to 32 limits.
pub open spec fn notes_limits(text: Seq<char>, list: Seq<Limit>) -> bool {
    &&& 0 < list.len() <= 32
    &&& forall|i: int| 0 <= i < list.len() ==> limits((#[trigger] list[i]).op)
    &&& text == limits_text(list)
}

/// What `semver` makes of a text that should be a version requirement.
pub uninterp spec fn semver_requirement(text: Seq<char>) -> Option<Seq<ComparatorView>>;

/// The version requirement that a text writes, with `semver::VersionReq::parse`.
///
/// Beside the name of the result stands one fact: limits in their usual notation,
/// with commas between them, are read as those limits. No more than 32
/// comparators are accepted.
#[verifier::external_body]
pub(crate) fn parse_requirement(text: &str) -> (r: Option<VersionReq>)
    ensures
        requirement_result(r) == semver_requirement(text@),
        forall|list: Seq<Limit>| #[trigger]
            notes_limits(text@, list) ==> requirement_result(r) == Some(limits_requirement(list)),
{
    let comparators = semver::VersionReq::parse(text).ok()?.comparators;
    let convert = |c: semver::Comparator| Comparator {
        op: match c.op {
            SemverOp::Exact => Op::Exact,
            SemverOp::Greater => Op::Greater,
            SemverOp::GreaterEq => Op::GreaterEq,
            SemverOp::Less => Op::Less,
            SemverOp::LessEq => Op::LessEq,
            SemverOp::Tilde => Op::Tilde,
            SemverOp::Caret => Op::Caret,
            _ => Op::Wildcard,
        },
        major: c.major, minor: c.minor, patch: c.patch, pre: c.pre.to_string() };
    Some(VersionReq { comparators: comparators.into_iter().map(convert).collect() })
}

/// Whether a version meets a requirement that consists of full limits, with
/// `semver::VersionReq::matches`.
///
/// A comparator with all three numbers compares them in turn. A version with a
/// prerelease tag meets no requirement in which every tag is empty; neither does
/// one whose tag is malformed, which has no counterpart in `semver`. Build
/// metadata take no part.
#[verifier::external_body]
pub(crate) fn requirement_matches(requirement: &VersionReq, version: &Version) -> (r: bool)
    requires
        forall|i: int| 0 <= i < requirement@.len() ==> full_limit(#[trigger] requirement@[i]),
    ensures
        r == satisfies(requirement@, version@),
{
    let Release { major, minor, patch } = version.release;
    let Ok(pre) = semver::Prerelease::new(&version.pre) else { return false };
    let version = semver::Version { pre, ..semver::Version::new(major, minor, patch) };
    let comparators = requirement.comparators.iter().map(|c| semver::Comparator {
        op: match c.op {
            Op::Greater => SemverOp::Greater, Op::GreaterEq => SemverOp::GreaterEq,
            Op::Less => SemverOp::Less, Op::LessEq => SemverOp::LessEq,
            Op::Exact => SemverOp::Exact, Op::Wildcard => SemverOp::Wildcard,
            Op::Tilde => SemverOp::Tilde, Op::Caret => SemverOp::Caret },
        major: c.major, minor: c.minor, patch: c.patch, pre: semver::Prerelease::EMPTY });
    semver::VersionReq { comparators: comparators.collect() }.matches(&version)
}

impl VersionReq {
    /// Reads a version requirement.
    pub fn parse(text: &str) -> (r: Option<VersionReq>)
        ensures
            requirement_result(r) == semver_requirement(text@),
            forall|list: Seq<Limit>| #[trigger]
                notes_limits(text@, list) ==> requirement_result(r) == Some(
                    limits_requirement(list),
                ),
    {
        parse_requirement(text)
    }
}

} // verus!
