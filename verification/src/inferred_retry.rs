//! Which interpreter to retry with, when dependencies turn the first one down.
//!
//! `uv` does not expose structured resolver diagnostics for this case, so the
//! narrow human-readable explanation is parsed. Where its wording changes,
//! nothing is inferred.

use std::cmp::Ordering;

use vstd::prelude::*;

use crate::process;
use crate::request::{LanguageRequest, PythonRequest};
use crate::text::{decimal_text, joined, parse_u64, same, split};
use crate::version::{
    compare_releases, format_release, parse_requirement, requirement_matches, Comparator, Op,
    Release, Version, VersionReq,
};

verus! {

/// How many numbers of a version were written down.
#[derive(Debug, Copy, Clone, PartialEq, Eq, Structural)]
pub enum VersionPrecision {
    Major,
    MajorMinor,
    MajorMinorPatch,
}

/// A lower bound on the interpreter's version.
#[derive(Debug, Copy, Clone, PartialEq, Eq, Structural)]
pub struct InferredLowerBound {
    pub version: Release,
    pub inclusive: bool,
    pub precision: VersionPrecision,
}

/// An upper bound on the interpreter's version.
#[derive(Debug, Copy, Clone, PartialEq, Eq, Structural)]
pub struct InferredUpperBound {
    pub version: Release,
    pub inclusive: bool,
    pub precision: VersionPrecision,
}

impl InferredLowerBound {
    /// Whether a release is on the right side of the bound.
    pub open spec fn admits(self, release: Release) -> bool {
        self.version.precedes(release) || (self.inclusive && self.version == release)
    }

    /// Whether the bound excludes more than `other` does.
    pub open spec fn stricter(self, other: InferredLowerBound) -> bool {
        ||| other.version.precedes(self.version)
        ||| self.version == other.version && !self.inclusive && other.inclusive
    }

    /// The operator of the bound.
    pub open spec fn op(self) -> Op {
        if self.inclusive {
            Op::GreaterEq
        } else {
            Op::Greater
        }
    }

    /// The operator as it is written.
    pub fn operator(&self) -> (r: &'static str)
        ensures
            r@ == crate::version::limit_op_text(self.op()),
    {
        proof {
            reveal_strlit(">=");
            reveal_strlit(">");
            assert(">="@ == seq!['>', '=']);
            assert(">"@ == seq!['>']);
        }
        if self.inclusive {
            ">="
        } else {
            ">"
        }
    }

    /// Whether the bound excludes more than `other` does.
    pub fn is_stricter_than(&self, other: &InferredLowerBound) -> (r: bool)
        ensures
            r == self.stricter(*other),
    {
        match compare_releases(&self.version, &other.version) {
            Ordering::Greater => true,
            Ordering::Less => false,
            Ordering::Equal => !self.inclusive && other.inclusive,
        }
    }
}

impl InferredUpperBound {
    /// Whether a release is on the right side of the bound.
    pub open spec fn admits(self, release: Release) -> bool {
        release.precedes(self.version) || (self.inclusive && self.version == release)
    }

    /// Whether the bound excludes more than `other` does.
    pub open spec fn stricter(self, other: InferredUpperBound) -> bool {
        ||| self.version.precedes(other.version)
        ||| self.version == other.version && !self.inclusive && other.inclusive
    }

    /// The operator of the bound.
    pub open spec fn op(self) -> Op {
        if self.inclusive {
            Op::LessEq
        } else {
            Op::Less
        }
    }

    /// The operator as it is written.
    pub fn operator(&self) -> (r: &'static str)
        ensures
            r@ == crate::version::limit_op_text(self.op()),
    {
        proof {
            reveal_strlit("<=");
            reveal_strlit("<");
            assert("<="@ == seq!['<', '=']);
            assert("<"@ == seq!['<']);
        }
        if self.inclusive {
            "<="
        } else {
            "<"
        }
    }

    /// Whether the bound excludes more than `other` does.
    pub fn is_stricter_than(&self, other: &InferredUpperBound) -> (r: bool)
        ensures
            r == self.stricter(*other),
    {
        match compare_releases(&self.version, &other.version) {
            Ordering::Less => true,
            Ordering::Greater => false,
            Ordering::Equal => !self.inclusive && other.inclusive,
        }
    }
}

/// A release with as many numbers as `precision` says.
pub open spec fn bound_text(version: Release, precision: VersionPrecision) -> Seq<char> {
    match precision {
        VersionPrecision::Major => crate::text::decimal(version.major as nat),
        VersionPrecision::MajorMinor => crate::text::decimal(version.major as nat).push('.')
            + crate::text::decimal(version.minor as nat),
        VersionPrecision::MajorMinorPatch => crate::version::release_text(version),
    }
}

/// `>=3.10,<3.11`: two bounds as `uv` reads them.
pub open spec fn request_text(lower: InferredLowerBound, upper: InferredUpperBound) -> Seq<char> {
    crate::version::limit_op_text(lower.op()) + bound_text(lower.version, lower.precision) + seq![
        ',',
    ] + crate::version::limit_op_text(upper.op()) + bound_text(upper.version, upper.precision)
}

/// Two bounds as limits.
pub open spec fn bound_limits(lower: InferredLowerBound, upper: InferredUpperBound) -> Seq<
    crate::version::Limit,
> {
    seq![
        crate::version::Limit { op: lower.op(), version: lower.version },
        crate::version::Limit { op: upper.op(), version: upper.version },
    ]
}

/// The smallest release that a lower bound admits, or none where its last number
/// cannot be raised.
pub open spec fn smallest_release(lower: InferredLowerBound) -> Option<Release> {
    if lower.inclusive {
        Some(lower.version)
    } else if lower.version.patch < u64::MAX {
        Some(
            Release {
                major: lower.version.major,
                minor: lower.version.minor,
                patch: (lower.version.patch + 1) as u64,
            },
        )
    } else {
        None
    }
}

/// A constraint on the interpreter to retry with.
#[derive(Debug, PartialEq, Eq)]
pub struct InferredRetryConstraint {
    request: String,
    requirement: VersionReq,
    candidate: Release,
    lower: InferredLowerBound,
    upper: InferredUpperBound,
}

/// The contents of an [`InferredRetryConstraint`].
pub struct RetryConstraintView {
    pub request: Seq<char>,
    pub requirement: Seq<crate::version::ComparatorView>,
    pub candidate: Release,
    pub lower: InferredLowerBound,
    pub upper: InferredUpperBound,
}

impl View for InferredRetryConstraint {
    type V = RetryConstraintView;

    closed spec fn view(&self) -> RetryConstraintView {
        RetryConstraintView {
            request: self.request@,
            requirement: self.requirement@,
            candidate: self.candidate,
            lower: self.lower,
            upper: self.upper,
        }
    }
}

impl RetryConstraintView {
    /// What holds of every constraint: the request and the requirement say what
    /// the bounds say, and the bounds leave a release, the candidate.
    pub open spec fn well_formed(self) -> bool {
        retry_constraint(self.lower, self.upper) == Some(self)
    }
}

impl InferredRetryConstraint {
    /// Every constraint is well-formed.
    #[verifier::type_invariant]
    spec fn consistent(self) -> bool {
        self@.well_formed()
    }

    /// What to ask `uv` for.
    pub fn request(&self) -> (r: &str)
        ensures
            r@ == self@.request,
    {
        self.request.as_str()
    }

    /// What the interpreter's version has to meet.
    pub fn requirement(&self) -> (r: &VersionReq)
        ensures
            r@ == self@.requirement,
    {
        &self.requirement
    }

    /// The smallest release within the bounds.
    pub fn candidate(&self) -> (r: Release)
        ensures
            r == self@.candidate,
    {
        self.candidate
    }

    /// The lower bound.
    pub fn lower(&self) -> (r: InferredLowerBound)
        ensures
            r == self@.lower,
    {
        self.lower
    }

    /// The upper bound.
    pub fn upper(&self) -> (r: InferredUpperBound)
        ensures
            r == self@.upper,
    {
        self.upper
    }
}

/// The contents of a constraint, where there is one.
pub open spec fn constraint_result(r: Option<InferredRetryConstraint>) -> Option<
    RetryConstraintView,
> {
    match r {
        Some(constraint) => Some(constraint@),
        None => None,
    }
}

/// The constraint that two bounds make, where the smallest release above the one
/// is below the other.
pub open spec fn retry_constraint(lower: InferredLowerBound, upper: InferredUpperBound) -> Option<
    RetryConstraintView,
> {
    match smallest_release(lower) {
        Some(candidate) => if upper.admits(candidate) {
            Some(
                RetryConstraintView {
                    request: request_text(lower, upper),
                    requirement: crate::version::limits_requirement(bound_limits(lower, upper)),
                    candidate,
                    lower,
                    upper,
                },
            )
        } else {
            None
        },
        None => None,
    }
}

/// The bound below the next minor version.
pub open spec fn next_minor(version: Release) -> Option<InferredUpperBound> {
    if version.minor < u64::MAX {
        Some(
            InferredUpperBound {
                version: Release {
                    major: version.major,
                    minor: (version.minor + 1) as u64,
                    patch: 0,
                },
                inclusive: false,
                precision: VersionPrecision::MajorMinor,
            },
        )
    } else {
        None
    }
}

/// The constraint that a lower bound makes with the next minor version.
pub open spec fn capped_constraint(lower: InferredLowerBound) -> Option<RetryConstraintView> {
    match next_minor(lower.version) {
        Some(upper) => retry_constraint(lower, upper),
        None => None,
    }
}

/// The lower bound as it was written down.
pub fn format_lower_bound_version(lower: &InferredLowerBound) -> (r: String)
    ensures
        r@ == bound_text(lower.version, lower.precision),
{
    format_bound_version(&lower.version, lower.precision)
}

/// The upper bound as it was written down.
pub fn format_upper_bound_version(upper: &InferredUpperBound) -> (r: String)
    ensures
        r@ == bound_text(upper.version, upper.precision),
{
    format_bound_version(&upper.version, upper.precision)
}

/// A release with as many numbers as `precision` says.
fn format_bound_version(version: &Release, precision: VersionPrecision) -> (r: String)
    ensures
        r@ == bound_text(*version, precision),
{
    match precision {
        VersionPrecision::Major => decimal_text(version.major),
        VersionPrecision::MajorMinor => {
            proof {
                reveal_strlit(".");
            }
            let major: String = joined(decimal_text(version.major).as_str(), ".");
            let whole: String = joined(major.as_str(), decimal_text(version.minor).as_str());
            assert(whole@ == bound_text(*version, precision));
            whole
        },
        VersionPrecision::MajorMinorPatch => format_release(version),
    }
}

/// All three numbers of a release, as `semver` reads them.
pub fn format_version_for_semver(version: &Release) -> (r: String)
    ensures
        r@ == crate::version::release_text(*version),
{
    format_release(version)
}

/// The smallest release that a lower bound admits.
pub fn retry_candidate(lower: &InferredLowerBound) -> (r: Option<Release>)
    ensures
        r == smallest_release(*lower),
{
    if lower.inclusive {
        return Some(lower.version);
    }
    match lower.version.patch.checked_add(1) {
        Some(patch) => Some(
            Release { major: lower.version.major, minor: lower.version.minor, patch },
        ),
        None => None,
    }
}

/// An operator and a version, then a comma, then another operator and version.
fn two_bounds(lower_op: &str, lower: &str, upper_op: &str, upper: &str) -> (r: String)
    ensures
        r@ == lower_op@ + lower@ + seq![','] + upper_op@ + upper@,
{
    proof {
        reveal_strlit(",");
        assert(","@ == seq![',']);
    }
    let mut whole: String = joined(lower_op, lower);
    whole.append(",");
    whole.append(upper_op);
    whole.append(upper);
    whole
}

/// The constraint that two bounds make, where they leave a release.
pub fn build_retry_constraint(lower: InferredLowerBound, upper: InferredUpperBound) -> (r: Option<
    InferredRetryConstraint,
>)
    ensures
        constraint_result(r) == retry_constraint(lower, upper),
{
    let request: String = two_bounds(
        lower.operator(),
        format_lower_bound_version(&lower).as_str(),
        upper.operator(),
        format_upper_bound_version(&upper).as_str(),
    );
    let full: String = two_bounds(
        lower.operator(),
        format_version_for_semver(&lower.version).as_str(),
        upper.operator(),
        format_version_for_semver(&upper.version).as_str(),
    );
    let ghost list = bound_limits(lower, upper);
    proof {
        reveal_with_fuel(crate::version::limits_text, 3);
        assert(list.drop_last() == seq![list[0]]);
        assert(full@ == crate::version::limits_text(list));
        assert(crate::version::notes_limits(full@, list));
    }
    let requirement: VersionReq = match parse_requirement(full.as_str()) {
        Some(requirement) => requirement,
        None => {
            return None;
        },
    };
    let candidate: Release = match retry_candidate(&lower) {
        Some(candidate) => candidate,
        None => {
            return None;
        },
    };
    let version: Version = Version::new(candidate.major, candidate.minor, candidate.patch);
    proof {
        lemma_bounds_satisfied(lower, upper, candidate);
    }
    if !requirement_matches(&requirement, &version) {
        return None;
    }
    Some(InferredRetryConstraint { request, requirement, candidate, lower, upper })
}

/// A release meets the requirement of two bounds where both admit it.
proof fn lemma_bounds_satisfied(
    lower: InferredLowerBound,
    upper: InferredUpperBound,
    release: Release,
)
    ensures
        crate::version::satisfies(
            crate::version::limits_requirement(bound_limits(lower, upper)),
            crate::version::released(release),
        ) <==> lower.admits(release) && upper.admits(release),
        forall|i: int|
            0 <= i < 2 ==> crate::version::full_limit(
                #[trigger] crate::version::limits_requirement(bound_limits(lower, upper))[i],
            ),
{
    let requirement = crate::version::limits_requirement(bound_limits(lower, upper));
    assert(requirement.len() == 2);
    assert(crate::version::within(requirement[0], release) <==> lower.admits(release));
    assert(crate::version::within(requirement[1], release) <==> upper.admits(release));
}

/// The constraint that a lower bound makes with the next minor version.
pub fn build_inferred_retry_constraint(lower: &InferredLowerBound) -> (r: Option<
    InferredRetryConstraint,
>)
    ensures
        constraint_result(r) == capped_constraint(*lower),
{
    let minor: u64 = match lower.version.minor.checked_add(1) {
        Some(minor) => minor,
        None => {
            return None;
        },
    };
    let upper: InferredUpperBound = InferredUpperBound {
        version: Release { major: lower.version.major, minor, patch: 0 },
        inclusive: false,
        precision: VersionPrecision::MajorMinor,
    };
    build_retry_constraint(*lower, upper)
}

/// The number at a place in a dotted version: none where there is no such place,
/// and failure where the text there is no number.
pub open spec fn number_at(parts: Seq<Seq<char>>, at: int) -> Option<Option<u64>> {
    if at < parts.len() {
        match crate::text::parsed_u64(parts[at]) {
            Some(number) => Some(Some(number)),
            None => None,
        }
    } else {
        Some(None)
    }
}

/// A missing number counts as zero.
pub open spec fn or_zero(number: Option<u64>) -> u64 {
    match number {
        Some(number) => number,
        None => 0,
    }
}

/// A version of one to three numbers, and how many there were.
pub open spec fn python_version(raw: Seq<char>) -> Option<(Release, VersionPrecision)> {
    let parts = crate::text::pieces(raw, '.');
    match (number_at(parts, 0), number_at(parts, 1), number_at(parts, 2)) {
        (Some(Some(major)), Some(minor), Some(patch)) => if parts.len() > 3 {
            None
        } else {
            Some(
                (
                    Release { major, minor: or_zero(minor), patch: or_zero(patch) },
                    if minor is None {
                        VersionPrecision::Major
                    } else if patch is None {
                        VersionPrecision::MajorMinor
                    } else {
                        VersionPrecision::MajorMinorPatch
                    },
                ),
            )
        },
        _ => None,
    }
}

/// Reads a version of one to three numbers, and how many there were.
pub fn parse_python_version(raw: &str) -> (r: Option<(Release, VersionPrecision)>)
    ensures
        r == python_version(raw@),
{
    let parts: Vec<String> = split(raw, '.');
    let ghost views = crate::text::texts(parts@);
    proof {
        crate::text::lemma_pieces_some(raw@, '.');
        assert(views.len() == parts@.len());
        assert(forall|i: int| 0 <= i < parts@.len() ==> views[i] == parts@[i]@);
    }
    let major: u64 = match parse_u64(parts[0].as_str()) {
        Some(major) => major,
        None => {
            return None;
        },
    };
    let minor: Option<u64> = if parts.len() > 1 {
        match parse_u64(parts[1].as_str()) {
            Some(minor) => Some(minor),
            None => {
                return None;
            },
        }
    } else {
        None
    };
    let patch: Option<u64> = if parts.len() > 2 {
        match parse_u64(parts[2].as_str()) {
            Some(patch) => Some(patch),
            None => {
                return None;
            },
        }
    } else {
        None
    };
    if parts.len() > 3 {
        return None;
    }
    let precision: VersionPrecision = match (minor, patch) {
        (None, None) => VersionPrecision::Major,
        (Some(_), None) => VersionPrecision::MajorMinor,
        (Some(_), Some(_)) => VersionPrecision::MajorMinorPatch,
        (None, Some(_)) => {
            return None;
        },
    };
    let version: Release = Release { major, minor: minor.unwrap_or(0), patch: patch.unwrap_or(0) };
    Some((version, precision))
}

/// The lower bound that an operator and a version write.
pub open spec fn lower_bound(op: Seq<char>, raw_version: Seq<char>) -> Option<InferredLowerBound> {
    match python_version(raw_version) {
        Some((version, precision)) => if op == seq!['>', '='] {
            Some(InferredLowerBound { version, inclusive: true, precision })
        } else if op == seq!['>'] {
            Some(InferredLowerBound { version, inclusive: false, precision })
        } else {
            None
        },
        None => None,
    }
}

/// Reads the lower bound that an operator and a version write.
pub fn parse_inferred_lower_bound(op: &str, raw_version: &str) -> (r: Option<InferredLowerBound>)
    ensures
        r == lower_bound(op@, raw_version@),
{
    proof {
        reveal_strlit(">=");
        reveal_strlit(">");
        assert(">="@ == seq!['>', '=']);
        assert(">"@ == seq!['>']);
    }
    let (version, precision): (Release, VersionPrecision) = match parse_python_version(
        raw_version,
    ) {
        Some(parsed) => parsed,
        None => {
            return None;
        },
    };
    let inclusive: bool = if same(op, ">=") {
        true
    } else if same(op, ">") {
        assert(seq!['>'].len() != seq!['>', '='].len());
        false
    } else {
        return None;
    };
    Some(InferredLowerBound { version, inclusive, precision })
}

/// A place at which `uv` names the versions that a package asks for.
#[derive(Debug, PartialEq, Eq)]
pub struct BoundMention {
    /// `>=` or `>`
    pub op: String,
    /// One to three numbers, with dots between them.
    pub version: String,
}

/// The operators and versions of a list of mentions.
pub open spec fn mention_texts(mentions: Seq<BoundMention>) -> Seq<(Seq<char>, Seq<char>)> {
    mentions.map_values(|m: BoundMention| (m.op@, m.version@))
}

/// The bounds that a list of mentions writes, without those that are unreadable.
pub open spec fn mentioned_bounds(mentions: Seq<(Seq<char>, Seq<char>)>) -> Seq<InferredLowerBound>
    decreases mentions.len(),
{
    if mentions.len() == 0 {
        Seq::empty()
    } else {
        let before = mentioned_bounds(mentions.drop_last());
        match lower_bound(mentions.last().0, mentions.last().1) {
            Some(bound) => before.push(bound),
            None => before,
        }
    }
}

/// The first of the strictest bounds.
pub open spec fn strictest(bounds: Seq<InferredLowerBound>) -> Option<InferredLowerBound>
    decreases bounds.len(),
{
    if bounds.len() == 0 {
        None
    } else {
        match strictest(bounds.drop_last()) {
            Some(best) => if bounds.last().stricter(best) {
                Some(bounds.last())
            } else {
                Some(best)
            },
            None => Some(bounds.last()),
        }
    }
}

/// The constraint that a list of mentions makes: the strictest bound, capped at
/// the next minor version.
pub open spec fn inferred_constraint(mentions: Seq<(Seq<char>, Seq<char>)>) -> Option<
    RetryConstraintView,
> {
    match strictest(mentioned_bounds(mentions)) {
        Some(lower) => capped_constraint(lower),
        None => None,
    }
}

/// The constraint that a list of mentions makes.
pub fn infer_from_mentions(mentions: &Vec<BoundMention>) -> (r: Option<InferredRetryConstraint>)
    ensures
        constraint_result(r) == inferred_constraint(mention_texts(mentions@)),
{
    let mut best: Option<InferredLowerBound> = None;
    let ghost all = mention_texts(mentions@);
    assert(all.take(0).len() == 0);
    for i in 0..mentions.len()
        invariant
            all == mention_texts(mentions@),
            best == strictest(mentioned_bounds(all.take(i as int))),
    {
        let ghost before = mentioned_bounds(all.take(i as int));
        let mention: &BoundMention = &mentions[i];
        assert(all.take(i + 1).drop_last() == all.take(i as int));
        assert(all.take(i + 1).last() == (mention.op@, mention.version@));
        match parse_inferred_lower_bound(mention.op.as_str(), mention.version.as_str()) {
            Some(bound) => {
                assert(before.push(bound).drop_last() == before);
                best = match best {
                    Some(strictest) => if bound.is_stricter_than(&strictest) {
                        Some(bound)
                    } else {
                        Some(strictest)
                    },
                    None => Some(bound),
                };
            },
            None => {},
        }
    }
    assert(all.take(all.len() as int) == all);
    match best {
        Some(lower) => build_inferred_retry_constraint(&lower),
        None => None,
    }
}

/// How `uv` names the versions that a package asks for: an operator, then a
/// version of one to three numbers.
pub const PYTHON_BOUND: &'static str =
    r"does not satisfy\s+Python\s*(>=|>)\s*([0-9]+(?:\.[0-9]+){0,2})";

/// Whether a text is one to three runs of digits, with dots between them.
pub open spec fn dotted_number(text: Seq<char>) -> bool {
    let parts = crate::text::pieces(text, '.');
    parts.len() <= 3 && forall|i: int|
        0 <= i < parts.len() ==> crate::text::all_digits(#[trigger] parts[i])
}

/// Whether a text is one of the operators of a lower bound.
pub open spec fn lower_op(text: Seq<char>) -> bool {
    text == seq!['>', '='] || text == seq!['>']
}

/// Whether a text is white space throughout.
pub open spec fn blank(text: Seq<char>) -> bool {
    forall|i: int| 0 <= i < text.len() ==> crate::text::white_space(#[trigger] text[i])
}

/// A mention as it is written, with the white space that it has in three places.
pub open spec fn mention_text(
    gap: Seq<char>,
    before_op: Seq<char>,
    op: Seq<char>,
    after_op: Seq<char>,
    number: Seq<char>,
) -> Seq<char> {
    "does not satisfy"@ + gap + "Python"@ + before_op + op + after_op + number
}

/// Whether a dotted number that ends at a place goes no further there: no digit
/// follows, nor another part, unless there are three parts already.
pub open spec fn number_ends(text: Seq<char>, number: Seq<char>, end: int) -> bool {
    &&& end < text.len() ==> !crate::text::digit(text[end])
    &&& crate::text::pieces(number, '.').len() < 3 && end + 1 < text.len() && text[end] == '.'
        ==> !crate::text::digit(text[end + 1])
}

/// Whether a mention with this operator and this number starts at a place.
pub open spec fn mention_at(text: Seq<char>, at: int, op: Seq<char>, number: Seq<char>) -> bool {
    &&& lower_op(op)
    &&& dotted_number(number)
    &&& exists|gap: Seq<char>, before_op: Seq<char>, after_op: Seq<char>|
        {
            let mention = #[trigger] mention_text(gap, before_op, op, after_op, number);
            &&& gap.len() > 0 && blank(gap) && blank(before_op) && blank(after_op)
            &&& crate::text::occurs_at(mention, text, at)
            &&& number_ends(text, number, at + mention.len())
        }
}

/// Whether a mention starts at a place.
pub open spec fn mentioned_at(text: Seq<char>, at: int) -> bool {
    exists|op: Seq<char>, number: Seq<char>| #[trigger] mention_at(text, at, op, number)
}

/// The operators and numbers of the mentions that start before a place, in order.
pub open spec fn mentions_before(text: Seq<char>, end: int) -> Seq<(Seq<char>, Seq<char>)>
    decreases end,
{
    if end <= 0 {
        Seq::empty()
    } else {
        let before = mentions_before(text, end - 1);
        if mentioned_at(text, end - 1) {
            before.push(
                choose|op: Seq<char>, number: Seq<char>| #[trigger]
                    mention_at(text, end - 1, op, number),
            )
        } else {
            before
        }
    }
}

/// The operators and numbers of all mentions in a text, in order.
pub open spec fn mentions_in(text: Seq<char>) -> Seq<(Seq<char>, Seq<char>)> {
    mentions_before(text, text.len() as int)
}

/// A text without a mention has none before any place.
proof fn lemma_no_mentions(text: Seq<char>, end: int)
    requires
        forall|at: int| !#[trigger] mentioned_at(text, at),
    ensures
        mentions_before(text, end) == Seq::<(Seq<char>, Seq<char>)>::empty(),
    decreases end,
{
    if end > 0 {
        lemma_no_mentions(text, end - 1);
    }
}

/// The mentions in a text: what the two groups of [`PYTHON_BOUND`] capture, with
/// `regex::Regex::new` and `Regex::captures_iter`.
///
/// The pattern is a valid one, and neither of its groups is optional. Its matches
/// are the mentions in the text, from left to right, and all of them: only the
/// first letter of a mention can start one, so none is lost to an overlap. The
/// white space is that of Unicode. The first group captures the operator. The
/// second is greedy and last in the pattern, so it captures digits and up to two
/// further parts as far as they go.
#[verifier::external_body]
fn find_mentions(pattern: &str, text: &str) -> (r: Vec<BoundMention>)
    requires
        pattern@ == PYTHON_BOUND@,
    ensures
        mention_texts(r@) == mentions_in(text@),
{
    let pattern = regex::Regex::new(pattern).unwrap();
    let mentions = pattern.captures_iter(text).map(|groups| BoundMention {
        op: groups[1].to_string(),
        version: groups[2].to_string(),
    });
    mentions.collect()
}

/// The constraint that the explanation of a failed resolution makes.
pub fn infer_retry_constraint(stderr: &str) -> (r: Option<InferredRetryConstraint>)
    ensures
        constraint_result(r) == inferred_constraint(mentions_in(stderr@)),
        (forall|at: int| !#[trigger] mentioned_at(stderr@, at)) ==> r is None,
{
    let mentions: Vec<BoundMention> = find_mentions(PYTHON_BOUND, stderr);
    proof {
        if forall|at: int| !#[trigger] mentioned_at(stderr@, at) {
            lemma_no_mentions(stderr@, stderr@.len() as int);
        }
    }
    infer_from_mentions(&mentions)
}

/// The constraint that a failed command makes, where what it wrote to its
/// standard error was captured.
pub fn infer_retry_constraint_from_error(error: &process::Error) -> (r: Option<
    InferredRetryConstraint,
>)
    ensures
        constraint_result(r) == match process::captured_text(*error) {
            Some(stderr) => inferred_constraint(mentions_in(stderr)),
            None => None,
        },
{
    match error.stderr_text() {
        Some(stderr) => infer_retry_constraint(stderr.as_str()),
        None => None,
    }
}

/// The release of a comparator, in which a missing number counts as zero, and how
/// many numbers there were.
pub open spec fn comparator_release(comparator: crate::version::ComparatorView) -> Option<
    (Release, VersionPrecision),
> {
    if comparator.minor is None && comparator.patch is Some {
        None
    } else {
        Some(
            (
                Release {
                    major: comparator.major,
                    minor: or_zero(comparator.minor),
                    patch: or_zero(comparator.patch),
                },
                if comparator.minor is None {
                    VersionPrecision::Major
                } else if comparator.patch is None {
                    VersionPrecision::MajorMinor
                } else {
                    VersionPrecision::MajorMinorPatch
                },
            ),
        )
    }
}

/// The release of a comparator, and how many numbers there were.
pub fn comparator_version(comparator: &Comparator) -> (r: Option<(Release, VersionPrecision)>)
    ensures
        r == comparator_release(comparator@),
{
    let precision: VersionPrecision = match (comparator.minor, comparator.patch) {
        (None, None) => VersionPrecision::Major,
        (Some(_), None) => VersionPrecision::MajorMinor,
        (Some(_), Some(_)) => VersionPrecision::MajorMinorPatch,
        (None, Some(_)) => {
            return None;
        },
    };
    let version: Release = Release {
        major: comparator.major,
        minor: comparator.minor.unwrap_or(0),
        patch: comparator.patch.unwrap_or(0),
    };
    Some((version, precision))
}

/// A comparator as a lower bound.
pub open spec fn lower_of(comparator: crate::version::ComparatorView) -> Option<
    InferredLowerBound,
> {
    match comparator_release(comparator) {
        Some((version, precision)) => Some(
            InferredLowerBound { version, inclusive: comparator.op is GreaterEq, precision },
        ),
        None => None,
    }
}

/// A comparator as an upper bound.
pub open spec fn upper_of(comparator: crate::version::ComparatorView) -> Option<
    InferredUpperBound,
> {
    match comparator_release(comparator) {
        Some((version, precision)) => Some(
            InferredUpperBound { version, inclusive: comparator.op is LessEq, precision },
        ),
        None => None,
    }
}

/// A comparator as a lower bound.
pub fn comparator_lower_bound(comparator: &Comparator) -> (r: Option<InferredLowerBound>)
    ensures
        r == lower_of(comparator@),
{
    match comparator_version(comparator) {
        Some((version, precision)) => Some(
            InferredLowerBound { version, inclusive: comparator.op == Op::GreaterEq, precision },
        ),
        None => None,
    }
}

/// A comparator as an upper bound.
pub fn comparator_upper_bound(comparator: &Comparator) -> (r: Option<InferredUpperBound>)
    ensures
        r == upper_of(comparator@),
{
    match comparator_version(comparator) {
        Some((version, precision)) => Some(
            InferredUpperBound { version, inclusive: comparator.op == Op::LessEq, precision },
        ),
        None => None,
    }
}

/// The stricter of two lower bounds, the first if neither is.
pub open spec fn tighter_lower(current: Option<InferredLowerBound>, bound: InferredLowerBound) -> (
    InferredLowerBound) {
    match current {
        Some(current) => if bound.stricter(current) {
            bound
        } else {
            current
        },
        None => bound,
    }
}

/// The stricter of two upper bounds, the first if neither is.
pub open spec fn tighter_upper(current: Option<InferredUpperBound>, bound: InferredUpperBound) -> (
    InferredUpperBound) {
    match current {
        Some(current) => if bound.stricter(current) {
            bound
        } else {
            current
        },
        None => bound,
    }
}

/// The strictest bounds of a requirement on either side, where every comparator
/// is a bound.
pub open spec fn range_bounds(comparators: Seq<crate::version::ComparatorView>) -> Option<
    (Option<InferredLowerBound>, Option<InferredUpperBound>),
>
    decreases comparators.len(),
{
    if comparators.len() == 0 {
        Some((None, None))
    } else {
        let last = comparators.last();
        match range_bounds(comparators.drop_last()) {
            Some((lower, upper)) => match last.op {
                Op::Greater | Op::GreaterEq => match lower_of(last) {
                    Some(bound) => Some((Some(tighter_lower(lower, bound)), upper)),
                    None => None,
                },
                Op::Less | Op::LessEq => match upper_of(last) {
                    Some(bound) => Some((lower, Some(tighter_upper(upper, bound)))),
                    None => None,
                },
                _ => None,
            },
            None => None,
        }
    }
}

/// A requirement has bounds only where its first comparators have.
proof fn lemma_range_bounds_prefix(comparators: Seq<crate::version::ComparatorView>, n: int)
    requires
        0 <= n <= comparators.len(),
        range_bounds(comparators.take(n)) is None,
    ensures
        range_bounds(comparators) is None,
    decreases comparators.len() - n,
{
    if n < comparators.len() {
        assert(comparators.take(n + 1).drop_last() == comparators.take(n));
        lemma_range_bounds_prefix(comparators, n + 1);
    } else {
        assert(comparators.take(n) == comparators);
    }
}

/// The strictest bounds of a requirement on either side, where every comparator
/// is a bound.
pub fn semver_range_bounds(requirement: &VersionReq) -> (r: Option<
    (Option<InferredLowerBound>, Option<InferredUpperBound>),
>)
    ensures
        r == range_bounds(requirement@),
{
    let mut lower: Option<InferredLowerBound> = None;
    let mut upper: Option<InferredUpperBound> = None;
    let ghost all = requirement@;
    assert(all.take(0).len() == 0);
    for i in 0..requirement.comparators.len()
        invariant
            all == requirement@,
            all.len() == requirement.comparators.len(),
            range_bounds(all.take(i as int)) == Some((lower, upper)),
    {
        let comparator: &Comparator = &requirement.comparators[i];
        proof {
            assert(all.take(i + 1).drop_last() == all.take(i as int));
            assert(all.take(i + 1).last() == comparator@);
            if range_bounds(all.take(i + 1)) is None {
                lemma_range_bounds_prefix(all, i + 1);
            }
        }
        match comparator.op {
            Op::Greater | Op::GreaterEq => {
                let bound: InferredLowerBound = match comparator_lower_bound(comparator) {
                    Some(bound) => bound,
                    None => {
                        return None;
                    },
                };
                let replaces: bool = match &lower {
                    Some(current) => bound.is_stricter_than(current),
                    None => true,
                };
                if replaces {
                    lower = Some(bound);
                }
            },
            Op::Less | Op::LessEq => {
                let bound: InferredUpperBound = match comparator_upper_bound(comparator) {
                    Some(bound) => bound,
                    None => {
                        return None;
                    },
                };
                let replaces: bool = match &upper {
                    Some(current) => bound.is_stricter_than(current),
                    None => true,
                };
                if replaces {
                    upper = Some(bound);
                }
            },
            _ => {
                return None;
            },
        }
    }
    assert(all.take(all.len() as int) == all);
    Some((lower, upper))
}

/// The bounds of a requirement, where they are stricter, in place of those that
/// were inferred.
pub open spec fn narrowed(
    inferred: RetryConstraintView,
    lower: Option<InferredLowerBound>,
    upper: Option<InferredUpperBound>,
) -> (InferredLowerBound, InferredUpperBound) {
    (
        match lower {
            Some(bound) => tighter_lower(Some(inferred.lower), bound),
            None => inferred.lower,
        },
        match upper {
            Some(bound) => tighter_upper(Some(inferred.upper), bound),
            None => inferred.upper,
        },
    )
}

/// What to ask `uv` for in the retry, where what the hook asks for leaves room
/// for the inferred constraint.
pub open spec fn retry_request(request: LanguageRequest, inferred: RetryConstraintView) -> Option<
    Seq<char>,
> {
    match request {
        LanguageRequest::Any { system_only } => if system_only {
            None
        } else {
            Some(inferred.request)
        },
        LanguageRequest::Python(PythonRequest::Any) => Some(inferred.request),
        LanguageRequest::Python(PythonRequest::Major(major)) => if inferred.candidate.major
            == major {
            Some(inferred.request)
        } else {
            None
        },
        LanguageRequest::Python(PythonRequest::MajorMinor(major, minor)) => if inferred.candidate.major
            == major && inferred.candidate.minor == minor {
            Some(inferred.request)
        } else {
            None
        },
        LanguageRequest::Python(PythonRequest::MajorMinorPatch(major, minor, patch)) => {
            let pinned = Release { major, minor, patch };
            if inferred.lower.admits(pinned) && inferred.upper.admits(pinned) {
                Some(crate::version::release_text(pinned))
            } else {
                None
            }
        },
        LanguageRequest::Python(PythonRequest::Range(requirement, _)) => match range_bounds(
            requirement@,
        ) {
            Some((lower, upper)) => {
                let bounds = narrowed(inferred, lower, upper);
                match retry_constraint(bounds.0, bounds.1) {
                    Some(constraint) => Some(constraint.request),
                    None => None,
                }
            },
            None => None,
        },
        LanguageRequest::Other => None,
    }
}

/// What to ask `uv` for in the retry, where anything was inferred.
pub open spec fn request_from(
    request: LanguageRequest,
    inferred: Option<RetryConstraintView>,
) -> Option<Seq<char>> {
    match inferred {
        Some(inferred) => retry_request(request, inferred),
        None => None,
    }
}

/// What to ask `uv` for in the retry.
pub fn retry_request_for_language_request(
    language_request: &LanguageRequest,
    inferred: &InferredRetryConstraint,
) -> (r: Option<String>)
    ensures
        crate::text::optional_text(r) == retry_request(*language_request, inferred@),
{
    proof {
        use_type_invariant(inferred);
    }
    match language_request {
        LanguageRequest::Any { system_only } => {
            if *system_only {
                None
            } else {
                Some(inferred.request.clone())
            }
        },
        LanguageRequest::Python(request) => match request {
            PythonRequest::Any => Some(inferred.request.clone()),
            PythonRequest::Major(major) => {
                if inferred.candidate.major == *major {
                    Some(inferred.request.clone())
                } else {
                    None
                }
            },
            PythonRequest::MajorMinor(major, minor) => {
                if inferred.candidate.major == *major && inferred.candidate.minor == *minor {
                    Some(inferred.request.clone())
                } else {
                    None
                }
            },
            PythonRequest::MajorMinorPatch(major, minor, patch) => {
                let pinned: Release = Release { major: *major, minor: *minor, patch: *patch };
                let request: String = format_release(&pinned);
                let version: Version = Version::new(*major, *minor, *patch);
                proof {
                    lemma_bounds_satisfied(inferred.lower, inferred.upper, pinned);
                }
                if requirement_matches(&inferred.requirement, &version) {
                    Some(request)
                } else {
                    None
                }
            },
            PythonRequest::Range(requirement, _) => {
                let (lower, upper): (Option<InferredLowerBound>, Option<InferredUpperBound>) =
                    match semver_range_bounds(requirement) {
                    Some(bounds) => bounds,
                    None => {
                        return None;
                    },
                };
                let lower: InferredLowerBound = match lower {
                    Some(bound) => if bound.is_stricter_than(&inferred.lower) {
                        bound
                    } else {
                        inferred.lower
                    },
                    None => inferred.lower,
                };
                let upper: InferredUpperBound = match upper {
                    Some(bound) => if bound.is_stricter_than(&inferred.upper) {
                        bound
                    } else {
                        inferred.upper
                    },
                    None => inferred.upper,
                };
                match build_retry_constraint(lower, upper) {
                    Some(constraint) => Some(constraint.request),
                    None => None,
                }
            },
        },
        LanguageRequest::Other => None,
    }
}

} // verus!
