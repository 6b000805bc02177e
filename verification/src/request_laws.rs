//! What holds of bounds and ranges, number by number, and of what is asked for in
//! the retry, whatever the hook asks for.

use vstd::prelude::*;

use crate::inferred_retry::{
    BoundMention, InferredLowerBound, InferredRetryConstraint, InferredUpperBound,
    RetryConstraintView, VersionPrecision,
};
use crate::request::{LanguageRequest, PythonRequest};
use crate::version::{
    Comparator, ComparatorView, Op, Release, Version, VersionReq, VersionView,
};

verus! {

/// Of two releases the first number in which they differ decides which is older.
pub proof fn the_first_difference_decides(a: Release, b: Release)
    ensures
        a.major != b.major ==> (a.precedes(b) <==> a.major < b.major),
        a.major == b.major && a.minor != b.minor ==> (a.precedes(b) <==> a.minor < b.minor),
        a.major == b.major && a.minor == b.minor ==> (a.precedes(b) <==> a.patch < b.patch),
{
}

/// A release is written as its three numbers with dots between them; a version adds
/// its tag behind a hyphen and its metadata behind a plus sign, where it has them.
pub proof fn versions_are_written_number_by_number(release: Release, version: VersionView)
    ensures
        crate::version::release_text(release) == crate::text::decimal(release.major as nat) + seq![
            '.',
        ] + crate::text::decimal(release.minor as nat) + seq!['.'] + crate::text::decimal(
            release.patch as nat,
        ),
        crate::version::released(release).release == release,
        crate::version::released(release).pre.len() == 0,
        crate::version::released(release).build.len() == 0,
        ({
            let text = crate::version::version_text(version);
            let numbers = crate::version::release_text(version.release);
            &&& version.pre.len() == 0 && version.build.len() == 0 ==> text == numbers
            &&& version.pre.len() > 0 && version.build.len() == 0 ==> text == numbers + seq!['-']
                + version.pre
            &&& version.pre.len() == 0 && version.build.len() > 0 ==> text == numbers + seq!['+']
                + version.build
            &&& version.pre.len() > 0 && version.build.len() > 0 ==> text == numbers + seq!['-']
                + version.pre + seq!['+'] + version.build
        }),
{
    let major = crate::text::decimal(release.major as nat);
    let minor = crate::text::decimal(release.minor as nat);
    let patch = crate::text::decimal(release.patch as nat);
    assert(crate::version::release_text(release) == major + seq!['.'] + minor + seq!['.'] + patch);
    let numbers = crate::version::release_text(version.release);
    assert(numbers + Seq::<char>::empty() == numbers);
    assert(numbers + (seq!['-'] + version.pre) == numbers + seq!['-'] + version.pre);
    assert(numbers + (seq!['+'] + version.build) == numbers + seq!['+'] + version.build);
    assert(numbers + (seq!['-'] + version.pre) + (seq!['+'] + version.build) == numbers + seq!['-']
        + version.pre + seq!['+'] + version.build);
    assert(numbers + (seq!['-'] + version.pre) + Seq::<char>::empty() == numbers + seq!['-']
        + version.pre);
}

/// A bound admits the releases on its side, and its own only where it is inclusive.
pub proof fn bounds_admit_one_side(
    lower: InferredLowerBound,
    upper: InferredUpperBound,
    release: Release,
)
    ensures
        lower.admits(release) <==> lower.version.precedes(release) || (lower.version == release
            && lower.inclusive),
        upper.admits(release) <==> release.precedes(upper.version) || (upper.version == release
            && upper.inclusive),
{
}

/// A lower bound is stricter where its version is later, an upper one where it is
/// earlier; at one version, an exclusive bound is stricter than an inclusive one.
/// How many numbers were written does not count.
pub proof fn strictness_goes_by_version(
    a: InferredLowerBound,
    b: InferredLowerBound,
    c: InferredUpperBound,
    d: InferredUpperBound,
)
    ensures
        a.version != b.version ==> (a.stricter(b) <==> b.version.precedes(a.version)),
        a.version == b.version ==> (a.stricter(b) <==> !a.inclusive && b.inclusive),
        c.version != d.version ==> (c.stricter(d) <==> c.version.precedes(d.version)),
        c.version == d.version ==> (c.stricter(d) <==> !c.inclusive && d.inclusive),
{
}

/// Bounds are written with an operator that says whether they are inclusive, and
/// with as many numbers as they had.
pub proof fn bounds_are_written_with_their_operator(
    lower: InferredLowerBound,
    upper: InferredUpperBound,
)
    ensures
        crate::version::limit_op_text(lower.op()) == if lower.inclusive {
            seq!['>', '=']
        } else {
            seq!['>']
        },
        crate::version::limit_op_text(upper.op()) == if upper.inclusive {
            seq!['<', '=']
        } else {
            seq!['<']
        },
        crate::inferred_retry::request_text(lower, upper) == crate::version::limit_op_text(
            lower.op(),
        ) + crate::inferred_retry::bound_text(lower.version, lower.precision) + seq![',']
            + crate::version::limit_op_text(upper.op()) + crate::inferred_retry::bound_text(
            upper.version,
            upper.precision,
        ),
{
}

/// As many numbers of a release are written as the precision says, with dots
/// between them.
pub proof fn numbers_are_written_as_far_as_they_were_given(release: Release)
    ensures
        ({
            let major = crate::text::decimal(release.major as nat);
            let minor = crate::text::decimal(release.minor as nat);
            let patch = crate::text::decimal(release.patch as nat);
            &&& crate::inferred_retry::bound_text(release, VersionPrecision::Major) == major
            &&& crate::inferred_retry::bound_text(release, VersionPrecision::MajorMinor) == major
                + seq!['.'] + minor
            &&& crate::inferred_retry::bound_text(release, VersionPrecision::MajorMinorPatch)
                == major + seq!['.'] + minor + seq!['.'] + patch
        }),
{
    let version = crate::version::released(release);
    versions_are_written_number_by_number(release, version);
    let major = crate::text::decimal(release.major as nat);
    let minor = crate::text::decimal(release.minor as nat);
    assert(major.push('.') + minor == major + seq!['.'] + minor);
}

/// The smallest release above a bound is its own version where that is included,
/// and the next patch otherwise.
pub proof fn the_next_patch_follows_an_exclusive_bound(lower: InferredLowerBound)
    ensures
        lower.inclusive ==> crate::inferred_retry::smallest_release(lower) == Some(lower.version),
        !lower.inclusive ==> (crate::inferred_retry::smallest_release(lower) is Some
            <==> lower.version.patch < u64::MAX),
        !lower.inclusive ==> (crate::inferred_retry::smallest_release(lower) matches Some(release)
            ==> release.major == lower.version.major && release.minor == lower.version.minor
            && release.patch == lower.version.patch + 1),
{
}

/// The constraint of two bounds keeps both, asks for both, requires both, and names
/// the smallest release within both. There is one exactly where there is such a
/// release, unless the lower bound excludes a release whose last number cannot be
/// raised.
pub proof fn a_constraint_says_what_its_bounds_say(
    lower: InferredLowerBound,
    upper: InferredUpperBound,
    release: Release,
)
    ensures
        crate::inferred_retry::retry_constraint(lower, upper) matches Some(constraint) ==> {
            &&& constraint.lower == lower
            &&& constraint.upper == upper
            &&& constraint.request == crate::inferred_retry::request_text(lower, upper)
            &&& constraint.requirement.len() == 2
            &&& constraint.requirement[0] == (ComparatorView {
                op: if lower.inclusive {
                    Op::GreaterEq
                } else {
                    Op::Greater
                },
                major: lower.version.major,
                minor: Some(lower.version.minor),
                patch: Some(lower.version.patch),
                pre: Seq::empty(),
            })
            &&& constraint.requirement[1] == (ComparatorView {
                op: if upper.inclusive {
                    Op::LessEq
                } else {
                    Op::Less
                },
                major: upper.version.major,
                minor: Some(upper.version.minor),
                patch: Some(upper.version.patch),
                pre: Seq::empty(),
            })
            &&& crate::version::satisfies(
                constraint.requirement,
                crate::version::released(release),
            ) <==> lower.admits(release) && upper.admits(release)
            &&& lower.admits(constraint.candidate)
            &&& upper.admits(constraint.candidate)
            &&& lower.admits(release) ==> !release.precedes(constraint.candidate)
        },
        (lower.inclusive || lower.version.patch < u64::MAX) && lower.admits(release)
            && upper.admits(release) ==> crate::inferred_retry::retry_constraint(lower, upper)
            is Some,
        !lower.inclusive && lower.version.patch == u64::MAX
            ==> crate::inferred_retry::retry_constraint(lower, upper) is None,
{
    let requirement = crate::version::limits_requirement(
        crate::inferred_retry::bound_limits(lower, upper),
    );
    assert(requirement.len() == 2);
    assert(crate::version::within(requirement[0], release) <==> lower.admits(release));
    assert(crate::version::within(requirement[1], release) <==> upper.admits(release));
}

/// The next minor version of a release is an exclusive bound, two numbers long.
pub proof fn the_next_minor_version_is_excluded(version: Release)
    ensures
        crate::inferred_retry::next_minor(version) is Some <==> version.minor < u64::MAX,
        crate::inferred_retry::next_minor(version) matches Some(upper) ==> {
            &&& upper.version.major == version.major
            &&& upper.version.minor == version.minor + 1
            &&& upper.version.patch == 0
            &&& !upper.inclusive
            &&& upper.precision == VersionPrecision::MajorMinor
        },
{
}

/// A constraint made of a lower bound alone keeps that bound and ends before the
/// next minor version.
pub proof fn a_lower_bound_is_capped_at_the_next_minor(lower: InferredLowerBound)
    ensures
        crate::inferred_retry::capped_constraint(lower) matches Some(constraint) ==> {
            &&& constraint.lower == lower
            &&& constraint.upper.version == (Release {
                major: lower.version.major,
                minor: (lower.version.minor + 1) as u64,
                patch: 0,
            })
            &&& lower.version.minor < u64::MAX
            &&& !constraint.upper.inclusive
            &&& constraint.upper.precision == VersionPrecision::MajorMinor
            &&& constraint.request == crate::inferred_retry::request_text(lower, constraint.upper)
            &&& constraint == crate::inferred_retry::retry_constraint(lower, constraint.upper)->0
        },
        crate::inferred_retry::capped_constraint(lower) is Some <==> lower.version.minor < u64::MAX
            && (lower.inclusive || lower.version.patch < u64::MAX),
{
}

/// A version is one to three numbers with dots between them. Numbers that are left
/// out count as zero, and how many there were is kept.
pub proof fn versions_are_one_to_three_numbers(raw: Seq<char>)
    ensures
        ({
            let parts = crate::text::pieces(raw, '.');
            let read = crate::inferred_retry::python_version(raw);
            &&& read is Some <==> parts.len() <= 3 && forall|i: int|
                0 <= i < parts.len() ==> crate::text::parsed_u64(#[trigger] parts[i]) is Some
            &&& read matches Some((version, precision)) ==> {
                &&& Some(version.major) == crate::text::parsed_u64(parts[0])
                &&& parts.len() > 1 ==> Some(version.minor) == crate::text::parsed_u64(parts[1])
                &&& parts.len() > 2 ==> Some(version.patch) == crate::text::parsed_u64(parts[2])
                &&& parts.len() == 1 ==> version.minor == 0 && precision == VersionPrecision::Major
                &&& parts.len() == 2 ==> precision == VersionPrecision::MajorMinor
                &&& parts.len() <= 2 ==> version.patch == 0
                &&& parts.len() == 3 ==> precision == VersionPrecision::MajorMinorPatch
            }
        }),
{
    crate::text::lemma_pieces_some(raw, '.');
    let parts = crate::text::pieces(raw, '.');
    if parts.len() <= 3 && forall|i: int|
        0 <= i < parts.len() ==> crate::text::parsed_u64(#[trigger] parts[i]) is Some {
        assert(crate::text::parsed_u64(parts[0]) is Some);
        assert(parts.len() > 1 ==> crate::text::parsed_u64(parts[1]) is Some);
        assert(parts.len() > 2 ==> crate::text::parsed_u64(parts[2]) is Some);
    }
}

/// A lower bound is a version behind one of two operators, which say whether it is
/// inclusive; any other operator makes none.
pub proof fn lower_bounds_have_one_of_two_operators(op: Seq<char>, number: Seq<char>)
    ensures
        ({
            let bound = crate::inferred_retry::lower_bound(op, number);
            let read = crate::inferred_retry::python_version(number);
            &&& bound is Some <==> read is Some && (op == seq!['>', '='] || op == seq!['>'])
            &&& bound is Some ==> {
                &&& bound->0.version == (read->0).0
                &&& bound->0.precision == (read->0).1
                &&& bound->0.inclusive <==> op == seq!['>', '=']
            }
        }),
{
    assert(seq!['>'].len() != seq!['>', '='].len());
}

/// The bounds of mentions are those of the first ones, then those of the others; an
/// unreadable mention has none.
pub proof fn bounds_are_read_mention_by_mention(
    first: Seq<(Seq<char>, Seq<char>)>,
    second: Seq<(Seq<char>, Seq<char>)>,
    op: Seq<char>,
    number: Seq<char>,
)
    ensures
        crate::inferred_retry::mentioned_bounds(first + second)
            == crate::inferred_retry::mentioned_bounds(first)
            + crate::inferred_retry::mentioned_bounds(second),
        crate::inferred_retry::mentioned_bounds(Seq::empty()).len() == 0,
        crate::inferred_retry::mentioned_bounds(seq![(op, number)])
            == match crate::inferred_retry::lower_bound(op, number) {
            Some(bound) => seq![bound],
            None => Seq::empty(),
        },
    decreases second.len(),
{
    if second.len() == 0 {
        assert(first + second == first);
    } else {
        bounds_are_read_mention_by_mention(first, second.drop_last(), op, number);
        assert((first + second).drop_last() == first + second.drop_last());
        assert((first + second).last() == second.last());
    }
    assert(crate::inferred_retry::mentioned_bounds(first + second)
        == crate::inferred_retry::mentioned_bounds(first)
        + crate::inferred_retry::mentioned_bounds(second));
    reveal_with_fuel(crate::inferred_retry::mentioned_bounds, 2);
    let one = seq![(op, number)];
    assert(one.drop_last() == Seq::<(Seq<char>, Seq<char>)>::empty());
    assert(one.last() == (op, number));
    match crate::inferred_retry::lower_bound(op, number) {
        Some(bound) => {
            assert(Seq::<InferredLowerBound>::empty().push(bound) == seq![bound]);
        },
        None => {},
    }
}

/// Of the strictest bounds the first one is taken: it is stricter than every bound
/// before it, and none after it is stricter.
pub proof fn the_first_of_the_strictest_is_taken(bounds: Seq<InferredLowerBound>)
    ensures
        crate::inferred_retry::strictest(bounds) is Some <==> bounds.len() > 0,
        crate::inferred_retry::strictest(bounds) matches Some(best) ==> exists|k: int|
            {
                &&& 0 <= k < bounds.len()
                &&& #[trigger] bounds[k] == best
                &&& forall|i: int| 0 <= i < k ==> best.stricter(#[trigger] bounds[i])
                &&& forall|i: int|
                    k <= i < bounds.len() ==> !(#[trigger] bounds[i]).stricter(best)
            },
    decreases bounds.len(),
{
    if bounds.len() > 0 {
        let before = bounds.drop_last();
        the_first_of_the_strictest_is_taken(before);
        let last = bounds.len() - 1;
        match crate::inferred_retry::strictest(before) {
            Some(best) => {
                let k = choose|k: int|
                    {
                        &&& 0 <= k < before.len()
                        &&& #[trigger] before[k] == best
                        &&& forall|i: int| 0 <= i < k ==> best.stricter(#[trigger] before[i])
                        &&& forall|i: int|
                            k <= i < before.len() ==> !(#[trigger] before[i]).stricter(best)
                    };
                if bounds[last].stricter(best) {
                    assert forall|i: int| 0 <= i < last implies bounds[last].stricter(
                        #[trigger] bounds[i],
                    ) by {
                        assert(before[i] == bounds[i]);
                        if i < k {
                            assert(best.stricter(before[i]));
                        } else {
                            assert(!before[i].stricter(best));
                        }
                    }
                    assert(bounds[last] == crate::inferred_retry::strictest(bounds)->0);
                } else {
                    assert(bounds[k] == best);
                    assert forall|i: int| 0 <= i < k implies best.stricter(
                        #[trigger] bounds[i],
                    ) by {
                        assert(before[i] == bounds[i]);
                    }
                    assert forall|i: int| k <= i < bounds.len() implies !(
                    #[trigger] bounds[i]).stricter(best) by {
                        if i < last {
                            assert(before[i] == bounds[i]);
                        }
                    }
                }
            },
            None => {
                assert(bounds[0] == crate::inferred_retry::strictest(bounds)->0);
            },
        }
    }
}

/// What is inferred from mentions is the strictest of their bounds, ending before
/// the next minor version; nothing is inferred only where no mention is readable or
/// that bound cannot be capped.
pub proof fn mentions_make_the_constraint_of_the_strictest(
    mentions: Seq<(Seq<char>, Seq<char>)>,
)
    ensures
        ({
            let bounds = crate::inferred_retry::mentioned_bounds(mentions);
            let inferred = crate::inferred_retry::inferred_constraint(mentions);
            &&& bounds.len() == 0 ==> inferred is None
            &&& crate::inferred_retry::strictest(bounds) matches Some(best) ==> inferred
                == crate::inferred_retry::capped_constraint(best)
            &&& inferred is Some ==> bounds.contains(inferred->0.lower)
            &&& inferred is None ==> bounds.len() == 0 || {
                let best = crate::inferred_retry::strictest(bounds)->0;
                best.version.minor == u64::MAX || (!best.inclusive && best.version.patch
                    == u64::MAX)
            }
        }),
{
    crate::retry_laws::strictest_bound_is_not_exceeded(
        crate::inferred_retry::mentioned_bounds(mentions),
    );
}

/// A comparator is a bound with its own numbers, those left out counting as zero;
/// it is inclusive where its operator is. One with a patch but no minor version is
/// none.
pub proof fn comparators_are_bounds_with_their_numbers(comparator: ComparatorView)
    ensures
        ({
            let lower = crate::inferred_retry::lower_of(comparator);
            let upper = crate::inferred_retry::upper_of(comparator);
            let minor = if comparator.minor is Some {
                comparator.minor->0
            } else {
                0
            };
            let patch = if comparator.patch is Some {
                comparator.patch->0
            } else {
                0
            };
            let precision = if comparator.minor is None {
                VersionPrecision::Major
            } else if comparator.patch is None {
                VersionPrecision::MajorMinor
            } else {
                VersionPrecision::MajorMinorPatch
            };
            let version = Release { major: comparator.major, minor, patch };
            &&& lower is Some <==> comparator.minor is Some || comparator.patch is None
            &&& upper is Some <==> comparator.minor is Some || comparator.patch is None
            &&& lower is Some ==> lower->0 == (InferredLowerBound {
                version,
                inclusive: comparator.op == Op::GreaterEq,
                precision,
            })
            &&& upper is Some ==> upper->0 == (InferredUpperBound {
                version,
                inclusive: comparator.op == Op::LessEq,
                precision,
            })
            &&& crate::inferred_retry::comparator_release(comparator) is Some <==> lower is Some
            &&& lower is Some ==> crate::inferred_retry::comparator_release(comparator) == Some(
                (version, precision),
            )
        }),
{
}

/// A range has bounds exactly where each of its comparators limits versions from
/// one side.
pub proof fn ranges_of_limits_have_bounds(comparators: Seq<ComparatorView>)
    ensures
        crate::inferred_retry::range_bounds(comparators) is Some <==> forall|i: int|
            0 <= i < comparators.len() ==> {
                let comparator = #[trigger] comparators[i];
                &&& comparator.op == Op::Greater || comparator.op == Op::GreaterEq || comparator.op
                    == Op::Less || comparator.op == Op::LessEq
                &&& comparator.minor is Some || comparator.patch is None
            },
    decreases comparators.len(),
{
    if comparators.len() > 0 {
        let before = comparators.drop_last();
        let last = comparators.len() - 1;
        ranges_of_limits_have_bounds(before);
        assert forall|i: int| 0 <= i < last implies before[i] == #[trigger] comparators[i] by {}
        if crate::inferred_retry::range_bounds(comparators) is Some {
            assert forall|i: int| 0 <= i < comparators.len() implies {
                let comparator = #[trigger] comparators[i];
                &&& comparator.op == Op::Greater || comparator.op == Op::GreaterEq || comparator.op
                    == Op::Less || comparator.op == Op::LessEq
                &&& comparator.minor is Some || comparator.patch is None
            } by {
                if i < last {
                    assert(before[i] == comparators[i]);
                }
            }
        }
        if forall|i: int|
            0 <= i < comparators.len() ==> {
                let comparator = #[trigger] comparators[i];
                &&& comparator.op == Op::Greater || comparator.op == Op::GreaterEq || comparator.op
                    == Op::Less || comparator.op == Op::LessEq
                &&& comparator.minor is Some || comparator.patch is None
            } {
            assert forall|i: int| 0 <= i < before.len() implies {
                let comparator = #[trigger] before[i];
                &&& comparator.op == Op::Greater || comparator.op == Op::GreaterEq || comparator.op
                    == Op::Less || comparator.op == Op::LessEq
                &&& comparator.minor is Some || comparator.patch is None
            } by {
                assert(before[i] == comparators[i]);
            }
            let comparator = comparators[last];
            assert(comparator == comparators.last());
        }
    }
}

/// The lower bound of a range is the first of its strictest ones, and there is one
/// exactly where a comparator limits versions from below.
pub proof fn ranges_have_their_strictest_lower_bound(comparators: Seq<ComparatorView>)
    requires
        crate::inferred_retry::range_bounds(comparators) is Some,
    ensures
        ({
            let lower = (crate::inferred_retry::range_bounds(comparators)->0).0;
            &&& lower is None <==> forall|i: int|
                0 <= i < comparators.len() ==> (#[trigger] comparators[i]).op != Op::Greater
                    && comparators[i].op != Op::GreaterEq
            &&& lower matches Some(best) ==> exists|k: int|
                {
                    &&& 0 <= k < comparators.len()
                    &&& (#[trigger] comparators[k]).op == Op::Greater || comparators[k].op
                        == Op::GreaterEq
                    &&& crate::inferred_retry::lower_of(comparators[k]) == Some(best)
                    &&& forall|i: int|
                        0 <= i < comparators.len() && ((#[trigger] comparators[i]).op == Op::Greater
                            || comparators[i].op == Op::GreaterEq)
                            ==> !crate::inferred_retry::lower_of(comparators[i])->0.stricter(best)
                    &&& forall|i: int|
                        0 <= i < k && ((#[trigger] comparators[i]).op == Op::Greater
                            || comparators[i].op == Op::GreaterEq) ==> best.stricter(
                            crate::inferred_retry::lower_of(comparators[i])->0,
                        )
                }
        }),
    decreases comparators.len(),
{
    if comparators.len() > 0 {
        let before = comparators.drop_last();
        let last = comparators.len() - 1;
        ranges_have_their_strictest_lower_bound(before);
        let old = (crate::inferred_retry::range_bounds(before)->0).0;
        let new = (crate::inferred_retry::range_bounds(comparators)->0).0;
        let limits = comparators[last].op == Op::Greater || comparators[last].op == Op::GreaterEq;
        assert forall|i: int| 0 <= i < last implies before[i] == #[trigger] comparators[i] by {}
        if old is None {
            assert forall|i: int| 0 <= i < last implies (#[trigger] comparators[i]).op
                != Op::Greater && comparators[i].op != Op::GreaterEq by {
                assert(before[i] == comparators[i]);
            }
            if limits {
                assert(crate::inferred_retry::lower_of(comparators[last]) == new);
            }
        } else {
            let best = old->0;
            let k = choose|k: int|
                {
                    &&& 0 <= k < before.len()
                    &&& (#[trigger] before[k]).op == Op::Greater || before[k].op == Op::GreaterEq
                    &&& crate::inferred_retry::lower_of(before[k]) == Some(best)
                    &&& forall|i: int|
                        0 <= i < before.len() && ((#[trigger] before[i]).op == Op::Greater
                            || before[i].op == Op::GreaterEq)
                            ==> !crate::inferred_retry::lower_of(before[i])->0.stricter(best)
                    &&& forall|i: int|
                        0 <= i < k && ((#[trigger] before[i]).op == Op::Greater || before[i].op
                            == Op::GreaterEq) ==> best.stricter(
                            crate::inferred_retry::lower_of(before[i])->0,
                        )
                };
            assert(before[k] == comparators[k]);
            let at = if limits && crate::inferred_retry::lower_of(comparators[last])->0.stricter(
                best,
            ) {
                last
            } else {
                k
            };
            let chosen = new->0;
            assert(crate::inferred_retry::lower_of(comparators[at]) == Some(chosen));
            assert forall|i: int|
                0 <= i < comparators.len() && ((#[trigger] comparators[i]).op == Op::Greater
                    || comparators[i].op
                    == Op::GreaterEq) implies !crate::inferred_retry::lower_of(
                comparators[i],
            )->0.stricter(chosen) by {
                if i < last {
                    assert(before[i] == comparators[i]);
                }
            }
            assert forall|i: int|
                0 <= i < at && ((#[trigger] comparators[i]).op == Op::Greater || comparators[i].op
                    == Op::GreaterEq) implies chosen.stricter(
                crate::inferred_retry::lower_of(comparators[i])->0,
            ) by {
                assert(before[i] == comparators[i]);
            }
            assert(comparators[at].op == Op::Greater || comparators[at].op == Op::GreaterEq);
            assert(!(comparators[k].op != Op::Greater && comparators[k].op != Op::GreaterEq));
        }
    }
}

/// The upper bound of a range is the first of its strictest ones, and there is one
/// exactly where a comparator limits versions from above.
pub proof fn ranges_have_their_strictest_upper_bound(comparators: Seq<ComparatorView>)
    requires
        crate::inferred_retry::range_bounds(comparators) is Some,
    ensures
        ({
            let upper = (crate::inferred_retry::range_bounds(comparators)->0).1;
            &&& upper is None <==> forall|i: int|
                0 <= i < comparators.len() ==> (#[trigger] comparators[i]).op != Op::Less
                    && comparators[i].op != Op::LessEq
            &&& upper matches Some(best) ==> exists|k: int|
                {
                    &&& 0 <= k < comparators.len()
                    &&& (#[trigger] comparators[k]).op == Op::Less || comparators[k].op
                        == Op::LessEq
                    &&& crate::inferred_retry::upper_of(comparators[k]) == Some(best)
                    &&& forall|i: int|
                        0 <= i < comparators.len() && ((#[trigger] comparators[i]).op == Op::Less
                            || comparators[i].op == Op::LessEq)
                            ==> !crate::inferred_retry::upper_of(comparators[i])->0.stricter(best)
                    &&& forall|i: int|
                        0 <= i < k && ((#[trigger] comparators[i]).op == Op::Less
                            || comparators[i].op == Op::LessEq) ==> best.stricter(
                            crate::inferred_retry::upper_of(comparators[i])->0,
                        )
                }
        }),
    decreases comparators.len(),
{
    if comparators.len() > 0 {
        let before = comparators.drop_last();
        let last = comparators.len() - 1;
        ranges_have_their_strictest_upper_bound(before);
        let old = (crate::inferred_retry::range_bounds(before)->0).1;
        let new = (crate::inferred_retry::range_bounds(comparators)->0).1;
        let limits = comparators[last].op == Op::Less || comparators[last].op == Op::LessEq;
        assert forall|i: int| 0 <= i < last implies before[i] == #[trigger] comparators[i] by {}
        if old is None {
            assert forall|i: int| 0 <= i < last implies (#[trigger] comparators[i]).op != Op::Less
                && comparators[i].op != Op::LessEq by {
                assert(before[i] == comparators[i]);
            }
            if limits {
                assert(crate::inferred_retry::upper_of(comparators[last]) == new);
            }
        } else {
            let best = old->0;
            let k = choose|k: int|
                {
                    &&& 0 <= k < before.len()
                    &&& (#[trigger] before[k]).op == Op::Less || before[k].op == Op::LessEq
                    &&& crate::inferred_retry::upper_of(before[k]) == Some(best)
                    &&& forall|i: int|
                        0 <= i < before.len() && ((#[trigger] before[i]).op == Op::Less
                            || before[i].op == Op::LessEq)
                            ==> !crate::inferred_retry::upper_of(before[i])->0.stricter(best)
                    &&& forall|i: int|
                        0 <= i < k && ((#[trigger] before[i]).op == Op::Less || before[i].op
                            == Op::LessEq) ==> best.stricter(
                            crate::inferred_retry::upper_of(before[i])->0,
                        )
                };
            assert(before[k] == comparators[k]);
            let at = if limits && crate::inferred_retry::upper_of(comparators[last])->0.stricter(
                best,
            ) {
                last
            } else {
                k
            };
            let chosen = new->0;
            assert(crate::inferred_retry::upper_of(comparators[at]) == Some(chosen));
            assert forall|i: int|
                0 <= i < comparators.len() && ((#[trigger] comparators[i]).op == Op::Less
                    || comparators[i].op == Op::LessEq) implies !crate::inferred_retry::upper_of(
                comparators[i],
            )->0.stricter(chosen) by {
                if i < last {
                    assert(before[i] == comparators[i]);
                }
            }
            assert forall|i: int|
                0 <= i < at && ((#[trigger] comparators[i]).op == Op::Less || comparators[i].op
                    == Op::LessEq) implies chosen.stricter(
                crate::inferred_retry::upper_of(comparators[i])->0,
            ) by {
                assert(before[i] == comparators[i]);
            }
            assert(comparators[at].op == Op::Less || comparators[at].op == Op::LessEq);
            assert(!(comparators[k].op != Op::Less && comparators[k].op != Op::LessEq));
        }
    }
}

/// A hook that asks for a range without bounds is not retried.
pub proof fn ranges_without_bounds_are_not_retried(
    requirement: VersionReq,
    raw: String,
    inferred: RetryConstraintView,
)
    requires
        crate::inferred_retry::range_bounds(requirement@) is None,
    ensures
        crate::inferred_retry::retry_request(
            LanguageRequest::Python(PythonRequest::Range(requirement, raw)),
            inferred,
        ) is None,
{
}

/// A hook that asks for a range is retried with the stricter bound on either side,
/// of the range and of what was inferred, the inferred one where they are equally
/// strict. It is retried exactly where some release lies within those two, unless
/// the lower one cannot be raised.
pub proof fn ranges_are_asked_for_by_the_stricter_bounds(
    requirement: VersionReq,
    raw: String,
    inferred: RetryConstraintView,
    low: Option<InferredLowerBound>,
    up: Option<InferredUpperBound>,
    lower: InferredLowerBound,
    upper: InferredUpperBound,
    release: Release,
)
    requires
        crate::inferred_retry::range_bounds(requirement@) == Some((low, up)),
        low is Some && low->0.stricter(inferred.lower) ==> lower == low->0,
        !(low is Some && low->0.stricter(inferred.lower)) ==> lower == inferred.lower,
        up is Some && up->0.stricter(inferred.upper) ==> upper == up->0,
        !(up is Some && up->0.stricter(inferred.upper)) ==> upper == inferred.upper,
    ensures
        ({
            let request = crate::inferred_retry::retry_request(
                LanguageRequest::Python(PythonRequest::Range(requirement, raw)),
                inferred,
            );
            &&& request is Some ==> request->0 == crate::inferred_retry::request_text(lower, upper)
            &&& (lower.inclusive || lower.version.patch < u64::MAX) && lower.admits(release)
                && upper.admits(release) ==> request is Some
            &&& request is Some ==> (lower.inclusive || lower.version.patch < u64::MAX)
                && exists|left: Release| #[trigger] lower.admits(left) && upper.admits(left)
            &&& crate::inferred_retry::narrowed(inferred, low, up) == (lower, upper)
        }),
{
    a_constraint_says_what_its_bounds_say(lower, upper, release);
    if crate::inferred_retry::retry_constraint(lower, upper) is Some {
        let left = crate::inferred_retry::retry_constraint(lower, upper)->0.candidate;
        assert(lower.admits(left));
    }
}

/// A hook that asks for a range is retried wherever some release meets both: where
/// every comparator of the range limits versions from one side, and the inferred
/// bounds and all comparators admit a release, there is a request. (The one
/// exception is an exclusive lower bound whose last number cannot be raised.)
pub proof fn a_range_that_leaves_a_release_is_retried(
    requirement: VersionReq,
    raw: String,
    inferred: RetryConstraintView,
    release: Release,
)
    requires
        inferred.lower.admits(release),
        inferred.upper.admits(release),
        inferred.lower.inclusive || inferred.lower.version.patch < u64::MAX,
        forall|i: int|
            0 <= i < requirement@.len() ==> {
                let comparator = #[trigger] requirement@[i];
                let minor = if comparator.minor is Some {
                    comparator.minor->0
                } else {
                    0
                };
                let patch = if comparator.patch is Some {
                    comparator.patch->0
                } else {
                    0
                };
                let edge = Release { major: comparator.major, minor, patch };
                &&& comparator.minor is Some || comparator.patch is None
                &&& match comparator.op {
                    Op::Greater => edge.precedes(release) && patch < u64::MAX,
                    Op::GreaterEq => edge.precedes(release) || edge == release,
                    Op::Less => release.precedes(edge),
                    Op::LessEq => release.precedes(edge) || edge == release,
                    _ => false,
                }
            },
    ensures
        crate::inferred_retry::retry_request(
            LanguageRequest::Python(PythonRequest::Range(requirement, raw)),
            inferred,
        ) is Some,
{
    let comparators = requirement@;
    ranges_of_limits_have_bounds(comparators);
    assert forall|i: int| 0 <= i < comparators.len() implies {
        let comparator = #[trigger] comparators[i];
        &&& comparator.op == Op::Greater || comparator.op == Op::GreaterEq || comparator.op
            == Op::Less || comparator.op == Op::LessEq
        &&& comparator.minor is Some || comparator.patch is None
    } by {}
    ranges_have_their_strictest_lower_bound(comparators);
    ranges_have_their_strictest_upper_bound(comparators);
    let (low, up) = crate::inferred_retry::range_bounds(comparators)->0;
    if low is Some {
        let k = choose|k: int|
            0 <= k < comparators.len() && ((#[trigger] comparators[k]).op == Op::Greater
                || comparators[k].op == Op::GreaterEq) && crate::inferred_retry::lower_of(
                comparators[k],
            ) == low;
        comparators_are_bounds_with_their_numbers(comparators[k]);
        assert(low->0.admits(release));
        assert(low->0.inclusive || low->0.version.patch < u64::MAX);
    }
    if up is Some {
        let k = choose|k: int|
            0 <= k < comparators.len() && ((#[trigger] comparators[k]).op == Op::Less
                || comparators[k].op == Op::LessEq) && crate::inferred_retry::upper_of(
                comparators[k],
            ) == up;
        comparators_are_bounds_with_their_numbers(comparators[k]);
        assert(up->0.admits(release));
    }
    let (lower, upper) = crate::inferred_retry::narrowed(inferred, low, up);
    ranges_are_asked_for_by_the_stricter_bounds(
        requirement,
        raw,
        inferred,
        low,
        up,
        lower,
        upper,
        release,
    );
}

/// What is asked for in the retry of a range lies within the range and within what
/// was inferred: there is a request only where some release meets both, and every
/// release that the bounds asked for admit does.
pub proof fn a_retried_range_leaves_a_release(
    requirement: VersionReq,
    raw: String,
    inferred: RetryConstraintView,
    i: int,
)
    requires
        crate::inferred_retry::retry_request(
            LanguageRequest::Python(PythonRequest::Range(requirement, raw)),
            inferred,
        ) is Some,
        0 <= i < requirement@.len(),
    ensures
        exists|release: Release|
            {
                let comparator = requirement@[i];
                let edge = Release {
                    major: comparator.major,
                    minor: if comparator.minor is Some {
                        comparator.minor->0
                    } else {
                        0
                    },
                    patch: if comparator.patch is Some {
                        comparator.patch->0
                    } else {
                        0
                    },
                };
                &&& #[trigger] inferred.lower.admits(release)
                &&& inferred.upper.admits(release)
                &&& match comparator.op {
                    Op::Greater => edge.precedes(release),
                    Op::GreaterEq => edge.precedes(release) || edge == release,
                    Op::Less => release.precedes(edge),
                    Op::LessEq => release.precedes(edge) || edge == release,
                    _ => false,
                }
            },
{
    let bounds = crate::inferred_retry::range_bounds(requirement@)->0;
    let narrow = crate::inferred_retry::narrowed(inferred, bounds.0, bounds.1);
    let release = crate::inferred_retry::retry_constraint(narrow.0, narrow.1)->0.candidate;
    a_constraint_says_what_its_bounds_say(narrow.0, narrow.1, release);
    crate::retry_laws::ranges_are_intersected(requirement, raw, inferred, release);
    assert(crate::retry_laws::bound_admits(requirement@[i], release));
    comparators_are_bounds_with_their_numbers(requirement@[i]);
    assert(inferred.lower.admits(release));
}

/// A hook that asks for a major version is retried with what was inferred exactly
/// where the candidate has that version, and one that asks for a minor version
/// where it has both. A request for another language is not retried.
pub proof fn partial_requests_go_by_the_candidate(
    major: u64,
    minor: u64,
    inferred: RetryConstraintView,
)
    ensures
        ({
            let by_major = crate::inferred_retry::retry_request(
                LanguageRequest::Python(PythonRequest::Major(major)),
                inferred,
            );
            let by_minor = crate::inferred_retry::retry_request(
                LanguageRequest::Python(PythonRequest::MajorMinor(major, minor)),
                inferred,
            );
            &&& by_major is Some <==> inferred.candidate.major == major
            &&& by_major is Some ==> by_major->0 == inferred.request
            &&& by_minor is Some <==> inferred.candidate.major == major && inferred.candidate.minor
                == minor
            &&& by_minor is Some ==> by_minor->0 == inferred.request
        }),
        crate::inferred_retry::retry_request(LanguageRequest::Other, inferred) is None,
{
}

/// There is something to ask for only where something was inferred, and then it is
/// what the hook's request leaves of that.
pub proof fn requests_need_a_constraint(request: LanguageRequest, inferred: RetryConstraintView)
    ensures
        crate::inferred_retry::request_from(request, None) is None,
        crate::inferred_retry::request_from(request, Some(inferred))
            == crate::inferred_retry::retry_request(request, inferred),
{
}

/// A pinned release is asked for number by number, and only where the inferred
/// bounds admit it.
pub proof fn pins_are_asked_for_number_by_number(
    major: u64,
    minor: u64,
    patch: u64,
    inferred: RetryConstraintView,
)
    ensures
        ({
            let request = crate::inferred_retry::retry_request(
                LanguageRequest::Python(PythonRequest::MajorMinorPatch(major, minor, patch)),
                inferred,
            );
            let pinned = Release { major, minor, patch };
            &&& request is Some <==> (inferred.lower.version.precedes(pinned)
                || inferred.lower.inclusive && inferred.lower.version == pinned) && (
            pinned.precedes(inferred.upper.version) || inferred.upper.inclusive
                && inferred.upper.version == pinned)
            &&& request is Some ==> request->0 == crate::text::decimal(major as nat) + seq!['.']
                + crate::text::decimal(minor as nat) + seq!['.'] + crate::text::decimal(
                patch as nat,
            )
        }),
{
    let pinned = Release { major, minor, patch };
    versions_are_written_number_by_number(pinned, crate::version::released(pinned));
}

/// A requirement of full limits is met by the releases on the right side of each,
/// and by no version with a prerelease tag.
pub proof fn limits_are_met_on_their_side(
    requirement: Seq<ComparatorView>,
    version: VersionView,
    comparator: ComparatorView,
    release: Release,
)
    requires
        comparator.minor is Some,
        comparator.patch is Some,
    ensures
        crate::version::satisfies(requirement, version) <==> version.pre.len() == 0 && forall|i: int|
            0 <= i < requirement.len() ==> crate::version::within(
                #[trigger] requirement[i],
                version.release,
            ),
        ({
            let edge = Release {
                major: comparator.major,
                minor: comparator.minor->0,
                patch: comparator.patch->0,
            };
            let met = crate::version::within(comparator, release);
            &&& comparator.op == Op::Greater ==> (met <==> edge.precedes(release))
            &&& comparator.op == Op::GreaterEq ==> (met <==> !release.precedes(edge))
            &&& comparator.op == Op::Less ==> (met <==> release.precedes(edge))
            &&& comparator.op == Op::LessEq ==> (met <==> !edge.precedes(release))
        }),
{
}

/// Versions, comparators, requirements, mentions and results are shown as they are.
pub proof fn versions_are_shown_as_they_are(
    version: Version,
    comparator: Comparator,
    requirement: VersionReq,
    mentions: Seq<BoundMention>,
    constraint: InferredRetryConstraint,
    message: String,
)
    ensures
        version@.release == version.release,
        version@.pre == version.pre@,
        version@.build == version.build@,
        comparator@.op == comparator.op,
        comparator@.major == comparator.major,
        comparator@.minor == comparator.minor,
        comparator@.patch == comparator.patch,
        comparator@.pre == comparator.pre@,
        requirement@.len() == requirement.comparators@.len(),
        forall|i: int|
            0 <= i < requirement@.len() ==> #[trigger] requirement@[i]
                == requirement.comparators@[i]@,
        crate::inferred_retry::mention_texts(mentions).len() == mentions.len(),
        forall|i: int|
            0 <= i < mentions.len() ==> #[trigger] crate::inferred_retry::mention_texts(mentions)[i]
                == (mentions[i].op@, mentions[i].version@),
        crate::inferred_retry::constraint_result(Some(constraint)) == Some(constraint@),
        crate::inferred_retry::constraint_result(None) is None,
        crate::version::version_result(Ok(version)) == Ok::<VersionView, Seq<char>>(version@),
        crate::version::version_result(Err(message)) == Err::<VersionView, Seq<char>>(message@),
        crate::version::requirement_result(Some(requirement)) == Some(requirement@),
        crate::version::requirement_result(None) is None,
{
}

} // verus!
