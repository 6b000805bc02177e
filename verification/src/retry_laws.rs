//! What holds of the constraints that are inferred and of the requests that are
//! made of them.

use vstd::prelude::*;

use crate::inferred_retry::{
    InferredLowerBound, InferredUpperBound, RetryConstraintView, VersionPrecision,
};
use crate::request::{LanguageRequest, PythonRequest};
use crate::version::{ComparatorView, Op, Release, VersionReq};

verus! {

/// Of any two different releases one precedes the other, never both, and
/// precedence carries over.
pub proof fn precedence_is_total(a: Release, b: Release, c: Release)
    ensures
        a == b || a.precedes(b) || b.precedes(a),
        !(a.precedes(b) && b.precedes(a)),
        a.precedes(b) && b.precedes(c) ==> a.precedes(c),
{
}

/// To be stricter is an order on lower bounds: no bound is stricter than itself,
/// no two are stricter than each other, and strictness carries over.
pub proof fn lower_strictness_is_an_order(
    a: InferredLowerBound,
    b: InferredLowerBound,
    c: InferredLowerBound,
)
    ensures
        !a.stricter(a),
        !(a.stricter(b) && b.stricter(a)),
        a.stricter(b) && b.stricter(c) ==> a.stricter(c),
{
}

/// To be stricter is an order on upper bounds: no bound is stricter than itself,
/// no two are stricter than each other, and strictness carries over.
pub proof fn upper_strictness_is_an_order(
    a: InferredUpperBound,
    b: InferredUpperBound,
    c: InferredUpperBound,
)
    ensures
        !a.stricter(a),
        !(a.stricter(b) && b.stricter(a)),
        a.stricter(b) && b.stricter(c) ==> a.stricter(c),
{
}

/// A stricter lower bound admits nothing that the other excludes, and of two
/// lower bounds one is always contained in the other.
pub proof fn stricter_lower_admits_less(
    a: InferredLowerBound,
    b: InferredLowerBound,
    release: Release,
)
    ensures
        a.stricter(b) && a.admits(release) ==> b.admits(release),
        !a.stricter(b) && b.admits(release) ==> a.admits(release),
{
}

/// A stricter upper bound admits nothing that the other excludes, and of two
/// upper bounds one is always contained in the other.
pub proof fn stricter_upper_admits_less(
    a: InferredUpperBound,
    b: InferredUpperBound,
    release: Release,
)
    ensures
        a.stricter(b) && a.admits(release) ==> b.admits(release),
        !a.stricter(b) && b.admits(release) ==> a.admits(release),
{
}

/// The candidate of a constraint lies within both bounds, and no smaller release
/// does.
pub proof fn candidate_is_the_smallest_release(constraint: RetryConstraintView, release: Release)
    requires
        constraint.well_formed(),
    ensures
        constraint.lower.admits(constraint.candidate),
        constraint.upper.admits(constraint.candidate),
        constraint.lower.admits(release) ==> !release.precedes(constraint.candidate),
{
}

/// Two bounds make a constraint exactly where some release lies within both,
/// unless the lower one excludes a release whose last number cannot be raised.
pub proof fn bounds_make_a_constraint_where_a_release_is_left(
    lower: InferredLowerBound,
    upper: InferredUpperBound,
    release: Release,
)
    requires
        lower.inclusive || lower.version.patch < u64::MAX,
    ensures
        lower.admits(release) && upper.admits(release)
            ==> crate::inferred_retry::retry_constraint(lower, upper) is Some,
        crate::inferred_retry::retry_constraint(lower, upper) matches Some(constraint) ==> {
            &&& constraint.well_formed()
            &&& lower.admits(constraint.candidate)
            &&& upper.admits(constraint.candidate)
        },
{
}

/// An inferred constraint stays within the minor version of its lower bound, and
/// takes all of that from the bound on.
pub proof fn inferred_constraint_stays_within_a_minor_version(
    lower: InferredLowerBound,
    release: Release,
)
    requires
        crate::inferred_retry::capped_constraint(lower) is Some,
    ensures
        ({
            let constraint = crate::inferred_retry::capped_constraint(lower)->0;
            &&& constraint.well_formed()
            &&& constraint.lower == lower
            &&& constraint.lower.admits(release) && constraint.upper.admits(release)
                <==> release.major == lower.version.major && release.minor == lower.version.minor
                && lower.admits(release)
        }),
{
}

/// A lower bound makes a constraint unless one of its numbers is the largest
/// there is.
pub proof fn a_lower_bound_makes_a_constraint(lower: InferredLowerBound)
    ensures
        crate::inferred_retry::capped_constraint(lower) is Some <==> lower.version.minor < u64::MAX
            && (lower.inclusive || lower.version.patch < u64::MAX),
{
}

/// The strictest of a list of bounds is one of them, and none of them is stricter.
pub proof fn strictest_bound_is_not_exceeded(bounds: Seq<InferredLowerBound>)
    ensures
        crate::inferred_retry::strictest(bounds) is Some <==> bounds.len() > 0,
        crate::inferred_retry::strictest(bounds) matches Some(best) ==> bounds.contains(best)
            && forall|i: int| 0 <= i < bounds.len() ==> !(#[trigger] bounds[i]).stricter(best),
    decreases bounds.len(),
{
    if bounds.len() > 0 {
        let before = bounds.drop_last();
        strictest_bound_is_not_exceeded(before);
        assert(bounds.last() == bounds[bounds.len() - 1]);
        match crate::inferred_retry::strictest(before) {
            Some(best) => {
                let k = choose|k: int| 0 <= k < before.len() && before[k] == best;
                assert(bounds[k] == best);
                assert forall|i: int| 0 <= i < bounds.len() implies !(
                #[trigger] bounds[i]).stricter(
                    crate::inferred_retry::strictest(bounds)->0,
                ) by {
                    if i < before.len() {
                        assert(!before[i].stricter(best));
                    }
                }
            },
            None => {},
        }
    }
}

/// What is inferred from a list of mentions starts at the strictest of the bounds
/// that they write, and admits no release that one of them excludes.
pub proof fn every_mention_admits_the_inferred_releases(
    mentions: Seq<(Seq<char>, Seq<char>)>,
    release: Release,
)
    requires
        crate::inferred_retry::inferred_constraint(mentions) is Some,
    ensures
        ({
            let constraint = crate::inferred_retry::inferred_constraint(mentions)->0;
            let bounds = crate::inferred_retry::mentioned_bounds(mentions);
            &&& constraint.well_formed()
            &&& bounds.contains(constraint.lower)
            &&& forall|i: int|
                0 <= i < bounds.len() ==> !(#[trigger] bounds[i]).stricter(constraint.lower)
            &&& constraint.lower.admits(release) ==> forall|i: int|
                0 <= i < bounds.len() ==> (#[trigger] bounds[i]).admits(release)
        }),
{
    strictest_bound_is_not_exceeded(crate::inferred_retry::mentioned_bounds(mentions));
}

/// Whether all parts of a text between dots are runs of digits.
pub open spec fn dotted_digits(text: Seq<char>) -> bool {
    let parts = crate::text::pieces(text, '.');
    forall|i: int| 0 <= i < parts.len() ==> crate::text::all_digits(#[trigger] parts[i])
}

/// Where runs of digits stand between dots, every character is a digit or a dot,
/// and what follows a dot consists of such runs again.
proof fn lemma_dotted_digits(text: Seq<char>, k: int)
    requires
        dotted_digits(text),
        0 <= k < text.len(),
    ensures
        text[k] == '.' || crate::text::digit(text[k]),
        text[k] == '.' ==> dotted_digits(text.take(k)) && dotted_digits(text.skip(k + 1))
            && crate::text::pieces(text, '.').len() == crate::text::pieces(text.take(k), '.').len()
            + crate::text::pieces(text.skip(k + 1), '.').len(),
{
    let parts = crate::text::pieces(text, '.');
    if text[k] == '.' {
        let first = crate::text::pieces(text.take(k), '.');
        let second = crate::text::pieces(text.skip(k + 1), '.');
        assert(text == text.take(k).push('.') + text.skip(k + 1));
        crate::text::lemma_pieces_joined(text.take(k), text.skip(k + 1), '.');
        assert forall|i: int| 0 <= i < first.len() implies crate::text::all_digits(
            #[trigger] first[i],
        ) by {
            assert(parts[i] == first[i]);
        }
        assert forall|i: int| 0 <= i < second.len() implies crate::text::all_digits(
            #[trigger] second[i],
        ) by {
            assert(parts[first.len() + i] == second[i]);
        }
    } else {
        let place = crate::text::lemma_char_in_piece(text, '.', k);
        assert(crate::text::digit(parts[place.0][place.1]));
    }
}

/// Such a text starts with a digit.
proof fn lemma_starts_with_digit(text: Seq<char>)
    requires
        dotted_digits(text),
    ensures
        text.len() > 0,
        crate::text::digit(text[0]),
{
    crate::text::lemma_pieces_some(text, '.');
    assert(crate::text::all_digits(crate::text::pieces(text, '.')[0]));
    lemma_dotted_digits(text, 0);
    if text[0] == '.' {
        assert(text.take(0) == Seq::<char>::empty());
        assert(crate::text::all_digits(crate::text::pieces(text.take(0), '.')[0]));
    }
}

/// Of two numbers that start at one place, neither goes further than the other.
proof fn lemma_number_goes_no_further(text: Seq<char>, start: int, a: Seq<char>, b: Seq<char>)
    requires
        0 <= start,
        start + a.len() <= text.len(),
        start + b.len() <= text.len(),
        forall|i: int| 0 <= i < a.len() ==> text[start + i] == #[trigger] a[i],
        forall|i: int| 0 <= i < b.len() ==> text[start + i] == #[trigger] b[i],
        crate::inferred_retry::dotted_number(b),
        crate::inferred_retry::number_ends(text, a, start + a.len()),
    ensures
        b.len() <= a.len(),
{
    if a.len() < b.len() {
        let n = a.len() as int;
        assert(b.take(n) == a);
        assert(text[start + n] == b[n]);
        lemma_dotted_digits(b, n);
        lemma_starts_with_digit(b.skip(n + 1));
        assert(b.skip(n + 1)[0] == b[n + 1]);
        assert(text[start + n + 1] == b[n + 1]);
        crate::text::lemma_pieces_some(b.skip(n + 1), '.');
    }
}

/// Of two runs of white space that start at one place, and end where something
/// else follows, neither goes further than the other.
proof fn lemma_blanks_agree(text: Seq<char>, start: int, a: Seq<char>, b: Seq<char>)
    requires
        crate::inferred_retry::blank(a),
        crate::inferred_retry::blank(b),
        forall|i: int| 0 <= i < a.len() ==> text[start + i] == #[trigger] a[i],
        forall|i: int| 0 <= i < b.len() ==> text[start + i] == #[trigger] b[i],
        !crate::text::white_space(text[start + a.len()]),
        !crate::text::white_space(text[start + b.len()]),
    ensures
        a == b,
{
    if a.len() < b.len() {
        assert(crate::text::white_space(b[a.len() as int]));
    }
    if b.len() < a.len() {
        assert(crate::text::white_space(a[b.len() as int]));
    }
    assert forall|i: int| 0 <= i < a.len() implies a[i] == b[i] by {
        assert(text[start + i] == a[i]);
        assert(text[start + i] == b[i]);
    }
}

/// The parts of a mention, one after the other.
proof fn lemma_mention_parts(
    text: Seq<char>,
    at: int,
    gap: Seq<char>,
    before_op: Seq<char>,
    op: Seq<char>,
    after_op: Seq<char>,
    number: Seq<char>,
)
    requires
        crate::text::occurs_at(
            crate::inferred_retry::mention_text(gap, before_op, op, after_op, number),
            text,
            at,
        ),
    ensures
        ({
            let python = at + 16 + gap.len();
            let space = python + 6;
            let operator = space + before_op.len();
            let rest = operator + op.len();
            let digits = rest + after_op.len();
            let end = digits + number.len();
            &&& 0 <= at
            &&& end <= text.len()
            &&& end == at + crate::inferred_retry::mention_text(
                gap,
                before_op,
                op,
                after_op,
                number,
            ).len()
            &&& crate::text::occurs_at("does not satisfy"@, text, at)
            &&& crate::text::occurs_at("Python"@, text, python)
            &&& text[python] == 'P'
            &&& forall|i: int| 0 <= i < gap.len() ==> text[at + 16 + i] == #[trigger] gap[i]
            &&& forall|i: int|
                0 <= i < before_op.len() ==> text[space + i] == #[trigger] before_op[i]
            &&& forall|i: int| 0 <= i < op.len() ==> text[operator + i] == #[trigger] op[i]
            &&& forall|i: int| 0 <= i < after_op.len() ==> text[rest + i] == #[trigger] after_op[i]
            &&& forall|i: int| 0 <= i < number.len() ==> text[digits + i] == #[trigger] number[i]
        }),
{
    reveal_strlit("does not satisfy");
    reveal_strlit("Python");
    let mention = crate::inferred_retry::mention_text(gap, before_op, op, after_op, number);
    let python = at + 16 + gap.len();
    let space = python + 6;
    let operator = space + before_op.len();
    let rest = operator + op.len();
    let digits = rest + after_op.len();
    assert forall|k: int| 0 <= k < mention.len() implies text[at + k] == #[trigger] mention[k] by {
        assert(text.subrange(at, at + mention.len())[k] == mention[k]);
    }
    assert(text.subrange(at, at + 16) == "does not satisfy"@) by {
        assert forall|i: int| 0 <= i < 16 implies text.subrange(at, at + 16)[i]
            == #[trigger] "does not satisfy"@[i] by {
            assert(mention[i] == "does not satisfy"@[i]);
        }
    }
    assert(text.subrange(python, python + 6) == "Python"@) by {
        assert forall|i: int| 0 <= i < 6 implies text.subrange(python, python + 6)[i]
            == #[trigger] "Python"@[i] by {
            assert(mention[16 + gap.len() + i] == "Python"@[i]);
        }
    }
    assert(text.subrange(python, python + 6)[0] == 'P');
    assert forall|i: int| 0 <= i < gap.len() implies text[at + 16 + i] == #[trigger] gap[i] by {
        assert(mention[16 + i] == gap[i]);
    }
    assert forall|i: int| 0 <= i < before_op.len() implies text[space + i]
        == #[trigger] before_op[i] by {
        assert(mention[space - at + i] == before_op[i]);
    }
    assert forall|i: int| 0 <= i < op.len() implies text[operator + i] == #[trigger] op[i] by {
        assert(mention[operator - at + i] == op[i]);
    }
    assert forall|i: int| 0 <= i < after_op.len() implies text[rest + i]
        == #[trigger] after_op[i] by {
        assert(mention[rest - at + i] == after_op[i]);
    }
    assert forall|i: int| 0 <= i < number.len() implies text[digits + i]
        == #[trigger] number[i] by {
        assert(mention[digits - at + i] == number[i]);
    }
}

/// A mention that is written out between other text is a mention, with the
/// operator and the number that were written, where the number ends there.
pub proof fn a_written_mention_is_a_mention(
    before: Seq<char>,
    gap: Seq<char>,
    before_op: Seq<char>,
    op: Seq<char>,
    after_op: Seq<char>,
    number: Seq<char>,
    after: Seq<char>,
)
    requires
        gap.len() > 0,
        crate::inferred_retry::blank(gap),
        crate::inferred_retry::blank(before_op),
        crate::inferred_retry::blank(after_op),
        crate::inferred_retry::lower_op(op),
        crate::inferred_retry::dotted_number(number),
        crate::inferred_retry::number_ends(after, number, 0),
    ensures
        crate::inferred_retry::mention_at(
            before + crate::inferred_retry::mention_text(gap, before_op, op, after_op, number)
                + after,
            before.len() as int,
            op,
            number,
        ),
{
    let mention = crate::inferred_retry::mention_text(gap, before_op, op, after_op, number);
    let text = before + mention + after;
    let end = (before.len() + mention.len()) as int;
    assert(text.subrange(before.len() as int, end) == mention);
    assert(after.len() > 0 ==> text[end] == after[0]);
    assert(after.len() > 1 ==> text[end + 1] == after[1]);
    assert(crate::inferred_retry::number_ends(text, number, end));
}

/// A mention starts with its words and white space, and `Python` follows: a text in
/// which these do not stand has no mention.
pub proof fn a_mention_starts_with_its_words(text: Seq<char>, at: int)
    requires
        crate::inferred_retry::mentioned_at(text, at),
    ensures
        crate::text::occurs_at("does not satisfy"@, text, at),
        at + 16 < text.len() && crate::text::white_space(text[at + 16]),
        exists|python: int| at + 16 < python && #[trigger]
            crate::text::occurs_at("Python"@, text, python),
{
    let (op, number) = choose|op: Seq<char>, number: Seq<char>| #[trigger]
        crate::inferred_retry::mention_at(text, at, op, number);
    let (gap, before_op, after_op) = choose|
        gap: Seq<char>,
        before_op: Seq<char>,
        after_op: Seq<char>,
    |
        {
            let mention = #[trigger] crate::inferred_retry::mention_text(
                gap,
                before_op,
                op,
                after_op,
                number,
            );
            &&& gap.len() > 0 && crate::inferred_retry::blank(gap)
            &&& crate::inferred_retry::blank(before_op) && crate::inferred_retry::blank(after_op)
            &&& crate::text::occurs_at(mention, text, at)
            &&& crate::inferred_retry::number_ends(text, number, at + mention.len())
        };
    lemma_mention_parts(text, at, gap, before_op, op, after_op, number);
    assert(crate::text::white_space(gap[0]));
    assert(text[at + 16 + 0] == gap[0]);
    assert(crate::text::occurs_at("Python"@, text, at + 16 + gap.len()));
}

/// A mention is read in one way only.
pub proof fn a_mention_is_read_in_one_way(
    text: Seq<char>,
    at: int,
    op: Seq<char>,
    number: Seq<char>,
    other_op: Seq<char>,
    other_number: Seq<char>,
)
    requires
        crate::inferred_retry::mention_at(text, at, op, number),
        crate::inferred_retry::mention_at(text, at, other_op, other_number),
    ensures
        op == other_op,
        number == other_number,
{
    let (g1, b1, a1) = choose|g: Seq<char>, b: Seq<char>, a: Seq<char>|
        {
            let mention = #[trigger] crate::inferred_retry::mention_text(g, b, op, a, number);
            &&& g.len() > 0 && crate::inferred_retry::blank(g)
            &&& crate::inferred_retry::blank(b) && crate::inferred_retry::blank(a)
            &&& crate::text::occurs_at(mention, text, at)
            &&& crate::inferred_retry::number_ends(text, number, at + mention.len())
        };
    let (g2, b2, a2) = choose|g: Seq<char>, b: Seq<char>, a: Seq<char>|
        {
            let mention = #[trigger] crate::inferred_retry::mention_text(
                g,
                b,
                other_op,
                a,
                other_number,
            );
            &&& g.len() > 0 && crate::inferred_retry::blank(g)
            &&& crate::inferred_retry::blank(b) && crate::inferred_retry::blank(a)
            &&& crate::text::occurs_at(mention, text, at)
            &&& crate::inferred_retry::number_ends(text, other_number, at + mention.len())
        };
    lemma_mention_parts(text, at, g1, b1, op, a1, number);
    lemma_mention_parts(text, at, g2, b2, other_op, a2, other_number);
    lemma_blanks_agree(text, at + 16, g1, g2);
    let space = at + 22 + g1.len();
    assert(op[0] == '>' && other_op[0] == '>');
    assert(text[space + b1.len() + 0] == op[0]);
    assert(text[space + b2.len() + 0] == other_op[0]);
    lemma_blanks_agree(text, space, b1, b2);
    let operator = space + b1.len();
    lemma_starts_with_digit(number);
    lemma_starts_with_digit(other_number);
    assert(op == other_op) by {
        assert(a1.len() > 0 ==> crate::text::white_space(a1[0]));
        assert(a2.len() > 0 ==> crate::text::white_space(a2[0]));
        if op.len() < other_op.len() {
            assert(text[operator + 1] == other_op[1]);
            assert(a1.len() > 0 ==> text[operator + 1 + 0] == a1[0]);
            assert(text[operator + 1 + a1.len() + 0] == number[0]);
        }
        if other_op.len() < op.len() {
            assert(text[operator + 1] == op[1]);
            assert(a2.len() > 0 ==> text[operator + 1 + 0] == a2[0]);
            assert(text[operator + 1 + a2.len() + 0] == other_number[0]);
        }
    }
    let rest = operator + op.len();
    assert(text[rest + a1.len() + 0] == number[0]);
    assert(text[rest + a2.len() + 0] == other_number[0]);
    lemma_blanks_agree(text, rest, a1, a2);
    let digits = rest + a1.len();
    lemma_number_goes_no_further(text, digits, number, other_number);
    lemma_number_goes_no_further(text, digits, other_number, number);
    assert forall|i: int| 0 <= i < number.len() implies number[i] == other_number[i] by {
        assert(text[digits + i] == number[i]);
        assert(text[digits + i] == other_number[i]);
    }
}

/// The mentions before a place are those that start there.
proof fn lemma_mentions_before(text: Seq<char>, end: int, at: int, op: Seq<char>, number: Seq<char>)
    requires
        crate::inferred_retry::mention_at(text, at, op, number),
        0 <= at < end,
    ensures
        crate::inferred_retry::mentions_before(text, end).contains((op, number)),
    decreases end,
{
    let before = crate::inferred_retry::mentions_before(text, end - 1);
    let all = crate::inferred_retry::mentions_before(text, end);
    if at == end - 1 {
        assert(crate::inferred_retry::mentioned_at(text, at));
        a_mention_is_read_in_one_way(text, at, op, number, all.last().0, all.last().1);
        assert(all[all.len() - 1] == (op, number));
    } else {
        lemma_mentions_before(text, end - 1, at, op, number);
        let i = choose|i: int| 0 <= i < before.len() && before[i] == (op, number);
        assert(all[i] == (op, number));
    }
}

/// Every mention in a text is found.
pub proof fn every_mention_is_found(text: Seq<char>, at: int, op: Seq<char>, number: Seq<char>)
    requires
        crate::inferred_retry::mention_at(text, at, op, number),
    ensures
        crate::inferred_retry::mentions_in(text).contains((op, number)),
{
    a_mention_starts_with_its_words(text, at);
    lemma_mentions_before(text, text.len() as int, at, op, number);
}

/// What is found before a place starts there.
proof fn lemma_found_before(text: Seq<char>, end: int, i: int)
    requires
        0 <= i < crate::inferred_retry::mentions_before(text, end).len(),
    ensures
        exists|at: int|
            0 <= at < end && #[trigger] crate::inferred_retry::mention_at(
                text,
                at,
                crate::inferred_retry::mentions_before(text, end)[i].0,
                crate::inferred_retry::mentions_before(text, end)[i].1,
            ),
    decreases end,
{
    let before = crate::inferred_retry::mentions_before(text, end - 1);
    let found = crate::inferred_retry::mentions_before(text, end)[i];
    if i < before.len() {
        lemma_found_before(text, end - 1, i);
        let at = choose|at: int|
            0 <= at < end - 1 && #[trigger] crate::inferred_retry::mention_at(
                text,
                at,
                before[i].0,
                before[i].1,
            );
        assert(crate::inferred_retry::mention_at(text, at, found.0, found.1));
    } else {
        assert(crate::inferred_retry::mention_at(text, end - 1, found.0, found.1));
    }
}

/// Whatever is found is a mention in the text.
pub proof fn what_is_found_is_mentioned(text: Seq<char>, i: int)
    requires
        0 <= i < crate::inferred_retry::mentions_in(text).len(),
    ensures
        exists|at: int| #[trigger]
            crate::inferred_retry::mention_at(
                text,
                at,
                crate::inferred_retry::mentions_in(text)[i].0,
                crate::inferred_retry::mentions_in(text)[i].1,
            ),
{
    lemma_found_before(text, text.len() as int, i);
}

/// Nothing is inferred from a text without a mention, and so nothing from one
/// without the words that a mention starts with.
pub proof fn nothing_is_inferred_without_a_mention(text: Seq<char>)
    ensures
        (forall|at: int| !#[trigger] crate::inferred_retry::mentioned_at(text, at)) ==> (
        crate::inferred_retry::mentions_in(text).len() == 0
            && crate::inferred_retry::inferred_constraint(crate::inferred_retry::mentions_in(text))
            is None),
        !crate::text::occurs("does not satisfy"@, text) ==> forall|at: int|
            !#[trigger] crate::inferred_retry::mentioned_at(text, at),
{
    if forall|at: int| !#[trigger] crate::inferred_retry::mentioned_at(text, at) {
        if crate::inferred_retry::mentions_in(text).len() > 0 {
            what_is_found_is_mentioned(text, 0);
            let found = crate::inferred_retry::mentions_in(text)[0];
            let at = choose|at: int| #[trigger]
                crate::inferred_retry::mention_at(text, at, found.0, found.1);
            assert(crate::inferred_retry::mentioned_at(text, at));
        }
    }
    if !crate::text::occurs("does not satisfy"@, text) {
        assert forall|at: int| !#[trigger] crate::inferred_retry::mentioned_at(text, at) by {
            if crate::inferred_retry::mentioned_at(text, at) {
                a_mention_starts_with_its_words(text, at);
            }
        }
    }
}

/// Whether a text has one mention, with this operator and this number.
pub open spec fn mentions_alone(text: Seq<char>, op: Seq<char>, number: Seq<char>) -> bool {
    exists|at: int| #[trigger]
        crate::inferred_retry::mention_at(text, at, op, number) && forall|other: int| #[trigger]
            crate::inferred_retry::mentioned_at(text, other) ==> other == at
}

/// The only mention of a text is the only one before any later place.
proof fn lemma_alone_before(text: Seq<char>, end: int, at: int)
    requires
        0 <= at,
        crate::inferred_retry::mentioned_at(text, at),
        forall|other: int| #[trigger]
            crate::inferred_retry::mentioned_at(text, other) ==> other == at,
    ensures
        crate::inferred_retry::mentions_before(text, end).len() == if at < end {
            1int
        } else {
            0
        },
    decreases end,
{
    if end > 0 {
        lemma_alone_before(text, end - 1, at);
    }
}

/// In a text with one mention, that one is found.
pub proof fn a_lone_mention_is_found(text: Seq<char>, op: Seq<char>, number: Seq<char>)
    requires
        mentions_alone(text, op, number),
    ensures
        crate::inferred_retry::mentions_in(text) == seq![(op, number)],
{
    let at = choose|at: int| #[trigger]
        crate::inferred_retry::mention_at(text, at, op, number) && forall|other: int| #[trigger]
            crate::inferred_retry::mentioned_at(text, other) ==> other == at;
    assert(crate::inferred_retry::mentioned_at(text, at));
    a_mention_starts_with_its_words(text, at);
    lemma_alone_before(text, text.len() as int, at);
    every_mention_is_found(text, at, op, number);
}

/// What a mention writes is among the bounds of all mentions.
proof fn lemma_mentioned_bounds(mentions: Seq<(Seq<char>, Seq<char>)>, i: int)
    requires
        0 <= i < mentions.len(),
        crate::inferred_retry::lower_bound(mentions[i].0, mentions[i].1) is Some,
    ensures
        crate::inferred_retry::mentioned_bounds(mentions).contains(
            crate::inferred_retry::lower_bound(mentions[i].0, mentions[i].1)->0,
        ),
    decreases mentions.len(),
{
    let before = crate::inferred_retry::mentioned_bounds(mentions.drop_last());
    let all = crate::inferred_retry::mentioned_bounds(mentions);
    let bound = crate::inferred_retry::lower_bound(mentions[i].0, mentions[i].1)->0;
    if i < mentions.len() - 1 {
        lemma_mentioned_bounds(mentions.drop_last(), i);
        let k = choose|k: int| 0 <= k < before.len() && before[k] == bound;
        assert(all[k] == bound);
    } else {
        assert(all[all.len() - 1] == bound);
    }
}

/// A bound among those of all mentions is what one of them writes.
proof fn lemma_bound_is_mentioned(mentions: Seq<(Seq<char>, Seq<char>)>, bound: InferredLowerBound)
    requires
        crate::inferred_retry::mentioned_bounds(mentions).contains(bound),
    ensures
        exists|i: int|
            0 <= i < mentions.len() && crate::inferred_retry::lower_bound(
                (#[trigger] mentions[i]).0,
                mentions[i].1,
            ) == Some(bound),
    decreases mentions.len(),
{
    let all = crate::inferred_retry::mentioned_bounds(mentions);
    let k = choose|k: int| 0 <= k < all.len() && all[k] == bound;
    if mentions.len() > 0 {
        let before = crate::inferred_retry::mentioned_bounds(mentions.drop_last());
        if k < before.len() {
            assert(before[k] == bound);
            lemma_bound_is_mentioned(mentions.drop_last(), bound);
            let i = choose|i: int|
                0 <= i < mentions.drop_last().len() && crate::inferred_retry::lower_bound(
                    (#[trigger] mentions.drop_last()[i]).0,
                    mentions.drop_last()[i].1,
                ) == Some(bound);
            assert(mentions[i] == mentions.drop_last()[i]);
        } else {
            assert(mentions[mentions.len() - 1] == mentions.last());
        }
    }
}

/// However many mentions a text has, what is inferred starts at a bound that one
/// of them writes, and admits no release that any of them excludes.
pub proof fn every_written_bound_is_respected(
    text: Seq<char>,
    at: int,
    op: Seq<char>,
    number: Seq<char>,
    release: Release,
)
    requires
        crate::inferred_retry::inferred_constraint(crate::inferred_retry::mentions_in(text))
            is Some,
        crate::inferred_retry::mention_at(text, at, op, number),
    ensures
        ({
            let inferred = crate::inferred_retry::inferred_constraint(
                crate::inferred_retry::mentions_in(text),
            )->0;
            &&& crate::inferred_retry::lower_bound(op, number) matches Some(bound) ==> {
                &&& !bound.stricter(inferred.lower)
                &&& inferred.lower.admits(release) ==> bound.admits(release)
            }
            &&& exists|place: int, its_op: Seq<char>, its_number: Seq<char>| #[trigger]
                crate::inferred_retry::mention_at(text, place, its_op, its_number)
                    && crate::inferred_retry::lower_bound(its_op, its_number) == Some(
                    inferred.lower,
                )
        }),
{
    let mentions = crate::inferred_retry::mentions_in(text);
    let bounds = crate::inferred_retry::mentioned_bounds(mentions);
    let inferred = crate::inferred_retry::inferred_constraint(mentions)->0;
    every_mention_admits_the_inferred_releases(mentions, release);
    every_mention_is_found(text, at, op, number);
    let i = choose|i: int| 0 <= i < mentions.len() && mentions[i] == (op, number);
    if crate::inferred_retry::lower_bound(op, number) is Some {
        lemma_mentioned_bounds(mentions, i);
        let bound = crate::inferred_retry::lower_bound(op, number)->0;
        let k = choose|k: int| 0 <= k < bounds.len() && bounds[k] == bound;
        assert(!bounds[k].stricter(inferred.lower));
        assert(inferred.lower.admits(release) ==> bounds[k].admits(release));
    }
    lemma_bound_is_mentioned(mentions, inferred.lower);
    let j = choose|j: int|
        0 <= j < mentions.len() && crate::inferred_retry::lower_bound(
            (#[trigger] mentions[j]).0,
            mentions[j].1,
        ) == Some(inferred.lower);
    what_is_found_is_mentioned(text, j);
    let place = choose|place: int| #[trigger]
        crate::inferred_retry::mention_at(text, place, mentions[j].0, mentions[j].1);
    assert(crate::inferred_retry::mention_at(text, place, mentions[j].0, mentions[j].1));
}

/// An explanation with one mention gives the constraint of the bound that it
/// writes.
pub proof fn a_lone_mention_decides(op: Seq<char>, number: Seq<char>)
    ensures
        crate::inferred_retry::inferred_constraint(seq![(op, number)])
            == match crate::inferred_retry::lower_bound(op, number) {
            Some(lower) => crate::inferred_retry::capped_constraint(lower),
            None => None,
        },
{
    let mentions = seq![(op, number)];
    reveal_with_fuel(crate::inferred_retry::mentioned_bounds, 2);
    reveal_with_fuel(crate::inferred_retry::strictest, 2);
    assert(mentions.drop_last() == Seq::<(Seq<char>, Seq<char>)>::empty());
    assert(mentions.last() == (op, number));
    match crate::inferred_retry::lower_bound(op, number) {
        Some(lower) => {
            let bounds = Seq::<InferredLowerBound>::empty().push(lower);
            assert(bounds.drop_last() == Seq::<InferredLowerBound>::empty());
            assert(bounds.last() == lower);
        },
        None => {},
    }
}

/// A mention is unreadable only where a number is too large.
pub proof fn a_mention_is_readable(op: Seq<char>, number: Seq<char>)
    requires
        crate::inferred_retry::lower_op(op),
        crate::inferred_retry::dotted_number(number),
    ensures
        crate::inferred_retry::lower_bound(op, number) is Some <==> forall|i: int|
            0 <= i < crate::text::pieces(number, '.').len() ==> crate::text::decimal_value(
                #[trigger] crate::text::pieces(number, '.')[i],
            ) <= u64::MAX,
{
    let parts = crate::text::pieces(number, '.');
    crate::text::lemma_pieces_some(number, '.');
    assert forall|i: int| 0 <= i < parts.len() implies (crate::text::parsed_u64(
        #[trigger] parts[i],
    ) is Some <==> crate::text::decimal_value(parts[i]) <= u64::MAX) by {
        assert(crate::text::all_digits(parts[i]));
        assert(crate::text::digit(parts[i][0]));
    }
}

/// A release without the numbers that `precision` leaves out.
pub open spec fn truncated(version: Release, precision: VersionPrecision) -> Release {
    match precision {
        VersionPrecision::Major => Release { major: version.major, minor: 0, patch: 0 },
        VersionPrecision::MajorMinor => Release {
            major: version.major,
            minor: version.minor,
            patch: 0,
        },
        VersionPrecision::MajorMinorPatch => version,
    }
}

/// Digits hold no dot.
proof fn lemma_decimal_has_no_dot(n: nat)
    ensures
        !crate::text::decimal(n).contains('.'),
{
    crate::text::lemma_decimal(n);
    if crate::text::decimal(n).contains('.') {
        let i = choose|i: int|
            0 <= i < crate::text::decimal(n).len() && crate::text::decimal(n)[i] == '.';
        assert(crate::text::digit(crate::text::decimal(n)[i]));
    }
}

/// Reading a bound that was written down gives the numbers that were written, and
/// how many there were.
pub proof fn a_written_bound_is_read_back(version: Release, precision: VersionPrecision)
    ensures
        crate::inferred_retry::python_version(crate::inferred_retry::bound_text(version, precision))
            == Some((truncated(version, precision), precision)),
{
    let major = crate::text::decimal(version.major as nat);
    let minor = crate::text::decimal(version.minor as nat);
    let patch = crate::text::decimal(version.patch as nat);
    lemma_decimal_has_no_dot(version.major as nat);
    lemma_decimal_has_no_dot(version.minor as nat);
    lemma_decimal_has_no_dot(version.patch as nat);
    crate::text::lemma_parsed_decimal(version.major);
    crate::text::lemma_parsed_decimal(version.minor);
    crate::text::lemma_parsed_decimal(version.patch);
    crate::text::lemma_pieces_single(major, '.');
    crate::text::lemma_pieces_single(minor, '.');
    crate::text::lemma_pieces_single(patch, '.');
    crate::text::lemma_pieces_joined(major, minor, '.');
    crate::text::lemma_pieces_joined(minor, patch, '.');
    crate::text::lemma_pieces_joined(major, minor.push('.') + patch, '.');
    let parts = crate::text::pieces(crate::inferred_retry::bound_text(version, precision), '.');
    match precision {
        VersionPrecision::Major => {
            assert(parts == seq![major]);
        },
        VersionPrecision::MajorMinor => {
            assert(parts == seq![major, minor]);
        },
        VersionPrecision::MajorMinorPatch => {
            assert(parts == seq![major, minor, patch]);
        },
    }
}

/// A lower bound is read back from its operator and its version, where it has no
/// number that it does not write.
pub proof fn a_lower_bound_is_read_back(lower: InferredLowerBound)
    requires
        lower.version == truncated(lower.version, lower.precision),
    ensures
        crate::inferred_retry::lower_bound(
            crate::version::limit_op_text(lower.op()),
            crate::inferred_retry::bound_text(lower.version, lower.precision),
        ) == Some(lower),
{
    a_written_bound_is_read_back(lower.version, lower.precision);
    assert(seq!['>'].len() != seq!['>', '='].len());
}

/// An explanation that names a lower bound is answered with that bound and the
/// next minor version, unless one of its numbers is the largest there is.
pub proof fn a_mentioned_bound_is_asked_for(lower: InferredLowerBound)
    requires
        lower.version == truncated(lower.version, lower.precision),
        lower.version.minor < u64::MAX,
        lower.inclusive || lower.version.patch < u64::MAX,
    ensures
        ({
            let op = crate::version::limit_op_text(lower.op());
            let number = crate::inferred_retry::bound_text(lower.version, lower.precision);
            let inferred = crate::inferred_retry::inferred_constraint(seq![(op, number)]);
            &&& inferred is Some
            &&& crate::inferred_retry::next_minor(lower.version) matches Some(upper)
                && inferred->0.request == crate::inferred_retry::request_text(lower, upper)
            &&& crate::inferred_retry::request_from(
                LanguageRequest::Any { system_only: false },
                inferred,
            ) == Some(inferred->0.request)
        }),
{
    a_lower_bound_is_read_back(lower);
    a_lone_mention_decides(
        crate::version::limit_op_text(lower.op()),
        crate::inferred_retry::bound_text(lower.version, lower.precision),
    );
    a_lower_bound_makes_a_constraint(lower);
}

/// Whether a comparator, taken as a bound, admits a release.
pub open spec fn bound_admits(comparator: ComparatorView, release: Release) -> bool {
    match comparator.op {
        Op::Greater | Op::GreaterEq => crate::inferred_retry::lower_of(comparator) matches Some(
            bound,
        ) && bound.admits(release),
        Op::Less | Op::LessEq => crate::inferred_retry::upper_of(comparator) matches Some(bound)
            && bound.admits(release),
        _ => false,
    }
}

/// The bounds of a requirement admit the releases that all of its comparators
/// admit.
pub proof fn range_bounds_intersect_the_comparators(
    comparators: Seq<ComparatorView>,
    release: Release,
)
    requires
        crate::inferred_retry::range_bounds(comparators) is Some,
    ensures
        ({
            let (lower, upper) = crate::inferred_retry::range_bounds(comparators)->0;
            (lower matches Some(bound) ==> bound.admits(release)) && (upper matches Some(bound)
                ==> bound.admits(release)) <==> forall|i: int|
                0 <= i < comparators.len() ==> bound_admits(#[trigger] comparators[i], release)
        }),
    decreases comparators.len(),
{
    if comparators.len() > 0 {
        let before = comparators.drop_last();
        range_bounds_intersect_the_comparators(before, release);
        let all = forall|i: int|
            0 <= i < comparators.len() ==> bound_admits(#[trigger] comparators[i], release);
        let earlier = forall|i: int|
            0 <= i < before.len() ==> bound_admits(#[trigger] before[i], release);
        assert(all <==> earlier && bound_admits(comparators.last(), release)) by {
            if all {
                assert forall|i: int| 0 <= i < before.len() implies bound_admits(
                    #[trigger] before[i],
                    release,
                ) by {
                    assert(before[i] == comparators[i]);
                }
                assert(bound_admits(comparators[comparators.len() - 1], release));
            }
            if earlier && bound_admits(comparators.last(), release) {
                assert forall|i: int| 0 <= i < comparators.len() implies bound_admits(
                    #[trigger] comparators[i],
                    release,
                ) by {
                    if i < before.len() {
                        assert(before[i] == comparators[i]);
                    }
                }
            }
        }
    }
}

/// A requirement with a comparator that is no bound has no bounds.
pub proof fn other_comparators_have_no_bounds(comparators: Seq<ComparatorView>, i: int)
    requires
        0 <= i < comparators.len(),
        !crate::version::limits(comparators[i].op),
    ensures
        crate::inferred_retry::range_bounds(comparators) is None,
    decreases comparators.len(),
{
    if i < comparators.len() - 1 {
        other_comparators_have_no_bounds(comparators.drop_last(), i);
    }
}

/// A hook that takes only what is installed is not retried.
pub proof fn system_only_hooks_are_not_retried(inferred: RetryConstraintView)
    ensures
        crate::inferred_retry::retry_request(LanguageRequest::Any { system_only: true }, inferred)
            is None,
{
}

/// A hook that asks for nothing in particular is retried with what was inferred.
pub proof fn open_requests_take_what_was_inferred(inferred: RetryConstraintView)
    ensures
        crate::inferred_retry::retry_request(LanguageRequest::Any { system_only: false }, inferred)
            == Some(inferred.request),
        crate::inferred_retry::retry_request(
            LanguageRequest::Python(PythonRequest::Any),
            inferred,
        ) == Some(inferred.request),
{
}

/// A pinned release is retried as it stands, exactly where the inferred bounds
/// admit it.
pub proof fn pinned_releases_are_kept(
    major: u64,
    minor: u64,
    patch: u64,
    inferred: RetryConstraintView,
)
    ensures
        crate::inferred_retry::retry_request(
            LanguageRequest::Python(PythonRequest::MajorMinorPatch(major, minor, patch)),
            inferred,
        ) == if inferred.lower.admits(Release { major, minor, patch }) && inferred.upper.admits(
            Release { major, minor, patch },
        ) {
            Some(crate::version::release_text(Release { major, minor, patch }))
        } else {
            None
        },
{
}

/// A hook that asks for a major version, or for a minor one, is retried with what
/// was inferred only where all of that lies within the version asked for.
pub proof fn partial_requests_are_not_left(
    lower: InferredLowerBound,
    major: u64,
    minor: u64,
    release: Release,
)
    requires
        crate::inferred_retry::capped_constraint(lower) is Some,
        crate::inferred_retry::capped_constraint(lower)->0.lower.admits(release),
        crate::inferred_retry::capped_constraint(lower)->0.upper.admits(release),
    ensures
        crate::inferred_retry::retry_request(
            LanguageRequest::Python(PythonRequest::Major(major)),
            crate::inferred_retry::capped_constraint(lower)->0,
        ) is Some <==> release.major == major,
        crate::inferred_retry::retry_request(
            LanguageRequest::Python(PythonRequest::MajorMinor(major, minor)),
            crate::inferred_retry::capped_constraint(lower)->0,
        ) is Some <==> release.major == major && release.minor == minor,
{
    inferred_constraint_stays_within_a_minor_version(lower, release);
}

/// A hook that asks for a range is retried with the intersection of that range
/// and what was inferred: the bounds that are asked for admit the releases that
/// the inferred bounds and all comparators of the range admit.
pub proof fn ranges_are_intersected(
    requirement: VersionReq,
    raw: String,
    inferred: RetryConstraintView,
    release: Release,
)
    ensures
        crate::inferred_retry::retry_request(
            LanguageRequest::Python(PythonRequest::Range(requirement, raw)),
            inferred,
        ) matches Some(request) ==> ({
            let (low, up) = crate::inferred_retry::range_bounds(requirement@)->0;
            let (lower, upper) = crate::inferred_retry::narrowed(inferred, low, up);
            &&& request == crate::inferred_retry::request_text(lower, upper)
            &&& lower.admits(release) && upper.admits(release) <==> inferred.lower.admits(release)
                && inferred.upper.admits(release) && forall|i: int|
                0 <= i < requirement@.len() ==> bound_admits(#[trigger] requirement@[i], release)
        }),
{
    if crate::inferred_retry::range_bounds(requirement@) is Some {
        range_bounds_intersect_the_comparators(requirement@, release);
    }
}

/// A hook that asks for a range with a comparator that is no bound, such as
/// `^3.10`, is not retried.
pub proof fn unsupported_ranges_are_not_retried(
    requirement: VersionReq,
    raw: String,
    inferred: RetryConstraintView,
    i: int,
)
    requires
        0 <= i < requirement@.len(),
        !crate::version::limits(requirement@[i].op),
    ensures
        crate::inferred_retry::retry_request(
            LanguageRequest::Python(PythonRequest::Range(requirement, raw)),
            inferred,
        ) is None,
{
    other_comparators_have_no_bounds(requirement@, i);
}

} // verus!
