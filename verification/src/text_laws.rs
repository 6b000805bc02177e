//! What holds of texts: how they are taken apart, trimmed and read as numbers.

use vstd::prelude::*;

verus! {

/// Lists of strings and optional strings are shown as they are.
pub proof fn strings_are_shown_as_they_are(strings: Seq<String>, string: String)
    ensures
        crate::text::texts(strings).len() == strings.len(),
        forall|i: int|
            0 <= i < strings.len() ==> #[trigger] crate::text::texts(strings)[i] == strings[i]@,
        crate::text::optional_text(Some(string)) == Some(string@),
        crate::text::optional_text(None) is None,
{
}

/// A text occurs in another exactly where that is made of it and what stands
/// before and after it.
pub proof fn a_text_occurs_where_others_surround_it(needle: Seq<char>, text: Seq<char>)
    ensures
        crate::text::occurs(needle, text) <==> exists|before: Seq<char>, after: Seq<char>|
            text == #[trigger] (before + needle + after),
{
    if crate::text::occurs(needle, text) {
        let at = choose|at: int| #[trigger] crate::text::occurs_at(needle, text, at);
        let before = text.take(at);
        let after = text.skip(at + needle.len());
        assert(text.subrange(at, at + needle.len()) == needle);
        assert(text == before + needle + after) by {
            assert forall|i: int| 0 <= i < text.len() implies text[i] == (before + needle
                + after)[i] by {
                if at <= i < at + needle.len() {
                    assert(text.subrange(at, at + needle.len())[i - at] == text[i]);
                }
            }
        }
    }
    if exists|before: Seq<char>, after: Seq<char>| text == #[trigger] (before + needle + after) {
        let (before, after) = choose|before: Seq<char>, after: Seq<char>|
            text == #[trigger] (before + needle + after);
        let at = before.len() as int;
        assert(text.subrange(at, at + needle.len()) == needle);
        assert(crate::text::occurs_at(needle, text, at));
    }
}

/// A text occurs at a place exactly where the other text reads on from there as it
/// does.
pub proof fn a_text_occurs_where_it_reads_the_same(needle: Seq<char>, text: Seq<char>, at: int)
    ensures
        crate::text::occurs_at(needle, text, at) <==> {
            &&& 0 <= at
            &&& at + needle.len() <= text.len()
            &&& forall|i: int| 0 <= i < needle.len() ==> text[at + i] == #[trigger] needle[i]
        },
{
    if crate::text::occurs_at(needle, text, at) {
        assert forall|i: int| 0 <= i < needle.len() implies text[at + i] == #[trigger] needle[i] by {
            assert(text.subrange(at, at + needle.len())[i] == needle[i]);
        }
    }
    if 0 <= at && at + needle.len() <= text.len() && forall|i: int|
        0 <= i < needle.len() ==> text[at + i] == #[trigger] needle[i] {
        assert(text.subrange(at, at + needle.len()) == needle);
    }
}

/// White space is that of Unicode, by its code points; digits are those of ASCII.
pub proof fn white_space_and_digits_have_these_code_points(c: char)
    ensures
        crate::text::white_space(c) <==> {
            let code = c as int;
            ||| 9 <= code <= 13
            ||| code == 0x20
            ||| code == 0x85
            ||| code == 0xa0
            ||| code == 0x1680
            ||| 0x2000 <= code <= 0x200a
            ||| code == 0x2028
            ||| code == 0x2029
            ||| code == 0x202f
            ||| code == 0x205f
            ||| code == 0x3000
        },
        crate::text::digit(c) <==> 48 <= c as int <= 57,
{
}

/// What is trimmed at the start is white space, and what is left does not start
/// with any.
proof fn lemma_trimmed_start(text: Seq<char>)
    ensures
        ({
            let kept = crate::text::trimmed_start(text);
            let n = text.len() - kept.len();
            &&& 0 <= n
            &&& kept == text.skip(n)
            &&& forall|i: int| 0 <= i < n ==> crate::text::white_space(#[trigger] text[i])
            &&& kept.len() > 0 ==> !crate::text::white_space(kept[0])
        }),
    decreases text.len(),
{
    if text.len() > 0 && crate::text::white_space(text[0]) {
        let rest = text.drop_first();
        lemma_trimmed_start(rest);
        let kept = crate::text::trimmed_start(text);
        let n = text.len() - kept.len();
        assert(kept == text.skip(n));
        assert forall|i: int| 0 <= i < n implies crate::text::white_space(#[trigger] text[i]) by {
            if i > 0 {
                assert(rest[i - 1] == text[i]);
            }
        }
    } else {
        assert(text == text.skip(0));
    }
}

/// What is trimmed at the end is white space, and what is left does not end with
/// any.
proof fn lemma_trimmed_end(text: Seq<char>)
    ensures
        ({
            let kept = crate::text::trimmed_end(text);
            &&& kept.len() <= text.len()
            &&& kept == text.take(kept.len() as int)
            &&& forall|i: int|
                kept.len() <= i < text.len() ==> crate::text::white_space(#[trigger] text[i])
            &&& kept.len() > 0 ==> !crate::text::white_space(kept.last())
        }),
    decreases text.len(),
{
    if text.len() > 0 && crate::text::white_space(text.last()) {
        let rest = text.drop_last();
        lemma_trimmed_end(rest);
        let kept = crate::text::trimmed_end(text);
        assert(kept == text.take(kept.len() as int));
        assert forall|i: int| kept.len() <= i < text.len() implies crate::text::white_space(
            #[trigger] text[i],
        ) by {
            if i < rest.len() {
                assert(rest[i] == text[i]);
            }
        }
    } else {
        assert(text == text.take(text.len() as int));
    }
}

/// Trimming takes white space away at both ends, nothing but white space, and all
/// of it.
pub proof fn trimming_takes_all_white_space_at_the_ends(text: Seq<char>)
    ensures
        ({
            let kept = crate::text::trimmed(text);
            &&& exists|start: int, end: int|
                {
                    &&& 0 <= start <= end <= text.len()
                    &&& kept == #[trigger] text.subrange(start, end)
                    &&& forall|i: int|
                        0 <= i < start ==> crate::text::white_space(#[trigger] text[i])
                    &&& forall|i: int|
                        end <= i < text.len() ==> crate::text::white_space(#[trigger] text[i])
                }
            &&& kept.len() > 0 ==> !crate::text::white_space(kept[0])
                && !crate::text::white_space(kept.last())
        }),
{
    lemma_trimmed_start(text);
    let tail = crate::text::trimmed_start(text);
    lemma_trimmed_end(tail);
    let kept = crate::text::trimmed(text);
    let start = text.len() - tail.len();
    let end = start + kept.len();
    assert(kept == text.subrange(start, end));
    assert forall|i: int| end <= i < text.len() implies crate::text::white_space(
        #[trigger] text[i],
    ) by {
        assert(tail[i - start] == text[i]);
    }
}

/// A text that does not end in white space has a word.
proof fn lemma_words_some(text: Seq<char>)
    requires
        text.len() > 0,
        !crate::text::white_space(text.last()),
    ensures
        crate::text::words(text).len() > 0,
{
}

/// A text without white space is one word, if it is not empty, and an empty one has
/// none.
pub proof fn a_text_without_white_space_is_a_word(text: Seq<char>)
    requires
        forall|i: int| 0 <= i < text.len() ==> !crate::text::white_space(#[trigger] text[i]),
    ensures
        text.len() > 0 ==> crate::text::words(text) == seq![text],
        text.len() == 0 ==> crate::text::words(text).len() == 0,
    decreases text.len(),
{
    if text.len() > 0 {
        let before = text.drop_last();
        a_text_without_white_space_is_a_word(before);
        assert(!crate::text::white_space(text[text.len() - 1]));
        if text.len() > 1 {
            assert(!crate::text::white_space(text[text.len() - 2]));
            assert(before.push(text.last()) == text);
        } else {
            assert(text == seq![text.last()]);
        }
        assert(crate::text::words(text) == seq![text]);
    }
}

/// White space parts words: the words of two texts with white space between them
/// are those of the one, then those of the other.
pub proof fn white_space_parts_words(first: Seq<char>, c: char, second: Seq<char>)
    requires
        crate::text::white_space(c),
    ensures
        crate::text::words(first.push(c) + second) == crate::text::words(first)
            + crate::text::words(second),
    decreases second.len(),
{
    let whole = first.push(c) + second;
    if second.len() == 0 {
        assert(whole == first.push(c));
        assert(whole.drop_last() == first);
        assert(crate::text::words(whole) == crate::text::words(first) + crate::text::words(second));
    } else {
        let before = second.drop_last();
        white_space_parts_words(first, c, before);
        assert(whole.drop_last() == first.push(c) + before);
        assert(whole.last() == second.last());
        if !crate::text::white_space(second.last()) {
            if second.len() > 1 {
                assert(whole[whole.len() - 2] == second[second.len() - 2]);
                assert(before.last() == second[second.len() - 2]);
                if !crate::text::white_space(before.last()) {
                    lemma_words_some(before);
                }
            } else {
                assert(whole[whole.len() - 2] == c);
            }
        }
        assert(crate::text::words(whole) == crate::text::words(first) + crate::text::words(second));
    }
}

/// The number that digits write is ten times that of the digits before the last
/// one, and the last one.
pub proof fn digits_count_tenfold(digits: Seq<char>, c: char)
    requires
        crate::text::digit(c),
    ensures
        crate::text::decimal_value(Seq::empty()) == 0,
        crate::text::decimal_value(digits.push(c)) == 10 * crate::text::decimal_value(digits) + (
        c as int - 48),
{
    assert(digits.push(c).drop_last() == digits);
}

/// A number is written without leading zeros, in digits that write it.
pub proof fn numbers_are_written_without_leading_zeros(n: nat)
    ensures
        crate::text::all_digits(crate::text::decimal(n)),
        crate::text::decimal_value(crate::text::decimal(n)) == n,
        crate::text::decimal(n).len() > 1 ==> crate::text::decimal(n)[0] != '0',
        forall|i: int|
            0 <= i < crate::text::decimal(n).len() ==> 48
                <= #[trigger] crate::text::decimal(n)[i] as int <= 57,
    decreases n,
{
    crate::text::lemma_decimal(n);
    if n >= 10 {
        numbers_are_written_without_leading_zeros(n / 10);
        let front = crate::text::decimal(n / 10);
        assert(front.len() > 0);
        assert(crate::text::decimal(n)[0] == front[0]);
        if front.len() == 1 {
            assert(front.drop_last() == Seq::<char>::empty());
            assert(crate::text::decimal_value(front.drop_last()) == 0);
        }
    }
    assert forall|i: int| 0 <= i < crate::text::decimal(n).len() implies 48
        <= #[trigger] crate::text::decimal(n)[i] as int <= 57 by {
        assert(crate::text::digit(crate::text::decimal(n)[i]));
    }
}

/// A text is read as a number exactly where it is one or more digits, after a plus
/// sign or without one, and the number fits; that number is read.
pub proof fn digits_are_read_as_their_number(text: Seq<char>, digits: Seq<char>)
    requires
        text == seq!['+'] + digits || (text == digits && (text.len() == 0 || text[0] != '+')),
    ensures
        crate::text::parsed_u64(text) is Some <==> {
            &&& digits.len() > 0
            &&& forall|i: int| 0 <= i < digits.len() ==> 48 <= #[trigger] digits[i] as int <= 57
            &&& crate::text::decimal_value(digits) <= 0xffff_ffff_ffff_ffff
        },
        crate::text::parsed_u64(text) matches Some(n) ==> n as nat == crate::text::decimal_value(
            digits,
        ),
{
    if text == seq!['+'] + digits {
        assert(text.drop_first() == digits);
    }
    if crate::text::all_digits(digits) {
        assert forall|i: int| 0 <= i < digits.len() implies 48 <= #[trigger] digits[i] as int
            <= 57 by {
            assert(crate::text::digit(digits[i]));
        }
    }
    if digits.len() > 0 && forall|i: int|
        0 <= i < digits.len() ==> 48 <= #[trigger] digits[i] as int <= 57 {
        assert forall|i: int| 0 <= i < digits.len() implies crate::text::digit(
            #[trigger] digits[i],
        ) by {
            assert(48 <= digits[i] as int <= 57);
        }
    }
}

} // verus!
