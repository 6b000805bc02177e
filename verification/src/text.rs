//! Text, modelled as a sequence of characters.

use vstd::prelude::*;

verus! {

/// The texts of a list of strings.
pub open spec fn texts(strings: Seq<String>) -> Seq<Seq<char>> {
    strings.map_values(|s: String| s@)
}

/// The text of an optional string.
pub open spec fn optional_text(string: Option<String>) -> Option<Seq<char>> {
    match string {
        Some(s) => Some(s@),
        None => None,
    }
}

/// Characters with the Unicode property `White_Space`.
pub open spec fn white_space(c: char) -> bool {
    ||| '\u{9}' <= c <= '\u{d}'
    ||| c == ' '
    ||| c == '\u{85}'
    ||| c == '\u{a0}'
    ||| c == '\u{1680}'
    ||| '\u{2000}' <= c <= '\u{200a}'
    ||| c == '\u{2028}'
    ||| c == '\u{2029}'
    ||| c == '\u{202f}'
    ||| c == '\u{205f}'
    ||| c == '\u{3000}'
}

/// An ASCII decimal digit.
pub open spec fn digit(c: char) -> bool {
    '0' <= c <= '9'
}

/// Whether `needle` occurs in `text`, and where.
pub open spec fn occurs_at(needle: Seq<char>, text: Seq<char>, at: int) -> bool {
    0 <= at <= text.len() - needle.len() && text.subrange(at, at + needle.len()) == needle
}

/// Whether `needle` occurs anywhere in `text`.
pub open spec fn occurs(needle: Seq<char>, text: Seq<char>) -> bool {
    exists|at: int| #[trigger] occurs_at(needle, text, at)
}

/// `text` without the run of `c` at its end.
pub open spec fn without_trailing(text: Seq<char>, c: char) -> Seq<char>
    decreases text.len(),
{
    if text.len() > 0 && text.last() == c {
        without_trailing(text.drop_last(), c)
    } else {
        text
    }
}

/// `text` without the white space at its start.
pub open spec fn trimmed_start(text: Seq<char>) -> Seq<char>
    decreases text.len(),
{
    if text.len() > 0 && white_space(text[0]) {
        trimmed_start(text.drop_first())
    } else {
        text
    }
}

/// `text` without the white space at its end.
pub open spec fn trimmed_end(text: Seq<char>) -> Seq<char>
    decreases text.len(),
{
    if text.len() > 0 && white_space(text.last()) {
        trimmed_end(text.drop_last())
    } else {
        text
    }
}

/// `text` without the white space at both ends.
pub open spec fn trimmed(text: Seq<char>) -> Seq<char> {
    trimmed_end(trimmed_start(text))
}

/// The pieces of `text` between the occurrences of `separator`, one more than
/// there are occurrences.
pub open spec fn pieces(text: Seq<char>, separator: char) -> Seq<Seq<char>>
    decreases text.len(),
{
    if text.len() == 0 {
        seq![Seq::<char>::empty()]
    } else {
        let before = pieces(text.drop_last(), separator);
        if text.last() == separator {
            before.push(Seq::<char>::empty())
        } else {
            before.drop_last().push(before.last().push(text.last()))
        }
    }
}

/// The maximal runs of characters other than white space.
pub open spec fn words(text: Seq<char>) -> Seq<Seq<char>>
    decreases text.len(),
{
    if text.len() == 0 {
        Seq::empty()
    } else {
        let before = words(text.drop_last());
        if white_space(text.last()) {
            before
        } else if text.len() > 1 && !white_space(text[text.len() - 2]) {
            before.drop_last().push(before.last().push(text.last()))
        } else {
            before.push(seq![text.last()])
        }
    }
}

/// The number that a run of decimal digits writes.
pub open spec fn decimal_value(digits: Seq<char>) -> nat
    decreases digits.len(),
{
    if digits.len() == 0 {
        0
    } else {
        (decimal_value(digits.drop_last()) * 10 + (digits.last() as int - '0' as int)) as nat
    }
}

/// The decimal digit for `d`, which is below ten.
pub open spec fn digit_char(d: nat) -> char {
    ('0' as int + d) as char
}

/// A number in decimal notation, without leading zeros.
pub open spec fn decimal(n: nat) -> Seq<char>
    decreases n,
{
    if n < 10 {
        seq![digit_char(n)]
    } else {
        decimal(n / 10).push(digit_char(n % 10))
    }
}

/// Whether `s` holds one or more digits and nothing else.
pub open spec fn all_digits(s: Seq<char>) -> bool {
    s.len() > 0 && forall|i: int| 0 <= i < s.len() ==> digit(#[trigger] s[i])
}

/// The unsigned 64-bit number that `text` writes: digits, after an optional `+`.
pub open spec fn parsed_u64(text: Seq<char>) -> Option<u64> {
    let digits = if text.len() > 0 && text[0] == '+' {
        text.drop_first()
    } else {
        text
    };
    if all_digits(digits) && decimal_value(digits) <= u64::MAX {
        Some(decimal_value(digits) as u64)
    } else {
        None
    }
}

/// Collects characters into a string, by `String::from_iter`, which keeps each
/// of them, in order.
#[verifier::external_body]
pub(crate) fn string_of(chars: &[char]) -> (s: String)
    ensures
        s@ == chars@,
{
    String::from_iter(chars.iter())
}

/// The characters of a text.
pub fn chars_of(text: &str) -> (chars: Vec<char>)
    ensures
        chars@ == text@,
{
    let mut chars: Vec<char> = Vec::new();
    for c in iter: text.chars()
        invariant
            chars@ == iter.seq().take(iter.index() as int),
            iter.seq() == text@,
    {
        chars.push(c);
        assert(iter.seq().take(iter.index() + 1) == iter.seq().take(iter.index() as int).push(c));
    }
    assert(text@.take(text@.len() as int) == text@);
    chars
}

/// Whether `text` holds the same characters as `other`.
pub fn same(text: &str, other: &str) -> (r: bool)
    ensures
        r == (text@ == other@),
{
    let left: String = text.to_owned();
    let right: String = other.to_owned();
    left == right
}

/// One text after another.
pub fn joined(first: &str, second: &str) -> (r: String)
    ensures
        r@ == first@ + second@,
{
    let mut whole: String = first.to_owned();
    whole.append(second);
    whole
}

/// What follows `prefix` in `text`, where `text` starts with it.
pub fn strip_prefix(text: &str, prefix: &str) -> (r: Option<String>)
    ensures
        r is Some <==> prefix@.is_prefix_of(text@),
        r matches Some(rest) ==> text@ == prefix@ + rest@,
{
    let whole: Vec<char> = chars_of(text);
    let start: Vec<char> = chars_of(prefix);
    if whole.len() < start.len() {
        return None;
    }
    for i in 0..start.len()
        invariant
            whole@ == text@,
            start@ == prefix@,
            start.len() <= whole.len(),
            forall|j: int| 0 <= j < i ==> whole@[j] == start@[j],
    {
        if whole[i] != start[i] {
            assert(prefix@[i as int] != text@.subrange(0, prefix@.len() as int)[i as int]);
            return None;
        }
    }
    assert(text@.subrange(0, prefix@.len() as int) == prefix@);
    let rest: &str = text.substring_char(start.len(), whole.len());
    assert(text@ == prefix@ + rest@);
    Some(rest.to_owned())
}

/// Whether `text` starts with `prefix`.
pub fn starts_with(text: &str, prefix: &str) -> (r: bool)
    ensures
        r == prefix@.is_prefix_of(text@),
{
    strip_prefix(text, prefix).is_some()
}

/// Whether `text` ends with `suffix`.
pub fn ends_with(text: &str, suffix: &str) -> (r: bool)
    ensures
        r == suffix@.is_suffix_of(text@),
{
    let whole: Vec<char> = chars_of(text);
    let end: Vec<char> = chars_of(suffix);
    if whole.len() < end.len() {
        return false;
    }
    let start: usize = whole.len() - end.len();
    let tail: &str = text.substring_char(start, whole.len());
    same(tail, suffix)
}

/// Whether `needle` occurs in `text`.
pub fn contains(text: &str, needle: &str) -> (r: bool)
    ensures
        r == occurs(needle@, text@),
{
    let whole: Vec<char> = chars_of(text);
    let sought: Vec<char> = chars_of(needle);
    if whole.len() < sought.len() {
        return false;
    }
    let last: usize = whole.len() - sought.len();
    let mut at: usize = 0;
    loop
        invariant
            whole@ == text@,
            sought@ == needle@,
            last == whole.len() - sought.len(),
            at <= last,
            forall|k: int| 0 <= k < at ==> !#[trigger] occurs_at(needle@, text@, k),
        decreases last - at,
    {
        let mut i: usize = 0;
        while i < sought.len() && whole[at + i] == sought[i]
            invariant
                whole@ == text@,
                sought@ == needle@,
                last == whole.len() - sought.len(),
                at <= last,
                i <= sought.len(),
                forall|j: int| 0 <= j < i ==> whole@[at + j] == sought@[j],
            decreases sought.len() - i,
        {
            i = i + 1;
        }
        if i == sought.len() {
            assert(text@.subrange(at as int, at + needle@.len()) == needle@);
            assert(occurs_at(needle@, text@, at as int));
            return true;
        }
        assert(text@.subrange(at as int, at + needle@.len())[i as int] != needle@[i as int]);
        if at == last {
            return false;
        }
        at = at + 1;
    }
}

/// `text` without the run of `c` at its end.
pub fn trim_end_matches(text: &str, c: char) -> (r: String)
    ensures
        r@ == without_trailing(text@, c),
{
    let whole: Vec<char> = chars_of(text);
    let mut end: usize = whole.len();
    assert(text@.take(text@.len() as int) == text@);
    while end > 0 && whole[end - 1] == c
        invariant
            whole@ == text@,
            end <= whole.len(),
            without_trailing(text@.take(end as int), c) == without_trailing(text@, c),
        decreases end,
    {
        assert(text@.take(end as int).drop_last() == text@.take(end - 1));
        end = end - 1;
    }
    let kept: &str = text.substring_char(0, end);
    assert(kept@ == text@.take(end as int));
    kept.to_owned()
}

/// Whether a character is white space.
pub fn is_white_space(c: char) -> (r: bool)
    ensures
        r == white_space(c),
{
    ('\u{9}' <= c && c <= '\u{d}') || c == ' ' || c == '\u{85}' || c == '\u{a0}' || c == '\u{1680}' || (
    '\u{2000}' <= c && c <= '\u{200a}') || c == '\u{2028}' || c == '\u{2029}' || c == '\u{202f}' || c
        == '\u{205f}' || c == '\u{3000}'
}

/// `text` without the white space at both ends.
pub fn trim(text: &str) -> (r: String)
    ensures
        r@ == trimmed(text@),
{
    let whole: Vec<char> = chars_of(text);
    let mut start: usize = 0;
    assert(text@.skip(0) == text@);
    while start < whole.len() && is_white_space(whole[start])
        invariant
            whole@ == text@,
            start <= whole.len(),
            trimmed_start(text@.skip(start as int)) == trimmed_start(text@),
        decreases whole.len() - start,
    {
        assert(text@.skip(start as int).drop_first() == text@.skip(start + 1));
        start = start + 1;
    }
    let mut end: usize = whole.len();
    let ghost tail = text@.skip(start as int);
    assert(tail == trimmed_start(text@));
    assert(tail.take(tail.len() as int) == tail);
    while start < end && is_white_space(whole[end - 1])
        invariant
            whole@ == text@,
            start <= end <= whole.len(),
            tail == text@.skip(start as int),
            trimmed_end(tail.take(end - start)) == trimmed_end(tail),
        decreases end,
    {
        assert(tail.take(end - start).drop_last() == tail.take(end - 1 - start));
        assert(tail.take(end - start).last() == whole@[end - 1]);
        end = end - 1;
    }
    let kept: &str = text.substring_char(start, end);
    assert(kept@ == tail.take(end - start));
    kept.to_owned()
}

/// The pieces of `text` between the occurrences of `separator`.
pub fn split(text: &str, separator: char) -> (r: Vec<String>)
    ensures
        texts(r@) == pieces(text@, separator),
{
    let whole: Vec<char> = chars_of(text);
    let mut done: Vec<String> = Vec::new();
    let mut current: Vec<char> = Vec::new();
    assert(text@.take(0) == Seq::<char>::empty());
    assert(texts(done@).push(current@) == seq![Seq::<char>::empty()]);
    for i in 0..whole.len()
        invariant
            whole@ == text@,
            texts(done@).push(current@) == pieces(text@.take(i as int), separator),
    {
        let ghost so_far = texts(done@).push(current@);
        assert(text@.take(i + 1).drop_last() == text@.take(i as int));
        assert(so_far.last() == current@);
        assert(so_far.drop_last() == texts(done@));
        if whole[i] == separator {
            let ghost earlier = done@;
            done.push(string_of(current.as_slice()));
            assert(texts(done@) == texts(earlier).push(current@));
            current = Vec::new();
            assert(current@ == Seq::<char>::empty());
        } else {
            current.push(whole[i]);
        }
    }
    assert(text@.take(text@.len() as int) == text@);
    let ghost earlier = done@;
    done.push(string_of(current.as_slice()));
    assert(texts(done@) == texts(earlier).push(current@));
    done
}

/// The maximal runs of characters other than white space.
pub fn split_whitespace(text: &str) -> (r: Vec<String>)
    ensures
        texts(r@) == words(text@),
{
    let whole: Vec<char> = chars_of(text);
    let mut done: Vec<String> = Vec::new();
    let mut current: Vec<char> = Vec::new();
    assert(text@.take(0) == Seq::<char>::empty());
    assert(texts(done@) == words(text@.take(0)));
    for i in 0..whole.len()
        invariant
            whole@ == text@,
            current@.len() > 0 <==> (i > 0 && !white_space(text@[i - 1])),
            words(text@.take(i as int)) == if current@.len() > 0 {
                texts(done@).push(current@)
            } else {
                texts(done@)
            },
    {
        let ghost before = text@.take(i as int);
        assert(text@.take(i + 1).drop_last() == before);
        assert(i > 0 ==> text@.take(i + 1)[i - 1] == text@[i - 1]);
        assert(texts(done@).push(current@).drop_last() == texts(done@));
        if is_white_space(whole[i]) {
            if current.len() > 0 {
                let ghost earlier = done@;
                done.push(string_of(current.as_slice()));
                assert(texts(done@) == texts(earlier).push(current@));
                current = Vec::new();
            }
        } else {
            let ghost word = current@;
            current.push(whole[i]);
            assert(word.len() == 0 ==> current@ == seq![text@[i as int]]);
        }
    }
    assert(text@.take(text@.len() as int) == text@);
    if current.len() > 0 {
        let ghost earlier = done@;
        done.push(string_of(current.as_slice()));
        assert(texts(done@) == texts(earlier).push(current@));
    }
    done
}

/// A prefix of a run of digits writes no larger a number than the whole run.
proof fn lemma_decimal_value_prefix(digits: Seq<char>, n: int)
    requires
        all_digits(digits),
        0 <= n <= digits.len(),
    ensures
        decimal_value(digits.take(n)) <= decimal_value(digits),
    decreases digits.len() - n,
{
    if n < digits.len() {
        lemma_decimal_value_prefix(digits, n + 1);
        assert(digits.take(n + 1).drop_last() == digits.take(n));
        assert(digit(digits[n]));
    } else {
        assert(digits.take(n) == digits);
    }
}

/// The number that `text` writes in decimal digits, after an optional `+`.
pub fn parse_u64(text: &str) -> (r: Option<u64>)
    ensures
        r == parsed_u64(text@),
{
    let whole: Vec<char> = chars_of(text);
    let start: usize = if whole.len() > 0 && whole[0] == '+' {
        1
    } else {
        0
    };
    let ghost digits = text@.skip(start as int);
    assert(start == 0 ==> digits == text@);
    assert(start == 1 ==> digits == text@.drop_first());
    if whole.len() == start {
        return None;
    }
    let mut value: u64 = 0;
    let mut i: usize = start;
    while i < whole.len()
        invariant
            whole@ == text@,
            start <= i <= whole.len(),
            digits == text@.skip(start as int),
            digits == if text@.len() > 0 && text@[0] == '+' {
                text@.drop_first()
            } else {
                text@
            },
            digits.len() > 0,
            forall|j: int| 0 <= j < i - start ==> digit(#[trigger] digits[j]),
            value == decimal_value(digits.take(i - start)),
        decreases whole.len() - i,
    {
        let c: char = whole[i];
        let ghost k = i - start;
        assert(digits[k] == c);
        if !('0' <= c && c <= '9') {
            assert(!digit(digits[k]));
            return None;
        }
        let d: u64 = c as u64 - '0' as u64;
        assert(digits.take(k + 1).drop_last() == digits.take(k));
        assert(decimal_value(digits.take(k + 1)) == value * 10 + d);
        proof {
            if all_digits(digits) {
                lemma_decimal_value_prefix(digits, k + 1);
            }
        }
        let tens: u64 = match value.checked_mul(10) {
            Some(tens) => tens,
            None => {
                return None;
            },
        };
        value = match tens.checked_add(d) {
            Some(sum) => sum,
            None => {
                return None;
            },
        };
        i = i + 1;
    }
    assert(digits.take(digits.len() as int) == digits);
    Some(value)
}

/// A number in decimal notation.
pub fn decimal_text(n: u64) -> (r: String)
    ensures
        r@ == decimal(n as nat),
{
    let chars: Vec<char> = decimal_chars(n);
    string_of(chars.as_slice())
}

/// The digits of a number, most significant first.
fn decimal_chars(n: u64) -> (r: Vec<char>)
    ensures
        r@ == decimal(n as nat),
    decreases n,
{
    let mut chars: Vec<char> = if n < 10 {
        Vec::new()
    } else {
        decimal_chars(n / 10)
    };
    let d: u8 = (n % 10) as u8;
    chars.push((48u8 + d) as char);
    assert(chars@ == decimal(n as nat));
    chars
}

/// The decimal notation of a number consists of digits and writes that number.
pub proof fn lemma_decimal(n: nat)
    ensures
        all_digits(decimal(n)),
        decimal_value(decimal(n)) == n,
    decreases n,
{
    if n < 10 {
        assert(decimal(n).drop_last() == Seq::<char>::empty());
        assert(decimal_value(decimal(n).drop_last()) == 0);
    } else {
        lemma_decimal(n / 10);
        assert(decimal(n).drop_last() == decimal(n / 10));
    }
}

/// Reading a number back from its decimal notation gives that number.
pub proof fn lemma_parsed_decimal(n: u64)
    ensures
        parsed_u64(decimal(n as nat)) == Some(n),
{
    lemma_decimal(n as nat);
    assert(digit(decimal(n as nat)[0]));
}

/// A text without the separator is its only piece.
pub proof fn lemma_pieces_single(text: Seq<char>, separator: char)
    requires
        !text.contains(separator),
    ensures
        pieces(text, separator) == seq![text],
    decreases text.len(),
{
    if text.len() > 0 {
        assert(text.last() == text[text.len() - 1]);
        assert(!text.drop_last().contains(separator)) by {
            if text.drop_last().contains(separator) {
                let i = choose|i: int| 0 <= i < text.len() - 1 && text.drop_last()[i] == separator;
                assert(text[i] == separator);
            }
        }
        lemma_pieces_single(text.drop_last(), separator);
        assert(text.drop_last().push(text.last()) == text);
        assert(pieces(text, separator) == seq![text]);
    } else {
        assert(text == Seq::<char>::empty());
    }
}

/// The pieces of two texts with a separator between them are the pieces of the
/// one, then those of the other.
pub proof fn lemma_pieces_joined(first: Seq<char>, second: Seq<char>, separator: char)
    ensures
        pieces(first.push(separator) + second, separator) == pieces(first, separator) + pieces(
            second,
            separator,
        ),
    decreases second.len(),
{
    let whole = first.push(separator) + second;
    lemma_pieces_some(second, separator);
    if second.len() == 0 {
        assert(whole == first.push(separator));
        assert(whole.drop_last() == first);
        assert(pieces(whole, separator) == pieces(first, separator) + pieces(second, separator));
    } else {
        lemma_pieces_joined(first, second.drop_last(), separator);
        lemma_pieces_some(second.drop_last(), separator);
        assert(whole.drop_last() == first.push(separator) + second.drop_last());
        assert(whole.last() == second.last());
        assert(pieces(whole, separator) == pieces(first, separator) + pieces(second, separator));
    }
}

/// Every character but the separator stands in a piece.
pub proof fn lemma_char_in_piece(text: Seq<char>, separator: char, k: int) -> (place: (int, int))
    requires
        0 <= k < text.len(),
        text[k] != separator,
    ensures
        0 <= place.0 < pieces(text, separator).len(),
        0 <= place.1 < pieces(text, separator)[place.0].len(),
        pieces(text, separator)[place.0][place.1] == text[k],
    decreases text.len(),
{
    let before = pieces(text.drop_last(), separator);
    lemma_pieces_some(text.drop_last(), separator);
    if k == text.len() - 1 {
        (before.len() - 1, before.last().len() as int)
    } else {
        lemma_char_in_piece(text.drop_last(), separator, k)
    }
}

/// There is always a piece.
pub proof fn lemma_pieces_some(text: Seq<char>, separator: char)
    ensures
        pieces(text, separator).len() > 0,
    decreases text.len(),
{
    if text.len() > 0 {
        lemma_pieces_some(text.drop_last(), separator);
    }
}

} // verus!
