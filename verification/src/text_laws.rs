//! Laws of text: what joining, numbers, trimming, searching and replacing have to do with
//! the characters that go in.

use vstd::prelude::*;

use crate::text::{
    all_digits, ascii_lower, decimal_text, decimal_value, digit_char, ends_in, is_digit,
    is_white_space, joined, occurs_at, occurs_in, replaced, starts_in, texts, trimmed, trimmed_end,
    trimmed_start, unsigned_of, without_plus,
};

verus! {

/// Joining puts the separator between neighbours, and nowhere else.
pub proof fn lemma_join_goes_on(parts: Seq<Seq<char>>, last: Seq<char>, separator: Seq<char>)
    ensures
        joined(seq![], separator) == Seq::<char>::empty(),
        joined(seq![last], separator) == last,
        parts.len() > 0 ==> joined(parts.push(last), separator) == joined(parts, separator)
            + separator + last,
{
    assert(parts.push(last).drop_last() =~= parts);
}

/// The views of strings are their texts, one for one.
pub proof fn lemma_texts_are_views(parts: Seq<String>)
    ensures
        texts(parts).len() == parts.len(),
        forall|i: int| 0 <= i < parts.len() ==> #[trigger] texts(parts)[i] == parts[i]@,
{
}

// ---------------------------------------------------------------------------
// Numbers
// ---------------------------------------------------------------------------

/// One digit is a number.
pub proof fn lemma_digit_is_a_number(c: char)
    requires
        '0' <= c <= '9',
    ensures
        unsigned_of(seq![c]) == Some((c as int - 48) as u64),
{
    let text = seq![c];
    assert(without_plus(text) == text);
    assert(text.drop_last() =~= seq![]);
    assert(decimal_value(text.drop_last()) == 0);
}

/// One more digit makes a number ten times as large, plus the digit, as long as it fits in
/// 64 bits.
pub proof fn lemma_number_grows_by_a_digit(text: Seq<char>, c: char)
    requires
        text.len() > 0,
        text != seq!['+'],
        '0' <= c <= '9',
    ensures
        match unsigned_of(text) {
            Some(n) => unsigned_of(text.push(c)) == if 10 * n + (c as int - 48) <= u64::MAX {
                Some((10 * n + (c as int - 48)) as u64)
            } else {
                None
            },
            None => unsigned_of(text.push(c)) is None,
        },
{
    let digits = without_plus(text);
    let longer = without_plus(text.push(c));
    assert(longer =~= digits.push(c));
    assert(longer.drop_last() =~= digits);
    if digits.len() == 0 {
        assert(text =~= seq!['+']);
    }
    if all_digits(longer) {
        assert forall|i: int| 0 <= i < digits.len() implies is_digit(#[trigger] digits[i]) by {
            assert(longer[i] == digits[i]);
        }
    }
}

/// Nothing but digits behind an optional plus sign is a number.
pub proof fn lemma_only_digits_make_a_number(text: Seq<char>, i: int)
    requires
        0 <= i < text.len(),
        !('0' <= text[i] <= '9'),
        i > 0 || text[0] != '+',
    ensures
        unsigned_of(text) is None,
{
    let digits = without_plus(text);
    if text[0] == '+' {
        assert(digits[i - 1] == text[i]);
    } else {
        assert(digits[i] == text[i]);
    }
}

/// A number has a digit, and a plus sign before it changes nothing.
pub proof fn lemma_plus_sign(text: Seq<char>)
    ensures
        unsigned_of(seq![]) is None,
        unsigned_of(seq!['+']) is None,
        text.len() > 0 && text[0] != '+' ==> unsigned_of(seq!['+'] + text) == unsigned_of(text),
{
    assert(seq!['+'].drop_first() =~= seq![]);
    assert((seq!['+'] + text).drop_first() =~= text);
}

/// The decimal text of a number reads back as the number. It has digits alone, and no zero
/// in front.
pub proof fn lemma_decimal_reads_back(n: nat)
    ensures
        n <= u64::MAX ==> unsigned_of(decimal_text(n)) == Some(n as u64),
        decimal_text(n).len() > 0,
        forall|i: int|
            0 <= i < decimal_text(n).len() ==> '0' <= #[trigger] decimal_text(n)[i] <= '9',
        n > 0 ==> decimal_text(n)[0] != '0',
    decreases n,
{
    if n < 10 {
        lemma_digit_is_a_number(digit_char(n));
    } else {
        lemma_decimal_reads_back(n / 10);
        let head = decimal_text(n / 10);
        let c = digit_char(n % 10);
        assert(decimal_text(n) == head.push(c));
        assert(head[0] != '+');
        lemma_number_grows_by_a_digit(head, c);
    }
}

// ---------------------------------------------------------------------------
// Trimming
// ---------------------------------------------------------------------------

/// Trimming removes the white space around a text and keeps all between.
pub proof fn lemma_trim_keeps_the_middle(
    before: Seq<char>,
    middle: Seq<char>,
    after: Seq<char>,
)
    requires
        forall|i: int| 0 <= i < before.len() ==> is_white_space(#[trigger] before[i]),
        forall|i: int| 0 <= i < after.len() ==> is_white_space(#[trigger] after[i]),
        middle.len() > 0 ==> !is_white_space(middle[0]) && !is_white_space(middle.last()),
    ensures
        trimmed(before + middle + after) == middle,
    decreases before.len() + after.len(),
{
    let text = before + middle + after;
    if before.len() > 0 {
        let fewer = before.drop_first();
        assert(text[0] == before[0]);
        assert(text.drop_first() =~= fewer + middle + after);
        assert(forall|i: int| 0 <= i < fewer.len() ==> fewer[i] == #[trigger] before[i + 1]);
        lemma_trim_keeps_the_middle(fewer, middle, after);
    } else if middle.len() > 0 {
        assert(text =~= middle + after);
        assert(text[0] == middle[0]);
        lemma_trim_end(middle, after);
    } else {
        assert(text =~= after);
        lemma_blank(after);
    }
}

proof fn lemma_trim_end(middle: Seq<char>, after: Seq<char>)
    requires
        forall|i: int| 0 <= i < after.len() ==> is_white_space(#[trigger] after[i]),
        middle.len() > 0,
        !is_white_space(middle.last()),
    ensures
        trimmed_end(middle + after) == middle,
    decreases after.len(),
{
    let text = middle + after;
    if after.len() > 0 {
        let fewer = after.drop_last();
        assert(text.last() == after.last());
        assert(text.drop_last() =~= middle + fewer);
        lemma_trim_end(middle, fewer);
    } else {
        assert(text =~= middle);
    }
}

proof fn lemma_blank(text: Seq<char>)
    requires
        forall|i: int| 0 <= i < text.len() ==> is_white_space(#[trigger] text[i]),
    ensures
        trimmed_start(text) == Seq::<char>::empty(),
        trimmed(text) == Seq::<char>::empty(),
    decreases text.len(),
{
    if text.len() > 0 {
        let fewer = text.drop_first();
        assert(forall|i: int| 0 <= i < fewer.len() ==> fewer[i] == #[trigger] text[i + 1]);
        lemma_blank(fewer);
    }
}

// ---------------------------------------------------------------------------
// Searching and replacing
// ---------------------------------------------------------------------------

/// A text holds what stands in it, starts with what stands at its start, and ends with what
/// stands at its end.
pub proof fn lemma_what_stands_there_is_found(a: Seq<char>, b: Seq<char>, c: Seq<char>)
    ensures
        occurs_in(a + b + c, b),
        starts_in(a + b, a),
        ends_in(a + b, b),
{
    assert((a + b + c).subrange(a.len() as int, (a.len() + b.len()) as int) =~= b);
    assert(occurs_at(a + b + c, b, a.len() as int));
    assert((a + b).subrange(0, a.len() as int) =~= a);
    assert((a + b).subrange(a.len() as int, (a.len() + b.len()) as int) =~= b);
}

/// What is found stands there.
pub proof fn lemma_what_is_found_stands_there(text: Seq<char>, pattern: Seq<char>) -> (parts: (
    Seq<char>,
    Seq<char>,
))
    ensures
        occurs_in(text, pattern) ==> text == parts.0 + pattern + parts.1,
        starts_in(text, pattern) ==> text == pattern + text.skip(pattern.len() as int),
        ends_in(text, pattern) ==> text == text.take(text.len() - pattern.len()) + pattern,
{
    if starts_in(text, pattern) {
        assert(text =~= text.subrange(0, pattern.len() as int) + text.skip(pattern.len() as int));
    }
    if ends_in(text, pattern) {
        let from = text.len() - pattern.len();
        assert(text =~= text.take(from) + text.subrange(from, from + pattern.len()));
    }
    if occurs_in(text, pattern) {
        let at = choose|at: int| occurs_at(text, pattern, at);
        let before = text.take(at);
        let after = text.skip(at + pattern.len());
        assert(text =~= before + text.subrange(at, at + pattern.len()) + after);
        (before, after)
    } else {
        (seq![], seq![])
    }
}

/// Replacing what does not occur changes nothing.
pub proof fn lemma_nothing_to_replace(
    text: Seq<char>,
    pattern: Seq<char>,
    replacement: Seq<char>,
)
    requires
        pattern.len() > 0,
        !occurs_in(text, pattern),
    ensures
        replaced(text, pattern, replacement) == text,
    decreases text.len(),
{
    if text.len() >= pattern.len() {
        let rest = text.drop_first();
        assert(!occurs_at(text, pattern, 0));
        assert forall|at: int| !occurs_at(rest, pattern, at) by {
            if occurs_at(rest, pattern, at) {
                assert(text.subrange(at + 1, at + 1 + pattern.len()) =~= rest.subrange(
                    at,
                    at + pattern.len(),
                ));
                assert(occurs_at(text, pattern, at + 1));
            }
        }
        lemma_nothing_to_replace(rest, pattern, replacement);
        assert(seq![text[0]] + rest =~= text);
    }
}

/// The first occurrence is replaced, what stands before it is kept, and what stands behind it
/// is searched in turn.
pub proof fn lemma_first_is_replaced(
    before: Seq<char>,
    pattern: Seq<char>,
    after: Seq<char>,
    replacement: Seq<char>,
)
    requires
        pattern.len() > 0,
        forall|i: int|
            0 <= i < before.len() ==> !#[trigger] occurs_at(before + pattern + after, pattern, i),
    ensures
        replaced(before + pattern + after, pattern, replacement) == before + replacement
            + replaced(after, pattern, replacement),
    decreases before.len(),
{
    let text = before + pattern + after;
    let done = replaced(after, pattern, replacement);
    if before.len() == 0 {
        assert(text.subrange(0, pattern.len() as int) =~= pattern);
        assert(text.skip(pattern.len() as int) =~= after);
        assert(before + replacement + done =~= replacement + done);
    } else {
        let rest = before.drop_first();
        let tail = rest + pattern + after;
        assert(text.drop_first() =~= tail);
        assert(!occurs_at(text, pattern, 0));
        assert forall|i: int| 0 <= i < rest.len() implies !#[trigger] occurs_at(
            tail,
            pattern,
            i,
        ) by {
            if occurs_at(tail, pattern, i) {
                assert(text.subrange(i + 1, i + 1 + pattern.len()) =~= tail.subrange(
                    i,
                    i + pattern.len(),
                ));
                assert(occurs_at(text, pattern, i + 1));
            }
        }
        lemma_first_is_replaced(rest, pattern, after, replacement);
        assert(seq![text[0]] + (rest + replacement + done) =~= before + replacement + done);
    }
}

/// Lower case changes capital letters of ASCII to the letters 32 places on, and nothing
/// else.
pub proof fn lemma_lower_case(text: Seq<char>)
    ensures
        ascii_lower(text).len() == text.len(),
        forall|i: int|
            0 <= i < text.len() ==> (if 'A' <= text[i] <= 'Z' {
                #[trigger] ascii_lower(text)[i] as int == text[i] as int + 32
            } else {
                ascii_lower(text)[i] == text[i]
            }),
{
}

} // verus!
