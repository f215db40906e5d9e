//! Text helpers: comparison, decimal numbers, trimming, searching and replacing.

use vstd::prelude::*;
use vstd::utf8::*;

verus! {

// ---------------------------------------------------------------------------
// Comparison
// ---------------------------------------------------------------------------

/// Two texts with the same UTF-8 bytes are the same text.
pub proof fn lemma_same_bytes_same_text(a: Seq<char>, b: Seq<char>)
    ensures
        encode_utf8(a) == encode_utf8(b) <==> a == b,
{
    encode_utf8_decode_utf8(a);
    encode_utf8_decode_utf8(b);
}

/// Whether two byte slices hold the same bytes.
pub fn same_bytes(a: &[u8], b: &[u8]) -> (r: bool)
    ensures
        r == (a@ == b@),
{
    if a.len() != b.len() {
        return false;
    }
    let mut i: usize = 0;
    while i < a.len()
        invariant
            i <= a@.len(),
            a@.len() == b@.len(),
            forall|j: int| 0 <= j < i ==> a@[j] == b@[j],
        decreases a@.len() - i,
    {
        if a[i] != b[i] {
            return false;
        }
        i += 1;
    }
    assert(a@ =~= b@);
    true
}

/// Whether two texts are equal.
pub fn same_text(a: &str, b: &str) -> (r: bool)
    ensures
        r == (a@ == b@),
{
    proof {
        lemma_same_bytes_same_text(a@, b@);
    }
    same_bytes(a.as_bytes(), b.as_bytes())
}

// ---------------------------------------------------------------------------
// Building
// ---------------------------------------------------------------------------

/// `String::push` appends one character.
pub assume_specification[ std::string::String::push ](text: &mut std::string::String, c: char)
    ensures
        final(text)@ == old(text)@.push(c),
;

/// The concatenation of three texts.
pub fn concat3(a: &str, b: &str, c: &str) -> (r: String)
    ensures
        r@ == a@ + b@ + c@,
{
    let mut out = String::new();
    out.append(a);
    out.append(b);
    out.append(c);
    assert(out@ =~= a@ + b@ + c@);
    out
}

/// The texts joined with `separator` between neighbours.
pub open spec fn joined(parts: Seq<Seq<char>>, separator: Seq<char>) -> Seq<char>
    decreases parts.len(),
{
    if parts.len() == 0 {
        seq![]
    } else if parts.len() == 1 {
        parts[0]
    } else {
        joined(parts.drop_last(), separator) + separator + parts.last()
    }
}

/// The views of a sequence of strings.
pub open spec fn texts(parts: Seq<String>) -> Seq<Seq<char>> {
    parts.map_values(|s: String| s@)
}

/// Joins `parts` with `separator` between neighbours.
pub fn join(parts: &Vec<String>, separator: &str) -> (r: String)
    ensures
        r@ == joined(texts(parts@), separator@),
{
    let mut out = String::new();
    let mut i: usize = 0;
    while i < parts.len()
        invariant
            i <= parts@.len(),
            out@ == joined(texts(parts@).take(i as int), separator@),
        decreases parts@.len() - i,
    {
        proof {
            let next = texts(parts@).take(i + 1);
            assert(next.drop_last() =~= texts(parts@).take(i as int));
            assert(next.last() == parts@[i as int]@);
        }
        if i > 0 {
            out.append(separator);
        }
        out.append(parts[i].as_str());
        i += 1;
        assert(out@ =~= joined(texts(parts@).take(i as int), separator@));
    }
    assert(texts(parts@).take(i as int) =~= texts(parts@));
    out
}

// ---------------------------------------------------------------------------
// Decimal numbers
// ---------------------------------------------------------------------------

/// The character of a decimal digit.
pub open spec fn digit_char(d: nat) -> char {
    (48 + d) as char
}

/// The decimal text of a natural number, without leading zeros.
pub open spec fn decimal_text(n: nat) -> Seq<char>
    decreases n,
{
    if n < 10 {
        seq![digit_char(n)]
    } else {
        decimal_text(n / 10).push(digit_char(n % 10))
    }
}

/// Appends the decimal text of `n`.
pub fn push_decimal(out: &mut String, n: u64)
    ensures
        final(out)@ == old(out)@ + decimal_text(n as nat),
    decreases n,
{
    if n >= 10 {
        push_decimal(out, n / 10);
    }
    let d: u8 = (n % 10) as u8;
    out.push((48 + d) as char);
    assert(out@ =~= old(out)@ + decimal_text(n as nat));
}

/// The decimal text of `n`.
pub fn decimal(n: u64) -> (r: String)
    ensures
        r@ == decimal_text(n as nat),
{
    let mut out = String::new();
    push_decimal(&mut out, n);
    assert(out@ =~= decimal_text(n as nat));
    out
}

/// Whether a character is a decimal digit.
pub open spec fn is_digit(c: char) -> bool {
    '0' <= c <= '9'
}

/// The number that a sequence of decimal digits stands for.
pub open spec fn decimal_value(digits: Seq<char>) -> nat
    decreases digits.len(),
{
    if digits.len() == 0 {
        0
    } else {
        decimal_value(digits.drop_last()) * 10 + (digits.last() as nat - 48) as nat
    }
}

/// A text without one leading plus sign.
pub open spec fn without_plus(text: Seq<char>) -> Seq<char> {
    if text.len() > 0 && text[0] == '+' {
        text.drop_first()
    } else {
        text
    }
}

/// Whether a text consists of decimal digits only.
pub open spec fn all_digits(text: Seq<char>) -> bool {
    forall|i: int| 0 <= i < text.len() ==> is_digit(#[trigger] text[i])
}

/// The unsigned number that a text spells: an optional plus sign, then one or more
/// decimal digits and nothing else, for a value that fits in 64 bits.
pub open spec fn unsigned_of(text: Seq<char>) -> Option<u64> {
    let digits = without_plus(text);
    if digits.len() > 0 && all_digits(digits) && decimal_value(digits) <= u64::MAX {
        Some(decimal_value(digits) as u64)
    } else {
        None
    }
}

proof fn lemma_decimal_value_grows(digits: Seq<char>, i: int)
    requires
        0 <= i <= digits.len(),
    ensures
        decimal_value(digits.take(i)) <= decimal_value(digits),
    decreases digits.len() - i,
{
    if i == digits.len() {
        assert(digits.take(i) =~= digits);
    } else {
        lemma_decimal_value_grows(digits, i + 1);
        assert(digits.take(i + 1).drop_last() =~= digits.take(i));
    }
}

/// Reads the unsigned number that `text` spells.
pub fn parse_unsigned(text: &str) -> (r: Option<u64>)
    ensures
        r == unsigned_of(text@),
{
    let chars = chars_of(text);
    let mut start: usize = 0;
    if chars.len() > 0 && chars[0] == '+' {
        start = 1;
    }
    let ghost digits = without_plus(text@);
    assert(digits =~= chars@.skip(start as int));
    if start == chars.len() {
        return None;
    }
    let mut value: u64 = 0;
    let mut i: usize = start;
    while i < chars.len()
        invariant
            start <= i <= chars@.len(),
            start <= 1,
            digits == chars@.skip(start as int),
            digits.len() > 0,
            digits == without_plus(text@),
            forall|j: int| 0 <= j < i - start ==> is_digit(#[trigger] digits[j]),
            value == decimal_value(digits.take(i - start)),
        decreases chars@.len() - i,
    {
        let c = chars[i];
        assert(digits[i - start] == c);
        if c < '0' || c > '9' {
            assert(!is_digit(digits[i - start]));
            return None;
        }
        let d: u64 = (c as u32 - 48) as u64;
        proof {
            let next = digits.take(i - start + 1);
            assert(next.drop_last() =~= digits.take(i - start));
            lemma_decimal_value_grows(digits, i - start + 1);
        }
        if value > (u64::MAX - d) / 10 {
            assert(value * 10 + d > u64::MAX);
            return None;
        }
        value = value * 10 + d;
        i += 1;
    }
    assert(digits.take(i - start) =~= digits);
    Some(value)
}

// ---------------------------------------------------------------------------
// Characters
// ---------------------------------------------------------------------------

/// The characters of a text.
pub fn chars_of(text: &str) -> (r: Vec<char>)
    ensures
        r@ == text@,
{
    let mut out: Vec<char> = Vec::new();
    for c in it: text.chars()
        invariant
            out@ == it.seq().take(it.index() as int),
            it.seq() == text@,
    {
        out.push(c);
        assert(out@ =~= it.seq().take(it.index() + 1));
    }
    assert(out@ =~= text@);
    out
}

/// The text made of `chars[from..to]`.
pub fn text_of(chars: &Vec<char>, from: usize, to: usize) -> (r: String)
    requires
        from <= to <= chars@.len(),
    ensures
        r@ == chars@.subrange(from as int, to as int),
{
    let mut out = String::new();
    let mut i: usize = from;
    while i < to
        invariant
            from <= i <= to <= chars@.len(),
            out@ == chars@.subrange(from as int, i as int),
        decreases to - i,
    {
        out.push(chars[i]);
        i += 1;
        assert(out@ =~= chars@.subrange(from as int, i as int));
    }
    out
}

// ---------------------------------------------------------------------------
// Trimming
// ---------------------------------------------------------------------------

/// The characters with the Unicode property `White_Space`.
pub open spec fn is_white_space(c: char) -> bool {
    ||| '\u{9}' <= c <= '\u{d}'
    ||| c == '\u{20}'
    ||| c == '\u{85}'
    ||| c == '\u{a0}'
    ||| c == '\u{1680}'
    ||| '\u{2000}' <= c <= '\u{200a}'
    ||| c == '\u{2028}'
    ||| c == '\u{2029}'
    ||| c == '\u{202f}'
    ||| c == '\u{205f}'
    ||| c == '\u{3000}'
}

/// A text without its leading white space.
pub open spec fn trimmed_start(text: Seq<char>) -> Seq<char>
    decreases text.len(),
{
    if text.len() > 0 && is_white_space(text[0]) {
        trimmed_start(text.drop_first())
    } else {
        text
    }
}

/// A text without its trailing white space.
pub open spec fn trimmed_end(text: Seq<char>) -> Seq<char>
    decreases text.len(),
{
    if text.len() > 0 && is_white_space(text.last()) {
        trimmed_end(text.drop_last())
    } else {
        text
    }
}

/// A text without its leading and trailing white space.
pub open spec fn trimmed(text: Seq<char>) -> Seq<char> {
    trimmed_end(trimmed_start(text))
}

/// `str::trim` removes the leading and trailing characters that have the Unicode
/// property `White_Space`, and keeps what stands between.
pub assume_specification[ str::trim ](text: &str) -> (r: &str)
    ensures
        r@ == trimmed(text@),
;

// ---------------------------------------------------------------------------
// Searching and replacing
// ---------------------------------------------------------------------------

/// Whether `pattern` stands in `text` at position `at`.
pub open spec fn occurs_at(text: Seq<char>, pattern: Seq<char>, at: int) -> bool {
    0 <= at && at + pattern.len() <= text.len() && text.subrange(at, at + pattern.len()) == pattern
}

/// Whether `pattern` stands somewhere in `text`.
pub open spec fn occurs_in(text: Seq<char>, pattern: Seq<char>) -> bool {
    exists|at: int| occurs_at(text, pattern, at)
}

/// Whether `text` ends with `suffix`.
pub open spec fn ends_in(text: Seq<char>, suffix: Seq<char>) -> bool {
    occurs_at(text, suffix, text.len() - suffix.len())
}

/// `text` with every occurrence of `pattern`, found from left to right and not
/// overlapping, replaced by `replacement`.
pub open spec fn replaced(
    text: Seq<char>,
    pattern: Seq<char>,
    replacement: Seq<char>,
) -> Seq<char>
    decreases text.len(),
{
    if pattern.len() == 0 || text.len() < pattern.len() {
        text
    } else if occurs_at(text, pattern, 0) {
        replacement + replaced(text.skip(pattern.len() as int), pattern, replacement)
    } else {
        seq![text[0]] + replaced(text.drop_first(), pattern, replacement)
    }
}

/// Whether `pattern` stands in `text` at position `at`.
pub fn matches_at(text: &Vec<char>, pattern: &Vec<char>, at: usize) -> (r: bool)
    ensures
        r == occurs_at(text@, pattern@, at as int),
{
    let length = text.len();
    if at > length || length - at < pattern.len() {
        return false;
    }
    let mut i: usize = 0;
    while i < pattern.len()
        invariant
            i <= pattern@.len(),
            length == text@.len(),
            at + pattern@.len() <= length,
            forall|j: int| 0 <= j < i ==> text@[at + j] == pattern@[j],
        decreases pattern@.len() - i,
    {
        if text[at + i] != pattern[i] {
            assert(text@.subrange(at as int, at + pattern@.len())[i as int] != pattern@[i as int]);
            return false;
        }
        i += 1;
    }
    assert(text@.subrange(at as int, at + pattern@.len()) =~= pattern@);
    true
}

/// Whether `pattern` stands somewhere in `text`.
pub fn contains(text: &str, pattern: &str) -> (r: bool)
    ensures
        r == occurs_in(text@, pattern@),
{
    let t = chars_of(text);
    let p = chars_of(pattern);
    let mut at: usize = 0;
    while at < t.len()
        invariant
            t@ == text@,
            p@ == pattern@,
            at <= t@.len(),
            forall|k: int| 0 <= k < at ==> !occurs_at(text@, pattern@, k),
        decreases t@.len() - at,
    {
        if matches_at(&t, &p, at) {
            return true;
        }
        at += 1;
    }
    matches_at(&t, &p, at)
}

/// `text` without `suffix` at its end, where it ends with it.
pub fn strip_suffix(text: &str, suffix: &str) -> (r: Option<String>)
    ensures
        r is Some <==> ends_in(text@, suffix@),
        r matches Some(rest) ==> rest@ == text@.take(text@.len() - suffix@.len()),
{
    let t = chars_of(text);
    let s = chars_of(suffix);
    if t.len() < s.len() {
        return None;
    }
    if matches_at(&t, &s, t.len() - s.len()) {
        Some(text_of(&t, 0, t.len() - s.len()))
    } else {
        None
    }
}

/// `text` with every occurrence of `pattern` replaced by `replacement`.
pub fn replace(text: &str, pattern: &str, replacement: &str) -> (r: String)
    requires
        pattern@.len() > 0,
    ensures
        r@ == replaced(text@, pattern@, replacement@),
{
    let t = chars_of(text);
    let p = chars_of(pattern);
    let mut out = String::new();
    let mut i: usize = 0;
    assert(text@.skip(0) =~= text@);
    assert(out@ + text@.skip(0) =~= text@);
    while i < t.len()
        invariant
            i <= t@.len(),
            t@ == text@,
            p@ == pattern@,
            p@.len() > 0,
            replaced(text@, pattern@, replacement@) == out@ + replaced(
                text@.skip(i as int),
                pattern@,
                replacement@,
            ),
        decreases t@.len() - i,
    {
        let ghost rest = text@.skip(i as int);
        let ghost before = out@;
        assert(occurs_at(rest, pattern@, 0) == occurs_at(text@, pattern@, i as int)) by {
            if i + pattern@.len() <= text@.len() {
                assert(rest.subrange(0, pattern@.len() as int) =~= text@.subrange(
                    i as int,
                    i + pattern@.len(),
                ));
            }
        }
        if matches_at(&t, &p, i) {
            out.append(replacement);
            assert(rest.skip(p@.len() as int) =~= text@.skip(i + p@.len()));
            i += p.len();
            assert(before + (replacement@ + replaced(text@.skip(i as int), pattern@, replacement@))
                =~= out@ + replaced(text@.skip(i as int), pattern@, replacement@));
        } else if t.len() - i < p.len() {
            out.append(text_of(&t, i, t.len()).as_str());
            assert(t@.subrange(i as int, t@.len() as int) =~= rest);
            i = t.len();
            assert(text@.skip(i as int) =~= seq![]);
            assert(out@ + replaced(text@.skip(i as int), pattern@, replacement@) =~= before + rest);
        } else {
            out.push(t[i]);
            assert(rest.drop_first() =~= text@.skip(i + 1));
            i += 1;
            assert(before + (seq![rest[0]] + replaced(text@.skip(i as int), pattern@, replacement@))
                =~= out@ + replaced(text@.skip(i as int), pattern@, replacement@));
        }
    }
    assert(text@.skip(i as int) =~= seq![]);
    assert(out@ + seq![] =~= out@);
    out
}

// ---------------------------------------------------------------------------
// Prefixes
// ---------------------------------------------------------------------------

/// Whether `text` starts with `prefix`.
pub open spec fn starts_in(text: Seq<char>, prefix: Seq<char>) -> bool {
    occurs_at(text, prefix, 0)
}

/// The UTF-8 bytes of one character: the character itself for ASCII, and no ASCII byte
/// otherwise.
pub proof fn lemma_encoded_char(c: char)
    ensures
        1 <= encode_scalar(c as u32).len() <= 4,
        c as u32 <= 0x7f ==> encode_scalar(c as u32) == seq![c as u8],
        c as u32 > 0x7f ==> forall|i: int|
            0 <= i < encode_scalar(c as u32).len() ==> #[trigger] encode_scalar(c as u32)[i] >= 0x80,
{
    let v = c as u32;
    if v <= 0x7f {
        assert((v & 0x7f) as u8 == v as u8) by (bit_vector)
            requires
                v <= 0x7f,
        ;
    } else {
        assert(0xC0 | ((v >> 6) & 0x1F) as u8 >= 0x80) by (bit_vector);
        assert(0xE0 | ((v >> 12) & 0x0F) as u8 >= 0x80) by (bit_vector);
        assert(0xF0 | ((v >> 18) & 0x7) as u8 >= 0x80) by (bit_vector);
        assert(0x80 | (v & 0x3F) as u8 >= 0x80) by (bit_vector);
        assert(0x80 | ((v >> 6) & 0x3F) as u8 >= 0x80) by (bit_vector);
        assert(0x80 | ((v >> 12) & 0x3F) as u8 >= 0x80) by (bit_vector);
    }
}

/// The UTF-8 bytes of a concatenation are the bytes of its parts.
pub proof fn lemma_encoded_concat(a: Seq<char>, b: Seq<char>)
    ensures
        encode_utf8(a + b) == encode_utf8(a) + encode_utf8(b),
    decreases a.len(),
{
    if a.len() == 0 {
        assert(a + b =~= b);
        assert(encode_utf8(a) + encode_utf8(b) =~= encode_utf8(b));
    } else {
        lemma_encoded_concat(a.drop_first(), b);
        assert((a + b).drop_first() =~= a.drop_first() + b);
        assert(encode_scalar(a[0] as u32) + (encode_utf8(a.drop_first()) + encode_utf8(b))
            =~= encode_utf8(a) + encode_utf8(b));
    }
}

/// The first character ends at a character boundary of the UTF-8 bytes.
proof fn lemma_first_char(text: Seq<char>)
    requires
        text.len() > 0,
    ensures
        pop_first_scalar(encode_utf8(text)) == encode_utf8(text.drop_first()),
        length_of_first_scalar(encode_utf8(text)) == encode_scalar(text[0] as u32).len(),
{
    encode_utf8_first_scalar(text);
    assert(pop_first_scalar(encode_utf8(text)) =~= encode_utf8(text.drop_first()));
}

/// The UTF-8 bytes of another character start with another byte than those of an ASCII
/// character.
proof fn lemma_other_char(c: char, ascii: char)
    requires
        c != ascii,
        ascii as u32 <= 0x7f,
    ensures
        encode_scalar(c as u32)[0] != ascii as u8,
{
    lemma_encoded_char(c);
    if c as u32 > 0x7f {
        assert(encode_scalar(c as u32)[0] >= 0x80);
    }
}

/// A text starts with an ASCII prefix when its UTF-8 bytes start with those of the
/// prefix, and the bytes that follow are those of the rest.
proof fn lemma_ascii_prefix(text: Seq<char>, prefix: Seq<char>)
    requires
        is_ascii_chars(prefix),
    ensures
        encode_utf8(prefix).len() == prefix.len(),
        starts_in(text, prefix) <==> encode_utf8(prefix).len() <= encode_utf8(text).len()
            && encode_utf8(text).take(encode_utf8(prefix).len() as int) == encode_utf8(prefix),
        starts_in(text, prefix) ==> is_char_boundary(encode_utf8(text), prefix.len() as int)
            && encode_utf8(text).skip(prefix.len() as int) == encode_utf8(
            text.skip(prefix.len() as int),
        ),
    decreases prefix.len(),
{
    let tb = encode_utf8(text);
    let pb = encode_utf8(prefix);
    encode_utf8_valid_utf8(text);
    if prefix.len() == 0 {
        assert(text.subrange(0, 0) =~= prefix);
        assert(tb.take(0) =~= pb);
        assert(tb.skip(0) =~= tb);
        assert(text.skip(0) =~= text);
    } else {
        let p1 = prefix.drop_first();
        assert(prefix[0] <= '\u{7f}');
        assert(forall|i: int| 0 <= i < p1.len() ==> p1[i] == #[trigger] prefix[i + 1]);
        lemma_encoded_char(prefix[0]);
        if text.len() == 0 {
            lemma_ascii_prefix(text, p1);
        } else {
            let t1 = text.drop_first();
            lemma_ascii_prefix(t1, p1);
            lemma_encoded_char(text[0]);
            lemma_first_char(text);
            let tb1 = encode_utf8(t1);
            let pb1 = encode_utf8(p1);
            if text[0] == prefix[0] {
                assert(tb =~= seq![prefix[0] as u8] + tb1);
                assert(pb =~= seq![prefix[0] as u8] + pb1);
                if starts_in(t1, p1) {
                    assert(text.subrange(0, prefix.len() as int) =~= seq![prefix[0]] + t1.subrange(
                        0,
                        p1.len() as int,
                    ));
                    assert(seq![prefix[0]] + p1 =~= prefix);
                    assert(tb.take(pb.len() as int) =~= seq![prefix[0] as u8] + tb1.take(
                        pb1.len() as int,
                    ));
                    assert(tb.skip(prefix.len() as int) =~= tb1.skip(p1.len() as int));
                    assert(text.skip(prefix.len() as int) =~= t1.skip(p1.len() as int));
                }
                if starts_in(text, prefix) {
                    assert(t1.subrange(0, p1.len() as int) =~= text.subrange(
                        0,
                        prefix.len() as int,
                    ).drop_first());
                }
                if pb.len() <= tb.len() && tb.take(pb.len() as int) == pb {
                    assert(tb1.take(pb1.len() as int) =~= tb.take(pb.len() as int).drop_first());
                    assert(pb1 =~= pb.drop_first());
                }
            } else {
                if starts_in(text, prefix) {
                    assert(text.subrange(0, prefix.len() as int)[0] == prefix[0]);
                }
                assert(tb[0] != pb[0]) by {
                    assert(tb[0] == encode_scalar(text[0] as u32)[0]);
                    assert(pb[0] == prefix[0] as u8);
                    lemma_other_char(text[0], prefix[0]);
                }
                if pb.len() <= tb.len() {
                    assert(tb.take(pb.len() as int)[0] == tb[0]);
                }
            }
        }
    }
}

/// `text` without `prefix` at its start, where it starts with it.
pub fn strip_ascii_prefix<'a>(text: &'a str, prefix: &str) -> (r: Option<&'a str>)
    requires
        is_ascii_chars(prefix@),
    ensures
        r is Some <==> starts_in(text@, prefix@),
        r matches Some(rest) ==> rest@ == text@.skip(prefix@.len() as int),
{
    let bytes = text.as_bytes();
    let head = prefix.as_bytes();
    let n = head.len();
    proof {
        lemma_ascii_prefix(text@, prefix@);
    }
    if bytes.len() < n {
        return None;
    }
    let mut i: usize = 0;
    while i < n
        invariant
            i <= n <= bytes@.len(),
            n == head@.len(),
            bytes@ == encode_utf8(text@),
            head@ == encode_utf8(prefix@),
            starts_in(text@, prefix@) <==> head@.len() <= bytes@.len() && bytes@.take(
                head@.len() as int,
            ) == head@,
            forall|j: int| 0 <= j < i ==> bytes@[j] == head@[j],
        decreases n - i,
    {
        if bytes[i] != head[i] {
            assert(bytes@.take(head@.len() as int)[i as int] != head@[i as int]);
            return None;
        }
        i += 1;
    }
    assert(bytes@.take(head@.len() as int) =~= head@);
    let (_, rest) = text.split_at(n);
    proof {
        lemma_same_bytes_same_text(rest@, text@.skip(prefix@.len() as int));
        assert(bytes@.subrange(n as int, bytes@.len() as int) =~= bytes@.skip(n as int));
    }
    Some(rest)
}

// ---------------------------------------------------------------------------
// Case
// ---------------------------------------------------------------------------

/// An ASCII capital letter in lower case; any other character as it is.
pub open spec fn lower_char(c: char) -> char {
    if 'A' <= c <= 'Z' {
        (c as u32 + 32) as char
    } else {
        c
    }
}

/// A text with its ASCII capital letters in lower case.
pub open spec fn ascii_lower(text: Seq<char>) -> Seq<char> {
    text.map_values(|c: char| lower_char(c))
}

/// `text` with its ASCII capital letters in lower case.
pub fn to_ascii_lower(text: &str) -> (r: String)
    ensures
        r@ == ascii_lower(text@),
{
    let t = chars_of(text);
    let mut out = String::new();
    let mut i: usize = 0;
    while i < t.len()
        invariant
            i <= t@.len(),
            t@ == text@,
            out@ == ascii_lower(text@).take(i as int),
        decreases t@.len() - i,
    {
        let c = t[i];
        if 'A' <= c && c <= 'Z' {
            out.push((c as u8 + 32) as char);
        } else {
            out.push(c);
        }
        i += 1;
        assert(out@ =~= ascii_lower(text@).take(i as int));
    }
    assert(ascii_lower(text@).take(i as int) =~= ascii_lower(text@));
    out
}

} // verus!
