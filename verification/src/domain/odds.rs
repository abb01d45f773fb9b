//! The grammar of an opening-odds label such as `"3:1"`.
//!
//! A label is two ratios separated by one colon. A ratio is a decimal number
//! of at least one digit, optionally preceded by `+`, whose value is
//! positive and fits in 64 signed bits. Nothing else may stand in the label:
//! no spaces, no minus sign, no second colon.

use vstd::prelude::*;
use vstd::string::*;
use vstd::utf8::is_ascii_chars;

verus! {

/// `c` is one of the decimal digits `0` to `9`.
pub open spec fn is_digit(c: char) -> bool {
    '0' <= c <= '9'
}

/// The value of the digit `c`.
pub open spec fn digit_value(c: char) -> int {
    (c as u32) as int - 48
}

/// Every character of `s` is a decimal digit.
pub open spec fn all_digits(s: Seq<char>) -> bool {
    forall|i: int| 0 <= i < s.len() ==> is_digit(#[trigger] s[i])
}

/// The number that the decimal digits `s` denote.
pub open spec fn digits_value(s: Seq<char>) -> int
    decreases s.len(),
{
    if s.len() == 0 {
        0
    } else {
        digits_value(s.drop_last()) * 10 + digit_value(s.last())
    }
}

/// `s` without its leading `+`, if it has one.
pub open spec fn unsigned_part(s: Seq<char>) -> Seq<char> {
    if s.len() > 0 && s[0] == '+' {
        s.subrange(1, s.len() as int)
    } else {
        s
    }
}

/// The value of the ratio that `s` spells, if it spells one.
pub open spec fn positive_ratio(s: Seq<char>) -> Option<i64> {
    let digits = unsigned_part(s);
    if digits.len() > 0 && all_digits(digits) && 0 < digits_value(digits) <= i64::MAX {
        Some(digits_value(digits) as i64)
    } else {
        None
    }
}

/// `label` has a colon at `k` with a ratio on either side.
pub open spec fn splits_at(label: Seq<char>, k: int) -> bool {
    &&& 0 <= k < label.len()
    &&& label[k] == ':'
    &&& positive_ratio(label.subrange(0, k)) is Some
    &&& positive_ratio(label.subrange(k + 1, label.len() as int)) is Some
}

/// `label` is an opening-odds label: two ratios separated by a colon.
pub open spec fn odds_label_valid(label: Seq<char>) -> bool {
    exists|k: int| splits_at(label, k)
}

/// The value of a run of digits is not negative, and no prefix of it has a
/// greater value.
proof fn lemma_prefix_value(s: Seq<char>, k: int)
    requires
        all_digits(s),
        0 <= k <= s.len(),
    ensures
        0 <= digits_value(s.take(k)) <= digits_value(s),
    decreases s.len(),
{
    if k == s.len() {
        assert(s.take(k) =~= s);
        if s.len() > 0 {
            assert(is_digit(s[s.len() - 1]));
            lemma_prefix_value(s.drop_last(), k - 1);
            assert(s.drop_last().take(k - 1) =~= s.drop_last());
        }
    } else {
        assert(is_digit(s[s.len() - 1]));
        lemma_prefix_value(s.drop_last(), k);
        assert(s.drop_last().take(k) =~= s.take(k));
    }
}

/// A ratio holds no colon.
proof fn lemma_ratio_has_no_colon(s: Seq<char>, i: int)
    requires
        0 <= i < s.len(),
        s[i] == ':',
    ensures
        positive_ratio(s) is None,
{
    let digits = unsigned_part(s);
    if s[0] == '+' {
        assert(digits[i - 1] == s[i]);
        assert(!is_digit(digits[i - 1]));
    } else {
        assert(!is_digit(digits[i]));
    }
}

/// A ratio is made of ASCII characters.
proof fn lemma_ratio_is_ascii(s: Seq<char>)
    requires
        positive_ratio(s) is Some,
    ensures
        is_ascii_chars(s),
{
    let digits = unsigned_part(s);
    assert forall|i: int| 0 <= i < s.len() implies '\0' <= #[trigger] s[i] <= '\u{7f}' by {
        if s[0] == '+' {
            if i > 0 {
                assert(is_digit(digits[i - 1]));
            }
        } else {
            assert(is_digit(digits[i]));
        }
    }
}

/// An opening-odds label is made of ASCII characters.
proof fn lemma_label_is_ascii(label: Seq<char>)
    requires
        odds_label_valid(label),
    ensures
        is_ascii_chars(label),
{
    let k = choose|k: int| splits_at(label, k);
    let left = label.subrange(0, k);
    let right = label.subrange(k + 1, label.len() as int);
    lemma_ratio_is_ascii(left);
    lemma_ratio_is_ascii(right);
    assert forall|i: int| 0 <= i < label.len() implies '\0' <= #[trigger] label[i] <= '\u{7f}' by {
        if i < k {
            assert(left[i] == label[i]);
        } else if i > k {
            assert(right[i - k - 1] == label[i]);
        }
    }
}

/// A label can be split only at its first colon.
proof fn lemma_split_is_first_colon(label: Seq<char>, first: int, k: int)
    requires
        0 <= first < label.len(),
        label[first] == ':',
        forall|i: int| 0 <= i < first ==> label[i] != ':',
        splits_at(label, k),
    ensures
        k == first,
{
    if k > first {
        let left = label.subrange(0, k);
        assert(left[first] == ':');
        lemma_ratio_has_no_colon(left, first);
    }
}

/// Reads the ratio that the bytes from `from` up to `to` spell.
fn parse_ratio(bytes: &[u8], from: usize, to: usize, Ghost(text): Ghost<Seq<char>>) -> (r: Option<
    i64,
>)
    requires
        from <= to <= bytes.len(),
        text.len() == bytes.len(),
        is_ascii_chars(text),
        forall|i: int| 0 <= i < bytes.len() ==> bytes[i] == (#[trigger] text[i]) as u8,
    ensures
        r == positive_ratio(text.subrange(from as int, to as int)),
{
    let ghost s = text.subrange(from as int, to as int);
    let mut start: usize = from;
    if from < to && bytes[from] == 43 {
        assert(s[0] == text[from as int]);
        start = from + 1;
    } else if from < to {
        assert(s[0] == text[from as int]);
    }
    let ghost digits = text.subrange(start as int, to as int);
    assert(digits =~= unsigned_part(s));
    if start == to {
        return None;
    }
    let mut value: i64 = 0;
    let mut i: usize = start;
    while i < to
        invariant
            start <= i <= to <= bytes.len(),
            text.len() == bytes.len(),
            is_ascii_chars(text),
            forall|j: int| 0 <= j < bytes.len() ==> bytes[j] == (#[trigger] text[j]) as u8,
            from <= start,
            digits == text.subrange(start as int, to as int),
            digits == unsigned_part(text.subrange(from as int, to as int)),
            all_digits(digits.take(i - start)),
            value == digits_value(digits.take(i - start)),
            0 <= value,
        decreases to - i,
    {
        let b: u8 = bytes[i];
        let ghost c = text[i as int];
        assert(digits[i - start] == c);
        assert(b == c as u8);
        if b < 48 || b > 57 {
            assert(!is_digit(c));
            return None;
        }
        assert(is_digit(c));
        let digit: i64 = (b - 48) as i64;
        assert(digit == digit_value(c));
        proof {
            assert(digits.take(i - start + 1).drop_last() =~= digits.take(i - start));
            assert(digits.take(i - start + 1).last() == c);
        }
        if value > (i64::MAX - digit) / 10 {
            proof {
                assert(digits_value(digits.take(i - start + 1)) > i64::MAX);
                if all_digits(digits) {
                    lemma_prefix_value(digits, i - start + 1);
                }
            }
            return None;
        }
        value = value * 10 + digit;
        assert(all_digits(digits.take(i - start + 1))) by {
            assert forall|j: int| 0 <= j < i - start + 1 implies is_digit(
                #[trigger] digits.take(i - start + 1)[j],
            ) by {
                if j < i - start {
                    assert(digits.take(i - start)[j] == digits.take(i - start + 1)[j]);
                }
            }
        }
        i += 1;
    }
    assert(digits.take(to - start) =~= digits);
    if value == 0 {
        None
    } else {
        Some(value)
    }
}

/// Tests whether `label` is an opening-odds label.
pub fn is_odds_label(label: &str) -> (b: bool)
    ensures
        b == odds_label_valid(label@),
{
    if !label.is_ascii() {
        proof {
            if odds_label_valid(label@) {
                lemma_label_is_ascii(label@);
            }
        }
        return false;
    }
    let bytes: &[u8] = label.as_bytes();
    proof {
        is_ascii_spec_bytes(label);
    }
    let ghost text = label@;
    let mut first: usize = 0;
    while first < bytes.len() && bytes[first] != 58
        invariant
            first <= bytes.len(),
            text.len() == bytes.len(),
            is_ascii_chars(text),
            forall|i: int| 0 <= i < bytes.len() ==> bytes[i] == (#[trigger] text[i]) as u8,
            forall|i: int| 0 <= i < first ==> text[i] != ':',
        decreases bytes.len() - first,
    {
        assert(bytes[first as int] == text[first as int] as u8);
        first += 1;
    }
    if first == bytes.len() {
        return false;
    }
    assert(bytes[first as int] == text[first as int] as u8);
    assert(text[first as int] == ':');
    let left: Option<i64> = parse_ratio(bytes, 0, first, Ghost(text));
    let right: Option<i64> = parse_ratio(bytes, first + 1, bytes.len(), Ghost(text));
    let valid: bool = left.is_some() && right.is_some();
    proof {
        if valid {
            assert(splits_at(text, first as int));
        } else if odds_label_valid(text) {
            let k = choose|k: int| splits_at(text, k);
            lemma_split_is_first_colon(text, first as int, k);
        }
    }
    valid
}

} // verus!
