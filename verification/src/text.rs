//! Small helpers on strings that the rest of the library shares.

use vstd::prelude::*;

verus! {

/// Whether two string slices hold the same characters.
pub fn str_eq(a: &str, b: &str) -> (same: bool)
    ensures
        same == (a@ == b@),
{
    a.to_owned() == b.to_owned()
}

/// The characters of a text, one by one.
pub fn chars_of(text: &str) -> (chars: Vec<char>)
    ensures
        chars@ == text@,
{
    let mut chars: Vec<char> = Vec::new();
    for c in it: text.chars()
        invariant
            it.seq() == text@,
            chars@ == it.seq().take(it.index() as int),
    {
        chars.push(c);
    }
    chars
}

/// How often a character occurs in a text.
pub open spec fn occurrences(text: Seq<char>, c: char) -> nat
    decreases text.len(),
{
    if text.len() == 0 {
        0
    } else {
        occurrences(text.drop_last(), c) + if text.last() == c {
            1nat
        } else {
            0nat
        }
    }
}

/// Counts the occurrences of a character, giving up once there are more than
/// `limit`: says whether there are at most `limit`.
pub fn occurs_at_most(text: &str, c: char, limit: usize) -> (within: bool)
    ensures
        within == (occurrences(text@, c) <= limit),
{
    let chars = chars_of(text);
    let mut count: usize = 0;
    let mut i: usize = 0;
    while i < chars.len()
        invariant
            i <= chars.len(),
            chars@ == text@,
            count == occurrences(chars@.take(i as int), c),
            count <= limit,
        decreases chars.len() - i,
    {
        proof {
            assert(chars@.take(i + 1).drop_last() =~= chars@.take(i as int));
        }
        if chars[i] == c {
            if count == limit {
                proof {
                    lemma_occurrences_grow(chars@, c, i + 1);
                }
                return false;
            }
            count = count + 1;
        }
        i = i + 1;
    }
    proof {
        assert(chars@.take(i as int) =~= chars@);
    }
    true
}

/// A longer start of a text holds a character at least as often as a shorter.
pub proof fn lemma_occurrences_grow(text: Seq<char>, c: char, k: int)
    requires
        0 <= k <= text.len(),
    ensures
        occurrences(text.take(k), c) <= occurrences(text, c),
    decreases text.len() - k,
{
    if k < text.len() {
        assert(text.take(k + 1).drop_last() =~= text.take(k));
        lemma_occurrences_grow(text, c, k + 1);
    } else {
        assert(text.take(k) =~= text);
    }
}

/// A text without `prefix` at its start: where the text starts with the
/// prefix, what follows the first occurrence, else the text itself. An empty
/// prefix removes nothing.
pub open spec fn without_leading(text: Seq<char>, prefix: Seq<char>) -> Seq<char> {
    if prefix.len() > 0 && prefix.is_prefix_of(text) {
        text.skip(prefix.len() as int)
    } else {
        text
    }
}

/// Whether `prefix` stands in `text` at position `at`.
fn stands_at(text: &Vec<char>, prefix: &Vec<char>, at: usize) -> (stands: bool)
    requires
        at <= text.len(),
    ensures
        stands == prefix@.is_prefix_of(text@.skip(at as int)),
{
    if prefix.len() > text.len() - at {
        return false;
    }
    let mut i: usize = 0;
    while i < prefix.len()
        invariant
            i <= prefix.len(),
            at <= text.len(),
            prefix.len() <= text.len() - at,
            forall|j: int| 0 <= j < i ==> prefix@[j] == text@[at + j],
        decreases prefix.len() - i,
    {
        if prefix[i] != text[at + i] {
            assert(text@.skip(at as int)[i as int] == text@[at + i]);
            return false;
        }
        i = i + 1;
    }
    assert(prefix@ =~= text@.skip(at as int).subrange(0, prefix@.len() as int));
    true
}

/// Takes `prefix` off the start of `text`, once, where the text starts with
/// it.
pub fn strip_leading<'a>(text: &'a str, prefix: &str) -> (rest: &'a str)
    ensures
        rest@ == without_leading(text@, prefix@),
{
    let chars = chars_of(text);
    let lead = chars_of(prefix);
    proof {
        assert(chars@.skip(0) =~= chars@);
    }
    if lead.len() == 0 || !stands_at(&chars, &lead, 0) {
        return text;
    }
    let rest = text.substring_char(lead.len(), chars.len());
    proof {
        assert(text@.subrange(lead@.len() as int, chars@.len() as int) =~= text@.skip(
            prefix@.len() as int,
        ));
    }
    rest
}

/// The value of a decimal digit; zero for any other character.
pub open spec fn digit_value(c: char) -> nat {
    if '0' <= c <= '9' {
        (c as u32 - '0' as u32) as nat
    } else {
        0
    }
}

/// The number that a run of decimal digits writes.
pub open spec fn decimal_value(digits: Seq<char>) -> nat
    decreases digits.len(),
{
    if digits.len() == 0 {
        0
    } else {
        decimal_value(digits.drop_last()) * 10 + digit_value(digits.last())
    }
}

/// Whether every character is a decimal digit.
pub open spec fn all_digits(text: Seq<char>) -> bool {
    forall|i: int| 0 <= i < text.len() ==> '0' <= #[trigger] text[i] <= '9'
}

/// The `u32` that a text writes: an optional `+`, then at least one decimal
/// digit and nothing else, with a value that fits.
pub open spec fn u32_of_text(text: Seq<char>) -> Option<u32> {
    let digits = if text.len() > 0 && text[0] == '+' {
        text.skip(1)
    } else {
        text
    };
    if digits.len() > 0 && all_digits(digits) && decimal_value(digits) <= u32::MAX {
        Some(decimal_value(digits) as u32)
    } else {
        None
    }
}

/// A longer start of a run of digits writes a number at least as large.
pub proof fn lemma_decimal_value_grows(digits: Seq<char>, k: int)
    requires
        0 <= k <= digits.len(),
    ensures
        decimal_value(digits.take(k)) <= decimal_value(digits),
    decreases digits.len() - k,
{
    if k < digits.len() {
        assert(digits.take(k + 1).drop_last() =~= digits.take(k));
        lemma_decimal_value_grows(digits, k + 1);
    } else {
        assert(digits.take(k) =~= digits);
    }
}

/// Reads a `u32` written in decimal.
pub fn parse_u32(text: &str) -> (parsed: Option<u32>)
    ensures
        parsed == u32_of_text(text@),
{
    let chars = chars_of(text);
    let start: usize = if chars.len() > 0 && chars[0] == '+' {
        1
    } else {
        0
    };
    if start == chars.len() {
        return None;
    }
    let ghost digits = chars@.skip(start as int);
    let mut value: u64 = 0;
    let mut i: usize = start;
    while i < chars.len()
        invariant
            start <= i <= chars.len(),
            start < chars.len(),
            chars@ == text@,
            start == 1 <==> chars@[0] == '+',
            start == 0 || start == 1,
            digits == chars@.skip(start as int),
            all_digits(digits.take(i - start)),
            value == decimal_value(digits.take(i - start)),
            value <= u32::MAX,
        decreases chars.len() - i,
    {
        let c = chars[i];
        proof {
            assert(digits[i - start] == c);
            assert(digits.take(i - start + 1).drop_last() =~= digits.take(i - start));
            assert(digits.take(i - start + 1).last() == c);
        }
        if c < '0' || c > '9' {
            assert(!all_digits(digits));
            assert(chars@.skip(0) =~= chars@);
            return None;
        }
        let next: u64 = value * 10 + (c as u32 - '0' as u32) as u64;
        if next > u32::MAX as u64 {
            proof {
                assert(digits.take(i - start + 1).last() == c);
                assert(decimal_value(digits.take(i - start + 1)) == next);
                lemma_decimal_value_grows(digits, i - start + 1);
                assert(chars@.skip(0) =~= chars@);
            }
            return None;
        }
        value = next;
        i = i + 1;
    }
    proof {
        assert(digits.take(i - start) =~= digits);
        assert(chars@.skip(0) =~= chars@);
    }
    Some(value as u32)
}

} // verus!
