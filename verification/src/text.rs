//! Runs of characters, and conversions between text and numbers.

use crate::chars::{digit_of, digit_to_char, digit_value, is_ascii_digit, is_digit, CharClass};
use vstd::prelude::*;

verus! {

/// `String::push` appends one character to the end of the string.
pub assume_specification[ std::string::String::push ](s: &mut std::string::String, c: char)
    ensures
        final(s)@ == old(s)@.push(c),
;

/// Where the maximal run of `class` characters that starts at `start` ends: the first index
/// from `start` on that holds a character outside the class, or the end of `s`.
pub open spec fn run_end(s: Seq<char>, start: int, class: CharClass) -> int
    decreases s.len() - start,
{
    if 0 <= start < s.len() && class.admits(s[start]) {
        run_end(s, start + 1, class)
    } else {
        start
    }
}

/// A run ends inside the text, holds only characters of the class, and is not followed by one.
pub proof fn lemma_run_end(s: Seq<char>, start: int, class: CharClass)
    requires
        0 <= start <= s.len(),
    ensures
        start <= run_end(s, start, class) <= s.len(),
        forall|i: int| start <= i < run_end(s, start, class) ==> class.admits(#[trigger] s[i]),
        run_end(s, start, class) < s.len() ==> !class.admits(s[run_end(s, start, class)]),
    decreases s.len() - start,
{
    if start < s.len() && class.admits(s[start]) {
        lemma_run_end(s, start + 1, class);
    }
}

/// A run is the only stretch from `start` that is made of the class and stops at the first
/// character outside it.
pub proof fn lemma_run_end_unique(s: Seq<char>, start: int, end: int, class: CharClass)
    requires
        0 <= start <= end <= s.len(),
        forall|i: int| start <= i < end ==> class.admits(#[trigger] s[i]),
        end < s.len() ==> !class.admits(s[end]),
    ensures
        run_end(s, start, class) == end,
    decreases end - start,
{
    if start < end {
        lemma_run_end_unique(s, start + 1, end, class);
    }
}

/// The characters of a string slice, in order.
pub fn chars_of(s: &str) -> (v: Vec<char>)
    ensures
        v@ == s@,
{
    let mut v: Vec<char> = Vec::new();
    for c in it: s.chars()
        invariant
            v@ == it.seq().take(it.index()),
    {
        v.push(c);
    }
    v
}

/// The string made of the characters `v[from..to]`.
pub fn text_of(v: &Vec<char>, from: usize, to: usize) -> (s: String)
    requires
        from <= to <= v.len(),
    ensures
        s@ == v@.subrange(from as int, to as int),
{
    let mut s = String::new();
    let mut i: usize = from;
    while i < to
        invariant
            from <= i <= to <= v.len(),
            s@ == v@.subrange(from as int, i as int),
        decreases to - i,
    {
        s.push(v[i]);
        i += 1;
    }
    s
}

/// Whether two string slices hold the same characters.
pub fn same_text(a: &str, b: &str) -> (r: bool)
    ensures
        r == (a@ == b@),
{
    let x = String::from_str(a);
    let y = String::from_str(b);
    x == y
}

/// The number that a sequence of decimal digits denotes; the empty sequence denotes zero.
pub open spec fn digits_value(t: Seq<char>) -> int
    decreases t.len(),
{
    if t.len() == 0 {
        0
    } else {
        digits_value(t.drop_last()) * 10 + digit_value(t.last())
    }
}

/// Whether every character of `t` is a decimal digit.
pub open spec fn all_digits(t: Seq<char>) -> bool {
    forall|i: int| 0 <= i < t.len() ==> is_digit(#[trigger] t[i])
}

/// The texts that denote a 32-bit integer literal: one digit at least, nothing but digits,
/// and a value of at most 2147483647.
pub open spec fn is_integer_text(t: Seq<char>) -> bool {
    t.len() > 0 && all_digits(t) && digits_value(t) <= i32::MAX
}

/// The value of a digit sequence is never negative and never shrinks as digits are added.
pub proof fn lemma_digits_value_grows(t: Seq<char>, n: int)
    requires
        all_digits(t),
        0 <= n <= t.len(),
    ensures
        0 <= digits_value(t.take(n)) <= digits_value(t),
    decreases t.len() - n,
{
    if n == t.len() {
        assert(t.take(n) =~= t);
        lemma_digits_value_nonnegative(t);
    } else {
        lemma_digits_value_grows(t, n + 1);
        let longer = t.take(n + 1);
        assert(longer.drop_last() =~= t.take(n));
        assert(is_digit(t[n]));
        assert(longer.last() == t[n]);
        lemma_digits_value_nonnegative(t.take(n));
    }
}

/// The value of a digit sequence is never negative.
pub proof fn lemma_digits_value_nonnegative(t: Seq<char>)
    requires
        all_digits(t),
    ensures
        0 <= digits_value(t),
    decreases t.len(),
{
    if t.len() > 0 {
        assert(is_digit(t[t.len() - 1]));
        lemma_digits_value_nonnegative(t.drop_last());
    }
}

/// Reads a decimal integer literal. `Some` comes back exactly for the texts that
/// `is_integer_text` admits, and then holds the value of the digits.
pub fn parse_integer(literal: &str) -> (r: Option<i32>)
    ensures
        r is Some <==> is_integer_text(literal@),
        r matches Some(v) ==> v as int == digits_value(literal@) && v >= 0,
{
    let text = chars_of(literal);
    if text.len() == 0 {
        return None;
    }
    let mut value: i64 = 0;
    let mut i: usize = 0;
    while i < text.len()
        invariant
            i <= text.len(),
            text@ == literal@,
            all_digits(text@.take(i as int)),
            value as int == digits_value(text@.take(i as int)),
            0 <= value <= i32::MAX,
        decreases text.len() - i,
    {
        let c: char = text[i];
        if !is_ascii_digit(c) {
            return None;
        }
        let d: u32 = digit_of(c);
        proof {
            let longer = text@.take(i + 1);
            assert(longer.drop_last() =~= text@.take(i as int));
            assert(longer.last() == c);
            assert forall|j: int| 0 <= j < longer.len() implies is_digit(#[trigger] longer[j]) by {
                if j < i {
                    assert(text@.take(i as int)[j] == longer[j]);
                }
            }
        }
        value = value * 10 + d as i64;
        if value > i32::MAX as i64 {
            proof {
                if all_digits(text@) {
                    lemma_digits_value_grows(text@, i + 1);
                }
            }
            return None;
        }
        i += 1;
    }
    proof {
        assert(text@.take(i as int) =~= text@);
    }
    Some(value as i32)
}

/// The reserved words of the language.
pub open spec fn is_keyword_text(t: Seq<char>) -> bool {
    t == "if"@ || t == "else"@ || t == "for"@ || t == "while"@ || t == "def"@ || t == "class"@
        || t == "and"@ || t == "or"@ || t == "is"@ || t == "not"@
}

/// Decides whether `word` is a reserved word.
pub fn is_keyword(word: &str) -> (r: bool)
    ensures
        r == is_keyword_text(word@),
{
    same_text(word, "if") || same_text(word, "else") || same_text(word, "for") || same_text(
        word,
        "while",
    ) || same_text(word, "def") || same_text(word, "class") || same_text(word, "and")
        || same_text(word, "or") || same_text(word, "is") || same_text(word, "not")
}

/// The decimal digits of a natural number, most significant first, without leading zeros.
pub open spec fn decimal_text(n: nat) -> Seq<char>
    decreases n,
{
    if n < 10 {
        seq![crate::chars::digit_char(n as int)]
    } else {
        decimal_text(n / 10).push(crate::chars::digit_char((n % 10) as int))
    }
}

/// The decimal notation of an integer: a minus sign before the digits of a negative one.
pub open spec fn signed_decimal_text(n: int) -> Seq<char> {
    if n < 0 {
        seq!['-'] + decimal_text((-n) as nat)
    } else {
        decimal_text(n as nat)
    }
}

/// Writes `n` in decimal.
pub fn decimal(n: u64) -> (r: String)
    ensures
        r@ == decimal_text(n as nat),
    decreases n,
{
    if n < 10 {
        let mut s = String::new();
        s.push(digit_to_char(n as u8));
        s
    } else {
        let mut s = decimal(n / 10);
        s.push(digit_to_char((n % 10) as u8));
        s
    }
}

/// Writes `n` in decimal, with a leading minus sign when it is negative.
pub fn signed_decimal(n: i32) -> (r: String)
    ensures
        r@ == signed_decimal_text(n as int),
{
    if n < 0 {
        let magnitude: u64 = (-(n as i64)) as u64;
        let digits = decimal(magnitude);
        let mut s = String::new();
        s.push('-');
        s.append(digits.as_str());
        s
    } else {
        decimal(n as u64)
    }
}

} // verus!
