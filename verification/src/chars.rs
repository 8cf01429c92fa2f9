//! Character classes of the source language.

use vstd::prelude::*;

verus! {

/// Whether `c` has the Unicode `Alphabetic` property, as `char::is_alphabetic` reports it.
pub uninterp spec fn alphabetic(c: char) -> bool;

/// Whether `c` is in one of the Unicode number categories, as `char::is_numeric` reports it.
pub uninterp spec fn numeric(c: char) -> bool;

/// `char::is_alphabetic` decides the Unicode `Alphabetic` property; the tables behind it are
/// not restated here, its answer is only given a name.
pub assume_specification[ char::is_alphabetic ](c: char) -> (r: bool)
    ensures
        r == alphabetic(c),
;

/// `char::is_alphanumeric` is documented to hold exactly of the characters that satisfy
/// `is_alphabetic` or `is_numeric`.
pub assume_specification[ char::is_alphanumeric ](c: char) -> (r: bool)
    ensures
        r == (alphabetic(c) || numeric(c)),
;

/// The ten ASCII decimal digits.
pub open spec fn is_digit(c: char) -> bool {
    '0' <= c && c <= '9'
}

/// Space, horizontal tab, line feed, form feed and carriage return.
pub open spec fn is_whitespace(c: char) -> bool {
    c == ' ' || c == '\t' || c == '\n' || c == '\u{000C}' || c == '\r'
}

/// Letters and numbers of any script.
pub open spec fn alphanumeric(c: char) -> bool {
    alphabetic(c) || numeric(c)
}

/// The two characters that turn a number into a floating-point literal.
pub open spec fn is_float_marker(c: char) -> bool {
    c == '.' || c == 'e'
}

/// Decides whether `c` turns a number into a floating-point literal.
pub fn is_marker(c: char) -> (r: bool)
    ensures
        r == is_float_marker(c),
{
    c == '.' || c == 'e'
}

/// The sets of characters of which the scanner reads maximal runs.
#[derive(Clone, Copy, Debug, PartialEq, Eq, Structural)]
pub enum CharClass {
    /// ASCII decimal digits.
    Digit,
    /// The space character alone.
    Space,
    /// What may follow the first letter of an identifier: letters, numbers and `_`.
    IdentifierPart,
    /// What an operator is made of: anything but whitespace, letters, numbers and `"`.
    OperatorPart,
    /// What a comment swallows: anything but a line feed.
    CommentBody,
}

impl CharClass {
    /// Membership of `c` in the class, for a character of which it is known whether it is a
    /// letter or number.
    pub open spec fn admits_given(self, c: char, letter_or_number: bool) -> bool {
        match self {
            CharClass::Digit => is_digit(c),
            CharClass::Space => c == ' ',
            CharClass::IdentifierPart => letter_or_number || c == '_',
            CharClass::OperatorPart => !is_whitespace(c) && !letter_or_number && c != '"',
            CharClass::CommentBody => c != '\n',
        }
    }

    /// Membership of `c` in the class.
    pub open spec fn admits(self, c: char) -> bool {
        self.admits_given(c, alphanumeric(c))
    }

    /// Decides membership of `c` in the class, given whether `c` is a letter or number.
    pub fn accepts(&self, c: char, letter_or_number: bool) -> (r: bool)
        ensures
            r == self.admits_given(c, letter_or_number),
    {
        match self {
            CharClass::Digit => is_ascii_digit(c),
            CharClass::Space => c == ' ',
            CharClass::IdentifierPart => letter_or_number || c == '_',
            CharClass::OperatorPart => !is_ascii_whitespace(c) && !letter_or_number && c != '"',
            CharClass::CommentBody => c != '\n',
        }
    }

    /// Decides membership of `c` in the class.
    pub fn contains(&self, c: char) -> (r: bool)
        ensures
            r == self.admits(c),
    {
        self.accepts(c, c.is_alphanumeric())
    }
}

/// What the character at the cursor announces.
#[derive(Clone, Copy, Debug, PartialEq, Eq, Structural)]
pub enum Lead {
    /// A space, which is skipped.
    Space,
    /// A line feed, behind which the indentation of the next line is measured.
    LineFeed,
    /// A digit or `-`: a number.
    Number,
    /// A letter: a keyword or an identifier.
    Word,
    /// `#`: a comment.
    Comment,
    /// `"`: a string literal.
    Quote,
    /// Anything else: an operator.
    Operator,
}

/// What `c` announces, given whether it is a letter. The earlier rule wins: a digit is a
/// number whatever else it may be.
pub open spec fn lead_given(c: char, letter: bool) -> Lead {
    if c == ' ' {
        Lead::Space
    } else if c == '\n' {
        Lead::LineFeed
    } else if is_digit(c) || c == '-' {
        Lead::Number
    } else if letter {
        Lead::Word
    } else if c == '#' {
        Lead::Comment
    } else if c == '"' {
        Lead::Quote
    } else {
        Lead::Operator
    }
}

/// What `c` announces.
pub open spec fn lead(c: char) -> Lead {
    lead_given(c, alphabetic(c))
}

/// Decides what `c` announces, given whether it is a letter.
pub fn lead_of(c: char, letter: bool) -> (r: Lead)
    ensures
        r == lead_given(c, letter),
{
    if c == ' ' {
        Lead::Space
    } else if c == '\n' {
        Lead::LineFeed
    } else if is_ascii_digit(c) || c == '-' {
        Lead::Number
    } else if letter {
        Lead::Word
    } else if c == '#' {
        Lead::Comment
    } else if c == '"' {
        Lead::Quote
    } else {
        Lead::Operator
    }
}

/// Decides what `c` announces.
pub fn classify(c: char) -> (r: Lead)
    ensures
        r == lead(c),
{
    lead_of(c, c.is_alphabetic())
}

/// Decides whether `c` is an ASCII decimal digit.
pub fn is_ascii_digit(c: char) -> (r: bool)
    ensures
        r == is_digit(c),
{
    '0' <= c && c <= '9'
}

/// Decides whether `c` is ASCII whitespace.
pub fn is_ascii_whitespace(c: char) -> (r: bool)
    ensures
        r == is_whitespace(c),
{
    c == ' ' || c == '\t' || c == '\n' || c == '\u{000C}' || c == '\r'
}

/// The numeric value of a decimal digit.
pub open spec fn digit_value(c: char) -> int {
    c as u32 as int - '0' as u32 as int
}

/// Computes the numeric value of the decimal digit `c`.
pub fn digit_of(c: char) -> (d: u32)
    requires
        is_digit(c),
    ensures
        d as int == digit_value(c),
        d <= 9,
{
    c as u32 - '0' as u32
}

/// The decimal digit that stands for `d`.
pub open spec fn digit_char(d: int) -> char {
    if d == 0 {
        '0'
    } else if d == 1 {
        '1'
    } else if d == 2 {
        '2'
    } else if d == 3 {
        '3'
    } else if d == 4 {
        '4'
    } else if d == 5 {
        '5'
    } else if d == 6 {
        '6'
    } else if d == 7 {
        '7'
    } else if d == 8 {
        '8'
    } else {
        '9'
    }
}

/// Computes the decimal digit that stands for `d`.
pub fn digit_to_char(d: u8) -> (c: char)
    requires
        d <= 9,
    ensures
        c == digit_char(d as int),
        is_digit(c),
        digit_value(c) == d,
{
    match d {
        0 => '0',
        1 => '1',
        2 => '2',
        3 => '3',
        4 => '4',
        5 => '5',
        6 => '6',
        7 => '7',
        8 => '8',
        _ => '9',
    }
}

/// The character that an escape sequence stands for, given the character after the backslash:
/// `n` is a line feed, `t` a tab, and every other character stands for itself.
pub open spec fn unescaped(c: char) -> char {
    if c == 'n' {
        '\n'
    } else if c == 't' {
        '\t'
    } else {
        c
    }
}

/// Resolves the character after a backslash in a string literal.
pub fn unescape(c: char) -> (r: char)
    ensures
        r == unescaped(c),
{
    match c {
        'n' => '\n',
        't' => '\t',
        _ => c,
    }
}

} // verus!
