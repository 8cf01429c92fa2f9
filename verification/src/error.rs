//! The conditions that abort a scan.

use vstd::prelude::*;

verus! {

/// Why a scan was abandoned. No token sequence accompanies any of these.
#[derive(Clone, Copy, Debug, PartialEq, Eq, Structural)]
pub enum FatalError {
    /// A numeric literal without digits, with a misplaced `.` or `e`, or whose digits do not
    /// fit a 32-bit signed integer.
    MalformedNumber,
    /// A string literal that meets a line feed or the end of the input before its closing quote.
    UnterminatedString,
    /// A dedent was asked of an indentation tracker that has no enclosing level left.
    IndentationUnderflow,
    /// A character that starts no lexeme: whitespace other than space and line feed, or a
    /// number sign of another script.
    UnexpectedCharacter,
}

impl FatalError {
    /// The text shown for each condition.
    pub open spec fn message_text(self) -> Seq<char> {
        match self {
            FatalError::MalformedNumber => "Invalid number"@,
            FatalError::UnterminatedString => "Unterminated string literal"@,
            FatalError::IndentationUnderflow => "Dedent below the outermost indentation level"@,
            FatalError::UnexpectedCharacter => "Unexpected character"@,
        }
    }

    /// Renders the condition for a reader.
    pub fn message(&self) -> (r: String)
        ensures
            r@ == self.message_text(),
    {
        match self {
            FatalError::MalformedNumber => String::from_str("Invalid number"),
            FatalError::UnterminatedString => String::from_str("Unterminated string literal"),
            FatalError::IndentationUnderflow => String::from_str(
                "Dedent below the outermost indentation level",
            ),
            FatalError::UnexpectedCharacter => String::from_str("Unexpected character"),
        }
    }
}

} // verus!
