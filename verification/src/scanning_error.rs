//! Scan errors, their values and their messages.

use vstd::prelude::*;
use vstd::string::*;
use crate::token_type::TokenType;

verus! {

/// A failure found while scanning or while building a token.
#[derive(Debug, PartialEq, Eq, Clone)]
pub enum ScanningError {
    /// The input ended inside a string literal.
    UnterminatedString { line: u32 },
    /// A character that begins no lexeme.
    UnexpectedCharacter { character: char, line: u32 },
    /// A number lexeme that denotes no number.
    InvalidNumberLiteral { lexeme: String, line: u32 },
    /// A token was built with a payload its kind does not take, or without
    /// one its kind requires.
    LiteralInvariantViolation { kind: TokenType },
}

/// Mathematical value of a [`ScanningError`].
pub enum ErrorView {
    UnterminatedString { line: nat },
    UnexpectedCharacter { character: char, line: nat },
    InvalidNumberLiteral { lexeme: Seq<char>, line: nat },
    LiteralInvariantViolation { kind: TokenType },
}

/// The character of the decimal digit `d`, for `d < 10`.
pub open spec fn digit_char(d: nat) -> char {
    ('0' as nat + d) as char
}

/// The decimal notation of `n`, without leading zeros.
pub open spec fn decimal_text(n: nat) -> Seq<char>
    decreases n,
{
    if n < 10 {
        seq![digit_char(n)]
    } else {
        decimal_text(n / 10).push(digit_char(n % 10))
    }
}

impl ErrorView {
    /// The text an error is reported as.
    pub open spec fn message_text(self) -> Seq<char> {
        match self {
            ErrorView::UnterminatedString { line } => "unterminated string on line "@
                + decimal_text(line) + "."@,
            ErrorView::UnexpectedCharacter { character, line } => "unexpected character "@.push(
                character,
            ) + " on line "@ + decimal_text(line) + "."@,
            ErrorView::InvalidNumberLiteral { lexeme, line } => "invalid number literal "@ + lexeme
                + " on line "@ + decimal_text(line) + "."@,
            ErrorView::LiteralInvariantViolation { kind } => if kind.carries_payload() {
                "literal not found for tokentype "@ + kind.name_text() + "."@
            } else {
                "literal found for tokentype "@ + kind.name_text() + "."@
            },
        }
    }

    /// Whether the error reports a defect of the scanned text, as opposed to
    /// a misuse of the token constructor.
    pub open spec fn is_source_error(self) -> bool {
        !(self is LiteralInvariantViolation)
    }

    /// The line the error was found on, where it has one.
    pub open spec fn line(self) -> Option<nat> {
        match self {
            ErrorView::UnterminatedString { line } => Some(line),
            ErrorView::UnexpectedCharacter { line, .. } => Some(line),
            ErrorView::InvalidNumberLiteral { line, .. } => Some(line),
            ErrorView::LiteralInvariantViolation { .. } => None,
        }
    }
}

impl View for ScanningError {
    type V = ErrorView;

    open spec fn view(&self) -> ErrorView {
        match *self {
            ScanningError::UnterminatedString { line } => ErrorView::UnterminatedString {
                line: line as nat,
            },
            ScanningError::UnexpectedCharacter { character, line } => ErrorView::UnexpectedCharacter {
                character,
                line: line as nat,
            },
            ScanningError::InvalidNumberLiteral { lexeme, line } => ErrorView::InvalidNumberLiteral {
                lexeme: lexeme@,
                line: line as nat,
            },
            ScanningError::LiteralInvariantViolation { kind } => ErrorView::LiteralInvariantViolation {
                kind,
            },
        }
    }
}

/// The values of a sequence of errors, in order.
pub open spec fn error_views(errors: Seq<ScanningError>) -> Seq<ErrorView> {
    Seq::new(errors.len(), |i: int| errors[i]@)
}

/// Appends the decimal notation of `n` to `text`.
pub fn push_decimal(text: &mut String, n: u32)
    ensures
        final(text)@ == old(text)@ + decimal_text(n as nat),
    decreases n,
{
    if n >= 10 {
        push_decimal(text, n / 10);
    }
    let digit: char = match n % 10 {
        0 => '0',
        1 => '1',
        2 => '2',
        3 => '3',
        4 => '4',
        5 => '5',
        6 => '6',
        7 => '7',
        8 => '8',
        _ => '9',
    };
    assert(digit == digit_char((n % 10) as nat));
    text.push(digit);
    assert(final(text)@ =~= old(text)@ + decimal_text(n as nat));
}

impl ScanningError {
    /// The text the error is reported as.
    pub fn message(&self) -> (text: String)
        ensures
            text@ == self@.message_text(),
    {
        match self {
            ScanningError::UnterminatedString { line } => {
                let mut text = String::from_str("unterminated string on line ");
                push_decimal(&mut text, *line);
                text.append(".");
                text
            },
            ScanningError::UnexpectedCharacter { character, line } => {
                let mut text = String::from_str("unexpected character ");
                text.push(*character);
                text.append(" on line ");
                push_decimal(&mut text, *line);
                text.append(".");
                text
            },
            ScanningError::InvalidNumberLiteral { lexeme, line } => {
                let mut text = String::from_str("invalid number literal ");
                text.append(lexeme.as_str());
                text.append(" on line ");
                push_decimal(&mut text, *line);
                text.append(".");
                text
            },
            ScanningError::LiteralInvariantViolation { kind } => {
                let mut text = if kind.has_payload() {
                    String::from_str("literal not found for tokentype ")
                } else {
                    String::from_str("literal found for tokentype ")
                };
                text.append(kind.name());
                text.append(".");
                text
            },
        }
    }

    /// The line the error was found on, where it has one.
    pub fn line(&self) -> (line: Option<u32>)
        ensures
            match line {
                Some(n) => self@.line() == Some(n as nat),
                None => self@.line() is None,
            },
    {
        match self {
            ScanningError::UnterminatedString { line } => Some(*line),
            ScanningError::UnexpectedCharacter { line, .. } => Some(*line),
            ScanningError::InvalidNumberLiteral { line, .. } => Some(*line),
            ScanningError::LiteralInvariantViolation { .. } => None,
        }
    }
}

} // verus!
