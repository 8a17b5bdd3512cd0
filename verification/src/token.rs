//! Tokens, their payloads and the payload rule.

use vstd::prelude::*;
use vstd::string::*;
use crate::scanning_error::ScanningError;
use crate::token_type::{LiteralTokenType, TokenType};

verus! {

/// Whether `c` is an ASCII decimal digit.
pub open spec fn is_digit(c: char) -> bool {
    '0' <= c <= '9'
}

/// Whether every character of `text` is an ASCII decimal digit.
pub open spec fn all_digits(text: Seq<char>) -> bool {
    forall|i: int| 0 <= i < text.len() ==> is_digit(#[trigger] text[i])
}

/// An unsigned decimal number, held exactly: the digits before the decimal
/// point and the digits after it.
#[derive(Debug, PartialEq, Eq, Clone)]
pub struct Decimal {
    pub whole: String,
    pub fraction: String,
}

/// The payload of a string or number token.
#[derive(Debug, PartialEq, Eq, Clone)]
pub enum Literal {
    Number(Decimal),
    String(String),
}

/// Mathematical value of a [`Literal`].
pub enum LiteralView {
    Number { whole: Seq<char>, fraction: Seq<char> },
    Text(Seq<char>),
}

impl LiteralView {
    /// A number has at least one digit before the point and only digits on
    /// both sides of it; any text is a text.
    pub open spec fn wf(self) -> bool {
        match self {
            LiteralView::Number { whole, fraction } => whole.len() > 0 && all_digits(whole)
                && all_digits(fraction),
            LiteralView::Text(_) => true,
        }
    }

    /// The text a payload is displayed as: a number in decimal notation, with
    /// a point only where it has fraction digits, a text as it is.
    pub open spec fn display_text(self) -> Seq<char> {
        match self {
            LiteralView::Number { whole, fraction } => if fraction.len() == 0 {
                whole
            } else {
                whole + seq!['.'] + fraction
            },
            LiteralView::Text(text) => text,
        }
    }
}

impl View for Literal {
    type V = LiteralView;

    open spec fn view(&self) -> LiteralView {
        match *self {
            Literal::Number(number) => LiteralView::Number {
                whole: number.whole@,
                fraction: number.fraction@,
            },
            Literal::String(text) => LiteralView::Text(text@),
        }
    }
}

/// The value of a payload that may be absent.
pub open spec fn payload_view(literal: Option<Literal>) -> Option<LiteralView> {
    match literal {
        Some(literal) => Some(literal@),
        None => None,
    }
}

/// A classified, positioned lexeme.
#[derive(Debug, PartialEq, Eq, Clone)]
pub struct Token {
    pub token_type: TokenType,
    pub lexeme: String,
    pub literal: Option<Literal>,
    pub line: u32,
}

/// Mathematical value of a [`Token`].
pub struct TokenView {
    pub kind: TokenType,
    pub lexeme: Seq<char>,
    pub literal: Option<LiteralView>,
    pub line: nat,
}

/// The payload rule: a payload is present exactly on string and number kinds.
pub open spec fn payload_rule(kind: TokenType, has_payload: bool) -> bool {
    kind.carries_payload() <==> has_payload
}

impl TokenView {
    /// The payload rule holds and the line is a line number.
    pub open spec fn wf(self) -> bool {
        payload_rule(self.kind, self.literal is Some) && self.line >= 1
    }

    /// A string token carries a text, a number token a well-formed number.
    pub open spec fn payload_fits_kind(self) -> bool {
        match self.literal {
            Some(LiteralView::Text(_)) => self.kind == TokenType::String,
            Some(LiteralView::Number { whole, fraction }) => self.kind == TokenType::Number
                && self.literal->0.wf(),
            None => true,
        }
    }

    /// The text a token is displayed as: kind, lexeme and, where there is
    /// one, payload, separated by single spaces.
    pub open spec fn display_text(self) -> Seq<char> {
        let head = self.kind.name_text() + seq![' '] + self.lexeme;
        match self.literal {
            Some(literal) => head + seq![' '] + literal.display_text(),
            None => head,
        }
    }
}

impl View for Token {
    type V = TokenView;

    open spec fn view(&self) -> TokenView {
        TokenView {
            kind: self.token_type,
            lexeme: self.lexeme@,
            literal: payload_view(self.literal),
            line: self.line as nat,
        }
    }
}

/// The values of a sequence of tokens, in order.
pub open spec fn token_views(tokens: Seq<Token>) -> Seq<TokenView> {
    Seq::new(tokens.len(), |i: int| tokens[i]@)
}

impl Literal {
    /// The display text of the payload.
    pub fn render(&self) -> (text: String)
        ensures
            text@ == self@.display_text(),
    {
        proof {
            reveal_strlit(".");
        }
        match self {
            Literal::Number(number) => {
                let mut text = number.whole.clone();
                if !number.fraction.as_str().is_empty() {
                    text.append(".");
                    text.append(number.fraction.as_str());
                }
                assert(seq!['.'] =~= "."@);
                text
            },
            Literal::String(body) => body.clone(),
        }
    }
}

impl Token {
    /// Builds a token, or fails where the payload rule is broken: a string or
    /// number kind without a payload, or any other kind with one.
    pub fn new(token_type: TokenType, lexeme: String, literal: Option<Literal>, line: u32) -> (made:
        Result<Token, ScanningError>)
        ensures
            made is Ok <==> payload_rule(token_type, literal is Some),
            match made {
                Ok(token) => token.token_type == token_type && token.lexeme == lexeme
                    && token.literal == literal && token.line == line && (token@.literal is Some
                    <==> token_type == TokenType::String || token_type == TokenType::Number) && (
                line >= 1 ==> token@.wf()),
                Err(error) => error == (ScanningError::LiteralInvariantViolation {
                    kind: token_type,
                }),
            },
    {
        match token_type.is_literal() {
            LiteralTokenType::Literal => {
                if token_type.has_payload() == literal.is_some() {
                    Ok(Token { token_type, lexeme, literal, line })
                } else {
                    Err(ScanningError::LiteralInvariantViolation { kind: token_type })
                }
            },
            LiteralTokenType::Keyword => {
                match literal {
                    Some(_) => Err(ScanningError::LiteralInvariantViolation { kind: token_type }),
                    None => Ok(Token { token_type, lexeme, literal, line }),
                }
            },
        }
    }

    /// The display text of the token.
    pub fn render(&self) -> (text: String)
        ensures
            text@ == self@.display_text(),
    {
        proof {
            reveal_strlit(" ");
        }
        assert(seq![' '] =~= " "@);
        let mut text = String::from_str(self.token_type.name());
        text.append(" ");
        text.append(self.lexeme.as_str());
        match &self.literal {
            Some(literal) => {
                let payload = literal.render();
                text.append(" ");
                text.append(payload.as_str());
            },
            None => {},
        }
        text
    }
}

} // verus!
