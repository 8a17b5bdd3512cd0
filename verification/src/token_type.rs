//! Token kinds, their families and their display texts.

use vstd::prelude::*;

verus! {

/// The closed set of token kinds.
#[derive(Debug, PartialEq, Eq, Structural, Clone, Copy)]
pub enum TokenType {
    // Single-character tokens
    LeftParen,
    RightParen,
    LeftBrace,
    RightBrace,
    Comma,
    Dot,
    Minus,
    Plus,
    SemiColon,
    Slash,
    Star,
    Question,
    Colon,
    // One or two character tokens
    Bang,
    BangEqual,
    Equal,
    EqualEqual,
    Greater,
    GreaterEqual,
    Less,
    LessEqual,
    // Literals
    Identifier,
    String,
    Number,
    // Keywords
    And,
    Break,
    Class,
    Continue,
    Else,
    False,
    Fun,
    For,
    If,
    Nil,
    Or,
    Print,
    Return,
    Super,
    This,
    True,
    Var,
    While,
    // End marker
    Eof,
}

/// The family a token kind belongs to.
#[derive(Debug, PartialEq, Eq, Structural, Clone, Copy)]
pub enum LiteralTokenType {
    Literal,
    Keyword,
}

impl TokenType {
    /// The family of a kind: identifiers, strings and numbers are the literal
    /// family, every other kind is of the keyword family.
    pub open spec fn family(self) -> LiteralTokenType {
        match self {
            TokenType::Identifier | TokenType::String | TokenType::Number => LiteralTokenType::Literal,
            _ => LiteralTokenType::Keyword,
        }
    }

    /// Whether a token of this kind carries a payload: strings and numbers do,
    /// identifiers (whose lexeme is their name) and all other kinds do not.
    pub open spec fn carries_payload(self) -> bool {
        self == TokenType::String || self == TokenType::Number
    }

    /// The text a kind is displayed as: for most kinds its lexeme in single
    /// quotes. The texts of `RightParen` and `Slash` are irregular; they are
    /// part of the display format as it stands.
    pub open spec fn name_text(self) -> Seq<char> {
        match self {
            TokenType::LeftParen => "'('"@,
            TokenType::RightParen => "'),'"@,
            TokenType::LeftBrace => "'{'"@,
            TokenType::RightBrace => "'}'"@,
            TokenType::Comma => "','"@,
            TokenType::Dot => "'.'"@,
            TokenType::Minus => "'-'"@,
            TokenType::Plus => "'+'"@,
            TokenType::SemiColon => "';'"@,
            TokenType::Slash => "''"@,
            TokenType::Star => "'*'"@,
            TokenType::Question => "'?'"@,
            TokenType::Colon => "':'"@,
            TokenType::Bang => "'!'"@,
            TokenType::BangEqual => "'!='"@,
            TokenType::Equal => "'='"@,
            TokenType::EqualEqual => "'=='"@,
            TokenType::Greater => "'>'"@,
            TokenType::GreaterEqual => "'>='"@,
            TokenType::Less => "'<'"@,
            TokenType::LessEqual => "'<='"@,
            TokenType::Identifier => "'id'"@,
            TokenType::String => "'\"literal\"'"@,
            TokenType::Number => "'0..9'"@,
            TokenType::And => "'and'"@,
            TokenType::Break => "'break'"@,
            TokenType::Class => "'class'"@,
            TokenType::Continue => "'continue'"@,
            TokenType::Else => "'else'"@,
            TokenType::False => "'false'"@,
            TokenType::Fun => "'fun'"@,
            TokenType::For => "'for'"@,
            TokenType::If => "'if'"@,
            TokenType::Nil => "'nil'"@,
            TokenType::Or => "'or'"@,
            TokenType::Print => "'print'"@,
            TokenType::Return => "'return'"@,
            TokenType::Super => "'super'"@,
            TokenType::This => "'this'"@,
            TokenType::True => "'true'"@,
            TokenType::Var => "'var'"@,
            TokenType::While => "'while'"@,
            TokenType::Eof => "'eof'"@,
        }
    }

    pub fn is_literal(&self) -> (family: LiteralTokenType)
        ensures
            family == self.family(),
    {
        match self {
            TokenType::Identifier => LiteralTokenType::Literal,
            TokenType::String => LiteralTokenType::Literal,
            TokenType::Number => LiteralTokenType::Literal,
            _ => LiteralTokenType::Keyword,
        }
    }

    /// Whether a token of this kind must carry a payload.
    pub fn has_payload(&self) -> (b: bool)
        ensures
            b == self.carries_payload(),
    {
        match self.is_literal() {
            LiteralTokenType::Literal => match self {
                TokenType::Identifier => false,
                _ => true,
            },
            LiteralTokenType::Keyword => false,
        }
    }

    /// The display text of the kind.
    pub fn name(&self) -> (text: &'static str)
        ensures
            text@ == self.name_text(),
    {
        match self {
            TokenType::LeftParen => "'('",
            TokenType::RightParen => "'),'",
            TokenType::LeftBrace => "'{'",
            TokenType::RightBrace => "'}'",
            TokenType::Comma => "','",
            TokenType::Dot => "'.'",
            TokenType::Minus => "'-'",
            TokenType::Plus => "'+'",
            TokenType::SemiColon => "';'",
            TokenType::Slash => "''",
            TokenType::Star => "'*'",
            TokenType::Question => "'?'",
            TokenType::Colon => "':'",
            TokenType::Bang => "'!'",
            TokenType::BangEqual => "'!='",
            TokenType::Equal => "'='",
            TokenType::EqualEqual => "'=='",
            TokenType::Greater => "'>'",
            TokenType::GreaterEqual => "'>='",
            TokenType::Less => "'<'",
            TokenType::LessEqual => "'<='",
            TokenType::Identifier => "'id'",
            TokenType::String => "'\"literal\"'",
            TokenType::Number => "'0..9'",
            TokenType::And => "'and'",
            TokenType::Break => "'break'",
            TokenType::Class => "'class'",
            TokenType::Continue => "'continue'",
            TokenType::Else => "'else'",
            TokenType::False => "'false'",
            TokenType::Fun => "'fun'",
            TokenType::For => "'for'",
            TokenType::If => "'if'",
            TokenType::Nil => "'nil'",
            TokenType::Or => "'or'",
            TokenType::Print => "'print'",
            TokenType::Return => "'return'",
            TokenType::Super => "'super'",
            TokenType::This => "'this'",
            TokenType::True => "'true'",
            TokenType::Var => "'var'",
            TokenType::While => "'while'",
            TokenType::Eof => "'eof'",
        }
    }
}

/// Payload-bearing kinds are all of the literal family.
pub proof fn lemma_payload_kinds_are_literals(kind: TokenType)
    ensures
        kind.carries_payload() ==> kind.family() == LiteralTokenType::Literal,
        kind.family() == LiteralTokenType::Keyword ==> !kind.carries_payload(),
{
}

} // verus!
