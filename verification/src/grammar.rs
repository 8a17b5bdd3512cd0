//! The lexical grammar as mathematics: where each lexeme ends, what it is,
//! and the token and error sequences of a whole text.

use vstd::prelude::*;
use crate::token::{is_digit, LiteralView, TokenView};
use crate::scanning_error::ErrorView;
use crate::token_type::TokenType;

verus! {

/// Whether `c` may begin an identifier: an ASCII letter or the underscore.
pub open spec fn is_alpha(c: char) -> bool {
    ('a' <= c <= 'z') || ('A' <= c <= 'Z') || c == '_'
}

/// Whether `c` may continue an identifier.
pub open spec fn is_word_char(c: char) -> bool {
    is_alpha(c) || is_digit(c)
}

/// Whether `c` separates lexemes without changing the line.
pub open spec fn is_blank(c: char) -> bool {
    c == ' ' || c == '\t' || c == '\r'
}

/// The sets of characters that the scanner consumes in runs.
#[derive(Debug, PartialEq, Eq, Structural, Clone, Copy)]
pub enum CharClass {
    /// ASCII decimal digits.
    Digit,
    /// Characters of identifiers and keywords.
    Word,
    /// Everything up to the end of the line.
    CommentBody,
    /// Everything up to the next double quote.
    StringBody,
}

impl CharClass {
    pub open spec fn holds(self, c: char) -> bool {
        match self {
            CharClass::Digit => is_digit(c),
            CharClass::Word => is_word_char(c),
            CharClass::CommentBody => c != '\n',
            CharClass::StringBody => c != '"',
        }
    }
}

/// Where the longest run of characters of `class` that begins at `pos` ends.
pub open spec fn run_end(s: Seq<char>, pos: int, class: CharClass) -> int
    decreases s.len() - pos,
{
    if 0 <= pos < s.len() && class.holds(s[pos]) {
        run_end(s, pos + 1, class)
    } else {
        pos
    }
}

/// The line number at position `pos`: one more than the number of newlines
/// before it.
pub open spec fn line_at(s: Seq<char>, pos: int) -> nat
    decreases pos,
{
    if pos <= 0 || pos > s.len() {
        1
    } else if s[pos - 1] == '\n' {
        line_at(s, pos - 1) + 1
    } else {
        line_at(s, pos - 1)
    }
}

/// The line number at the end of the text.
pub open spec fn last_line(s: Seq<char>) -> nat {
    line_at(s, s.len() as int)
}

/// Whether the character at position `i` exists and is `c`.
pub open spec fn char_is(s: Seq<char>, i: int, c: char) -> bool {
    0 <= i < s.len() && s[i] == c
}

/// The kind of a punctuation character that is a token by itself.
pub open spec fn single_kind(c: char) -> Option<TokenType> {
    if c == '(' {
        Some(TokenType::LeftParen)
    } else if c == ')' {
        Some(TokenType::RightParen)
    } else if c == '{' {
        Some(TokenType::LeftBrace)
    } else if c == '}' {
        Some(TokenType::RightBrace)
    } else if c == ',' {
        Some(TokenType::Comma)
    } else if c == '.' {
        Some(TokenType::Dot)
    } else if c == '-' {
        Some(TokenType::Minus)
    } else if c == '+' {
        Some(TokenType::Plus)
    } else if c == ';' {
        Some(TokenType::SemiColon)
    } else if c == '*' {
        Some(TokenType::Star)
    } else if c == '?' {
        Some(TokenType::Question)
    } else if c == ':' {
        Some(TokenType::Colon)
    } else {
        None
    }
}

/// For a character that is an operator alone and another one when an equals
/// sign follows it: the two kinds, the shorter first.
pub open spec fn operator_kinds(c: char) -> Option<(TokenType, TokenType)> {
    if c == '!' {
        Some((TokenType::Bang, TokenType::BangEqual))
    } else if c == '=' {
        Some((TokenType::Equal, TokenType::EqualEqual))
    } else if c == '<' {
        Some((TokenType::Less, TokenType::LessEqual))
    } else if c == '>' {
        Some((TokenType::Greater, TokenType::GreaterEqual))
    } else {
        None
    }
}

/// The keyword table: the kind of `word` if it is a keyword. Case matters.
pub open spec fn keyword_kind(word: Seq<char>) -> Option<TokenType> {
    if word == "and"@ {
        Some(TokenType::And)
    } else     if word == "break"@ {
        Some(TokenType::Break)
    } else     if word == "class"@ {
        Some(TokenType::Class)
    } else     if word == "continue"@ {
        Some(TokenType::Continue)
    } else     if word == "else"@ {
        Some(TokenType::Else)
    } else     if word == "false"@ {
        Some(TokenType::False)
    } else     if word == "fun"@ {
        Some(TokenType::Fun)
    } else     if word == "for"@ {
        Some(TokenType::For)
    } else     if word == "if"@ {
        Some(TokenType::If)
    } else     if word == "nil"@ {
        Some(TokenType::Nil)
    } else     if word == "or"@ {
        Some(TokenType::Or)
    } else     if word == "print"@ {
        Some(TokenType::Print)
    } else     if word == "return"@ {
        Some(TokenType::Return)
    } else     if word == "super"@ {
        Some(TokenType::Super)
    } else     if word == "this"@ {
        Some(TokenType::This)
    } else     if word == "true"@ {
        Some(TokenType::True)
    } else     if word == "var"@ {
        Some(TokenType::Var)
    } else     if word == "while"@ {
        Some(TokenType::While)
    } else {
        None
    }
}

/// What the text that begins at some position is.
pub enum Lexeme {
    /// A token of the given kind and payload.
    Token { kind: TokenType, literal: Option<LiteralView> },
    /// A string literal that the end of the text cuts short.
    Unterminated,
    /// A character that begins no lexeme.
    Unexpected { character: char },
    /// Whitespace, a newline or a comment.
    Blank,
}

/// One step of the scan: what begins at a position and where it ends.
pub struct Step {
    pub end: int,
    pub lexeme: Lexeme,
}

/// The step for a token without payload.
pub open spec fn plain(end: int, kind: TokenType) -> Step {
    Step { end, lexeme: Lexeme::Token { kind, literal: None } }
}

/// The string literal whose opening quote is at `pos`: it runs through the
/// next double quote, and its payload is the text between the two.
pub open spec fn string_step(s: Seq<char>, pos: int) -> Step {
    let close = run_end(s, pos + 1, CharClass::StringBody);
    if close >= s.len() {
        Step { end: s.len() as int, lexeme: Lexeme::Unterminated }
    } else {
        Step {
            end: close + 1,
            lexeme: Lexeme::Token {
                kind: TokenType::String,
                literal: Some(LiteralView::Text(s.subrange(pos + 1, close))),
            },
        }
    }
}

/// The number literal that begins at `pos`: the longest run of digits and,
/// only where a point and a digit follow it, the point and the longest run of
/// digits behind it.
pub open spec fn number_step(s: Seq<char>, pos: int) -> Step {
    let whole_end = run_end(s, pos, CharClass::Digit);
    if char_is(s, whole_end, '.') && whole_end + 1 < s.len() && is_digit(s[whole_end + 1]) {
        let end = run_end(s, whole_end + 1, CharClass::Digit);
        Step {
            end,
            lexeme: Lexeme::Token {
                kind: TokenType::Number,
                literal: Some(
                    LiteralView::Number {
                        whole: s.subrange(pos, whole_end),
                        fraction: s.subrange(whole_end + 1, end),
                    },
                ),
            },
        }
    } else {
        Step {
            end: whole_end,
            lexeme: Lexeme::Token {
                kind: TokenType::Number,
                literal: Some(
                    LiteralView::Number { whole: s.subrange(pos, whole_end), fraction: Seq::empty() },
                ),
            },
        }
    }
}

/// The identifier or keyword that begins at `pos`: the longest run of word
/// characters, a keyword where the table holds it.
pub open spec fn word_step(s: Seq<char>, pos: int) -> Step {
    let end = run_end(s, pos, CharClass::Word);
    match keyword_kind(s.subrange(pos, end)) {
        Some(kind) => plain(end, kind),
        None => plain(end, TokenType::Identifier),
    }
}

/// The step at position `pos` of `s`, for `0 <= pos < s.len()`. Operators
/// take the longer of their two forms where both fit.
pub open spec fn step_at(s: Seq<char>, pos: int) -> Step {
    let c = s[pos];
    if single_kind(c) is Some {
        plain(pos + 1, single_kind(c)->0)
    } else if let Some((short, long)) = operator_kinds(c) {
        if char_is(s, pos + 1, '=') {
            plain(pos + 2, long)
        } else {
            plain(pos + 1, short)
        }
    } else if c == '/' {
        if char_is(s, pos + 1, '/') {
            Step { end: run_end(s, pos + 2, CharClass::CommentBody), lexeme: Lexeme::Blank }
        } else {
            plain(pos + 1, TokenType::Slash)
        }
    } else if is_blank(c) || c == '\n' {
        Step { end: pos + 1, lexeme: Lexeme::Blank }
    } else if c == '"' {
        string_step(s, pos)
    } else if is_digit(c) {
        number_step(s, pos)
    } else if is_alpha(c) {
        word_step(s, pos)
    } else {
        Step { end: pos + 1, lexeme: Lexeme::Unexpected { character: c } }
    }
}

/// The end marker of `s`: empty, on the last line.
pub open spec fn end_marker(s: Seq<char>) -> TokenView {
    TokenView { kind: TokenType::Eof, lexeme: Seq::empty(), literal: None, line: last_line(s) }
}

/// The token that the step from `pos` to `end` emits, if it emits one. Its
/// line is the line at its end.
pub open spec fn emitted_token(s: Seq<char>, pos: int, step: Step) -> Option<TokenView> {
    match step.lexeme {
        Lexeme::Token { kind, literal } => Some(
            TokenView { kind, lexeme: s.subrange(pos, step.end), literal, line: line_at(s, step.end) },
        ),
        _ => None,
    }
}

/// The error that a step reports, if it reports one, with the line at its end.
pub open spec fn emitted_error(s: Seq<char>, step: Step) -> Option<ErrorView> {
    match step.lexeme {
        Lexeme::Unterminated => Some(ErrorView::UnterminatedString { line: line_at(s, step.end) }),
        Lexeme::Unexpected { character } => Some(
            ErrorView::UnexpectedCharacter { character, line: line_at(s, step.end) },
        ),
        _ => None,
    }
}

/// A run ends at or after its start, inside the text; every character of it
/// is of the class, and the character behind it, if any, is not.
pub proof fn lemma_run_end(s: Seq<char>, pos: int, class: CharClass)
    requires
        0 <= pos <= s.len(),
    ensures
        pos <= run_end(s, pos, class) <= s.len(),
        forall|i: int| pos <= i < run_end(s, pos, class) ==> class.holds(#[trigger] s[i]),
        run_end(s, pos, class) < s.len() ==> !class.holds(s[run_end(s, pos, class)]),
    decreases s.len() - pos,
{
    if pos < s.len() && class.holds(s[pos]) {
        lemma_run_end(s, pos + 1, class);
    }
}

/// Every step consumes at least one character and stays inside the text.
pub proof fn lemma_step_advances(s: Seq<char>, pos: int)
    requires
        0 <= pos < s.len(),
    ensures
        pos < step_at(s, pos).end <= s.len(),
{
    lemma_run_end(s, pos + 1, CharClass::StringBody);
    lemma_run_end(s, pos, CharClass::Digit);
    lemma_run_end(s, pos, CharClass::Word);
    let whole_end = run_end(s, pos, CharClass::Digit);
    if whole_end + 1 <= s.len() {
        lemma_run_end(s, whole_end + 1, CharClass::Digit);
    }
    if pos + 2 <= s.len() {
        lemma_run_end(s, pos + 2, CharClass::CommentBody);
    }
}

/// Line numbers never decrease along the text.
pub proof fn lemma_line_monotonic(s: Seq<char>, i: int, j: int)
    requires
        0 <= i <= j <= s.len(),
    ensures
        1 <= line_at(s, i) <= line_at(s, j),
    decreases j - i,
{
    if i < j {
        lemma_line_monotonic(s, i, j - 1);
    } else {
        lemma_line_positive(s, i);
    }
}

/// Line numbers begin at one.
pub proof fn lemma_line_positive(s: Seq<char>, i: int)
    ensures
        1 <= line_at(s, i),
    decreases i,
{
    if 0 < i <= s.len() {
        lemma_line_positive(s, i - 1);
    }
}

/// A text has at most one line more than it has characters, so the lines of
/// a text of fewer than `u32::MAX` characters can be counted in 32 bits.
pub proof fn lemma_line_bound(s: Seq<char>, pos: int)
    requires
        0 <= pos <= s.len(),
    ensures
        line_at(s, pos) <= pos + 1,
    decreases pos,
{
    if 0 < pos {
        lemma_line_bound(s, pos - 1);
    }
}

/// Where no newline is passed, the line stays.
pub proof fn lemma_line_unchanged(s: Seq<char>, from: int, to: int)
    requires
        0 <= from <= to <= s.len(),
        forall|i: int| from <= i < to ==> #[trigger] s[i] != '\n',
    ensures
        line_at(s, to) == line_at(s, from),
    decreases to - from,
{
    if from < to {
        lemma_line_unchanged(s, from, to - 1);
    }
}

/// Only a string literal and a newline can end on a later line than they
/// begin on.
pub proof fn lemma_step_keeps_line(s: Seq<char>, pos: int)
    requires
        0 <= pos < s.len(),
        s[pos] != '"',
        s[pos] != '\n',
    ensures
        line_at(s, step_at(s, pos).end) == line_at(s, pos),
{
    let end = step_at(s, pos).end;
    lemma_step_advances(s, pos);
    lemma_run_end(s, pos, CharClass::Digit);
    lemma_run_end(s, pos, CharClass::Word);
    let whole_end = run_end(s, pos, CharClass::Digit);
    if whole_end + 1 <= s.len() {
        lemma_run_end(s, whole_end + 1, CharClass::Digit);
    }
    if pos + 2 <= s.len() {
        lemma_run_end(s, pos + 2, CharClass::CommentBody);
    }
    assert forall|i: int| pos <= i < end implies #[trigger] s[i] != '\n' by {
        if is_digit(s[pos]) {
            if i < whole_end {
                assert(CharClass::Digit.holds(s[i]));
            } else if i > whole_end {
                assert(CharClass::Digit.holds(s[i]));
            }
        } else if is_alpha(s[pos]) {
            assert(CharClass::Word.holds(s[i]));
        } else if s[pos] == '/' && i >= pos + 2 {
            assert(CharClass::CommentBody.holds(s[i]));
        }
    }
    lemma_line_unchanged(s, pos, end);
}

/// The tokens of `s` from position `pos` on: those of the steps in order,
/// then the end marker.
pub open spec fn tokens_from(s: Seq<char>, pos: int) -> Seq<TokenView>
    decreases s.len() - pos,
    when 0 <= pos
    via tokens_from_decreases
{
    if pos >= s.len() {
        seq![end_marker(s)]
    } else {
        let step = step_at(s, pos);
        match emitted_token(s, pos, step) {
            Some(token) => seq![token] + tokens_from(s, step.end),
            None => tokens_from(s, step.end),
        }
    }
}

#[via_fn]
proof fn tokens_from_decreases(s: Seq<char>, pos: int) {
    if pos < s.len() {
        lemma_step_advances(s, pos);
    }
}

/// The errors of `s` from position `pos` on, in the order of the steps.
pub open spec fn errors_from(s: Seq<char>, pos: int) -> Seq<ErrorView>
    decreases s.len() - pos,
    when 0 <= pos
    via errors_from_decreases
{
    if pos >= s.len() {
        Seq::empty()
    } else {
        let step = step_at(s, pos);
        match emitted_error(s, step) {
            Some(error) => seq![error] + errors_from(s, step.end),
            None => errors_from(s, step.end),
        }
    }
}

#[via_fn]
proof fn errors_from_decreases(s: Seq<char>, pos: int) {
    if pos < s.len() {
        lemma_step_advances(s, pos);
    }
}

/// The token sequence of the text `s`.
pub open spec fn tokens_of(s: Seq<char>) -> Seq<TokenView> {
    tokens_from(s, 0)
}

/// The error sequence of the text `s`.
pub open spec fn errors_of(s: Seq<char>) -> Seq<ErrorView> {
    errors_from(s, 0)
}

} // verus!
