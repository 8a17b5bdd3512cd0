//! The scanner: one pass over the characters, proved to produce exactly the
//! sequences that the grammar defines.

use vstd::prelude::*;
use vstd::string::*;
use crate::grammar::{
    char_is, errors_from, errors_of, keyword_kind, last_line, lemma_line_monotonic,
    lemma_step_advances, lemma_step_keeps_line, line_at, operator_kinds, run_end, single_kind,
    step_at, tokens_from, tokens_of, CharClass, Lexeme,
};
use crate::scanning_error::{error_views, ScanningError};
use crate::text::{chars_of, collect};
use crate::token::{payload_rule, payload_view, token_views, Decimal, Literal, Token, TokenView};
use crate::token_type::TokenType;

verus! {

/// What the scanner found at a position.
#[derive(Debug, PartialEq, Eq, Clone)]
pub enum Found {
    /// A token of the given kind and payload.
    Token { kind: TokenType, literal: Option<Literal> },
    /// A string literal that the end of the text cuts short.
    Unterminated,
    /// A character that begins no lexeme.
    Unexpected { character: char },
    /// Whitespace, a newline or a comment.
    Blank,
}

impl View for Found {
    type V = Lexeme;

    open spec fn view(&self) -> Lexeme {
        match *self {
            Found::Token { kind, literal } => Lexeme::Token { kind, literal: payload_view(literal) },
            Found::Unterminated => Lexeme::Unterminated,
            Found::Unexpected { character } => Lexeme::Unexpected { character },
            Found::Blank => Lexeme::Blank,
        }
    }
}

impl CharClass {
    /// Whether `c` is of the class.
    pub fn contains(&self, c: char) -> (b: bool)
        ensures
            b == self.holds(c),
    {
        match self {
            CharClass::Digit => c >= '0' && c <= '9',
            CharClass::Word => (c >= 'a' && c <= 'z') || (c >= 'A' && c <= 'Z') || c == '_' || (c
                >= '0' && c <= '9'),
            CharClass::CommentBody => c != '\n',
            CharClass::StringBody => c != '"',
        }
    }
}

/// The end of the longest run of characters of `class` that begins at `pos`.
pub fn consume_run(chars: &Vec<char>, pos: usize, class: CharClass) -> (end: usize)
    requires
        pos <= chars.len(),
    ensures
        end == run_end(chars@, pos as int, class),
        pos <= end <= chars.len(),
{
    let mut end: usize = pos;
    while end < chars.len() && class.contains(chars[end])
        invariant
            pos <= end <= chars.len(),
            run_end(chars@, end as int, class) == run_end(chars@, pos as int, class),
        decreases chars.len() - end,
    {
        end += 1;
    }
    end
}

/// The line number at `to`, given the one at `from`.
pub fn line_after(chars: &Vec<char>, from: usize, to: usize, line: u32) -> (after: u32)
    requires
        from <= to <= chars.len(),
        line == line_at(chars@, from as int),
        last_line(chars@) <= u32::MAX,
    ensures
        after == line_at(chars@, to as int),
{
    let mut after: u32 = line;
    let mut i: usize = from;
    while i < to
        invariant
            from <= i <= to <= chars.len(),
            after == line_at(chars@, i as int),
            last_line(chars@) <= u32::MAX,
        decreases to - i,
    {
        proof {
            lemma_line_monotonic(chars@, i + 1, chars.len() as int);
        }
        if chars[i] == '\n' {
            after += 1;
        }
        i += 1;
    }
    after
}

/// Whether `word` is exactly `text`.
fn is_text(word: &String, text: &str) -> (b: bool)
    ensures
        b == (word@ == text@),
{
    let other = String::from_str(text);
    word.eq(&other)
}

/// Looks `word` up in the keyword table.
pub fn keyword(word: &String) -> (kind: Option<TokenType>)
    ensures
        kind == keyword_kind(word@),
{
    if is_text(word, "and") {
        Some(TokenType::And)
    } else     if is_text(word, "break") {
        Some(TokenType::Break)
    } else     if is_text(word, "class") {
        Some(TokenType::Class)
    } else     if is_text(word, "continue") {
        Some(TokenType::Continue)
    } else     if is_text(word, "else") {
        Some(TokenType::Else)
    } else     if is_text(word, "false") {
        Some(TokenType::False)
    } else     if is_text(word, "fun") {
        Some(TokenType::Fun)
    } else     if is_text(word, "for") {
        Some(TokenType::For)
    } else     if is_text(word, "if") {
        Some(TokenType::If)
    } else     if is_text(word, "nil") {
        Some(TokenType::Nil)
    } else     if is_text(word, "or") {
        Some(TokenType::Or)
    } else     if is_text(word, "print") {
        Some(TokenType::Print)
    } else     if is_text(word, "return") {
        Some(TokenType::Return)
    } else     if is_text(word, "super") {
        Some(TokenType::Super)
    } else     if is_text(word, "this") {
        Some(TokenType::This)
    } else     if is_text(word, "true") {
        Some(TokenType::True)
    } else     if is_text(word, "var") {
        Some(TokenType::Var)
    } else     if is_text(word, "while") {
        Some(TokenType::While)
    } else {
        None
    }
}

/// The kind of a punctuation character that is a token by itself.
fn single(c: char) -> (kind: Option<TokenType>)
    ensures
        kind == single_kind(c),
{
    match c {
        '(' => Some(TokenType::LeftParen),
        ')' => Some(TokenType::RightParen),
        '{' => Some(TokenType::LeftBrace),
        '}' => Some(TokenType::RightBrace),
        ',' => Some(TokenType::Comma),
        '.' => Some(TokenType::Dot),
        '-' => Some(TokenType::Minus),
        '+' => Some(TokenType::Plus),
        ';' => Some(TokenType::SemiColon),
        '*' => Some(TokenType::Star),
        '?' => Some(TokenType::Question),
        ':' => Some(TokenType::Colon),
        _ => None,
    }
}

/// The two kinds of an operator character that an equals sign may follow.
fn operator(c: char) -> (kinds: Option<(TokenType, TokenType)>)
    ensures
        kinds == operator_kinds(c),
{
    match c {
        '!' => Some((TokenType::Bang, TokenType::BangEqual)),
        '=' => Some((TokenType::Equal, TokenType::EqualEqual)),
        '<' => Some((TokenType::Less, TokenType::LessEqual)),
        '>' => Some((TokenType::Greater, TokenType::GreaterEqual)),
        _ => None,
    }
}

/// Whether the character at `i` exists and is `c`.
fn peek_is(chars: &Vec<char>, i: usize, c: char) -> (b: bool)
    ensures
        b == char_is(chars@, i as int, c),
{
    i < chars.len() && chars[i] == c
}

fn token(kind: TokenType) -> (found: Found)
    ensures
        found == (Found::Token { kind, literal: None }),
{
    Found::Token { kind, literal: None }
}

/// Scans the string literal whose opening quote is at `pos`.
fn scan_string(chars: &Vec<char>, pos: usize) -> (step: (usize, Found))
    requires
        pos < chars.len(),
    ensures
        step.0 == crate::grammar::string_step(chars@, pos as int).end,
        step.1@ == crate::grammar::string_step(chars@, pos as int).lexeme,
{
    let close = consume_run(chars, pos + 1, CharClass::StringBody);
    if close >= chars.len() {
        (chars.len(), Found::Unterminated)
    } else {
        let body = collect(chars, pos + 1, close);
        (close + 1, Found::Token { kind: TokenType::String, literal: Some(Literal::String(body)) })
    }
}

/// Scans the number literal that begins at `pos`.
fn scan_number(chars: &Vec<char>, pos: usize) -> (step: (usize, Found))
    requires
        pos < chars.len(),
    ensures
        step.0 == crate::grammar::number_step(chars@, pos as int).end,
        step.1@ == crate::grammar::number_step(chars@, pos as int).lexeme,
{
    let whole_end = consume_run(chars, pos, CharClass::Digit);
    let whole = collect(chars, pos, whole_end);
    if peek_is(chars, whole_end, '.') && whole_end + 1 < chars.len() && CharClass::Digit.contains(
        chars[whole_end + 1],
    ) {
        let end = consume_run(chars, whole_end + 1, CharClass::Digit);
        let fraction = collect(chars, whole_end + 1, end);
        let number = Decimal { whole, fraction };
        (end, Found::Token { kind: TokenType::Number, literal: Some(Literal::Number(number)) })
    } else {
        let number = Decimal { whole, fraction: String::new() };
        (
            whole_end,
            Found::Token { kind: TokenType::Number, literal: Some(Literal::Number(number)) },
        )
    }
}

/// Scans the identifier or keyword that begins at `pos`.
fn scan_word(chars: &Vec<char>, pos: usize) -> (step: (usize, Found))
    requires
        pos < chars.len(),
    ensures
        step.0 == crate::grammar::word_step(chars@, pos as int).end,
        step.1@ == crate::grammar::word_step(chars@, pos as int).lexeme,
{
    let end = consume_run(chars, pos, CharClass::Word);
    let word = collect(chars, pos, end);
    match keyword(&word) {
        Some(kind) => (end, token(kind)),
        None => (end, token(TokenType::Identifier)),
    }
}

/// Recognises the lexeme that begins at `pos`: where it ends and what it is.
pub fn next_lexeme(chars: &Vec<char>, pos: usize) -> (step: (usize, Found))
    requires
        pos < chars.len(),
    ensures
        step.0 == step_at(chars@, pos as int).end,
        step.1@ == step_at(chars@, pos as int).lexeme,
        pos < step.0 <= chars.len(),
{
    proof {
        lemma_step_advances(chars@, pos as int);
    }
    let c = chars[pos];
    if let Some(kind) = single(c) {
        (pos + 1, token(kind))
    } else if let Some((short, long)) = operator(c) {
        if peek_is(chars, pos + 1, '=') {
            (pos + 2, token(long))
        } else {
            (pos + 1, token(short))
        }
    } else if c == '/' {
        if peek_is(chars, pos + 1, '/') {
            (consume_run(chars, pos + 2, CharClass::CommentBody), Found::Blank)
        } else {
            (pos + 1, token(TokenType::Slash))
        }
    } else if c == ' ' || c == '\t' || c == '\r' || c == '\n' {
        (pos + 1, Found::Blank)
    } else if c == '"' {
        scan_string(chars, pos)
    } else if c >= '0' && c <= '9' {
        scan_number(chars, pos)
    } else if (c >= 'a' && c <= 'z') || (c >= 'A' && c <= 'Z') || c == '_' {
        scan_word(chars, pos)
    } else {
        (pos + 1, Found::Unexpected { character: c })
    }
}

/// Every token that a step emits obeys the payload rule.
pub proof fn lemma_step_payload(s: Seq<char>, pos: int)
    requires
        0 <= pos < s.len(),
    ensures
        match step_at(s, pos).lexeme {
            Lexeme::Token { kind, literal } => payload_rule(kind, literal is Some),
            _ => true,
        },
{
}

/// Builds a token through the constructor and appends it to `tokens`. The
/// payload rule is the caller's to keep, so the constructor never refuses and
/// `errors` stays as it is.
fn emit(
    tokens: &mut Vec<Token>,
    errors: &mut Vec<ScanningError>,
    kind: TokenType,
    lexeme: String,
    literal: Option<Literal>,
    line: u32,
)
    requires
        payload_rule(kind, literal is Some),
    ensures
        token_views(final(tokens)@) == token_views(old(tokens)@).push(
            TokenView { kind, lexeme: lexeme@, literal: payload_view(literal), line: line as nat },
        ),
        final(errors)@ == old(errors)@,
{
    match Token::new(kind, lexeme, literal, line) {
        Ok(token) => {
            tokens.push(token);
            assert(token_views(final(tokens)@) =~= token_views(old(tokens)@).push(token@));
        },
        Err(error) => {
            errors.push(error);
        },
    }
}

/// Scans `chars`: all tokens in order, then the end marker, and all errors in
/// the order in which they were found. Returns both and the last line.
pub fn scan_chars(chars: &Vec<char>) -> (out: (Vec<Token>, Vec<ScanningError>, u32))
    requires
        last_line(chars@) <= u32::MAX,
    ensures
        token_views(out.0@) == tokens_of(chars@),
        error_views(out.1@) == errors_of(chars@),
        out.2 == last_line(chars@),
{
    let mut tokens: Vec<Token> = Vec::new();
    let mut errors: Vec<ScanningError> = Vec::new();
    let mut current: usize = 0;
    let mut line: u32 = 1;
    assert(token_views(tokens@) + tokens_from(chars@, 0) =~= tokens_of(chars@));
    assert(error_views(errors@) + errors_from(chars@, 0) =~= errors_of(chars@));
    while current < chars.len()
        invariant
            current <= chars.len(),
            line == line_at(chars@, current as int),
            last_line(chars@) <= u32::MAX,
            token_views(tokens@) + tokens_from(chars@, current as int) == tokens_of(chars@),
            error_views(errors@) + errors_from(chars@, current as int) == errors_of(chars@),
        decreases chars.len() - current,
    {
        let start = current;
        let ghost before_tokens = tokens@;
        let ghost before_errors = errors@;
        let (end, found) = next_lexeme(chars, start);
        proof {
            lemma_step_payload(chars@, start as int);
            lemma_line_monotonic(chars@, end as int, chars.len() as int);
        }
        if chars[start] == '"' {
            line = line_after(chars, start, end, line);
        } else if chars[start] == '\n' {
            line += 1;
        } else {
            proof {
                lemma_step_keeps_line(chars@, start as int);
            }
        }
        match found {
            Found::Token { kind, literal } => {
                let lexeme = collect(chars, start, end);
                emit(&mut tokens, &mut errors, kind, lexeme, literal, line);
            },
            Found::Unterminated => {
                let error = ScanningError::UnterminatedString { line };
                errors.push(error);
                assert(error_views(errors@) =~= error_views(before_errors).push(error@));
            },
            Found::Unexpected { character } => {
                let error = ScanningError::UnexpectedCharacter { character, line };
                errors.push(error);
                assert(error_views(errors@) =~= error_views(before_errors).push(error@));
            },
            Found::Blank => {},
        }
        current = end;
        assert(token_views(tokens@) + tokens_from(chars@, current as int) =~= token_views(
            before_tokens,
        ) + tokens_from(chars@, start as int));
        assert(error_views(errors@) + errors_from(chars@, current as int) =~= error_views(
            before_errors,
        ) + errors_from(chars@, start as int));
    }
    let ghost before_tokens = tokens@;
    emit(&mut tokens, &mut errors, TokenType::Eof, String::new(), None, line);
    assert(token_views(tokens@) =~= token_views(before_tokens) + tokens_from(
        chars@,
        current as int,
    ));
    assert(error_views(errors@) =~= error_views(errors@) + errors_from(chars@, current as int));
    (tokens, errors, line)
}

/// Scans `source` into its tokens, closed by the end marker, and its errors.
pub fn scan(source: &str) -> (out: (Vec<Token>, Vec<ScanningError>))
    requires
        last_line(source@) <= u32::MAX,
    ensures
        token_views(out.0@) == tokens_of(source@),
        error_views(out.1@) == errors_of(source@),
{
    let chars = chars_of(source);
    let (tokens, errors, _) = scan_chars(&chars);
    (tokens, errors)
}

/// The last line number of `chars`, unless it is too large for a line number.
pub fn last_line_of(chars: &Vec<char>) -> (last: Option<u32>)
    ensures
        match last {
            Some(line) => line == last_line(chars@),
            None => last_line(chars@) > u32::MAX,
        },
{
    let mut line: u32 = 1;
    let mut i: usize = 0;
    while i < chars.len()
        invariant
            i <= chars.len(),
            line == line_at(chars@, i as int),
        decreases chars.len() - i,
    {
        if chars[i] == '\n' {
            if line == u32::MAX {
                proof {
                    lemma_line_monotonic(chars@, i + 1, chars.len() as int);
                }
                return None;
            }
            line += 1;
        }
        i += 1;
    }
    Some(line)
}

/// Scans `source` as [`scan`] does, unless it has more lines than a line
/// number can count: then nothing is scanned.
pub fn try_scan(source: &str) -> (out: Option<(Vec<Token>, Vec<ScanningError>)>)
    ensures
        out is Some <==> last_line(source@) <= u32::MAX,
        match out {
            Some((tokens, errors)) => token_views(tokens@) == tokens_of(source@) && error_views(
                errors@,
            ) == errors_of(source@),
            None => true,
        },
{
    let chars = chars_of(source);
    match last_line_of(&chars) {
        Some(_) => {
            let (tokens, errors, _) = scan_chars(&chars);
            Some((tokens, errors))
        },
        None => None,
    }
}

/// A scanner over one source text, with the cursors of its single pass.
#[derive(Debug)]
pub struct Scanner {
    pub source: String,
    pub tokens: Vec<Token>,
    pub errors: Vec<ScanningError>,
    pub start: usize,
    pub current: usize,
    pub line: u32,
}

impl Scanner {
    /// Whether nothing has been scanned yet.
    pub open spec fn is_fresh(&self) -> bool {
        self.tokens@.len() == 0 && self.errors@.len() == 0 && self.start == 0 && self.current == 0
            && self.line == 1
    }

    /// Whether the scanner holds the complete result for its source.
    pub open spec fn is_done(&self) -> bool {
        &&& token_views(self.tokens@) == tokens_of(self.source@)
        &&& error_views(self.errors@) == errors_of(self.source@)
        &&& self.start == self.source@.len()
        &&& self.current == self.source@.len()
        &&& self.line == last_line(self.source@)
    }

    /// A scanner at the beginning of `source`, on line one.
    pub fn new(source: String) -> (scanner: Scanner)
        ensures
            scanner.source == source,
            scanner.is_fresh(),
    {
        Scanner { source, tokens: Vec::new(), errors: Vec::new(), start: 0, current: 0, line: 1 }
    }

    /// Scans the whole source from its beginning, replacing earlier results.
    pub fn scan_tokens(&mut self)
        requires
            last_line(old(self).source@) <= u32::MAX,
        ensures
            final(self).source == old(self).source,
            final(self).is_done(),
    {
        let chars = chars_of(self.source.as_str());
        let (tokens, errors, line) = scan_chars(&chars);
        self.tokens = tokens;
        self.errors = errors;
        self.start = chars.len();
        self.current = chars.len();
        self.line = line;
    }

    /// Scans as [`Scanner::scan_tokens`] does and returns `true`, unless the
    /// source has more lines than a line number can count: then the scanner
    /// stays as it is and `false` is returned.
    pub fn try_scan_tokens(&mut self) -> (scanned: bool)
        ensures
            scanned <==> last_line(old(self).source@) <= u32::MAX,
            final(self).source == old(self).source,
            scanned ==> final(self).is_done(),
            !scanned ==> *final(self) == *old(self),
    {
        let chars = chars_of(self.source.as_str());
        match last_line_of(&chars) {
            Some(_) => {
                self.scan_tokens();
                true
            },
            None => false,
        }
    }
}

} // verus!
