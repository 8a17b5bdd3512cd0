//! What holds of the token and error sequences of every text.

use vstd::prelude::*;
use crate::grammar::{
    end_marker, errors_from, errors_of, last_line, lemma_line_monotonic, lemma_run_end,
    lemma_step_advances, line_at, number_step, run_end, step_at, string_step, tokens_from,
    tokens_of, CharClass, Lexeme,
};
use crate::scanning_error::ErrorView;
use crate::token::{all_digits, is_digit, token_views, LiteralView, Token, TokenView};
use crate::token_type::TokenType;

verus! {

/// Whether `token` stands for a non-empty piece of `s` and is on the line
/// where that piece ends.
pub open spec fn is_lexeme_of(s: Seq<char>, token: TokenView) -> bool {
    exists|from: int, to: int|
        0 <= from < to <= s.len() && token.lexeme == #[trigger] s.subrange(from, to) && token.line
            == line_at(s, to)
}

/// Whether the lexeme of `token` spells its payload, if it has one: a number
/// in decimal notation, a text between two double quotes.
pub open spec fn lexeme_spells_payload(token: TokenView) -> bool {
    match token.literal {
        Some(LiteralView::Text(text)) => token.lexeme == seq!['"'] + text + seq!['"'],
        Some(number) => token.lexeme == number.display_text(),
        None => true,
    }
}

/// What holds of every token of `s` before the end marker.
pub open spec fn is_proper_token(s: Seq<char>, token: TokenView) -> bool {
    &&& token.kind != TokenType::Eof
    &&& token.wf()
    &&& token.payload_fits_kind()
    &&& lexeme_spells_payload(token)
    &&& is_lexeme_of(s, token)
}

/// What holds of every error of a scan of `s`: it reports a defect of the
/// text, an unterminated string or an unexpected character, on one of its
/// lines; an unterminated string is reported on the last line.
pub open spec fn is_scan_error(s: Seq<char>, error: ErrorView) -> bool {
    &&& error is UnterminatedString || error is UnexpectedCharacter
    &&& error.line() is Some
    &&& 1 <= error.line()->0 <= last_line(s)
    &&& error is UnterminatedString ==> error.line() == Some(last_line(s))
}

/// The payload of a string token is what stands between its quotes.
proof fn lemma_string_step(s: Seq<char>, pos: int)
    requires
        0 <= pos < s.len(),
        s[pos] == '"',
    ensures
        string_step(s, pos).lexeme matches Lexeme::Token { kind, literal } ==> kind
            == TokenType::String && literal is Some && literal->0 is Text && s.subrange(
            pos,
            string_step(s, pos).end,
        ) == seq!['"'] + literal->0->Text_0 + seq!['"'],
{
    let close = run_end(s, pos + 1, CharClass::StringBody);
    lemma_run_end(s, pos + 1, CharClass::StringBody);
    if close < s.len() {
        assert(s.subrange(pos, close + 1) =~= seq!['"'] + s.subrange(pos + 1, close) + seq!['"']);
    }
}

/// The payload of a number token is a well-formed number, and the lexeme is
/// its decimal notation.
proof fn lemma_number_step(s: Seq<char>, pos: int)
    requires
        0 <= pos < s.len(),
        is_digit(s[pos]),
    ensures
        number_step(s, pos).lexeme matches Lexeme::Token { kind, literal } && kind
            == TokenType::Number && literal is Some && literal->0.wf() && literal->0 is Number
            && s.subrange(pos, number_step(s, pos).end) == literal->0.display_text(),
{
    let whole_end = run_end(s, pos, CharClass::Digit);
    lemma_run_end(s, pos, CharClass::Digit);
    lemma_run_end(s, pos + 1, CharClass::Digit);
    assert(whole_end > pos);
    let whole = s.subrange(pos, whole_end);
    assert forall|i: int| 0 <= i < whole.len() implies is_digit(#[trigger] whole[i]) by {
        assert(CharClass::Digit.holds(s[pos + i]));
    }
    if whole_end + 1 <= s.len() {
        lemma_run_end(s, whole_end + 1, CharClass::Digit);
        let end = run_end(s, whole_end + 1, CharClass::Digit);
        let fraction = s.subrange(whole_end + 1, end);
        assert forall|i: int| 0 <= i < fraction.len() implies is_digit(#[trigger] fraction[i]) by {
            assert(CharClass::Digit.holds(s[whole_end + 1 + i]));
        }
        if s[whole_end] == '.' && whole_end + 1 < s.len() && is_digit(s[whole_end + 1]) {
            lemma_run_end(s, whole_end + 2, CharClass::Digit);
            assert(fraction.len() > 0);
            assert(s.subrange(pos, end) =~= whole + seq!['.'] + fraction);
        }
    }
    assert(all_digits(Seq::<char>::empty()));
}

/// By induction along the text: the tokens from `pos` on end with the end
/// marker, all before it are proper tokens, and their lines ascend from the
/// line at `pos` to the last line.
proof fn lemma_tokens_from(s: Seq<char>, pos: int)
    requires
        0 <= pos <= s.len(),
    ensures
        tokens_from(s, pos).len() >= 1,
        tokens_from(s, pos).last() == end_marker(s),
        forall|i: int|
            0 <= i < tokens_from(s, pos).len() - 1 ==> is_proper_token(
                s,
                #[trigger] tokens_from(s, pos)[i],
            ),
        forall|i: int|
            0 <= i < tokens_from(s, pos).len() ==> line_at(s, pos) <= (#[trigger] tokens_from(
                s,
                pos,
            )[i]).line <= last_line(s),
        forall|i: int, j: int|
            0 <= i <= j < tokens_from(s, pos).len() ==> (#[trigger] tokens_from(s, pos)[i]).line
                <= (#[trigger] tokens_from(s, pos)[j]).line,
    decreases s.len() - pos,
{
    lemma_line_monotonic(s, pos, s.len() as int);
    if pos < s.len() {
        let step = step_at(s, pos);
        lemma_step_advances(s, pos);
        lemma_tokens_from(s, step.end);
        lemma_line_monotonic(s, pos, step.end);
        lemma_line_monotonic(s, step.end, s.len() as int);
        let rest = tokens_from(s, step.end);
        let all = tokens_from(s, pos);
        match step.lexeme {
            Lexeme::Token { kind, literal } => {
                let token = all[0];
                assert(all =~= seq![token] + rest);
                assert(token.lexeme == s.subrange(pos, step.end));
                assert(is_lexeme_of(s, token));
                if is_digit(s[pos]) {
                    lemma_number_step(s, pos);
                } else if s[pos] == '"' {
                    lemma_string_step(s, pos);
                }
                assert(is_proper_token(s, token));
                assert forall|i: int| 0 <= i < all.len() - 1 implies is_proper_token(
                    s,
                    #[trigger] all[i],
                ) by {
                    if i > 0 {
                        assert(all[i] == rest[i - 1]);
                    }
                }
                assert forall|i: int| 0 <= i < all.len() implies line_at(s, pos) <= (
                #[trigger] all[i]).line <= last_line(s) by {
                    if i > 0 {
                        assert(all[i] == rest[i - 1]);
                    }
                }
                assert forall|i: int, j: int| 0 <= i <= j < all.len() implies (#[trigger] all[i]).line
                    <= (#[trigger] all[j]).line by {
                    if i > 0 {
                        assert(all[i] == rest[i - 1]);
                        assert(all[j] == rest[j - 1]);
                    } else if j > 0 {
                        assert(all[j] == rest[j - 1]);
                    }
                }
            },
            _ => {
                assert(all == rest);
            },
        }
    }
}

/// By induction along the text: every error from `pos` on is an error of the
/// text, on one of its lines.
proof fn lemma_errors_from(s: Seq<char>, pos: int)
    requires
        0 <= pos <= s.len(),
    ensures
        forall|i: int|
            0 <= i < errors_from(s, pos).len() ==> is_scan_error(
                s,
                #[trigger] errors_from(s, pos)[i],
            ),
    decreases s.len() - pos,
{
    if pos < s.len() {
        let step = step_at(s, pos);
        lemma_step_advances(s, pos);
        lemma_errors_from(s, step.end);
        lemma_line_monotonic(s, 0, step.end);
        lemma_line_monotonic(s, step.end, s.len() as int);
        let rest = errors_from(s, step.end);
        let all = errors_from(s, pos);
        assert forall|i: int| 0 <= i < all.len() implies is_scan_error(s, #[trigger] all[i]) by {
            if all.len() > rest.len() && i > 0 {
                assert(all[i] == rest[i - 1]);
            }
        }
    }
}

/// The token sequence of any text ends with the end marker, which is empty
/// and on the last line, and holds no other end marker.
pub proof fn lemma_one_end_marker(s: Seq<char>)
    ensures
        tokens_of(s).len() >= 1,
        tokens_of(s).last() == end_marker(s),
        forall|i: int|
            0 <= i < tokens_of(s).len() - 1 ==> (#[trigger] tokens_of(s)[i]).kind
                != TokenType::Eof,
{
    lemma_tokens_from(s, 0);
}

/// The line numbers of the token sequence of any text never decrease, begin
/// at one or later, and end at the last line.
pub proof fn lemma_lines_ascend(s: Seq<char>)
    ensures
        forall|i: int, j: int|
            0 <= i <= j < tokens_of(s).len() ==> (#[trigger] tokens_of(s)[i]).line <= (
            #[trigger] tokens_of(s)[j]).line,
        forall|i: int|
            0 <= i < tokens_of(s).len() ==> 1 <= (#[trigger] tokens_of(s)[i]).line <= last_line(s),
{
    lemma_tokens_from(s, 0);
}

/// Every token of any text obeys the payload rule and has a line number of
/// one or more. Every token before the end marker is a non-empty piece of
/// the text; a string token carries the text between its quotes, a number
/// token the well-formed number that its lexeme spells, and no other token a
/// payload.
pub proof fn lemma_tokens_well_formed(s: Seq<char>)
    ensures
        forall|i: int| 0 <= i < tokens_of(s).len() ==> (#[trigger] tokens_of(s)[i]).wf(),
        forall|i: int|
            0 <= i < tokens_of(s).len() - 1 ==> is_proper_token(s, #[trigger] tokens_of(s)[i]),
{
    lemma_tokens_from(s, 0);
    let ts = tokens_of(s);
    assert forall|i: int| 0 <= i < ts.len() implies (#[trigger] ts[i]).wf() by {
        if i < ts.len() - 1 {
            assert(is_proper_token(s, ts[i]));
        } else {
            assert(ts[i] == end_marker(s));
        }
    }
}

/// Every error of a scan of any text is an unterminated string or an
/// unexpected character, on a line of the text: a scan builds no token
/// against the payload rule and rejects no number.
pub proof fn lemma_errors_are_of_the_text(s: Seq<char>)
    ensures
        forall|i: int| 0 <= i < errors_of(s).len() ==> is_scan_error(s, #[trigger] errors_of(s)[i]),
{
    lemma_errors_from(s, 0);
}

/// Scanning is a function of the text: two scans of the same text hold the
/// same tokens, one by one.
pub proof fn lemma_scan_deterministic(s: Seq<char>, first: Seq<Token>, second: Seq<Token>)
    requires
        token_views(first) == tokens_of(s),
        token_views(second) == tokens_of(s),
    ensures
        first.len() == second.len(),
        forall|i: int| 0 <= i < first.len() ==> (#[trigger] first[i])@ == second[i]@,
{
    assert(token_views(first).len() == first.len());
    assert(token_views(second).len() == second.len());
    assert forall|i: int| 0 <= i < first.len() implies (#[trigger] first[i])@ == second[i]@ by {
        assert(token_views(first)[i] == first[i]@);
        assert(token_views(second)[i] == second[i]@);
    }
}

} // verus!
