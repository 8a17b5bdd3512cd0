use rs_lox::scanning::{
    consume_run, keyword, last_line_of, next_lexeme, scan, try_scan, Found, Scanner,
};
use rs_lox::grammar::CharClass;
use rs_lox::scanning_error::ScanningError;
use rs_lox::text::{chars_of, collect};
use rs_lox::token::{Literal, Token};
use rs_lox::token_type::TokenType;

fn kinds(tokens: &[Token]) -> Vec<TokenType> {
    tokens.iter().map(|t| t.token_type).collect()
}

fn lexemes(tokens: &[Token]) -> Vec<String> {
    tokens.iter().map(|t| t.lexeme.clone()).collect()
}

fn number_value(token: &Token) -> f64 {
    match &token.literal {
        Some(Literal::Number(_)) => token.literal.as_ref().unwrap().render().parse::<f64>().unwrap(),
        other => panic!("no number payload: {:?}", other),
    }
}

#[test]
fn arithmetic_comparison() {
    let (tokens, errors) = scan("(1 + 2) == 3");
    assert!(errors.is_empty());
    assert_eq!(
        kinds(&tokens),
        vec![
            TokenType::LeftParen,
            TokenType::Number,
            TokenType::Plus,
            TokenType::Number,
            TokenType::RightParen,
            TokenType::EqualEqual,
            TokenType::Number,
            TokenType::Eof,
        ]
    );
    assert_eq!(lexemes(&tokens), vec!["(", "1", "+", "2", ")", "==", "3", ""]);
    assert_eq!(number_value(&tokens[1]), 1.0);
    assert_eq!(number_value(&tokens[3]), 2.0);
    assert_eq!(number_value(&tokens[6]), 3.0);
    assert!(tokens.iter().all(|t| t.line == 1));
    for i in [0, 2, 4, 5, 7] {
        assert_eq!(tokens[i].literal, None);
    }
}

#[test]
fn unterminated_string() {
    let (tokens, errors) = scan("var x = \"hi");
    assert_eq!(
        kinds(&tokens),
        vec![TokenType::Var, TokenType::Identifier, TokenType::Equal, TokenType::Eof]
    );
    assert_eq!(errors, vec![ScanningError::UnterminatedString { line: 1 }]);
    assert_eq!(tokens[3].line, 1);
}

#[test]
fn unterminated_string_over_several_lines() {
    let (tokens, errors) = scan("a\n\"b\nc\n");
    assert_eq!(kinds(&tokens), vec![TokenType::Identifier, TokenType::Eof]);
    assert_eq!(errors, vec![ScanningError::UnterminatedString { line: 4 }]);
    assert_eq!(tokens[1].line, 4);
}

#[test]
fn comment_then_statement() {
    let (tokens, errors) = scan("// comment\nprint 1;");
    assert!(errors.is_empty());
    assert_eq!(
        kinds(&tokens),
        vec![TokenType::Print, TokenType::Number, TokenType::SemiColon, TokenType::Eof]
    );
    assert_eq!(tokens[0].line, 2);
    assert_eq!(tokens[0].lexeme, "print");
    assert_eq!(tokens[3].line, 2);
}

#[test]
fn identifiers_and_keywords() {
    let (tokens, errors) = scan("x1_2 and then");
    assert!(errors.is_empty());
    assert_eq!(
        kinds(&tokens),
        vec![TokenType::Identifier, TokenType::And, TokenType::Identifier, TokenType::Eof]
    );
    assert_eq!(lexemes(&tokens), vec!["x1_2", "and", "then", ""]);
    assert!(tokens.iter().all(|t| t.literal.is_none()));
}

#[test]
fn trailing_dot_is_not_part_of_the_number() {
    let (tokens, errors) = scan("3.");
    assert!(errors.is_empty());
    assert_eq!(kinds(&tokens), vec![TokenType::Number, TokenType::Dot, TokenType::Eof]);
    assert_eq!(lexemes(&tokens), vec!["3", ".", ""]);
    assert_eq!(number_value(&tokens[0]), 3.0);
}

#[test]
fn unexpected_character() {
    let (tokens, errors) = scan("@");
    assert_eq!(kinds(&tokens), vec![TokenType::Eof]);
    assert_eq!(errors, vec![ScanningError::UnexpectedCharacter { character: '@', line: 1 }]);
}

#[test]
fn empty_source() {
    let (tokens, errors) = scan("");
    assert!(errors.is_empty());
    assert_eq!(tokens, vec![Token::new(TokenType::Eof, String::new(), None, 1).unwrap()]);
}

#[test]
fn every_punctuation() {
    let (tokens, errors) = scan("(){},.-+;*?:/");
    assert!(errors.is_empty());
    assert_eq!(
        kinds(&tokens),
        vec![
            TokenType::LeftParen,
            TokenType::RightParen,
            TokenType::LeftBrace,
            TokenType::RightBrace,
            TokenType::Comma,
            TokenType::Dot,
            TokenType::Minus,
            TokenType::Plus,
            TokenType::SemiColon,
            TokenType::Star,
            TokenType::Question,
            TokenType::Colon,
            TokenType::Slash,
            TokenType::Eof,
        ]
    );
}

#[test]
fn operators_take_the_longer_form() {
    let (tokens, errors) = scan("! != = == < <= > >= === !");
    assert!(errors.is_empty());
    assert_eq!(
        kinds(&tokens),
        vec![
            TokenType::Bang,
            TokenType::BangEqual,
            TokenType::Equal,
            TokenType::EqualEqual,
            TokenType::Less,
            TokenType::LessEqual,
            TokenType::Greater,
            TokenType::GreaterEqual,
            TokenType::EqualEqual,
            TokenType::Equal,
            TokenType::Bang,
            TokenType::Eof,
        ]
    );
    assert_eq!(lexemes(&tokens)[8], "==");
    assert_eq!(lexemes(&tokens)[9], "=");
}

#[test]
fn every_keyword() {
    let words = [
        ("and", TokenType::And),
        ("break", TokenType::Break),
        ("class", TokenType::Class),
        ("continue", TokenType::Continue),
        ("else", TokenType::Else),
        ("false", TokenType::False),
        ("fun", TokenType::Fun),
        ("for", TokenType::For),
        ("if", TokenType::If),
        ("nil", TokenType::Nil),
        ("or", TokenType::Or),
        ("print", TokenType::Print),
        ("return", TokenType::Return),
        ("super", TokenType::Super),
        ("this", TokenType::This),
        ("true", TokenType::True),
        ("var", TokenType::Var),
        ("while", TokenType::While),
    ];
    for (word, kind) in words {
        assert_eq!(keyword(&word.to_string()), Some(kind));
        let (tokens, errors) = scan(word);
        assert!(errors.is_empty());
        assert_eq!(kinds(&tokens), vec![kind, TokenType::Eof]);
        assert_eq!(tokens[0].lexeme, word);
    }
    assert_eq!(keyword(&"And".to_string()), None);
    assert_eq!(keyword(&"andy".to_string()), None);
    assert_eq!(keyword(&"".to_string()), None);
    let (tokens, _) = scan("While _for classy");
    assert_eq!(
        kinds(&tokens),
        vec![TokenType::Identifier, TokenType::Identifier, TokenType::Identifier, TokenType::Eof]
    );
}

#[test]
fn string_literal_payload_is_the_body() {
    let (tokens, errors) = scan("\"hi there\" \"\"");
    assert!(errors.is_empty());
    assert_eq!(kinds(&tokens), vec![TokenType::String, TokenType::String, TokenType::Eof]);
    assert_eq!(tokens[0].lexeme, "\"hi there\"");
    assert_eq!(tokens[0].literal, Some(Literal::String("hi there".to_string())));
    assert_eq!(tokens[1].lexeme, "\"\"");
    assert_eq!(tokens[1].literal, Some(Literal::String(String::new())));
}

#[test]
fn string_over_several_lines() {
    let (tokens, errors) = scan("\"a\nb\"\nx");
    assert!(errors.is_empty());
    assert_eq!(kinds(&tokens), vec![TokenType::String, TokenType::Identifier, TokenType::Eof]);
    assert_eq!(tokens[0].literal, Some(Literal::String("a\nb".to_string())));
    assert_eq!(tokens[0].line, 2);
    assert_eq!(tokens[1].line, 3);
    assert_eq!(tokens[2].line, 3);
}

#[test]
fn numbers_with_fraction() {
    let (tokens, errors) = scan("12.50 7 1.2.3 .5");
    assert!(errors.is_empty());
    assert_eq!(
        kinds(&tokens),
        vec![
            TokenType::Number,
            TokenType::Number,
            TokenType::Number,
            TokenType::Dot,
            TokenType::Number,
            TokenType::Dot,
            TokenType::Number,
            TokenType::Eof,
        ]
    );
    assert_eq!(lexemes(&tokens), vec!["12.50", "7", "1.2", ".", "3", ".", "5", ""]);
    assert_eq!(number_value(&tokens[0]), 12.5);
    assert_eq!(number_value(&tokens[1]), 7.0);
    assert_eq!(number_value(&tokens[2]), 1.2);
    match &tokens[0].literal {
        Some(Literal::Number(number)) => {
            assert_eq!(number.whole, "12");
            assert_eq!(number.fraction, "50");
        }
        other => panic!("no number payload: {:?}", other),
    }
}

#[test]
fn number_then_identifier() {
    let (tokens, errors) = scan("12abc");
    assert!(errors.is_empty());
    assert_eq!(kinds(&tokens), vec![TokenType::Number, TokenType::Identifier, TokenType::Eof]);
    assert_eq!(lexemes(&tokens), vec!["12", "abc", ""]);
}

#[test]
fn comment_at_the_end_and_slash() {
    let (tokens, errors) = scan("a / b // rest / of \"line");
    assert!(errors.is_empty());
    assert_eq!(
        kinds(&tokens),
        vec![TokenType::Identifier, TokenType::Slash, TokenType::Identifier, TokenType::Eof]
    );
}

#[test]
fn whitespace_and_newlines() {
    let (tokens, errors) = scan(" \t\r\n\n  x\n");
    assert!(errors.is_empty());
    assert_eq!(kinds(&tokens), vec![TokenType::Identifier, TokenType::Eof]);
    assert_eq!(tokens[0].line, 3);
    assert_eq!(tokens[1].line, 4);
}

#[test]
fn errors_do_not_stop_the_scan() {
    let (tokens, errors) = scan("a # b\n$ c é \"open");
    assert_eq!(
        kinds(&tokens),
        vec![TokenType::Identifier, TokenType::Identifier, TokenType::Identifier, TokenType::Eof]
    );
    assert_eq!(
        errors,
        vec![
            ScanningError::UnexpectedCharacter { character: '#', line: 1 },
            ScanningError::UnexpectedCharacter { character: '$', line: 2 },
            ScanningError::UnexpectedCharacter { character: 'é', line: 2 },
            ScanningError::UnterminatedString { line: 2 },
        ]
    );
    for error in &errors {
        assert!(!matches!(error, ScanningError::InvalidNumberLiteral { .. }));
        assert!(!matches!(error, ScanningError::LiteralInvariantViolation { .. }));
    }
}

const PROGRAM: &str = "class A {\n  fun f(x) { return x >= 1.5 ? \"one\ntwo\" : nil; } // c\n}\n@ var y = !true;\n";

#[test]
fn end_marker_is_last_and_only() {
    for source in ["", "x", PROGRAM, "\"open", "@@@", "\n\n"] {
        let (tokens, _) = scan(source);
        let last = tokens.last().unwrap();
        assert_eq!(last.token_type, TokenType::Eof);
        assert_eq!(last.lexeme, "");
        assert_eq!(last.literal, None);
        let markers = tokens.iter().filter(|t| t.token_type == TokenType::Eof).count();
        assert_eq!(markers, 1);
        assert_eq!(last.line as usize, 1 + source.matches('\n').count());
    }
}

#[test]
fn lines_never_decrease() {
    let (tokens, _) = scan(PROGRAM);
    assert!(tokens.len() > 10);
    assert!(tokens[0].line >= 1);
    for pair in tokens.windows(2) {
        assert!(pair[0].line <= pair[1].line);
    }
    assert_eq!(tokens.last().unwrap().line, 6);
}

#[test]
fn tokens_obey_the_payload_rule() {
    let (tokens, _) = scan(PROGRAM);
    for token in &tokens {
        let takes = matches!(token.token_type, TokenType::String | TokenType::Number);
        assert_eq!(token.literal.is_some(), takes);
        assert_eq!(token.token_type.has_payload(), takes);
        if token.token_type != TokenType::Eof {
            assert!(!token.lexeme.is_empty());
            assert!(PROGRAM.contains(token.lexeme.as_str()));
        }
    }
}

#[test]
fn scanning_twice_gives_the_same() {
    let first = scan(PROGRAM);
    let second = scan(PROGRAM);
    assert_eq!(first, second);
    assert_eq!(try_scan(PROGRAM), Some(first));
}

#[test]
fn rescanning_the_lexemes_gives_the_same_kinds() {
    let (tokens, errors) = scan("var x = (1.5 + y) >= 2 ? \"s\" : nil;");
    assert!(errors.is_empty());
    let joined = lexemes(&tokens).join(" ");
    let (again, errors) = scan(&joined);
    assert!(errors.is_empty());
    assert_eq!(kinds(&again), kinds(&tokens));
    assert_eq!(lexemes(&again), lexemes(&tokens));
}

#[test]
fn scanner_keeps_result_and_cursors() {
    let mut scanner = Scanner::new("a\n+ 1".to_string());
    assert_eq!(scanner.source, "a\n+ 1");
    assert!(scanner.tokens.is_empty());
    assert!(scanner.errors.is_empty());
    assert_eq!((scanner.start, scanner.current, scanner.line), (0, 0, 1));
    scanner.scan_tokens();
    assert_eq!(scanner.source, "a\n+ 1");
    assert_eq!(
        kinds(&scanner.tokens),
        vec![TokenType::Identifier, TokenType::Plus, TokenType::Number, TokenType::Eof]
    );
    assert!(scanner.errors.is_empty());
    assert_eq!((scanner.start, scanner.current, scanner.line), (5, 5, 2));
    let once = scanner.tokens.clone();
    scanner.scan_tokens();
    assert_eq!(scanner.tokens, once);
}

#[test]
fn scanner_counts_characters_not_bytes() {
    let mut scanner = Scanner::new("é".to_string());
    scanner.scan_tokens();
    assert_eq!(scanner.current, 1);
    assert_eq!(
        scanner.errors,
        vec![ScanningError::UnexpectedCharacter { character: 'é', line: 1 }]
    );
}

#[test]
fn single_lexemes() {
    let chars = chars_of("<=x \"s\" // c\n9");
    assert_eq!(chars.len(), 14);
    assert_eq!(next_lexeme(&chars, 0), (2, Found::Token { kind: TokenType::LessEqual, literal: None }));
    assert_eq!(next_lexeme(&chars, 1), (2, Found::Token { kind: TokenType::Equal, literal: None }));
    assert_eq!(next_lexeme(&chars, 3), (4, Found::Blank));
    assert_eq!(
        next_lexeme(&chars, 4),
        (
            7,
            Found::Token {
                kind: TokenType::String,
                literal: Some(Literal::String("s".to_string()))
            }
        )
    );
    assert_eq!(next_lexeme(&chars, 6), (14, Found::Unterminated));
    assert_eq!(next_lexeme(&chars, 8), (12, Found::Blank));
    assert_eq!(next_lexeme(&chars, 12), (13, Found::Blank));
    let odd = chars_of("a~");
    assert_eq!(next_lexeme(&odd, 1), (2, Found::Unexpected { character: '~' }));
}

#[test]
fn runs_and_pieces() {
    let chars = chars_of("123abc_9 x\ny");
    assert_eq!(consume_run(&chars, 0, CharClass::Digit), 3);
    assert_eq!(consume_run(&chars, 0, CharClass::Word), 8);
    assert_eq!(consume_run(&chars, 3, CharClass::Digit), 3);
    assert_eq!(consume_run(&chars, 0, CharClass::CommentBody), 10);
    assert_eq!(consume_run(&chars, 0, CharClass::StringBody), 12);
    assert_eq!(consume_run(&chars, 12, CharClass::Word), 12);
    assert_eq!(collect(&chars, 3, 8), "abc_9");
    assert_eq!(collect(&chars, 4, 4), "");
    assert_eq!(last_line_of(&chars), Some(2));
    assert!(CharClass::Word.contains('_'));
    assert!(!CharClass::Word.contains('-'));
    assert!(!CharClass::Digit.contains('a'));
}

#[test]
fn scanner_scans_where_the_lines_can_be_counted() {
    let mut scanner = Scanner::new("x\ny".to_string());
    assert!(scanner.try_scan_tokens());
    assert_eq!(
        kinds(&scanner.tokens),
        vec![TokenType::Identifier, TokenType::Identifier, TokenType::Eof]
    );
    assert_eq!(scanner.line, 2);
    assert_eq!(try_scan("x\ny"), Some(scan("x\ny")));
}
