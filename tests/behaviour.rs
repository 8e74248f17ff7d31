use lox_scanner::cursor::Cursor;
use lox_scanner::rule::comment_rule::comment_rule;
use lox_scanner::rule::single_character_rule::single_character_rule;
use lox_scanner::rule::two_character_rule::two_character_rule;
use lox_scanner::rule::{apply_rules, default_rules, MatchOutcome, Rule};
use lox_scanner::scanner::{scan_tokens, ScanResult};
use lox_scanner::token::Token;
use lox_scanner::token_type::TokenType;

fn kinds(result: &ScanResult) -> Vec<TokenType> {
    result.tokens.iter().map(|t| t.token_type).collect()
}

fn lines(result: &ScanResult) -> Vec<usize> {
    result.tokens.iter().map(|t| t.line_number).collect()
}

fn errors(result: &ScanResult) -> Vec<(usize, char)> {
    result
        .errors
        .iter()
        .map(|e| (e.line_number, e.unexpected_character))
        .collect()
}

fn scan(source: &str) -> ScanResult {
    scan_tokens(source, &default_rules())
}

#[test]
fn empty_input_gives_only_the_end_token() {
    let r = scan("");
    assert_eq!(kinds(&r), vec![TokenType::Eof]);
    assert_eq!(r.tokens[0].lexeme, "");
    assert_eq!(r.tokens[0].line_number, 1);
    assert!(r.errors.is_empty());
    assert!(!r.has_errors());
}

#[test]
fn end_token_is_last_and_single() {
    let r = scan("( ) $ // x\n{");
    let eofs = r.tokens.iter().filter(|t| t.token_type == TokenType::Eof).count();
    assert_eq!(eofs, 1);
    assert_eq!(r.tokens.last().unwrap().token_type, TokenType::Eof);
    assert_eq!(r.tokens.last().unwrap().lexeme, "");
    assert_eq!(r.tokens.last().unwrap().line_number, 2);
}

#[test]
fn comment_line_contributes_nothing() {
    let r = scan("// comment\n(");
    assert_eq!(kinds(&r), vec![TokenType::LeftParen, TokenType::Eof]);
    assert_eq!(lines(&r), vec![2, 2]);
    assert!(r.errors.is_empty());
}

#[test]
fn comment_hides_stray_characters_and_operators() {
    let r = scan("( // $ == # /\n$");
    assert_eq!(kinds(&r), vec![TokenType::LeftParen, TokenType::Eof]);
    assert_eq!(errors(&r), vec![(2, '$')]);
}

#[test]
fn comment_without_line_break_runs_to_the_end() {
    let r = scan("(// never closed )");
    assert_eq!(kinds(&r), vec![TokenType::LeftParen, TokenType::Eof]);
    assert_eq!(r.tokens[1].line_number, 1);
    assert!(r.errors.is_empty());
}

#[test]
fn lone_slash_is_a_token() {
    let r = scan("a/b");
    assert_eq!(kinds(&r), vec![TokenType::Slash, TokenType::Eof]);
    assert_eq!(r.tokens[0].lexeme, "/");
    assert_eq!(errors(&r), vec![(1, 'a'), (1, 'b')]);
    assert_eq!(TokenType::Slash.as_output(), "SLASH");
}

#[test]
fn triple_slash_is_one_comment() {
    let r = scan("///=\n/=");
    assert_eq!(kinds(&r), vec![TokenType::Slash, TokenType::Equal, TokenType::Eof]);
    assert_eq!(lines(&r), vec![2, 2, 2]);
}

#[test]
fn longest_match_prefers_pairs() {
    let r = scan("= = == ! != < <= > >= =!");
    assert_eq!(
        kinds(&r),
        vec![
            TokenType::Equal,
            TokenType::Equal,
            TokenType::EqualEqual,
            TokenType::Bang,
            TokenType::BangEqual,
            TokenType::Less,
            TokenType::LessEqual,
            TokenType::Greater,
            TokenType::GreaterEqual,
            TokenType::Equal,
            TokenType::Bang,
            TokenType::Eof,
        ]
    );
}

#[test]
fn pair_split_by_whitespace_is_two_tokens() {
    let r = scan("< =");
    assert_eq!(kinds(&r), vec![TokenType::Less, TokenType::Equal, TokenType::Eof]);
}

#[test]
fn every_single_character_kind() {
    let r = scan("(){},.-+;*=!<>");
    let lexemes: Vec<&str> = r.tokens.iter().map(|t| t.lexeme).collect();
    assert_eq!(
        lexemes,
        vec!["(", ")", "{", "}", ",", ".", "-", "+", ";", "*", "=", "!", "<", ">", ""]
    );
    assert!(r.errors.is_empty());
}

#[test]
fn lines_count_preceding_line_breaks() {
    let r = scan("(\n)\n\n!= #\n");
    assert_eq!(
        kinds(&r),
        vec![TokenType::LeftParen, TokenType::RightParen, TokenType::BangEqual, TokenType::Eof]
    );
    assert_eq!(lines(&r), vec![1, 2, 4, 5]);
    assert_eq!(errors(&r), vec![(4, '#')]);
}

#[test]
fn unicode_whitespace_is_skipped() {
    let r = scan("\u{a0}(\u{2028})\t\r\u{3000};");
    assert_eq!(
        kinds(&r),
        vec![TokenType::LeftParen, TokenType::RightParen, TokenType::Semicolon, TokenType::Eof]
    );
    assert_eq!(lines(&r), vec![1, 1, 1, 1]);
    assert!(r.errors.is_empty());
}

#[test]
fn every_unrecognised_character_is_reported() {
    let r = scan("ab1\"é)");
    assert_eq!(kinds(&r), vec![TokenType::RightParen, TokenType::Eof]);
    assert_eq!(
        errors(&r),
        vec![(1, 'a'), (1, 'b'), (1, '1'), (1, '"'), (1, 'é')]
    );
    assert!(r.has_errors());
}

#[test]
fn rule_order_is_configurable() {
    let r = scan_tokens("==", &[Rule::SingleCharacter, Rule::TwoCharacter]);
    assert_eq!(kinds(&r), vec![TokenType::Equal, TokenType::Equal, TokenType::Eof]);
    let r = scan_tokens("// x", &[Rule::TwoCharacter, Rule::SingleCharacter]);
    assert_eq!(kinds(&r), vec![TokenType::Eof]);
    assert_eq!(errors(&r), vec![(1, '/'), (1, '/'), (1, 'x')]);
    let r = scan_tokens("(", &[]);
    assert_eq!(kinds(&r), vec![TokenType::Eof]);
    assert_eq!(errors(&r), vec![(1, '(')]);
}

#[test]
fn repeating_a_rule_changes_nothing() {
    let source = "(!= // c\n$ = /";
    let once = scan(source);
    let twice = scan_tokens(
        source,
        &[
            Rule::Comment,
            Rule::Comment,
            Rule::TwoCharacter,
            Rule::TwoCharacter,
            Rule::SingleCharacter,
        ],
    );
    assert_eq!(kinds(&once), kinds(&twice));
    assert_eq!(lines(&once), lines(&twice));
    assert_eq!(errors(&once), errors(&twice));
}

#[test]
fn output_names() {
    let all = [
        (TokenType::LeftParen, "LEFT_PAREN"),
        (TokenType::RightParen, "RIGHT_PAREN"),
        (TokenType::LeftBrace, "LEFT_BRACE"),
        (TokenType::RightBrace, "RIGHT_BRACE"),
        (TokenType::Comma, "COMMA"),
        (TokenType::Dot, "DOT"),
        (TokenType::Minus, "MINUS"),
        (TokenType::Plus, "PLUS"),
        (TokenType::Semicolon, "SEMICOLON"),
        (TokenType::Slash, "SLASH"),
        (TokenType::Star, "STAR"),
        (TokenType::Bang, "BANG"),
        (TokenType::BangEqual, "BANG_EQUAL"),
        (TokenType::Equal, "EQUAL"),
        (TokenType::EqualEqual, "EQUAL_EQUAL"),
        (TokenType::Less, "LESS"),
        (TokenType::LessEqual, "LESS_EQUAL"),
        (TokenType::Greater, "GREATER"),
        (TokenType::GreaterEqual, "GREATER_EQUAL"),
        (TokenType::Eof, "EOF"),
    ];
    for (kind, name) in all {
        assert_eq!(kind.as_output(), name);
    }
}

#[test]
fn token_new_keeps_its_fields() {
    let t = Token::new(TokenType::LessEqual, "<=", 7);
    assert_eq!(t.token_type, TokenType::LessEqual);
    assert_eq!(t.lexeme, "<=");
    assert_eq!(t.line_number, 7);
}

#[test]
fn cursor_peeks_without_consuming() {
    let mut c = Cursor::new("ab");
    assert_eq!(c.peek(0), Some('a'));
    assert_eq!(c.peek(0), Some('a'));
    assert_eq!(c.peek(1), Some('b'));
    assert_eq!(c.peek(2), None);
    assert_eq!(c.current(), 'a');
    assert_eq!(c.advance(), Some('a'));
    assert_eq!(c.peek(0), Some('b'));
    assert!(!c.is_at_end());
    assert_eq!(c.advance(), Some('b'));
    assert!(c.is_at_end());
    assert_eq!(c.advance(), None);
    assert_eq!(c.peek(0), None);
}

#[test]
fn comment_rule_skips_to_the_next_line() {
    let mut c = Cursor::new("// x\n(");
    let mut line: usize = 3;
    assert!(matches!(comment_rule(&mut c, &mut line), MatchOutcome::ConsumedSilently));
    assert_eq!(line, 4);
    assert_eq!(c.peek(0), Some('('));
    assert!(matches!(comment_rule(&mut c, &mut line), MatchOutcome::NoMatch));
    assert_eq!(c.peek(0), Some('('));
}

#[test]
fn comment_rule_gives_slash_for_a_lone_slash() {
    let mut c = Cursor::new("/=");
    let mut line: usize = 2;
    match comment_rule(&mut c, &mut line) {
        MatchOutcome::Produced(t) => {
            assert_eq!(t.token_type, TokenType::Slash);
            assert_eq!(t.lexeme, "/");
            assert_eq!(t.line_number, 2);
        }
        _ => panic!("expected a slash token"),
    }
    assert_eq!(c.peek(0), Some('='));
    assert_eq!(line, 2);
}

#[test]
fn two_character_rule_needs_both_characters() {
    let mut c = Cursor::new("=");
    let mut line: usize = 1;
    assert!(matches!(two_character_rule(&mut c, &mut line), MatchOutcome::NoMatch));
    assert_eq!(c.peek(0), Some('='));
    let mut c = Cursor::new(">=x");
    match two_character_rule(&mut c, &mut line) {
        MatchOutcome::Produced(t) => {
            assert_eq!(t.token_type, TokenType::GreaterEqual);
            assert_eq!(t.lexeme, ">=");
        }
        _ => panic!("expected a two-character token"),
    }
    assert_eq!(c.peek(0), Some('x'));
}

#[test]
fn single_character_rule_rejects_unknown_characters() {
    let mut c = Cursor::new("$");
    let mut line: usize = 1;
    assert!(matches!(single_character_rule(&mut c, &mut line), MatchOutcome::NoMatch));
    assert_eq!(c.peek(0), Some('$'));
    let mut c = Cursor::new("-");
    match single_character_rule(&mut c, &mut line) {
        MatchOutcome::Produced(t) => assert_eq!(t.token_type, TokenType::Minus),
        _ => panic!("expected a minus token"),
    }
    assert!(c.is_at_end());
}

#[test]
fn apply_rules_takes_the_first_match() {
    let mut c = Cursor::new("!=");
    let mut line: usize = 1;
    match apply_rules(&default_rules(), &mut c, &mut line) {
        MatchOutcome::Produced(t) => assert_eq!(t.token_type, TokenType::BangEqual),
        _ => panic!("expected a token"),
    }
    let mut c = Cursor::new("?");
    assert!(matches!(apply_rules(&default_rules(), &mut c, &mut line), MatchOutcome::NoMatch));
    assert_eq!(c.peek(0), Some('?'));
}
