use rmax::scanner::CharClass;
use rmax::parser::Parser;
use rmax::scanner::{Token, TokenType};

fn window(parser: &Parser) -> Vec<TokenType> {
    vec![
        parser.previous_2.kind,
        parser.previous.kind,
        parser.current.kind,
        parser.next.kind,
        parser.next_2.kind,
    ]
}

#[test]
fn a_new_parser_has_an_empty_window() {
    let parser = Parser::new("a b".to_string());
    assert_eq!(window(&parser), vec![TokenType::Empty; 5]);
    assert!(!parser.had_error);
    assert!(!parser.panic_mode);
    assert!(parser.diagnostics.is_empty());
    assert_eq!(parser.current.line, 0);
}

#[test]
fn the_first_advance_fills_the_window() {
    let mut parser = Parser::new("a = 1".to_string());
    parser.advance();
    assert_eq!(
        window(&parser),
        vec![
            TokenType::Empty,
            TokenType::Empty,
            TokenType::Identifier,
            TokenType::Equal,
            TokenType::Integer
        ]
    );
}

#[test]
fn advance_shifts_the_window_by_one() {
    let mut parser = Parser::new("a = 1 + 2".to_string());
    parser.advance();
    parser.advance();
    assert_eq!(
        window(&parser),
        vec![
            TokenType::Empty,
            TokenType::Identifier,
            TokenType::Equal,
            TokenType::Integer,
            TokenType::Plus
        ]
    );
    parser.advance();
    parser.advance();
    assert_eq!(
        window(&parser),
        vec![
            TokenType::Equal,
            TokenType::Integer,
            TokenType::Plus,
            TokenType::Integer,
            TokenType::Eof
        ]
    );
    assert_eq!(parser.peek_previous_2().lexeme, "=");
    assert_eq!(parser.peek_current().lexeme, "+");
    assert_eq!(parser.peek_next().lexeme, "2");
    for _ in 0..5 {
        parser.advance();
    }
    assert_eq!(window(&parser), vec![TokenType::Eof; 5]);
}

#[test]
fn an_error_token_is_reported_at_the_token_behind_it() {
    let mut parser = Parser::new("a # b".to_string());
    parser.advance();
    assert_eq!(parser.current.kind, TokenType::Identifier);
    assert!(!parser.had_error);
    parser.advance();
    assert_eq!(parser.previous.lexeme, "a");
    assert_eq!(parser.current.kind, TokenType::Identifier);
    assert_eq!(parser.current.lexeme, "b");
    assert!(parser.had_error);
    assert!(parser.panic_mode);
    assert_eq!(parser.diagnostics, vec!["[line 1] Error at 'b': Error at next token."]);
}

#[test]
fn an_unterminated_string_is_reported_at_the_end() {
    let mut parser = Parser::new("print \"abc".to_string());
    parser.advance();
    parser.advance();
    assert_eq!(parser.previous.kind, TokenType::Print);
    assert_eq!(parser.current.kind, TokenType::Eof);
    assert_eq!(parser.diagnostics, vec!["[line 1] Error at end: Error at next token."]);
}

#[test]
fn errors_name_the_line_and_the_token() {
    let mut parser = Parser::new("\n\nfoo".to_string());
    parser.advance();
    parser.advance();
    parser.advance();
    assert_eq!(parser.current.lexeme, "foo");
    parser.error_at_current("Something is wrong.");
    assert_eq!(parser.diagnostics, vec!["[line 3] Error at 'foo': Something is wrong."]);
    assert!(parser.had_error);
    assert!(parser.panic_mode);
}

#[test]
fn errors_at_the_end_say_so() {
    let mut parser = Parser::new("x".to_string());
    parser.advance();
    parser.advance();
    assert_eq!(parser.current.kind, TokenType::Eof);
    parser.error_at_current("Expect more.");
    assert_eq!(parser.diagnostics, vec!["[line 1] Error at end: Expect more."]);
}

#[test]
fn errors_can_name_each_token_of_the_window() {
    let mut parser = Parser::new("a b c d".to_string());
    parser.advance();
    parser.advance();
    parser.advance();
    parser.error_at_previous_2("first");
    parser.panic_mode = false;
    parser.error_at_previous("second");
    parser.panic_mode = false;
    parser.error_at_current("third");
    parser.panic_mode = false;
    parser.error_at_next("fourth");
    parser.panic_mode = false;
    parser.error_at(&Token::new(TokenType::Comma, 9), "fifth");
    assert_eq!(
        parser.diagnostics,
        vec![
            "[line 1] Error at 'a': first",
            "[line 1] Error at 'b': second",
            "[line 1] Error at 'c': third",
            "[line 1] Error at 'd': fourth",
            "[line 9] Error at '': fifth",
        ]
    );
}

#[test]
fn panic_mode_suppresses_further_errors() {
    let mut parser = Parser::new("a b".to_string());
    parser.advance();
    parser.error_at_current("first");
    parser.error_at_current("second");
    parser.error_at_next("third");
    assert_eq!(parser.diagnostics, vec!["[line 1] Error at 'a': first"]);
}

#[test]
fn synchronize_skips_to_the_next_line() {
    let mut parser = Parser::new("a b c\nd e".to_string());
    parser.advance();
    parser.error_at_current("bad");
    parser.synchronize();
    assert!(!parser.panic_mode);
    assert!(parser.had_error);
    assert_eq!(parser.previous.kind, TokenType::Newline);
    assert_eq!(parser.current.lexeme, "d");
    parser.error_at_current("again");
    assert_eq!(parser.diagnostics.len(), 2);
}

#[test]
fn synchronize_stops_at_the_end() {
    let mut parser = Parser::new("a b c".to_string());
    parser.advance();
    parser.synchronize();
    assert_eq!(parser.current.kind, TokenType::Eof);
}

#[test]
fn consume_takes_the_expected_token() {
    let mut parser = Parser::new("( x".to_string());
    parser.advance();
    parser.consume(TokenType::LeftParen, "Expect '('.");
    assert_eq!(parser.previous.kind, TokenType::LeftParen);
    assert_eq!(parser.current.kind, TokenType::Identifier);
    assert!(parser.diagnostics.is_empty());
}

#[test]
fn consume_reports_another_token() {
    let mut parser = Parser::new("x )".to_string());
    parser.advance();
    parser.consume(TokenType::LeftParen, "Expect '('.");
    assert_eq!(parser.current.kind, TokenType::Identifier);
    assert_eq!(parser.diagnostics, vec!["[line 1] Error at 'x': Expect '('."]);
}

#[test]
fn consume_passes_at_the_end() {
    let mut parser = Parser::new("".to_string());
    parser.advance();
    parser.consume(TokenType::RightBrace, "Expect '}'.");
    assert!(parser.diagnostics.is_empty());
    assert_eq!(parser.previous.kind, TokenType::Eof);
}

#[test]
fn match_token_advances_on_a_match_only() {
    let mut parser = Parser::new("print x".to_string());
    parser.advance();
    assert!(!parser.match_token(TokenType::If));
    assert_eq!(parser.current.kind, TokenType::Print);
    assert!(parser.check(TokenType::Print));
    assert!(!parser.check(TokenType::Identifier));
    assert!(parser.match_token(TokenType::Print));
    assert_eq!(parser.previous.kind, TokenType::Print);
    assert_eq!(parser.current.kind, TokenType::Identifier);
}

#[test]
fn reset_goes_back_to_the_start_and_keeps_the_diagnostics() {
    let mut parser = Parser::new("a\nb".to_string());
    parser.advance();
    parser.advance();
    parser.advance();
    parser.error_at_current("bad");
    parser.reset();
    assert_eq!(window(&parser), vec![TokenType::Empty; 5]);
    assert!(!parser.had_error);
    assert!(!parser.panic_mode);
    assert_eq!(parser.diagnostics.len(), 1);
    parser.advance();
    assert_eq!(parser.current.lexeme, "a");
    assert_eq!(parser.current.line, 1);
}

#[test]
fn skip_body_passes_balanced_braces() {
    let mut parser = Parser::new("{ a { b } c } d".to_string());
    parser.advance();
    parser.skip_body();
    assert_eq!(parser.previous.kind, TokenType::RightBrace);
    assert_eq!(parser.current.lexeme, "d");
}

#[test]
fn skip_body_does_nothing_without_a_brace() {
    let mut parser = Parser::new("a { b }".to_string());
    parser.advance();
    parser.skip_body();
    assert_eq!(parser.current.lexeme, "a");
}

#[test]
fn skip_body_stops_at_the_end_of_an_open_body() {
    let mut parser = Parser::new("{ a { b }".to_string());
    parser.advance();
    parser.skip_body();
    assert_eq!(parser.current.kind, TokenType::Eof);
}

#[test]
fn a_parser_goes_by_the_classes_it_is_given() {
    let letter = CharClass { letter: true, word: true };
    let mut parser = Parser::with_classes("#a b".to_string(), vec![letter, letter]);
    parser.advance();
    assert_eq!(parser.current.kind, TokenType::Identifier);
    assert_eq!(parser.current.lexeme, "#a");
    assert_eq!(parser.next.kind, TokenType::Error);
    assert_eq!(parser.next_2.kind, TokenType::Eof);
}
