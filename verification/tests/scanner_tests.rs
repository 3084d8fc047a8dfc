use rmax::scanner::{
    classify, float_lexemes, float_lexemes_classified, CharClass, Scanner, Token, TokenType,
};
use rmax::value::Value;

fn scan_all(source: &str) -> Vec<Token> {
    let mut scanner = Scanner::new(source.to_string());
    let mut tokens = Vec::new();
    loop {
        let token = scanner.scan_token();
        let done = token.kind == TokenType::Eof;
        tokens.push(token);
        if done {
            return tokens;
        }
    }
}

fn kinds(source: &str) -> Vec<TokenType> {
    scan_all(source).iter().map(|t| t.kind).collect()
}

fn lexemes(source: &str) -> Vec<String> {
    scan_all(source).iter().map(|t| t.lexeme.clone()).collect()
}

#[test]
fn scans_punctuation() {
    assert_eq!(
        kinds("(){}[],.-+:;/*"),
        vec![
            TokenType::LeftParen,
            TokenType::RightParen,
            TokenType::LeftBrace,
            TokenType::RightBrace,
            TokenType::LeftSquareBracket,
            TokenType::RightSquareBracket,
            TokenType::Comma,
            TokenType::Dot,
            TokenType::Minus,
            TokenType::Plus,
            TokenType::Colon,
            TokenType::Semicolon,
            TokenType::Slash,
            TokenType::Star,
            TokenType::Eof,
        ]
    );
}

#[test]
fn scans_one_and_two_character_operators() {
    assert_eq!(
        kinds("! != = == > >= < <="),
        vec![
            TokenType::Bang,
            TokenType::BangEqual,
            TokenType::Equal,
            TokenType::EqualEqual,
            TokenType::Greater,
            TokenType::GreaterEqual,
            TokenType::Less,
            TokenType::LessEqual,
            TokenType::Eof,
        ]
    );
    assert_eq!(lexemes("!= <")[0], "!=");
    assert_eq!(lexemes("!= <")[1], "<");
}

#[test]
fn scans_keywords_and_type_annotations() {
    assert_eq!(
        kinds("and or if else while for in break continue print return true false none class super me cls"),
        vec![
            TokenType::And,
            TokenType::Or,
            TokenType::If,
            TokenType::Else,
            TokenType::While,
            TokenType::For,
            TokenType::In,
            TokenType::Break,
            TokenType::Continue,
            TokenType::Print,
            TokenType::Return,
            TokenType::True,
            TokenType::False,
            TokenType::Nil,
            TokenType::Class,
            TokenType::Super,
            TokenType::Me,
            TokenType::Cls,
            TokenType::Eof,
        ]
    );
    assert_eq!(
        kinds("int float string bool"),
        vec![
            TokenType::TypeInt,
            TokenType::TypeFloat,
            TokenType::TypeString,
            TokenType::TypeBool,
            TokenType::Eof,
        ]
    );
}

#[test]
fn scans_identifiers_with_digits_and_underscores() {
    let tokens = scan_all("foo _bar b4z_ printer");
    assert_eq!(
        tokens.iter().map(|t| t.kind).collect::<Vec<_>>(),
        vec![
            TokenType::Identifier,
            TokenType::Identifier,
            TokenType::Identifier,
            TokenType::Identifier,
            TokenType::Eof,
        ]
    );
    assert_eq!(tokens[0].lexeme, "foo");
    assert_eq!(tokens[1].lexeme, "_bar");
    assert_eq!(tokens[2].lexeme, "b4z_");
    assert_eq!(tokens[3].lexeme, "printer");
}

#[test]
fn scans_a_unicode_letter_as_an_identifier() {
    let tokens = scan_all("été");
    assert_eq!(tokens[0].kind, TokenType::Identifier);
    assert_eq!(tokens[0].lexeme, "été");
    assert_eq!(tokens[1].kind, TokenType::Eof);
}

#[test]
fn tells_integers_from_floats() {
    let tokens = scan_all("12 3.25 7. .5");
    assert_eq!(tokens[0].kind, TokenType::Integer);
    assert_eq!(tokens[0].lexeme, "12");
    assert_eq!(tokens[1].kind, TokenType::Float);
    assert_eq!(tokens[1].lexeme, "3.25");
    assert_eq!(tokens[2].kind, TokenType::Integer);
    assert_eq!(tokens[2].lexeme, "7");
    assert_eq!(tokens[3].kind, TokenType::Dot);
    assert_eq!(tokens[4].kind, TokenType::Dot);
    assert_eq!(tokens[5].kind, TokenType::Integer);
    assert_eq!(tokens[5].lexeme, "5");
    assert_eq!(tokens[6].kind, TokenType::Eof);
}

#[test]
fn scans_strings_in_both_quotes() {
    let tokens = scan_all("\"hello\" 'world'");
    assert_eq!(tokens[0].kind, TokenType::String);
    assert_eq!(tokens[0].lexeme, "hello");
    assert_eq!(tokens[1].kind, TokenType::String);
    assert_eq!(tokens[1].lexeme, "world");
    assert_eq!(tokens[2].kind, TokenType::Eof);
}

#[test]
fn keeps_an_escaped_quote_inside_a_string() {
    let tokens = scan_all("\"a\\\"b\" 'c\\'d' \"e\\nf\"");
    assert_eq!(tokens[0].kind, TokenType::String);
    assert_eq!(tokens[0].lexeme, "a\\\"b");
    assert_eq!(tokens[1].kind, TokenType::String);
    assert_eq!(tokens[1].lexeme, "c\\'d");
    assert_eq!(tokens[2].kind, TokenType::String);
    assert_eq!(tokens[2].lexeme, "e\\nf");
}

#[test]
fn the_other_quote_does_not_end_a_string() {
    let tokens = scan_all("\"it's\"");
    assert_eq!(tokens[0].kind, TokenType::String);
    assert_eq!(tokens[0].lexeme, "it's");
}

#[test]
fn reports_an_unterminated_string_on_its_first_line() {
    let tokens = scan_all("\n\"abc\ndef");
    assert_eq!(tokens[0].kind, TokenType::Newline);
    assert_eq!(tokens[1].kind, TokenType::Error);
    assert_eq!(tokens[1].lexeme, "Unterminated string.");
    assert_eq!(tokens[1].line, 2);
    assert_eq!(tokens[2].kind, TokenType::Eof);
    assert_eq!(tokens[2].line, 3);
}

#[test]
fn counts_the_lines_inside_a_string() {
    let tokens = scan_all("\"a\nb\" x");
    assert_eq!(tokens[0].kind, TokenType::String);
    assert_eq!(tokens[0].lexeme, "a\nb");
    assert_eq!(tokens[0].line, 2);
    assert_eq!(tokens[1].line, 2);
}

#[test]
fn reports_a_stray_character() {
    let tokens = scan_all("a # b");
    assert_eq!(tokens[1].kind, TokenType::Error);
    assert_eq!(tokens[1].lexeme, "Unexpected character.");
    assert_eq!(tokens[1].line, 1);
    assert_eq!(tokens[2].kind, TokenType::Identifier);
}

#[test]
fn newlines_are_tokens_and_count_lines() {
    let tokens = scan_all("a\nb\n\nc");
    let expected = vec![
        (TokenType::Identifier, 1),
        (TokenType::Newline, 1),
        (TokenType::Identifier, 2),
        (TokenType::Newline, 2),
        (TokenType::Newline, 3),
        (TokenType::Identifier, 4),
        (TokenType::Eof, 4),
    ];
    assert_eq!(tokens.iter().map(|t| (t.kind, t.line)).collect::<Vec<_>>(), expected);
    assert_eq!(tokens[1].lexeme, "");
}

#[test]
fn skips_spaces_tabs_and_carriage_returns() {
    assert_eq!(
        kinds(" \t\r a \r\n b"),
        vec![TokenType::Identifier, TokenType::Newline, TokenType::Identifier, TokenType::Eof]
    );
}

#[test]
fn skips_a_line_comment_up_to_the_newline() {
    let tokens = scan_all("a -- the rest ) ( \nb");
    assert_eq!(
        tokens.iter().map(|t| t.kind).collect::<Vec<_>>(),
        vec![TokenType::Identifier, TokenType::Newline, TokenType::Identifier, TokenType::Eof]
    );
    assert_eq!(tokens[2].line, 2);
}

#[test]
fn skips_a_block_comment_and_counts_its_lines() {
    let tokens = scan_all("a -* one\ntwo * - still\nthree *- b");
    assert_eq!(
        tokens.iter().map(|t| t.kind).collect::<Vec<_>>(),
        vec![TokenType::Identifier, TokenType::Identifier, TokenType::Eof]
    );
    assert_eq!(tokens[0].line, 1);
    assert_eq!(tokens[1].lexeme, "b");
    assert_eq!(tokens[1].line, 3);
}

#[test]
fn block_comments_do_not_nest() {
    assert_eq!(
        kinds("-* a -* b *- c"),
        vec![TokenType::Identifier, TokenType::Eof]
    );
}

#[test]
fn an_open_block_comment_runs_to_the_end() {
    let tokens = scan_all("a -* b\nc");
    assert_eq!(
        tokens.iter().map(|t| t.kind).collect::<Vec<_>>(),
        vec![TokenType::Identifier, TokenType::Eof]
    );
    assert_eq!(tokens[1].line, 2);
}

#[test]
fn a_single_minus_is_an_operator() {
    assert_eq!(
        kinds("a - b"),
        vec![TokenType::Identifier, TokenType::Minus, TokenType::Identifier, TokenType::Eof]
    );
}

#[test]
fn returns_eof_forever() {
    let mut scanner = Scanner::new("x".to_string());
    assert_eq!(scanner.scan_token().kind, TokenType::Identifier);
    for _ in 0..5 {
        let token = scanner.scan_token();
        assert_eq!(token.kind, TokenType::Eof);
        assert_eq!(token.lexeme, "");
        assert_eq!(token.line, 1);
    }
}

#[test]
fn an_empty_source_is_eof_on_line_one() {
    let tokens = scan_all("");
    assert_eq!(tokens.len(), 1);
    assert_eq!(tokens[0].kind, TokenType::Eof);
    assert_eq!(tokens[0].line, 1);
}

#[test]
fn reset_starts_again_from_the_first_token() {
    let mut scanner = Scanner::new("a\nb".to_string());
    scanner.scan_token();
    scanner.scan_token();
    let b = scanner.scan_token();
    assert_eq!(b.lexeme, "b");
    assert_eq!(b.line, 2);
    scanner.reset();
    let a = scanner.scan_token();
    assert_eq!(a.lexeme, "a");
    assert_eq!(a.line, 1);
}

#[test]
fn a_new_token_has_no_text() {
    let token = Token::new(TokenType::Empty, 7);
    assert_eq!(token.kind, TokenType::Empty);
    assert_eq!(token.lexeme, "");
    assert_eq!(token.line, 7);
}

#[test]
fn only_the_four_annotations_are_types() {
    assert!(TokenType::TypeInt.is_type());
    assert!(TokenType::TypeFloat.is_type());
    assert!(TokenType::TypeString.is_type());
    assert!(TokenType::TypeBool.is_type());
    assert!(!TokenType::TypeFunction.is_type());
    assert!(!TokenType::Identifier.is_type());
    assert!(!TokenType::Integer.is_type());
    assert!(!TokenType::Nil.is_type());
}

fn sample_values() -> Vec<Value> {
    vec![
        Value::Float(1.5f64.to_bits()),
        Value::Integer(3),
        Value::String("s".to_string()),
        Value::Nil,
        Value::True,
        Value::ObjFunction(rmax::object::ObjFunction::new()),
        Value::False,
        Value::IntegerNone,
        Value::FloatNone,
        Value::StringNone,
        Value::BoolNone,
        Value::FunctionNone,
    ]
}

#[test]
fn each_annotation_accepts_its_values_and_its_none() {
    let values = sample_values();
    let accepted = |kind: TokenType| -> Vec<bool> {
        values.iter().map(|v| kind.is_correct_type(v)).collect()
    };
    //                                  Float  Int    Str    Nil    True   Fn     False  INone  FNone  SNone  BNone  FnNone
    assert_eq!(
        accepted(TokenType::TypeFloat),
        vec![true, false, false, false, false, false, false, false, true, false, false, false]
    );
    assert_eq!(
        accepted(TokenType::TypeInt),
        vec![false, true, false, false, false, false, false, true, false, false, false, false]
    );
    assert_eq!(
        accepted(TokenType::TypeString),
        vec![false, false, true, false, false, false, false, false, false, true, false, false]
    );
    assert_eq!(
        accepted(TokenType::TypeBool),
        vec![false, false, false, false, true, false, true, false, false, false, true, false]
    );
    assert_eq!(
        accepted(TokenType::TypeFunction),
        vec![false, false, false, false, false, true, false, false, false, false, false, false]
    );
    assert_eq!(accepted(TokenType::Nil), vec![true; 12]);
    assert_eq!(accepted(TokenType::Identifier), vec![false; 12]);
}

#[test]
fn each_annotation_has_its_typed_none() {
    assert!(matches!(TokenType::TypeFloat.get_none_type(), Value::FloatNone));
    assert!(matches!(TokenType::TypeInt.get_none_type(), Value::IntegerNone));
    assert!(matches!(TokenType::TypeString.get_none_type(), Value::StringNone));
    assert!(matches!(TokenType::TypeBool.get_none_type(), Value::BoolNone));
    assert!(matches!(TokenType::Nil.get_none_type(), Value::Nil));
    assert!(matches!(TokenType::TypeFunction.get_none_type(), Value::Nil));
}

#[test]
fn token_kinds_have_their_texts() {
    assert_eq!(TokenType::LeftParen.text(), "(");
    assert_eq!(TokenType::BangEqual.text(), "!=");
    assert_eq!(TokenType::TypeInt.text(), "int");
    assert_eq!(TokenType::TypeFloat.text(), "float");
    assert_eq!(TokenType::Float.text(), "float");
    assert_eq!(TokenType::Integer.text(), "integer");
    assert_eq!(TokenType::TypeFunction.text(), "function");
    assert_eq!(TokenType::Nil.text(), "none");
    assert_eq!(TokenType::Newline.text(), "newline");
    assert_eq!(TokenType::Eof.text(), "eof");
}

#[test]
fn lists_the_float_literals_of_a_source() {
    assert_eq!(
        float_lexemes("x = 1.5 + 2\nprint 0.25 * x -- 9.9\n\"7.5\" 3.".to_string()),
        vec!["1.5".to_string(), "0.25".to_string()]
    );
    assert!(float_lexemes("print 1 + 2\n".to_string()).is_empty());
}

#[test]
fn classifies_letters_and_numbers() {
    assert_eq!(
        classify("a_1 é٣²#"),
        vec![
            CharClass { letter: true, word: true },
            CharClass { letter: false, word: false },
            CharClass { letter: false, word: true },
            CharClass { letter: false, word: false },
            CharClass { letter: true, word: true },
            CharClass { letter: false, word: true },
            CharClass { letter: false, word: true },
            CharClass { letter: false, word: false },
        ]
    );
    assert!(classify("").is_empty());
}

#[test]
fn a_number_of_another_script_continues_an_identifier_but_starts_none() {
    let tokens = scan_all("x٣ ٣");
    assert_eq!(tokens[0].kind, TokenType::Identifier);
    assert_eq!(tokens[0].lexeme, "x٣");
    assert_eq!(tokens[1].kind, TokenType::Error);
    assert_eq!(tokens[1].lexeme, "Unexpected character.");
    assert_eq!(tokens[2].kind, TokenType::Eof);
}

#[test]
fn a_scanner_goes_by_the_classes_it_is_given() {
    let letter = CharClass { letter: true, word: true };
    let number = CharClass { letter: false, word: true };
    let other = CharClass { letter: false, word: false };
    let mut scanner =
        Scanner::with_classes("ab #c".to_string(), vec![other, letter, other, letter, number]);
    let kinds_and_texts: Vec<(TokenType, String)> = (0..4)
        .map(|_| {
            let token = scanner.scan_token();
            (token.kind, token.lexeme)
        })
        .collect();
    assert_eq!(
        kinds_and_texts,
        vec![
            (TokenType::Error, "Unexpected character.".to_string()),
            (TokenType::Identifier, "b".to_string()),
            (TokenType::Identifier, "#c".to_string()),
            (TokenType::Eof, "".to_string()),
        ]
    );
    let mut unclassified = Scanner::with_classes("ab".to_string(), Vec::new());
    assert_eq!(unclassified.scan_token().kind, TokenType::Error);
    assert_eq!(unclassified.scan_token().kind, TokenType::Error);
    assert_eq!(unclassified.scan_token().kind, TokenType::Eof);
}

#[test]
fn lists_the_float_literals_by_the_classes_given() {
    let source = "a1.5 2.5";
    assert_eq!(float_lexemes(source.to_string()), vec!["2.5".to_string()]);
    assert_eq!(
        float_lexemes_classified(source.to_string(), classify(source)),
        vec!["2.5".to_string()]
    );
    let other = CharClass { letter: false, word: false };
    assert_eq!(
        float_lexemes_classified(source.to_string(), vec![other; 8]),
        vec!["1.5".to_string(), "2.5".to_string()]
    );
}
