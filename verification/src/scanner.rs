//! The scanner: source text to tokens, on demand.
use vstd::prelude::*;
use vstd::string::*;
use crate::text::is_decimal;
use crate::value::{Value, ValueView};

verus! {

/// The kind of a token.
#[derive(Debug, PartialEq, Eq, Clone, Copy, Structural)]
pub enum TokenType {
    // Single-character tokens
    LeftParen,
    RightParen,
    LeftBrace,
    RightBrace,
    LeftSquareBracket,
    RightSquareBracket,
    Comma,
    Dot,
    Minus,
    Plus,
    Colon,
    Semicolon,
    Slash,
    Star,
    // One or two character tokens
    Bang,
    BangEqual,
    Equal,
    EqualEqual,
    Greater,
    GreaterEqual,
    Less,
    LessEqual,
    // Literals
    Identifier,
    String,
    Integer,
    Float,
    // Type annotations
    TypeFloat,
    TypeInt,
    TypeString,
    TypeBool,
    TypeFunction,
    // Keywords
    And,
    Class,
    Else,
    False,
    For,
    In,
    Break,
    Continue,
    If,
    Or,
    Nil,
    Print,
    Return,
    Super,
    Me,
    Cls,
    True,
    While,
    // Synthetic kinds
    Error,
    Eof,
    Newline,
    Empty,
}

impl TokenType {
    /// Whether this kind is one of the four type annotations of the language.
    pub open spec fn spec_is_type(&self) -> bool {
        *self == TokenType::TypeFloat || *self == TokenType::TypeInt || *self == TokenType::TypeString
            || *self == TokenType::TypeBool
    }

    /// Whether this kind is one of the four type annotations of the language.
    #[verifier::when_used_as_spec(spec_is_type)]
    pub fn is_type(&self) -> (r: bool)
        ensures
            r == self.spec_is_type(),
    {
        match self {
            TokenType::TypeFloat
            | TokenType::TypeInt
            | TokenType::TypeString
            | TokenType::TypeBool => true,
            _ => false,
        }
    }
}


/// The text under which diagnostics show a token kind.
pub open spec fn kind_text(kind: TokenType) -> Seq<char> {
    match kind {
        TokenType::LeftParen => "("@,
        TokenType::RightParen => ")"@,
        TokenType::LeftBrace => "{"@,
        TokenType::RightBrace => "}"@,
        TokenType::LeftSquareBracket => "["@,
        TokenType::RightSquareBracket => "]"@,
        TokenType::Comma => ","@,
        TokenType::Dot => "."@,
        TokenType::Minus => "-"@,
        TokenType::Plus => "+"@,
        TokenType::Colon => ":"@,
        TokenType::Semicolon => ";"@,
        TokenType::Slash => "/"@,
        TokenType::Star => "*"@,
        TokenType::Bang => "!"@,
        TokenType::BangEqual => "!="@,
        TokenType::Equal => "="@,
        TokenType::EqualEqual => "=="@,
        TokenType::Greater => ">"@,
        TokenType::GreaterEqual => ">="@,
        TokenType::Less => "<"@,
        TokenType::LessEqual => "<="@,
        TokenType::Identifier => "identifier"@,
        TokenType::String => "string"@,
        TokenType::Integer => "integer"@,
        TokenType::Float => "float"@,
        TokenType::TypeFloat => "float"@,
        TokenType::TypeInt => "int"@,
        TokenType::TypeString => "string"@,
        TokenType::TypeBool => "bool"@,
        TokenType::TypeFunction => "function"@,
        TokenType::And => "and"@,
        TokenType::Class => "class"@,
        TokenType::Else => "else"@,
        TokenType::False => "false"@,
        TokenType::For => "for"@,
        TokenType::In => "in"@,
        TokenType::Break => "break"@,
        TokenType::Continue => "continue"@,
        TokenType::If => "if"@,
        TokenType::Or => "or"@,
        TokenType::Nil => "none"@,
        TokenType::Print => "print"@,
        TokenType::Return => "return"@,
        TokenType::Super => "super"@,
        TokenType::Me => "me"@,
        TokenType::Cls => "cls"@,
        TokenType::True => "true"@,
        TokenType::While => "while"@,
        TokenType::Error => "error"@,
        TokenType::Eof => "eof"@,
        TokenType::Newline => "newline"@,
        TokenType::Empty => "empty"@,
    }
}

/// Whether a value may be assigned to a variable declared with the type
/// annotation `kind`: a value of that type or its typed none; a variable
/// without annotation, marked by [`TokenType::Nil`], takes any value.
pub open spec fn type_accepts(kind: TokenType, value: ValueView) -> bool {
    match kind {
        TokenType::TypeFloat => value is Float || value is FloatNone,
        TokenType::TypeInt => value is Integer || value is IntegerNone,
        TokenType::TypeString => value is String || value is StringNone,
        TokenType::TypeBool => value is True || value is False || value is BoolNone,
        TokenType::TypeFunction => value is ObjFunction,
        TokenType::Nil => true,
        _ => false,
    }
}

/// The typed none that a variable of the given type holds before it is
/// assigned.
pub open spec fn none_of(kind: TokenType) -> ValueView {
    match kind {
        TokenType::TypeFloat => ValueView::FloatNone,
        TokenType::TypeInt => ValueView::IntegerNone,
        TokenType::TypeString => ValueView::StringNone,
        TokenType::TypeBool => ValueView::BoolNone,
        _ => ValueView::Nil,
    }
}

impl TokenType {
    /// Whether a value may be assigned to a variable declared with this
    /// type annotation.
    pub fn is_correct_type(&self, value: &Value) -> (r: bool)
        ensures
            r == type_accepts(*self, value@),
    {
        match self {
            TokenType::TypeFloat => match value {
                Value::Float(_) => true,
                Value::FloatNone => true,
                _ => false,
            },
            TokenType::TypeInt => match value {
                Value::Integer(_) => true,
                Value::IntegerNone => true,
                _ => false,
            },
            TokenType::TypeString => match value {
                Value::String(_) => true,
                Value::StringNone => true,
                _ => false,
            },
            TokenType::TypeBool => match value {
                Value::True | Value::False => true,
                Value::BoolNone => true,
                _ => false,
            },
            TokenType::TypeFunction => match value {
                Value::ObjFunction(_) => true,
                _ => false,
            },
            TokenType::Nil => true,
            _ => false,
        }
    }

    /// The typed none of this type annotation.
    pub fn get_none_type(&self) -> (r: Value)
        ensures
            r@ == none_of(*self),
    {
        match self {
            TokenType::TypeFloat => Value::FloatNone,
            TokenType::TypeInt => Value::IntegerNone,
            TokenType::TypeString => Value::StringNone,
            TokenType::TypeBool => Value::BoolNone,
            _ => Value::Nil,
        }
    }

    /// The text under which diagnostics show this kind.
    pub fn text(&self) -> (r: String)
        ensures
            r@ == kind_text(*self),
    {
        let token = match self {
            TokenType::LeftParen => "(",
            TokenType::RightParen => ")",
            TokenType::LeftBrace => "{",
            TokenType::RightBrace => "}",
            TokenType::LeftSquareBracket => "[",
            TokenType::RightSquareBracket => "]",
            TokenType::Comma => ",",
            TokenType::Dot => ".",
            TokenType::Minus => "-",
            TokenType::Plus => "+",
            TokenType::Colon => ":",
            TokenType::Semicolon => ";",
            TokenType::Slash => "/",
            TokenType::Star => "*",
            TokenType::Bang => "!",
            TokenType::BangEqual => "!=",
            TokenType::Equal => "=",
            TokenType::EqualEqual => "==",
            TokenType::Greater => ">",
            TokenType::GreaterEqual => ">=",
            TokenType::Less => "<",
            TokenType::LessEqual => "<=",
            TokenType::Identifier => "identifier",
            TokenType::String => "string",
            TokenType::Integer => "integer",
            TokenType::Float => "float",
            TokenType::TypeFloat => "float",
            TokenType::TypeInt => "int",
            TokenType::TypeString => "string",
            TokenType::TypeBool => "bool",
            TokenType::TypeFunction => "function",
            TokenType::And => "and",
            TokenType::Class => "class",
            TokenType::Else => "else",
            TokenType::False => "false",
            TokenType::For => "for",
            TokenType::In => "in",
            TokenType::Break => "break",
            TokenType::Continue => "continue",
            TokenType::If => "if",
            TokenType::Or => "or",
            TokenType::Nil => "none",
            TokenType::Print => "print",
            TokenType::Return => "return",
            TokenType::Super => "super",
            TokenType::Me => "me",
            TokenType::Cls => "cls",
            TokenType::True => "true",
            TokenType::While => "while",
            TokenType::Error => "error",
            TokenType::Eof => "eof",
            TokenType::Newline => "newline",
            TokenType::Empty => "empty",
        };
        token.to_owned()
    }
}

/// A token: its kind, the text it was scanned from, and its source line.
#[derive(Debug)]
pub struct Token {
    pub kind: TokenType,
    pub lexeme: String,
    pub line: usize,
}

/// The mathematical value of a [`Token`].
pub struct TokenView {
    pub kind: TokenType,
    pub lexeme: Seq<char>,
    pub line: usize,
}

impl View for Token {
    type V = TokenView;

    open spec fn view(&self) -> TokenView {
        TokenView { kind: self.kind, lexeme: self.lexeme@, line: self.line }
    }
}

impl Clone for Token {
    fn clone(&self) -> (r: Token)
        ensures
            r@ == self@,
    {
        Token { kind: self.kind, lexeme: self.lexeme.clone(), line: self.line }
    }
}

impl Token {
    /// A token of the given kind and line without text.
    pub fn new(kind: TokenType, line: usize) -> (r: Token)
        ensures
            r@ == (TokenView { kind: kind, lexeme: Seq::empty(), line: line }),
    {
        Token { kind, lexeme: String::new(), line }
    }
}

/// Whether the character is alphabetic, as `char::is_alphabetic` finds it.
pub uninterp spec fn alphabetic(c: char) -> bool;

/// Whether the character is alphabetic or numeric, as
/// `char::is_alphanumeric` finds it.
pub uninterp spec fn alphanumeric(c: char) -> bool;

/// Calls `char::is_alphabetic`. The contract gives its result the name
/// [`alphabetic`]; nothing is claimed of which characters those are.
#[verifier::external_body]
fn char_is_alphabetic(c: char) -> (r: bool)
    ensures
        r == alphabetic(c),
{
    c.is_alphabetic()
}

/// Calls `char::is_alphanumeric`. The contract gives its result the name
/// [`alphanumeric`]; nothing is claimed of which characters those are.
#[verifier::external_body]
fn char_is_alphanumeric(c: char) -> (r: bool)
    ensures
        r == alphanumeric(c),
{
    c.is_alphanumeric()
}


/// What the scanner has to know of a character besides the character
/// itself: whether it is a letter, and whether it is a letter or a number.
#[derive(Debug, Clone, Copy, PartialEq, Eq, Structural)]
pub struct CharClass {
    pub letter: bool,
    pub word: bool,
}

/// The class of a character, as `char::is_alphabetic` and
/// `char::is_alphanumeric` find it.
pub open spec fn class_of(c: char) -> CharClass {
    CharClass { letter: alphabetic(c), word: alphanumeric(c) }
}

/// The classes of the characters of a text.
pub open spec fn classes_of(text: Seq<char>) -> Seq<CharClass> {
    Seq::new(text.len(), |i: int| class_of(text[i]))
}

/// A source as the scanner reads it: its text, and the class of each of its
/// characters.
pub struct SourceView {
    pub text: Seq<char>,
    pub classes: Seq<CharClass>,
}

impl SourceView {
    /// The source of a text, with each character in the class that the
    /// standard library finds for it.
    pub open spec fn of(text: Seq<char>) -> SourceView {
        SourceView { text: text, classes: classes_of(text) }
    }

    /// The class of the character at `i`; a character without class is
    /// neither a letter nor a number.
    pub open spec fn class_at(self, i: int) -> CharClass {
        if 0 <= i < self.classes.len() {
            self.classes[i]
        } else {
            CharClass { letter: false, word: false }
        }
    }

    /// Whether the character at `i` may start an identifier: a letter or
    /// `_`.
    pub open spec fn starts_identifier(self, i: int) -> bool {
        self.class_at(i).letter || self.text[i] == '_'
    }

    /// Whether the character at `i` may continue an identifier: a letter, a
    /// number or `_`.
    pub open spec fn continues_identifier(self, i: int) -> bool {
        self.class_at(i).word || self.text[i] == '_'
    }
}

/// The character at `i`, or the null character beyond the end of the text.
pub open spec fn char_at(s: Seq<char>, i: int) -> char {
    if 0 <= i < s.len() {
        s[i]
    } else {
        '\0'
    }
}

/// The line counter after `n` more newlines; it stops at the largest number.
pub open spec fn add_lines(line: usize, n: int) -> usize {
    if line + n > usize::MAX {
        usize::MAX
    } else {
        (line + n) as usize
    }
}

/// The number of newlines among the characters from `from` up to `to`.
pub open spec fn count_newlines(s: Seq<char>, from: int, to: int) -> int
    decreases to - from,
{
    if from >= to {
        0
    } else {
        count_newlines(s, from, to - 1) + (if char_at(s, to - 1) == '\n' {
            1int
        } else {
            0int
        })
    }
}

/// The first position from `pos` on that holds no digit.
pub open spec fn digits_end(s: Seq<char>, pos: int) -> int
    decreases s.len() - pos,
{
    if 0 <= pos < s.len() && is_decimal(s[pos]) {
        digits_end(s, pos + 1)
    } else {
        pos
    }
}

/// The first position from `pos` on that does not continue an identifier.
pub open spec fn identifier_end(source: SourceView, pos: int) -> int
    decreases source.text.len() - pos,
{
    if 0 <= pos < source.text.len() && source.continues_identifier(pos) {
        identifier_end(source, pos + 1)
    } else {
        pos
    }
}

/// The position of the first newline from `pos` on, or the end of the text.
pub open spec fn line_end(s: Seq<char>, pos: int) -> int
    decreases s.len() - pos,
{
    if 0 <= pos < s.len() && s[pos] != '\n' {
        line_end(s, pos + 1)
    } else {
        pos
    }
}

/// The position behind the first `*-` from `pos` on, or the end of the text
/// where the block comment is not closed.
pub open spec fn comment_end(s: Seq<char>, pos: int) -> int
    decreases s.len() - pos,
{
    if 0 <= pos < s.len() {
        if s[pos] == '*' && char_at(s, pos + 1) == '-' {
            pos + 2
        } else {
            comment_end(s, pos + 1)
        }
    } else {
        pos
    }
}

/// A block comment ends behind where its text starts, and inside the text.
pub proof fn lemma_comment_end_bounds(s: Seq<char>, pos: int)
    requires
        0 <= pos <= s.len(),
    ensures
        pos <= comment_end(s, pos) <= s.len(),
    decreases s.len() - pos,
{
    if pos < s.len() {
        if s[pos] == '*' && char_at(s, pos + 1) == '-' {
        } else {
            lemma_comment_end_bounds(s, pos + 1);
        }
    }
}

/// The position of the quote that closes a string whose text starts at
/// `pos`, or the end of the text where it is not closed. A backslash before
/// a quote escapes it.
pub open spec fn string_end(s: Seq<char>, pos: int, quote: char) -> int
    decreases s.len() + 1 - pos,
{
    if 0 <= pos < s.len() && s[pos] != quote {
        if s[pos] == '\\' && char_at(s, pos + 1) == quote {
            string_end(s, pos + 2, quote)
        } else {
            string_end(s, pos + 1, quote)
        }
    } else {
        pos
    }
}

/// Where the next token starts, and the line there: spaces, tabs, carriage
/// returns and block comments are skipped; a line comment is skipped up to
/// its newline.
pub open spec fn skip_blank(s: Seq<char>, pos: int, line: usize) -> (int, usize)
    decreases s.len() - pos,
{
    if 0 <= pos < s.len() {
        let c = s[pos];
        if c == ' ' || c == '\r' || c == '\t' {
            skip_blank(s, pos + 1, line)
        } else if c == '-' && char_at(s, pos + 1) == '-' {
            (line_end(s, pos), line)
        } else if c == '-' && char_at(s, pos + 1) == '*' {
            let end = comment_end(s, pos + 2);
            proof {
                lemma_comment_end_bounds(s, pos + 2);
            }
            skip_blank(s, end, add_lines(line, count_newlines(s, pos + 2, end)))
        } else {
            (pos, line)
        }
    } else {
        (pos, line)
    }
}

/// The kind of the word `lexeme`: a keyword, a type annotation, or an
/// identifier.
pub open spec fn word_kind(lexeme: Seq<char>) -> TokenType {
    if lexeme == "and"@ {
        TokenType::And
    } else if lexeme == "class"@ {
        TokenType::Class
    } else if lexeme == "else"@ {
        TokenType::Else
    } else if lexeme == "false"@ {
        TokenType::False
    } else if lexeme == "for"@ {
        TokenType::For
    } else if lexeme == "in"@ {
        TokenType::In
    } else if lexeme == "break"@ {
        TokenType::Break
    } else if lexeme == "continue"@ {
        TokenType::Continue
    } else if lexeme == "if"@ {
        TokenType::If
    } else if lexeme == "or"@ {
        TokenType::Or
    } else if lexeme == "print"@ {
        TokenType::Print
    } else if lexeme == "return"@ {
        TokenType::Return
    } else if lexeme == "super"@ {
        TokenType::Super
    } else if lexeme == "me"@ {
        TokenType::Me
    } else if lexeme == "cls"@ {
        TokenType::Cls
    } else if lexeme == "true"@ {
        TokenType::True
    } else if lexeme == "while"@ {
        TokenType::While
    } else if lexeme == "none"@ {
        TokenType::Nil
    } else if lexeme == "int"@ {
        TokenType::TypeInt
    } else if lexeme == "float"@ {
        TokenType::TypeFloat
    } else if lexeme == "bool"@ {
        TokenType::TypeBool
    } else if lexeme == "string"@ {
        TokenType::TypeString
    } else {
        TokenType::Identifier
    }
}

/// The kind of the token that the punctuation character `c` starts, where
/// `next` is the character behind it, and how many characters it takes;
/// `None` where `c` starts no such token.
pub open spec fn punctuation(c: char, next: char) -> Option<(TokenType, int)> {
    if c == '(' {
        Some((TokenType::LeftParen, 1int))
    } else if c == ')' {
        Some((TokenType::RightParen, 1int))
    } else if c == '{' {
        Some((TokenType::LeftBrace, 1int))
    } else if c == '}' {
        Some((TokenType::RightBrace, 1int))
    } else if c == '[' {
        Some((TokenType::LeftSquareBracket, 1int))
    } else if c == ']' {
        Some((TokenType::RightSquareBracket, 1int))
    } else if c == ',' {
        Some((TokenType::Comma, 1int))
    } else if c == '.' {
        Some((TokenType::Dot, 1int))
    } else if c == '-' {
        Some((TokenType::Minus, 1int))
    } else if c == '+' {
        Some((TokenType::Plus, 1int))
    } else if c == ':' {
        Some((TokenType::Colon, 1int))
    } else if c == ';' {
        Some((TokenType::Semicolon, 1int))
    } else if c == '/' {
        Some((TokenType::Slash, 1int))
    } else if c == '*' {
        Some((TokenType::Star, 1int))
    } else if c == '!' {
        if next == '=' {
            Some((TokenType::BangEqual, 2int))
        } else {
            Some((TokenType::Bang, 1int))
        }
    } else if c == '=' {
        if next == '=' {
            Some((TokenType::EqualEqual, 2int))
        } else {
            Some((TokenType::Equal, 1int))
        }
    } else if c == '<' {
        if next == '=' {
            Some((TokenType::LessEqual, 2int))
        } else {
            Some((TokenType::Less, 1int))
        }
    } else if c == '>' {
        if next == '=' {
            Some((TokenType::GreaterEqual, 2int))
        } else {
            Some((TokenType::Greater, 1int))
        }
    } else {
        None
    }
}

/// The outcome of scanning one token: the token, and where the scanner
/// stands after it.
pub struct Scanned {
    pub token: TokenView,
    pub start: int,
    pub current: int,
    pub line: usize,
}

/// The token that starts at `start`, which is inside the text and behind
/// all blanks, on line `line`.
pub open spec fn scan_at(source: SourceView, start: int, line: usize) -> Scanned {
    let s = source.text;
    let c = s[start];
    if source.starts_identifier(start) {
        let end = identifier_end(source, start + 1);
        let lexeme = s.subrange(start, end);
        Scanned {
            token: TokenView { kind: word_kind(lexeme), lexeme: lexeme, line: line },
            start: start,
            current: end,
            line: line,
        }
    } else if is_decimal(c) {
        let whole = digits_end(s, start + 1);
        if char_at(s, whole) == '.' && is_decimal(char_at(s, whole + 1)) {
            let end = digits_end(s, whole + 1);
            Scanned {
                token: TokenView {
                    kind: TokenType::Float,
                    lexeme: s.subrange(start, end),
                    line: line,
                },
                start: start,
                current: end,
                line: line,
            }
        } else {
            Scanned {
                token: TokenView {
                    kind: TokenType::Integer,
                    lexeme: s.subrange(start, whole),
                    line: line,
                },
                start: start,
                current: whole,
                line: line,
            }
        }
    } else if c == '\n' {
        Scanned {
            token: TokenView { kind: TokenType::Newline, lexeme: Seq::empty(), line: line },
            start: start + 1,
            current: start + 1,
            line: add_lines(line, 1),
        }
    } else if c == '"' || c == '\'' {
        let end = string_end(s, start + 1, c);
        if end >= s.len() {
            Scanned {
                token: TokenView {
                    kind: TokenType::Error,
                    lexeme: "Unterminated string."@,
                    line: line,
                },
                start: start + 1,
                current: s.len() as int,
                line: add_lines(line, count_newlines(s, start + 1, s.len() as int)),
            }
        } else {
            let after = add_lines(line, count_newlines(s, start + 1, end));
            Scanned {
                token: TokenView {
                    kind: TokenType::String,
                    lexeme: s.subrange(start + 1, end),
                    line: after,
                },
                start: start + 1,
                current: end + 1,
                line: after,
            }
        }
    } else {
        match punctuation(c, char_at(s, start + 1)) {
            Some((kind, width)) => Scanned {
                token: TokenView { kind: kind, lexeme: s.subrange(start, start + width), line: line },
                start: start,
                current: start + width,
                line: line,
            },
            None => Scanned {
                token: TokenView {
                    kind: TokenType::Error,
                    lexeme: "Unexpected character."@,
                    line: line,
                },
                start: start,
                current: start + 1,
                line: line,
            },
        }
    }
}

/// The next token of the text `s` for a scanner that stands at `pos` on
/// line `line`, and where the scanner stands after it. At the end of the
/// text the token is `Eof`, and the scanner stays there.
#[verifier::opaque]
pub open spec fn scan(source: SourceView, pos: int, line: usize) -> Scanned {
    let (start, at_line) = skip_blank(source.text, pos, line);
    if start >= source.text.len() {
        Scanned {
            token: TokenView { kind: TokenType::Eof, lexeme: Seq::empty(), line: at_line },
            start: start,
            current: start,
            line: at_line,
        }
    } else {
        scan_at(source, start, at_line)
    }
}


/// The counter of lines adds up: `a` newlines and then `b` more are `a + b`.
pub proof fn lemma_add_lines(line: usize, a: int, b: int)
    requires
        a >= 0,
        b >= 0,
    ensures
        add_lines(add_lines(line, a), b) == add_lines(line, a + b),
        add_lines(line, 0) == line,
        add_lines(line, a) >= line,
{
}

/// Counting newlines up to `to` and on to `next` counts them up to `next`.
pub proof fn lemma_count_newlines_split(s: Seq<char>, from: int, to: int, next: int)
    requires
        from <= to <= next,
    ensures
        count_newlines(s, from, next) == count_newlines(s, from, to) + count_newlines(s, to, next),
        count_newlines(s, from, to) >= 0,
    decreases next - from,
{
    if to < next {
        lemma_count_newlines_split(s, from, to, next - 1);
        lemma_count_newlines_split(s, to, to, next - 1);
    } else if from < to {
        lemma_count_newlines_split(s, from, to - 1, to - 1);
    }
}

/// The scanner: a cursor over the source text that hands out one token at a
/// time.
#[derive(Debug)]
pub struct Scanner {
    /// Where the token that is being scanned starts.
    pub start: usize,
    /// The cursor: the next character to read.
    pub current: usize,
    /// The line of the cursor, counted from one.
    pub line: usize,
    pub source: String,
    /// The class of each character of the source.
    pub classes: Vec<CharClass>,
    /// The number of characters of the source.
    pub length: usize,
}

/// The classes of the characters of a text, as the standard library finds
/// them.
pub fn classify(text: &str) -> (r: Vec<CharClass>)
    ensures
        r@ == classes_of(text@),
{
    let length: usize = text.unicode_len();
    let mut classes: Vec<CharClass> = Vec::new();
    let mut i: usize = 0;
    while i < length
        invariant
            i <= length,
            length == text@.len(),
            classes@.len() == i,
            forall|j: int| 0 <= j < i ==> classes@[j] == class_of(text@[j]),
        decreases length - i,
    {
        let c = text.get_char(i);
        classes.push(CharClass { letter: char_is_alphabetic(c), word: char_is_alphanumeric(c) });
        i = i + 1;
    }
    assert(classes@ =~= classes_of(text@));
    classes
}

impl Scanner {
    /// The cursor is inside the text or at its end, and the token that is
    /// being scanned starts before it.
    pub open spec fn well_formed(&self) -> bool {
        &&& self.length == self.source@.len()
        &&& self.start <= self.current <= self.length
    }

    /// The source that the scanner reads.
    pub open spec fn source_view(&self) -> SourceView {
        SourceView { text: self.source@, classes: self.classes@ }
    }

    /// A scanner at the start of the source, on line one. Each character is
    /// in the class that the standard library finds for it.
    pub fn new(source: String) -> (r: Scanner)
        ensures
            r.well_formed(),
            r.source_view() == SourceView::of(source@),
            r.start == 0,
            r.current == 0,
            r.line == 1,
    {
        let classes = classify(source.as_str());
        Scanner::with_classes(source, classes)
    }

    /// A scanner at the start of the source, on line one, which takes the
    /// class of each character from `classes`.
    pub fn with_classes(source: String, classes: Vec<CharClass>) -> (r: Scanner)
        ensures
            r.well_formed(),
            r.source_view() == (SourceView { text: source@, classes: classes@ }),
            r.start == 0,
            r.current == 0,
            r.line == 1,
    {
        let length: usize = source.as_str().unicode_len();
        Scanner { start: 0, current: 0, line: 1, source, classes, length }
    }

    fn class_at(&self, i: usize) -> (r: CharClass)
        ensures
            r == self.source_view().class_at(i as int),
    {
        if i < self.classes.len() {
            self.classes[i]
        } else {
            CharClass { letter: false, word: false }
        }
    }

    /// Puts the scanner back to the start of its source.
    pub fn reset(&mut self)
        requires
            old(self).well_formed(),
        ensures
            final(self).well_formed(),
            final(self).source == old(self).source,
            final(self).classes == old(self).classes,
            final(self).start == 0,
            final(self).current == 0,
            final(self).line == 1,
    {
        self.start = 0;
        self.current = 0;
        self.line = 1;
    }

    /// Scans the next token. At the end of the source it returns `Eof`, as
    /// often as it is asked.
    pub fn scan_token(&mut self) -> (token: Token)
        requires
            old(self).well_formed(),
        ensures
            final(self).well_formed(),
            final(self).source == old(self).source,
            final(self).classes == old(self).classes,
            token@ == scan(old(self).source_view(), old(self).current as int, old(self).line).token,
            final(self).start == scan(old(self).source_view(), old(self).current as int, old(self).line).start,
            final(self).current == scan(
                old(self).source_view(),
                old(self).current as int,
                old(self).line,
            ).current,
            final(self).line == scan(old(self).source_view(), old(self).current as int, old(self).line).line,
    {
        reveal(scan);
        self.skip_whitespace();
        self.start = self.current;

        if self.is_at_end() {
            assert(self.source@.subrange(self.start as int, self.current as int) =~= Seq::empty());
            return self.make_token(TokenType::Eof);
        }
        let c = self.advance();
        if self.class_at(self.start).letter || c == '_' {
            return self.identifier();
        }
        if c >= '0' && c <= '9' {
            return self.number();
        }
        match c {
            '(' => return self.make_token(TokenType::LeftParen),
            ')' => return self.make_token(TokenType::RightParen),
            '{' => return self.make_token(TokenType::LeftBrace),
            '}' => return self.make_token(TokenType::RightBrace),
            '[' => return self.make_token(TokenType::LeftSquareBracket),
            ']' => return self.make_token(TokenType::RightSquareBracket),
            ',' => return self.make_token(TokenType::Comma),
            '.' => return self.make_token(TokenType::Dot),
            '-' => return self.make_token(TokenType::Minus),
            '+' => return self.make_token(TokenType::Plus),
            ':' => return self.make_token(TokenType::Colon),
            ';' => return self.make_token(TokenType::Semicolon),
            '/' => return self.make_token(TokenType::Slash),
            '*' => return self.make_token(TokenType::Star),
            '\n' => {
                self.start = self.current;
                assert(self.source@.subrange(self.start as int, self.current as int) =~= Seq::empty());
                let token = self.make_token(TokenType::Newline);
                self.bump_line();
                return token;
            },
            '!' => {
                if self.match_char('=') {
                    return self.make_token(TokenType::BangEqual);
                } else {
                    return self.make_token(TokenType::Bang);
                }
            },
            '=' => {
                if self.match_char('=') {
                    return self.make_token(TokenType::EqualEqual);
                } else {
                    return self.make_token(TokenType::Equal);
                }
            },
            '<' => {
                if self.match_char('=') {
                    return self.make_token(TokenType::LessEqual);
                } else {
                    return self.make_token(TokenType::Less);
                }
            },
            '>' => {
                if self.match_char('=') {
                    return self.make_token(TokenType::GreaterEqual);
                } else {
                    return self.make_token(TokenType::Greater);
                }
            },
            '"' | '\'' => {
                return self.string(c);
            },
            _ => {},
        }
        self.error_token("Unexpected character.")
    }

    fn bump_line(&mut self)
        ensures
            final(self).line == add_lines(old(self).line, 1),
            final(self).start == old(self).start,
            final(self).current == old(self).current,
            final(self).source == old(self).source,
            final(self).classes == old(self).classes,
            final(self).length == old(self).length,
    {
        if self.line < usize::MAX {
            self.line = self.line + 1;
        }
    }

    fn skip_whitespace(&mut self)
        requires
            old(self).well_formed(),
        ensures
            final(self).well_formed(),
            final(self).source == old(self).source,
            final(self).classes == old(self).classes,
            final(self).start == old(self).start,
            (final(self).current as int, final(self).line) == skip_blank(
                old(self).source@,
                old(self).current as int,
                old(self).line,
            ),
    {
        let ghost s = self.source@;
        loop
            invariant
                self.well_formed(),
                self.source == old(self).source,
                self.classes == old(self).classes,
                self.start == old(self).start,
                s == self.source@,
                skip_blank(s, self.current as int, self.line) == skip_blank(
                    s,
                    old(self).current as int,
                    old(self).line,
                ),
            decreases self.length - self.current,
        {
            let c = self.peek();
            if self.is_at_end() {
                return ;
            }
            if c == ' ' || c == '\r' || c == '\t' {
                self.current = self.current + 1;
            } else if c == '-' && self.peek_next() == '-' {
                let ghost from = self.current as int;
                let ghost line_now = self.line;
                while !self.is_at_end() && self.peek() != '\n'
                    invariant
                        self.well_formed(),
                        self.source == old(self).source,
                        self.classes == old(self).classes,
                        s == self.source@,
                        self.line == line_now,
                        self.start == old(self).start,
                        from <= self.current,
                        line_end(s, self.current as int) == line_end(s, from),
                    decreases self.length - self.current,
                {
                    self.current = self.current + 1;
                }
                assert(line_end(s, self.current as int) == self.current);
                return ;
            } else if c == '-' && self.peek_next() == '*' {
                let ghost line_before = self.line;
                self.current = self.current + 2;
                let ghost body = self.current as int;
                let mut closed = false;
                while !closed && !self.is_at_end()
                    invariant
                        self.well_formed(),
                        self.source == old(self).source,
                        self.classes == old(self).classes,
                        s == self.source@,
                        self.start == old(self).start,
                        body <= self.current,
                        !closed ==> comment_end(s, self.current as int) == comment_end(s, body),
                        closed ==> self.current == comment_end(s, body),
                        self.line == add_lines(line_before, count_newlines(s, body, self.current as int)),
                    decreases self.length - self.current + (if closed { 0int } else { 1int }),
                {
                    let inner = self.peek();
                    proof {
                        lemma_count_newlines_split(s, body, self.current as int, self.current + 1);
                        lemma_count_newlines_split(s, body, self.current + 1, self.current + 2);
                        lemma_count_newlines_split(s, body, body, self.current as int);
                        lemma_add_lines(line_before, count_newlines(s, body, self.current as int), 1);
                        lemma_add_lines(line_before, count_newlines(s, body, self.current as int), 0);
                    }
                    if inner == '*' && self.peek_next() == '-' {
                        self.current = self.current + 2;
                        closed = true;
                    } else {
                        if inner == '\n' {
                            self.bump_line();
                        }
                        self.current = self.current + 1;
                    }
                }
            } else {
                return ;
            }
        }
    }

    fn is_at_end(&self) -> (r: bool)
        ensures
            r == (self.current >= self.length),
    {
        self.current >= self.length
    }

    fn advance(&mut self) -> (c: char)
        requires
            old(self).well_formed(),
            old(self).current < old(self).length,
        ensures
            final(self).well_formed(),
            final(self).source == old(self).source,
            final(self).classes == old(self).classes,
            final(self).start == old(self).start,
            final(self).line == old(self).line,
            final(self).current == old(self).current + 1,
            c == old(self).source@[old(self).current as int],
    {
        self.current = self.current + 1;
        self.source.as_str().get_char(self.current - 1)
    }

    fn match_char(&mut self, expected: char) -> (r: bool)
        requires
            old(self).well_formed(),
            expected != '\0',
        ensures
            final(self).well_formed(),
            final(self).source == old(self).source,
            final(self).classes == old(self).classes,
            final(self).start == old(self).start,
            final(self).line == old(self).line,
            r == (char_at(old(self).source@, old(self).current as int) == expected),
            final(self).current == (if r {
                old(self).current + 1
            } else {
                old(self).current as int
            }),
    {
        if self.is_at_end() {
            return false;
        }
        if self.source.as_str().get_char(self.current) != expected {
            return false;
        }
        self.current = self.current + 1;
        true
    }

    fn peek(&self) -> (c: char)
        requires
            self.well_formed(),
        ensures
            c == char_at(self.source@, self.current as int),
    {
        if self.is_at_end() {
            return '\0';
        }
        self.source.as_str().get_char(self.current)
    }

    fn peek_next(&self) -> (c: char)
        requires
            self.well_formed(),
        ensures
            c == char_at(self.source@, self.current + 1),
    {
        if self.is_at_end() || self.length - self.current < 2 {
            return '\0';
        }
        self.source.as_str().get_char(self.current + 1)
    }

    fn string(&mut self, quote: char) -> (token: Token)
        requires
            old(self).well_formed(),
            old(self).start < old(self).length,
            old(self).current == old(self).start + 1,
            quote == old(self).source@[old(self).start as int],
            quote == '"' || quote == '\'',
            !old(self).source_view().starts_identifier(old(self).start as int),
        ensures
            final(self).well_formed(),
            final(self).source == old(self).source,
            final(self).classes == old(self).classes,
            token@ == scan_at(old(self).source_view(), old(self).start as int, old(self).line).token,
            final(self).start == scan_at(old(self).source_view(), old(self).start as int, old(self).line).start,
            final(self).current == scan_at(
                old(self).source_view(),
                old(self).start as int,
                old(self).line,
            ).current,
            final(self).line == scan_at(old(self).source_view(), old(self).start as int, old(self).line).line,
    {
        let ghost s = self.source@;
        self.start = self.start + 1;
        let start_line: usize = self.line;
        let ghost body = self.current as int;
        while !self.is_at_end() && self.peek() != quote
            invariant
                self.well_formed(),
                self.source == old(self).source,
                self.classes == old(self).classes,
                s == self.source@,
                self.start == old(self).start + 1,
                body == self.start,
                body <= self.current,
                quote == '"' || quote == '\'',
                string_end(s, self.current as int, quote) == string_end(s, body, quote),
                self.line == add_lines(start_line, count_newlines(s, body, self.current as int)),
            decreases self.length - self.current,
        {
            proof {
                lemma_count_newlines_split(s, body, self.current as int, self.current + 1);
                lemma_count_newlines_split(s, body, self.current + 1, self.current + 2);
                lemma_count_newlines_split(s, body, body, self.current as int);
                lemma_add_lines(start_line, count_newlines(s, body, self.current as int), 1);
                lemma_add_lines(start_line, count_newlines(s, body, self.current as int), 0);
            }
            if self.peek() == '\n' {
                self.bump_line();
            }
            if self.peek() == '\\' && self.peek_next() == quote {
                self.current = self.current + 1;
            }
            self.current = self.current + 1;
        }

        assert(string_end(s, self.current as int, quote) == self.current);
        assert(!is_decimal(quote) && quote != '\n');
        if self.is_at_end() {
            return self.error_token_with_line("Unterminated string.", start_line);
        }
        let token = self.make_token(TokenType::String);
        self.current = self.current + 1;
        token
    }

    fn number(&mut self) -> (token: Token)
        requires
            old(self).well_formed(),
            old(self).start < old(self).length,
            old(self).current == old(self).start + 1,
            is_decimal(old(self).source@[old(self).start as int]),
            !old(self).source_view().starts_identifier(old(self).start as int),
        ensures
            final(self).well_formed(),
            final(self).source == old(self).source,
            final(self).classes == old(self).classes,
            token@ == scan_at(old(self).source_view(), old(self).start as int, old(self).line).token,
            final(self).start == old(self).start,
            final(self).current == scan_at(
                old(self).source_view(),
                old(self).start as int,
                old(self).line,
            ).current,
            final(self).line == old(self).line,
    {
        let ghost s = self.source@;
        let ghost first = self.current as int;
        while is_digit_char(self.peek())
            invariant
                self.well_formed(),
                self.source == old(self).source,
                self.classes == old(self).classes,
                s == self.source@,
                self.start == old(self).start,
                self.line == old(self).line,
                first <= self.current,
                digits_end(s, self.current as int) == digits_end(s, first),
            decreases self.length - self.current,
        {
            self.current = self.current + 1;
        }

        if self.peek() == '.' && is_digit_char(self.peek_next()) {
            self.current = self.current + 1;
            let ghost fraction = self.current as int;
            while is_digit_char(self.peek())
                invariant
                    self.well_formed(),
                    self.source == old(self).source,
                    self.classes == old(self).classes,
                    s == self.source@,
                    self.start == old(self).start,
                    self.line == old(self).line,
                    fraction <= self.current,
                    digits_end(s, self.current as int) == digits_end(s, fraction),
                decreases self.length - self.current,
            {
                self.current = self.current + 1;
            }
        } else {
            return self.make_token(TokenType::Integer);
        }

        self.make_token(TokenType::Float)
    }

    fn identifier(&mut self) -> (token: Token)
        requires
            old(self).well_formed(),
            old(self).start < old(self).length,
            old(self).current == old(self).start + 1,
            old(self).source_view().starts_identifier(old(self).start as int),
        ensures
            final(self).well_formed(),
            final(self).source == old(self).source,
            final(self).classes == old(self).classes,
            token@ == scan_at(old(self).source_view(), old(self).start as int, old(self).line).token,
            final(self).start == old(self).start,
            final(self).current == scan_at(
                old(self).source_view(),
                old(self).start as int,
                old(self).line,
            ).current,
            final(self).line == old(self).line,
    {
        let ghost s = self.source@;
        let ghost first = self.current as int;
        while self.continues_word()
            invariant
                self.well_formed(),
                self.source == old(self).source,
                self.classes == old(self).classes,
                s == self.source@,
                self.start == old(self).start,
                self.line == old(self).line,
                first <= self.current,
                identifier_end(self.source_view(), self.current as int) == identifier_end(
                    old(self).source_view(),
                    first,
                ),
            decreases self.length - self.current,
        {
            self.current = self.current + 1;
        }
        let kind = self.identifier_type();
        self.make_token(kind)
    }

    fn continues_word(&self) -> (r: bool)
        requires
            self.well_formed(),
        ensures
            r == (self.current < self.length && self.source_view().continues_identifier(
                self.current as int,
            )),
    {
        if self.is_at_end() {
            return false;
        }
        let c = self.peek();
        self.class_at(self.current).word || c == '_'
    }

    fn identifier_type(&self) -> (kind: TokenType)
        requires
            self.well_formed(),
        ensures
            kind == word_kind(self.source@.subrange(self.start as int, self.current as int)),
    {
        let word = self.source.as_str().substring_char(self.start, self.current);
        if same_text(word, "and") {
            TokenType::And
        } else if same_text(word, "class") {
            TokenType::Class
        } else if same_text(word, "else") {
            TokenType::Else
        } else if same_text(word, "false") {
            TokenType::False
        } else if same_text(word, "for") {
            TokenType::For
        } else if same_text(word, "in") {
            TokenType::In
        } else if same_text(word, "break") {
            TokenType::Break
        } else if same_text(word, "continue") {
            TokenType::Continue
        } else if same_text(word, "if") {
            TokenType::If
        } else if same_text(word, "or") {
            TokenType::Or
        } else if same_text(word, "print") {
            TokenType::Print
        } else if same_text(word, "return") {
            TokenType::Return
        } else if same_text(word, "super") {
            TokenType::Super
        } else if same_text(word, "me") {
            TokenType::Me
        } else if same_text(word, "cls") {
            TokenType::Cls
        } else if same_text(word, "true") {
            TokenType::True
        } else if same_text(word, "while") {
            TokenType::While
        } else if same_text(word, "none") {
            TokenType::Nil
        } else if same_text(word, "int") {
            TokenType::TypeInt
        } else if same_text(word, "float") {
            TokenType::TypeFloat
        } else if same_text(word, "bool") {
            TokenType::TypeBool
        } else if same_text(word, "string") {
            TokenType::TypeString
        } else {
            TokenType::Identifier
        }
    }

    fn make_token(&self, kind: TokenType) -> (token: Token)
        requires
            self.well_formed(),
        ensures
            token@ == (TokenView {
                kind: kind,
                lexeme: self.source@.subrange(self.start as int, self.current as int),
                line: self.line,
            }),
    {
        Token {
            kind,
            lexeme: self.source.as_str().substring_char(self.start, self.current).to_owned(),
            line: self.line,
        }
    }

    fn error_token(&self, message: &str) -> (token: Token)
        ensures
            token@ == (TokenView { kind: TokenType::Error, lexeme: message@, line: self.line }),
    {
        Token { kind: TokenType::Error, lexeme: message.to_owned(), line: self.line }
    }

    fn error_token_with_line(&self, message: &str, line: usize) -> (token: Token)
        ensures
            token@ == (TokenView { kind: TokenType::Error, lexeme: message@, line: line }),
    {
        Token { kind: TokenType::Error, lexeme: message.to_owned(), line: line }
    }
}

/// Whether two texts are the same.
pub fn same_text(a: &str, b: &str) -> (r: bool)
    ensures
        r == (a@ == b@),
{
    a.to_owned() == b.to_owned()
}

/// Whether the character is one of the ten decimal digits.
pub fn is_digit_char(c: char) -> (r: bool)
    ensures
        r == is_decimal(c),
{
    c >= '0' && c <= '9'
}


/// A run of digits ends behind where it starts, and inside the text.
pub proof fn lemma_digits_end_bounds(s: Seq<char>, pos: int)
    requires
        0 <= pos <= s.len(),
    ensures
        pos <= digits_end(s, pos) <= s.len(),
    decreases s.len() - pos,
{
    if pos < s.len() && is_decimal(s[pos]) {
        lemma_digits_end_bounds(s, pos + 1);
    }
}

/// An identifier ends behind where it starts, and inside the text.
pub proof fn lemma_identifier_end_bounds(source: SourceView, pos: int)
    requires
        0 <= pos <= source.text.len(),
    ensures
        pos <= identifier_end(source, pos) <= source.text.len(),
    decreases source.text.len() - pos,
{
    if pos < source.text.len() && source.continues_identifier(pos) {
        lemma_identifier_end_bounds(source, pos + 1);
    }
}

/// A line ends behind where it starts, and inside the text.
pub proof fn lemma_line_end_bounds(s: Seq<char>, pos: int)
    requires
        0 <= pos <= s.len(),
    ensures
        pos <= line_end(s, pos) <= s.len(),
    decreases s.len() - pos,
{
    if pos < s.len() && s[pos] != '\n' {
        lemma_line_end_bounds(s, pos + 1);
    }
}

/// A string ends behind where its text starts, and inside the text.
pub proof fn lemma_string_end_bounds(s: Seq<char>, pos: int, quote: char)
    requires
        0 <= pos <= s.len(),
        quote != '\0',
    ensures
        pos <= string_end(s, pos, quote) <= s.len(),
    decreases s.len() - pos,
{
    if pos < s.len() && s[pos] != quote {
        if s[pos] == '\\' && char_at(s, pos + 1) == quote {
            lemma_string_end_bounds(s, pos + 2, quote);
        } else {
            lemma_string_end_bounds(s, pos + 1, quote);
        }
    }
}

/// Skipping blanks moves the cursor forward inside the text, and the line
/// counter never back.
pub proof fn lemma_skip_blank_bounds(s: Seq<char>, pos: int, line: usize)
    requires
        0 <= pos <= s.len(),
    ensures
        pos <= skip_blank(s, pos, line).0 <= s.len(),
        line <= skip_blank(s, pos, line).1,
    decreases s.len() - pos,
{
    if pos < s.len() {
        let c = s[pos];
        if c == ' ' || c == '\r' || c == '\t' {
            lemma_skip_blank_bounds(s, pos + 1, line);
        } else if c == '-' && char_at(s, pos + 1) == '-' {
            lemma_line_end_bounds(s, pos);
        } else if c == '-' && char_at(s, pos + 1) == '*' {
            let end = comment_end(s, pos + 2);
            lemma_comment_end_bounds(s, pos + 2);
            lemma_count_newlines_split(s, pos + 2, end, end);
            lemma_skip_blank_bounds(s, end, add_lines(line, count_newlines(s, pos + 2, end)));
        }
    }
}

/// Scanning a token moves the cursor forward inside the text, by at least
/// one character unless the token is `Eof`, which is scanned at the end of
/// the text only. No token is `Empty`, and the lines never go back: the
/// token's line is between the scanner's lines before and after it.
pub proof fn lemma_scan_progress(source: SourceView, pos: int, line: usize)
    requires
        0 <= pos <= source.text.len(),
    ensures
        pos <= scan(source, pos, line).current <= source.text.len(),
        0 <= scan(source, pos, line).start <= scan(source, pos, line).current,
        scan(source, pos, line).token.kind != TokenType::Empty,
        scan(source, pos, line).token.kind != TokenType::Eof ==> pos < scan(
            source,
            pos,
            line,
        ).current,
        scan(source, pos, line).token.kind == TokenType::Eof ==> scan(source, pos, line).current
            == source.text.len(),
        line <= scan(source, pos, line).token.line <= scan(source, pos, line).line,
{
    reveal(scan);
    let s = source.text;
    lemma_skip_blank_bounds(s, pos, line);
    let (start, at_line) = skip_blank(s, pos, line);
    if start < s.len() {
        let c = s[start];
        lemma_identifier_end_bounds(source, start + 1);
        lemma_digits_end_bounds(s, start + 1);
        let whole = digits_end(s, start + 1);
        if whole + 1 <= s.len() {
            lemma_digits_end_bounds(s, whole + 1);
        }
        if c == '"' || c == '\'' {
            lemma_string_end_bounds(s, start + 1, c);
            let end = string_end(s, start + 1, c);
            lemma_count_newlines_split(s, start + 1, end, s.len() as int);
        }
    }
}


/// The texts of the float literals that a scanner finds from `pos` on, in
/// the order of the source.
pub open spec fn float_lexemes_from(source: SourceView, pos: int, line: usize) -> Seq<Seq<char>>
    decreases source.text.len() - pos,
{
    let scanned = scan(source, pos, line);
    if scanned.token.kind != TokenType::Eof && pos < scanned.current <= source.text.len() {
        (if scanned.token.kind == TokenType::Float {
            seq![scanned.token.lexeme]
        } else {
            Seq::<Seq<char>>::empty()
        }) + float_lexemes_from(source, scanned.current, scanned.line)
    } else {
        Seq::empty()
    }
}

/// The views of a sequence of texts.
pub open spec fn lexemes_view(texts: Seq<String>) -> Seq<Seq<char>> {
    Seq::new(texts.len(), |i: int| texts[i]@)
}

/// The texts of the float literals of a source, in its order. The host
/// reads the float that each stands for, and hands the compiler the table.
pub fn float_lexemes(source: String) -> (r: Vec<String>)
    ensures
        lexemes_view(r@) == float_lexemes_from(SourceView::of(source@), 0, 1),
{
    float_lexemes_of(Scanner::new(source))
}

/// The texts of the float literals of a source whose characters have the
/// given classes, in its order.
pub fn float_lexemes_classified(source: String, classes: Vec<CharClass>) -> (r: Vec<String>)
    ensures
        lexemes_view(r@) == float_lexemes_from(
            SourceView { text: source@, classes: classes@ },
            0,
            1,
        ),
{
    float_lexemes_of(Scanner::with_classes(source, classes))
}

/// The texts of the float literals that a scanner at the start of its
/// source finds, in the order of the source.
pub fn float_lexemes_of(scanner: Scanner) -> (r: Vec<String>)
    requires
        scanner.well_formed(),
        scanner.current == 0,
        scanner.line == 1,
    ensures
        lexemes_view(r@) == float_lexemes_from(scanner.source_view(), 0, 1),
{
    let mut scanner = scanner;
    let ghost source = scanner.source_view();
    let mut found: Vec<String> = Vec::new();
    assert(lexemes_view(found@) =~= Seq::<Seq<char>>::empty());
    loop
        invariant_except_break
            scanner.well_formed(),
            scanner.source_view() == source,
            lexemes_view(found@) + float_lexemes_from(source, scanner.current as int, scanner.line)
                == float_lexemes_from(source, 0, 1),
        ensures
            lexemes_view(found@) == float_lexemes_from(source, 0, 1),
        decreases scanner.length - scanner.current,
    {
        proof {
            lemma_scan_progress(source, scanner.current as int, scanner.line);
        }
        let ghost before = lexemes_view(found@);
        let ghost rest = float_lexemes_from(source, scanner.current as int, scanner.line);
        let token = scanner.scan_token();
        if token.kind == TokenType::Eof {
            assert(before + rest =~= before);
            break ;
        }
        if token.kind == TokenType::Float {
            found.push(token.lexeme);
            assert(lexemes_view(found@) =~= before.push(token@.lexeme));
            assert(before + rest =~= lexemes_view(found@) + float_lexemes_from(
                source,
                scanner.current as int,
                scanner.line,
            ));
        } else {
            assert(before + rest =~= before + float_lexemes_from(
                source,
                scanner.current as int,
                scanner.line,
            ));
        }
    }
    found
}

} // verus!
