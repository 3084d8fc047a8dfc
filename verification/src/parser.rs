//! The parser's window over the token stream, and its diagnostics.
use vstd::prelude::*;
use vstd::string::*;
use crate::scanner::{
    lemma_scan_progress, scan, CharClass, Scanner, SourceView, Token, TokenType, TokenView,
};
use crate::text::{nat_digits, usize_to_string};

verus! {

/// The window over the token stream: two tokens behind the current one,
/// two ahead, and the diagnostics reported so far.
#[derive(Debug)]
pub struct Parser {
    pub scanner: Scanner,
    pub current: Token,
    pub previous_2: Token,
    pub previous: Token,
    pub next: Token,
    pub next_2: Token,
    pub had_error: bool,
    pub panic_mode: bool,
    /// Every diagnostic reported since the parser was made, oldest first.
    pub diagnostics: Vec<String>,
}

/// The mathematical value of a [`Parser`].
pub struct ParserView {
    pub source: SourceView,
    /// The scanner's cursor.
    pub position: usize,
    /// The scanner's line.
    pub line: usize,
    pub previous_2: TokenView,
    pub previous: TokenView,
    pub current: TokenView,
    pub next: TokenView,
    pub next_2: TokenView,
    pub had_error: bool,
    pub panic_mode: bool,
    pub diagnostics: Seq<Seq<char>>,
}

/// The views of a sequence of texts.
pub open spec fn texts_view(texts: Seq<String>) -> Seq<Seq<char>> {
    Seq::new(texts.len(), |i: int| texts[i]@)
}

impl View for Parser {
    type V = ParserView;

    open spec fn view(&self) -> ParserView {
        ParserView {
            source: self.scanner.source_view(),
            position: self.scanner.current,
            line: self.scanner.line,
            previous_2: self.previous_2@,
            previous: self.previous@,
            current: self.current@,
            next: self.next@,
            next_2: self.next_2@,
            had_error: self.had_error,
            panic_mode: self.panic_mode,
            diagnostics: texts_view(self.diagnostics@),
        }
    }
}

/// The token that fills the window before anything was scanned.
pub open spec fn empty_token() -> TokenView {
    TokenView { kind: TokenType::Empty, lexeme: Seq::empty(), line: 0 }
}

/// The text of a diagnostic: the line, the place (the token's text, or the
/// end of the source), and the message.
pub open spec fn report_text(token: TokenView, message: Seq<char>) -> Seq<char> {
    if token.kind == TokenType::Eof {
        "[line "@ + nat_digits(token.line as nat) + "] Error at end: "@ + message
    } else {
        "[line "@ + nat_digits(token.line as nat) + "] Error at '"@ + token.lexeme + "': "@ + message
    }
}

/// One if the token is not `Eof`, zero if it is.
pub open spec fn weight(token: TokenView) -> nat {
    if token.kind == TokenType::Eof {
        0
    } else {
        1
    }
}

impl ParserView {
    /// The parser at the start of a source, before its window is filled.
    pub open spec fn at_start(source: SourceView) -> ParserView {
        ParserView {
            source: source,
            position: 0,
            line: 1,
            previous_2: empty_token(),
            previous: empty_token(),
            current: empty_token(),
            next: empty_token(),
            next_2: empty_token(),
            had_error: false,
            panic_mode: false,
            diagnostics: Seq::empty(),
        }
    }

    /// The cursor is inside the source, and the lines of the window never
    /// go back.
    pub open spec fn well_formed(self) -> bool {
        &&& self.position <= self.source.text.len() <= usize::MAX
        &&& self.previous_2.line <= self.previous.line
        &&& self.previous.line <= self.current.line
        &&& self.current.line <= self.next.line
        &&& self.next.line <= self.next_2.line
        &&& self.next_2.line <= self.line
    }

    /// A bound on the tokens that are still to come: those of the window
    /// from the current one on that are not `Eof`, and one for each
    /// character behind the cursor.
    pub open spec fn tokens_left(self) -> nat {
        (weight(self.current) + weight(self.next) + weight(self.next_2) + (self.source.text.len()
            - self.position)) as nat
    }

    /// The parser after it reported `message` at `token`: nothing changes in
    /// panic mode; otherwise the diagnostic is recorded and panic mode
    /// starts.
    pub open spec fn reported(self, token: TokenView, message: Seq<char>) -> ParserView {
        if self.panic_mode {
            self
        } else {
            ParserView {
                panic_mode: true,
                had_error: true,
                diagnostics: self.diagnostics.push(report_text(token, message)),
                ..self
            }
        }
    }

    /// The parser after the window moved one token on: the current token is
    /// dropped and a new one is scanned.
    pub open spec fn shifted(self) -> ParserView {
        let scanned = scan(self.source, self.position as int, self.line);
        ParserView {
            current: self.next,
            next: self.next_2,
            next_2: scanned.token,
            position: scanned.current as usize,
            line: scanned.line,
            ..self
        }
    }

    /// The parser after the window moved on until its current token is
    /// neither `Empty` nor `Error`; each `Error` token is reported at the
    /// token behind it.
    pub open spec fn settled(self) -> ParserView
        decreases self.tokens_left(),
        when self.position <= self.source.text.len() <= usize::MAX
    {
        if self.current.kind == TokenType::Empty {
            proof {
                lemma_scan_progress(self.source, self.position as int, self.line);
            }
            self.shifted().settled()
        } else if self.current.kind == TokenType::Error {
            proof {
                lemma_scan_progress(self.source, self.position as int, self.line);
            }
            self.reported(self.next, "Error at next token."@).shifted().settled()
        } else {
            self
        }
    }

    /// The parser after it advanced: the window moves one token on, and
    /// further until the current token is a real one.
    #[verifier::opaque]
    pub open spec fn advanced(self) -> ParserView {
        (ParserView { previous_2: self.previous, previous: self.current, ..self }).shifted().settled()
    }

    /// The parser after it consumed a token of the given kind: it advances
    /// where the current token is of that kind or `Eof`, and reports
    /// `message` at the current token where it is not.
    pub open spec fn consumed(self, kind: TokenType, message: Seq<char>) -> ParserView {
        if self.current.kind == kind || self.current.kind == TokenType::Eof {
            self.advanced()
        } else {
            self.reported(self.current, message)
        }
    }

    /// The parser after it skipped to the start of the next statement: it
    /// advances until the previous token is a newline or the current one
    /// is `Eof`.
    pub open spec fn skipped_to_newline(self) -> ParserView
        decreases self.tokens_left(),
    {
        if self.current.kind != TokenType::Eof && self.previous.kind != TokenType::Newline {
            let next = self.advanced();
            if next.tokens_left() < self.tokens_left() {
                next.skipped_to_newline()
            } else {
                next
            }
        } else {
            self
        }
    }

    /// The parser after it recovered from an error: panic mode ends, and
    /// the tokens up to the next newline are skipped.
    pub open spec fn synchronized(self) -> ParserView {
        (ParserView { panic_mode: false, ..self }).skipped_to_newline()
    }

    /// The parser after it skipped tokens until as many closing braces as
    /// opening braces and `depth` more were passed, or up to `Eof`.
    pub open spec fn skipped_braces(self, depth: usize) -> ParserView
        decreases self.tokens_left(),
    {
        if depth == 0 || self.current.kind == TokenType::Eof {
            self
        } else {
            let deeper = if self.current.kind == TokenType::LeftBrace {
                if depth < usize::MAX {
                    (depth + 1) as usize
                } else {
                    depth
                }
            } else if self.current.kind == TokenType::RightBrace {
                (depth - 1) as usize
            } else {
                depth
            };
            let next = self.advanced();
            if next.tokens_left() < self.tokens_left() {
                next.skipped_braces(deeper)
            } else {
                next
            }
        }
    }

    /// The parser after it skipped a body in braces, where one starts at the
    /// current token.
    pub open spec fn skipped_body(self) -> ParserView {
        if self.current.kind == TokenType::LeftBrace {
            self.advanced().skipped_braces(1)
        } else {
            self
        }
    }

    /// The parser put back to the start of its source: an empty window, no
    /// error, no panic mode. The diagnostics stay.
    pub open spec fn reset(self) -> ParserView {
        ParserView {
            source: self.source,
            position: 0,
            line: 1,
            previous_2: empty_token(),
            previous: empty_token(),
            current: empty_token(),
            next: empty_token(),
            next_2: empty_token(),
            had_error: false,
            panic_mode: false,
            diagnostics: self.diagnostics,
        }
    }
}

/// Moving the window on keeps the parser in order and never raises the
/// bound on the tokens to come; it lowers the bound where the token that
/// was dropped is not `Eof`.
pub proof fn lemma_shifted(p: ParserView)
    requires
        p.well_formed(),
    ensures
        p.shifted().well_formed(),
        p.shifted().tokens_left() + weight(p.current) <= p.tokens_left(),
        p.shifted().next_2.kind != TokenType::Empty,
{
    lemma_scan_progress(p.source, p.position as int, p.line);
}

/// Settling keeps the parser in order, never raises the bound on the tokens
/// to come, and ends on a current token that is neither `Empty` nor
/// `Error`. It keeps the source and what lies behind the current token, and
/// only adds to the diagnostics.
pub proof fn lemma_settled(p: ParserView)
    requires
        p.well_formed(),
    ensures
        p.settled().well_formed(),
        p.settled().tokens_left() <= p.tokens_left(),
        p.settled().current.kind != TokenType::Empty,
        p.settled().current.kind != TokenType::Error,
        p.settled().source == p.source,
        p.settled().previous == p.previous,
        p.settled().previous_2 == p.previous_2,
        p.diagnostics.len() <= p.settled().diagnostics.len(),
        p.settled().diagnostics.subrange(0, p.diagnostics.len() as int) == p.diagnostics,
        p.had_error ==> p.settled().had_error,
    decreases p.tokens_left(),
{
    if p.current.kind == TokenType::Empty {
        lemma_shifted(p);
        lemma_settled(p.shifted());
    } else if p.current.kind == TokenType::Error {
        let r = p.reported(p.next, "Error at next token."@);
        lemma_shifted(r);
        lemma_settled(r.shifted());
        assert(r.diagnostics.subrange(0, p.diagnostics.len() as int) =~= p.diagnostics);
        assert(r.shifted().settled().diagnostics.subrange(0, p.diagnostics.len() as int)
            =~= r.shifted().settled().diagnostics.subrange(0, r.diagnostics.len() as int).subrange(
            0,
            p.diagnostics.len() as int,
        ));
    } else {
        assert(p.diagnostics.subrange(0, p.diagnostics.len() as int) =~= p.diagnostics);
    }
}

/// Advancing keeps the parser in order and lowers the bound on the tokens
/// to come, unless the current token is `Eof` already. The token that was
/// current becomes the previous one, and the new current token is a real
/// one.
pub proof fn lemma_advanced(p: ParserView)
    requires
        p.well_formed(),
    ensures
        p.advanced().well_formed(),
        p.advanced().tokens_left() + weight(p.current) <= p.tokens_left(),
        p.advanced().current.kind != TokenType::Empty,
        p.advanced().current.kind != TokenType::Error,
        p.advanced().source == p.source,
        p.advanced().previous == p.current,
        p.advanced().previous_2 == p.previous,
        p.diagnostics.len() <= p.advanced().diagnostics.len(),
        p.advanced().diagnostics.subrange(0, p.diagnostics.len() as int) == p.diagnostics,
        p.had_error ==> p.advanced().had_error,
{
    reveal(ParserView::advanced);
    let moved = ParserView { previous_2: p.previous, previous: p.current, ..p };
    lemma_shifted(moved);
    lemma_settled(moved.shifted());
}

impl Parser {
    /// The scanner and the window are in order.
    pub open spec fn well_formed(&self) -> bool {
        self.scanner.well_formed() && self@.well_formed()
    }

    /// A parser at the start of `source`, with an empty window. Each
    /// character is in the class that the standard library finds for it.
    pub fn new(source: String) -> (r: Parser)
        ensures
            r.well_formed(),
            r@ == ParserView::at_start(SourceView::of(source@)),
    {
        Parser::over(Scanner::new(source))
    }

    /// A parser at the start of `source`, with an empty window, which takes
    /// the class of each character from `classes`.
    pub fn with_classes(source: String, classes: Vec<CharClass>) -> (r: Parser)
        ensures
            r.well_formed(),
            r@ == ParserView::at_start(SourceView { text: source@, classes: classes@ }),
    {
        Parser::over(Scanner::with_classes(source, classes))
    }

    /// A parser with an empty window over a scanner at the start of its
    /// source.
    pub fn over(scanner: Scanner) -> (r: Parser)
        requires
            scanner.well_formed(),
            scanner.current == 0,
            scanner.line == 1,
        ensures
            r.well_formed(),
            r@ == ParserView::at_start(scanner.source_view()),
    {
        let r = Parser {
            scanner,
            current: Token::new(TokenType::Empty, 0),
            previous_2: Token::new(TokenType::Empty, 0),
            previous: Token::new(TokenType::Empty, 0),
            next: Token::new(TokenType::Empty, 0),
            next_2: Token::new(TokenType::Empty, 0),
            had_error: false,
            panic_mode: false,
            diagnostics: Vec::new(),
        };
        assert(r@.diagnostics =~= Seq::empty());
        r
    }

    /// Reports `message` at the current token.
    pub fn error_at_current(&mut self, message: &str)
        ensures
            final(self)@ == old(self)@.reported(old(self)@.current, message@),
            final(self).scanner == old(self).scanner,
    {
        let token = self.current.clone();
        self.error_at(&token, message);
    }

    /// Reports `message` at the previous token.
    pub fn error_at_previous(&mut self, message: &str)
        ensures
            final(self)@ == old(self)@.reported(old(self)@.previous, message@),
            final(self).scanner == old(self).scanner,
    {
        let token = self.previous.clone();
        self.error_at(&token, message);
    }

    /// Reports `message` at the token before the previous one.
    pub fn error_at_previous_2(&mut self, message: &str)
        ensures
            final(self)@ == old(self)@.reported(old(self)@.previous_2, message@),
            final(self).scanner == old(self).scanner,
    {
        let token = self.previous_2.clone();
        self.error_at(&token, message);
    }

    /// Reports `message` at the token behind the current one.
    pub fn error_at_next(&mut self, message: &str)
        ensures
            final(self)@ == old(self)@.reported(old(self)@.next, message@),
            final(self).scanner == old(self).scanner,
    {
        let token = self.next.clone();
        self.error_at(&token, message);
    }

    /// Reports `message` at `token`, unless the parser is in panic mode.
    pub fn error_at(&mut self, token: &Token, message: &str)
        ensures
            final(self)@ == old(self)@.reported(token@, message@),
            final(self).scanner == old(self).scanner,
    {
        if self.panic_mode {
            return ;
        }
        self.panic_mode = true;
        let mut text = "[line ".to_owned();
        text.append(usize_to_string(token.line).as_str());
        if token.kind == TokenType::Eof {
            text.append("] Error at end: ");
        } else {
            text.append("] Error at '");
            text.append(token.lexeme.as_str());
            text.append("': ");
        }
        text.append(message);
        assert(text@ =~= report_text(token@, message@));
        self.diagnostics.push(text);
        self.had_error = true;
        assert(self@.diagnostics =~= old(self)@.diagnostics.push(report_text(token@, message@)));
    }

    /// Advances where the current token is of the given kind or `Eof`, and
    /// reports `message` at the current token where it is not.
    pub fn consume(&mut self, kind: TokenType, message: &str)
        requires
            old(self).well_formed(),
        ensures
            final(self).well_formed(),
            final(self)@ == old(self)@.consumed(kind, message@),
            final(self)@.tokens_left() <= old(self)@.tokens_left(),
            old(self)@.current.kind == kind ==> final(self)@.tokens_left() + weight(
                old(self)@.current,
            ) <= old(self)@.tokens_left(),
            old(self)@.previous.line <= final(self)@.previous.line,
    {
        if self.current.kind == kind || self.current.kind == TokenType::Eof {
            self.advance();
            return ;
        }
        self.error_at_current(message);
    }

    fn shift(&mut self)
        requires
            old(self).well_formed(),
        ensures
            final(self).well_formed(),
            final(self)@ == old(self)@.shifted(),
    {
        proof {
            lemma_shifted(self@);
        }
        std::mem::swap(&mut self.current, &mut self.next);
        std::mem::swap(&mut self.next, &mut self.next_2);
        self.next_2 = self.scanner.scan_token();
    }

    /// Moves the window one token on, and further until the current token
    /// is neither `Empty` nor `Error`.
    pub fn advance(&mut self)
        requires
            old(self).well_formed(),
        ensures
            final(self).well_formed(),
            final(self)@ == old(self)@.advanced(),
            final(self)@.tokens_left() + weight(old(self)@.current) <= old(self)@.tokens_left(),
            final(self)@.previous == old(self)@.current,
            final(self)@.previous_2 == old(self)@.previous,
            final(self)@.current.kind != TokenType::Empty,
            final(self)@.current.kind != TokenType::Error,
    {
        proof {
            reveal(ParserView::advanced);
            lemma_advanced(self@);
        }
        std::mem::swap(&mut self.previous_2, &mut self.previous);
        self.previous = self.current.clone();
        self.shift();
        loop
            invariant
                self.well_formed(),
                self@.settled() == old(self)@.advanced(),
                old(self)@.advanced().tokens_left() + weight(old(self)@.current)
                    <= old(self)@.tokens_left(),
                old(self)@.advanced().previous == old(self)@.current,
                old(self)@.advanced().previous_2 == old(self)@.previous,
            decreases self@.tokens_left(),
        {
            proof {
                lemma_shifted(self@);
            }
            if self.current.kind == TokenType::Empty {
                self.shift();
            } else if self.current.kind == TokenType::Error {
                self.error_at_next("Error at next token.");
                proof {
                    lemma_shifted(self@);
                }
                self.shift();
            } else {
                return ;
            }
        }
    }

    /// Advances where the current token is of the given kind, and says
    /// whether it is.
    pub fn match_token(&mut self, kind: TokenType) -> (r: bool)
        requires
            old(self).well_formed(),
        ensures
            final(self).well_formed(),
            r == (old(self)@.current.kind == kind),
            final(self)@ == (if r {
                old(self)@.advanced()
            } else {
                old(self)@
            }),
            final(self)@.tokens_left() + (if r {
                weight(old(self)@.current)
            } else {
                0nat
            }) <= old(self)@.tokens_left(),
            old(self)@.previous.line <= final(self)@.previous.line,
    {
        if self.current.kind != kind {
            return false;
        }
        self.advance();
        true
    }

    /// Recovers from an error: panic mode ends, and the tokens up to the
    /// next newline are skipped.
    pub fn synchronize(&mut self)
        requires
            old(self).well_formed(),
        ensures
            final(self).well_formed(),
            final(self)@ == old(self)@.synchronized(),
            final(self)@.tokens_left() <= old(self)@.tokens_left(),
            old(self)@.previous.line <= final(self)@.previous.line,
    {
        self.panic_mode = false;
        while self.current.kind != TokenType::Eof
            invariant
                self.well_formed(),
                self@.skipped_to_newline() == old(self)@.synchronized(),
                self@.tokens_left() <= old(self)@.tokens_left(),
                old(self)@.previous.line <= self@.previous.line,
            decreases self@.tokens_left(),
        {
            if self.previous.kind == TokenType::Newline {
                return ;
            }
            self.advance();
        }
    }

    /// Skips a body in braces, where one starts at the current token.
    pub fn skip_body(&mut self)
        requires
            old(self).well_formed(),
        ensures
            final(self).well_formed(),
            final(self)@ == old(self)@.skipped_body(),
            final(self)@.tokens_left() <= old(self)@.tokens_left(),
            old(self)@.previous.line <= final(self)@.previous.line,
    {
        if self.current.kind != TokenType::LeftBrace {
            return ;
        }
        self.advance();
        let mut depth: usize = 1;
        while depth > 0 && self.current.kind != TokenType::Eof
            invariant
                self.well_formed(),
                self@.skipped_braces(depth) == old(self)@.skipped_body(),
                self@.tokens_left() <= old(self)@.tokens_left(),
                old(self)@.previous.line <= self@.previous.line,
            decreases self@.tokens_left(),
        {
            if self.current.kind == TokenType::LeftBrace {
                if depth < usize::MAX {
                    depth = depth + 1;
                }
            } else if self.current.kind == TokenType::RightBrace {
                depth = depth - 1;
            }
            self.advance();
        }
    }

    /// The token before the previous one.
    pub fn peek_previous_2(&self) -> (r: Token)
        ensures
            r@ == self@.previous_2,
    {
        self.previous_2.clone()
    }

    /// The current token.
    pub fn peek_current(&self) -> (r: Token)
        ensures
            r@ == self@.current,
    {
        self.current.clone()
    }

    /// The token behind the current one.
    pub fn peek_next(&self) -> (r: Token)
        ensures
            r@ == self@.next,
    {
        self.next.clone()
    }

    /// Whether the current token is of the given kind.
    pub fn check(&self, kind: TokenType) -> (r: bool)
        ensures
            r == (self@.current.kind == kind),
    {
        self.current.kind == kind
    }

    /// Puts the parser back to the start of its source, with an empty
    /// window and without error. The diagnostics stay.
    pub fn reset(&mut self)
        requires
            old(self).well_formed(),
        ensures
            final(self).well_formed(),
            final(self)@ == old(self)@.reset(),
    {
        self.scanner.reset();
        self.previous_2 = Token::new(TokenType::Empty, 0);
        self.previous = Token::new(TokenType::Empty, 0);
        self.current = Token::new(TokenType::Empty, 0);
        self.next = Token::new(TokenType::Empty, 0);
        self.next_2 = Token::new(TokenType::Empty, 0);
        self.had_error = false;
        self.panic_mode = false;
    }
}

} // verus!
