//! The scanner: one pass over a source text that cuts it into tokens.

use vstd::prelude::*;
use vstd::string::StringExecFns;

use crate::error::{LoxError, LoxResult};
use crate::grammar::{
    after, after_push, end_of_input, has_at, lexeme_at, newlines, newlines_extend, newlines_none,
    run_length, run_stops_at_first, scan, scan_from, unexpected, unterminated, Lexeme, Scanned,
};
use crate::text::push_decimal;
use crate::token::{token_views, TokenView};
pub use crate::token::{Token, TokenType};

verus! {

/// State of one scan of one source text.
///
/// A scanner is made for a text, scans it once with
/// [`scan_tokens`](Scanner::scan_tokens), and is then dropped.
pub struct Scanner {
    /// The source text, one element for each Unicode scalar value.
    source: Vec<char>,
    /// The tokens found so far, in the order they stand in the text.
    tokens: Vec<Token>,
    /// Index of the first character of the lexeme being scanned.
    start: usize,
    /// Index of the next character to look at.
    current: usize,
    /// 1-based line on which `current` stands.
    line: usize,
}

impl Scanner {
    /// The cursors lie in the text, one behind the other, and the line count
    /// is no more than the characters passed could have made it. The text is
    /// short enough that the line count of its end fits in `usize`.
    pub closed spec fn well_formed(&self) -> bool {
        &&& self.start <= self.current <= self.source.len() < usize::MAX
        &&& 1 <= self.line <= self.current + 1
    }

    /// The text being scanned.
    pub closed spec fn source(&self) -> Seq<char> {
        self.source@
    }

    /// The tokens found so far.
    pub closed spec fn tokens(&self) -> Seq<TokenView> {
        token_views(self.tokens@)
    }

    /// Index in the text of the first character of the lexeme that was
    /// scanned last.
    pub closed spec fn lexeme_start(&self) -> nat {
        self.start as nat
    }

    /// Index in the text of the next character to look at.
    pub closed spec fn position(&self) -> nat {
        self.current as nat
    }

    /// 1-based line on which the next character to look at stands.
    pub closed spec fn line(&self) -> nat {
        self.line as nat
    }

    /// Whether the scanner stands at the beginning of its text, on line 1,
    /// with no token found yet.
    pub open spec fn at_beginning(&self) -> bool {
        &&& self.lexeme_start() == 0
        &&& self.position() == 0
        &&& self.line() == 1
        &&& self.tokens() == Seq::<TokenView>::empty()
    }

    /// What scanning gives from this state on: the tokens found so far,
    /// followed by those of the text that is left, or the first error in
    /// that text.
    pub open spec fn outcome(&self) -> Scanned {
        after(self.tokens(), scan_from(self.source(), self.position() as int, self.line()))
    }

    /// A scanner at the beginning of `source`, on line 1, with no token
    /// found yet.
    ///
    /// The text must be short enough that the number of its last line, at
    /// most one more than its length in characters, fits in `usize`.
    pub fn new(source: String) -> (scanner: Self)
        requires
            source@.len() < usize::MAX,
        ensures
            scanner.well_formed(),
            scanner.source() == source@,
            scanner.at_beginning(),
            scanner.outcome() == scan(source@),
    {
        let mut chars: Vec<char> = Vec::new();
        for c in it: source.as_str().chars()
            invariant
                chars@ == it.seq().take(it.index() as int),
        {
            chars.push(c);
        }
        let scanner = Scanner { source: chars, tokens: Vec::new(), start: 0, current: 0, line: 1 };
        proof {
            assert(scanner.tokens() =~= Seq::<TokenView>::empty());
            scanner.outcome_at_beginning();
        }
        scanner
    }

    /// In every state of a scan the two cursors lie in the text, the start
    /// of the lexeme not behind the position, and lines are counted from 1.
    pub proof fn cursors_in_order(&self)
        requires
            self.well_formed(),
        ensures
            self.lexeme_start() <= self.position() <= self.source().len(),
            1 <= self.line() <= self.position() + 1,
    {
    }

    /// At the beginning of a text, what scanning gives is the scan of the
    /// whole text.
    pub proof fn outcome_at_beginning(&self)
        requires
            self.at_beginning(),
        ensures
            self.outcome() == scan(self.source()),
    {
        if let Ok(tokens) = scan(self.source()) {
            assert(Seq::<TokenView>::empty() + tokens =~= tokens);
        }
    }

    /// Whether every character of the text has been passed.
    fn is_end(&self) -> (end: bool)
        ensures
            end == (self.current >= self.source.len()),
    {
        self.current >= self.source.len()
    }

    /// Passes one character and returns it.
    fn advance(&mut self) -> (c: char)
        requires
            old(self).well_formed(),
            old(self).current < old(self).source.len(),
        ensures
            final(self).well_formed(),
            c == old(self).source@[old(self).current as int],
            *final(self) == (Scanner { current: (old(self).current + 1) as usize, ..*old(self) }),
    {
        self.current += 1;
        self.source[self.current - 1]
    }

    /// Passes the next character if it is `expected`, and says whether it
    /// did.
    fn next_matches(&mut self, expected: char) -> (matched: bool)
        requires
            old(self).well_formed(),
        ensures
            final(self).well_formed(),
            matched == has_at(old(self).source@, old(self).current as int, expected),
            *final(self) == (Scanner {
                current: if matched {
                    (old(self).current + 1) as usize
                } else {
                    old(self).current
                },
                ..*old(self)
            }),
    {
        if self.is_end() {
            return false;
        }
        let matches = self.source[self.current] == expected;
        if matches {
            self.current += 1;
            true
        } else {
            false
        }
    }

    /// The next character, without passing it; the NUL character at the end
    /// of the text.
    fn peek(&self) -> (c: char)
        ensures
            c == if self.current < self.source.len() {
                self.source@[self.current as int]
            } else {
                '\0'
            },
    {
        if self.is_end() {
            '\0'
        } else {
            self.source[self.current]
        }
    }

    /// Adds the token of category `token_type` whose text lies between the
    /// two cursors.
    fn add_token(&mut self, token_type: TokenType)
        requires
            old(self).well_formed(),
        ensures
            final(self).well_formed(),
            final(self).source == old(self).source,
            final(self).start == old(self).start,
            final(self).current == old(self).current,
            final(self).line == old(self).line,
            token_views(final(self).tokens@) == token_views(old(self).tokens@).push(
                TokenView {
                    kind: token_type,
                    lexeme: old(self).source@.subrange(
                        old(self).start as int,
                        old(self).current as int,
                    ),
                    line: old(self).line as nat,
                },
            ),
    {
        let start = self.start;
        let current = self.current;
        let line = self.line;
        let mut lexeme = String::new();
        let mut i: usize = start;
        while i < current
            invariant
                start <= i <= current <= self.source.len(),
                lexeme@ == self.source@.subrange(start as int, i as int),
            decreases current - i,
        {
            lexeme.push(self.source[i]);
            i += 1;
        }
        let token = Token::new(token_type, lexeme, line);
        self.tokens.push(token);
    }

    /// Adds the token `matches`, one character longer, if the next
    /// character is `check`, and the token `not_matches` if it is not.
    fn check_and_add_token(&mut self, check: char, matches: TokenType, not_matches: TokenType)
        requires
            old(self).well_formed(),
        ensures
            final(self).well_formed(),
            final(self).source == old(self).source,
            final(self).start == old(self).start,
            final(self).line == old(self).line,
            final(self).current == old(self).current + if has_at(
                old(self).source@,
                old(self).current as int,
                check,
            ) { 1int } else { 0int },
            token_views(final(self).tokens@) == token_views(old(self).tokens@).push(
                TokenView {
                    kind: if has_at(old(self).source@, old(self).current as int, check) {
                        matches
                    } else {
                        not_matches
                    },
                    lexeme: old(self).source@.subrange(
                        old(self).start as int,
                        final(self).current as int,
                    ),
                    line: old(self).line as nat,
                },
            ),
    {
        let token_type = if self.next_matches(check) {
            matches
        } else {
            not_matches
        };
        self.add_token(token_type);
    }

    /// Scans the rest of a string literal, the opening quote of which has
    /// just been passed: up to and with the closing quote, across line
    /// breaks. Adds the token, from quote to quote, on the line of the
    /// opening quote. Where the text ends before a closing quote, fails
    /// with the error reported at the line the text ends on.
    fn read_string_literal(&mut self) -> (result: LoxResult<()>)
        requires
            old(self).well_formed(),
            old(self).current == old(self).start + 1,
            old(self).line <= old(self).current,
            old(self).source@[old(self).start as int] == '"',
        ensures
            final(self).well_formed(),
            final(self).source == old(self).source,
            final(self).start == old(self).start,
            final(self).line == old(self).line + newlines(
                old(self).source@.subrange(old(self).start as int, final(self).current as int),
            ),
            match lexeme_at(old(self).source@, old(self).start as int) {
                Lexeme::Token { kind, len } => {
                    &&& result is Ok
                    &&& final(self).current == old(self).start + len
                    &&& token_views(final(self).tokens@) == token_views(old(self).tokens@).push(
                        TokenView {
                            kind,
                            lexeme: old(self).source@.subrange(
                                old(self).start as int,
                                old(self).start + len,
                            ),
                            line: old(self).line as nat,
                        },
                    )
                },
                _ => {
                    &&& result is Err
                    &&& result->Err_0@ == unterminated(final(self).line as nat)
                    &&& final(self).current == old(self).source.len()
                    &&& final(self).tokens@ == old(self).tokens@
                },
            },
    {
        let ghost text = self.source@;
        let ghost begin = self.start as int;
        let mut line = self.line;
        proof {
            newlines_extend(text, begin, begin);
        }
        while !self.is_end() && self.peek() != '"'
            invariant
                self.well_formed(),
                self.source == old(self).source,
                self.tokens == old(self).tokens,
                self.start == old(self).start,
                self.line == old(self).line,
                text == self.source@,
                begin == self.start,
                begin < self.current <= text.len(),
                run_length(text, begin + 1, '"') == (self.current - (begin + 1)) + run_length(
                    text,
                    self.current as int,
                    '"',
                ),
                line == old(self).line + newlines(text.subrange(begin, self.current as int)),
                line <= self.current,
            decreases text.len() - self.current,
        {
            if self.peek() == '\n' {
                line += 1;
            }
            proof {
                newlines_extend(text, begin, self.current as int);
            }
            self.advance();
        }
        if self.is_end() {
            self.line = line;
            return Err(unterminated_error(line));
        }
        proof {
            newlines_extend(text, begin, self.current as int);
        }
        self.advance();
        self.add_token(TokenType::String);
        self.line = line;
        Ok(())
    }

    /// Scans the text from the cursor to its end and returns all tokens
    /// found, closed by the end-of-input token, or the first error in the
    /// text. Scanning stops at the first error, and an error hands out no
    /// tokens.
    ///
    /// What is returned is [`outcome`](Scanner::outcome) of the scanner as
    /// it was: for a new scanner, `scan` of its text. After a scan without
    /// error the scanner stands at the end of its text and holds the tokens
    /// it returned. After an error it is spent: it keeps the tokens it had,
    /// with any found since behind them, and stands on the line of the
    /// error.
    pub fn scan_tokens(&mut self) -> (result: LoxResult<&Vec<Token>>)
        requires
            old(self).well_formed(),
        ensures
            final(self).well_formed(),
            final(self).source() == old(self).source(),
            scanned(result) == old(self).outcome(),
            old(self).tokens().is_prefix_of(final(self).tokens()),
            old(self).position() <= final(self).position(),
            old(self).line() <= final(self).line(),
            result is Ok ==> {
                &&& final(self).tokens() == token_views(result->Ok_0@)
                &&& final(self).position() == final(self).source().len()
                &&& final(self).line() == final(self).tokens().last().line
            },
            result is Err ==> final(self).line() == result->Err_0@.line,
    {
        let ghost text = self.source@;
        let ghost goal = self.outcome();
        while !self.is_end()
            invariant
                self.well_formed(),
                self.source@ == text,
                text == old(self).source(),
                goal == old(self).outcome(),
                after(
                    token_views(self.tokens@),
                    scan_from(text, self.current as int, self.line as nat),
                ) == goal,
                old(self).tokens().is_prefix_of(token_views(self.tokens@)),
                old(self).current <= self.current,
                old(self).line <= self.line,
            decreases text.len() - self.current,
        {
            self.start = self.current;
            let ghost pos = self.current as int;
            let ghost line = self.line as nat;
            let ghost done = token_views(self.tokens@);
            let c = self.advance();
            proof {
                newlines_extend(text, pos, pos);
                if pos + 1 < text.len() {
                    newlines_extend(text, pos, pos + 1);
                }
            }
            match c {
                '(' => self.add_token(TokenType::LeftParen),
                ')' => self.add_token(TokenType::RightParen),
                '{' => self.add_token(TokenType::LeftBrace),
                '}' => self.add_token(TokenType::RightBrace),
                ',' => self.add_token(TokenType::Comma),
                '.' => self.add_token(TokenType::Dot),
                '-' => self.add_token(TokenType::Minus),
                '+' => self.add_token(TokenType::Plus),
                ';' => self.add_token(TokenType::Semicolon),
                '*' => self.add_token(TokenType::Star),
                '!' => self.check_and_add_token('=', TokenType::BangEqual, TokenType::Bang),
                '=' => self.check_and_add_token('=', TokenType::EqualEqual, TokenType::Equal),
                '<' => self.check_and_add_token('=', TokenType::LessEqual, TokenType::Less),
                '>' => self.check_and_add_token('=', TokenType::GreaterEqual, TokenType::Greater),
                '/' => {
                    if self.next_matches('/') {
                        while self.peek() != '\n' && !self.is_end()
                            invariant
                                self.well_formed(),
                                self.source@ == text,
                                token_views(self.tokens@) == done,
                                self.line == line,
                                pos + 2 <= self.current <= text.len(),
                                run_length(text, pos + 2, '\n') == (self.current - (pos + 2))
                                    + run_length(text, self.current as int, '\n'),
                            decreases text.len() - self.current,
                        {
                            self.advance();
                        }
                        proof {
                            run_stops_at_first(text, pos + 2, '\n');
                            newlines_none(text.subrange(pos, self.current as int));
                        }
                    } else {
                        self.add_token(TokenType::Slash);
                    }
                },
                ' ' => {},
                '\r' => {},
                '\t' => {},
                '\n' => {
                    self.line += 1;
                },
                '"' => {
                    match self.read_string_literal() {
                        Ok(()) => {},
                        Err(e) => {
                            return Err(e);
                        },
                    }
                },
                _ => {
                    return Err(unexpected_error(c, self.line));
                },
            }
            proof {
                let lexeme = text.subrange(pos, self.current as int);
                match lexeme_at(text, pos) {
                    Lexeme::Token { kind, len } => {
                        after_push(
                            done,
                            TokenView { kind, lexeme, line },
                            scan_from(text, pos + len, line + newlines(lexeme)),
                        );
                    },
                    _ => {},
                }
            }
        }
        let ghost done = token_views(self.tokens@);
        let token = Token::new(TokenType::Eof, String::new(), self.line);
        self.tokens.push(token);
        proof {
            assert(token_views(self.tokens@) =~= done.push(token@));
            assert(done + seq![end_of_input(self.line as nat)] =~= done.push(token@));
        }
        Ok(&self.tokens)
    }
}

/// What a call of `scan_tokens` returned, as mathematics.
pub open spec fn scanned(result: LoxResult<&Vec<Token>>) -> Scanned {
    match result {
        Ok(tokens) => Ok(token_views(tokens@)),
        Err(e) => Err(e@),
    }
}

/// The error for a string literal left open, reported at `line`.
fn unterminated_error(line: usize) -> (e: LoxError)
    ensures
        e@ == unterminated(line as nat),
{
    let mut message = String::from_str("Unterminated string at line ");
    push_decimal(&mut message, line);
    LoxError::syntax(line, message)
}

/// The error for the character `c` found on `line`, with which no lexeme
/// begins.
fn unexpected_error(c: char, line: usize) -> (e: LoxError)
    ensures
        e@ == unexpected(c, line as nat),
{
    let mut message = String::from_str("Unexpected character `");
    message.push(c);
    assert(message@ =~= "Unexpected character `"@ + seq![c]);
    message.append("` at line ");
    push_decimal(&mut message, line);
    message.append(".");
    LoxError::syntax(line, message)
}

} // verus!
