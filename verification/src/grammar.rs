//! The lexical grammar, stated as mathematics over sequences of characters:
//! which lexeme begins at a position of a text, and which tokens, or which
//! error, the whole text gives.

use vstd::prelude::*;

use crate::error::{ErrorType, ErrorView};
use crate::text::decimal;
use crate::token::{TokenType, TokenView};

verus! {

/// What scanning a text gives: its tokens in order, or the first error.
pub type Scanned = Result<Seq<TokenView>, ErrorView>;

/// The number of line breaks in `text`.
pub open spec fn newlines(text: Seq<char>) -> nat
    decreases text.len(),
{
    if text.len() == 0 {
        0
    } else {
        newlines(text.drop_last()) + if text.last() == '\n' { 1nat } else { 0nat }
    }
}

/// The number of characters of `text` from index `from` up to, and without,
/// the first `stop` at or after `from`; up to the end of the text where no
/// `stop` follows.
pub open spec fn run_length(text: Seq<char>, from: int, stop: char) -> nat
    decreases text.len() - from,
{
    if from < 0 || from >= text.len() || text[from] == stop {
        0
    } else {
        1 + run_length(text, from + 1, stop)
    }
}

/// A run ends inside the text or at its end.
pub proof fn run_length_in_text(text: Seq<char>, from: int, stop: char)
    ensures
        0 <= from <= text.len() ==> from + run_length(text, from, stop) <= text.len(),
        run_length(text, from, stop) > 0 ==> 0 <= from < text.len(),
    decreases text.len() - from,
{
    if 0 <= from < text.len() && text[from] != stop {
        run_length_in_text(text, from + 1, stop);
    }
}

/// Whether `text` has the character `c` at index `pos`.
pub open spec fn has_at(text: Seq<char>, pos: int, c: char) -> bool {
    0 <= pos < text.len() && text[pos] == c
}

/// The category of the token that `c` is, for the characters that are a
/// token whatever follows them.
pub open spec fn single_char_kind(c: char) -> Option<TokenType> {
    match c {
        '(' => Some(TokenType::LeftParen),
        ')' => Some(TokenType::RightParen),
        '{' => Some(TokenType::LeftBrace),
        '}' => Some(TokenType::RightBrace),
        ',' => Some(TokenType::Comma),
        '.' => Some(TokenType::Dot),
        '-' => Some(TokenType::Minus),
        '+' => Some(TokenType::Plus),
        ';' => Some(TokenType::Semicolon),
        '*' => Some(TokenType::Star),
        _ => None,
    }
}

/// For the characters that are an operator alone and another one together
/// with a following `=`: the category of the first, then of the second.
pub open spec fn operator_kinds(c: char) -> Option<(TokenType, TokenType)> {
    match c {
        '!' => Some((TokenType::Bang, TokenType::BangEqual)),
        '=' => Some((TokenType::Equal, TokenType::EqualEqual)),
        '<' => Some((TokenType::Less, TokenType::LessEqual)),
        '>' => Some((TokenType::Greater, TokenType::GreaterEqual)),
        _ => None,
    }
}

/// Whether `c` is whitespace: a space, a carriage return, a tab or a line
/// break.
pub open spec fn is_blank(c: char) -> bool {
    c == ' ' || c == '\r' || c == '\t' || c == '\n'
}

/// What begins at a position of a text.
pub enum Lexeme {
    /// A token of category `kind`, `len` characters long.
    Token { kind: TokenType, len: nat },
    /// `len` characters of whitespace or of a comment, which make no token.
    Skip { len: nat },
    /// A string literal whose closing quote the text does not hold.
    Unterminated,
    /// A character with which no lexeme begins.
    Unexpected,
}

/// The lexeme that begins at index `pos` of `text`, by the longest match:
/// an operator takes a following `=` with it, `//` opens a comment that
/// runs up to the end of its line, and `"` opens a string literal that runs
/// up to and including the next `"`, across line breaks.
pub open spec fn lexeme_at(text: Seq<char>, pos: int) -> Lexeme
    recommends
        0 <= pos < text.len(),
{
    let c = text[pos];
    if let Some(kind) = single_char_kind(c) {
        Lexeme::Token { kind, len: 1 }
    } else if let Some((alone, with_equal)) = operator_kinds(c) {
        if has_at(text, pos + 1, '=') {
            Lexeme::Token { kind: with_equal, len: 2 }
        } else {
            Lexeme::Token { kind: alone, len: 1 }
        }
    } else if c == '/' {
        if has_at(text, pos + 1, '/') {
            Lexeme::Skip { len: 2 + run_length(text, pos + 2, '\n') }
        } else {
            Lexeme::Token { kind: TokenType::Slash, len: 1 }
        }
    } else if is_blank(c) {
        Lexeme::Skip { len: 1 }
    } else if c == '"' {
        let inside = run_length(text, pos + 1, '"');
        if pos + 1 + inside < text.len() {
            Lexeme::Token { kind: TokenType::String, len: inside + 2 }
        } else {
            Lexeme::Unterminated
        }
    } else {
        Lexeme::Unexpected
    }
}

/// The message of the error for a string literal left open.
pub open spec fn unterminated_message(line: nat) -> Seq<char> {
    "Unterminated string at line "@ + decimal(line)
}

/// The message of the error for a character with which no lexeme begins.
pub open spec fn unexpected_message(c: char, line: nat) -> Seq<char> {
    "Unexpected character `"@ + seq![c] + "` at line "@ + decimal(line) + "."@
}

/// The error for a string literal left open, reported at `line`.
pub open spec fn unterminated(line: nat) -> ErrorView {
    ErrorView { kind: ErrorType::Syntax, line, message: unterminated_message(line) }
}

/// The error for the character `c` found on `line`, with which no lexeme
/// begins.
pub open spec fn unexpected(c: char, line: nat) -> ErrorView {
    ErrorView { kind: ErrorType::Syntax, line, message: unexpected_message(c, line) }
}

/// The token that closes every token sequence: no text, on the line the
/// source ends on.
pub open spec fn end_of_input(line: nat) -> TokenView {
    TokenView { kind: TokenType::Eof, lexeme: Seq::empty(), line }
}

/// The outcome of a scan that has the tokens `done` already and goes on as
/// `rest`: an error of `rest` drops `done`.
pub open spec fn after(done: Seq<TokenView>, rest: Scanned) -> Scanned {
    match rest {
        Ok(tokens) => Ok(done + tokens),
        Err(e) => Err(e),
    }
}

/// What scanning `text` gives from index `pos` on, where `pos` stands on
/// line `line`.
///
/// Each token carries the line of its first character; the line count goes
/// up by the line breaks in each lexeme passed. At the end of the text
/// stands the end-of-input token. The first lexeme that is an error ends the
/// scan: an open string literal is reported at the line the text ends on, a
/// character that begins no lexeme at its own line.
pub open spec fn scan_from(text: Seq<char>, pos: int, line: nat) -> Scanned
    decreases text.len() - pos,
{
    if pos < 0 || pos >= text.len() {
        Ok(seq![end_of_input(line)])
    } else {
        match lexeme_at(text, pos) {
            Lexeme::Token { kind, len } => {
                let lexeme = text.subrange(pos, pos + len);
                after(
                    seq![TokenView { kind, lexeme, line }],
                    scan_from(text, pos + len, line + newlines(lexeme)),
                )
            },
            Lexeme::Skip { len } => {
                proof {
                    run_length_in_text(text, pos + 2, '\n');
                }
                scan_from(text, pos + len, line + newlines(text.subrange(pos, pos + len)))
            },
            Lexeme::Unterminated => Err(
                unterminated(line + newlines(text.subrange(pos, text.len() as int))),
            ),
            Lexeme::Unexpected => Err(unexpected(text[pos], line)),
        }
    }
}

/// A text with one more character at its end has one more line break if
/// that character is one.
pub proof fn newlines_push(text: Seq<char>, c: char)
    ensures
        newlines(text.push(c)) == newlines(text) + if c == '\n' { 1nat } else { 0nat },
{
    assert(text.push(c).drop_last() =~= text);
}

/// A text that holds no line break character has no line breaks.
pub proof fn newlines_none(text: Seq<char>)
    requires
        forall|i: int| 0 <= i < text.len() ==> text[i] != '\n',
    ensures
        newlines(text) == 0,
    decreases text.len(),
{
    if text.len() > 0 {
        newlines_none(text.drop_last());
    }
}

/// Two texts, one after the other, have the line breaks of both.
pub proof fn newlines_concat(first: Seq<char>, second: Seq<char>)
    ensures
        newlines(first + second) == newlines(first) + newlines(second),
    decreases second.len(),
{
    if second.len() == 0 {
        assert(first + second =~= first);
    } else {
        assert((first + second).drop_last() =~= first + second.drop_last());
        newlines_concat(first, second.drop_last());
    }
}

/// The line breaks of a stretch of text that grows by one character.
pub proof fn newlines_extend(text: Seq<char>, from: int, to: int)
    requires
        0 <= from <= to < text.len(),
    ensures
        newlines(text.subrange(from, to + 1)) == newlines(text.subrange(from, to)) + if text[to]
            == '\n' { 1nat } else { 0nat },
{
    assert(text.subrange(from, to + 1) =~= text.subrange(from, to).push(text[to]));
    newlines_push(text.subrange(from, to), text[to]);
}

/// No character of a run is the one that stops it, and the character after
/// the run, if the text has one there, is.
pub proof fn run_stops_at_first(text: Seq<char>, from: int, stop: char)
    requires
        0 <= from <= text.len(),
    ensures
        forall|i: int| from <= i < from + run_length(text, from, stop) ==> text[i] != stop,
        from + run_length(text, from, stop) < text.len() ==> text[from + run_length(
            text,
            from,
            stop,
        )] == stop,
    decreases text.len() - from,
{
    if from < text.len() && text[from] != stop {
        run_stops_at_first(text, from + 1, stop);
    }
}

/// Tokens found before a scan goes on count as found by the scan that
/// found them one lexeme earlier.
pub proof fn after_push(done: Seq<TokenView>, token: TokenView, rest: Scanned)
    ensures
        after(done, after(seq![token], rest)) == after(done.push(token), rest),
{
    if let Ok(tokens) = rest {
        assert(done + (seq![token] + tokens) =~= done.push(token) + tokens);
    }
}

/// What scanning the whole of `text` gives.
pub open spec fn scan(text: Seq<char>) -> Scanned {
    scan_from(text, 0, 1)
}

} // verus!
