//! General facts about scanning, proved from the grammar.

use vstd::prelude::*;

use crate::error::ErrorView;
use crate::grammar::{
    after, end_of_input, has_at, lexeme_at, newlines, newlines_concat, newlines_extend,
    operator_kinds, run_length_in_text, scan, scan_from, single_char_kind, unexpected,
    unterminated, Lexeme, Scanned,
};
use crate::scanner::Scanner;
use crate::token::{TokenType, TokenView};

verus! {

/// The category of the token that `c` is when it stands by itself, with
/// nothing or a space after it; `None` for a character that is no token by
/// itself.
pub open spec fn lone_kind(c: char) -> Option<TokenType> {
    if single_char_kind(c) is Some {
        single_char_kind(c)
    } else if let Some((alone, _)) = operator_kinds(c) {
        Some(alone)
    } else if c == '/' {
        Some(TokenType::Slash)
    } else {
        None
    }
}

/// The characters of `symbols` written out with one space between each two
/// neighbours.
pub open spec fn spaced(symbols: Seq<char>) -> Seq<char> {
    Seq::new(
        if symbols.len() == 0 {
            0nat
        } else {
            (2 * symbols.len() - 1) as nat
        },
        |i: int|
            if i % 2 == 0 {
                symbols[i / 2]
            } else {
                ' '
            },
    )
}

/// The tokens of a text that holds `symbols`, each a token by itself, all on
/// line 1: one token for each symbol, then the end-of-input token.
pub open spec fn symbol_tokens(symbols: Seq<char>) -> Seq<TokenView> {
    Seq::new(
        symbols.len() + 1,
        |i: int|
            if i < symbols.len() {
                TokenView { kind: lone_kind(symbols[i])->0, lexeme: seq![symbols[i]], line: 1 }
            } else {
                end_of_input(1)
            },
    )
}

/// Scanning a spaced text from its `k`-th symbol on gives the tokens of
/// the symbols from the `k`-th on.
proof fn scan_spaced_from(symbols: Seq<char>, k: int)
    requires
        forall|i: int| 0 <= i < symbols.len() ==> lone_kind(#[trigger] symbols[i]) is Some,
        0 <= k <= symbols.len(),
    ensures
        scan_from(spaced(symbols), 2 * k, 1) == Scanned::Ok(
            symbol_tokens(symbols).skip(k),
        ),
    decreases symbols.len() - k,
{
    let text = spaced(symbols);
    let n = symbols.len() as int;
    let expected = symbol_tokens(symbols);
    if k == n {
        assert(expected.skip(k) =~= seq![end_of_input(1)]);
    } else {
        // The symbol at index 2k is a token by itself: what follows it is a
        // space or the end of the text.
        let c = symbols[k];
        assert(text[2 * k] == c && lone_kind(c) is Some);
        assert(!has_at(text, 2 * k + 1, '=') && !has_at(text, 2 * k + 1, '/'));
        assert(lexeme_at(text, 2 * k) == Lexeme::Token { kind: lone_kind(c)->0, len: 1 });
        assert(text.subrange(2 * k, 2 * k + 1) =~= seq![c]);
        newlines_extend(text, 2 * k, 2 * k);
        let rest = scan_from(text, 2 * k + 1, 1);
        assert(scan_from(text, 2 * k, 1) == after(seq![expected[k]], rest));
        // The space after it, if there is one, is skipped.
        if k + 1 < n {
            assert(lexeme_at(text, 2 * k + 1) == Lexeme::Skip { len: 1 });
            newlines_extend(text, 2 * k + 1, 2 * k + 1);
        }
        assert(rest == scan_from(text, 2 * (k + 1), 1));
        scan_spaced_from(symbols, k + 1);
        assert(seq![expected[k]] + expected.skip(k + 1) =~= expected.skip(k));
    }
}

/// A text made of symbols that are each a token by itself, with one space
/// between each two, scans to one token for each symbol and the
/// end-of-input token after them: as many tokens as symbols and one more,
/// the lexemes of which are the symbols, in their order.
pub proof fn spaced_symbols_round_trip(symbols: Seq<char>)
    requires
        forall|i: int| 0 <= i < symbols.len() ==> lone_kind(#[trigger] symbols[i]) is Some,
    ensures
        scan(spaced(symbols)) == Scanned::Ok(symbol_tokens(symbols)),
        symbol_tokens(symbols).len() == symbols.len() + 1,
        forall|i: int|
            0 <= i < symbols.len() ==> (#[trigger] symbol_tokens(symbols)[i]).lexeme == seq![
                symbols[i],
            ],
        symbol_tokens(symbols).last().kind == TokenType::Eof,
{
    scan_spaced_from(symbols, 0);
    assert(symbol_tokens(symbols).skip(0) =~= symbol_tokens(symbols));
}

/// Scanning depends on the text alone: two scanners that stand at the
/// beginning of the same text have the same outcome, which is the scan of
/// that text.
pub proof fn same_text_same_outcome(first: Scanner, second: Scanner)
    requires
        first.at_beginning(),
        second.at_beginning(),
        first.source() == second.source(),
    ensures
        first.outcome() == second.outcome(),
        first.outcome() == scan(first.source()),
{
    first.outcome_at_beginning();
    second.outcome_at_beginning();
}

/// Whether `token` is what stands in `text` at index `at`: its lexeme is
/// the text there, it carries the number of the line on which that index
/// lies, and it is the token that the grammar finds there, or the
/// end-of-input token, which has no text.
pub open spec fn stands_at(text: Seq<char>, token: TokenView, at: int) -> bool {
    &&& 0 <= at <= at + token.lexeme.len() <= text.len()
    &&& text.subrange(at, at + token.lexeme.len()) == token.lexeme
    &&& token.line == 1 + newlines(text.take(at))
    &&& if token.kind == TokenType::Eof {
        token.lexeme.len() == 0
    } else {
        lexeme_at(text, at) == (Lexeme::Token { kind: token.kind, len: token.lexeme.len() })
    }
}

/// Whether `text` holds nothing but whitespace and comments from index
/// `from` up to index `to`.
pub open spec fn only_skipped(text: Seq<char>, from: int, to: int) -> bool
    decreases to - from,
{
    from == to || (lexeme_at(text, from) matches Lexeme::Skip { len } && 0 <= from && 0 < len
        && from + len <= to && only_skipped(text, from + len, to))
}

/// Whether `tokens` make up what `text` holds from index `from` to its
/// end: before each token only whitespace and comments, then the token,
/// where the one before it ended or later, and after the last token the
/// end of the text.
pub open spec fn make_up_from(text: Seq<char>, tokens: Seq<TokenView>, from: int) -> bool
    decreases tokens.len(),
{
    if tokens.len() == 0 {
        from == text.len()
    } else {
        exists|at: int|
            {
                &&& only_skipped(text, from, at)
                &&& #[trigger] stands_at(text, tokens[0], at)
                &&& make_up_from(text, tokens.skip(1), at + tokens[0].lexeme.len())
            }
    }
}

/// The tokens of what is left of a text, from an index on whose line the
/// scan stands: the last is the end-of-input token, on the last line of the
/// text, and it is the only one of its category and the only one without
/// text.
proof fn tokens_shape_from(text: Seq<char>, pos: int, line: nat)
    requires
        0 <= pos <= text.len(),
    ensures
        scan_from(text, pos, line) matches Ok(tokens) ==> {
            &&& tokens.len() >= 1
            &&& tokens.last() == end_of_input(
                line + newlines(text.subrange(pos, text.len() as int)),
            )
            &&& forall|i: int|
                0 <= i < tokens.len() - 1 ==> (#[trigger] tokens[i]).kind != TokenType::Eof
                    && tokens[i].lexeme.len() > 0
        },
    decreases text.len() - pos,
{
    let end = text.len() as int;
    if pos < end {
        match lexeme_at(text, pos) {
            Lexeme::Token { kind, len } => {
                lexeme_in_text(text, pos);
                let lexeme = text.subrange(pos, pos + len);
                let next = line + newlines(lexeme);
                tokens_shape_from(text, pos + len, next);
                assert(lexeme + text.subrange(pos + len, end) =~= text.subrange(pos, end));
                newlines_concat(lexeme, text.subrange(pos + len, end));
                if let Ok(rest) = scan_from(text, pos + len, next) {
                    let tokens = seq![TokenView { kind, lexeme, line }] + rest;
                    assert forall|i: int| 0 <= i < tokens.len() - 1 implies (
                    #[trigger] tokens[i]).kind != TokenType::Eof && tokens[i].lexeme.len()
                        > 0 by {
                        if i > 0 {
                            assert(tokens[i] == rest[i - 1]);
                        }
                    }
                }
            },
            Lexeme::Skip { len } => {
                lexeme_in_text(text, pos);
                let skipped = text.subrange(pos, pos + len);
                tokens_shape_from(text, pos + len, line + newlines(skipped));
                assert(skipped + text.subrange(pos + len, end) =~= text.subrange(pos, end));
                newlines_concat(skipped, text.subrange(pos + len, end));
            },
            _ => {},
        }
    }
}

/// A lexeme lies in the text it is a lexeme of, and is not empty; a token
/// of the grammar is never the end-of-input token.
proof fn lexeme_in_text(text: Seq<char>, pos: int)
    requires
        0 <= pos < text.len(),
    ensures
        lexeme_at(text, pos) matches Lexeme::Token { kind, len } ==> 0 < len && pos + len
            <= text.len() && kind != TokenType::Eof,
        lexeme_at(text, pos) matches Lexeme::Skip { len } ==> 0 < len && pos + len <= text.len(),
{
    run_length_in_text(text, pos + 2, '\n');
    run_length_in_text(text, pos + 1, '"');
}

/// The tokens of what is left of a text make up what the text holds
/// from the index on where the scan stands.
proof fn tokens_make_up_from(text: Seq<char>, pos: int, line: nat)
    requires
        0 <= pos <= text.len(),
        line == 1 + newlines(text.take(pos)),
    ensures
        scan_from(text, pos, line) matches Ok(tokens) ==> make_up_from(text, tokens, pos),
    decreases text.len() - pos,
{
    let end = text.len() as int;
    if pos < end {
        match lexeme_at(text, pos) {
            Lexeme::Token { kind, len } => {
                lexeme_in_text(text, pos);
                let lexeme = text.subrange(pos, pos + len);
                let next = line + newlines(lexeme);
                assert(text.take(pos) + lexeme =~= text.take(pos + len));
                newlines_concat(text.take(pos), lexeme);
                tokens_make_up_from(text, pos + len, next);
                if let Ok(rest) = scan_from(text, pos + len, next) {
                    let token = TokenView { kind, lexeme, line };
                    let tokens = seq![token] + rest;
                    assert(tokens.skip(1) =~= rest);
                    assert(stands_at(text, tokens[0], pos));
                }
            },
            Lexeme::Skip { len } => {
                lexeme_in_text(text, pos);
                let skipped = text.subrange(pos, pos + len);
                let next = line + newlines(skipped);
                assert(text.take(pos) + skipped =~= text.take(pos + len));
                newlines_concat(text.take(pos), skipped);
                tokens_make_up_from(text, pos + len, next);
                if let Ok(tokens) = scan_from(text, pos + len, next) {
                    tokens_shape_from(text, pos + len, next);
                    let at = choose|at: int|
                        {
                            &&& only_skipped(text, pos + len, at)
                            &&& #[trigger] stands_at(text, tokens[0], at)
                            &&& make_up_from(text, tokens.skip(1), at + tokens[0].lexeme.len())
                        };
                    only_skipped_in_order(text, pos + len, at);
                    assert(only_skipped(text, pos, at));
                }
            },
            _ => {},
        }
    } else {
        let tokens = seq![end_of_input(line)];
        assert(text.subrange(end, end) =~= Seq::<char>::empty());
        assert(stands_at(text, tokens[0], end));
        assert(make_up_from(text, tokens.skip(1), end));
    }
}

/// What is skipped ends where it begins or later.
proof fn only_skipped_in_order(text: Seq<char>, from: int, to: int)
    requires
        only_skipped(text, from, to),
    ensures
        from <= to,
    decreases to - from,
{
    if from != to {
        if let Lexeme::Skip { len } = lexeme_at(text, from) {
            only_skipped_in_order(text, from + len, to);
        }
    }
}

/// Whether `error` reports what is wrong in `text` at index `at`: a
/// character there with which no lexeme begins, reported at its own line,
/// or a string literal opened there and never closed, reported at the last
/// line of the text.
pub open spec fn reports_fault_at(text: Seq<char>, error: ErrorView, at: int) -> bool {
    &&& 0 <= at < text.len()
    &&& match lexeme_at(text, at) {
        Lexeme::Unexpected => error == unexpected(text[at], 1 + newlines(text.take(at))),
        Lexeme::Unterminated => error == unterminated(1 + newlines(text)),
        _ => false,
    }
}

/// The error of what is left of a text, from an index on whose line the
/// scan stands, reports what is wrong at some index from there on.
proof fn error_reports_fault_from(text: Seq<char>, pos: int, line: nat)
    requires
        0 <= pos <= text.len(),
        line == 1 + newlines(text.take(pos)),
    ensures
        scan_from(text, pos, line) matches Err(error) ==> exists|at: int|
            pos <= at && #[trigger] reports_fault_at(text, error, at),
    decreases text.len() - pos,
{
    let end = text.len() as int;
    if pos < end {
        match lexeme_at(text, pos) {
            Lexeme::Token { kind, len } => {
                lexeme_in_text(text, pos);
                let lexeme = text.subrange(pos, pos + len);
                assert(text.take(pos) + lexeme =~= text.take(pos + len));
                newlines_concat(text.take(pos), lexeme);
                error_reports_fault_from(text, pos + len, line + newlines(lexeme));
                if let Err(error) = scan_from(text, pos + len, line + newlines(lexeme)) {
                    let at = choose|at: int|
                        pos + len <= at && #[trigger] reports_fault_at(text, error, at);
                    assert(reports_fault_at(text, error, at));
                }
            },
            Lexeme::Skip { len } => {
                lexeme_in_text(text, pos);
                let skipped = text.subrange(pos, pos + len);
                assert(text.take(pos) + skipped =~= text.take(pos + len));
                newlines_concat(text.take(pos), skipped);
                error_reports_fault_from(text, pos + len, line + newlines(skipped));
                if let Err(error) = scan_from(text, pos + len, line + newlines(skipped)) {
                    let at = choose|at: int|
                        pos + len <= at && #[trigger] reports_fault_at(text, error, at);
                    assert(reports_fault_at(text, error, at));
                }
            },
            Lexeme::Unterminated => {
                assert(text.take(pos) + text.subrange(pos, end) =~= text);
                newlines_concat(text.take(pos), text.subrange(pos, end));
                assert(reports_fault_at(text, scan_from(text, pos, line)->Err_0, pos));
            },
            Lexeme::Unexpected => {
                assert(reports_fault_at(text, scan_from(text, pos, line)->Err_0, pos));
            },
        }
    }
}

/// The error of a text that does not scan reports what is wrong at some
/// index of the text: a character with which no lexeme begins, at the line
/// of that character, or a string literal left open, at the last line of
/// the text.
pub proof fn error_reports_fault(text: Seq<char>)
    ensures
        scan(text) matches Err(error) ==> exists|at: int| #[trigger]
            reports_fault_at(text, error, at),
{
    assert(text.take(0) =~= Seq::<char>::empty());
    error_reports_fault_from(text, 0, 1);
    if let Err(error) = scan(text) {
        let at = choose|at: int| 0 <= at && #[trigger] reports_fault_at(text, error, at);
        assert(reports_fault_at(text, error, at));
    }
}

/// The tokens of a text that scans without error end with the
/// end-of-input token, which has no text and carries the number of the
/// last line of the text. Every token before it is of another category and
/// has text.
pub proof fn tokens_end_with_end_of_input(text: Seq<char>)
    ensures
        scan(text) matches Ok(tokens) ==> {
            &&& tokens.len() >= 1
            &&& tokens.last() == end_of_input(1 + newlines(text))
            &&& forall|i: int|
                0 <= i < tokens.len() - 1 ==> (#[trigger] tokens[i]).kind != TokenType::Eof
                    && tokens[i].lexeme.len() > 0
        },
{
    tokens_shape_from(text, 0, 1);
    assert(text.subrange(0, text.len() as int) =~= text);
}

/// The tokens of a text that scans without error make up the text: they
/// stand in it in their order, none reaching into the next, with only
/// whitespace and comments before, between and after them. The lexeme of
/// each is the stretch of the text where it stands, and each carries the
/// number of the line on which its first character lies.
pub proof fn tokens_make_up_text(text: Seq<char>)
    ensures
        scan(text) matches Ok(tokens) ==> make_up_from(text, tokens, 0),
{
    assert(text.take(0) =~= Seq::<char>::empty());
    tokens_make_up_from(text, 0, 1);
}

} // verus!
