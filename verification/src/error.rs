//! The error a failed scan reports.

use vstd::prelude::*;
use vstd::string::StringExecFns;

use crate::text::{decimal, push_decimal};

verus! {

/// Category of a reported error.
#[derive(Debug, Clone, Copy, PartialEq, Eq, Structural)]
pub enum ErrorType {
    /// The source text is lexically malformed.
    Syntax,
}

impl ErrorType {
    /// The category's name as text.
    pub open spec fn spec_name(self) -> Seq<char> {
        match self {
            ErrorType::Syntax => "Syntax"@,
        }
    }

    /// The category's name as text.
    pub fn name(&self) -> (s: &'static str)
        ensures
            s@ == self.spec_name(),
    {
        match self {
            ErrorType::Syntax => "Syntax",
        }
    }
}

/// What a `LoxError` holds, as mathematics.
pub struct ErrorView {
    pub kind: ErrorType,
    /// 1-based line the error is reported at.
    pub line: nat,
    pub message: Seq<char>,
}

impl ErrorView {
    /// The one-line report of the error: `[line N] KindError: message`.
    pub open spec fn rendering(self) -> Seq<char> {
        "[line "@ + decimal(self.line) + "] "@ + self.kind.spec_name() + "Error: "@ + self.message
    }
}

/// An error with its category, the line it was found at, and a message for
/// the reader.
#[derive(Debug, Clone)]
pub struct LoxError {
    kind: ErrorType,
    line: usize,
    message: String,
}

impl View for LoxError {
    type V = ErrorView;

    closed spec fn view(&self) -> ErrorView {
        ErrorView { kind: self.kind, line: self.line as nat, message: self.message@ }
    }
}

/// The result of an operation that may fail with a `LoxError`.
pub type LoxResult<T> = Result<T, LoxError>;

impl LoxError {
    fn new(kind: ErrorType, message: String, line: usize) -> (e: Self)
        ensures
            e@ == (ErrorView { kind, line: line as nat, message: message@ }),
    {
        LoxError { kind, line, message }
    }

    /// A syntax error found at `line`.
    pub fn syntax(line: usize, message: String) -> (e: Self)
        ensures
            e@ == (ErrorView { kind: ErrorType::Syntax, line: line as nat, message: message@ }),
    {
        LoxError::new(ErrorType::Syntax, message, line)
    }

    /// The error's category.
    pub fn error_type(&self) -> (kind: ErrorType)
        ensures
            kind == self@.kind,
    {
        self.kind
    }

    /// The 1-based line the error was found at.
    pub fn line(&self) -> (line: usize)
        ensures
            line == self@.line,
    {
        self.line
    }

    /// The message for the reader.
    pub fn message(&self) -> (message: &str)
        ensures
            message@ == self@.message,
    {
        self.message.as_str()
    }

    /// The one-line report of the error: `[line N] KindError: message`.
    pub fn to_string(&self) -> (s: String)
        ensures
            s@ == self@.rendering(),
    {
        let mut s = String::from_str("[line ");
        push_decimal(&mut s, self.line);
        s.append("] ");
        s.append(self.kind.name());
        s.append("Error: ");
        s.append(self.message.as_str());
        s
    }
}

} // verus!
