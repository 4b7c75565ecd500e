//! The errors the pipeline reports, one kind for each stage.

use vstd::prelude::*;
use vstd::string::*;
use crate::text::{decimal_text, push_decimal};
use crate::token::{Token, TokenType, TokenView};

verus! {

/// An error of one of the five kinds: scanning (`Error`), parsing, resolving,
/// running, and the system (clock, input and output).
#[derive(Debug, PartialEq, Eq)]
pub enum LoxResult {
    ParseError { token: Token, message: String },
    ResolveError { token: Token, message: String },
    RuntimeError { token: Token, message: String },
    SystemError { message: String },
    Error { line: usize, col: usize, message: String },
}

/// Mathematical model of a [`LoxResult`].
pub enum LoxResultView {
    ParseError { token: TokenView, message: Seq<char> },
    ResolveError { token: TokenView, message: Seq<char> },
    RuntimeError { token: TokenView, message: Seq<char> },
    SystemError { message: Seq<char> },
    Error { line: usize, col: usize, message: Seq<char> },
}

impl View for LoxResult {
    type V = LoxResultView;

    open spec fn view(&self) -> LoxResultView {
        match self {
            LoxResult::ParseError { token, message } => LoxResultView::ParseError {
                token: token@,
                message: message@,
            },
            LoxResult::ResolveError { token, message } => LoxResultView::ResolveError {
                token: token@,
                message: message@,
            },
            LoxResult::RuntimeError { token, message } => LoxResultView::RuntimeError {
                token: token@,
                message: message@,
            },
            LoxResult::SystemError { message } => LoxResultView::SystemError { message: message@ },
            LoxResult::Error { line, col, message } => LoxResultView::Error {
                line: *line,
                col: *col,
                message: message@,
            },
        }
    }
}

/// Where a token-borne error points: ` at eof` for the end marker, else the
/// lexeme between quotes.
pub open spec fn location_text(token: TokenView) -> Seq<char> {
    if token.ttype == TokenType::Eof {
        " at eof"@
    } else {
        " at '"@ + token.lexeme + "'"@
    }
}

/// The line that reports an error:
/// `[line L col C] Error{ at 'lexeme'}: message`, without the position for a
/// system error.
pub open spec fn report_text(e: LoxResultView) -> Seq<char> {
    match e {
        LoxResultView::ParseError { token, message } => position_text(token.line, token.col)
            + "Error"@ + location_text(token) + ": "@ + message,
        LoxResultView::ResolveError { token, message } => position_text(token.line, token.col)
            + "Error"@ + location_text(token) + ": "@ + message,
        LoxResultView::RuntimeError { token, message } => position_text(token.line, token.col)
            + "Error"@ + location_text(token) + ": "@ + message,
        LoxResultView::SystemError { message } => "Error: "@ + message,
        LoxResultView::Error { line, col, message } => position_text(line, col) + "Error: "@
            + message,
    }
}

/// `[line L col C] `.
pub open spec fn position_text(line: usize, col: usize) -> Seq<char> {
    "[line "@ + decimal_text(line as nat) + " col "@ + decimal_text(col as nat) + "] "@
}

fn push_position(s: &mut String, line: usize, col: usize)
    ensures
        final(s)@ == old(s)@ + position_text(line, col),
{
    s.append("[line ");
    push_decimal(s, line);
    s.append(" col ");
    push_decimal(s, col);
    s.append("] ");
    assert(final(s)@ =~= old(s)@ + position_text(line, col));
}

fn push_location(s: &mut String, token: &Token)
    ensures
        final(s)@ == old(s)@ + location_text(token@),
{
    if token.ttype == TokenType::Eof {
        s.append(" at eof");
    } else {
        s.append(" at '");
        s.append(token.lexeme.as_str());
        s.append("'");
        assert(final(s)@ =~= old(s)@ + location_text(token@));
    }
}

fn report_at_token(token: &Token, message: &String) -> (s: String)
    ensures
        s@ == position_text(token.line, token.col) + "Error"@ + location_text(token@) + ": "@
            + message@,
{
    let mut s = String::new();
    push_position(&mut s, token.line, token.col);
    s.append("Error");
    push_location(&mut s, token);
    s.append(": ");
    s.append(message.as_str());
    assert(s@ =~= position_text(token.line, token.col) + "Error"@ + location_text(token@) + ": "@
        + message@);
    s
}

impl LoxResult {
    /// A scan error at a position of the source.
    pub fn error(line: usize, col: usize, message: &str) -> (e: LoxResult)
        ensures
            e@ == (LoxResultView::Error { line, col, message: message@ }),
    {
        LoxResult::Error { line, col, message: String::from_str(message) }
    }

    /// A parse error at a token.
    pub fn error_at_token(token: &Token, message: &str) -> (e: LoxResult)
        ensures
            e@ == (LoxResultView::ParseError { token: token@, message: message@ }),
    {
        LoxResult::ParseError { token: token.clone(), message: String::from_str(message) }
    }

    /// A resolve error at a token.
    pub fn error_resolve(token: &Token, message: &str) -> (e: LoxResult)
        ensures
            e@ == (LoxResultView::ResolveError { token: token@, message: message@ }),
    {
        LoxResult::ResolveError { token: token.clone(), message: String::from_str(message) }
    }

    /// A runtime error at a token.
    pub fn error_runtime(token: &Token, message: &str) -> (e: LoxResult)
        ensures
            e@ == (LoxResultView::RuntimeError { token: token@, message: message@ }),
    {
        LoxResult::RuntimeError { token: token.clone(), message: String::from_str(message) }
    }

    /// A system error, which has no position.
    pub fn system_error(message: &str) -> (e: LoxResult)
        ensures
            e@ == (LoxResultView::SystemError { message: message@ }),
    {
        LoxResult::SystemError { message: String::from_str(message) }
    }

    /// The line that reports this error.
    pub fn report(&self) -> (s: String)
        ensures
            s@ == report_text(self@),
    {
        match self {
            LoxResult::ParseError { token, message } => report_at_token(token, message),
            LoxResult::ResolveError { token, message } => report_at_token(token, message),
            LoxResult::RuntimeError { token, message } => report_at_token(token, message),
            LoxResult::SystemError { message } => {
                let mut s = String::from_str("Error: ");
                s.append(message.as_str());
                s
            },
            LoxResult::Error { line, col, message } => {
                let mut s = String::new();
                push_position(&mut s, *line, *col);
                s.append("Error: ");
                s.append(message.as_str());
                assert(s@ =~= position_text(*line, *col) + "Error: "@ + message@);
                s
            },
        }
    }
}

impl Clone for LoxResult {
    fn clone(&self) -> (r: LoxResult)
        ensures
            r@ == self@,
    {
        match self {
            LoxResult::ParseError { token, message } => LoxResult::ParseError {
                token: token.clone(),
                message: message.clone(),
            },
            LoxResult::ResolveError { token, message } => LoxResult::ResolveError {
                token: token.clone(),
                message: message.clone(),
            },
            LoxResult::RuntimeError { token, message } => LoxResult::RuntimeError {
                token: token.clone(),
                message: message.clone(),
            },
            LoxResult::SystemError { message } => LoxResult::SystemError {
                message: message.clone(),
            },
            LoxResult::Error { line, col, message } => LoxResult::Error {
                line: *line,
                col: *col,
                message: message.clone(),
            },
        }
    }
}

/// Views of a sequence of errors, element by element.
pub open spec fn errors_view(errors: Seq<LoxResult>) -> Seq<LoxResultView> {
    errors.map_values(|e: LoxResult| e@)
}

/// A copy of a vector of errors.
pub fn clone_errors(errors: &Vec<LoxResult>) -> (r: Vec<LoxResult>)
    ensures
        errors_view(r@) == errors_view(errors@),
{
    let mut r: Vec<LoxResult> = Vec::new();
    let mut i: usize = 0;
    while i < errors.len()
        invariant
            i <= errors.len(),
            r.len() == i,
            forall|j: int| 0 <= j < i ==> r@[j]@ == errors@[j]@,
        decreases errors.len() - i,
    {
        r.push(errors[i].clone());
        i += 1;
    }
    assert(errors_view(r@) =~= errors_view(errors@));
    r
}

} // verus!
