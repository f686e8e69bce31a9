//! Error values carried out of scanning, parsing and evaluation, with their
//! rendered report lines.

use vstd::prelude::*;
use vstd::string::StringExecFns;
use crate::scanner::{Token, TokenModel, TokenType};
use crate::text::dec_digits;
use crate::text::u64_text;

verus! {

/// An error found while scanning: its message and the 1-based source line.
#[derive(Debug)]
pub struct ScanError {
    pub message: String,
    pub line: usize,
}

/// The mathematical content of a `ScanError`.
pub struct ScanErrModel {
    pub msg: Seq<char>,
    pub line: nat,
}

impl View for ScanError {
    type V = ScanErrModel;

    open spec fn view(&self) -> ScanErrModel {
        ScanErrModel { msg: self.message@, line: self.line as nat }
    }
}

/// The report line for a scan error.
pub open spec fn scan_err_text(e: ScanErrModel) -> Seq<char> {
    "LINE "@ + dec_digits(e.line) + ": "@ + e.msg
}

impl ScanError {
    /// A copy of this error.
    pub fn dup(&self) -> (r: ScanError)
        ensures
            r@ == self@,
    {
        ScanError { message: self.message.clone(), line: self.line }
    }

    /// The report line: `LINE <line>: <message>`.
    pub fn render(&self) -> (r: String)
        ensures
            r@ == scan_err_text(self@),
    {
        let mut s = String::from_str("LINE ");
        let line_text = u64_text(self.line as u64);
        s.append(line_text.as_str());
        s.append(": ");
        s.append(self.message.as_str());
        s
    }
}

/// An error raised by the parser or the evaluator: a message, the 1-based
/// source line, and the token it points at.
#[derive(Debug)]
pub struct RuntimeError {
    pub message: String,
    pub line: usize,
    pub token: Token,
}

/// The mathematical content of a `RuntimeError`.
pub struct ErrModel {
    pub msg: Seq<char>,
    pub line: nat,
    pub token: TokenModel,
}

impl View for RuntimeError {
    type V = ErrModel;

    open spec fn view(&self) -> ErrModel {
        ErrModel { msg: self.message@, line: self.line as nat, token: self.token@ }
    }
}

/// The report line for a parse or runtime error: the offending token's lexeme
/// is quoted, except for the end-of-input token, which has none.
pub open spec fn err_text(e: ErrModel) -> Seq<char> {
    if e.token.kind == TokenType::EOF {
        "LINE "@ + dec_digits(e.line) + ": "@ + e.msg
    } else {
        "LINE "@ + dec_digits(e.line) + ": '"@ + e.token.lexeme + "': "@ + e.msg
    }
}

impl RuntimeError {
    /// Packs a message, a line and the offending token into an error.
    pub fn new(message: &str, line: usize, token: Token) -> (r: Self)
        ensures
            r@ == (ErrModel { msg: message@, line: line as nat, token: token@ }),
    {
        Self { message: message.to_owned(), line, token }
    }

    /// The report line: `LINE <line>: '<lexeme>': <message>`, or without the
    /// quoted lexeme when the token is the end-of-input token.
    pub fn render(&self) -> (r: String)
        ensures
            r@ == err_text(self@),
    {
        let mut s = String::from_str("LINE ");
        let line_text = u64_text(self.line as u64);
        s.append(line_text.as_str());
        if self.token.token_type == TokenType::EOF {
            s.append(": ");
            s.append(self.message.as_str());
        } else {
            s.append(": '");
            s.append(self.token.lexeme.as_str());
            s.append("': ");
            s.append(self.message.as_str());
        }
        s
    }
}

} // verus!
