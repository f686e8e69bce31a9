//! The scanner: turns source text into a sequence of tokens, tracking 1-based
//! line numbers for diagnostics.  Its behaviour is specified by `scan_at`, a
//! recursive function over the source characters; `Scanner::scan_tokens` is
//! proved to produce exactly the tokens and errors that `scan_at` describes.

use vstd::prelude::*;
use vstd::string::StrSliceExecFns;
use vstd::string::StringExecFns;
use crate::error::{ScanErrModel, ScanError};
use crate::text::i64_text;
use crate::text::int_digits;
use crate::text::text_eq;
use crate::text::text_of;

verus! {

/// The kinds of lexical units.
#[derive(Debug, Clone, Copy, PartialEq, Eq, Structural)]
pub enum TokenType {
    LeftParen,
    RightParen,
    LeftBrace,
    RightBrace,
    Comma,
    Dot,
    Minus,
    Plus,
    Semicolon,
    Slash,
    Star,
    Bang,
    BangEqual,
    Equal,
    EqualEqual,
    Greater,
    GreaterEqual,
    Less,
    LessEqual,
    Identifier,
    String,
    Number,
    And,
    Class,
    Else,
    False,
    Fun,
    For,
    If,
    Nil,
    Or,
    Print,
    Return,
    Super,
    This,
    True,
    Var,
    While,
    EOF,
}

/// The payload attached to a `Number` or `String` token.
#[derive(Debug, Clone)]
pub enum LiteralValue {
    IntValue(i64),
    StringValue(String),
}

/// The mathematical content of a literal payload.
pub enum LitModel {
    Int(int),
    Text(Seq<char>),
}

impl View for LiteralValue {
    type V = LitModel;

    open spec fn view(&self) -> LitModel {
        match self {
            LiteralValue::IntValue(n) => LitModel::Int(*n as int),
            LiteralValue::StringValue(s) => LitModel::Text(s@),
        }
    }
}

/// A classified lexical unit: its kind, the exact source substring it came
/// from, an optional literal payload, and its 1-based line.
#[derive(Debug, Clone)]
pub struct Token {
    pub token_type: TokenType,
    pub lexeme: String,
    pub literal: Option<LiteralValue>,
    pub line_number: usize,
}

/// The mathematical content of a token.
pub struct TokenModel {
    pub kind: TokenType,
    pub lexeme: Seq<char>,
    pub lit: Option<LitModel>,
    pub line: nat,
}

impl View for Token {
    type V = TokenModel;

    open spec fn view(&self) -> TokenModel {
        TokenModel {
            kind: self.token_type,
            lexeme: self.lexeme@,
            lit: match &self.literal {
                Option::None => Option::None,
                Option::Some(l) => Option::Some(l@),
            },
            line: self.line_number as nat,
        }
    }
}

/// The models of a sequence of tokens.
pub open spec fn toks_view(ts: Seq<Token>) -> Seq<TokenModel> {
    ts.map_values(|t: Token| t@)
}

/// The models of a sequence of scan errors.
pub open spec fn errs_view(es: Seq<ScanError>) -> Seq<ScanErrModel> {
    es.map_values(|e: ScanError| e@)
}

impl Token {
    /// Packs the parts of a token.
    pub fn new(token_type: TokenType, lexeme: String, literal: Option<LiteralValue>, line_number: usize) -> (t: Self)
        ensures
            t@ == (TokenModel {
                kind: token_type,
                lexeme: lexeme@,
                lit: match literal {
                    Option::None => Option::None::<LitModel>,
                    Option::Some(l) => Option::Some(l@),
                },
                line: line_number as nat,
            }),
    {
        Self { token_type, lexeme, literal, line_number }
    }

    /// A copy of this token, with the same content.
    pub fn dup(&self) -> (t: Self)
        ensures
            t@ == self@,
    {
        Self {
            token_type: self.token_type,
            lexeme: self.lexeme.clone(),
            literal: match &self.literal {
                Option::None => Option::None,
                Option::Some(LiteralValue::IntValue(n)) => Option::Some(
                    LiteralValue::IntValue(*n),
                ),
                Option::Some(LiteralValue::StringValue(s)) => Option::Some(
                    LiteralValue::StringValue(s.clone()),
                ),
            },
            line_number: self.line_number,
        }
    }

    /// Renders the token: its kind's name, its lexeme, and its payload.
    pub fn to_string(&self) -> (r: String)
        ensures
            r@ == token_text(self@),
    {
        let mut s = String::from_str(kind_name(self.token_type));
        s.append(" ");
        s.append(self.lexeme.as_str());
        s.append(" ");
        match &self.literal {
            Option::None => {
                s.append("None");
            },
            Option::Some(LiteralValue::IntValue(n)) => {
                s.append("Some(IntValue(");
                let d = i64_text(*n);
                s.append(d.as_str());
                s.append("))");
            },
            Option::Some(LiteralValue::StringValue(v)) => {
                s.append("Some(StringValue(");
                s.append(v.as_str());
                s.append("))");
            },
        }
        proof {
            assert(s@ =~= token_text(self@));
        }
        s
    }
}

/// The rendering of an optional literal payload.
pub open spec fn lit_text(l: Option<LitModel>) -> Seq<char> {
    match l {
        Option::None => "None"@,
        Option::Some(LitModel::Int(n)) => "Some(IntValue("@ + int_digits(n) + "))"@,
        Option::Some(LitModel::Text(v)) => "Some(StringValue("@ + v + "))"@,
    }
}

/// The rendering of a token: its kind's name, its lexeme, and its payload.
pub open spec fn token_text(t: TokenModel) -> Seq<char> {
    kind_text(t.kind) + " "@ + t.lexeme + " "@ + lit_text(t.lit)
}

/// Whether `c` is a decimal digit.
pub open spec fn is_digit_char(c: char) -> bool {
    48 <= c as u32 && c as u32 <= 57
}

/// Whether `c` may start an identifier: a letter or an underscore.
pub open spec fn is_alpha_char(c: char) -> bool {
    (97 <= c as u32 && c as u32 <= 122) || (65 <= c as u32 && c as u32 <= 90) || c == '_'
}

/// Whether `c` may continue an identifier.
pub open spec fn is_alnum_char(c: char) -> bool {
    is_alpha_char(c) || is_digit_char(c)
}

/// The first position at or after `pos` holding no decimal digit.
pub open spec fn digits_end(src: Seq<char>, pos: nat) -> nat
    decreases src.len() - pos,
{
    if pos < src.len() && is_digit_char(src[pos as int]) {
        digits_end(src, pos + 1)
    } else {
        pos
    }
}

/// The first position at or after `pos` holding no identifier character.
pub open spec fn ident_end(src: Seq<char>, pos: nat) -> nat
    decreases src.len() - pos,
{
    if pos < src.len() && is_alnum_char(src[pos as int]) {
        ident_end(src, pos + 1)
    } else {
        pos
    }
}

/// The position of the next line break at or after `pos`, or the end of the
/// source.
pub open spec fn comment_end(src: Seq<char>, pos: nat) -> nat
    decreases src.len() - pos,
{
    if pos < src.len() && src[pos as int] != '\n' {
        comment_end(src, pos + 1)
    } else {
        pos
    }
}

/// The position of the next double quote at or after `pos`, or the end of the
/// source.
pub open spec fn string_end(src: Seq<char>, pos: nat) -> nat
    decreases src.len() - pos,
{
    if pos < src.len() && src[pos as int] != '"' {
        string_end(src, pos + 1)
    } else {
        pos
    }
}

/// The number of line breaks in `src[from..to]`.
pub open spec fn nl_count(src: Seq<char>, from: nat, to: nat) -> nat
    decreases to - from,
{
    if from < to && from < src.len() {
        (if src[from as int] == '\n' {
            1nat
        } else {
            0nat
        }) + nl_count(src, from + 1, to)
    } else {
        0
    }
}

/// The value of a run of decimal digits, most significant first.
pub open spec fn digits_val(s: Seq<char>) -> int
    decreases s.len(),
{
    if s.len() == 0 {
        0
    } else {
        digits_val(s.drop_last()) * 10 + (s.last() as u32 - 48)
    }
}

/// The payload of a number token: the digits' value, held at the largest
/// representable number when it does not fit.
pub open spec fn num_lit_val(s: Seq<char>) -> int {
    if digits_val(s) > i64::MAX {
        i64::MAX as int
    } else {
        digits_val(s)
    }
}

/// The token kind of an identifier lexeme: a reserved word's own kind, or
/// `Identifier`.
pub open spec fn keyword_kind(s: Seq<char>) -> TokenType {
    if s == "and"@ {
        TokenType::And
    } else if s == "class"@ {
        TokenType::Class
    } else if s == "else"@ {
        TokenType::Else
    } else if s == "false"@ {
        TokenType::False
    } else if s == "for"@ {
        TokenType::For
    } else if s == "fun"@ {
        TokenType::Fun
    } else if s == "if"@ {
        TokenType::If
    } else if s == "nil"@ {
        TokenType::Nil
    } else if s == "or"@ {
        TokenType::Or
    } else if s == "print"@ {
        TokenType::Print
    } else if s == "return"@ {
        TokenType::Return
    } else if s == "super"@ {
        TokenType::Super
    } else if s == "this"@ {
        TokenType::This
    } else if s == "true"@ {
        TokenType::True
    } else if s == "var"@ {
        TokenType::Var
    } else if s == "while"@ {
        TokenType::While
    } else {
        TokenType::Identifier
    }
}

/// What one step of the scanner does at a position: the tokens and errors it
/// emits, the position after it, and the line counter after it.
pub struct ScanStep {
    pub toks: Seq<TokenModel>,
    pub errs: Seq<ScanErrModel>,
    pub next: nat,
    pub line: nat,
}

/// A token carrying no payload.
pub open spec fn plain_tok(kind: TokenType, lexeme: Seq<char>, line: nat) -> TokenModel {
    TokenModel { kind, lexeme, lit: Option::None, line }
}

/// A step emitting nothing.
pub open spec fn skip_step(next: nat, line: nat) -> ScanStep {
    ScanStep { toks: Seq::empty(), errs: Seq::empty(), next, line }
}

/// A step emitting one token without payload.
pub open spec fn tok_step(src: Seq<char>, pos: nat, end: nat, kind: TokenType, line: nat) -> ScanStep {
    ScanStep {
        toks: seq![plain_tok(kind, src.subrange(pos as int, end as int), line)],
        errs: Seq::empty(),
        next: end,
        line,
    }
}

/// Whether the character after `pos` is `=`, turning `!`, `=`, `<` and `>`
/// into their two-character forms.
pub open spec fn eq_follows(src: Seq<char>, pos: nat) -> bool {
    pos + 1 < src.len() && src[pos as int + 1] == '='
}

/// One step of the scanner at position `pos` (which must hold a character),
/// with the line counter at `line`.
pub open spec fn scan_step(src: Seq<char>, pos: nat, line: nat) -> ScanStep {
    let c = src[pos as int];
    if c == '(' {
        tok_step(src, pos, pos + 1, TokenType::LeftParen, line)
    } else if c == ')' {
        tok_step(src, pos, pos + 1, TokenType::RightParen, line)
    } else if c == '{' {
        tok_step(src, pos, pos + 1, TokenType::LeftBrace, line)
    } else if c == '}' {
        tok_step(src, pos, pos + 1, TokenType::RightBrace, line)
    } else if c == ',' {
        tok_step(src, pos, pos + 1, TokenType::Comma, line)
    } else if c == '.' {
        tok_step(src, pos, pos + 1, TokenType::Dot, line)
    } else if c == '-' {
        tok_step(src, pos, pos + 1, TokenType::Minus, line)
    } else if c == '+' {
        tok_step(src, pos, pos + 1, TokenType::Plus, line)
    } else if c == ';' {
        tok_step(src, pos, pos + 1, TokenType::Semicolon, line)
    } else if c == '*' {
        tok_step(src, pos, pos + 1, TokenType::Star, line)
    } else if c == '!' {
        if eq_follows(src, pos) {
            tok_step(src, pos, pos + 2, TokenType::BangEqual, line)
        } else {
            tok_step(src, pos, pos + 1, TokenType::Bang, line)
        }
    } else if c == '=' {
        if eq_follows(src, pos) {
            tok_step(src, pos, pos + 2, TokenType::EqualEqual, line)
        } else {
            tok_step(src, pos, pos + 1, TokenType::Equal, line)
        }
    } else if c == '<' {
        if eq_follows(src, pos) {
            tok_step(src, pos, pos + 2, TokenType::LessEqual, line)
        } else {
            tok_step(src, pos, pos + 1, TokenType::Less, line)
        }
    } else if c == '>' {
        if eq_follows(src, pos) {
            tok_step(src, pos, pos + 2, TokenType::GreaterEqual, line)
        } else {
            tok_step(src, pos, pos + 1, TokenType::Greater, line)
        }
    } else if c == '/' {
        if pos + 1 < src.len() && src[pos as int + 1] == '/' {
            skip_step(comment_end(src, pos + 2), line)
        } else {
            tok_step(src, pos, pos + 1, TokenType::Slash, line)
        }
    } else if c == ' ' || c == '\r' || c == '\t' {
        skip_step(pos + 1, line)
    } else if c == '\n' {
        skip_step(pos + 1, line + 1)
    } else if c == '"' {
        let close = string_end(src, pos + 1);
        if close >= src.len() {
            ScanStep {
                toks: Seq::empty(),
                errs: seq![ScanErrModel { msg: "Unterminated string."@, line }],
                next: src.len(),
                line: line + nl_count(src, pos + 1, src.len()),
            }
        } else {
            let tline = line + nl_count(src, pos + 1, close);
            ScanStep {
                toks: seq![
                    TokenModel {
                        kind: TokenType::String,
                        lexeme: src.subrange(pos as int, close + 1 as int),
                        lit: Option::Some(LitModel::Text(src.subrange(pos as int + 1, close as int))),
                        line: tline,
                    },
                ],
                errs: Seq::empty(),
                next: close + 1,
                line: tline,
            }
        }
    } else if is_digit_char(c) {
        let end = digits_end(src, pos);
        let lexeme = src.subrange(pos as int, end as int);
        ScanStep {
            toks: seq![
                TokenModel {
                    kind: TokenType::Number,
                    lexeme,
                    lit: Option::Some(LitModel::Int(num_lit_val(lexeme))),
                    line,
                },
            ],
            errs: Seq::empty(),
            next: end,
            line,
        }
    } else if is_alpha_char(c) {
        let end = ident_end(src, pos);
        let lexeme = src.subrange(pos as int, end as int);
        ScanStep {
            toks: seq![plain_tok(keyword_kind(lexeme), lexeme, line)],
            errs: Seq::empty(),
            next: end,
            line,
        }
    } else {
        ScanStep {
            toks: Seq::empty(),
            errs: seq![ScanErrModel { msg: "Unexpected character."@, line }],
            next: pos + 1,
            line,
        }
    }
}

/// The tokens and errors that scanning yields from position `pos` with the
/// line counter at `line`, ending with the one end-of-input token.
pub open spec fn scan_at(src: Seq<char>, pos: nat, line: nat) -> (Seq<TokenModel>, Seq<ScanErrModel>)
    decreases src.len() - pos,
{
    if pos >= src.len() {
        (
            seq![TokenModel { kind: TokenType::EOF, lexeme: Seq::empty(), lit: Option::None, line }],
            Seq::empty(),
        )
    } else {
        let st = scan_step(src, pos, line);
        let np = if st.next > src.len() {
            src.len()
        } else if st.next <= pos {
            pos + 1
        } else {
            st.next
        };
        let rest = scan_at(src, np, st.line);
        (st.toks + rest.0, st.errs + rest.1)
    }
}

/// The full scan of a source: tokens and errors, from its first character,
/// with the line counter starting at 1.
pub open spec fn scan_spec(src: Seq<char>) -> (Seq<TokenModel>, Seq<ScanErrModel>) {
    scan_at(src, 0, 1)
}

proof fn lemma_digits_end(src: Seq<char>, pos: nat)
    requires
        pos <= src.len(),
    ensures
        pos <= digits_end(src, pos) <= src.len(),
        forall|j: int| pos <= j < digits_end(src, pos) ==> is_digit_char(src[j]),
        digits_end(src, pos) < src.len() ==> !is_digit_char(src[digits_end(src, pos) as int]),
    decreases src.len() - pos,
{
    if pos < src.len() && is_digit_char(src[pos as int]) {
        lemma_digits_end(src, pos + 1);
    }
}

proof fn lemma_ident_end(src: Seq<char>, pos: nat)
    requires
        pos <= src.len(),
    ensures
        pos <= ident_end(src, pos) <= src.len(),
        forall|j: int| pos <= j < ident_end(src, pos) ==> is_alnum_char(src[j]),
        ident_end(src, pos) < src.len() ==> !is_alnum_char(src[ident_end(src, pos) as int]),
    decreases src.len() - pos,
{
    if pos < src.len() && is_alnum_char(src[pos as int]) {
        lemma_ident_end(src, pos + 1);
    }
}

proof fn lemma_comment_end(src: Seq<char>, pos: nat)
    requires
        pos <= src.len(),
    ensures
        pos <= comment_end(src, pos) <= src.len(),
        forall|j: int| pos <= j < comment_end(src, pos) ==> src[j] != '\n',
        comment_end(src, pos) < src.len() ==> src[comment_end(src, pos) as int] == '\n',
    decreases src.len() - pos,
{
    if pos < src.len() && src[pos as int] != '\n' {
        lemma_comment_end(src, pos + 1);
    }
}

proof fn lemma_string_end(src: Seq<char>, pos: nat)
    requires
        pos <= src.len(),
    ensures
        pos <= string_end(src, pos) <= src.len(),
        forall|j: int| pos <= j < string_end(src, pos) ==> src[j] != '"',
        string_end(src, pos) < src.len() ==> src[string_end(src, pos) as int] == '"',
    decreases src.len() - pos,
{
    if pos < src.len() && src[pos as int] != '"' {
        lemma_string_end(src, pos + 1);
    }
}

proof fn lemma_nl_count_bound(src: Seq<char>, from: nat, to: nat)
    ensures
        nl_count(src, from, to) <= (if from < to {
            (to - from) as nat
        } else {
            0
        }),
    decreases to - from,
{
    if from < to && from < src.len() {
        lemma_nl_count_bound(src, from + 1, to);
    }
}

proof fn lemma_nl_count_snoc(src: Seq<char>, from: nat, to: nat)
    requires
        from <= to < src.len(),
    ensures
        nl_count(src, from, to + 1) == nl_count(src, from, to) + (if src[to as int] == '\n' {
            1nat
        } else {
            0nat
        }),
    decreases to - from,
{
    if from < to {
        lemma_nl_count_snoc(src, from + 1, to);
    } else {
        assert(nl_count(src, to + 1, to + 1) == 0);
    }
}

/// One scanner step starts past its position, stays inside the source, and
/// advances the line counter by at most the characters it consumed.
proof fn lemma_scan_step_bounds(src: Seq<char>, pos: nat, line: nat)
    requires
        pos < src.len(),
    ensures
        pos < scan_step(src, pos, line).next <= src.len(),
        line <= scan_step(src, pos, line).line <= line + (scan_step(src, pos, line).next - pos),
{
    lemma_digits_end(src, pos);
    lemma_ident_end(src, pos);
    if pos + 2 <= src.len() {
        lemma_comment_end(src, pos + 2);
    }
    lemma_string_end(src, pos + 1);
    lemma_nl_count_bound(src, pos + 1, src.len());
    lemma_nl_count_bound(src, pos + 1, string_end(src, pos + 1));
    assert(digits_end(src, pos) > pos || !is_digit_char(src[pos as int]));
    assert(ident_end(src, pos) > pos || !is_alnum_char(src[pos as int]));
}

/// Unfolds `scan_at` by one scanner step.
proof fn lemma_scan_at_step(src: Seq<char>, pos: nat, line: nat)
    requires
        pos < src.len(),
    ensures
        ({
            let st = scan_step(src, pos, line);
            let rest = scan_at(src, st.next, st.line);
            scan_at(src, pos, line) == (st.toks + rest.0, st.errs + rest.1)
        }),
{
    lemma_scan_step_bounds(src, pos, line);
}

/// Scanning always ends with exactly one end-of-input token: the token list
/// is never empty, its last token is `EOF`, and no earlier token is.
pub proof fn lemma_scan_one_eof(src: Seq<char>, pos: nat, line: nat)
    ensures
        ({
            let toks = scan_at(src, pos, line).0;
            toks.len() >= 1 && toks.last().kind == TokenType::EOF && (forall|i: int|
                0 <= i < toks.len() - 1 ==> toks[i].kind != TokenType::EOF)
        }),
    decreases src.len() - pos,
{
    if pos >= src.len() {
    } else {
        let st = scan_step(src, pos, line);
        let np = if st.next > src.len() {
            src.len()
        } else if st.next <= pos {
            pos + 1
        } else {
            st.next
        };
        lemma_scan_one_eof(src, np, st.line);
        let rest = scan_at(src, np, st.line).0;
        let toks = scan_at(src, pos, line).0;
        assert(toks == st.toks + rest);
        assert(forall|i: int| 0 <= i < st.toks.len() ==> st.toks[i].kind != TokenType::EOF);
        assert(toks.last() == rest.last());
        assert forall|i: int| 0 <= i < toks.len() - 1 implies toks[i].kind != TokenType::EOF by {
            if i < st.toks.len() {
                assert(toks[i] == st.toks[i]);
            } else {
                assert(toks[i] == rest[i - st.toks.len()]);
            }
        }
    }
}

/// The variant name of a token kind, as the parser's diagnostics spell it.
pub open spec fn kind_text(t: TokenType) -> Seq<char> {
    match t {
        TokenType::LeftParen => "LeftParen"@,
        TokenType::RightParen => "RightParen"@,
        TokenType::LeftBrace => "LeftBrace"@,
        TokenType::RightBrace => "RightBrace"@,
        TokenType::Comma => "Comma"@,
        TokenType::Dot => "Dot"@,
        TokenType::Minus => "Minus"@,
        TokenType::Plus => "Plus"@,
        TokenType::Semicolon => "Semicolon"@,
        TokenType::Slash => "Slash"@,
        TokenType::Star => "Star"@,
        TokenType::Bang => "Bang"@,
        TokenType::BangEqual => "BangEqual"@,
        TokenType::Equal => "Equal"@,
        TokenType::EqualEqual => "EqualEqual"@,
        TokenType::Greater => "Greater"@,
        TokenType::GreaterEqual => "GreaterEqual"@,
        TokenType::Less => "Less"@,
        TokenType::LessEqual => "LessEqual"@,
        TokenType::Identifier => "Identifier"@,
        TokenType::String => "String"@,
        TokenType::Number => "Number"@,
        TokenType::And => "And"@,
        TokenType::Class => "Class"@,
        TokenType::Else => "Else"@,
        TokenType::False => "False"@,
        TokenType::Fun => "Fun"@,
        TokenType::For => "For"@,
        TokenType::If => "If"@,
        TokenType::Nil => "Nil"@,
        TokenType::Or => "Or"@,
        TokenType::Print => "Print"@,
        TokenType::Return => "Return"@,
        TokenType::Super => "Super"@,
        TokenType::This => "This"@,
        TokenType::True => "True"@,
        TokenType::Var => "Var"@,
        TokenType::While => "While"@,
        TokenType::EOF => "EOF"@,
    }
}

/// The variant name of a token kind.
pub fn kind_name(t: TokenType) -> (r: &'static str)
    ensures
        r@ == kind_text(t),
{
    match t {
        TokenType::LeftParen => "LeftParen",
        TokenType::RightParen => "RightParen",
        TokenType::LeftBrace => "LeftBrace",
        TokenType::RightBrace => "RightBrace",
        TokenType::Comma => "Comma",
        TokenType::Dot => "Dot",
        TokenType::Minus => "Minus",
        TokenType::Plus => "Plus",
        TokenType::Semicolon => "Semicolon",
        TokenType::Slash => "Slash",
        TokenType::Star => "Star",
        TokenType::Bang => "Bang",
        TokenType::BangEqual => "BangEqual",
        TokenType::Equal => "Equal",
        TokenType::EqualEqual => "EqualEqual",
        TokenType::Greater => "Greater",
        TokenType::GreaterEqual => "GreaterEqual",
        TokenType::Less => "Less",
        TokenType::LessEqual => "LessEqual",
        TokenType::Identifier => "Identifier",
        TokenType::String => "String",
        TokenType::Number => "Number",
        TokenType::And => "And",
        TokenType::Class => "Class",
        TokenType::Else => "Else",
        TokenType::False => "False",
        TokenType::Fun => "Fun",
        TokenType::For => "For",
        TokenType::If => "If",
        TokenType::Nil => "Nil",
        TokenType::Or => "Or",
        TokenType::Print => "Print",
        TokenType::Return => "Return",
        TokenType::Super => "Super",
        TokenType::This => "This",
        TokenType::True => "True",
        TokenType::Var => "Var",
        TokenType::While => "While",
        TokenType::EOF => "EOF",
    }
}

/// The model of an optional literal payload.
pub open spec fn lit_view(l: Option<LiteralValue>) -> Option<LitModel> {
    match l {
        Option::None => Option::None,
        Option::Some(v) => Option::Some(v@),
    }
}

fn keyword_lookup(s: &String) -> (t: TokenType)
    ensures
        t == keyword_kind(s@),
{
    if text_eq(s.as_str(), "and") {
        TokenType::And
    } else if text_eq(s.as_str(), "class") {
        TokenType::Class
    } else if text_eq(s.as_str(), "else") {
        TokenType::Else
    } else if text_eq(s.as_str(), "false") {
        TokenType::False
    } else if text_eq(s.as_str(), "for") {
        TokenType::For
    } else if text_eq(s.as_str(), "fun") {
        TokenType::Fun
    } else if text_eq(s.as_str(), "if") {
        TokenType::If
    } else if text_eq(s.as_str(), "nil") {
        TokenType::Nil
    } else if text_eq(s.as_str(), "or") {
        TokenType::Or
    } else if text_eq(s.as_str(), "print") {
        TokenType::Print
    } else if text_eq(s.as_str(), "return") {
        TokenType::Return
    } else if text_eq(s.as_str(), "super") {
        TokenType::Super
    } else if text_eq(s.as_str(), "this") {
        TokenType::This
    } else if text_eq(s.as_str(), "true") {
        TokenType::True
    } else if text_eq(s.as_str(), "var") {
        TokenType::Var
    } else if text_eq(s.as_str(), "while") {
        TokenType::While
    } else {
        TokenType::Identifier
    }
}

/// Walks the source text, classifying each character run into a token.
pub struct Scanner {
    source: Vec<char>,
    tokens: Vec<Token>,
    errors: Vec<ScanError>,
    start: usize,
    current: usize,
    line: usize,
}

impl Scanner {
    /// The characters being scanned.
    pub closed spec fn src(&self) -> Seq<char> {
        self.source@
    }

    /// The scanner's cursor stays inside the source and its line counter
    /// cannot outgrow the characters consumed.
    pub closed spec fn wf(&self) -> bool {
        &&& self.current <= self.source.len()
        &&& self.source@.len() < usize::MAX
        &&& 1 <= self.line
        &&& self.line <= self.current + 1
    }

    /// Whether the scanner sits at the start of an untouched source.
    pub closed spec fn fresh(&self) -> bool {
        &&& self.current == 0
        &&& self.line == 1
        &&& self.tokens@.len() == 0
        &&& self.errors@.len() == 0
    }

    /// A scanner at the start of the given source.
    pub fn new(source: &str) -> (s: Self)
        requires
            source@.len() < usize::MAX,
        ensures
            s.wf(),
            s.fresh(),
            s.src() == source@,
    {
        let n = source.unicode_len();
        let mut chars: Vec<char> = Vec::new();
        let mut i: usize = 0;
        while i < n
            invariant
                i <= n == source@.len(),
                chars@ == source@.subrange(0, i as int),
            decreases n - i,
        {
            chars.push(source.get_char(i));
            proof {
                assert(source@.subrange(0, (i + 1) as int) =~= source@.subrange(
                    0,
                    i as int,
                ).push(source@[i as int]));
            }
            i = i + 1;
        }
        proof {
            assert(chars@ =~= source@);
        }
        Self { source: chars, tokens: Vec::new(), errors: Vec::new(), start: 0, current: 0, line: 1 }
    }

    fn is_digit(&self, c: char) -> (r: bool)
        ensures
            r == is_digit_char(c),
    {
        (c as u32) >= 48 && (c as u32) <= 57
    }

    fn is_alpha(&self, c: char) -> (r: bool)
        ensures
            r == is_alpha_char(c),
    {
        ((c as u32) >= 97 && (c as u32) <= 122) || ((c as u32) >= 65 && (c as u32) <= 90) || c == '_'
    }

    fn is_alpha_numeric(&self, c: char) -> (r: bool)
        ensures
            r == is_alnum_char(c),
    {
        self.is_alpha(c) || self.is_digit(c)
    }

    fn is_at_end(&self) -> (r: bool)
        ensures
            r == (self.current >= self.src().len()),
    {
        self.current >= self.source.len()
    }

    fn peek(&self) -> (c: char)
        requires
            self.current <= self.src().len(),
        ensures
            c == (if self.current < self.src().len() {
                self.src()[self.current as int]
            } else {
                '\0'
            }),
    {
        if self.current >= self.source.len() {
            return '\0';
        }
        self.source[self.current]
    }

    fn advance(&mut self) -> (c: char)
        requires
            old(self).current < old(self).src().len(),
            old(self).src().len() < usize::MAX,
        ensures
            final(self).source@ == old(self).source@,
            final(self).tokens == old(self).tokens,
            final(self).errors@ == old(self).errors@,
            final(self).start == old(self).start,
            final(self).line == old(self).line,
            final(self).current == old(self).current + 1,
            c == old(self).src()[old(self).current as int],
    {
        let c = self.source[self.current];
        self.current = self.current + 1;
        c
    }

    fn match_char(&mut self, expected: char) -> (r: bool)
        requires
            old(self).current <= old(self).src().len(),
            old(self).src().len() < usize::MAX,
        ensures
            final(self).source@ == old(self).source@,
            final(self).tokens == old(self).tokens,
            final(self).errors@ == old(self).errors@,
            final(self).start == old(self).start,
            final(self).line == old(self).line,
            if old(self).current < old(self).src().len() && old(self).src()[old(self).current as int]
                == expected {
                r && final(self).current == old(self).current + 1
            } else {
                !r && final(self).current == old(self).current
            },
    {
        if self.is_at_end() {
            return false;
        }
        if self.source[self.current] != expected {
            return false;
        }
        self.current = self.current + 1;
        true
    }

    fn add_token(&mut self, token_type: TokenType)
        requires
            old(self).start <= old(self).current <= old(self).src().len(),
        ensures
            final(self).source@ == old(self).source@,
            final(self).errors@ == old(self).errors@,
            final(self).start == old(self).start,
            final(self).current == old(self).current,
            final(self).line == old(self).line,
            toks_view(final(self).tokens@) == toks_view(old(self).tokens@).push(
                plain_tok(
                    token_type,
                    old(self).src().subrange(old(self).start as int, old(self).current as int),
                    old(self).line as nat,
                ),
            ),
    {
        self.add_token_literal(token_type, Option::None);
    }

    fn add_token_literal(&mut self, token_type: TokenType, literal: Option<LiteralValue>)
        requires
            old(self).start <= old(self).current <= old(self).src().len(),
        ensures
            final(self).source@ == old(self).source@,
            final(self).errors@ == old(self).errors@,
            final(self).start == old(self).start,
            final(self).current == old(self).current,
            final(self).line == old(self).line,
            toks_view(final(self).tokens@) == toks_view(old(self).tokens@).push(
                TokenModel {
                    kind: token_type,
                    lexeme: old(self).src().subrange(old(self).start as int, old(self).current as int),
                    lit: lit_view(literal),
                    line: old(self).line as nat,
                },
            ),
    {
        let text = text_of(&self.source, self.start, self.current);
        self.tokens.push(
            Token { token_type, lexeme: text, literal, line_number: self.line },
        );
        proof {
            assert(toks_view(self.tokens@) =~= toks_view(old(self).tokens@).push(
                self.tokens@.last()@,
            ));
        }
    }

    fn number(&mut self)
        requires
            old(self).wf(),
            old(self).start + 1 == old(self).current,
            old(self).current <= old(self).src().len(),
            is_digit_char(old(self).src()[old(self).start as int]),
        ensures
            final(self).source@ == old(self).source@,
            final(self).errors@ == old(self).errors@,
            final(self).start == old(self).start,
            final(self).line == old(self).line,
            final(self).wf(),
            final(self).current as nat == digits_end(old(self).src(), old(self).start as nat),
            ({
                let lexeme = old(self).src().subrange(
                    old(self).start as int,
                    digits_end(old(self).src(), old(self).start as nat) as int,
                );
                toks_view(final(self).tokens@) == toks_view(old(self).tokens@).push(
                    TokenModel {
                        kind: TokenType::Number,
                        lexeme,
                        lit: Option::Some(LitModel::Int(num_lit_val(lexeme))),
                        line: old(self).line as nat,
                    },
                )
            }),
    {
        let ghost src = self.source@;
        let ghost s0 = self.start as nat;
        let ghost t0 = self.tokens@;
        let ghost e0 = self.errors@;
        let ghost l0 = self.line;
        proof {
            lemma_digits_end(src, s0);
        }
        let ghost d = digits_end(src, s0);
        while self.current < self.source.len() && 48 <= (self.source[self.current] as u32) && (
        self.source[self.current] as u32) <= 57
            invariant
                self.source@ == src,
                self.tokens@ == t0,
                self.errors@ == e0,
                self.start as nat == s0,
                self.line == l0,
                s0 < self.current <= src.len(),
                src.len() < usize::MAX,
                digits_end(src, self.current as nat) == d,
            decreases src.len() - self.current,
        {
            self.advance();
        }
        proof {
            assert(digits_end(src, self.current as nat) == self.current as nat);
        }
        let mut value: i64 = 0;
        let mut i: usize = self.start;
        proof {
            assert(src.subrange(s0 as int, s0 as int) =~= Seq::<char>::empty());
        }
        while i < self.current
            invariant
                self.source@ == src,
                s0 <= i,
                i <= self.current as nat == d <= src.len(),
                0 <= value,
                digits_val(src.subrange(s0 as int, i as int)) >= 0,
                value as int == num_lit_val(src.subrange(s0 as int, i as int)),
                forall|j: int| s0 <= j < d ==> is_digit_char(src[j]),
            decreases self.current - i,
        {
            let c = self.source[i];
            let dv: u32 = (c as u32) - 48;
            let step_val: i64 = match value.checked_mul(10) {
                Option::Some(m) => match m.checked_add(dv as i64) {
                    Option::Some(s) => s,
                    Option::None => i64::MAX,
                },
                Option::None => i64::MAX,
            };
            proof {
                let pre = src.subrange(s0 as int, i as int);
                let post = src.subrange(s0 as int, (i + 1) as int);
                assert(post.drop_last() =~= pre);
                assert(post.last() == src[i as int]);
                assert(digits_val(post) == digits_val(pre) * 10 + dv);
                if digits_val(pre) > i64::MAX {
                    assert(digits_val(post) >= digits_val(pre));
                }
            }
            value = step_val;
            i = i + 1;
        }
        self.add_token_literal(TokenType::Number, Option::Some(LiteralValue::IntValue(value)));
    }

    fn identifier(&mut self)
        requires
            old(self).wf(),
            old(self).start + 1 == old(self).current,
            old(self).current <= old(self).src().len(),
            is_alpha_char(old(self).src()[old(self).start as int]),
        ensures
            final(self).source@ == old(self).source@,
            final(self).errors@ == old(self).errors@,
            final(self).start == old(self).start,
            final(self).line == old(self).line,
            final(self).wf(),
            final(self).current as nat == ident_end(old(self).src(), old(self).start as nat),
            ({
                let lexeme = old(self).src().subrange(
                    old(self).start as int,
                    ident_end(old(self).src(), old(self).start as nat) as int,
                );
                toks_view(final(self).tokens@) == toks_view(old(self).tokens@).push(
                    plain_tok(keyword_kind(lexeme), lexeme, old(self).line as nat),
                )
            }),
    {
        let ghost src = self.source@;
        let ghost s0 = self.start as nat;
        let ghost t0 = self.tokens@;
        let ghost e0 = self.errors@;
        let ghost l0 = self.line;
        proof {
            lemma_ident_end(src, s0);
        }
        let ghost d = ident_end(src, s0);
        while self.current < self.source.len() && (((self.source[self.current] as u32) >= 97 && (
        self.source[self.current] as u32) <= 122) || ((self.source[self.current] as u32) >= 65 && (
        self.source[self.current] as u32) <= 90) || self.source[self.current] == '_' || ((
        self.source[self.current] as u32) >= 48 && (self.source[self.current] as u32) <= 57))
            invariant
                self.source@ == src,
                self.tokens@ == t0,
                self.errors@ == e0,
                self.start as nat == s0,
                self.line == l0,
                s0 < self.current <= src.len(),
                src.len() < usize::MAX,
                ident_end(src, self.current as nat) == d,
            decreases src.len() - self.current,
        {
            self.advance();
        }
        proof {
            assert(ident_end(src, self.current as nat) == self.current as nat);
        }
        let text = text_of(&self.source, self.start, self.current);
        let token_type = keyword_lookup(&text);
        self.add_token(token_type);
    }

    fn string(&mut self)
        requires
            old(self).wf(),
            old(self).start + 1 == old(self).current,
            old(self).current <= old(self).src().len(),
            old(self).src()[old(self).start as int] == '"',
        ensures
            final(self).source@ == old(self).source@,
            final(self).start == old(self).start,
            final(self).wf(),
            ({
                let src = old(self).src();
                let c0 = old(self).current as nat;
                let cl = string_end(src, c0);
                if cl >= src.len() {
                    &&& final(self).tokens@ == old(self).tokens@
                    &&& errs_view(final(self).errors@) == errs_view(old(self).errors@).push(
                        ScanErrModel { msg: "Unterminated string."@, line: old(self).line as nat },
                    )
                    &&& final(self).current as nat == src.len()
                    &&& final(self).line as nat == old(self).line + nl_count(src, c0, src.len())
                } else {
                    &&& final(self).errors@ == old(self).errors@
                    &&& toks_view(final(self).tokens@) == toks_view(old(self).tokens@).push(
                        TokenModel {
                            kind: TokenType::String,
                            lexeme: src.subrange(old(self).start as int, cl + 1 as int),
                            lit: Option::Some(
                                LitModel::Text(src.subrange(old(self).start as int + 1, cl as int)),
                            ),
                            line: (old(self).line + nl_count(src, c0, cl)) as nat,
                        },
                    )
                    &&& final(self).current as nat == cl + 1
                    &&& final(self).line as nat == old(self).line + nl_count(src, c0, cl)
                }
            }),
    {
        let ghost src = self.source@;
        let ghost s0 = self.start as nat;
        let ghost c0 = self.current as nat;
        let ghost t0 = self.tokens@;
        let ghost e0 = self.errors@;
        let ghost l0 = self.line;
        proof {
            lemma_string_end(src, c0);
            assert(nl_count(src, c0, c0) == 0);
        }
        let ghost cl = string_end(src, c0);
        let line_start = self.line;
        while self.current < self.source.len() && self.source[self.current] != '"'
            invariant
                self.source@ == src,
                self.tokens@ == t0,
                self.errors@ == e0,
                self.start as nat == s0,
                c0 <= self.current <= src.len(),
                src.len() < usize::MAX,
                string_end(src, self.current as nat) == cl,
                self.line as nat == l0 + nl_count(src, c0, self.current as nat),
                1 <= self.line <= self.current + 1,
            decreases src.len() - self.current,
        {
            proof {
                lemma_nl_count_snoc(src, c0, self.current as nat);
            }
            if self.source[self.current] == '\n' {
                self.line = self.line + 1;
            }
            self.advance();
        }
        proof {
            assert(string_end(src, self.current as nat) == self.current as nat);
        }
        if self.is_at_end() {
            self.errors.push(
                ScanError { message: String::from_str("Unterminated string."), line: line_start },
            );
            proof {
                assert(errs_view(self.errors@) =~= errs_view(e0).push(
                    ScanErrModel { msg: "Unterminated string."@, line: l0 as nat },
                ));
            }
            return ;
        }
        self.advance();
        let value = text_of(&self.source, self.start + 1, self.current - 1);
        self.add_token_literal(TokenType::String, Option::Some(LiteralValue::StringValue(value)));
    }

    fn scan_token(&mut self)
        requires
            old(self).wf(),
            old(self).current < old(self).src().len(),
            old(self).start == old(self).current,
        ensures
            final(self).source@ == old(self).source@,
            final(self).wf(),
            ({
                let st = scan_step(old(self).src(), old(self).current as nat, old(self).line as nat);
                &&& final(self).current as nat == st.next
                &&& final(self).line as nat == st.line
                &&& toks_view(final(self).tokens@) == toks_view(old(self).tokens@) + st.toks
                &&& errs_view(final(self).errors@) == errs_view(old(self).errors@) + st.errs
            }),
    {
        let ghost src = self.source@;
        let ghost pos = self.current as nat;
        let ghost l0 = self.line as nat;
        let ghost t0 = self.tokens@;
        let ghost e0 = self.errors@;
        proof {
            lemma_scan_step_bounds(src, pos, l0);
        }
        let c = self.advance();
        match c {
            '(' => {
                self.add_token(TokenType::LeftParen);
            },
            ')' => {
                self.add_token(TokenType::RightParen);
            },
            '{' => {
                self.add_token(TokenType::LeftBrace);
            },
            '}' => {
                self.add_token(TokenType::RightBrace);
            },
            ',' => {
                self.add_token(TokenType::Comma);
            },
            '.' => {
                self.add_token(TokenType::Dot);
            },
            '-' => {
                self.add_token(TokenType::Minus);
            },
            '+' => {
                self.add_token(TokenType::Plus);
            },
            ';' => {
                self.add_token(TokenType::Semicolon);
            },
            '*' => {
                self.add_token(TokenType::Star);
            },
            '!' => {
                if self.match_char('=') {
                    self.add_token(TokenType::BangEqual);
                } else {
                    self.add_token(TokenType::Bang);
                }
            },
            '=' => {
                if self.match_char('=') {
                    self.add_token(TokenType::EqualEqual);
                } else {
                    self.add_token(TokenType::Equal);
                }
            },
            '<' => {
                if self.match_char('=') {
                    self.add_token(TokenType::LessEqual);
                } else {
                    self.add_token(TokenType::Less);
                }
            },
            '>' => {
                if self.match_char('=') {
                    self.add_token(TokenType::GreaterEqual);
                } else {
                    self.add_token(TokenType::Greater);
                }
            },
            '/' => {
                if self.match_char('/') {
                    proof {
                        lemma_comment_end(src, self.current as nat);
                    }
                    let ghost ce = comment_end(src, (pos + 2) as nat);
                    while self.current < self.source.len() && self.source[self.current] != '\n'
                        invariant
                            self.source@ == src,
                            self.tokens@ == t0,
                            self.errors@ == e0,
                            self.start as nat == pos,
                            self.line as nat == l0,
                            pos < self.current <= src.len(),
                            src.len() < usize::MAX,
                            comment_end(src, self.current as nat) == ce,
                        decreases src.len() - self.current,
                    {
                        self.advance();
                    }
                    proof {
                        assert(comment_end(src, self.current as nat) == self.current as nat);
                    }
                } else {
                    self.add_token(TokenType::Slash);
                }
            },
            ' ' | '\r' | '\t' => {},
            '\n' => {
                self.line = self.line + 1;
            },
            '"' => {
                self.string();
            },
            _ => {
                if self.is_digit(c) {
                    self.number();
                } else if self.is_alpha(c) {
                    self.identifier();
                } else {
                    self.errors.push(
                        ScanError {
                            message: String::from_str("Unexpected character."),
                            line: self.line,
                        },
                    );
                    proof {
                        assert(errs_view(self.errors@) =~= errs_view(e0).push(
                            ScanErrModel { msg: "Unexpected character."@, line: l0 },
                        ));
                    }
                }
            },
        }
        proof {
            let st = scan_step(src, pos, l0);
            assert(toks_view(self.tokens@) =~= toks_view(t0) + st.toks);
            assert(errs_view(self.errors@) =~= errs_view(e0) + st.errs);
        }
    }

    fn dup_tokens(&self) -> (r: Vec<Token>)
        ensures
            toks_view(r@) == toks_view(self.tokens@),
    {
        let mut out: Vec<Token> = Vec::new();
        let mut i: usize = 0;
        while i < self.tokens.len()
            invariant
                i <= self.tokens@.len(),
                out@.len() == i,
                forall|j: int| 0 <= j < i ==> out@[j]@ == self.tokens@[j]@,
            decreases self.tokens@.len() - i,
        {
            out.push(self.tokens[i].dup());
            i = i + 1;
        }
        proof {
            assert(toks_view(out@) =~= toks_view(self.tokens@));
        }
        out
    }

    fn dup_errors(&self) -> (r: Vec<ScanError>)
        ensures
            errs_view(r@) == errs_view(self.errors@),
    {
        let mut out: Vec<ScanError> = Vec::new();
        let mut i: usize = 0;
        while i < self.errors.len()
            invariant
                i <= self.errors@.len(),
                out@.len() == i,
                forall|j: int| 0 <= j < i ==> out@[j]@ == self.errors@[j]@,
            decreases self.errors@.len() - i,
        {
            out.push(self.errors[i].dup());
            i = i + 1;
        }
        proof {
            assert(errs_view(out@) =~= errs_view(self.errors@));
        }
        out
    }

    /// Scans the whole source.  When no error was found, the result holds the
    /// token sequence that `scan_spec` describes, ending with the one
    /// end-of-input token; otherwise it holds the scan errors, in source
    /// order.
    pub fn scan_tokens(&mut self) -> (r: Result<Vec<Token>, Vec<ScanError>>)
        requires
            old(self).wf(),
            old(self).fresh(),
        ensures
            ({
                let (toks, errs) = scan_spec(old(self).src());
                match r {
                    Result::Ok(ts) => errs.len() == 0 && toks_view(ts@) == toks,
                    Result::Err(es) => errs.len() > 0 && errs_view(es@) == errs,
                }
            }),
    {
        let ghost src = self.source@;
        while !self.is_at_end()
            invariant
                self.wf(),
                self.source@ == src,
                toks_view(self.tokens@) + scan_at(src, self.current as nat, self.line as nat).0
                    =~= scan_spec(src).0,
                errs_view(self.errors@) + scan_at(src, self.current as nat, self.line as nat).1
                    =~= scan_spec(src).1,
            decreases src.len() - self.current,
        {
            self.start = self.current;
            let ghost pre_current = self.current as nat;
            let ghost pre_line = self.line as nat;
            let ghost pre_toks = self.tokens@;
            let ghost pre_errs = self.errors@;
            self.scan_token();
            proof {
                lemma_scan_step_bounds(src, pre_current, pre_line);
                lemma_scan_at_step(src, pre_current, pre_line);
                let st = scan_step(src, pre_current, pre_line);
                let rest = scan_at(src, st.next, st.line);
                assert(toks_view(self.tokens@) + rest.0 =~= (toks_view(pre_toks) + st.toks)
                    + rest.0);
                assert((toks_view(pre_toks) + st.toks) + rest.0 =~= toks_view(pre_toks) + (st.toks
                    + rest.0));
                assert(errs_view(self.errors@) + rest.1 =~= errs_view(pre_errs) + (st.errs
                    + rest.1));
            }
        }
        self.tokens.push(
            Token {
                token_type: TokenType::EOF,
                lexeme: String::new(),
                literal: Option::None,
                line_number: self.line,
            },
        );
        proof {
            assert(scan_at(src, self.current as nat, self.line as nat).0 =~= seq![
                TokenModel {
                    kind: TokenType::EOF,
                    lexeme: Seq::empty(),
                    lit: Option::None,
                    line: self.line as nat,
                },
            ]);
            assert(toks_view(self.tokens@) =~= scan_spec(src).0);
            assert(errs_view(self.errors@) =~= scan_spec(src).1);
        }
        if self.errors.len() == 0 {
            Result::Ok(self.dup_tokens())
        } else {
            Result::Err(self.dup_errors())
        }
    }
}

} // verus!
