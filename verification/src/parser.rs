//! The parser: recursive descent over a token sequence, building one
//! expression with precedence climbing.  Each rule is specified by a
//! recursive function over token models (`spec_expression` down to
//! `spec_primary`); the methods are proved to return exactly the tree, or
//! exactly the error, that those functions describe, and to consume exactly
//! the tokens they say.

use vstd::prelude::*;
use vstd::string::StringExecFns;
use crate::error::{ErrModel, RuntimeError};
use crate::expr::{Expr, ExprModel, LiteralValue as ExprLiteralValue, ValModel};
use crate::scanner::{kind_name, kind_text, toks_view, LitModel, LiteralValue as ScannerLiteralValue, Token, TokenModel, TokenType};

verus! {

/// What a parse rule does from a position: the tree it builds and the number
/// of tokens it consumes, or the error that stops it.
pub enum ParseOut {
    Parsed(ExprModel, nat),
    Fail(ErrModel),
}

/// The kind of the token at `pos`, with end-of-input past the sequence.
pub open spec fn kind_at(t: Seq<TokenModel>, pos: nat) -> TokenType {
    if pos < t.len() {
        t[pos as int].kind
    } else {
        TokenType::EOF
    }
}

/// The error reported when no `primary` alternative matches at `pos`.
pub open spec fn expected_expr_err(t: Seq<TokenModel>, pos: nat) -> ErrModel {
    let tk = t[pos as int];
    ErrModel {
        msg: "Expected expression, but found "@ + kind_text(tk.kind),
        line: tk.line,
        token: tk,
    }
}

/// The error reported when `consume` finds another kind of token than it
/// wants at `pos`; `msg` names what was wanted.
pub open spec fn consume_err(t: Seq<TokenModel>, pos: nat, msg: Seq<char>) -> ErrModel {
    let tk = t[pos as int];
    ErrModel { msg: msg + ", but found "@ + kind_text(tk.kind), line: tk.line, token: tk }
}

/// The tokens left from `pos` on.
pub open spec fn rem(t: Seq<TokenModel>, pos: nat) -> nat {
    if pos <= t.len() {
        (t.len() - pos) as nat
    } else {
        0
    }
}

/// `primary`: a literal, a keyword literal, or a parenthesized expression.
pub open spec fn spec_primary(t: Seq<TokenModel>, pos: nat) -> ParseOut
    decreases rem(t, pos), 0nat,
{
    let k = kind_at(t, pos);
    if k == TokenType::False {
        ParseOut::Parsed(ExprModel::Literal { value: ValModel::False }, 1)
    } else if k == TokenType::True {
        ParseOut::Parsed(ExprModel::Literal { value: ValModel::True }, 1)
    } else if k == TokenType::Nil {
        ParseOut::Parsed(ExprModel::Literal { value: ValModel::Nil }, 1)
    } else if k == TokenType::Number {
        match t[pos as int].lit {
            Option::Some(LitModel::Int(n)) => ParseOut::Parsed(
                ExprModel::Literal { value: ValModel::Num(n) },
                1,
            ),
            _ => ParseOut::Fail(expected_expr_err(t, pos)),
        }
    } else if k == TokenType::String {
        match t[pos as int].lit {
            Option::Some(LitModel::Text(s)) => ParseOut::Parsed(
                ExprModel::Literal { value: ValModel::Text(s) },
                1,
            ),
            _ => ParseOut::Fail(expected_expr_err(t, pos)),
        }
    } else if k == TokenType::LeftParen {
        match spec_expression(t, pos + 1) {
            ParseOut::Parsed(e, adv) => {
                if kind_at(t, pos + 1 + adv) == TokenType::RightParen {
                    ParseOut::Parsed(ExprModel::Grouping { expression: Box::new(e) }, adv + 2)
                } else {
                    ParseOut::Fail(
                        consume_err(t, pos + 1 + adv, "Expect ')' after expression"@),
                    )
                }
            },
            ParseOut::Fail(e) => ParseOut::Fail(e),
        }
    } else {
        ParseOut::Fail(expected_expr_err(t, pos))
    }
}

/// `unary`: a prefix `!` or `-` applied to a `unary`, or a `primary`.
pub open spec fn spec_unary(t: Seq<TokenModel>, pos: nat) -> ParseOut
    decreases rem(t, pos), 1nat,
{
    let k = kind_at(t, pos);
    if k == TokenType::Bang || k == TokenType::Minus {
        match spec_unary(t, pos + 1) {
            ParseOut::Parsed(r, adv) => ParseOut::Parsed(
                ExprModel::Unary { operator: t[pos as int], right: Box::new(r) },
                adv + 1,
            ),
            ParseOut::Fail(e) => ParseOut::Fail(e),
        }
    } else {
        spec_primary(t, pos)
    }
}

/// The iterated part of `factor`: folds `/` and `*` operands to the left
/// onto `acc`; `adv` counts the tokens the whole rule has consumed so far.
pub open spec fn spec_factor_more(t: Seq<TokenModel>, pos: nat, acc: ExprModel, adv: nat) -> ParseOut
    decreases rem(t, pos), 2nat,
{
    let k = kind_at(t, pos);
    if k == TokenType::Slash || k == TokenType::Star {
        match spec_unary(t, pos + 1) {
            ParseOut::Parsed(r, radv) => spec_factor_more(
                t,
                pos + 1 + radv,
                ExprModel::Binary {
                    left: Box::new(acc),
                    operator: t[pos as int],
                    right: Box::new(r),
                },
                adv + 1 + radv,
            ),
            ParseOut::Fail(e) => ParseOut::Fail(e),
        }
    } else {
        ParseOut::Parsed(acc, adv)
    }
}

/// `factor`: a `unary`, then any run of `/` or `*` operands, left
/// associative.
pub open spec fn spec_factor(t: Seq<TokenModel>, pos: nat) -> ParseOut
    decreases rem(t, pos), 3nat,
{
    match spec_unary(t, pos) {
        ParseOut::Parsed(e, adv) => spec_factor_more(t, pos + adv, e, adv),
        ParseOut::Fail(e) => ParseOut::Fail(e),
    }
}

/// The iterated part of `term`: folds `-` and `+` operands to the left.
pub open spec fn spec_term_more(t: Seq<TokenModel>, pos: nat, acc: ExprModel, adv: nat) -> ParseOut
    decreases rem(t, pos), 4nat,
{
    let k = kind_at(t, pos);
    if k == TokenType::Minus || k == TokenType::Plus {
        match spec_factor(t, pos + 1) {
            ParseOut::Parsed(r, radv) => spec_term_more(
                t,
                pos + 1 + radv,
                ExprModel::Binary {
                    left: Box::new(acc),
                    operator: t[pos as int],
                    right: Box::new(r),
                },
                adv + 1 + radv,
            ),
            ParseOut::Fail(e) => ParseOut::Fail(e),
        }
    } else {
        ParseOut::Parsed(acc, adv)
    }
}

/// `term`: a `factor`, then any run of `-` or `+` operands, left associative.
pub open spec fn spec_term(t: Seq<TokenModel>, pos: nat) -> ParseOut
    decreases rem(t, pos), 5nat,
{
    match spec_factor(t, pos) {
        ParseOut::Parsed(e, adv) => spec_term_more(t, pos + adv, e, adv),
        ParseOut::Fail(e) => ParseOut::Fail(e),
    }
}

/// The iterated part of `comparison`: folds ordering operands to the left.
pub open spec fn spec_comparison_more(t: Seq<TokenModel>, pos: nat, acc: ExprModel, adv: nat) -> ParseOut
    decreases rem(t, pos), 6nat,
{
    let k = kind_at(t, pos);
    if k == TokenType::Greater || k == TokenType::GreaterEqual || k == TokenType::Less || k
        == TokenType::LessEqual {
        match spec_term(t, pos + 1) {
            ParseOut::Parsed(r, radv) => spec_comparison_more(
                t,
                pos + 1 + radv,
                ExprModel::Binary {
                    left: Box::new(acc),
                    operator: t[pos as int],
                    right: Box::new(r),
                },
                adv + 1 + radv,
            ),
            ParseOut::Fail(e) => ParseOut::Fail(e),
        }
    } else {
        ParseOut::Parsed(acc, adv)
    }
}

/// `comparison`: a `term`, then any run of `>` `>=` `<` `<=` operands, left
/// associative.
pub open spec fn spec_comparison(t: Seq<TokenModel>, pos: nat) -> ParseOut
    decreases rem(t, pos), 7nat,
{
    match spec_term(t, pos) {
        ParseOut::Parsed(e, adv) => spec_comparison_more(t, pos + adv, e, adv),
        ParseOut::Fail(e) => ParseOut::Fail(e),
    }
}

/// The iterated part of `equality`: folds `!=` and `==` operands to the left.
pub open spec fn spec_equality_more(t: Seq<TokenModel>, pos: nat, acc: ExprModel, adv: nat) -> ParseOut
    decreases rem(t, pos), 8nat,
{
    let k = kind_at(t, pos);
    if k == TokenType::BangEqual || k == TokenType::EqualEqual {
        match spec_comparison(t, pos + 1) {
            ParseOut::Parsed(r, radv) => spec_equality_more(
                t,
                pos + 1 + radv,
                ExprModel::Binary {
                    left: Box::new(acc),
                    operator: t[pos as int],
                    right: Box::new(r),
                },
                adv + 1 + radv,
            ),
            ParseOut::Fail(e) => ParseOut::Fail(e),
        }
    } else {
        ParseOut::Parsed(acc, adv)
    }
}

/// `equality`: a `comparison`, then any run of `!=` or `==` operands, left
/// associative.
pub open spec fn spec_equality(t: Seq<TokenModel>, pos: nat) -> ParseOut
    decreases rem(t, pos), 9nat,
{
    match spec_comparison(t, pos) {
        ParseOut::Parsed(e, adv) => spec_equality_more(t, pos + adv, e, adv),
        ParseOut::Fail(e) => ParseOut::Fail(e),
    }
}

/// `expression`: the whole grammar, an `equality`.
pub open spec fn spec_expression(t: Seq<TokenModel>, pos: nat) -> ParseOut
    decreases rem(t, pos), 10nat,
{
    spec_equality(t, pos)
}


proof fn lemma_equality_stop(t: Seq<TokenModel>, p: nat, acc: ExprModel, adv: nat)
    requires
        kind_at(t, p) != TokenType::BangEqual,
        kind_at(t, p) != TokenType::EqualEqual,
    ensures
        spec_equality_more(t, p, acc, adv) == ParseOut::Parsed(acc, adv),
{
}

proof fn lemma_equality_step(t: Seq<TokenModel>, p: nat, acc: ExprModel, adv: nat)
    requires
        kind_at(t, p) == TokenType::BangEqual || kind_at(t, p) == TokenType::EqualEqual,
    ensures
        spec_equality_more(t, p, acc, adv) == (match spec_comparison(t, p + 1) {
            ParseOut::Parsed(r, radv) => spec_equality_more(
                t,
                (p + 1 + radv) as nat,
                ExprModel::Binary {
                    left: Box::new(acc),
                    operator: t[p as int],
                    right: Box::new(r),
                },
                (adv + 1 + radv) as nat,
            ),
            ParseOut::Fail(e) => ParseOut::Fail(e),
        }),
{
}

proof fn lemma_comparison_stop(t: Seq<TokenModel>, p: nat, acc: ExprModel, adv: nat)
    requires
        kind_at(t, p) != TokenType::Greater,
        kind_at(t, p) != TokenType::GreaterEqual,
        kind_at(t, p) != TokenType::Less,
        kind_at(t, p) != TokenType::LessEqual,
    ensures
        spec_comparison_more(t, p, acc, adv) == ParseOut::Parsed(acc, adv),
{
}

proof fn lemma_comparison_step(t: Seq<TokenModel>, p: nat, acc: ExprModel, adv: nat)
    requires
        kind_at(t, p) == TokenType::Greater || kind_at(t, p) == TokenType::GreaterEqual || kind_at(t, p) == TokenType::Less || kind_at(t, p) == TokenType::LessEqual,
    ensures
        spec_comparison_more(t, p, acc, adv) == (match spec_term(t, p + 1) {
            ParseOut::Parsed(r, radv) => spec_comparison_more(
                t,
                (p + 1 + radv) as nat,
                ExprModel::Binary {
                    left: Box::new(acc),
                    operator: t[p as int],
                    right: Box::new(r),
                },
                (adv + 1 + radv) as nat,
            ),
            ParseOut::Fail(e) => ParseOut::Fail(e),
        }),
{
}

proof fn lemma_term_stop(t: Seq<TokenModel>, p: nat, acc: ExprModel, adv: nat)
    requires
        kind_at(t, p) != TokenType::Minus,
        kind_at(t, p) != TokenType::Plus,
    ensures
        spec_term_more(t, p, acc, adv) == ParseOut::Parsed(acc, adv),
{
}

proof fn lemma_term_step(t: Seq<TokenModel>, p: nat, acc: ExprModel, adv: nat)
    requires
        kind_at(t, p) == TokenType::Minus || kind_at(t, p) == TokenType::Plus,
    ensures
        spec_term_more(t, p, acc, adv) == (match spec_factor(t, p + 1) {
            ParseOut::Parsed(r, radv) => spec_term_more(
                t,
                (p + 1 + radv) as nat,
                ExprModel::Binary {
                    left: Box::new(acc),
                    operator: t[p as int],
                    right: Box::new(r),
                },
                (adv + 1 + radv) as nat,
            ),
            ParseOut::Fail(e) => ParseOut::Fail(e),
        }),
{
}

proof fn lemma_factor_stop(t: Seq<TokenModel>, p: nat, acc: ExprModel, adv: nat)
    requires
        kind_at(t, p) != TokenType::Slash,
        kind_at(t, p) != TokenType::Star,
    ensures
        spec_factor_more(t, p, acc, adv) == ParseOut::Parsed(acc, adv),
{
}

proof fn lemma_factor_step(t: Seq<TokenModel>, p: nat, acc: ExprModel, adv: nat)
    requires
        kind_at(t, p) == TokenType::Slash || kind_at(t, p) == TokenType::Star,
    ensures
        spec_factor_more(t, p, acc, adv) == (match spec_unary(t, p + 1) {
            ParseOut::Parsed(r, radv) => spec_factor_more(
                t,
                (p + 1 + radv) as nat,
                ExprModel::Binary {
                    left: Box::new(acc),
                    operator: t[p as int],
                    right: Box::new(r),
                },
                (adv + 1 + radv) as nat,
            ),
            ParseOut::Fail(e) => ParseOut::Fail(e),
        }),
{
}

/// Consumes tokens left to right, building one expression tree.
pub struct Parser {
    tokens: Vec<Token>,
    current: usize,
}

impl Parser {
    /// The models of the tokens being parsed.
    pub closed spec fn toks(&self) -> Seq<TokenModel> {
        toks_view(self.tokens@)
    }

    /// The cursor's position.
    pub closed spec fn pos(&self) -> nat {
        self.current as nat
    }

    /// The cursor sits on a token, and the sequence ends with end-of-input.
    pub closed spec fn wf(&self) -> bool {
        &&& self.tokens@.len() >= 1
        &&& self.tokens@.last()@.kind == TokenType::EOF
        &&& self.current < self.tokens@.len()
    }

    /// A parser at the start of the given tokens, which must end with the
    /// end-of-input token, as `Scanner::scan_tokens` leaves them.
    pub fn new(tokens: Vec<Token>) -> (p: Self)
        requires
            tokens@.len() >= 1,
            tokens@.last()@.kind == TokenType::EOF,
        ensures
            p.wf(),
            p.toks() == toks_view(tokens@),
            p.pos() == 0,
    {
        Self { tokens, current: 0 }
    }

    fn peek(&self) -> (t: &Token)
        requires
            self.wf(),
        ensures
            t@ == self.toks()[self.pos() as int],
    {
        &self.tokens[self.current]
    }

    fn previous(&self) -> (t: &Token)
        requires
            self.wf(),
            self.current >= 1,
        ensures
            t@ == self.toks()[self.pos() - 1],
    {
        &self.tokens[self.current - 1]
    }

    fn is_at_end(&self) -> (r: bool)
        requires
            self.wf(),
        ensures
            r == (kind_at(self.toks(), self.pos()) == TokenType::EOF),
    {
        self.peek().token_type == TokenType::EOF
    }

    fn check(&self, token_type: TokenType) -> (r: bool)
        requires
            self.wf(),
        ensures
            r == (token_type != TokenType::EOF && kind_at(self.toks(), self.pos()) == token_type),
    {
        if self.is_at_end() {
            return false;
        }
        self.peek().token_type == token_type
    }

    fn advance(&mut self) -> (t: &Token)
        requires
            old(self).wf(),
            kind_at(old(self).toks(), old(self).pos()) != TokenType::EOF,
        ensures
            final(self).wf(),
            final(self).toks() == old(self).toks(),
            final(self).current == old(self).current + 1,
            t@ == old(self).toks()[old(self).pos() as int],
    {
        let n = self.tokens.len();
        proof {
            let ts = self.tokens@;
            assert(n == ts.len());
            assert(self.toks()[ts.len() - 1] == ts[ts.len() - 1]@);
            assert(self.toks()[self.current as int] == ts[self.current as int]@);
            assert(self.current < ts.len() - 1);
        }
        if !self.is_at_end() {
            self.current = self.current + 1;
        }
        self.previous()
    }

    fn matches(&mut self, token_types: &[TokenType]) -> (r: bool)
        requires
            old(self).wf(),
        ensures
            final(self).wf(),
            final(self).toks() == old(self).toks(),
            ({
                let k = kind_at(old(self).toks(), old(self).pos());
                if k != TokenType::EOF && token_types@.contains(k) {
                    r && final(self).current == old(self).current + 1
                } else {
                    !r && final(self).current == old(self).current
                }
            }),
    {
        let ghost k = kind_at(self.toks(), self.pos());
        let ghost t0 = self.toks();
        let ghost c0 = self.current;
        let mut i: usize = 0;
        while i < token_types.len()
            invariant
                i <= token_types@.len(),
                forall|j: int| 0 <= j < i ==> (token_types@[j] != k || k == TokenType::EOF),
                self.wf(),
                self.current == c0,
                c0 == old(self).current,
                self.toks() == t0,
                t0 == old(self).toks(),
                k == kind_at(old(self).toks(), old(self).pos()),
            decreases token_types@.len() - i,
        {
            if self.check(token_types[i]) {
                proof {
                    assert(token_types@[i as int] == k);
                    assert(token_types@.contains(k));
                }
                self.advance();
                return true;
            }
            i = i + 1;
        }
        proof {
            if k != TokenType::EOF {
                assert(forall|j: int| 0 <= j < token_types@.len() ==> token_types@[j] != k);
                assert(!token_types@.contains(k));
            }
        }
        false
    }

    fn expected_expression_error(&self) -> (r: RuntimeError)
        requires
            self.wf(),
        ensures
            r@ == expected_expr_err(self.toks(), self.pos()),
    {
        let mut m = String::from_str("Expected expression, but found ");
        m.append(kind_name(self.peek().token_type));
        let line = self.peek().line_number;
        let tok = self.peek().dup();
        let err = RuntimeError::new(m.as_str(), line, tok);
        proof {
            assert(m@ =~= "Expected expression, but found "@ + kind_text(
                self.toks()[self.pos() as int].kind,
            ));
        }
        err
    }

    fn consume(&mut self, token_type: TokenType, message: &str) -> (r: Result<(), RuntimeError>)
        requires
            old(self).wf(),
            token_type != TokenType::EOF,
        ensures
            final(self).wf(),
            final(self).toks() == old(self).toks(),
            ({
                if kind_at(old(self).toks(), old(self).pos()) == token_type {
                    &&& r is Ok
                    &&& final(self).current == old(self).current + 1
                } else {
                    &&& final(self).current == old(self).current
                    &&& match r {
                        Result::Err(e) => e@ == consume_err(
                            old(self).toks(),
                            old(self).pos(),
                            message@,
                        ),
                        Result::Ok(_) => false,
                    }
                }
            }),
    {
        if self.check(token_type) {
            self.advance();
            return Result::Ok(());
        }
        let mut m = message.to_owned();
        m.append(", but found ");
        m.append(kind_name(self.peek().token_type));
        let line = self.peek().line_number;
        let tok = self.peek().dup();
        let err = RuntimeError::new(m.as_str(), line, tok);
        proof {
            assert(m@ =~= message@ + ", but found "@ + kind_text(
                self.toks()[self.pos() as int].kind,
            ));
        }
        Result::Err(err)
    }

    /// Parses one expression from the cursor on, leaving trailing tokens
    /// unconsumed: the tree and tokens consumed, or the error, that
    /// `spec_expression` gives at the cursor's position.
    pub fn expression(&mut self) -> (r: Result<Expr, RuntimeError>)
        requires
            old(self).wf(),
        ensures
            final(self).wf(),
            final(self).toks() == old(self).toks(),
            match (r, spec_expression(old(self).toks(), old(self).pos())) {
                (Result::Ok(e), ParseOut::Parsed(m, adv)) => e@ == m && final(self).pos() == old(
                    self,
                ).pos() + adv,
                (Result::Err(er), ParseOut::Fail(em)) => er@ == em,
                _ => false,
            },
        decreases rem(self.toks(), self.pos()), 10nat,
    {
        self.equality()
    }

    #[verifier::rlimit(100)]
    fn equality(&mut self) -> (r: Result<Expr, RuntimeError>)
        requires
            old(self).wf(),
        ensures
            final(self).wf(),
            final(self).toks() == old(self).toks(),
            match (r, spec_equality(old(self).toks(), old(self).pos())) {
                (Result::Ok(e), ParseOut::Parsed(m, adv)) => e@ == m && final(self).pos() == old(
                    self,
                ).pos() + adv,
                (Result::Err(er), ParseOut::Fail(em)) => er@ == em,
                _ => false,
            },
        decreases rem(self.toks(), self.pos()), 9nat,
    {
        let ghost t = self.toks();
        let ghost p0 = self.pos();
        let mut expr: Expr;
        match self.comparison() {
            Result::Ok(e) => {
                expr = e;
            },
            Result::Err(er) => {
                return Result::Err(er);
            },
        }
        loop
            invariant
                self.wf(),
                self.toks() == t,
                t == old(self).toks(),
                p0 == old(self).pos(),
                p0 <= self.pos(),
                spec_equality(t, p0) == spec_equality_more(
                    t,
                    self.pos(),
                    expr@,
                    (self.pos() - p0) as nat,
                ),
            ensures
                self.wf(),
                self.toks() == t,
                p0 <= self.pos(),
                spec_equality(t, p0) == ParseOut::Parsed(expr@, (self.pos() - p0) as nat),
            decreases rem(t, self.pos()),
        {
            let ghost p = self.pos();
            let ghost acc = expr@;
            if !(self.check(TokenType::BangEqual) || self.check(TokenType::EqualEqual)) {
                proof {
                    lemma_equality_stop(t, p, acc, (p - p0) as nat);
                }
                break ;
            }
            self.advance();
            let operator = self.previous().dup();
            match self.comparison() {
                Result::Ok(right) => {
                    let ghost rm = right@;
                    proof {
                        lemma_equality_step(t, p, acc, (p - p0) as nat);
                        assert(spec_comparison(t, p + 1) == ParseOut::Parsed(
                            rm,
                            (self.pos() - (p + 1)) as nat,
                        ));
                    }
                    expr = Expr::Binary { left: Box::new(expr), operator, right: Box::new(right) };
                    proof {
                        assert(expr@ == (ExprModel::Binary {
                            left: Box::new(acc),
                            operator: t[p as int],
                            right: Box::new(rm),
                        }));
                        assert(spec_equality_more(t, p, acc, (p - p0) as nat)
                            == spec_equality_more(t, self.pos(), expr@, (self.pos() - p0) as nat));
                    }
                },
                Result::Err(er) => {
                    proof {
                        lemma_equality_step(t, p, acc, (p - p0) as nat);
                        assert(spec_comparison(t, p + 1) is Fail);
                        assert(spec_equality_more(t, p, acc, (p - p0) as nat) == ParseOut::Fail(
                            er@,
                        ));
                    }
                    return Result::Err(er);
                },
            }
        }
        Result::Ok(expr)
    }

    #[verifier::rlimit(100)]
    fn comparison(&mut self) -> (r: Result<Expr, RuntimeError>)
        requires
            old(self).wf(),
        ensures
            final(self).wf(),
            final(self).toks() == old(self).toks(),
            match (r, spec_comparison(old(self).toks(), old(self).pos())) {
                (Result::Ok(e), ParseOut::Parsed(m, adv)) => e@ == m && final(self).pos() == old(
                    self,
                ).pos() + adv,
                (Result::Err(er), ParseOut::Fail(em)) => er@ == em,
                _ => false,
            },
        decreases rem(self.toks(), self.pos()), 7nat,
    {
        let ghost t = self.toks();
        let ghost p0 = self.pos();
        let mut expr: Expr;
        match self.term() {
            Result::Ok(e) => {
                expr = e;
            },
            Result::Err(er) => {
                return Result::Err(er);
            },
        }
        loop
            invariant
                self.wf(),
                self.toks() == t,
                t == old(self).toks(),
                p0 == old(self).pos(),
                p0 <= self.pos(),
                spec_comparison(t, p0) == spec_comparison_more(
                    t,
                    self.pos(),
                    expr@,
                    (self.pos() - p0) as nat,
                ),
            ensures
                self.wf(),
                self.toks() == t,
                p0 <= self.pos(),
                spec_comparison(t, p0) == ParseOut::Parsed(expr@, (self.pos() - p0) as nat),
            decreases rem(t, self.pos()),
        {
            let ghost p = self.pos();
            let ghost acc = expr@;
            if !(self.check(TokenType::Greater) || self.check(TokenType::GreaterEqual) || self.check(TokenType::Less) || self.check(TokenType::LessEqual)) {
                proof {
                    lemma_comparison_stop(t, p, acc, (p - p0) as nat);
                }
                break ;
            }
            self.advance();
            let operator = self.previous().dup();
            match self.term() {
                Result::Ok(right) => {
                    let ghost rm = right@;
                    proof {
                        lemma_comparison_step(t, p, acc, (p - p0) as nat);
                        assert(spec_term(t, p + 1) == ParseOut::Parsed(
                            rm,
                            (self.pos() - (p + 1)) as nat,
                        ));
                    }
                    expr = Expr::Binary { left: Box::new(expr), operator, right: Box::new(right) };
                    proof {
                        assert(expr@ == (ExprModel::Binary {
                            left: Box::new(acc),
                            operator: t[p as int],
                            right: Box::new(rm),
                        }));
                        assert(spec_comparison_more(t, p, acc, (p - p0) as nat)
                            == spec_comparison_more(
                            t,
                            self.pos(),
                            expr@,
                            (self.pos() - p0) as nat,
                        ));
                    }
                },
                Result::Err(er) => {
                    proof {
                        lemma_comparison_step(t, p, acc, (p - p0) as nat);
                        assert(spec_term(t, p + 1) is Fail);
                        assert(spec_comparison_more(t, p, acc, (p - p0) as nat) == ParseOut::Fail(
                            er@,
                        ));
                    }
                    return Result::Err(er);
                },
            }
        }
        Result::Ok(expr)
    }

    #[verifier::rlimit(100)]
    fn term(&mut self) -> (r: Result<Expr, RuntimeError>)
        requires
            old(self).wf(),
        ensures
            final(self).wf(),
            final(self).toks() == old(self).toks(),
            match (r, spec_term(old(self).toks(), old(self).pos())) {
                (Result::Ok(e), ParseOut::Parsed(m, adv)) => e@ == m && final(self).pos() == old(
                    self,
                ).pos() + adv,
                (Result::Err(er), ParseOut::Fail(em)) => er@ == em,
                _ => false,
            },
        decreases rem(self.toks(), self.pos()), 5nat,
    {
        let ghost t = self.toks();
        let ghost p0 = self.pos();
        let mut expr: Expr;
        match self.factor() {
            Result::Ok(e) => {
                expr = e;
            },
            Result::Err(er) => {
                return Result::Err(er);
            },
        }
        loop
            invariant
                self.wf(),
                self.toks() == t,
                t == old(self).toks(),
                p0 == old(self).pos(),
                p0 <= self.pos(),
                spec_term(t, p0) == spec_term_more(t, self.pos(), expr@, (self.pos() - p0) as nat),
            ensures
                self.wf(),
                self.toks() == t,
                p0 <= self.pos(),
                spec_term(t, p0) == ParseOut::Parsed(expr@, (self.pos() - p0) as nat),
            decreases rem(t, self.pos()),
        {
            let ghost p = self.pos();
            let ghost acc = expr@;
            if !(self.check(TokenType::Minus) || self.check(TokenType::Plus)) {
                proof {
                    lemma_term_stop(t, p, acc, (p - p0) as nat);
                }
                break ;
            }
            self.advance();
            let operator = self.previous().dup();
            match self.factor() {
                Result::Ok(right) => {
                    let ghost rm = right@;
                    proof {
                        lemma_term_step(t, p, acc, (p - p0) as nat);
                        assert(spec_factor(t, p + 1) == ParseOut::Parsed(
                            rm,
                            (self.pos() - (p + 1)) as nat,
                        ));
                    }
                    expr = Expr::Binary { left: Box::new(expr), operator, right: Box::new(right) };
                    proof {
                        assert(expr@ == (ExprModel::Binary {
                            left: Box::new(acc),
                            operator: t[p as int],
                            right: Box::new(rm),
                        }));
                        assert(spec_term_more(t, p, acc, (p - p0) as nat) == spec_term_more(
                            t,
                            self.pos(),
                            expr@,
                            (self.pos() - p0) as nat,
                        ));
                    }
                },
                Result::Err(er) => {
                    proof {
                        lemma_term_step(t, p, acc, (p - p0) as nat);
                        assert(spec_factor(t, p + 1) is Fail);
                        assert(spec_term_more(t, p, acc, (p - p0) as nat) == ParseOut::Fail(er@));
                    }
                    return Result::Err(er);
                },
            }
        }
        Result::Ok(expr)
    }

    #[verifier::rlimit(100)]
    fn factor(&mut self) -> (r: Result<Expr, RuntimeError>)
        requires
            old(self).wf(),
        ensures
            final(self).wf(),
            final(self).toks() == old(self).toks(),
            match (r, spec_factor(old(self).toks(), old(self).pos())) {
                (Result::Ok(e), ParseOut::Parsed(m, adv)) => e@ == m && final(self).pos() == old(
                    self,
                ).pos() + adv,
                (Result::Err(er), ParseOut::Fail(em)) => er@ == em,
                _ => false,
            },
        decreases rem(self.toks(), self.pos()), 3nat,
    {
        let ghost t = self.toks();
        let ghost p0 = self.pos();
        let mut expr: Expr;
        match self.unary() {
            Result::Ok(e) => {
                expr = e;
            },
            Result::Err(er) => {
                return Result::Err(er);
            },
        }
        loop
            invariant
                self.wf(),
                self.toks() == t,
                t == old(self).toks(),
                p0 == old(self).pos(),
                p0 <= self.pos(),
                spec_factor(t, p0) == spec_factor_more(
                    t,
                    self.pos(),
                    expr@,
                    (self.pos() - p0) as nat,
                ),
            ensures
                self.wf(),
                self.toks() == t,
                p0 <= self.pos(),
                spec_factor(t, p0) == ParseOut::Parsed(expr@, (self.pos() - p0) as nat),
            decreases rem(t, self.pos()),
        {
            let ghost p = self.pos();
            let ghost acc = expr@;
            if !(self.check(TokenType::Slash) || self.check(TokenType::Star)) {
                proof {
                    lemma_factor_stop(t, p, acc, (p - p0) as nat);
                }
                break ;
            }
            self.advance();
            let operator = self.previous().dup();
            match self.unary() {
                Result::Ok(right) => {
                    let ghost rm = right@;
                    proof {
                        lemma_factor_step(t, p, acc, (p - p0) as nat);
                        assert(spec_unary(t, p + 1) == ParseOut::Parsed(
                            rm,
                            (self.pos() - (p + 1)) as nat,
                        ));
                    }
                    expr = Expr::Binary { left: Box::new(expr), operator, right: Box::new(right) };
                    proof {
                        assert(expr@ == (ExprModel::Binary {
                            left: Box::new(acc),
                            operator: t[p as int],
                            right: Box::new(rm),
                        }));
                        assert(spec_factor_more(t, p, acc, (p - p0) as nat) == spec_factor_more(
                            t,
                            self.pos(),
                            expr@,
                            (self.pos() - p0) as nat,
                        ));
                    }
                },
                Result::Err(er) => {
                    proof {
                        lemma_factor_step(t, p, acc, (p - p0) as nat);
                        assert(spec_unary(t, p + 1) is Fail);
                        assert(spec_factor_more(t, p, acc, (p - p0) as nat) == ParseOut::Fail(
                            er@,
                        ));
                    }
                    return Result::Err(er);
                },
            }
        }
        Result::Ok(expr)
    }

    #[verifier::rlimit(100)]
    fn unary(&mut self) -> (r: Result<Expr, RuntimeError>)
        requires
            old(self).wf(),
        ensures
            final(self).wf(),
            final(self).toks() == old(self).toks(),
            match (r, spec_unary(old(self).toks(), old(self).pos())) {
                (Result::Ok(e), ParseOut::Parsed(m, adv)) => e@ == m && final(self).pos() == old(
                    self,
                ).pos() + adv,
                (Result::Err(er), ParseOut::Fail(em)) => er@ == em,
                _ => false,
            },
        decreases rem(self.toks(), self.pos()), 1nat,
    {
        if self.matches(&[TokenType::Bang, TokenType::Minus]) {
            let operator = self.previous().dup();
            match self.unary() {
                Result::Ok(right) => {
                    return Result::Ok(Expr::Unary { operator, right: Box::new(right) });
                },
                Result::Err(er) => {
                    return Result::Err(er);
                },
            }
        }
        self.primary()
    }

    #[verifier::rlimit(100)]
    fn primary(&mut self) -> (r: Result<Expr, RuntimeError>)
        requires
            old(self).wf(),
        ensures
            final(self).wf(),
            final(self).toks() == old(self).toks(),
            match (r, spec_primary(old(self).toks(), old(self).pos())) {
                (Result::Ok(e), ParseOut::Parsed(m, adv)) => e@ == m && final(self).pos() == old(
                    self,
                ).pos() + adv,
                (Result::Err(er), ParseOut::Fail(em)) => er@ == em,
                _ => false,
            },
        decreases rem(self.toks(), self.pos()), 0nat,
    {
        if self.matches(&[TokenType::False]) {
            return Result::Ok(Expr::Literal { value: ExprLiteralValue::False });
        }
        if self.matches(&[TokenType::True]) {
            return Result::Ok(Expr::Literal { value: ExprLiteralValue::True });
        }
        if self.matches(&[TokenType::Nil]) {
            return Result::Ok(Expr::Literal { value: ExprLiteralValue::Nil });
        }
        if self.check(TokenType::Number) {
            let num: Option<i64> = match &self.peek().literal {
                Option::Some(ScannerLiteralValue::IntValue(n)) => Option::Some(*n),
                _ => Option::None,
            };
            match num {
                Option::Some(n) => {
                    self.advance();
                    return Result::Ok(Expr::Literal { value: ExprLiteralValue::Number(n) });
                },
                Option::None => {
                    return Result::Err(self.expected_expression_error());
                },
            }
        }
        if self.check(TokenType::String) {
            let text: Option<String> = match &self.peek().literal {
                Option::Some(ScannerLiteralValue::StringValue(s)) => Option::Some(s.clone()),
                _ => Option::None,
            };
            match text {
                Option::Some(s) => {
                    self.advance();
                    return Result::Ok(Expr::Literal { value: ExprLiteralValue::StringValue(s) });
                },
                Option::None => {
                    return Result::Err(self.expected_expression_error());
                },
            }
        }
        if self.matches(&[TokenType::LeftParen]) {
            let expr = match self.expression() {
                Result::Ok(e) => e,
                Result::Err(er) => {
                    return Result::Err(er);
                },
            };
            match self.consume(TokenType::RightParen, "Expect ')' after expression") {
                Result::Ok(_) => {},
                Result::Err(er) => {
                    return Result::Err(er);
                },
            }
            return Result::Ok(Expr::Grouping { expression: Box::new(expr) });
        }
        Result::Err(self.expected_expression_error())
    }
}

} // verus!
