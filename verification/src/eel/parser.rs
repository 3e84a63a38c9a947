use vstd::prelude::*;
use crate::eel::lexer::{
    Lexeme, Lexer, Token, blank_semicolons, lemma_lex_blank, lexemes, semicolons_then_eof, tokens_of,
};

verus! {

#[derive(Debug, Clone, Copy, PartialEq, Eq)]
pub enum BinOp {
    Add,
    Sub,
    Mul,
    Div,
    Mod,
    Pow,
    Lt,
    Gt,
    BitAnd,
    BitOr,
}

#[derive(Debug, Clone, Copy, PartialEq, Eq)]
pub enum UnaryOp {
    Neg,
    Not,
}

/// An EEL syntax tree. Numbers keep their source text.
#[derive(Debug)]
pub enum Expr {
    Number(String),
    Var(String),
    Assign { var: String, val: Box<Expr> },
    CompoundAssign { var: String, op: BinOp, val: Box<Expr> },
    BinOp { op: BinOp, lhs: Box<Expr>, rhs: Box<Expr> },
    Unary { op: UnaryOp, expr: Box<Expr> },
    Call { name: String, args: Vec<Expr> },
    Sequence(Vec<Expr>),
}

pub type Ast = Expr;

/// The mathematical model of an `Expr`.
pub enum Term {
    Number(Seq<char>),
    Var(Seq<char>),
    Assign { var: Seq<char>, val: Box<Term> },
    CompoundAssign { var: Seq<char>, op: BinOp, val: Box<Term> },
    BinOp { op: BinOp, lhs: Box<Term>, rhs: Box<Term> },
    Unary { op: UnaryOp, expr: Box<Term> },
    Call { name: Seq<char>, args: Seq<Term> },
    Sequence(Seq<Term>),
}

pub open spec fn view_exprs(es: Seq<Expr>) -> Seq<Term>
    decreases es,
{
    if es.len() == 0 {
        Seq::empty()
    } else {
        view_exprs(es.drop_last()).push(view_expr(es.last()))
    }
}

pub open spec fn view_expr(e: Expr) -> Term
    decreases e,
{
    match e {
        Expr::Number(s) => Term::Number(s@),
        Expr::Var(s) => Term::Var(s@),
        Expr::Assign { var, val } => Term::Assign { var: var@, val: Box::new(view_expr(*val)) },
        Expr::CompoundAssign { var, op, val } => Term::CompoundAssign {
            var: var@,
            op,
            val: Box::new(view_expr(*val)),
        },
        Expr::BinOp { op, lhs, rhs } => Term::BinOp {
            op,
            lhs: Box::new(view_expr(*lhs)),
            rhs: Box::new(view_expr(*rhs)),
        },
        Expr::Unary { op, expr } => Term::Unary { op, expr: Box::new(view_expr(*expr)) },
        Expr::Call { name, args } => Term::Call { name: name@, args: view_exprs(args@) },
        Expr::Sequence(es) => Term::Sequence(view_exprs(es@)),
    }
}

} // verus!

verus! {

pub proof fn lemma_view_exprs(es: Seq<Expr>)
    ensures
        view_exprs(es).len() == es.len(),
        forall|i: int| 0 <= i < es.len() ==> #[trigger] view_exprs(es)[i] == view_expr(es[i]),
    decreases es.len(),
{
    if es.len() > 0 {
        lemma_view_exprs(es.drop_last());
    }
}

pub proof fn lemma_view_exprs_push(es: Seq<Expr>, e: Expr)
    ensures
        view_exprs(es.push(e)) == view_exprs(es).push(view_expr(e)),
{
    assert(es.push(e).drop_last() =~= es);
}

/// The token at `p`; `Eof` past the end.
pub open spec fn tok(ts: Seq<Lexeme>, p: int) -> Lexeme {
    if 0 <= p < ts.len() {
        ts[p]
    } else {
        Lexeme::Punct(Token::Eof)
    }
}

/// The token at `p` is the punctuation `t`.
pub open spec fn at(ts: Seq<Lexeme>, p: int, t: Token) -> bool {
    tok(ts, p) == Lexeme::Punct(t)
}

/// Position after consuming `t` at `p`, if it is there.
pub open spec fn eat(ts: Seq<Lexeme>, p: int, t: Token) -> int {
    if at(ts, p, t) {
        p + 1
    } else {
        p
    }
}

/// `q` lies between `p` and the end of the tokens.
pub open spec fn fits(ts: Seq<Lexeme>, p: int, q: int) -> bool {
    p <= q <= ts.len()
}

/// The text of the number literal that stands for zero.
pub open spec fn zero_text() -> Seq<char> {
    seq!['0']
}

/// The assignment a token denotes: `=` is plain (`Some(None)`), `op=` is
/// compound (`Some(Some(op))`), anything else is none.
pub open spec fn assign_op(l: Lexeme) -> Option<Option<BinOp>> {
    match l {
        Lexeme::Punct(Token::Eq) => Some(None),
        Lexeme::Punct(Token::PlusEq) => Some(Some(BinOp::Add)),
        Lexeme::Punct(Token::MinusEq) => Some(Some(BinOp::Sub)),
        Lexeme::Punct(Token::StarEq) => Some(Some(BinOp::Mul)),
        Lexeme::Punct(Token::SlashEq) => Some(Some(BinOp::Div)),
        Lexeme::Punct(Token::PercentEq) => Some(Some(BinOp::Mod)),
        Lexeme::Punct(Token::CaretEq) => Some(Some(BinOp::Pow)),
        _ => None,
    }
}

pub open spec fn binop(op: BinOp, lhs: Term, rhs: Term) -> Term {
    Term::BinOp { op, lhs: Box::new(lhs), rhs: Box::new(rhs) }
}

/// `expr := comma`
pub open spec fn p_expr(ts: Seq<Lexeme>, p: int) -> (Term, int)
    decreases ts.len() - p, 30nat,
{
    p_comma(ts, p)
}

/// `comma := assign (',' assign)*`; one element stands alone, more form a sequence.
pub open spec fn p_comma(ts: Seq<Lexeme>, p: int) -> (Term, int)
    decreases ts.len() - p, 29nat,
{
    let (e, p1) = p_assign(ts, p);
    if fits(ts, p, p1) {
        let (es, p2) = p_comma_rest(ts, p1, seq![e]);
        (if es.len() == 1 { es[0] } else { Term::Sequence(es) }, p2)
    } else {
        (e, p1)
    }
}

pub open spec fn p_comma_rest(ts: Seq<Lexeme>, p: int, acc: Seq<Term>) -> (Seq<Term>, int)
    decreases ts.len() - p, 28nat,
{
    if at(ts, p, Token::Comma) {
        let (e, p1) = p_assign(ts, p + 1);
        if fits(ts, p + 1, p1) {
            p_comma_rest(ts, p1, acc.push(e))
        } else {
            (acc.push(e), p1)
        }
    } else {
        (acc, p)
    }
}

/// `assign := IDENT ('=' | op'=') assign | bitor` (right associative).
pub open spec fn p_assign(ts: Seq<Lexeme>, p: int) -> (Term, int)
    decreases ts.len() - p, 27nat,
{
    match tok(ts, p) {
        Lexeme::Ident(name) => match assign_op(tok(ts, p + 1)) {
            Some(op) => {
                let (v, p2) = p_assign(ts, p + 2);
                (
                    match op {
                        None => Term::Assign { var: name, val: Box::new(v) },
                        Some(o) => Term::CompoundAssign { var: name, op: o, val: Box::new(v) },
                    },
                    p2,
                )
            },
            None => p_bitor(ts, p),
        },
        _ => p_bitor(ts, p),
    }
}

/// `bitor := bitand ('|' bitand)*` (left associative).
pub open spec fn p_bitor(ts: Seq<Lexeme>, p: int) -> (Term, int)
    decreases ts.len() - p, 26nat,
{
    let (l, p1) = p_bitand(ts, p);
    if fits(ts, p, p1) {
        p_bitor_rest(ts, p1, l)
    } else {
        (l, p1)
    }
}

pub open spec fn p_bitor_rest(ts: Seq<Lexeme>, p: int, lhs: Term) -> (Term, int)
    decreases ts.len() - p, 25nat,
{
    if at(ts, p, Token::Pipe) {
        let (r, p1) = p_bitand(ts, p + 1);
        if fits(ts, p + 1, p1) {
            p_bitor_rest(ts, p1, binop(BinOp::BitOr, lhs, r))
        } else {
            (binop(BinOp::BitOr, lhs, r), p1)
        }
    } else {
        (lhs, p)
    }
}

/// `bitand := relational ('&' relational)*` (left associative).
pub open spec fn p_bitand(ts: Seq<Lexeme>, p: int) -> (Term, int)
    decreases ts.len() - p, 24nat,
{
    let (l, p1) = p_relational(ts, p);
    if fits(ts, p, p1) {
        p_bitand_rest(ts, p1, l)
    } else {
        (l, p1)
    }
}

pub open spec fn p_bitand_rest(ts: Seq<Lexeme>, p: int, lhs: Term) -> (Term, int)
    decreases ts.len() - p, 23nat,
{
    if at(ts, p, Token::Amp) {
        let (r, p1) = p_relational(ts, p + 1);
        if fits(ts, p + 1, p1) {
            p_bitand_rest(ts, p1, binop(BinOp::BitAnd, lhs, r))
        } else {
            (binop(BinOp::BitAnd, lhs, r), p1)
        }
    } else {
        (lhs, p)
    }
}

/// `relational := additive (('<' | '>') additive)?` (not chained).
pub open spec fn p_relational(ts: Seq<Lexeme>, p: int) -> (Term, int)
    decreases ts.len() - p, 22nat,
{
    let (l, p1) = p_additive(ts, p);
    if fits(ts, p, p1) {
        if at(ts, p1, Token::Lt) {
            let (r, p2) = p_additive(ts, p1 + 1);
            (binop(BinOp::Lt, l, r), p2)
        } else if at(ts, p1, Token::Gt) {
            let (r, p2) = p_additive(ts, p1 + 1);
            (binop(BinOp::Gt, l, r), p2)
        } else {
            (l, p1)
        }
    } else {
        (l, p1)
    }
}

/// The additive operator a token denotes.
pub open spec fn additive_op(l: Lexeme) -> Option<BinOp> {
    match l {
        Lexeme::Punct(Token::Plus) => Some(BinOp::Add),
        Lexeme::Punct(Token::Minus) => Some(BinOp::Sub),
        _ => None,
    }
}

/// The multiplicative operator a token denotes.
pub open spec fn multiplicative_op(l: Lexeme) -> Option<BinOp> {
    match l {
        Lexeme::Punct(Token::Star) => Some(BinOp::Mul),
        Lexeme::Punct(Token::Slash) => Some(BinOp::Div),
        Lexeme::Punct(Token::Percent) => Some(BinOp::Mod),
        _ => None,
    }
}

/// `additive := mult (('+' | '-') mult)*` (left associative).
pub open spec fn p_additive(ts: Seq<Lexeme>, p: int) -> (Term, int)
    decreases ts.len() - p, 21nat,
{
    let (l, p1) = p_mult(ts, p);
    if fits(ts, p, p1) {
        p_additive_rest(ts, p1, l)
    } else {
        (l, p1)
    }
}

pub open spec fn p_additive_rest(ts: Seq<Lexeme>, p: int, lhs: Term) -> (Term, int)
    decreases ts.len() - p, 20nat,
{
    match additive_op(tok(ts, p)) {
        Some(op) => {
            let (r, p1) = p_mult(ts, p + 1);
            if fits(ts, p + 1, p1) {
                p_additive_rest(ts, p1, binop(op, lhs, r))
            } else {
                (binop(op, lhs, r), p1)
            }
        },
        None => (lhs, p),
    }
}

/// `mult := power (('*' | '/' | '%') power)*` (left associative).
pub open spec fn p_mult(ts: Seq<Lexeme>, p: int) -> (Term, int)
    decreases ts.len() - p, 19nat,
{
    let (l, p1) = p_power(ts, p);
    if fits(ts, p, p1) {
        p_mult_rest(ts, p1, l)
    } else {
        (l, p1)
    }
}

pub open spec fn p_mult_rest(ts: Seq<Lexeme>, p: int, lhs: Term) -> (Term, int)
    decreases ts.len() - p, 18nat,
{
    match multiplicative_op(tok(ts, p)) {
        Some(op) => {
            let (r, p1) = p_power(ts, p + 1);
            if fits(ts, p + 1, p1) {
                p_mult_rest(ts, p1, binop(op, lhs, r))
            } else {
                (binop(op, lhs, r), p1)
            }
        },
        None => (lhs, p),
    }
}

/// `power := unary ('^' power)?` (right associative).
pub open spec fn p_power(ts: Seq<Lexeme>, p: int) -> (Term, int)
    decreases ts.len() - p, 17nat,
{
    let (b, p1) = p_unary(ts, p);
    if fits(ts, p, p1) && at(ts, p1, Token::Caret) {
        let (e, p2) = p_power(ts, p1 + 1);
        (binop(BinOp::Pow, b, e), p2)
    } else {
        (b, p1)
    }
}

/// `unary := ('-' | '!') unary | primary`
pub open spec fn p_unary(ts: Seq<Lexeme>, p: int) -> (Term, int)
    decreases ts.len() - p, 16nat,
{
    if at(ts, p, Token::Minus) {
        let (e, p1) = p_unary(ts, p + 1);
        (Term::Unary { op: UnaryOp::Neg, expr: Box::new(e) }, p1)
    } else if at(ts, p, Token::Bang) {
        let (e, p1) = p_unary(ts, p + 1);
        (Term::Unary { op: UnaryOp::Not, expr: Box::new(e) }, p1)
    } else {
        p_primary(ts, p)
    }
}

/// `primary := NUMBER | IDENT '(' args ')'? | IDENT | '(' expr ')'?`;
/// any other token is skipped and reads as zero.
pub open spec fn p_primary(ts: Seq<Lexeme>, p: int) -> (Term, int)
    decreases ts.len() - p, 15nat,
{
    match tok(ts, p) {
        Lexeme::Number(n) => (Term::Number(n), p + 1),
        Lexeme::Ident(name) => if at(ts, p + 1, Token::LParen) {
            let (args, p2) = p_call_args(ts, p + 2);
            (Term::Call { name, args }, eat(ts, p2, Token::RParen))
        } else {
            (Term::Var(name), p + 1)
        },
        Lexeme::Punct(Token::LParen) => {
            let (e, p1) = p_expr(ts, p + 1);
            (e, eat(ts, p1, Token::RParen))
        },
        _ => (Term::Number(zero_text()), if p < ts.len() { p + 1 } else { p }),
    }
}

/// Call arguments: `assign (',' assign)*`, where a `,` before `)` or the end
/// ends the list.
pub open spec fn p_call_args(ts: Seq<Lexeme>, p: int) -> (Seq<Term>, int)
    decreases ts.len() - p, 32nat,
{
    if !at(ts, p, Token::RParen) && !at(ts, p, Token::Eof) {
        let (a, p1) = p_assign(ts, p);
        if fits(ts, p, p1) {
            p_call_args_rest(ts, p1, seq![a])
        } else {
            (seq![a], p1)
        }
    } else {
        (Seq::empty(), p)
    }
}

pub open spec fn p_call_args_rest(ts: Seq<Lexeme>, p: int, acc: Seq<Term>) -> (Seq<Term>, int)
    decreases ts.len() - p, 31nat,
{
    if at(ts, p, Token::Comma) {
        if at(ts, p + 1, Token::RParen) || at(ts, p + 1, Token::Eof) {
            (acc, p + 1)
        } else {
            let (a, p1) = p_assign(ts, p + 1);
            if fits(ts, p + 1, p1) {
                p_call_args_rest(ts, p1, acc.push(a))
            } else {
                (acc.push(a), p1)
            }
        }
    } else {
        (acc, p)
    }
}

/// Statements separated by optional `;`, up to `Eof`.
pub open spec fn p_program_rest(ts: Seq<Lexeme>, p: int, acc: Seq<Term>) -> Seq<Term>
    decreases ts.len() - p,
{
    if p < 0 || at(ts, p, Token::Eof) {
        acc
    } else {
        let p1 = eat(ts, p, Token::Semicolon);
        if at(ts, p1, Token::Eof) {
            acc
        } else {
            let (e, p2) = p_expr(ts, p1);
            let p3 = eat(ts, p2, Token::Semicolon);
            if p < p3 <= ts.len() {
                p_program_rest(ts, p3, acc.push(e))
            } else {
                acc.push(e)
            }
        }
    }
}

/// A whole program: no statement reads as zero, one stands alone, more form a
/// sequence.
pub open spec fn p_program(ts: Seq<Lexeme>) -> Term {
    let stmts = p_program_rest(ts, 0, Seq::empty());
    if stmts.len() == 0 {
        Term::Number(zero_text())
    } else if stmts.len() == 1 {
        stmts[0]
    } else {
        Term::Sequence(stmts)
    }
}

/// The syntax tree of an EEL source text.
pub open spec fn parse_spec(src: Seq<char>) -> Term {
    p_program(tokens_of(src))
}

} // verus!

verus! {

/// A distinct number for each token kind.
pub open spec fn token_kind(t: Token) -> u8 {
    match t {
        Token::Number(_) => 0,
        Token::Ident(_) => 1,
        Token::Plus => 2,
        Token::Minus => 3,
        Token::Star => 4,
        Token::Slash => 5,
        Token::Percent => 6,
        Token::Caret => 7,
        Token::Eq => 8,
        Token::PlusEq => 9,
        Token::MinusEq => 10,
        Token::StarEq => 11,
        Token::SlashEq => 12,
        Token::PercentEq => 13,
        Token::CaretEq => 14,
        Token::Lt => 15,
        Token::Gt => 16,
        Token::Amp => 17,
        Token::Pipe => 18,
        Token::Bang => 19,
        Token::Comma => 20,
        Token::Semicolon => 21,
        Token::LParen => 22,
        Token::RParen => 23,
        Token::Eof => 24,
    }
}

fn kind_of(t: &Token) -> (r: u8)
    ensures
        r == token_kind(*t),
{
    match t {
        Token::Number(_) => 0,
        Token::Ident(_) => 1,
        Token::Plus => 2,
        Token::Minus => 3,
        Token::Star => 4,
        Token::Slash => 5,
        Token::Percent => 6,
        Token::Caret => 7,
        Token::Eq => 8,
        Token::PlusEq => 9,
        Token::MinusEq => 10,
        Token::StarEq => 11,
        Token::SlashEq => 12,
        Token::PercentEq => 13,
        Token::CaretEq => 14,
        Token::Lt => 15,
        Token::Gt => 16,
        Token::Amp => 17,
        Token::Pipe => 18,
        Token::Bang => 19,
        Token::Comma => 20,
        Token::Semicolon => 21,
        Token::LParen => 22,
        Token::RParen => 23,
        Token::Eof => 24,
    }
}

/// A token without data.
pub open spec fn is_punct(t: Token) -> bool {
    t !is Number && t !is Ident
}

fn zero_literal() -> (s: String)
    ensures
        s@ == zero_text(),
{
    proof {
        reveal_strlit("0");
    }
    String::from_str("0")
}

fn binop_expr(op: BinOp, lhs: Expr, rhs: Expr) -> (e: Expr)
    ensures
        view_expr(e) == binop(op, view_expr(lhs), view_expr(rhs)),
{
    Expr::BinOp { op, lhs: Box::new(lhs), rhs: Box::new(rhs) }
}

struct Parser {
    tokens: Vec<Token>,
    pos: usize,
}

/// `b` is `a` after consuming tokens: same tokens, a cursor that did not move
/// back nor past the end, and that moved if any token was left.
spec fn advanced(a: Parser, b: Parser) -> bool {
    &&& b.tokens@ == a.tokens@
    &&& a.pos <= b.pos <= b.tokens.len()
    &&& a.pos < a.tokens.len() ==> a.pos < b.pos
}

impl Parser {
    spec fn toks(&self) -> Seq<Lexeme> {
        lexemes(self.tokens@)
    }

    spec fn wf(&self) -> bool {
        self.pos <= self.tokens.len()
    }

    fn new(tokens: Vec<Token>) -> (p: Self)
        ensures
            p.tokens@ == tokens@,
            p.pos == 0,
    {
        Self { tokens, pos: 0 }
    }

    /// The token at the cursor is the punctuation `t`.
    fn at(&self, t: &Token) -> (r: bool)
        requires
            is_punct(*t),
        ensures
            r == at(self.toks(), self.pos as int, *t),
    {
        if self.pos < self.tokens.len() {
            let k = kind_of(&self.tokens[self.pos]);
            let r = k == kind_of(t);
            proof {
                let c = self.tokens@[self.pos as int];
                assert(self.toks()[self.pos as int] == c@);
                if r {
                    assert(c == *t);
                }
            }
            r
        } else {
            kind_of(t) == 24
        }
    }

    fn eat(&mut self, t: &Token) -> (r: bool)
        requires
            old(self).wf(),
            is_punct(*t),
            *t !is Eof,
        ensures
            final(self).wf(),
            final(self).tokens@ == old(self).tokens@,
            final(self).pos == eat(old(self).toks(), old(self).pos as int, *t),
            r == at(old(self).toks(), old(self).pos as int, *t),
    {
        if self.at(t) {
            if self.pos < self.tokens.len() {
                self.pos += 1;
            }
            true
        } else {
            false
        }
    }

    /// The assignment operator at position `i`, if any.
    fn assign_op_at(&self, i: usize) -> (r: Option<Option<BinOp>>)
        ensures
            r == assign_op(tok(self.toks(), i as int)),
    {
        if i < self.tokens.len() {
            match &self.tokens[i] {
                Token::Eq => Some(None),
                Token::PlusEq => Some(Some(BinOp::Add)),
                Token::MinusEq => Some(Some(BinOp::Sub)),
                Token::StarEq => Some(Some(BinOp::Mul)),
                Token::SlashEq => Some(Some(BinOp::Div)),
                Token::PercentEq => Some(Some(BinOp::Mod)),
                Token::CaretEq => Some(Some(BinOp::Pow)),
                _ => None,
            }
        } else {
            None
        }
    }

    fn additive_op_here(&self) -> (r: Option<BinOp>)
        ensures
            r == additive_op(tok(self.toks(), self.pos as int)),
    {
        if self.pos < self.tokens.len() {
            match &self.tokens[self.pos] {
                Token::Plus => Some(BinOp::Add),
                Token::Minus => Some(BinOp::Sub),
                _ => None,
            }
        } else {
            None
        }
    }

    fn multiplicative_op_here(&self) -> (r: Option<BinOp>)
        ensures
            r == multiplicative_op(tok(self.toks(), self.pos as int)),
    {
        if self.pos < self.tokens.len() {
            match &self.tokens[self.pos] {
                Token::Star => Some(BinOp::Mul),
                Token::Slash => Some(BinOp::Div),
                Token::Percent => Some(BinOp::Mod),
                _ => None,
            }
        } else {
            None
        }
    }

    fn parse_program(&mut self) -> (e: Ast)
        requires
            old(self).wf(),
            old(self).pos == 0,
        ensures
            view_expr(e) == p_program(old(self).toks()),
    {
        let ghost toks0 = self.tokens@;
        let ghost ts = self.toks();
        let mut stmts: Vec<Expr> = Vec::new();
        while !self.at(&Token::Eof)
            invariant_except_break
                p_program_rest(ts, self.pos as int, view_exprs(stmts@)) == p_program_rest(
                    ts,
                    0,
                    Seq::empty(),
                ),
            invariant
                self.wf(),
                self.tokens@ == toks0,
                toks0 == old(self).tokens@,
                ts == lexemes(toks0),
            ensures
                view_exprs(stmts@) == p_program_rest(ts, 0, Seq::empty()),
            decreases ts.len() - self.pos,
        {
            self.eat(&Token::Semicolon);
            if self.at(&Token::Eof) {
                break;
            }
            let e = self.parse_expr();
            proof {
                lemma_view_exprs_push(stmts@, e);
            }
            stmts.push(e);
            self.eat(&Token::Semicolon);
        }
        proof {
            lemma_view_exprs(stmts@);
        }
        if stmts.len() == 0 {
            Expr::Number(zero_literal())
        } else if stmts.len() == 1 {
            stmts.pop().unwrap()
        } else {
            Expr::Sequence(stmts)
        }
    }

    fn parse_expr(&mut self) -> (e: Expr)
        requires
            old(self).wf(),
        ensures
            advanced(*old(self), *final(self)),
            (view_expr(e), final(self).pos as int) == p_expr(old(self).toks(), old(self).pos as int),
        decreases old(self).tokens@.len() - old(self).pos, 30nat,
    {
        self.parse_comma()
    }

    fn parse_comma(&mut self) -> (e: Expr)
        requires
            old(self).wf(),
        ensures
            advanced(*old(self), *final(self)),
            (view_expr(e), final(self).pos as int) == p_comma(old(self).toks(), old(self).pos as int),
        decreases old(self).tokens@.len() - old(self).pos, 29nat,
    {
        let ghost toks0 = self.tokens@;
        let ghost ts = self.toks();
        let ghost p0 = self.pos as int;
        let first = self.parse_assign();
        let ghost p1 = self.pos as int;
        let ghost first_t = view_expr(first);
        assert(p_comma(ts, p0) == ({
            let (es, p2) = p_comma_rest(ts, p1, seq![first_t]);
            (if es.len() == 1 { es[0] } else { Term::Sequence(es) }, p2)
        }));
        if !self.at(&Token::Comma) {
            return first;
        }
        let mut exprs: Vec<Expr> = Vec::new();
        exprs.push(first);
        proof {
            lemma_view_exprs_push(Seq::empty(), first);
            assert(Seq::<Expr>::empty().push(first) =~= exprs@);
            assert(view_exprs(Seq::<Expr>::empty()) =~= Seq::<Term>::empty());
            assert(view_exprs(exprs@) =~= seq![first_t]);
        }
        let ghost target = p_comma_rest(ts, p1, seq![first_t]);
        self.pos += 1;
        let second = self.parse_assign();
        proof {
            lemma_view_exprs_push(exprs@, second);
        }
        exprs.push(second);
        while self.at(&Token::Comma)
            invariant
                self.wf(),
                self.tokens@ == toks0,
                toks0 == old(self).tokens@,
                p0 == old(self).pos,
                ts == lexemes(toks0),
                p0 < p1 <= self.pos,
                exprs@.len() >= 2,
                p_comma_rest(ts, self.pos as int, view_exprs(exprs@)) == target,
            decreases ts.len() - self.pos,
        {
            self.pos += 1;
            let e = self.parse_assign();
            proof {
                lemma_view_exprs_push(exprs@, e);
            }
            exprs.push(e);
        }
        proof {
            lemma_view_exprs(exprs@);
        }
        Expr::Sequence(exprs)
    }

    fn parse_assign(&mut self) -> (e: Expr)
        requires
            old(self).wf(),
        ensures
            advanced(*old(self), *final(self)),
            (view_expr(e), final(self).pos as int) == p_assign(old(self).toks(), old(self).pos as int),
        decreases old(self).tokens@.len() - old(self).pos, 27nat,
    {
        if self.pos < self.tokens.len() {
            let name_opt: Option<String> = match &self.tokens[self.pos] {
                Token::Ident(name) => Some(name.clone()),
                _ => None,
            };
            if let Some(name) = name_opt {
                match self.assign_op_at(self.pos + 1) {
                    Some(op_opt) => {
                        self.pos += 2;
                        let val = self.parse_assign();
                        return match op_opt {
                            None => Expr::Assign { var: name, val: Box::new(val) },
                            Some(op) => Expr::CompoundAssign { var: name, op, val: Box::new(val) },
                        };
                    },
                    None => {},
                }
            }
        }
        self.parse_bitor()
    }

    fn parse_bitor(&mut self) -> (e: Expr)
        requires
            old(self).wf(),
        ensures
            advanced(*old(self), *final(self)),
            (view_expr(e), final(self).pos as int) == p_bitor(old(self).toks(), old(self).pos as int),
        decreases old(self).tokens@.len() - old(self).pos, 26nat,
    {
        let ghost toks0 = self.tokens@;
        let ghost ts = self.toks();
        let ghost p0 = self.pos as int;
        let mut lhs = self.parse_bitand();
        let ghost target = p_bitor_rest(ts, self.pos as int, view_expr(lhs));
        let ghost p1 = self.pos as int;
        while self.at(&Token::Pipe)
            invariant
                self.wf(),
                self.tokens@ == toks0,
                toks0 == old(self).tokens@,
                p0 == old(self).pos,
                ts == lexemes(toks0),
                p0 <= p1 <= self.pos,
                p0 < ts.len() ==> p0 < p1,
                p_bitor_rest(ts, self.pos as int, view_expr(lhs)) == target,
            decreases ts.len() - self.pos,
        {
            self.pos += 1;
            let rhs = self.parse_bitand();
            lhs = binop_expr(BinOp::BitOr, lhs, rhs);
        }
        lhs
    }

    fn parse_bitand(&mut self) -> (e: Expr)
        requires
            old(self).wf(),
        ensures
            advanced(*old(self), *final(self)),
            (view_expr(e), final(self).pos as int) == p_bitand(old(self).toks(), old(self).pos as int),
        decreases old(self).tokens@.len() - old(self).pos, 24nat,
    {
        let ghost toks0 = self.tokens@;
        let ghost ts = self.toks();
        let ghost p0 = self.pos as int;
        let mut lhs = self.parse_relational();
        let ghost target = p_bitand_rest(ts, self.pos as int, view_expr(lhs));
        let ghost p1 = self.pos as int;
        while self.at(&Token::Amp)
            invariant
                self.wf(),
                self.tokens@ == toks0,
                toks0 == old(self).tokens@,
                p0 == old(self).pos,
                ts == lexemes(toks0),
                p0 <= p1 <= self.pos,
                p0 < ts.len() ==> p0 < p1,
                p_bitand_rest(ts, self.pos as int, view_expr(lhs)) == target,
            decreases ts.len() - self.pos,
        {
            self.pos += 1;
            let rhs = self.parse_relational();
            lhs = binop_expr(BinOp::BitAnd, lhs, rhs);
        }
        lhs
    }

    fn parse_relational(&mut self) -> (e: Expr)
        requires
            old(self).wf(),
        ensures
            advanced(*old(self), *final(self)),
            (view_expr(e), final(self).pos as int) == p_relational(old(self).toks(), old(self).pos as int),
        decreases old(self).tokens@.len() - old(self).pos, 22nat,
    {
        let lhs = self.parse_additive();
        if self.at(&Token::Lt) {
            self.pos += 1;
            let rhs = self.parse_additive();
            binop_expr(BinOp::Lt, lhs, rhs)
        } else if self.at(&Token::Gt) {
            self.pos += 1;
            let rhs = self.parse_additive();
            binop_expr(BinOp::Gt, lhs, rhs)
        } else {
            lhs
        }
    }

    fn parse_additive(&mut self) -> (e: Expr)
        requires
            old(self).wf(),
        ensures
            advanced(*old(self), *final(self)),
            (view_expr(e), final(self).pos as int) == p_additive(old(self).toks(), old(self).pos as int),
        decreases old(self).tokens@.len() - old(self).pos, 21nat,
    {
        let ghost toks0 = self.tokens@;
        let ghost ts = self.toks();
        let ghost p0 = self.pos as int;
        let mut lhs = self.parse_multiplicative();
        let ghost target = p_additive_rest(ts, self.pos as int, view_expr(lhs));
        let ghost p1 = self.pos as int;
        loop
            invariant_except_break
                p_additive_rest(ts, self.pos as int, view_expr(lhs)) == target,
            invariant
                self.wf(),
                self.tokens@ == toks0,
                toks0 == old(self).tokens@,
                p0 == old(self).pos,
                ts == lexemes(toks0),
                p0 <= p1 <= self.pos,
                p0 < ts.len() ==> p0 < p1,

            ensures
                self.wf(),
                self.tokens@ == toks0,
                toks0 == old(self).tokens@,
                p0 == old(self).pos,
                ts == lexemes(toks0),
                p0 <= p1 <= self.pos,
                p0 < ts.len() ==> p0 < p1,
                (view_expr(lhs), self.pos as int) == target,
            decreases ts.len() - self.pos,
        {
            let op = match self.additive_op_here() {
                Some(op) => op,
                None => break,
            };
            self.pos += 1;
            let rhs = self.parse_multiplicative();
            lhs = binop_expr(op, lhs, rhs);
        }
        lhs
    }

    fn parse_multiplicative(&mut self) -> (e: Expr)
        requires
            old(self).wf(),
        ensures
            advanced(*old(self), *final(self)),
            (view_expr(e), final(self).pos as int) == p_mult(old(self).toks(), old(self).pos as int),
        decreases old(self).tokens@.len() - old(self).pos, 19nat,
    {
        let ghost toks0 = self.tokens@;
        let ghost ts = self.toks();
        let ghost p0 = self.pos as int;
        let mut lhs = self.parse_power();
        let ghost target = p_mult_rest(ts, self.pos as int, view_expr(lhs));
        let ghost p1 = self.pos as int;
        loop
            invariant_except_break
                p_mult_rest(ts, self.pos as int, view_expr(lhs)) == target,
            invariant
                self.wf(),
                self.tokens@ == toks0,
                toks0 == old(self).tokens@,
                p0 == old(self).pos,
                ts == lexemes(toks0),
                p0 <= p1 <= self.pos,
                p0 < ts.len() ==> p0 < p1,

            ensures
                self.wf(),
                self.tokens@ == toks0,
                toks0 == old(self).tokens@,
                p0 == old(self).pos,
                ts == lexemes(toks0),
                p0 <= p1 <= self.pos,
                p0 < ts.len() ==> p0 < p1,
                (view_expr(lhs), self.pos as int) == target,
            decreases ts.len() - self.pos,
        {
            let op = match self.multiplicative_op_here() {
                Some(op) => op,
                None => break,
            };
            self.pos += 1;
            let rhs = self.parse_power();
            lhs = binop_expr(op, lhs, rhs);
        }
        lhs
    }

    fn parse_power(&mut self) -> (e: Expr)
        requires
            old(self).wf(),
        ensures
            advanced(*old(self), *final(self)),
            (view_expr(e), final(self).pos as int) == p_power(old(self).toks(), old(self).pos as int),
        decreases old(self).tokens@.len() - old(self).pos, 17nat,
    {
        let base = self.parse_unary();
        if self.at(&Token::Caret) {
            self.pos += 1;
            let exp = self.parse_power();
            binop_expr(BinOp::Pow, base, exp)
        } else {
            base
        }
    }

    fn parse_unary(&mut self) -> (e: Expr)
        requires
            old(self).wf(),
        ensures
            advanced(*old(self), *final(self)),
            (view_expr(e), final(self).pos as int) == p_unary(old(self).toks(), old(self).pos as int),
        decreases old(self).tokens@.len() - old(self).pos, 16nat,
    {
        if self.at(&Token::Minus) {
            self.pos += 1;
            let e = self.parse_unary();
            Expr::Unary { op: UnaryOp::Neg, expr: Box::new(e) }
        } else if self.at(&Token::Bang) {
            self.pos += 1;
            let e = self.parse_unary();
            Expr::Unary { op: UnaryOp::Not, expr: Box::new(e) }
        } else {
            self.parse_primary()
        }
    }

    fn parse_primary(&mut self) -> (e: Expr)
        requires
            old(self).wf(),
        ensures
            advanced(*old(self), *final(self)),
            (view_expr(e), final(self).pos as int) == p_primary(old(self).toks(), old(self).pos as int),
        decreases old(self).tokens@.len() - old(self).pos, 15nat,
    {
        let ghost toks0 = self.tokens@;
        let ghost ts = self.toks();
        if self.pos >= self.tokens.len() {
            return Expr::Number(zero_literal());
        }
        assert(ts[self.pos as int] == self.tokens@[self.pos as int]@);
        let (number, ident): (Option<String>, Option<String>) = match &self.tokens[self.pos] {
            Token::Number(n) => (Some(n.clone()), None),
            Token::Ident(name) => (None, Some(name.clone())),
            _ => (None, None),
        };
        if let Some(n) = number {
            self.pos += 1;
            return Expr::Number(n);
        }
        if let Some(name) = ident {
            self.pos += 1;
            if self.at(&Token::LParen) {
                self.pos += 1;
                let args = self.parse_call_args();
                self.eat(&Token::RParen);
                return Expr::Call { name, args };
            }
            return Expr::Var(name);
        }
        if self.at(&Token::LParen) {
            self.pos += 1;
            let e = self.parse_expr();
            self.eat(&Token::RParen);
            return e;
        }
        self.pos += 1;
        Expr::Number(zero_literal())
    }

    fn parse_call_args(&mut self) -> (args: Vec<Expr>)
        requires
            old(self).wf(),
        ensures
            final(self).tokens@ == old(self).tokens@,
            old(self).pos <= final(self).pos <= final(self).tokens.len(),
            (view_exprs(args@), final(self).pos as int) == p_call_args(
                old(self).toks(),
                old(self).pos as int,
            ),
        decreases old(self).tokens@.len() - old(self).pos, 32nat,
    {
        let ghost toks0 = self.tokens@;
        let ghost ts = self.toks();
        let ghost p0 = self.pos as int;
        let mut args: Vec<Expr> = Vec::new();
        if self.at(&Token::RParen) || self.at(&Token::Eof) {
            return args;
        }
        let first = self.parse_assign();
        proof {
            lemma_view_exprs_push(args@, first);
        }
        args.push(first);
        let ghost target = p_call_args_rest(ts, self.pos as int, view_exprs(args@));
        loop
            invariant_except_break
                p_call_args_rest(ts, self.pos as int, view_exprs(args@)) == target,
            invariant
                self.wf(),
                self.tokens@ == toks0,
                toks0 == old(self).tokens@,
                p0 == old(self).pos,
                ts == lexemes(toks0),
                p0 <= self.pos,

            ensures
                self.wf(),
                self.tokens@ == toks0,
                toks0 == old(self).tokens@,
                p0 == old(self).pos,
                ts == lexemes(toks0),
                p0 <= self.pos,
                (view_exprs(args@), self.pos as int) == target,
            decreases ts.len() - self.pos,
        {
            if !self.at(&Token::Comma) {
                break;
            }
            self.pos += 1;
            if self.at(&Token::RParen) || self.at(&Token::Eof) {
                break;
            }
            let a = self.parse_assign();
            proof {
                lemma_view_exprs_push(args@, a);
            }
            args.push(a);
        }
        args
    }
}

/// Parses EEL source text into a syntax tree.
pub fn parse(src: &str) -> (ast: Ast)
    ensures
        view_expr(ast) == parse_spec(src@),
{
    let mut lex = Lexer::new(src);
    let tokens = lex.tokenize();
    let mut parser = Parser::new(tokens);
    parser.parse_program()
}

} // verus!

verus! {

/// Every sequence node in `t` has at least two elements.
pub open spec fn no_trivial_sequence(t: Term) -> bool
    decreases t,
{
    match t {
        Term::Number(_) => true,
        Term::Var(_) => true,
        Term::Assign { var, val } => no_trivial_sequence(*val),
        Term::CompoundAssign { var, op, val } => no_trivial_sequence(*val),
        Term::BinOp { op, lhs, rhs } => no_trivial_sequence(*lhs) && no_trivial_sequence(*rhs),
        Term::Unary { op, expr } => no_trivial_sequence(*expr),
        Term::Call { name, args } => all_no_trivial_sequence(args),
        Term::Sequence(es) => es.len() >= 2 && all_no_trivial_sequence(es),
    }
}

/// `no_trivial_sequence` holds of every element.
pub open spec fn all_no_trivial_sequence(ts: Seq<Term>) -> bool
    decreases ts,
{
    if ts.len() == 0 {
        true
    } else {
        all_no_trivial_sequence(ts.drop_last()) && no_trivial_sequence(ts.last())
    }
}

proof fn lemma_all_push(ts: Seq<Term>, t: Term)
    ensures
        all_no_trivial_sequence(ts.push(t)) == (all_no_trivial_sequence(ts) && no_trivial_sequence(t)),
{
    assert(ts.push(t).drop_last() =~= ts);
}

proof fn lemma_all_single(t: Term)
    ensures
        all_no_trivial_sequence(seq![t]) == no_trivial_sequence(t),
{
    lemma_all_push(Seq::empty(), t);
    assert(Seq::<Term>::empty().push(t) =~= seq![t]);
}

proof fn lemma_all_first(ts: Seq<Term>)
    requires
        all_no_trivial_sequence(ts),
        ts.len() >= 1,
    ensures
        no_trivial_sequence(ts[0]),
    decreases ts.len(),
{
    if ts.len() > 1 {
        lemma_all_first(ts.drop_last());
    }
}

proof fn lemma_nts_expr(ts: Seq<Lexeme>, p: int)
    ensures
        no_trivial_sequence(p_expr(ts, p).0),
    decreases ts.len() - p, 30nat,
{
    lemma_nts_comma(ts, p);
}

proof fn lemma_nts_comma(ts: Seq<Lexeme>, p: int)
    ensures
        no_trivial_sequence(p_comma(ts, p).0),
    decreases ts.len() - p, 29nat,
{
    let (e, p1) = p_assign(ts, p);
    lemma_nts_assign(ts, p);
    if fits(ts, p, p1) {
        lemma_all_single(e);
        lemma_nts_comma_rest(ts, p1, seq![e]);
        let (es, p2) = p_comma_rest(ts, p1, seq![e]);
        if es.len() == 1 {
            lemma_all_first(es);
        }
    }
}

proof fn lemma_nts_comma_rest(ts: Seq<Lexeme>, p: int, acc: Seq<Term>)
    requires
        all_no_trivial_sequence(acc),
    ensures
        all_no_trivial_sequence(p_comma_rest(ts, p, acc).0),
        p_comma_rest(ts, p, acc).0.len() >= acc.len(),
    decreases ts.len() - p, 28nat,
{
    if at(ts, p, Token::Comma) {
        let (e, p1) = p_assign(ts, p + 1);
        lemma_nts_assign(ts, p + 1);
        lemma_all_push(acc, e);
        if fits(ts, p + 1, p1) {
            lemma_nts_comma_rest(ts, p1, acc.push(e));
        }
    }
}

proof fn lemma_nts_assign(ts: Seq<Lexeme>, p: int)
    ensures
        no_trivial_sequence(p_assign(ts, p).0),
    decreases ts.len() - p, 27nat,
{
    match tok(ts, p) {
        Lexeme::Ident(name) => match assign_op(tok(ts, p + 1)) {
            Some(op) => {
                lemma_nts_assign(ts, p + 2);
            },
            None => {
                lemma_nts_bitor(ts, p);
            },
        },
        _ => {
            lemma_nts_bitor(ts, p);
        },
    }
}

proof fn lemma_nts_bitor(ts: Seq<Lexeme>, p: int)
    ensures
        no_trivial_sequence(p_bitor(ts, p).0),
    decreases ts.len() - p, 26nat,
{
    let (l, p1) = p_bitand(ts, p);
    lemma_nts_bitand(ts, p);
    if fits(ts, p, p1) {
        lemma_nts_bitor_rest(ts, p1, l);
    }
}

proof fn lemma_nts_bitor_rest(ts: Seq<Lexeme>, p: int, lhs: Term)
    requires
        no_trivial_sequence(lhs),
    ensures
        no_trivial_sequence(p_bitor_rest(ts, p, lhs).0),
    decreases ts.len() - p, 25nat,
{
    if at(ts, p, Token::Pipe) {
        let (r, p1) = p_bitand(ts, p + 1);
        lemma_nts_bitand(ts, p + 1);
        if fits(ts, p + 1, p1) {
            lemma_nts_bitor_rest(ts, p1, binop(BinOp::BitOr, lhs, r));
        }
    }
}

proof fn lemma_nts_bitand(ts: Seq<Lexeme>, p: int)
    ensures
        no_trivial_sequence(p_bitand(ts, p).0),
    decreases ts.len() - p, 24nat,
{
    let (l, p1) = p_relational(ts, p);
    lemma_nts_relational(ts, p);
    if fits(ts, p, p1) {
        lemma_nts_bitand_rest(ts, p1, l);
    }
}

proof fn lemma_nts_bitand_rest(ts: Seq<Lexeme>, p: int, lhs: Term)
    requires
        no_trivial_sequence(lhs),
    ensures
        no_trivial_sequence(p_bitand_rest(ts, p, lhs).0),
    decreases ts.len() - p, 23nat,
{
    if at(ts, p, Token::Amp) {
        let (r, p1) = p_relational(ts, p + 1);
        lemma_nts_relational(ts, p + 1);
        if fits(ts, p + 1, p1) {
            lemma_nts_bitand_rest(ts, p1, binop(BinOp::BitAnd, lhs, r));
        }
    }
}

proof fn lemma_nts_relational(ts: Seq<Lexeme>, p: int)
    ensures
        no_trivial_sequence(p_relational(ts, p).0),
    decreases ts.len() - p, 22nat,
{
    let (l, p1) = p_additive(ts, p);
    lemma_nts_additive(ts, p);
    if fits(ts, p, p1) {
        if at(ts, p1, Token::Lt) || at(ts, p1, Token::Gt) {
            lemma_nts_additive(ts, p1 + 1);
        }
    }
}

proof fn lemma_nts_additive(ts: Seq<Lexeme>, p: int)
    ensures
        no_trivial_sequence(p_additive(ts, p).0),
    decreases ts.len() - p, 21nat,
{
    let (l, p1) = p_mult(ts, p);
    lemma_nts_mult(ts, p);
    if fits(ts, p, p1) {
        lemma_nts_additive_rest(ts, p1, l);
    }
}

proof fn lemma_nts_additive_rest(ts: Seq<Lexeme>, p: int, lhs: Term)
    requires
        no_trivial_sequence(lhs),
    ensures
        no_trivial_sequence(p_additive_rest(ts, p, lhs).0),
    decreases ts.len() - p, 20nat,
{
    match additive_op(tok(ts, p)) {
        Some(op) => {
            let (r, p1) = p_mult(ts, p + 1);
            lemma_nts_mult(ts, p + 1);
            if fits(ts, p + 1, p1) {
                lemma_nts_additive_rest(ts, p1, binop(op, lhs, r));
            }
        },
        None => {},
    }
}

proof fn lemma_nts_mult(ts: Seq<Lexeme>, p: int)
    ensures
        no_trivial_sequence(p_mult(ts, p).0),
    decreases ts.len() - p, 19nat,
{
    let (l, p1) = p_power(ts, p);
    lemma_nts_power(ts, p);
    if fits(ts, p, p1) {
        lemma_nts_mult_rest(ts, p1, l);
    }
}

proof fn lemma_nts_mult_rest(ts: Seq<Lexeme>, p: int, lhs: Term)
    requires
        no_trivial_sequence(lhs),
    ensures
        no_trivial_sequence(p_mult_rest(ts, p, lhs).0),
    decreases ts.len() - p, 18nat,
{
    match multiplicative_op(tok(ts, p)) {
        Some(op) => {
            let (r, p1) = p_power(ts, p + 1);
            lemma_nts_power(ts, p + 1);
            if fits(ts, p + 1, p1) {
                lemma_nts_mult_rest(ts, p1, binop(op, lhs, r));
            }
        },
        None => {},
    }
}

proof fn lemma_nts_power(ts: Seq<Lexeme>, p: int)
    ensures
        no_trivial_sequence(p_power(ts, p).0),
    decreases ts.len() - p, 17nat,
{
    let (b, p1) = p_unary(ts, p);
    lemma_nts_unary(ts, p);
    if fits(ts, p, p1) && at(ts, p1, Token::Caret) {
        lemma_nts_power(ts, p1 + 1);
    }
}

proof fn lemma_nts_unary(ts: Seq<Lexeme>, p: int)
    ensures
        no_trivial_sequence(p_unary(ts, p).0),
    decreases ts.len() - p, 16nat,
{
    if at(ts, p, Token::Minus) || at(ts, p, Token::Bang) {
        lemma_nts_unary(ts, p + 1);
    } else {
        lemma_nts_primary(ts, p);
    }
}

proof fn lemma_nts_primary(ts: Seq<Lexeme>, p: int)
    ensures
        no_trivial_sequence(p_primary(ts, p).0),
    decreases ts.len() - p, 15nat,
{
    match tok(ts, p) {
        Lexeme::Ident(name) => {
            if at(ts, p + 1, Token::LParen) {
                lemma_nts_call_args(ts, p + 2);
            }
        },
        Lexeme::Punct(Token::LParen) => {
            lemma_nts_expr(ts, p + 1);
        },
        _ => {},
    }
}

proof fn lemma_nts_call_args(ts: Seq<Lexeme>, p: int)
    ensures
        all_no_trivial_sequence(p_call_args(ts, p).0),
    decreases ts.len() - p, 32nat,
{
    if !at(ts, p, Token::RParen) && !at(ts, p, Token::Eof) {
        let (a, p1) = p_assign(ts, p);
        lemma_nts_assign(ts, p);
        lemma_all_single(a);
        if fits(ts, p, p1) {
            lemma_nts_call_args_rest(ts, p1, seq![a]);
        }
    }
}

proof fn lemma_nts_call_args_rest(ts: Seq<Lexeme>, p: int, acc: Seq<Term>)
    requires
        all_no_trivial_sequence(acc),
    ensures
        all_no_trivial_sequence(p_call_args_rest(ts, p, acc).0),
    decreases ts.len() - p, 31nat,
{
    if at(ts, p, Token::Comma) && !(at(ts, p + 1, Token::RParen) || at(ts, p + 1, Token::Eof)) {
        let (a, p1) = p_assign(ts, p + 1);
        lemma_nts_assign(ts, p + 1);
        lemma_all_push(acc, a);
        if fits(ts, p + 1, p1) {
            lemma_nts_call_args_rest(ts, p1, acc.push(a));
        }
    }
}

proof fn lemma_nts_program_rest(ts: Seq<Lexeme>, p: int, acc: Seq<Term>)
    requires
        all_no_trivial_sequence(acc),
    ensures
        all_no_trivial_sequence(p_program_rest(ts, p, acc)),
    decreases ts.len() - p,
{
    if !(p < 0 || at(ts, p, Token::Eof)) {
        let p1 = eat(ts, p, Token::Semicolon);
        if !at(ts, p1, Token::Eof) {
            let (e, p2) = p_expr(ts, p1);
            lemma_nts_expr(ts, p1);
            lemma_all_push(acc, e);
            let p3 = eat(ts, p2, Token::Semicolon);
            if p < p3 <= ts.len() {
                lemma_nts_program_rest(ts, p3, acc.push(e));
            }
        }
    }
}

/// At a `;` that `;` or the end follows, an expression reads as zero and takes
/// just that `;`.
proof fn lemma_expr_at_semicolon(ts: Seq<Lexeme>, p: int)
    requires
        0 <= p,
        p + 1 < ts.len(),
        ts[p] == Lexeme::Punct(Token::Semicolon),
        ts[p + 1] == Lexeme::Punct(Token::Semicolon) || ts[p + 1] == Lexeme::Punct(Token::Eof),
    ensures
        p_expr(ts, p) == (Term::Number(zero_text()), p + 1),
{
    let z = Term::Number(zero_text());
    let q = p + 1;
    assert(p_primary(ts, p) == (z, q));
    assert(p_unary(ts, p) == (z, q));
    assert(p_power(ts, p) == (z, q));
    assert(p_mult_rest(ts, q, z) == (z, q));
    assert(p_mult(ts, p) == (z, q));
    assert(p_additive_rest(ts, q, z) == (z, q));
    assert(p_additive(ts, p) == (z, q));
    assert(p_relational(ts, p) == (z, q));
    assert(p_bitand_rest(ts, q, z) == (z, q));
    assert(p_bitand(ts, p) == (z, q));
    assert(p_bitor_rest(ts, q, z) == (z, q));
    assert(p_bitor(ts, p) == (z, q));
    assert(p_assign(ts, p) == (z, q));
    assert(p_comma_rest(ts, q, seq![z]) == (seq![z], q));
    assert(seq![z][0] == z);
    assert(p_comma(ts, p) == (z, q));
}

/// A text of nothing but whitespace, comments and at most four `;` parses to
/// the number zero.
pub proof fn law_blank_program_is_zero(src: Seq<char>)
    requires
        blank_semicolons(src, 0) matches Some(k) && k <= 4,
    ensures
        parse_spec(src) == Term::Number(zero_text()),
{
    let k = blank_semicolons(src, 0)->0;
    lemma_lex_blank(src, 0);
    let ts = tokens_of(src);
    assert(ts == semicolons_then_eof(k));
    let semi = Lexeme::Punct(Token::Semicolon);
    let eof = Lexeme::Punct(Token::Eof);
    let z = Term::Number(zero_text());
    let none = Seq::<Term>::empty();
    if k == 0 {
        assert(ts =~= seq![eof]);
        assert(p_program_rest(ts, 0, none) == none);
    } else if k == 1 {
        assert(ts =~= seq![semi, eof]);
        assert(p_program_rest(ts, 0, none) == none);
    } else if k == 2 {
        assert(ts =~= seq![semi, semi, eof]);
        lemma_expr_at_semicolon(ts, 1);
        assert(p_program_rest(ts, 2, seq![z]) == seq![z]);
        assert(p_program_rest(ts, 0, none) == seq![z]);
    } else if k == 3 {
        assert(ts =~= seq![semi, semi, semi, eof]);
        lemma_expr_at_semicolon(ts, 1);
        assert(p_program_rest(ts, 3, seq![z]) == seq![z]);
        assert(p_program_rest(ts, 0, none) == seq![z]);
    } else {
        assert(ts =~= seq![semi, semi, semi, semi, eof]);
        lemma_expr_at_semicolon(ts, 1);
        assert(p_program_rest(ts, 3, seq![z]) == seq![z]);
        assert(p_program_rest(ts, 0, none) == seq![z]);
    }
}

/// A number token that the end follows reads as that number, at every level
/// from assignments down.
proof fn lemma_number_then_end(ts: Seq<Lexeme>, p: int, n: Seq<char>)
    requires
        0 <= p,
        p + 1 < ts.len(),
        ts[p] == Lexeme::Number(n),
        ts[p + 1] == Lexeme::Punct(Token::Eof),
    ensures
        p_assign(ts, p) == (Term::Number(n), p + 1),
{
    let z = Term::Number(n);
    let q = p + 1;
    assert(p_primary(ts, p) == (z, q));
    assert(p_unary(ts, p) == (z, q));
    assert(p_power(ts, p) == (z, q));
    assert(p_mult_rest(ts, q, z) == (z, q));
    assert(p_mult(ts, p) == (z, q));
    assert(p_additive_rest(ts, q, z) == (z, q));
    assert(p_additive(ts, p) == (z, q));
    assert(p_relational(ts, p) == (z, q));
    assert(p_bitand_rest(ts, q, z) == (z, q));
    assert(p_bitand(ts, p) == (z, q));
    assert(p_bitor_rest(ts, q, z) == (z, q));
    assert(p_bitor(ts, p) == (z, q));
}

/// A program of a variable, an assignment token and a number is that
/// assignment: `=` stores the number, and each `op=` applies its own operator:
/// `+=` adds, `-=` subtracts, `*=` multiplies, `/=` divides, `%=` takes the
/// remainder and `^=` raises to the power.
pub proof fn law_assignment_operators(src: Seq<char>, x: Seq<char>, t: Token, n: Seq<char>)
    requires
        tokens_of(src) == seq![
            Lexeme::Ident(x),
            Lexeme::Punct(t),
            Lexeme::Number(n),
            Lexeme::Punct(Token::Eof),
        ],
    ensures
        t == Token::Eq ==> parse_spec(src) == (Term::Assign { var: x, val: Box::new(Term::Number(n)) }),
        t == Token::PlusEq ==> parse_spec(src) == (Term::CompoundAssign {
            var: x,
            op: BinOp::Add,
            val: Box::new(Term::Number(n)),
        }),
        t == Token::MinusEq ==> parse_spec(src) == (Term::CompoundAssign {
            var: x,
            op: BinOp::Sub,
            val: Box::new(Term::Number(n)),
        }),
        t == Token::StarEq ==> parse_spec(src) == (Term::CompoundAssign {
            var: x,
            op: BinOp::Mul,
            val: Box::new(Term::Number(n)),
        }),
        t == Token::SlashEq ==> parse_spec(src) == (Term::CompoundAssign {
            var: x,
            op: BinOp::Div,
            val: Box::new(Term::Number(n)),
        }),
        t == Token::PercentEq ==> parse_spec(src) == (Term::CompoundAssign {
            var: x,
            op: BinOp::Mod,
            val: Box::new(Term::Number(n)),
        }),
        t == Token::CaretEq ==> parse_spec(src) == (Term::CompoundAssign {
            var: x,
            op: BinOp::Pow,
            val: Box::new(Term::Number(n)),
        }),
{
    let ts = tokens_of(src);
    if assign_op(Lexeme::Punct(t)) is Some {
        lemma_number_then_end(ts, 2, n);
        let (e, p1) = p_assign(ts, 0);
        assert(p1 == 3);
        assert(p_comma_rest(ts, 3, seq![e]) == (seq![e], 3int));
        assert(seq![e][0] == e);
        assert(p_expr(ts, 0) == (e, 3int));
        assert(p_program_rest(ts, 3, seq![e]) == seq![e]);
        assert(p_program_rest(ts, 0, Seq::empty()) == seq![e]);
    }
}

/// No syntax tree the parser builds holds a sequence of fewer than two
/// expressions: a single statement or operand stands alone.
pub proof fn law_parse_no_trivial_sequence(src: Seq<char>)
    ensures
        no_trivial_sequence(parse_spec(src)),
{
    let ts = tokens_of(src);
    lemma_nts_program_rest(ts, 0, Seq::empty());
    let stmts = p_program_rest(ts, 0, Seq::empty());
    if stmts.len() == 1 {
        lemma_all_first(stmts);
    }
}

} // verus!
