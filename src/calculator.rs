//! A small calculator over a tree of numbers and operators, and its evaluator.
use vstd::prelude::*;
use crate::ast::Ast;
use crate::grammar::{ahead, first_of, sp_int, token_as, ws_end};
use crate::parser::{
    at_char, finish, p_int, skip_ws, tag1, tag2, tag4, tag5, token, ParseError, Source,
};

verus! {

/// A calculator tree: a node holds a left operand, an operator and a right operand.
#[derive(Debug, PartialEq)]
pub enum Expr {
    Node(Box<Expr>, Box<Expr>, Box<Expr>),
    Num(i32),
    Bool(Bool),
    LogOp(LogOp),
    AriOp(AriOp),
}

#[derive(Clone, Copy, Debug, PartialEq, Eq, Structural)]
pub enum AriOp {
    Add,
    Sub,
    Mult,
    Div,
}

#[derive(Clone, Copy, Debug, PartialEq, Eq, Structural)]
pub enum Bool {
    True,
    False,
}

#[derive(Clone, Copy, Debug, PartialEq, Eq, Structural)]
pub enum LogOp {
    And,
    Or,
    Les,
    Gre,
}

/// What evaluation yields: a number, or the addition operator.
#[derive(Clone, Copy, Debug, PartialEq, Eq, Structural)]
pub enum Content {
    Num(i32),
    Add,
}

/// The value of a tree, where it has one: every arithmetic operator reads as
/// addition, a node adds two numbers, and a sum must fit in an `i32`.
pub open spec fn value_of(e: Expr) -> Option<Content>
    decreases e,
{
    match e {
        Expr::AriOp(_) => Some(Content::Add),
        Expr::Num(n) => Some(Content::Num(n)),
        Expr::Node(l, o, r) => match (value_of(*l), value_of(*o), value_of(*r)) {
            (Some(Content::Num(a)), Some(Content::Add), Some(Content::Num(b))) => {
                if i32::MIN <= a + b <= i32::MAX {
                    Some(Content::Num((a + b) as i32))
                } else {
                    None
                }
            },
            _ => None,
        },
        _ => None,
    }
}

/// Evaluates a tree that has a value.
pub fn interpreter(input: Expr) -> (r: Content)
    requires
        value_of(input) is Some,
    ensures
        Some(r) == value_of(input),
    decreases input,
{
    match input {
        Expr::AriOp(_) => Content::Add,
        Expr::Num(n) => Content::Num(n),
        Expr::Node(left, operator, right) => {
            let l = interpreter(*left);
            let o = interpreter(*operator);
            let r = interpreter(*right);
            eval_expr(l, o, r)
        },
        _ => Content::Add,
    }
}

/// Applies an operator to two numbers: the sum, for addition.
pub fn eval_expr(left: Content, operator: Content, right: Content) -> (r: Content)
    requires
        left is Num,
        right is Num,
        operator is Add,
        i32::MIN <= left->Num_0 + right->Num_0 <= i32::MAX,
    ensures
        r == Content::Num((left->Num_0 + right->Num_0) as i32),
{
    let l: i32 = match left {
        Content::Num(num) => num,
        Content::Add => 0,
    };
    let r: i32 = match right {
        Content::Num(num) => num,
        Content::Add => 0,
    };
    Content::Num(l + r)
}

/// Evaluates any tree: the value where it has one, else `None`.
pub fn evaluate(e: &Expr) -> (r: Option<Content>)
    ensures
        r == value_of(*e),
    decreases e,
{
    match e {
        Expr::AriOp(_) => Some(Content::Add),
        Expr::Num(n) => Some(Content::Num(*n)),
        Expr::Node(l, o, r) => {
            let a = evaluate(l);
            let f = evaluate(o);
            let b = evaluate(r);
            match (a, f, b) {
                (Some(Content::Num(x)), Some(Content::Add), Some(Content::Num(y))) => {
                    let sum: i64 = x as i64 + y as i64;
                    if sum < i32::MIN as i64 || sum > i32::MAX as i64 {
                        None
                    } else {
                        Some(Content::Num(sum as i32))
                    }
                },
                _ => None,
            }
        },
        _ => None,
    }
}

/// A logical operator token.
pub open spec fn sp_binop(s: Seq<char>, p: int) -> Option<(int, Expr)> {
    first_of(
        token_as(s, p, seq!['&', '&'], Expr::LogOp(LogOp::And)),
        first_of(
            token_as(s, p, seq!['|', '|'], Expr::LogOp(LogOp::Or)),
            first_of(
                token_as(s, p, seq!['<', '<'], Expr::LogOp(LogOp::Les)),
                token_as(s, p, seq!['>', '>'], Expr::LogOp(LogOp::Gre)),
            ),
        ),
    )
}

pub open spec fn sp_bool(s: Seq<char>, p: int) -> Option<(int, Expr)> {
    first_of(
        token_as(s, p, seq!['t', 'r', 'u', 'e'], Expr::Bool(Bool::True)),
        token_as(s, p, seq!['f', 'a', 'l', 's', 'e'], Expr::Bool(Bool::False)),
    )
}

/// An arithmetic operator token.
pub open spec fn sp_op(s: Seq<char>, p: int) -> Option<(int, Expr)> {
    first_of(
        token_as(s, p, seq!['+'], Expr::AriOp(AriOp::Add)),
        first_of(
            token_as(s, p, seq!['-'], Expr::AriOp(AriOp::Sub)),
            first_of(
                token_as(s, p, seq!['*'], Expr::AriOp(AriOp::Mult)),
                token_as(s, p, seq!['/'], Expr::AriOp(AriOp::Div)),
            ),
        ),
    )
}

/// A decimal literal that fits in an `i32`.
pub open spec fn sp_i32(s: Seq<char>, p: int) -> Option<(int, Expr)> {
    match sp_int(s, p) {
        Some((q, Ast::Int(n))) => Some((q, Expr::Num(n))),
        _ => None,
    }
}

/// A right-nested chain of terms and operators, or a bare term.
pub open spec fn sp_expr(s: Seq<char>, p: int) -> Option<(int, Expr)>
    decreases s.len() - p, 1int,
{
    let a = ws_end(s, p);
    if p <= a <= s.len() {
        let left = first_of(sp_paren(s, a), first_of(sp_i32(s, a), sp_bool(s, a)));
        let chain = match left {
            Some((q1, l)) => match first_of(sp_op(s, q1), sp_binop(s, q1)) {
                Some((q2, o)) => if ahead(s, p, q2) {
                    match sp_expr(s, q2) {
                        Some((q3, r)) => Some(
                            (q3, Expr::Node(Box::new(l), Box::new(o), Box::new(r))),
                        ),
                        None => None,
                    }
                } else {
                    None
                },
                None => None,
            },
            None => None,
        };
        match first_of(
            chain,
            first_of(sp_bool(s, a), first_of(sp_i32(s, a), sp_paren(s, a))),
        ) {
            Some((q, e)) => Some((ws_end(s, q), e)),
            None => None,
        }
    } else {
        None
    }
}

/// `(` chain `)`.
pub open spec fn sp_paren(s: Seq<char>, p: int) -> Option<(int, Expr)>
    decreases s.len() - p, 0int,
{
    let a = ws_end(s, p);
    if has_open(s, a) && ahead(s, p, a + 1) {
        match sp_expr(s, a + 1) {
            Some((c, e)) => if c < s.len() && s[c] == ')' { Some((ws_end(s, c + 1), e)) } else { None },
            None => None,
        }
    } else {
        None
    }
}

pub open spec fn has_open(s: Seq<char>, a: int) -> bool {
    0 <= a < s.len() && s[a] == '('
}

/// An exec result `r` is the rule's result `m`, with its end within `p..=n`.
pub open spec fn same(r: Option<(usize, Expr)>, m: Option<(int, Expr)>, p: int, n: int) -> bool {
    match r {
        Some((q, e)) => m == Some((q as int, e)) && p <= q <= n,
        None => m is None,
    }
}

fn tok(src: &Source, p: usize, t: &Vec<char>, e: Expr) -> (r: Option<(usize, Expr)>)
    requires
        p <= src@.len(),
    ensures
        same(r, token_as(src@, p as int, t@, e), p as int, src@.len() as int),
        r matches Some((q, _)) ==> p + t@.len() <= q,
{
    match token(src, p, t) {
        Some(q) => Some((q, e)),
        None => None,
    }
}

fn parse_binop(src: &Source, p: usize) -> (r: Option<(usize, Expr)>)
    requires
        p <= src@.len(),
    ensures
        same(r, sp_binop(src@, p as int), p as int, src@.len() as int),
        r matches Some((q, _)) ==> p < q,
{
    let r = tok(src, p, &tag2('&', '&'), Expr::LogOp(LogOp::And));
    if r.is_some() {
        return r;
    }
    let r = tok(src, p, &tag2('|', '|'), Expr::LogOp(LogOp::Or));
    if r.is_some() {
        return r;
    }
    let r = tok(src, p, &tag2('<', '<'), Expr::LogOp(LogOp::Les));
    if r.is_some() {
        return r;
    }
    tok(src, p, &tag2('>', '>'), Expr::LogOp(LogOp::Gre))
}

fn parse_bool(src: &Source, p: usize) -> (r: Option<(usize, Expr)>)
    requires
        p <= src@.len(),
    ensures
        same(r, sp_bool(src@, p as int), p as int, src@.len() as int),
{
    let r = tok(src, p, &tag4('t', 'r', 'u', 'e'), Expr::Bool(Bool::True));
    if r.is_some() {
        return r;
    }
    tok(src, p, &tag5('f', 'a', 'l', 's', 'e'), Expr::Bool(Bool::False))
}

fn parse_op(src: &Source, p: usize) -> (r: Option<(usize, Expr)>)
    requires
        p <= src@.len(),
    ensures
        same(r, sp_op(src@, p as int), p as int, src@.len() as int),
        r matches Some((q, _)) ==> p < q,
{
    let r = tok(src, p, &tag1('+'), Expr::AriOp(AriOp::Add));
    if r.is_some() {
        return r;
    }
    let r = tok(src, p, &tag1('-'), Expr::AriOp(AriOp::Sub));
    if r.is_some() {
        return r;
    }
    let r = tok(src, p, &tag1('*'), Expr::AriOp(AriOp::Mult));
    if r.is_some() {
        return r;
    }
    tok(src, p, &tag1('/'), Expr::AriOp(AriOp::Div))
}

fn parse_i32(src: &Source, p: usize) -> (r: Option<(usize, Expr)>)
    requires
        p <= src@.len(),
    ensures
        same(r, sp_i32(src@, p as int), p as int, src@.len() as int),
{
    match p_int(src, p) {
        Some((q, crate::ast::Expr::Int(n))) => Some((q, Expr::Num(n))),
        _ => None,
    }
}

fn parse_chain(src: &Source, p: usize) -> (r: Option<(usize, Expr)>)
    requires
        src.wf(),
        p <= src@.len(),
    ensures
        same(r, sp_expr(src@, p as int), p as int, src@.len() as int),
    decreases src@.len() - p, 1int,
{
    let a = skip_ws(src, p);
    let mut left = parse_group(src, a);
    if left.is_none() {
        left = parse_i32(src, a);
    }
    if left.is_none() {
        left = parse_bool(src, a);
    }
    let mut r: Option<(usize, Expr)> = None;
    if let Some((q1, l)) = left {
        let mut op = parse_op(src, q1);
        if op.is_none() {
            op = parse_binop(src, q1);
        }
        if let Some((q2, o)) = op {
            if let Some((q3, rt)) = parse_chain(src, q2) {
                r = Some((q3, Expr::Node(Box::new(l), Box::new(o), Box::new(rt))));
            }
        }
    }
    if r.is_none() {
        r = parse_bool(src, a);
    }
    if r.is_none() {
        r = parse_i32(src, a);
    }
    if r.is_none() {
        r = parse_group(src, a);
    }
    match r {
        Some((q, e)) => Some((skip_ws(src, q), e)),
        None => None,
    }
}

fn parse_group(src: &Source, p: usize) -> (r: Option<(usize, Expr)>)
    requires
        src.wf(),
        p <= src@.len(),
    ensures
        same(r, sp_paren(src@, p as int), p as int, src@.len() as int),
    decreases src@.len() - p, 0int,
{
    let n = src.len();
    let a = skip_ws(src, p);
    if a < n && src.chars[a] == '(' {
        if let Some((c, e)) = parse_chain(src, a + 1) {
            if c < n && src.chars[c] == ')' {
                return Some((skip_ws(src, c + 1), e));
            }
        }
    }
    None
}

/// A calculator expression: a right-nested chain of terms and operators.
pub fn parse_expr(input: &str) -> (r: Result<(&str, Expr), ParseError>)
    ensures
        match r {
            Ok((rest, e)) => sp_expr(input@, 0) == Some((input@.len() - rest@.len(), e)) && rest@
                == input@.subrange(input@.len() - rest@.len(), input@.len() as int),
            Err(err) => sp_expr(input@, 0) is None && err.pos == 0,
        },
{
    let src = Source::new(input);
    finish(&src, parse_chain(&src, 0))
}

/// A parenthesised calculator expression.
pub fn parse_paren(input: &str) -> (r: Result<(&str, Expr), ParseError>)
    ensures
        match r {
            Ok((rest, e)) => sp_paren(input@, 0) == Some((input@.len() - rest@.len(), e)) && rest@
                == input@.subrange(input@.len() - rest@.len(), input@.len() as int),
            Err(err) => sp_paren(input@, 0) is None && err.pos == 0,
        },
{
    let src = Source::new(input);
    finish(&src, parse_group(&src, 0))
}

} // verus!
