//! The grammar of the language as spec functions over the input characters.
//!
//! Each rule takes the input `s` and a start position `p`, and gives the end
//! position and the model of what was read, or `None` where the rule does not
//! match there. Alternatives are ordered: the first that matches wins, and a
//! rule that fails after its first alternative matched does not go back into
//! that alternative.
use vstd::prelude::*;
use crate::ast::{Ast, AriOp, AssOp, LogOp, Op, RelOp, Type};

verus! {

/// Ordered choice: `a` where it matched, else `b`.
pub open spec fn first_of<T>(a: Option<T>, b: Option<T>) -> Option<T> {
    if a is Some { a } else { b }
}

/// The position `q` lies after `p` and within the input: a rule may be read again there.
pub open spec fn ahead(s: Seq<char>, p: int, q: int) -> bool {
    p < q <= s.len()
}

pub open spec fn is_space(c: char) -> bool {
    c == ' ' || c == '\t' || c == '\r' || c == '\n'
}

pub open spec fn is_digit(c: char) -> bool {
    '0' <= c && c <= '9'
}

pub open spec fn is_alnum(c: char) -> bool {
    is_digit(c) || ('a' <= c && c <= 'z') || ('A' <= c && c <= 'Z')
}

/// The first position at or after `p` that holds no whitespace.
pub open spec fn ws_end(s: Seq<char>, p: int) -> int
    decreases s.len() - p,
{
    if 0 <= p < s.len() && is_space(s[p]) { ws_end(s, p + 1) } else { p }
}

/// The first position at or after `p` that holds no decimal digit.
pub open spec fn digits_end(s: Seq<char>, p: int) -> int
    decreases s.len() - p,
{
    if 0 <= p < s.len() && is_digit(s[p]) { digits_end(s, p + 1) } else { p }
}

/// The first position at or after `p` that holds no ASCII letter or digit.
pub open spec fn alnum_end(s: Seq<char>, p: int) -> int
    decreases s.len() - p,
{
    if 0 <= p < s.len() && is_alnum(s[p]) { alnum_end(s, p + 1) } else { p }
}

pub open spec fn digit_value(c: char) -> int {
    (c as u32) as int - ('0' as u32) as int
}

/// The number written in decimal by the digits from `a` up to `b`.
pub open spec fn digits_value(s: Seq<char>, a: int, b: int) -> int
    decreases b - a,
{
    if b <= a { 0 } else { digits_value(s, a, b - 1) * 10 + digit_value(s[b - 1]) }
}

/// The text `t` stands in `s` at position `p`.
pub open spec fn has_tag(s: Seq<char>, p: int, t: Seq<char>) -> bool {
    0 <= p && p + t.len() <= s.len() && s.subrange(p, p + t.len()) == t
}

/// Whitespace, then the text `t`, then whitespace: the end position.
pub open spec fn token(s: Seq<char>, p: int, t: Seq<char>) -> Option<int> {
    let a = ws_end(s, p);
    if has_tag(s, a, t) { Some(ws_end(s, a + t.len())) } else { None }
}

/// A token that stands for the value `v`.
pub open spec fn token_as<T>(s: Seq<char>, p: int, t: Seq<char>, v: T) -> Option<(int, T)> {
    match token(s, p, t) {
        Some(q) => Some((q, v)),
        None => None,
    }
}

/// An unsigned decimal literal that fits in an `i32`.
pub open spec fn sp_int(s: Seq<char>, p: int) -> Option<(int, Ast)> {
    let a = ws_end(s, p);
    let b = digits_end(s, a);
    if a < b && digits_value(s, a, b) <= i32::MAX {
        Some((ws_end(s, b), Ast::Int(digits_value(s, a, b) as i32)))
    } else {
        None
    }
}

pub open spec fn sp_bool(s: Seq<char>, p: int) -> Option<(int, Ast)> {
    first_of(
        token_as(s, p, seq!['t', 'r', 'u', 'e'], Ast::Bool(true)),
        token_as(s, p, seq!['f', 'a', 'l', 's', 'e'], Ast::Bool(false)),
    )
}

/// An identifier: a possibly empty run of ASCII letters and digits.
pub open spec fn sp_var(s: Seq<char>, p: int) -> Option<(int, Ast)> {
    let a = ws_end(s, p);
    let b = alnum_end(s, a);
    Some((ws_end(s, b), Ast::Var(s.subrange(a, b))))
}

pub open spec fn sp_type(s: Seq<char>, p: int) -> Option<(int, Type)> {
    first_of(
        token_as(s, p, seq!['i', '3', '2'], Type::Int),
        first_of(
            token_as(s, p, seq!['b', 'o', 'o', 'l'], Type::Bool),
            token_as(s, p, seq!['(', ')'], Type::Void),
        ),
    )
}

pub open spec fn sp_ari_op(s: Seq<char>, p: int) -> Option<(int, Op)> {
    first_of(
        token_as(s, p, seq!['+'], Op::AriOp(AriOp::Add)),
        first_of(
            token_as(s, p, seq!['-'], Op::AriOp(AriOp::Sub)),
            first_of(
                token_as(s, p, seq!['*'], Op::AriOp(AriOp::Mul)),
                token_as(s, p, seq!['/'], Op::AriOp(AriOp::Div)),
            ),
        ),
    )
}

pub open spec fn sp_ass_op(s: Seq<char>, p: int) -> Option<(int, Op)> {
    first_of(
        token_as(s, p, seq!['='], Op::AssOp(AssOp::Eq)),
        first_of(
            token_as(s, p, seq!['+', '='], Op::AssOp(AssOp::AddEq)),
            first_of(
                token_as(s, p, seq!['-', '='], Op::AssOp(AssOp::SubEq)),
                first_of(
                    token_as(s, p, seq!['/', '='], Op::AssOp(AssOp::DivEq)),
                    token_as(s, p, seq!['*', '='], Op::AssOp(AssOp::MulEq)),
                ),
            ),
        ),
    )
}

pub open spec fn sp_log_op(s: Seq<char>, p: int) -> Option<(int, Op)> {
    first_of(
        token_as(s, p, seq!['&', '&'], Op::LogOp(LogOp::And)),
        token_as(s, p, seq!['|', '|'], Op::LogOp(LogOp::Or)),
    )
}

pub open spec fn sp_rel_op(s: Seq<char>, p: int) -> Option<(int, Op)> {
    first_of(
        token_as(s, p, seq!['=', '='], Op::RelOp(RelOp::Eq)),
        first_of(
            token_as(s, p, seq!['!', '='], Op::RelOp(RelOp::Neq)),
            first_of(
                token_as(s, p, seq!['<', '='], Op::RelOp(RelOp::Leq)),
                first_of(
                    token_as(s, p, seq!['>', '='], Op::RelOp(RelOp::Geq)),
                    first_of(
                        token_as(s, p, seq!['<'], Op::RelOp(RelOp::Les)),
                        token_as(s, p, seq!['>'], Op::RelOp(RelOp::Gre)),
                    ),
                ),
            ),
        ),
    )
}

/// Any operator; the families are tried relational, logical, assignment, arithmetic.
pub open spec fn sp_op(s: Seq<char>, p: int) -> Option<(int, Op)> {
    let a = ws_end(s, p);
    match first_of(
        sp_rel_op(s, a),
        first_of(sp_log_op(s, a), first_of(sp_ass_op(s, a), sp_ari_op(s, a))),
    ) {
        Some((q, o)) => Some((ws_end(s, q), o)),
        None => None,
    }
}

/// A typed parameter `name: type`.
pub open spec fn sp_param(s: Seq<char>, p: int) -> Option<(int, (Ast, Type))> {
    match sp_var(s, p) {
        Some((q, v)) => if has_tag(s, q, seq![':']) {
            match sp_type(s, q + 1) {
                Some((r, t)) => Some((r, (v, t))),
                None => None,
            }
        } else {
            None
        },
        None => None,
    }
}

/// Parameters, each with or without a leading comma, as many as match.
pub open spec fn sp_param_items(s: Seq<char>, p: int) -> Option<(int, Seq<(Ast, Type)>)>
    decreases s.len() - p,
{
    let item = first_of(
        sp_param(s, p),
        if has_tag(s, p, seq![',']) { sp_param(s, p + 1) } else { None },
    );
    match item {
        None => Some((p, Seq::empty())),
        Some((q, x)) => if ahead(s, p, q) {
            match sp_param_items(s, q) {
                Some((r, rest)) => Some((r, seq![x] + rest)),
                None => None,
            }
        } else {
            None
        },
    }
}

/// A parenthesised parameter list.
pub open spec fn sp_params(s: Seq<char>, p: int) -> Option<(int, Seq<(Ast, Type)>)> {
    let a = ws_end(s, p);
    if has_tag(s, a, seq!['(']) {
        match sp_param_items(s, a + 1) {
            Some((c, v)) => if has_tag(s, c, seq![')']) { Some((ws_end(s, c + 1), v)) } else { None },
            None => None,
        }
    } else {
        None
    }
}

/// A binary chain whose left operand is a primary term; else a bare primary term.
pub open spec fn sp_bin_expr(s: Seq<char>, p: int) -> Option<(int, Ast)>
    decreases s.len() - p, 2int,
{
    let left = first_of(
        sp_bool(s, p),
        first_of(
            sp_int(s, p),
            first_of(sp_paren(s, p), first_of(sp_fn_call(s, p), sp_var(s, p))),
        ),
    );
    let chain = match left {
        Some((q1, l)) => if p <= q1 <= s.len() {
            match sp_op(s, q1) {
                Some((q2, o)) => if ahead(s, p, q2) {
                    match sp_bin_expr(s, q2) {
                        Some((q3, r)) => Some((q3, Ast::BinExpr(Box::new(l), o, Box::new(r)))),
                        None => None,
                    }
                } else {
                    None
                },
                None => None,
            }
        } else {
            None
        },
        None => None,
    };
    first_of(
        chain,
        first_of(
            sp_bool(s, p),
            first_of(sp_int(s, p), first_of(sp_paren(s, p), sp_fn_call(s, p))),
        ),
    )
}

/// `(` expression `)`.
pub open spec fn sp_paren(s: Seq<char>, p: int) -> Option<(int, Ast)>
    decreases s.len() - p, 0int,
{
    let a = ws_end(s, p);
    if has_tag(s, a, seq!['(']) && ahead(s, p, a + 1) {
        let inner = first_of(
            sp_bin_expr(s, a + 1),
            first_of(sp_var_expr(s, a + 1), sp_var(s, a + 1)),
        );
        match inner {
            Some((c, e)) => if has_tag(s, c, seq![')']) { Some((ws_end(s, c + 1), e)) } else { None },
            None => None,
        }
    } else {
        None
    }
}

/// An identifier followed by an argument list.
pub open spec fn sp_fn_call(s: Seq<char>, p: int) -> Option<(int, Ast)>
    decreases s.len() - p, 1int,
{
    match sp_var(s, p) {
        Some((q, n)) => if p <= q <= s.len() {
            match sp_args(s, q) {
                Some((r, a)) => Some((r, Ast::FnCall(Box::new(n), a))),
                None => None,
            }
        } else {
            None
        },
        None => None,
    }
}

/// A parenthesised argument list.
pub open spec fn sp_args(s: Seq<char>, p: int) -> Option<(int, Seq<Ast>)>
    decreases s.len() - p, 0int,
{
    let a = ws_end(s, p);
    if has_tag(s, a, seq!['(']) && ahead(s, p, a + 1) {
        match sp_arg_items(s, a + 1) {
            Some((c, v)) => if has_tag(s, c, seq![')']) { Some((ws_end(s, c + 1), v)) } else { None },
            None => None,
        }
    } else {
        None
    }
}

/// One argument, with trailing whitespace.
pub open spec fn sp_arg(s: Seq<char>, p: int) -> Option<(int, Ast)>
    decreases s.len() - p, 3int,
{
    match sp_bin_expr(s, p) {
        Some((q, e)) => Some((ws_end(s, q), e)),
        None => None,
    }
}

/// Arguments, each with or without a leading comma, as many as match.
pub open spec fn sp_arg_items(s: Seq<char>, p: int) -> Option<(int, Seq<Ast>)>
    decreases s.len() - p, 4int,
{
    let item = first_of(
        sp_arg(s, p),
        if has_tag(s, p, seq![',']) && ahead(s, p, p + 1) { sp_arg(s, p + 1) } else { None },
    );
    match item {
        None => Some((p, Seq::empty())),
        Some((q, x)) => if ahead(s, p, q) {
            match sp_arg_items(s, q) {
                Some((r, rest)) => Some((r, seq![x] + rest)),
                None => None,
            }
        } else {
            None
        },
    }
}

/// A binary chain whose left operand is a literal or an identifier.
pub open spec fn sp_var_expr(s: Seq<char>, p: int) -> Option<(int, Ast)>
    decreases s.len() - p, 0int,
{
    match first_of(sp_int(s, p), first_of(sp_bool(s, p), sp_var(s, p))) {
        Some((q1, l)) => match sp_op(s, q1) {
            Some((q2, o)) => if ahead(s, p, q2) {
                match first_of(sp_bin_expr(s, q2), sp_var(s, q2)) {
                    Some((q3, r)) => Some((q3, Ast::VarExpr(Box::new(l), o, Box::new(r)))),
                    None => None,
                }
            } else {
                None
            },
            None => None,
        },
        None => None,
    }
}

/// `return` and a value.
pub open spec fn sp_return(s: Seq<char>, p: int) -> Option<(int, Ast)>
    decreases s.len() - p, 0int,
{
    let a = ws_end(s, p);
    let b = a + 6;
    if has_tag(s, a, seq!['r', 'e', 't', 'u', 'r', 'n']) && ahead(s, p, b) {
        let v = first_of(
            sp_paren(s, b),
            first_of(sp_bin_expr(s, b), first_of(sp_var_expr(s, b), sp_var(s, b))),
        );
        match v {
            Some((c, e)) => Some((ws_end(s, c), Ast::Return(Box::new(e)))),
            None => None,
        }
    } else {
        None
    }
}

/// The value of a `let`: a binary chain, or `=` and a restricted right-hand side.
pub open spec fn sp_let_value(s: Seq<char>, p: int) -> Option<(int, Ast)>
    decreases s.len() - p, 1int,
{
    let e = ws_end(s, p);
    let f = ws_end(s, e + 1);
    first_of(
        sp_bin_expr(s, p),
        if has_tag(s, e, seq!['=']) && ahead(s, p, f) {
            first_of(sp_var_expr(s, f), sp_var(s, f))
        } else {
            None
        },
    )
}

/// `let name: type` and a value.
pub open spec fn sp_let(s: Seq<char>, p: int) -> Option<(int, Ast)>
    decreases s.len() - p, 0int,
{
    match token(s, p, seq!['l', 'e', 't']) {
        Some(b) => match sp_var(s, b) {
            Some((c, n)) => if has_tag(s, c, seq![':']) {
                match sp_type(s, c + 1) {
                    Some((d, t)) => if ahead(s, p, d) {
                        match sp_let_value(s, d) {
                            Some((g, v)) => Some((g, Ast::Let(Box::new(n), t, Box::new(v)))),
                            None => None,
                        }
                    } else {
                        None
                    },
                    None => None,
                }
            } else {
                None
            },
            None => None,
        },
        None => None,
    }
}

/// The condition of an `if` or a `while`: a binary chain over a literal or an
/// identifier, else a boolean, else an identifier.
pub open spec fn sp_if_cond(s: Seq<char>, p: int) -> Option<(int, Ast)>
    decreases s.len() - p, 1int,
{
    first_of(sp_var_expr(s, p), first_of(sp_bool(s, p), sp_var(s, p)))
}

/// `if`, a condition and a block.
pub open spec fn sp_if(s: Seq<char>, p: int) -> Option<(int, Ast)>
    decreases s.len() - p, 0int,
{
    match token(s, p, seq!['i', 'f']) {
        Some(b) => if ahead(s, p, b) {
            match sp_if_cond(s, b) {
                Some((c, e)) => if ahead(s, p, c) {
                    match sp_block(s, c) {
                        Some((d, body)) => Some((d, Ast::If(Box::new(e), body))),
                        None => None,
                    }
                } else {
                    None
                },
                None => None,
            }
        } else {
            None
        },
        None => None,
    }
}

/// `if`, a condition, a block, `else` and a block.
pub open spec fn sp_if_else(s: Seq<char>, p: int) -> Option<(int, Ast)>
    decreases s.len() - p, 0int,
{
    match token(s, p, seq!['i', 'f']) {
        Some(b) => if ahead(s, p, b) {
            match sp_if_cond(s, b) {
                Some((c, e)) => if ahead(s, p, c) {
                    match sp_block(s, c) {
                        Some((d, body1)) => match token(s, d, seq!['e', 'l', 's', 'e']) {
                            Some(f) => if ahead(s, p, f) {
                                match sp_block(s, f) {
                                    Some((g, body2)) => Some(
                                        (g, Ast::IfElse(Box::new(e), body1, body2)),
                                    ),
                                    None => None,
                                }
                            } else {
                                None
                            },
                            None => None,
                        },
                        None => None,
                    }
                } else {
                    None
                },
                None => None,
            }
        } else {
            None
        },
        None => None,
    }
}

/// `while`, a condition and a block.
pub open spec fn sp_while(s: Seq<char>, p: int) -> Option<(int, Ast)>
    decreases s.len() - p, 0int,
{
    match token(s, p, seq!['w', 'h', 'i', 'l', 'e']) {
        Some(b) => if ahead(s, p, b) {
            match sp_if_cond(s, b) {
                Some((c, e)) => if ahead(s, p, c) {
                    match sp_block(s, c) {
                        Some((d, body)) => Some((d, Ast::While(Box::new(e), body))),
                        None => None,
                    }
                } else {
                    None
                },
                None => None,
            }
        } else {
            None
        },
        None => None,
    }
}

/// `fn name(params) -> type` and a block.
pub open spec fn sp_fn(s: Seq<char>, p: int) -> Option<(int, Ast)>
    decreases s.len() - p, 0int,
{
    match token(s, p, seq!['f', 'n']) {
        Some(b) => match sp_var(s, b) {
            Some((c, n)) => match sp_params(s, c) {
                Some((d, ps)) => match token(s, d, seq!['-', '>']) {
                    Some(e) => match sp_type(s, e) {
                        Some((f, t)) => if ahead(s, p, f) {
                            match sp_block(s, f) {
                                Some((g, body)) => Some((g, Ast::Fn(Box::new(n), ps, t, body))),
                                None => None,
                            }
                        } else {
                            None
                        },
                        None => None,
                    },
                    None => None,
                },
                None => None,
            },
            None => None,
        },
        None => None,
    }
}

/// `{` statements `}`, or `{` a block `}`.
pub open spec fn sp_block(s: Seq<char>, p: int) -> Option<(int, Seq<Ast>)>
    decreases s.len() - p, 0int,
{
    let a = ws_end(s, p);
    if has_tag(s, a, seq!['{']) && ahead(s, p, a + 1) {
        let flat = match sp_block_items(s, a + 1) {
            Some((c, v)) => if has_tag(s, ws_end(s, c), seq!['}']) {
                Some((ws_end(s, c) + 1, v))
            } else {
                None
            },
            None => None,
        };
        let nested = match sp_block(s, a + 1) {
            Some((c, v)) => if has_tag(s, ws_end(s, c), seq!['}']) {
                Some((ws_end(s, c) + 1, v))
            } else {
                None
            },
            None => None,
        };
        first_of(flat, nested)
    } else {
        None
    }
}

/// One statement of a block: a statement and `;`, or a `return` without it.
pub open spec fn sp_block_item(s: Seq<char>, p: int) -> Option<(int, Ast)>
    decreases s.len() - p, 2int,
{
    let stmt = match sp_scope(s, p) {
        Some((q, e)) => if has_tag(s, q, seq![';']) { Some((q + 1, e)) } else { None },
        None => None,
    };
    first_of(stmt, sp_return(s, p))
}

/// Statements of a block, as many as match.
pub open spec fn sp_block_items(s: Seq<char>, p: int) -> Option<(int, Seq<Ast>)>
    decreases s.len() - p, 3int,
{
    match sp_block_item(s, p) {
        None => Some((p, Seq::empty())),
        Some((q, x)) => if ahead(s, p, q) {
            match sp_block_items(s, q) {
                Some((r, rest)) => Some((r, seq![x] + rest)),
                None => None,
            }
        } else {
            None
        },
    }
}

/// One statement, in the order `return`, `let`, `if`-`else`, `if`, `while`,
/// a bare binary chain, `fn`.
pub open spec fn sp_scope(s: Seq<char>, p: int) -> Option<(int, Ast)>
    decreases s.len() - p, 1int,
{
    let a = ws_end(s, p);
    if p <= a <= s.len() {
        let r = first_of(
            sp_return(s, a),
            first_of(
                sp_let(s, a),
                first_of(
                    sp_if_else(s, a),
                    first_of(
                        sp_if(s, a),
                        first_of(sp_while(s, a), first_of(sp_var_expr(s, a), sp_fn(s, a))),
                    ),
                ),
            ),
        );
        match r {
            Some((q, e)) => Some((ws_end(s, q), e)),
            None => None,
        }
    } else {
        None
    }
}

/// Top-level statements, as many as match.
pub open spec fn sp_program_items(s: Seq<char>, p: int) -> Option<(int, Seq<Ast>)>
    decreases s.len() - p,
{
    match sp_scope(s, p) {
        None => Some((p, Seq::empty())),
        Some((q, x)) => if ahead(s, p, q) {
            match sp_program_items(s, q) {
                Some((r, rest)) => Some((r, seq![x] + rest)),
                None => None,
            }
        } else {
            None
        },
    }
}

/// A whole program: top-level statements, then nothing but whitespace.
pub open spec fn sp_program(s: Seq<char>) -> Option<Seq<Ast>> {
    match sp_program_items(s, 0) {
        Some((q, v)) => if ws_end(s, q) == s.len() { Some(v) } else { None },
        None => None,
    }
}

/// Where the top-level statements stop.
pub open spec fn sp_program_stop(s: Seq<char>) -> int {
    match sp_program_items(s, 0) {
        Some((q, _)) => q,
        None => 0,
    }
}

/// The value of a run of digits is never negative and grows as the run does.
pub proof fn lemma_digits_value_grows(s: Seq<char>, a: int, i: int, j: int)
    requires
        a <= i <= j <= s.len(),
        forall|k: int| a <= k < j ==> is_digit(#[trigger] s[k]),
    ensures
        0 <= digits_value(s, a, i) <= digits_value(s, a, j),
    decreases j - a,
{
    if j > a {
        let c = s[j - 1];
        assert(is_digit(c));
        assert(c as u32 >= '0' as u32);
        if i < j {
            lemma_digits_value_grows(s, a, i, j - 1);
        } else {
            lemma_digits_value_grows(s, a, j - 1, j - 1);
        }
    }
}

} // verus!
