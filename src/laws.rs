//! Laws of the grammar, proved over its spec functions.
use vstd::prelude::*;
use crate::ast::{Ast, Op, RelOp};
use crate::grammar::{
    alnum_end, digit_value, digits_end, digits_value, first_of, has_tag, is_digit, is_space,
    sp_ari_op, sp_ass_op, sp_bin_expr, sp_block, sp_block_item, sp_block_items, sp_bool, sp_fn,
    sp_if, sp_if_else, sp_int, sp_let, sp_log_op, sp_op, sp_rel_op, sp_return, sp_scope,
    sp_var_expr, sp_while, token, ws_end,
};

verus! {

/// The character of a decimal digit.
pub open spec fn digit_char(d: int) -> char {
    if d == 0 { '0' }
    else if d == 1 { '1' }
    else if d == 2 { '2' }
    else if d == 3 { '3' }
    else if d == 4 { '4' }
    else if d == 5 { '5' }
    else if d == 6 { '6' }
    else if d == 7 { '7' }
    else if d == 8 { '8' }
    else { '9' }
}

/// The decimal text of a natural number, without leading zeros.
pub open spec fn decimal(n: nat) -> Seq<char>
    decreases n,
{
    if n < 10 {
        seq![digit_char(n as int)]
    } else {
        decimal(n / 10).push(digit_char((n % 10) as int))
    }
}

/// Every character of `w` is whitespace.
pub open spec fn blank(w: Seq<char>) -> bool {
    forall|k: int| 0 <= k < w.len() ==> is_space(#[trigger] w[k])
}

proof fn lemma_digit_char(d: int)
    requires
        0 <= d < 10,
    ensures
        is_digit(digit_char(d)),
        !is_space(digit_char(d)),
        digit_value(digit_char(d)) == d,
{
}

proof fn lemma_decimal(n: nat)
    ensures
        decimal(n).len() >= 1,
        forall|k: int| 0 <= k < decimal(n).len() ==> is_digit(#[trigger] decimal(n)[k]),
        digits_value(decimal(n), 0, decimal(n).len() as int) == n,
    decreases n,
{
    if n < 10 {
        lemma_digit_char(n as int);
        let s = decimal(n);
        assert(digits_value(s, 0, 0) == 0);
        assert(digits_value(s, 0, 1) == digits_value(s, 0, 0) * 10 + digit_value(s[0]));
    } else {
        let s = decimal(n);
        let t = decimal(n / 10);
        lemma_decimal(n / 10);
        lemma_digit_char((n % 10) as int);
        assert forall|i: int| 0 <= i < t.len() implies #[trigger] s[0 + i] == t[0 + i] by {}
        lemma_digits_value_shift(s, 0, t, 0, t.len() as int);
        assert(s[t.len() as int] == digit_char((n % 10) as int));
        assert(n == (n / 10) * 10 + n % 10) by (nonlinear_arith);
        assert(digits_value(s, 0, s.len() as int) == digits_value(s, 0, t.len() as int) * 10
            + digit_value(s[t.len() as int]));
    }
}

/// Digit values read the same on equal stretches of two texts.
proof fn lemma_digits_value_shift(s1: Seq<char>, a1: int, s2: Seq<char>, a2: int, k: int)
    requires
        0 <= k,
        0 <= a1,
        0 <= a2,
        a1 + k <= s1.len(),
        a2 + k <= s2.len(),
        forall|i: int| 0 <= i < k ==> #[trigger] s1[a1 + i] == s2[a2 + i],
    ensures
        digits_value(s1, a1, a1 + k) == digits_value(s2, a2, a2 + k),
    decreases k,
{
    if k > 0 {
        lemma_digits_value_shift(s1, a1, s2, a2, k - 1);
        assert(s1[a1 + (k - 1)] == s2[a2 + (k - 1)]);
    }
}

proof fn lemma_ws_end_run(s: Seq<char>, p: int, q: int)
    requires
        0 <= p <= q <= s.len(),
        forall|k: int| p <= k < q ==> is_space(#[trigger] s[k]),
        q == s.len() || !is_space(s[q]),
    ensures
        ws_end(s, p) == q,
    decreases q - p,
{
    if p < q {
        lemma_ws_end_run(s, p + 1, q);
    }
}

proof fn lemma_digits_end_run(s: Seq<char>, p: int, q: int)
    requires
        0 <= p <= q <= s.len(),
        forall|k: int| p <= k < q ==> is_digit(#[trigger] s[k]),
        q == s.len() || !is_digit(s[q]),
    ensures
        digits_end(s, p) == q,
    decreases q - p,
{
    if p < q {
        lemma_digits_end_run(s, p + 1, q);
    }
}

/// The decimal text of any `i32` at or above zero, with any whitespace around
/// it, reads as that number, to the end of the text.
pub proof fn law_int_literal(n: nat, w1: Seq<char>, w2: Seq<char>)
    requires
        n <= i32::MAX,
        blank(w1),
        blank(w2),
    ensures
        sp_int(w1 + decimal(n) + w2, 0) == Some(
            ((w1 + decimal(n) + w2).len() as int, Ast::Int(n as i32)),
        ),
{
    let d = decimal(n);
    let t = w1 + d + w2;
    let a = w1.len() as int;
    let b = a + d.len();
    lemma_decimal(n);
    assert forall|k: int| 0 <= k < a implies is_space(#[trigger] t[k]) by {
        assert(t[k] == w1[k]);
    }
    assert(t[a] == d[0]);
    lemma_digit_char(0);
    assert(!is_space(t[a]));
    lemma_ws_end_run(t, 0, a);
    assert forall|k: int| a <= k < b implies is_digit(#[trigger] t[k]) by {
        assert(t[k] == d[k - a]);
    }
    if b < t.len() {
        assert(t[b] == w2[0]);
        assert(is_space(w2[0]));
    }
    lemma_digits_end_run(t, a, b);
    assert forall|k: int| b <= k < t.len() implies is_space(#[trigger] t[k]) by {
        assert(t[k] == w2[k - b]);
    }
    lemma_ws_end_run(t, b, t.len() as int);
    assert forall|i: int| 0 <= i < d.len() implies #[trigger] t[a + i] == d[0 + i] by {}
    lemma_digits_value_shift(t, a, d, 0, d.len() as int);
}

/// Skipping whitespace twice skips no more than once.
pub proof fn lemma_ws_end_idempotent(s: Seq<char>, p: int)
    requires
        0 <= p <= s.len(),
    ensures
        p <= ws_end(s, p) <= s.len(),
        ws_end(s, ws_end(s, p)) == ws_end(s, p),
    decreases s.len() - p,
{
    if p < s.len() && is_space(s[p]) {
        lemma_ws_end_idempotent(s, p + 1);
    }
}

/// Where the text at an operator position starts with `==`, the operator read
/// is relational equality, and both characters are consumed: never an
/// assignment followed by a leftover `=`.
pub proof fn law_double_equals_is_relational(s: Seq<char>, p: int)
    requires
        0 <= p <= s.len(),
        has_tag(s, ws_end(s, p), seq!['=', '=']),
    ensures
        sp_op(s, p) == Some((ws_end(s, ws_end(s, p) + 2), Op::RelOp(RelOp::Eq))),
{
    let a = ws_end(s, p);
    lemma_ws_end_idempotent(s, p);
    lemma_ws_end_idempotent(s, a + 2);
}

proof fn lemma_digits_end_bounds(s: Seq<char>, p: int)
    requires
        0 <= p <= s.len(),
    ensures
        p <= digits_end(s, p) <= s.len(),
        digits_end(s, p) > p ==> is_digit(s[p]),
    decreases s.len() - p,
{
    if p < s.len() && is_digit(s[p]) {
        lemma_digits_end_bounds(s, p + 1);
    }
}

/// A token read at `p` ends at or after the end of its text.
proof fn lemma_token_bounds(s: Seq<char>, p: int)
    requires
        0 <= p <= s.len(),
    ensures
        forall|t: Seq<char>| #[trigger] token(s, p, t) is Some ==> p + t.len() <= token(s, p, t)->0
            <= s.len(),
{
    let a = ws_end(s, p);
    lemma_ws_end_idempotent(s, p);
    assert forall|t: Seq<char>| #[trigger] token(s, p, t) is Some implies p + t.len() <= token(
        s,
        p,
        t,
    )->0 <= s.len() by {
        lemma_ws_end_idempotent(s, a + t.len());
    }
}

/// An operator read at `p` ends after `p`.
proof fn lemma_op_advances(s: Seq<char>, p: int, q: int, o: Op)
    requires
        0 <= p <= s.len(),
        sp_op(s, p) == Some((q, o)),
    ensures
        p < q <= s.len(),
{
    let a = ws_end(s, p);
    lemma_ws_end_idempotent(s, p);
    lemma_token_bounds(s, a);
    let inner = first_of(
        sp_rel_op(s, a),
        first_of(sp_log_op(s, a), first_of(sp_ass_op(s, a), sp_ari_op(s, a))),
    );
    match inner {
        Some((qq, _)) => {
            assert(a < qq <= s.len());
            lemma_ws_end_idempotent(s, qq);
        },
        None => {},
    }
}

/// A number, an operator and a binary chain, read one after the other, form
/// one binary chain with the number on the left and the rest nested on the
/// right: chains nest to the right, with no precedence among operators.
pub proof fn law_chain_nests_right(
    s: Seq<char>,
    p: int,
    q1: int,
    n: i32,
    q2: int,
    o: Op,
    q3: int,
    r: Ast,
)
    requires
        0 <= p <= s.len(),
        sp_int(s, p) == Some((q1, Ast::Int(n))),
        sp_op(s, q1) == Some((q2, o)),
        sp_bin_expr(s, q2) == Some((q3, r)),
    ensures
        sp_bin_expr(s, p) == Some((q3, Ast::BinExpr(Box::new(Ast::Int(n)), o, Box::new(r)))),
{
    let a = ws_end(s, p);
    lemma_ws_end_idempotent(s, p);
    lemma_digits_end_bounds(s, a);
    let b = digits_end(s, a);
    lemma_ws_end_idempotent(s, b);
    assert(is_digit(s[a]));
    lemma_token_bounds(s, p);
    assert(sp_bool(s, p) is None) by {
        if has_tag(s, a, seq!['t', 'r', 'u', 'e']) {
            assert(s.subrange(a, a + 4)[0] == 't');
        }
        if has_tag(s, a, seq!['f', 'a', 'l', 's', 'e']) {
            assert(s.subrange(a, a + 5)[0] == 'f');
        }
    }
    lemma_op_advances(s, q1, q2, o);
}

/// No `return` reads where the text holds an `i`.
proof fn lemma_no_return_at_i(s: Seq<char>, a: int)
    requires
        0 <= a < s.len(),
        ws_end(s, a) == a,
        s[a] == 'i',
    ensures
        sp_return(s, a) is None,
{
    if has_tag(s, a, seq!['r', 'e', 't', 'u', 'r', 'n']) {
        assert(s.subrange(a, a + 6)[0] == 'r');
    }
}

/// No `let` reads where the text holds an `i`.
proof fn lemma_no_let_at_i(s: Seq<char>, a: int)
    requires
        0 <= a < s.len(),
        ws_end(s, a) == a,
        s[a] == 'i',
    ensures
        sp_let(s, a) is None,
{
    if has_tag(s, a, seq!['l', 'e', 't']) {
        assert(s.subrange(a, a + 3)[0] == 'l');
    }
    assert(token(s, a, seq!['l', 'e', 't']) is None);
}

/// An `if` with an `else` starts with `i`.
proof fn lemma_if_else_starts_with_i(s: Seq<char>, a: int)
    requires
        0 <= a <= s.len(),
        ws_end(s, a) == a,
        sp_if_else(s, a) is Some,
    ensures
        a < s.len(),
        s[a] == 'i',
{
    assert(token(s, a, seq!['i', 'f']) is Some);
    assert(s.subrange(a, a + 2)[0] == 'i');
}

/// Where an `if` with an `else` reads, a statement reads as that `if`-`else`:
/// the shorter `if` never wins and leaves the `else` behind.
pub proof fn law_if_else_before_if(s: Seq<char>, p: int, q: int, e: Ast)
    requires
        0 <= p <= s.len(),
        sp_if_else(s, ws_end(s, p)) == Some((q, e)),
    ensures
        sp_scope(s, p) == Some((ws_end(s, q), e)),
{
    let a = ws_end(s, p);
    lemma_ws_end_idempotent(s, p);
    lemma_if_else_starts_with_i(s, a);
    lemma_no_return_at_i(s, a);
    lemma_no_let_at_i(s, a);
}

/// A tag that stands at `b` starts with the character there.
proof fn lemma_tag_head(s: Seq<char>, b: int)
    ensures
        forall|t: Seq<char>| #[trigger] has_tag(s, b, t) && t.len() > 0 ==> s[b] == t[0],
{
    assert forall|t: Seq<char>| #[trigger] has_tag(s, b, t) && t.len() > 0 implies s[b] == t[0] by {
        assert(s.subrange(b, b + t.len())[0] == t[0]);
    }
}

/// The character at `b` after whitespace is an opening brace.
pub open spec fn brace_at(s: Seq<char>, b: int) -> bool {
    0 <= b < s.len() && ws_end(s, b) == b && s[b] == '{'
}

proof fn lemma_no_op_at_brace(s: Seq<char>, b: int)
    requires
        brace_at(s, b),
    ensures
        sp_op(s, b) is None,
{
    lemma_tag_head(s, b);
}

proof fn lemma_no_var_expr_at_brace(s: Seq<char>, b: int)
    requires
        brace_at(s, b),
    ensures
        sp_var_expr(s, b) is None,
{
    lemma_tag_head(s, b);
    assert(digits_end(s, b) == b);
    assert(alnum_end(s, b) == b);
    lemma_no_op_at_brace(s, b);
}

/// No token other than one that starts with `{` reads at an opening brace.
proof fn lemma_no_token_at_brace(s: Seq<char>, b: int)
    requires
        brace_at(s, b),
    ensures
        forall|t: Seq<char>| t.len() > 0 && t[0] != '{' ==> #[trigger] token(s, b, t) is None,
        forall|t: Seq<char>| t.len() > 0 && t[0] != '{' ==> !#[trigger] has_tag(s, b, t),
{
    lemma_tag_head(s, b);
}

proof fn lemma_no_return_at_brace(s: Seq<char>, b: int)
    requires
        brace_at(s, b),
    ensures
        sp_return(s, b) is None,
{
    lemma_no_token_at_brace(s, b);
}

proof fn lemma_no_let_at_brace(s: Seq<char>, b: int)
    requires
        brace_at(s, b),
    ensures
        sp_let(s, b) is None,
{
    lemma_no_token_at_brace(s, b);
}

proof fn lemma_no_if_else_at_brace(s: Seq<char>, b: int)
    requires
        brace_at(s, b),
    ensures
        sp_if_else(s, b) is None,
{
    lemma_no_token_at_brace(s, b);
}

proof fn lemma_no_if_at_brace(s: Seq<char>, b: int)
    requires
        brace_at(s, b),
    ensures
        sp_if(s, b) is None,
{
    lemma_no_token_at_brace(s, b);
}

proof fn lemma_no_while_at_brace(s: Seq<char>, b: int)
    requires
        brace_at(s, b),
    ensures
        sp_while(s, b) is None,
{
    lemma_no_token_at_brace(s, b);
}

proof fn lemma_no_fn_at_brace(s: Seq<char>, b: int)
    requires
        brace_at(s, b),
    ensures
        sp_fn(s, b) is None,
{
    lemma_no_token_at_brace(s, b);
}

proof fn lemma_no_keyword_at_brace(s: Seq<char>, b: int)
    requires
        brace_at(s, b),
    ensures
        sp_return(s, b) is None,
        sp_let(s, b) is None,
        sp_if_else(s, b) is None,
        sp_if(s, b) is None,
        sp_while(s, b) is None,
        sp_fn(s, b) is None,
{
    lemma_no_return_at_brace(s, b);
    lemma_no_let_at_brace(s, b);
    lemma_no_if_else_at_brace(s, b);
    lemma_no_if_at_brace(s, b);
    lemma_no_while_at_brace(s, b);
    lemma_no_fn_at_brace(s, b);
}

/// No statement reads where the text holds an opening brace.
proof fn lemma_no_statement_at_brace(s: Seq<char>, x: int)
    requires
        0 <= x <= s.len(),
        brace_at(s, ws_end(s, x)),
    ensures
        sp_scope(s, x) is None,
        sp_return(s, x) is None,
{
    let b = ws_end(s, x);
    lemma_ws_end_idempotent(s, x);
    lemma_no_var_expr_at_brace(s, b);
    lemma_no_keyword_at_brace(s, b);
    if sp_return(s, x) is Some {
        assert(sp_return(s, x) == sp_return(s, b));
    }
}

/// One more pair of braces round a block reads to the same statements: where
/// `{` stands at `p` (after whitespace), a block follows it, and `}` closes
/// that, the whole reads as the inner block's statements.
pub proof fn law_extra_braces(s: Seq<char>, p: int, c: int, v: Seq<Ast>)
    requires
        0 <= p <= s.len(),
        has_tag(s, ws_end(s, p), seq!['{']),
        sp_block(s, ws_end(s, p) + 1) == Some((c, v)),
        has_tag(s, ws_end(s, c), seq!['}']),
    ensures
        sp_block(s, p) == Some((ws_end(s, c) + 1, v)),
{
    let a = ws_end(s, p);
    lemma_ws_end_idempotent(s, p);
    lemma_tag_head(s, a);
    let b = ws_end(s, a + 1);
    lemma_ws_end_idempotent(s, a + 1);
    lemma_tag_head(s, b);
    assert(has_tag(s, b, seq!['{']));
    assert(s[b] == '{');
    lemma_no_statement_at_brace(s, a + 1);
    assert(sp_block_item(s, a + 1) is None);
    assert(sp_block_items(s, a + 1) == Some((a + 1, Seq::<Ast>::empty())));
    assert(!has_tag(s, b, seq!['}']));
}

} // verus!
