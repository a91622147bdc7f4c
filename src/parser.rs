//! The parser: each function reads one rule of [`crate::grammar`] and is
//! proved to give exactly what the rule gives.
use vstd::prelude::*;
use crate::ast::{param_views, views, AriOp, AssOp, Ast, Expr, LogOp, Op, RelOp, Type};
use crate::grammar as g;

verus! {

/// The text under parse, with its characters at hand by index.
pub(crate) struct Source<'a> {
    pub(crate) text: &'a str,
    pub(crate) chars: Vec<char>,
}

impl<'a> Source<'a> {
    pub(crate) open spec fn view(&self) -> Seq<char> {
        self.chars@
    }

    pub(crate) open spec fn wf(&self) -> bool {
        self.chars@ == self.text@
    }

    pub(crate) fn new(text: &'a str) -> (r: Source<'a>)
        ensures
            r.wf(),
            r@ == text@,
    {
        let n = text.unicode_len();
        let mut chars: Vec<char> = Vec::new();
        let mut i: usize = 0;
        while i < n
            invariant
                n == text@.len(),
                i <= n,
                chars@ == text@.subrange(0, i as int),
            decreases n - i,
        {
            chars.push(text.get_char(i));
            i += 1;
        }
        assert(chars@ =~= text@);
        Source { text, chars }
    }

    pub(crate) fn len(&self) -> (r: usize)
        ensures
            r == self@.len(),
    {
        self.chars.len()
    }

    /// The text from `a` up to `b`.
    pub(crate) fn slice(&self, a: usize, b: usize) -> (r: &'a str)
        requires
            self.wf(),
            a <= b <= self@.len(),
        ensures
            r@ == self@.subrange(a as int, b as int),
    {
        self.text.substring_char(a, b)
    }
}

/// An exec result `r` stands for the rule's result `m`.
pub open spec fn agrees(r: Option<(usize, Expr)>, m: Option<(int, Ast)>) -> bool {
    match r {
        Some((q, e)) => m == Some((q as int, e@)),
        None => m is None,
    }
}

pub open spec fn agrees_tag<T>(r: Option<(usize, T)>, m: Option<(int, T)>) -> bool {
    match r {
        Some((q, t)) => m == Some((q as int, t)),
        None => m is None,
    }
}

pub open spec fn agrees_list(r: Option<(usize, Vec<Expr>)>, m: Option<(int, Seq<Ast>)>) -> bool {
    match r {
        Some((q, v)) => m == Some((q as int, views(v@))),
        None => m is None,
    }
}

pub open spec fn agrees_params(
    r: Option<(usize, Vec<(Expr, Type)>)>,
    m: Option<(int, Seq<(Ast, Type)>)>,
) -> bool {
    match r {
        Some((q, v)) => m == Some((q as int, param_views(v@))),
        None => m is None,
    }
}

/// The end position of a result lies between `p` and `n`.
pub open spec fn bounded<T>(r: Option<(usize, T)>, p: int, n: int) -> bool {
    match r {
        Some((q, _)) => p <= q <= n,
        None => true,
    }
}

fn is_space_char(c: char) -> (r: bool)
    ensures
        r == g::is_space(c),
{
    c == ' ' || c == '\t' || c == '\r' || c == '\n'
}

fn is_digit_char(c: char) -> (r: bool)
    ensures
        r == g::is_digit(c),
{
    '0' <= c && c <= '9'
}

fn is_alnum_char(c: char) -> (r: bool)
    ensures
        r == g::is_alnum(c),
{
    ('0' <= c && c <= '9') || ('a' <= c && c <= 'z') || ('A' <= c && c <= 'Z')
}

pub(crate) fn skip_ws(src: &Source, p: usize) -> (r: usize)
    requires
        p <= src@.len(),
    ensures
        r == g::ws_end(src@, p as int),
        p <= r <= src@.len(),
{
    let mut i = p;
    while i < src.chars.len() && is_space_char(src.chars[i])
        invariant
            p <= i <= src@.len(),
            g::ws_end(src@, i as int) == g::ws_end(src@, p as int),
        decreases src@.len() - i,
    {
        i += 1;
    }
    i
}

fn skip_digits(src: &Source, p: usize) -> (r: usize)
    requires
        p <= src@.len(),
    ensures
        r == g::digits_end(src@, p as int),
        p <= r <= src@.len(),
        forall|k: int| p <= k < r ==> g::is_digit(#[trigger] src@[k]),
{
    let mut i = p;
    while i < src.chars.len() && is_digit_char(src.chars[i])
        invariant
            p <= i <= src@.len(),
            g::digits_end(src@, i as int) == g::digits_end(src@, p as int),
            forall|k: int| p <= k < i ==> g::is_digit(#[trigger] src@[k]),
        decreases src@.len() - i,
    {
        i += 1;
    }
    i
}

fn skip_alnum(src: &Source, p: usize) -> (r: usize)
    requires
        p <= src@.len(),
    ensures
        r == g::alnum_end(src@, p as int),
        p <= r <= src@.len(),
{
    let mut i = p;
    while i < src.chars.len() && is_alnum_char(src.chars[i])
        invariant
            p <= i <= src@.len(),
            g::alnum_end(src@, i as int) == g::alnum_end(src@, p as int),
        decreases src@.len() - i,
    {
        i += 1;
    }
    i
}

fn at_tag(src: &Source, p: usize, t: &Vec<char>) -> (r: bool)
    requires
        p <= src@.len(),
    ensures
        r == g::has_tag(src@, p as int, t@),
        r ==> p + t@.len() <= src@.len(),
{
    let n = src.chars.len();
    if t.len() > n - p {
        return false;
    }
    let mut i: usize = 0;
    while i < t.len()
        invariant
            n == src@.len(),
            p + t@.len() <= src@.len(),
            i <= t@.len(),
            forall|k: int| 0 <= k < i ==> src@[p + k] == t@[k],
        decreases t@.len() - i,
    {
        if src.chars[p + i] != t[i] {
            assert(src@.subrange(p as int, p + t@.len())[i as int] != t@[i as int]);
            return false;
        }
        i += 1;
    }
    assert(src@.subrange(p as int, p + t@.len()) =~= t@);
    true
}

pub(crate) fn at_char(src: &Source, p: usize, c: char) -> (r: bool)
    requires
        p <= src@.len(),
    ensures
        r == g::has_tag(src@, p as int, seq![c]),
        r ==> p < src@.len(),
{
    let r = p < src.chars.len() && src.chars[p] == c;
    assert(r ==> src@.subrange(p as int, p + 1) =~= seq![c]);
    assert(g::has_tag(src@, p as int, seq![c]) ==> src@.subrange(p as int, p + 1)[0] == c);
    r
}

pub(crate) fn tag1(a: char) -> (r: Vec<char>)
    ensures
        r@ == seq![a],
{
    let r = vec![a];
    assert(r@ =~= seq![a]);
    r
}

pub(crate) fn tag2(a: char, b: char) -> (r: Vec<char>)
    ensures
        r@ == seq![a, b],
{
    let r = vec![a, b];
    assert(r@ =~= seq![a, b]);
    r
}

fn tag3(a: char, b: char, c: char) -> (r: Vec<char>)
    ensures
        r@ == seq![a, b, c],
{
    let r = vec![a, b, c];
    assert(r@ =~= seq![a, b, c]);
    r
}

pub(crate) fn tag4(a: char, b: char, c: char, d: char) -> (r: Vec<char>)
    ensures
        r@ == seq![a, b, c, d],
{
    let r = vec![a, b, c, d];
    assert(r@ =~= seq![a, b, c, d]);
    r
}

pub(crate) fn tag5(a: char, b: char, c: char, d: char, e: char) -> (r: Vec<char>)
    ensures
        r@ == seq![a, b, c, d, e],
{
    let r = vec![a, b, c, d, e];
    assert(r@ =~= seq![a, b, c, d, e]);
    r
}

fn tag6(a: char, b: char, c: char, d: char, e: char, f: char) -> (r: Vec<char>)
    ensures
        r@ == seq![a, b, c, d, e, f],
{
    let r = vec![a, b, c, d, e, f];
    assert(r@ =~= seq![a, b, c, d, e, f]);
    r
}

pub(crate) fn token(src: &Source, p: usize, t: &Vec<char>) -> (r: Option<usize>)
    requires
        p <= src@.len(),
    ensures
        match r {
            Some(q) => g::token(src@, p as int, t@) == Some(q as int) && p + t@.len() <= q
            <= src@.len(),
            None => g::token(src@, p as int, t@) is None,
        },
{
    let n = src.len();
    let a = skip_ws(src, p);
    if at_tag(src, a, t) {
        Some(skip_ws(src, a + t.len()))
    } else {
        None
    }
}

fn token_as<T>(src: &Source, p: usize, t: &Vec<char>, v: T) -> (r: Option<(usize, T)>)
    requires
        p <= src@.len(),
    ensures
        agrees_tag(r, g::token_as(src@, p as int, t@, v)),
        match r {
            Some((q, _)) => p + t@.len() <= q <= src@.len(),
            None => true,
        },
{
    match token(src, p, t) {
        Some(q) => Some((q, v)),
        None => None,
    }
}

/// The end position of a result lies after `p` and no further than `n`.
pub open spec fn advances<T>(r: Option<(usize, T)>, p: int, n: int) -> bool {
    match r {
        Some((q, _)) => p < q <= n,
        None => true,
    }
}

pub(crate) fn p_int(src: &Source, p: usize) -> (r: Option<(usize, Expr)>)
    requires
        p <= src@.len(),
    ensures
        agrees(r, g::sp_int(src@, p as int)),
        advances(r, p as int, src@.len() as int),
{
    let a = skip_ws(src, p);
    let b = skip_digits(src, a);
    if a == b {
        return None;
    }
    let mut v: u64 = 0;
    let mut i = a;
    while i < b
        invariant
            p <= a <= i <= b <= src@.len(),
            a == g::ws_end(src@, p as int),
            b == g::digits_end(src@, a as int),
            forall|k: int| a <= k < b ==> g::is_digit(#[trigger] src@[k]),
            v == g::digits_value(src@, a as int, i as int),
            v <= i32::MAX,
        decreases b - i,
    {
        let c = src.chars[i];
        assert(g::is_digit(src@[i as int]));
        assert(c as u32 >= '0' as u32 && c as u32 <= '9' as u32);
        let d = (c as u32 - '0' as u32) as u64;
        assert(d == g::digit_value(src@[i as int]));
        assert(g::digits_value(src@, a as int, i + 1) == v * 10 + d);
        if v * 10 + d > 2147483647 {
            proof {
                g::lemma_digits_value_grows(src@, a as int, i + 1, b as int);
                assert(g::digits_value(src@, a as int, b as int) > i32::MAX);
            }
            return None;
        }
        v = v * 10 + d;
        i += 1;
    }
    Some((skip_ws(src, b), Expr::Int(v as i32)))
}

fn p_bool(src: &Source, p: usize) -> (r: Option<(usize, Expr)>)
    requires
        p <= src@.len(),
    ensures
        agrees(r, g::sp_bool(src@, p as int)),
        advances(r, p as int, src@.len() as int),
{
    if let Some(q) = token(src, p, &tag4('t', 'r', 'u', 'e')) {
        return Some((q, Expr::Bool(true)));
    }
    if let Some(q) = token(src, p, &tag5('f', 'a', 'l', 's', 'e')) {
        return Some((q, Expr::Bool(false)));
    }
    None
}

fn p_var(src: &Source, p: usize) -> (r: Option<(usize, Expr)>)
    requires
        src.wf(),
        p <= src@.len(),
    ensures
        agrees(r, g::sp_var(src@, p as int)),
        bounded(r, p as int, src@.len() as int),
        r is Some,
{
    let a = skip_ws(src, p);
    let b = skip_alnum(src, a);
    let name = src.slice(a, b).to_owned();
    Some((skip_ws(src, b), Expr::Var(name)))
}

fn p_type(src: &Source, p: usize) -> (r: Option<(usize, Type)>)
    requires
        p <= src@.len(),
    ensures
        agrees_tag(r, g::sp_type(src@, p as int)),
        advances(r, p as int, src@.len() as int),
{
    let r = token_as(src, p, &tag3('i', '3', '2'), Type::Int);
    if r.is_some() {
        return r;
    }
    let r = token_as(src, p, &tag4('b', 'o', 'o', 'l'), Type::Bool);
    if r.is_some() {
        return r;
    }
    token_as(src, p, &tag2('(', ')'), Type::Void)
}

fn p_ari_op(src: &Source, p: usize) -> (r: Option<(usize, Op)>)
    requires
        p <= src@.len(),
    ensures
        agrees_tag(r, g::sp_ari_op(src@, p as int)),
        advances(r, p as int, src@.len() as int),
{
    let r = token_as(src, p, &tag1('+'), Op::AriOp(AriOp::Add));
    if r.is_some() {
        return r;
    }
    let r = token_as(src, p, &tag1('-'), Op::AriOp(AriOp::Sub));
    if r.is_some() {
        return r;
    }
    let r = token_as(src, p, &tag1('*'), Op::AriOp(AriOp::Mul));
    if r.is_some() {
        return r;
    }
    token_as(src, p, &tag1('/'), Op::AriOp(AriOp::Div))
}

fn p_ass_op(src: &Source, p: usize) -> (r: Option<(usize, Op)>)
    requires
        p <= src@.len(),
    ensures
        agrees_tag(r, g::sp_ass_op(src@, p as int)),
        advances(r, p as int, src@.len() as int),
{
    let r = token_as(src, p, &tag1('='), Op::AssOp(AssOp::Eq));
    if r.is_some() {
        return r;
    }
    let r = token_as(src, p, &tag2('+', '='), Op::AssOp(AssOp::AddEq));
    if r.is_some() {
        return r;
    }
    let r = token_as(src, p, &tag2('-', '='), Op::AssOp(AssOp::SubEq));
    if r.is_some() {
        return r;
    }
    let r = token_as(src, p, &tag2('/', '='), Op::AssOp(AssOp::DivEq));
    if r.is_some() {
        return r;
    }
    token_as(src, p, &tag2('*', '='), Op::AssOp(AssOp::MulEq))
}

fn p_log_op(src: &Source, p: usize) -> (r: Option<(usize, Op)>)
    requires
        p <= src@.len(),
    ensures
        agrees_tag(r, g::sp_log_op(src@, p as int)),
        advances(r, p as int, src@.len() as int),
{
    let r = token_as(src, p, &tag2('&', '&'), Op::LogOp(LogOp::And));
    if r.is_some() {
        return r;
    }
    token_as(src, p, &tag2('|', '|'), Op::LogOp(LogOp::Or))
}

fn p_rel_op(src: &Source, p: usize) -> (r: Option<(usize, Op)>)
    requires
        p <= src@.len(),
    ensures
        agrees_tag(r, g::sp_rel_op(src@, p as int)),
        advances(r, p as int, src@.len() as int),
{
    let r = token_as(src, p, &tag2('=', '='), Op::RelOp(RelOp::Eq));
    if r.is_some() {
        return r;
    }
    let r = token_as(src, p, &tag2('!', '='), Op::RelOp(RelOp::Neq));
    if r.is_some() {
        return r;
    }
    let r = token_as(src, p, &tag2('<', '='), Op::RelOp(RelOp::Leq));
    if r.is_some() {
        return r;
    }
    let r = token_as(src, p, &tag2('>', '='), Op::RelOp(RelOp::Geq));
    if r.is_some() {
        return r;
    }
    let r = token_as(src, p, &tag1('<'), Op::RelOp(RelOp::Les));
    if r.is_some() {
        return r;
    }
    token_as(src, p, &tag1('>'), Op::RelOp(RelOp::Gre))
}

fn p_op(src: &Source, p: usize) -> (r: Option<(usize, Op)>)
    requires
        p <= src@.len(),
    ensures
        agrees_tag(r, g::sp_op(src@, p as int)),
        advances(r, p as int, src@.len() as int),
{
    let a = skip_ws(src, p);
    let mut r = p_rel_op(src, a);
    if r.is_none() {
        r = p_log_op(src, a);
    }
    if r.is_none() {
        r = p_ass_op(src, a);
    }
    if r.is_none() {
        r = p_ari_op(src, a);
    }
    match r {
        Some((q, o)) => Some((skip_ws(src, q), o)),
        None => None,
    }
}

fn p_param(src: &Source, p: usize) -> (r: Option<(usize, (Expr, Type))>)
    requires
        src.wf(),
        p <= src@.len(),
    ensures
        match r {
            Some((q, (e, t))) => g::sp_param(src@, p as int) == Some((q as int, (e@, t))),
            None => g::sp_param(src@, p as int) is None,
        },
        advances(r, p as int, src@.len() as int),
{
    let n = src.len();
    if let Some((q, v)) = p_var(src, p) {
        if at_char(src, q, ':') {
            if let Some((r, t)) = p_type(src, q + 1) {
                return Some((r, (v, t)));
            }
        }
    }
    None
}

fn p_param_items(src: &Source, p: usize) -> (r: Option<(usize, Vec<(Expr, Type)>)>)
    requires
        src.wf(),
        p <= src@.len(),
    ensures
        agrees_params(r, g::sp_param_items(src@, p as int)),
        bounded(r, p as int, src@.len() as int),
    decreases src@.len() - p,
{
    let n = src.len();
    let mut item = p_param(src, p);
    if item.is_none() && at_char(src, p, ',') {
        item = p_param(src, p + 1);
    }
    match item {
        None => Some((p, Vec::new())),
        Some((q, x)) => {
            if q == p {
                return None;
            }
            match p_param_items(src, q) {
                Some((end, mut rest)) => {
                    let ghost tail = rest@;
                    let mut v = Vec::new();
                    v.push(x);
                    v.append(&mut rest);
                    proof {
                        assert(v@.drop_first() =~= tail);
                    }
                    Some((end, v))
                },
                None => None,
            }
        },
    }
}

fn p_params(src: &Source, p: usize) -> (r: Option<(usize, Vec<(Expr, Type)>)>)
    requires
        src.wf(),
        p <= src@.len(),
    ensures
        agrees_params(r, g::sp_params(src@, p as int)),
        advances(r, p as int, src@.len() as int),
{
    let n = src.len();
    let a = skip_ws(src, p);
    if at_char(src, a, '(') {
        if let Some((c, v)) = p_param_items(src, a + 1) {
            if at_char(src, c, ')') {
                return Some((skip_ws(src, c + 1), v));
            }
        }
    }
    None
}

/// Puts `x` before the nodes of `rest`.
fn prepend(x: Expr, rest: Vec<Expr>) -> (v: Vec<Expr>)
    ensures
        views(v@) == seq![x@] + views(rest@),
{
    let mut rest = rest;
    let ghost tail = rest@;
    let mut v = Vec::new();
    v.push(x);
    v.append(&mut rest);
    assert(v@.drop_first() =~= tail);
    v
}

fn p_bin_expr(src: &Source, p: usize) -> (r: Option<(usize, Expr)>)
    requires
        src.wf(),
        p <= src@.len(),
    ensures
        agrees(r, g::sp_bin_expr(src@, p as int)),
        bounded(r, p as int, src@.len() as int),
    decreases src@.len() - p, 2int,
{
    let mut left = p_bool(src, p);
    if left.is_none() {
        left = p_int(src, p);
    }
    if left.is_none() {
        left = p_paren(src, p);
    }
    if left.is_none() {
        left = p_fn_call(src, p);
    }
    if left.is_none() {
        left = p_var(src, p);
    }
    if let Some((q1, l)) = left {
        if let Some((q2, o)) = p_op(src, q1) {
            if let Some((q3, rt)) = p_bin_expr(src, q2) {
                return Some((q3, Expr::BinExpr(Box::new(l), o, Box::new(rt))));
            }
        }
    }
    let mut r = p_bool(src, p);
    if r.is_none() {
        r = p_int(src, p);
    }
    if r.is_none() {
        r = p_paren(src, p);
    }
    if r.is_none() {
        r = p_fn_call(src, p);
    }
    r
}

fn p_paren(src: &Source, p: usize) -> (r: Option<(usize, Expr)>)
    requires
        src.wf(),
        p <= src@.len(),
    ensures
        agrees(r, g::sp_paren(src@, p as int)),
        bounded(r, p as int, src@.len() as int),
    decreases src@.len() - p, 0int,
{
    let n = src.len();
    let a = skip_ws(src, p);
    if at_char(src, a, '(') {
        let b = a + 1;
        let mut inner = p_bin_expr(src, b);
        if inner.is_none() {
            inner = p_var_expr(src, b);
        }
        if inner.is_none() {
            inner = p_var(src, b);
        }
        if let Some((c, e)) = inner {
            if at_char(src, c, ')') {
                return Some((skip_ws(src, c + 1), e));
            }
        }
    }
    None
}

fn p_fn_call(src: &Source, p: usize) -> (r: Option<(usize, Expr)>)
    requires
        src.wf(),
        p <= src@.len(),
    ensures
        agrees(r, g::sp_fn_call(src@, p as int)),
        bounded(r, p as int, src@.len() as int),
    decreases src@.len() - p, 1int,
{
    if let Some((q, name)) = p_var(src, p) {
        if let Some((end, args)) = p_args(src, q) {
            return Some((end, Expr::FnCall(Box::new(name), args)));
        }
    }
    None
}

fn p_args(src: &Source, p: usize) -> (r: Option<(usize, Vec<Expr>)>)
    requires
        src.wf(),
        p <= src@.len(),
    ensures
        agrees_list(r, g::sp_args(src@, p as int)),
        bounded(r, p as int, src@.len() as int),
    decreases src@.len() - p, 0int,
{
    let n = src.len();
    let a = skip_ws(src, p);
    if at_char(src, a, '(') {
        if let Some((c, v)) = p_arg_items(src, a + 1) {
            if at_char(src, c, ')') {
                return Some((skip_ws(src, c + 1), v));
            }
        }
    }
    None
}

fn p_arg(src: &Source, p: usize) -> (r: Option<(usize, Expr)>)
    requires
        src.wf(),
        p <= src@.len(),
    ensures
        agrees(r, g::sp_arg(src@, p as int)),
        bounded(r, p as int, src@.len() as int),
    decreases src@.len() - p, 3int,
{
    match p_bin_expr(src, p) {
        Some((q, e)) => Some((skip_ws(src, q), e)),
        None => None,
    }
}

fn p_arg_items(src: &Source, p: usize) -> (r: Option<(usize, Vec<Expr>)>)
    requires
        src.wf(),
        p <= src@.len(),
    ensures
        agrees_list(r, g::sp_arg_items(src@, p as int)),
        bounded(r, p as int, src@.len() as int),
    decreases src@.len() - p, 4int,
{
    let n = src.len();
    let mut item = p_arg(src, p);
    if item.is_none() && at_char(src, p, ',') {
        item = p_arg(src, p + 1);
    }
    match item {
        None => Some((p, Vec::new())),
        Some((q, x)) => {
            if q == p {
                return None;
            }
            match p_arg_items(src, q) {
                Some((end, rest)) => Some((end, prepend(x, rest))),
                None => None,
            }
        },
    }
}

fn p_var_expr(src: &Source, p: usize) -> (r: Option<(usize, Expr)>)
    requires
        src.wf(),
        p <= src@.len(),
    ensures
        agrees(r, g::sp_var_expr(src@, p as int)),
        bounded(r, p as int, src@.len() as int),
    decreases src@.len() - p, 0int,
{
    let mut left = p_int(src, p);
    if left.is_none() {
        left = p_bool(src, p);
    }
    if left.is_none() {
        left = p_var(src, p);
    }
    if let Some((q1, l)) = left {
        if let Some((q2, o)) = p_op(src, q1) {
            let mut right = p_bin_expr(src, q2);
            if right.is_none() {
                right = p_var(src, q2);
            }
            if let Some((q3, rt)) = right {
                return Some((q3, Expr::VarExpr(Box::new(l), o, Box::new(rt))));
            }
        }
    }
    None
}

fn p_return(src: &Source, p: usize) -> (r: Option<(usize, Expr)>)
    requires
        src.wf(),
        p <= src@.len(),
    ensures
        agrees(r, g::sp_return(src@, p as int)),
        bounded(r, p as int, src@.len() as int),
    decreases src@.len() - p, 0int,
{
    let n = src.len();
    let a = skip_ws(src, p);
    if at_tag(src, a, &tag6('r', 'e', 't', 'u', 'r', 'n')) {
        let b = a + 6;
        let mut v = p_paren(src, b);
        if v.is_none() {
            v = p_bin_expr(src, b);
        }
        if v.is_none() {
            v = p_var_expr(src, b);
        }
        if v.is_none() {
            v = p_var(src, b);
        }
        if let Some((c, e)) = v {
            return Some((skip_ws(src, c), Expr::Return(Box::new(e))));
        }
    }
    None
}

fn p_let_value(src: &Source, p: usize) -> (r: Option<(usize, Expr)>)
    requires
        src.wf(),
        p <= src@.len(),
    ensures
        agrees(r, g::sp_let_value(src@, p as int)),
        bounded(r, p as int, src@.len() as int),
    decreases src@.len() - p, 1int,
{
    let n = src.len();
    let r = p_bin_expr(src, p);
    if r.is_some() {
        return r;
    }
    let e = skip_ws(src, p);
    if at_char(src, e, '=') {
        let f = skip_ws(src, e + 1);
        let r = p_var_expr(src, f);
        if r.is_some() {
            return r;
        }
        return p_var(src, f);
    }
    None
}

fn p_let(src: &Source, p: usize) -> (r: Option<(usize, Expr)>)
    requires
        src.wf(),
        p <= src@.len(),
    ensures
        agrees(r, g::sp_let(src@, p as int)),
        bounded(r, p as int, src@.len() as int),
    decreases src@.len() - p, 0int,
{
    let n = src.len();
    if let Some(b) = token(src, p, &tag3('l', 'e', 't')) {
        if let Some((c, name)) = p_var(src, b) {
            if at_char(src, c, ':') {
                if let Some((d, t)) = p_type(src, c + 1) {
                    if let Some((end, v)) = p_let_value(src, d) {
                        return Some((end, Expr::Let(Box::new(name), t, Box::new(v))));
                    }
                }
            }
        }
    }
    None
}

fn p_if_cond(src: &Source, p: usize) -> (r: Option<(usize, Expr)>)
    requires
        src.wf(),
        p <= src@.len(),
    ensures
        agrees(r, g::sp_if_cond(src@, p as int)),
        bounded(r, p as int, src@.len() as int),
    decreases src@.len() - p, 1int,
{
    let r = p_var_expr(src, p);
    if r.is_some() {
        return r;
    }
    let r = p_bool(src, p);
    if r.is_some() {
        return r;
    }
    p_var(src, p)
}

fn p_if(src: &Source, p: usize) -> (r: Option<(usize, Expr)>)
    requires
        src.wf(),
        p <= src@.len(),
    ensures
        agrees(r, g::sp_if(src@, p as int)),
        bounded(r, p as int, src@.len() as int),
    decreases src@.len() - p, 0int,
{
    if let Some(b) = token(src, p, &tag2('i', 'f')) {
        if let Some((c, cond)) = p_if_cond(src, b) {
            if let Some((d, body)) = p_block(src, c) {
                return Some((d, Expr::If(Box::new(cond), body)));
            }
        }
    }
    None
}

fn p_if_else(src: &Source, p: usize) -> (r: Option<(usize, Expr)>)
    requires
        src.wf(),
        p <= src@.len(),
    ensures
        agrees(r, g::sp_if_else(src@, p as int)),
        bounded(r, p as int, src@.len() as int),
    decreases src@.len() - p, 0int,
{
    if let Some(b) = token(src, p, &tag2('i', 'f')) {
        if let Some((c, cond)) = p_if_cond(src, b) {
            if let Some((d, body1)) = p_block(src, c) {
                if let Some(f) = token(src, d, &tag4('e', 'l', 's', 'e')) {
                    if let Some((end, body2)) = p_block(src, f) {
                        return Some((end, Expr::IfElse(Box::new(cond), body1, body2)));
                    }
                }
            }
        }
    }
    None
}

fn p_while(src: &Source, p: usize) -> (r: Option<(usize, Expr)>)
    requires
        src.wf(),
        p <= src@.len(),
    ensures
        agrees(r, g::sp_while(src@, p as int)),
        bounded(r, p as int, src@.len() as int),
    decreases src@.len() - p, 0int,
{
    if let Some(b) = token(src, p, &tag5('w', 'h', 'i', 'l', 'e')) {
        if let Some((c, e)) = p_if_cond(src, b) {
            if let Some((d, body)) = p_block(src, c) {
                return Some((d, Expr::While(Box::new(e), body)));
            }
        }
    }
    None
}

fn p_fn(src: &Source, p: usize) -> (r: Option<(usize, Expr)>)
    requires
        src.wf(),
        p <= src@.len(),
    ensures
        agrees(r, g::sp_fn(src@, p as int)),
        bounded(r, p as int, src@.len() as int),
    decreases src@.len() - p, 0int,
{
    if let Some(b) = token(src, p, &tag2('f', 'n')) {
        if let Some((c, name)) = p_var(src, b) {
            if let Some((d, params)) = p_params(src, c) {
                if let Some(e) = token(src, d, &tag2('-', '>')) {
                    if let Some((f, t)) = p_type(src, e) {
                        if let Some((end, body)) = p_block(src, f) {
                            return Some((end, Expr::Fn(Box::new(name), params, t, body)));
                        }
                    }
                }
            }
        }
    }
    None
}

fn p_block(src: &Source, p: usize) -> (r: Option<(usize, Vec<Expr>)>)
    requires
        src.wf(),
        p <= src@.len(),
    ensures
        agrees_list(r, g::sp_block(src@, p as int)),
        bounded(r, p as int, src@.len() as int),
    decreases src@.len() - p, 0int,
{
    let n = src.len();
    let a = skip_ws(src, p);
    if !at_char(src, a, '{') {
        return None;
    }
    if let Some((c, v)) = p_block_items(src, a + 1) {
        let e = skip_ws(src, c);
        if at_char(src, e, '}') {
            return Some((e + 1, v));
        }
    }
    if let Some((c, v)) = p_block(src, a + 1) {
        let e = skip_ws(src, c);
        if at_char(src, e, '}') {
            return Some((e + 1, v));
        }
    }
    None
}

#[verifier::spinoff_prover]
#[verifier::rlimit(100)]
fn p_block_item(src: &Source, p: usize) -> (r: Option<(usize, Expr)>)
    requires
        src.wf(),
        p <= src@.len(),
    ensures
        agrees(r, g::sp_block_item(src@, p as int)),
        bounded(r, p as int, src@.len() as int),
    decreases src@.len() - p, 2int,
{
    let n = src.len();
    if let Some((q, e)) = p_scope(src, p) {
        if at_char(src, q, ';') {
            return Some((q + 1, e));
        }
    }
    p_return(src, p)
}

#[verifier::spinoff_prover]
#[verifier::rlimit(100)]
fn p_block_items(src: &Source, p: usize) -> (r: Option<(usize, Vec<Expr>)>)
    requires
        src.wf(),
        p <= src@.len(),
    ensures
        agrees_list(r, g::sp_block_items(src@, p as int)),
        bounded(r, p as int, src@.len() as int),
    decreases src@.len() - p, 3int,
{
    match p_block_item(src, p) {
        None => Some((p, Vec::new())),
        Some((q, x)) => {
            if q == p {
                return None;
            }
            match p_block_items(src, q) {
                Some((end, rest)) => Some((end, prepend(x, rest))),
                None => None,
            }
        },
    }
}

#[verifier::spinoff_prover]
#[verifier::rlimit(100)]
fn p_scope(src: &Source, p: usize) -> (r: Option<(usize, Expr)>)
    requires
        src.wf(),
        p <= src@.len(),
    ensures
        agrees(r, g::sp_scope(src@, p as int)),
        bounded(r, p as int, src@.len() as int),
    decreases src@.len() - p, 1int,
{
    let a = skip_ws(src, p);
    let mut r = p_return(src, a);
    if r.is_none() {
        r = p_let(src, a);
    }
    if r.is_none() {
        r = p_if_else(src, a);
    }
    if r.is_none() {
        r = p_if(src, a);
    }
    if r.is_none() {
        r = p_while(src, a);
    }
    if r.is_none() {
        r = p_var_expr(src, a);
    }
    if r.is_none() {
        r = p_fn(src, a);
    }
    match r {
        Some((q, e)) => Some((skip_ws(src, q), e)),
        None => None,
    }
}

#[verifier::spinoff_prover]
#[verifier::rlimit(100)]
fn p_program_items(src: &Source, p: usize) -> (r: Option<(usize, Vec<Expr>)>)
    requires
        src.wf(),
        p <= src@.len(),
    ensures
        agrees_list(r, g::sp_program_items(src@, p as int)),
        bounded(r, p as int, src@.len() as int),
    decreases src@.len() - p,
{
    match p_scope(src, p) {
        None => Some((p, Vec::new())),
        Some((q, x)) => {
            if q == p {
                return None;
            }
            match p_program_items(src, q) {
                Some((end, rest)) => Some((end, prepend(x, rest))),
                None => None,
            }
        },
    }
}

/// Why a parse failed: the character offset at which no rule matched.
/// Entry points that hand back the unread rest report offset 0: they read
/// nothing when they fail.
#[derive(Clone, Copy, Debug, PartialEq, Eq, Structural)]
pub struct ParseError {
    pub pos: usize,
}

/// `out` is the public form of the rule's result `m` on `input`: on success the
/// rest is the unread suffix and the value's model is the rule's.
pub open spec fn parsed_expr(
    out: Result<(&str, Expr), ParseError>,
    input: Seq<char>,
    m: Option<(int, Ast)>,
) -> bool {
    match out {
        Ok((rest, e)) => m == Some((input.len() - rest@.len(), e@)) && rest@ == input.subrange(
            input.len() - rest@.len(),
            input.len() as int,
        ),
        Err(err) => m is None && err.pos == 0,
    }
}

pub open spec fn parsed_tag<T>(
    out: Result<(&str, T), ParseError>,
    input: Seq<char>,
    m: Option<(int, T)>,
) -> bool {
    match out {
        Ok((rest, v)) => m == Some((input.len() - rest@.len(), v)) && rest@ == input.subrange(
            input.len() - rest@.len(),
            input.len() as int,
        ),
        Err(err) => m is None && err.pos == 0,
    }
}

pub open spec fn parsed_list(
    out: Result<(&str, Vec<Expr>), ParseError>,
    input: Seq<char>,
    m: Option<(int, Seq<Ast>)>,
) -> bool {
    match out {
        Ok((rest, v)) => m == Some((input.len() - rest@.len(), views(v@))) && rest@
            == input.subrange(input.len() - rest@.len(), input.len() as int),
        Err(err) => m is None && err.pos == 0,
    }
}

pub open spec fn parsed_params(
    out: Result<(&str, Vec<(Expr, Type)>), ParseError>,
    input: Seq<char>,
    m: Option<(int, Seq<(Ast, Type)>)>,
) -> bool {
    match out {
        Ok((rest, v)) => m == Some((input.len() - rest@.len(), param_views(v@))) && rest@
            == input.subrange(input.len() - rest@.len(), input.len() as int),
        Err(err) => m is None && err.pos == 0,
    }
}

/// Turns an internal result into the public one: the rest of the text, or an error.
pub(crate) fn finish<'a, T>(src: &Source<'a>, r: Option<(usize, T)>) -> (out: Result<(&'a str, T), ParseError>)
    requires
        src.wf(),
        bounded(r, 0, src@.len() as int),
    ensures
        match (r, out) {
            (Some((q, v)), Ok((rest, w))) => w == v && rest@ == src@.subrange(
                q as int,
                src@.len() as int,
            ),
            (None, Err(e)) => e.pos == 0,
            _ => false,
        },
{
    match r {
        Some((q, v)) => Ok((src.slice(q, src.len()), v)),
        None => Err(ParseError { pos: 0 }),
    }
}

/// An unsigned decimal literal that fits in an `i32`, with whitespace around it.
pub fn parse_int(input: &str) -> (r: Result<(&str, Expr), ParseError>)
    ensures
        parsed_expr(r, input@, g::sp_int(input@, 0)),
{
    let src = Source::new(input);
    finish(&src, p_int(&src, 0))
}

/// `true` or `false`.
pub fn parse_bool(input: &str) -> (r: Result<(&str, Expr), ParseError>)
    ensures
        parsed_expr(r, input@, g::sp_bool(input@, 0)),
{
    let src = Source::new(input);
    finish(&src, p_bool(&src, 0))
}

/// A type keyword: `i32`, `bool` or `()`.
pub fn parse_type(input: &str) -> (r: Result<(&str, Type), ParseError>)
    ensures
        parsed_tag(r, input@, g::sp_type(input@, 0)),
{
    let src = Source::new(input);
    finish(&src, p_type(&src, 0))
}

/// Any operator, the relational family first, then logical, assignment, arithmetic.
pub fn parse_op(input: &str) -> (r: Result<(&str, Op), ParseError>)
    ensures
        parsed_tag(r, input@, g::sp_op(input@, 0)),
{
    let src = Source::new(input);
    finish(&src, p_op(&src, 0))
}

pub fn parse_ari_op(input: &str) -> (r: Result<(&str, Op), ParseError>)
    ensures
        parsed_tag(r, input@, g::sp_ari_op(input@, 0)),
{
    let src = Source::new(input);
    finish(&src, p_ari_op(&src, 0))
}

pub fn parse_ass_op(input: &str) -> (r: Result<(&str, Op), ParseError>)
    ensures
        parsed_tag(r, input@, g::sp_ass_op(input@, 0)),
{
    let src = Source::new(input);
    finish(&src, p_ass_op(&src, 0))
}

pub fn parse_log_op(input: &str) -> (r: Result<(&str, Op), ParseError>)
    ensures
        parsed_tag(r, input@, g::sp_log_op(input@, 0)),
{
    let src = Source::new(input);
    finish(&src, p_log_op(&src, 0))
}

pub fn parse_rel_op(input: &str) -> (r: Result<(&str, Op), ParseError>)
    ensures
        parsed_tag(r, input@, g::sp_rel_op(input@, 0)),
{
    let src = Source::new(input);
    finish(&src, p_rel_op(&src, 0))
}

/// A right-nested binary chain over primary terms, or a bare primary term.
pub fn parse_bin_expr(input: &str) -> (r: Result<(&str, Expr), ParseError>)
    ensures
        parsed_expr(r, input@, g::sp_bin_expr(input@, 0)),
{
    let src = Source::new(input);
    finish(&src, p_bin_expr(&src, 0))
}

pub fn parse_return(input: &str) -> (r: Result<(&str, Expr), ParseError>)
    ensures
        parsed_expr(r, input@, g::sp_return(input@, 0)),
{
    let src = Source::new(input);
    finish(&src, p_return(&src, 0))
}

pub fn parse_paren(input: &str) -> (r: Result<(&str, Expr), ParseError>)
    ensures
        parsed_expr(r, input@, g::sp_paren(input@, 0)),
{
    let src = Source::new(input);
    finish(&src, p_paren(&src, 0))
}

/// An identifier; it may be empty, so this never fails.
pub fn parse_var(input: &str) -> (r: Result<(&str, Expr), ParseError>)
    ensures
        parsed_expr(r, input@, g::sp_var(input@, 0)),
        r is Ok,
{
    let src = Source::new(input);
    finish(&src, p_var(&src, 0))
}

pub fn parse_arg(input: &str) -> (r: Result<(&str, Expr), ParseError>)
    ensures
        parsed_expr(r, input@, g::sp_arg(input@, 0)),
{
    let src = Source::new(input);
    finish(&src, p_arg(&src, 0))
}

pub fn parse_args(input: &str) -> (r: Result<(&str, Vec<Expr>), ParseError>)
    ensures
        parsed_list(r, input@, g::sp_args(input@, 0)),
{
    let src = Source::new(input);
    finish(&src, p_args(&src, 0))
}

pub fn parse_param(input: &str) -> (r: Result<(&str, (Expr, Type)), ParseError>)
    ensures
        match r {
            Ok((rest, (e, t))) => g::sp_param(input@, 0) == Some(
                (input@.len() - rest@.len(), (e@, t)),
            ) && rest@ == input@.subrange(input@.len() - rest@.len(), input@.len() as int),
            Err(err) => g::sp_param(input@, 0) is None && err.pos == 0,
        },
{
    let src = Source::new(input);
    finish(&src, p_param(&src, 0))
}

pub fn parse_params(input: &str) -> (r: Result<(&str, Vec<(Expr, Type)>), ParseError>)
    ensures
        parsed_params(r, input@, g::sp_params(input@, 0)),
{
    let src = Source::new(input);
    finish(&src, p_params(&src, 0))
}

pub fn parse_fn_call(input: &str) -> (r: Result<(&str, Expr), ParseError>)
    ensures
        parsed_expr(r, input@, g::sp_fn_call(input@, 0)),
{
    let src = Source::new(input);
    finish(&src, p_fn_call(&src, 0))
}

/// A binary chain whose left operand is a literal or an identifier.
pub fn parse_var_expr(input: &str) -> (r: Result<(&str, Expr), ParseError>)
    ensures
        parsed_expr(r, input@, g::sp_var_expr(input@, 0)),
{
    let src = Source::new(input);
    finish(&src, p_var_expr(&src, 0))
}

/// A `let` binding.
pub fn parse_let(input: &str) -> (r: Result<(&str, Expr), ParseError>)
    ensures
        parsed_expr(r, input@, g::sp_let(input@, 0)),
{
    let src = Source::new(input);
    finish(&src, p_let(&src, 0))
}

/// A block; redundant nested braces are flattened away.
pub fn parse_block(input: &str) -> (r: Result<(&str, Vec<Expr>), ParseError>)
    ensures
        parsed_list(r, input@, g::sp_block(input@, 0)),
{
    let src = Source::new(input);
    finish(&src, p_block(&src, 0))
}

pub fn parse_if(input: &str) -> (r: Result<(&str, Expr), ParseError>)
    ensures
        parsed_expr(r, input@, g::sp_if(input@, 0)),
{
    let src = Source::new(input);
    finish(&src, p_if(&src, 0))
}

pub fn parse_if_else(input: &str) -> (r: Result<(&str, Expr), ParseError>)
    ensures
        parsed_expr(r, input@, g::sp_if_else(input@, 0)),
{
    let src = Source::new(input);
    finish(&src, p_if_else(&src, 0))
}

pub fn parse_while(input: &str) -> (r: Result<(&str, Expr), ParseError>)
    ensures
        parsed_expr(r, input@, g::sp_while(input@, 0)),
{
    let src = Source::new(input);
    finish(&src, p_while(&src, 0))
}

pub fn parse_fn(input: &str) -> (r: Result<(&str, Expr), ParseError>)
    ensures
        parsed_expr(r, input@, g::sp_fn(input@, 0)),
{
    let src = Source::new(input);
    finish(&src, p_fn(&src, 0))
}

/// One statement, with whitespace around it.
pub fn parse_scope(input: &str) -> (r: Result<(&str, Expr), ParseError>)
    ensures
        parsed_expr(r, input@, g::sp_scope(input@, 0)),
{
    let src = Source::new(input);
    finish(&src, p_scope(&src, 0))
}

/// A whole program: statements up to the end of the input. Text that no
/// statement reads is an error at the offset where it starts.
pub fn parser(input: &str) -> (r: Result<(&str, Vec<Expr>), ParseError>)
    ensures
        match r {
            Ok((rest, v)) => rest@.len() == 0 && g::sp_program(input@) == Some(views(v@)),
            Err(err) => g::sp_program(input@) is None && g::sp_program_stop(input@) == err.pos,
        },
{
    let src = Source::new(input);
    let n = src.len();
    match p_program_items(&src, 0) {
        Some((q, v)) => {
            if skip_ws(&src, q) == n {
                Ok((src.slice(n, n), v))
            } else {
                Err(ParseError { pos: q })
            }
        },
        None => Err(ParseError { pos: 0 }),
    }
}

} // verus!
