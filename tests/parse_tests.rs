use compiler::ast::{AriOp, AssOp, Expr, LogOp, Op, RelOp, Type};
use compiler::parser::{
    parse_ari_op, parse_arg, parse_args, parse_ass_op, parse_bin_expr, parse_block, parse_bool,
    parse_fn, parse_fn_call, parse_if, parse_if_else, parse_int, parse_let, parse_log_op,
    parse_op, parse_param, parse_params, parse_paren, parse_rel_op, parse_return, parse_type,
    parse_var, parse_var_expr, parse_while, parser,
};

#[test]
fn test_parse_int() {
    assert_eq!(parse_int("1"), Ok(("", Expr::Int(1))));
}

#[test]
fn test_parse_bool() {
    assert_eq!(parse_bool("false"), Ok(("", Expr::Bool(false))));
    assert_eq!(parse_bool("true"), Ok(("", Expr::Bool(true))));
}

#[test]
fn test_parse_type() {
    assert_eq!(parse_type("i32"), Ok(("", Type::Int)));
    assert_eq!(parse_type("bool"), Ok(("", Type::Bool)));
    assert_eq!(parse_type("()"), Ok(("", Type::Void)));
}

#[test]
fn test_parse_op() {
    assert_eq!(parse_op("+"), Ok(("", Op::AriOp(AriOp::Add))));
    assert_eq!(parse_op("="), Ok(("", Op::AssOp(AssOp::Eq))));
    assert_eq!(parse_op("&&"), Ok(("", Op::LogOp(LogOp::And))));
    assert_eq!(parse_op(">"), Ok(("", Op::RelOp(RelOp::Gre))));
}

#[test]
fn test_parse_ari_op() {
    assert_eq!(parse_ari_op("+"), Ok(("", Op::AriOp(AriOp::Add))));
    assert_eq!(parse_ari_op("-"), Ok(("", Op::AriOp(AriOp::Sub))));
    assert_eq!(parse_ari_op("*"), Ok(("", Op::AriOp(AriOp::Mul))));
    assert_eq!(parse_ari_op("/"), Ok(("", Op::AriOp(AriOp::Div))));
}

#[test]
fn test_parse_ass_op() {
    assert_eq!(parse_ass_op("="), Ok(("", Op::AssOp(AssOp::Eq))));
    assert_eq!(parse_ass_op("+="), Ok(("", Op::AssOp(AssOp::AddEq))));
    assert_eq!(parse_ass_op("-="), Ok(("", Op::AssOp(AssOp::SubEq))));
    assert_eq!(parse_ass_op("/="), Ok(("", Op::AssOp(AssOp::DivEq))));
    assert_eq!(parse_ass_op("*="), Ok(("", Op::AssOp(AssOp::MulEq))));
}

#[test]
fn test_parse_log_op() {
    assert_eq!(parse_log_op("&&"), Ok(("", Op::LogOp(LogOp::And))));
    assert_eq!(parse_log_op("||"), Ok(("", Op::LogOp(LogOp::Or))));
}

#[test]
fn test_parse_rel_op() {
    assert_eq!(parse_rel_op("=="), Ok(("", Op::RelOp(RelOp::Eq))));
    assert_eq!(parse_rel_op("!="), Ok(("", Op::RelOp(RelOp::Neq))));
    assert_eq!(parse_rel_op("<"), Ok(("", Op::RelOp(RelOp::Les))));
    assert_eq!(parse_rel_op(">"), Ok(("", Op::RelOp(RelOp::Gre))));
    assert_eq!(parse_rel_op("<="), Ok(("", Op::RelOp(RelOp::Leq))));
    assert_eq!(parse_rel_op(">="), Ok(("", Op::RelOp(RelOp::Geq))));
}

#[test]
fn test_parse_bin_expr() {
    assert_eq!(parse_bin_expr("false"), Ok(("", Expr::Bool(false))));
    assert_eq!(parse_bin_expr("1"), Ok(("", Expr::Int(1))));
    assert_eq!(parse_bin_expr("(1)"), Ok(("", Expr::Int(1))));
    assert_eq!(
        parse_bin_expr("1 + 2"),
        Ok((
            "",
            Expr::BinExpr(
                Box::new(Expr::Int(1)),
                Op::AriOp(AriOp::Add),
                Box::new(Expr::Int(2)),
            )
        ))
    );
}

#[test]
fn test_parse_return() {
    assert_eq!(
        parse_return("return true"),
        Ok(("", Expr::Return(Box::new(Expr::Bool(true)))))
    );
    assert_eq!(
        parse_return("return false"),
        Ok(("", Expr::Return(Box::new(Expr::Bool(false)))))
    );
    assert_eq!(
        parse_return("return 1"),
        Ok(("", Expr::Return(Box::new(Expr::Int(1)))))
    );
    assert_eq!(
        parse_return("return a"),
        Ok(("", Expr::Return(Box::new(Expr::Var("a".to_string())))))
    );
    assert_eq!(
        parse_return("return a + b"),
        Ok((
            "",
            Expr::Return(Box::new(Expr::VarExpr(
                Box::new(Expr::Var("a".to_string())),
                Op::AriOp(AriOp::Add),
                Box::new(Expr::Var("b".to_string())),
            )))
        ))
    );
    assert_eq!(
        parse_return("return a + 1"),
        Ok((
            "",
            Expr::Return(Box::new(Expr::BinExpr(
                Box::new(Expr::Var("a".to_string())),
                Op::AriOp(AriOp::Add),
                Box::new(Expr::Int(1)),
            )))
        ))
    );
    assert_eq!(
        parse_return("return testfn(1,false,3)"),
        Ok((
            "",
            Expr::Return(Box::new(Expr::FnCall(
                Box::new(Expr::Var("testfn".to_string())),
                vec![Expr::Int(1), Expr::Bool(false), Expr::Int(3)]
            )))
        ))
    );
}

#[test]
fn test_parse_paren() {
    assert_eq!(parse_paren("(1)"), Ok(("", Expr::Int(1))));
    assert_eq!(parse_paren("((1))"), Ok(("", Expr::Int(1))));
}

#[test]
fn test_parse_var() {
    assert_eq!(parse_var("a"), Ok(("", Expr::Var("a".to_string()))));
}

#[test]
fn test_parse_arg() {
    assert_eq!(parse_arg("1"), Ok(("", Expr::Int(1))));
}

#[test]
fn test_parse_args() {
    assert_eq!(
        parse_args("(1, 2, 3)"),
        Ok(("", vec![Expr::Int(1), Expr::Int(2), Expr::Int(3)]))
    );
    assert_eq!(
        parse_args("(1, true, 3)"),
        Ok(("", vec![Expr::Int(1), Expr::Bool(true), Expr::Int(3)]))
    );
}

#[test]
fn test_parse_param() {
    assert_eq!(
        parse_param("a:i32"),
        Ok(("", (Expr::Var("a".to_string()), Type::Int)))
    );
    assert_eq!(
        parse_param("a:bool"),
        Ok(("", (Expr::Var("a".to_string()), Type::Bool)))
    );
}

#[test]
fn test_parse_params() {
    assert_eq!(
        parse_params("(a: i32, b: bool)"),
        Ok((
            "",
            vec![
                (Expr::Var("a".to_string()), Type::Int),
                (Expr::Var("b".to_string()), Type::Bool)
            ]
        ))
    );
}

#[test]
fn test_parse_fn_call() {
    assert_eq!(
        parse_fn_call("testfn(1,2,3)"),
        Ok((
            "",
            Expr::FnCall(
                Box::new(Expr::Var("testfn".to_string())),
                vec![Expr::Int(1), Expr::Int(2), Expr::Int(3)]
            )
        ))
    );
    assert_eq!(
        parse_fn_call("testfn(1,false,3)"),
        Ok((
            "",
            Expr::FnCall(
                Box::new(Expr::Var("testfn".to_string())),
                vec![Expr::Int(1), Expr::Bool(false), Expr::Int(3)]
            )
        ))
    );
}
#[test]
fn test_parse_var_expr() {
    assert_eq!(
        parse_var_expr("a = 1"),
        Ok((
            "",
            Expr::VarExpr(
                Box::new(Expr::Var("a".to_string())),
                Op::AssOp(AssOp::Eq),
                Box::new(Expr::Int(1)),
            )
        ))
    );
    assert_eq!(
        parse_var_expr("a && b"),
        Ok((
            "",
            Expr::VarExpr(
                Box::new(Expr::Var("a".to_string())),
                Op::LogOp(LogOp::And),
                Box::new(Expr::Var("b".to_string())),
            )
        ))
    );
    assert_eq!(
        parse_var_expr("a || b"),
        Ok((
            "",
            Expr::VarExpr(
                Box::new(Expr::Var("a".to_string())),
                Op::LogOp(LogOp::Or),
                Box::new(Expr::Var("b".to_string())),
            )
        ))
    );
    assert_eq!(
        parse_var_expr("a == 1"),
        Ok((
            "",
            Expr::VarExpr(
                Box::new(Expr::Var("a".to_string())),
                Op::RelOp(RelOp::Eq),
                Box::new(Expr::Int(1)),
            )
        ))
    );
    assert_eq!(
        parse_var_expr("a != a"),
        Ok((
            "",
            Expr::VarExpr(
                Box::new(Expr::Var("a".to_string())),
                Op::RelOp(RelOp::Neq),
                Box::new(Expr::Var("a".to_string())),
            )
        ))
    );
}

#[test]
fn test_parse_let() {
    assert_eq!(
        parse_let("let a: i32 = 1"),
        Ok((
            "",
            Expr::Let(
                Box::new(Expr::Var("a".to_string())),
                Type::Int,
                Box::new(Expr::BinExpr(
                    Box::new(Expr::Var("".to_string())),
                    Op::AssOp(AssOp::Eq),
                    Box::new(Expr::Int(1))
                ))
            ),
        ))
    );
    assert_eq!(
        parse_let("let a: i32 = b"),
        Ok((
            "",
            Expr::Let(
                Box::new(Expr::Var("a".to_string())),
                Type::Int,
                Box::new(Expr::Var("b".to_string()))
            ),
        ))
    );
    assert_eq!(
        parse_let("let a: bool = b && c"),
        Ok((
            "",
            Expr::Let(
                Box::new(Expr::Var("a".to_string())),
                Type::Bool,
                Box::new(Expr::VarExpr(
                    Box::new(Expr::Var("b".to_string())),
                    Op::LogOp(LogOp::And),
                    Box::new(Expr::Var("c".to_string())),
                ))
            ),
        ))
    );
    assert_eq!(
        parse_let("let a: i32 = b + c"),
        Ok((
            "",
            Expr::Let(
                Box::new(Expr::Var("a".to_string())),
                Type::Int,
                Box::new(Expr::VarExpr(
                    Box::new(Expr::Var("b".to_string())),
                    Op::AriOp(AriOp::Add),
                    Box::new(Expr::Var("c".to_string())),
                ))
            ),
        ))
    );
    assert_eq!(
        parse_let("let a: bool = true"),
        Ok((
            "",
            Expr::Let(
                Box::new(Expr::Var("a".to_string())),
                Type::Bool,
                Box::new(Expr::BinExpr(
                    Box::new(Expr::Var("".to_string())),
                    Op::AssOp(AssOp::Eq),
                    Box::new(Expr::Bool(true))
                ))
            ),
        ))
    );
}
#[test]
fn test_parse_block() {
    assert_eq!(
        parse_block("{return 1}"),
        Ok(("", vec![Expr::Return(Box::new(Expr::Int(1)))]))
    );
    assert_eq!(
        parse_block("{{return 1}}"),
        Ok(("", vec![Expr::Return(Box::new(Expr::Int(1)))]))
    );
    assert_eq!(
        parse_block("{let a: i32 = 1; return 1}"),
        Ok((
            "",
            vec![
                Expr::Let(
                    Box::new(Expr::Var("a".to_string())),
                    Type::Int,
                    Box::new(Expr::BinExpr(
                        Box::new(Expr::Var("".to_string())),
                        Op::AssOp(AssOp::Eq),
                        Box::new(Expr::Int(1))
                    ))
                ),
                Expr::Return(Box::new(Expr::Int(1)))
            ]
        ))
    );
    assert_eq!(
        parse_block("{let a: bool = true; return a}"),
        Ok((
            "",
            vec![
                Expr::Let(
                    Box::new(Expr::Var("a".to_string())),
                    Type::Bool,
                    Box::new(Expr::BinExpr(
                        Box::new(Expr::Var("".to_string())),
                        Op::AssOp(AssOp::Eq),
                        Box::new(Expr::Bool(true))
                    ))
                ),
                Expr::Return(Box::new(Expr::Var("a".to_string())))
            ]
        ))
    );
}
#[test]
fn test_parse_if() {
    assert_eq!(
        parse_if("if true {return 1}"),
        Ok((
            "",
            Expr::If(
                Box::new(Expr::Bool(true)),
                vec![Expr::Return(Box::new(Expr::Int(1)))]
            )
        ))
    );
    assert_eq!(
        parse_if("if a {return 1}"),
        Ok((
            "",
            Expr::If(
                Box::new(Expr::Var("a".to_string())),
                vec![Expr::Return(Box::new(Expr::Int(1)))]
            )
        ))
    );
    assert_eq!(
        parse_if("if a == b {return 1}"),
        Ok((
            "",
            Expr::If(
                Box::new(Expr::VarExpr(
                    Box::new(Expr::Var("a".to_string())),
                    Op::RelOp(RelOp::Eq),
                    Box::new(Expr::Var("b".to_string()))
                )),
                vec![Expr::Return(Box::new(Expr::Int(1)))]
            ),
        ))
    );
}
#[test]
fn test_parse_if_else() {
    assert_eq!(
        parse_if_else("if true {return 1} else {return 1}"),
        Ok((
            "",
            Expr::IfElse(
                Box::new(Expr::Bool(true)),
                vec![Expr::Return(Box::new(Expr::Int(1)))],
                vec![Expr::Return(Box::new(Expr::Int(1)))],
            )
        ))
    );
    assert_eq!(
        parse_if_else("if a {return 1} else {return 1}"),
        Ok((
            "",
            Expr::IfElse(
                Box::new(Expr::Var("a".to_string())),
                vec![Expr::Return(Box::new(Expr::Int(1)))],
                vec![Expr::Return(Box::new(Expr::Int(1)))],
            )
        ))
    );

    assert_eq!(
        parse_if_else("if a == b {return 1} else {return 1}"),
        Ok((
            "",
            Expr::IfElse(
                Box::new(Expr::VarExpr(
                    Box::new(Expr::Var("a".to_string())),
                    Op::RelOp(RelOp::Eq),
                    Box::new(Expr::Var("b".to_string()))
                )),
                vec![Expr::Return(Box::new(Expr::Int(1)))],
                vec![Expr::Return(Box::new(Expr::Int(1)))],
            )
        ))
    );
}
#[test]
fn test_parse_while() {
    assert_eq!(
        parse_while("while false {return true}"),
        Ok((
            "",
            Expr::While(
                Box::new(Expr::Bool(false)),
                vec![Expr::Return(Box::new(Expr::Bool(true)))]
            )
        ))
    );
    assert_eq!(
        parse_while("while a && b {return 1}"),
        Ok((
            "",
            Expr::While(
                Box::new(Expr::VarExpr(
                    Box::new(Expr::Var("a".to_string())),
                    Op::LogOp(LogOp::And),
                    Box::new(Expr::Var("b".to_string()))
                )),
                vec![Expr::Return(Box::new(Expr::Int(1)))]
            ),
        ))
    );
}
#[test]
fn test_parse_fn() {
    assert_eq!(
        parse_fn("fn testfn(a: i32) -> () { return 1 }"),
        Ok((
            "",
            Expr::Fn(
                Box::new(Expr::Var("testfn".to_string())),
                vec![(Expr::Var("a".to_string()), Type::Int)],
                Type::Void,
                vec![Expr::Return(Box::new(Expr::Int(1)))]
            ),
        ))
    );
    assert_eq!(
        parse_fn("fn testfn(a: bool) -> i32 { if a { let b: i32 = 1; return b};}"),
        Ok((
            "",
            Expr::Fn(
                Box::new(Expr::Var("testfn".to_string())),
                vec![(Expr::Var("a".to_string()), Type::Bool)],
                Type::Int,
                vec![Expr::If(
                    Box::new(Expr::Var("a".to_string())),
                    vec![
                        Expr::Let(
                            Box::new(Expr::Var("b".to_string())),
                            Type::Int,
                            Box::new(Expr::BinExpr(
                                Box::new(Expr::Var("".to_string())),
                                Op::AssOp(AssOp::Eq),
                                Box::new(Expr::Int(1))
                            ))
                        ),
                        Expr::Return(Box::new(Expr::Var("b".to_string())))
                    ]
                )]
            ),
        ))
    );
}

#[test]
fn test_parser() {
    assert_eq!(
        parser(
            "        
            fn testfn1(a: bool) -> i32 {
                let c: i32 = (((2)));
                if a {
                    let b: i32 = 1;
                    return b
                } else {
                    return (c)
                };
            }

            fn testfn2() -> i32 {
                {{{ return testfn1(true); }}}
            }

            fn testfn3(b: bool, c: bool) -> i32 {
                let d: bool = b && c;
                let n: i32 = 0;
                while d == true {
                    n += 1;
                    d = false;
                };
                return n;    
            }

            fn main() -> i32 {
                let a: i32 = testfn2(); 
                let b: i32 = testfn3(true, true);
                return a + b
            }
            "
        ),
        Ok((
            "",
            vec![
                Expr::Fn(
                    Box::new(Expr::Var("testfn1".to_string())),
                    vec![(Expr::Var("a".to_string()), Type::Bool)],
                    Type::Int,
                    vec![
                        Expr::Let(
                            Box::new(Expr::Var("c".to_string())),
                            Type::Int,
                            Box::new(Expr::BinExpr(
                                Box::new(Expr::Var("".to_string())),
                                Op::AssOp(AssOp::Eq),
                                Box::new(Expr::Int(2)),
                            )),
                        ),
                        Expr::IfElse(
                            Box::new(Expr::Var("a".to_string())),
                            vec![
                                Expr::Let(
                                    Box::new(Expr::Var("b".to_string())),
                                    Type::Int,
                                    Box::new(Expr::BinExpr(
                                        Box::new(Expr::Var("".to_string())),
                                        Op::AssOp(AssOp::Eq),
                                        Box::new(Expr::Int(1)),
                                    )),
                                ),
                                Expr::Return(Box::new(Expr::Var("b".to_string()))),
                            ],
                            vec![Expr::Return(Box::new(Expr::Var("c".to_string())))],
                        ),
                    ],
                ),
                Expr::Fn(
                    Box::new(Expr::Var("testfn2".to_string())),
                    vec![],
                    Type::Int,
                    vec![Expr::Return(Box::new(Expr::FnCall(
                        Box::new(Expr::Var("testfn1".to_string())),
                        vec![Expr::Bool(true)],
                    )))],
                ),
                Expr::Fn(
                    Box::new(Expr::Var("testfn3".to_string())),
                    vec![
                        (Expr::Var("b".to_string()), Type::Bool),
                        (Expr::Var("c".to_string()), Type::Bool),
                    ],
                    Type::Int,
                    vec![
                        Expr::Let(
                            Box::new(Expr::Var("d".to_string())),
                            Type::Bool,
                            Box::new(Expr::VarExpr(
                                Box::new(Expr::Var("b".to_string())),
                                Op::LogOp(LogOp::And),
                                Box::new(Expr::Var("c".to_string())),
                            )),
                        ),
                        Expr::Let(
                            Box::new(Expr::Var("n".to_string())),
                            Type::Int,
                            Box::new(Expr::BinExpr(
                                Box::new(Expr::Var("".to_string())),
                                Op::AssOp(AssOp::Eq),
                                Box::new(Expr::Int(0)),
                            )),
                        ),
                        Expr::While(
                            Box::new(Expr::VarExpr(
                                Box::new(Expr::Var("d".to_string())),
                                Op::RelOp(RelOp::Eq),
                                Box::new(Expr::Bool(true)),
                            )),
                            vec![
                                Expr::VarExpr(
                                    Box::new(Expr::Var("n".to_string())),
                                    Op::AssOp(AssOp::AddEq),
                                    Box::new(Expr::Int(1)),
                                ),
                                Expr::VarExpr(
                                    Box::new(Expr::Var("d".to_string())),
                                    Op::AssOp(AssOp::Eq),
                                    Box::new(Expr::Bool(false)),
                                ),
                            ],
                        ),
                        Expr::Return(Box::new(Expr::Var("n".to_string()))),
                    ],
                ),
                Expr::Fn(
                    Box::new(Expr::Var("main".to_string())),
                    vec![],
                    Type::Int,
                    vec![
                        Expr::Let(
                            Box::new(Expr::Var("a".to_string())),
                            Type::Int,
                            Box::new(Expr::BinExpr(
                                Box::new(Expr::Var("".to_string())),
                                Op::AssOp(AssOp::Eq),
                                Box::new(Expr::FnCall(
                                    Box::new(Expr::Var("testfn2".to_string())),
                                    vec![],
                                )),
                            )),
                        ),
                        Expr::Let(
                            Box::new(Expr::Var("b".to_string())),
                            Type::Int,
                            Box::new(Expr::BinExpr(
                                Box::new(Expr::Var("".to_string())),
                                Op::AssOp(AssOp::Eq),
                                Box::new(Expr::FnCall(
                                    Box::new(Expr::Var("testfn3".to_string())),
                                    vec![Expr::Bool(true), Expr::Bool(true)],
                                )),
                            )),
                        ),
                        Expr::Return(Box::new(Expr::VarExpr(
                            Box::new(Expr::Var("a".to_string())),
                            Op::AriOp(AriOp::Add),
                            Box::new(Expr::Var("b".to_string())),
                        ))),
                    ],
                ),
            ]
        ))
    );
}
