use frontend::lexer::lex::decimal_literal;
use frontend::parser::ast::{
    AExpr, AExprKind, AOp, APrefixOp, BExpr, BExprKind, BOp, CmpOp, Elif, Expr, ExprKind, Fixity,
    Identifier, IdentifierKind, LiteralKind, Precedence, Program, Stmt, StmtKind,
};
use frontend::parser::span::Span;

fn span(start: usize, end: usize) -> Span {
    Span { start, end }
}

fn number(value: i64, at: usize) -> AExpr {
    AExpr { span: span(at, at + 1), kind: AExprKind::from(value) }
}

#[test]
fn literal_kind_from_values() {
    assert_eq!(LiteralKind::from(5i64), LiteralKind::Number(5));
    assert_eq!(LiteralKind::from(-5i32), LiteralKind::Number(-5));
    assert_eq!(LiteralKind::from(i32::MIN), LiteralKind::Number(-2147483648));
    assert_eq!(LiteralKind::from(String::from("ab")), LiteralKind::String(String::from("ab")));
    assert_eq!(LiteralKind::from("ab"), LiteralKind::String(String::from("ab")));
    assert_eq!(LiteralKind::from(""), LiteralKind::String(String::new()));
    assert_eq!(LiteralKind::from(true), LiteralKind::Bool(true));
    assert_eq!(LiteralKind::from('c'), LiteralKind::Char('c'));
}

#[test]
fn arithmetic_kind_from_values() {
    assert_eq!(AExprKind::from(7i64), AExprKind::Int(7));
    assert_eq!(AExprKind::from(7i32), AExprKind::Int(7));
    assert_eq!(AExprKind::from(i32::MAX), AExprKind::Int(2147483647));
}

#[test]
fn boolean_kind_from_values() {
    assert_eq!(BExprKind::from(true), BExprKind::True);
    assert_eq!(BExprKind::from(false), BExprKind::False);
}

#[test]
fn identifier_kind_from_values() {
    assert_eq!(IdentifierKind::from(5i64), IdentifierKind::Int64(5));
    assert_eq!(IdentifierKind::from(5i32), IdentifierKind::Int64(5));
    assert_eq!(IdentifierKind::from(String::from("s")), IdentifierKind::String(String::from("s")));
    assert_eq!(IdentifierKind::from("s"), IdentifierKind::String(String::from("s")));
    assert_eq!(IdentifierKind::from(false), IdentifierKind::Bool(false));
    assert_eq!(IdentifierKind::from('x'), IdentifierKind::Char('x'));
}

#[test]
fn decimal_nodes_hold_the_literal() {
    let half = decimal_literal(b"0.5").unwrap();
    assert_eq!(LiteralKind::Decimal(half.clone()), LiteralKind::Decimal(half.clone()));
    assert_ne!(AExprKind::Decimal(half.clone()), AExprKind::Int(0));
    match IdentifierKind::Float64(half) {
        IdentifierKind::Float64(d) => assert_eq!(d.text().parse::<f64>().unwrap(), 0.5),
        _ => unreachable!(),
    }
}

#[test]
fn precedence_is_ordered_by_rank() {
    let levels = vec![
        Precedence::Lowest,
        Precedence::Equals,
        Precedence::Comparison,
        Precedence::Sum,
        Precedence::Product,
        Precedence::Call,
    ];
    let ranks: Vec<i32> = levels.iter().map(|p| p.rank()).collect();
    assert_eq!(ranks, vec![-10, 0, 10, 20, 30, 40]);
    for a in &levels {
        for b in &levels {
            assert_eq!(a < b, a.rank() < b.rank());
            assert_eq!(a == b, a.rank() == b.rank());
        }
    }
    assert_ne!(Fixity::Left, Fixity::Right);
    assert_ne!(Fixity::Left, Fixity::Neither);
}

#[test]
fn a_program_is_built_from_its_parts() {
    // while (a >= 20) { a = a + 2; if (!true) { break; } elif (true) { continue; } else { return a; } }
    let a = Identifier { name: String::from("a"), kind: IdentifierKind::from(0i64) };
    let cond = BExpr {
        span: span(6, 13),
        kind: BExprKind::AInfix {
            left: Box::new(AExpr { span: span(6, 7), kind: AExprKind::Ident(a.clone()) }),
            op: CmpOp::GreaterThanEqual,
            right: Box::new(number(20, 11)),
        },
    };
    let sum = AExpr {
        span: span(20, 25),
        kind: AExprKind::Infix {
            left: Box::new(AExpr {
                span: span(20, 21),
                kind: AExprKind::Grouping(Box::new(AExpr {
                    span: span(20, 21),
                    kind: AExprKind::Prefix { op: APrefixOp::Minus, expr: Box::new(number(1, 20)) },
                })),
            }),
            op: AOp::Plus,
            right: Box::new(number(2, 24)),
        },
    };
    let assign = Stmt {
        span: span(16, 26),
        kind: StmtKind::Assign {
            ident: a.clone(),
            value: Box::new(Expr { span: span(20, 25), kind: ExprKind::AExpr(sum) }),
        },
    };
    let not_true = BExpr {
        span: span(30, 35),
        kind: BExprKind::Not(Box::new(BExpr { span: span(31, 35), kind: BExprKind::from(true) })),
    };
    let both = BExpr {
        span: span(40, 50),
        kind: BExprKind::BInfix {
            left: Box::new(BExpr { span: span(40, 44), kind: BExprKind::True }),
            op: BOp::And,
            right: Box::new(BExpr {
                span: span(46, 50),
                kind: BExprKind::Grouping(Box::new(BExpr {
                    span: span(46, 50),
                    kind: BExprKind::Ident(a.clone()),
                })),
            }),
        },
    };
    let branch = Stmt {
        span: span(27, 80),
        kind: StmtKind::If {
            cond: not_true,
            if_true: vec![Stmt { span: span(38, 44), kind: StmtKind::Break }],
            elif: Some(vec![Elif {
                cond: both,
                body: vec![Stmt { span: span(52, 61), kind: StmtKind::Continue }],
                span: span(46, 62),
            }]),
            if_false: Some(vec![Stmt {
                span: span(70, 79),
                kind: StmtKind::Return(Box::new(Expr {
                    span: span(77, 78),
                    kind: ExprKind::Grouping(Box::new(ExprKind::Ident(a.clone()))),
                })),
            }]),
        },
    };
    let program: Program = vec![Stmt {
        span: span(0, 82),
        kind: StmtKind::While { cond, body: vec![assign, branch] },
    }];
    assert_eq!(program.len(), 1);
    match &program[0].kind {
        StmtKind::While { body, .. } => {
            assert_eq!(body.len(), 2);
            assert_eq!(body[0].span, span(16, 26));
            assert!(matches!(body[1].kind, StmtKind::If { .. }));
        },
        _ => unreachable!(),
    }
    assert_eq!(program.clone(), program);
    let copy = program[0].clone();
    assert_eq!(copy, program[0]);
    assert_eq!(copy.kind.clone(), program[0].kind);
    let literal = Expr { span: span(0, 1), kind: ExprKind::Literal(LiteralKind::from('x')) };
    assert_ne!(literal.kind, ExprKind::Literal(LiteralKind::from('y')));
    assert_ne!(BOp::Or, BOp::XOr);
    assert_ne!(AOp::LShift, AOp::RShift);
    assert_ne!(CmpOp::Equal, CmpOp::NotEqual);
    assert_ne!(CmpOp::LessThan, CmpOp::GreaterThan);
    assert_ne!(CmpOp::LessThanEqual, CmpOp::GreaterThanEqual);
    assert_ne!(AOp::Minus, AOp::Div);
    assert_ne!(AOp::Mult, AOp::Modulo);
    assert_ne!(APrefixOp::Plus, APrefixOp::Minus);
}
