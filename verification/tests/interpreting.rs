use asterix::interp::{Ast, BinOp, Expr, Interpreter, Lit, Op};

#[test]
fn simple_expr() {
    let one = Box::new(Expr::lit(Lit::new(1)));
    let one_p_one = BinOp::new(Op::Plus, one.clone(), one.clone());

    let two = Box::new(Expr::lit(Lit::new(2)));
    let minus_two = BinOp::new(Op::Minus, Box::new(Expr::binop(one_p_one.clone())), two);

    let mut interpreter = Interpreter;

    let result = interpreter.visit_ast(&Ast::expr(Expr::binop(one_p_one)));
    println!("1 + 1:       {}", result);
    let result = interpreter.visit_ast(&Ast::expr(Expr::binop(minus_two)));
    println!("(1 + 1) - 2: {}", result);
}

#[test]
fn evaluates_all_four_operators() {
    let mut interpreter = Interpreter;
    let six_times_seven = BinOp::new(
        Op::Times,
        Box::new(Expr::lit(Lit::new(6))),
        Box::new(Expr::lit(Lit::new(7))),
    );
    assert_eq!(interpreter.visit_binop(&six_times_seven), 42);

    let one_p_one = BinOp::new(
        Op::Plus,
        Box::new(Expr::lit(Lit::new(1))),
        Box::new(Expr::lit(Lit::new(1))),
    );
    assert_eq!(interpreter.visit_ast(&Ast::expr(Expr::binop(one_p_one.clone()))), 2);

    let minus_two = BinOp::new(
        Op::Minus,
        Box::new(Expr::binop(one_p_one)),
        Box::new(Expr::lit(Lit::new(2))),
    );
    assert_eq!(interpreter.visit_ast(&Ast::expr(Expr::binop(minus_two))), 0);

    assert_eq!(interpreter.visit_ast(&Ast::lit(Lit::new(9))), 9);
}

#[test]
fn division_truncates_toward_zero() {
    let mut interpreter = Interpreter;
    let seven_by_minus_two = BinOp::new(
        Op::Divide,
        Box::new(Expr::lit(Lit::new(7))),
        Box::new(Expr::lit(Lit::new(-2))),
    );
    assert_eq!(interpreter.visit_binop(&seven_by_minus_two), -3);

    let minus_seven_by_two = BinOp::new(
        Op::Divide,
        Box::new(Expr::lit(Lit::new(-7))),
        Box::new(Expr::lit(Lit::new(2))),
    );
    assert_eq!(interpreter.visit_binop(&minus_seven_by_two), -3);
}

#[test]
fn constructors_and_accessors_round_trip() {
    let b = BinOp::new(
        Op::Plus,
        Box::new(Expr::lit(Lit::new(1))),
        Box::new(Expr::lit(Lit::new(2))),
    );
    assert_eq!(*b.op(), Op::Plus);
    assert!(matches!(&**b.lhs(), Expr::Lit(Lit(1))));
    assert!(matches!(&**b.rhs(), Expr::Lit(Lit(2))));

    let lit = Lit::new(5);
    assert_eq!(*lit.inner(), 5);
    assert_eq!(lit.into_inner(), 5);

    let mut lit = Lit::from(3);
    assert_eq!(*lit.inner(), 3);
    *lit.inner_mut() = 4;
    assert_eq!(*lit.inner(), 4);

    let mut b = b;
    *b.op_mut() = Op::Times;
    assert_eq!(*b.op(), Op::Times);
    *b.lhs_mut() = Box::new(Expr::lit(Lit::new(10)));
    assert!(matches!(&**b.lhs(), Expr::Lit(Lit(10))));

    assert_eq!(Op::plus(), Op::Plus);
    assert_eq!(Op::minus(), Op::Minus);
    assert_eq!(Op::times(), Op::Times);
    assert_eq!(Op::divide(), Op::Divide);

    assert!(matches!(Expr::lit(Lit::new(1)), Expr::Lit(Lit(1))));
    assert!(matches!(Ast::lit(Lit::new(1)), Ast::Lit(Lit(1))));
}
