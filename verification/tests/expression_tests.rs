use rust_img::expression::Expression;
use rust_img::expression::FunctionEnv;
use rust_img::expression::Var;
use rust_img::img::VecInpt;

#[test]
fn test_const() {
    let env = FunctionEnv { x: 0, y: 100 };
    let inpt = VecInpt::new(Vec::new());

    let e = Expression::Const(100);

    let r = e.eval(env, &vec![inpt]);
    assert!(r == 100);
}

#[test]
fn test_var_ref() {
    let env = FunctionEnv { x: 0, y: 100 };
    let inpts = vec![VecInpt::new(Vec::new())];

    let e1 = Expression::Var(Var::X);
    assert!(e1.eval(env, &inpts) == 0);

    let e1 = Expression::Var(Var::Y);
    assert!(e1.eval(env, &inpts) == 100);

    let e2 = Expression::coord(Var::Y).plus_const(1);
    assert!(e2.eval(env, &inpts) == 101);

    let e2 = Expression::coord(Var::Y).plus_const(2);
    assert!(e2.eval(env, &inpts) == 102);
}

#[test]
fn test_add_expr() {
    let inpts = vec![VecInpt::new(Vec::new())];
    let env = FunctionEnv { x: 0, y: 0 };

    let e = Expression::Add(Box::new(Expression::Const(100)), Box::new(Expression::Const(100)));

    let r = e.eval(env, &inpts);
    assert!(r == 200);

    // the same sum written through the algebra helpers
    let e = Expression::constant(100).plus(Expression::constant(100));

    let r = e.eval(env, &inpts);
    assert!(r == 200);
}

#[test]
fn test_mul_expr() {
    let inpts = vec![VecInpt::new(Vec::new())];
    let env = FunctionEnv { x: 0, y: 0 };

    let e = Expression::Mul(Box::new(Expression::Const(100)), Box::new(Expression::Const(100)));

    let r = e.eval(env, &inpts);
    assert!(r == 100 * 100);

    // the same product written through the algebra helpers
    let e = Expression::constant(100).times(Expression::constant(100));

    let r = e.eval(env, &inpts);
    assert!(r == 100 * 100);

    let e = Expression::constant(100).times_const(100);

    let r = e.eval(env, &inpts);
    assert!(r == 100 * 100);
}

#[test]
fn test_sqrt_expr() {
    let inpt = VecInpt::new(Vec::new());
    let env = FunctionEnv { x: 0, y: 0 };

    let e1 = Expression::Sqrt(Box::new(Expression::Const(100)));
    assert!(e1.eval(env, &vec![inpt]) == 10);
}

#[test]
fn test_inpt_expr() {
    let mut vec = Vec::new();
    vec.push(0);

    let inpt = VecInpt::new(vec);
    let env = FunctionEnv { x: 0, y: 0 };

    let e = Expression::InputCall(
        0,
        Box::new(Expression::Const(0)),
        Box::new(Expression::Const(0)),
    );

    assert!(0 == e.eval(env, &vec![inpt]));
}

#[test]
fn test_sqrt_non_square() {
    let env = FunctionEnv { x: 0, y: 0 };
    let inpts: Vec<VecInpt> = Vec::new();

    let e = Expression::Sqrt(Box::new(Expression::Const(99)));
    assert!(e.eval(env, &inpts) == 9);

    let e = Expression::Sqrt(Box::new(Expression::Const(0)));
    assert!(e.eval(env, &inpts) == 0);

    let e = Expression::Sqrt(Box::new(Expression::Const(1)));
    assert!(e.eval(env, &inpts) == 1);

    // below 1 the integer square root is defined as 0
    let e = Expression::Sqrt(Box::new(Expression::Const(-7)));
    assert!(e.eval(env, &inpts) == 0);
}

#[test]
fn test_wrapping_arithmetic() {
    let env = FunctionEnv { x: 0, y: 0 };
    let inpts: Vec<VecInpt> = Vec::new();

    // two's-complement 64-bit: i64::MAX * 2 wraps to -2
    let e = Expression::Mul(Box::new(Expression::Const(i64::MAX)), Box::new(Expression::Const(2)));
    assert_eq!(e.eval(env, &inpts), -2);

    // and i64::MAX + 1 wraps to i64::MIN
    let e = Expression::Add(Box::new(Expression::Const(i64::MAX)), Box::new(Expression::Const(1)));
    assert_eq!(e.eval(env, &inpts), i64::MIN);
}

#[test]
fn test_vec_inpt_fetch() {
    let inpt = VecInpt::new(vec![7, 8, 9]);
    // only row 0 holds data; everything else reads 0
    assert_eq!(inpt.at(0, 0), 7);
    assert_eq!(inpt.at(2, 0), 9);
    assert_eq!(inpt.at(3, 0), 0);
    assert_eq!(inpt.at(-1, 0), 0);
    assert_eq!(inpt.at(1, 1), 0);
    assert_eq!(inpt.width(), 3);
    assert_eq!(inpt.height(), 0);
}
