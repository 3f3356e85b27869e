use rust_img::chain::ChainLink;
use rust_img::expression::Expression;
use rust_img::expression::Var;
use rust_img::function::Function;
use rust_img::img::Image;
use rust_img::inputbuilder::InputBuilder;
use rust_img::lower::lower_body;
use rust_img::lower::lower_chain_plan;
use rust_img::lower::LowerOp;

#[test]
fn test_lower_body_postfix() {
    // x + 1 lowers to postfix: push x, push 1, add
    let e = Expression::coord(Var::X).plus_const(1);
    let ops = lower_body(&e, 0);
    assert_eq!(ops, vec![LowerOp::PushX, LowerOp::PushConst(1), LowerOp::Add]);

    // sqrt(in0(x, y) * 3) lowers inside out
    let input = InputBuilder { id: 0 };
    let e = input
        .build(Expression::coord(Var::X), Expression::coord(Var::Y))
        .times_const(3)
        .sqrt();
    let ops = lower_body(&e, 1);
    assert_eq!(
        ops,
        vec![
            LowerOp::PushX,
            LowerOp::PushY,
            LowerOp::CallStage(0),
            LowerOp::PushConst(3),
            LowerOp::Mul,
            LowerOp::Sqrt,
        ]
    );
}

#[test]
fn test_lower_chain_plan_stages() {
    // one source stage, then the identity body dispatching to it
    let input = InputBuilder { id: 0 };
    let body = input.build(Expression::Var(Var::X), Expression::Var(Var::Y));
    let id = Function::new(1, body);
    let chain = ChainLink::link(vec![ChainLink::ImageSource(0)], id).unwrap();

    let plan = lower_chain_plan(&chain);
    assert_eq!(plan.stages.len(), 2);
    assert_eq!(
        plan.stages[0].ops,
        vec![LowerOp::PushX, LowerOp::PushY, LowerOp::FetchSource(0)]
    );
    assert!(plan.stages[0].children.is_empty());
    assert_eq!(
        plan.stages[1].ops,
        vec![LowerOp::PushX, LowerOp::PushY, LowerOp::CallStage(0)]
    );
    assert_eq!(plan.stages[1].children, vec![0]);
}

#[test]
fn test_lower_chain_plan_shared_source() {
    // two kernels over the same source, combined by an arity-2 stage:
    // stages come out children-first, dispatch strictly backwards
    let kx = [[-1, 0, 1], [-2, 0, 2], [-1, 0, 1]];
    let ky = [[-1, -2, -1], [0, 0, 0], [1, 2, 1]];
    let c1 = ChainLink::link(vec![ChainLink::ImageSource(0)], Function::gen_3x3_kernel(kx))
        .unwrap();
    let c2 = ChainLink::link(vec![ChainLink::ImageSource(0)], Function::gen_3x3_kernel(ky))
        .unwrap();
    let a = InputBuilder { id: 0 };
    let b = InputBuilder { id: 1 };
    let grad = Function::new(
        2,
        Expression::Add(
            Box::new(a.build(Expression::Var(Var::X), Expression::Var(Var::Y))),
            Box::new(b.build(Expression::Var(Var::X), Expression::Var(Var::Y))),
        ),
    );
    let chain = ChainLink::link(vec![c1, c2], grad).unwrap();

    let plan = lower_chain_plan(&chain);
    // source, kernel-x, source, kernel-y, gradient
    assert_eq!(plan.stages.len(), 5);
    assert_eq!(plan.stages[1].children, vec![0]);
    assert_eq!(plan.stages[3].children, vec![2]);
    assert_eq!(plan.stages[4].children, vec![1, 3]);
    for (i, st) in plan.stages.iter().enumerate() {
        for &k in &st.children {
            assert!(k < i);
        }
    }
}

#[test]
fn test_chain_clone_reuse() {
    // a cloned chain compiles and runs like the original
    let input = InputBuilder { id: 0 };
    let body = input.build(Expression::Var(Var::X), Expression::Var(Var::Y));
    let id = Function::new(1, body);
    let chain = ChainLink::link(vec![ChainLink::ImageSource(0)], id).unwrap();
    let copy = chain.clone();

    let img1 = Image::from_raw(2, 2, vec![5, 6, 7, 8]).unwrap();
    let img2 = Image::from_raw(2, 2, vec![5, 6, 7, 8]).unwrap();
    let out1 = chain.compile().unwrap().run_on(&vec![img1]).unwrap().into_raw();
    let out2 = copy.compile().unwrap().run_on(&vec![img2]).unwrap().into_raw();
    assert_eq!(out1, out2);
    assert_eq!(out1, vec![5, 6, 7, 8]);
}
