use rust_img::chain::ChainLink;
use rust_img::chain::ConstructionError;
use rust_img::expression::Expression;
use rust_img::expression::Var;
use rust_img::function::Function;
use rust_img::img::Image;
use rust_img::inputbuilder::InputBuilder;

fn identity_function() -> Function {
    let input = InputBuilder { id: 0 };
    let body = input.build(Expression::Var(Var::X), Expression::Var(Var::Y));
    let f = Function::new(1, body);
    assert!(matches!(f.get_expr(), Expression::InputCall(0, _, _)));
    f
}

fn run_single(chain: ChainLink, img: Image) -> Vec<u8> {
    let cc = chain.compile().unwrap();
    let out = cc.run_on(&vec![img]).unwrap();
    out.into_raw()
}

#[test]
fn test_id() {
    let mut raw: Vec<u8> = Vec::new();
    raw.push(0);
    raw.push(1);
    raw.push(2);
    raw.push(3);

    let img = Image::from_raw(2, 2, raw).unwrap();

    let id = identity_function();
    let chain = ChainLink::link(vec![ChainLink::ImageSource(0)], id).unwrap();

    let raw = run_single(chain, img);
    assert!(raw.len() == 4);
    assert!(raw[0] == 0);
    assert!(raw[1] == 1);
    assert!(raw[2] == 2);
    assert!(raw[3] == 3);
}

#[test]
fn test_shift_one() {
    let mut raw: Vec<u8> = Vec::new();
    raw.push(0);
    raw.push(100);
    raw.push(200);
    raw.push(255);
    let img = Image::from_raw(2, 2, raw).unwrap();

    let input = InputBuilder { id: 0 };
    let body = input.build(
        Expression::coord(Var::X).minus_const(1),
        Expression::coord(Var::Y),
    );
    let shift_one = Function::new(1, body);
    let chain = ChainLink::link(vec![ChainLink::ImageSource(0)], shift_one).unwrap();

    let raw = run_single(chain, img);
    assert!(raw.len() == 4);
    assert!(raw[0] == 0);
    assert!(raw[1] == 0);
    assert!(raw[2] == 0);
    assert!(raw[3] == 200);
}

#[test]
fn test_simple_sobel() {
    let inpt = [[0, 0, 0], [255, 255, 255], [0, 0, 0]];

    let mut raw: Vec<u8> = Vec::new();
    for x in 0..3 {
        for y in 0..3 {
            raw.push(inpt[x][y]);
        }
    }

    let img = Image::from_raw(3, 3, raw).unwrap();

    let k = [[-1, 0, 1], [-2, 0, 2], [-1, 0, 1]];

    let sobel_x = Function::gen_3x3_kernel(k);
    let chain = ChainLink::link(vec![ChainLink::ImageSource(0)], sobel_x).unwrap();

    let raw = run_single(chain, img);
    assert!(raw.len() == 9);

    let expected = [255, 0, 0, 255, 0, 0, 255, 0, 0];
    for i in 0..9 {
        assert!(raw[i] == expected[i]);
    }
}

// a constant body folds to its value at every pixel, saturated
#[test]
fn test_const_chain() {
    let body = Expression::Add(Box::new(Expression::Const(120)), Box::new(Expression::Const(5)));
    let f = Function::new(0, body);
    let chain = ChainLink::link(Vec::new(), f).unwrap();
    let img = Image::from_raw(2, 1, vec![9, 9]).unwrap();
    let raw = run_single(chain, img);
    assert_eq!(raw, vec![125, 125]);
}

// saturation: values of 255 or more pin to 255, negatives to 0
#[test]
fn test_saturation_bounds() {
    let body = Expression::Const(300);
    let f = Function::new(0, body);
    let chain = ChainLink::link(Vec::new(), f).unwrap();
    let img = Image::from_raw(1, 1, vec![0]).unwrap();
    assert_eq!(run_single(chain, img), vec![255]);

    let body = Expression::Const(-5);
    let f = Function::new(0, body);
    let chain = ChainLink::link(Vec::new(), f).unwrap();
    let img = Image::from_raw(1, 1, vec![0]).unwrap();
    assert_eq!(run_single(chain, img), vec![0]);

    let body = Expression::Const(255);
    let f = Function::new(0, body);
    let chain = ChainLink::link(Vec::new(), f).unwrap();
    let img = Image::from_raw(1, 1, vec![0]).unwrap();
    assert_eq!(run_single(chain, img), vec![255]);
}

// sqrt of a constant through the whole pipeline
#[test]
fn test_sqrt_chain() {
    let body = Expression::constant(100).sqrt();
    let f = Function::new(1, body);
    let chain = ChainLink::link(vec![ChainLink::ImageSource(0)], f).unwrap();
    let img = Image::from_raw(1, 1, vec![0]).unwrap();
    assert_eq!(run_single(chain, img), vec![10]);
}

// Sobel magnitude over a uniform zero image is zero everywhere; over a
// uniform bright image the interior is zero as well
#[test]
fn test_sobel_magnitude_uniform() {
    let kx = [[-1, 0, 1], [-2, 0, 2], [-1, 0, 1]];
    let ky = [[-1, -2, -1], [0, 0, 0], [1, 2, 1]];

    let build_chain = || {
        let sobel_x = Function::gen_3x3_kernel(kx);
        let sobel_y = Function::gen_3x3_kernel(ky);
        let c1 = ChainLink::link(vec![ChainLink::ImageSource(0)], sobel_x).unwrap();
        let c2 = ChainLink::link(vec![ChainLink::ImageSource(0)], sobel_y).unwrap();

        let a = InputBuilder { id: 0 };
        let b = InputBuilder { id: 1 };
        let t1 = Expression::Mul(
            Box::new(a.build(Expression::Var(Var::X), Expression::Var(Var::Y))),
            Box::new(a.build(Expression::Var(Var::X), Expression::Var(Var::Y))),
        );
        let t2 = Expression::Mul(
            Box::new(b.build(Expression::Var(Var::X), Expression::Var(Var::Y))),
            Box::new(b.build(Expression::Var(Var::X), Expression::Var(Var::Y))),
        );
        let grad = Function::new(
            2,
            Expression::Sqrt(Box::new(Expression::Add(Box::new(t1), Box::new(t2)))),
        );
        ChainLink::link(vec![c1, c2], grad).unwrap()
    };

    let img = Image::from_raw(3, 3, vec![0; 9]).unwrap();
    assert_eq!(run_single(build_chain(), img), vec![0; 9]);

    let img = Image::from_raw(5, 5, vec![100; 25]).unwrap();
    let raw = run_single(build_chain(), img);
    // centre pixel: both gradients cancel on a uniform neighbourhood
    assert_eq!(raw[12], 0);
}

#[test]
fn test_multiple_inputs() {
    // out(x, y) = in0(x, y) + in1(x, y)
    let a = InputBuilder { id: 0 };
    let b = InputBuilder { id: 1 };
    let body = Expression::Add(
        Box::new(a.build(Expression::Var(Var::X), Expression::Var(Var::Y))),
        Box::new(b.build(Expression::Var(Var::X), Expression::Var(Var::Y))),
    );
    let f = Function::new(2, body);
    let chain = ChainLink::link(
        vec![ChainLink::ImageSource(0), ChainLink::ImageSource(1)],
        f,
    )
    .unwrap();
    let cc = chain.compile().unwrap();

    let img0 = Image::from_raw(2, 1, vec![10, 250]).unwrap();
    let img1 = Image::from_raw(2, 1, vec![20, 10]).unwrap();
    let out = cc.run_on(&vec![img0, img1]).unwrap();
    assert_eq!(out.width(), 2);
    assert_eq!(out.height(), 1);
    assert_eq!(out.into_raw(), vec![30, 255]);
}

#[test]
fn test_arity_mismatch() {
    let id = identity_function();
    let r = ChainLink::link(
        vec![ChainLink::ImageSource(0), ChainLink::ImageSource(1)],
        id,
    );
    assert!(matches!(r, Err(ConstructionError::ArityMismatch)));
}

#[test]
fn test_input_id_out_of_range() {
    // arity 1, but the body samples producer 1
    let input = InputBuilder { id: 1 };
    let body = input.build(Expression::Var(Var::X), Expression::Var(Var::Y));
    let f = Function::new(1, body);
    let chain = ChainLink::link(vec![ChainLink::ImageSource(0)], f).unwrap();
    let r = chain.compile();
    assert!(matches!(r, Err(ConstructionError::InputIdOutOfRange)));
}

#[test]
fn test_empty_inputs() {
    let id = identity_function();
    let chain = ChainLink::link(vec![ChainLink::ImageSource(0)], id).unwrap();
    let cc = chain.compile().unwrap();
    let r = cc.run_on(&Vec::new());
    assert!(matches!(r, Err(ConstructionError::EmptyInputs)));
}

#[test]
fn test_dimension_mismatch() {
    let a = InputBuilder { id: 0 };
    let b = InputBuilder { id: 1 };
    let body = Expression::Add(
        Box::new(a.build(Expression::Var(Var::X), Expression::Var(Var::Y))),
        Box::new(b.build(Expression::Var(Var::X), Expression::Var(Var::Y))),
    );
    let f = Function::new(2, body);
    let chain = ChainLink::link(
        vec![ChainLink::ImageSource(0), ChainLink::ImageSource(1)],
        f,
    )
    .unwrap();
    let cc = chain.compile().unwrap();

    let img0 = Image::from_raw(2, 2, vec![0; 4]).unwrap();
    let img1 = Image::from_raw(1, 1, vec![0]).unwrap();
    let r = cc.run_on(&vec![img0, img1]);
    assert!(matches!(r, Err(ConstructionError::DimensionMismatch)));
}

#[test]
fn test_source_out_of_range() {
    let input = InputBuilder { id: 0 };
    let body = input.build(Expression::Var(Var::X), Expression::Var(Var::Y));
    let f = Function::new(1, body);
    let chain = ChainLink::link(vec![ChainLink::ImageSource(2)], f).unwrap();
    let cc = chain.compile().unwrap();
    let img = Image::from_raw(1, 1, vec![0]).unwrap();
    let r = cc.run_on(&vec![img]);
    assert!(matches!(r, Err(ConstructionError::SourceOutOfRange)));
}

#[test]
fn test_from_raw_rejects_bad_length() {
    assert!(Image::from_raw(2, 2, vec![0; 3]).is_none());
    assert!(Image::from_raw(2, 2, vec![0; 4]).is_some());
}

// translation in y, with 0-fill at the uncovered border
#[test]
fn test_shift_down() {
    let img = Image::from_raw(2, 2, vec![1, 2, 3, 4]).unwrap();
    let input = InputBuilder { id: 0 };
    let body = input.build(
        Expression::coord(Var::X),
        Expression::coord(Var::Y).minus_const(1),
    );
    let f = Function::new(1, body);
    let chain = ChainLink::link(vec![ChainLink::ImageSource(0)], f).unwrap();
    let raw = run_single(chain, img);
    assert_eq!(raw, vec![0, 0, 1, 2]);
}
