//! A named per-pixel computation: an arity (the number of producer
//! inputs) together with an expression body over the two coordinates and
//! those producers.

use vstd::prelude::*;
use crate::expression::Expression;
use crate::expression::Var;

verus! {

/// A per-pixel function: `num_inputs` producers and a body whose
/// `InputCall` ids are expected (and checked at compile time) to lie
/// below `num_inputs`.
#[derive(Debug)]
pub struct Function {
    pub num_inputs: usize,
    pub e: Expression,
}

impl Clone for Function {
    /// A deep copy, equal to the original.
    fn clone(&self) -> (r: Self)
        ensures
            r == *self,
    {
        Function { num_inputs: self.num_inputs, e: self.e.clone() }
    }
}

/// A coordinate reference offset by a constant, written the way kernel
/// bodies spell it: a plain `Var` when the offset is 0, otherwise the
/// sum of the variable and the constant.
pub open spec fn coord_off(a: Var, d: i64) -> Expression {
    if d == 0 {
        Expression::Var(a)
    } else {
        Expression::Add(Box::new(Expression::Var(a)), Box::new(Expression::Const(d)))
    }
}

/// One tap of a 3x3 convolution: the single producer sampled at the
/// offset coordinate, scaled by the kernel weight.
pub open spec fn kernel_term(dx: i64, dy: i64, w: i64) -> Expression {
    Expression::Mul(
        Box::new(
            Expression::InputCall(
                0,
                Box::new(coord_off(Var::X, dx)),
                Box::new(coord_off(Var::Y, dy)),
            ),
        ),
        Box::new(Expression::Const(w)),
    )
}

/// The body built by `gen_3x3_kernel`: the nine taps of the kernel,
/// summed left to right, columns outermost.
pub open spec fn kernel_3x3_expr(k: Seq<Seq<i64>>) -> Expression {
    let t1 = kernel_term(-1i64, -1i64, k[0][0]);
    let t2 = kernel_term(-1i64, 0i64, k[1][0]);
    let t3 = kernel_term(-1i64, 1i64, k[2][0]);
    let t4 = kernel_term(0i64, -1i64, k[0][1]);
    let t5 = kernel_term(0i64, 0i64, k[1][1]);
    let t6 = kernel_term(0i64, 1i64, k[2][1]);
    let t7 = kernel_term(1i64, -1i64, k[0][2]);
    let t8 = kernel_term(1i64, 0i64, k[1][2]);
    let t9 = kernel_term(1i64, 1i64, k[2][2]);
    let s2 = Expression::Add(Box::new(t1), Box::new(t2));
    let s3 = Expression::Add(Box::new(s2), Box::new(t3));
    let s4 = Expression::Add(Box::new(s3), Box::new(t4));
    let s5 = Expression::Add(Box::new(s4), Box::new(t5));
    let s6 = Expression::Add(Box::new(s5), Box::new(t6));
    let s7 = Expression::Add(Box::new(s6), Box::new(t7));
    let s8 = Expression::Add(Box::new(s7), Box::new(t8));
    Expression::Add(Box::new(s8), Box::new(t9))
}

/// The view of a 3x3 weight matrix as nested sequences.
pub open spec fn kernel_view(k: [[i64; 3]; 3]) -> Seq<Seq<i64>> {
    k@.map_values(|row: [i64; 3]| row@)
}

impl Function {
    /// Stores a body under the given arity. Nothing is checked here:
    /// a body whose `InputCall` ids reach `num_inputs` or beyond is
    /// rejected later, when the chain it belongs to is compiled.
    pub fn new(num_inputs: usize, e: Expression) -> (r: Self)
        ensures
            r.num_inputs == num_inputs,
            r.e == e,
    {
        Function { num_inputs, e }
    }

    /// Builds the arity-1 function convolving its producer with the 3x3
    /// weight matrix `k`: the producer is sampled at the eight neighbours
    /// and the centre of `(x, y)`, each sample scaled by `k[dy+1][dx+1]`.
    pub fn gen_3x3_kernel(k: [[i64; 3]; 3]) -> (r: Self)
        ensures
            r.num_inputs == 1,
            r.e == kernel_3x3_expr(kernel_view(k)),
    {
        let t1 = build_kernel_term(-1, -1, k[0][0]);
        let t2 = build_kernel_term(-1, 0, k[1][0]);
        let t3 = build_kernel_term(-1, 1, k[2][0]);
        let t4 = build_kernel_term(0, -1, k[0][1]);
        let t5 = build_kernel_term(0, 0, k[1][1]);
        let t6 = build_kernel_term(0, 1, k[2][1]);
        let t7 = build_kernel_term(1, -1, k[0][2]);
        let t8 = build_kernel_term(1, 0, k[1][2]);
        let t9 = build_kernel_term(1, 1, k[2][2]);
        let s2 = Expression::Add(Box::new(t1), Box::new(t2));
        let s3 = Expression::Add(Box::new(s2), Box::new(t3));
        let s4 = Expression::Add(Box::new(s3), Box::new(t4));
        let s5 = Expression::Add(Box::new(s4), Box::new(t5));
        let s6 = Expression::Add(Box::new(s5), Box::new(t6));
        let s7 = Expression::Add(Box::new(s6), Box::new(t7));
        let s8 = Expression::Add(Box::new(s7), Box::new(t8));
        let e = Expression::Add(Box::new(s8), Box::new(t9));
        Function { num_inputs: 1, e }
    }

    pub fn get_expr(&self) -> (r: &Expression)
        ensures
            *r == self.e,
    {
        &self.e
    }
}

/// Executable counterpart of `kernel_term`.
fn build_kernel_term(dx: i64, dy: i64, w: i64) -> (r: Expression)
    ensures
        r == kernel_term(dx, dy, w),
{
    let xe = build_coord_off_x(dx);
    let ye = build_coord_off_y(dy);
    Expression::Mul(
        Box::new(Expression::InputCall(0, Box::new(xe), Box::new(ye))),
        Box::new(Expression::Const(w)),
    )
}

/// Executable counterpart of `coord_off` for the X axis.
fn build_coord_off_x(d: i64) -> (r: Expression)
    ensures
        r == coord_off(Var::X, d),
{
    if d == 0 {
        Expression::Var(Var::X)
    } else {
        Expression::Add(Box::new(Expression::Var(Var::X)), Box::new(Expression::Const(d)))
    }
}

/// Executable counterpart of `coord_off` for the Y axis.
fn build_coord_off_y(d: i64) -> (r: Expression)
    ensures
        r == coord_off(Var::Y, d),
{
    if d == 0 {
        Expression::Var(Var::Y)
    } else {
        Expression::Add(Box::new(Expression::Var(Var::Y)), Box::new(Expression::Const(d)))
    }
}

} // verus!
