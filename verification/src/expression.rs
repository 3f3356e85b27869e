//! The expression algebra: a pure, immutable tree of integer-valued
//! per-pixel operations over the two output coordinates and the enclosing
//! function's producer inputs.

use vstd::prelude::*;
use crate::img::VecInpt;
use crate::img::vec_plane_at;
use crate::runtime::isqrt;
use crate::runtime::isqrt64;
use vstd::wrapping::i64_specs;

verus! {

/// A coordinate axis: the output column (`X`) or the output row (`Y`).
#[derive(Clone, Copy, Debug, PartialEq, Eq, Structural)]
pub enum Var {
    X,
    Y,
}

/// An arithmetic expression evaluated at every output coordinate.
///
/// All arithmetic is two's-complement 64-bit: `Add` and `Mul` wrap,
/// `Sqrt` is the integer square root, and `InputCall(id, xe, ye)` samples
/// the enclosing function's `id`-th producer at the coordinates that
/// `xe` and `ye` evaluate to.
#[derive(Debug)]
pub enum Expression {
    Const(i64),
    Var(Var),
    Add(Box<Expression>, Box<Expression>),
    Mul(Box<Expression>, Box<Expression>),
    Sqrt(Box<Expression>),
    InputCall(usize, Box<Expression>, Box<Expression>),
}

impl Expression {
    /// Every `InputCall` id anywhere in the expression is below `n`.
    pub open spec fn ids_ok(self, n: int) -> bool
        decreases self,
    {
        match self {
            Expression::Const(_) => true,
            Expression::Var(_) => true,
            Expression::Add(a, b) => a.ids_ok(n) && b.ids_ok(n),
            Expression::Mul(a, b) => a.ids_ok(n) && b.ids_ok(n),
            Expression::Sqrt(a) => a.ids_ok(n),
            Expression::InputCall(id, xe, ye) => id < n && xe.ids_ok(n) && ye.ids_ok(n),
        }
    }
}

impl Expression {
    /// A literal.
    pub fn constant(v: i64) -> (r: Expression)
        ensures
            r == Expression::Const(v),
    {
        Expression::Const(v)
    }

    /// A fresh reference to the given coordinate axis.
    pub fn coord(a: Var) -> (r: Expression)
        ensures
            r == Expression::Var(a),
    {
        Expression::Var(a)
    }

    /// The sum of two expressions.
    pub fn plus(self, rhs: Expression) -> (r: Expression)
        ensures
            r == Expression::Add(Box::new(self), Box::new(rhs)),
    {
        Expression::Add(Box::new(self), Box::new(rhs))
    }

    /// The sum of an expression and a constant.
    pub fn plus_const(self, n: i64) -> (r: Expression)
        ensures
            r == Expression::Add(Box::new(self), Box::new(Expression::Const(n))),
    {
        Expression::Add(Box::new(self), Box::new(Expression::Const(n)))
    }

    /// Subtraction of a constant, desugared as the sum with its
    /// negation.
    pub fn minus_const(self, n: i64) -> (r: Expression)
        requires
            n != i64::MIN,
        ensures
            r == Expression::Add(Box::new(self), Box::new(Expression::Const((-n) as i64))),
    {
        Expression::Add(Box::new(self), Box::new(Expression::Const(-n)))
    }

    /// The product of two expressions.
    pub fn times(self, rhs: Expression) -> (r: Expression)
        ensures
            r == Expression::Mul(Box::new(self), Box::new(rhs)),
    {
        Expression::Mul(Box::new(self), Box::new(rhs))
    }

    /// The product of an expression and a constant.
    pub fn times_const(self, n: i64) -> (r: Expression)
        ensures
            r == Expression::Mul(Box::new(self), Box::new(Expression::Const(n))),
    {
        Expression::Mul(Box::new(self), Box::new(Expression::Const(n)))
    }

    /// The integer square root of an expression.
    pub fn sqrt(self) -> (r: Expression)
        ensures
            r == Expression::Sqrt(Box::new(self)),
    {
        Expression::Sqrt(Box::new(self))
    }

    /// Number of nodes in the expression tree; a termination measure
    /// for walks that alternate between chains and bodies.
    pub open spec fn size(self) -> nat
        decreases self,
    {
        match self {
            Expression::Const(_) => 1,
            Expression::Var(_) => 1,
            Expression::Add(a, b) => 1 + a.size() + b.size(),
            Expression::Mul(a, b) => 1 + a.size() + b.size(),
            Expression::Sqrt(a) => 1 + a.size(),
            Expression::InputCall(_, xe, ye) => 1 + xe.size() + ye.size(),
        }
    }
}

impl Clone for Expression {
    /// A deep copy of the tree, equal to the original.
    fn clone(&self) -> (r: Self)
        ensures
            r == *self,
        decreases *self,
    {
        match self {
            Expression::Const(v) => Expression::Const(*v),
            Expression::Var(a) => Expression::Var(*a),
            Expression::Add(a, b) => Expression::Add(
                Box::new((**a).clone()),
                Box::new((**b).clone()),
            ),
            Expression::Mul(a, b) => Expression::Mul(
                Box::new((**a).clone()),
                Box::new((**b).clone()),
            ),
            Expression::Sqrt(a) => Expression::Sqrt(Box::new((**a).clone())),
            Expression::InputCall(id, xe, ye) => Expression::InputCall(
                *id,
                Box::new((**xe).clone()),
                Box::new((**ye).clone()),
            ),
        }
    }
}

/// The per-invocation environment of a function body: the output
/// coordinate at which it is being evaluated.
#[derive(Clone, Copy, Debug)]
pub struct FunctionEnv {
    pub x: i64,
    pub y: i64,
}

/// The planes seen by direct expression evaluation: each input as its
/// raw integer row.
pub open spec fn planes_of(s: Seq<VecInpt>) -> Seq<Seq<i64>> {
    s.map_values(|p: VecInpt| p@)
}

/// Value of an expression at coordinate `(x, y)` over raw integer
/// planes. `Add` and `Mul` wrap as two's-complement 64-bit arithmetic;
/// `Sqrt` is the integer square root; `InputCall(id, xe, ye)` fetches
/// from plane `id` at the coordinates `xe` and `ye` evaluate to.
pub open spec fn eval_spec(e: Expression, x: i64, y: i64, planes: Seq<Seq<i64>>) -> i64
    decreases e,
{
    match e {
        Expression::Const(v) => v,
        Expression::Var(a) => match a {
            Var::X => x,
            Var::Y => y,
        },
        Expression::Add(e1, e2) => i64_specs::wrapping_add(
            eval_spec(*e1, x, y, planes),
            eval_spec(*e2, x, y, planes),
        ),
        Expression::Mul(e1, e2) => i64_specs::wrapping_mul(
            eval_spec(*e1, x, y, planes),
            eval_spec(*e2, x, y, planes),
        ),
        Expression::Sqrt(e1) => isqrt64(eval_spec(*e1, x, y, planes)),
        Expression::InputCall(id, xe, ye) => {
            let xv = eval_spec(*xe, x, y, planes);
            let yv = eval_spec(*ye, x, y, planes);
            if id < planes.len() {
                vec_plane_at(planes[id as int], xv, yv)
            } else {
                0
            }
        },
    }
}

impl Expression {
    /// Evaluates the expression at the environment's coordinate over the
    /// given raw planes.
    pub fn eval(&self, env: FunctionEnv, inputs: &Vec<VecInpt>) -> (r: i64)
        requires
            self.ids_ok(inputs@.len() as int),
        ensures
            r == eval_spec(*self, env.x, env.y, planes_of(inputs@)),
        decreases *self,
    {
        match self {
            Expression::Const(v) => *v,
            Expression::Var(a) => match a {
                Var::X => env.x,
                Var::Y => env.y,
            },
            Expression::Add(e1, e2) => {
                let v1 = e1.eval(env, inputs);
                let v2 = e2.eval(env, inputs);
                v1.wrapping_add(v2)
            },
            Expression::Mul(e1, e2) => {
                let v1 = e1.eval(env, inputs);
                let v2 = e2.eval(env, inputs);
                v1.wrapping_mul(v2)
            },
            Expression::Sqrt(e1) => {
                let v = e1.eval(env, inputs);
                isqrt(v)
            },
            Expression::InputCall(id, xe, ye) => {
                let xv = xe.eval(env, inputs);
                let yv = ye.eval(env, inputs);
                inputs[*id].at(xv, yv)
            },
        }
    }
}

} // verus!
