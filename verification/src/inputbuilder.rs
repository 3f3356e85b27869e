//! A builder for producer applications: closes over a producer id and
//! turns a pair of coordinate expressions into the `InputCall` sampling
//! that producer.

use vstd::prelude::*;
use crate::expression::Expression;

verus! {

/// Builds `InputCall` nodes for the producer with index `id`.
#[derive(Clone, Copy, Debug)]
pub struct InputBuilder {
    pub id: usize,
}

impl InputBuilder {
    /// Applies the producer at the coordinates `x` and `y` evaluate to.
    pub fn build(&self, x: Expression, y: Expression) -> (r: Expression)
        ensures
            r == Expression::InputCall(self.id, Box::new(x), Box::new(y)),
    {
        Expression::InputCall(self.id, Box::new(x), Box::new(y))
    }
}

} // verus!
