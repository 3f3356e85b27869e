//! The chain graph: DAG nodes that compose per-pixel functions over
//! image sources, the checks that make a chain compilable, and the
//! compiled form that runs a chain over concrete images.

use vstd::prelude::*;
use vstd::arithmetic::div_mod::lemma_fundamental_div_mod_converse;
use vstd::wrapping::i64_specs;
use crate::expression::Expression;
use crate::expression::Var;
use crate::function::Function;
use crate::img::Image;
use crate::img::ImageView;
use crate::runtime::clamp_byte;
use crate::runtime::clamp_pixel;
use crate::runtime::isqrt;
use crate::runtime::isqrt64;

verus! {

/// The fatal conditions a pipeline can report: all of them are
/// programmer errors, surfaced as a terminal error instead of a panic.
#[derive(Clone, Copy, Debug, PartialEq, Eq, Structural)]
pub enum ConstructionError {
    /// `link` was handed an input list whose length differs from the
    /// function's arity.
    ArityMismatch,
    /// Some function body holds an `InputCall` whose id is not below the
    /// arity of its node.
    InputIdOutOfRange,
    /// `run_on` was handed no input images.
    EmptyInputs,
    /// `run_on` was handed input images of differing dimensions.
    DimensionMismatch,
    /// Some `ImageSource` index is not below the number of supplied
    /// input images.
    SourceOutOfRange,
}

/// A node of the pipeline DAG: either the `index`-th runtime input
/// image, or a function applied positionally to producer chains.
#[derive(Debug)]
pub enum ChainLink {
    ImageSource(usize),
    Linked(Vec<ChainLink>, Function),
}

/// Structural equality of two chains, stated over child views. A deep
/// copy of a `Vec`-carrying value cannot claim spec equality with its
/// original, so `Clone` promises this instead; it preserves every chain
/// property (`lemma_chain_equiv_at`, `lemma_chain_equiv_wf`,
/// `lemma_chain_equiv_sources`).
pub open spec fn chain_equiv(a: ChainLink, b: ChainLink) -> bool
    decreases a,
{
    match (a, b) {
        (ChainLink::ImageSource(i), ChainLink::ImageSource(k)) => i == k,
        (ChainLink::Linked(cha, fa), ChainLink::Linked(chb, fb)) => {
            &&& fa == fb
            &&& cha@.len() == chb@.len()
            &&& forall|i: int| 0 <= i < cha@.len() ==> chain_equiv(#[trigger] cha@[i], chb@[i])
        },
        _ => false,
    }
}

impl Clone for ChainLink {
    /// A deep copy, structurally equivalent to the original: same
    /// sources, same functions, same shape — hence the same value at
    /// every pixel and the same validation outcome.
    fn clone(&self) -> (r: Self)
        ensures
            chain_equiv(r, *self),
        decreases *self, 1int,
    {
        match self {
            ChainLink::ImageSource(idx) => ChainLink::ImageSource(*idx),
            ChainLink::Linked(ch, f) => ChainLink::Linked(clone_chain_list(ch), f.clone()),
        }
    }
}

/// Deep-copies each chain of the list, pointwise equivalent.
fn clone_chain_list(ch: &Vec<ChainLink>) -> (r: Vec<ChainLink>)
    ensures
        r@.len() == ch@.len(),
        forall|i: int| 0 <= i < ch@.len() ==> chain_equiv(#[trigger] r@[i], ch@[i]),
    decreases ch@, 0int,
{
    let mut out: Vec<ChainLink> = Vec::new();
    let mut j: usize = 0;
    while j < ch.len()
        invariant
            j <= ch@.len(),
            out@.len() == j,
            forall|i: int| 0 <= i < j ==> chain_equiv(#[trigger] out@[i], ch@[i]),
        decreases ch@.len() - j,
    {
        out.push(ch[j].clone());
        j = j + 1;
    }
    out
}

/// Equivalent chains have the same value at every coordinate.
pub proof fn lemma_chain_equiv_at(a: ChainLink, b: ChainLink, x: i64, y: i64, imgs: Seq<ImageView>)
    requires
        chain_equiv(a, b),
    ensures
        chain_at(a, x, y, imgs) == chain_at(b, x, y, imgs),
    decreases a, 1int,
{
    match (a, b) {
        (ChainLink::Linked(cha, fa), ChainLink::Linked(chb, fb)) => {
            lemma_eval_in_equiv(fa.e, x, y, cha@, chb@, imgs);
        },
        _ => {},
    }
}

/// A body evaluates alike over pointwise-equivalent producer lists.
proof fn lemma_eval_in_equiv(
    e: Expression,
    x: i64,
    y: i64,
    pa: Seq<ChainLink>,
    pb: Seq<ChainLink>,
    imgs: Seq<ImageView>,
)
    requires
        pa.len() == pb.len(),
        forall|i: int| 0 <= i < pa.len() ==> chain_equiv(#[trigger] pa[i], pb[i]),
    ensures
        eval_in(e, x, y, pa, imgs) == eval_in(e, x, y, pb, imgs),
    decreases pa, e.size(),
{
    match e {
        Expression::Const(_) => {},
        Expression::Var(_) => {},
        Expression::Add(a1, b1) => {
            lemma_eval_in_equiv(*a1, x, y, pa, pb, imgs);
            lemma_eval_in_equiv(*b1, x, y, pa, pb, imgs);
        },
        Expression::Mul(a1, b1) => {
            lemma_eval_in_equiv(*a1, x, y, pa, pb, imgs);
            lemma_eval_in_equiv(*b1, x, y, pa, pb, imgs);
        },
        Expression::Sqrt(a1) => {
            lemma_eval_in_equiv(*a1, x, y, pa, pb, imgs);
        },
        Expression::InputCall(id, xe, ye) => {
            lemma_eval_in_equiv(*xe, x, y, pa, pb, imgs);
            lemma_eval_in_equiv(*ye, x, y, pa, pb, imgs);
            let xv = eval_in(*xe, x, y, pa, imgs);
            let yv = eval_in(*ye, x, y, pa, imgs);
            if id < pa.len() {
                lemma_chain_equiv_at(pa[id as int], pb[id as int], xv, yv, imgs);
            }
        },
    }
}

/// Equivalent chains validate alike.
pub proof fn lemma_chain_equiv_wf(a: ChainLink, b: ChainLink)
    requires
        chain_equiv(a, b),
    ensures
        a.arity_ok() == b.arity_ok(),
        a.ids_all() == b.ids_all(),
        a.wf() == b.wf(),
    decreases a,
{
    match (a, b) {
        (ChainLink::Linked(cha, fa), ChainLink::Linked(chb, fb)) => {
            assert forall|i: int| #![all_triggers] 0 <= i < cha@.len() implies cha@[i].arity_ok()
                == chb@[i].arity_ok() && cha@[i].ids_all() == chb@[i].ids_all() by {
                lemma_chain_equiv_wf(cha@[i], chb@[i]);
            }
        },
        _ => {},
    }
}

/// Equivalent chains need the same runtime inputs.
pub proof fn lemma_chain_equiv_sources(a: ChainLink, b: ChainLink, n: int)
    requires
        chain_equiv(a, b),
    ensures
        a.sources_ok(n) == b.sources_ok(n),
    decreases a,
{
    match (a, b) {
        (ChainLink::Linked(cha, fa), ChainLink::Linked(chb, fb)) => {
            assert forall|i: int| #![all_triggers] 0 <= i < cha@.len() implies cha@[i].sources_ok(
                n,
            ) == chb@[i].sources_ok(n) by {
                lemma_chain_equiv_sources(cha@[i], chb@[i], n);
            }
        },
        _ => {},
    }
}

/// The models of a slice of images, in order.
pub open spec fn views_of(s: Seq<Image>) -> Seq<ImageView> {
    s.map_values(|im: Image| im@)
}

/// All images share the dimensions of the first one.
pub open spec fn uniform_dims(vs: Seq<ImageView>) -> bool {
    forall|k: int|
        0 <= k < vs.len() ==> (#[trigger] vs[k]).width == vs[0].width && vs[k].height
            == vs[0].height
}

impl ChainLink {
    /// Every `Linked` node has exactly as many producers as its
    /// function's arity.
    pub open spec fn arity_ok(self) -> bool
        decreases self,
    {
        match self {
            ChainLink::ImageSource(_) => true,
            ChainLink::Linked(ch, f) => ch@.len() == f.num_inputs && forall|i: int|
                0 <= i < ch@.len() ==> (#[trigger] ch@[i]).arity_ok(),
        }
    }

    /// Every `InputCall` id in every function body is below the number
    /// of producers of its node.
    pub open spec fn ids_all(self) -> bool
        decreases self,
    {
        match self {
            ChainLink::ImageSource(_) => true,
            ChainLink::Linked(ch, f) => f.e.ids_ok(ch@.len() as int) && forall|i: int|
                0 <= i < ch@.len() ==> (#[trigger] ch@[i]).ids_all(),
        }
    }

    /// A chain lowers successfully exactly when its arities match and
    /// its input ids are in range.
    pub open spec fn wf(self) -> bool {
        self.arity_ok() && self.ids_all()
    }

    /// Every `ImageSource` index under the chain is below `n`.
    pub open spec fn sources_ok(self, n: int) -> bool
        decreases self,
    {
        match self {
            ChainLink::ImageSource(idx) => idx < n,
            ChainLink::Linked(ch, _) => forall|i: int|
                0 <= i < ch@.len() ==> (#[trigger] ch@[i]).sources_ok(n),
        }
    }

    /// Composes producers under a function, after checking that the
    /// number of producers equals the function's arity.
    pub fn link(inputs: Vec<ChainLink>, to: Function) -> (r: Result<ChainLink, ConstructionError>)
        ensures
            inputs@.len() == to.num_inputs ==> r == Ok::<ChainLink, ConstructionError>(
                ChainLink::Linked(inputs, to),
            ),
            inputs@.len() != to.num_inputs ==> r == Err::<ChainLink, ConstructionError>(
                ConstructionError::ArityMismatch,
            ),
    {
        if inputs.len() == to.num_inputs {
            Ok(ChainLink::Linked(inputs, to))
        } else {
            Err(ConstructionError::ArityMismatch)
        }
    }

    /// Validates the chain and seals it into a runnable form. Fails
    /// exactly on the ill-formed chains: first on an arity mismatch,
    /// then on an out-of-range `InputCall` id.
    pub fn compile(self) -> (r: Result<CompiledChain, ConstructionError>)
        ensures
            r is Ok <==> self.wf(),
            r matches Ok(cc) ==> cc@ == self,
            !self.arity_ok() ==> r == Err::<CompiledChain, ConstructionError>(
                ConstructionError::ArityMismatch,
            ),
            self.arity_ok() && !self.ids_all() ==> r == Err::<CompiledChain, ConstructionError>(
                ConstructionError::InputIdOutOfRange,
            ),
    {
        if !check_arity(&self) {
            return Err(ConstructionError::ArityMismatch);
        }
        if !check_ids(&self) {
            return Err(ConstructionError::InputIdOutOfRange);
        }
        Ok(CompiledChain { chain: self })
    }
}

/// Value of chain `c` at coordinate `(x, y)` over the given input
/// images: an `ImageSource` is a clamped pixel fetch, a `Linked` node is
/// its function body evaluated with its producers.
pub open spec fn chain_at(c: ChainLink, x: i64, y: i64, imgs: Seq<ImageView>) -> i64
    decreases c, 1int,
{
    match c {
        ChainLink::ImageSource(idx) => if idx < imgs.len() {
            imgs[idx as int].at(x as int, y as int)
        } else {
            0
        },
        ChainLink::Linked(ch, f) => eval_in(f.e, x, y, ch@, imgs),
    }
}

/// Value of a function body at `(x, y)` whose producers are chains:
/// like direct evaluation, except that `InputCall(id, xe, ye)` is the
/// value of producer chain `id` at the coordinates `xe` and `ye`
/// evaluate to.
pub open spec fn eval_in(
    e: Expression,
    x: i64,
    y: i64,
    producers: Seq<ChainLink>,
    imgs: Seq<ImageView>,
) -> i64
    decreases producers, e.size(),
{
    match e {
        Expression::Const(v) => v,
        Expression::Var(a) => match a {
            Var::X => x,
            Var::Y => y,
        },
        Expression::Add(e1, e2) => i64_specs::wrapping_add(
            eval_in(*e1, x, y, producers, imgs),
            eval_in(*e2, x, y, producers, imgs),
        ),
        Expression::Mul(e1, e2) => i64_specs::wrapping_mul(
            eval_in(*e1, x, y, producers, imgs),
            eval_in(*e2, x, y, producers, imgs),
        ),
        Expression::Sqrt(e1) => isqrt64(eval_in(*e1, x, y, producers, imgs)),
        Expression::InputCall(id, xe, ye) => {
            let xv = eval_in(*xe, x, y, producers, imgs);
            let yv = eval_in(*ye, x, y, producers, imgs);
            if id < producers.len() {
                chain_at(producers[id as int], xv, yv, imgs)
            } else {
                0
            }
        },
    }
}

/// What `run_on` promises of a successful output: the first input's
/// dimensions, and at every coordinate the saturated chain value.
pub open spec fn output_ok(out: ImageView, c: ChainLink, vs: Seq<ImageView>) -> bool {
    &&& out.width == vs[0].width
    &&& out.height == vs[0].height
    &&& out.wf()
    &&& forall|xi: i64, yj: i64|
        0 <= xi < out.width && 0 <= yj < out.height ==> out.data[(yj as int) * out.width + (
        xi as int)] == clamp_byte(#[trigger] chain_at(c, xi, yj, vs))
}

/// A validated chain, ready to run: the runnable artifact that
/// `ChainLink::compile` produces.
pub struct CompiledChain {
    chain: ChainLink,
}

impl View for CompiledChain {
    type V = ChainLink;

    closed spec fn view(&self) -> ChainLink {
        self.chain
    }
}

impl CompiledChain {
    #[verifier::type_invariant]
    closed spec fn inv(self) -> bool {
        self.chain.wf()
    }

    /// Runs the chain over the given input images: checks that there is
    /// at least one, that all share one dimension pair, and that every
    /// `ImageSource` index resolves; then produces the output image
    /// pixel by pixel in row-major order, saturating each value into
    /// `0..=255`.
    pub fn run_on(&self, inputs: &Vec<Image>) -> (r: Result<Image, ConstructionError>)
        ensures
            r is Ok <==> (inputs@.len() > 0 && uniform_dims(views_of(inputs@)) && self@.sources_ok(
                inputs@.len() as int,
            )),
            r matches Ok(out) ==> output_ok(out@, self@, views_of(inputs@)),
            r == Err::<Image, ConstructionError>(ConstructionError::EmptyInputs) <==> inputs@.len()
                == 0,
            r == Err::<Image, ConstructionError>(ConstructionError::DimensionMismatch) <==> (
            inputs@.len() > 0 && !uniform_dims(views_of(inputs@))),
            r == Err::<Image, ConstructionError>(ConstructionError::SourceOutOfRange) <==> (
            inputs@.len() > 0 && uniform_dims(views_of(inputs@)) && !self@.sources_ok(
                inputs@.len() as int,
            )),
    {
        proof {
            use_type_invariant(self);
        }
        let ghost vs = views_of(inputs@);
        let n = inputs.len();
        if n == 0 {
            return Err(ConstructionError::EmptyInputs);
        }
        let w = inputs[0].width();
        let h = inputs[0].height();
        proof {
            assert(vs[0] == inputs@[0]@);
        }
        let mut k: usize = 1;
        while k < n
            invariant
                1 <= k <= n,
                n == inputs@.len(),
                vs == views_of(inputs@),
                w == vs[0].width,
                h == vs[0].height,
                forall|t: int| 0 <= t < k ==> (#[trigger] vs[t]).width == w && vs[t].height == h,
            decreases n - k,
        {
            proof {
                assert(vs[k as int] == inputs@[k as int]@);
            }
            if inputs[k].width() != w || inputs[k].height() != h {
                return Err(ConstructionError::DimensionMismatch);
            }
            k = k + 1;
        }
        assert(uniform_dims(vs));
        if !check_sources(&self.chain, n) {
            return Err(ConstructionError::SourceOutOfRange);
        }
        let mut data: Vec<u8> = Vec::new();
        let mut yj: u32 = 0;
        while yj < h
            invariant
                0 <= yj <= h,
                n == inputs@.len() > 0,
                vs == views_of(inputs@),
                w == vs[0].width,
                h == vs[0].height,
                self.chain.wf(),
                self.chain.sources_ok(n as int),
                data@.len() == yj * w,
                forall|q: int|
                    0 <= q < data@.len() ==> data@[q] == clamp_byte(
                        chain_at(self.chain, (q % (w as int)) as i64, (q / (w as int)) as i64, vs),
                    ),
            decreases h - yj,
        {
            let mut xi: u32 = 0;
            while xi < w
                invariant
                    0 <= xi <= w,
                    0 <= yj < h,
                    n == inputs@.len() > 0,
                    vs == views_of(inputs@),
                    w == vs[0].width,
                    h == vs[0].height,
                    self.chain.wf(),
                    self.chain.sources_ok(n as int),
                    data@.len() == yj * w + xi,
                    forall|q: int|
                        0 <= q < yj * w ==> data@[q] == clamp_byte(
                            chain_at(
                                self.chain,
                                (q % (w as int)) as i64,
                                (q / (w as int)) as i64,
                                vs,
                            ),
                        ),
                    forall|t: i64|
                        0 <= t < xi ==> data@[yj * w + t] == clamp_byte(
                            #[trigger] chain_at(self.chain, t, yj as i64, vs),
                        ),
                decreases w - xi,
            {
                let v = chain_value(&self.chain, xi as i64, yj as i64, inputs);
                data.push(clamp_pixel(v));
                xi = xi + 1;
            }
            proof {
                assert((yj as int + 1) * (w as int) == (yj as int) * (w as int) + (w as int))
                    by (nonlinear_arith);
                assert forall|q: int| 0 <= q < (yj + 1) * w implies data@[q] == clamp_byte(
                    chain_at(self.chain, (q % (w as int)) as i64, (q / (w as int)) as i64, vs),
                ) by {
                    if yj * w <= q {
                        let t = q - yj * w;
                        assert(0 <= t < w);
                        lemma_fundamental_div_mod_converse(q, w as int, yj as int, t);
                    }
                }
            }
            yj = yj + 1;
        }
        proof {
            assert((h as int) * (w as int) == (w as int) * (h as int)) by (nonlinear_arith);
        }
        let out = Image::from_dims(w, h, data);
        proof {
            assert(out@.wf());
            assert forall|xi: i64, yj: i64| 0 <= xi < out@.width && 0 <= yj < out@.height implies
                out@.data[(yj as int) * out@.width + (xi as int)] == clamp_byte(
                #[trigger] chain_at(self.chain, xi, yj, vs),
            ) by {
                let q = (yj as int) * (w as int) + (xi as int);
                assert(q < (h as int) * (w as int)) by (nonlinear_arith)
                    requires
                        0 <= (xi as int) < (w as int),
                        0 <= (yj as int) < (h as int),
                        q == (yj as int) * (w as int) + (xi as int),
                ;
                lemma_fundamental_div_mod_converse(q, w as int, yj as int, xi as int);
            }
        }
        Ok(out)
    }
}

/// Interprets chain `c` at one coordinate, mirroring `chain_at`.
fn chain_value(c: &ChainLink, x: i64, y: i64, inputs: &Vec<Image>) -> (r: i64)
    requires
        c.wf(),
        c.sources_ok(inputs@.len() as int),
    ensures
        r == chain_at(*c, x, y, views_of(inputs@)),
    decreases *c, 1int,
{
    match c {
        ChainLink::ImageSource(idx) => {
            proof {
                assert(views_of(inputs@)[*idx as int] == inputs@[*idx as int]@);
            }
            inputs[*idx].at(x, y)
        },
        ChainLink::Linked(ch, f) => eval_value(&f.e, x, y, ch, inputs),
    }
}

/// Interprets a function body over producer chains, mirroring `eval_in`.
fn eval_value(e: &Expression, x: i64, y: i64, producers: &Vec<ChainLink>, inputs: &Vec<Image>) -> (r:
    i64)
    requires
        e.ids_ok(producers@.len() as int),
        forall|i: int| 0 <= i < producers@.len() ==> (#[trigger] producers@[i]).wf(),
        forall|i: int|
            0 <= i < producers@.len() ==> (#[trigger] producers@[i]).sources_ok(
                inputs@.len() as int,
            ),
    ensures
        r == eval_in(*e, x, y, producers@, views_of(inputs@)),
    decreases producers@, e.size(),
{
    match e {
        Expression::Const(v) => *v,
        Expression::Var(a) => match a {
            Var::X => x,
            Var::Y => y,
        },
        Expression::Add(e1, e2) => {
            let v1 = eval_value(e1, x, y, producers, inputs);
            let v2 = eval_value(e2, x, y, producers, inputs);
            v1.wrapping_add(v2)
        },
        Expression::Mul(e1, e2) => {
            let v1 = eval_value(e1, x, y, producers, inputs);
            let v2 = eval_value(e2, x, y, producers, inputs);
            v1.wrapping_mul(v2)
        },
        Expression::Sqrt(e1) => {
            let v = eval_value(e1, x, y, producers, inputs);
            isqrt(v)
        },
        Expression::InputCall(id, xe, ye) => {
            let xv = eval_value(xe, x, y, producers, inputs);
            let yv = eval_value(ye, x, y, producers, inputs);
            chain_value(&producers[*id], xv, yv, inputs)
        },
    }
}

/// Checks `arity_ok` over the whole chain.
fn check_arity(c: &ChainLink) -> (b: bool)
    ensures
        b == c.arity_ok(),
    decreases *c, 1int,
{
    match c {
        ChainLink::ImageSource(_) => true,
        ChainLink::Linked(ch, f) => {
            if ch.len() != f.num_inputs {
                return false;
            }
            check_arity_list(ch)
        },
    }
}

fn check_arity_list(ch: &Vec<ChainLink>) -> (b: bool)
    ensures
        b == forall|i: int| 0 <= i < ch@.len() ==> (#[trigger] ch@[i]).arity_ok(),
    decreases ch@, 0int,
{
    let mut k: usize = 0;
    while k < ch.len()
        invariant
            k <= ch@.len(),
            forall|i: int| 0 <= i < k ==> (#[trigger] ch@[i]).arity_ok(),
        decreases ch@.len() - k,
    {
        if !check_arity(&ch[k]) {
            return false;
        }
        k = k + 1;
    }
    true
}

/// Checks `ids_all` over the whole chain.
fn check_ids(c: &ChainLink) -> (b: bool)
    ensures
        b == c.ids_all(),
    decreases *c, 1int,
{
    match c {
        ChainLink::ImageSource(_) => true,
        ChainLink::Linked(ch, f) => {
            if !check_expr_ids(&f.e, ch.len()) {
                return false;
            }
            check_ids_list(ch)
        },
    }
}

fn check_ids_list(ch: &Vec<ChainLink>) -> (b: bool)
    ensures
        b == forall|i: int| 0 <= i < ch@.len() ==> (#[trigger] ch@[i]).ids_all(),
    decreases ch@, 0int,
{
    let mut k: usize = 0;
    while k < ch.len()
        invariant
            k <= ch@.len(),
            forall|i: int| 0 <= i < k ==> (#[trigger] ch@[i]).ids_all(),
        decreases ch@.len() - k,
    {
        if !check_ids(&ch[k]) {
            return false;
        }
        k = k + 1;
    }
    true
}

/// Checks `Expression::ids_ok` against a concrete bound.
fn check_expr_ids(e: &Expression, n: usize) -> (b: bool)
    ensures
        b == e.ids_ok(n as int),
    decreases *e,
{
    match e {
        Expression::Const(_) => true,
        Expression::Var(_) => true,
        Expression::Add(e1, e2) => check_expr_ids(e1, n) && check_expr_ids(e2, n),
        Expression::Mul(e1, e2) => check_expr_ids(e1, n) && check_expr_ids(e2, n),
        Expression::Sqrt(e1) => check_expr_ids(e1, n),
        Expression::InputCall(id, xe, ye) => *id < n && check_expr_ids(xe, n) && check_expr_ids(
            ye,
            n,
        ),
    }
}

/// Checks `sources_ok` against a concrete bound.
fn check_sources(c: &ChainLink, n: usize) -> (b: bool)
    ensures
        b == c.sources_ok(n as int),
    decreases *c, 1int,
{
    match c {
        ChainLink::ImageSource(idx) => *idx < n,
        ChainLink::Linked(ch, _) => check_sources_list(ch, n),
    }
}

fn check_sources_list(ch: &Vec<ChainLink>, n: usize) -> (b: bool)
    ensures
        b == forall|i: int| 0 <= i < ch@.len() ==> (#[trigger] ch@[i]).sources_ok(n as int),
    decreases ch@, 0int,
{
    let mut k: usize = 0;
    while k < ch.len()
        invariant
            k <= ch@.len(),
            forall|i: int| 0 <= i < k ==> (#[trigger] ch@[i]).sources_ok(n as int),
        decreases ch@.len() - k,
    {
        if !check_sources(&ch[k], n) {
            return false;
        }
        k = k + 1;
    }
    true
}

} // verus!
