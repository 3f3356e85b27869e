//! Laws of the pipeline semantics: constant folding, the identity and
//! translation stages, and saturation, each proved against the chain
//! evaluation that `run_on`'s contract is stated over.

use vstd::prelude::*;
use vstd::arithmetic::div_mod::lemma_fundamental_div_mod;
use vstd::arithmetic::div_mod::lemma_mod_bound;
use vstd::wrapping::i64_specs;
use crate::chain::ChainLink;
use crate::chain::output_ok;
use crate::chain::chain_at;
use crate::chain::eval_in;
use crate::expression::Expression;
use crate::expression::Var;
use crate::function::coord_off;
use crate::function::kernel_3x3_expr;
use crate::function::kernel_term;
use crate::img::ImageView;
use crate::img::lemma_image_at_bounds;
use crate::runtime::clamp_byte;
use crate::runtime::isqrt64;

verus! {

/// An expression with no `Var` and no `InputCall` node: its value
/// cannot depend on the coordinate or on any producer.
pub open spec fn closed_expr(e: Expression) -> bool
    decreases e,
{
    match e {
        Expression::Const(_) => true,
        Expression::Var(_) => false,
        Expression::Add(a, b) => closed_expr(*a) && closed_expr(*b),
        Expression::Mul(a, b) => closed_expr(*a) && closed_expr(*b),
        Expression::Sqrt(a) => closed_expr(*a),
        Expression::InputCall(_, _, _) => false,
    }
}

/// Standalone value of a closed expression. The `Var` and `InputCall`
/// arms are arbitrary defaults: `closed_expr` rules them out.
pub open spec fn eval_const(e: Expression) -> i64
    decreases e,
{
    match e {
        Expression::Const(v) => v,
        Expression::Var(_) => 0,
        Expression::Add(a, b) => i64_specs::wrapping_add(eval_const(*a), eval_const(*b)),
        Expression::Mul(a, b) => i64_specs::wrapping_mul(eval_const(*a), eval_const(*b)),
        Expression::Sqrt(a) => isqrt64(eval_const(*a)),
        Expression::InputCall(_, _, _) => 0,
    }
}

/// Constant folding equivalence: a body with no `Var` and no
/// `InputCall` has, in any chain context and at any coordinate, the
/// value it evaluates to on its own.
pub proof fn lemma_const_fold(
    e: Expression,
    x: i64,
    y: i64,
    producers: Seq<ChainLink>,
    imgs: Seq<ImageView>,
)
    requires
        closed_expr(e),
    ensures
        eval_in(e, x, y, producers, imgs) == eval_const(e),
    decreases e,
{
    match e {
        Expression::Const(_) => {},
        Expression::Var(_) => {},
        Expression::Add(a, b) => {
            lemma_const_fold(*a, x, y, producers, imgs);
            lemma_const_fold(*b, x, y, producers, imgs);
        },
        Expression::Mul(a, b) => {
            lemma_const_fold(*a, x, y, producers, imgs);
            lemma_const_fold(*b, x, y, producers, imgs);
        },
        Expression::Sqrt(a) => {
            lemma_const_fold(*a, x, y, producers, imgs);
        },
        Expression::InputCall(_, _, _) => {},
    }
}

/// Constant folding at the pipeline boundary: a chain whose root body is
/// closed produces, at every pixel, the saturating narrow of that body's
/// standalone value.
pub proof fn lemma_const_fold_chain(c: ChainLink, x: i64, y: i64, imgs: Seq<ImageView>)
    requires
        c is Linked,
        closed_expr(c->Linked_1.e),
    ensures
        clamp_byte(chain_at(c, x, y, imgs)) == clamp_byte(eval_const(c->Linked_1.e)),
{
    lemma_const_fold(c->Linked_1.e, x, y, c->Linked_0@, imgs);
}

/// The identity body: the first producer sampled at the output
/// coordinate itself.
pub open spec fn identity_body() -> Expression {
    Expression::InputCall(
        0,
        Box::new(Expression::Var(Var::X)),
        Box::new(Expression::Var(Var::Y)),
    )
}

/// Identity stage: an arity-1 function whose body is `input(x, y)`,
/// linked to the first image source, takes each coordinate to that
/// image's own clamped fetch there.
pub proof fn lemma_identity_stage(c: ChainLink, x: i64, y: i64, imgs: Seq<ImageView>)
    requires
        c is Linked,
        c->Linked_0@.len() == 1,
        c->Linked_0@[0] == ChainLink::ImageSource(0usize),
        c->Linked_1.e == identity_body(),
        imgs.len() >= 1,
    ensures
        chain_at(c, x, y, imgs) == imgs[0].at(x as int, y as int),
{
    reveal_with_fuel(chain_at, 2);
    reveal_with_fuel(eval_in, 3);
}

/// Identity stage at the pixel level: inside the image, the saturated
/// output byte is exactly the input byte, so the output image equals the
/// input image.
pub proof fn lemma_identity_pixel(c: ChainLink, x: i64, y: i64, imgs: Seq<ImageView>)
    requires
        c is Linked,
        c->Linked_0@.len() == 1,
        c->Linked_0@[0] == ChainLink::ImageSource(0usize),
        c->Linked_1.e == identity_body(),
        imgs.len() >= 1,
        imgs[0].wf(),
        0 <= x < imgs[0].width,
        0 <= y < imgs[0].height,
    ensures
        clamp_byte(chain_at(c, x, y, imgs)) == imgs[0].data[(y as int) * imgs[0].width + (
        x as int)],
{
    lemma_identity_stage(c, x, y, imgs);
    assert((y as int) * imgs[0].width + (x as int) < imgs[0].data.len()) by (nonlinear_arith)
        requires
            0 <= (x as int) < imgs[0].width,
            0 <= (y as int) < imgs[0].height,
            imgs[0].data.len() == imgs[0].width * imgs[0].height,
    ;
}

/// Identity stage over a whole run: any output that `run_on`'s contract
/// accepts for the identity chain is the first input image itself.
pub proof fn lemma_identity_output(out: ImageView, c: ChainLink, vs: Seq<ImageView>)
    requires
        output_ok(out, c, vs),
        c is Linked,
        c->Linked_0@.len() == 1,
        c->Linked_0@[0] == ChainLink::ImageSource(0usize),
        c->Linked_1.e == identity_body(),
        vs.len() >= 1,
        vs[0].wf(),
        vs[0].width <= i64::MAX,
        vs[0].height <= i64::MAX,
    ensures
        out == vs[0],
{
    let w = vs[0].width as int;
    let h = vs[0].height as int;
    assert(out.data.len() == w * h);
    assert forall|q: int| 0 <= q < out.data.len() implies out.data[q] == vs[0].data[q] by {
        assert(0 < w && 0 < h) by (nonlinear_arith)
            requires
                0 <= q < w * h,
                0 <= w,
                0 <= h,
        ;
        let yq = q / w;
        let xq = q % w;
        lemma_fundamental_div_mod(q, w);
        lemma_mod_bound(q, w);
        assert(0 <= yq && yq < h) by (nonlinear_arith)
            requires
                0 < w,
                0 <= q < w * h,
                0 <= xq < w,
                q == w * yq + xq,
        ;
        lemma_identity_pixel(c, xq as i64, yq as i64, vs);
        assert(yq * w + xq == q) by (nonlinear_arith)
            requires
                q == w * yq + xq,
        ;
    }
    assert(out.data =~= vs[0].data);
}

/// The translation body: the first producer sampled at the coordinate
/// offset by `(dx, dy)`.
pub open spec fn shift_body(dx: i64, dy: i64) -> Expression {
    Expression::InputCall(
        0,
        Box::new(coord_off(Var::X, dx)),
        Box::new(coord_off(Var::Y, dy)),
    )
}

/// Translation stage: the body `input(x + dx, y + dy)` produces, at each
/// coordinate where the offset does not wrap, the input's clamped fetch
/// at the shifted coordinate — the image shifted by `(-dx, -dy)` with
/// 0-fill where the shift uncovers the border.
pub proof fn lemma_translation_stage(
    c: ChainLink,
    dx: i64,
    dy: i64,
    x: i64,
    y: i64,
    imgs: Seq<ImageView>,
)
    requires
        c is Linked,
        c->Linked_0@.len() == 1,
        c->Linked_0@[0] == ChainLink::ImageSource(0usize),
        c->Linked_1.e == shift_body(dx, dy),
        imgs.len() >= 1,
        i64::MIN <= x + dx <= i64::MAX,
        i64::MIN <= y + dy <= i64::MAX,
    ensures
        chain_at(c, x, y, imgs) == imgs[0].at(x + dx, y + dy),
{
    reveal_with_fuel(chain_at, 2);
    reveal_with_fuel(eval_in, 4);
    let producers = c->Linked_0@;
    assert(eval_in(coord_off(Var::X, dx), x, y, producers, imgs) == x + dx);
    assert(eval_in(coord_off(Var::Y, dy), x, y, producers, imgs) == y + dy);
}

/// Weight bound under which a 3x3 convolution of byte samples cannot
/// wrap 64-bit arithmetic: nine products of a weight and a byte stay
/// far below `i64::MAX`.
pub open spec fn kernel_weight_bounded(k: Seq<Seq<i64>>) -> bool {
    forall|r: int, s: int|
        0 <= r < 3 && 0 <= s < 3 ==> -1000000000000 <= #[trigger] k[r][s] <= 1000000000000
}

/// True integer convolution of an image with a 3x3 kernel at `(x, y)`:
/// the nine neighbourhood samples, each scaled by `k[dy+1][dx+1]`.
pub open spec fn conv_3x3(k: Seq<Seq<i64>>, img: ImageView, x: int, y: int) -> int {
    img.at(x - 1, y - 1) * k[0][0] + img.at(x - 1, y) * k[1][0] + img.at(x - 1, y + 1) * k[2][0]
        + img.at(x, y - 1) * k[0][1] + img.at(x, y) * k[1][1] + img.at(x, y + 1) * k[2][1] + img.at(
        x + 1,
        y - 1,
    ) * k[0][2] + img.at(x + 1, y) * k[1][2] + img.at(x + 1, y + 1) * k[2][2]
}

/// One kernel tap evaluates to the sample scaled by the weight, exactly
/// and within tight bounds, provided the weight is bounded and the
/// offset coordinate does not wrap.
proof fn lemma_kernel_term_eval(
    dx: i64,
    dy: i64,
    w: i64,
    x: i64,
    y: i64,
    producers: Seq<ChainLink>,
    imgs: Seq<ImageView>,
)
    requires
        producers.len() == 1,
        producers[0] == ChainLink::ImageSource(0usize),
        imgs.len() >= 1,
        -1000000000000 <= w <= 1000000000000,
        i64::MIN <= x + dx <= i64::MAX,
        i64::MIN <= y + dy <= i64::MAX,
    ensures
        eval_in(kernel_term(dx, dy, w), x, y, producers, imgs) == imgs[0].at(x + dx, y + dy) * w,
        -255000000000000 <= imgs[0].at(x + dx, y + dy) * w <= 255000000000000,
{
    reveal_with_fuel(chain_at, 2);
    reveal_with_fuel(eval_in, 4);
    let s = imgs[0].at(x + dx, y + dy);
    lemma_image_at_bounds(imgs[0], x + dx, y + dy);
    assert(eval_in(coord_off(Var::X, dx), x, y, producers, imgs) == x + dx);
    assert(eval_in(coord_off(Var::Y, dy), x, y, producers, imgs) == y + dy);
    assert(eval_in(
        Expression::InputCall(
            0,
            Box::new(coord_off(Var::X, dx)),
            Box::new(coord_off(Var::Y, dy)),
        ),
        x,
        y,
        producers,
        imgs,
    ) == s);
    assert(-255000000000000 <= s * w <= 255000000000000) by (nonlinear_arith)
        requires
            0 <= s <= 255,
            -1000000000000 <= w <= 1000000000000,
    ;
}

/// Convolution stage: an arity-1 `gen_3x3_kernel` function linked to the
/// first image source computes, at every coordinate away from the `i64`
/// boundary, the true integer convolution of the image with the kernel —
/// no 64-bit wrap occurs for bounded weights, because samples are bytes.
#[verifier::rlimit(60)]
pub proof fn lemma_kernel_3x3_eval(
    c: ChainLink,
    k: Seq<Seq<i64>>,
    x: i64,
    y: i64,
    imgs: Seq<ImageView>,
)
    requires
        c is Linked,
        c->Linked_0@.len() == 1,
        c->Linked_0@[0] == ChainLink::ImageSource(0usize),
        c->Linked_1.e == kernel_3x3_expr(k),
        imgs.len() >= 1,
        kernel_weight_bounded(k),
        i64::MIN < x < i64::MAX,
        i64::MIN < y < i64::MAX,
    ensures
        chain_at(c, x, y, imgs) == conv_3x3(k, imgs[0], x as int, y as int),
{
    reveal_with_fuel(chain_at, 2);
    reveal_with_fuel(eval_in, 3);
    let producers = c->Linked_0@;
    let img = imgs[0];
    lemma_kernel_term_eval(-1i64, -1i64, k[0][0], x, y, producers, imgs);
    lemma_kernel_term_eval(-1i64, 0i64, k[1][0], x, y, producers, imgs);
    lemma_kernel_term_eval(-1i64, 1i64, k[2][0], x, y, producers, imgs);
    lemma_kernel_term_eval(0i64, -1i64, k[0][1], x, y, producers, imgs);
    lemma_kernel_term_eval(0i64, 0i64, k[1][1], x, y, producers, imgs);
    lemma_kernel_term_eval(0i64, 1i64, k[2][1], x, y, producers, imgs);
    lemma_kernel_term_eval(1i64, -1i64, k[0][2], x, y, producers, imgs);
    lemma_kernel_term_eval(1i64, 0i64, k[1][2], x, y, producers, imgs);
    lemma_kernel_term_eval(1i64, 1i64, k[2][2], x, y, producers, imgs);
    let t1 = kernel_term(-1i64, -1i64, k[0][0]);
    let t2 = kernel_term(-1i64, 0i64, k[1][0]);
    let t3 = kernel_term(-1i64, 1i64, k[2][0]);
    let t4 = kernel_term(0i64, -1i64, k[0][1]);
    let t5 = kernel_term(0i64, 0i64, k[1][1]);
    let t6 = kernel_term(0i64, 1i64, k[2][1]);
    let t7 = kernel_term(1i64, -1i64, k[0][2]);
    let t8 = kernel_term(1i64, 0i64, k[1][2]);
    let t9 = kernel_term(1i64, 1i64, k[2][2]);
    let s2 = Expression::Add(Box::new(t1), Box::new(t2));
    let s3 = Expression::Add(Box::new(s2), Box::new(t3));
    let s4 = Expression::Add(Box::new(s3), Box::new(t4));
    let s5 = Expression::Add(Box::new(s4), Box::new(t5));
    let s6 = Expression::Add(Box::new(s5), Box::new(t6));
    let s7 = Expression::Add(Box::new(s6), Box::new(t7));
    let s8 = Expression::Add(Box::new(s7), Box::new(t8));
    let xi = x as int;
    let yi = y as int;
    let v1 = img.at(xi - 1, yi - 1) * k[0][0];
    let v2 = img.at(xi - 1, yi) * k[1][0];
    let v3 = img.at(xi - 1, yi + 1) * k[2][0];
    let v4 = img.at(xi, yi - 1) * k[0][1];
    let v5 = img.at(xi, yi) * k[1][1];
    let v6 = img.at(xi, yi + 1) * k[2][1];
    let v7 = img.at(xi + 1, yi - 1) * k[0][2];
    let v8 = img.at(xi + 1, yi) * k[1][2];
    let v9 = img.at(xi + 1, yi + 1) * k[2][2];
    assert(eval_in(s2, x, y, producers, imgs) == v1 + v2);
    assert(eval_in(s3, x, y, producers, imgs) == v1 + v2 + v3);
    assert(eval_in(s4, x, y, producers, imgs) == v1 + v2 + v3 + v4);
    assert(eval_in(s5, x, y, producers, imgs) == v1 + v2 + v3 + v4 + v5);
    assert(eval_in(s6, x, y, producers, imgs) == v1 + v2 + v3 + v4 + v5 + v6);
    assert(eval_in(s7, x, y, producers, imgs) == v1 + v2 + v3 + v4 + v5 + v6 + v7);
    assert(eval_in(s8, x, y, producers, imgs) == v1 + v2 + v3 + v4 + v5 + v6 + v7 + v8);
    assert(c->Linked_1.e == Expression::Add(Box::new(s8), Box::new(t9)));
    assert(eval_in(c->Linked_1.e, x, y, producers, imgs) == v1 + v2 + v3 + v4 + v5 + v6 + v7 + v8
        + v9);
}

/// Dimension preservation: any output that `run_on`'s contract accepts
/// carries the first input's dimensions. (When some `ImageSource` index
/// does not resolve, `run_on` returns `SourceOutOfRange` instead and no
/// output exists.)
pub proof fn lemma_dimension_preservation(out: ImageView, c: ChainLink, vs: Seq<ImageView>)
    requires
        output_ok(out, c, vs),
    ensures
        out.width == vs[0].width,
        out.height == vs[0].height,
{
}

/// Saturation: every produced pixel is the saturating narrow of its
/// stage value — within `0..=255`, with negative values pinned to 0 and
/// values of 255 or more pinned to 255. `run_on` promises that every
/// output byte is `clamp_byte` of the chain's value at that pixel.
pub proof fn lemma_saturation(v: i64)
    ensures
        0 <= clamp_byte(v) <= 255,
        v < 0 ==> clamp_byte(v) == 0,
        v >= 255 ==> clamp_byte(v) == 255,
        0 <= v < 255 ==> clamp_byte(v) == v,
{
}

} // verus!
