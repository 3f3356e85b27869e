//! Lowering plans: the decision content of the backend, verified.
//!
//! A stage body is lowered to a postfix instruction plan (`LowerOp`),
//! whose stack-machine semantics (`plan_value`) provably matches the
//! chain evaluation that `run_on` is specified over. A whole chain is
//! lowered to a list of stage plans in dependency order
//! (`lower_chain_plan`), with every `CallStage` id resolved positionally
//! to an earlier stage. A backend that turns each op into one native
//! instruction and each `CallStage` into a call of the stage its index
//! names therefore makes no judgement of its own: op choice, op order
//! and producer dispatch are all fixed — and proved — here.

use vstd::prelude::*;
use vstd::wrapping::i64_specs;
use crate::chain::ChainLink;
use crate::chain::chain_at;
use crate::chain::eval_in;
use crate::expression::Expression;
use crate::expression::Var;
use crate::img::ImageView;
use crate::runtime::isqrt64;

verus! {

/// One instruction of a lowered stage body, in postfix order. The
/// operand stack holds 64-bit values; `CallStage(id)` samples the
/// stage's `id`-th producer and `FetchSource(idx)` the `idx`-th runtime
/// input, each at the two coordinates popped from the stack.
#[derive(Clone, Copy, Debug, PartialEq, Eq, Structural)]
pub enum LowerOp {
    PushConst(i64),
    PushX,
    PushY,
    Add,
    Mul,
    Sqrt,
    CallStage(usize),
    FetchSource(usize),
}

/// Effect of one op on the operand stack; `None` on stack underflow.
/// `CallStage` and `FetchSource` mirror the `InputCall` and
/// `ImageSource` cases of the chain semantics, unresolved ids included.
pub open spec fn step_op(
    op: LowerOp,
    stack: Seq<i64>,
    x: i64,
    y: i64,
    producers: Seq<ChainLink>,
    imgs: Seq<ImageView>,
) -> Option<Seq<i64>> {
    match op {
        LowerOp::PushConst(v) => Some(stack.push(v)),
        LowerOp::PushX => Some(stack.push(x)),
        LowerOp::PushY => Some(stack.push(y)),
        LowerOp::Add => if stack.len() >= 2 {
            Some(
                stack.subrange(0, stack.len() - 2).push(
                    i64_specs::wrapping_add(stack[stack.len() - 2], stack[stack.len() - 1]),
                ),
            )
        } else {
            None
        },
        LowerOp::Mul => if stack.len() >= 2 {
            Some(
                stack.subrange(0, stack.len() - 2).push(
                    i64_specs::wrapping_mul(stack[stack.len() - 2], stack[stack.len() - 1]),
                ),
            )
        } else {
            None
        },
        LowerOp::Sqrt => if stack.len() >= 1 {
            Some(stack.subrange(0, stack.len() - 1).push(isqrt64(stack[stack.len() - 1])))
        } else {
            None
        },
        LowerOp::CallStage(id) => if stack.len() >= 2 {
            let xv = stack[stack.len() - 2];
            let yv = stack[stack.len() - 1];
            let v = if id < producers.len() {
                chain_at(producers[id as int], xv, yv, imgs)
            } else {
                0
            };
            Some(stack.subrange(0, stack.len() - 2).push(v))
        } else {
            None
        },
        LowerOp::FetchSource(idx) => if stack.len() >= 2 {
            let xv = stack[stack.len() - 2];
            let yv = stack[stack.len() - 1];
            let v = if idx < imgs.len() {
                imgs[idx as int].at(xv as int, yv as int)
            } else {
                0
            };
            Some(stack.subrange(0, stack.len() - 2).push(v))
        } else {
            None
        },
    }
}

/// Runs a plan over a starting stack, op by op.
pub open spec fn run_ops(
    ops: Seq<LowerOp>,
    stack: Seq<i64>,
    x: i64,
    y: i64,
    producers: Seq<ChainLink>,
    imgs: Seq<ImageView>,
) -> Option<Seq<i64>>
    decreases ops.len(),
{
    if ops.len() == 0 {
        Some(stack)
    } else {
        match step_op(ops[0], stack, x, y, producers, imgs) {
            Some(st) => run_ops(ops.drop_first(), st, x, y, producers, imgs),
            None => None,
        }
    }
}

/// Value of a stage plan: run it on an empty stack; exactly one value
/// must remain.
pub open spec fn plan_value(
    ops: Seq<LowerOp>,
    x: i64,
    y: i64,
    producers: Seq<ChainLink>,
    imgs: Seq<ImageView>,
) -> Option<i64> {
    match run_ops(ops, Seq::empty(), x, y, producers, imgs) {
        Some(st) => if st.len() == 1 {
            Some(st[0])
        } else {
            None
        },
        None => None,
    }
}

/// The plan a body lowers to: postfix order, one op per node.
pub open spec fn ops_of(e: Expression) -> Seq<LowerOp>
    decreases e,
{
    match e {
        Expression::Const(v) => seq![LowerOp::PushConst(v)],
        Expression::Var(a) => match a {
            Var::X => seq![LowerOp::PushX],
            Var::Y => seq![LowerOp::PushY],
        },
        Expression::Add(a, b) => ops_of(*a) + ops_of(*b) + seq![LowerOp::Add],
        Expression::Mul(a, b) => ops_of(*a) + ops_of(*b) + seq![LowerOp::Mul],
        Expression::Sqrt(a) => ops_of(*a) + seq![LowerOp::Sqrt],
        Expression::InputCall(id, xe, ye) => ops_of(*xe) + ops_of(*ye) + seq![
            LowerOp::CallStage(id),
        ],
    }
}

/// Running a concatenation is running the parts in order.
pub proof fn lemma_run_ops_concat(
    s1: Seq<LowerOp>,
    s2: Seq<LowerOp>,
    stack: Seq<i64>,
    x: i64,
    y: i64,
    producers: Seq<ChainLink>,
    imgs: Seq<ImageView>,
)
    ensures
        run_ops(s1 + s2, stack, x, y, producers, imgs) == (match run_ops(
            s1,
            stack,
            x,
            y,
            producers,
            imgs,
        ) {
            Some(st) => run_ops(s2, st, x, y, producers, imgs),
            None => None::<Seq<i64>>,
        }),
    decreases s1.len(),
{
    if s1.len() == 0 {
        assert(s1 + s2 =~= s2);
    } else {
        assert((s1 + s2)[0] == s1[0]);
        assert((s1 + s2).drop_first() =~= s1.drop_first() + s2);
        match step_op(s1[0], stack, x, y, producers, imgs) {
            Some(st) => {
                lemma_run_ops_concat(s1.drop_first(), s2, st, x, y, producers, imgs);
            },
            None => {},
        }
    }
}

/// Semantics preservation, one body at a time: running the lowered plan
/// of `e` pushes exactly `e`'s chain-evaluation value.
pub proof fn lemma_ops_of_correct(
    e: Expression,
    stack: Seq<i64>,
    x: i64,
    y: i64,
    producers: Seq<ChainLink>,
    imgs: Seq<ImageView>,
)
    ensures
        run_ops(ops_of(e), stack, x, y, producers, imgs) == Some(
            stack.push(eval_in(e, x, y, producers, imgs)),
        ),
    decreases e,
{
    reveal_with_fuel(run_ops, 3);
    match e {
        Expression::Const(_) => {
            assert(ops_of(e).drop_first() =~= Seq::<LowerOp>::empty());
        },
        Expression::Var(_) => {
            assert(ops_of(e).drop_first() =~= Seq::<LowerOp>::empty());
        },
        Expression::Add(a, b) => {
            let va = eval_in(*a, x, y, producers, imgs);
            let vb = eval_in(*b, x, y, producers, imgs);
            lemma_ops_of_correct(*a, stack, x, y, producers, imgs);
            lemma_ops_of_correct(*b, stack.push(va), x, y, producers, imgs);
            lemma_run_ops_concat(ops_of(*a), ops_of(*b), stack, x, y, producers, imgs);
            lemma_run_ops_concat(
                ops_of(*a) + ops_of(*b),
                seq![LowerOp::Add],
                stack,
                x,
                y,
                producers,
                imgs,
            );
            let st2 = stack.push(va).push(vb);
            assert(st2.subrange(0, st2.len() - 2) =~= stack);
            assert(seq![LowerOp::Add].drop_first() =~= Seq::<LowerOp>::empty());
        },
        Expression::Mul(a, b) => {
            let va = eval_in(*a, x, y, producers, imgs);
            let vb = eval_in(*b, x, y, producers, imgs);
            lemma_ops_of_correct(*a, stack, x, y, producers, imgs);
            lemma_ops_of_correct(*b, stack.push(va), x, y, producers, imgs);
            lemma_run_ops_concat(ops_of(*a), ops_of(*b), stack, x, y, producers, imgs);
            lemma_run_ops_concat(
                ops_of(*a) + ops_of(*b),
                seq![LowerOp::Mul],
                stack,
                x,
                y,
                producers,
                imgs,
            );
            let st2 = stack.push(va).push(vb);
            assert(st2.subrange(0, st2.len() - 2) =~= stack);
            assert(seq![LowerOp::Mul].drop_first() =~= Seq::<LowerOp>::empty());
        },
        Expression::Sqrt(a) => {
            let va = eval_in(*a, x, y, producers, imgs);
            lemma_ops_of_correct(*a, stack, x, y, producers, imgs);
            lemma_run_ops_concat(ops_of(*a), seq![LowerOp::Sqrt], stack, x, y, producers, imgs);
            let st2 = stack.push(va);
            assert(st2.subrange(0, st2.len() - 1) =~= stack);
            assert(seq![LowerOp::Sqrt].drop_first() =~= Seq::<LowerOp>::empty());
        },
        Expression::InputCall(id, xe, ye) => {
            let vx = eval_in(*xe, x, y, producers, imgs);
            let vy = eval_in(*ye, x, y, producers, imgs);
            lemma_ops_of_correct(*xe, stack, x, y, producers, imgs);
            lemma_ops_of_correct(*ye, stack.push(vx), x, y, producers, imgs);
            lemma_run_ops_concat(ops_of(*xe), ops_of(*ye), stack, x, y, producers, imgs);
            lemma_run_ops_concat(
                ops_of(*xe) + ops_of(*ye),
                seq![LowerOp::CallStage(id)],
                stack,
                x,
                y,
                producers,
                imgs,
            );
            let st2 = stack.push(vx).push(vy);
            assert(st2.subrange(0, st2.len() - 2) =~= stack);
            assert(seq![LowerOp::CallStage(id)].drop_first() =~= Seq::<LowerOp>::empty());
        },
    }
}

/// Appends the postfix plan of `e` to `ops`.
fn emit_ops(e: &Expression, ops: &mut Vec<LowerOp>)
    ensures
        final(ops)@ == old(ops)@ + ops_of(*e),
    decreases *e,
{
    match e {
        Expression::Const(v) => {
            ops.push(LowerOp::PushConst(*v));
            proof {
                assert(ops@ =~= old(ops)@ + ops_of(*e));
            }
        },
        Expression::Var(a) => {
            match a {
                Var::X => ops.push(LowerOp::PushX),
                Var::Y => ops.push(LowerOp::PushY),
            }
            proof {
                assert(ops@ =~= old(ops)@ + ops_of(*e));
            }
        },
        Expression::Add(a, b) => {
            emit_ops(a, ops);
            emit_ops(b, ops);
            ops.push(LowerOp::Add);
            proof {
                assert(ops@ =~= old(ops)@ + ops_of(*e));
            }
        },
        Expression::Mul(a, b) => {
            emit_ops(a, ops);
            emit_ops(b, ops);
            ops.push(LowerOp::Mul);
            proof {
                assert(ops@ =~= old(ops)@ + ops_of(*e));
            }
        },
        Expression::Sqrt(a) => {
            emit_ops(a, ops);
            ops.push(LowerOp::Sqrt);
            proof {
                assert(ops@ =~= old(ops)@ + ops_of(*e));
            }
        },
        Expression::InputCall(id, xe, ye) => {
            emit_ops(xe, ops);
            emit_ops(ye, ops);
            ops.push(LowerOp::CallStage(*id));
            proof {
                assert(ops@ =~= old(ops)@ + ops_of(*e));
            }
        },
    }
}

/// Lowers one function body of the given arity: the returned plan
/// evaluates, over any producers of that arity and any inputs, to
/// exactly the body's chain-evaluation value.
pub fn lower_body(e: &Expression, arity: usize) -> (ops: Vec<LowerOp>)
    requires
        e.ids_ok(arity as int),
    ensures
        ops@ == ops_of(*e),
        forall|x: i64, y: i64, producers: Seq<ChainLink>, imgs: Seq<ImageView>|
            producers.len() == arity ==> #[trigger] plan_value(ops@, x, y, producers, imgs)
                == Some(eval_in(*e, x, y, producers, imgs)),
{
    let mut ops: Vec<LowerOp> = Vec::new();
    emit_ops(e, &mut ops);
    proof {
        assert(ops@ =~= ops_of(*e));
        assert forall|x: i64, y: i64, producers: Seq<ChainLink>, imgs: Seq<ImageView>|
            producers.len() == arity implies #[trigger] plan_value(ops@, x, y, producers, imgs)
            == Some(eval_in(*e, x, y, producers, imgs)) by {
            lemma_ops_of_correct(*e, Seq::empty(), x, y, producers, imgs);
        }
    }
    ops
}

/// One lowered stage of a chain: its body's plan, and positionally the
/// indices of the already-lowered stages its `CallStage` ops call.
#[derive(Debug)]
pub struct StagePlan {
    pub ops: Vec<LowerOp>,
    pub children: Vec<usize>,
}

/// The plan of an `ImageSource(idx)` stage: fetch input `idx` at the
/// stage's own coordinates.
pub open spec fn source_stage_ops(idx: usize) -> Seq<LowerOp> {
    seq![LowerOp::PushX, LowerOp::PushY, LowerOp::FetchSource(idx)]
}

/// Stage `i` lowers chain node `nodes[i]`: a source stage carries the
/// fetch plan; a linked stage carries its body's plan and dispatches
/// each producer id to an earlier stage holding exactly that producer.
pub open spec fn plan_stage_ok(st: StagePlan, nodes: Seq<ChainLink>, i: int) -> bool {
    match nodes[i] {
        ChainLink::ImageSource(idx) => st.ops@ == source_stage_ops(idx) && st.children@.len() == 0,
        ChainLink::Linked(ch, f) => {
            &&& st.ops@ == ops_of(f.e)
            &&& st.children@.len() == ch@.len()
            &&& forall|j: int|
                0 <= j < ch@.len() ==> (#[trigger] st.children@[j]) < i
                    && nodes[st.children@[j] as int] == ch@[j]
        },
    }
}

/// Every stage of the list lowers its node, in dependency order.
pub open spec fn plan_ok(stages: Seq<StagePlan>, nodes: Seq<ChainLink>) -> bool {
    stages.len() == nodes.len() && forall|i: int|
        0 <= i < stages.len() ==> plan_stage_ok(#[trigger] stages[i], nodes, i)
}

/// A whole chain lowered to stages in dependency order; the last stage
/// is the root. `nodes` records, as ghost state, which chain node each
/// stage lowers, so that the plan's meaning can be stated and proved.
pub struct ChainPlan {
    pub stages: Vec<StagePlan>,
    pub nodes: Ghost<Seq<ChainLink>>,
}

/// What stage `i` of a well-formed plan computes: exactly the value of
/// the chain node it lowers, its producers supplied as that node's own
/// children.
pub proof fn lemma_plan_stage_value(
    stages: Seq<StagePlan>,
    nodes: Seq<ChainLink>,
    i: int,
    x: i64,
    y: i64,
    imgs: Seq<ImageView>,
)
    requires
        plan_ok(stages, nodes),
        0 <= i < stages.len(),
    ensures
        nodes[i] is Linked ==> plan_value(stages[i].ops@, x, y, nodes[i]->Linked_0@, imgs) == Some(
            chain_at(nodes[i], x, y, imgs),
        ),
        nodes[i] is ImageSource ==> plan_value(stages[i].ops@, x, y, Seq::empty(), imgs) == Some(
            chain_at(nodes[i], x, y, imgs),
        ),
{
    reveal_with_fuel(run_ops, 5);
    match nodes[i] {
        ChainLink::ImageSource(idx) => {
            let ops = source_stage_ops(idx);
            assert(ops.drop_first() =~= seq![LowerOp::PushY, LowerOp::FetchSource(idx)]);
            assert(ops.drop_first().drop_first() =~= seq![LowerOp::FetchSource(idx)]);
            assert(ops.drop_first().drop_first().drop_first() =~= Seq::<LowerOp>::empty());
            let st2 = Seq::<i64>::empty().push(x).push(y);
            assert(st2.subrange(0, st2.len() - 2) =~= Seq::<i64>::empty());
        },
        ChainLink::Linked(ch, f) => {
            lemma_ops_of_correct(f.e, Seq::empty(), x, y, ch@, imgs);
        },
    }
}

/// What the root stage of a lowered chain computes: the chain's value
/// itself, at every coordinate and over any inputs.
pub proof fn lemma_plan_root_value(
    stages: Seq<StagePlan>,
    nodes: Seq<ChainLink>,
    c: ChainLink,
    x: i64,
    y: i64,
    imgs: Seq<ImageView>,
)
    requires
        plan_ok(stages, nodes),
        stages.len() >= 1,
        nodes.last() == c,
    ensures
        c is Linked ==> plan_value(stages.last().ops@, x, y, c->Linked_0@, imgs) == Some(
            chain_at(c, x, y, imgs),
        ),
        c is ImageSource ==> plan_value(stages.last().ops@, x, y, Seq::empty(), imgs) == Some(
            chain_at(c, x, y, imgs),
        ),
{
    lemma_plan_stage_value(stages, nodes, stages.len() - 1, x, y, imgs);
}

/// Lowers the subtree of `c` onto the end of `stages`, children before
/// parents, and returns the index of `c`'s own stage together with the
/// extended node record.
fn emit_stages(c: &ChainLink, stages: &mut Vec<StagePlan>, nodes: Ghost<Seq<ChainLink>>) -> (r: (
    usize,
    Ghost<Seq<ChainLink>>,
))
    requires
        plan_ok(old(stages)@, nodes@),
        nodes@.len() == old(stages)@.len(),
    ensures
        plan_ok(final(stages)@, r.1@),
        r.1@.len() == final(stages)@.len(),
        final(stages)@.len() > old(stages)@.len(),
        final(stages)@.subrange(0, old(stages)@.len() as int) == old(stages)@,
        r.1@.subrange(0, nodes@.len() as int) == nodes@,
        r.0 == final(stages)@.len() - 1,
        r.1@[r.0 as int] == *c,
    decreases *c, 1int,
{
    match c {
        ChainLink::ImageSource(idx) => {
            let ops = vec![LowerOp::PushX, LowerOp::PushY, LowerOp::FetchSource(*idx)];
            proof {
                assert(ops@ =~= source_stage_ops(*idx));
            }
            let st = StagePlan { ops, children: Vec::new() };
            stages.push(st);
            let ghost nodes2 = nodes@.push(*c);
            proof {
                assert(stages@.subrange(0, old(stages)@.len() as int) =~= old(stages)@);
                assert(nodes2.subrange(0, nodes@.len() as int) =~= nodes@);
                assert forall|i: int| 0 <= i < stages@.len() implies plan_stage_ok(
                    #[trigger] stages@[i],
                    nodes2,
                    i,
                ) by {
                    if i < old(stages)@.len() {
                        assert(plan_stage_ok(old(stages)@[i], nodes@, i));
                    }
                }
            }
            (stages.len() - 1, Ghost(nodes2))
        },
        ChainLink::Linked(ch, f) => {
            let (children_idx, g) = emit_stages_list(ch, stages, nodes);
            let ghost pre = stages@;
            let mut body_ops: Vec<LowerOp> = Vec::new();
            emit_ops(&f.e, &mut body_ops);
            proof {
                assert(body_ops@ =~= ops_of(f.e));
            }
            let st = StagePlan { ops: body_ops, children: children_idx };
            stages.push(st);
            let ghost nodes2 = g@.push(*c);
            proof {
                assert(stages@.subrange(0, old(stages)@.len() as int) =~= pre.subrange(
                    0,
                    old(stages)@.len() as int,
                ));
                assert(nodes2.subrange(0, nodes@.len() as int) =~= g@.subrange(
                    0,
                    nodes@.len() as int,
                ));
                assert forall|i: int| 0 <= i < stages@.len() implies plan_stage_ok(
                    #[trigger] stages@[i],
                    nodes2,
                    i,
                ) by {
                    if i < pre.len() {
                        assert(plan_stage_ok(pre[i], g@, i));
                    } else {
                        assert(nodes2[i] == *c);
                    }
                }
            }
            (stages.len() - 1, Ghost(nodes2))
        },
    }
}

/// Lowers each chain of `ch` in order onto the end of `stages`,
/// returning each one's stage index, positionally.
fn emit_stages_list(
    ch: &Vec<ChainLink>,
    stages: &mut Vec<StagePlan>,
    nodes: Ghost<Seq<ChainLink>>,
) -> (r: (Vec<usize>, Ghost<Seq<ChainLink>>))
    requires
        plan_ok(old(stages)@, nodes@),
        nodes@.len() == old(stages)@.len(),
    ensures
        plan_ok(final(stages)@, r.1@),
        r.1@.len() == final(stages)@.len(),
        final(stages)@.len() >= old(stages)@.len(),
        final(stages)@.subrange(0, old(stages)@.len() as int) == old(stages)@,
        r.1@.subrange(0, nodes@.len() as int) == nodes@,
        r.0@.len() == ch@.len(),
        forall|t: int|
            0 <= t < ch@.len() ==> (#[trigger] r.0@[t]) < final(stages)@.len()
                && r.1@[r.0@[t] as int] == ch@[t],
    decreases ch@, 0int,
{
    let mut children_idx: Vec<usize> = Vec::new();
    let mut g: Ghost<Seq<ChainLink>> = nodes;
    let mut j: usize = 0;
    proof {
        assert(stages@.subrange(0, old(stages)@.len() as int) =~= old(stages)@);
        assert(g@.subrange(0, nodes@.len() as int) =~= nodes@);
    }
    while j < ch.len()
        invariant
            j <= ch@.len(),
            children_idx@.len() == j,
            plan_ok(stages@, g@),
            g@.len() == stages@.len(),
            stages@.len() >= old(stages)@.len(),
            stages@.subrange(0, old(stages)@.len() as int) == old(stages)@,
            g@.subrange(0, nodes@.len() as int) == nodes@,
            nodes@.len() == old(stages)@.len(),
            forall|t: int|
                0 <= t < j ==> (#[trigger] children_idx@[t]) < g@.len()
                    && g@[children_idx@[t] as int] == ch@[t],
        decreases ch@.len() - j,
    {
        let ghost stages_before = stages@;
        let ghost g_before = g@;
        let (ci, g2) = emit_stages(&ch[j], stages, g);
        g = g2;
        proof {
            assert forall|t: int| 0 <= t < j implies (#[trigger] children_idx@[t]) < g@.len()
                && g@[children_idx@[t] as int] == ch@[t] by {
                assert(children_idx@[t] < g_before.len());
                assert(g@.subrange(0, g_before.len() as int) == g_before);
                assert(g@[children_idx@[t] as int] == g@.subrange(
                    0,
                    g_before.len() as int,
                )[children_idx@[t] as int]);
            }
            assert(stages@.subrange(0, old(stages)@.len() as int) =~= stages@.subrange(
                0,
                stages_before.len() as int,
            ).subrange(0, old(stages)@.len() as int));
            assert(g@.subrange(0, nodes@.len() as int) =~= g@.subrange(
                0,
                g_before.len() as int,
            ).subrange(0, nodes@.len() as int));
        }
        children_idx.push(ci);
        j = j + 1;
    }
    (children_idx, g)
}

/// Lowers a whole chain: the stages come back in dependency order, the
/// last one lowers `c` itself, and `plan_ok` ties every stage to its
/// node — so `lemma_plan_root_value` gives the root stage's plan the
/// chain's exact semantics.
pub fn lower_chain_plan(c: &ChainLink) -> (r: ChainPlan)
    ensures
        plan_ok(r.stages@, r.nodes@),
        r.stages@.len() >= 1,
        r.nodes@.len() == r.stages@.len(),
        r.nodes@.last() == *c,
{
    let mut stages: Vec<StagePlan> = Vec::new();
    let (root, g) = emit_stages(c, &mut stages, Ghost(Seq::empty()));
    proof {
        assert(g@[root as int] == *c);
    }
    ChainPlan { stages, nodes: g }
}

} // verus!
