//! What holds of every compilation: the depth the generator keeps is the
//! depth of the operand stack, a closed block leaves its results at its
//! base, and no jump outlives its block without a target.

use crate::assembler::{imm32_bytes, Je, Jmp};
use crate::compiler::model::{
    append, arity_in, arity_out, binary, call, close, constant, entry_state, flush_bytes,
    get_unused_reg, local_get, open_else, open_if, patch_all, pop_value, push_all, run, step,
    test_bytes, Gen, LabelModel, StackModel, Target,
};
use crate::compiler::model::{function_code, prologue_bytes, target_of, BinaryOp};
use crate::compiler::{patched, CompilerModel, MAX_CAPACITY};
use crate::runtime::error::Fault;
use crate::runtime::store::Store;
use crate::wasm::{BlockType, Operator};
use vstd::prelude::*;

verus! {

/// An open block as the validation of a body sees it: the depth of the
/// operand stack below the block's parameters, and the block's type.
pub struct ControlFrame {
    pub height: int,
    pub block_type: BlockType,
}

/// The depth of the operand stack at a point of a body, and the blocks
/// that are open there, the function's own block first.
pub struct OperandDepth {
    pub depth: int,
    pub frames: Seq<ControlFrame>,
}

/// An arity as a number; a block type that names no signature counts as
/// taking and leaving nothing.
pub open spec fn arity(found: Result<nat, Fault>) -> int {
    match found {
        Ok(n) => n as int,
        Err(_) => 0,
    }
}

/// The operand depth after one instruction, by the instruction's type: a
/// constant or a local adds a value, a binary operation takes two and
/// gives one, `if` takes the condition and opens a block below its
/// parameters, `else` starts again from the block's parameters, `end`
/// leaves the block's results on its base, and a call exchanges the
/// callee's parameters for its results.
pub open spec fn depth_after(store: Store, d: OperandDepth, op: Operator) -> OperandDepth {
    match op {
        Operator::LocalGet { .. } | Operator::I32Const { .. } | Operator::I64Const { .. } => {
            OperandDepth { depth: d.depth + 1, ..d }
        },
        Operator::I32Add
        | Operator::I64Add
        | Operator::I32Sub
        | Operator::I64Sub
        | Operator::I32Eq
        | Operator::I64Eq => OperandDepth { depth: d.depth - 1, ..d },
        Operator::If { blockty } => OperandDepth {
            depth: d.depth - 1,
            frames: d.frames.push(
                ControlFrame {
                    height: d.depth - 1 - arity(arity_in(store, blockty)),
                    block_type: blockty,
                },
            ),
        },
        Operator::Else => if d.frames.len() > 1 {
            OperandDepth {
                depth: d.frames.last().height + arity(arity_in(store, d.frames.last().block_type)),
                ..d
            }
        } else {
            d
        },
        Operator::End => if d.frames.len() > 1 {
            OperandDepth {
                depth: d.frames.last().height + arity(
                    arity_out(store, d.frames.last().block_type),
                ),
                frames: d.frames.drop_last(),
            }
        } else {
            OperandDepth { frames: d.frames.drop_last(), ..d }
        },
        Operator::Call { function_index } => match store.func_type_of(function_index) {
            Ok(ty) => OperandDepth {
                depth: d.depth - ty.params@.len() + ty.results@.len(),
                ..d
            },
            Err(_) => d,
        },
        Operator::Unsupported(_) => d,
    }
}

/// The operand depth after a sequence of instructions from the start of a
/// function body.
pub open spec fn operand_depth(store: Store, ops: Seq<Operator>) -> OperandDepth
    decreases ops.len(),
{
    if ops.len() == 0 {
        OperandDepth {
            depth: 0,
            frames: seq![ControlFrame { height: 0, block_type: BlockType::Empty }],
        }
    } else {
        depth_after(store, operand_depth(store, ops.drop_last()), ops.last())
    }
}

/// Whether every `else` of the sequence stands in a block without
/// parameters.
pub open spec fn else_in_plain_blocks(store: Store, ops: Seq<Operator>) -> bool
    decreases ops.len(),
{
    if ops.len() == 0 {
        true
    } else {
        &&& else_in_plain_blocks(store, ops.drop_last())
        &&& ops.last() is Else ==> {
            let d = operand_depth(store, ops.drop_last());
            d.frames.len() > 1 ==> arity(arity_in(store, d.frames.last().block_type)) == 0
        }
    }
}

/// Whether a generator state keeps the depth and the blocks of `d`.
pub open spec fn tracks(g: Gen, d: OperandDepth) -> bool {
    &&& g.stack_count == d.depth
    &&& g.labels.len() == d.frames.len()
    &&& forall|i: int|
        0 <= i < g.labels.len() ==> match #[trigger] g.labels[i] {
            LabelModel::FuncEnd { .. } => i == 0,
            LabelModel::End { start_offset, block_type, .. } => i > 0 && d.frames[i] == (
            ControlFrame { height: start_offset as int, block_type }),
            LabelModel::LoopStart { .. } => false,
        }
}

/// One instruction keeps the generator on the operand depth, unless it is
/// an `else` in a block with parameters.
pub proof fn lemma_step_tracks(g: Gen, t: Target, store: Store, op: Operator, d: OperandDepth)
    requires
        tracks(g, d),
        step(g, t, store, op) is Ok,
        op is Else && d.frames.len() > 1 ==> arity(arity_in(store, d.frames.last().block_type))
            == 0,
    ensures
        tracks(step(g, t, store, op)->Ok_0, depth_after(store, d, op)),
{
    reveal(step);
    let after = step(g, t, store, op)->Ok_0;
    let next = depth_after(store, d, op);
    match op {
        Operator::If { blockty } => {
            assert forall|i: int| 0 <= i < after.labels.len() implies match #[trigger] after.labels[i] {
                LabelModel::FuncEnd { .. } => i == 0,
                LabelModel::End { start_offset, block_type, .. } => i > 0 && next.frames[i] == (
                ControlFrame { height: start_offset as int, block_type }),
                LabelModel::LoopStart { .. } => false,
            } by {
                if i < g.labels.len() {
                    assert(after.labels[i] == g.labels[i]);
                }
            }
        },
        Operator::Else => {
            let top = g.labels.len() - 1;
            assert(g.labels[top] is End);
            assert forall|i: int| 0 <= i < after.labels.len() implies match #[trigger] after.labels[i] {
                LabelModel::FuncEnd { .. } => i == 0,
                LabelModel::End { start_offset, block_type, .. } => i > 0 && next.frames[i] == (
                ControlFrame { height: start_offset as int, block_type }),
                LabelModel::LoopStart { .. } => false,
            } by {
                if i < top {
                    assert(after.labels[i] == g.labels[i]);
                }
            }
        },
        Operator::End => {
            let top = g.labels.len() - 1;
            assert(!(g.labels[top] is LoopStart));
            assert forall|i: int| 0 <= i < after.labels.len() implies match #[trigger] after.labels[i] {
                LabelModel::FuncEnd { .. } => i == 0,
                LabelModel::End { start_offset, block_type, .. } => i > 0 && next.frames[i] == (
                ControlFrame { height: start_offset as int, block_type }),
                LabelModel::LoopStart { .. } => false,
            } by {
                assert(after.labels[i] == g.labels[i]);
            }
        },
        _ => {
            assert(after.labels == g.labels);
        },
    }
}

/// A compilation that succeeds on a body succeeds on each of its
/// beginnings.
pub proof fn lemma_run_prefix(g: Gen, t: Target, store: Store, ops: Seq<Operator>, n: int)
    requires
        0 <= n <= ops.len(),
        run(g, t, store, ops) is Ok,
    ensures
        run(g, t, store, ops.take(n)) is Ok,
    decreases ops.len(),
{
    if n == ops.len() {
        assert(ops.take(n) =~= ops);
    } else {
        assert(ops.drop_last().take(n) =~= ops.take(n));
        lemma_run_prefix(g, t, store, ops.drop_last(), n);
    }
}

/// Every `else` of a beginning of a sequence stands as it does in the
/// sequence.
pub proof fn lemma_plain_prefix(store: Store, ops: Seq<Operator>, n: int)
    requires
        0 <= n <= ops.len(),
        else_in_plain_blocks(store, ops),
    ensures
        else_in_plain_blocks(store, ops.take(n)),
    decreases ops.len(),
{
    if n == ops.len() {
        assert(ops.take(n) =~= ops);
    } else {
        assert(ops.drop_last().take(n) =~= ops.take(n));
        lemma_plain_prefix(store, ops.drop_last(), n);
    }
}

/// After a body is compiled, the depth that the generator keeps is the
/// operand depth at the end of the body, and its open blocks are the blocks
/// that are open there. This holds of every body whose `else` instructions
/// stand in blocks without parameters: after an `else` in a block with
/// parameters the generator starts the second arm below the parameters.
pub proof fn lemma_stack_count_is_operand_depth(
    code: Seq<u8>,
    t: Target,
    store: Store,
    ops: Seq<Operator>,
)
    requires
        run(entry_state(code), t, store, ops) is Ok,
        else_in_plain_blocks(store, ops),
    ensures
        tracks(run(entry_state(code), t, store, ops)->Ok_0, operand_depth(store, ops)),
        run(entry_state(code), t, store, ops)->Ok_0.stack_count == operand_depth(store, ops).depth,
    decreases ops.len(),
{
    if ops.len() == 0 {
    } else {
        lemma_stack_count_is_operand_depth(code, t, store, ops.drop_last());
        lemma_step_tracks(
            run(entry_state(code), t, store, ops.drop_last())->Ok_0,
            t,
            store,
            ops.last(),
            operand_depth(store, ops.drop_last()),
        );
    }
}

/// The same after every instruction of the body, not only after the last.
pub proof fn lemma_stack_count_at_every_point(
    code: Seq<u8>,
    t: Target,
    store: Store,
    ops: Seq<Operator>,
    n: int,
)
    requires
        0 <= n <= ops.len(),
        run(entry_state(code), t, store, ops) is Ok,
        else_in_plain_blocks(store, ops),
    ensures
        run(entry_state(code), t, store, ops.take(n)) is Ok,
        run(entry_state(code), t, store, ops.take(n))->Ok_0.stack_count == operand_depth(
            store,
            ops.take(n),
        ).depth,
{
    lemma_run_prefix(entry_state(code), t, store, ops, n);
    lemma_plain_prefix(store, ops, n);
    lemma_stack_count_is_operand_depth(code, t, store, ops.take(n));
}

/// After `end` on an `if` block the depth is the block's base plus the
/// number of its results, whatever the block left on the operand stack,
/// and the block is no longer open.
pub proof fn lemma_end_leaves_results(g: Gen, t: Target, store: Store)
    requires
        g.labels.len() > 0,
        g.labels.last() is End,
        step(g, t, store, Operator::End) is Ok,
    ensures
        ({
            let after = step(g, t, store, Operator::End)->Ok_0;
            &&& arity_out(store, g.labels.last()->End_block_type) is Ok
            &&& after.stack_count == g.labels.last()->End_start_offset + arity_out(
                store,
                g.labels.last()->End_block_type,
            )->Ok_0
            &&& after.labels == g.labels.drop_last()
            &&& after.vstack.stack.len() == 0
        }),
{
    reveal(step);
}


/// The jumps of an open block that wait for a target.
pub open spec fn sites_of(label: LabelModel) -> Seq<usize> {
    match label {
        LabelModel::FuncEnd { sites } => sites,
        LabelModel::End { sites, .. } => sites,
        LabelModel::LoopStart { .. } => Seq::empty(),
    }
}

/// Whether each site is the end of four bytes of the function's own code,
/// and no two sites share a byte.
pub open spec fn well_spaced(sites: Seq<usize>, floor: usize, len: nat) -> bool {
    &&& forall|i: int| 0 <= i < sites.len() ==> floor + 4 <= #[trigger] sites[i] <= len
    &&& forall|i: int, j: int|
        0 <= i < j < sites.len() ==> #[trigger] sites[i] + 4 <= #[trigger] sites[j]
}

/// Whether the code of a state lies between the function's start and the
/// end of the buffer, and the waiting jumps of every open block are well
/// spaced within it.
pub open spec fn frames_ok(g: Gen, t: Target) -> bool {
    &&& t.floor <= g.code.len() <= t.limit <= MAX_CAPACITY
    &&& forall|i: int|
        0 <= i < g.labels.len() ==> well_spaced(
            sites_of(#[trigger] g.labels[i]),
            t.floor,
            g.code.len(),
        )
}

/// The four bytes in front of a site: the displacement of the jump that
/// ends there.
pub open spec fn displacement_at(code: Seq<u8>, site: usize) -> Seq<u8> {
    code.subrange(site - 4, site as int)
}

/// Well-spaced jumps are all patched: each holds the distance to the
/// target afterwards, and no byte outside them changes.
pub proof fn lemma_patch_all(code: Seq<u8>, sites: Seq<usize>, target: usize, floor: usize)
    requires
        well_spaced(sites, floor, code.len()),
        target == code.len(),
    ensures
        patch_all(code, sites, target, floor) is Ok,
        patch_all(code, sites, target, floor)->Ok_0.len() == code.len(),
        forall|i: int|
            0 <= i < sites.len() ==> displacement_at(
                patch_all(code, sites, target, floor)->Ok_0,
                #[trigger] sites[i],
            ) == imm32_bytes((target - sites[i]) as i32),
        forall|k: int|
            0 <= k < code.len() && (forall|i: int|
                0 <= i < sites.len() ==> !(#[trigger] sites[i] - 4 <= k < sites[i]))
                ==> #[trigger] patch_all(code, sites, target, floor)->Ok_0[k] == code[k],
    decreases sites.len(),
{
    if sites.len() == 0 {
    } else {
        let rest = sites.drop_last();
        let last = sites.last();
        assert forall|i: int| 0 <= i < rest.len() implies floor + 4 <= #[trigger] rest[i]
            <= code.len() by {
            assert(rest[i] == sites[i]);
        }
        assert forall|i: int, j: int| 0 <= i < j < rest.len() implies #[trigger] rest[i] + 4
            <= #[trigger] rest[j] by {
            assert(rest[i] == sites[i] && rest[j] == sites[j]);
        }
        lemma_patch_all(code, rest, target, floor);
        let mid = patch_all(code, rest, target, floor)->Ok_0;
        let out = patched(mid, last, target);
        assert(patch_all(code, sites, target, floor) == Ok::<Seq<u8>, Fault>(out));
        assert(out.len() == code.len());
        assert(displacement_at(out, last) =~= imm32_bytes((target - last) as i32));
        assert forall|i: int| 0 <= i < sites.len() implies displacement_at(out, #[trigger] sites[i])
            == imm32_bytes((target - sites[i]) as i32) by {
            if i < rest.len() {
                assert(rest[i] == sites[i]);
                assert(sites[i] + 4 <= sites[sites.len() - 1]);
                assert(displacement_at(out, sites[i]) =~= displacement_at(mid, rest[i]));
            }
        }
        assert forall|k: int|
            0 <= k < code.len() && (forall|i: int|
                0 <= i < sites.len() ==> !(#[trigger] sites[i] - 4 <= k < sites[i]))
                implies #[trigger] out[k] == code[k] by {
            assert(!(sites[sites.len() - 1] - 4 <= k < sites[sites.len() - 1]));
            assert forall|i: int| 0 <= i < rest.len() implies !(#[trigger] rest[i] - 4 <= k
                < rest[i]) by {
                assert(rest[i] == sites[i]);
            }
            assert(mid[k] == code[k]);
        }
    }
}

/// Where the jumps of the innermost block land when the block is closed:
/// behind the code that writes the deferred values of an `if` block to
/// memory, or at the end of the code for the function's own block.
pub open spec fn join_of(g: Gen) -> int {
    match g.labels.last() {
        LabelModel::End { .. } => (g.code.len() + flush_bytes(g.vstack.stack).len()) as int,
        _ => g.code.len() as int,
    }
}

/// No jump outlives its block without a target: when `end` closes a block,
/// every jump that waited in the block holds the distance to the end of the
/// block, the block is no longer open, and the jumps of the blocks that
/// remain open still wait within the code.
pub proof fn lemma_closed_block_has_no_open_jump(g: Gen, t: Target, store: Store)
    requires
        frames_ok(g, t),
        g.labels.len() > 0,
        step(g, t, store, Operator::End) is Ok,
    ensures
        ({
            let after = step(g, t, store, Operator::End)->Ok_0;
            let sites = sites_of(g.labels.last());
            &&& after.labels == g.labels.drop_last()
            &&& frames_ok(after, t)
            &&& g.code.len() <= join_of(g) <= after.code.len()
            &&& forall|i: int|
                0 <= i < sites.len() ==> displacement_at(after.code, #[trigger] sites[i])
                    == imm32_bytes((join_of(g) - sites[i]) as i32)
        }),
{
    reveal(step);
    let after = step(g, t, store, Operator::End)->Ok_0;
    let top = g.labels.len() - 1;
    let sites = sites_of(g.labels[top]);
    match g.labels.last() {
        LabelModel::End { sites: waiting, .. } => {
            let flushed = push_all(g.code, g.vstack, t.limit)->Ok_0.0;
            assert(well_spaced(sites, t.floor, flushed.len())) by {
                assert(well_spaced(sites_of(g.labels[top]), t.floor, g.code.len()));
            }
            lemma_patch_all(flushed, sites, flushed.len() as usize, t.floor);
            let done = patch_all(flushed, sites, flushed.len() as usize, t.floor)->Ok_0;
            assert forall|i: int| 0 <= i < sites.len() implies displacement_at(
                after.code,
                #[trigger] sites[i],
            ) == imm32_bytes((join_of(g) - sites[i]) as i32) by {
                assert(displacement_at(after.code, sites[i]) =~= displacement_at(done, sites[i]));
            }
        },
        LabelModel::FuncEnd { sites: waiting } => {
            assert(well_spaced(sites_of(g.labels[top]), t.floor, g.code.len()));
            lemma_patch_all(g.code, sites, g.code.len() as usize, t.floor);
        },
        LabelModel::LoopStart { .. } => {},
    }
    assert forall|i: int| 0 <= i < after.labels.len() implies well_spaced(
        sites_of(#[trigger] after.labels[i]),
        t.floor,
        after.code.len(),
    ) by {
        assert(after.labels[i] == g.labels[i]);
        assert(well_spaced(sites_of(g.labels[i]), t.floor, g.code.len()));
    }
}

/// Taking a value from the operand stack takes no code away.
proof fn lemma_pop_value_grows(code: Seq<u8>, vstack: StackModel, limit: usize)
    requires
        pop_value(code, vstack, limit) is Ok,
        code.len() <= limit,
    ensures
        code.len() <= pop_value(code, vstack, limit)->Ok_0.0.len() <= limit,
{
}

/// Handing out a register takes no code away.
proof fn lemma_get_unused_reg_grows(code: Seq<u8>, vstack: StackModel, limit: usize)
    requires
        get_unused_reg(code, vstack, limit) is Ok,
        code.len() <= limit,
    ensures
        code.len() <= get_unused_reg(code, vstack, limit)->Ok_0.0.len() <= limit,
{
}

/// Writing the deferred values to memory takes no code away.
proof fn lemma_push_all_grows(code: Seq<u8>, vstack: StackModel, limit: usize)
    requires
        push_all(code, vstack, limit) is Ok,
        code.len() <= limit,
    ensures
        code.len() <= push_all(code, vstack, limit)->Ok_0.0.len() <= limit,
        push_all(code, vstack, limit)->Ok_0.0.len() == code.len() + flush_bytes(
            vstack.stack,
        ).len(),
{
}

/// More code behind the same open blocks keeps their jumps well spaced.
proof fn lemma_same_labels_keep_frames(g: Gen, after: Gen, t: Target)
    requires
        frames_ok(g, t),
        after.labels == g.labels,
        g.code.len() <= after.code.len() <= t.limit,
    ensures
        frames_ok(after, t),
{
    assert forall|i: int| 0 <= i < after.labels.len() implies well_spaced(
        sites_of(#[trigger] after.labels[i]),
        t.floor,
        after.code.len(),
    ) by {
        assert(well_spaced(sites_of(g.labels[i]), t.floor, g.code.len()));
    }
}

proof fn lemma_binary_keeps_frames(g: Gen, t: Target, op: BinaryOp, wide: bool)
    requires
        frames_ok(g, t),
        binary(g, t, op, wide) is Ok,
    ensures
        frames_ok(binary(g, t, op, wide)->Ok_0, t),
        g.code.len() <= binary(g, t, op, wide)->Ok_0.code.len(),
{
    let after = binary(g, t, op, wide)->Ok_0;
    lemma_pop_value_grows(g.code, g.vstack, t.limit);
    let first = pop_value(g.code, g.vstack, t.limit)->Ok_0;
    lemma_pop_value_grows(first.0, first.1, t.limit);
    lemma_same_labels_keep_frames(g, after, t);
}

proof fn lemma_local_get_keeps_frames(g: Gen, t: Target, local_index: u32)
    requires
        frames_ok(g, t),
        local_get(g, t, local_index) is Ok,
    ensures
        frames_ok(local_get(g, t, local_index)->Ok_0, t),
        g.code.len() <= local_get(g, t, local_index)->Ok_0.code.len(),
{
    let after = local_get(g, t, local_index)->Ok_0;
    lemma_get_unused_reg_grows(g.code, g.vstack, t.limit);
    lemma_same_labels_keep_frames(g, after, t);
}

proof fn lemma_call_keeps_frames(g: Gen, t: Target, store: Store, function_index: u32)
    requires
        frames_ok(g, t),
        call(g, t, store, function_index) is Ok,
    ensures
        frames_ok(call(g, t, store, function_index)->Ok_0, t),
        g.code.len() <= call(g, t, store, function_index)->Ok_0.code.len(),
{
    let after = call(g, t, store, function_index)->Ok_0;
    lemma_push_all_grows(g.code, g.vstack, t.limit);
    lemma_same_labels_keep_frames(g, after, t);
}

proof fn lemma_if_keeps_frames(g: Gen, t: Target, store: Store, block_type: BlockType)
    requires
        frames_ok(g, t),
        open_if(g, t, store, block_type) is Ok,
    ensures
        frames_ok(open_if(g, t, store, block_type)->Ok_0, t),
        g.code.len() <= open_if(g, t, store, block_type)->Ok_0.code.len(),
{
    let after = open_if(g, t, store, block_type)->Ok_0;
    lemma_pop_value_grows(g.code, g.vstack, t.limit);
    let popped = pop_value(g.code, g.vstack, t.limit)->Ok_0;
    lemma_push_all_grows(popped.0, popped.1, t.limit);
    let flushed = push_all(popped.0, popped.1, t.limit)->Ok_0;
    assert(0i32.je_bytes().len() == 6);
    assert(test_bytes(popped.2).len() >= 6);
    assert(after.code.len() == flushed.0.len() + test_bytes(popped.2).len());
    assert(after.labels == g.labels.push(after.labels.last()));
    assert(sites_of(after.labels.last()) == seq![after.code.len() as usize]);
    assert forall|i: int| 0 <= i < after.labels.len() implies well_spaced(
        sites_of(#[trigger] after.labels[i]),
        t.floor,
        after.code.len(),
    ) by {
        if i < g.labels.len() {
            assert(after.labels[i] == g.labels[i]);
            assert(well_spaced(sites_of(g.labels[i]), t.floor, g.code.len()));
        }
    }
}

proof fn lemma_else_keeps_frames(g: Gen, t: Target)
    requires
        frames_ok(g, t),
        g.labels.len() > 0,
        open_else(g, t) is Ok,
    ensures
        frames_ok(open_else(g, t)->Ok_0, t),
        g.code.len() <= open_else(g, t)->Ok_0.code.len(),
        sites_of(g.labels.last()).len() > 0,
        displacement_at(open_else(g, t)->Ok_0.code, sites_of(g.labels.last())[0]) == imm32_bytes(
            (open_else(g, t)->Ok_0.code.len() - sites_of(g.labels.last())[0]) as i32,
        ),
{
    let after = open_else(g, t)->Ok_0;
    let top = g.labels.len() - 1;
    let old_sites = sites_of(g.labels[top]);
    assert(well_spaced(old_sites, t.floor, g.code.len()));
    lemma_push_all_grows(g.code, g.vstack, t.limit);
    let flushed = push_all(g.code, g.vstack, t.limit)->Ok_0.0;
    assert(0i32.jmp_bytes().len() == 5);
    let jumped = append(flushed, 0i32.jmp_bytes(), t.limit)->Ok_0;
    assert(jumped.len() == flushed.len() + 5);
    assert(after.code == patched(jumped, old_sites[0], jumped.len() as usize));
    assert(after.code.len() == jumped.len());
    assert(displacement_at(after.code, old_sites[0]) =~= imm32_bytes(
        (after.code.len() - old_sites[0]) as i32,
    ));
    let new_sites = sites_of(after.labels.last());
    assert(new_sites == old_sites.drop_first().push(jumped.len() as usize));
    assert(after.labels.len() == g.labels.len());
    assert forall|i: int| 0 <= i < after.labels.len() implies well_spaced(
        sites_of(#[trigger] after.labels[i]),
        t.floor,
        after.code.len(),
    ) by {
        if i < top {
            assert(after.labels[i] == g.labels[i]);
            assert(well_spaced(sites_of(g.labels[i]), t.floor, g.code.len()));
        } else {
            assert(after.labels[i] == after.labels.last());
            assert forall|a: int| 0 <= a < new_sites.len() implies t.floor + 4
                <= #[trigger] new_sites[a] <= after.code.len() by {
                if a < new_sites.len() - 1 {
                    assert(new_sites[a] == old_sites[a + 1]);
                }
            }
            assert forall|a: int, b: int| 0 <= a < b < new_sites.len() implies #[trigger] new_sites[a]
                + 4 <= #[trigger] new_sites[b] by {
                assert(new_sites[a] == old_sites[a + 1]);
                if b < new_sites.len() - 1 {
                    assert(new_sites[b] == old_sites[b + 1]);
                }
            }
        }
    }
}

/// One instruction keeps the jumps of the open blocks well spaced within
/// the code, and takes no code away.
pub proof fn lemma_step_keeps_frames(g: Gen, t: Target, store: Store, op: Operator)
    requires
        frames_ok(g, t),
        step(g, t, store, op) is Ok,
    ensures
        frames_ok(step(g, t, store, op)->Ok_0, t),
        g.code.len() <= step(g, t, store, op)->Ok_0.code.len(),
{
    reveal(step);
    match op {
        Operator::End => {
            lemma_closed_block_has_no_open_jump(g, t, store);
        },
        Operator::If { blockty } => {
            lemma_if_keeps_frames(g, t, store, blockty);
        },
        Operator::Else => {
            lemma_else_keeps_frames(g, t);
        },
        Operator::LocalGet { local_index } => {
            lemma_local_get_keeps_frames(g, t, local_index);
        },
        Operator::I32Const { value } => {
            lemma_same_labels_keep_frames(g, constant(g, value as i64)->Ok_0, t);
        },
        Operator::I64Const { value } => {
            lemma_same_labels_keep_frames(g, constant(g, value)->Ok_0, t);
        },
        Operator::I32Add => {
            lemma_binary_keeps_frames(g, t, BinaryOp::Add, false);
        },
        Operator::I64Add => {
            lemma_binary_keeps_frames(g, t, BinaryOp::Add, true);
        },
        Operator::I32Sub => {
            lemma_binary_keeps_frames(g, t, BinaryOp::Sub, false);
        },
        Operator::I64Sub => {
            lemma_binary_keeps_frames(g, t, BinaryOp::Sub, true);
        },
        Operator::I32Eq => {
            lemma_binary_keeps_frames(g, t, BinaryOp::Eq, false);
        },
        Operator::I64Eq => {
            lemma_binary_keeps_frames(g, t, BinaryOp::Eq, true);
        },
        Operator::Call { function_index } => {
            lemma_call_keeps_frames(g, t, store, function_index);
        },
        Operator::Unsupported(_) => {},
    }
}

/// A body keeps the jumps of the open blocks well spaced within the code:
/// what holds when the body is entered holds after each of its
/// instructions.
pub proof fn lemma_run_keeps_frames(g: Gen, t: Target, store: Store, ops: Seq<Operator>)
    requires
        frames_ok(g, t),
        run(g, t, store, ops) is Ok,
    ensures
        frames_ok(run(g, t, store, ops)->Ok_0, t),
        g.code.len() <= run(g, t, store, ops)->Ok_0.code.len(),
    decreases ops.len(),
{
    if ops.len() > 0 {
        lemma_run_keeps_frames(g, t, store, ops.drop_last());
        lemma_step_keeps_frames(run(g, t, store, ops.drop_last())->Ok_0, t, store, ops.last());
    }
}

/// After `else` the test of the `if` lands on the second arm: the jump
/// that the `if` left waiting holds the distance to the end of the code,
/// where the second arm starts.
pub proof fn lemma_else_aims_test(g: Gen, t: Target, store: Store)
    requires
        frames_ok(g, t),
        g.labels.len() > 0,
        step(g, t, store, Operator::Else) is Ok,
    ensures
        ({
            let after = step(g, t, store, Operator::Else)->Ok_0;
            let test = sites_of(g.labels.last())[0];
            &&& sites_of(g.labels.last()).len() > 0
            &&& displacement_at(after.code, test) == imm32_bytes((after.code.len() - test) as i32)
        }),
{
    reveal(step);
    lemma_else_keeps_frames(g, t);
}


/// When the body of a function is entered, no jump waits.
pub proof fn lemma_entry_frames_ok(code: Seq<u8>, t: Target)
    requires
        t.floor <= code.len() <= t.limit <= MAX_CAPACITY,
    ensures
        frames_ok(entry_state(code), t),
{
    assert forall|i: int| 0 <= i < entry_state(code).labels.len() implies well_spaced(
        sites_of(#[trigger] entry_state(code).labels[i]),
        t.floor,
        entry_state(code).code.len(),
    ) by {}
}

proof fn lemma_pop_value_keeps_prefix(code: Seq<u8>, vstack: StackModel, limit: usize, n: int)
    requires
        pop_value(code, vstack, limit) is Ok,
        0 <= n <= code.len(),
    ensures
        pop_value(code, vstack, limit)->Ok_0.0.take(n) == code.take(n),
{
    assert(pop_value(code, vstack, limit)->Ok_0.0.take(n) =~= code.take(n));
}

proof fn lemma_get_unused_reg_keeps_prefix(
    code: Seq<u8>,
    vstack: StackModel,
    limit: usize,
    n: int,
)
    requires
        get_unused_reg(code, vstack, limit) is Ok,
        0 <= n <= code.len(),
    ensures
        get_unused_reg(code, vstack, limit)->Ok_0.0.take(n) == code.take(n),
{
    assert(get_unused_reg(code, vstack, limit)->Ok_0.0.take(n) =~= code.take(n));
}

proof fn lemma_push_all_keeps_prefix(code: Seq<u8>, vstack: StackModel, limit: usize, n: int)
    requires
        push_all(code, vstack, limit) is Ok,
        0 <= n <= code.len(),
    ensures
        push_all(code, vstack, limit)->Ok_0.0.take(n) == code.take(n),
{
    assert(push_all(code, vstack, limit)->Ok_0.0.take(n) =~= code.take(n));
}

proof fn lemma_append_keeps_prefix(code: Seq<u8>, bytes: Seq<u8>, limit: usize, n: int)
    requires
        append(code, bytes, limit) is Ok,
        0 <= n <= code.len(),
    ensures
        append(code, bytes, limit)->Ok_0.take(n) == code.take(n),
{
    assert(append(code, bytes, limit)->Ok_0.take(n) =~= code.take(n));
}

proof fn lemma_patch_all_keeps_prefix(code: Seq<u8>, sites: Seq<usize>, floor: usize)
    requires
        well_spaced(sites, floor, code.len()),
        floor <= code.len() <= MAX_CAPACITY,
    ensures
        patch_all(code, sites, code.len() as usize, floor) is Ok,
        patch_all(code, sites, code.len() as usize, floor)->Ok_0.take(floor as int) == code.take(
            floor as int,
        ),
{
    lemma_patch_all(code, sites, code.len() as usize, floor);
    let out = patch_all(code, sites, code.len() as usize, floor)->Ok_0;
    assert forall|k: int| 0 <= k < floor implies out[k] == code[k] by {
        assert forall|i: int| 0 <= i < sites.len() implies !(#[trigger] sites[i] - 4 <= k
            < sites[i]) by {}
    }
    assert(out.take(floor as int) =~= code.take(floor as int));
}

proof fn lemma_binary_keeps_installed(g: Gen, t: Target, op: BinaryOp, wide: bool)
    requires
        frames_ok(g, t),
        binary(g, t, op, wide) is Ok,
    ensures
        binary(g, t, op, wide)->Ok_0.code.take(t.floor as int) == g.code.take(t.floor as int),
{
    let n = t.floor as int;
    lemma_pop_value_grows(g.code, g.vstack, t.limit);
    lemma_pop_value_keeps_prefix(g.code, g.vstack, t.limit, n);
    let first = pop_value(g.code, g.vstack, t.limit)->Ok_0;
    lemma_pop_value_grows(first.0, first.1, t.limit);
    lemma_pop_value_keeps_prefix(first.0, first.1, t.limit, n);
    let second = pop_value(first.0, first.1, t.limit)->Ok_0;
    assert(binary(g, t, op, wide)->Ok_0.code.take(n) =~= second.0.take(n));
}

proof fn lemma_local_get_keeps_installed(g: Gen, t: Target, local_index: u32)
    requires
        frames_ok(g, t),
        local_get(g, t, local_index) is Ok,
    ensures
        local_get(g, t, local_index)->Ok_0.code.take(t.floor as int) == g.code.take(
            t.floor as int,
        ),
{
    let n = t.floor as int;
    lemma_get_unused_reg_grows(g.code, g.vstack, t.limit);
    lemma_get_unused_reg_keeps_prefix(g.code, g.vstack, t.limit, n);
    let got = get_unused_reg(g.code, g.vstack, t.limit)->Ok_0;
    assert(local_get(g, t, local_index)->Ok_0.code.take(n) =~= got.0.take(n));
}

proof fn lemma_call_keeps_installed(g: Gen, t: Target, store: Store, function_index: u32)
    requires
        frames_ok(g, t),
        call(g, t, store, function_index) is Ok,
    ensures
        call(g, t, store, function_index)->Ok_0.code.take(t.floor as int) == g.code.take(
            t.floor as int,
        ),
{
    let n = t.floor as int;
    lemma_push_all_grows(g.code, g.vstack, t.limit);
    lemma_push_all_keeps_prefix(g.code, g.vstack, t.limit, n);
    let flushed = push_all(g.code, g.vstack, t.limit)->Ok_0;
    assert(call(g, t, store, function_index)->Ok_0.code.take(n) =~= flushed.0.take(n));
}

proof fn lemma_if_keeps_installed(g: Gen, t: Target, store: Store, block_type: BlockType)
    requires
        frames_ok(g, t),
        open_if(g, t, store, block_type) is Ok,
    ensures
        open_if(g, t, store, block_type)->Ok_0.code.take(t.floor as int) == g.code.take(
            t.floor as int,
        ),
{
    let n = t.floor as int;
    lemma_pop_value_grows(g.code, g.vstack, t.limit);
    lemma_pop_value_keeps_prefix(g.code, g.vstack, t.limit, n);
    let popped = pop_value(g.code, g.vstack, t.limit)->Ok_0;
    lemma_push_all_grows(popped.0, popped.1, t.limit);
    lemma_push_all_keeps_prefix(popped.0, popped.1, t.limit, n);
    let flushed = push_all(popped.0, popped.1, t.limit)->Ok_0;
    assert(open_if(g, t, store, block_type)->Ok_0.code.take(n) =~= flushed.0.take(n));
}

proof fn lemma_else_keeps_installed(g: Gen, t: Target)
    requires
        frames_ok(g, t),
        g.labels.len() > 0,
        open_else(g, t) is Ok,
    ensures
        open_else(g, t)->Ok_0.code.take(t.floor as int) == g.code.take(t.floor as int),
{
    let n = t.floor as int;
    lemma_push_all_grows(g.code, g.vstack, t.limit);
    lemma_push_all_keeps_prefix(g.code, g.vstack, t.limit, n);
    let flushed = push_all(g.code, g.vstack, t.limit)->Ok_0.0;
    let jumped = append(flushed, 0i32.jmp_bytes(), t.limit)->Ok_0;
    lemma_append_keeps_prefix(flushed, 0i32.jmp_bytes(), t.limit, n);
    let site = sites_of(g.labels.last())[0];
    assert(open_else(g, t)->Ok_0.code == patched(jumped, site, jumped.len() as usize));
    assert(patched(jumped, site, jumped.len() as usize).take(n) =~= jumped.take(n));
}

proof fn lemma_close_keeps_installed(g: Gen, t: Target, store: Store)
    requires
        frames_ok(g, t),
        g.labels.len() > 0,
        close(g, t, store) is Ok,
    ensures
        close(g, t, store)->Ok_0.code.take(t.floor as int) == g.code.take(t.floor as int),
{
    let n = t.floor as int;
    let top = g.labels.len() - 1;
    let sites = sites_of(g.labels[top]);
    assert(well_spaced(sites_of(g.labels[top]), t.floor, g.code.len()));
    match g.labels.last() {
        LabelModel::End { .. } => {
            lemma_push_all_grows(g.code, g.vstack, t.limit);
            lemma_push_all_keeps_prefix(g.code, g.vstack, t.limit, n);
            let flushed = push_all(g.code, g.vstack, t.limit)->Ok_0.0;
            assert(well_spaced(sites, t.floor, flushed.len()));
            lemma_patch_all_keeps_prefix(flushed, sites, t.floor);
            let done = patch_all(flushed, sites, flushed.len() as usize, t.floor)->Ok_0;
            lemma_patch_all(flushed, sites, flushed.len() as usize, t.floor);
            assert(close(g, t, store)->Ok_0.code.take(n) =~= done.take(n));
        },
        LabelModel::FuncEnd { .. } => {
            lemma_patch_all_keeps_prefix(g.code, sites, t.floor);
        },
        LabelModel::LoopStart { .. } => {},
    }
}

/// One instruction changes nothing below the start of the function that
/// is being compiled.
pub proof fn lemma_step_keeps_installed(g: Gen, t: Target, store: Store, op: Operator)
    requires
        frames_ok(g, t),
        step(g, t, store, op) is Ok,
    ensures
        step(g, t, store, op)->Ok_0.code.take(t.floor as int) == g.code.take(t.floor as int),
{
    reveal(step);
    match op {
        Operator::End => {
            lemma_close_keeps_installed(g, t, store);
        },
        Operator::If { blockty } => {
            lemma_if_keeps_installed(g, t, store, blockty);
        },
        Operator::Else => {
            lemma_else_keeps_installed(g, t);
        },
        Operator::LocalGet { local_index } => {
            lemma_local_get_keeps_installed(g, t, local_index);
        },
        Operator::I32Const { .. } | Operator::I64Const { .. } => {},
        Operator::I32Add => {
            lemma_binary_keeps_installed(g, t, BinaryOp::Add, false);
        },
        Operator::I64Add => {
            lemma_binary_keeps_installed(g, t, BinaryOp::Add, true);
        },
        Operator::I32Sub => {
            lemma_binary_keeps_installed(g, t, BinaryOp::Sub, false);
        },
        Operator::I64Sub => {
            lemma_binary_keeps_installed(g, t, BinaryOp::Sub, true);
        },
        Operator::I32Eq => {
            lemma_binary_keeps_installed(g, t, BinaryOp::Eq, false);
        },
        Operator::I64Eq => {
            lemma_binary_keeps_installed(g, t, BinaryOp::Eq, true);
        },
        Operator::Call { function_index } => {
            lemma_call_keeps_installed(g, t, store, function_index);
        },
        Operator::Unsupported(_) => {},
    }
}

/// A body changes nothing below the start of the function that is being
/// compiled.
pub proof fn lemma_run_keeps_installed(g: Gen, t: Target, store: Store, ops: Seq<Operator>)
    requires
        frames_ok(g, t),
        run(g, t, store, ops) is Ok,
    ensures
        run(g, t, store, ops)->Ok_0.code.take(t.floor as int) == g.code.take(t.floor as int),
    decreases ops.len(),
{
    if ops.len() > 0 {
        let before = run(g, t, store, ops.drop_last())->Ok_0;
        lemma_run_keeps_installed(g, t, store, ops.drop_last());
        lemma_run_keeps_frames(g, t, store, ops.drop_last());
        lemma_step_keeps_installed(before, t, store, ops.last());
    }
}

/// Code that is written stays as it is: a function is written behind the
/// code that is there, and changes none of it.
pub proof fn lemma_function_code_extends(
    store: Store,
    code: Seq<u8>,
    limit: usize,
    base: u64,
    trampoline: u64,
    index: u32,
)
    requires
        code.len() <= limit <= MAX_CAPACITY,
        function_code(store, code, limit, base, trampoline, index) is Ok,
    ensures
        ({
            let out = function_code(store, code, limit, base, trampoline, index)->Ok_0;
            &&& code.len() <= out.len() <= limit
            &&& out.take(code.len() as int) == code
        }),
{
    let out = function_code(store, code, limit, base, trampoline, index)->Ok_0;
    let func = store.code_of(index)->Ok_0;
    let ty = store.func_type_of(index)->Ok_0;
    let t = target_of(code, limit, base, trampoline, index, ty);
    let n = code.len() as int;
    let start = append(code, prologue_bytes(ty.params@.len()), limit)->Ok_0;
    lemma_append_keeps_prefix(code, prologue_bytes(ty.params@.len()), limit, n);
    lemma_entry_frames_ok(start, t);
    lemma_run_keeps_frames(entry_state(start), t, store, func.body@);
    lemma_run_keeps_installed(entry_state(start), t, store, func.body@);
    let g = run(entry_state(start), t, store, func.body@)->Ok_0;
    lemma_push_all_grows(g.code, g.vstack, t.limit);
    lemma_push_all_keeps_prefix(g.code, g.vstack, t.limit, n);
    let flushed = push_all(g.code, g.vstack, t.limit)->Ok_0.0;
    assert(out.take(n) =~= flushed.take(n));
    assert(code.take(n) =~= code);
}

/// What is installed stays installed: entering a function changes no byte
/// of the installed code, moves no installed function, and leaves every
/// entry address in the cache as it is.
pub proof fn lemma_entered_keeps_what_is_installed(m: CompilerModel, store: Store, index: u32)
    requires
        m.wf(),
    ensures
        ({
            let after = m.entered(store, index).0;
            &&& after.wf()
            &&& after.base == m.base
            &&& after.capacity == m.capacity
            &&& after.trampoline == m.trampoline
            &&& m.func_start <= after.func_start
            &&& after.installed().take(m.func_start as int) == m.installed()
            &&& forall|i: u32|
                m.cache.contains_key(i) ==> after.cache.contains_key(i) && after.cache[i]
                    == m.cache[i]
            &&& m.entered(store, index).1 is Ok ==> after.cache.contains_key(index)
                && after.cache[index] == m.entered(store, index).1->Ok_0
        }),
{
    let after = m.entered(store, index).0;
    if m.cache.contains_key(index) {
        assert(after.installed().take(m.func_start as int) =~= m.installed());
    } else {
        match m.compiled(store, index) {
            Ok(code) => {
                lemma_function_code_extends(
                    store,
                    m.installed(),
                    m.capacity,
                    m.base,
                    m.trampoline,
                    index,
                );
                assert(after.installed() =~= code);
                assert(after.installed().take(m.func_start as int) =~= m.installed());
            },
            Err(_) => {
                assert(after.installed() =~= m.installed());
                assert(after.installed().take(m.func_start as int) =~= m.installed());
            },
        }
    }
}

} // verus!
