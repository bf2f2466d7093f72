//! What holds of the scratch registers: each one is either free, or holds
//! one deferred value, or is in the hands of the instruction that is being
//! compiled; and as long as one of them is not in such hands, a register
//! can be handed out.

use crate::assembler::Register64;
use crate::compiler::model::{
    binary, call, close, combine, constant, entry_state, first_reg, get_unused_reg, local_get,
    open_else, open_if, pop_value, push_all, run, scratch_pool, stack_regs, step, BinaryOp, Gen,
    LabelModel, StackModel, StackValue, Target,
};
use crate::runtime::error::Fault;
use crate::runtime::store::Store;
use crate::wasm::{BlockType, Operator};
use vstd::multiset::Multiset;
use vstd::prelude::*;
use vstd::seq_lib::{lemma_multiset_commutative, to_multiset_build, to_multiset_len};

verus! {

/// The registers that are free or hold a deferred value, each as often as
/// it occurs.
pub open spec fn registers_of(v: StackModel) -> Multiset<Register64> {
    v.unused_regs.to_multiset().add(stack_regs(v.stack).to_multiset())
}

/// Whether the scratch registers are all accounted for, each exactly once:
/// free, or holding a deferred value, or among `held`.
pub open spec fn accounted(v: StackModel, held: Multiset<Register64>) -> bool {
    registers_of(v).add(held) == scratch_pool().to_multiset()
}

/// Whether the scratch registers are accounted for in the deferred values
/// and in what every open `if` has saved for its second arm.
pub open spec fn registers_ok(g: Gen) -> bool {
    &&& accounted(g.vstack, Multiset::empty())
    &&& forall|i: int|
        0 <= i < g.labels.len() ==> match #[trigger] g.labels[i] {
            LabelModel::End { else_stack: Some(saved), .. } => accounted(saved, Multiset::empty()),
            _ => true,
        }
}

/// There are seven scratch registers, all different.
pub proof fn lemma_pool(r: Register64)
    ensures
        scratch_pool().to_multiset().len() == 7,
        scratch_pool().no_duplicates(),
        scratch_pool().to_multiset().count(r) == (if scratch_pool().contains(r) {
            1nat
        } else {
            0
        }),
{
    to_multiset_len(scratch_pool());
    assert(scratch_pool().no_duplicates());
    scratch_pool().lemma_multiset_has_no_duplicates();
    scratch_pool().to_multiset_ensures();
}

proof fn lemma_drop_first(s: Seq<Register64>)
    requires
        s.len() > 0,
    ensures
        s.to_multiset() == s.drop_first().to_multiset().insert(s[0]),
{
    broadcast use vstd::multiset::group_multiset_axioms;

    let head = Seq::<Register64>::empty().push(s[0]);
    assert(head + s.drop_first() =~= s);
    lemma_multiset_commutative(head, s.drop_first());
    to_multiset_build(Seq::<Register64>::empty(), s[0]);
    to_multiset_len(Seq::<Register64>::empty());
    assert(Seq::<Register64>::empty().to_multiset() =~= Multiset::empty());
    assert(s.to_multiset() =~= s.drop_first().to_multiset().insert(s[0]));
}

proof fn lemma_push(s: Seq<Register64>, r: Register64)
    ensures
        s.push(r).to_multiset() == s.to_multiset().insert(r),
{
    to_multiset_build(s, r);
}

proof fn lemma_stack_regs_concat(a: Seq<StackValue>, b: Seq<StackValue>)
    ensures
        stack_regs(a + b) == stack_regs(a) + stack_regs(b),
    decreases b.len(),
{
    if b.len() == 0 {
        assert(a + b =~= a);
        assert(stack_regs(a) + stack_regs(b) =~= stack_regs(a));
    } else {
        assert((a + b).drop_last() =~= a + b.drop_last());
        lemma_stack_regs_concat(a, b.drop_last());
        assert(stack_regs(a + b) =~= stack_regs(a) + stack_regs(b));
    }
}

/// Below the oldest register value there are only constants.
proof fn lemma_first_reg(stack: Seq<StackValue>)
    ensures
        0 <= first_reg(stack) <= stack.len(),
        first_reg(stack) < stack.len() ==> stack[first_reg(stack)] is Reg,
        stack_regs(stack.take(first_reg(stack))).len() == 0,
        first_reg(stack) >= stack.len() ==> stack_regs(stack).len() == 0,
    decreases stack.len(),
{
    if stack.len() == 0 {
        assert(stack.take(0) =~= stack);
    } else if stack[0] is Reg {
        assert(stack.take(0) =~= Seq::<StackValue>::empty());
    } else {
        let rest = stack.drop_first();
        lemma_first_reg(rest);
        let k = first_reg(rest);
        let head = Seq::<StackValue>::empty().push(stack[0]);
        assert(head.drop_last() =~= Seq::<StackValue>::empty());
        assert(stack_regs(Seq::<StackValue>::empty()).len() == 0);
        assert(head.last() == stack[0]);
        assert(stack_regs(head).len() == 0);
        assert(stack.take(k + 1) =~= head + rest.take(k));
        lemma_stack_regs_concat(head, rest.take(k));
        if k >= rest.len() {
            assert(stack =~= head + rest);
            lemma_stack_regs_concat(head, rest);
        }
    }
}

/// The registers of a stack are the oldest one and those above it.
proof fn lemma_split_at_first_reg(stack: Seq<StackValue>)
    requires
        first_reg(stack) < stack.len(),
    ensures
        stack_regs(stack).to_multiset() == stack_regs(
            stack.skip(first_reg(stack) + 1),
        ).to_multiset().insert(stack[first_reg(stack)]->Reg_0),
{
    broadcast use vstd::multiset::group_multiset_axioms;

    lemma_first_reg(stack);
    let k = first_reg(stack);
    let below = stack.take(k);
    let one = Seq::<StackValue>::empty().push(stack[k]);
    let above = stack.skip(k + 1);
    assert(stack =~= below + one + above);
    lemma_stack_regs_concat(below + one, above);
    lemma_stack_regs_concat(below, one);
    assert(one.drop_last() =~= Seq::<StackValue>::empty());
    let r = stack[k]->Reg_0;
    assert(stack_regs(Seq::<StackValue>::empty()) =~= Seq::<Register64>::empty());
    assert(one.last() == stack[k]);
    assert(stack_regs(one) =~= Seq::<Register64>::empty().push(r));
    assert(stack_regs(below) =~= Seq::<Register64>::empty());
    assert(stack_regs(stack) =~= Seq::<Register64>::empty().push(r) + stack_regs(above));
    lemma_drop_first(stack_regs(stack));
    assert(stack_regs(stack).drop_first() =~= stack_regs(above));
}

/// A register is handed out as long as the instruction holds fewer than
/// all seven, and the register it gets is one that was accounted for.
pub proof fn lemma_get_unused_reg(
    code: Seq<u8>,
    v: StackModel,
    limit: usize,
    held: Multiset<Register64>,
)
    requires
        accounted(v, held),
        held.len() < 7,
    ensures
        get_unused_reg(code, v, limit) != Err::<(Seq<u8>, StackModel, Register64), Fault>(
            Fault::UnsupportedBlockShape,
        ),
        get_unused_reg(code, v, limit) matches Ok((_, after, reg)) ==> accounted(
            after,
            held.insert(reg),
        ),
{
    broadcast use vstd::multiset::group_multiset_axioms;

    lemma_pool(Register64::Rax);
    to_multiset_len(v.unused_regs);
    to_multiset_len(stack_regs(v.stack));
    lemma_first_reg(v.stack);
    if v.unused_regs.len() > 0 {
        lemma_drop_first(v.unused_regs);
        let after = StackModel { stack: v.stack, unused_regs: v.unused_regs.drop_first() };
        assert(registers_of(after).add(held.insert(v.unused_regs[0])) =~= registers_of(v).add(
            held,
        ));
    } else {
        assert(registers_of(v).add(held).len() == 7);
        assert(stack_regs(v.stack).len() > 0);
        let k = first_reg(v.stack);
        lemma_split_at_first_reg(v.stack);
        let after = StackModel { stack: v.stack.skip(k + 1), unused_regs: v.unused_regs };
        assert(registers_of(after).add(held.insert(v.stack[k]->Reg_0)) =~= registers_of(v).add(
            held,
        ));
    }
}

/// The registers that a value holds: one for a register value, none for a
/// constant.
pub open spec fn held_by(value: StackValue) -> Multiset<Register64> {
    match value {
        StackValue::Reg(reg) => Multiset::empty().insert(reg),
        StackValue::Imm(_) => Multiset::empty(),
    }
}

/// A value is taken from the operand stack as long as the instruction
/// holds fewer than all seven registers, and its register passes into the
/// hands of the instruction.
pub proof fn lemma_pop_value(code: Seq<u8>, v: StackModel, limit: usize, held: Multiset<Register64>)
    requires
        accounted(v, held),
        held.len() < 7,
    ensures
        pop_value(code, v, limit) != Err::<(Seq<u8>, StackModel, StackValue), Fault>(
            Fault::UnsupportedBlockShape,
        ),
        pop_value(code, v, limit) matches Ok((_, after, value)) ==> accounted(
            after,
            held.add(held_by(value)),
        ),
{
    broadcast use vstd::multiset::group_multiset_axioms;

    if v.stack.len() > 0 {
        let after = StackModel { stack: v.stack.drop_last(), unused_regs: v.unused_regs };
        match v.stack.last() {
            StackValue::Reg(reg) => {
                lemma_push(stack_regs(v.stack.drop_last()), reg);
                assert(registers_of(after).add(held.add(held_by(v.stack.last())))
                    =~= registers_of(v).add(held));
            },
            StackValue::Imm(_) => {
                assert(registers_of(after).add(held.add(held_by(v.stack.last())))
                    =~= registers_of(v).add(held));
            },
        }
    } else {
        lemma_get_unused_reg(code, v, limit, held);
        if let Ok((_, after, reg)) = get_unused_reg(code, v, limit) {
            assert(held.insert(reg) =~= held.add(held_by(StackValue::Reg(reg))));
        }
    }
}

/// Writing the deferred values to memory frees their registers.
pub proof fn lemma_push_all(code: Seq<u8>, v: StackModel, limit: usize, held: Multiset<Register64>)
    requires
        accounted(v, held),
    ensures
        push_all(code, v, limit) matches Ok((_, after)) ==> accounted(after, held),
{
    broadcast use vstd::multiset::group_multiset_axioms;

    lemma_multiset_commutative(v.unused_regs, stack_regs(v.stack));
    let after = StackModel {
        stack: Seq::empty(),
        unused_regs: v.unused_regs + stack_regs(v.stack),
    };
    to_multiset_len(stack_regs(after.stack));
    assert(stack_regs(after.stack).to_multiset() =~= Multiset::empty());
    assert(registers_of(after).add(held) =~= registers_of(v).add(held));
}


proof fn lemma_stack_push(stack: Seq<StackValue>, value: StackValue)
    ensures
        stack_regs(stack.push(value)).to_multiset() == stack_regs(stack).to_multiset().add(
            held_by(value),
        ),
{
    broadcast use vstd::multiset::group_multiset_axioms;

    assert(stack.push(value).drop_last() =~= stack);
    match value {
        StackValue::Reg(reg) => {
            lemma_push(stack_regs(stack), reg);
            assert(stack_regs(stack).to_multiset().insert(reg) =~= stack_regs(
                stack,
            ).to_multiset().add(held_by(value)));
        },
        StackValue::Imm(_) => {
            assert(stack_regs(stack).to_multiset().add(held_by(value)) =~= stack_regs(
                stack,
            ).to_multiset());
        },
    }
}

/// No scratch register is free and in use at once, none holds two
/// deferred values, and none is lost.
pub proof fn lemma_no_register_twice(v: StackModel)
    requires
        accounted(v, Multiset::empty()),
    ensures
        (v.unused_regs + stack_regs(v.stack)).no_duplicates(),
        forall|r: Register64|
            (v.unused_regs + stack_regs(v.stack)).contains(r) <==> scratch_pool().contains(r),
{
    broadcast use vstd::multiset::group_multiset_axioms;

    let all = v.unused_regs + stack_regs(v.stack);
    lemma_multiset_commutative(v.unused_regs, stack_regs(v.stack));
    assert(all.to_multiset() =~= scratch_pool().to_multiset());
    assert forall|r: Register64| all.to_multiset().contains(r) implies all.to_multiset().count(r)
        == 1 by {
        lemma_pool(r);
    }
    all.lemma_multiset_has_no_duplicates_conv();
    all.to_multiset_ensures();
    scratch_pool().to_multiset_ensures();
    assert forall|r: Register64| all.contains(r) <==> scratch_pool().contains(r) by {
        assert(all.contains(r) <==> all.to_multiset().count(r) > 0);
        assert(scratch_pool().contains(r) <==> scratch_pool().to_multiset().count(r) > 0);
    }
}

/// When a body is entered, every scratch register is free.
pub proof fn lemma_entry_registers_ok(code: Seq<u8>)
    ensures
        registers_ok(entry_state(code)),
{
    broadcast use vstd::multiset::group_multiset_axioms;

    let v = entry_state(code).vstack;
    to_multiset_len(stack_regs(v.stack));
    assert(stack_regs(v.stack).to_multiset() =~= Multiset::empty());
    assert(registers_of(v).add(Multiset::empty()) =~= scratch_pool().to_multiset());
}

/// A binary operation with two operands on the stack never lacks a
/// register, and gives back every register it took.
pub proof fn lemma_binary_keeps_registers(g: Gen, t: Target, op: BinaryOp, wide: bool)
    requires
        registers_ok(g),
        g.stack_count >= 2,
    ensures
        binary(g, t, op, wide) != Err::<Gen, Fault>(Fault::UnsupportedBlockShape),
        binary(g, t, op, wide) matches Ok(after) ==> registers_ok(after),
{
    broadcast use vstd::multiset::group_multiset_axioms;

    let none = Multiset::<Register64>::empty();
    lemma_pop_value(g.code, g.vstack, t.limit, none);
    if let Ok((code1, v1, second)) = pop_value(g.code, g.vstack, t.limit) {
        let held1 = none.add(held_by(second));
        lemma_pop_value(code1, v1, t.limit, held1);
        if let Ok((code2, v2, first)) = pop_value(code1, v1, t.limit) {
            let held2 = held1.add(held_by(first));
            let (bytes, value, freed) = combine(op, wide, first, second);
            let after = StackModel {
                stack: v2.stack.push(value),
                unused_regs: match freed {
                    Some(reg) => v2.unused_regs.push(reg),
                    None => v2.unused_regs,
                },
            };
            lemma_stack_push(v2.stack, value);
            match freed {
                Some(reg) => {
                    lemma_push(v2.unused_regs, reg);
                },
                None => {},
            }
            assert(registers_of(after).add(none) =~= registers_of(v2).add(held2));
            if let Ok(done) = binary(g, t, op, wide) {
                assert(done.vstack == after);
                assert(done.labels == g.labels);
            }
        }
    }
}

/// `local.get` never lacks a register.
pub proof fn lemma_local_get_keeps_registers(g: Gen, t: Target, local_index: u32)
    requires
        registers_ok(g),
    ensures
        local_get(g, t, local_index) == Err::<Gen, Fault>(Fault::UnsupportedBlockShape)
            ==> g.stack_count >= crate::compiler::model::MAX_DEPTH,
        local_get(g, t, local_index) matches Ok(after) ==> registers_ok(after),
{
    broadcast use vstd::multiset::group_multiset_axioms;

    let none = Multiset::<Register64>::empty();
    lemma_get_unused_reg(g.code, g.vstack, t.limit, none);
    if let Ok((code, v, reg)) = get_unused_reg(g.code, g.vstack, t.limit) {
        let after = StackModel {
            stack: v.stack.push(StackValue::Reg(reg)),
            unused_regs: v.unused_regs,
        };
        lemma_stack_push(v.stack, StackValue::Reg(reg));
        assert(registers_of(after).add(none) =~= registers_of(v).add(none.insert(reg)));
        if let Ok(done) = local_get(g, t, local_index) {
            assert(done.vstack == after);
            assert(done.labels == g.labels);
        }
    }
}

proof fn lemma_constant_keeps_registers(g: Gen, n: i64)
    requires
        registers_ok(g),
    ensures
        constant(g, n) matches Ok(after) ==> registers_ok(after),
{
    broadcast use vstd::multiset::group_multiset_axioms;

    lemma_stack_push(g.vstack.stack, StackValue::Imm(n));
    if let Ok(after) = constant(g, n) {
        assert(registers_of(after.vstack).add(Multiset::empty()) =~= registers_of(g.vstack).add(
            Multiset::empty(),
        ));
        assert(after.labels == g.labels);
    }
}

proof fn lemma_call_keeps_registers(g: Gen, t: Target, store: Store, function_index: u32)
    requires
        registers_ok(g),
    ensures
        call(g, t, store, function_index) matches Ok(after) ==> registers_ok(after),
{
    lemma_push_all(g.code, g.vstack, t.limit, Multiset::empty());
    if let Ok(after) = call(g, t, store, function_index) {
        assert(after.labels == g.labels);
    }
}

proof fn lemma_if_keeps_registers(g: Gen, t: Target, store: Store, block_type: BlockType)
    requires
        registers_ok(g),
    ensures
        open_if(g, t, store, block_type) matches Ok(after) ==> registers_ok(after),
{
    broadcast use vstd::multiset::group_multiset_axioms;

    let none = Multiset::<Register64>::empty();
    lemma_pop_value(g.code, g.vstack, t.limit, none);
    if let Ok(after) = open_if(g, t, store, block_type) {
        let (code, popped, condition) = pop_value(g.code, g.vstack, t.limit)->Ok_0;
        lemma_push_all(code, popped, t.limit, none.add(held_by(condition)));
        let (_, v) = push_all(code, popped, t.limit)->Ok_0;
        match condition {
            StackValue::Reg(reg) => {
                lemma_push(v.unused_regs, reg);
            },
            StackValue::Imm(_) => {},
        }
        assert(registers_of(after.vstack).add(none) =~= registers_of(v).add(
            none.add(held_by(condition)),
        ));
        assert(after.labels == g.labels.push(after.labels.last()));
        assert forall|i: int| 0 <= i < after.labels.len() implies match #[trigger] after.labels[i] {
            LabelModel::End { else_stack: Some(saved), .. } => accounted(saved, Multiset::empty()),
            _ => true,
        } by {
            if i < g.labels.len() {
                assert(after.labels[i] == g.labels[i]);
            }
        }
    }
}

proof fn lemma_else_keeps_registers(g: Gen, t: Target)
    requires
        registers_ok(g),
        g.labels.len() > 0,
    ensures
        open_else(g, t) matches Ok(after) ==> registers_ok(after),
{
    if let Ok(after) = open_else(g, t) {
        let top = g.labels.len() - 1;
        assert(g.labels[top] == g.labels.last());
        assert forall|i: int| 0 <= i < after.labels.len() implies match #[trigger] after.labels[i] {
            LabelModel::End { else_stack: Some(saved), .. } => accounted(saved, Multiset::empty()),
            _ => true,
        } by {
            if i < top {
                assert(after.labels[i] == g.labels[i]);
            }
        }
    }
}

proof fn lemma_close_keeps_registers(g: Gen, t: Target, store: Store)
    requires
        registers_ok(g),
        g.labels.len() > 0,
    ensures
        close(g, t, store) matches Ok(after) ==> registers_ok(after),
{
    lemma_push_all(g.code, g.vstack, t.limit, Multiset::empty());
    if let Ok(after) = close(g, t, store) {
        assert(after.labels == g.labels.drop_last());
        assert forall|i: int| 0 <= i < after.labels.len() implies match #[trigger] after.labels[i] {
            LabelModel::End { else_stack: Some(saved), .. } => accounted(saved, Multiset::empty()),
            _ => true,
        } by {
            assert(after.labels[i] == g.labels[i]);
        }
    }
}

/// One instruction leaves every scratch register accounted for.
pub proof fn lemma_step_keeps_registers(g: Gen, t: Target, store: Store, op: Operator)
    requires
        registers_ok(g),
        step(g, t, store, op) is Ok,
    ensures
        registers_ok(step(g, t, store, op)->Ok_0),
{
    reveal(step);
    match op {
        Operator::LocalGet { local_index } => {
            lemma_local_get_keeps_registers(g, t, local_index);
        },
        Operator::I32Const { value } => {
            lemma_constant_keeps_registers(g, value as i64);
        },
        Operator::I64Const { value } => {
            lemma_constant_keeps_registers(g, value);
        },
        Operator::I32Add => {
            lemma_binary_keeps_registers(g, t, BinaryOp::Add, false);
        },
        Operator::I64Add => {
            lemma_binary_keeps_registers(g, t, BinaryOp::Add, true);
        },
        Operator::I32Sub => {
            lemma_binary_keeps_registers(g, t, BinaryOp::Sub, false);
        },
        Operator::I64Sub => {
            lemma_binary_keeps_registers(g, t, BinaryOp::Sub, true);
        },
        Operator::I32Eq => {
            lemma_binary_keeps_registers(g, t, BinaryOp::Eq, false);
        },
        Operator::I64Eq => {
            lemma_binary_keeps_registers(g, t, BinaryOp::Eq, true);
        },
        Operator::If { blockty } => {
            lemma_if_keeps_registers(g, t, store, blockty);
        },
        Operator::Else => {
            lemma_else_keeps_registers(g, t);
        },
        Operator::End => {
            lemma_close_keeps_registers(g, t, store);
        },
        Operator::Call { function_index } => {
            lemma_call_keeps_registers(g, t, store, function_index);
        },
        Operator::Unsupported(_) => {},
    }
}

/// After every instruction of a body, every scratch register is accounted
/// for: free, or holding exactly one deferred value.
pub proof fn lemma_run_keeps_registers(code: Seq<u8>, t: Target, store: Store, ops: Seq<Operator>)
    requires
        run(entry_state(code), t, store, ops) is Ok,
    ensures
        registers_ok(run(entry_state(code), t, store, ops)->Ok_0),
    decreases ops.len(),
{
    if ops.len() == 0 {
        lemma_entry_registers_ok(code);
    } else {
        lemma_run_keeps_registers(code, t, store, ops.drop_last());
        lemma_step_keeps_registers(
            run(entry_state(code), t, store, ops.drop_last())->Ok_0,
            t,
            store,
            ops.last(),
        );
    }
}

} // verus!
