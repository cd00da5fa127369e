use vstd::prelude::*;

use crate::ops::{Op, evaluate, run_ops, apply, wrap64};

verus! {

/// `mov $0, %rax` (REX.W C7 /0 with a 32-bit immediate of zero).
pub open spec fn prologue() -> Seq<u8> {
    seq![0x48u8, 0xc7u8, 0xc0u8, 0x00u8, 0x00u8, 0x00u8, 0x00u8]
}

/// `ret`.
pub open spec fn epilogue() -> Seq<u8> {
    seq![0xc3u8]
}

/// The three bytes of the instruction that performs an operation on `%rax`.
pub open spec fn op_bytes(op: Op) -> Seq<u8> {
    match op {
        // inc %rax
        Op::Increment => seq![0x48u8, 0xffu8, 0xc0u8],
        // dec %rax
        Op::Decrement => seq![0x48u8, 0xffu8, 0xc8u8],
        // sal $1, %rax
        Op::Double => seq![0x48u8, 0xd1u8, 0xe0u8],
        // sar $1, %rax
        Op::HalveSigned => seq![0x48u8, 0xd1u8, 0xf8u8],
    }
}

/// The instructions of the operations, in order.
pub open spec fn encode_ops(ops: Seq<Op>) -> Seq<u8>
    decreases ops.len(),
{
    if ops.len() == 0 {
        Seq::empty()
    } else {
        op_bytes(ops[0]) + encode_ops(ops.drop_first())
    }
}

/// The whole routine: load zero, apply each operation, return the accumulator.
pub open spec fn routine(ops: Seq<Op>) -> Seq<u8> {
    prologue() + encode_ops(ops) + epilogue()
}

/// A little-endian 32-bit immediate, sign-extended to 64 bits.
pub open spec fn imm32(b0: u8, b1: u8, b2: u8, b3: u8) -> i64 {
    let u = b0 + 0x100 * b1 + 0x1_0000 * b2 + 0x100_0000 * b3;
    if u >= 0x8000_0000 {
        (u - 0x1_0000_0000) as i64
    } else {
        u as i64
    }
}

/// What `%rax` holds when the code starting at `pc` returns, for the
/// instructions the generators emit; `None` where the code leaves that set
/// or runs past its end.
pub open spec fn exec_from(code: Seq<u8>, pc: int, rax: i64) -> Option<i64>
    decreases code.len() - pc,
{
    if pc < 0 || pc >= code.len() {
        None
    } else if code[pc] == 0xc3 {
        Some(rax)
    } else if pc + 3 <= code.len() && code[pc] == 0x48 && code[pc + 1] == 0xff && code[pc + 2] == 0xc0 {
        exec_from(code, pc + 3, wrap64(rax + 1))
    } else if pc + 3 <= code.len() && code[pc] == 0x48 && code[pc + 1] == 0xff && code[pc + 2] == 0xc8 {
        exec_from(code, pc + 3, wrap64(rax - 1))
    } else if pc + 3 <= code.len() && code[pc] == 0x48 && code[pc + 1] == 0xd1 && code[pc + 2] == 0xe0 {
        exec_from(code, pc + 3, wrap64(2 * rax))
    } else if pc + 3 <= code.len() && code[pc] == 0x48 && code[pc + 1] == 0xd1 && code[pc + 2] == 0xf8 {
        exec_from(code, pc + 3, (rax / 2) as i64)
    } else if pc + 7 <= code.len() && code[pc] == 0x48 && code[pc + 1] == 0xc7 && code[pc + 2] == 0xc0 {
        exec_from(code, pc + 7, imm32(code[pc + 3], code[pc + 4], code[pc + 5], code[pc + 6]))
    } else {
        None
    }
}

/// What a routine returns when called, whatever `%rax` held before the call.
pub open spec fn machine_result(code: Seq<u8>, rax: i64) -> Option<i64> {
    exec_from(code, 0, rax)
}

pub proof fn lemma_encode_len(ops: Seq<Op>)
    ensures
        encode_ops(ops).len() == 3 * ops.len(),
    decreases ops.len(),
{
    if ops.len() > 0 {
        lemma_encode_len(ops.drop_first());
    }
}

/// Encoding one more operation appends its instruction.
pub proof fn lemma_encode_push(ops: Seq<Op>, op: Op)
    ensures
        encode_ops(ops.push(op)) == encode_ops(ops) + op_bytes(op),
    decreases ops.len(),
{
    if ops.len() == 0 {
        assert(ops.push(op).drop_first() =~= Seq::<Op>::empty());
        assert(encode_ops(ops.push(op).drop_first()) == Seq::<u8>::empty());
        assert(ops.push(op)[0] == op);
        assert(encode_ops(ops.push(op)) =~= encode_ops(ops) + op_bytes(op));
    } else {
        assert(ops.push(op).drop_first() =~= ops.drop_first().push(op));
        lemma_encode_push(ops.drop_first(), op);
        assert(encode_ops(ops.push(op)) =~= encode_ops(ops) + op_bytes(op));
    }
}

/// Encoded operations followed by `ret` compute the operations on `%rax`.
proof fn lemma_exec_encoded(code: Seq<u8>, pc: int, rax: i64, ops: Seq<Op>)
    requires
        0 <= pc,
        pc + 3 * ops.len() < code.len(),
        code.subrange(pc, pc + 3 * ops.len()) == encode_ops(ops),
        code[pc + 3 * ops.len()] == 0xc3,
    ensures
        exec_from(code, pc, rax) == Some(run_ops(rax, ops)),
    decreases ops.len(),
{
    if ops.len() > 0 {
        let rest = ops.drop_first();
        lemma_encode_len(rest);
        let whole = code.subrange(pc, pc + 3 * ops.len());
        assert(whole.subrange(0, 3) == op_bytes(ops[0]));
        assert(code[pc] == whole[0] && code[pc + 1] == whole[1] && code[pc + 2] == whole[2]);
        assert(code.subrange(pc + 3, pc + 3 + 3 * rest.len()) =~= whole.subrange(3, whole.len() as int));
        assert(whole.subrange(3, whole.len() as int) =~= encode_ops(rest));
        lemma_exec_encoded(code, pc + 3, apply(ops[0], rax), rest);
    }
}

/// The routine for a sequence of operations returns their value, whatever
/// `%rax` held when it was called.
pub proof fn lemma_routine_computes(ops: Seq<Op>, rax: i64)
    ensures
        machine_result(routine(ops), rax) == Some(evaluate(ops)),
{
    let code = routine(ops);
    lemma_encode_len(ops);
    assert(code.subrange(7, 7 + 3 * ops.len() as int) =~= encode_ops(ops));
    assert(imm32(0, 0, 0, 0) == 0);
    lemma_exec_encoded(code, 7, 0, ops);
}

} // verus!
