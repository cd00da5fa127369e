use vstd::prelude::*;

use crate::error::JitError;
use crate::machine::{
    encode_ops, lemma_encode_push, lemma_routine_computes, machine_result, op_bytes, prologue,
    routine,
};
use crate::ops::{program_value, translate, translation, Op};
use crate::Jit;

verus! {

/// The routine of a program, or the first character that stops its
/// translation.
pub open spec fn machine_code(s: Seq<char>) -> Result<Seq<u8>, char> {
    match translation(s) {
        Ok(ops) => Ok(routine(ops)),
        Err(c) => Err(c),
    }
}

/// Compiles by writing each operation's instruction bytes directly.
pub struct Soln2;

/// Appends the instruction bytes of one operation.
fn push_op_bytes(code: &mut Vec<u8>, op: Op)
    ensures
        final(code)@ == old(code)@ + op_bytes(op),
{
    let (b0, b1, b2): (u8, u8, u8) = match op {
        Op::Increment => (0x48, 0xff, 0xc0),
        Op::Decrement => (0x48, 0xff, 0xc8),
        Op::Double => (0x48, 0xd1, 0xe0),
        Op::HalveSigned => (0x48, 0xd1, 0xf8),
    };
    code.push(b0);
    code.push(b1);
    code.push(b2);
    assert(final(code)@ =~= old(code)@ + op_bytes(op));
}

impl Jit for Soln2 {
    /// The routine's bytes: the load of zero into the accumulator, the
    /// instruction of each operation in order, and the return.
    fn jit(program: &str) -> (r: Result<Vec<u8>, JitError>)
        ensures
            r is Ok <==> translation(program@) is Ok,
            r is Ok ==> r->Ok_0@ == routine(translation(program@)->Ok_0),
            r is Ok ==> r->Ok_0@ == machine_code(program@)->Ok_0,
            r is Err ==> r->Err_0 == JitError::InvalidSymbol(translation(program@)->Err_0),
    {
        let ops = match translate(program) {
            Ok(ops) => ops,
            Err(e) => return Err(e),
        };
        let mut code: Vec<u8> = vec![0x48, 0xc7, 0xc0, 0x00, 0x00, 0x00, 0x00];
        assert(code@ =~= prologue() + encode_ops(ops@.take(0)));
        for i in 0..ops.len()
            invariant
                code@ == prologue() + encode_ops(ops@.take(i as int)),
        {
            proof {
                assert(ops@.take(i + 1) =~= ops@.take(i as int).push(ops@[i as int]));
                lemma_encode_push(ops@.take(i as int), ops@[i as int]);
            }
            push_op_bytes(&mut code, ops[i]);
            assert(code@ =~= prologue() + encode_ops(ops@.take(i + 1)));
        }
        code.push(0xc3);
        assert(ops@.take(ops.len() as int) =~= ops@);
        assert(code@ =~= routine(ops@));
        Ok(code)
    }
}

/// The routine compiled from a program returns the program's value: the
/// accumulator from zero through each operation, left to right, whitespace
/// skipped. A program that does not translate compiles to no routine, so
/// nothing of it runs.
pub proof fn lemma_compiled_result(s: Seq<char>, rax: i64)
    ensures
        machine_code(s) is Ok <==> program_value(s) is Ok,
        machine_code(s) is Ok ==> machine_result(machine_code(s)->Ok_0, rax) == Some(
            program_value(s)->Ok_0,
        ),
        machine_code(s) is Err ==> machine_code(s)->Err_0 == program_value(s)->Err_0,
{
    if translation(s) is Ok {
        lemma_routine_computes(translation(s)->Ok_0, rax);
    }
}

/// Two runs of one program give one result: the routine depends on the
/// program alone, and what it returns does not depend on what the register
/// held before the call.
pub proof fn lemma_runs_agree(s: Seq<char>, t: Seq<char>, rax1: i64, rax2: i64)
    requires
        s == t,
    ensures
        machine_code(s) == machine_code(t),
        machine_code(s) is Ok ==> machine_result(machine_code(s)->Ok_0, rax1) == machine_result(
            machine_code(t)->Ok_0,
            rax2,
        ),
{
    lemma_compiled_result(s, rax1);
    lemma_compiled_result(t, rax2);
}

} // verus!
