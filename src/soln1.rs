use vstd::prelude::*;

use crate::error::JitError;
use crate::machine::{encode_ops, epilogue, lemma_encode_push, op_bytes, prologue, routine};
use crate::ops::{translate, translation, Op};
use crate::soln2::machine_code;

verus! {

/// Compiles by handing assembly text to an external assembler; the text is
/// produced here, the assembling is left to the caller.
pub struct Soln1;

/// The line that loads zero into the accumulator.
pub open spec fn load_zero_line() -> Seq<char> {
    "movq $0, %rax"@
}

/// The line that returns the accumulator.
pub open spec fn ret_line() -> Seq<char> {
    "ret"@
}

/// The assembly line of one operation.
pub open spec fn asm_line(op: Op) -> Seq<char> {
    match op {
        Op::Increment => "inc %rax"@,
        Op::Decrement => "dec %rax"@,
        Op::Double => "sal $1, %rax"@,
        Op::HalveSigned => "sar $1, %rax"@,
    }
}

/// The lines of the listing: the load, one line per operation (one blank
/// line where there is none), and the return.
pub open spec fn listing(ops: Seq<Op>) -> Seq<Seq<char>> {
    let body = if ops.len() == 0 {
        seq![Seq::<char>::empty()]
    } else {
        ops.map_values(|op: Op| asm_line(op))
    };
    seq![load_zero_line()] + body + seq![ret_line()]
}

/// Lines written one after another, each ended by a newline.
pub open spec fn render(lines: Seq<Seq<char>>) -> Seq<char>
    decreases lines.len(),
{
    if lines.len() == 0 {
        Seq::empty()
    } else {
        render(lines.drop_last()) + lines.last() + "\n"@
    }
}

/// The assembly text of a program, or the first character that stops its
/// translation.
pub open spec fn assembly(s: Seq<char>) -> Result<Seq<char>, char> {
    match translation(s) {
        Ok(ops) => Ok(render(listing(ops))),
        Err(c) => Err(c),
    }
}

/// The standard x86-64 encoding of each line the listing can hold.
pub open spec fn assembled_line(line: Seq<char>) -> Option<Seq<u8>> {
    if line == load_zero_line() {
        Some(prologue())
    } else if line == ret_line() {
        Some(epilogue())
    } else if line.len() == 0 {
        Some(Seq::empty())
    } else if line == asm_line(Op::Increment) {
        Some(op_bytes(Op::Increment))
    } else if line == asm_line(Op::Decrement) {
        Some(op_bytes(Op::Decrement))
    } else if line == asm_line(Op::Double) {
        Some(op_bytes(Op::Double))
    } else if line == asm_line(Op::HalveSigned) {
        Some(op_bytes(Op::HalveSigned))
    } else {
        None
    }
}

/// The bytes of a listing, line by line, if every line has an encoding.
pub open spec fn assemble_listing(lines: Seq<Seq<char>>) -> Option<Seq<u8>>
    decreases lines.len(),
{
    if lines.len() == 0 {
        Some(Seq::empty())
    } else {
        match (assemble_listing(lines.drop_last()), assembled_line(lines.last())) {
            (Some(a), Some(b)) => Some(a + b),
            _ => None,
        }
    }
}

fn mnemonic(op: Op) -> (r: &'static str)
    ensures
        r@ == asm_line(op),
{
    match op {
        Op::Increment => "inc %rax",
        Op::Decrement => "dec %rax",
        Op::Double => "sal $1, %rax",
        Op::HalveSigned => "sar $1, %rax",
    }
}

impl Soln1 {
    /// Converts a program into assembly text: the load of zero into `%rax`, one
    /// instruction line per operation, and `ret`, each line ended by a newline.
    pub fn compile(program: &str) -> (r: Result<String, JitError>)
        ensures
            r is Ok <==> translation(program@) is Ok,
            r is Ok ==> r->Ok_0@ == render(listing(translation(program@)->Ok_0)),
            r is Err ==> r->Err_0 == JitError::InvalidSymbol(translation(program@)->Err_0),
    {
        let ops = match translate(program) {
            Ok(ops) => ops,
            Err(e) => return Err(e),
        };
        let ghost head = seq![load_zero_line()];
        let mut text = String::from_str("movq $0, %rax\n");
        proof {
            reveal_strlit("movq $0, %rax\n");
            reveal_strlit("movq $0, %rax");
            reveal_strlit("\n");
            reveal_strlit("ret\n");
            reveal_strlit("ret");
        }
        assert(head.drop_last() =~= Seq::<Seq<char>>::empty());
        assert(render(head.drop_last()) == Seq::<char>::empty());
        assert(text@ =~= render(head));
        if ops.len() == 0 {
            text.append("\n");
            let ghost blank = head.push(Seq::<char>::empty());
            assert(blank.drop_last() =~= head);
            assert(text@ =~= render(blank));
            text.append("ret\n");
            assert(blank.push(ret_line()).drop_last() =~= blank);
            assert(listing(ops@) =~= blank.push(ret_line()));
            assert(text@ =~= render(listing(ops@)));
            return Ok(text);
        }
        let ghost lines = ops@.map_values(|op: Op| asm_line(op));
        for i in 0..ops.len()
            invariant
                lines == ops@.map_values(|op: Op| asm_line(op)),
                text@ == render(head + lines.take(i as int)),
        {
            let line = mnemonic(ops[i]);
            text.append(line);
            text.append("\n");
            assert((head + lines.take(i + 1)).drop_last() =~= head + lines.take(i as int));
            assert(text@ =~= render(head + lines.take(i + 1)));
        }
        text.append("ret\n");
        assert(lines.take(ops.len() as int) =~= lines);
        assert((head + lines).push(ret_line()).drop_last() =~= head + lines);
        assert((head + lines).push(ret_line()) =~= listing(ops@));
        assert(text@ =~= render(listing(ops@)));
        Ok(text)
    }
}

proof fn lemma_line_encodes(op: Op)
    ensures
        assembled_line(asm_line(op)) == Some(op_bytes(op)),
{
    reveal_strlit("movq $0, %rax");
    reveal_strlit("ret");
    reveal_strlit("inc %rax");
    reveal_strlit("dec %rax");
    reveal_strlit("sal $1, %rax");
    reveal_strlit("sar $1, %rax");
    assert(load_zero_line().len() == 13);
    assert(ret_line().len() == 3);
    assert(asm_line(Op::Increment)[0] != asm_line(Op::Decrement)[0]);
    assert(asm_line(Op::Double)[2] != asm_line(Op::HalveSigned)[2]);
}

proof fn lemma_assemble_prefix(ops: Seq<Op>, n: int)
    requires
        0 <= n <= ops.len(),
    ensures
        assemble_listing(seq![load_zero_line()] + ops.take(n).map_values(|op: Op| asm_line(op)))
            == Some(prologue() + encode_ops(ops.take(n))),
    decreases n,
{
    reveal_strlit("movq $0, %rax");
    let head = seq![load_zero_line()];
    if n == 0 {
        assert(ops.take(0).map_values(|op: Op| asm_line(op)) =~= Seq::<Seq<char>>::empty());
        assert(head + ops.take(0).map_values(|op: Op| asm_line(op)) =~= head);
        assert(head.drop_last() =~= Seq::<Seq<char>>::empty());
        assert(ops.take(0) =~= Seq::<Op>::empty());
        assert(assemble_listing(head.drop_last()) == Some(Seq::<u8>::empty()));
        assert(assemble_listing(head) == Some(Seq::<u8>::empty() + prologue()));
        assert(encode_ops(ops.take(0)) == Seq::<u8>::empty());
        assert(prologue() + encode_ops(ops.take(0)) =~= Seq::<u8>::empty() + prologue());
    } else {
        lemma_assemble_prefix(ops, n - 1);
        let prev = head + ops.take(n - 1).map_values(|op: Op| asm_line(op));
        let cur = head + ops.take(n).map_values(|op: Op| asm_line(op));
        assert(cur.drop_last() =~= prev);
        assert(cur.last() == asm_line(ops[n - 1]));
        lemma_line_encodes(ops[n - 1]);
        assert(ops.take(n) =~= ops.take(n - 1).push(ops[n - 1]));
        lemma_encode_push(ops.take(n - 1), ops[n - 1]);
        assert(prologue() + encode_ops(ops.take(n)) =~= prologue() + encode_ops(ops.take(n - 1))
            + op_bytes(ops[n - 1]));
        assert(assemble_listing(cur) == Some(
            prologue() + encode_ops(ops.take(n - 1)) + op_bytes(ops[n - 1]),
        ));
    }
}

/// The listing of any operations encodes, line by line, to exactly the
/// routine the direct encoder writes for them.
pub proof fn lemma_listing_encodes_routine(ops: Seq<Op>)
    ensures
        assemble_listing(listing(ops)) == Some(routine(ops)),
{
    reveal_strlit("movq $0, %rax");
    reveal_strlit("ret");
    let head = seq![load_zero_line()];
    let full = listing(ops);
    if ops.len() == 0 {
        let blank = head.push(Seq::<char>::empty());
        assert(full =~= blank.push(ret_line()));
        assert(full.drop_last() =~= blank);
        assert(blank.drop_last() =~= head);
        assert(head.drop_last() =~= Seq::<Seq<char>>::empty());
        assert(encode_ops(ops) == Seq::<u8>::empty());
        assert(assemble_listing(head.drop_last()) == Some(Seq::<u8>::empty()));
        assert(assemble_listing(head) == Some(Seq::<u8>::empty() + prologue()));
        assert(load_zero_line().len() == 13 && ret_line().len() == 3);
        assert(assembled_line(Seq::<char>::empty()) == Some(Seq::<u8>::empty()));
        assert(assemble_listing(blank) == Some(Seq::<u8>::empty() + prologue() + Seq::<u8>::empty()));
        assert(assembled_line(ret_line()) == Some(epilogue()));
        assert(assemble_listing(full) == Some(
            Seq::<u8>::empty() + prologue() + Seq::<u8>::empty() + epilogue(),
        ));
        assert(routine(ops) =~= Seq::<u8>::empty() + prologue() + Seq::<u8>::empty() + epilogue());
    } else {
        lemma_assemble_prefix(ops, ops.len() as int);
        assert(ops.take(ops.len() as int) =~= ops);
        assert(full.drop_last() =~= head + ops.map_values(|op: Op| asm_line(op)));
        assert(full.last() == ret_line());
        assert(assembled_line(ret_line()) == Some(epilogue()));
        assert(assemble_listing(full) == Some(prologue() + encode_ops(ops) + epilogue()));
    }
}

/// Both compilers accept the same programs and refuse the others naming the
/// same character; on an accepted program the assembly text is the listing
/// of its operations, and that listing encodes, line by line, to exactly the
/// bytes of the direct encoder.
pub proof fn lemma_variants_agree(s: Seq<char>)
    ensures
        assembly(s) is Ok <==> machine_code(s) is Ok,
        assembly(s) is Err ==> assembly(s)->Err_0 == machine_code(s)->Err_0,
        translation(s) is Ok ==> assembly(s) == Ok::<Seq<char>, char>(
            render(listing(translation(s)->Ok_0)),
        ),
        translation(s) is Ok ==> assemble_listing(listing(translation(s)->Ok_0)) == Some(
            machine_code(s)->Ok_0,
        ),
{
    if translation(s) is Ok {
        lemma_listing_encodes_routine(translation(s)->Ok_0);
    }
}

} // verus!
