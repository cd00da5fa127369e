use vstd::prelude::*;

use crate::error::JitError;

verus! {

/// One effect on the accumulator, written as one symbol of a program.
#[derive(Clone, Copy, Debug, PartialEq, Eq, Structural)]
pub enum Op {
    /// `+`: add one.
    Increment,
    /// `-`: subtract one.
    Decrement,
    /// `*`: shift left by one bit.
    Double,
    /// `/`: shift right by one bit, keeping the sign.
    HalveSigned,
}

/// The operation a symbol stands for, if it stands for one.
pub open spec fn symbol_op(c: char) -> Option<Op> {
    if c == '+' {
        Some(Op::Increment)
    } else if c == '-' {
        Some(Op::Decrement)
    } else if c == '*' {
        Some(Op::Double)
    } else if c == '/' {
        Some(Op::HalveSigned)
    } else {
        None
    }
}

/// Whether a character beyond ASCII has Unicode's White_Space property.
pub uninterp spec fn unicode_white_space(c: char) -> bool;

/// The ASCII characters with the White_Space property: space, and tab
/// through carriage return.
pub open spec fn ascii_white_space(c: char) -> bool {
    c == ' ' || ('\t' <= c && c <= '\r')
}

/// Whether a character is whitespace, and so skipped in a program.
pub open spec fn white_space(c: char) -> bool {
    if (c as u32) < 0x80 {
        ascii_white_space(c)
    } else {
        unicode_white_space(c)
    }
}

/// Relies on `char::is_whitespace`: whether `c` has the White_Space property,
/// which among ASCII characters holds of space and of tab through carriage
/// return only.
#[verifier::external_body]
fn is_whitespace(c: char) -> (r: bool)
    ensures
        r == white_space(c),
        (c as u32) >= 0x80 ==> r == unicode_white_space(c),
{
    c.is_whitespace()
}

/// A character a program may hold: a symbol, or whitespace, which is skipped.
pub open spec fn valid_char(c: char) -> bool {
    white_space(c) || symbol_op(c) is Some
}

/// The operations of a program, in order, or the first character that is
/// neither a symbol nor whitespace.
pub open spec fn translation(s: Seq<char>) -> Result<Seq<Op>, char>
    decreases s.len(),
{
    if s.len() == 0 {
        Ok(Seq::empty())
    } else {
        match translation(s.drop_last()) {
            Err(c) => Err(c),
            Ok(ops) => {
                let c = s.last();
                if white_space(c) {
                    Ok(ops)
                } else {
                    match symbol_op(c) {
                        Some(op) => Ok(ops.push(op)),
                        None => Err(c),
                    }
                }
            },
        }
    }
}

/// Two's complement wrap-around of an integer into 64 bits.
pub open spec fn wrap64(x: int) -> i64 {
    let m = x % 0x1_0000_0000_0000_0000;
    if m >= 0x8000_0000_0000_0000 {
        (m - 0x1_0000_0000_0000_0000) as i64
    } else {
        m as i64
    }
}

/// The accumulator after one operation.
pub open spec fn apply(op: Op, acc: i64) -> i64 {
    match op {
        Op::Increment => wrap64(acc + 1),
        Op::Decrement => wrap64(acc - 1),
        Op::Double => wrap64(2 * acc),
        // division by two rounding toward negative infinity
        Op::HalveSigned => (acc / 2) as i64,
    }
}

/// The accumulator after the operations, applied left to right from `acc`.
pub open spec fn run_ops(acc: i64, ops: Seq<Op>) -> i64
    decreases ops.len(),
{
    if ops.len() == 0 {
        acc
    } else {
        run_ops(apply(ops[0], acc), ops.drop_first())
    }
}

/// The value of a sequence of operations: the accumulator starts at zero.
pub open spec fn evaluate(ops: Seq<Op>) -> i64 {
    run_ops(0, ops)
}

/// The value of a program, or the first character that stops its translation.
pub open spec fn program_value(s: Seq<char>) -> Result<i64, char> {
    match translation(s) {
        Ok(ops) => Ok(evaluate(ops)),
        Err(c) => Err(c),
    }
}

/// The operation a symbol stands for.
pub fn op_of_symbol(c: char) -> (r: Option<Op>)
    ensures
        r == symbol_op(c),
{
    match c {
        '+' => Some(Op::Increment),
        '-' => Some(Op::Decrement),
        '*' => Some(Op::Double),
        '/' => Some(Op::HalveSigned),
        _ => None,
    }
}

/// Translates a program into its operations, skipping whitespace; fails on
/// the first character that is neither a symbol nor whitespace.
pub fn translate(program: &str) -> (r: Result<Vec<Op>, JitError>)
    ensures
        r is Ok <==> translation(program@) is Ok,
        r is Ok ==> r->Ok_0@ == translation(program@)->Ok_0,
        r is Err ==> r->Err_0 == JitError::InvalidSymbol(translation(program@)->Err_0),
{
    let mut ops: Vec<Op> = Vec::new();
    let ghost s = program@;
    for c in it: program.chars()
        invariant
            s == program@,
            it.seq() == s,
            translation(s.take(it.index() as int)) == Ok::<Seq<Op>, char>(ops@),
    {
        let ghost i = it.index() as int;
        proof {
            assert(s.take(i + 1).drop_last() =~= s.take(i));
            assert(s.take(i + 1).last() == c);
        }
        if !is_whitespace(c) {
            match op_of_symbol(c) {
                Some(op) => ops.push(op),
                None => {
                    proof {
                        lemma_error_sticks(s, i + 1);
                        assert(translation(s) == Err::<Seq<Op>, char>(c));
                    }
                    return Err(JitError::InvalidSymbol(c));
                },
            }
        }
    }
    assert(s.take(s.len() as int) =~= s);
    Ok(ops)
}

/// Once a prefix of a program fails to translate, the whole program fails
/// with the same character.
pub proof fn lemma_error_sticks(s: Seq<char>, n: int)
    requires
        0 <= n <= s.len(),
        translation(s.take(n)) is Err,
    ensures
        translation(s) == translation(s.take(n)),
    decreases s.len() - n,
{
    if n < s.len() {
        assert(s.take(n + 1).drop_last() =~= s.take(n));
        lemma_error_sticks(s, n + 1);
    } else {
        assert(s.take(n) =~= s);
    }
}

/// A program translates exactly when every character of it is a symbol or
/// whitespace. Otherwise translation fails, and names the first character
/// that is neither.
pub proof fn lemma_translation_fails_at_first_invalid(s: Seq<char>)
    ensures
        translation(s) is Ok <==> (forall|i: int| 0 <= i < s.len() ==> valid_char(#[trigger] s[i])),
        translation(s) is Err ==> exists|i: int|
            0 <= i < s.len() && !valid_char(#[trigger] s[i]) && s[i] == translation(s)->Err_0
                && forall|j: int| 0 <= j < i ==> valid_char(#[trigger] s[j]),
    decreases s.len(),
{
    if s.len() > 0 {
        let p = s.drop_last();
        lemma_translation_fails_at_first_invalid(p);
        assert forall|i: int| 0 <= i < p.len() implies p[i] == s[i] by {}
        if translation(p) is Err {
            let i = choose|i: int|
                0 <= i < p.len() && !valid_char(#[trigger] p[i]) && p[i] == translation(p)->Err_0
                    && forall|j: int| 0 <= j < i ==> valid_char(#[trigger] p[j]);
            assert(!valid_char(s[i]));
            assert forall|j: int| 0 <= j < i implies valid_char(#[trigger] s[j]) by {
                assert(valid_char(p[j]));
            }
        } else if translation(s) is Err {
            let i = s.len() - 1;
            assert(!valid_char(s[i]));
            assert forall|j: int| 0 <= j < i implies valid_char(#[trigger] s[j]) by {
                assert(valid_char(p[j]));
            }
        } else {
            assert forall|i: int| 0 <= i < s.len() implies valid_char(#[trigger] s[i]) by {
                if i < p.len() {
                    assert(valid_char(p[i]));
                }
            }
        }
    }
}

} // verus!
