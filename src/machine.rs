use vstd::prelude::*;

use crate::error::EvalError;
use crate::glyph::Op;

verus! {

/// `x` raised to `n` through `n - 1` multiplications `acc * x` into an
/// accumulator that starts at `x`, each product being one outcome of `bin`.
pub open spec fn powered<V, B: Fn(Op, V, V) -> V>(bin: B, x: V, n: nat, r: V) -> bool
    decreases n,
{
    if n <= 1 {
        r == x
    } else {
        exists|p: V| powered(bin, x, (n - 1) as nat, p) && #[trigger] bin.ensures((Op::Mul, p, x), r)
    }
}

/// Takes the two topmost values off the stack and combines them with `op`:
/// the value pushed earlier is the left operand, the topmost the right one.
pub fn binop<V, B: Fn(Op, V, V) -> V>(stack: &mut Vec<V>, op: Op, bin: &B) -> (r: Result<V, EvalError>)
    requires
        forall|x: V, y: V| bin.requires((op, x, y)),
    ensures
        old(stack).len() < 2 ==> r == Err::<V, EvalError>(EvalError::InsufficientOperands)
            && final(stack)@ == old(stack)@,
        old(stack).len() >= 2 ==> (r matches Ok(v) && bin.ensures(
            (op, old(stack)@[old(stack).len() - 2], old(stack)@[old(stack).len() - 1]),
            v,
        ) && final(stack)@ == old(stack)@.subrange(0, old(stack).len() - 2)),
{
    if stack.len() < 2 {
        return Err(EvalError::InsufficientOperands);
    }
    let y = stack.pop().unwrap();
    let x = stack.pop().unwrap();
    Ok(bin(op, x, y))
}

/// Takes the topmost value off the stack and applies `f` to it.
pub fn unop<V, U: Fn(V) -> V>(stack: &mut Vec<V>, f: &U) -> (r: Result<V, EvalError>)
    requires
        forall|x: V| f.requires((x,)),
    ensures
        old(stack).len() < 1 ==> r == Err::<V, EvalError>(EvalError::InsufficientOperands)
            && final(stack)@ == old(stack)@,
        old(stack).len() >= 1 ==> (r matches Ok(v) && f.ensures((old(stack)@.last(),), v)
            && final(stack)@ == old(stack)@.drop_last()),
{
    match stack.pop() {
        Some(x) => Ok(f(x)),
        None => Err(EvalError::InsufficientOperands),
    }
}

/// Raises `x` to the integer power `n` by repeated multiplication with `bin`'s
/// `Mul`.
pub fn power<V: Copy, B: Fn(Op, V, V) -> V>(x: V, n: u64, bin: &B) -> (r: V)
    requires
        n >= 1,
        forall|a: V, b: V| bin.requires((Op::Mul, a, b)),
    ensures
        powered(*bin, x, n as nat, r),
{
    let mut acc = x;
    let mut i: u64 = 1;
    while i < n
        invariant
            1 <= i <= n,
            forall|a: V, b: V| bin.requires((Op::Mul, a, b)),
            powered(*bin, x, i as nat, acc),
        decreases n - i,
    {
        let next = bin(Op::Mul, acc, x);
        assert(((i + 1) as nat - 1) as nat == i as nat);
        acc = next;
        i = i + 1;
    }
    acc
}

} // verus!
