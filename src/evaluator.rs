use vstd::prelude::*;

use crate::error::EvalError;
use crate::glyph::{classify, glyph_of, Glyph, Op};
use crate::machine::{binop, power, powered, unop};

verus! {

/// The answer of a successful evaluation.
#[derive(Clone, Copy, Debug, PartialEq)]
pub struct Evaluation<V> {
    /// The topmost value left on the stack.
    pub value: V,
    /// Set when more than one value was left: an advisory, not an error.
    pub too_many_values: bool,
}

/// Whether `out` is a possible result of running `gs` from the stack `s`:
/// `Ok` with the final stack, or the error that stopped the run. Literals are
/// read by `parse`, `+ - * /` and the multiplications of `^` are done by
/// `bin`, `abs` by `abs`, and `expo` truncates the exponent of `^`.
pub open spec fn reduces<V, P, B, U, X>(
    gs: Seq<String>,
    s: Seq<V>,
    parse: P,
    bin: B,
    abs: U,
    expo: X,
    out: Result<Seq<V>, EvalError>,
) -> bool where
    P: Fn(&String) -> Option<V>,
    B: Fn(Op, V, V) -> V,
    U: Fn(V) -> V,
    X: Fn(V) -> u64,

    decreases gs.len(),
{
    if gs.len() == 0 {
        out == Ok::<Seq<V>, EvalError>(s)
    } else {
        let g = gs[0];
        let rest = gs.drop_first();
        let n = s.len();
        match glyph_of(g@) {
            Glyph::Literal => (exists|v: V|
                #[trigger] parse.ensures((&g,), Some(v)) && reduces(rest, s.push(v), parse, bin, abs, expo, out))
                || (parse.ensures((&g,), None) && out == Err::<Seq<V>, EvalError>(EvalError::InvalidGlyph(g))),
            Glyph::Operator(op) => if n < op.arity() {
                out == Err::<Seq<V>, EvalError>(EvalError::InsufficientOperands)
            } else if op == Op::Abs {
                exists|v: V|
                    #[trigger] abs.ensures((s[n - 1],), v)
                    && reduces(rest, s.drop_last().push(v), parse, bin, abs, expo, out)
            } else if op == Op::Pow {
                exists|e: u64|
                    #[trigger] expo.ensures((s[n - 1],), e) && if e < 2 {
                        out == Err::<Seq<V>, EvalError>(EvalError::UnsupportedExponent)
                    } else {
                        exists|v: V|
                            #[trigger] powered(bin, s[n - 2], e as nat, v)
                            && reduces(rest, s.subrange(0, n - 2).push(v), parse, bin, abs, expo, out)
                    }
            } else {
                exists|v: V|
                    #[trigger] bin.ensures((op, s[n - 2], s[n - 1]), v)
                    && reduces(rest, s.subrange(0, n - 2).push(v), parse, bin, abs, expo, out)
            },
        }
    }
}

/// What an evaluation reports once every glyph has run.
pub open spec fn conclude<V>(out: Result<Seq<V>, EvalError>) -> Result<Evaluation<V>, EvalError> {
    match out {
        Err(e) => Err(e),
        Ok(s) => if s.len() == 0 {
            Err(EvalError::EmptyInput)
        } else {
            Ok(Evaluation { value: s.last(), too_many_values: s.len() > 1 })
        },
    }
}

/// `r` is what evaluating `gs` on an empty stack may give.
pub open spec fn evaluates_to<V, P, B, U, X>(
    gs: Seq<String>,
    parse: P,
    bin: B,
    abs: U,
    expo: X,
    r: Result<Evaluation<V>, EvalError>,
) -> bool where
    P: Fn(&String) -> Option<V>,
    B: Fn(Op, V, V) -> V,
    U: Fn(V) -> V,
    X: Fn(V) -> u64,
 {
    exists|out: Result<Seq<V>, EvalError>|
        #[trigger] reduces(gs, Seq::empty(), parse, bin, abs, expo, out) && r == conclude(out)
}

/// Evaluates the glyphs left to right on a stack that starts empty.
pub fn evaluate<V: Copy, P, B, U, X>(
    glyphs: &Vec<String>,
    parse: P,
    bin: B,
    abs: U,
    expo: X,
) -> (r: Result<Evaluation<V>, EvalError>) where
    P: Fn(&String) -> Option<V>,
    B: Fn(Op, V, V) -> V,
    U: Fn(V) -> V,
    X: Fn(V) -> u64,

    requires
        forall|g: &String| parse.requires((g,)),
        forall|op: Op, x: V, y: V| bin.requires((op, x, y)),
        forall|x: V| abs.requires((x,)),
        forall|x: V| expo.requires((x,)),
    ensures
        evaluates_to(glyphs@, parse, bin, abs, expo, r),
{
    let ghost gs = glyphs@;
    let mut stack: Vec<V> = Vec::new();
    let mut i: usize = 0;
    assert(gs.skip(0) =~= gs);
    while i < glyphs.len()
        invariant
            gs == glyphs@,
            i <= gs.len(),
            forall|g: &String| parse.requires((g,)),
            forall|op: Op, x: V, y: V| bin.requires((op, x, y)),
            forall|x: V| abs.requires((x,)),
            forall|x: V| expo.requires((x,)),
            forall|out: Result<Seq<V>, EvalError>|
                #[trigger] reduces(gs.skip(i as int), stack@, parse, bin, abs, expo, out)
                    ==> reduces(gs, Seq::empty(), parse, bin, abs, expo, out),
        decreases gs.len() - i,
    {
        let g = &glyphs[i];
        let ghost before = stack@;
        proof {
            assert(gs.skip(i as int)[0] == gs[i as int]);
            assert(gs.skip(i as int).drop_first() =~= gs.skip(i + 1));
        }
        match classify(g.as_str()) {
            Glyph::Literal => match parse(g) {
                Some(v) => {
                    stack.push(v);
                    proof {
                        assert forall|out: Result<Seq<V>, EvalError>| #[trigger] reduces(gs.skip(i + 1), stack@, parse, bin, abs, expo, out)
                            implies reduces(gs.skip(i as int), before, parse, bin, abs, expo, out) by {}
                    }
                },
                None => {
                    let e = EvalError::InvalidGlyph(g.clone());
                    proof {
                        let out = Err::<Seq<V>, EvalError>(e);
                        assert(reduces(gs.skip(i as int), before, parse, bin, abs, expo, out));
                    }
                    return Err(e);
                },
            },
            Glyph::Operator(Op::Abs) => match unop(&mut stack, &abs) {
                Ok(v) => {
                    stack.push(v);
                    proof {
                        assert forall|out: Result<Seq<V>, EvalError>| #[trigger] reduces(gs.skip(i + 1), stack@, parse, bin, abs, expo, out)
                            implies reduces(gs.skip(i as int), before, parse, bin, abs, expo, out) by {}
                    }
                },
                Err(e) => {
                    proof {
                        let out = Err::<Seq<V>, EvalError>(e);
                        assert(reduces(gs.skip(i as int), before, parse, bin, abs, expo, out));
                    }
                    return Err(e);
                },
            },
            Glyph::Operator(Op::Pow) => {
                if stack.len() < 2 {
                    proof {
                        let out = Err::<Seq<V>, EvalError>(EvalError::InsufficientOperands);
                        assert(reduces(gs.skip(i as int), before, parse, bin, abs, expo, out));
                    }
                    return Err(EvalError::InsufficientOperands);
                }
                let y = stack.pop().unwrap();
                let x = stack.pop().unwrap();
                let e = expo(y);
                if e < 2 {
                    proof {
                        let out = Err::<Seq<V>, EvalError>(EvalError::UnsupportedExponent);
                        assert(reduces(gs.skip(i as int), before, parse, bin, abs, expo, out));
                    }
                    return Err(EvalError::UnsupportedExponent);
                }
                let v = power(x, e, &bin);
                stack.push(v);
                proof {
                    let n = before.len();
                    assert(x == before[n - 2] && y == before[n - 1]);
                    assert(stack@ =~= before.subrange(0, n - 2).push(v));
                    assert forall|out: Result<Seq<V>, EvalError>| #[trigger] reduces(gs.skip(i + 1), stack@, parse, bin, abs, expo, out)
                        implies reduces(gs.skip(i as int), before, parse, bin, abs, expo, out) by {
                        assert(powered(bin, before[n - 2], e as nat, v));
                        assert(expo.ensures((before[n - 1],), e));
                    }
                }
            },
            Glyph::Operator(op) => match binop(&mut stack, op, &bin) {
                Ok(v) => {
                    stack.push(v);
                    proof {
                        assert forall|out: Result<Seq<V>, EvalError>| #[trigger] reduces(gs.skip(i + 1), stack@, parse, bin, abs, expo, out)
                            implies reduces(gs.skip(i as int), before, parse, bin, abs, expo, out) by {}
                    }
                },
                Err(e) => {
                    proof {
                        let out = Err::<Seq<V>, EvalError>(e);
                        assert(reduces(gs.skip(i as int), before, parse, bin, abs, expo, out));
                    }
                    return Err(e);
                },
            },
        }
        i = i + 1;
    }
    proof {
        let out = Ok::<Seq<V>, EvalError>(stack@);
        assert(gs.skip(i as int) =~= Seq::<String>::empty());
        assert(reduces(gs.skip(i as int), stack@, parse, bin, abs, expo, out));
    }
    if stack.len() == 0 {
        return Err(EvalError::EmptyInput);
    }
    let n = stack.len();
    Ok(Evaluation { value: stack[n - 1], too_many_values: n > 1 })
}

} // verus!
