use vstd::prelude::*;

use crate::error::EvalError;
use crate::evaluator::{conclude, evaluates_to, reduces, Evaluation};
use crate::glyph::{glyph_of, Glyph, Op};
use crate::machine::powered;

verus! {

/// Each primitive gives at most one result for given arguments, as the
/// arithmetic of a numeric type does.
pub open spec fn deterministic<V, P, B, U, X>(parse: P, bin: B, abs: U, expo: X) -> bool where
    P: Fn(&String) -> Option<V>,
    B: Fn(Op, V, V) -> V,
    U: Fn(V) -> V,
    X: Fn(V) -> u64,
 {
    &&& forall|g: &String, a: Option<V>, b: Option<V>|
        #![trigger parse.ensures((g,), a), parse.ensures((g,), b)]
        parse.ensures((g,), a) && parse.ensures((g,), b) ==> a == b
    &&& forall|op: Op, x: V, y: V, a: V, b: V|
        #![trigger bin.ensures((op, x, y), a), bin.ensures((op, x, y), b)]
        bin.ensures((op, x, y), a) && bin.ensures((op, x, y), b) ==> a == b
    &&& forall|x: V, a: V, b: V|
        #![trigger abs.ensures((x,), a), abs.ensures((x,), b)]
        abs.ensures((x,), a) && abs.ensures((x,), b) ==> a == b
    &&& forall|x: V, a: u64, b: u64|
        #![trigger expo.ensures((x,), a), expo.ensures((x,), b)]
        expo.ensures((x,), a) && expo.ensures((x,), b) ==> a == b
}

/// With a deterministic multiplication, a power has a single value.
pub proof fn lemma_powered_unique<V, B: Fn(Op, V, V) -> V>(bin: B, x: V, n: nat, a: V, b: V)
    requires
        forall|p: V, q: V, c: V, d: V|
            #![trigger bin.ensures((Op::Mul, p, q), c), bin.ensures((Op::Mul, p, q), d)]
            bin.ensures((Op::Mul, p, q), c) && bin.ensures((Op::Mul, p, q), d) ==> c == d,
        powered(bin, x, n, a),
        powered(bin, x, n, b),
    ensures
        a == b,
    decreases n,
{
    if n > 1 {
        let pa = choose|p: V| powered(bin, x, (n - 1) as nat, p) && #[trigger] bin.ensures((Op::Mul, p, x), a);
        let pb = choose|p: V| powered(bin, x, (n - 1) as nat, p) && #[trigger] bin.ensures((Op::Mul, p, x), b);
        lemma_powered_unique(bin, x, (n - 1) as nat, pa, pb);
    }
}

/// With deterministic primitives, a run of glyphs has a single outcome.
pub proof fn lemma_reduces_unique<V, P, B, U, X>(
    gs: Seq<String>,
    s: Seq<V>,
    parse: P,
    bin: B,
    abs: U,
    expo: X,
    o1: Result<Seq<V>, EvalError>,
    o2: Result<Seq<V>, EvalError>,
) where
    P: Fn(&String) -> Option<V>,
    B: Fn(Op, V, V) -> V,
    U: Fn(V) -> V,
    X: Fn(V) -> u64,

    requires
        deterministic(parse, bin, abs, expo),
        reduces(gs, s, parse, bin, abs, expo, o1),
        reduces(gs, s, parse, bin, abs, expo, o2),
    ensures
        o1 == o2,
    decreases gs.len(),
{
    if gs.len() > 0 {
        let g = gs[0];
        let rest = gs.drop_first();
        let n = s.len();
        match glyph_of(g@) {
            Glyph::Literal => {
                if exists|v: V| #[trigger] parse.ensures((&g,), Some(v)) && reduces(rest, s.push(v), parse, bin, abs, expo, o1) {
                    let v1 = choose|v: V| #[trigger] parse.ensures((&g,), Some(v)) && reduces(rest, s.push(v), parse, bin, abs, expo, o1);
                    if exists|v: V| #[trigger] parse.ensures((&g,), Some(v)) && reduces(rest, s.push(v), parse, bin, abs, expo, o2) {
                        let v2 = choose|v: V| #[trigger] parse.ensures((&g,), Some(v)) && reduces(rest, s.push(v), parse, bin, abs, expo, o2);
                        assert(Some(v1) == Some(v2));
                        lemma_reduces_unique(rest, s.push(v1), parse, bin, abs, expo, o1, o2);
                    } else {
                        assert(parse.ensures((&g,), None::<V>));
                        assert(Some(v1) == None::<V>);
                    }
                } else if exists|v: V| #[trigger] parse.ensures((&g,), Some(v)) && reduces(rest, s.push(v), parse, bin, abs, expo, o2) {
                    let v2 = choose|v: V| #[trigger] parse.ensures((&g,), Some(v)) && reduces(rest, s.push(v), parse, bin, abs, expo, o2);
                    assert(parse.ensures((&g,), None::<V>));
                    assert(Some(v2) == None::<V>);
                }
            },
            Glyph::Operator(op) => {
                if n < op.arity() {
                } else if op == Op::Abs {
                    let v1 = choose|v: V| #[trigger] abs.ensures((s[n - 1],), v)
                        && reduces(rest, s.drop_last().push(v), parse, bin, abs, expo, o1);
                    let v2 = choose|v: V| #[trigger] abs.ensures((s[n - 1],), v)
                        && reduces(rest, s.drop_last().push(v), parse, bin, abs, expo, o2);
                    lemma_reduces_unique(rest, s.drop_last().push(v1), parse, bin, abs, expo, o1, o2);
                } else if op == Op::Pow {
                    let e1 = choose|e: u64| #[trigger] expo.ensures((s[n - 1],), e) && if e < 2 {
                        o1 == Err::<Seq<V>, EvalError>(EvalError::UnsupportedExponent)
                    } else {
                        exists|v: V| #[trigger] powered(bin, s[n - 2], e as nat, v)
                            && reduces(rest, s.subrange(0, n - 2).push(v), parse, bin, abs, expo, o1)
                    };
                    let e2 = choose|e: u64| #[trigger] expo.ensures((s[n - 1],), e) && if e < 2 {
                        o2 == Err::<Seq<V>, EvalError>(EvalError::UnsupportedExponent)
                    } else {
                        exists|v: V| #[trigger] powered(bin, s[n - 2], e as nat, v)
                            && reduces(rest, s.subrange(0, n - 2).push(v), parse, bin, abs, expo, o2)
                    };
                    assert(e1 == e2);
                    if e1 >= 2 {
                        let v1 = choose|v: V| #[trigger] powered(bin, s[n - 2], e1 as nat, v)
                            && reduces(rest, s.subrange(0, n - 2).push(v), parse, bin, abs, expo, o1);
                        let v2 = choose|v: V| #[trigger] powered(bin, s[n - 2], e1 as nat, v)
                            && reduces(rest, s.subrange(0, n - 2).push(v), parse, bin, abs, expo, o2);
                        lemma_powered_unique(bin, s[n - 2], e1 as nat, v1, v2);
                        lemma_reduces_unique(rest, s.subrange(0, n - 2).push(v1), parse, bin, abs, expo, o1, o2);
                    }
                } else {
                    let v1 = choose|v: V| #[trigger] bin.ensures((op, s[n - 2], s[n - 1]), v)
                        && reduces(rest, s.subrange(0, n - 2).push(v), parse, bin, abs, expo, o1);
                    let v2 = choose|v: V| #[trigger] bin.ensures((op, s[n - 2], s[n - 1]), v)
                        && reduces(rest, s.subrange(0, n - 2).push(v), parse, bin, abs, expo, o2);
                    lemma_reduces_unique(rest, s.subrange(0, n - 2).push(v1), parse, bin, abs, expo, o1, o2);
                }
            },
        }
    }
}

/// Whenever the glyphs, run on the stack machine, leave exactly one value,
/// evaluation returns that value and raises no advisory.
pub proof fn lemma_single_value_is_result<V, P, B, U, X>(
    gs: Seq<String>,
    parse: P,
    bin: B,
    abs: U,
    expo: X,
    v: V,
    r: Result<Evaluation<V>, EvalError>,
) where
    P: Fn(&String) -> Option<V>,
    B: Fn(Op, V, V) -> V,
    U: Fn(V) -> V,
    X: Fn(V) -> u64,

    requires
        deterministic(parse, bin, abs, expo),
        reduces(gs, Seq::empty(), parse, bin, abs, expo, Ok(seq![v])),
        evaluates_to(gs, parse, bin, abs, expo, r),
    ensures
        r == Ok::<Evaluation<V>, EvalError>(Evaluation { value: v, too_many_values: false }),
{
    let out = choose|out: Result<Seq<V>, EvalError>|
        #[trigger] reduces(gs, Seq::empty(), parse, bin, abs, expo, out) && r == conclude(out);
    lemma_reduces_unique(gs, Seq::empty(), parse, bin, abs, expo, out, Ok(seq![v]));
    assert(seq![v].last() == v);
}

} // verus!
