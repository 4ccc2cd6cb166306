use vstd::prelude::*;

verus! {

/// An arithmetic operator of the glyph vocabulary.
#[derive(Clone, Copy, Debug, PartialEq, Eq, Structural)]
pub enum Op {
    Add,
    Sub,
    Mul,
    Div,
    Pow,
    Abs,
}

/// What a single glyph stands for.
#[derive(Clone, Copy, Debug, PartialEq, Eq, Structural)]
pub enum Glyph {
    Operator(Op),
    /// Anything that is not an operator; it must parse as a number.
    Literal,
}

impl Op {
    /// Number of values the operator takes from the top of the stack.
    pub open spec fn arity(self) -> nat {
        match self {
            Op::Abs => 1,
            _ => 2,
        }
    }

    pub fn operand_count(&self) -> (r: usize)
        ensures
            r == self.arity(),
    {
        match self {
            Op::Abs => 1,
            _ => 2,
        }
    }
}

/// The classification of a glyph, by its exact text.
pub open spec fn glyph_of(g: Seq<char>) -> Glyph {
    if g == seq!['+'] {
        Glyph::Operator(Op::Add)
    } else if g == seq!['-'] {
        Glyph::Operator(Op::Sub)
    } else if g == seq!['*'] || g == seq!['x'] {
        Glyph::Operator(Op::Mul)
    } else if g == seq!['/'] {
        Glyph::Operator(Op::Div)
    } else if g == seq!['^'] {
        Glyph::Operator(Op::Pow)
    } else if g == seq!['a', 'b', 's'] {
        Glyph::Operator(Op::Abs)
    } else {
        Glyph::Literal
    }
}

/// Classifies a glyph as an operator symbol, an operator keyword or a literal.
pub fn classify(g: &str) -> (r: Glyph)
    ensures
        r == glyph_of(g@),
{
    let n = g.unicode_len();
    if n == 1 {
        let c = g.get_char(0);
        assert(g@ =~= seq![c]);
        if c == '+' {
            Glyph::Operator(Op::Add)
        } else if c == '-' {
            Glyph::Operator(Op::Sub)
        } else if c == '*' || c == 'x' {
            Glyph::Operator(Op::Mul)
        } else if c == '/' {
            Glyph::Operator(Op::Div)
        } else if c == '^' {
            Glyph::Operator(Op::Pow)
        } else {
            Glyph::Literal
        }
    } else if n == 3 && g.get_char(0) == 'a' && g.get_char(1) == 'b' && g.get_char(2) == 's' {
        assert(g@ =~= seq!['a', 'b', 's']);
        Glyph::Operator(Op::Abs)
    } else {
        proof {
            if n == 3 {
                assert(g@ != seq!['a', 'b', 's']) by {
                    if g@ == seq!['a', 'b', 's'] {
                        assert(g@[0] == 'a' && g@[1] == 'b' && g@[2] == 's');
                    }
                }
            }
        }
        Glyph::Literal
    }
}

} // verus!
