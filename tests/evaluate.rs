use rpn::{binop, classify, evaluate, power, unop, EvalError, Evaluation, Glyph, Op};

fn arith(op: Op, x: f64, y: f64) -> f64 {
    match op {
        Op::Add => x + y,
        Op::Sub => x - y,
        Op::Div => x / y,
        // `evaluate` hands only the binary operators here, `^` as `Mul`.
        Op::Mul | Op::Pow | Op::Abs => x * y,
    }
}

fn eval(tokens: &[&str]) -> Result<Evaluation<f64>, EvalError> {
    let glyphs: Vec<String> = tokens.iter().map(|t| t.to_string()).collect();
    evaluate(
        &glyphs,
        |g: &String| g.parse::<f64>().ok(),
        arith,
        |x: f64| x.abs(),
        |y: f64| y as u64,
    )
}

fn value(tokens: &[&str]) -> f64 {
    match eval(tokens) {
        Ok(e) => e.value,
        Err(e) => panic!("evaluation failed: {:?}", e),
    }
}

/// A plain stack machine on `f64`, written independently of the library.
fn simulate(tokens: &[&str]) -> Vec<f64> {
    let mut s: Vec<f64> = Vec::new();
    for t in tokens {
        match *t {
            "abs" => {
                let x = s.pop().unwrap();
                s.push(x.abs());
            }
            "+" | "-" | "*" | "x" | "/" => {
                let b = s.pop().unwrap();
                let a = s.pop().unwrap();
                s.push(match *t {
                    "+" => a + b,
                    "-" => a - b,
                    "/" => a / b,
                    _ => a * b,
                });
            }
            n => s.push(n.parse::<f64>().unwrap()),
        }
    }
    s
}

#[test]
fn adds_two_numbers() {
    assert_eq!(value(&["5", "3", "+"]), 8.0);
}

#[test]
fn mixed_chain() {
    assert_eq!(value(&["5", "3", "+", "3.5", "-", "2", "*", "27", "/"]), 1.0 / 3.0);
}

#[test]
fn power_by_repeated_multiplication() {
    assert_eq!(value(&["2", "3", "^"]), 8.0);
}

#[test]
fn exponent_one_is_rejected() {
    assert_eq!(eval(&["5", "1", "^"]), Err(EvalError::UnsupportedExponent));
}

#[test]
fn binary_operator_on_one_value() {
    assert_eq!(eval(&["3", "+"]), Err(EvalError::InsufficientOperands));
}

#[test]
fn invalid_glyph() {
    assert_eq!(eval(&["abc"]), Err(EvalError::InvalidGlyph("abc".to_string())));
}

#[test]
fn empty_input() {
    assert_eq!(eval(&[]), Err(EvalError::EmptyInput));
}

#[test]
fn two_values_left_warns() {
    assert_eq!(eval(&["5", "3"]), Ok(Evaluation { value: 3.0, too_many_values: true }));
}

#[test]
fn operand_order_of_subtraction_and_division() {
    assert_eq!(value(&["10", "4", "-"]), 6.0);
    assert_eq!(value(&["10", "4", "/"]), 2.5);
}

#[test]
fn single_value_matches_simulation() {
    let cases: [&[&str]; 4] = [
        &["2", "3", "4", "*", "+", "abs"],
        &["1", "2", "-", "abs", "10", "x"],
        &["-2.5"],
        &["7", "2", "/", "3", "-", "4", "x"],
    ];
    for tokens in cases {
        let s = simulate(tokens);
        assert_eq!(s.len(), 1);
        assert_eq!(eval(tokens), Ok(Evaluation { value: s[0], too_many_values: false }));
    }
}

#[test]
fn single_value_has_no_warning() {
    assert_eq!(eval(&["2", "3", "4", "*", "+"]), Ok(Evaluation { value: 14.0, too_many_values: false }));
}

#[test]
fn absolute_value() {
    assert_eq!(value(&["-7", "abs"]), 7.0);
    assert_eq!(value(&["3", "10", "-", "abs"]), 7.0);
}

#[test]
fn absolute_value_of_nothing() {
    assert_eq!(eval(&["abs"]), Err(EvalError::InsufficientOperands));
}

#[test]
fn x_multiplies() {
    assert_eq!(value(&["6", "7", "x"]), 42.0);
    assert_eq!(value(&["6", "7", "*"]), 42.0);
}

#[test]
fn division_by_zero_follows_the_host_type() {
    assert_eq!(value(&["1", "0", "/"]), f64::INFINITY);
    assert!(value(&["0", "0", "/"]).is_nan());
}

#[test]
fn exponent_is_truncated() {
    assert_eq!(value(&["2", "3.9", "^"]), 8.0);
    assert_eq!(value(&["3", "2", "^"]), 9.0);
    assert_eq!(value(&["-2", "5", "^"]), -32.0);
}

#[test]
fn small_and_negative_exponents_are_rejected() {
    assert_eq!(eval(&["2", "0", "^"]), Err(EvalError::UnsupportedExponent));
    assert_eq!(eval(&["2", "-3", "^"]), Err(EvalError::UnsupportedExponent));
    assert_eq!(eval(&["2", "1.9", "^"]), Err(EvalError::UnsupportedExponent));
}

#[test]
fn power_needs_two_operands() {
    assert_eq!(eval(&["3", "^"]), Err(EvalError::InsufficientOperands));
}

#[test]
fn first_error_stops_evaluation() {
    assert_eq!(eval(&["abc", "+"]), Err(EvalError::InvalidGlyph("abc".to_string())));
    assert_eq!(eval(&["+", "abc"]), Err(EvalError::InsufficientOperands));
    assert_eq!(eval(&["2", "1", "^", "zz"]), Err(EvalError::UnsupportedExponent));
}

#[test]
fn negative_literal_is_not_an_operator() {
    assert_eq!(value(&["-2", "3", "+"]), 1.0);
}

#[test]
fn classifies_glyphs() {
    assert_eq!(classify("+"), Glyph::Operator(Op::Add));
    assert_eq!(classify("-"), Glyph::Operator(Op::Sub));
    assert_eq!(classify("*"), Glyph::Operator(Op::Mul));
    assert_eq!(classify("x"), Glyph::Operator(Op::Mul));
    assert_eq!(classify("/"), Glyph::Operator(Op::Div));
    assert_eq!(classify("^"), Glyph::Operator(Op::Pow));
    assert_eq!(classify("abs"), Glyph::Operator(Op::Abs));
    assert_eq!(classify("-2"), Glyph::Literal);
    assert_eq!(classify("ab"), Glyph::Literal);
    assert_eq!(classify("abc"), Glyph::Literal);
    assert_eq!(classify(""), Glyph::Literal);
    assert_eq!(classify("++"), Glyph::Literal);
}

#[test]
fn operand_counts() {
    assert_eq!(Op::Abs.operand_count(), 1);
    assert_eq!(Op::Add.operand_count(), 2);
    assert_eq!(Op::Pow.operand_count(), 2);
}

#[test]
fn binop_binds_deeper_value_first() {
    let mut stack: Vec<i64> = vec![1, 10, 4];
    let sub = |op: Op, x: i64, y: i64| if op == Op::Sub { x - y } else { 0 };
    assert_eq!(binop(&mut stack, Op::Sub, &sub), Ok(6));
    assert_eq!(stack, vec![1]);
    assert_eq!(binop(&mut stack, Op::Sub, &sub), Err(EvalError::InsufficientOperands));
    assert_eq!(stack, vec![1]);
}

#[test]
fn unop_takes_top_value() {
    let mut stack: Vec<i64> = vec![5, -9];
    let neg_abs = |x: i64| x.abs();
    assert_eq!(unop(&mut stack, &neg_abs), Ok(9));
    assert_eq!(stack, vec![5]);
    assert_eq!(unop(&mut stack, &neg_abs), Ok(5));
    assert_eq!(unop(&mut stack, &neg_abs), Err(EvalError::InsufficientOperands));
}

#[test]
fn power_multiplies_into_accumulator() {
    let mul = |_op: Op, x: i64, y: i64| x * y;
    assert_eq!(power(2i64, 10, &mul), 1024);
    assert_eq!(power(3i64, 1, &mul), 3);
    assert_eq!(power(-3i64, 3, &mul), -27);
}
