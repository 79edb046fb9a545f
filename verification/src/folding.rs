//! Constant folding: a binary expression over two literals becomes one
//! literal where the operation is defined on them.

use vstd::prelude::*;
use vstd::string::StringExecFns;
use crate::expr::{BinOp, Expr, Term};
use crate::text::{decimal, decimal_text, push_char};

verus! {

/// The quotient of two integers, rounded towards zero.
pub open spec fn quotient(a: int, b: int) -> int
    recommends
        b != 0,
{
    if a >= 0 && b > 0 {
        a / b
    } else if a < 0 && b < 0 {
        (-a) / (-b)
    } else if a < 0 {
        -((-a) / b)
    } else {
        -(a / (-b))
    }
}

/// The remainder that goes with [`quotient`]: it has the sign of `a`.
pub open spec fn remainder(a: int, b: int) -> int
    recommends
        b != 0,
{
    if a >= 0 && b > 0 {
        a % b
    } else if a < 0 && b < 0 {
        -((-a) % (-b))
    } else if a < 0 {
        -((-a) % b)
    } else {
        a % (-b)
    }
}

/// Whether a number fits in 32 signed bits.
pub open spec fn fits(n: int) -> bool {
    i32::MIN <= n <= i32::MAX
}

/// The decimal numeral of an integer, with a minus sign where it is
/// negative.
pub open spec fn signed_decimal(n: int) -> Seq<char> {
    if n < 0 {
        seq!['-'] + decimal((-n) as nat)
    } else {
        decimal(n as nat)
    }
}

/// The word for a boolean.
pub open spec fn bool_word(b: bool) -> Seq<char> {
    if b {
        "true"@
    } else {
        "false"@
    }
}

/// The literal that an operator yields on two integers, where it yields
/// one: arithmetic whose result fits in 32 bits, comparison, and the
/// bitwise `And` and `Or`.
pub open spec fn folded_ints(a: i32, op: BinOp, b: i32) -> Option<Term> {
    match op {
        BinOp::Add => if fits(a + b) {
            Some(Term::Int((a + b) as i32))
        } else {
            None
        },
        BinOp::Sub => if fits(a - b) {
            Some(Term::Int((a - b) as i32))
        } else {
            None
        },
        BinOp::Mul => if fits(a * b) {
            Some(Term::Int((a * b) as i32))
        } else {
            None
        },
        BinOp::Div => if b != 0 && fits(quotient(a as int, b as int)) {
            Some(Term::Int(quotient(a as int, b as int) as i32))
        } else {
            None
        },
        BinOp::Rem => if b != 0 && !(a == i32::MIN && b == -1) {
            Some(Term::Int(remainder(a as int, b as int) as i32))
        } else {
            None
        },
        BinOp::And => Some(Term::Int(a & b)),
        BinOp::Or => Some(Term::Int(a | b)),
        BinOp::Eq => Some(Term::Bool(a == b)),
        BinOp::Neq => Some(Term::Bool(a != b)),
        BinOp::Lt => Some(Term::Bool(a < b)),
        BinOp::Lte => Some(Term::Bool(a <= b)),
        BinOp::Gt => Some(Term::Bool(a > b)),
        BinOp::Gte => Some(Term::Bool(a >= b)),
    }
}

/// The literal that an operator yields on two booleans, where it yields
/// one: logic and comparison, with `false` below `true`.
pub open spec fn folded_bools(a: bool, op: BinOp, b: bool) -> Option<Term> {
    match op {
        BinOp::And => Some(Term::Bool(a && b)),
        BinOp::Or => Some(Term::Bool(a || b)),
        BinOp::Eq => Some(Term::Bool(a == b)),
        BinOp::Neq => Some(Term::Bool(a != b)),
        BinOp::Lt => Some(Term::Bool(!a && b)),
        BinOp::Lte => Some(Term::Bool(!a || b)),
        BinOp::Gt => Some(Term::Bool(a && !b)),
        BinOp::Gte => Some(Term::Bool(a || !b)),
        _ => None,
    }
}

/// The text that a literal contributes to a concatenation.
pub open spec fn literal_text(term: Term) -> Option<Seq<char>> {
    match term {
        Term::Int(n) => Some(signed_decimal(n as int)),
        Term::Bool(b) => Some(bool_word(b)),
        Term::Str(s) => Some(s),
        _ => None,
    }
}

/// The literal that folding makes of two operands, where it makes one.
pub open spec fn folded_literal(lhs: Term, op: BinOp, rhs: Term) -> Option<Term> {
    match (lhs, rhs) {
        (Term::Int(a), Term::Int(b)) => folded_ints(a, op, b),
        (Term::Bool(a), Term::Bool(b)) => folded_bools(a, op, b),
        _ => if op == BinOp::Add && (lhs is Str || rhs is Str) && literal_text(lhs) is Some
            && literal_text(rhs) is Some {
            Some(Term::Str(literal_text(lhs)->0 + literal_text(rhs)->0))
        } else {
            None
        },
    }
}

/// A binary expression after folding: one literal where the operation is
/// defined on two literal operands, the binary node unchanged otherwise.
pub open spec fn folded(lhs: Term, op: BinOp, rhs: Term) -> Term {
    match folded_literal(lhs, op, rhs) {
        Some(literal) => literal,
        None => Term::Binary { lhs: Box::new(lhs), op, rhs: Box::new(rhs) },
    }
}

/// Whether an optional expression stands for the given term.
pub open spec fn term_agrees(got: Option<Expr>, want: Option<Term>) -> bool {
    match want {
        Some(term) => got matches Some(e) && e@ == term,
        None => got is None,
    }
}

/// Writes the decimal numeral of a signed integer.
pub fn signed_decimal_text(n: i32) -> (text: String)
    ensures
        text@ == signed_decimal(n as int),
{
    if n < 0 {
        let mut text = String::new();
        push_char(&mut text, '-');
        let digits = decimal_text((-(n as i64)) as u32);
        text.append(digits.as_str());
        assert(text@ =~= seq!['-'] + decimal((-n) as nat));
        text
    } else {
        decimal_text(n as u32)
    }
}

/// Divides towards zero, where the quotient exists in 32 bits.
fn divide(a: i32, b: i32) -> (out: Option<i32>)
    ensures
        out == (if b != 0 && fits(quotient(a as int, b as int)) {
            Some(quotient(a as int, b as int) as i32)
        } else {
            None
        }),
{
    proof {
        if b != 0 && a == 0 {
            if b > 0 {
                vstd::arithmetic::div_mod::lemma_div_of0(b as int);
            } else {
                vstd::arithmetic::div_mod::lemma_div_of0(-(b as int));
            }
        }
    }
    a.checked_div(b)
}

/// The remainder of dividing towards zero, where the quotient exists in 32
/// bits.
fn remain(a: i32, b: i32) -> (out: Option<i32>)
    ensures
        out == (if b != 0 && !(a == i32::MIN && b == -1) {
            Some(remainder(a as int, b as int) as i32)
        } else {
            None
        }),
{
    proof {
        if b != 0 {
            let d: int = if b > 0 {
                b as int
            } else {
                -(b as int)
            };
            let x: int = if a >= 0 {
                a as int
            } else {
                -(a as int)
            };
            vstd::arithmetic::div_mod::lemma_mod_bound(x, d);
            vstd::arithmetic::div_mod::lemma_small_mod(0, d as nat);
        }
    }
    a.checked_rem(b)
}

/// Folds an operator on two integers.
fn fold_ints(a: i32, op: BinOp, b: i32) -> (out: Option<Expr>)
    ensures
        term_agrees(out, folded_ints(a, op, b)),
{
    match op {
        BinOp::Add => match a.checked_add(b) {
            Some(n) => Some(Expr::Int(n)),
            None => None,
        },
        BinOp::Sub => match a.checked_sub(b) {
            Some(n) => Some(Expr::Int(n)),
            None => None,
        },
        BinOp::Mul => match a.checked_mul(b) {
            Some(n) => Some(Expr::Int(n)),
            None => None,
        },
        BinOp::Div => match divide(a, b) {
            Some(n) => Some(Expr::Int(n)),
            None => None,
        },
        BinOp::Rem => match remain(a, b) {
            Some(n) => Some(Expr::Int(n)),
            None => None,
        },
        BinOp::And => Some(Expr::Int(a & b)),
        BinOp::Or => Some(Expr::Int(a | b)),
        BinOp::Eq => Some(Expr::Bool(a == b)),
        BinOp::Neq => Some(Expr::Bool(a != b)),
        BinOp::Lt => Some(Expr::Bool(a < b)),
        BinOp::Lte => Some(Expr::Bool(a <= b)),
        BinOp::Gt => Some(Expr::Bool(a > b)),
        BinOp::Gte => Some(Expr::Bool(a >= b)),
    }
}

/// Folds an operator on two booleans.
fn fold_bools(a: bool, op: BinOp, b: bool) -> (out: Option<Expr>)
    ensures
        term_agrees(out, folded_bools(a, op, b)),
{
    match op {
        BinOp::And => Some(Expr::Bool(a && b)),
        BinOp::Or => Some(Expr::Bool(a || b)),
        BinOp::Eq => Some(Expr::Bool(a == b)),
        BinOp::Neq => Some(Expr::Bool(a != b)),
        BinOp::Lt => Some(Expr::Bool(!a && b)),
        BinOp::Lte => Some(Expr::Bool(!a || b)),
        BinOp::Gt => Some(Expr::Bool(a && !b)),
        BinOp::Gte => Some(Expr::Bool(a || !b)),
        _ => None,
    }
}

/// The text that a literal contributes to a concatenation.
fn literal_string(expr: &Expr) -> (text: Option<String>)
    ensures
        match literal_text(expr@) {
            Some(want) => text matches Some(s) && s@ == want,
            None => text is None,
        },
{
    match expr {
        Expr::Int(n) => Some(signed_decimal_text(*n)),
        Expr::Bool(b) => Some(
            if *b {
                String::from_str("true")
            } else {
                String::from_str("false")
            },
        ),
        Expr::Str(s) => Some(s.clone()),
        _ => None,
    }
}

/// Whether an expression is a string literal.
fn is_str(expr: &Expr) -> (yes: bool)
    ensures
        yes == (expr@ is Str),
{
    match expr {
        Expr::Str(_) => true,
        _ => false,
    }
}

/// The literal that folding makes of two operands, where it makes one.
fn fold_literal(lhs: &Expr, op: BinOp, rhs: &Expr) -> (out: Option<Expr>)
    ensures
        term_agrees(out, folded_literal(lhs@, op, rhs@)),
{
    match (lhs, rhs) {
        (Expr::Int(a), Expr::Int(b)) => fold_ints(*a, op, *b),
        (Expr::Bool(a), Expr::Bool(b)) => fold_bools(*a, op, *b),
        _ => {
            if op == BinOp::Add && (is_str(lhs) || is_str(rhs)) {
                match (literal_string(lhs), literal_string(rhs)) {
                    (Some(left), Some(right)) => {
                        let mut text = left;
                        text.append(right.as_str());
                        Some(Expr::Str(text))
                    },
                    _ => None,
                }
            } else {
                None
            }
        },
    }
}

/// Folds a binary expression: one literal where the operation is defined
/// on two literal operands, the binary node unchanged otherwise.
pub fn fold_binary(lhs: Expr, op: BinOp, rhs: Expr) -> (out: Expr)
    ensures
        out@ == folded(lhs@, op, rhs@),
{
    match fold_literal(&lhs, op, &rhs) {
        Some(literal) => literal,
        None => Expr::Binary { lhs: Box::new(lhs), op, rhs: Box::new(rhs) },
    }
}

} // verus!
