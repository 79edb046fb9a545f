//! Literals in the runtime's representation: integers in its unsigned
//! 32-bit space, booleans as one bit, strings quoted and escaped.

use vstd::prelude::*;
use vstd::string::StringExecFns;
use crate::text::{decimal, decimal_text, decimal_value, lemma_decimal_round_trip};

verus! {

/// The unsigned number that stands for a signed integer in the runtime: a
/// non-negative `v` is itself, a negative `v` is `2147483647 + (-v)`.
///
/// At `i32::MIN` this is `4294967295`, the largest 32-bit value. Whether
/// the runtime's arithmetic treats that one value as the signed number is
/// not settled.
pub open spec fn encoded(v: i32) -> nat {
    if v >= 0 {
        v as nat
    } else {
        (2147483647 + (-v)) as nat
    }
}

/// The text of an integer literal.
pub open spec fn int_literal(v: i32) -> Seq<char> {
    "(STD.int "@ + decimal(encoded(v)) + ")"@
}

/// The text of a boolean literal.
pub open spec fn bool_literal(b: bool) -> Seq<char> {
    if b {
        "(STD.bool 1)"@
    } else {
        "(STD.bool 0)"@
    }
}

/// The quoted, backslash-escaped form that `Debug` formatting gives a text.
pub uninterp spec fn debug_quoted(text: Seq<char>) -> Seq<char>;

/// The text of a string literal.
pub open spec fn str_literal(text: Seq<char>) -> Seq<char> {
    debug_quoted(text)
}

/// The number that an integer literal carries: what stands between its
/// constructor and its closing bracket, read as a decimal numeral.
pub open spec fn literal_payload(literal: Seq<char>) -> nat {
    decimal_value(literal.subrange("(STD.int "@.len() as int, literal.len() - 1))
}

/// Encodes a signed integer into the runtime's unsigned space.
pub fn encode_int(v: i32) -> (n: u32)
    ensures
        n == encoded(v),
        v < 0 ==> n == (2147483647 + (-v)) % 0x1_0000_0000,
{
    if v >= 0 {
        v as u32
    } else {
        (2147483647i64 - (v as i64)) as u32
    }
}

/// Writes an integer literal.
pub fn emit_int(v: i32) -> (text: String)
    ensures
        text@ == int_literal(v),
{
    let mut text = String::from_str("(STD.int ");
    let digits = decimal_text(encode_int(v));
    text.append(digits.as_str());
    text.append(")");
    text
}

/// Writes a boolean literal.
pub fn emit_bool(b: bool) -> (text: String)
    ensures
        text@ == bool_literal(b),
{
    if b {
        String::from_str("(STD.bool 1)")
    } else {
        String::from_str("(STD.bool 0)")
    }
}

/// Quotes and escapes a text.
///
/// Rests on the `Debug` formatting of `str`, which is a function of the
/// text alone; the contract names its result and says nothing more of it.
#[verifier::external_body]
fn debug_format(text: &str) -> (quoted: String)
    ensures
        quoted@ == debug_quoted(text@),
{
    format!("{:?}", text)
}

/// Writes a string literal.
pub fn emit_str(text: &str) -> (literal: String)
    ensures
        literal@ == str_literal(text@),
{
    debug_format(text)
}

/// The encoding can be read back: for `v >= 0` the emitted literal carries
/// `v` itself, for `v < 0` it carries `2147483647 + (-v)`, taken modulo
/// `2^32`.
pub proof fn lemma_encoding_round_trip(v: i32)
    ensures
        v >= 0 ==> literal_payload(int_literal(v)) == v,
        v < 0 ==> literal_payload(int_literal(v)) == (2147483647 + (-v)) % 0x1_0000_0000,
{
    reveal_strlit(")");
    let head = "(STD.int "@;
    let digits = decimal(encoded(v));
    let literal = int_literal(v);
    assert(literal.subrange(head.len() as int, literal.len() - 1) =~= digits);
    lemma_decimal_round_trip(encoded(v));
}

} // verus!
