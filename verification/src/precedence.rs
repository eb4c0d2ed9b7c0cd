//! The operators of the concrete syntax: how tightly each binds, to
//! which side, and the builtin that carries it out.

use crate::ids::VariableId;
use crate::literal::{parse_radix_int, parsed_numeral};
use crate::program::Builtins;
use vstd::prelude::*;

verus! {

/// An operator of the concrete syntax. The sentinel has the id 0; it
/// stands at the bottom of the operator stack of a precedence parser.
#[derive(Clone, Copy, Debug, PartialEq, Eq, Structural)]
pub struct Operator {
    pub id: u32,
    pub precedence: u32,
    pub left_assoc: bool,
}

/// The ids of the operators. The sentinel is no operator of the syntax.
pub const SENTINEL: u32 = 0;

pub const ADD: u32 = 1;

pub const SUBTRACT: u32 = 2;

pub const MULTIPLY: u32 = 3;

pub const DIVIDE: u32 = 4;

pub const INT_DIV: u32 = 5;

pub const MODULO: u32 = 6;

pub const POWER: u32 = 7;

pub const LTE: u32 = 8;

pub const LT: u32 = 9;

pub const GTE: u32 = 10;

pub const GT: u32 = 11;

pub const EQ: u32 = 12;

pub const NEQ: u32 = 13;

pub const BAND: u32 = 14;

pub const BXOR: u32 = 15;

pub const BOR: u32 = 16;

pub const AND: u32 = 17;

pub const XOR: u32 = 18;

pub const OR: u32 = 19;

/// How tightly the operator with the id `id` binds: additive operators
/// least, then multiplicative ones, the power, order, equality, the
/// bitwise and, exclusive or and or, and the logical and, exclusive or and
/// or, each on a level of its own.
pub open spec fn precedence_of(id: u32) -> u32 {
    if id == 0 {
        0
    } else if id <= 2 {
        1
    } else if id <= 6 {
        2
    } else if id == 7 {
        3
    } else if id <= 11 {
        4
    } else if id <= 13 {
        5
    } else if id <= 19 {
        (id - 8) as u32
    } else {
        0
    }
}

/// The entry of the table for the id `id`. Every operator groups to the
/// left but the power, which groups to the right.
pub open spec fn entry(id: u32) -> Operator {
    Operator { id, precedence: precedence_of(id), left_assoc: id != 7 }
}

/// Looks up the entry of the table for an id.
pub fn operator(id: u32) -> (r: Operator)
    ensures
        r == entry(id),
{
    let precedence: u32 = if id == 0 {
        0
    } else if id <= 2 {
        1
    } else if id <= 6 {
        2
    } else if id == 7 {
        3
    } else if id <= 11 {
        4
    } else if id <= 13 {
        5
    } else if id <= 19 {
        id - 8
    } else {
        0
    };
    Operator { id, precedence, left_assoc: id != 7 }
}

/// The operator that a token of the concrete syntax stands for.
pub open spec fn operator_of(token: Seq<char>) -> Option<Operator> {
    if token == "**"@ {
        Some(entry(POWER))
    } else if token == "+"@ {
        Some(entry(ADD))
    } else if token == "-"@ {
        Some(entry(SUBTRACT))
    } else if token == "*"@ {
        Some(entry(MULTIPLY))
    } else if token == "/"@ {
        Some(entry(DIVIDE))
    } else if token == "//"@ {
        Some(entry(INT_DIV))
    } else if token == "%"@ {
        Some(entry(MODULO))
    } else if token == "<="@ {
        Some(entry(LTE))
    } else if token == "<"@ {
        Some(entry(LT))
    } else if token == ">="@ {
        Some(entry(GTE))
    } else if token == ">"@ {
        Some(entry(GT))
    } else if token == "=="@ {
        Some(entry(EQ))
    } else if token == "!="@ {
        Some(entry(NEQ))
    } else if token == "band"@ {
        Some(entry(BAND))
    } else if token == "bxor"@ {
        Some(entry(BXOR))
    } else if token == "bor"@ {
        Some(entry(BOR))
    } else if token == "and"@ {
        Some(entry(AND))
    } else if token == "xor"@ {
        Some(entry(XOR))
    } else if token == "or"@ {
        Some(entry(OR))
    } else {
        None
    }
}

fn is_token(token: &String, text: &str) -> (r: bool)
    ensures
        r == (token@ == text@),
{
    *token == text.to_owned()
}

/// Finds the operator that a token stands for; `None` for any other text.
pub fn op_str_to_operator(op_str: &str) -> (r: Option<Operator>)
    ensures
        r == operator_of(op_str@),
{
    let token = op_str.to_owned();
    if is_token(&token, "**") {
        Some(operator(POWER))
    } else if is_token(&token, "+") {
        Some(operator(ADD))
    } else if is_token(&token, "-") {
        Some(operator(SUBTRACT))
    } else if is_token(&token, "*") {
        Some(operator(MULTIPLY))
    } else if is_token(&token, "/") {
        Some(operator(DIVIDE))
    } else if is_token(&token, "//") {
        Some(operator(INT_DIV))
    } else if is_token(&token, "%") {
        Some(operator(MODULO))
    } else if is_token(&token, "<=") {
        Some(operator(LTE))
    } else if is_token(&token, "<") {
        Some(operator(LT))
    } else if is_token(&token, ">=") {
        Some(operator(GTE))
    } else if is_token(&token, ">") {
        Some(operator(GT))
    } else if is_token(&token, "==") {
        Some(operator(EQ))
    } else if is_token(&token, "!=") {
        Some(operator(NEQ))
    } else if is_token(&token, "band") {
        Some(operator(BAND))
    } else if is_token(&token, "bxor") {
        Some(operator(BXOR))
    } else if is_token(&token, "bor") {
        Some(operator(BOR))
    } else if is_token(&token, "and") {
        Some(operator(AND))
    } else if is_token(&token, "xor") {
        Some(operator(XOR))
    } else if is_token(&token, "or") {
        Some(operator(OR))
    } else {
        None
    }
}

/// The builtin that carries out the operator with the id `id`.
pub open spec fn function_of(id: u32, builtins: Builtins) -> Option<VariableId> {
    if id == 1 {
        Some(builtins.add_func)
    } else if id == 2 {
        Some(builtins.sub_func)
    } else if id == 3 {
        Some(builtins.mul_func)
    } else if id == 4 {
        Some(builtins.div_func)
    } else if id == 5 {
        Some(builtins.int_div_func)
    } else if id == 6 {
        Some(builtins.mod_func)
    } else if id == 7 {
        Some(builtins.pow_func)
    } else if id == 8 {
        Some(builtins.lte_func)
    } else if id == 9 {
        Some(builtins.lt_func)
    } else if id == 10 {
        Some(builtins.gte_func)
    } else if id == 11 {
        Some(builtins.gt_func)
    } else if id == 12 {
        Some(builtins.eq_func)
    } else if id == 13 {
        Some(builtins.neq_func)
    } else if id == 14 {
        Some(builtins.band_func)
    } else if id == 15 {
        Some(builtins.bxor_func)
    } else if id == 16 {
        Some(builtins.bor_func)
    } else if id == 17 {
        Some(builtins.and_func)
    } else if id == 18 {
        Some(builtins.xor_func)
    } else if id == 19 {
        Some(builtins.or_func)
    } else {
        None
    }
}

/// Finds the builtin that carries out an operator; `None` for the sentinel.
pub fn operator_to_op_fn(operator: &Operator, blt: &Builtins) -> (r: Option<VariableId>)
    ensures
        r == function_of(operator.id, *blt),
{
    let id: u32 = operator.id;
    if id == 1 {
        Some(blt.add_func)
    } else if id == 2 {
        Some(blt.sub_func)
    } else if id == 3 {
        Some(blt.mul_func)
    } else if id == 4 {
        Some(blt.div_func)
    } else if id == 5 {
        Some(blt.int_div_func)
    } else if id == 6 {
        Some(blt.mod_func)
    } else if id == 7 {
        Some(blt.pow_func)
    } else if id == 8 {
        Some(blt.lte_func)
    } else if id == 9 {
        Some(blt.lt_func)
    } else if id == 10 {
        Some(blt.gte_func)
    } else if id == 11 {
        Some(blt.gt_func)
    } else if id == 12 {
        Some(blt.eq_func)
    } else if id == 13 {
        Some(blt.neq_func)
    } else if id == 14 {
        Some(blt.band_func)
    } else if id == 15 {
        Some(blt.bxor_func)
    } else if id == 16 {
        Some(blt.bor_func)
    } else if id == 17 {
        Some(blt.and_func)
    } else if id == 18 {
        Some(blt.xor_func)
    } else if id == 19 {
        Some(blt.or_func)
    } else {
        None
    }
}

/// Reads a decimal integer literal, in which underscores may separate digits.
pub fn parse_dec_int(input: &str) -> (r: Option<i64>)
    ensures
        r == parsed_numeral(input@, 10),
{
    assert(input@.skip(0) =~= input@);
    parse_radix_int(input, 0, 10)
}

} // verus!
