//! Folding of binary operations whose operands are known at compile time.

use crate::known_data::{KnownData, Value};
use crate::operator::BinaryOperator;
use vstd::arithmetic::power::{lemma0_pow, lemma1_pow, lemma_pow0, lemma_pow_strictly_increases, pow};
use vstd::prelude::*;

verus! {

/// The outcome of folding one operation.
#[derive(Debug)]
pub enum Folding {
    /// The operation was carried out; this is its result.
    Value(KnownData),
    /// The operands fit the operator, but the result is left to run time:
    /// an operand is a float, a divisor is zero, or the exact integer result
    /// does not fit the integer type.
    RunTime,
    /// The operands do not fit the operator, or two arrays do not fit each other.
    Mismatch,
}

/// The mathematical content of a `Folding`.
pub enum Folded {
    Value(Value),
    RunTime,
    Mismatch,
}

impl View for Folding {
    type V = Folded;

    open spec fn view(&self) -> Folded {
        match self {
            Folding::Value(data) => Folded::Value(data@),
            Folding::RunTime => Folded::RunTime,
            Folding::Mismatch => Folded::Mismatch,
        }
    }
}

/// An integer result, if it fits the integer type.
pub open spec fn exact_int(n: int) -> Folded {
    if i64::MIN <= n <= i64::MAX {
        Folded::Value(Value::Int(n as i64))
    } else {
        Folded::RunTime
    }
}

/// Division that rounds toward zero. The divisor is not zero.
pub open spec fn truncated_quotient(x: int, d: int) -> int {
    if x == 0 {
        0
    } else if x > 0 && d > 0 {
        x / d
    } else if x < 0 && d < 0 {
        (-x) / (-d)
    } else if x < 0 {
        -((-x) / d)
    } else {
        -(x / (-d))
    }
}

/// The remainder that goes with `truncated_quotient`: it has the sign of `x`.
pub open spec fn truncated_remainder(x: int, d: int) -> int {
    if x == 0 {
        0
    } else if x > 0 && d > 0 {
        x % d
    } else if x < 0 && d < 0 {
        -((-x) % (-d))
    } else if x < 0 {
        -((-x) % d)
    } else {
        x % (-d)
    }
}

/// What an operator makes of two integers.
pub open spec fn fold_ints(x: i64, operator: BinaryOperator, y: i64) -> Folded {
    match operator {
        BinaryOperator::Add => exact_int(x + y),
        BinaryOperator::Subtract => exact_int(x - y),
        BinaryOperator::Multiply => exact_int(x * y),
        BinaryOperator::Divide => if y == 0 {
            Folded::RunTime
        } else {
            exact_int(truncated_quotient(x as int, y as int))
        },
        BinaryOperator::Modulo => if y == 0 || (x == i64::MIN && y == -1) {
            Folded::RunTime
        } else {
            exact_int(truncated_remainder(x as int, y as int))
        },
        BinaryOperator::Power => if 0 <= y <= u32::MAX {
            exact_int(pow(x as int, y as nat))
        } else {
            Folded::RunTime
        },
        BinaryOperator::BAnd => Folded::Value(Value::Int(x & y)),
        BinaryOperator::BOr => Folded::Value(Value::Int(x | y)),
        BinaryOperator::BXor => Folded::Value(Value::Int(x ^ y)),
        BinaryOperator::Equal => Folded::Value(Value::Bool(x == y)),
        BinaryOperator::NotEqual => Folded::Value(Value::Bool(x != y)),
        BinaryOperator::LessThan => Folded::Value(Value::Bool(x < y)),
        BinaryOperator::GreaterThan => Folded::Value(Value::Bool(x > y)),
        BinaryOperator::LessThanOrEqual => Folded::Value(Value::Bool(x <= y)),
        BinaryOperator::GreaterThanOrEqual => Folded::Value(Value::Bool(x >= y)),
        BinaryOperator::And | BinaryOperator::Or | BinaryOperator::Xor => Folded::Mismatch,
    }
}

/// What an operator makes of two booleans.
pub open spec fn fold_bools(x: bool, operator: BinaryOperator, y: bool) -> Folded {
    match operator {
        BinaryOperator::And => Folded::Value(Value::Bool(x && y)),
        BinaryOperator::Or => Folded::Value(Value::Bool(x || y)),
        BinaryOperator::Xor => Folded::Value(Value::Bool(x != y)),
        BinaryOperator::Equal => Folded::Value(Value::Bool(x == y)),
        BinaryOperator::NotEqual => Folded::Value(Value::Bool(x != y)),
        _ => Folded::Mismatch,
    }
}

/// What an operator makes of two floats: nothing at compile time.
pub open spec fn fold_floats(operator: BinaryOperator) -> Folded {
    if operator.is_arithmetic() || operator.is_equality() || operator.is_relational() {
        Folded::RunTime
    } else {
        Folded::Mismatch
    }
}

/// What an operator makes of two values of which neither is an array.
///
/// Arithmetic and order take two integers or two floats, logic takes two
/// booleans, bitwise operators take two integers, and equality takes two
/// booleans, integers, floats, data types or functions.
pub open spec fn fold_scalars(a: Value, operator: BinaryOperator, b: Value) -> Folded {
    match (a, b) {
        (Value::Int(x), Value::Int(y)) => fold_ints(x, operator, y),
        (Value::Bool(x), Value::Bool(y)) => fold_bools(x, operator, y),
        (Value::Float(_), Value::Float(_)) => fold_floats(operator),
        (Value::DataType(x), Value::DataType(y)) => match operator {
            BinaryOperator::Equal => Folded::Value(Value::Bool(x == y)),
            BinaryOperator::NotEqual => Folded::Value(Value::Bool(x != y)),
            _ => Folded::Mismatch,
        },
        (Value::Function(x), Value::Function(y)) => match operator {
            BinaryOperator::Equal => Folded::Value(Value::Bool(x.same_function(y))),
            BinaryOperator::NotEqual => Folded::Value(Value::Bool(!x.same_function(y))),
            _ => Folded::Mismatch,
        },
        _ => Folded::Mismatch,
    }
}

/// Whether a value of length `a` and one of length `b` can be combined item
/// by item: the lengths are equal, or one of them is 1.
pub open spec fn broadcastable(a: nat, b: nat) -> bool {
    a == b || a == 1 || b == 1
}

/// The length of the combination of two broadcastable arrays.
pub open spec fn broadcast_len(a: nat, b: nat) -> nat {
    if a == 1 {
        b
    } else {
        a
    }
}

/// Item `i` of the combination of the arrays `a` and `b`.
pub open spec fn fold_pair(a: Seq<Value>, operator: BinaryOperator, b: Seq<Value>, i: int) -> Folded
    decreases a, b, 0int,
{
    if 0 <= i < broadcast_len(a.len(), b.len()) && broadcastable(a.len(), b.len()) {
        fold(
            a[if a.len() == b.len() || b.len() == 1 { i } else { 0 }],
            operator,
            b[if a.len() == b.len() || a.len() == 1 { i } else { 0 }],
        )
    } else {
        Folded::Mismatch
    }
}

/// Item `i` of the combination of the array `a` with the scalar `b`.
pub open spec fn fold_left(a: Seq<Value>, operator: BinaryOperator, b: Value, i: int) -> Folded
    decreases a, b, 0int,
{
    if 0 <= i < a.len() {
        fold(a[i], operator, b)
    } else {
        Folded::Mismatch
    }
}

/// Item `i` of the combination of the scalar `a` with the array `b`.
pub open spec fn fold_right(a: Value, operator: BinaryOperator, b: Seq<Value>, i: int) -> Folded
    decreases a, b, 0int,
{
    if 0 <= i < b.len() {
        fold(a, operator, b[i])
    } else {
        Folded::Mismatch
    }
}

/// The outcomes of the items of the combination of the arrays `a` and `b`.
pub open spec fn pair_items(a: Seq<Value>, operator: BinaryOperator, b: Seq<Value>) -> Seq<Folded>
    decreases a, b, 1int,
{
    Seq::new(broadcast_len(a.len(), b.len()), |i: int| fold_pair(a, operator, b, i))
}

/// The outcomes of the items of the combination of the array `a` with the scalar `b`.
pub open spec fn left_items(a: Seq<Value>, operator: BinaryOperator, b: Value) -> Seq<Folded>
    decreases a, b, 1int,
{
    Seq::new(a.len(), |i: int| fold_left(a, operator, b, i))
}

/// The outcomes of the items of the combination of the scalar `a` with the array `b`.
pub open spec fn right_items(a: Value, operator: BinaryOperator, b: Seq<Value>) -> Seq<Folded>
    decreases a, b, 1int,
{
    Seq::new(b.len(), |i: int| fold_right(a, operator, b, i))
}

/// Gathers the outcomes of the items into the outcome of the array: a
/// mismatch in any item is a mismatch, else an item left to run time leaves
/// the array to run time, else the array of the items' values.
pub open spec fn gather(items: Seq<Folded>) -> Folded {
    if exists|i: int| 0 <= i < items.len() && #[trigger] items[i] is Mismatch {
        Folded::Mismatch
    } else if exists|i: int| 0 <= i < items.len() && #[trigger] items[i] is RunTime {
        Folded::RunTime
    } else {
        Folded::Value(Value::Array(Seq::new(items.len(), |i: int| items[i]->Value_0)))
    }
}

/// What an operator makes of two values.
///
/// Two arrays are combined item by item where their lengths are equal or
/// one of them is 1, in which case its single item meets every item of the
/// other. An array and a scalar are combined by letting the scalar meet
/// every item. Items that are arrays themselves are combined in the same
/// way. Without arrays, see `fold_scalars`.
pub open spec fn fold(a: Value, operator: BinaryOperator, b: Value) -> Folded
    decreases a, b, 2int,
{
    match (a, b) {
        (Value::Array(x), Value::Array(y)) => if broadcastable(x.len(), y.len()) {
            gather(pair_items(x, operator, y))
        } else {
            Folded::Mismatch
        },
        (Value::Array(x), _) => gather(left_items(x, operator, b)),
        (_, Value::Array(y)) => gather(right_items(a, operator, y)),
        _ => fold_scalars(a, operator, b),
    }
}

/// The magnitude of a power is the power of the magnitude.
proof fn lemma_pow_abs(b: int, e: nat)
    ensures
        vstd::math::abs(pow(b, e)) == pow(vstd::math::abs(b) as int, e),
    decreases e,
{
    reveal(pow);
    if e > 0 {
        lemma_pow_abs(b, (e - 1) as nat);
        let rest = pow(b, (e - 1) as nat);
        assert(vstd::math::abs(b * rest) == vstd::math::abs(b) * vstd::math::abs(rest))
            by (nonlinear_arith);
    }
}

/// A power of -1 is 1 for an even exponent and -1 for an odd one.
proof fn lemma_pow_minus_one(e: nat)
    ensures
        pow(-1, e) == if e % 2 == 0 { 1int } else { -1int },
    decreases e,
{
    reveal(pow);
    if e > 0 {
        lemma_pow_minus_one((e - 1) as nat);
    }
}

/// Once a power of a base of magnitude 2 or more has left the integer
/// type, every higher power stays out of it.
proof fn lemma_pow_stays_out(b: int, k: nat, e: nat)
    requires
        b >= 2 || b <= -2,
        k < e,
        pow(b, k) > i64::MAX || pow(b, k) < i64::MIN,
    ensures
        pow(b, e) > i64::MAX || pow(b, e) < i64::MIN,
{
    lemma_pow_abs(b, k);
    lemma_pow_abs(b, e);
    lemma_pow_strictly_increases(vstd::math::abs(b) as nat, k, e);
}

/// The power `base ** exponent`, if it fits the integer type.
pub fn checked_power(base: i64, exponent: u32) -> (r: Option<i64>)
    ensures
        r == if i64::MIN <= pow(base as int, exponent as nat) <= i64::MAX {
            Some(pow(base as int, exponent as nat) as i64)
        } else {
            None::<i64>
        },
{
    proof {
        lemma_pow0(base as int);
        if exponent > 0 {
            lemma0_pow(exponent as nat);
        }
        lemma1_pow(exponent as nat);
        lemma_pow_minus_one(exponent as nat);
    }
    if exponent == 0 {
        return Some(1);
    }
    if base == 0 {
        return Some(0);
    }
    if base == 1 {
        return Some(1);
    }
    if base == -1 {
        return Some(if exponent % 2 == 0 { 1 } else { -1 });
    }
    let mut result: i64 = 1;
    let mut done: u32 = 0;
    while done < exponent
        invariant
            base >= 2 || base <= -2,
            done <= exponent,
            result == pow(base as int, done as nat),
        decreases exponent - done,
    {
        proof {
            reveal(pow);
            assert(pow(base as int, (done + 1) as nat) == base * pow(base as int, done as nat));
        }
        match result.checked_mul(base) {
            Some(next) => {
                assert(next == pow(base as int, (done + 1) as nat)) by (nonlinear_arith)
                    requires
                        next == result * base,
                        pow(base as int, (done + 1) as nat) == base * result,
                ;
                result = next;
                done += 1;
            },
            None => {
                proof {
                    assert(result * base == base * result) by (nonlinear_arith);
                    if done + 1 < exponent {
                        lemma_pow_stays_out(base as int, (done + 1) as nat, exponent as nat);
                    }
                }
                return None;
            },
        }
    }
    Some(result)
}

fn fold_int_pair(x: i64, operator: BinaryOperator, y: i64) -> (r: Folding)
    ensures
        r@ == fold_ints(x, operator, y),
{
    let exact: Option<i64> = match operator {
        BinaryOperator::Add => x.checked_add(y),
        BinaryOperator::Subtract => x.checked_sub(y),
        BinaryOperator::Multiply => x.checked_mul(y),
        BinaryOperator::Divide => x.checked_div(y),
        BinaryOperator::Modulo => x.checked_rem(y),
        BinaryOperator::Power => {
            if 0 <= y && y <= 0xffff_ffff {
                checked_power(x, y as u32)
            } else {
                None
            }
        },
        BinaryOperator::BAnd => Some(x & y),
        BinaryOperator::BOr => Some(x | y),
        BinaryOperator::BXor => Some(x ^ y),
        BinaryOperator::Equal => { return Folding::Value(KnownData::Bool(x == y)); },
        BinaryOperator::NotEqual => { return Folding::Value(KnownData::Bool(x != y)); },
        BinaryOperator::LessThan => { return Folding::Value(KnownData::Bool(x < y)); },
        BinaryOperator::GreaterThan => { return Folding::Value(KnownData::Bool(x > y)); },
        BinaryOperator::LessThanOrEqual => { return Folding::Value(KnownData::Bool(x <= y)); },
        BinaryOperator::GreaterThanOrEqual => { return Folding::Value(KnownData::Bool(x >= y)); },
        BinaryOperator::And | BinaryOperator::Or | BinaryOperator::Xor => {
            return Folding::Mismatch;
        },
    };
    match exact {
        Some(value) => Folding::Value(KnownData::Int(value)),
        None => Folding::RunTime,
    }
}

fn fold_bool_pair(x: bool, operator: BinaryOperator, y: bool) -> (r: Folding)
    ensures
        r@ == fold_bools(x, operator, y),
{
    match operator {
        BinaryOperator::And => Folding::Value(KnownData::Bool(x && y)),
        BinaryOperator::Or => Folding::Value(KnownData::Bool(x || y)),
        BinaryOperator::Xor => Folding::Value(KnownData::Bool(x != y)),
        BinaryOperator::Equal => Folding::Value(KnownData::Bool(x == y)),
        BinaryOperator::NotEqual => Folding::Value(KnownData::Bool(x != y)),
        _ => Folding::Mismatch,
    }
}

/// Folds an operation on two values of which neither is an array.
pub fn compute_binary_operation_impl(a: &KnownData, operator: BinaryOperator, b: &KnownData) -> (r:
    Folding)
    ensures
        r@ == fold_scalars(a@, operator, b@),
{
    match (a, b) {
        (KnownData::Int(x), KnownData::Int(y)) => fold_int_pair(*x, operator, *y),
        (KnownData::Bool(x), KnownData::Bool(y)) => fold_bool_pair(*x, operator, *y),
        (KnownData::Float(_), KnownData::Float(_)) => match operator {
            BinaryOperator::And
            | BinaryOperator::Or
            | BinaryOperator::Xor
            | BinaryOperator::BAnd
            | BinaryOperator::BOr
            | BinaryOperator::BXor => Folding::Mismatch,
            _ => Folding::RunTime,
        },
        (KnownData::DataType(x), KnownData::DataType(y)) => match operator {
            BinaryOperator::Equal => Folding::Value(KnownData::Bool(x.equals(y))),
            BinaryOperator::NotEqual => Folding::Value(KnownData::Bool(!x.equals(y))),
            _ => Folding::Mismatch,
        },
        (KnownData::Function(x), KnownData::Function(y)) => match operator {
            BinaryOperator::Equal => Folding::Value(KnownData::Bool(x.is_same_function(y))),
            BinaryOperator::NotEqual => Folding::Value(KnownData::Bool(!x.is_same_function(y))),
            _ => Folding::Mismatch,
        },
        _ => Folding::Mismatch,
    }
}

/// Folds an operation on two values known at compile time.
pub fn compute_binary_operation(a: &KnownData, operator: BinaryOperator, b: &KnownData) -> (r:
    Folding)
    ensures
        r@ == fold(a@, operator, b@),
    decreases *a, *b,
{
    match (a, b) {
        (KnownData::Array(x), KnownData::Array(y)) => {
            let a_len: usize = x.len();
            let b_len: usize = y.len();
            if !(a_len == b_len || a_len == 1 || b_len == 1) {
                return Folding::Mismatch;
            }
            let len: usize = if a_len == 1 { b_len } else { a_len };
            let step_a: bool = a_len == b_len || b_len == 1;
            let step_b: bool = a_len == b_len || a_len == 1;
            let ghost items = pair_items(a@->Array_0, operator, b@->Array_0);
            assert(fold(a@, operator, b@) == gather(items));
            let mut values: Vec<KnownData> = Vec::new();
            let mut deferred: bool = false;
            let mut i: usize = 0;
            while i < len
                invariant
                    fold(a@, operator, b@) == gather(items),
                    *a is Array,
                    a->Array_0 == *x,
                    *b is Array,
                    b->Array_0 == *y,
                    a_len == x.len(),
                    b_len == y.len(),
                    broadcastable(a_len as nat, b_len as nat),
                    len == broadcast_len(a_len as nat, b_len as nat),
                    step_a == (a_len == b_len || b_len == 1),
                    step_b == (a_len == b_len || a_len == 1),
                    items == pair_items(a@->Array_0, operator, b@->Array_0),
                    i <= len,
                    forall|j: int| 0 <= j < i ==> !(#[trigger] items[j] is Mismatch),
                    deferred == exists|j: int| 0 <= j < i && #[trigger] items[j] is RunTime,
                    !deferred ==> values@.len() == i,
                    !deferred ==> forall|j: int|
                        0 <= j < i ==> (#[trigger] values@[j])@ == items[j]->Value_0,
                decreases len - i,
            {
                let at_a: usize = if step_a { i } else { 0 };
                let at_b: usize = if step_b { i } else { 0 };
                assert(a@->Array_0[at_a as int] == x@[at_a as int]@);
                assert(b@->Array_0[at_b as int] == y@[at_b as int]@);
                let item = compute_binary_operation(&x[at_a], operator, &y[at_b]);
                assert(item@ == items[i as int]);
                match item {
                    Folding::Mismatch => {
                        assert(items[i as int] is Mismatch);
                        return Folding::Mismatch;
                    },
                    Folding::RunTime => {
                        deferred = true;
                    },
                    Folding::Value(value) => {
                        if !deferred {
                            values.push(value);
                        }
                    },
                }
                i += 1;
            }
            if deferred {
                Folding::RunTime
            } else {
                let r = KnownData::Array(values);
                assert(r@->Array_0 =~= Seq::new(items.len(), |i: int| items[i]->Value_0));
                Folding::Value(r)
            }
        },
        (KnownData::Array(x), _) => {
            let len: usize = x.len();
            let ghost items = left_items(a@->Array_0, operator, b@);
            assert(fold(a@, operator, b@) == gather(items));
            let mut values: Vec<KnownData> = Vec::new();
            let mut deferred: bool = false;
            let mut i: usize = 0;
            while i < len
                invariant
                    fold(a@, operator, b@) == gather(items),
                    *a is Array,
                    a->Array_0 == *x,
                    len == x.len(),
                    items == left_items(a@->Array_0, operator, b@),
                    i <= len,
                    forall|j: int| 0 <= j < i ==> !(#[trigger] items[j] is Mismatch),
                    deferred == exists|j: int| 0 <= j < i && #[trigger] items[j] is RunTime,
                    !deferred ==> values@.len() == i,
                    !deferred ==> forall|j: int|
                        0 <= j < i ==> (#[trigger] values@[j])@ == items[j]->Value_0,
                decreases len - i,
            {
                assert(a@->Array_0[i as int] == x@[i as int]@);
                let item = compute_binary_operation(&x[i], operator, b);
                assert(item@ == items[i as int]);
                match item {
                    Folding::Mismatch => {
                        assert(items[i as int] is Mismatch);
                        return Folding::Mismatch;
                    },
                    Folding::RunTime => {
                        deferred = true;
                    },
                    Folding::Value(value) => {
                        if !deferred {
                            values.push(value);
                        }
                    },
                }
                i += 1;
            }
            if deferred {
                Folding::RunTime
            } else {
                let r = KnownData::Array(values);
                assert(r@->Array_0 =~= Seq::new(items.len(), |i: int| items[i]->Value_0));
                Folding::Value(r)
            }
        },
        (_, KnownData::Array(y)) => {
            let len: usize = y.len();
            let ghost items = right_items(a@, operator, b@->Array_0);
            assert(fold(a@, operator, b@) == gather(items));
            let mut values: Vec<KnownData> = Vec::new();
            let mut deferred: bool = false;
            let mut i: usize = 0;
            while i < len
                invariant
                    fold(a@, operator, b@) == gather(items),
                    !(*a is Array),
                    *b is Array,
                    b->Array_0 == *y,
                    len == y.len(),
                    items == right_items(a@, operator, b@->Array_0),
                    i <= len,
                    forall|j: int| 0 <= j < i ==> !(#[trigger] items[j] is Mismatch),
                    deferred == exists|j: int| 0 <= j < i && #[trigger] items[j] is RunTime,
                    !deferred ==> values@.len() == i,
                    !deferred ==> forall|j: int|
                        0 <= j < i ==> (#[trigger] values@[j])@ == items[j]->Value_0,
                decreases len - i,
            {
                assert(b@->Array_0[i as int] == y@[i as int]@);
                let item = compute_binary_operation(a, operator, &y[i]);
                assert(item@ == items[i as int]);
                match item {
                    Folding::Mismatch => {
                        assert(items[i as int] is Mismatch);
                        return Folding::Mismatch;
                    },
                    Folding::RunTime => {
                        deferred = true;
                    },
                    Folding::Value(value) => {
                        if !deferred {
                            values.push(value);
                        }
                    },
                }
                i += 1;
            }
            if deferred {
                Folding::RunTime
            } else {
                let r = KnownData::Array(values);
                assert(r@->Array_0 =~= Seq::new(items.len(), |i: int| items[i]->Value_0));
                Folding::Value(r)
            }
        },
        _ => compute_binary_operation_impl(a, operator, b),
    }
}

} // verus!
