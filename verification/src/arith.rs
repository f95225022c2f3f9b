//! The binary operators on values.
//!
//! Integer arithmetic is exact and traps: a result outside the 64-bit range is
//! an `Overflow` error. Arithmetic that involves a float goes to the host.
//! Division and modulo by zero, integer or float, are errors.

use crate::ast::BinaryOp;
use crate::host::{
    agrees, bits_at, order_at, FloatBinary, FloatOrder, Host, Recorded, Reply, Request,
};
use crate::value::{error, ErrorKind, RuntimeError, SpecError, SpecValue, Value};
use vstd::prelude::*;
use vstd::string::StringExecFns;

verus! {

/// What an operation computed, and how many host replies had been read when
/// it was done.
pub ghost struct Outcome {
    pub result: Result<SpecValue, SpecError>,
    pub cursor: int,
}

/// The view of an operation's result.
pub open spec fn result_view(r: Result<Value<'_>, RuntimeError>) -> Result<SpecValue, SpecError> {
    match r {
        Ok(v) => Ok(v@),
        Err(e) => Err(e@),
    }
}

/// The sign bit of a double.
pub const SIGN_BIT: u64 = 0x8000_0000_0000_0000;

/// Whether a bit pattern is that of `0.0` or `-0.0`.
pub open spec fn is_zero_bits(bits: u64) -> bool {
    bits == 0 || bits == SIGN_BIT
}

/// Whether a value is an integer or a float.
pub open spec fn is_number(v: SpecValue) -> bool {
    v is Int || v is Float
}

/// Whether a number is zero.
pub open spec fn is_zero(v: SpecValue) -> bool {
    match v {
        SpecValue::Int(i) => i == 0,
        SpecValue::Float(bits) => is_zero_bits(bits),
        _ => false,
    }
}

/// An integer result: the integer, or an overflow error where it does not
/// fit in 64 bits.
pub open spec fn int_result(n: int) -> Result<SpecValue, SpecError> {
    if i64::MIN <= n <= i64::MAX {
        Ok(SpecValue::Int(n as i64))
    } else {
        Err(error(ErrorKind::Overflow, "integer overflow"@))
    }
}

/// The quotient of `a` by `b`, rounded toward zero.
pub open spec fn trunc_div(a: int, b: int) -> int
    recommends
        b != 0,
{
    if a >= 0 && b > 0 {
        a / b
    } else if a < 0 && b < 0 {
        (-a) / (-b)
    } else if a < 0 {
        -((-a) / b)
    } else {
        -(a / (-b))
    }
}

/// The remainder of `a` by `b`; it has the sign of `a`.
pub open spec fn trunc_rem(a: int, b: int) -> int
    recommends
        b != 0,
{
    if a >= 0 && b > 0 {
        a % b
    } else if a < 0 && b < 0 {
        -((-a) % (-b))
    } else if a < 0 {
        -((-a) % b)
    } else {
        a % (-b)
    }
}

/// Whether an operator is one of `+ - * / %`.
pub open spec fn is_arithmetic(op: BinaryOp) -> bool {
    op is Add || op is Sub || op is Mul || op is Div || op is Mod
}

/// Whether an operator is one of `< <= > >=`.
pub open spec fn is_comparison(op: BinaryOp) -> bool {
    op is Less || op is LessEqual || op is Greater || op is GreaterEqual
}

/// The message of a type error of an arithmetic operator.
pub open spec fn type_error_message(op: BinaryOp) -> Seq<char> {
    match op {
        BinaryOp::Add => "type error: cannot add the given operands"@,
        BinaryOp::Sub => "type error: cannot subtract the given operands"@,
        BinaryOp::Mul => "type error: cannot multiply the given operands"@,
        BinaryOp::Div => "type error: cannot divide the given operands"@,
        _ => "type error: cannot apply modulo to the given operands"@,
    }
}

/// The error of dividing by zero.
pub open spec fn zero_error(op: BinaryOp) -> SpecError {
    if op is Div {
        error(ErrorKind::DivisionByZero, "division by zero"@)
    } else {
        error(ErrorKind::DivisionByZero, "modulo by zero"@)
    }
}

/// An arithmetic operator on two integers.
pub open spec fn int_arith(op: BinaryOp, a: i64, b: i64) -> Result<SpecValue, SpecError> {
    match op {
        BinaryOp::Add => int_result(a + b),
        BinaryOp::Sub => int_result(a - b),
        BinaryOp::Mul => int_result(a * b),
        BinaryOp::Div => if b == 0 {
            Err(zero_error(op))
        } else {
            int_result(trunc_div(a as int, b as int))
        },
        _ => if b == 0 {
            Err(zero_error(op))
        } else {
            int_result(trunc_rem(a as int, b as int))
        },
    }
}

/// The host operation behind an arithmetic operator.
pub open spec fn float_op(op: BinaryOp) -> FloatBinary {
    match op {
        BinaryOp::Add => FloatBinary::Add,
        BinaryOp::Sub => FloatBinary::Sub,
        BinaryOp::Mul => FloatBinary::Mul,
        BinaryOp::Div => FloatBinary::Div,
        _ => FloatBinary::Rem,
    }
}

/// A number as a float: a float is itself, an integer is what the host makes
/// of it, which is the reply at `cursor`.
pub open spec fn promote(v: SpecValue, o: Seq<Reply>, cursor: int) -> (u64, int) {
    match v {
        SpecValue::Int(i) => (bits_at(o, cursor, Request::FromInt(i)), cursor + 1),
        SpecValue::Float(bits) => (bits, cursor),
        _ => (0, cursor),
    }
}

/// `left op right` for an arithmetic operator.
///
/// Two integers give an integer. Two numbers of which one is a float give
/// the float that the host computes from the two, the integer first made a
/// float; but no host is asked where `op` divides by zero. Two strings can be
/// added, which joins them. Everything else is a type error.
pub open spec fn arith(op: BinaryOp, left: SpecValue, right: SpecValue, o: Seq<Reply>, cursor: int)
    -> Outcome {
    match (left, right) {
        (SpecValue::Int(a), SpecValue::Int(b)) => Outcome { result: int_arith(op, a, b), cursor },
        (SpecValue::String(a), SpecValue::String(b)) => if op is Add {
            Outcome { result: Ok(SpecValue::String(a + b)), cursor }
        } else {
            Outcome { result: Err(error(ErrorKind::Type, type_error_message(op))), cursor }
        },
        _ => if is_number(left) && is_number(right) {
            if (op is Div || op is Mod) && is_zero(right) {
                Outcome { result: Err(zero_error(op)), cursor }
            } else {
                let (a, c1) = promote(left, o, cursor);
                let (b, c2) = promote(right, o, c1);
                Outcome {
                    result: Ok(
                        SpecValue::Float(bits_at(o, c2, Request::Binary(float_op(op), a, b))),
                    ),
                    cursor: c2 + 1,
                }
            }
        } else {
            Outcome { result: Err(error(ErrorKind::Type, type_error_message(op))), cursor }
        },
    }
}

/// Whether an ordering makes a comparison true.
pub open spec fn satisfies(op: BinaryOp, order: FloatOrder) -> bool {
    match op {
        BinaryOp::Less => order is Less,
        BinaryOp::LessEqual => order is Less || order is Equal,
        BinaryOp::Greater => order is Greater,
        _ => order is Greater || order is Equal,
    }
}

/// `left op right` for a comparison: both operands are made floats, and the
/// host compares them. Operands that are not numbers are a type error.
pub open spec fn compare(
    op: BinaryOp,
    left: SpecValue,
    right: SpecValue,
    o: Seq<Reply>,
    cursor: int,
) -> Outcome {
    if is_number(left) && is_number(right) {
        let (a, c1) = promote(left, o, cursor);
        let (b, c2) = promote(right, o, c1);
        Outcome {
            result: Ok(SpecValue::Bool(satisfies(op, order_at(o, c2, Request::Compare(a, b))))),
            cursor: c2 + 1,
        }
    } else {
        Outcome {
            result: Err(error(ErrorKind::Type, "type error: cannot compare given operands"@)),
            cursor,
        }
    }
}

/// Whether two values are equal, and the cursor behind the test. Values of
/// different kinds are never equal, nor are two functions or two tables; two
/// floats are equal where the host says so.
pub open spec fn equal(left: SpecValue, right: SpecValue, o: Seq<Reply>, cursor: int) -> (
    bool,
    int,
) {
    match (left, right) {
        (SpecValue::Int(a), SpecValue::Int(b)) => (a == b, cursor),
        (SpecValue::Float(a), SpecValue::Float(b)) => (
            order_at(o, cursor, Request::Compare(a, b)) is Equal,
            cursor + 1,
        ),
        (SpecValue::Bool(a), SpecValue::Bool(b)) => (a == b, cursor),
        (SpecValue::String(a), SpecValue::String(b)) => (a == b, cursor),
        (SpecValue::Nil, SpecValue::Nil) => (true, cursor),
        _ => (false, cursor),
    }
}

/// `left op right` for two values that have been computed.
pub open spec fn apply_binary(
    op: BinaryOp,
    left: SpecValue,
    right: SpecValue,
    o: Seq<Reply>,
    cursor: int,
) -> Outcome {
    match op {
        BinaryOp::Equal => {
            let (eq, c) = equal(left, right, o, cursor);
            Outcome { result: Ok(SpecValue::Bool(eq)), cursor: c }
        },
        BinaryOp::NotEqual => {
            let (eq, c) = equal(left, right, o, cursor);
            Outcome { result: Ok(SpecValue::Bool(!eq)), cursor: c }
        },
        BinaryOp::And => Outcome {
            result: Ok(SpecValue::Bool(crate::value::truthy(left) && crate::value::truthy(right))),
            cursor,
        },
        BinaryOp::Or => Outcome {
            result: Ok(SpecValue::Bool(crate::value::truthy(left) || crate::value::truthy(right))),
            cursor,
        },
        _ => if is_comparison(op) {
            compare(op, left, right, o, cursor)
        } else {
            arith(op, left, right, o, cursor)
        },
    }
}

/// Division by zero is an error whatever the dividend and whatever the host
/// replies: for an integer or a float zero, for `/` and for `%`.
pub proof fn lemma_division_by_zero_fails(
    op: BinaryOp,
    left: SpecValue,
    right: SpecValue,
    o: Seq<Reply>,
    cursor: int,
)
    requires
        op is Div || op is Mod,
        is_zero(right),
    ensures
        apply_binary(op, left, right, o, cursor).result is Err,
        is_number(left) ==> apply_binary(op, left, right, o, cursor).result == Err::<
            SpecValue,
            SpecError,
        >(zero_error(op)),
{
}

/// `==` and `!=` never fail, and values of different kinds are never equal.
pub proof fn lemma_equality_never_fails(
    op: BinaryOp,
    left: SpecValue,
    right: SpecValue,
    o: Seq<Reply>,
    cursor: int,
)
    requires
        op is Equal || op is NotEqual,
    ensures
        apply_binary(op, left, right, o, cursor).result is Ok,
        !same_kind(left, right) ==> apply_binary(op, left, right, o, cursor).result == Ok::<
            SpecValue,
            SpecError,
        >(SpecValue::Bool(op is NotEqual)),
{
}

/// Whether two values are of the same kind.
pub open spec fn same_kind(a: SpecValue, b: SpecValue) -> bool {
    match (a, b) {
        (SpecValue::Int(_), SpecValue::Int(_)) => true,
        (SpecValue::Float(_), SpecValue::Float(_)) => true,
        (SpecValue::Bool(_), SpecValue::Bool(_)) => true,
        (SpecValue::String(_), SpecValue::String(_)) => true,
        (SpecValue::Function { .. }, SpecValue::Function { .. }) => true,
        (SpecValue::Table(_), SpecValue::Table(_)) => true,
        (SpecValue::BuiltinFunction(_), SpecValue::BuiltinFunction(_)) => true,
        (SpecValue::Nil, SpecValue::Nil) => true,
        _ => false,
    }
}

/// Whether a value is truthy.
pub fn truthy(v: &Value) -> (r: bool)
    ensures
        r == crate::value::truthy(v@),
{
    match v {
        Value::Bool(b) => *b,
        Value::Nil => false,
        _ => true,
    }
}

fn is_zero_float(bits: u64) -> (r: bool)
    ensures
        r == is_zero_bits(bits),
{
    bits == 0 || bits == SIGN_BIT
}

fn overflow<'p>() -> (r: Result<Value<'p>, RuntimeError>)
    ensures
        result_view(r) == Err::<SpecValue, SpecError>(
            error(ErrorKind::Overflow, "integer overflow"@),
        ),
{
    Err(RuntimeError::new(ErrorKind::Overflow, "integer overflow"))
}

fn type_error<'p>(op: BinaryOp) -> (r: Result<Value<'p>, RuntimeError>)
    requires
        is_arithmetic(op),
    ensures
        result_view(r) == Err::<SpecValue, SpecError>(
            error(ErrorKind::Type, type_error_message(op)),
        ),
{
    let message = match op {
        BinaryOp::Add => "type error: cannot add the given operands",
        BinaryOp::Sub => "type error: cannot subtract the given operands",
        BinaryOp::Mul => "type error: cannot multiply the given operands",
        BinaryOp::Div => "type error: cannot divide the given operands",
        _ => "type error: cannot apply modulo to the given operands",
    };
    Err(RuntimeError::new(ErrorKind::Type, message))
}

fn zero_division<'p>(op: BinaryOp) -> (r: Result<Value<'p>, RuntimeError>)
    ensures
        result_view(r) == Err::<SpecValue, SpecError>(zero_error(op)),
{
    match op {
        BinaryOp::Div => Err(RuntimeError::new(ErrorKind::DivisionByZero, "division by zero")),
        _ => Err(RuntimeError::new(ErrorKind::DivisionByZero, "modulo by zero")),
    }
}

/// An arithmetic operator on two integers.
pub fn int_op<'p>(op: BinaryOp, a: i64, b: i64) -> (r: Result<Value<'p>, RuntimeError>)
    requires
        is_arithmetic(op),
    ensures
        result_view(r) == int_arith(op, a, b),
{
    match op {
        BinaryOp::Add => match a.checked_add(b) {
            Some(v) => Ok(Value::Int(v)),
            None => overflow(),
        },
        BinaryOp::Sub => match a.checked_sub(b) {
            Some(v) => Ok(Value::Int(v)),
            None => overflow(),
        },
        BinaryOp::Mul => match a.checked_mul(b) {
            Some(v) => Ok(Value::Int(v)),
            None => overflow(),
        },
        BinaryOp::Div => {
            if b == 0 {
                zero_division(op)
            } else {
                match a.checked_div(b) {
                    Some(v) => Ok(Value::Int(v)),
                    None => overflow(),
                }
            }
        },
        _ => {
            if b == 0 {
                zero_division(op)
            } else if b == -1 {
                assert(trunc_rem(a as int, b as int) == 0);
                Ok(Value::Int(0))
            } else {
                match a.checked_rem(b) {
                    Some(v) => Ok(Value::Int(v)),
                    None => overflow(),
                }
            }
        },
    }
}

impl<H: Host> Recorded<H> {
    /// A number as a float.
    pub fn promote(&mut self, v: &Value) -> (r: u64)
        requires
            is_number(v@),
        ensures
            forall|o: Seq<Reply>| #[trigger]
                agrees(final(self).log(), o) ==> agrees(old(self).log(), o) && promote(
                    v@,
                    o,
                    old(self).cursor(),
                ) == (r, final(self).cursor()),
    {
        match v {
            Value::Int(i) => self.from_int(*i),
            Value::Float(bits) => *bits,
            _ => 0,
        }
    }

    /// `left op right` for an arithmetic operator.
    pub fn arith<'p>(&mut self, op: BinaryOp, left: Value<'p>, right: Value<'p>) -> (r: Result<
        Value<'p>,
        RuntimeError,
    >)
        requires
            is_arithmetic(op),
        ensures
            forall|o: Seq<Reply>| #[trigger]
                agrees(final(self).log(), o) ==> agrees(old(self).log(), o) && arith(
                    op,
                    left@,
                    right@,
                    o,
                    old(self).cursor(),
                ) == (Outcome { result: result_view(r), cursor: final(self).cursor() }),
    {
        match (&left, &right) {
            (Value::Int(a), Value::Int(b)) => int_op(op, *a, *b),
            (Value::String(a), Value::String(b)) => {
                match op {
                    BinaryOp::Add => Ok(Value::String(a.clone().concat(b.as_str()))),
                    _ => type_error(op),
                }
            },
            (Value::Int(_), Value::Float(_))
            | (Value::Float(_), Value::Int(_))
            | (Value::Float(_), Value::Float(_)) => {
                let by_zero = match (op, &right) {
                    (BinaryOp::Div, Value::Int(b)) => *b == 0,
                    (BinaryOp::Mod, Value::Int(b)) => *b == 0,
                    (BinaryOp::Div, Value::Float(b)) => is_zero_float(*b),
                    (BinaryOp::Mod, Value::Float(b)) => is_zero_float(*b),
                    _ => false,
                };
                if by_zero {
                    zero_division(op)
                } else {
                    let a = self.promote(&left);
                    let b = self.promote(&right);
                    let float_op = match op {
                        BinaryOp::Add => FloatBinary::Add,
                        BinaryOp::Sub => FloatBinary::Sub,
                        BinaryOp::Mul => FloatBinary::Mul,
                        BinaryOp::Div => FloatBinary::Div,
                        _ => FloatBinary::Rem,
                    };
                    let bits = self.binary(float_op, a, b);
                    Ok(Value::Float(bits))
                }
            },
            _ => type_error(op),
        }
    }

    /// `left op right` for a comparison.
    pub fn compare_values<'p>(&mut self, op: BinaryOp, left: Value<'p>, right: Value<'p>) -> (r:
        Result<Value<'p>, RuntimeError>)
        requires
            is_comparison(op),
        ensures
            forall|o: Seq<Reply>| #[trigger]
                agrees(final(self).log(), o) ==> agrees(old(self).log(), o) && compare(
                    op,
                    left@,
                    right@,
                    o,
                    old(self).cursor(),
                ) == (Outcome { result: result_view(r), cursor: final(self).cursor() }),
    {
        let numbers = match (&left, &right) {
            (Value::Int(_), Value::Int(_))
            | (Value::Int(_), Value::Float(_))
            | (Value::Float(_), Value::Int(_))
            | (Value::Float(_), Value::Float(_)) => true,
            _ => false,
        };
        if numbers {
            let a = self.promote(&left);
            let b = self.promote(&right);
            let order = self.compare(a, b);
            let holds = match op {
                BinaryOp::Less => matches!(order, FloatOrder::Less),
                BinaryOp::LessEqual => matches!(order, FloatOrder::Less | FloatOrder::Equal),
                BinaryOp::Greater => matches!(order, FloatOrder::Greater),
                _ => matches!(order, FloatOrder::Greater | FloatOrder::Equal),
            };
            Ok(Value::Bool(holds))
        } else {
            Err(RuntimeError::new(ErrorKind::Type, "type error: cannot compare given operands"))
        }
    }

    /// Whether two values are equal.
    pub fn values_equal(&mut self, left: &Value, right: &Value) -> (r: bool)
        ensures
            forall|o: Seq<Reply>| #[trigger]
                agrees(final(self).log(), o) ==> agrees(old(self).log(), o) && equal(
                    left@,
                    right@,
                    o,
                    old(self).cursor(),
                ) == (r, final(self).cursor()),
    {
        match (left, right) {
            (Value::Int(a), Value::Int(b)) => *a == *b,
            (Value::Float(a), Value::Float(b)) => {
                let order = self.compare(*a, *b);
                matches!(order, FloatOrder::Equal)
            },
            (Value::Bool(a), Value::Bool(b)) => *a == *b,
            (Value::String(a), Value::String(b)) => crate::text::str_eq(a.as_str(), b.as_str()),
            (Value::Nil, Value::Nil) => true,
            _ => false,
        }
    }

    /// `left op right` for two values that have been computed.
    pub fn apply_binary<'p>(&mut self, op: BinaryOp, left: Value<'p>, right: Value<'p>) -> (r:
        Result<Value<'p>, RuntimeError>)
        ensures
            forall|o: Seq<Reply>| #[trigger]
                agrees(final(self).log(), o) ==> agrees(old(self).log(), o) && apply_binary(
                    op,
                    left@,
                    right@,
                    o,
                    old(self).cursor(),
                ) == (Outcome { result: result_view(r), cursor: final(self).cursor() }),
    {
        match op {
            BinaryOp::Equal => {
                let eq = self.values_equal(&left, &right);
                Ok(Value::Bool(eq))
            },
            BinaryOp::NotEqual => {
                let eq = self.values_equal(&left, &right);
                Ok(Value::Bool(!eq))
            },
            BinaryOp::And => Ok(Value::Bool(truthy(&left) && truthy(&right))),
            BinaryOp::Or => Ok(Value::Bool(truthy(&left) || truthy(&right))),
            BinaryOp::Less | BinaryOp::LessEqual | BinaryOp::Greater | BinaryOp::GreaterEqual => {
                self.compare_values(op, left, right)
            },
            _ => self.arith(op, left, right),
        }
    }
}

} // verus!

