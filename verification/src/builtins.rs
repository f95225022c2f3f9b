//! The built-in functions, applied to values that have been computed.
//!
//! Each built-in checks the kinds of its arguments and fails with an error
//! of its own where they do not fit. None touches an environment.

use crate::arith::{int_result, is_number, promote, result_view, Outcome};
use crate::host::{
    agrees, bits_at, int_at, order_at, parsed_at, text_at, FloatBinary, FloatOrder, FloatUnary,
    Host, Recorded, Reply, Request,
};
use crate::text::{
    decimal, int_to_string, lowercase, occurs_in, parse_decimal, parse_int, str_contains, str_eq,
    str_to_lowercase, str_to_uppercase, uppercase,
};
use crate::value::{error, ErrorKind, RuntimeError, SpecError, SpecValue, Value};
use vstd::prelude::*;
use vstd::string::{StrSliceExecFns, StringExecFns, StringSliceAdditionalSpecFns};
use vstd::utf8::encode_utf8;

verus! {

/// The built-in functions.
#[derive(Debug, Clone, Copy, PartialEq, Eq, Structural)]
pub enum Builtin {
    Print,
    Println,
    Type,
    Len,
    Str,
    Int,
    Float,
    Abs,
    Min,
    Max,
    Floor,
    Ceil,
    Round,
    Sqrt,
    Pow,
    Substring,
    Contains,
    ToUpper,
    ToLower,
}

/// The name under which a built-in is bound.
pub open spec fn builtin_name(b: Builtin) -> Seq<char> {
    match b {
        Builtin::Print => "print"@,
        Builtin::Println => "println"@,
        Builtin::Type => "type"@,
        Builtin::Len => "len"@,
        Builtin::Str => "str"@,
        Builtin::Int => "int"@,
        Builtin::Float => "float"@,
        Builtin::Abs => "abs"@,
        Builtin::Min => "min"@,
        Builtin::Max => "max"@,
        Builtin::Floor => "floor"@,
        Builtin::Ceil => "ceil"@,
        Builtin::Round => "round"@,
        Builtin::Sqrt => "sqrt"@,
        Builtin::Pow => "pow"@,
        Builtin::Substring => "substring"@,
        Builtin::Contains => "contains"@,
        Builtin::ToUpper => "toUpper"@,
        Builtin::ToLower => "toLower"@,
    }
}

/// The built-in of a given name.
pub open spec fn builtin_named(name: Seq<char>) -> Option<Builtin> {
    if name == "print"@ {
        Some(Builtin::Print)
    } else if name == "println"@ {
        Some(Builtin::Println)
    } else if name == "type"@ {
        Some(Builtin::Type)
    } else if name == "len"@ {
        Some(Builtin::Len)
    } else if name == "str"@ {
        Some(Builtin::Str)
    } else if name == "int"@ {
        Some(Builtin::Int)
    } else if name == "float"@ {
        Some(Builtin::Float)
    } else if name == "abs"@ {
        Some(Builtin::Abs)
    } else if name == "min"@ {
        Some(Builtin::Min)
    } else if name == "max"@ {
        Some(Builtin::Max)
    } else if name == "floor"@ {
        Some(Builtin::Floor)
    } else if name == "ceil"@ {
        Some(Builtin::Ceil)
    } else if name == "round"@ {
        Some(Builtin::Round)
    } else if name == "sqrt"@ {
        Some(Builtin::Sqrt)
    } else if name == "pow"@ {
        Some(Builtin::Pow)
    } else if name == "substring"@ {
        Some(Builtin::Substring)
    } else if name == "contains"@ {
        Some(Builtin::Contains)
    } else if name == "toUpper"@ {
        Some(Builtin::ToUpper)
    } else if name == "toLower"@ {
        Some(Builtin::ToLower)
    } else {
        None
    }
}

/// How many arguments a built-in needs. Further arguments are not looked at.
/// `print` and `println` take any number.
pub open spec fn arity(b: Builtin) -> nat {
    match b {
        Builtin::Print | Builtin::Println => 0,
        Builtin::Min | Builtin::Max | Builtin::Pow | Builtin::Contains => 2,
        Builtin::Substring => 3,
        _ => 1,
    }
}

/// The error of calling a built-in with too few arguments.
pub open spec fn arity_error(b: Builtin) -> SpecError {
    error(
        ErrorKind::Arity,
        match b {
            Builtin::Type => "type() requires 1 argument"@,
            Builtin::Len => "len() requires 1 argument"@,
            Builtin::Str => "str() requires 1 argument"@,
            Builtin::Int => "int() requires 1 argument"@,
            Builtin::Float => "float() requires 1 argument"@,
            Builtin::Abs => "abs() requires 1 argument"@,
            Builtin::Min => "min() requires 2 arguments"@,
            Builtin::Max => "max() requires 2 arguments"@,
            Builtin::Floor => "floor() requires 1 argument"@,
            Builtin::Ceil => "ceil() requires 1 argument"@,
            Builtin::Round => "round() requires 1 argument"@,
            Builtin::Sqrt => "sqrt() requires 1 argument"@,
            Builtin::Pow => "pow() requires 2 arguments"@,
            Builtin::Substring => "substring() requires 3 arguments (string, start, end)"@,
            Builtin::Contains => "contains() requires 2 arguments"@,
            Builtin::ToUpper => "toUpper() requires 1 argument"@,
            Builtin::ToLower => "toLower() requires 1 argument"@,
            _ => Seq::empty(),
        },
    )
}

/// The canonical lower-case name of a value's kind.
pub open spec fn kind_name(v: SpecValue) -> Seq<char> {
    match v {
        SpecValue::Int(_) => "int"@,
        SpecValue::Float(_) => "float"@,
        SpecValue::Bool(_) => "bool"@,
        SpecValue::String(_) => "string"@,
        SpecValue::Function { .. } => "function"@,
        SpecValue::Table(_) => "table"@,
        SpecValue::BuiltinFunction(_) => "builtin_function"@,
        SpecValue::Nil => "nil"@,
    }
}

/// The text of a value, as `print` and `str` give it, and the cursor behind
/// it. The text of a float is the host's.
pub open spec fn to_text(v: SpecValue, o: Seq<Reply>, cursor: int) -> (Seq<char>, int) {
    match v {
        SpecValue::Int(i) => (decimal(i as int), cursor),
        SpecValue::Float(bits) => (text_at(o, cursor, Request::Format(bits)), cursor + 1),
        SpecValue::Bool(b) => (
            if b {
                "true"@
            } else {
                "false"@
            },
            cursor,
        ),
        SpecValue::String(s) => (s, cursor),
        SpecValue::Function { .. } => ("<function>"@, cursor),
        SpecValue::Table(_) => ("<table>"@, cursor),
        SpecValue::BuiltinFunction(name) => ("<builtin: "@ + name + ">"@, cursor),
        SpecValue::Nil => ("nil"@, cursor),
    }
}

/// The outcome of failing with an error of the given kind and message.
pub open spec fn fail(kind: ErrorKind, message: Seq<char>, cursor: int) -> Outcome {
    Outcome { result: Err(error(kind, message)), cursor }
}

/// The outcome of giving a value.
pub open spec fn give(v: SpecValue, cursor: int) -> Outcome {
    Outcome { result: Ok(v), cursor }
}

/// `len`: the length of a string in bytes of its UTF-8 form, or the number of
/// entries of a table.
pub open spec fn len_of(v: SpecValue, cursor: int) -> Outcome {
    match v {
        SpecValue::String(s) => Outcome { result: int_result(encode_utf8(s).len() as int), cursor },
        SpecValue::Table(t) => Outcome { result: int_result(t.len() as int), cursor },
        _ => fail(ErrorKind::Type, "len() requires string or table argument"@, cursor),
    }
}

/// `int`: an integer is itself, a float is cut off toward zero by the host,
/// a string is read as decimal, `true` is 1 and `false` 0.
pub open spec fn int_of(v: SpecValue, o: Seq<Reply>, cursor: int) -> Outcome {
    match v {
        SpecValue::Int(i) => give(SpecValue::Int(i), cursor),
        SpecValue::Float(bits) => give(
            SpecValue::Int(int_at(o, cursor, Request::ToInt(bits))),
            cursor + 1,
        ),
        SpecValue::String(s) => match parse_decimal(encode_utf8(s)) {
            Some(i) => give(SpecValue::Int(i), cursor),
            None => fail(ErrorKind::Conversion, "cannot convert string to int"@, cursor),
        },
        SpecValue::Bool(b) => give(
            SpecValue::Int(
                if b {
                    1
                } else {
                    0
                },
            ),
            cursor,
        ),
        _ => fail(ErrorKind::Type, "cannot convert to int"@, cursor),
    }
}

/// `float`: a float is itself, an integer is made a float by the host, a
/// string is read by the host.
pub open spec fn float_of(v: SpecValue, o: Seq<Reply>, cursor: int) -> Outcome {
    match v {
        SpecValue::Int(i) => give(
            SpecValue::Float(bits_at(o, cursor, Request::FromInt(i))),
            cursor + 1,
        ),
        SpecValue::Float(bits) => give(SpecValue::Float(bits), cursor),
        SpecValue::String(s) => match parsed_at(o, cursor, Request::Parse(s)) {
            Some(bits) => give(SpecValue::Float(bits), cursor + 1),
            None => fail(ErrorKind::Conversion, "cannot convert string to float"@, cursor + 1),
        },
        _ => fail(ErrorKind::Type, "cannot convert to float"@, cursor),
    }
}

/// `abs`. The absolute value of the least integer does not fit and is an
/// overflow error.
pub open spec fn abs_of(v: SpecValue, o: Seq<Reply>, cursor: int) -> Outcome {
    match v {
        SpecValue::Int(i) => Outcome {
            result: int_result(
                if i < 0 {
                    -i
                } else {
                    i as int
                },
            ),
            cursor,
        },
        SpecValue::Float(bits) => give(
            SpecValue::Float(bits_at(o, cursor, Request::Unary(FloatUnary::Abs, bits))),
            cursor + 1,
        ),
        _ => fail(ErrorKind::Type, "abs() requires numeric argument"@, cursor),
    }
}

/// `min` and `max`: of two integers the lesser or greater integer; of two
/// numbers of which one is a float, what the host picks of the two as floats.
pub open spec fn extreme_of(
    greater: bool,
    a: SpecValue,
    b: SpecValue,
    o: Seq<Reply>,
    cursor: int,
) -> Outcome {
    match (a, b) {
        (SpecValue::Int(x), SpecValue::Int(y)) => give(
            SpecValue::Int(
                if (x <= y) != greater {
                    x
                } else {
                    y
                },
            ),
            cursor,
        ),
        _ => if is_number(a) && is_number(b) {
            let (x, c1) = promote(a, o, cursor);
            let (y, c2) = promote(b, o, c1);
            let op = if greater {
                FloatBinary::Max
            } else {
                FloatBinary::Min
            };
            give(SpecValue::Float(bits_at(o, c2, Request::Binary(op, x, y))), c2 + 1)
        } else {
            fail(
                ErrorKind::Type,
                if greater {
                    "max() requires numeric arguments"@
                } else {
                    "min() requires numeric arguments"@
                },
                cursor,
            )
        },
    }
}

/// The message of `floor`, `ceil` and `round` for an argument that is no number.
pub open spec fn rounding_message(op: FloatUnary) -> Seq<char> {
    match op {
        FloatUnary::Floor => "floor() requires numeric argument"@,
        FloatUnary::Ceil => "ceil() requires numeric argument"@,
        _ => "round() requires numeric argument"@,
    }
}

/// `floor`, `ceil` and `round`: an integer is itself; a float is rounded by
/// the host and then made an integer by the host.
pub open spec fn rounded_of(op: FloatUnary, v: SpecValue, o: Seq<Reply>, cursor: int) -> Outcome {
    match v {
        SpecValue::Int(i) => give(SpecValue::Int(i), cursor),
        SpecValue::Float(bits) => {
            let whole = bits_at(o, cursor, Request::Unary(op, bits));
            give(SpecValue::Int(int_at(o, cursor + 1, Request::ToInt(whole))), cursor + 2)
        },
        _ => fail(ErrorKind::Type, rounding_message(op), cursor),
    }
}

/// `sqrt`: the host's square root of the argument as a float. A negative
/// integer, and a float that the host finds less than zero, are errors.
pub open spec fn sqrt_of(v: SpecValue, o: Seq<Reply>, cursor: int) -> Outcome {
    match v {
        SpecValue::Int(i) => if i < 0 {
            fail(ErrorKind::Domain, "sqrt() requires non-negative argument"@, cursor)
        } else {
            let x = bits_at(o, cursor, Request::FromInt(i));
            give(
                SpecValue::Float(bits_at(o, cursor + 1, Request::Unary(FloatUnary::Sqrt, x))),
                cursor + 2,
            )
        },
        SpecValue::Float(bits) => if order_at(o, cursor, Request::Compare(bits, 0)) is Less {
            fail(ErrorKind::Domain, "sqrt() requires non-negative argument"@, cursor + 1)
        } else {
            give(
                SpecValue::Float(
                    bits_at(o, cursor + 1, Request::Unary(FloatUnary::Sqrt, bits)),
                ),
                cursor + 2,
            )
        },
        _ => fail(ErrorKind::Type, "sqrt() requires numeric argument"@, cursor),
    }
}

/// Whether an integer exponent of an integer base is handed to the host as
/// an integer.
pub open spec fn small_exponent(e: i64) -> bool {
    0 <= e <= i32::MAX
}

/// `pow`: always a float, computed by the host. With a float base, an
/// integer exponent is handed over as an integer of 32 bits, its higher
/// bits cut off. With an integer base, an integer exponent is handed over as
/// an integer where it is not negative and fits in 32 bits, and as a float
/// otherwise.
pub open spec fn pow_of(base: SpecValue, exp: SpecValue, o: Seq<Reply>, cursor: int) -> Outcome {
    match (base, exp) {
        (SpecValue::Float(b), SpecValue::Float(e)) => give(
            SpecValue::Float(bits_at(o, cursor, Request::Binary(FloatBinary::Pow, b, e))),
            cursor + 1,
        ),
        (SpecValue::Float(b), SpecValue::Int(e)) => give(
            SpecValue::Float(bits_at(o, cursor, Request::Powi(b, e as i32))),
            cursor + 1,
        ),
        (SpecValue::Int(b), SpecValue::Float(e)) => {
            let x = bits_at(o, cursor, Request::FromInt(b));
            give(
                SpecValue::Float(bits_at(o, cursor + 1, Request::Binary(FloatBinary::Pow, x, e))),
                cursor + 2,
            )
        },
        (SpecValue::Int(b), SpecValue::Int(e)) => {
            let x = bits_at(o, cursor, Request::FromInt(b));
            if small_exponent(e) {
                give(
                    SpecValue::Float(bits_at(o, cursor + 1, Request::Powi(x, e as i32))),
                    cursor + 2,
                )
            } else {
                let y = bits_at(o, cursor + 1, Request::FromInt(e));
                give(
                    SpecValue::Float(
                        bits_at(o, cursor + 2, Request::Binary(FloatBinary::Pow, x, y)),
                    ),
                    cursor + 3,
                )
            }
        },
        _ => fail(ErrorKind::Type, "pow() requires numeric arguments"@, cursor),
    }
}

/// `x` brought into the range from `lo` to `hi`.
pub open spec fn clamp(x: int, lo: int, hi: int) -> int {
    if x < lo {
        lo
    } else if x > hi {
        hi
    } else {
        x
    }
}

/// `substring`: the characters from `start` up to `end`, counted from 0,
/// with `end` brought into the string and `start` brought in front of it.
pub open spec fn substring_of(s: SpecValue, start: SpecValue, end: SpecValue, cursor: int)
    -> Outcome {
    match (s, start, end) {
        (SpecValue::String(text), SpecValue::Int(from), SpecValue::Int(to)) => {
            let last = clamp(to as int, 0, text.len() as int);
            let first = clamp(from as int, 0, last);
            give(SpecValue::String(text.subrange(first, last)), cursor)
        },
        _ => fail(ErrorKind::Type, "substring() requires (string, int, int)"@, cursor),
    }
}

/// `contains`: whether the second string occurs in the first.
pub open spec fn contains_of(s: SpecValue, part: SpecValue, cursor: int) -> Outcome {
    match (s, part) {
        (SpecValue::String(text), SpecValue::String(needle)) => give(
            SpecValue::Bool(occurs_in(needle, text)),
            cursor,
        ),
        _ => fail(ErrorKind::Type, "contains() requires two string arguments"@, cursor),
    }
}

/// `toUpper` and `toLower`.
pub open spec fn case_of(upper: bool, v: SpecValue, cursor: int) -> Outcome {
    match v {
        SpecValue::String(text) => give(
            SpecValue::String(
                if upper {
                    uppercase(text)
                } else {
                    lowercase(text)
                },
            ),
            cursor,
        ),
        _ => fail(
            ErrorKind::Type,
            if upper {
                "toUpper() requires string argument"@
            } else {
                "toLower() requires string argument"@
            },
            cursor,
        ),
    }
}

/// What a built-in other than `print` and `println` gives for arguments that
/// have been computed, `args` holding at least as many as it needs.
pub open spec fn builtin_result(b: Builtin, args: Seq<SpecValue>, o: Seq<Reply>, cursor: int)
    -> Outcome
    recommends
        args.len() >= arity(b),
{
    match b {
        Builtin::Print | Builtin::Println => give(SpecValue::Nil, cursor),
        Builtin::Type => give(SpecValue::String(kind_name(args[0])), cursor),
        Builtin::Len => len_of(args[0], cursor),
        Builtin::Str => {
            let (text, c) = to_text(args[0], o, cursor);
            give(SpecValue::String(text), c)
        },
        Builtin::Int => int_of(args[0], o, cursor),
        Builtin::Float => float_of(args[0], o, cursor),
        Builtin::Abs => abs_of(args[0], o, cursor),
        Builtin::Min => extreme_of(false, args[0], args[1], o, cursor),
        Builtin::Max => extreme_of(true, args[0], args[1], o, cursor),
        Builtin::Floor => rounded_of(FloatUnary::Floor, args[0], o, cursor),
        Builtin::Ceil => rounded_of(FloatUnary::Ceil, args[0], o, cursor),
        Builtin::Round => rounded_of(FloatUnary::Round, args[0], o, cursor),
        Builtin::Sqrt => sqrt_of(args[0], o, cursor),
        Builtin::Pow => pow_of(args[0], args[1], o, cursor),
        Builtin::Substring => substring_of(args[0], args[1], args[2], cursor),
        Builtin::Contains => contains_of(args[0], args[1], cursor),
        Builtin::ToUpper => case_of(true, args[0], cursor),
        Builtin::ToLower => case_of(false, args[0], cursor),
    }
}

/// `substring` never fails on a string and two integers, whatever the
/// integers, and gives a part of the string.
pub proof fn lemma_substring_total(text: Seq<char>, from: i64, to: i64, cursor: int)
    ensures
        substring_of(
            SpecValue::String(text),
            SpecValue::Int(from),
            SpecValue::Int(to),
            cursor,
        ).result is Ok,
        ({
            let last = clamp(to as int, 0, text.len() as int);
            let first = clamp(from as int, 0, last);
            0 <= first <= last <= text.len()
        }),
        from <= 0 && to >= text.len() ==> substring_of(
            SpecValue::String(text),
            SpecValue::Int(from),
            SpecValue::Int(to),
            cursor,
        ).result == Ok::<SpecValue, SpecError>(SpecValue::String(text)),
{
    if from <= 0 && to >= text.len() {
        assert(text.subrange(0, text.len() as int) =~= text);
    }
}

/// Every built-in, in the order in which they are bound.
pub open spec fn all_builtins() -> Seq<Builtin> {
    seq![
        Builtin::Print,
        Builtin::Println,
        Builtin::Type,
        Builtin::Len,
        Builtin::Str,
        Builtin::Int,
        Builtin::Float,
        Builtin::Abs,
        Builtin::Min,
        Builtin::Max,
        Builtin::Floor,
        Builtin::Ceil,
        Builtin::Round,
        Builtin::Sqrt,
        Builtin::Pow,
        Builtin::Substring,
        Builtin::Contains,
        Builtin::ToUpper,
        Builtin::ToLower,
    ]
}

/// How many built-ins there are.
pub const BUILTIN_COUNT: usize = 19;

/// The built-in at a position of the list of all built-ins.
pub fn builtin_at(i: usize) -> (b: Builtin)
    requires
        i < BUILTIN_COUNT,
    ensures
        all_builtins().len() == BUILTIN_COUNT,
        b == all_builtins()[i as int],
{
    if i == 0 {
        Builtin::Print
    } else if i == 1 {
        Builtin::Println
    } else if i == 2 {
        Builtin::Type
    } else if i == 3 {
        Builtin::Len
    } else if i == 4 {
        Builtin::Str
    } else if i == 5 {
        Builtin::Int
    } else if i == 6 {
        Builtin::Float
    } else if i == 7 {
        Builtin::Abs
    } else if i == 8 {
        Builtin::Min
    } else if i == 9 {
        Builtin::Max
    } else if i == 10 {
        Builtin::Floor
    } else if i == 11 {
        Builtin::Ceil
    } else if i == 12 {
        Builtin::Round
    } else if i == 13 {
        Builtin::Sqrt
    } else if i == 14 {
        Builtin::Pow
    } else if i == 15 {
        Builtin::Substring
    } else if i == 16 {
        Builtin::Contains
    } else if i == 17 {
        Builtin::ToUpper
    } else {
        Builtin::ToLower
    }
}

/// The built-in of a given name.
pub fn find_builtin(name: &str) -> (r: Option<Builtin>)
    ensures
        r == builtin_named(name@),
{
    if str_eq(name, "print") {
        Some(Builtin::Print)
    } else if str_eq(name, "println") {
        Some(Builtin::Println)
    } else if str_eq(name, "type") {
        Some(Builtin::Type)
    } else if str_eq(name, "len") {
        Some(Builtin::Len)
    } else if str_eq(name, "str") {
        Some(Builtin::Str)
    } else if str_eq(name, "int") {
        Some(Builtin::Int)
    } else if str_eq(name, "float") {
        Some(Builtin::Float)
    } else if str_eq(name, "abs") {
        Some(Builtin::Abs)
    } else if str_eq(name, "min") {
        Some(Builtin::Min)
    } else if str_eq(name, "max") {
        Some(Builtin::Max)
    } else if str_eq(name, "floor") {
        Some(Builtin::Floor)
    } else if str_eq(name, "ceil") {
        Some(Builtin::Ceil)
    } else if str_eq(name, "round") {
        Some(Builtin::Round)
    } else if str_eq(name, "sqrt") {
        Some(Builtin::Sqrt)
    } else if str_eq(name, "pow") {
        Some(Builtin::Pow)
    } else if str_eq(name, "substring") {
        Some(Builtin::Substring)
    } else if str_eq(name, "contains") {
        Some(Builtin::Contains)
    } else if str_eq(name, "toUpper") {
        Some(Builtin::ToUpper)
    } else if str_eq(name, "toLower") {
        Some(Builtin::ToLower)
    } else {
        None
    }
}

/// The name under which a built-in is bound.
pub fn name_of(b: Builtin) -> (r: &'static str)
    ensures
        r@ == builtin_name(b),
{
    match b {
        Builtin::Print => "print",
        Builtin::Println => "println",
        Builtin::Type => "type",
        Builtin::Len => "len",
        Builtin::Str => "str",
        Builtin::Int => "int",
        Builtin::Float => "float",
        Builtin::Abs => "abs",
        Builtin::Min => "min",
        Builtin::Max => "max",
        Builtin::Floor => "floor",
        Builtin::Ceil => "ceil",
        Builtin::Round => "round",
        Builtin::Sqrt => "sqrt",
        Builtin::Pow => "pow",
        Builtin::Substring => "substring",
        Builtin::Contains => "contains",
        Builtin::ToUpper => "toUpper",
        Builtin::ToLower => "toLower",
    }
}

/// How many arguments a built-in needs.
pub fn arity_of(b: Builtin) -> (n: usize)
    ensures
        n == arity(b),
{
    match b {
        Builtin::Print | Builtin::Println => 0,
        Builtin::Min | Builtin::Max | Builtin::Pow | Builtin::Contains => 2,
        Builtin::Substring => 3,
        _ => 1,
    }
}

/// The error of calling a built-in with too few arguments.
pub fn too_few_arguments(b: Builtin) -> (e: RuntimeError)
    ensures
        e@ == arity_error(b),
{
    let message = match b {
        Builtin::Type => "type() requires 1 argument",
        Builtin::Len => "len() requires 1 argument",
        Builtin::Str => "str() requires 1 argument",
        Builtin::Int => "int() requires 1 argument",
        Builtin::Float => "float() requires 1 argument",
        Builtin::Abs => "abs() requires 1 argument",
        Builtin::Min => "min() requires 2 arguments",
        Builtin::Max => "max() requires 2 arguments",
        Builtin::Floor => "floor() requires 1 argument",
        Builtin::Ceil => "ceil() requires 1 argument",
        Builtin::Round => "round() requires 1 argument",
        Builtin::Sqrt => "sqrt() requires 1 argument",
        Builtin::Pow => "pow() requires 2 arguments",
        Builtin::Substring => "substring() requires 3 arguments (string, start, end)",
        Builtin::Contains => "contains() requires 2 arguments",
        Builtin::ToUpper => "toUpper() requires 1 argument",
        Builtin::ToLower => "toLower() requires 1 argument",
        _ => "",
    };
    proof {
        reveal_strlit("");
        assert(""@ =~= Seq::<char>::empty());
    }
    RuntimeError::new(ErrorKind::Arity, message)
}

fn failure<'p>(kind: ErrorKind, message: &str) -> (r: Result<Value<'p>, RuntimeError>)
    ensures
        result_view(r) == Err::<SpecValue, SpecError>(error(kind, message@)),
{
    Err(RuntimeError::new(kind, message))
}

fn int_from_size<'p>(n: usize) -> (r: Result<Value<'p>, RuntimeError>)
    ensures
        result_view(r) == int_result(n as int),
{
    if n as u64 <= 0x7fff_ffff_ffff_ffff {
        Ok(Value::Int(n as i64))
    } else {
        failure(ErrorKind::Overflow, "integer overflow")
    }
}

/// `type`.
pub fn type_of<'p>(v: &Value<'p>) -> (r: Value<'p>)
    ensures
        r@ == SpecValue::String(kind_name(v@)),
{
    let name = match v {
        Value::Int(_) => "int",
        Value::Float(_) => "float",
        Value::Bool(_) => "bool",
        Value::String(_) => "string",
        Value::Function { .. } => "function",
        Value::Table(_) => "table",
        Value::BuiltinFunction(_) => "builtin_function",
        Value::Nil => "nil",
    };
    Value::String(name.to_owned())
}

/// `len`.
pub fn len<'p>(v: &Value<'p>) -> (r: Result<Value<'p>, RuntimeError>)
    ensures
        result_view(r) == len_of(v@, 0).result,
{
    match v {
        Value::String(s) => int_from_size(s.as_str().as_bytes().len()),
        Value::Table(t) => int_from_size(t.len()),
        _ => failure(ErrorKind::Type, "len() requires string or table argument"),
    }
}

fn clamp_index(x: i64, hi: usize) -> (r: usize)
    ensures
        r == clamp(x as int, 0, hi as int),
{
    if x <= 0 {
        0
    } else if x as u64 >= hi as u64 {
        hi
    } else {
        x as usize
    }
}

/// `substring`.
pub fn substring<'p>(s: &Value<'p>, start: &Value<'p>, end: &Value<'p>) -> (r: Result<
    Value<'p>,
    RuntimeError,
>)
    ensures
        result_view(r) == substring_of(s@, start@, end@, 0).result,
{
    match (s, start, end) {
        (Value::String(text), Value::Int(from), Value::Int(to)) => {
            let n = text.as_str().unicode_len();
            let last = clamp_index(*to, n);
            let first = clamp_index(*from, last);
            let part = text.as_str().substring_char(first, last);
            Ok(Value::String(part.to_owned()))
        },
        _ => failure(ErrorKind::Type, "substring() requires (string, int, int)"),
    }
}

/// `contains`.
pub fn contains<'p>(s: &Value<'p>, part: &Value<'p>) -> (r: Result<Value<'p>, RuntimeError>)
    ensures
        result_view(r) == contains_of(s@, part@, 0).result,
{
    match (s, part) {
        (Value::String(text), Value::String(needle)) => Ok(
            Value::Bool(str_contains(text.as_str(), needle.as_str())),
        ),
        _ => failure(ErrorKind::Type, "contains() requires two string arguments"),
    }
}

/// `toUpper` and `toLower`.
pub fn change_case<'p>(upper: bool, v: &Value<'p>) -> (r: Result<Value<'p>, RuntimeError>)
    ensures
        result_view(r) == case_of(upper, v@, 0).result,
{
    match v {
        Value::String(text) => {
            if upper {
                Ok(Value::String(str_to_uppercase(text.as_str())))
            } else {
                Ok(Value::String(str_to_lowercase(text.as_str())))
            }
        },
        _ => {
            if upper {
                failure(ErrorKind::Type, "toUpper() requires string argument")
            } else {
                failure(ErrorKind::Type, "toLower() requires string argument")
            }
        },
    }
}

impl<H: Host> Recorded<H> {
    /// The text of a value, as `print` and `str` give it.
    pub fn value_to_string(&mut self, v: &Value) -> (text: String)
        ensures
            forall|o: Seq<Reply>| #[trigger]
                agrees(final(self).log(), o) ==> agrees(old(self).log(), o) && to_text(
                    v@,
                    o,
                    old(self).cursor(),
                ) == (text@, final(self).cursor()),
    {
        match v {
            Value::Int(i) => int_to_string(*i),
            Value::Float(bits) => self.format(*bits),
            Value::Bool(b) => {
                if *b {
                    "true".to_owned()
                } else {
                    "false".to_owned()
                }
            },
            Value::String(s) => s.clone(),
            Value::Function { .. } => "<function>".to_owned(),
            Value::Table(_) => "<table>".to_owned(),
            Value::BuiltinFunction(name) => {
                let mut text = "<builtin: ".to_owned();
                text.append(name.as_str());
                text.append(">");
                text
            },
            Value::Nil => "nil".to_owned(),
        }
    }

    /// `int`.
    pub fn to_int_value<'p>(&mut self, v: &Value<'p>) -> (r: Result<Value<'p>, RuntimeError>)
        ensures
            forall|o: Seq<Reply>| #[trigger]
                agrees(final(self).log(), o) ==> agrees(old(self).log(), o) && int_of(
                    v@,
                    o,
                    old(self).cursor(),
                ) == (Outcome { result: result_view(r), cursor: final(self).cursor() }),
    {
        match v {
            Value::Int(i) => Ok(Value::Int(*i)),
            Value::Float(bits) => Ok(Value::Int(self.to_int(*bits))),
            Value::String(s) => match parse_int(s.as_str()) {
                Some(i) => Ok(Value::Int(i)),
                None => failure(ErrorKind::Conversion, "cannot convert string to int"),
            },
            Value::Bool(b) => Ok(
                Value::Int(
                    if *b {
                        1
                    } else {
                        0
                    },
                ),
            ),
            _ => failure(ErrorKind::Type, "cannot convert to int"),
        }
    }

    /// `float`.
    pub fn to_float_value<'p>(&mut self, v: &Value<'p>) -> (r: Result<Value<'p>, RuntimeError>)
        ensures
            forall|o: Seq<Reply>| #[trigger]
                agrees(final(self).log(), o) ==> agrees(old(self).log(), o) && float_of(
                    v@,
                    o,
                    old(self).cursor(),
                ) == (Outcome { result: result_view(r), cursor: final(self).cursor() }),
    {
        match v {
            Value::Int(i) => Ok(Value::Float(self.from_int(*i))),
            Value::Float(bits) => Ok(Value::Float(*bits)),
            Value::String(s) => match self.parse(s.as_str()) {
                Some(bits) => Ok(Value::Float(bits)),
                None => failure(ErrorKind::Conversion, "cannot convert string to float"),
            },
            _ => failure(ErrorKind::Type, "cannot convert to float"),
        }
    }

    /// `abs`.
    pub fn abs<'p>(&mut self, v: &Value<'p>) -> (r: Result<Value<'p>, RuntimeError>)
        ensures
            forall|o: Seq<Reply>| #[trigger]
                agrees(final(self).log(), o) ==> agrees(old(self).log(), o) && abs_of(
                    v@,
                    o,
                    old(self).cursor(),
                ) == (Outcome { result: result_view(r), cursor: final(self).cursor() }),
    {
        match v {
            Value::Int(i) => {
                if *i >= 0 {
                    Ok(Value::Int(*i))
                } else if *i == i64::MIN {
                    failure(ErrorKind::Overflow, "integer overflow")
                } else {
                    Ok(Value::Int(-*i))
                }
            },
            Value::Float(bits) => Ok(Value::Float(self.unary(FloatUnary::Abs, *bits))),
            _ => failure(ErrorKind::Type, "abs() requires numeric argument"),
        }
    }

    /// `min` and `max`.
    pub fn extreme<'p>(&mut self, greater: bool, a: &Value<'p>, b: &Value<'p>) -> (r: Result<
        Value<'p>,
        RuntimeError,
    >)
        ensures
            forall|o: Seq<Reply>| #[trigger]
                agrees(final(self).log(), o) ==> agrees(old(self).log(), o) && extreme_of(
                    greater,
                    a@,
                    b@,
                    o,
                    old(self).cursor(),
                ) == (Outcome { result: result_view(r), cursor: final(self).cursor() }),
    {
        match (a, b) {
            (Value::Int(x), Value::Int(y)) => {
                if (*x <= *y) != greater {
                    Ok(Value::Int(*x))
                } else {
                    Ok(Value::Int(*y))
                }
            },
            (Value::Int(_), Value::Float(_))
            | (Value::Float(_), Value::Int(_))
            | (Value::Float(_), Value::Float(_)) => {
                let x = self.promote(a);
                let y = self.promote(b);
                let op = if greater {
                    FloatBinary::Max
                } else {
                    FloatBinary::Min
                };
                Ok(Value::Float(self.binary(op, x, y)))
            },
            _ => {
                if greater {
                    failure(ErrorKind::Type, "max() requires numeric arguments")
                } else {
                    failure(ErrorKind::Type, "min() requires numeric arguments")
                }
            },
        }
    }

    /// `floor`, `ceil` and `round`.
    pub fn rounded<'p>(&mut self, op: FloatUnary, v: &Value<'p>) -> (r: Result<
        Value<'p>,
        RuntimeError,
    >)
        ensures
            forall|o: Seq<Reply>| #[trigger]
                agrees(final(self).log(), o) ==> agrees(old(self).log(), o) && rounded_of(
                    op,
                    v@,
                    o,
                    old(self).cursor(),
                ) == (Outcome { result: result_view(r), cursor: final(self).cursor() }),
    {
        match v {
            Value::Int(i) => Ok(Value::Int(*i)),
            Value::Float(bits) => {
                let whole = self.unary(op, *bits);
                Ok(Value::Int(self.to_int(whole)))
            },
            _ => {
                let message = match op {
                    FloatUnary::Floor => "floor() requires numeric argument",
                    FloatUnary::Ceil => "ceil() requires numeric argument",
                    _ => "round() requires numeric argument",
                };
                failure(ErrorKind::Type, message)
            },
        }
    }

    /// `sqrt`.
    pub fn sqrt<'p>(&mut self, v: &Value<'p>) -> (r: Result<Value<'p>, RuntimeError>)
        ensures
            forall|o: Seq<Reply>| #[trigger]
                agrees(final(self).log(), o) ==> agrees(old(self).log(), o) && sqrt_of(
                    v@,
                    o,
                    old(self).cursor(),
                ) == (Outcome { result: result_view(r), cursor: final(self).cursor() }),
    {
        match v {
            Value::Int(i) => {
                if *i < 0 {
                    failure(ErrorKind::Domain, "sqrt() requires non-negative argument")
                } else {
                    let x = self.from_int(*i);
                    Ok(Value::Float(self.unary(FloatUnary::Sqrt, x)))
                }
            },
            Value::Float(bits) => {
                let order = self.compare(*bits, 0);
                if matches!(order, FloatOrder::Less) {
                    failure(ErrorKind::Domain, "sqrt() requires non-negative argument")
                } else {
                    Ok(Value::Float(self.unary(FloatUnary::Sqrt, *bits)))
                }
            },
            _ => failure(ErrorKind::Type, "sqrt() requires numeric argument"),
        }
    }

    /// `pow`.
    pub fn pow<'p>(&mut self, base: &Value<'p>, exp: &Value<'p>) -> (r: Result<
        Value<'p>,
        RuntimeError,
    >)
        ensures
            forall|o: Seq<Reply>| #[trigger]
                agrees(final(self).log(), o) ==> agrees(old(self).log(), o) && pow_of(
                    base@,
                    exp@,
                    o,
                    old(self).cursor(),
                ) == (Outcome { result: result_view(r), cursor: final(self).cursor() }),
    {
        match (base, exp) {
            (Value::Float(b), Value::Float(e)) => Ok(
                Value::Float(self.binary(FloatBinary::Pow, *b, *e)),
            ),
            (Value::Float(b), Value::Int(e)) => {
                let n: i32 = #[verifier::truncate]
                (*e as i32);
                Ok(Value::Float(self.powi(*b, n)))
            },
            (Value::Int(b), Value::Float(e)) => {
                let x = self.from_int(*b);
                Ok(Value::Float(self.binary(FloatBinary::Pow, x, *e)))
            },
            (Value::Int(b), Value::Int(e)) => {
                let x = self.from_int(*b);
                if 0 <= *e && *e <= 0x7fff_ffff {
                    Ok(Value::Float(self.powi(x, *e as i32)))
                } else {
                    let y = self.from_int(*e);
                    Ok(Value::Float(self.binary(FloatBinary::Pow, x, y)))
                }
            },
            _ => failure(ErrorKind::Type, "pow() requires numeric arguments"),
        }
    }

    /// Applies a built-in other than `print` and `println` to arguments that
    /// have been computed.
    pub fn apply_builtin<'p>(&mut self, b: Builtin, args: &Vec<Value<'p>>) -> (r: Result<
        Value<'p>,
        RuntimeError,
    >)
        requires
            args.len() >= arity(b),
        ensures
            forall|o: Seq<Reply>| #[trigger]
                agrees(final(self).log(), o) ==> agrees(old(self).log(), o) && builtin_result(
                    b,
                    values_view(args@),
                    o,
                    old(self).cursor(),
                ) == (Outcome { result: result_view(r), cursor: final(self).cursor() }),
    {
        match b {
            Builtin::Print | Builtin::Println => Ok(Value::Nil),
            Builtin::Type => Ok(type_of(&args[0])),
            Builtin::Len => len(&args[0]),
            Builtin::Str => {
                let text = self.value_to_string(&args[0]);
                Ok(Value::String(text))
            },
            Builtin::Int => self.to_int_value(&args[0]),
            Builtin::Float => self.to_float_value(&args[0]),
            Builtin::Abs => self.abs(&args[0]),
            Builtin::Min => self.extreme(false, &args[0], &args[1]),
            Builtin::Max => self.extreme(true, &args[0], &args[1]),
            Builtin::Floor => self.rounded(FloatUnary::Floor, &args[0]),
            Builtin::Ceil => self.rounded(FloatUnary::Ceil, &args[0]),
            Builtin::Round => self.rounded(FloatUnary::Round, &args[0]),
            Builtin::Sqrt => self.sqrt(&args[0]),
            Builtin::Pow => self.pow(&args[0], &args[1]),
            Builtin::Substring => substring(&args[0], &args[1], &args[2]),
            Builtin::Contains => contains(&args[0], &args[1]),
            Builtin::ToUpper => change_case(true, &args[0]),
            Builtin::ToLower => change_case(false, &args[0]),
        }
    }
}

/// The views of a list of values.
pub open spec fn values_view(values: Seq<Value<'_>>) -> Seq<SpecValue> {
    Seq::new(values.len(), |i: int| values[i]@)
}

} // verus!
