use arcscript::arith::int_op;
use arcscript::ast::{BinaryOp, Program};
use arcscript::builtins::{arity_of, find_builtin, name_of, Builtin};
use arcscript::host::{FloatBinary, FloatOrder, FloatUnary, Host, Recorded};
use arcscript::interpreter::Interpreter;
use arcscript::parser::parse;
use arcscript::text::{bytes_to_text, int_to_string, parse_int, u64_to_string, usize_to_string};
use arcscript::value::{ErrorKind, RuntimeError, Value};

struct Native;

impl Host for Native {
    fn unary(&self, op: FloatUnary, x: u64) -> u64 {
        let f = f64::from_bits(x);
        let r = match op {
            FloatUnary::Negate => -f,
            FloatUnary::Abs => f.abs(),
            FloatUnary::Floor => f.floor(),
            FloatUnary::Ceil => f.ceil(),
            FloatUnary::Round => f.round(),
            FloatUnary::Sqrt => f.sqrt(),
        };
        r.to_bits()
    }

    fn binary(&self, op: FloatBinary, a: u64, b: u64) -> u64 {
        let (a, b) = (f64::from_bits(a), f64::from_bits(b));
        let r = match op {
            FloatBinary::Add => a + b,
            FloatBinary::Sub => a - b,
            FloatBinary::Mul => a * b,
            FloatBinary::Div => a / b,
            FloatBinary::Rem => a % b,
            FloatBinary::Min => a.min(b),
            FloatBinary::Max => a.max(b),
            FloatBinary::Pow => a.powf(b),
        };
        r.to_bits()
    }

    fn powi(&self, x: u64, n: i32) -> u64 {
        f64::from_bits(x).powi(n).to_bits()
    }

    fn compare(&self, a: u64, b: u64) -> FloatOrder {
        let (a, b) = (f64::from_bits(a), f64::from_bits(b));
        if a < b {
            FloatOrder::Less
        } else if a > b {
            FloatOrder::Greater
        } else if a == b {
            FloatOrder::Equal
        } else {
            FloatOrder::Unordered
        }
    }

    fn from_int(&self, i: i64) -> u64 {
        (i as f64).to_bits()
    }

    fn to_int(&self, x: u64) -> i64 {
        f64::from_bits(x) as i64
    }

    fn parse(&self, text: &str) -> Option<u64> {
        text.parse::<f64>().ok().map(f64::to_bits)
    }

    fn format(&self, x: u64) -> String {
        f64::from_bits(x).to_string()
    }
}

fn float(f: f64) -> Value<'static> {
    Value::Float(f.to_bits())
}

fn eval(expr: &str) -> Result<Value<'static>, RuntimeError> {
    let src = format!("var result = {};", expr);
    let program: &'static Program = match parse(&src) {
        Ok(p) => Box::leak(Box::new(p)),
        Err(errors) => panic!("parse failed: {:?}", errors),
    };
    let mut interp = Interpreter::new(Native);
    interp.eval_program(program)?;
    Ok(interp.get_global("result").expect("result is bound"))
}

fn string(s: &str) -> Value<'static> {
    Value::String(s.to_string())
}

fn error(expr: &str) -> (ErrorKind, String) {
    let e = eval(expr).expect_err("no error");
    (e.kind, e.message)
}

#[test]
fn substring_clamps_its_bounds() {
    assert_eq!(eval("substring(\"hello\", -5, 100)"), Ok(string("hello")));
    assert_eq!(eval("substring(\"hello\", 1, 3)"), Ok(string("el")));
    assert_eq!(eval("substring(\"hello\", 3, 1)"), Ok(string("")));
    assert_eq!(eval("substring(\"hello\", 5, 9)"), Ok(string("")));
    assert_eq!(eval("substring(\"hello\", 0, 0)"), Ok(string("")));
    assert_eq!(eval("substring(\"\", -1, 1)"), Ok(string("")));
}

#[test]
fn substring_counts_characters() {
    assert_eq!(eval("substring(\"héllo✓\", 1, 6)"), Ok(string("éllo✓")));
}

#[test]
fn substring_wants_string_and_integers() {
    assert_eq!(
        error("substring(\"a\", 0, 1.0)"),
        (ErrorKind::Type, "substring() requires (string, int, int)".to_string())
    );
    assert_eq!(
        error("substring(\"a\", 0)"),
        (ErrorKind::Arity, "substring() requires 3 arguments (string, start, end)".to_string())
    );
}

#[test]
fn type_names() {
    assert_eq!(eval("type(1)"), Ok(string("int")));
    assert_eq!(eval("type(1.5)"), Ok(string("float")));
    assert_eq!(eval("type(true)"), Ok(string("bool")));
    assert_eq!(eval("type(\"s\")"), Ok(string("string")));
    assert_eq!(eval("type({})"), Ok(string("table")));
    assert_eq!(eval("type(print)"), Ok(string("builtin_function")));
    assert_eq!(eval("type(nil)"), Ok(string("nil")));
    assert_eq!(error("type()"), (ErrorKind::Arity, "type() requires 1 argument".to_string()));
}

#[test]
fn type_of_a_function() {
    let program: &'static Program =
        Box::leak(Box::new(parse("func f(): { } end var t = type(f);").expect("parses")));
    let mut interp = Interpreter::new(Native);
    interp.eval_program(program).expect("runs");
    assert_eq!(interp.get_global("t"), Some(string("function")));
}

#[test]
fn len_of_strings_and_tables() {
    assert_eq!(eval("len(\"hello\")"), Ok(Value::Int(5)));
    assert_eq!(eval("len(\"\")"), Ok(Value::Int(0)));
    // the length of the encoded text, not the number of characters
    assert_eq!(eval("len(\"é✓\")"), Ok(Value::Int(5)));
    assert_eq!(eval("len({a: 1, b: 2})"), Ok(Value::Int(2)));
    assert_eq!(
        error("len(5)"),
        (ErrorKind::Type, "len() requires string or table argument".to_string())
    );
    assert_eq!(error("len()"), (ErrorKind::Arity, "len() requires 1 argument".to_string()));
}

#[test]
fn str_of_values() {
    assert_eq!(eval("str(42)"), Ok(string("42")));
    assert_eq!(eval("str(-7)"), Ok(string("-7")));
    assert_eq!(eval("str(0)"), Ok(string("0")));
    assert_eq!(eval("str(2.5)"), Ok(string("2.5")));
    assert_eq!(eval("str(true)"), Ok(string("true")));
    assert_eq!(eval("str(false)"), Ok(string("false")));
    assert_eq!(eval("str(\"x\")"), Ok(string("x")));
    assert_eq!(eval("str(nil)"), Ok(string("nil")));
    assert_eq!(eval("str({})"), Ok(string("<table>")));
    assert_eq!(eval("str(len)"), Ok(string("<builtin: len>")));
    assert_eq!(error("str()"), (ErrorKind::Arity, "str() requires 1 argument".to_string()));
}

#[test]
fn int_conversion() {
    assert_eq!(eval("int(5)"), Ok(Value::Int(5)));
    assert_eq!(eval("int(2.9)"), Ok(Value::Int(2)));
    assert_eq!(eval("int(-2.9)"), Ok(Value::Int(-2)));
    assert_eq!(eval("int(\"123\")"), Ok(Value::Int(123)));
    assert_eq!(eval("int(\"-123\")"), Ok(Value::Int(-123)));
    assert_eq!(eval("int(\"+7\")"), Ok(Value::Int(7)));
    assert_eq!(eval("int(\"-9223372036854775808\")"), Ok(Value::Int(i64::MIN)));
    assert_eq!(eval("int(true)"), Ok(Value::Int(1)));
    assert_eq!(eval("int(false)"), Ok(Value::Int(0)));
    assert_eq!(
        error("int(\"12a\")"),
        (ErrorKind::Conversion, "cannot convert string to int".to_string())
    );
    assert_eq!(error("int(\"\")").0, ErrorKind::Conversion);
    assert_eq!(error("int(\" 1\")").0, ErrorKind::Conversion);
    assert_eq!(error("int(\"-\")").0, ErrorKind::Conversion);
    assert_eq!(error("int(\"9223372036854775808\")").0, ErrorKind::Conversion);
    assert_eq!(error("int(nil)"), (ErrorKind::Type, "cannot convert to int".to_string()));
    assert_eq!(error("int()"), (ErrorKind::Arity, "int() requires 1 argument".to_string()));
}

#[test]
fn float_conversion() {
    assert_eq!(eval("float(5)"), Ok(float(5.0)));
    assert_eq!(eval("float(2.5)"), Ok(float(2.5)));
    assert_eq!(eval("float(\"1.5\")"), Ok(float(1.5)));
    assert_eq!(
        error("float(\"abc\")"),
        (ErrorKind::Conversion, "cannot convert string to float".to_string())
    );
    assert_eq!(error("float(true)"), (ErrorKind::Type, "cannot convert to float".to_string()));
    assert_eq!(error("float()"), (ErrorKind::Arity, "float() requires 1 argument".to_string()));
}

#[test]
fn abs_min_max() {
    assert_eq!(eval("abs(-5)"), Ok(Value::Int(5)));
    assert_eq!(eval("abs(5)"), Ok(Value::Int(5)));
    assert_eq!(eval("abs(-2.5)"), Ok(float(2.5)));
    assert_eq!(eval("min(3, 8)"), Ok(Value::Int(3)));
    assert_eq!(eval("min(8, 3)"), Ok(Value::Int(3)));
    assert_eq!(eval("max(3, 8)"), Ok(Value::Int(8)));
    assert_eq!(eval("max(8, 3)"), Ok(Value::Int(8)));
    assert_eq!(eval("min(3, 2.5)"), Ok(float(2.5)));
    assert_eq!(eval("max(3, 2.5)"), Ok(float(3.0)));
    assert_eq!(eval("max(1.5, 2.5)"), Ok(float(2.5)));
    assert_eq!(
        error("abs(\"a\")"),
        (ErrorKind::Type, "abs() requires numeric argument".to_string())
    );
    assert_eq!(
        error("min(1, \"a\")"),
        (ErrorKind::Type, "min() requires numeric arguments".to_string())
    );
    assert_eq!(
        error("max(nil, 1)"),
        (ErrorKind::Type, "max() requires numeric arguments".to_string())
    );
    assert_eq!(error("min(1)"), (ErrorKind::Arity, "min() requires 2 arguments".to_string()));
    assert_eq!(error("max(1)"), (ErrorKind::Arity, "max() requires 2 arguments".to_string()));
    assert_eq!(error("abs()"), (ErrorKind::Arity, "abs() requires 1 argument".to_string()));
}

#[test]
fn floor_ceil_round() {
    assert_eq!(eval("floor(2.7)"), Ok(Value::Int(2)));
    assert_eq!(eval("floor(-2.1)"), Ok(Value::Int(-3)));
    assert_eq!(eval("ceil(2.1)"), Ok(Value::Int(3)));
    assert_eq!(eval("ceil(-2.7)"), Ok(Value::Int(-2)));
    assert_eq!(eval("round(2.5)"), Ok(Value::Int(3)));
    assert_eq!(eval("round(2.4)"), Ok(Value::Int(2)));
    assert_eq!(eval("floor(7)"), Ok(Value::Int(7)));
    assert_eq!(eval("ceil(7)"), Ok(Value::Int(7)));
    assert_eq!(eval("round(7)"), Ok(Value::Int(7)));
    assert_eq!(
        error("floor(\"a\")"),
        (ErrorKind::Type, "floor() requires numeric argument".to_string())
    );
    assert_eq!(
        error("ceil(nil)"),
        (ErrorKind::Type, "ceil() requires numeric argument".to_string())
    );
    assert_eq!(
        error("round(true)"),
        (ErrorKind::Type, "round() requires numeric argument".to_string())
    );
    assert_eq!(error("floor()"), (ErrorKind::Arity, "floor() requires 1 argument".to_string()));
    assert_eq!(error("ceil()"), (ErrorKind::Arity, "ceil() requires 1 argument".to_string()));
    assert_eq!(error("round()"), (ErrorKind::Arity, "round() requires 1 argument".to_string()));
}

#[test]
fn sqrt_and_pow() {
    assert_eq!(eval("sqrt(9)"), Ok(float(3.0)));
    assert_eq!(eval("sqrt(2.25)"), Ok(float(1.5)));
    assert_eq!(eval("sqrt(0)"), Ok(float(0.0)));
    assert_eq!(
        error("sqrt(-1)"),
        (ErrorKind::Domain, "sqrt() requires non-negative argument".to_string())
    );
    assert_eq!(error("sqrt(-0.5)").0, ErrorKind::Domain);
    assert_eq!(
        error("sqrt(\"a\")"),
        (ErrorKind::Type, "sqrt() requires numeric argument".to_string())
    );
    assert_eq!(error("sqrt()"), (ErrorKind::Arity, "sqrt() requires 1 argument".to_string()));
    assert_eq!(eval("pow(2, 10)"), Ok(float(1024.0)));
    assert_eq!(eval("pow(2.0, 3)"), Ok(float(8.0)));
    assert_eq!(eval("pow(4, 0.5)"), Ok(float(2.0)));
    assert_eq!(eval("pow(2.0, 0.5)"), Ok(float(2.0_f64.powf(0.5))));
    assert_eq!(eval("pow(2, -1)"), Ok(float(0.5)));
    assert_eq!(eval("pow(2.0, -1)"), Ok(float(0.5)));
    assert_eq!(eval("pow(2.0, 4294967298)"), Ok(float(4.0)));
    assert_eq!(eval("pow(2, 4294967296)"), Ok(float(f64::INFINITY)));
    assert_eq!(
        error("pow(2, \"a\")"),
        (ErrorKind::Type, "pow() requires numeric arguments".to_string())
    );
    assert_eq!(error("pow(2)"), (ErrorKind::Arity, "pow() requires 2 arguments".to_string()));
}

#[test]
fn contains_and_case() {
    assert_eq!(eval("contains(\"hello world\", \"lo w\")"), Ok(Value::Bool(true)));
    assert_eq!(eval("contains(\"hello\", \"xyz\")"), Ok(Value::Bool(false)));
    assert_eq!(eval("contains(\"hello\", \"\")"), Ok(Value::Bool(true)));
    assert_eq!(eval("contains(\"\", \"a\")"), Ok(Value::Bool(false)));
    assert_eq!(
        error("contains(\"a\", 1)"),
        (ErrorKind::Type, "contains() requires two string arguments".to_string())
    );
    assert_eq!(
        error("contains(\"a\")"),
        (ErrorKind::Arity, "contains() requires 2 arguments".to_string())
    );
    assert_eq!(eval("toUpper(\"Hello, wörld\")"), Ok(string("HELLO, WÖRLD")));
    assert_eq!(eval("toLower(\"Hello, WÖRLD\")"), Ok(string("hello, wörld")));
    assert_eq!(
        error("toUpper(1)"),
        (ErrorKind::Type, "toUpper() requires string argument".to_string())
    );
    assert_eq!(
        error("toLower(nil)"),
        (ErrorKind::Type, "toLower() requires string argument".to_string())
    );
    assert_eq!(
        error("toUpper()"),
        (ErrorKind::Arity, "toUpper() requires 1 argument".to_string())
    );
    assert_eq!(
        error("toLower()"),
        (ErrorKind::Arity, "toLower() requires 1 argument".to_string())
    );
}

#[test]
fn builtins_leave_further_arguments_alone() {
    assert_eq!(eval("abs(-1, 1 / 0)"), Ok(Value::Int(1)));
    assert_eq!(eval("type(1, nope)"), Ok(string("int")));
}

#[test]
fn too_few_arguments_fail_before_any_is_computed() {
    assert_eq!(error("min(1 / 0)").0, ErrorKind::Arity);
}

#[test]
fn builtin_names_and_arity() {
    assert_eq!(find_builtin("toUpper"), Some(Builtin::ToUpper));
    assert_eq!(find_builtin("toupper"), None);
    assert_eq!(name_of(Builtin::Substring), "substring");
    assert_eq!(arity_of(Builtin::Substring), 3);
    assert_eq!(arity_of(Builtin::Print), 0);
    assert_eq!(arity_of(Builtin::Pow), 2);
    assert_eq!(arity_of(Builtin::Len), 1);
}

#[test]
fn apply_builtin_directly() {
    let mut rec = Recorded::new(Native);
    let args = vec![Value::Int(3), Value::Int(9)];
    assert_eq!(rec.apply_builtin(Builtin::Max, &args), Ok(Value::Int(9)));
    assert_eq!(rec.apply_builtin(Builtin::Min, &args), Ok(Value::Int(3)));
}

#[test]
fn arithmetic_directly() {
    assert_eq!(int_op(BinaryOp::Add, 2, 3), Ok(Value::Int(5)));
    assert_eq!(int_op(BinaryOp::Sub, 2, 3), Ok(Value::Int(-1)));
    assert_eq!(int_op(BinaryOp::Mul, -4, 3), Ok(Value::Int(-12)));
    assert_eq!(int_op(BinaryOp::Div, -9, 2), Ok(Value::Int(-4)));
    assert_eq!(int_op(BinaryOp::Mod, -9, 2), Ok(Value::Int(-1)));
    assert_eq!(int_op(BinaryOp::Add, i64::MAX, 1).unwrap_err().kind, ErrorKind::Overflow);
    let mut rec = Recorded::new(Native);
    assert_eq!(
        rec.apply_binary(BinaryOp::Add, Value::Int(1), Value::Float(0.5_f64.to_bits())),
        Ok(float(1.5))
    );
    assert_eq!(
        rec.apply_binary(BinaryOp::Less, Value::Int(1), Value::Int(2)),
        Ok(Value::Bool(true))
    );
    assert_eq!(
        rec.apply_binary(BinaryOp::And, Value::Int(1), Value::Nil),
        Ok(Value::Bool(false))
    );
    assert_eq!(rec.apply_binary(BinaryOp::Or, Value::Int(1), Value::Nil), Ok(Value::Bool(true)));
    assert_eq!(
        rec.apply_binary(BinaryOp::Div, float(1.0), Value::Float(0x8000_0000_0000_0000))
            .unwrap_err()
            .kind,
        ErrorKind::DivisionByZero
    );
}

#[test]
fn text_helpers() {
    assert_eq!(int_to_string(0), "0");
    assert_eq!(int_to_string(-1), "-1");
    assert_eq!(int_to_string(1234567890), "1234567890");
    assert_eq!(int_to_string(i64::MIN), "-9223372036854775808");
    assert_eq!(int_to_string(i64::MAX), "9223372036854775807");
    assert_eq!(u64_to_string(u64::MAX), "18446744073709551615");
    assert_eq!(usize_to_string(10), "10");
    assert_eq!(parse_int("0012"), Some(12));
    assert_eq!(parse_int("+0"), Some(0));
    assert_eq!(parse_int("-0"), Some(0));
    assert_eq!(parse_int("9223372036854775807"), Some(i64::MAX));
    assert_eq!(parse_int("9223372036854775808"), None);
    assert_eq!(parse_int("-9223372036854775809"), None);
    assert_eq!(parse_int("1_0"), None);
    assert_eq!(parse_int("٣"), None);
    assert_eq!(bytes_to_text(vec![104, 105]), "hi");
    assert_eq!(bytes_to_text(vec![0xC3, 0xA9]), "é");
    assert_eq!(bytes_to_text(vec![0xFF]), "");
}
