use arcscript::ast::{BinaryOp, Expr, FuncDecl, Literal, Program, Stmt};
use arcscript::host::{FloatBinary, FloatOrder, FloatUnary, Host};
use arcscript::interpreter::Interpreter;
use arcscript::lexer::Lexer;
use arcscript::parser::{parse, Parser};
use arcscript::value::{ErrorKind, RuntimeError, Table, Value};

struct Native;

impl Host for Native {
    fn unary(&self, op: FloatUnary, x: u64) -> u64 {
        let f = f64::from_bits(x);
        let r = match op {
            FloatUnary::Negate => -f,
            FloatUnary::Abs => f.abs(),
            FloatUnary::Floor => f.floor(),
            FloatUnary::Ceil => f.ceil(),
            FloatUnary::Round => f.round(),
            FloatUnary::Sqrt => f.sqrt(),
        };
        r.to_bits()
    }

    fn binary(&self, op: FloatBinary, a: u64, b: u64) -> u64 {
        let (a, b) = (f64::from_bits(a), f64::from_bits(b));
        let r = match op {
            FloatBinary::Add => a + b,
            FloatBinary::Sub => a - b,
            FloatBinary::Mul => a * b,
            FloatBinary::Div => a / b,
            FloatBinary::Rem => a % b,
            FloatBinary::Min => a.min(b),
            FloatBinary::Max => a.max(b),
            FloatBinary::Pow => a.powf(b),
        };
        r.to_bits()
    }

    fn powi(&self, x: u64, n: i32) -> u64 {
        f64::from_bits(x).powi(n).to_bits()
    }

    fn compare(&self, a: u64, b: u64) -> FloatOrder {
        let (a, b) = (f64::from_bits(a), f64::from_bits(b));
        if a < b {
            FloatOrder::Less
        } else if a > b {
            FloatOrder::Greater
        } else if a == b {
            FloatOrder::Equal
        } else {
            FloatOrder::Unordered
        }
    }

    fn from_int(&self, i: i64) -> u64 {
        (i as f64).to_bits()
    }

    fn to_int(&self, x: u64) -> i64 {
        f64::from_bits(x) as i64
    }

    fn parse(&self, text: &str) -> Option<u64> {
        text.parse::<f64>().ok().map(f64::to_bits)
    }

    fn format(&self, x: u64) -> String {
        f64::from_bits(x).to_string()
    }
}

fn float(f: f64) -> Value<'static> {
    Value::Float(f.to_bits())
}

fn parse_ok(src: &str) -> Program {
    match parse(src) {
        Ok(p) => p,
        Err(errors) => panic!("parse failed: {:?}", errors),
    }
}

/// Runs a source and gives the value of a global afterwards.
fn global_after(src: &str, name: &str) -> Option<Value<'static>> {
    let program: &'static Program = Box::leak(Box::new(parse_ok(src)));
    let mut interp = Interpreter::new(Native);
    interp.eval_program(program).expect("runtime error");
    interp.get_global(name)
}

fn error_of(src: &str) -> RuntimeError {
    let program = parse_ok(src);
    let mut interp = Interpreter::new(Native);
    interp.eval_program(&program).expect_err("no runtime error")
}

fn output_of(src: &str) -> String {
    let program = parse_ok(src);
    let mut interp = Interpreter::new(Native);
    interp.eval_program(&program).expect("runtime error");
    interp.take_output()
}

fn string(s: &str) -> Value<'static> {
    Value::String(s.to_string())
}

#[test]
fn test_function_sees_global() {
    let src = r#"
            var g = 10;
            func f(): {
                return g;
            } end
            var r = f();
        "#;
    let lexer = Lexer::new(src);
    let mut parser = Parser::new(lexer);
    let program = parser.parse_program().expect("parse failed");
    let mut interp = Interpreter::new(Native);
    interp.eval_program(&program).expect("runtime error");
    assert_eq!(interp.get_global("r"), Some(Value::Int(10)));
}

#[test]
fn test_block_scoping_shadowing() {
    let src = r#"
            var x = 1;
            {
                var x = 2;
            }
        "#;
    let lexer = Lexer::new(src);
    let mut parser = Parser::new(lexer);
    let program = parser.parse_program().expect("parse failed");
    let mut interp = Interpreter::new(Native);
    interp.eval_program(&program).expect("runtime error");
    assert_eq!(interp.get_global("x"), Some(Value::Int(1)));
}

#[test]
fn test_string_escapes() {
    let src = r#"var s = "line1\nline2";"#;
    let lexer = Lexer::new(src);
    let mut parser = Parser::new(lexer);
    let program = parser.parse_program().expect("parse failed");
    let mut interp = Interpreter::new(Native);
    interp.eval_program(&program).expect("runtime error");
    assert_eq!(interp.get_global("s"), Some(Value::String("line1\nline2".to_string())));
}

#[test]
fn test_division_by_zero_error() {
    let src = r#"var x = 1 / 0;"#;
    let lexer = Lexer::new(src);
    let mut parser = Parser::new(lexer);
    let program = parser.parse_program().expect("parse failed");
    let mut interp = Interpreter::new(Native);
    let res = interp.eval_program(&program);
    assert!(res.is_err());
    let err = res.err().unwrap();
    assert!(err.message.contains("division by zero"));
}

#[test]
fn test_table_literal() {
    let src = r#"var t = {x: 10, y: 20};"#;
    let lexer = Lexer::new(src);
    let mut parser = Parser::new(lexer);
    let program = parser.parse_program().expect("parse failed");
    let mut interp = Interpreter::new(Native);
    interp.eval_program(&program).expect("runtime error");
    if let Some(Value::Table(map)) = interp.get_global("t") {
        assert_eq!(map.get("x"), Some(&Value::Int(10)));
        assert_eq!(map.get("y"), Some(&Value::Int(20)));
    } else {
        panic!("expected table");
    }
}

#[test]
fn test_member_access() {
    let src = r#"
            var t = {x: 5};
            var result = t.x;
        "#;
    let lexer = Lexer::new(src);
    let mut parser = Parser::new(lexer);
    let program = parser.parse_program().expect("parse failed");
    let mut interp = Interpreter::new(Native);
    interp.eval_program(&program).expect("runtime error");
    assert_eq!(interp.get_global("result"), Some(Value::Int(5)));
}

#[test]
fn test_index_access() {
    let src = r#"
            var t = {name: "test"};
            var result = t["name"];
        "#;
    let lexer = Lexer::new(src);
    let mut parser = Parser::new(lexer);
    let program = parser.parse_program().expect("parse failed");
    let mut interp = Interpreter::new(Native);
    interp.eval_program(&program).expect("runtime error");
    assert_eq!(interp.get_global("result"), Some(Value::String("test".to_string())));
}

#[test]
fn test_object_declaration() {
    let src = r#"
            object Player: {
                var hp = 100;
            } end
            var p_hp = Player.hp;
        "#;
    let lexer = Lexer::new(src);
    let mut parser = Parser::new(lexer);
    let program = parser.parse_program().expect("parse failed");
    let mut interp = Interpreter::new(Native);
    interp.eval_program(&program).expect("runtime error");
    assert_eq!(interp.get_global("p_hp"), Some(Value::Int(100)));
}

#[test]
fn test_closure_captures_outer_variable() {
    let src = r#"
            var x = 10;
            func makeAdder(): {
                func inner(n): {
                    return x + n;
                } end
                return inner;
            } end
            var adder = makeAdder();
            var result = adder(5);
        "#;
    let lexer = Lexer::new(src);
    let mut parser = Parser::new(lexer);
    let program = parser.parse_program().expect("parse failed");
    let mut interp = Interpreter::new(Native);
    interp.eval_program(&program).expect("runtime error");
    assert_eq!(interp.get_global("result"), Some(Value::Int(15)));
}

#[test]
fn inner_block_does_not_touch_the_outer_binding() {
    assert_eq!(global_after("var x = 1; { var x = 2; }", "x"), Some(Value::Int(1)));
}

#[test]
fn closure_outlives_the_call_that_made_it() {
    let src = "var x=10; func f(): func g(n): return x+n; end return g; end var r = f()(5);";
    assert_eq!(global_after(src, "r"), Some(Value::Int(15)));
}

#[test]
fn closure_sees_what_is_bound_after_it_was_declared() {
    let src = "func f(): { return later; } end var later = 7; var r = f();";
    assert_eq!(global_after(src, "r"), Some(Value::Int(7)));
}

#[test]
fn closures_of_one_call_share_its_environment() {
    let src = r#"
        func make(): {
            var count = 5;
            func get(): { return count; } end
            func also(): { return count + 1; } end
            return {a: get, b: also};
        } end
        var pair = make();
        var first = pair.a();
        var second = pair.b();
    "#;
    assert_eq!(global_after(src, "first"), Some(Value::Int(5)));
    assert_eq!(global_after(src, "second"), Some(Value::Int(6)));
}

#[test]
fn function_can_call_itself() {
    let src = r#"
        func fact(n): {
            if n <= 1 then { return 1; } end
            return n * fact(n - 1);
        } end
        var r = fact(10);
    "#;
    assert_eq!(global_after(src, "r"), Some(Value::Int(3628800)));
}

#[test]
fn integer_division_by_zero_fails() {
    let e = error_of("var x = 1 / 0;");
    assert_eq!(e.kind, ErrorKind::DivisionByZero);
    assert_eq!(e.message, "division by zero");
    assert_eq!(e.line, None);
}

#[test]
fn float_division_by_zero_fails() {
    assert_eq!(error_of("var x = 1.0 / 0.0;").kind, ErrorKind::DivisionByZero);
    assert_eq!(error_of("var x = 1 / 0.0;").kind, ErrorKind::DivisionByZero);
    assert_eq!(error_of("var x = 1.5 / 0;").kind, ErrorKind::DivisionByZero);
    assert_eq!(error_of("var x = 1.0 / -0.0;").kind, ErrorKind::DivisionByZero);
}

fn binary_program(left: Literal, op: BinaryOp, right: Literal) -> Program {
    Program {
        body: vec![Stmt::VarDecl {
            name: "x".to_string(),
            init: Expr::Binary {
                left: Box::new(Expr::Literal(left)),
                op,
                right: Box::new(Expr::Literal(right)),
            },
        }],
    }
}

fn run_binary(left: Literal, op: BinaryOp, right: Literal) -> Result<Value<'static>, RuntimeError> {
    let program: &'static Program = Box::leak(Box::new(binary_program(left, op, right)));
    let mut interp = Interpreter::new(Native);
    interp.eval_program(program)?;
    Ok(interp.get_global("x").expect("x is bound"))
}

#[test]
fn modulo_by_zero_fails_for_integers_and_floats() {
    let f = |s: &str| Literal::Float(s.to_string());
    let e = run_binary(Literal::Int(1), BinaryOp::Mod, Literal::Int(0)).unwrap_err();
    assert_eq!(e.kind, ErrorKind::DivisionByZero);
    assert_eq!(e.message, "modulo by zero");
    let e = run_binary(f("1.0"), BinaryOp::Mod, f("0.0")).unwrap_err();
    assert_eq!(e.kind, ErrorKind::DivisionByZero);
    let e = run_binary(Literal::Int(1), BinaryOp::Mod, f("0.0")).unwrap_err();
    assert_eq!(e.kind, ErrorKind::DivisionByZero);
    let e = run_binary(f("1.0"), BinaryOp::Mod, Literal::Int(0)).unwrap_err();
    assert_eq!(e.kind, ErrorKind::DivisionByZero);
}

#[test]
fn modulo_has_the_sign_of_the_dividend() {
    assert_eq!(run_binary(Literal::Int(7), BinaryOp::Mod, Literal::Int(3)), Ok(Value::Int(1)));
    assert_eq!(run_binary(Literal::Int(-7), BinaryOp::Mod, Literal::Int(3)), Ok(Value::Int(-1)));
    assert_eq!(run_binary(Literal::Int(7), BinaryOp::Mod, Literal::Int(-3)), Ok(Value::Int(1)));
    assert_eq!(
        run_binary(Literal::Int(i64::MIN), BinaryOp::Mod, Literal::Int(-1)),
        Ok(Value::Int(0))
    );
}

#[test]
fn integer_division_rounds_toward_zero() {
    assert_eq!(global_after("var x = 7 / 2;", "x"), Some(Value::Int(3)));
    assert_eq!(global_after("var x = -7 / 2;", "x"), Some(Value::Int(-3)));
    assert_eq!(global_after("var x = 7 / -2;", "x"), Some(Value::Int(-3)));
}

#[test]
fn integer_overflow_traps() {
    assert_eq!(error_of("var x = 9223372036854775807 + 1;").kind, ErrorKind::Overflow);
    assert_eq!(error_of("var x = 9223372036854775807 * 2;").kind, ErrorKind::Overflow);
    assert_eq!(error_of("var x = -9223372036854775807 - 2;").kind, ErrorKind::Overflow);
    assert_eq!(error_of("var m = -9223372036854775807 - 1; var x = m / -1;").kind, ErrorKind::Overflow);
    assert_eq!(error_of("var m = -9223372036854775807 - 1; var x = -m;").kind, ErrorKind::Overflow);
    assert_eq!(error_of("var m = -9223372036854775807 - 1; var x = abs(m);").kind, ErrorKind::Overflow);
}

#[test]
fn integer_arithmetic_is_exact() {
    assert_eq!(global_after("var x = 2 + 3 * 4 - 5;", "x"), Some(Value::Int(9)));
    assert_eq!(
        global_after("var x = 9223372036854775806 + 1;", "x"),
        Some(Value::Int(i64::MAX))
    );
}

#[test]
fn mixing_integer_and_float_gives_float() {
    assert_eq!(global_after("var x = 1 + 2.5;", "x"), Some(float(3.5)));
    assert_eq!(global_after("var x = 2.5 * 2;", "x"), Some(float(5.0)));
    assert_eq!(global_after("var x = 1.5 - 0.25;", "x"), Some(float(1.25)));
    assert_eq!(global_after("var x = 7 / 2.0;", "x"), Some(float(3.5)));
}

#[test]
fn strings_are_joined_by_plus() {
    assert_eq!(global_after("var x = \"ab\" + \"cd\";", "x"), Some(string("abcd")));
}

#[test]
fn other_operands_of_arithmetic_are_type_errors() {
    let e = error_of("var x = 1 + \"a\";");
    assert_eq!(e.kind, ErrorKind::Type);
    assert_eq!(e.message, "type error: cannot add the given operands");
    assert_eq!(error_of("var x = \"a\" - \"b\";").message, "type error: cannot subtract the given operands");
    assert_eq!(error_of("var x = nil * 2;").message, "type error: cannot multiply the given operands");
    assert_eq!(error_of("var x = true / 2;").message, "type error: cannot divide the given operands");
}

#[test]
fn comparisons() {
    assert_eq!(global_after("var x = 1 < 2;", "x"), Some(Value::Bool(true)));
    assert_eq!(global_after("var x = 2 <= 2;", "x"), Some(Value::Bool(true)));
    assert_eq!(global_after("var x = 1 > 2;", "x"), Some(Value::Bool(false)));
    assert_eq!(global_after("var x = 2.5 >= 3;", "x"), Some(Value::Bool(false)));
    assert_eq!(global_after("var x = 3 >= 2.5;", "x"), Some(Value::Bool(true)));
    let e = error_of("var x = \"a\" < \"b\";");
    assert_eq!(e.kind, ErrorKind::Type);
    assert_eq!(e.message, "type error: cannot compare given operands");
}

#[test]
fn equality_holds_only_within_a_kind() {
    assert_eq!(global_after("var x = 1 == 1;", "x"), Some(Value::Bool(true)));
    assert_eq!(global_after("var x = 1 == 1.0;", "x"), Some(Value::Bool(false)));
    assert_eq!(global_after("var x = 1.5 == 1.5;", "x"), Some(Value::Bool(true)));
    assert_eq!(global_after("var x = \"a\" == \"a\";", "x"), Some(Value::Bool(true)));
    assert_eq!(global_after("var x = \"a\" != \"b\";", "x"), Some(Value::Bool(true)));
    assert_eq!(global_after("var x = nil == nil;", "x"), Some(Value::Bool(true)));
    assert_eq!(global_after("var x = true == false;", "x"), Some(Value::Bool(false)));
    assert_eq!(global_after("var x = nil == false;", "x"), Some(Value::Bool(false)));
    assert_eq!(global_after("var x = 0 != nil;", "x"), Some(Value::Bool(true)));
    assert_eq!(global_after("var x = {} == {};", "x"), Some(Value::Bool(false)));
}

#[test]
fn truthiness() {
    assert_eq!(global_after("var x = not 0;", "x"), Some(Value::Bool(false)));
    assert_eq!(global_after("var x = not \"\";", "x"), Some(Value::Bool(false)));
    assert_eq!(global_after("var x = not {};", "x"), Some(Value::Bool(false)));
    assert_eq!(global_after("var x = not nil;", "x"), Some(Value::Bool(true)));
    assert_eq!(global_after("var x = not false;", "x"), Some(Value::Bool(true)));
    assert_eq!(global_after("var x = !true;", "x"), Some(Value::Bool(false)));
}

#[test]
fn and_and_or_leave_the_right_side_alone_where_the_left_decides() {
    assert_eq!(global_after("var x = false and missing;", "x"), Some(Value::Bool(false)));
    assert_eq!(global_after("var x = true or missing;", "x"), Some(Value::Bool(true)));
    assert_eq!(global_after("var x = nil and 1 / 0;", "x"), Some(Value::Bool(false)));
    assert_eq!(error_of("var x = true and missing;").kind, ErrorKind::UndefinedIdentifier);
    assert_eq!(error_of("var x = false or missing;").kind, ErrorKind::UndefinedIdentifier);
    assert_eq!(global_after("var x = 1 and 2;", "x"), Some(Value::Bool(true)));
    assert_eq!(global_after("var x = nil or 0;", "x"), Some(Value::Bool(true)));
    assert_eq!(global_after("var x = nil or false;", "x"), Some(Value::Bool(false)));
}

#[test]
fn unary_minus() {
    assert_eq!(global_after("var x = -5;", "x"), Some(Value::Int(-5)));
    assert_eq!(global_after("var x = -2.5;", "x"), Some(float(-2.5)));
    let e = error_of("var x = -\"a\";");
    assert_eq!(e.kind, ErrorKind::Type);
    assert_eq!(e.message, "type error: unary - on non-number");
}

#[test]
fn undefined_identifier_is_an_error() {
    let e = error_of("var x = nope;");
    assert_eq!(e.kind, ErrorKind::UndefinedIdentifier);
    assert_eq!(e.message, "Undefined identifier 'nope'");
}

#[test]
fn tables_member_index_and_absent_key() {
    let src = "var t = {x: 10, y: 20}; var a = t.x; var b = t[\"y\"]; var c = t.z; var d = t[\"w\"];";
    assert_eq!(global_after(src, "a"), Some(Value::Int(10)));
    assert_eq!(global_after(src, "b"), Some(Value::Int(20)));
    assert_eq!(global_after(src, "c"), Some(Value::Nil));
    assert_eq!(global_after(src, "d"), Some(Value::Nil));
}

#[test]
fn table_fields_without_key_are_keyed_by_position() {
    let src = "var t = {5, k: 6, 7}; var a = t[\"0\"]; var b = t.k; var c = t[\"2\"]; var n = len(t);";
    assert_eq!(global_after(src, "a"), Some(Value::Int(5)));
    assert_eq!(global_after(src, "b"), Some(Value::Int(6)));
    assert_eq!(global_after(src, "c"), Some(Value::Int(7)));
    assert_eq!(global_after(src, "n"), Some(Value::Int(3)));
}

#[test]
fn repeated_key_keeps_the_last_value() {
    let src = "var t = {a: 1, a: 2}; var v = t.a; var n = len(t);";
    assert_eq!(global_after(src, "v"), Some(Value::Int(2)));
    assert_eq!(global_after(src, "n"), Some(Value::Int(1)));
}

#[test]
fn member_and_index_need_a_table() {
    let e = error_of("var s = 1; var x = s.f;");
    assert_eq!(e.kind, ErrorKind::Type);
    assert_eq!(e.message, "cannot access member 'f' on non-table");
    assert_eq!(error_of("var s = 1; var x = s[\"f\"];").message, "cannot index non-table");
    assert_eq!(error_of("var t = {}; var x = t[1];").message, "table index must be a string");
}

#[test]
fn object_members() {
    let src = r#"
        var base = 3;
        object O: {
            var hp = 100;
            var twice = base * 2;
            func get(n): { return n + base; } end
            on hit(d): { x; } end
        } end
        var a = O.hp;
        var b = O.twice;
        var c = O.get(4);
        var e = O.hit;
        var n = len(O);
    "#;
    assert_eq!(global_after(src, "a"), Some(Value::Int(100)));
    assert_eq!(global_after(src, "b"), Some(Value::Int(6)));
    assert_eq!(global_after(src, "c"), Some(Value::Int(7)));
    assert_eq!(global_after(src, "e"), Some(Value::Nil));
    assert_eq!(global_after(src, "n"), Some(Value::Int(3)));
}

#[test]
fn methods_do_not_see_their_siblings_by_name() {
    let src = "object O: { var hp = 1; func get(): { return hp; } end } end var x = O.get();";
    assert_eq!(error_of(src).kind, ErrorKind::UndefinedIdentifier);
}

#[test]
fn missing_arguments_are_nil_and_extra_ones_are_dropped() {
    let src = r#"
        func f(a, b): { return b; } end
        func g(a): { return a; } end
        var x = f(1);
        var y = g(1, 2, 3);
    "#;
    assert_eq!(global_after(src, "x"), Some(Value::Nil));
    assert_eq!(global_after(src, "y"), Some(Value::Int(1)));
}

#[test]
fn extra_arguments_are_not_computed() {
    assert_eq!(
        global_after("func g(a): { return a; } end var y = g(1, 1 / 0);", "y"),
        Some(Value::Int(1))
    );
}

#[test]
fn call_without_return_gives_nil() {
    assert_eq!(global_after("func f(): { var a = 1; } end var x = f();", "x"), Some(Value::Nil));
    assert_eq!(global_after("func f(): { return; } end var x = f();", "x"), Some(Value::Nil));
}

#[test]
fn calling_what_is_no_function_fails() {
    let e = error_of("var f = 1; var x = f();");
    assert_eq!(e.kind, ErrorKind::NotCallable);
    assert_eq!(e.message, "attempt to call non-function");
}

#[test]
fn parameters_shadow_and_leave_the_caller_alone() {
    let src = "var a = 1; func f(a): { var a = a + 1; return a; } end var r = f(10);";
    assert_eq!(global_after(src, "r"), Some(Value::Int(11)));
    assert_eq!(global_after(src, "a"), Some(Value::Int(1)));
}

#[test]
fn return_leaves_nested_blocks_ifs_and_loops() {
    let src = r#"
        func f(n): {
            while true do {
                if n > 0 then {
                    { return n * 2; }
                } end
                return 0;
            } end
            return -1;
        } end
        var a = f(4);
        var b = f(0);
    "#;
    assert_eq!(global_after(src, "a"), Some(Value::Int(8)));
    assert_eq!(global_after(src, "b"), Some(Value::Int(0)));
}

#[test]
fn if_elif_else_takes_the_first_true_branch() {
    let src = r#"
        func pick(n): {
            if n == 1 then { return "one"; }
            elif n == 2 then { return "two"; }
            elif n == 3 then { return "three"; }
            else { return "many"; } end
        } end
        var a = pick(1); var b = pick(2); var c = pick(3); var d = pick(9);
    "#;
    assert_eq!(global_after(src, "a"), Some(string("one")));
    assert_eq!(global_after(src, "b"), Some(string("two")));
    assert_eq!(global_after(src, "c"), Some(string("three")));
    assert_eq!(global_after(src, "d"), Some(string("many")));
}

#[test]
fn for_loop_takes_in_its_end() {
    assert_eq!(output_of("for i = 1, 3 do { print(i); } end"), "123");
    assert_eq!(output_of("for i = 3, 1, -1 do { print(i); } end"), "321");
    assert_eq!(output_of("for i = 0, 10, 5 do { print(i); } end"), "0510");
    assert_eq!(output_of("for i = 3, 1 do { print(i); } end"), "");
    assert_eq!(output_of("for i = 1.9, 3.2, 1.0 do { print(i); } end"), "123");
}

#[test]
fn for_loop_step_zero_and_bad_bounds_fail() {
    let e = error_of("for i = 1, 3, 0 do { } end");
    assert_eq!(e.kind, ErrorKind::Domain);
    assert_eq!(e.message, "for loop step cannot be zero");
    let e = error_of("for i = \"a\", 3 do { } end");
    assert_eq!(e.kind, ErrorKind::Type);
    assert_eq!(e.message, "for loop requires numeric start, end, and step");
    assert_eq!(error_of("for i = 1, 3, 1.0 do { } end").kind, ErrorKind::Type);
}

#[test]
fn for_loop_ends_at_the_edge_of_the_integers() {
    assert_eq!(
        output_of("for i = 9223372036854775806, 9223372036854775807 do { print(\"x\"); } end"),
        "xx"
    );
}

#[test]
fn break_and_continue_in_loops() {
    assert_eq!(
        output_of("for i = 1, 10 do { if i == 4 then { break; } end print(i); } end"),
        "123"
    );
    assert_eq!(
        output_of("for i = 1, 5 do { if i == 3 then { continue; } end print(i); } end"),
        "1245"
    );
    assert_eq!(output_of("while true do { print(\"a\"); break; } end print(\"b\");"), "ab");
}

#[test]
fn break_leaves_only_the_inner_loop() {
    assert_eq!(
        output_of("for i = 1, 2 do { for j = 1, 3 do { if j == 2 then break; end print(j); } end print(\"-\"); } end"),
        "1-1-"
    );
}

#[test]
fn loop_variable_is_gone_after_the_loop() {
    assert_eq!(error_of("for i = 1, 2 do { } end var x = i;").kind, ErrorKind::UndefinedIdentifier);
}

#[test]
fn while_loop_stops_at_the_iteration_limit() {
    let program = parse_ok("while true do { } end");
    let mut interp = Interpreter::with_limits(Native, 10, 1000);
    let e = interp.eval_program(&program).expect_err("runs forever");
    assert_eq!(e.kind, ErrorKind::IterationLimit);
    assert_eq!(e.message, "loop iteration limit exceeded");
}

#[test]
fn while_loop_may_use_its_whole_limit() {
    let program = parse_ok("var n = 0; while false do { } end");
    let mut interp = Interpreter::with_limits(Native, 10, 0);
    assert_eq!(interp.eval_program(&program), Ok(()));
}

#[test]
fn calls_stop_at_the_depth_limit() {
    let program = parse_ok("func f(): { return f(); } end var x = f();");
    let mut interp = Interpreter::with_limits(Native, 50, 1000);
    let e = interp.eval_program(&program).expect_err("recurses forever");
    assert_eq!(e.kind, ErrorKind::DepthExceeded);
    assert_eq!(e.message, "call depth exceeded");
}

#[test]
fn default_limits_stop_runaway_recursion() {
    let src = r#"
        func f(n): {
            if n >= 0 then {
                { { return 1 + f(n + 1); } }
            } end
            return 0;
        } end
        var x = f(0);
    "#;
    let program = parse_ok(src);
    let mut interp = Interpreter::new(Native);
    let e = interp.eval_program(&program).expect_err("recurses forever");
    assert_eq!(e.kind, ErrorKind::DepthExceeded);
}

#[test]
fn calls_may_nest_as_deep_as_the_limit() {
    let src = "func down(n): { if n == 0 then { return 0; } end return down(n - 1); } end var x = down(9);";
    let program = parse_ok(src);
    let mut interp = Interpreter::with_limits(Native, 10, 1000);
    assert_eq!(interp.eval_program(&program), Ok(()));
    assert_eq!(interp.get_global("x"), Some(Value::Int(0)));
    let program = parse_ok("func down(n): { if n == 0 then { return 0; } end return down(n - 1); } end var x = down(10);");
    let mut interp = Interpreter::with_limits(Native, 10, 1000);
    assert_eq!(interp.eval_program(&program).unwrap_err().kind, ErrorKind::DepthExceeded);
}

#[test]
fn environment_is_restored_after_an_error_in_a_call() {
    let first = parse_ok("var x = 1; func f(): { var x = 2; return 1 / 0; } end var y = f();");
    let second = parse_ok("var z = x;");
    let mut interp = Interpreter::new(Native);
    assert!(interp.eval_program(&first).is_err());
    assert_eq!(interp.eval_program(&second), Ok(()));
    assert_eq!(interp.get_global("z"), Some(Value::Int(1)));
}

#[test]
fn environment_is_restored_after_an_error_in_a_block() {
    let first = parse_ok("var x = 1; { var x = 2; var y = nope; }");
    let second = parse_ok("var z = x;");
    let mut interp = Interpreter::new(Native);
    assert!(interp.eval_program(&first).is_err());
    assert_eq!(interp.eval_program(&second), Ok(()));
    assert_eq!(interp.get_global("z"), Some(Value::Int(1)));
}

#[test]
fn bindings_persist_from_one_program_to_the_next() {
    let first = parse_ok("var a = 1; func f(n): { return n + a; } end");
    let second = parse_ok("var b = f(41);");
    let mut interp = Interpreter::new(Native);
    assert_eq!(interp.eval_program(&first), Ok(()));
    assert_eq!(interp.eval_program(&second), Ok(()));
    assert_eq!(interp.get_global("b"), Some(Value::Int(42)));
}

#[test]
fn first_error_ends_the_run() {
    let program = parse_ok("var a = 1; var b = nope; var c = 3;");
    let mut interp = Interpreter::new(Native);
    assert!(interp.eval_program(&program).is_err());
    assert_eq!(interp.get_global("a"), Some(Value::Int(1)));
    assert_eq!(interp.get_global("c"), None);
}

#[test]
fn top_level_return_does_not_end_the_program() {
    assert_eq!(global_after("return 1; var x = 2;", "x"), Some(Value::Int(2)));
}

#[test]
fn assignment_binds_in_the_environment_in_force() {
    let program = Program {
        body: vec![
            Stmt::VarDecl { name: "x".to_string(), init: Expr::Literal(Literal::Int(1)) },
            Stmt::Assignment { name: "x".to_string(), value: Expr::Literal(Literal::Int(5)) },
            Stmt::Block(vec![Stmt::Assignment {
                name: "x".to_string(),
                value: Expr::Literal(Literal::Int(9)),
            }]),
        ],
    };
    let mut interp = Interpreter::new(Native);
    assert_eq!(interp.eval_program(&program), Ok(()));
    assert_eq!(interp.get_global("x"), Some(Value::Int(5)));
}

#[test]
fn function_without_closure_sees_the_caller() {
    let decl: &'static FuncDecl = Box::leak(Box::new(FuncDecl {
        name: "f".to_string(),
        params: vec![],
        body: Box::new(Stmt::Return(Some(Expr::Ident("local".to_string())))),
    }));
    let program: &'static Program = Box::leak(Box::new(parse_ok(
        "func g(h): { var local = 3; return h(); } end var r = g(f);",
    )));
    let mut interp = Interpreter::new(Native);
    interp.define("f".to_string(), Value::Function { decl, closure: None });
    interp.eval_program(program).expect("runs");
    assert_eq!(interp.get_global("r"), Some(Value::Int(3)));
}

#[test]
fn function_with_an_unknown_closure_sees_only_its_own_bindings() {
    let decl: &'static FuncDecl = Box::leak(Box::new(FuncDecl {
        name: "f".to_string(),
        params: vec!["a".to_string()].into_iter().map(|name| arcscript::ast::Param { name }).collect(),
        body: Box::new(Stmt::Return(Some(Expr::Ident("a".to_string())))),
    }));
    let program: &'static Program = Box::leak(Box::new(parse_ok("var r = f(4);")));
    let mut interp = Interpreter::new(Native);
    interp.define("f".to_string(), Value::Function { decl, closure: Some(999) });
    interp.eval_program(program).expect("runs");
    assert_eq!(interp.get_global("r"), Some(Value::Int(4)));
}

#[test]
fn print_and_println() {
    assert_eq!(output_of("print(1, \"a\", true, nil); println(); println(2.5, {});"), "1 a true nil\n2.5 <table>\n");
    assert_eq!(output_of("func f(): { } end print(f, print);"), "<function> <builtin: print>");
    assert_eq!(global_after("var x = print(1);", "x"), Some(Value::Nil));
}

#[test]
fn print_prints_each_argument_as_soon_as_it_is_computed() {
    let program = parse_ok("func g(): { print(\"G\"); return 2; } end print(1, g(), nope);");
    let mut interp = Interpreter::new(Native);
    assert!(interp.eval_program(&program).is_err());
    assert_eq!(interp.take_output(), "1 G2 ");
}

#[test]
fn take_output_forgets_what_it_handed_out() {
    let program = parse_ok("print(\"a\");");
    let mut interp = Interpreter::new(Native);
    interp.eval_program(&program).expect("runs");
    assert_eq!(interp.take_output(), "a");
    assert_eq!(interp.take_output(), "");
}

#[test]
fn builtins_are_bound_at_the_root() {
    let interp: Interpreter<'static, Native> = Interpreter::new(Native);
    for name in [
        "print", "println", "type", "len", "str", "int", "float", "abs", "min", "max", "floor",
        "ceil", "round", "sqrt", "pow", "substring", "contains", "toUpper", "toLower",
    ] {
        assert_eq!(interp.get_global(name), Some(Value::BuiltinFunction(name.to_string())));
    }
    assert_eq!(interp.get_global("nothing"), None);
}

#[test]
fn unknown_builtin_tag_fails() {
    let program: &'static Program = Box::leak(Box::new(parse_ok("var x = 1;")));
    let mut interp = Interpreter::new(Native);
    interp.eval_program(program).expect("runs");
    let args: &'static Vec<Expr> = Box::leak(Box::new(vec![]));
    let e = interp.call_builtin("nope", args, 10).unwrap_err();
    assert_eq!(e.kind, ErrorKind::UnknownBuiltin);
    assert_eq!(e.message, "unknown built-in function: nope");
}

#[test]
fn eval_expr_and_eval_call_are_usable_alone() {
    let e: &'static Expr = Box::leak(Box::new(Expr::Call {
        callee: Box::new(Expr::Ident("max".to_string())),
        args: vec![Expr::Literal(Literal::Int(3)), Expr::Literal(Literal::Int(8))],
    }));
    let mut interp = Interpreter::new(Native);
    assert_eq!(interp.eval_expr(e, 5), Ok(Value::Int(8)));
    assert_eq!(interp.eval_call(e, 5), Ok(Value::Int(8)));
}

#[test]
fn float_literal_is_read_by_the_host() {
    assert_eq!(global_after("var x = 3.25;", "x"), Some(float(3.25)));
    assert_eq!(global_after("var x = 7.;", "x"), Some(float(7.0)));
}

#[test]
fn value_clone_and_table_api() {
    let mut t = Table::new();
    assert_eq!(t.len(), 0);
    t.insert("a".to_string(), Value::Int(1));
    t.insert("b".to_string(), string("x"));
    t.insert("a".to_string(), Value::Int(2));
    assert_eq!(t.len(), 2);
    assert_eq!(t.get("a"), Some(&Value::Int(2)));
    assert_eq!(t.get("c"), None);
    let v = Value::Table(t);
    assert_eq!(v.clone(), v);
    assert_eq!(v.duplicate(), v);
}

#[test]
fn runtime_error_text() {
    let e = RuntimeError::new(ErrorKind::Type, "bad");
    assert_eq!(e.describe(), "bad");
    let e = RuntimeError::with_line(ErrorKind::Type, "bad", 12);
    assert_eq!(e.line, Some(12));
    assert_eq!(e.describe(), "Line 12: bad");
}
