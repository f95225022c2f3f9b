use arcscript::ast::{
    BinaryOp, Expr, Literal, ObjectMember, Program, Stmt, TableField, UnaryOp,
};
use arcscript::lexer::{tokenize, Lexer, Token, TokenKind};
use arcscript::parser::{parse, ParseError, Parser};

fn parse_ok(src: &str) -> Program {
    match parse(src) {
        Ok(p) => p,
        Err(errors) => panic!("parse failed: {:?}", errors),
    }
}

fn parse_err(src: &str) -> Vec<ParseError> {
    match parse(src) {
        Ok(p) => panic!("parse succeeded: {:?}", p),
        Err(errors) => errors,
    }
}

fn num(i: i64) -> Expr {
    Expr::Literal(Literal::Int(i))
}

fn ident(name: &str) -> Expr {
    Expr::Ident(name.to_string())
}

fn bin(left: Expr, op: BinaryOp, right: Expr) -> Expr {
    Expr::Binary { left: Box::new(left), op, right: Box::new(right) }
}

fn expr_of(src: &str) -> Expr {
    let mut program = parse_ok(src);
    assert_eq!(program.body.len(), 1);
    match program.body.remove(0) {
        Stmt::Expr(e) => e,
        other => panic!("not an expression statement: {:?}", other),
    }
}

#[test]
fn test_parse_error_recovery() {
    let src = r#"
            var a = 1;
            func bad( {   // error
            var b = 2;
            var c = 3;
        "#;
    let lexer = Lexer::new(src);
    let mut parser = Parser::new(lexer);
    let res = parser.parse_program();
    assert!(res.is_err());
    let errs = res.err().unwrap();
    assert!(errs.len() >= 1);
}

#[test]
fn bad_function_head_gives_an_error() {
    let errs = parse_err("func bad( { var b = 2; var c = 3;");
    assert_eq!(errs.len(), 1);
    assert_eq!(errs[0].message, "expected parameter name");
    assert_eq!((errs[0].line, errs[0].column), (1, 11));
}

#[test]
fn several_errors_are_reported_from_one_pass() {
    let errs = parse_err("var = 1;\nvar y = ;\nvar z = 3;");
    assert_eq!(errs.len(), 2);
    assert_eq!(errs[0].message, "expected identifier after 'var'");
    assert_eq!(errs[0].line, 1);
    assert_eq!(errs[1].message, "unexpected token in primary expression: Semicolon");
    assert_eq!(errs[1].line, 2);
}

#[test]
fn errors_inside_a_block_are_set_aside() {
    let errs = parse_err("{ var = 1; var ok = 2; var = 3; }");
    assert_eq!(errs.len(), 2);
}

#[test]
fn same_source_parses_to_equal_trees() {
    let src = "var x = 1 + 2 * 3; func f(a): { return a; } end var t = {k: 1, 2};";
    assert_eq!(parse(src), parse(src));
    let bad = "var = ; func (";
    assert_eq!(parse(bad), parse(bad));
}

#[test]
fn var_declaration() {
    let program = parse_ok("var x = 10;");
    assert_eq!(program.body, vec![Stmt::VarDecl { name: "x".to_string(), init: num(10) }]);
}

#[test]
fn var_declaration_with_type_and_without_semicolon() {
    let program = parse_ok("var x: int = 10 var y = 2");
    assert_eq!(
        program.body,
        vec![
            Stmt::VarDecl { name: "x".to_string(), init: num(10) },
            Stmt::VarDecl { name: "y".to_string(), init: num(2) }
        ]
    );
}

#[test]
fn multiplication_binds_tighter_than_addition() {
    assert_eq!(
        expr_of("1 + 2 * 3"),
        bin(num(1), BinaryOp::Add, bin(num(2), BinaryOp::Mul, num(3)))
    );
}

#[test]
fn binary_operators_are_left_associative() {
    assert_eq!(
        expr_of("1 - 2 - 3"),
        bin(bin(num(1), BinaryOp::Sub, num(2)), BinaryOp::Sub, num(3))
    );
    assert_eq!(
        expr_of("8 / 4 / 2"),
        bin(bin(num(8), BinaryOp::Div, num(4)), BinaryOp::Div, num(2))
    );
}

#[test]
fn precedence_from_or_down_to_comparison() {
    // a or b and c == d < e
    assert_eq!(
        expr_of("a or b and c == d < e"),
        bin(
            ident("a"),
            BinaryOp::Or,
            bin(
                ident("b"),
                BinaryOp::And,
                bin(ident("c"), BinaryOp::Equal, bin(ident("d"), BinaryOp::Less, ident("e")))
            )
        )
    );
}

#[test]
fn comparison_and_equality_operators() {
    assert_eq!(expr_of("a <= b"), bin(ident("a"), BinaryOp::LessEqual, ident("b")));
    assert_eq!(expr_of("a > b"), bin(ident("a"), BinaryOp::Greater, ident("b")));
    assert_eq!(expr_of("a >= b"), bin(ident("a"), BinaryOp::GreaterEqual, ident("b")));
    assert_eq!(expr_of("a != b"), bin(ident("a"), BinaryOp::NotEqual, ident("b")));
}

#[test]
fn parentheses_group() {
    assert_eq!(
        expr_of("(1 + 2) * 3"),
        bin(bin(num(1), BinaryOp::Add, num(2)), BinaryOp::Mul, num(3))
    );
}

#[test]
fn unary_operators() {
    assert_eq!(
        expr_of("-x"),
        Expr::Unary { op: UnaryOp::Negate, expr: Box::new(ident("x")) }
    );
    assert_eq!(
        expr_of("not !x"),
        Expr::Unary {
            op: UnaryOp::Not,
            expr: Box::new(Expr::Unary { op: UnaryOp::Not, expr: Box::new(ident("x")) })
        }
    );
}

#[test]
fn literals() {
    assert_eq!(expr_of("true"), Expr::Literal(Literal::Bool(true)));
    assert_eq!(expr_of("false"), Expr::Literal(Literal::Bool(false)));
    assert_eq!(expr_of("nil"), Expr::Literal(Literal::Nil));
    assert_eq!(expr_of("\"hi\""), Expr::Literal(Literal::String("hi".to_string())));
    assert_eq!(expr_of("2.5"), Expr::Literal(Literal::Float("2.5".to_string())));
    assert_eq!(expr_of("9223372036854775807"), num(i64::MAX));
}

#[test]
fn integer_literal_that_does_not_fit_is_zero() {
    assert_eq!(expr_of("9223372036854775808"), num(0));
    assert_eq!(expr_of("99999999999999999999999999"), num(0));
}

#[test]
fn postfix_chain_of_call_member_and_index() {
    assert_eq!(
        expr_of("f(1, x).name[\"k\"](2)"),
        Expr::Call {
            callee: Box::new(Expr::Index {
                object: Box::new(Expr::Member {
                    object: Box::new(Expr::Call {
                        callee: Box::new(ident("f")),
                        args: vec![num(1), ident("x")]
                    }),
                    field: "name".to_string()
                }),
                index: Box::new(Expr::Literal(Literal::String("k".to_string())))
            }),
            args: vec![num(2)]
        }
    );
}

#[test]
fn call_without_arguments() {
    assert_eq!(expr_of("f()"), Expr::Call { callee: Box::new(ident("f")), args: vec![] });
}

#[test]
fn table_literal_fields() {
    let program = parse_ok("var t = {x: 10, y, 3 + 4, };");
    assert_eq!(
        program.body,
        vec![Stmt::VarDecl {
            name: "t".to_string(),
            init: Expr::TableLiteral(vec![
                TableField::KeyValue { key: "x".to_string(), value: num(10) },
                TableField::Value(ident("y")),
                TableField::Value(bin(num(3), BinaryOp::Add, num(4))),
            ])
        }]
    );
}

#[test]
fn empty_table_literal() {
    let program = parse_ok("var t = {};");
    assert_eq!(
        program.body,
        vec![Stmt::VarDecl { name: "t".to_string(), init: Expr::TableLiteral(vec![]) }]
    );
}

#[test]
fn if_with_elif_and_else() {
    let program =
        parse_ok("if a then { x; } elif b then { y; } elif c then { z; } else { w; } end");
    match &program.body[0] {
        Stmt::If { condition, then_branch, elif_branches, else_branch } => {
            assert_eq!(*condition, ident("a"));
            assert_eq!(**then_branch, Stmt::Block(vec![Stmt::Expr(ident("x"))]));
            assert_eq!(elif_branches.len(), 2);
            assert_eq!(elif_branches[0].0, ident("b"));
            assert_eq!(elif_branches[1].1, Stmt::Block(vec![Stmt::Expr(ident("z"))]));
            assert_eq!(
                *else_branch,
                Some(Box::new(Stmt::Block(vec![Stmt::Expr(ident("w"))])))
            );
        }
        other => panic!("not an if: {:?}", other),
    }
}

#[test]
fn if_without_braces() {
    let program = parse_ok("if a then x; y; else z; end");
    match &program.body[0] {
        Stmt::If { then_branch, elif_branches, else_branch, .. } => {
            assert_eq!(
                **then_branch,
                Stmt::Block(vec![Stmt::Expr(ident("x")), Stmt::Expr(ident("y"))])
            );
            assert!(elif_branches.is_empty());
            assert_eq!(
                *else_branch,
                Some(Box::new(Stmt::Block(vec![Stmt::Expr(ident("z"))])))
            );
        }
        other => panic!("not an if: {:?}", other),
    }
}

#[test]
fn while_statement() {
    let program = parse_ok("while x < 3 do { break; continue; } end");
    assert_eq!(
        program.body,
        vec![Stmt::While {
            condition: bin(ident("x"), BinaryOp::Less, num(3)),
            body: Box::new(Stmt::Block(vec![Stmt::Break, Stmt::Continue]))
        }]
    );
}

#[test]
fn for_statement_with_and_without_step() {
    let program = parse_ok("for i = 1, 10 do { x; } end for j = 10, 1, -1 do y; end");
    assert_eq!(
        program.body,
        vec![
            Stmt::For {
                var_name: "i".to_string(),
                start: num(1),
                end: num(10),
                step: None,
                body: Box::new(Stmt::Block(vec![Stmt::Expr(ident("x"))]))
            },
            Stmt::For {
                var_name: "j".to_string(),
                start: num(10),
                end: num(1),
                step: Some(Expr::Unary { op: UnaryOp::Negate, expr: Box::new(num(1)) }),
                body: Box::new(Stmt::Block(vec![Stmt::Expr(ident("y"))]))
            }
        ]
    );
}

#[test]
fn return_with_and_without_value() {
    let program = parse_ok("return; return 1; return x");
    assert_eq!(
        program.body,
        vec![Stmt::Return(None), Stmt::Return(Some(num(1))), Stmt::Return(Some(ident("x")))]
    );
}

#[test]
fn function_declaration() {
    let program = parse_ok("func add(a, b): { return a + b; } end");
    match &program.body[0] {
        Stmt::FuncDecl(f) => {
            assert_eq!(f.name, "add");
            let names: Vec<&str> = f.params.iter().map(|p| p.name.as_str()).collect();
            assert_eq!(names, vec!["a", "b"]);
            assert_eq!(
                *f.body,
                Stmt::Block(vec![Stmt::Return(Some(bin(
                    ident("a"),
                    BinaryOp::Add,
                    ident("b")
                )))])
            );
        }
        other => panic!("not a function: {:?}", other),
    }
}

#[test]
fn function_declaration_with_result_type_and_without_braces() {
    let program = parse_ok("func f(): int: return 1; end func g(): return 2; end");
    assert_eq!(program.body.len(), 2);
    match &program.body[0] {
        Stmt::FuncDecl(f) => {
            assert_eq!(f.name, "f");
            assert_eq!(*f.body, Stmt::Block(vec![Stmt::Return(Some(num(1)))]));
        }
        other => panic!("not a function: {:?}", other),
    }
    match &program.body[1] {
        Stmt::FuncDecl(f) => {
            assert_eq!(f.name, "g");
            assert_eq!(*f.body, Stmt::Block(vec![Stmt::Return(Some(num(2)))]));
        }
        other => panic!("not a function: {:?}", other),
    }
}

#[test]
fn nested_functions_without_braces() {
    let program =
        parse_ok("var x=10; func f(): func g(n): return x+n; end return g; end var r = f()(5);");
    assert_eq!(program.body.len(), 3);
}

#[test]
fn object_declaration_with_var_method_and_event() {
    let program = parse_ok(
        "object Player: { var hp = 100; func heal(n): { return n; } end on hit(d): { x; } end } end",
    );
    match &program.body[0] {
        Stmt::ObjectDecl(obj) => {
            assert_eq!(obj.name, "Player");
            assert_eq!(obj.members.len(), 3);
            assert_eq!(
                obj.members[0],
                ObjectMember::Var(Stmt::VarDecl { name: "hp".to_string(), init: num(100) })
            );
            match &obj.members[1] {
                ObjectMember::Method(f) => assert_eq!(f.name, "heal"),
                other => panic!("not a method: {:?}", other),
            }
            match &obj.members[2] {
                ObjectMember::Event(e) => {
                    assert_eq!(e.name, "hit");
                    assert_eq!(e.params.len(), 1);
                }
                other => panic!("not an event: {:?}", other),
            }
        }
        other => panic!("not an object: {:?}", other),
    }
}

#[test]
fn object_body_takes_only_members() {
    let errs = parse_err("object O: { x = 1; } end");
    assert_eq!(errs[0].message, "expected 'var', 'func', or 'on' in object body");
}

#[test]
fn block_statement() {
    let program = parse_ok("{ var x = 2; }");
    assert_eq!(
        program.body,
        vec![Stmt::Block(vec![Stmt::VarDecl { name: "x".to_string(), init: num(2) }])]
    );
}

#[test]
fn missing_token_messages_name_the_kind() {
    let errs = parse_err("var x 1;");
    assert_eq!(errs[0].message, "expected Equal: expected '=' in var declaration");
    let errs = parse_err("(1 + 2;");
    assert_eq!(errs[0].message, "expected RParen: expected ')' after expression");
    let errs = parse_err("if x { y; } end");
    assert_eq!(errs[0].message, "expected KwThen: expected 'then' after if condition");
    let errs = parse_err("while x do { y; }");
    assert_eq!(errs[0].message, "expected KwEnd: expected 'end' after while statement");
    let errs = parse_err("a.1");
    assert_eq!(errs[0].message, "expected field name after '.'");
}

#[test]
fn unknown_character_is_a_parse_error_at_its_place() {
    let errs = parse_err("var x = 1;\nvar y = #;");
    assert_eq!(errs.len(), 1);
    assert_eq!(errs[0].message, "unexpected token in primary expression: Invalid");
    assert_eq!((errs[0].line, errs[0].column), (2, 9));
}

#[test]
fn percent_is_no_operator_of_the_grammar() {
    let errs = parse_err("var x = 1 % 2;");
    assert!(errs.len() >= 1);
}

#[test]
fn parse_program_twice_hands_errors_out_once() {
    let mut parser = Parser::new(Lexer::new("var = 1;"));
    assert!(parser.parse_program().is_err());
    let again = parser.parse_program();
    assert_eq!(again, Ok(Program { body: vec![] }));
}

#[test]
fn errors_of_a_block_can_be_read_from_the_parser() {
    let mut parser = Parser::new(Lexer::new("{ var = 1; var b = 2; }"));
    assert!(parser.errors().is_empty());
    let stmt = parser.parse_statement().expect("the block itself is well formed");
    assert_eq!(
        stmt,
        Stmt::Block(vec![Stmt::VarDecl { name: "b".to_string(), init: num(2) }])
    );
    assert_eq!(parser.errors().len(), 1);
    assert_eq!(parser.errors()[0].message, "expected identifier after 'var'");
}

#[test]
fn parser_error_is_at_the_current_token() {
    let parser = Parser::new(Lexer::new("\n  foo"));
    let e = parser.error("boom");
    assert_eq!(e, ParseError::new(2, 3, "boom".to_string()));
}

#[test]
fn parse_expression_and_statement_are_usable_alone() {
    let mut parser = Parser::new(Lexer::new("1 + 2; var x = 3;"));
    assert_eq!(parser.parse_expression(), Ok(bin(num(1), BinaryOp::Add, num(2))));
    let mut parser = Parser::new(Lexer::new("var x = 3;"));
    assert_eq!(
        parser.parse_statement(),
        Ok(Stmt::VarDecl { name: "x".to_string(), init: num(3) })
    );
    let mut parser = Parser::new(Lexer::new("1 * 2 + 3"));
    assert_eq!(parser.parse_binary(5), Ok(bin(num(1), BinaryOp::Mul, num(2))));
}

#[test]
fn parser_from_tokens_wants_one_eof_at_the_end() {
    let tokens = tokenize("1 + 2").expect("lexes");
    let mut parser = Parser::from_tokens(tokens).expect("tokens end with Eof");
    assert_eq!(parser.parse_expression(), Ok(bin(num(1), BinaryOp::Add, num(2))));

    assert!(Parser::from_tokens(vec![]).is_none());
    let mut tokens = tokenize("1 + 2").expect("lexes");
    tokens.pop();
    assert!(Parser::from_tokens(tokens).is_none());
    let eof = Token { kind: TokenKind::Eof, lexeme: String::new(), line: 1, column: 1 };
    assert!(Parser::from_tokens(vec![eof.clone(), eof.clone()]).is_none());
    assert!(Parser::from_tokens(vec![eof]).is_some());
}

#[test]
fn source_is_read_to_its_end_whatever_the_errors() {
    let mut parser = Parser::new(Lexer::new(") ) var x = 1; ( ( func"));
    let errors = parser.parse_program().expect_err("is no program");
    assert!(errors.len() >= 2);
    assert_eq!(parser.parse_program(), Ok(Program { body: vec![] }));
}
