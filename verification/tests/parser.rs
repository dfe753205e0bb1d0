#![allow(non_snake_case)]

use prolang::ast::{Expression, ForLoopCondition, Program, Statement};
use prolang::lexer::Lexer;
use prolang::parser::Parser;
use prolang::token::{Position, TokenType};

enum Lit<'a> {
    Int(i64),
    Name(&'a str),
    Bool(bool),
}

fn parse(input: &str) -> (Program, Vec<String>) {
    let l = Lexer::new(input.to_string());
    let mut p = Parser::new(l);
    let program = p.parse_program();
    let errors = p.errors().clone();
    (program, errors)
}

fn parse_ok(input: &str) -> Program {
    let l = Lexer::new(String::from(input));
    let mut p = Parser::new(l);
    let program = p.parse_program();
    assert_eq!(check_parser_errors(&p), false);
    program
}

fn check_parser_errors(p: &Parser) -> bool {
    let errs: &Vec<String> = p.errors();
    if errs.len() == 0 {
        return false;
    }
    println!("parser has errors: {}", errs.len());
    for err in errs {
        println!("parser error: {}", err)
    }
    true
}

fn test_int_literal(il: &Expression, value: i64) {
    let integ = match il {
        Expression::IntegerLiteral(i) => i,
        _ => panic!("il is not IntergerLiteral"),
    };
    assert_eq!(integ.value, value, "integ.value not {}. got={}", value, integ.value);
    assert_eq!(
        integ.token_literal(),
        value.to_string(),
        "integ.token_literal not {}. got={}",
        value,
        integ.token_literal()
    )
}

fn test_identifier(il: &Expression, value: &str) {
    let ident = match il {
        Expression::Identifier(i) => i,
        _ => panic!("il is Identifier"),
    };
    assert_eq!(ident.name, value, "ident.value not {}. got={}", value, ident.name);
    assert_eq!(
        ident.token_literal(),
        value.to_string(),
        "ident.token_literal not {}. got={}",
        value,
        ident.token_literal()
    )
}

fn test_boolean_literal(il: &Expression, value: bool) {
    let bo = match il {
        Expression::BooleanLiteral(b) => b,
        _ => panic!("il is Boolean"),
    };
    assert_eq!(bo.value, value, "bo.value not {}. got={}", bo.value, value);
    assert_eq!(
        bo.token_literal(),
        value.to_string(),
        "bo.value not {}. got={}",
        bo.value,
        value
    );
}

fn test_literal_expression(exp: &Expression, expected: &Lit) {
    match expected {
        Lit::Name(value) => test_identifier(exp, value),
        Lit::Int(value) => test_int_literal(exp, *value),
        Lit::Bool(value) => test_boolean_literal(exp, *value),
    }
}

fn test_infix_expression(exp: &Expression, left: &Lit, operator: &str, right: &Lit) {
    let op_exp = match exp {
        Expression::InfixExpression(e) => e,
        _ => panic!("exp is OperatorExpression"),
    };
    test_literal_expression(&op_exp.left, left);
    assert_eq!(
        op_exp.operator, operator,
        "exp.Operator is not {:?}. got={:?}",
        operator, op_exp.operator
    );
    test_literal_expression(&op_exp.right, right);
}

fn check_let(s: &Statement, name: &str) {
    assert_eq!(
        s.token_literal(),
        "let",
        "s.token_literal not 'let' got={}",
        s.token_literal()
    );
    let let_stmt = match s {
        Statement::LetStatement(l) => l,
        _ => panic!("s is not a let statement"),
    };
    assert_eq!(
        let_stmt.name.name, name,
        "LetStmt.Name.Value not '{}'. got={}",
        name, let_stmt.name.name
    );
    assert_eq!(
        let_stmt.name.token_literal(),
        name,
        "LetStmt.Name.Value not '{}'. got={}",
        name,
        let_stmt.name.name
    )
}

fn only_expression(program: &Program) -> &Expression {
    assert_eq!(
        program.statements.len(),
        1,
        "program.statements does not contain 1 statements. got={}",
        program.statements.len()
    );
    match program.statements.get(0).expect("expected statemnt[0] to have a value") {
        Statement::ExpressionStatement(s) => &s.value,
        _ => panic!("program.Statements[0] is ast.ExpressionStatement"),
    }
}

fn check_let_statement() {
    let program = parse_ok(
        "
        let x = 5;
        let y = 10;
        let foobar = 838383;
        ",
    );
    assert_eq!(
        program.statements.len(),
        3,
        "program.statements does not contain 3 statements. got={}",
        program.statements.len()
    );
    let tests = ["x", "y", "foobar"];
    let values = [5, 10, 838383];
    for (i, expected_identifier) in tests.iter().enumerate() {
        let stmt = program.statements.get(i).unwrap();
        check_let(stmt, expected_identifier);
        match stmt {
            Statement::LetStatement(l) => test_int_literal(&l.value, values[i]),
            _ => unreachable!(),
        }
    }
}

#[test]
fn test_let_statement() {
    check_let_statement();
}

#[test]
fn test_Let_statement() {
    check_let_statement();
    let program = parse_ok("let x = 5; let y = 10; let foobar = 838383;");
    assert_eq!(program.statements.len(), 3);
    assert_eq!(program.string(), "let x = 5;let y = 10;let foobar = 838383;");
}

#[test]
fn test_Let_statements() {
    let tests = [
        ("let x = 5;", "x", Lit::Int(5)),
        ("let y = true;", "y", Lit::Bool(true)),
        ("let foobar = y;", "foobar", Lit::Name("y")),
    ];
    for (input, expected_identifier, expected_value) in tests {
        let program = parse_ok(input);
        assert_eq!(
            program.statements.len(),
            1,
            "program.statements does not contain 1 statements. got={}",
            program.statements.len()
        );
        let stmt = program.statements.get(0).unwrap();
        check_let(stmt, expected_identifier);
        match stmt {
            Statement::LetStatement(l) => test_literal_expression(&l.value, &expected_value),
            _ => unreachable!(),
        }
    }
}

fn check_return_statement() {
    let program = parse_ok(
        "
        return 5;
        return 10;
        return 993322;
        ",
    );
    assert_eq!(
        program.statements.len(),
        3,
        "program.statements does not contain 3 statements. got={}",
        program.statements.len()
    );
    let values = [5, 10, 993322];
    for (i, stmt) in program.statements.iter().enumerate() {
        assert_eq!(
            stmt.token_literal(),
            "return",
            "return_stmt.token_literal not 'return', got {}",
            stmt.token_literal()
        );
        match stmt {
            Statement::ReturnStatement(r) => test_int_literal(r.value.as_ref().unwrap(), values[i]),
            _ => panic!("not a return statement"),
        }
    }
}

#[test]
fn test_return_statement() {
    check_return_statement();
}

#[test]
fn test_Return_statement() {
    check_return_statement();
}

fn check_identifier_expression() {
    let program = parse_ok("foobar;");
    let exp = only_expression(&program);
    let ident = match exp {
        Expression::Identifier(ident) => ident,
        _ => panic!("exp is not Identifier"),
    };
    assert_eq!(ident.name, "foobar", "ident.value not {}. got={}", "foobar", ident.name);
    assert_eq!(
        ident.token_literal(),
        "foobar",
        "ident.token_literal not {}. got={}",
        "foobar",
        ident.token_literal()
    )
}

#[test]
fn test_identifier_expression() {
    check_identifier_expression();
}

#[test]
fn test_IdentIfier_expression() {
    check_identifier_expression();
}

fn check_integer_literal_expression() {
    let program = parse_ok("5;");
    let exp = only_expression(&program);
    let lit = match exp {
        Expression::IntegerLiteral(lit) => lit,
        _ => panic!("exp is not Identifier"),
    };
    assert_eq!(lit.value, 5, "ident.value not {}. got={}", "foobar", lit.value);
    assert_eq!(
        lit.token_literal(),
        "5",
        "ident.token_literal not {}. got={}",
        "foobar",
        lit.token_literal()
    )
}

#[test]
fn test_integer_literal_expression() {
    check_integer_literal_expression();
}

#[test]
fn test_Integer_literal_expression() {
    check_integer_literal_expression();
}

#[test]
fn test_If_expression() {
    let program = parse_ok("if (x < y) { x } else {}");
    let exp = only_expression(&program);
    let ifexp = match exp {
        Expression::IfExpression(ifexp) => ifexp,
        _ => panic!("exp is not if expression"),
    };
    test_infix_expression(&ifexp.condition, &Lit::Name("x"), "<", &Lit::Name("y"));
    assert_eq!(
        ifexp.consequence.statements.len(),
        1,
        "consequence is not 1 statements. got={}",
        ifexp.consequence.statements.len()
    );
    let consequence = match ifexp
        .consequence
        .statements
        .get(0)
        .expect("expected statemnt[0] to have a value")
    {
        Statement::ExpressionStatement(s) => s,
        _ => panic!("statements[0] is ast.ExpressionStatement"),
    };
    test_identifier(&consequence.value, "x");
    assert_eq!(ifexp.alternative.is_some(), true, "alternative was not some.",);
    assert_eq!(ifexp.alternative.as_ref().unwrap().statements.len(), 0);
}

fn check_for_body(stmt: &Statement) -> &ForLoopCondition {
    let for_loop = match stmt {
        Statement::ForLoopStatement(f) => f,
        _ => panic!("program.Statements[0] is ast.ForLoopExpression"),
    };
    match for_loop.body.statements.get(0).unwrap() {
        Statement::ExpressionStatement(body_stmt) => {
            test_infix_expression(&body_stmt.value, &Lit::Name("x"), "+", &Lit::Name("y"))
        }
        _ => panic!("for-loop body stmt is not ast.ExpressionStatement"),
    }
    assert_eq!(for_loop.body.statements.len(), 1);
    &for_loop.condition
}

#[test]
fn test_For_expression_type_loop_parsIng() {
    let program = parse_ok("for { x + y; }");
    assert_eq!(
        program.statements.len(),
        1,
        "program.statements does not contain 1 statements. got={}",
        program.statements.len()
    );
    match check_for_body(program.statements.get(0).unwrap()) {
        ForLoopCondition::Bare => (),
        _ => panic!(),
    }
}

#[test]
fn test_For_expression_type_For_parsIng() {
    let program = parse_ok("for (x < y) { x + y; }");
    assert_eq!(
        program.statements.len(),
        1,
        "program.statements does not contain 1 statements. got={}",
        program.statements.len()
    );
    match check_for_body(program.statements.get(0).unwrap()) {
        ForLoopCondition::While(condition) => {
            test_infix_expression(condition, &Lit::Name("x"), "<", &Lit::Name("y"))
        }
        _ => panic!(),
    }
}

#[test]
fn test_For_expression_type_ForIn_parsIng() {
    let program = parse_ok("for (i in 0..10) { x + y; }");
    assert_eq!(
        program.statements.len(),
        1,
        "program.statements does not contain 1 statements. got={}",
        program.statements.len()
    );
    match check_for_body(program.statements.get(0).unwrap()) {
        ForLoopCondition::ForIn(condition) => {
            assert_eq!(condition.variable.name, "i");
            assert_eq!(condition.variable.token_literal(), "i");
            assert_eq!(condition.token_literal(), "in");
            match condition.source.as_ref() {
                Expression::RangeExpression(iter) => {
                    test_literal_expression(&iter.start, &Lit::Int(0));
                    test_literal_expression(&iter.end, &Lit::Int(10));
                }
                _ => panic!("conditional not iteraltor literal"),
            }
        }
        _ => panic!(),
    }
}

#[test]
fn test_Function_literal_parsIng() {
    let program = parse_ok("fn(x, y) { x + y; }");
    let exp = only_expression(&program);
    let fn_literal = match exp {
        Expression::FunctionLiteral(f) => f,
        _ => panic!("exp is not if expression"),
    };
    assert_eq!(
        fn_literal.parameters.len(),
        2,
        "function literal parameters wrong. want 2, got={}",
        fn_literal.parameters.len()
    );
    assert_eq!(fn_literal.parameters[0].name, "x");
    assert_eq!(fn_literal.parameters[0].token_literal(), "x");
    assert_eq!(fn_literal.parameters[1].name, "y");
    assert_eq!(fn_literal.parameters[1].token_literal(), "y");
    match fn_literal.body.statements.get(0).unwrap() {
        Statement::ExpressionStatement(body_stmt) => {
            test_infix_expression(&body_stmt.value, &Lit::Name("x"), "+", &Lit::Name("y"))
        }
        _ => panic!("function body stmt is not ast.ExpressionStatement"),
    }
}

#[test]
fn test_Function_parameter_parsIng() {
    let tests: [(&str, Vec<&str>); 3] = [
        ("fn() {};", vec![]),
        ("fn(x) {};", vec!["x"]),
        ("fn(x, y, z) {};", vec!["x", "y", "z"]),
    ];
    for (input, expected_params) in tests {
        let program = parse_ok(input);
        let exp = only_expression(&program);
        let fn_literal = match exp {
            Expression::FunctionLiteral(f) => f,
            _ => panic!("exp is not if expression"),
        };
        assert_eq!(
            fn_literal.parameters.len(),
            expected_params.len(),
            "function literal parameters wrong. want {}, got={}",
            expected_params.len(),
            fn_literal.parameters.len()
        );
        for (i, ident) in expected_params.iter().enumerate() {
            assert_eq!(fn_literal.parameters[i].name, *ident);
            assert_eq!(fn_literal.parameters[i].token_literal(), *ident);
        }
    }
}

#[test]
fn test_call_expression_parsIng() {
    let program = parse_ok("add(1, 2 * 3, 4 + 5)");
    let exp = match only_expression(&program) {
        Expression::CallExpression(c) => c,
        _ => panic!("exp is not if expression"),
    };
    test_identifier(&exp.callee, "add");
    assert_eq!(exp.arguments.len(), 3, "wrong legnth of arg. go={}", exp.arguments.len());
    test_literal_expression(exp.arguments.get(0).unwrap(), &Lit::Int(1));
    test_infix_expression(exp.arguments.get(1).unwrap(), &Lit::Int(2), "*", &Lit::Int(3));
    test_infix_expression(exp.arguments.get(2).unwrap(), &Lit::Int(4), "+", &Lit::Int(5));
}

fn check_prefix_expression() {
    let tests = [
        ("!5", "!", Lit::Int(5)),
        ("-15", "-", Lit::Int(15)),
        ("!true", "!", Lit::Bool(true)),
        ("!false", "!", Lit::Bool(false)),
    ];
    for (input, operator, value) in tests {
        let program = parse_ok(input);
        let exp = match only_expression(&program) {
            Expression::PrefixExpression(e) => e,
            _ => panic!("exp is not Identifier"),
        };
        assert_eq!(
            exp.operator, operator,
            "ident.value not {}. got={}",
            operator, exp.operator
        );
        test_literal_expression(&exp.right, &value);
    }
}

#[test]
fn test_parsing_prefix_expression() {
    check_prefix_expression();
}

#[test]
fn test_parsIng_prefix_expression() {
    check_prefix_expression();
}

fn check_infix_expression() {
    let tests = [
        ("5 + 5;", Lit::Int(5), "+", Lit::Int(5)),
        ("5 - 5;", Lit::Int(5), "-", Lit::Int(5)),
        ("5 * 5;", Lit::Int(5), "*", Lit::Int(5)),
        ("5 / 5;", Lit::Int(5), "/", Lit::Int(5)),
        ("5 > 5;", Lit::Int(5), ">", Lit::Int(5)),
        ("5 < 5;", Lit::Int(5), "<", Lit::Int(5)),
        ("5 == 5;", Lit::Int(5), "==", Lit::Int(5)),
        ("5 != 5;", Lit::Int(5), "!=", Lit::Int(5)),
        ("true == true;", Lit::Bool(true), "==", Lit::Bool(true)),
        ("true != false;", Lit::Bool(true), "!=", Lit::Bool(false)),
        ("false == false;", Lit::Bool(false), "==", Lit::Bool(false)),
    ];
    for (input, left_value, operator, right_value) in tests {
        let program = parse_ok(input);
        let exp = only_expression(&program);
        test_infix_expression(exp, &left_value, operator, &right_value);
    }
}

#[test]
fn test_parsing_infix_expression() {
    check_infix_expression();
}

#[test]
fn test_parsIng_Infix_expression() {
    check_infix_expression();
}

fn check_rendering(tests: &[(&str, &str)]) {
    for (input, expected) in tests {
        let l = Lexer::new(String::from(*input));
        let mut p = Parser::new(l);
        let program = p.parse_program();
        assert_eq!(check_parser_errors(&p), false);
        let actual = program.string();
        assert_eq!(actual, *expected, "expected={}, got={}", expected, actual)
    }
}

const PRECEDENCE_CASES: [(&str, &str); 22] = [
    ("true", "true"),
    ("false", "false"),
    ("3 > 5 == false", "((3 > 5) == false)"),
    ("3 < 5 == true", "((3 < 5) == true)"),
    ("-a * b", "((-a) * b)"),
    ("!-a", "(!(-a))"),
    ("a + b + c", "((a + b) + c)"),
    ("a + b - c", "((a + b) - c)"),
    ("a * b * c", "((a * b) * c)"),
    ("a * b / c", "((a * b) / c)"),
    ("a + b / c", "(a + (b / c))"),
    ("a + b * c + d / e - f", "(((a + (b * c)) + (d / e)) - f)"),
    ("3 + 4; -5 * 5", "(3 + 4)((-5) * 5)"),
    ("5 > 4 == 3 < 4", "((5 > 4) == (3 < 4))"),
    ("5 < 4 != 3 > 4", "((5 < 4) != (3 > 4))"),
    ("3 + 4 * 5 == 3 * 1 + 4 * 5", "((3 + (4 * 5)) == ((3 * 1) + (4 * 5)))"),
    ("3 + 4 * 5 == 3 * 1 + 4 * 5", "((3 + (4 * 5)) == ((3 * 1) + (4 * 5)))"),
    ("1 + (2 + 3) + 4", "((1 + (2 + 3)) + 4)"),
    ("(5 + 5) * 2", "((5 + 5) * 2)"),
    ("2 / (5 + 5)", "(2 / (5 + 5))"),
    ("-(5 + 5)", "(-(5 + 5))"),
    ("!(true == true)", "(!(true == true))"),
];

#[test]
fn test_operator_precedence_parsing() {
    check_rendering(&PRECEDENCE_CASES);
}

#[test]
fn test_operator_precedence_parsIng() {
    check_rendering(&PRECEDENCE_CASES);
    check_rendering(&[
        ("a + add(b * c) + d", "((a + add((b * c))) + d)"),
        (
            "add(a, b, 1, 2 * 3, 4 + 5, add(6, 7 * 8))",
            "add(a, b, 1, (2 * 3), (4 + 5), add(6, (7 * 8)))",
        ),
        ("add(a + b + c * d / f + g)", "add((((a + b) + ((c * d) / f)) + g))"),
    ]);
}

#[test]
fn more_forms_render_as_grouped() {
    check_rendering(&[
        ("a..b + 1", "a..(b + 1)"),
        ("1 + 2..3 * 4", "(1 + 2)..(3 * 4)"),
        ("a < b..c", "(a < b..c)"),
        ("-a(b)", "(-a(b))"),
        ("f(x)(y)", "f(x)(y)"),
        ("if (a) { b } else { c } + 1", "(ifa b else c + 1)"),
        ("fn(x) { x }(1)", "fn(x) x(1)"),
        ("let f = fn(a, b) { return a + b; };", "let f = fn(a, b) return (a + b);;"),
        ("return;", "return ;"),
        ("return; return 1", "return ;return 1;"),
        ("for { } ; x", "for x"),
        ("for (a == b) { c; d }", "for (a == b)cd"),
        ("for (i in xs) { i }", "for (i in xs)i"),
        ("if (x) { if (y) { z } }", "ifx ify z"),
        ("if (x < y) { z }", "if(x < y) z"),
    ]);
}

#[test]
fn an_empty_source_is_an_empty_program() {
    let (program, errors) = parse("");
    assert_eq!(program.statements.len(), 0);
    assert_eq!(errors.len(), 0);
    let (program, errors) = parse("  // nothing here\n /* nor here */ ");
    assert_eq!(program.statements.len(), 0);
    assert_eq!(errors.len(), 0);
}

#[test]
fn a_let_without_assign_is_reported_and_left_out() {
    let (program, errors) = parse("let x 5; let y = 10;");
    assert_eq!(
        errors,
        vec!["1:5 \u{2014} expected next token to be Assign, got IntegerLiteral instead".to_string()]
    );
    assert_eq!(program.statements.len(), 2);
    assert_eq!(program.string(), "5let y = 10;");
    match &program.statements[1] {
        Statement::LetStatement(l) => {
            assert_eq!(l.name.name, "y");
            test_int_literal(&l.value, 10);
        }
        _ => panic!("the statement after the malformed one is a let statement"),
    }
}

#[test]
fn a_let_without_a_name_is_reported() {
    let (program, errors) = parse("let = 5;");
    assert_eq!(
        errors,
        vec![
            "1:1 \u{2014} expected next token to be Identifier, got Assign instead".to_string(),
            "no prefix parse function for = found".to_string(),
        ]
    );
    assert_eq!(program.string(), "5");
}

#[test]
fn a_let_without_a_value_is_left_out() {
    let (program, errors) = parse("let x = ; y");
    assert_eq!(errors, vec!["no prefix parse function for ; found".to_string()]);
    assert_eq!(program.string(), "y");
}

#[test]
fn a_token_that_starts_no_expression_is_reported() {
    let (program, errors) = parse("+");
    assert_eq!(program.statements.len(), 0);
    assert_eq!(errors, vec!["no prefix parse function for + found".to_string()]);
    let (program, errors) = parse("@ a");
    assert_eq!(program.string(), "a");
    assert_eq!(errors, vec!["no prefix parse function for @ found".to_string()]);
    let (_, errors) = parse("1 +");
    assert_eq!(errors, vec!["no prefix parse function for  found".to_string()]);
}

#[test]
fn a_missing_parenthesis_is_reported() {
    let (program, errors) = parse("(1 + 2");
    assert_eq!(program.statements.len(), 0);
    assert_eq!(
        errors,
        vec!["1:6 \u{2014} expected next token to be RightParen, got EndOfInput instead".to_string()]
    );
    let (program, errors) = parse("add(1, 2");
    assert_eq!(program.statements.len(), 0);
    assert_eq!(
        errors,
        vec!["1:8 \u{2014} expected next token to be RightParen, got EndOfInput instead".to_string()]
    );
}

#[test]
fn a_failed_argument_fails_the_call() {
    let (program, errors) = parse("add(1, +)");
    assert_eq!(errors[0], "no prefix parse function for + found");
    assert!(program.statements.iter().all(|s| !matches!(
        s,
        Statement::ExpressionStatement(e) if matches!(e.value, Expression::CallExpression(_))
    )));
}

#[test]
fn if_requires_its_parentheses_and_braces() {
    let (program, errors) = parse("if x { y }");
    assert_eq!(
        errors[0],
        "1:1 \u{2014} expected next token to be LeftParen, got Identifier instead"
    );
    assert!(program.statements.len() >= 1);
    let (_, errors) = parse("if (x) y");
    assert_eq!(
        errors[0],
        "1:6 \u{2014} expected next token to be LeftBrace, got Identifier instead"
    );
    let (_, errors) = parse("if (x { y }");
    assert_eq!(
        errors[0],
        "1:5 \u{2014} expected next token to be RightParen, got LeftBrace instead"
    );
    let (_, errors) = parse("if (x) { y } else z");
    assert_eq!(
        errors[0],
        "1:14 \u{2014} expected next token to be LeftBrace, got Identifier instead"
    );
}

#[test]
fn function_parameters_are_names() {
    let (_, errors) = parse("fn(1) { }");
    assert_eq!(
        errors[0],
        "1:3 \u{2014} expected next token to be Identifier, got IntegerLiteral instead"
    );
    let (_, errors) = parse("fn(a, ) { }");
    assert_eq!(
        errors[0],
        "1:5 \u{2014} expected next token to be Identifier, got RightParen instead"
    );
    let (_, errors) = parse("fn(a b) { }");
    assert_eq!(
        errors[0],
        "1:4 \u{2014} expected next token to be RightParen, got Identifier instead"
    );
    let (_, errors) = parse("fn(a) b");
    assert_eq!(
        errors[0],
        "1:5 \u{2014} expected next token to be LeftBrace, got Identifier instead"
    );
    let (_, errors) = parse("fn a");
    assert_eq!(
        errors[0],
        "1:1 \u{2014} expected next token to be LeftParen, got Identifier instead"
    );
}

#[test]
fn a_for_head_is_a_comparison_or_an_in_clause() {
    let (program, errors) = parse("for (x) { y }");
    assert_eq!(
        errors[0],
        "1:6 \u{2014} expected next token to be In, got RightParen instead"
    );
    assert!(program.statements.iter().all(|s| !matches!(s, Statement::ForLoopStatement(_))));
    let (_, errors) = parse("for x { y }");
    assert_eq!(
        errors[0],
        "1:1 \u{2014} expected next token to be LeftParen, got Identifier instead"
    );
    let (_, errors) = parse("for (x < y { z }");
    assert_eq!(
        errors[0],
        "1:10 \u{2014} expected next token to be RightParen, got LeftBrace instead"
    );
    let (_, errors) = parse("for (x < y) z");
    assert_eq!(
        errors[0],
        "1:11 \u{2014} expected next token to be LeftBrace, got Identifier instead"
    );
    let (_, errors) = parse("for (i in xs { z }");
    assert_eq!(
        errors[0],
        "1:11 \u{2014} expected next token to be RightParen, got LeftBrace instead"
    );
}

#[test]
fn in_needs_a_name_before_it() {
    let (program, errors) = parse("for (5 in xs) { z }");
    assert_eq!(
        errors[0],
        "1:6 \u{2014} expected next token to be Identifier, got IntegerLiteral instead"
    );
    assert!(program.statements.iter().all(|s| !matches!(s, Statement::ForLoopStatement(_))));
}

#[test]
fn an_integer_too_large_is_reported() {
    let (program, errors) = parse("9223372036854775807");
    assert_eq!(errors.len(), 0);
    test_int_literal(only_expression(&program), i64::MAX);
    let (program, errors) = parse("9223372036854775808");
    assert_eq!(program.statements.len(), 0);
    assert_eq!(
        errors,
        vec!["no prefix parse function for 9223372036854775808 found".to_string()]
    );
    let (program, errors) = parse("00012");
    assert_eq!(errors.len(), 0);
    test_int_literal_value(only_expression(&program), 12);
}

fn test_int_literal_value(il: &Expression, value: i64) {
    match il {
        Expression::IntegerLiteral(i) => assert_eq!(i.value, value),
        _ => panic!("il is not IntergerLiteral"),
    }
}

#[test]
fn a_block_may_end_with_the_input() {
    let (program, errors) = parse("if (a) { b; c");
    assert_eq!(errors.len(), 0);
    assert_eq!(program.string(), "ifa bc");
}

#[test]
fn nodes_keep_their_tokens() {
    let program = parse_ok("let x = a +\n  b;");
    match &program.statements[0] {
        Statement::LetStatement(l) => {
            assert_eq!(l.token.token_type, TokenType::Let);
            assert_eq!(l.token.position, Position(1, 1));
            assert_eq!(l.name.token.position, Position(1, 5));
            match &l.value {
                Expression::InfixExpression(e) => {
                    assert_eq!(e.token.token_type, TokenType::Plus);
                    assert_eq!(e.token.position, Position(1, 11));
                    assert_eq!(e.right.token().position, Position(2, 3));
                }
                _ => panic!("the value is an infix expression"),
            }
        }
        _ => panic!("the statement is a let statement"),
    }
}

#[test]
fn parsing_twice_gives_the_same() {
    let source = "let x = 1 + ; for (a < b) { c } if (";
    let (first, first_errors) = parse(source);
    let (second, second_errors) = parse(source);
    assert_eq!(first.string(), second.string());
    assert_eq!(first_errors, second_errors);
    assert!(first_errors.len() > 0);
}

#[test]
fn what_follows_a_failed_part_is_still_read() {
    let (program, errors) = parse("(+) x");
    assert_eq!(errors, vec!["no prefix parse function for + found".to_string()]);
    assert_eq!(program.string(), "x");
    let (program, errors) = parse("if (+) { a } else { b }; c");
    assert_eq!(errors, vec!["no prefix parse function for + found".to_string()]);
    assert_eq!(program.string(), "c");
    let (program, errors) = parse("if (*) { a } d");
    assert_eq!(errors, vec!["no prefix parse function for * found".to_string()]);
    assert_eq!(program.string(), "d");
    let (program, errors) = parse("let x = (;); y");
    assert_eq!(errors, vec!["no prefix parse function for ; found".to_string()]);
    assert_eq!(program.string(), "y");
    let (program, errors) = parse("(+ 1; z");
    assert_eq!(
        errors,
        vec![
            "no prefix parse function for + found".to_string(),
            "1:2 \u{2014} expected next token to be RightParen, got IntegerLiteral instead"
                .to_string(),
        ]
    );
    assert_eq!(program.string(), "1z");
}
