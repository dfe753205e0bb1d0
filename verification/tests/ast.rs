use prolang::ast::{
    BlockStatement, BooleanLiteral, CallExpression, ConditionalIteratorExpression, Expression,
    ExpressionStatement, ForLoopCondition, ForLoopExpression, FunctionLiteral, Identifier,
    IfExpression, InfixExpression, IntegerLiteral, IteratorLiteral, LetStatement,
    PrefixExpression, Program, ReturnStatemnt, Statement,
};
use prolang::token::{Position, Token, TokenType};

fn tok(token_type: TokenType, literal: &str) -> Token {
    Token { token_type, literal: literal.to_string(), position: Position(0, 0) }
}

fn ident(name: &str) -> Identifier {
    Identifier { token: tok(TokenType::Identifier, name), name: name.to_string() }
}

fn name(n: &str) -> Expression {
    Expression::Identifier(ident(n))
}

fn number(v: i64) -> Expression {
    Expression::IntegerLiteral(IntegerLiteral {
        token: tok(TokenType::IntegerLiteral, &v.to_string()),
        value: v,
    })
}

fn infix(left: Expression, kind: TokenType, op: &str, right: Expression) -> Expression {
    Expression::InfixExpression(InfixExpression {
        token: tok(kind, op),
        operator: op.to_string(),
        left: Box::new(left),
        right: Box::new(right),
    })
}

fn block(statements: Vec<Statement>) -> BlockStatement {
    BlockStatement { token: tok(TokenType::LeftBrace, "{"), statements }
}

fn stmt(e: Expression) -> Statement {
    let token = e.token().clone();
    Statement::ExpressionStatement(ExpressionStatement { token, value: e })
}

#[test]
fn test_string() {
    let program = Program {
        statements: vec![Statement::LetStatement(LetStatement {
            token: Token {
                token_type: TokenType::Let,
                literal: "let".to_string(),
                position: Position(0, 0),
            },
            name: Identifier {
                token: Token {
                    token_type: TokenType::Identifier,
                    literal: "myVar".to_string(),
                    position: Position(0, 0),
                },
                name: "myVar".to_string(),
            },
            value: Expression::Identifier(Identifier {
                token: Token {
                    token_type: TokenType::Identifier,
                    literal: "anotherVar".to_string(),
                    position: Position(0, 0),
                },
                name: "anotherVar".to_string(),
            }),
        })],
    };
    assert_eq!(
        program.string(),
        "let myVar = anotherVar;",
        "program.string() wrong, got={}",
        program.string()
    )
}

#[test]
fn ast_test_string() {
    let statement = Statement::LetStatement(LetStatement {
        token: tok(TokenType::Let, "let"),
        name: ident("myVar"),
        value: name("anotherVar"),
    });
    assert_eq!(statement.string(), "let myVar = anotherVar;");
    assert_eq!(statement.token_literal(), "let");
    let program = Program { statements: vec![statement] };
    assert_eq!(
        program.string(),
        "let myVar = anotherVar;",
        "program.string() wrong, got={}",
        program.string()
    );
    assert_eq!(program.token_literal(), "let");
}

#[test]
fn empty_program_renders_to_nothing() {
    let program = Program { statements: vec![] };
    assert_eq!(program.string(), "");
    assert_eq!(program.token_literal(), "");
}

#[test]
fn literals_and_names_render_as_written() {
    assert_eq!(name("abc").string(), "abc");
    assert_eq!(name("abc").token_literal(), "abc");
    assert_eq!(number(42).string(), "42");
    let t = Expression::BooleanLiteral(BooleanLiteral {
        token: tok(TokenType::True, "true"),
        value: true,
    });
    assert_eq!(t.string(), "true");
    assert_eq!(t.token_literal(), "true");
    assert_eq!(t.token().token_type, TokenType::True);
}

#[test]
fn operators_render_in_parentheses() {
    let neg = Expression::PrefixExpression(PrefixExpression {
        token: tok(TokenType::Minus, "-"),
        operator: "-".to_string(),
        right: Box::new(name("a")),
    });
    assert_eq!(neg.string(), "(-a)");
    assert_eq!(neg.token_literal(), "-");
    let sum = infix(neg, TokenType::Plus, "+", infix(name("b"), TokenType::Asterisk, "*", number(3)));
    assert_eq!(sum.string(), "((-a) + (b * 3))");
    assert_eq!(sum.token_literal(), "+");
}

#[test]
fn if_renders_with_and_without_else() {
    let without = Expression::IfExpression(IfExpression {
        token: tok(TokenType::If, "if"),
        condition: Box::new(infix(name("x"), TokenType::LessThan, "<", name("y"))),
        consequence: block(vec![stmt(name("x"))]),
        alternative: None,
    });
    assert_eq!(without.string(), "if(x < y) x");
    let with = Expression::IfExpression(IfExpression {
        token: tok(TokenType::If, "if"),
        condition: Box::new(infix(name("x"), TokenType::LessThan, "<", name("y"))),
        consequence: block(vec![stmt(name("x"))]),
        alternative: Some(block(vec![stmt(name("y")), stmt(number(1))])),
    });
    assert_eq!(with.string(), "if(x < y) x else y1");
    assert_eq!(with.token_literal(), "if");
}

#[test]
fn function_literal_renders_its_parameters() {
    let none = Expression::FunctionLiteral(FunctionLiteral {
        token: tok(TokenType::Function, "fn"),
        parameters: vec![],
        body: block(vec![]),
    });
    assert_eq!(none.string(), "fn() ");
    let one = Expression::FunctionLiteral(FunctionLiteral {
        token: tok(TokenType::Function, "fn"),
        parameters: vec![ident("x")],
        body: block(vec![stmt(name("x"))]),
    });
    assert_eq!(one.string(), "fn(x) x");
    let three = Expression::FunctionLiteral(FunctionLiteral {
        token: tok(TokenType::Function, "fn"),
        parameters: vec![ident("x"), ident("y"), ident("z")],
        body: block(vec![stmt(infix(name("x"), TokenType::Plus, "+", name("y")))]),
    });
    assert_eq!(three.string(), "fn(x, y, z) (x + y)");
}

#[test]
fn call_renders_its_arguments() {
    let none = Expression::CallExpression(CallExpression {
        token: tok(TokenType::LeftParen, "("),
        callee: Box::new(name("f")),
        arguments: vec![],
    });
    assert_eq!(none.string(), "f()");
    let two = Expression::CallExpression(CallExpression {
        token: tok(TokenType::LeftParen, "("),
        callee: Box::new(name("add")),
        arguments: vec![number(1), infix(number(2), TokenType::Asterisk, "*", number(3))],
    });
    assert_eq!(two.string(), "add(1, (2 * 3))");
    assert_eq!(two.token_literal(), "(");
}

#[test]
fn range_and_in_clause_render() {
    let range = Expression::RangeExpression(IteratorLiteral {
        token: tok(TokenType::Range, ".."),
        start: Box::new(number(0)),
        end: Box::new(number(10)),
    });
    assert_eq!(range.string(), "0..10");
    let clause = ConditionalIteratorExpression {
        token: tok(TokenType::In, "in"),
        variable: ident("i"),
        source: Box::new(range),
    };
    assert_eq!(clause.string(), "(i in 0..10)");
    assert_eq!(clause.token_literal(), "in");
    assert_eq!(Expression::ConditionalIteratorExpression(clause).string(), "(i in 0..10)");
}

#[test]
fn statements_render() {
    let ret = Statement::ReturnStatement(ReturnStatemnt {
        token: tok(TokenType::Return, "return"),
        value: Some(number(5)),
    });
    assert_eq!(ret.string(), "return 5;");
    assert_eq!(ret.token_literal(), "return");
    let bare = Statement::ReturnStatement(ReturnStatemnt {
        token: tok(TokenType::Return, "return"),
        value: None,
    });
    assert_eq!(bare.string(), "return ;");
    let b = Statement::BlockStatement(block(vec![stmt(name("a")), stmt(name("b"))]));
    assert_eq!(b.string(), "ab");
    assert_eq!(b.token_literal(), "{");
    let e = stmt(infix(name("a"), TokenType::Equal, "==", name("b")));
    assert_eq!(e.string(), "(a == b)");
    assert_eq!(e.token_literal(), "==");
}

#[test]
fn for_loops_render() {
    let body = || block(vec![stmt(infix(name("x"), TokenType::Plus, "+", name("y")))]);
    let bare = Statement::ForLoopStatement(ForLoopExpression {
        token: tok(TokenType::For, "for"),
        condition: ForLoopCondition::Bare,
        body: body(),
    });
    assert_eq!(bare.string(), "for (x + y)");
    let cond = ForLoopCondition::While(infix(name("x"), TokenType::LessThan, "<", name("y")));
    assert_eq!(cond.string(), "(x < y)");
    let while_loop = Statement::ForLoopStatement(ForLoopExpression {
        token: tok(TokenType::For, "for"),
        condition: cond,
        body: body(),
    });
    assert_eq!(while_loop.string(), "for (x < y)(x + y)");
    let over = Statement::ForLoopStatement(ForLoopExpression {
        token: tok(TokenType::For, "for"),
        condition: ForLoopCondition::ForIn(ConditionalIteratorExpression {
            token: tok(TokenType::In, "in"),
            variable: ident("i"),
            source: Box::new(name("items")),
        }),
        body: body(),
    });
    assert_eq!(over.string(), "for (i in items)(x + y)");
    assert_eq!(over.token_literal(), "for");
    assert_eq!(ForLoopCondition::Bare.string(), "");
}
