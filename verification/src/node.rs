//! What every node of the syntax tree offers: the text of the token it was
//! read from, and its canonical form.

use vstd::prelude::*;

use crate::ast::{
    expression_token, program_token_literal, render_block, render_conditional_iterator,
    render_expression, render_program, render_statement, statement_token, BlockStatement,
    BooleanLiteral, CallExpression, ConditionalIteratorExpression, Expression,
    ExpressionStatement, ForLoopExpression, FunctionLiteral, Identifier, IfExpression,
    InfixExpression, IntegerLiteral, IteratorLiteral, LetStatement, PrefixExpression, Program,
    ReturnStatemnt, Statement,
};

verus! {

/// A node of the syntax tree.
pub trait Node {
    /// The text of the token that the node was read from.
    spec fn token_text(&self) -> Seq<char>;

    /// The node in canonical form.
    spec fn text(&self) -> Seq<char>;

    /// The text of the token that the node was read from.
    fn token_literal(&self) -> (s: &str)
        ensures
            s@ == self.token_text(),
    ;

    /// The node in canonical form.
    fn string(&self) -> (s: String)
        ensures
            s@ == self.text(),
    ;
}

/// A node that stands for a sequence of values to loop over.
pub trait Iterators: Node {

}

impl Iterators for IteratorLiteral {

}

impl Node for Program {
    open spec fn token_text(&self) -> Seq<char> {
        program_token_literal(self@)
    }

    open spec fn text(&self) -> Seq<char> {
        render_program(self@)
    }

    fn token_literal(&self) -> (s: &str) {
        Program::token_literal(self)
    }

    fn string(&self) -> (s: String) {
        Program::string(self)
    }
}

impl Node for Identifier {
    open spec fn token_text(&self) -> Seq<char> {
        self@.token.literal
    }

    open spec fn text(&self) -> Seq<char> {
        self@.name
    }

    fn token_literal(&self) -> (s: &str) {
        Identifier::token_literal(self)
    }

    fn string(&self) -> (s: String) {
        Identifier::string(self)
    }
}

impl Node for IntegerLiteral {
    open spec fn token_text(&self) -> Seq<char> {
        expression_token(self@).literal
    }

    open spec fn text(&self) -> Seq<char> {
        render_expression(self@)
    }

    fn token_literal(&self) -> (s: &str) {
        IntegerLiteral::token_literal(self)
    }

    fn string(&self) -> (s: String) {
        IntegerLiteral::string(self)
    }
}

impl Node for BooleanLiteral {
    open spec fn token_text(&self) -> Seq<char> {
        expression_token(self@).literal
    }

    open spec fn text(&self) -> Seq<char> {
        render_expression(self@)
    }

    fn token_literal(&self) -> (s: &str) {
        BooleanLiteral::token_literal(self)
    }

    fn string(&self) -> (s: String) {
        BooleanLiteral::string(self)
    }
}

impl Node for PrefixExpression {
    open spec fn token_text(&self) -> Seq<char> {
        expression_token(self@).literal
    }

    open spec fn text(&self) -> Seq<char> {
        render_expression(self@)
    }

    fn token_literal(&self) -> (s: &str) {
        PrefixExpression::token_literal(self)
    }

    fn string(&self) -> (s: String) {
        PrefixExpression::string(self)
    }
}

impl Node for InfixExpression {
    open spec fn token_text(&self) -> Seq<char> {
        expression_token(self@).literal
    }

    open spec fn text(&self) -> Seq<char> {
        render_expression(self@)
    }

    fn token_literal(&self) -> (s: &str) {
        InfixExpression::token_literal(self)
    }

    fn string(&self) -> (s: String) {
        InfixExpression::string(self)
    }
}

impl Node for IfExpression {
    open spec fn token_text(&self) -> Seq<char> {
        expression_token(self@).literal
    }

    open spec fn text(&self) -> Seq<char> {
        render_expression(self@)
    }

    fn token_literal(&self) -> (s: &str) {
        IfExpression::token_literal(self)
    }

    fn string(&self) -> (s: String) {
        IfExpression::string(self)
    }
}

impl Node for FunctionLiteral {
    open spec fn token_text(&self) -> Seq<char> {
        expression_token(self@).literal
    }

    open spec fn text(&self) -> Seq<char> {
        render_expression(self@)
    }

    fn token_literal(&self) -> (s: &str) {
        FunctionLiteral::token_literal(self)
    }

    fn string(&self) -> (s: String) {
        FunctionLiteral::string(self)
    }
}

impl Node for CallExpression {
    open spec fn token_text(&self) -> Seq<char> {
        expression_token(self@).literal
    }

    open spec fn text(&self) -> Seq<char> {
        render_expression(self@)
    }

    fn token_literal(&self) -> (s: &str) {
        CallExpression::token_literal(self)
    }

    fn string(&self) -> (s: String) {
        CallExpression::string(self)
    }
}

impl Node for IteratorLiteral {
    open spec fn token_text(&self) -> Seq<char> {
        expression_token(self@).literal
    }

    open spec fn text(&self) -> Seq<char> {
        render_expression(self@)
    }

    fn token_literal(&self) -> (s: &str) {
        IteratorLiteral::token_literal(self)
    }

    fn string(&self) -> (s: String) {
        IteratorLiteral::string(self)
    }
}

impl Node for Expression {
    open spec fn token_text(&self) -> Seq<char> {
        expression_token(self@).literal
    }

    open spec fn text(&self) -> Seq<char> {
        render_expression(self@)
    }

    fn token_literal(&self) -> (s: &str) {
        Expression::token_literal(self)
    }

    fn string(&self) -> (s: String) {
        Expression::string(self)
    }
}

impl Node for ConditionalIteratorExpression {
    open spec fn token_text(&self) -> Seq<char> {
        self@.token.literal
    }

    open spec fn text(&self) -> Seq<char> {
        render_conditional_iterator(self@)
    }

    fn token_literal(&self) -> (s: &str) {
        ConditionalIteratorExpression::token_literal(self)
    }

    fn string(&self) -> (s: String) {
        ConditionalIteratorExpression::string(self)
    }
}

impl Node for LetStatement {
    open spec fn token_text(&self) -> Seq<char> {
        statement_token(self@).literal
    }

    open spec fn text(&self) -> Seq<char> {
        render_statement(self@)
    }

    fn token_literal(&self) -> (s: &str) {
        LetStatement::token_literal(self)
    }

    fn string(&self) -> (s: String) {
        LetStatement::string(self)
    }
}

impl Node for ReturnStatemnt {
    open spec fn token_text(&self) -> Seq<char> {
        statement_token(self@).literal
    }

    open spec fn text(&self) -> Seq<char> {
        render_statement(self@)
    }

    fn token_literal(&self) -> (s: &str) {
        ReturnStatemnt::token_literal(self)
    }

    fn string(&self) -> (s: String) {
        ReturnStatemnt::string(self)
    }
}

impl Node for ExpressionStatement {
    open spec fn token_text(&self) -> Seq<char> {
        statement_token(self@).literal
    }

    open spec fn text(&self) -> Seq<char> {
        render_statement(self@)
    }

    fn token_literal(&self) -> (s: &str) {
        ExpressionStatement::token_literal(self)
    }

    fn string(&self) -> (s: String) {
        ExpressionStatement::string(self)
    }
}

impl Node for ForLoopExpression {
    open spec fn token_text(&self) -> Seq<char> {
        statement_token(self@).literal
    }

    open spec fn text(&self) -> Seq<char> {
        render_statement(self@)
    }

    fn token_literal(&self) -> (s: &str) {
        ForLoopExpression::token_literal(self)
    }

    fn string(&self) -> (s: String) {
        ForLoopExpression::string(self)
    }
}

impl Node for Statement {
    open spec fn token_text(&self) -> Seq<char> {
        statement_token(self@).literal
    }

    open spec fn text(&self) -> Seq<char> {
        render_statement(self@)
    }

    fn token_literal(&self) -> (s: &str) {
        Statement::token_literal(self)
    }

    fn string(&self) -> (s: String) {
        Statement::string(self)
    }
}

impl Node for BlockStatement {
    open spec fn token_text(&self) -> Seq<char> {
        self@.token.literal
    }

    open spec fn text(&self) -> Seq<char> {
        render_block(self@)
    }

    fn token_literal(&self) -> (s: &str) {
        BlockStatement::token_literal(self)
    }

    fn string(&self) -> (s: String) {
        BlockStatement::string(self)
    }
}

} // verus!
