//! Rendering: every node of the syntax tree as text, and the text of the
//! token it was read from.

use vstd::prelude::*;

use crate::ast::{
    expression_token, join_expressions, join_names, program_token_literal,
    render_conditional_iterator, render_condition, render_expression, render_program,
    render_statement, render_statements, statement_token, BlockStatement, BooleanLiteral,
    CallExpression, ConditionalIteratorExpression, Expression, ExpressionStatement,
    ForLoopCondition, ForLoopExpression, FunctionLiteral, Identifier, IfExpression,
    InfixExpression, IntegerLiteral, IteratorLiteral, LetStatement, PrefixExpression, Program,
    ReturnStatemnt, Statement, render_block,
};
use crate::token::Token;

verus! {

impl Identifier {
    /// The text of the identifier's token.
    pub fn token_literal(&self) -> (s: &str)
        ensures
            s@ == self@.token.literal,
    {
        self.token.literal.as_str()
    }

    /// The name.
    pub fn string(&self) -> (s: String)
        ensures
            s@ == self@.name,
    {
        self.name.clone()
    }
}

impl IntegerLiteral {
    /// The text of the literal's token.
    pub fn token_literal(&self) -> (s: &str)
        ensures
            s@ == expression_token(self@).literal,
    {
        self.token.literal.as_str()
    }

    /// The literal as it was written.
    pub fn string(&self) -> (s: String)
        ensures
            s@ == render_expression(self@),
    {
        self.token.literal.clone()
    }
}

impl BooleanLiteral {
    /// The text of the literal's token.
    pub fn token_literal(&self) -> (s: &str)
        ensures
            s@ == expression_token(self@).literal,
    {
        self.token.literal.as_str()
    }

    /// The literal as it was written.
    pub fn string(&self) -> (s: String)
        ensures
            s@ == render_expression(self@),
    {
        self.token.literal.clone()
    }
}

impl PrefixExpression {
    /// The text of the operator's token.
    pub fn token_literal(&self) -> (s: &str)
        ensures
            s@ == expression_token(self@).literal,
    {
        self.token.literal.as_str()
    }

    /// `(` operator operand `)`.
    pub fn string(&self) -> (s: String)
        ensures
            s@ == render_expression(self@),
        decreases self,
    {
        let mut out = String::from_str("(");
        out.append(self.operator.as_str());
        let right = self.right.string();
        out.append(right.as_str());
        out.append(")");
        out
    }
}

impl InfixExpression {
    /// The text of the operator's token.
    pub fn token_literal(&self) -> (s: &str)
        ensures
            s@ == expression_token(self@).literal,
    {
        self.token.literal.as_str()
    }

    /// `(` left operand, operator, right operand `)`, with a space on each
    /// side of the operator.
    pub fn string(&self) -> (s: String)
        ensures
            s@ == render_expression(self@),
        decreases self,
    {
        let mut out = String::from_str("(");
        let left = self.left.string();
        out.append(left.as_str());
        out.append(" ");
        out.append(self.operator.as_str());
        out.append(" ");
        let right = self.right.string();
        out.append(right.as_str());
        out.append(")");
        out
    }
}

impl IfExpression {
    /// The text of the `if` token.
    pub fn token_literal(&self) -> (s: &str)
        ensures
            s@ == expression_token(self@).literal,
    {
        self.token.literal.as_str()
    }

    /// `if`, the condition, a space and the consequence; then ` else ` and
    /// the alternative where there is one.
    pub fn string(&self) -> (s: String)
        ensures
            s@ == render_expression(self@),
        decreases self,
    {
        let mut out = self.token.literal.clone();
        let condition = self.condition.string();
        out.append(condition.as_str());
        out.append(" ");
        let consequence = self.consequence.string();
        out.append(consequence.as_str());
        let ghost head = out@;
        match &self.alternative {
            Some(alternative) => {
                out.append(" else ");
                let text = alternative.string();
                out.append(text.as_str());
                assert(out@ =~= head + (" else "@ + text@));
            },
            None => {
                assert(out@ =~= head + Seq::<char>::empty());
            },
        }
        out
    }
}

impl FunctionLiteral {
    /// The text of the `fn` token.
    pub fn token_literal(&self) -> (s: &str)
        ensures
            s@ == expression_token(self@).literal,
    {
        self.token.literal.as_str()
    }

    /// `fn(`, the parameters separated by `, `, `) ` and the body.
    pub fn string(&self) -> (s: String)
        ensures
            s@ == render_expression(self@),
        decreases self,
    {
        let ghost names = self@->Function_parameters;
        let mut params = String::new();
        let mut i: usize = 0;
        while i < self.parameters.len()
            invariant
                i <= self.parameters.len(),
                names == self@->Function_parameters,
                names.len() == self.parameters.len(),
                params@ + join_names(names, i as int) == join_names(names, 0),
            decreases self.parameters.len() - i,
        {
            let ghost before = params@;
            let name = self.parameters[i].string();
            assert(name@ == names[i as int].name);
            params.append(name.as_str());
            if i + 1 < self.parameters.len() {
                params.append(", ");
                assert(params@ + join_names(names, i + 1) =~= before + (names[i as int].name + ", "@
                    + join_names(names, i + 1)));
            } else {
                assert(params@ + join_names(names, i + 1) =~= before + names[i as int].name);
            }
            i += 1;
        }
        assert(params@ =~= join_names(names, 0));
        let mut out = self.token.literal.clone();
        out.append("(");
        out.append(params.as_str());
        out.append(") ");
        let body = self.body.string();
        out.append(body.as_str());
        out
    }
}

impl CallExpression {
    /// The text of the `(` token that makes the call.
    pub fn token_literal(&self) -> (s: &str)
        ensures
            s@ == expression_token(self@).literal,
    {
        self.token.literal.as_str()
    }

    /// The callee, `(`, the arguments separated by `, `, and `)`.
    pub fn string(&self) -> (s: String)
        ensures
            s@ == render_expression(self@),
        decreases self,
    {
        let ghost items = self@->Call_arguments;
        let mut args = String::new();
        let mut i: usize = 0;
        while i < self.arguments.len()
            invariant
                i <= self.arguments.len(),
                items == self@->Call_arguments,
                items.len() == self.arguments.len(),
                args@ + join_expressions(items, i as int) == join_expressions(items, 0),
            decreases self.arguments.len() - i,
        {
            let ghost before = args@;
            let item = self.arguments[i].string();
            assert(item@ == render_expression(items[i as int]));
            args.append(item.as_str());
            if i + 1 < self.arguments.len() {
                args.append(", ");
                assert(args@ + join_expressions(items, i + 1) =~= before + (render_expression(
                    items[i as int],
                ) + ", "@ + join_expressions(items, i + 1)));
            } else {
                assert(args@ + join_expressions(items, i + 1) =~= before + render_expression(
                    items[i as int],
                ));
            }
            i += 1;
        }
        assert(args@ =~= join_expressions(items, 0));
        let mut out = self.callee.string();
        out.append("(");
        out.append(args.as_str());
        out.append(")");
        out
    }
}

impl ConditionalIteratorExpression {
    /// The text of the `in` token.
    pub fn token_literal(&self) -> (s: &str)
        ensures
            s@ == self@.token.literal,
    {
        self.token.literal.as_str()
    }

    /// `(` variable ` in ` source `)`.
    pub fn string(&self) -> (s: String)
        ensures
            s@ == render_conditional_iterator(self@),
        decreases self,
    {
        let mut out = String::from_str("(");
        out.append(self.variable.name.as_str());
        out.append(" ");
        out.append(self.token.literal.as_str());
        out.append(" ");
        let source = self.source.string();
        out.append(source.as_str());
        out.append(")");
        out
    }
}

impl IteratorLiteral {
    /// The text of the `..` token.
    pub fn token_literal(&self) -> (s: &str)
        ensures
            s@ == expression_token(self@).literal,
    {
        self.token.literal.as_str()
    }

    /// The start, `..` and the end.
    pub fn string(&self) -> (s: String)
        ensures
            s@ == render_expression(self@),
        decreases self,
    {
        let mut out = self.start.string();
        out.append(self.token.literal.as_str());
        let end = self.end.string();
        out.append(end.as_str());
        out
    }
}

impl Expression {
    /// The token that the expression was read from.
    pub fn token(&self) -> (t: &Token)
        ensures
            t@ == expression_token(self@),
    {
        match self {
            Expression::Identifier(x) => &x.token,
            Expression::IntegerLiteral(x) => &x.token,
            Expression::BooleanLiteral(x) => &x.token,
            Expression::PrefixExpression(x) => &x.token,
            Expression::InfixExpression(x) => &x.token,
            Expression::IfExpression(x) => &x.token,
            Expression::FunctionLiteral(x) => &x.token,
            Expression::CallExpression(x) => &x.token,
            Expression::ConditionalIteratorExpression(x) => {
                assert(x@.token == x.token@);
                &x.token
            },
            Expression::RangeExpression(x) => &x.token,
        }
    }

    /// The text of the token that the expression was read from.
    pub fn token_literal(&self) -> (s: &str)
        ensures
            s@ == expression_token(self@).literal,
    {
        match self {
            Expression::Identifier(x) => x.token_literal(),
            Expression::IntegerLiteral(x) => x.token_literal(),
            Expression::BooleanLiteral(x) => x.token_literal(),
            Expression::PrefixExpression(x) => x.token_literal(),
            Expression::InfixExpression(x) => x.token_literal(),
            Expression::IfExpression(x) => x.token_literal(),
            Expression::FunctionLiteral(x) => x.token_literal(),
            Expression::CallExpression(x) => x.token_literal(),
            Expression::ConditionalIteratorExpression(x) => x.token_literal(),
            Expression::RangeExpression(x) => x.token_literal(),
        }
    }

    /// The expression in canonical form.
    pub fn string(&self) -> (s: String)
        ensures
            s@ == render_expression(self@),
        decreases self,
    {
        match self {
            Expression::Identifier(x) => x.string(),
            Expression::IntegerLiteral(x) => x.string(),
            Expression::BooleanLiteral(x) => x.string(),
            Expression::PrefixExpression(x) => x.string(),
            Expression::InfixExpression(x) => x.string(),
            Expression::IfExpression(x) => x.string(),
            Expression::FunctionLiteral(x) => x.string(),
            Expression::CallExpression(x) => x.string(),
            Expression::ConditionalIteratorExpression(x) => x.string(),
            Expression::RangeExpression(x) => x.string(),
        }
    }
}

impl LetStatement {
    /// The text of the `let` token.
    pub fn token_literal(&self) -> (s: &str)
        ensures
            s@ == statement_token(self@).literal,
    {
        self.token.literal.as_str()
    }

    /// `let name = value;`
    pub fn string(&self) -> (s: String)
        ensures
            s@ == render_statement(self@),
        decreases self,
    {
        let mut out = self.token.literal.clone();
        out.append(" ");
        out.append(self.name.name.as_str());
        out.append(" = ");
        let value = self.value.string();
        out.append(value.as_str());
        out.append(";");
        out
    }
}

impl ReturnStatemnt {
    /// The text of the `return` token.
    pub fn token_literal(&self) -> (s: &str)
        ensures
            s@ == statement_token(self@).literal,
    {
        self.token.literal.as_str()
    }

    /// `return value;`, and `return ;` where there is no value.
    pub fn string(&self) -> (s: String)
        ensures
            s@ == render_statement(self@),
        decreases self,
    {
        let mut out = self.token.literal.clone();
        out.append(" ");
        let ghost head = out@;
        match &self.value {
            Some(value) => {
                let text = value.string();
                out.append(text.as_str());
            },
            None => {
                assert(out@ =~= head + Seq::<char>::empty());
            },
        }
        out.append(";");
        out
    }
}

impl ExpressionStatement {
    /// The text of the first token of the expression.
    pub fn token_literal(&self) -> (s: &str)
        ensures
            s@ == statement_token(self@).literal,
    {
        self.token.literal.as_str()
    }

    /// The expression in canonical form.
    pub fn string(&self) -> (s: String)
        ensures
            s@ == render_statement(self@),
        decreases self,
    {
        self.value.string()
    }
}

impl BlockStatement {
    /// The text of the `{` token.
    pub fn token_literal(&self) -> (s: &str)
        ensures
            s@ == self@.token.literal,
    {
        self.token.literal.as_str()
    }

    /// The statements of the block in canonical form, one after the other.
    pub fn string(&self) -> (s: String)
        ensures
            s@ == render_block(self@),
        decreases self,
    {
        let ghost items = self@.statements;
        let mut out = String::new();
        let mut i: usize = 0;
        while i < self.statements.len()
            invariant
                i <= self.statements.len(),
                items == self@.statements,
                items.len() == self.statements.len(),
                out@ + render_statements(items, i as int) == render_statements(items, 0),
            decreases self.statements.len() - i,
        {
            let ghost before = out@;
            let piece = self.statements[i].string();
            assert(piece@ == render_statement(items[i as int]));
            out.append(piece.as_str());
            assert(out@ + render_statements(items, i + 1) =~= before + (render_statement(
                items[i as int],
            ) + render_statements(items, i + 1)));
            i += 1;
        }
        assert(out@ =~= render_statements(items, 0));
        out
    }
}

impl ForLoopCondition {
    /// The condition in canonical form; nothing for a bare loop.
    pub fn string(&self) -> (s: String)
        ensures
            s@ == render_condition(self@),
    {
        match self {
            ForLoopCondition::Bare => String::new(),
            ForLoopCondition::While(e) => e.string(),
            ForLoopCondition::ForIn(c) => c.string(),
        }
    }
}

impl ForLoopExpression {
    /// The text of the `for` token.
    pub fn token_literal(&self) -> (s: &str)
        ensures
            s@ == statement_token(self@).literal,
    {
        self.token.literal.as_str()
    }

    /// `for `, the condition and the body.
    pub fn string(&self) -> (s: String)
        ensures
            s@ == render_statement(self@),
        decreases self,
    {
        let mut out = self.token.literal.clone();
        out.append(" ");
        let condition = match &self.condition {
            ForLoopCondition::Bare => String::new(),
            ForLoopCondition::While(e) => e.string(),
            ForLoopCondition::ForIn(c) => c.string(),
        };
        out.append(condition.as_str());
        let body = self.body.string();
        out.append(body.as_str());
        out
    }
}

impl Statement {
    /// The token that the statement was read from.
    pub fn token(&self) -> (t: &Token)
        ensures
            t@ == statement_token(self@),
    {
        match self {
            Statement::LetStatement(x) => &x.token,
            Statement::ReturnStatement(x) => &x.token,
            Statement::ExpressionStatement(x) => &x.token,
            Statement::BlockStatement(x) => {
                assert(x@.token == x.token@);
                &x.token
            },
            Statement::ForLoopStatement(x) => &x.token,
        }
    }

    /// The statement as a `let` statement, where it is one.
    pub fn get_let(&self) -> (r: Option<&LetStatement>)
        ensures
            r == match self {
                Statement::LetStatement(x) => Some(x),
                _ => None,
            },
    {
        match self {
            Statement::LetStatement(x) => Some(x),
            _ => None,
        }
    }

    /// The statement as an expression statement, where it is one.
    pub fn get_expression_stmt(&self) -> (r: Option<&ExpressionStatement>)
        ensures
            r == match self {
                Statement::ExpressionStatement(x) => Some(x),
                _ => None,
            },
    {
        match self {
            Statement::ExpressionStatement(x) => Some(x),
            _ => None,
        }
    }

    /// The statement as a `for` loop, where it is one.
    pub fn get_for_exp(&self) -> (r: Option<&ForLoopExpression>)
        ensures
            r == match self {
                Statement::ForLoopStatement(x) => Some(x),
                _ => None,
            },
    {
        match self {
            Statement::ForLoopStatement(x) => Some(x),
            _ => None,
        }
    }

    /// The text of the token that the statement was read from.
    pub fn token_literal(&self) -> (s: &str)
        ensures
            s@ == statement_token(self@).literal,
    {
        match self {
            Statement::LetStatement(x) => x.token_literal(),
            Statement::ReturnStatement(x) => x.token_literal(),
            Statement::ExpressionStatement(x) => x.token_literal(),
            Statement::BlockStatement(x) => x.token_literal(),
            Statement::ForLoopStatement(x) => x.token_literal(),
        }
    }

    /// The statement in canonical form.
    pub fn string(&self) -> (s: String)
        ensures
            s@ == render_statement(self@),
        decreases self,
    {
        match self {
            Statement::LetStatement(x) => x.string(),
            Statement::ReturnStatement(x) => x.string(),
            Statement::ExpressionStatement(x) => x.string(),
            Statement::BlockStatement(x) => x.string(),
            Statement::ForLoopStatement(x) => x.string(),
        }
    }
}

impl Program {
    /// The text of the token that the program starts with, and nothing where
    /// the program has no statement.
    pub fn token_literal(&self) -> (s: &str)
        ensures
            s@ == program_token_literal(self@),
    {
        if self.statements.len() > 0 {
            self.statements[0].token_literal()
        } else {
            proof {
                reveal_strlit("");
            }
            let empty = "";
            assert(empty@ =~= Seq::<char>::empty());
            empty
        }
    }

    /// The program in canonical form: its statements one after the other.
    pub fn string(&self) -> (s: String)
        ensures
            s@ == render_program(self@),
    {
        let ghost items = self@.statements;
        let mut out = String::new();
        let mut i: usize = 0;
        while i < self.statements.len()
            invariant
                i <= self.statements.len(),
                items == self@.statements,
                items.len() == self.statements.len(),
                out@ + render_statements(items, i as int) == render_statements(items, 0),
            decreases self.statements.len() - i,
        {
            let ghost before = out@;
            let piece = self.statements[i].string();
            assert(piece@ == render_statement(items[i as int]));
            out.append(piece.as_str());
            assert(out@ + render_statements(items, i + 1) =~= before + (render_statement(
                items[i as int],
            ) + render_statements(items, i + 1)));
            i += 1;
        }
        assert(out@ =~= render_statements(items, 0));
        out
    }
}

} // verus!
