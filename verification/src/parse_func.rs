//! The parts of an expression: one function for each way an expression can
//! start, and one for each way it can go on after its first part.

use vstd::prelude::*;

use crate::ast::{
    expression_option, lemma_call_arguments, BooleanLiteral, CallExpression,
    ConditionalIteratorExpression, Expression, ExpressionView, FunctionLiteral, Identifier,
    IfExpression, InfixExpression, IntegerLiteral, IteratorLiteral, PrefixExpression,
};
use crate::grammar::{
    block, conditional_iterator, expression, function_literal, identifier_of, if_expression,
    infix, lemma_concat_assoc, lemma_concat_none, parameters, prefix, unexpected, LOWEST, PREFIX,
};
use crate::parser::{unexpected_token, Parser};
use crate::text::parse_integer;
use crate::token::{ahead, current, TokenType};

verus! {

/// The infix part that the operator under the cursor makes with `left`.
pub(crate) fn parse_infix_func(p: &mut Parser, left: Expression) -> (e: Option<Expression>)
    requires
        old(p).wf(),
    ensures
        final(p).follows(*old(p), infix(old(p).tokens(), old(p).position(), left@)),
        expression_option(e) == infix(old(p).tokens(), old(p).position(), left@).value,
    decreases ahead(old(p).tokens(), old(p).position()), 30int,
{
    proof {
        lemma_concat_none(p.diagnostics());
    }
    match p.cur_token().token_type {
        TokenType::Plus
        | TokenType::Minus
        | TokenType::Slash
        | TokenType::Asterisk
        | TokenType::Equal
        | TokenType::NotEqual
        | TokenType::LessThan
        | TokenType::GreaterThan => parse_infix_expression(p, left),
        TokenType::LeftParen => parse_call_expression(p, left),
        TokenType::In => parse_conditional_iter_expression(p, left),
        TokenType::Range => parse_range_expression(p, left),
        _ => None,
    }
}

/// `left operator right`, the cursor being on the operator.
fn parse_infix_expression(p: &mut Parser, left: Expression) -> (e: Option<Expression>)
    requires
        old(p).wf(),
        ({
            let t = current(old(p).tokens(), old(p).position()).token_type;
            t == TokenType::Plus || t == TokenType::Minus || t == TokenType::Slash || t
                == TokenType::Asterisk || t == TokenType::Equal || t == TokenType::NotEqual || t
                == TokenType::LessThan || t == TokenType::GreaterThan
        }),
    ensures
        final(p).follows(*old(p), infix(old(p).tokens(), old(p).position(), left@)),
        expression_option(e) == infix(old(p).tokens(), old(p).position(), left@).value,
    decreases ahead(old(p).tokens(), old(p).position()), 29int,
{
    let token = p.cur_token().clone();
    let operator = token.literal.clone();
    let precedence = p.cur_precedence();
    p.next_token();
    match p.parse_expression(precedence) {
        Some(right) => Some(
            Expression::InfixExpression(
                InfixExpression { token, operator, left: Box::new(left), right: Box::new(right) },
            ),
        ),
        None => None,
    }
}

/// `function(arguments)`, the cursor being on the `(`.
fn parse_call_expression(p: &mut Parser, function: Expression) -> (e: Option<Expression>)
    requires
        old(p).wf(),
        current(old(p).tokens(), old(p).position()).token_type == TokenType::LeftParen,
    ensures
        final(p).follows(*old(p), infix(old(p).tokens(), old(p).position(), function@)),
        expression_option(e) == infix(old(p).tokens(), old(p).position(), function@).value,
    decreases ahead(old(p).tokens(), old(p).position()), 29int,
{
    let token = p.cur_token().clone();
    match p.parse_call_argument() {
        Some(arguments) => {
            let call = CallExpression { token, callee: Box::new(function), arguments };
            proof {
                lemma_call_arguments(call);
            }
            Some(Expression::CallExpression(call))
        },
        None => None,
    }
}

/// `variable in source)`, the cursor being on the `in`: the clause of a
/// `for` loop over a sequence. What stands before the `in` has to be a name;
/// where it is not, a diagnostic is recorded at its token and nothing is
/// built. The closing parenthesis of the loop's head is taken in.
pub fn parse_conditional_iter_expression(p: &mut Parser, variable: Expression) -> (e: Option<
    Expression,
>)
    requires
        old(p).wf(),
    ensures
        final(p).follows(
            *old(p),
            conditional_iterator(old(p).tokens(), old(p).position(), variable@),
        ),
        expression_option(e) == match conditional_iterator(
            old(p).tokens(),
            old(p).position(),
            variable@,
        ).value {
            Some(c) => Some(ExpressionView::ConditionalIterator(c)),
            None => None,
        },
    decreases ahead(old(p).tokens(), old(p).position()), 29int,
{
    let ghost d0 = p.diagnostics();
    let ghost t = p.tokens();
    let ghost a0 = p.position();
    let ghost found = expression(t, a0 + 1, LOWEST as nat);
    let ghost missing = unexpected(t, a0 + 1 + found.consumed, TokenType::RightParen);
    let token = p.cur_token().clone();
    match variable {
        Expression::Identifier(ident) => {
            p.next_token();
            let source = p.parse_expression(LOWEST);
            if !p.expect_peek(TokenType::RightParen) {
                proof {
                    lemma_concat_assoc(d0, found.errors, seq![missing]);
                }
                return None;
            }
            match source {
                Some(source) => {
                    let clause = ConditionalIteratorExpression {
                        token,
                        variable: ident,
                        source: Box::new(source),
                    };
                    proof {
                        assert(clause@.source == Box::new(source@));
                    }
                    Some(Expression::ConditionalIteratorExpression(clause))
                },
                None => None,
            }
        },
        other => {
            assert(!(other@ is Identifier));
            let at = other.token();
            let msg = unexpected_token(at.position, TokenType::Identifier, at.token_type);
            p.record(msg);
            None
        },
    }
}

/// `start..end`, the cursor being on the `..`.
fn parse_range_expression(p: &mut Parser, start: Expression) -> (e: Option<Expression>)
    requires
        old(p).wf(),
        current(old(p).tokens(), old(p).position()).token_type == TokenType::Range,
    ensures
        final(p).follows(*old(p), infix(old(p).tokens(), old(p).position(), start@)),
        expression_option(e) == infix(old(p).tokens(), old(p).position(), start@).value,
    decreases ahead(old(p).tokens(), old(p).position()), 29int,
{
    let token = p.cur_token().clone();
    let precedence = p.cur_precedence();
    p.next_token();
    match p.parse_expression(precedence) {
        Some(end) => Some(
            Expression::RangeExpression(
                IteratorLiteral { token, start: Box::new(start), end: Box::new(end) },
            ),
        ),
        None => None,
    }
}

/// The part of an expression that the token under the cursor starts.
pub(crate) fn parse_prefix_func(p: &mut Parser) -> (e: Option<Expression>)
    requires
        old(p).wf(),
    ensures
        final(p).follows(*old(p), prefix(old(p).tokens(), old(p).position())),
        expression_option(e) == prefix(old(p).tokens(), old(p).position()).value,
    decreases ahead(old(p).tokens(), old(p).position()), 7int,
{
    proof {
        lemma_concat_none(p.diagnostics());
    }
    match p.cur_token().token_type {
        TokenType::Identifier => Some(parse_identifier(p)),
        TokenType::IntegerLiteral => parse_integer_literal(p),
        TokenType::Bang => parse_prefix_expression(p),
        TokenType::Minus => parse_prefix_expression(p),
        TokenType::True | TokenType::False => Some(parse_boolean(p)),
        TokenType::LeftParen => parse_grouped_expression(p),
        TokenType::If => parse_if_expression(p),
        TokenType::Function => parse_fn_literal(p),
        _ => {
            p.no_prefix_parse_fn_error();
            None
        },
    }
}

/// `operator operand`, the cursor being on the operator.
fn parse_prefix_expression(p: &mut Parser) -> (e: Option<Expression>)
    requires
        old(p).wf(),
        current(old(p).tokens(), old(p).position()).token_type == TokenType::Bang || current(
            old(p).tokens(),
            old(p).position(),
        ).token_type == TokenType::Minus,
    ensures
        final(p).follows(*old(p), prefix(old(p).tokens(), old(p).position())),
        expression_option(e) == prefix(old(p).tokens(), old(p).position()).value,
    decreases ahead(old(p).tokens(), old(p).position()), 6int,
{
    let token = p.cur_token().clone();
    let operator = token.literal.clone();
    p.next_token();
    match p.parse_expression(PREFIX) {
        Some(right) => Some(
            Expression::PrefixExpression(
                PrefixExpression { token, operator, right: Box::new(right) },
            ),
        ),
        None => None,
    }
}

/// The name under the cursor.
fn parse_identifier(p: &Parser) -> (e: Expression)
    requires
        p.wf(),
    ensures
        e@ == ExpressionView::Identifier(identifier_of(current(p.tokens(), p.position()))),
{
    let token = p.cur_token().clone();
    let name = token.literal.clone();
    Expression::Identifier(Identifier { token, name })
}

/// The integer literal under the cursor. A literal that writes a number too
/// large for a signed 64-bit integer starts no expression, which is recorded.
fn parse_integer_literal(p: &mut Parser) -> (e: Option<Expression>)
    requires
        old(p).wf(),
        current(old(p).tokens(), old(p).position()).token_type == TokenType::IntegerLiteral,
    ensures
        final(p).follows(*old(p), prefix(old(p).tokens(), old(p).position())),
        expression_option(e) == prefix(old(p).tokens(), old(p).position()).value,
{
    proof {
        lemma_concat_none(p.diagnostics());
    }
    let token = p.cur_token().clone();
    match parse_integer(token.literal.as_str()) {
        Some(value) => Some(Expression::IntegerLiteral(IntegerLiteral { token, value })),
        None => {
            p.no_prefix_parse_fn_error();
            None
        },
    }
}

/// The boolean literal under the cursor.
fn parse_boolean(p: &Parser) -> (e: Expression)
    requires
        p.wf(),
    ensures
        e@ == (ExpressionView::BooleanLiteral {
            token: current(p.tokens(), p.position()),
            value: current(p.tokens(), p.position()).token_type == TokenType::True,
        }),
{
    Expression::BooleanLiteral(
        BooleanLiteral { token: p.cur_token().clone(), value: p.cur_token_is(TokenType::True) },
    )
}

/// `(expression)`, the cursor being on the `(`.
fn parse_grouped_expression(p: &mut Parser) -> (e: Option<Expression>)
    requires
        old(p).wf(),
        current(old(p).tokens(), old(p).position()).token_type == TokenType::LeftParen,
    ensures
        final(p).follows(*old(p), prefix(old(p).tokens(), old(p).position())),
        expression_option(e) == prefix(old(p).tokens(), old(p).position()).value,
    decreases ahead(old(p).tokens(), old(p).position()), 6int,
{
    let ghost d0 = p.diagnostics();
    let ghost t = p.tokens();
    let ghost a0 = p.position();
    let ghost inner = expression(t, a0 + 1, LOWEST as nat);
    p.next_token();
    let exp = p.parse_expression(LOWEST);
    if !p.expect_peek(TokenType::RightParen) {
        proof {
            lemma_concat_assoc(
                d0,
                inner.errors,
                seq![unexpected(t, a0 + 1 + inner.consumed, TokenType::RightParen)],
            );
        }
        return None;
    }
    exp
}

/// `if (condition) { consequence } else { alternative }`, the cursor being
/// on the `if` and the `else` part being optional.
fn parse_if_expression(p: &mut Parser) -> (e: Option<Expression>)
    requires
        old(p).wf(),
    ensures
        final(p).follows(*old(p), if_expression(old(p).tokens(), old(p).position())),
        expression_option(e) == if_expression(old(p).tokens(), old(p).position()).value,
    decreases ahead(old(p).tokens(), old(p).position()), 6int,
{
    let ghost d0 = p.diagnostics();
    let ghost t = p.tokens();
    let ghost a0 = p.position();
    let ghost found = expression(t, a0 + 2, LOWEST as nat);
    let ghost n = 2 + found.consumed;
    let token = p.cur_token().clone();
    if !p.expect_peek(TokenType::LeftParen) {
        return None;
    }
    p.next_token();
    let condition = p.parse_expression(LOWEST);
    if !p.expect_peek(TokenType::RightParen) {
        proof {
            lemma_concat_assoc(
                d0,
                found.errors,
                seq![unexpected(t, a0 + n, TokenType::RightParen)],
            );
        }
        return None;
    }
    if !p.expect_peek(TokenType::LeftBrace) {
        proof {
            lemma_concat_assoc(
                d0,
                found.errors,
                seq![unexpected(t, a0 + n + 1, TokenType::LeftBrace)],
            );
        }
        return None;
    }
    let ghost first = block(t, a0 + n + 2);
    let ghost m = n + 2 + first.consumed;
    let consequence = p.parse_block_statement();
    proof {
        lemma_concat_assoc(d0, found.errors, first.errors);
    }
    let mut alternative = None;
    if p.peek_token_is(&TokenType::Else) {
        p.next_token();
        if !p.expect_peek(TokenType::LeftBrace) {
            proof {
                lemma_concat_assoc(
                    d0,
                    found.errors + first.errors,
                    seq![unexpected(t, a0 + m + 1, TokenType::LeftBrace)],
                );
            }
            return None;
        }
        let ghost second = block(t, a0 + m + 2);
        alternative = Some(p.parse_block_statement());
        proof {
            lemma_concat_assoc(d0, found.errors + first.errors, second.errors);
        }
    }
    match condition {
        Some(condition) => Some(
            Expression::IfExpression(
                IfExpression { token, condition: Box::new(condition), consequence, alternative },
            ),
        ),
        None => None,
    }
}

/// `fn(parameters) { body }`, the cursor being on the `fn`.
fn parse_fn_literal(p: &mut Parser) -> (e: Option<Expression>)
    requires
        old(p).wf(),
    ensures
        final(p).follows(*old(p), function_literal(old(p).tokens(), old(p).position())),
        expression_option(e) == function_literal(old(p).tokens(), old(p).position()).value,
    decreases ahead(old(p).tokens(), old(p).position()), 6int,
{
    let ghost d0 = p.diagnostics();
    let ghost t = p.tokens();
    let ghost a0 = p.position();
    let ghost names = parameters(t, a0 + 1);
    let ghost n = 1 + names.consumed;
    let token = p.cur_token().clone();
    if !p.expect_peek(TokenType::LeftParen) {
        return None;
    }
    let parameters = match p.parse_fn_parameters() {
        Some(parameters) => parameters,
        None => {
            return None;
        },
    };
    if !p.expect_peek(TokenType::LeftBrace) {
        proof {
            lemma_concat_assoc(
                d0,
                names.errors,
                seq![unexpected(t, a0 + n, TokenType::LeftBrace)],
            );
        }
        return None;
    }
    let ghost found = block(t, a0 + n + 1);
    let body = p.parse_block_statement();
    proof {
        lemma_concat_assoc(d0, names.errors, found.errors);
    }
    Some(Expression::FunctionLiteral(FunctionLiteral { token, parameters, body }))
}

} // verus!
