//! The grammar: what a parse of a sequence of tokens yields.
//!
//! Each function here takes the tokens that lie before the parser, the first
//! being the token under its cursor, and gives the outcome of parsing one
//! construct: the tree that was built, or none where the tokens do not make
//! the construct; how many times the cursor moved on; and the diagnostics that
//! were recorded, in order. Expressions are parsed by precedence climbing:
//! a prefix part, then infix parts for as long as the operator that follows
//! binds tighter than the level asked for.

use vstd::prelude::*;

use crate::ast::{
    expression_token, BlockView, ConditionalIteratorView, ExpressionView, ForLoopConditionView,
    IdentifierView, StatementView,
};
use crate::text::{decimal, integer_value};
use crate::token::{ahead, current, kind_name, peek, Position, TokenType, TokenView};

verus! {

/// The level at which any operator may follow.
pub const LOWEST: u8 = 0;

/// `==` and `!=`.
pub const EQUALS: u8 = 1;

/// `<` and `>`.
pub const LESSGREATER: u8 = 2;

/// `..`
pub const RANGE: u8 = 3;

/// `in`
pub const IN: u8 = 4;

/// `+` and `-` between two operands.
pub const SUM: u8 = 5;

/// `*` and `/`.
pub const PRODUCT: u8 = 6;

/// `!` and `-` before an operand.
pub const PREFIX: u8 = 7;

/// `(` after a callee.
pub const CALL: u8 = 8;

/// How tightly a token binds as an infix operator. A token that is no infix
/// operator binds at the lowest level.
pub open spec fn precedence_of(t: TokenType) -> u8 {
    match t {
        TokenType::Equal | TokenType::NotEqual => EQUALS,
        TokenType::LessThan | TokenType::GreaterThan => LESSGREATER,
        TokenType::Range => RANGE,
        TokenType::In => IN,
        TokenType::Plus | TokenType::Minus => SUM,
        TokenType::Slash | TokenType::Asterisk => PRODUCT,
        TokenType::LeftParen => CALL,
        _ => LOWEST,
    }
}

/// The diagnostic for a token of the wrong kind: the place it is reported at,
/// the kind that was required and the kind that was found.
pub open spec fn unexpected_token_message(
    at: Position,
    expected: TokenType,
    actual: TokenType,
) -> Seq<char> {
    decimal(at.0 as nat) + ":"@ + decimal(at.1 as nat) + " \u{2014} expected next token to be "@
        + kind_name(expected) + ", got "@ + kind_name(actual) + " instead"@
}

/// The diagnostic for a token that no expression can start with.
pub open spec fn no_prefix_message(token: TokenView) -> Seq<char> {
    "no prefix parse function for "@ + token.literal + " found"@
}

/// The diagnostic recorded where the token after the cursor had to be of kind
/// `expected` and is not: it is reported at the token under the cursor.
pub open spec fn unexpected(tokens: Seq<TokenView>, at: nat, expected: TokenType) -> Seq<char> {
    unexpected_token_message(current(tokens, at).position, expected, peek(tokens, at).token_type)
}

/// Lists that are put together in steps read the same however the steps are
/// grouped.
pub proof fn lemma_concat_assoc<T>(a: Seq<T>, b: Seq<T>, c: Seq<T>)
    ensures
        (a + b) + c == a + (b + c),
{
    assert((a + b) + c =~= a + (b + c));
}

/// Adding nothing to a list changes nothing.
pub proof fn lemma_concat_none<T>(a: Seq<T>)
    ensures
        a + Seq::<T>::empty() == a,
        Seq::<T>::empty() + a == a,
{
    assert(a + Seq::<T>::empty() =~= a);
    assert(Seq::<T>::empty() + a =~= a);
}

/// The outcome of parsing one construct.
pub struct Outcome<T> {
    /// What was built.
    pub value: T,
    /// How many times the cursor moved on.
    pub consumed: nat,
    /// The diagnostics that were recorded, in order.
    pub errors: Seq<Seq<char>>,
}

/// The outcome of a construct that was not found: nothing built.
pub open spec fn fail<T>(consumed: nat, errors: Seq<Seq<char>>) -> Outcome<Option<T>> {
    Outcome { value: None, consumed, errors }
}

/// The outcome `next`, reached after the cursor had moved on `consumed` times
/// and `errors` had been recorded.
pub open spec fn then<T>(consumed: nat, errors: Seq<Seq<char>>, next: Outcome<T>) -> Outcome<T> {
    Outcome { value: next.value, consumed: consumed + next.consumed, errors: errors + next.errors }
}

/// The identifier that a token names.
pub open spec fn identifier_of(token: TokenView) -> IdentifierView {
    IdentifierView { token, name: token.literal }
}

/// 1 where a semicolon follows the token under the cursor, and 0 otherwise:
/// how far the cursor moves to take in the semicolon that may end a statement.
pub open spec fn semicolon(tokens: Seq<TokenView>, at: nat) -> nat {
    if peek(tokens, at).token_type == TokenType::Semicolon {
        1
    } else {
        0
    }
}

/// An expression that binds tighter than `min`, starting at the token under
/// the cursor. The cursor ends on the last token of the expression.
pub open spec fn expression(
    tokens: Seq<TokenView>,
    at: nat,
    min: nat,
) -> Outcome<Option<ExpressionView>>
    decreases ahead(tokens, at), 8int,
{
    let first = prefix(tokens, at);
    match first.value {
        Some(left) => then(
            first.consumed,
            first.errors,
            infix_chain(tokens, at + first.consumed, left, min),
        ),
        None => first,
    }
}

/// The part of an expression that its first token decides: a name, a literal,
/// an operator with its operand, an expression in parentheses, an `if` or a
/// function literal. Any other token starts no expression, which is recorded.
/// After `(` the closing `)` is required also where what stands between the
/// two is no expression.
pub open spec fn prefix(tokens: Seq<TokenView>, at: nat) -> Outcome<Option<ExpressionView>>
    decreases ahead(tokens, at), 7int,
{
    let token = current(tokens, at);
    match token.token_type {
        TokenType::Identifier => Outcome {
            value: Some(ExpressionView::Identifier(identifier_of(token))),
            consumed: 0,
            errors: Seq::empty(),
        },
        TokenType::IntegerLiteral => match integer_value(token.literal) {
            Some(value) => Outcome {
                value: Some(ExpressionView::IntegerLiteral { token, value }),
                consumed: 0,
                errors: Seq::empty(),
            },
            None => fail(0, seq![no_prefix_message(token)]),
        },
        TokenType::True | TokenType::False => Outcome {
            value: Some(
                ExpressionView::BooleanLiteral {
                    token,
                    value: token.token_type == TokenType::True,
                },
            ),
            consumed: 0,
            errors: Seq::empty(),
        },
        TokenType::Bang | TokenType::Minus => {
            let operand = expression(tokens, at + 1, PREFIX as nat);
            Outcome {
                value: match operand.value {
                    Some(right) => Some(
                        ExpressionView::Prefix {
                            token,
                            operator: token.literal,
                            right: Box::new(right),
                        },
                    ),
                    None => None,
                },
                consumed: 1 + operand.consumed,
                errors: operand.errors,
            }
        },
        TokenType::LeftParen => {
            let inner = expression(tokens, at + 1, LOWEST as nat);
            if peek(tokens, at + 1 + inner.consumed).token_type != TokenType::RightParen {
                fail(
                    1 + inner.consumed,
                    inner.errors + seq![
                        unexpected(tokens, at + 1 + inner.consumed, TokenType::RightParen),
                    ],
                )
            } else {
                Outcome { value: inner.value, consumed: 2 + inner.consumed, errors: inner.errors }
            }
        },
        TokenType::If => if_expression(tokens, at),
        TokenType::Function => function_literal(tokens, at),
        _ => fail(0, seq![no_prefix_message(token)]),
    }
}

/// The infix parts that follow the expression `left`: for as long as the
/// token after the cursor is no semicolon and binds tighter than `min`, it is
/// taken as an operator with `left` as its left operand, and the result is the
/// next `left`. Operators of one level therefore group to the left.
pub open spec fn infix_chain(
    tokens: Seq<TokenView>,
    at: nat,
    left: ExpressionView,
    min: nat,
) -> Outcome<
    Option<ExpressionView>,
>
    decreases ahead(tokens, at), 7int,
{
    if peek(tokens, at).token_type != TokenType::Semicolon && min < precedence_of(
        peek(tokens, at).token_type,
    ) {
        let step = infix(tokens, at + 1, left);
        match step.value {
            Some(e) => then(
                1 + step.consumed,
                step.errors,
                infix_chain(tokens, at + 1 + step.consumed, e, min),
            ),
            None => fail(1 + step.consumed, step.errors),
        }
    } else {
        Outcome { value: Some(left), consumed: 0, errors: Seq::empty() }
    }
}

/// One infix part: the operator under the cursor with `left` before it. An
/// arithmetic or comparison operator and `..` take an operand that binds
/// tighter than they do; `(` takes a list of arguments; `in` takes a source.
pub open spec fn infix(tokens: Seq<TokenView>, at: nat, left: ExpressionView) -> Outcome<
    Option<ExpressionView>,
>
    decreases ahead(tokens, at), 30int,
{
    let token = current(tokens, at);
    match token.token_type {
        TokenType::Plus
        | TokenType::Minus
        | TokenType::Slash
        | TokenType::Asterisk
        | TokenType::Equal
        | TokenType::NotEqual
        | TokenType::LessThan
        | TokenType::GreaterThan => {
            let operand = expression(tokens, at + 1, precedence_of(token.token_type) as nat);
            Outcome {
                value: match operand.value {
                    Some(right) => Some(
                        ExpressionView::Infix {
                            token,
                            operator: token.literal,
                            left: Box::new(left),
                            right: Box::new(right),
                        },
                    ),
                    None => None,
                },
                consumed: 1 + operand.consumed,
                errors: operand.errors,
            }
        },
        TokenType::LeftParen => {
            let list = arguments(tokens, at);
            Outcome {
                value: match list.value {
                    Some(items) => Some(
                        ExpressionView::Call { token, callee: Box::new(left), arguments: items },
                    ),
                    None => None,
                },
                consumed: list.consumed,
                errors: list.errors,
            }
        },
        TokenType::In => {
            let clause = conditional_iterator(tokens, at, left);
            Outcome {
                value: match clause.value {
                    Some(c) => Some(ExpressionView::ConditionalIterator(c)),
                    None => None,
                },
                consumed: clause.consumed,
                errors: clause.errors,
            }
        },
        TokenType::Range => {
            let operand = expression(tokens, at + 1, precedence_of(token.token_type) as nat);
            Outcome {
                value: match operand.value {
                    Some(end) => Some(
                        ExpressionView::Range {
                            token,
                            start: Box::new(left),
                            end: Box::new(end),
                        },
                    ),
                    None => None,
                },
                consumed: 1 + operand.consumed,
                errors: operand.errors,
            }
        },
        _ => fail(0, Seq::empty()),
    }
}

/// The clause `variable in source)` of a `for` loop, the cursor being on
/// `in` and `left` being what stands before it. `left` has to be a name;
/// where it is not, that is recorded at its token. The clause takes in the
/// closing parenthesis of the loop's head, also where the source is no
/// expression and nothing is built.
pub open spec fn conditional_iterator(
    tokens: Seq<TokenView>,
    at: nat,
    left: ExpressionView,
) -> Outcome<
    Option<ConditionalIteratorView>,
>
    decreases ahead(tokens, at), 29int,
{
    let token = current(tokens, at);
    match left {
        ExpressionView::Identifier(variable) => {
            let source = expression(tokens, at + 1, LOWEST as nat);
            if peek(tokens, at + 1 + source.consumed).token_type == TokenType::RightParen {
                Outcome {
                    value: match source.value {
                        Some(s) => Some(
                            ConditionalIteratorView { token, variable, source: Box::new(s) },
                        ),
                        None => None,
                    },
                    consumed: 2 + source.consumed,
                    errors: source.errors,
                }
            } else {
                fail(
                    1 + source.consumed,
                    source.errors + seq![
                        unexpected(tokens, at + 1 + source.consumed, TokenType::RightParen),
                    ],
                )
            }
        },
        _ => fail(
            0,
            seq![
                unexpected_token_message(
                    expression_token(left).position,
                    TokenType::Identifier,
                    expression_token(left).token_type,
                ),
            ],
        ),
    }
}

/// The arguments of a call, the cursor being on the `(`: expressions
/// separated by commas, up to and with the `)`.
pub open spec fn arguments(tokens: Seq<TokenView>, at: nat) -> Outcome<Option<Seq<ExpressionView>>>
    decreases ahead(tokens, at), 29int,
{
    if peek(tokens, at).token_type == TokenType::RightParen {
        Outcome { value: Some(Seq::empty()), consumed: 1, errors: Seq::empty() }
    } else {
        let first = expression(tokens, at + 1, LOWEST as nat);
        match first.value {
            Some(e) => then(
                1 + first.consumed,
                first.errors,
                more_arguments(tokens, at + 1 + first.consumed, seq![e]),
            ),
            None => fail(1 + first.consumed, first.errors),
        }
    }
}

/// The arguments that follow `items`, the cursor being on the last token of
/// the argument before: after each comma one more, then the `)`.
pub open spec fn more_arguments(
    tokens: Seq<TokenView>,
    at: nat,
    items: Seq<ExpressionView>,
) -> Outcome<
    Option<Seq<ExpressionView>>,
>
    decreases ahead(tokens, at), 28int,
{
    if peek(tokens, at).token_type == TokenType::Comma {
        let item = expression(tokens, at + 2, LOWEST as nat);
        match item.value {
            Some(e) => then(
                2 + item.consumed,
                item.errors,
                more_arguments(tokens, at + 2 + item.consumed, items.push(e)),
            ),
            None => fail(2 + item.consumed, item.errors),
        }
    } else if peek(tokens, at).token_type == TokenType::RightParen {
        Outcome { value: Some(items), consumed: 1, errors: Seq::empty() }
    } else {
        fail(0, seq![unexpected(tokens, at, TokenType::RightParen)])
    }
}

/// The parameters of a function literal, the cursor being on the `(`: names
/// separated by commas, up to and with the `)`.
pub open spec fn parameters(
    tokens: Seq<TokenView>,
    at: nat,
) -> Outcome<Option<Seq<IdentifierView>>> {
    if peek(tokens, at).token_type == TokenType::RightParen {
        Outcome { value: Some(Seq::empty()), consumed: 1, errors: Seq::empty() }
    } else if peek(tokens, at).token_type == TokenType::Identifier {
        then(
            1,
            Seq::empty(),
            more_parameters(tokens, at + 1, seq![identifier_of(peek(tokens, at))]),
        )
    } else {
        fail(0, seq![unexpected(tokens, at, TokenType::Identifier)])
    }
}

/// The parameters that follow `names`, the cursor being on the last name:
/// after each comma one more name, then the `)`.
pub open spec fn more_parameters(
    tokens: Seq<TokenView>,
    at: nat,
    names: Seq<IdentifierView>,
) -> Outcome<
    Option<Seq<IdentifierView>>,
>
    decreases ahead(tokens, at),
{
    if peek(tokens, at).token_type == TokenType::Comma {
        if peek(tokens, at + 1).token_type == TokenType::Identifier {
            then(
                2,
                Seq::empty(),
                more_parameters(tokens, at + 2, names.push(identifier_of(peek(tokens, at + 1)))),
            )
        } else {
            fail(1, seq![unexpected(tokens, at + 1, TokenType::Identifier)])
        }
    } else if peek(tokens, at).token_type == TokenType::RightParen {
        Outcome { value: Some(names), consumed: 1, errors: Seq::empty() }
    } else {
        fail(0, seq![unexpected(tokens, at, TokenType::RightParen)])
    }
}

/// `if (condition) { consequence }`, and `else { alternative }` where an
/// `else` follows, the cursor being on the `if`. Where the condition is no
/// expression the rest is read all the same, and nothing is built.
pub open spec fn if_expression(tokens: Seq<TokenView>, at: nat) -> Outcome<Option<ExpressionView>>
    decreases ahead(tokens, at), 6int,
{
    let token = current(tokens, at);
    if peek(tokens, at).token_type != TokenType::LeftParen {
        fail(0, seq![unexpected(tokens, at, TokenType::LeftParen)])
    } else {
        let condition = expression(tokens, at + 2, LOWEST as nat);
        let n = 2 + condition.consumed;
        if peek(tokens, at + n).token_type != TokenType::RightParen {
            fail(n, condition.errors + seq![unexpected(tokens, at + n, TokenType::RightParen)])
        } else if peek(tokens, at + n + 1).token_type != TokenType::LeftBrace {
            fail(
                n + 1,
                condition.errors + seq![unexpected(tokens, at + n + 1, TokenType::LeftBrace)],
            )
        } else {
            let consequence = block(tokens, at + n + 2);
            let m = n + 2 + consequence.consumed;
            let errors = condition.errors + consequence.errors;
            if peek(tokens, at + m).token_type != TokenType::Else {
                Outcome {
                    value: match condition.value {
                        Some(c) => Some(
                            ExpressionView::If {
                                token,
                                condition: Box::new(c),
                                consequence: consequence.value,
                                alternative: None,
                            },
                        ),
                        None => None,
                    },
                    consumed: m,
                    errors,
                }
            } else if peek(tokens, at + m + 1).token_type != TokenType::LeftBrace {
                fail(m + 1, errors + seq![unexpected(tokens, at + m + 1, TokenType::LeftBrace)])
            } else {
                let alternative = block(tokens, at + m + 2);
                Outcome {
                    value: match condition.value {
                        Some(c) => Some(
                            ExpressionView::If {
                                token,
                                condition: Box::new(c),
                                consequence: consequence.value,
                                alternative: Some(alternative.value),
                            },
                        ),
                        None => None,
                    },
                    consumed: m + 2 + alternative.consumed,
                    errors: errors + alternative.errors,
                }
            }
        }
    }
}

/// `fn(parameters) { body }`, the cursor being on the `fn`.
pub open spec fn function_literal(
    tokens: Seq<TokenView>,
    at: nat,
) -> Outcome<Option<ExpressionView>>
    decreases ahead(tokens, at), 6int,
{
    let token = current(tokens, at);
    if peek(tokens, at).token_type != TokenType::LeftParen {
        fail(0, seq![unexpected(tokens, at, TokenType::LeftParen)])
    } else {
        let names = parameters(tokens, at + 1);
        let n = 1 + names.consumed;
        if names.value is None {
            fail(n, names.errors)
        } else if peek(tokens, at + n).token_type != TokenType::LeftBrace {
            fail(n, names.errors + seq![unexpected(tokens, at + n, TokenType::LeftBrace)])
        } else {
            let body = block(tokens, at + n + 1);
            Outcome {
                value: Some(
                    ExpressionView::Function {
                        token,
                        parameters: names.value->0,
                        body: body.value,
                    },
                ),
                consumed: n + 1 + body.consumed,
                errors: names.errors + body.errors,
            }
        }
    }
}

/// A block, the cursor being on its `{`: the statements up to the `}` that
/// closes it, or up to the end of the input. The cursor ends on that `}`.
pub open spec fn block(tokens: Seq<TokenView>, at: nat) -> Outcome<BlockView>
    decreases ahead(tokens, at), 20int,
{
    let body = block_statements(tokens, at + 1);
    Outcome {
        value: BlockView { token: current(tokens, at), statements: body.value },
        consumed: 1 + body.consumed,
        errors: body.errors,
    }
}

/// The statements of a block from the token under the cursor on: one
/// statement after the other, with one token passed over after each, until
/// the cursor is on a `}` or at the end of the input. Where no statement could
/// be made of the tokens, none is added, and the parse goes on.
pub open spec fn block_statements(tokens: Seq<TokenView>, at: nat) -> Outcome<Seq<StatementView>>
    decreases ahead(tokens, at), 19int,
{
    if current(tokens, at).token_type == TokenType::RightBrace || current(tokens, at).token_type
        == TokenType::EndOfInput {
        Outcome { value: Seq::empty(), consumed: 0, errors: Seq::empty() }
    } else {
        let first = statement(tokens, at);
        let rest = block_statements(tokens, at + first.consumed + 1);
        Outcome {
            value: match first.value {
                Some(s) => seq![s] + rest.value,
                None => rest.value,
            },
            consumed: first.consumed + 1 + rest.consumed,
            errors: first.errors + rest.errors,
        }
    }
}

/// One statement, chosen by the token under the cursor: `let`, `return`,
/// `for`, and an expression for every other token. The cursor ends on the last
/// token of the statement.
pub open spec fn statement(tokens: Seq<TokenView>, at: nat) -> Outcome<Option<StatementView>>
    decreases ahead(tokens, at), 18int,
{
    match current(tokens, at).token_type {
        TokenType::Let => let_statement(tokens, at),
        TokenType::Return => return_statement(tokens, at),
        TokenType::For => for_statement(tokens, at),
        _ => expression_statement(tokens, at),
    }
}

/// `let name = value`, and the semicolon after it where there is one.
pub open spec fn let_statement(tokens: Seq<TokenView>, at: nat) -> Outcome<Option<StatementView>>
    decreases ahead(tokens, at), 17int,
{
    let token = current(tokens, at);
    if peek(tokens, at).token_type != TokenType::Identifier {
        fail(0, seq![unexpected(tokens, at, TokenType::Identifier)])
    } else if peek(tokens, at + 1).token_type != TokenType::Assign {
        fail(1, seq![unexpected(tokens, at + 1, TokenType::Assign)])
    } else {
        let value = expression(tokens, at + 3, LOWEST as nat);
        let n = 3 + value.consumed;
        Outcome {
            value: match value.value {
                Some(v) => Some(
                    StatementView::Let { token, name: identifier_of(peek(tokens, at)), value: v },
                ),
                None => None,
            },
            consumed: n + semicolon(tokens, at + n),
            errors: value.errors,
        }
    }
}

/// `return value`, and the semicolon after it where there is one. Where a
/// semicolon follows the `return` at once, there is no value.
pub open spec fn return_statement(tokens: Seq<TokenView>, at: nat) -> Outcome<Option<StatementView>>
    decreases ahead(tokens, at), 17int,
{
    let token = current(tokens, at);
    if peek(tokens, at).token_type == TokenType::Semicolon {
        Outcome {
            value: Some(StatementView::Return { token, value: None }),
            consumed: 1 + semicolon(tokens, at + 1),
            errors: Seq::empty(),
        }
    } else {
        let value = expression(tokens, at + 1, LOWEST as nat);
        let n = 1 + value.consumed;
        Outcome {
            value: Some(StatementView::Return { token, value: value.value }),
            consumed: n + semicolon(tokens, at + n),
            errors: value.errors,
        }
    }
}

/// An expression as a statement, and the semicolon after it where there is
/// one.
pub open spec fn expression_statement(
    tokens: Seq<TokenView>,
    at: nat,
) -> Outcome<Option<StatementView>>
    decreases ahead(tokens, at), 17int,
{
    let token = current(tokens, at);
    let value = expression(tokens, at, LOWEST as nat);
    Outcome {
        value: match value.value {
            Some(v) => Some(StatementView::Expression { token, value: v }),
            None => None,
        },
        consumed: value.consumed + semicolon(tokens, at + value.consumed),
        errors: value.errors,
    }
}

/// A `for` loop, the cursor being on the `for`. `for {` starts a bare loop.
/// Otherwise a `(` and an expression follow, and the kind of that expression
/// decides: an `in` clause makes a loop over a sequence, an infix expression
/// followed by `)` a loop with a condition, and anything else is refused.
pub open spec fn for_statement(tokens: Seq<TokenView>, at: nat) -> Outcome<Option<StatementView>>
    decreases ahead(tokens, at), 17int,
{
    let token = current(tokens, at);
    if peek(tokens, at).token_type == TokenType::LeftBrace {
        let body = block(tokens, at + 1);
        let n = 1 + body.consumed;
        Outcome {
            value: Some(
                StatementView::ForLoop {
                    token,
                    condition: ForLoopConditionView::Bare,
                    body: body.value,
                },
            ),
            consumed: n + semicolon(tokens, at + n),
            errors: body.errors,
        }
    } else if peek(tokens, at).token_type != TokenType::LeftParen {
        fail(0, seq![unexpected(tokens, at, TokenType::LeftParen)])
    } else {
        let head = expression(tokens, at + 2, LOWEST as nat);
        let n = 2 + head.consumed;
        match head.value {
            Some(ExpressionView::ConditionalIterator(clause)) => for_body(
                tokens,
                at,
                ForLoopConditionView::ForIn(clause),
                n,
                head.errors,
            ),
            Some(ExpressionView::Infix { token: t, operator, left, right }) => if peek(
                tokens, at + n,
            ).token_type == TokenType::RightParen {
                for_body(
                    tokens,
                    at,
                    ForLoopConditionView::While(
                        ExpressionView::Infix { token: t, operator, left, right },
                    ),
                    n + 1,
                    head.errors,
                )
            } else {
                fail(n, head.errors + seq![unexpected(tokens, at + n, TokenType::RightParen)])
            },
            Some(_) => fail(n, head.errors + seq![unexpected(tokens, at + n, TokenType::In)]),
            None => fail(n, head.errors),
        }
    }
}

/// The body of a `for` loop whose head has been read with `n` moves and
/// `errors`: the `{` has to follow, then the block, and the semicolon after it
/// where there is one.
pub open spec fn for_body(
    tokens: Seq<TokenView>,
    at: nat,
    condition: ForLoopConditionView,
    n: nat,
    errors: Seq<Seq<char>>,
) -> Outcome<Option<StatementView>>
    decreases ahead(tokens, at), 16int,
{
    if peek(tokens, at + n).token_type != TokenType::LeftBrace {
        fail(n, errors + seq![unexpected(tokens, at + n, TokenType::LeftBrace)])
    } else {
        let body = block(tokens, at + n + 1);
        let m = n + 1 + body.consumed;
        Outcome {
            value: Some(
                StatementView::ForLoop { token: current(tokens, at), condition, body: body.value },
            ),
            consumed: m + semicolon(tokens, at + m),
            errors: errors + body.errors,
        }
    }
}

/// A program: one statement after the other, with one token passed over
/// after each, until the end of the input. Where no statement could be made of
/// the tokens, none is added, and the parse goes on.
pub open spec fn program(tokens: Seq<TokenView>, at: nat) -> Outcome<Seq<StatementView>>
    decreases ahead(tokens, at), 21int,
{
    if current(tokens, at).token_type == TokenType::EndOfInput {
        Outcome { value: Seq::empty(), consumed: 0, errors: Seq::empty() }
    } else {
        let first = statement(tokens, at);
        let rest = program(tokens, at + first.consumed + 1);
        Outcome {
            value: match first.value {
                Some(s) => seq![s] + rest.value,
                None => rest.value,
            },
            consumed: first.consumed + 1 + rest.consumed,
            errors: first.errors + rest.errors,
        }
    }
}

} // verus!
