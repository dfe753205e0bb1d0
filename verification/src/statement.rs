//! Statements and programs: what the parser makes of the tokens before it,
//! one statement at a time.

use vstd::prelude::*;

use crate::ast::{
    expression_option, expressions_model, identifiers_model, lemma_block_statements,
    lemma_expressions_none, lemma_expressions_push, lemma_identifiers_none,
    lemma_identifiers_push, lemma_statements_none, lemma_statements_push, statement_option,
    statements_model, BlockStatement, Expression, ExpressionStatement, ExpressionView,
    ForLoopCondition, ForLoopConditionView, ForLoopExpression, Identifier, LetStatement, Program,
    ReturnStatemnt, Statement, StatementView,
};
use crate::grammar;
use crate::grammar::{identifier_of, lemma_concat_assoc, lemma_concat_none, LOWEST};
use crate::parse_func::{parse_infix_func, parse_prefix_func};
use crate::parser::Parser;
use crate::token::{ahead, current, peek, Token, TokenType};

verus! {

impl Parser {
    /// Parses the rest of the input as a program. The result holds every
    /// statement that could be parsed, in order; what could not be parsed is
    /// left out and recorded. The cursor ends at the end of the input.
    #[verifier::rlimit(50)]
    pub fn parse_program(&mut self) -> (program: Program)
        requires
            old(self).wf(),
        ensures
            final(self).follows(
                *old(self),
                grammar::program(old(self).tokens(), old(self).position()),
            ),
            program@.statements == grammar::program(old(self).tokens(), old(self).position()).value,
            current(final(self).tokens(), final(self).position()).token_type
                == TokenType::EndOfInput,
    {
        let ghost t = self.tokens();
        let ghost a0 = self.position();
        let ghost d0 = self.diagnostics();
        let ghost whole = grammar::program(t, a0);
        let ghost mut n: nat = 0;
        let ghost mut errs: Seq<Seq<char>> = Seq::empty();
        let mut statements: Vec<Statement> = Vec::new();
        proof {
            lemma_statements_none();
            lemma_concat_none(whole.value);
            lemma_concat_none(whole.errors);
            lemma_concat_none(d0);
            assert(statements@ == Seq::<Statement>::empty());
        }
        while !self.cur_token_is(TokenType::EndOfInput)
            invariant
                self.wf(),
                self.tokens() == t,
                self.position() == a0 + n,
                self.diagnostics() == d0 + errs,
                whole.value == statements_model(statements@) + grammar::program(t, a0 + n).value,
                whole.consumed == n + grammar::program(t, a0 + n).consumed,
                whole.errors == errs + grammar::program(t, a0 + n).errors,
            decreases ahead(self.tokens(), self.position()),
        {
            let ghost first = grammar::statement(t, a0 + n);
            let ghost after = grammar::program(t, a0 + n + first.consumed + 1);
            let ghost before = statements@;
            match self.parse_statement() {
                Some(stmt) => {
                    statements.push(stmt);
                    proof {
                        lemma_statements_push(before, stmt);
                        lemma_concat_assoc(statements_model(before), seq![stmt@], after.value);
                    }
                },
                None => {},
            }
            self.next_token();
            proof {
                lemma_concat_assoc(errs, first.errors, after.errors);
                lemma_concat_assoc(d0, errs, first.errors);
                n = n + first.consumed + 1;
                errs = errs + first.errors;
            }
        }
        proof {
            lemma_concat_none(statements_model(statements@));
            lemma_concat_none(errs);
        }
        Program { statements }
    }

    /// One statement, chosen by the token under the cursor.
    pub(crate) fn parse_statement(&mut self) -> (s: Option<Statement>)
        requires
            old(self).wf(),
        ensures
            final(self).follows(
                *old(self),
                grammar::statement(old(self).tokens(), old(self).position()),
            ),
            statement_option(s) == grammar::statement(
                old(self).tokens(),
                old(self).position(),
            ).value,
        decreases ahead(old(self).tokens(), old(self).position()), 18int,
    {
        match self.cur_token().token_type {
            TokenType::Let => self.parse_let_statement(),
            TokenType::Return => self.parse_return_statement(),
            TokenType::For => self.parse_for_expression(),
            _ => self.parse_expression_statement(),
        }
    }

    /// `let name = value`, and the semicolon after it where there is one.
    #[verifier::rlimit(50)]
    fn parse_let_statement(&mut self) -> (s: Option<Statement>)
        requires
            old(self).wf(),
        ensures
            final(self).follows(
                *old(self),
                grammar::let_statement(old(self).tokens(), old(self).position()),
            ),
            statement_option(s) == grammar::let_statement(
                old(self).tokens(),
                old(self).position(),
            ).value,
        decreases ahead(old(self).tokens(), old(self).position()), 17int,
    {
        let ghost t = self.tokens();
        let ghost a0 = self.position();
        let ghost d0 = self.diagnostics();
        let ghost whole = grammar::let_statement(t, a0);
        let token = self.cur_token().clone();
        if !self.expect_peek(TokenType::Identifier) {
            return None;
        }
        let name_token = self.cur_token().clone();
        let name = Identifier { name: name_token.literal.clone(), token: name_token };
        if !self.expect_peek(TokenType::Assign) {
            return None;
        }
        self.next_token();
        let ghost found = grammar::expression(t, a0 + 3, LOWEST as nat);
        let value = self.parse_expression(LOWEST);
        if self.peek_token_is(&TokenType::Semicolon) {
            self.next_token();
        }
        assert(whole.consumed == 3 + found.consumed + grammar::semicolon(
            t,
            a0 + 3 + found.consumed,
        ));
        assert(whole.errors == found.errors);
        match value {
            Some(value) => Some(Statement::LetStatement(LetStatement { token, name, value })),
            None => None,
        }
    }

    /// `return value`, and the semicolon after it where there is one.
    #[verifier::rlimit(50)]
    fn parse_return_statement(&mut self) -> (s: Option<Statement>)
        requires
            old(self).wf(),
        ensures
            final(self).follows(
                *old(self),
                grammar::return_statement(old(self).tokens(), old(self).position()),
            ),
            statement_option(s) == grammar::return_statement(
                old(self).tokens(),
                old(self).position(),
            ).value,
        decreases ahead(old(self).tokens(), old(self).position()), 17int,
    {
        let ghost t = self.tokens();
        let ghost a0 = self.position();
        let ghost d0 = self.diagnostics();
        let ghost whole = grammar::return_statement(t, a0);
        let token = self.cur_token().clone();
        if self.peek_token_is(&TokenType::Semicolon) {
            self.next_token();
            if self.peek_token_is(&TokenType::Semicolon) {
                self.next_token();
            }
            proof {
                lemma_concat_none(d0);
            }
            let stmt = ReturnStatemnt { token, value: None };
            assert(Some(stmt@) == whole.value);
            return Some(Statement::ReturnStatement(stmt));
        }
        self.next_token();
        let ghost found = grammar::expression(t, a0 + 1, LOWEST as nat);
        let value = self.parse_expression(LOWEST);
        assert(self.position() == a0 + 1 + found.consumed);
        if self.peek_token_is(&TokenType::Semicolon) {
            self.next_token();
        }
        let stmt = ReturnStatemnt { token, value };
        assert(stmt@ == (StatementView::Return { token: current(t, a0), value: found.value }));
        Some(Statement::ReturnStatement(stmt))
    }

    /// An expression as a statement, and the semicolon after it where there
    /// is one.
    #[verifier::rlimit(50)]
    fn parse_expression_statement(&mut self) -> (s: Option<Statement>)
        requires
            old(self).wf(),
        ensures
            final(self).follows(
                *old(self),
                grammar::expression_statement(old(self).tokens(), old(self).position()),
            ),
            statement_option(s) == grammar::expression_statement(
                old(self).tokens(),
                old(self).position(),
            ).value,
        decreases ahead(old(self).tokens(), old(self).position()), 17int,
    {
        let token = self.cur_token().clone();
        let value = self.parse_expression(LOWEST);
        if self.peek_token_is(&TokenType::Semicolon) {
            self.next_token()
        }
        match value {
            Some(value) => Some(
                Statement::ExpressionStatement(ExpressionStatement { token, value }),
            ),
            None => None,
        }
    }

    /// An expression that binds tighter than `precedence`: its first part,
    /// then infix parts for as long as the operator that follows binds
    /// tighter than `precedence` and is no semicolon.
    #[verifier::rlimit(50)]
    pub(crate) fn parse_expression(&mut self, precedence: u8) -> (e: Option<Expression>)
        requires
            old(self).wf(),
        ensures
            final(self).follows(
                *old(self),
                grammar::expression(old(self).tokens(), old(self).position(), precedence as nat),
            ),
            expression_option(e) == grammar::expression(
                old(self).tokens(),
                old(self).position(),
                precedence as nat,
            ).value,
        decreases ahead(old(self).tokens(), old(self).position()), 8int,
    {
        let ghost t = self.tokens();
        let ghost a0 = self.position();
        let ghost d0 = self.diagnostics();
        let ghost min = precedence as nat;
        let ghost whole = grammar::expression(t, a0, min);
        let ghost first = grammar::prefix(t, a0);
        match parse_prefix_func(self) {
            Some(first_exp) => {
                let mut left_exp = first_exp;
                let ghost mut n: nat = first.consumed;
                let ghost mut errs: Seq<Seq<char>> = first.errors;
                while !self.peek_token_is(&TokenType::Semicolon) && precedence
                    < self.peek_precedence()
                    invariant
                        self.wf(),
                        t == old(self).tokens(),
                        a0 == old(self).position(),
                        d0 == old(self).diagnostics(),
                        min == precedence as nat,
                        self.tokens() == t,
                        self.position() == a0 + n,
                        self.diagnostics() == d0 + errs,
                        whole == grammar::expression(t, a0, min),
                        whole.value == grammar::infix_chain(t, a0 + n, left_exp@, min).value,
                        whole.consumed == n + grammar::infix_chain(
                            t,
                            a0 + n,
                            left_exp@,
                            min,
                        ).consumed,
                        whole.errors == errs + grammar::infix_chain(
                            t,
                            a0 + n,
                            left_exp@,
                            min,
                        ).errors,
                    decreases ahead(self.tokens(), self.position()),
                {
                    let ghost step = grammar::infix(t, a0 + n + 1, left_exp@);
                    let ghost chain = grammar::infix_chain(t, a0 + n, left_exp@, min);
                    self.next_token();
                    match parse_infix_func(self, left_exp) {
                        Some(e) => {
                            left_exp = e;
                        },
                        None => {
                            proof {
                                assert(chain.errors == step.errors);
                                lemma_concat_assoc(d0, errs, step.errors);
                            }
                            return None;
                        },
                    }
                    proof {
                        let after = grammar::infix_chain(
                            t,
                            a0 + n + 1 + step.consumed,
                            left_exp@,
                            min,
                        );
                        assert(chain.errors == step.errors + after.errors);
                        lemma_concat_assoc(errs, step.errors, after.errors);
                        lemma_concat_assoc(d0, errs, step.errors);
                        n = n + 1 + step.consumed;
                        errs = errs + step.errors;
                    }
                }
                proof {
                    lemma_concat_none(errs);
                }
                Some(left_exp)
            },
            None => None,
        }
    }

    /// A block, the cursor being on its `{`: the statements up to the `}`
    /// that closes it, or up to the end of the input.
    #[verifier::rlimit(50)]
    pub(crate) fn parse_block_statement(&mut self) -> (b: BlockStatement)
        requires
            old(self).wf(),
        ensures
            final(self).follows(
                *old(self),
                grammar::block(old(self).tokens(), old(self).position()),
            ),
            b@ == grammar::block(old(self).tokens(), old(self).position()).value,
        decreases ahead(old(self).tokens(), old(self).position()), 20int,
    {
        let ghost t = self.tokens();
        let ghost a0 = self.position();
        let ghost d0 = self.diagnostics();
        let ghost whole = grammar::block_statements(t, a0 + 1);
        let token = self.cur_token().clone();
        let mut statements: Vec<Statement> = Vec::new();
        self.next_token();
        let ghost mut n: nat = 1;
        let ghost mut errs: Seq<Seq<char>> = Seq::empty();
        proof {
            lemma_statements_none();
            lemma_concat_none(whole.value);
            lemma_concat_none(whole.errors);
            lemma_concat_none(d0);
            assert(statements@ == Seq::<Statement>::empty());
        }
        while !self.cur_token_is(TokenType::RightBrace) && !self.cur_token_is(
            TokenType::EndOfInput,
        )
            invariant
                self.wf(),
                t == old(self).tokens(),
                a0 == old(self).position(),
                1 <= n,
                self.tokens() == t,
                self.position() == a0 + n,
                self.diagnostics() == d0 + errs,
                whole == grammar::block_statements(t, a0 + 1),
                whole.value == statements_model(statements@) + grammar::block_statements(
                    t,
                    a0 + n,
                ).value,
                whole.consumed + 1 == n + grammar::block_statements(t, a0 + n).consumed,
                whole.errors == errs + grammar::block_statements(t, a0 + n).errors,
            decreases ahead(self.tokens(), self.position()),
        {
            let ghost first = grammar::statement(t, a0 + n);
            let ghost after = grammar::block_statements(t, a0 + n + first.consumed + 1);
            let ghost before = statements@;
            match self.parse_statement() {
                Some(stmt) => {
                    statements.push(stmt);
                    proof {
                        lemma_statements_push(before, stmt);
                        lemma_concat_assoc(statements_model(before), seq![stmt@], after.value);
                    }
                },
                None => {},
            }
            self.next_token();
            proof {
                lemma_concat_assoc(errs, first.errors, after.errors);
                lemma_concat_assoc(d0, errs, first.errors);
                n = n + first.consumed + 1;
                errs = errs + first.errors;
            }
        }
        let block = BlockStatement { token, statements };
        proof {
            lemma_block_statements(block);
            lemma_concat_none(statements_model(block.statements@));
            lemma_concat_none(errs);
        }
        block
    }

    /// The parameters of a function literal, the cursor being on the `(`:
    /// names separated by commas, up to and with the `)`.
    #[verifier::rlimit(50)]
    pub(crate) fn parse_fn_parameters(&mut self) -> (names: Option<Vec<Identifier>>)
        requires
            old(self).wf(),
        ensures
            final(self).follows(
                *old(self),
                grammar::parameters(old(self).tokens(), old(self).position()),
            ),
            match names {
                Some(v) => Some(identifiers_model(v@)),
                None => None,
            } == grammar::parameters(old(self).tokens(), old(self).position()).value,
    {
        let ghost t = self.tokens();
        let ghost a0 = self.position();
        let ghost d0 = self.diagnostics();
        let ghost whole = grammar::parameters(t, a0);
        let mut identifiers: Vec<Identifier> = Vec::new();
        proof {
            lemma_concat_none(d0);
            lemma_identifiers_none();
            assert(identifiers@ == Seq::<Identifier>::empty());
        }
        if self.peek_token_is(&TokenType::RightParen) {
            self.next_token();
            return Some(identifiers);
        }
        if !self.expect_peek(TokenType::Identifier) {
            return None;
        }
        let first = self.cur_token().clone();
        let first_name = Identifier { name: first.literal.clone(), token: first };
        proof {
            lemma_identifiers_push(identifiers@, first_name);
            lemma_concat_none(
                grammar::more_parameters(t, a0 + 1, seq![identifier_of(peek(t, a0))]).errors,
            );
        }
        identifiers.push(first_name);
        let ghost mut n: nat = 1;
        while self.peek_token_is(&TokenType::Comma)
            invariant
                self.wf(),
                t == old(self).tokens(),
                a0 == old(self).position(),
                d0 == old(self).diagnostics(),
                whole == grammar::parameters(t, a0),
                self.tokens() == t,
                self.position() == a0 + n,
                self.diagnostics() == d0,
                whole.value == grammar::more_parameters(
                    t,
                    a0 + n,
                    identifiers_model(identifiers@),
                ).value,
                whole.consumed == n + grammar::more_parameters(
                    t,
                    a0 + n,
                    identifiers_model(identifiers@),
                ).consumed,
                whole.errors == grammar::more_parameters(
                    t,
                    a0 + n,
                    identifiers_model(identifiers@),
                ).errors,
            decreases ahead(self.tokens(), self.position()),
        {
            let ghost before = identifiers@;
            self.next_token();
            if !self.expect_peek(TokenType::Identifier) {
                return None;
            }
            let next = self.cur_token().clone();
            let next_name = Identifier { name: next.literal.clone(), token: next };
            proof {
                lemma_identifiers_push(before, next_name);
                lemma_concat_none(
                    grammar::more_parameters(
                        t,
                        a0 + n + 2,
                        identifiers_model(before.push(next_name)),
                    ).errors,
                );
            }
            identifiers.push(next_name);
            proof {
                n = n + 2;
            }
        }
        if !self.expect_peek(TokenType::RightParen) {
            return None;
        }
        Some(identifiers)
    }

    /// The arguments of a call, the cursor being on the `(`: expressions
    /// separated by commas, up to and with the `)`.
    #[verifier::rlimit(50)]
    pub(crate) fn parse_call_argument(&mut self) -> (args: Option<Vec<Expression>>)
        requires
            old(self).wf(),
        ensures
            final(self).follows(
                *old(self),
                grammar::arguments(old(self).tokens(), old(self).position()),
            ),
            match args {
                Some(v) => Some(expressions_model(v@)),
                None => None,
            } == grammar::arguments(old(self).tokens(), old(self).position()).value,
        decreases ahead(old(self).tokens(), old(self).position()), 28int,
    {
        let ghost t = self.tokens();
        let ghost a0 = self.position();
        let ghost d0 = self.diagnostics();
        let ghost whole = grammar::arguments(t, a0);
        let mut args: Vec<Expression> = Vec::new();
        proof {
            lemma_concat_none(d0);
            lemma_expressions_none();
            assert(args@ == Seq::<Expression>::empty());
        }
        if self.peek_token_is(&TokenType::RightParen) {
            self.next_token();
            return Some(args);
        }
        self.next_token();
        let ghost first = grammar::expression(t, a0 + 1, LOWEST as nat);
        match self.parse_expression(LOWEST) {
            Some(e) => {
                proof {
                    lemma_expressions_push(args@, e);
                }
                args.push(e);
            },
            None => {
                return None;
            },
        }
        let ghost mut n: nat = 1 + first.consumed;
        let ghost mut errs: Seq<Seq<char>> = first.errors;
        while self.peek_token_is(&TokenType::Comma)
            invariant
                self.wf(),
                t == old(self).tokens(),
                a0 == old(self).position(),
                d0 == old(self).diagnostics(),
                self.tokens() == t,
                self.position() == a0 + n,
                self.diagnostics() == d0 + errs,
                whole == grammar::arguments(t, a0),
                whole.value == grammar::more_arguments(
                    t,
                    a0 + n,
                    expressions_model(args@),
                ).value,
                whole.consumed == n + grammar::more_arguments(
                    t,
                    a0 + n,
                    expressions_model(args@),
                ).consumed,
                whole.errors == errs + grammar::more_arguments(
                    t,
                    a0 + n,
                    expressions_model(args@),
                ).errors,
            decreases ahead(self.tokens(), self.position()),
        {
            let ghost before = args@;
            let ghost item = grammar::expression(t, a0 + n + 2, LOWEST as nat);
            let ghost more = grammar::more_arguments(t, a0 + n, expressions_model(args@));
            self.next_token();
            self.next_token();
            match self.parse_expression(LOWEST) {
                Some(e) => {
                    proof {
                        lemma_expressions_push(before, e);
                    }
                    args.push(e);
                },
                None => {
                    proof {
                        assert(more.errors == item.errors);
                        lemma_concat_assoc(d0, errs, item.errors);
                    }
                    return None;
                },
            }
            proof {
                let after = grammar::more_arguments(
                    t,
                    a0 + n + 2 + item.consumed,
                    expressions_model(args@),
                );
                assert(more.errors == item.errors + after.errors);
                lemma_concat_assoc(errs, item.errors, after.errors);
                lemma_concat_assoc(d0, errs, item.errors);
                n = n + 2 + item.consumed;
                errs = errs + item.errors;
            }
        }
        let ghost last = grammar::more_arguments(t, a0 + n, expressions_model(args@));
        if !self.expect_peek(TokenType::RightParen) {
            proof {
                lemma_concat_assoc(d0, errs, last.errors);
            }
            return None;
        }
        proof {
            lemma_concat_none(errs);
        }
        Some(args)
    }

    /// A `for` loop, the cursor being on the `for`.
    #[verifier::rlimit(50)]
    fn parse_for_expression(&mut self) -> (s: Option<Statement>)
        requires
            old(self).wf(),
        ensures
            final(self).follows(
                *old(self),
                grammar::for_statement(old(self).tokens(), old(self).position()),
            ),
            statement_option(s) == grammar::for_statement(
                old(self).tokens(),
                old(self).position(),
            ).value,
        decreases ahead(old(self).tokens(), old(self).position()), 17int,
    {
        let ghost t = self.tokens();
        let ghost a0 = self.position();
        let ghost d0 = self.diagnostics();
        let ghost whole = grammar::for_statement(t, a0);
        let token = self.cur_token().clone();
        if self.peek_token_is(&TokenType::LeftBrace) {
            self.next_token();
            let ghost found = grammar::block(t, a0 + 1);
            let body = self.parse_block_statement();
            assert(self.position() == a0 + 1 + found.consumed);
            if self.peek_token_is(&TokenType::Semicolon) {
                self.next_token();
            }
            let stmt = ForLoopExpression { token, condition: ForLoopCondition::Bare, body };
            assert(Some(stmt@) == whole.value);
            return Some(Statement::ForLoopStatement(stmt));
        }
        if !self.expect_peek(TokenType::LeftParen) {
            return None;
        }
        self.next_token();
        assert(self.position() == a0 + 2);
        let ghost head = grammar::expression(t, a0 + 2, LOWEST as nat);
        let ghost n = 2 + head.consumed;
        match self.parse_expression(LOWEST) {
            Some(Expression::ConditionalIteratorExpression(clause)) => {
                assert(head.value == Some(ExpressionView::ConditionalIterator(clause@)));
                assert(whole == grammar::for_body(
                    t,
                    a0,
                    ForLoopConditionView::ForIn(clause@),
                    n,
                    head.errors,
                ));
                self.parse_for_body(
                    token,
                    ForLoopCondition::ForIn(clause),
                    Ghost(a0),
                    Ghost(n),
                    Ghost(d0),
                    Ghost(head.errors),
                )
            },
            Some(Expression::InfixExpression(test)) => {
                assert(head.value == Some(test@));
                assert(test@ is Infix);
                if !self.expect_peek(TokenType::RightParen) {
                    proof {
                        lemma_concat_assoc(
                            d0,
                            head.errors,
                            seq![grammar::unexpected(t, a0 + n, TokenType::RightParen)],
                        );
                    }
                    return None;
                }
                assert(whole == grammar::for_body(
                    t,
                    a0,
                    ForLoopConditionView::While(test@),
                    n + 1,
                    head.errors,
                ));
                self.parse_for_body(
                    token,
                    ForLoopCondition::While(Expression::InfixExpression(test)),
                    Ghost(a0),
                    Ghost(n + 1),
                    Ghost(d0),
                    Ghost(head.errors),
                )
            },
            Some(other) => {
                assert(head.value == Some(other@));
                assert(!(other@ is Infix) && !(other@ is ConditionalIterator));
                self.peek_error(TokenType::In);
                proof {
                    lemma_concat_assoc(
                        d0,
                        head.errors,
                        seq![grammar::unexpected(t, a0 + n, TokenType::In)],
                    );
                }
                None
            },
            None => None,
        }
    }

    /// The body of a `for` loop whose head has been read: the `{` has to
    /// follow, then the block, and the semicolon after it where there is one.
    /// The loop started at index `start`; its head took `n` moves and added
    /// `errors` to the diagnostics `base`.
    #[verifier::rlimit(50)]
    fn parse_for_body(
        &mut self,
        token: Token,
        condition: ForLoopCondition,
        Ghost(start): Ghost<nat>,
        Ghost(n): Ghost<nat>,
        Ghost(base): Ghost<Seq<Seq<char>>>,
        Ghost(errors): Ghost<Seq<Seq<char>>>,
    ) -> (s: Option<Statement>)
        requires
            old(self).wf(),
            old(self).position() == start + n,
            old(self).diagnostics() == base + errors,
            token@ == current(old(self).tokens(), start),
        ensures
            final(self).wf(),
            final(self).tokens() == old(self).tokens(),
            final(self).position() == start + grammar::for_body(
                old(self).tokens(),
                start,
                condition@,
                n,
                errors,
            ).consumed,
            final(self).diagnostics() == base + grammar::for_body(
                old(self).tokens(),
                start,
                condition@,
                n,
                errors,
            ).errors,
            statement_option(s) == grammar::for_body(
                old(self).tokens(),
                start,
                condition@,
                n,
                errors,
            ).value,
        decreases ahead(old(self).tokens(), start), 16int,
    {
        let ghost t = self.tokens();
        let ghost whole = grammar::for_body(t, start, condition@, n, errors);
        if !self.expect_peek(TokenType::LeftBrace) {
            proof {
                lemma_concat_assoc(
                    base,
                    errors,
                    seq![grammar::unexpected(t, start + n, TokenType::LeftBrace)],
                );
            }
            return None;
        }
        let ghost found = grammar::block(t, start + n + 1);
        let body = self.parse_block_statement();
        assert(self.position() == start + n + 1 + found.consumed);
        if self.peek_token_is(&TokenType::Semicolon) {
            self.next_token();
        }
        proof {
            lemma_concat_assoc(base, errors, found.errors);
        }
        Some(Statement::ForLoopStatement(ForLoopExpression { token, condition, body }))
    }
}

} // verus!
