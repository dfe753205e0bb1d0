//! The syntax tree: statements and expressions as closed sums, each node
//! owning its children and the token it was read from.
//!
//! Every node has a value form, its view, in which strings are sequences of
//! characters and lists are sequences. What a node renders to is stated over
//! the view.

use vstd::prelude::*;

use crate::token::{Token, TokenView};

verus! {

/// The value of an [`Identifier`].
pub struct IdentifierView {
    pub token: TokenView,
    pub name: Seq<char>,
}

/// The value of an [`Expression`].
#[allow(inconsistent_fields)]
pub enum ExpressionView {
    Identifier(IdentifierView),
    IntegerLiteral { token: TokenView, value: i64 },
    BooleanLiteral { token: TokenView, value: bool },
    Prefix { token: TokenView, operator: Seq<char>, right: Box<ExpressionView> },
    Infix {
        token: TokenView,
        operator: Seq<char>,
        left: Box<ExpressionView>,
        right: Box<ExpressionView>,
    },
    If {
        token: TokenView,
        condition: Box<ExpressionView>,
        consequence: BlockView,
        alternative: Option<BlockView>,
    },
    Function { token: TokenView, parameters: Seq<IdentifierView>, body: BlockView },
    Call { token: TokenView, callee: Box<ExpressionView>, arguments: Seq<ExpressionView> },
    ConditionalIterator(ConditionalIteratorView),
    Range { token: TokenView, start: Box<ExpressionView>, end: Box<ExpressionView> },
}

/// The value of a [`ConditionalIteratorExpression`].
pub struct ConditionalIteratorView {
    pub token: TokenView,
    pub variable: IdentifierView,
    pub source: Box<ExpressionView>,
}

/// The value of a [`BlockStatement`].
pub struct BlockView {
    pub token: TokenView,
    pub statements: Seq<StatementView>,
}

/// The value of a [`ForLoopCondition`].
pub enum ForLoopConditionView {
    Bare,
    While(ExpressionView),
    ForIn(ConditionalIteratorView),
}

/// The value of a [`Statement`].
#[allow(inconsistent_fields)]
pub enum StatementView {
    Let { token: TokenView, name: IdentifierView, value: ExpressionView },
    Return { token: TokenView, value: Option<ExpressionView> },
    Expression { token: TokenView, value: ExpressionView },
    Block(BlockView),
    ForLoop { token: TokenView, condition: ForLoopConditionView, body: BlockView },
}

/// The value of a [`Program`].
pub struct ProgramView {
    pub statements: Seq<StatementView>,
}

/// A name.
#[derive(Debug)]
pub struct Identifier {
    pub token: Token,
    pub name: String,
}

/// An integer literal and the number it writes.
#[derive(Debug)]
pub struct IntegerLiteral {
    pub token: Token,
    pub value: i64,
}

/// `true` or `false`.
#[derive(Debug)]
pub struct BooleanLiteral {
    pub token: Token,
    pub value: bool,
}

/// An operator before its operand: `!x`, `-x`.
#[derive(Debug)]
pub struct PrefixExpression {
    pub token: Token,
    pub operator: String,
    pub right: Box<Expression>,
}

/// An operator between two operands: `a + b`.
#[derive(Debug)]
pub struct InfixExpression {
    pub token: Token,
    pub operator: String,
    pub left: Box<Expression>,
    pub right: Box<Expression>,
}

/// `if (condition) { consequence } else { alternative }`, the `else` part
/// being optional.
#[derive(Debug)]
pub struct IfExpression {
    pub token: Token,
    pub condition: Box<Expression>,
    pub consequence: BlockStatement,
    pub alternative: Option<BlockStatement>,
}

/// `fn(parameters) { body }`.
#[derive(Debug)]
pub struct FunctionLiteral {
    pub token: Token,
    pub parameters: Vec<Identifier>,
    pub body: BlockStatement,
}

/// `callee(arguments)`.
#[derive(Debug)]
pub struct CallExpression {
    pub token: Token,
    pub callee: Box<Expression>,
    pub arguments: Vec<Expression>,
}

/// `variable in source`, the clause of a `for` loop over a sequence.
#[derive(Debug)]
pub struct ConditionalIteratorExpression {
    pub token: Token,
    pub variable: Identifier,
    pub source: Box<Expression>,
}

/// `start..end`.
#[derive(Debug)]
pub struct IteratorLiteral {
    pub token: Token,
    pub start: Box<Expression>,
    pub end: Box<Expression>,
}

/// An expression.
#[derive(Debug)]
pub enum Expression {
    Identifier(Identifier),
    IntegerLiteral(IntegerLiteral),
    BooleanLiteral(BooleanLiteral),
    PrefixExpression(PrefixExpression),
    InfixExpression(InfixExpression),
    IfExpression(IfExpression),
    FunctionLiteral(FunctionLiteral),
    CallExpression(CallExpression),
    ConditionalIteratorExpression(ConditionalIteratorExpression),
    RangeExpression(IteratorLiteral),
}

/// `let name = value;`
#[derive(Debug)]
pub struct LetStatement {
    pub token: Token,
    pub name: Identifier,
    pub value: Expression,
}

/// `return value;`, the value being optional.
#[derive(Debug)]
pub struct ReturnStatemnt {
    pub token: Token,
    pub value: Option<Expression>,
}

/// An expression in the place of a statement.
#[derive(Debug)]
pub struct ExpressionStatement {
    pub token: Token,
    pub value: Expression,
}

/// `{ statements }`.
#[derive(Debug)]
pub struct BlockStatement {
    pub token: Token,
    pub statements: Vec<Statement>,
}

/// What decides how long a `for` loop runs.
#[derive(Debug)]
pub enum ForLoopCondition {
    /// `for { .. }`: no condition, the loop does not end by itself.
    Bare,
    /// `for (a < b) { .. }`: an infix expression, tested before each round.
    While(Expression),
    /// `for (x in e) { .. }`: one round for each item of `e`.
    ForIn(ConditionalIteratorExpression),
}

/// `for condition { body }`.
#[derive(Debug)]
pub struct ForLoopExpression {
    pub token: Token,
    pub condition: ForLoopCondition,
    pub body: BlockStatement,
}

/// A statement.
#[derive(Debug)]
pub enum Statement {
    LetStatement(LetStatement),
    ReturnStatement(ReturnStatemnt),
    ExpressionStatement(ExpressionStatement),
    BlockStatement(BlockStatement),
    ForLoopStatement(ForLoopExpression),
}

/// A program: the statements of a source, in order.
#[derive(Debug)]
pub struct Program {
    pub statements: Vec<Statement>,
}

impl View for Identifier {
    type V = IdentifierView;

    open spec fn view(&self) -> IdentifierView {
        IdentifierView { token: self.token@, name: self.name@ }
    }
}

/// The values of a list of identifiers.
pub open spec fn identifiers_model(names: Seq<Identifier>) -> Seq<IdentifierView> {
    names.map_values(|n: Identifier| n@)
}

/// The value of an expression.
pub open spec fn expression_model(e: Expression) -> ExpressionView
    decreases e,
{
    match e {
        Expression::Identifier(i) => ExpressionView::Identifier(i@),
        Expression::IntegerLiteral(l) => ExpressionView::IntegerLiteral {
            token: l.token@,
            value: l.value,
        },
        Expression::BooleanLiteral(b) => ExpressionView::BooleanLiteral {
            token: b.token@,
            value: b.value,
        },
        Expression::PrefixExpression(p) => ExpressionView::Prefix {
            token: p.token@,
            operator: p.operator@,
            right: Box::new(expression_model(*p.right)),
        },
        Expression::InfixExpression(x) => ExpressionView::Infix {
            token: x.token@,
            operator: x.operator@,
            left: Box::new(expression_model(*x.left)),
            right: Box::new(expression_model(*x.right)),
        },
        Expression::IfExpression(x) => ExpressionView::If {
            token: x.token@,
            condition: Box::new(expression_model(*x.condition)),
            consequence: block_model(x.consequence),
            alternative: match x.alternative {
                Some(b) => Some(block_model(b)),
                None => None,
            },
        },
        Expression::FunctionLiteral(f) => ExpressionView::Function {
            token: f.token@,
            parameters: identifiers_model(f.parameters@),
            body: block_model(f.body),
        },
        Expression::CallExpression(c) => ExpressionView::Call {
            token: c.token@,
            callee: Box::new(expression_model(*c.callee)),
            arguments: Seq::new(
                c.arguments@.len(),
                |i: int|
                    if 0 <= i < c.arguments@.len() {
                        expression_model(c.arguments@[i])
                    } else {
                        arbitrary()
                    },
            ),
        },
        Expression::ConditionalIteratorExpression(c) => ExpressionView::ConditionalIterator(
            conditional_iterator_model(c),
        ),
        Expression::RangeExpression(r) => ExpressionView::Range {
            token: r.token@,
            start: Box::new(expression_model(*r.start)),
            end: Box::new(expression_model(*r.end)),
        },
    }
}

/// The value of an `in` clause.
pub open spec fn conditional_iterator_model(
    c: ConditionalIteratorExpression,
) -> ConditionalIteratorView
    decreases c,
{
    ConditionalIteratorView {
        token: c.token@,
        variable: c.variable@,
        source: Box::new(expression_model(*c.source)),
    }
}

/// The value of a block.
pub open spec fn block_model(b: BlockStatement) -> BlockView
    decreases b,
{
    BlockView {
        token: b.token@,
        statements: Seq::new(
            b.statements@.len(),
            |i: int|
                if 0 <= i < b.statements@.len() {
                    statement_model(b.statements@[i])
                } else {
                    arbitrary()
                },
        ),
    }
}

/// The value of a statement.
pub open spec fn statement_model(s: Statement) -> StatementView
    decreases s,
{
    match s {
        Statement::LetStatement(l) => StatementView::Let {
            token: l.token@,
            name: l.name@,
            value: expression_model(l.value),
        },
        Statement::ReturnStatement(r) => StatementView::Return {
            token: r.token@,
            value: match r.value {
                Some(v) => Some(expression_model(v)),
                None => None,
            },
        },
        Statement::ExpressionStatement(x) => StatementView::Expression {
            token: x.token@,
            value: expression_model(x.value),
        },
        Statement::BlockStatement(b) => StatementView::Block(block_model(b)),
        Statement::ForLoopStatement(f) => StatementView::ForLoop {
            token: f.token@,
            condition: match f.condition {
                ForLoopCondition::Bare => ForLoopConditionView::Bare,
                ForLoopCondition::While(e) => ForLoopConditionView::While(expression_model(e)),
                ForLoopCondition::ForIn(c) => ForLoopConditionView::ForIn(
                    conditional_iterator_model(c),
                ),
            },
            body: block_model(f.body),
        },
    }
}

impl View for Expression {
    type V = ExpressionView;

    open spec fn view(&self) -> ExpressionView {
        expression_model(*self)
    }
}

impl View for Statement {
    type V = StatementView;

    open spec fn view(&self) -> StatementView {
        statement_model(*self)
    }
}

impl View for BlockStatement {
    type V = BlockView;

    open spec fn view(&self) -> BlockView {
        block_model(*self)
    }
}

impl View for ConditionalIteratorExpression {
    type V = ConditionalIteratorView;

    open spec fn view(&self) -> ConditionalIteratorView {
        conditional_iterator_model(*self)
    }
}

impl View for ForLoopCondition {
    type V = ForLoopConditionView;

    open spec fn view(&self) -> ForLoopConditionView {
        match self {
            ForLoopCondition::Bare => ForLoopConditionView::Bare,
            ForLoopCondition::While(e) => ForLoopConditionView::While(e@),
            ForLoopCondition::ForIn(c) => ForLoopConditionView::ForIn(c@),
        }
    }
}

impl View for Program {
    type V = ProgramView;

    open spec fn view(&self) -> ProgramView {
        ProgramView { statements: statements_model(self.statements@) }
    }
}

/// The items of `names` from the `i`-th on, separated by `", "`.
pub open spec fn join_names(names: Seq<IdentifierView>, i: int) -> Seq<char>
    decreases names.len() - i,
{
    if 0 <= i < names.len() {
        if i + 1 < names.len() {
            names[i].name + ", "@ + join_names(names, i + 1)
        } else {
            names[i].name
        }
    } else {
        Seq::empty()
    }
}

/// An expression in canonical form: every operator with its operands in
/// parentheses, so that the text shows how the expression was grouped.
pub open spec fn render_expression(e: ExpressionView) -> Seq<char>
    decreases e, 0int,
{
    match e {
        ExpressionView::Identifier(i) => i.name,
        ExpressionView::IntegerLiteral { token, .. } => token.literal,
        ExpressionView::BooleanLiteral { token, .. } => token.literal,
        ExpressionView::Prefix { operator, right, .. } => "("@ + operator + render_expression(
            *right,
        ) + ")"@,
        ExpressionView::Infix { operator, left, right, .. } => "("@ + render_expression(*left)
            + " "@ + operator + " "@ + render_expression(*right) + ")"@,
        ExpressionView::If { token, condition, consequence, alternative } => token.literal
            + render_expression(*condition) + " "@ + render_block(consequence) + match alternative {
            Some(b) => " else "@ + render_block(b),
            None => Seq::empty(),
        },
        ExpressionView::Function { token, parameters, body } => token.literal + "("@ + join_names(
            parameters,
            0,
        ) + ") "@ + render_block(body),
        ExpressionView::Call { callee, arguments, .. } => render_expression(*callee) + "("@
            + join_expressions(arguments, 0) + ")"@,
        ExpressionView::ConditionalIterator(c) => render_conditional_iterator(c),
        ExpressionView::Range { token, start, end } => render_expression(*start) + token.literal
            + render_expression(*end),
    }
}

/// An `in` clause in canonical form.
pub open spec fn render_conditional_iterator(c: ConditionalIteratorView) -> Seq<char>
    decreases c, 0int,
{
    "("@ + c.variable.name + " "@ + c.token.literal + " "@ + render_expression(*c.source) + ")"@
}

/// The expressions of `items` from the `i`-th on, each in canonical form,
/// separated by `", "`.
pub open spec fn join_expressions(items: Seq<ExpressionView>, i: int) -> Seq<char>
    decreases items, items.len() - i,
{
    if 0 <= i < items.len() {
        if i + 1 < items.len() {
            render_expression(items[i]) + ", "@ + join_expressions(items, i + 1)
        } else {
            render_expression(items[i])
        }
    } else {
        Seq::empty()
    }
}

/// A block in canonical form: its statements one after the other.
pub open spec fn render_block(b: BlockView) -> Seq<char>
    decreases b, 0int,
{
    render_statements(b.statements, 0)
}

/// The statements of `items` from the `i`-th on, each in canonical form, one
/// after the other.
pub open spec fn render_statements(items: Seq<StatementView>, i: int) -> Seq<char>
    decreases items, items.len() - i,
{
    if 0 <= i < items.len() {
        render_statement(items[i]) + render_statements(items, i + 1)
    } else {
        Seq::empty()
    }
}

/// The condition of a `for` loop in canonical form; a bare loop has none.
pub open spec fn render_condition(c: ForLoopConditionView) -> Seq<char>
    decreases c, 0int,
{
    match c {
        ForLoopConditionView::Bare => Seq::empty(),
        ForLoopConditionView::While(e) => render_expression(e),
        ForLoopConditionView::ForIn(i) => render_conditional_iterator(i),
    }
}

/// A statement in canonical form.
pub open spec fn render_statement(s: StatementView) -> Seq<char>
    decreases s, 0int,
{
    match s {
        StatementView::Let { token, name, value } => token.literal + " "@ + name.name + " = "@
            + render_expression(value) + ";"@,
        StatementView::Return { token, value } => token.literal + " "@ + match value {
            Some(v) => render_expression(v),
            None => Seq::empty(),
        } + ";"@,
        StatementView::Expression { value, .. } => render_expression(value),
        StatementView::Block(b) => render_block(b),
        StatementView::ForLoop { token, condition, body } => token.literal + " "@
            + render_condition(condition) + render_block(body),
    }
}

/// A program in canonical form: its statements one after the other.
pub open spec fn render_program(p: ProgramView) -> Seq<char> {
    render_statements(p.statements, 0)
}

impl View for IntegerLiteral {
    type V = ExpressionView;

    open spec fn view(&self) -> ExpressionView {
        expression_model(Expression::IntegerLiteral(*self))
    }
}

impl View for BooleanLiteral {
    type V = ExpressionView;

    open spec fn view(&self) -> ExpressionView {
        expression_model(Expression::BooleanLiteral(*self))
    }
}

impl View for PrefixExpression {
    type V = ExpressionView;

    open spec fn view(&self) -> ExpressionView {
        expression_model(Expression::PrefixExpression(*self))
    }
}

impl View for InfixExpression {
    type V = ExpressionView;

    open spec fn view(&self) -> ExpressionView {
        expression_model(Expression::InfixExpression(*self))
    }
}

impl View for IfExpression {
    type V = ExpressionView;

    open spec fn view(&self) -> ExpressionView {
        expression_model(Expression::IfExpression(*self))
    }
}

impl View for FunctionLiteral {
    type V = ExpressionView;

    open spec fn view(&self) -> ExpressionView {
        expression_model(Expression::FunctionLiteral(*self))
    }
}

impl View for CallExpression {
    type V = ExpressionView;

    open spec fn view(&self) -> ExpressionView {
        expression_model(Expression::CallExpression(*self))
    }
}

impl View for IteratorLiteral {
    type V = ExpressionView;

    open spec fn view(&self) -> ExpressionView {
        expression_model(Expression::RangeExpression(*self))
    }
}

impl View for LetStatement {
    type V = StatementView;

    open spec fn view(&self) -> StatementView {
        statement_model(Statement::LetStatement(*self))
    }
}

impl View for ReturnStatemnt {
    type V = StatementView;

    open spec fn view(&self) -> StatementView {
        statement_model(Statement::ReturnStatement(*self))
    }
}

impl View for ExpressionStatement {
    type V = StatementView;

    open spec fn view(&self) -> StatementView {
        statement_model(Statement::ExpressionStatement(*self))
    }
}

impl View for ForLoopExpression {
    type V = StatementView;

    open spec fn view(&self) -> StatementView {
        statement_model(Statement::ForLoopStatement(*self))
    }
}

/// The token that an expression was read from.
pub open spec fn expression_token(e: ExpressionView) -> TokenView {
    match e {
        ExpressionView::Identifier(i) => i.token,
        ExpressionView::IntegerLiteral { token, .. } => token,
        ExpressionView::BooleanLiteral { token, .. } => token,
        ExpressionView::Prefix { token, .. } => token,
        ExpressionView::Infix { token, .. } => token,
        ExpressionView::If { token, .. } => token,
        ExpressionView::Function { token, .. } => token,
        ExpressionView::Call { token, .. } => token,
        ExpressionView::ConditionalIterator(c) => c.token,
        ExpressionView::Range { token, .. } => token,
    }
}

/// The token that a statement was read from.
pub open spec fn statement_token(s: StatementView) -> TokenView {
    match s {
        StatementView::Let { token, .. } => token,
        StatementView::Return { token, .. } => token,
        StatementView::Expression { token, .. } => token,
        StatementView::Block(b) => b.token,
        StatementView::ForLoop { token, .. } => token,
    }
}

/// The text of the token that a program starts with: that of its first
/// statement, and nothing where it has no statement.
pub open spec fn program_token_literal(p: ProgramView) -> Seq<char> {
    if p.statements.len() > 0 {
        statement_token(p.statements[0]).literal
    } else {
        Seq::empty()
    }
}

/// The value of an expression that may be missing.
pub open spec fn expression_option(e: Option<Expression>) -> Option<ExpressionView> {
    match e {
        Some(x) => Some(x@),
        None => None,
    }
}

/// The value of a statement that may be missing.
pub open spec fn statement_option(s: Option<Statement>) -> Option<StatementView> {
    match s {
        Some(x) => Some(x@),
        None => None,
    }
}

/// The values of a list of expressions.
pub open spec fn expressions_model(items: Seq<Expression>) -> Seq<ExpressionView> {
    items.map_values(|e: Expression| e@)
}

/// The values of a list of statements.
pub open spec fn statements_model(items: Seq<Statement>) -> Seq<StatementView> {
    items.map_values(|s: Statement| s@)
}

/// The values of no statements are no values.
pub proof fn lemma_statements_none()
    ensures
        statements_model(Seq::empty()) == Seq::<StatementView>::empty(),
{
    assert(statements_model(Seq::empty()) =~= Seq::<StatementView>::empty());
}

/// The values of a list with one more statement are the values of the list
/// and then the value of that statement.
pub proof fn lemma_statements_push(items: Seq<Statement>, s: Statement)
    ensures
        statements_model(items.push(s)) == statements_model(items) + seq![s@],
{
    assert(statements_model(items.push(s)) =~= statements_model(items) + seq![s@]);
}

/// The values of no expressions are no values.
pub proof fn lemma_expressions_none()
    ensures
        expressions_model(Seq::empty()) == Seq::<ExpressionView>::empty(),
{
    assert(expressions_model(Seq::empty()) =~= Seq::<ExpressionView>::empty());
}

/// The values of a list with one more expression are the values of the list
/// and then the value of that expression.
pub proof fn lemma_expressions_push(items: Seq<Expression>, e: Expression)
    ensures
        expressions_model(items.push(e)) == expressions_model(items).push(e@),
        expressions_model(Seq::empty().push(e)) == seq![e@],
{
    assert(expressions_model(items.push(e)) =~= expressions_model(items).push(e@));
    assert(expressions_model(Seq::empty().push(e)) =~= seq![e@]);
}

/// The values of no identifiers are no values.
pub proof fn lemma_identifiers_none()
    ensures
        identifiers_model(Seq::empty()) == Seq::<IdentifierView>::empty(),
{
    assert(identifiers_model(Seq::empty()) =~= Seq::<IdentifierView>::empty());
}

/// The values of a list with one more identifier are the values of the list
/// and then the value of that identifier.
pub proof fn lemma_identifiers_push(items: Seq<Identifier>, i: Identifier)
    ensures
        identifiers_model(items.push(i)) == identifiers_model(items).push(i@),
        identifiers_model(Seq::empty().push(i)) == seq![i@],
{
    assert(identifiers_model(items.push(i)) =~= identifiers_model(items).push(i@));
    assert(identifiers_model(Seq::empty().push(i)) =~= seq![i@]);
}

/// The statements of the value of a block are the values of its statements.
pub proof fn lemma_block_statements(b: BlockStatement)
    ensures
        b@.statements == statements_model(b.statements@),
        b@.token == b.token@,
{
    assert(b@.statements =~= statements_model(b.statements@));
}

/// The arguments of the value of a call are the values of its arguments.
pub proof fn lemma_call_arguments(c: CallExpression)
    ensures
        c@ == (ExpressionView::Call {
            token: c.token@,
            callee: Box::new((*c.callee)@),
            arguments: expressions_model(c.arguments@),
        }),
{
    assert(c@->Call_arguments =~= expressions_model(c.arguments@));
}

} // verus!
