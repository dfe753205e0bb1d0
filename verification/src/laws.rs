//! Laws: what holds of the lexer and the parser on every input.

use vstd::prelude::*;

use crate::grammar::{
    block, block_statements, fail, infix, infix_chain, let_statement, precedence_of, program,
    statement, unexpected, Outcome,
};
use crate::ast::{ExpressionView, StatementView};
use crate::lexer::{
    blank, block_rest, column_of, has, lemma_position_bounds, line_of, line_rest, number_len,
    token_at, token_len, tokens_from, trivia_len, word_len,
};
use crate::text::{digit, letter};
use crate::token::{
    ahead, current, end_of_input, kind_text, peek, rest, TokenType, TokenView,
};

verus! {

/// A blank between two tokens makes no token: the tokens from a blank on are
/// the tokens from the character after it on.
pub proof fn law_blank_makes_no_token(src: Seq<char>, i: int)
    requires
        0 <= i < src.len(),
        blank(src[i]),
    ensures
        tokens_from(src, i) == tokens_from(src, i + 1),
{
}

/// A line comment makes no token: the tokens from `//` on are the tokens
/// from the end of that line on. The end of the line is the next newline, or
/// the end of the source where there is none, and no character is passed over
/// beyond it.
pub proof fn law_line_comment_makes_no_token(src: Seq<char>, i: int)
    requires
        has(src, i, '/'),
        has(src, i + 1, '/'),
    ensures
        tokens_from(src, i) == tokens_from(src, i + 2 + line_rest(src, i + 2)),
        i + 2 + line_rest(src, i + 2) == src.len() || has(
            src,
            i + 2 + line_rest(src, i + 2),
            '\n',
        ),
        forall|k: int| i <= k < i + 2 + line_rest(src, i + 2) ==> src[k] != '\n',
{
    lemma_line_rest(src, i + 2);
}

/// The rest of a line ends at a newline or at the end of the source, and
/// holds no newline.
proof fn lemma_line_rest(src: Seq<char>, i: int)
    requires
        0 <= i <= src.len(),
    ensures
        i + line_rest(src, i) == src.len() || has(src, i + line_rest(src, i), '\n'),
        forall|k: int| i <= k < i + line_rest(src, i) ==> src[k] != '\n',
    decreases src.len() - i,
{
    if i < src.len() && src[i] != '\n' {
        lemma_line_rest(src, i + 1);
    }
}

/// A block comment makes no token, whatever it holds and however many lines
/// it spans: the tokens from `/*` on are the tokens from behind the comment
/// on. The comment ends behind the first `*/` at or after its `*`, or at the
/// end of the source where there is none.
pub proof fn law_block_comment_makes_no_token(src: Seq<char>, i: int)
    requires
        has(src, i, '/'),
        has(src, i + 1, '*'),
    ensures
        tokens_from(src, i) == tokens_from(src, i + 1 + block_rest(src, i + 1)),
        i + 1 + block_rest(src, i + 1) <= src.len(),
        i + 1 + block_rest(src, i + 1) == src.len() || (has(
            src,
            i + block_rest(src, i + 1) - 1,
            '*',
        ) && has(src, i + block_rest(src, i + 1), '/')),
{
    lemma_block_rest(src, i + 1);
}

/// The rest of a block comment ends behind a `*/` or at the end of the
/// source.
proof fn lemma_block_rest(src: Seq<char>, i: int)
    requires
        0 <= i <= src.len(),
    ensures
        i + block_rest(src, i) <= src.len(),
        i + block_rest(src, i) == src.len() || (block_rest(src, i) >= 2 && has(
            src,
            i + block_rest(src, i) - 2,
            '*',
        ) && has(src, i + block_rest(src, i) - 1, '/')),
    decreases src.len() - i,
{
    if i < src.len() && !(src[i] == '*' && has(src, i + 1, '/')) {
        lemma_block_rest(src, i + 1);
    }
}

/// The number of newlines among the characters `src[i..j]`.
pub open spec fn newlines(src: Seq<char>, i: int, j: int) -> nat
    decreases j - i,
{
    if i < j {
        newlines(src, i, j - 1) + if has(src, j - 1, '\n') {
            1nat
        } else {
            0nat
        }
    } else {
        0
    }
}

/// Every newline counts, wherever it stands: between two places of the
/// source the line grows by the number of newlines between them, those inside
/// comments included.
pub proof fn law_every_newline_starts_a_line(src: Seq<char>, i: int, j: int)
    requires
        0 <= i <= j,
    ensures
        line_of(src, j) == line_of(src, i) + newlines(src, i, j),
    decreases j - i,
{
    if i < j {
        law_every_newline_starts_a_line(src, i, j - 1);
    }
}

/// Columns are counted from the last newline: a character that stands `n`
/// places behind a newline, with no newline between the two, is in column
/// `n`.
pub proof fn law_column_counts_from_the_newline(src: Seq<char>, k: int, j: int)
    requires
        has(src, k, '\n'),
        k < j,
        forall|m: int| k < m < j && m < src.len() ==> src[m] != '\n',
    ensures
        column_of(src, j) == j - k,
    decreases j - k,
{
    if k + 1 < j {
        law_column_counts_from_the_newline(src, k, j - 1);
    }
}

/// On the first line columns are counted from the start of the source.
pub proof fn law_column_on_the_first_line(src: Seq<char>, j: int)
    requires
        0 <= j,
        forall|m: int| 0 <= m < j && m < src.len() ==> src[m] != '\n',
    ensures
        column_of(src, j) == j + 1,
        line_of(src, j) == 1,
    decreases j,
{
    if 0 < j {
        law_column_on_the_first_line(src, j - 1);
    }
}

/// What the lexer produces before the end of the source are tokens in their
/// own right: none is the end-of-input token, each has at least one
/// character, and each stands on a line and in a column counted from 1. This
/// is stated of a source that is no longer than a machine can hold.
pub proof fn law_tokens_are_real(src: Seq<char>, i: int, k: int)
    requires
        src.len() <= usize::MAX,
        0 <= k < tokens_from(src, i).len(),
    ensures
        tokens_from(src, i)[k].token_type != TokenType::EndOfInput,
        tokens_from(src, i)[k].literal.len() >= 1,
        tokens_from(src, i)[k].position.0 >= 1,
        tokens_from(src, i)[k].position.1 >= 1,
        tokens_from(src, i)[k] != end_of_input(),
    decreases k,
{
    let start = i + trivia_len(src, i);
    let after = tokens_from(src, start + token_len(src, start));
    assert(tokens_from(src, i) == seq![token_at(src, start)] + after);
    if k == 0 {
        lemma_position_bounds(src, start);
        lemma_token_within(src, start);
    } else {
        law_tokens_are_real(src, start + token_len(src, start), k - 1);
        assert(tokens_from(src, i)[k] == after[k - 1]);
    }
}

/// A token lies within the source.
proof fn lemma_token_within(src: Seq<char>, i: int)
    requires
        0 <= i < src.len(),
    ensures
        i + token_len(src, i) <= src.len(),
{
    lemma_run_within(src, i + 1);
}

/// A run of letters or of digits lies within the source.
proof fn lemma_run_within(src: Seq<char>, i: int)
    requires
        0 <= i <= src.len(),
    ensures
        i + word_len(src, i) <= src.len(),
        i + number_len(src, i) <= src.len(),
    decreases src.len() - i,
{
    if i < src.len() {
        lemma_run_within(src, i + 1);
    }
}

/// The index at which the `k`-th token at or after index `i` starts.
pub open spec fn start_of(src: Seq<char>, i: int, k: nat) -> int
    decreases k,
{
    let start = i + trivia_len(src, i);
    if k == 0 {
        start
    } else {
        start_of(src, start + token_len(src, start), (k - 1) as nat)
    }
}

/// Every token is the token that starts where it starts: it spans the
/// characters from its start on, is of the kind that they make, and carries the
/// line and column of its first character. Its start lies within the source
/// and at or after the place where the lexer stood.
pub proof fn law_token_is_read_at_its_start(src: Seq<char>, i: int, k: nat)
    requires
        0 <= i,
        k < tokens_from(src, i).len(),
    ensures
        tokens_from(src, i)[k as int] == token_at(src, start_of(src, i, k)),
        i <= start_of(src, i, k) < src.len(),
    decreases k,
{
    let start = i + trivia_len(src, i);
    let after = tokens_from(src, start + token_len(src, start));
    assert(tokens_from(src, i) == seq![token_at(src, start)] + after);
    if k > 0 {
        law_token_is_read_at_its_start(src, start + token_len(src, start), (k - 1) as nat);
        assert(tokens_from(src, i)[k as int] == after[k - 1]);
    }
}

/// Tokens come in the order of the source: a later token starts behind the
/// end of an earlier one.
pub proof fn law_tokens_follow_each_other(src: Seq<char>, i: int, k: nat, m: nat)
    requires
        0 <= i,
        k < m < tokens_from(src, i).len(),
    ensures
        start_of(src, i, k) + token_len(src, start_of(src, i, k)) <= start_of(src, i, m),
    decreases k,
{
    let start = i + trivia_len(src, i);
    let next = start + token_len(src, start);
    let after = tokens_from(src, next);
    assert(tokens_from(src, i) == seq![token_at(src, start)] + after);
    if k == 0 {
        law_token_is_read_at_its_start(src, next, (m - 1) as nat);
    } else {
        law_tokens_follow_each_other(src, next, (k - 1) as nat, (m - 1) as nat);
    }
}

/// Places grow with the source: of two characters the later one is on a
/// later line, or on the same line in a later column.
pub proof fn law_places_grow(src: Seq<char>, i: int, j: int)
    requires
        0 <= i < j,
    ensures
        line_of(src, i) < line_of(src, j) || (line_of(src, i) == line_of(src, j) && column_of(
            src,
            i,
        ) < column_of(src, j)),
    decreases j - i,
{
    if i < j - 1 {
        law_places_grow(src, i, j - 1);
    }
}

/// The positions of the tokens grow: a later token is on a later line than
/// an earlier one, or on the same line in a later column. This is stated of a
/// source that is no longer than a machine can hold.
pub proof fn law_positions_grow(src: Seq<char>, i: int, k: nat, m: nat)
    requires
        src.len() <= usize::MAX,
        0 <= i,
        k < m < tokens_from(src, i).len(),
    ensures
        ({
            let first = tokens_from(src, i)[k as int].position;
            let second = tokens_from(src, i)[m as int].position;
            first.0 < second.0 || (first.0 == second.0 && first.1 < second.1)
        }),
{
    law_token_is_read_at_its_start(src, i, k);
    law_token_is_read_at_its_start(src, i, m);
    law_tokens_follow_each_other(src, i, k, m);
    law_places_grow(src, start_of(src, i, k), start_of(src, i, m));
    lemma_position_bounds(src, start_of(src, i, k));
    lemma_position_bounds(src, start_of(src, i, m));
}

/// The text of a mark or a keyword is implied by its kind: every token that
/// the lexer produces, other than an identifier, an integer literal or an
/// illegal character, was read from the text of its kind.
pub proof fn law_kind_implies_text(src: Seq<char>, i: int, k: int)
    requires
        0 <= k < tokens_from(src, i).len(),
    ensures
        ({
            let token = tokens_from(src, i)[k];
            token.token_type != TokenType::Identifier && token.token_type
                != TokenType::IntegerLiteral && token.token_type != TokenType::Illegal
                ==> token.literal == kind_text(token.token_type)
        }),
    decreases k,
{
    let start = i + trivia_len(src, i);
    let after = tokens_from(src, start + token_len(src, start));
    assert(tokens_from(src, i) == seq![token_at(src, start)] + after);
    if k == 0 {
        let token = token_at(src, start);
        let c = src[start];
        reveal_strlit("=");
        reveal_strlit("+");
        reveal_strlit("-");
        reveal_strlit("!");
        reveal_strlit("*");
        reveal_strlit("/");
        reveal_strlit("==");
        reveal_strlit("!=");
        reveal_strlit("<");
        reveal_strlit(">");
        reveal_strlit(",");
        reveal_strlit(";");
        reveal_strlit("(");
        reveal_strlit(")");
        reveal_strlit("{");
        reveal_strlit("}");
        reveal_strlit(".");
        reveal_strlit("..");
        if !letter(c) && !digit(c) {
            lemma_token_within(src, start);
            if token_len(src, start) == 2 {
                assert(token.literal =~= seq![c, src[start + 1]]);
                assert(kind_text(token.token_type) =~= seq![c, src[start + 1]]);
            } else {
                assert(token.literal =~= seq![c]);
                if token.token_type != TokenType::Illegal {
                    assert(kind_text(token.token_type) =~= seq![c]);
                }
            }
        }
    } else {
        law_kind_implies_text(src, start + token_len(src, start), k - 1);
        assert(tokens_from(src, i)[k] == after[k - 1]);
    }
}

/// Once the end of the input has been reached it stays reached: where
/// nothing but blanks and comments is left, there are no tokens left, and
/// every later read gives the end-of-input token.
pub proof fn law_end_of_input_is_final(src: Seq<char>, i: int, n: nat)
    requires
        0 <= i,
        i + trivia_len(src, i) >= src.len(),
    ensures
        tokens_from(src, i).len() == 0,
        rest(tokens_from(src, i), n).len() == 0,
        current(rest(tokens_from(src, i), n), 0) == end_of_input(),
{
}

/// A `let` with a name but without the `=` after it makes no statement: one
/// diagnostic is recorded, about the token that stands where the `=` should,
/// and the cursor stays on the name.
pub proof fn law_let_without_assign(tokens: Seq<TokenView>, at: nat)
    requires
        current(tokens, at).token_type == TokenType::Let,
        peek(tokens, at).token_type == TokenType::Identifier,
        peek(tokens, at + 1).token_type != TokenType::Assign,
    ensures
        statement(tokens, at) == fail::<StatementView>(
            1,
            seq![unexpected(tokens, at + 1, TokenType::Assign)],
        ),
{
    assert(statement(tokens, at) == let_statement(tokens, at));
}

/// A malformed `let` does not end the parse: the program is what follows the
/// name makes, and its diagnostics are the one for the `let` and then those of
/// what follows.
pub proof fn law_parse_goes_on_after_a_malformed_let(tokens: Seq<TokenView>, at: nat)
    requires
        current(tokens, at).token_type == TokenType::Let,
        peek(tokens, at).token_type == TokenType::Identifier,
        peek(tokens, at + 1).token_type != TokenType::Assign,
    ensures
        program(tokens, at).value == program(tokens, at + 2).value,
        program(tokens, at).errors == seq![unexpected(tokens, at + 1, TokenType::Assign)]
            + program(tokens, at + 2).errors,
        program(tokens, at).errors.len() >= 1,
{
    law_let_without_assign(tokens, at);
}

/// A program is parsed to the end of its input: when the parse is over, the
/// cursor is on the end-of-input token.
pub proof fn law_program_reads_to_the_end(tokens: Seq<TokenView>, at: nat)
    ensures
        current(tokens, at + program(tokens, at).consumed).token_type == TokenType::EndOfInput,
    decreases ahead(tokens, at),
{
    if current(tokens, at).token_type != TokenType::EndOfInput {
        let first = statement(tokens, at);
        law_program_reads_to_the_end(tokens, at + first.consumed + 1);
    }
}

/// A block is parsed up to the `}` that closes it or, where none does, up to
/// the end of the input: when its parse is over, the cursor is on one of the
/// two.
pub proof fn law_block_reads_to_its_end(tokens: Seq<TokenView>, at: nat)
    ensures
        current(tokens, at + block(tokens, at).consumed).token_type == TokenType::RightBrace
            || current(tokens, at + block(tokens, at).consumed).token_type
            == TokenType::EndOfInput,
{
    lemma_block_statements_end(tokens, at + 1);
}

/// The statements of a block are parsed up to a `}` or the end of the input.
proof fn lemma_block_statements_end(tokens: Seq<TokenView>, at: nat)
    ensures
        current(tokens, at + block_statements(tokens, at).consumed).token_type
            == TokenType::RightBrace || current(
            tokens,
            at + block_statements(tokens, at).consumed,
        ).token_type == TokenType::EndOfInput,
    decreases ahead(tokens, at),
{
    if current(tokens, at).token_type != TokenType::RightBrace && current(tokens, at).token_type
        != TokenType::EndOfInput {
        let first = statement(tokens, at);
        lemma_block_statements_end(tokens, at + first.consumed + 1);
    }
}

/// A semicolon ends an expression: where one follows, the expression read so
/// far is the whole expression, and the cursor stays where it is.
pub proof fn law_semicolon_ends_an_expression(
    tokens: Seq<TokenView>,
    at: nat,
    left: ExpressionView,
    min: nat,
)
    requires
        peek(tokens, at).token_type == TokenType::Semicolon,
    ensures
        infix_chain(tokens, at, left, min) == (Outcome {
            value: Some(left),
            consumed: 0,
            errors: Seq::<Seq<char>>::empty(),
        }),
{
}

/// Operators of one level group to the left: an operator that binds no
/// tighter than the level asked for is not taken as part of the expression
/// but left to whoever asked, so that in `a - b - c` the operand of the first
/// `-` is `b` alone.
pub proof fn law_no_tighter_operator_is_left_alone(
    tokens: Seq<TokenView>,
    at: nat,
    left: ExpressionView,
    min: nat,
)
    requires
        precedence_of(peek(tokens, at).token_type) <= min,
    ensures
        infix_chain(tokens, at, left, min) == (Outcome {
            value: Some(left),
            consumed: 0,
            errors: Seq::<Seq<char>>::empty(),
        }),
{
}

/// An operator that binds tighter than the level asked for is taken: the
/// expression read so far becomes its left operand, and what comes of the two
/// is the expression read so far for the operators that follow.
pub proof fn law_tighter_operator_is_taken(
    tokens: Seq<TokenView>,
    at: nat,
    left: ExpressionView,
    min: nat,
)
    requires
        peek(tokens, at).token_type != TokenType::Semicolon,
        min < precedence_of(peek(tokens, at).token_type),
        infix(tokens, at + 1, left).value is Some,
    ensures
        ({
            let step = infix(tokens, at + 1, left);
            let more = infix_chain(tokens, at + 1 + step.consumed, step.value->0, min);
            &&& infix_chain(tokens, at, left, min).value == more.value
            &&& infix_chain(tokens, at, left, min).consumed == 1 + step.consumed + more.consumed
            &&& infix_chain(tokens, at, left, min).errors == step.errors + more.errors
        }),
{
}

/// The end of the input is an empty program, with no diagnostic.
pub proof fn law_nothing_makes_an_empty_program(tokens: Seq<TokenView>, at: nat)
    requires
        at >= tokens.len(),
    ensures
        program(tokens, at).value.len() == 0,
        program(tokens, at).errors.len() == 0,
        program(tokens, at).consumed == 0,
{
}

} // verus!
