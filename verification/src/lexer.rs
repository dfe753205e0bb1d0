//! The lexer: from source text to tokens, one token per call.
//!
//! What the lexer produces is stated over the source as a sequence of
//! characters. Between tokens it passes over blanks, line comments (`//` to
//! the end of the line) and block comments (`/*` to the next `*/`, or to the
//! end of the source where none follows). A token's position is the line and
//! column of its first character, each counted from 1 and found by counting
//! the newlines and characters that stand before it.

use vstd::prelude::*;

use crate::text::{chars_of, digit, is_digit, is_letter, letter, string_of};
use crate::token::{
    current, end_of_input, rest, keyword_or_identifier, lookup_ident, Position, Token,
    TokenType, TokenView,
};

verus! {

/// A character that separates tokens and is otherwise ignored.
pub open spec fn blank(c: char) -> bool {
    c == ' ' || c == '\t' || c == '\r' || c == '\n'
}

/// Whether the source has the character `c` at index `i`.
pub open spec fn has(src: Seq<char>, i: int, c: char) -> bool {
    0 <= i < src.len() && src[i] == c
}

/// How many characters of the source lie at or after index `i`.
pub open spec fn left(src: Seq<char>, i: int) -> nat {
    if 0 <= i <= src.len() {
        (src.len() - i) as nat
    } else {
        0
    }
}

/// The length of the run of blanks that starts at `i`.
pub open spec fn blank_run(src: Seq<char>, i: int) -> nat
    decreases left(src, i),
{
    if 0 <= i < src.len() && blank(src[i]) {
        1 + blank_run(src, i + 1)
    } else {
        0
    }
}

/// The number of characters from `i` to the end of its line: up to, and
/// without, the next newline.
pub open spec fn line_rest(src: Seq<char>, i: int) -> nat
    decreases left(src, i),
{
    if 0 <= i < src.len() && src[i] != '\n' {
        1 + line_rest(src, i + 1)
    } else {
        0
    }
}

/// The number of characters from `i` through the first `*/` that starts at or
/// after `i`; through the end of the source where there is none.
pub open spec fn block_rest(src: Seq<char>, i: int) -> nat
    decreases left(src, i),
{
    if 0 <= i < src.len() {
        if src[i] == '*' && has(src, i + 1, '/') {
            2
        } else {
            1 + block_rest(src, i + 1)
        }
    } else {
        0
    }
}

/// The length of the comment that starts at `i`, and 0 where none starts.
/// A line comment is `//` and the rest of the line. A block comment is `/`
/// and everything from the `*` after it through the next `*/`, so that `/*/`
/// is a whole comment.
pub open spec fn comment_len(src: Seq<char>, i: int) -> nat {
    if has(src, i, '/') && has(src, i + 1, '/') {
        2 + line_rest(src, i + 2)
    } else if has(src, i, '/') && has(src, i + 1, '*') {
        1 + block_rest(src, i + 1)
    } else {
        0
    }
}

/// The number of characters from `i` to the start of the next token, or to
/// the end of the source: blanks and comments in any order.
pub open spec fn trivia_len(src: Seq<char>, i: int) -> nat
    decreases left(src, i),
{
    if 0 <= i < src.len() {
        if blank(src[i]) {
            1 + trivia_len(src, i + 1)
        } else if comment_len(src, i) > 0 {
            comment_len(src, i) + trivia_len(src, i + comment_len(src, i))
        } else {
            0
        }
    } else {
        0
    }
}

/// The length of the run of letters that starts at `i`.
pub open spec fn word_len(src: Seq<char>, i: int) -> nat
    decreases left(src, i),
{
    if 0 <= i < src.len() && letter(src[i]) {
        1 + word_len(src, i + 1)
    } else {
        0
    }
}

/// The length of the run of digits that starts at `i`.
pub open spec fn number_len(src: Seq<char>, i: int) -> nat
    decreases left(src, i),
{
    if 0 <= i < src.len() && digit(src[i]) {
        1 + number_len(src, i + 1)
    } else {
        0
    }
}

/// The line of the character at index `i`: one more than the number of
/// newlines before it.
pub open spec fn line_of(src: Seq<char>, i: int) -> nat
    decreases i,
{
    if i <= 0 {
        1
    } else if has(src, i - 1, '\n') {
        line_of(src, i - 1) + 1
    } else {
        line_of(src, i - 1)
    }
}

/// The column of the character at index `i`: one more than the number of
/// characters between it and the newline before it.
pub open spec fn column_of(src: Seq<char>, i: int) -> nat
    decreases i,
{
    if i <= 0 || has(src, i - 1, '\n') {
        1
    } else {
        column_of(src, i - 1) + 1
    }
}

/// The length of the token that starts at `i`: the longest run of letters or
/// of digits, two characters for `==`, `!=` and `..`, and one otherwise.
pub open spec fn token_len(src: Seq<char>, i: int) -> nat {
    let c = src[i];
    if letter(c) {
        1 + word_len(src, i + 1)
    } else if digit(c) {
        1 + number_len(src, i + 1)
    } else if (c == '=' || c == '!') && has(src, i + 1, '=') {
        2
    } else if c == '.' && has(src, i + 1, '.') {
        2
    } else {
        1
    }
}

/// The kind of the token that a single character makes.
pub open spec fn mark_kind(c: char) -> TokenType {
    if c == '=' {
        TokenType::Assign
    } else if c == '+' {
        TokenType::Plus
    } else if c == '-' {
        TokenType::Minus
    } else if c == '!' {
        TokenType::Bang
    } else if c == '*' {
        TokenType::Asterisk
    } else if c == '/' {
        TokenType::Slash
    } else if c == '<' {
        TokenType::LessThan
    } else if c == '>' {
        TokenType::GreaterThan
    } else if c == ',' {
        TokenType::Comma
    } else if c == ';' {
        TokenType::Semicolon
    } else if c == '(' {
        TokenType::LeftParen
    } else if c == ')' {
        TokenType::RightParen
    } else if c == '{' {
        TokenType::LeftBrace
    } else if c == '}' {
        TokenType::RightBrace
    } else if c == '.' {
        TokenType::Dot
    } else {
        TokenType::Illegal
    }
}

/// The kind of the token that starts at `i`.
pub open spec fn token_type_at(src: Seq<char>, i: int) -> TokenType {
    let c = src[i];
    if letter(c) {
        keyword_or_identifier(src.subrange(i, i + token_len(src, i)))
    } else if digit(c) {
        TokenType::IntegerLiteral
    } else if c == '=' && has(src, i + 1, '=') {
        TokenType::Equal
    } else if c == '!' && has(src, i + 1, '=') {
        TokenType::NotEqual
    } else if c == '.' && has(src, i + 1, '.') {
        TokenType::Range
    } else {
        mark_kind(c)
    }
}

/// The token that starts at `i`: its kind, the characters it spans, and the
/// line and column of its first character.
pub open spec fn token_at(src: Seq<char>, i: int) -> TokenView {
    TokenView {
        token_type: token_type_at(src, i),
        literal: src.subrange(i, i + token_len(src, i)),
        position: Position(line_of(src, i) as usize, column_of(src, i) as usize),
    }
}

/// The tokens of the source from index `i` on, in order, without the
/// end-of-input token that follows them.
pub open spec fn tokens_from(src: Seq<char>, i: int) -> Seq<TokenView>
    decreases left(src, i),
{
    let start = i + trivia_len(src, i);
    if 0 <= i && start < src.len() {
        seq![token_at(src, start)] + tokens_from(src, start + token_len(src, start))
    } else {
        Seq::empty()
    }
}

/// The tokens of a whole source.
pub open spec fn tokenize(src: Seq<char>) -> Seq<TokenView> {
    tokens_from(src, 0)
}

/// A run of blanks belongs to what lies between two tokens.
proof fn lemma_trivia_after_blanks(src: Seq<char>, i: int)
    ensures
        trivia_len(src, i) == blank_run(src, i) + trivia_len(src, i + blank_run(src, i)),
    decreases left(src, i),
{
    if 0 <= i < src.len() && blank(src[i]) {
        lemma_trivia_after_blanks(src, i + 1);
    }
}

/// Lines and columns are counted from 1, and a line never has more
/// characters, nor a source more lines, than there are characters before the
/// place in question.
pub proof fn lemma_position_bounds(src: Seq<char>, i: int)
    requires
        0 <= i,
    ensures
        1 <= line_of(src, i) <= i + 1,
        1 <= column_of(src, i) <= i + 1,
    decreases i,
{
    if i > 0 {
        lemma_position_bounds(src, i - 1);
    }
}

/// The lexer: a source and a cursor in it.
pub struct Lexer {
    input: Vec<char>,
    position: usize,
    line: usize,
    column: usize,
}

impl Lexer {
    /// The source, as characters.
    pub closed spec fn source(&self) -> Seq<char> {
        self.input@
    }

    /// The index of the next character to read.
    pub closed spec fn offset(&self) -> int {
        self.position as int
    }

    /// The cursor lies within the source, and the line and column that the
    /// lexer keeps are those of the cursor.
    pub closed spec fn wf(&self) -> bool {
        &&& self.position <= self.input.len()
        &&& self.line + 1 == line_of(self.input@, self.position as int)
        &&& self.column + 1 == column_of(self.input@, self.position as int)
    }

    /// The tokens that the lexer has yet to produce, without the end-of-input
    /// token that it produces after them.
    pub open spec fn remaining(&self) -> Seq<TokenView> {
        tokens_from(self.source(), self.offset())
    }

    /// A lexer at the start of `input`.
    pub fn new(input: String) -> (l: Lexer)
        ensures
            l.wf(),
            l.source() == input@,
            l.offset() == 0,
            l.remaining() == tokenize(input@),
    {
        Lexer { input: chars_of(input.as_str()), position: 0, line: 0, column: 0 }
    }

    /// Moves the cursor over one character.
    fn read_char(&mut self)
        requires
            old(self).wf(),
            old(self).offset() < old(self).source().len(),
        ensures
            final(self).wf(),
            final(self).source() == old(self).source(),
            final(self).offset() == old(self).offset() + 1,
    {
        proof {
            lemma_position_bounds(self.input@, self.position as int);
        }
        let c = self.input[self.position];
        self.position += 1;
        if c == '\n' {
            self.line += 1;
            self.column = 0;
        } else {
            self.column += 1;
        }
    }

    /// The character after the one under the cursor, and NUL where there is
    /// none.
    fn peek_char(&self) -> (c: char)
        requires
            self.wf(),
        ensures
            c == if self.offset() + 1 < self.source().len() {
                self.source()[self.offset() + 1]
            } else {
                '\0'
            },
    {
        if self.position < self.input.len() && self.position + 1 < self.input.len() {
            self.input[self.position + 1]
        } else {
            '\0'
        }
    }

    /// Moves the cursor over the blanks under and after it.
    fn skip_whitespace(&mut self)
        requires
            old(self).wf(),
        ensures
            final(self).wf(),
            final(self).source() == old(self).source(),
            final(self).offset() == old(self).offset() + blank_run(
                old(self).source(),
                old(self).offset(),
            ),
            final(self).offset() < final(self).source().len() ==> !blank(
                final(self).source()[final(self).offset()],
            ),
    {
        while self.position < self.input.len() && is_blank(self.input[self.position])
            invariant
                self.wf(),
                self.source() == old(self).source(),
                old(self).offset() <= self.offset(),
                self.offset() + blank_run(self.source(), self.offset()) == old(self).offset()
                    + blank_run(old(self).source(), old(self).offset()),
            decreases self.input.len() - self.position,
        {
            self.read_char();
        }
    }

    /// Moves the cursor over the comment that starts under it.
    fn skip_comment(&mut self)
        requires
            old(self).wf(),
            comment_len(old(self).source(), old(self).offset()) > 0,
        ensures
            final(self).wf(),
            final(self).source() == old(self).source(),
            final(self).offset() == old(self).offset() + comment_len(
                old(self).source(),
                old(self).offset(),
            ),
    {
        let ghost src = self.input@;
        let ghost start = self.position as int;
        if self.peek_char() == '/' {
            self.read_char();
            self.read_char();
            while self.position < self.input.len() && self.input[self.position] != '\n'
                invariant
                    self.wf(),
                    self.source() == src,
                    src == self.input@,
                    start + 2 <= self.offset(),
                    self.offset() + line_rest(src, self.offset()) == start + 2 + line_rest(
                        src,
                        start + 2,
                    ),
                decreases self.input.len() - self.position,
            {
                self.read_char();
            }
        } else {
            self.read_char();
            let mut open = true;
            while open && self.position < self.input.len()
                invariant
                    self.wf(),
                    self.source() == src,
                    src == self.input@,
                    start + 1 <= self.offset(),
                    open ==> self.offset() + block_rest(src, self.offset()) == start + 1
                        + block_rest(src, start + 1),
                    !open ==> self.offset() == start + 1 + block_rest(src, start + 1),
                decreases self.input.len() - self.position, open as int,
            {
                if self.input[self.position] == '*' && self.peek_char() == '/' {
                    self.read_char();
                    self.read_char();
                    open = false;
                } else {
                    self.read_char();
                }
            }
        }
    }

    /// Moves the cursor to the start of the next token, or to the end of the
    /// source.
    fn skip_trivia(&mut self)
        requires
            old(self).wf(),
        ensures
            final(self).wf(),
            final(self).source() == old(self).source(),
            final(self).offset() == old(self).offset() + trivia_len(
                old(self).source(),
                old(self).offset(),
            ),
            final(self).offset() <= final(self).source().len(),
    {
        let ghost src = self.input@;
        let ghost start = self.position as int;
        loop
            invariant_except_break
                self.wf(),
                self.source() == src,
                src == self.input@,
                self.offset() + trivia_len(src, self.offset()) == start + trivia_len(src, start),
            ensures
                self.wf(),
                self.source() == src,
                self.offset() == start + trivia_len(src, start),
                self.offset() <= src.len(),
            decreases self.input.len() - self.position,
        {
            proof {
                lemma_trivia_after_blanks(src, self.position as int);
            }
            self.skip_whitespace();
            if self.position < self.input.len() && self.input[self.position] == '/' && (
            self.peek_char() == '/' || self.peek_char() == '*') {
                self.skip_comment();
            } else {
                break ;
            }
        }
    }

    /// The next token of the source: the token that starts after the blanks
    /// and comments under the cursor, with the position of its first
    /// character. The cursor moves behind it. At the end of the source the
    /// result is the end-of-input token, at this call and at every later one.
    pub fn next_token(&mut self) -> (tok: Token)
        requires
            old(self).wf(),
        ensures
            final(self).wf(),
            final(self).source() == old(self).source(),
            ({
                let src = old(self).source();
                let start = old(self).offset() + trivia_len(src, old(self).offset());
                if start < src.len() {
                    &&& tok@ == token_at(src, start)
                    &&& final(self).offset() == start + token_len(src, start)
                } else {
                    &&& tok@ == end_of_input()
                    &&& final(self).offset() == src.len()
                }
            }),
            tok@ == current(old(self).remaining(), 0),
            final(self).remaining() == rest(old(self).remaining(), 1),
            tok.token_type == TokenType::EndOfInput <==> old(self).remaining().len() == 0,
    {
        let ghost src = self.input@;
        let ghost before = self.position as int;
        self.skip_trivia();
        if self.position >= self.input.len() {
            proof {
                assert(tokens_from(src, before) =~= Seq::<TokenView>::empty());
                assert(tokens_from(src, src.len() as int) =~= Seq::<TokenView>::empty());
            }
            return Token::default();
        }
        proof {
            lemma_position_bounds(src, self.position as int);
        }
        let position = Position(self.line + 1, self.column + 1);
        let start = self.position;
        let c = self.input[start];
        let token_type: TokenType;
        let literal: String;
        if is_letter(c) {
            literal = self.read_identifier();
            token_type = lookup_ident(literal.as_str());
        } else if is_digit(c) {
            literal = self.read_number();
            token_type = TokenType::IntegerLiteral;
        } else {
            match c {
                '=' => {
                    if self.peek_char() == '=' {
                        self.read_char();
                        token_type = TokenType::Equal;
                    } else {
                        token_type = TokenType::Assign;
                    }
                },
                '+' => token_type = TokenType::Plus,
                '-' => token_type = TokenType::Minus,
                '!' => {
                    if self.peek_char() == '=' {
                        self.read_char();
                        token_type = TokenType::NotEqual;
                    } else {
                        token_type = TokenType::Bang;
                    }
                },
                '/' => token_type = TokenType::Slash,
                '*' => token_type = TokenType::Asterisk,
                '<' => token_type = TokenType::LessThan,
                '>' => token_type = TokenType::GreaterThan,
                ';' => token_type = TokenType::Semicolon,
                ',' => token_type = TokenType::Comma,
                '(' => token_type = TokenType::LeftParen,
                ')' => token_type = TokenType::RightParen,
                '{' => token_type = TokenType::LeftBrace,
                '}' => token_type = TokenType::RightBrace,
                '.' => {
                    if self.peek_char() == '.' {
                        self.read_char();
                        token_type = TokenType::Range;
                    } else {
                        token_type = TokenType::Dot;
                    }
                },
                _ => token_type = TokenType::Illegal,
            }
            self.read_char();
            literal = string_of(&self.input, start, self.position);
        }
        proof {
            let after = tokens_from(src, start + token_len(src, start as int));
            assert(tokens_from(src, before) == seq![token_at(src, start as int)] + after);
            assert(rest(tokens_from(src, before), 1) =~= after);
        }
        Token::new(token_type, literal, position)
    }

    /// Reads the word that starts under the cursor.
    fn read_identifier(&mut self) -> (word: String)
        requires
            old(self).wf(),
        ensures
            final(self).wf(),
            final(self).source() == old(self).source(),
            final(self).offset() == old(self).offset() + word_len(
                old(self).source(),
                old(self).offset(),
            ),
            word@ == old(self).source().subrange(old(self).offset(), final(self).offset()),
    {
        let position = self.position;
        while self.position < self.input.len() && is_letter(self.input[self.position])
            invariant
                self.wf(),
                self.source() == old(self).source(),
                position == old(self).offset(),
                position <= self.offset(),
                self.offset() + word_len(self.source(), self.offset()) == position + word_len(
                    self.source(),
                    position as int,
                ),
            decreases self.input.len() - self.position,
        {
            self.read_char();
        }
        string_of(&self.input, position, self.position)
    }

    /// Reads the number that starts under the cursor.
    fn read_number(&mut self) -> (number: String)
        requires
            old(self).wf(),
        ensures
            final(self).wf(),
            final(self).source() == old(self).source(),
            final(self).offset() == old(self).offset() + number_len(
                old(self).source(),
                old(self).offset(),
            ),
            number@ == old(self).source().subrange(old(self).offset(), final(self).offset()),
    {
        let position = self.position;
        while self.position < self.input.len() && is_digit(self.input[self.position])
            invariant
                self.wf(),
                self.source() == old(self).source(),
                position == old(self).offset(),
                position <= self.offset(),
                self.offset() + number_len(self.source(), self.offset()) == position + number_len(
                    self.source(),
                    position as int,
                ),
            decreases self.input.len() - self.position,
        {
            self.read_char();
        }
        string_of(&self.input, position, self.position)
    }
}

/// Whether `c` separates tokens and is otherwise ignored.
fn is_blank(c: char) -> (r: bool)
    ensures
        r == blank(c),
{
    c == ' ' || c == '\t' || c == '\r' || c == '\n'
}

} // verus!
