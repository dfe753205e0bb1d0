//! The parser: from the tokens of a lexer to a program.
//!
//! The parser holds the token under its cursor and the one after it, and asks
//! the lexer for one more token each time the cursor moves on. Parsing does
//! not stop at an error: what cannot be parsed is recorded as a diagnostic and
//! left out, and the parse goes on with the next token.

use vstd::prelude::*;

use crate::grammar::{
    no_prefix_message, precedence_of, unexpected, unexpected_token_message, Outcome, CALL, EQUALS,
    IN, LESSGREATER, LOWEST, PRODUCT, RANGE, SUM,
};
use crate::lexer::Lexer;
use crate::text::decimal_string;
use crate::token::{
    current, end_of_input, peek, rest, Position, Token, TokenType, TokenView,
};

verus! {

/// The texts of a list of strings.
pub open spec fn texts(strings: Seq<String>) -> Seq<Seq<char>> {
    strings.map_values(|s: String| s@)
}

/// How tightly a token binds as an infix operator.
pub fn precedence(t: TokenType) -> (p: u8)
    ensures
        p == precedence_of(t),
{
    match t {
        TokenType::Equal | TokenType::NotEqual => EQUALS,
        TokenType::LessThan | TokenType::GreaterThan => LESSGREATER,
        TokenType::Range => RANGE,
        TokenType::In => IN,
        TokenType::Plus | TokenType::Minus => SUM,
        TokenType::Slash | TokenType::Asterisk => PRODUCT,
        TokenType::LeftParen => CALL,
        _ => LOWEST,
    }
}

/// The parser: a lexer, the two tokens read ahead of it, and the diagnostics
/// recorded so far. For the sake of its contracts the parser also knows, as
/// ghost state, all the tokens of its input and how far it has come in them.
pub struct Parser {
    l: Lexer,
    errors: Vec<String>,
    cur_token: Token,
    peek_token: Token,
    all: Ghost<Seq<TokenView>>,
    at: Ghost<nat>,
}

impl Parser {
    /// The tokens of the input that the parser was made for, without the
    /// end-of-input token that follows them.
    pub closed spec fn tokens(&self) -> Seq<TokenView> {
        self.all@
    }

    /// The index in `tokens()` of the token under the cursor. It is past the
    /// last token once the cursor has reached the end of the input.
    pub closed spec fn position(&self) -> nat {
        self.at@
    }

    /// The diagnostics recorded so far, in order.
    #[verifier::opaque]
    pub closed spec fn diagnostics(&self) -> Seq<Seq<char>> {
        texts(self.errors@)
    }

    /// The tokens that the parser holds and those that its lexer has yet to
    /// produce.
    #[verifier::opaque]
    pub closed spec fn pending(&self) -> Seq<TokenView> {
        if self.cur_token.token_type == TokenType::EndOfInput {
            Seq::empty()
        } else if self.peek_token.token_type == TokenType::EndOfInput {
            seq![self.cur_token@]
        } else {
            seq![self.cur_token@, self.peek_token@] + self.l.remaining()
        }
    }

    /// The lexer is well formed; what the parser holds and what the lexer
    /// has yet to produce are the tokens from the cursor on; and once the end
    /// of the input has been read, all that is read is the end of the input.
    #[verifier::opaque]
    pub closed spec fn wf(&self) -> bool {
        &&& self.l.wf()
        &&& self.pending() == rest(self.all@, self.at@)
        &&& self.cur_token.token_type == TokenType::EndOfInput ==> self.cur_token@
            == end_of_input() && self.peek_token.token_type == TokenType::EndOfInput
        &&& self.peek_token.token_type == TokenType::EndOfInput ==> self.peek_token@
            == end_of_input() && self.l.remaining().len() == 0
    }

    /// What a parser is after one construct has been parsed: the cursor has
    /// moved on as often as the outcome says, and the diagnostics of the
    /// outcome have been added to those recorded before.
    pub open spec fn follows<T>(&self, before: Parser, outcome: Outcome<T>) -> bool {
        &&& self.wf()
        &&& self.tokens() == before.tokens()
        &&& self.position() == before.position() + outcome.consumed
        &&& self.diagnostics() == before.diagnostics() + outcome.errors
    }

    /// The two tokens that the parser holds are the one under the cursor and
    /// the one after it.
    proof fn lemma_window(&self)
        requires
            self.wf(),
        ensures
            self.cur_token@ == current(self.all@, self.at@),
            self.peek_token@ == peek(self.all@, self.at@),
    {
        reveal(Parser::wf);
        reveal(Parser::pending);
        let held = self.pending();
        let all = self.all@;
        let at = self.at@;
        assert(held == rest(all, at));
        if self.cur_token.token_type != TokenType::EndOfInput {
            if self.peek_token.token_type != TokenType::EndOfInput {
                assert(held == seq![self.cur_token@, self.peek_token@] + self.l.remaining());
                assert(held.len() >= 2);
                assert(held[0] == self.cur_token@);
                assert(held[1] == self.peek_token@);
                assert(at + 1 < all.len());
                assert(all.skip(at as int)[0] == all[at as int]);
                assert(all.skip(at as int)[1] == all[at as int + 1]);
            } else {
                assert(held == seq![self.cur_token@]);
                assert(held.len() == 1);
                assert(held[0] == self.cur_token@);
                assert(at + 1 == all.len());
                assert(all.skip(at as int)[0] == all[at as int]);
            }
        } else {
            assert(held.len() == 0);
            assert(at >= all.len());
        }
    }

    /// A parser at the cursor of `l`, with no diagnostic.
    pub fn new(l: Lexer) -> (p: Parser)
        requires
            l.wf(),
        ensures
            p.wf(),
            p.tokens() == l.remaining(),
            p.position() == 0,
            p.diagnostics() == Seq::<Seq<char>>::empty(),
    {
        reveal(Parser::wf);
        reveal(Parser::pending);
        reveal(Parser::diagnostics);
        let mut l = l;
        let ghost all = l.remaining();
        let cur_token = l.next_token();
        let peek_token = l.next_token();
        let p = Parser {
            l,
            errors: Vec::new(),
            cur_token,
            peek_token,
            all: Ghost(all),
            at: Ghost(0),
        };
        assert(p.pending() =~= rest(all, 0));
        assert(p.diagnostics() =~= Seq::<Seq<char>>::empty());
        p
    }

    /// The diagnostics recorded so far, in order.
    pub fn errors(&self) -> (e: &Vec<String>)
        ensures
            texts(e@) == self.diagnostics(),
    {
        reveal(Parser::diagnostics);
        &self.errors
    }

    /// The token under the cursor.
    pub(crate) fn cur_token(&self) -> (t: &Token)
        requires
            self.wf(),
        ensures
            t@ == current(self.tokens(), self.position()),
    {
        proof {
            self.lemma_window();
        }
        &self.cur_token
    }

    /// Whether the token under the cursor is of kind `t`.
    pub(crate) fn cur_token_is(&self, t: TokenType) -> (r: bool)
        requires
            self.wf(),
        ensures
            r == (current(self.tokens(), self.position()).token_type == t),
    {
        proof {
            self.lemma_window();
        }
        self.cur_token.token_type == t
    }

    /// Whether the token after the cursor is of kind `t`.
    pub(crate) fn peek_token_is(&self, t: &TokenType) -> (r: bool)
        requires
            self.wf(),
        ensures
            r == (peek(self.tokens(), self.position()).token_type == *t),
    {
        proof {
            self.lemma_window();
        }
        self.peek_token.token_type == *t
    }

    /// How tightly the token after the cursor binds.
    pub(crate) fn peek_precedence(&self) -> (p: u8)
        requires
            self.wf(),
        ensures
            p == precedence_of(peek(self.tokens(), self.position()).token_type),
    {
        proof {
            self.lemma_window();
        }
        precedence(self.peek_token.token_type)
    }

    /// How tightly the token under the cursor binds.
    pub(crate) fn cur_precedence(&self) -> (p: u8)
        requires
            self.wf(),
        ensures
            p == precedence_of(current(self.tokens(), self.position()).token_type),
    {
        proof {
            self.lemma_window();
        }
        precedence(self.cur_token.token_type)
    }

    /// Moves the cursor on by one token.
    pub(crate) fn next_token(&mut self)
        requires
            old(self).wf(),
        ensures
            final(self).wf(),
            final(self).tokens() == old(self).tokens(),
            final(self).position() == old(self).position() + 1,
            final(self).diagnostics() == old(self).diagnostics(),
    {
        reveal(Parser::wf);
        reveal(Parser::pending);
        reveal(Parser::diagnostics);
        let ghost before = self.pending();
        self.cur_token = self.peek_token.take();
        self.peek_token = self.l.next_token();
        self.at = Ghost(self.at@ + 1);
        assert(self.pending() =~= rest(before, 1));
        assert(rest(before, 1) =~= rest(self.all@, self.at@));
    }

    /// Moves the cursor on where the token after it is of kind `t`, and
    /// records a diagnostic where it is not.
    pub(crate) fn expect_peek(&mut self, t: TokenType) -> (r: bool)
        requires
            old(self).wf(),
        ensures
            final(self).wf(),
            final(self).tokens() == old(self).tokens(),
            r == (peek(old(self).tokens(), old(self).position()).token_type == t),
            r ==> final(self).position() == old(self).position() + 1,
            r ==> final(self).diagnostics() == old(self).diagnostics(),
            !r ==> final(self).position() == old(self).position(),
            !r ==> final(self).diagnostics() == old(self).diagnostics() + seq![
                unexpected(old(self).tokens(), old(self).position(), t),
            ],
    {
        if self.peek_token_is(&t) {
            self.next_token();
            return true;
        }
        self.peek_error(t);
        false
    }

    /// Records that the token after the cursor is not of kind `t`.
    pub(crate) fn peek_error(&mut self, t: TokenType)
        requires
            old(self).wf(),
        ensures
            final(self).wf(),
            final(self).tokens() == old(self).tokens(),
            final(self).position() == old(self).position(),
            final(self).diagnostics() == old(self).diagnostics() + seq![
                unexpected(old(self).tokens(), old(self).position(), t),
            ],
    {
        proof {
            self.lemma_window();
        }
        let msg = unexpected_token(self.cur_token.position, t, self.peek_token.token_type);
        self.record(msg);
    }

    /// Records that no expression starts with the token under the cursor.
    pub(crate) fn no_prefix_parse_fn_error(&mut self)
        requires
            old(self).wf(),
        ensures
            final(self).wf(),
            final(self).tokens() == old(self).tokens(),
            final(self).position() == old(self).position(),
            final(self).diagnostics() == old(self).diagnostics() + seq![
                no_prefix_message(current(old(self).tokens(), old(self).position())),
            ],
    {
        proof {
            self.lemma_window();
        }
        let mut msg = String::from_str("no prefix parse function for ");
        msg.append(self.cur_token.literal.as_str());
        msg.append(" found");
        self.record(msg);
    }

    /// Adds a diagnostic.
    pub(crate) fn record(&mut self, msg: String)
        requires
            old(self).wf(),
        ensures
            final(self).wf(),
            final(self).tokens() == old(self).tokens(),
            final(self).position() == old(self).position(),
            final(self).diagnostics() == old(self).diagnostics() + seq![msg@],
    {
        reveal(Parser::wf);
        reveal(Parser::pending);
        reveal(Parser::diagnostics);
        self.errors.push(msg);
        assert(self.diagnostics() =~= old(self).diagnostics() + seq![msg@]);
    }
}

/// The diagnostic for a token of the wrong kind.
pub(crate) fn unexpected_token(at: Position, expected: TokenType, actual: TokenType) -> (msg:
    String)
    ensures
        msg@ == unexpected_token_message(at, expected, actual),
{
    let mut msg = decimal_string(at.0);
    msg.append(":");
    let column = decimal_string(at.1);
    msg.append(column.as_str());
    msg.append(" \u{2014} expected next token to be ");
    msg.append(expected.name());
    msg.append(", got ");
    msg.append(actual.name());
    msg.append(" instead");
    msg
}

} // verus!
