//! Tokens: what the lexer hands to the parser.
//!
//! A token is a kind, the text it was read from, and the place of that text in
//! the source. The kinds are a closed set; the text of every kind except
//! identifiers, integer literals and illegal characters is fixed by the kind.

use vstd::prelude::*;

use crate::text::{chars_of, decimal, decimal_string, spells};

verus! {

/// A place in the source: `.0` is the line and `.1` the column, both counted
/// from 1. The end-of-input token has no character of its own and sits at
/// `(0, 0)`.
#[derive(Clone, Copy, Debug, PartialEq, Eq, Hash, Structural)]
pub struct Position(pub usize, pub usize);

impl Position {
    /// The position as text: `[line:column]`.
    pub fn string(&self) -> (s: String)
        ensures
            s@ == "["@ + decimal(self.0 as nat) + ":"@ + decimal(self.1 as nat) + "]"@,
    {
        let mut s = String::from_str("[");
        let line = decimal_string(self.0);
        s.append(line.as_str());
        s.append(":");
        let column = decimal_string(self.1);
        s.append(column.as_str());
        s.append("]");
        s
    }
}

impl Default for Position {
    fn default() -> (p: Position)
        ensures
            p == Position(0, 0),
    {
        Position(0, 0)
    }
}

/// The kind of a token.
#[derive(Clone, Copy, Debug, PartialEq, Eq, Hash, Structural)]
pub enum TokenType {
    /// A character that starts no token.
    Illegal,
    /// The end of the source.
    EndOfInput,
    /// A name: a run of ASCII letters and underscores that is no keyword.
    Identifier,
    /// A run of ASCII digits.
    IntegerLiteral,
    /// `=`
    Assign,
    /// `+`
    Plus,
    /// `-`
    Minus,
    /// `!`
    Bang,
    /// `*`
    Asterisk,
    /// `/`
    Slash,
    /// `==`
    Equal,
    /// `!=`
    NotEqual,
    /// `<`
    LessThan,
    /// `>`
    GreaterThan,
    /// `,`
    Comma,
    /// `;`
    Semicolon,
    /// `(`
    LeftParen,
    /// `)`
    RightParen,
    /// `{`
    LeftBrace,
    /// `}`
    RightBrace,
    /// `.`
    Dot,
    /// `..`
    Range,
    /// `fn`
    Function,
    /// `let`
    Let,
    /// `true`
    True,
    /// `false`
    False,
    /// `if`
    If,
    /// `else`
    Else,
    /// `return`
    Return,
    /// `for`
    For,
    /// `in`
    In,
}

impl Default for TokenType {
    fn default() -> (t: TokenType)
        ensures
            t == TokenType::EndOfInput,
    {
        TokenType::EndOfInput
    }
}

/// The name of a kind of token, as diagnostics write it.
pub open spec fn kind_name(t: TokenType) -> Seq<char> {
    match t {
        TokenType::Illegal => "Illegal"@,
        TokenType::EndOfInput => "EndOfInput"@,
        TokenType::Identifier => "Identifier"@,
        TokenType::IntegerLiteral => "IntegerLiteral"@,
        TokenType::Assign => "Assign"@,
        TokenType::Plus => "Plus"@,
        TokenType::Minus => "Minus"@,
        TokenType::Bang => "Bang"@,
        TokenType::Asterisk => "Asterisk"@,
        TokenType::Slash => "Slash"@,
        TokenType::Equal => "Equal"@,
        TokenType::NotEqual => "NotEqual"@,
        TokenType::LessThan => "LessThan"@,
        TokenType::GreaterThan => "GreaterThan"@,
        TokenType::Comma => "Comma"@,
        TokenType::Semicolon => "Semicolon"@,
        TokenType::LeftParen => "LeftParen"@,
        TokenType::RightParen => "RightParen"@,
        TokenType::LeftBrace => "LeftBrace"@,
        TokenType::RightBrace => "RightBrace"@,
        TokenType::Dot => "Dot"@,
        TokenType::Range => "Range"@,
        TokenType::Function => "Function"@,
        TokenType::Let => "Let"@,
        TokenType::True => "True"@,
        TokenType::False => "False"@,
        TokenType::If => "If"@,
        TokenType::Else => "Else"@,
        TokenType::Return => "Return"@,
        TokenType::For => "For"@,
        TokenType::In => "In"@,
    }
}

/// The text that every token of a kind is read from, for the kinds that have
/// one: the marks and the keywords. Identifiers, integer literals and illegal
/// characters have texts of their own, and the end of the input has none; for
/// these the result is empty.
pub open spec fn kind_text(t: TokenType) -> Seq<char> {
    match t {
        TokenType::Illegal => ""@,
        TokenType::EndOfInput => ""@,
        TokenType::Identifier => ""@,
        TokenType::IntegerLiteral => ""@,
        TokenType::Assign => "="@,
        TokenType::Plus => "+"@,
        TokenType::Minus => "-"@,
        TokenType::Bang => "!"@,
        TokenType::Asterisk => "*"@,
        TokenType::Slash => "/"@,
        TokenType::Equal => "=="@,
        TokenType::NotEqual => "!="@,
        TokenType::LessThan => "<"@,
        TokenType::GreaterThan => ">"@,
        TokenType::Comma => ","@,
        TokenType::Semicolon => ";"@,
        TokenType::LeftParen => "("@,
        TokenType::RightParen => ")"@,
        TokenType::LeftBrace => "{"@,
        TokenType::RightBrace => "}"@,
        TokenType::Dot => "."@,
        TokenType::Range => ".."@,
        TokenType::Function => "fn"@,
        TokenType::Let => "let"@,
        TokenType::True => "true"@,
        TokenType::False => "false"@,
        TokenType::If => "if"@,
        TokenType::Else => "else"@,
        TokenType::Return => "return"@,
        TokenType::For => "for"@,
        TokenType::In => "in"@,
    }
}

impl TokenType {
    /// The text that every token of the kind is read from; empty for a kind
    /// whose tokens have texts of their own.
    pub fn literal(&self) -> (s: &'static str)
        ensures
            s@ == kind_text(*self),
    {
        match self {
            TokenType::Illegal => "",
            TokenType::EndOfInput => "",
            TokenType::Identifier => "",
            TokenType::IntegerLiteral => "",
            TokenType::Assign => "=",
            TokenType::Plus => "+",
            TokenType::Minus => "-",
            TokenType::Bang => "!",
            TokenType::Asterisk => "*",
            TokenType::Slash => "/",
            TokenType::Equal => "==",
            TokenType::NotEqual => "!=",
            TokenType::LessThan => "<",
            TokenType::GreaterThan => ">",
            TokenType::Comma => ",",
            TokenType::Semicolon => ";",
            TokenType::LeftParen => "(",
            TokenType::RightParen => ")",
            TokenType::LeftBrace => "{",
            TokenType::RightBrace => "}",
            TokenType::Dot => ".",
            TokenType::Range => "..",
            TokenType::Function => "fn",
            TokenType::Let => "let",
            TokenType::True => "true",
            TokenType::False => "false",
            TokenType::If => "if",
            TokenType::Else => "else",
            TokenType::Return => "return",
            TokenType::For => "for",
            TokenType::In => "in",
        }
    }

    /// The name of the kind, as diagnostics write it.
    pub fn name(&self) -> (s: &'static str)
        ensures
            s@ == kind_name(*self),
    {
        match self {
            TokenType::Illegal => "Illegal",
            TokenType::EndOfInput => "EndOfInput",
            TokenType::Identifier => "Identifier",
            TokenType::IntegerLiteral => "IntegerLiteral",
            TokenType::Assign => "Assign",
            TokenType::Plus => "Plus",
            TokenType::Minus => "Minus",
            TokenType::Bang => "Bang",
            TokenType::Asterisk => "Asterisk",
            TokenType::Slash => "Slash",
            TokenType::Equal => "Equal",
            TokenType::NotEqual => "NotEqual",
            TokenType::LessThan => "LessThan",
            TokenType::GreaterThan => "GreaterThan",
            TokenType::Comma => "Comma",
            TokenType::Semicolon => "Semicolon",
            TokenType::LeftParen => "LeftParen",
            TokenType::RightParen => "RightParen",
            TokenType::LeftBrace => "LeftBrace",
            TokenType::RightBrace => "RightBrace",
            TokenType::Dot => "Dot",
            TokenType::Range => "Range",
            TokenType::Function => "Function",
            TokenType::Let => "Let",
            TokenType::True => "True",
            TokenType::False => "False",
            TokenType::If => "If",
            TokenType::Else => "Else",
            TokenType::Return => "Return",
            TokenType::For => "For",
            TokenType::In => "In",
        }
    }
}

/// The kind of a word: the keyword it spells, or `Identifier`.
pub open spec fn keyword_or_identifier(word: Seq<char>) -> TokenType {
    if word == "fn"@ {
        TokenType::Function
    } else if word == "let"@ {
        TokenType::Let
    } else if word == "true"@ {
        TokenType::True
    } else if word == "false"@ {
        TokenType::False
    } else if word == "if"@ {
        TokenType::If
    } else if word == "else"@ {
        TokenType::Else
    } else if word == "return"@ {
        TokenType::Return
    } else if word == "for"@ {
        TokenType::For
    } else if word == "in"@ {
        TokenType::In
    } else {
        TokenType::Identifier
    }
}

/// The kind of the word `chars[from..to]`.
pub fn word_kind(chars: &Vec<char>, from: usize, to: usize) -> (t: TokenType)
    requires
        from <= to <= chars.len(),
    ensures
        t == keyword_or_identifier(chars@.subrange(from as int, to as int)),
{
    if spells(chars, from, to, "fn") {
        TokenType::Function
    } else if spells(chars, from, to, "let") {
        TokenType::Let
    } else if spells(chars, from, to, "true") {
        TokenType::True
    } else if spells(chars, from, to, "false") {
        TokenType::False
    } else if spells(chars, from, to, "if") {
        TokenType::If
    } else if spells(chars, from, to, "else") {
        TokenType::Else
    } else if spells(chars, from, to, "return") {
        TokenType::Return
    } else if spells(chars, from, to, "for") {
        TokenType::For
    } else if spells(chars, from, to, "in") {
        TokenType::In
    } else {
        TokenType::Identifier
    }
}

/// The kind of the word `ident`: the keyword it spells, or `Identifier`.
pub fn lookup_ident(ident: &str) -> (t: TokenType)
    ensures
        t == keyword_or_identifier(ident@),
{
    let chars = chars_of(ident);
    assert(chars@.subrange(0, chars@.len() as int) == chars@);
    word_kind(&chars, 0, chars.len())
}

/// A token as a value: its kind, its text, and where the text starts.
pub struct TokenView {
    pub token_type: TokenType,
    pub literal: Seq<char>,
    pub position: Position,
}

/// The token that stands for the end of the source: no text, no place.
pub open spec fn end_of_input() -> TokenView {
    TokenView {
        token_type: TokenType::EndOfInput,
        literal: Seq::empty(),
        position: Position(0, 0),
    }
}

/// A token: its kind, the text it was read from, and the position of the
/// first character of that text.
#[derive(Debug)]
pub struct Token {
    pub token_type: TokenType,
    pub literal: String,
    pub position: Position,
}

impl View for Token {
    type V = TokenView;

    open spec fn view(&self) -> TokenView {
        TokenView {
            token_type: self.token_type,
            literal: self.literal@,
            position: self.position,
        }
    }
}

impl Clone for Token {
    fn clone(&self) -> (t: Token)
        ensures
            t@ == self@,
    {
        Token {
            token_type: self.token_type,
            literal: self.literal.clone(),
            position: self.position,
        }
    }
}

impl Default for Token {
    fn default() -> (t: Token)
        ensures
            t@ == end_of_input(),
    {
        Token {
            token_type: TokenType::EndOfInput,
            literal: String::new(),
            position: Position(0, 0),
        }
    }
}

impl Token {
    /// A token of the given kind, text and position.
    pub fn new(token_type: TokenType, literal: String, position: Position) -> (t: Token)
        ensures
            t.token_type == token_type,
            t.literal == literal,
            t.position == position,
    {
        Token { token_type, literal, position }
    }

    /// Moves the token out and leaves the end-of-input token in its place.
    pub fn take(&mut self) -> (t: Token)
        ensures
            t == *old(self),
            final(self)@ == end_of_input(),
    {
        let mut out = Token::default();
        core::mem::swap(self, &mut out);
        out
    }

    /// The kind of the word `ident`: the keyword it spells, or `Identifier`.
    pub fn lookup_ident(ident: &str) -> (t: TokenType)
        ensures
            t == keyword_or_identifier(ident@),
    {
        lookup_ident(ident)
    }

    /// The token as text: the text it was read from.
    pub fn string(&self) -> (s: String)
        ensures
            s@ == self@.literal,
    {
        self.literal.clone()
    }
}

/// The token at index `at` of `tokens`. After the last token every read
/// gives the end-of-input token.
pub open spec fn current(tokens: Seq<TokenView>, at: nat) -> TokenView {
    if at < tokens.len() {
        tokens[at as int]
    } else {
        end_of_input()
    }
}

/// The token after the one at index `at`.
pub open spec fn peek(tokens: Seq<TokenView>, at: nat) -> TokenView {
    current(tokens, at + 1)
}

/// How many tokens lie at or after index `at`.
pub open spec fn ahead(tokens: Seq<TokenView>, at: nat) -> nat {
    if at < tokens.len() {
        (tokens.len() - at) as nat
    } else {
        0
    }
}

/// The tokens at or after index `at`.
pub open spec fn rest(tokens: Seq<TokenView>, at: nat) -> Seq<TokenView> {
    if at <= tokens.len() {
        tokens.skip(at as int)
    } else {
        Seq::empty()
    }
}

} // verus!
