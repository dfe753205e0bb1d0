use prolang::lexer::Lexer;
use prolang::token::{lookup_ident, Position, Token, TokenType};

fn kinds_and_literals(input: &str) -> Vec<(TokenType, String)> {
    let mut l = Lexer::new(input.to_string());
    let mut out = Vec::new();
    loop {
        let tok = l.next_token();
        let end = tok.token_type == TokenType::EndOfInput;
        out.push((tok.token_type, tok.literal));
        if end {
            break;
        }
    }
    out
}

fn all_tokens(input: &str) -> Vec<Token> {
    let mut l = Lexer::new(input.to_string());
    let mut out = Vec::new();
    loop {
        let tok = l.next_token();
        let end = tok.token_type == TokenType::EndOfInput;
        out.push(tok);
        if end {
            break;
        }
    }
    out
}

fn expect_tokens(input: &str, tests: &[(TokenType, &str)]) {
    let mut l = Lexer::new(input.to_string());
    for (expected_type, expected_literal) in tests {
        let tok = l.next_token();
        assert_eq!(
            tok.token_type, *expected_type,
            "test - tokentype wrong. extected={:?}, got={:?} - literal: {}",
            expected_type, tok.token_type, tok.literal,
        );
        assert_eq!(
            tok.literal, *expected_literal,
            "test - literal wrong. extected={}, got={}",
            expected_literal, tok.literal,
        );
    }
}

const SHORT_PROGRAM: [(TokenType, &str); 37] = [
    (TokenType::Let, "let"),
    (TokenType::Identifier, "five"),
    (TokenType::Assign, "="),
    (TokenType::IntegerLiteral, "5"),
    (TokenType::Semicolon, ";"),
    (TokenType::Let, "let"),
    (TokenType::Identifier, "ten"),
    (TokenType::Assign, "="),
    (TokenType::IntegerLiteral, "10"),
    (TokenType::Semicolon, ";"),
    (TokenType::Let, "let"),
    (TokenType::Identifier, "add"),
    (TokenType::Assign, "="),
    (TokenType::Function, "fn"),
    (TokenType::LeftParen, "("),
    (TokenType::Identifier, "x"),
    (TokenType::Comma, ","),
    (TokenType::Identifier, "y"),
    (TokenType::RightParen, ")"),
    (TokenType::LeftBrace, "{"),
    (TokenType::Identifier, "x"),
    (TokenType::Plus, "+"),
    (TokenType::Identifier, "y"),
    (TokenType::Semicolon, ";"),
    (TokenType::RightBrace, "}"),
    (TokenType::Semicolon, ";"),
    (TokenType::Let, "let"),
    (TokenType::Identifier, "result"),
    (TokenType::Assign, "="),
    (TokenType::Identifier, "add"),
    (TokenType::LeftParen, "("),
    (TokenType::Identifier, "five"),
    (TokenType::Comma, ","),
    (TokenType::Identifier, "ten"),
    (TokenType::RightParen, ")"),
    (TokenType::Semicolon, ";"),
    (TokenType::EndOfInput, ""),
];

const LONG_TAIL: [(TokenType, &str); 42] = [
    (TokenType::Bang, "!"),
    (TokenType::Minus, "-"),
    (TokenType::Asterisk, "*"),
    (TokenType::Slash, "/"),
    (TokenType::IntegerLiteral, "5"),
    (TokenType::Semicolon, ";"),
    (TokenType::IntegerLiteral, "5"),
    (TokenType::LessThan, "<"),
    (TokenType::IntegerLiteral, "10"),
    (TokenType::GreaterThan, ">"),
    (TokenType::IntegerLiteral, "5"),
    (TokenType::Semicolon, ";"),
    (TokenType::If, "if"),
    (TokenType::LeftParen, "("),
    (TokenType::IntegerLiteral, "5"),
    (TokenType::LessThan, "<"),
    (TokenType::IntegerLiteral, "10"),
    (TokenType::RightParen, ")"),
    (TokenType::LeftBrace, "{"),
    (TokenType::Return, "return"),
    (TokenType::True, "true"),
    (TokenType::Semicolon, ";"),
    (TokenType::RightBrace, "}"),
    (TokenType::Else, "else"),
    (TokenType::LeftBrace, "{"),
    (TokenType::Return, "return"),
    (TokenType::False, "false"),
    (TokenType::Semicolon, ";"),
    (TokenType::RightBrace, "}"),
    (TokenType::IntegerLiteral, "10"),
    (TokenType::Equal, "=="),
    (TokenType::IntegerLiteral, "10"),
    (TokenType::Semicolon, ";"),
    (TokenType::IntegerLiteral, "10"),
    (TokenType::NotEqual, "!="),
    (TokenType::IntegerLiteral, "9"),
    (TokenType::Semicolon, ";"),
    (TokenType::Dot, "."),
    (TokenType::Semicolon, ";"),
    (TokenType::Range, ".."),
    (TokenType::EndOfInput, ""),
    (TokenType::EndOfInput, ""),
];

const LONG_INPUT: &str = "
        let five = 5;
        let ten = 10;
        let add = fn(x, y) {
            x + y;
        };
        let result = add(five, ten);

        !-*/5;
        5 < 10 > 5;
        if (5 < 10) {
            return true;
        } else {
            return false;
        }
        10 == 10; 10 != 9;
        .;
        ..
        ";

fn long_expected() -> Vec<(TokenType, &'static str)> {
    let mut tests: Vec<(TokenType, &'static str)> = SHORT_PROGRAM[..36].to_vec();
    tests.extend_from_slice(&LONG_TAIL[..41]);
    tests
}

#[test]
fn lexer_test_next_token() {
    let input = "let five = 5;
        let ten = 10;
        let add = fn(x, y) {
            x + y;
        };
        let result = add(five, ten);
        ";
    expect_tokens(input, &SHORT_PROGRAM);
}

#[test]
fn test_next_token() {
    expect_tokens(LONG_INPUT, &long_expected());
}

#[test]
fn test_test_next_token() {
    let tests = long_expected();
    assert_eq!(tests.len(), 77);
    let got = kinds_and_literals(LONG_INPUT);
    assert_eq!(got.len(), tests.len());
    for (i, (expected_type, expected_literal)) in tests.iter().enumerate() {
        assert_eq!(
            got[i].0, *expected_type,
            "test - tokentype wrong. extected={:?}, got={:?} - literal_e: {}",
            expected_type, got[i].0, got[i].1,
        );
        assert_eq!(
            got[i].1, *expected_literal,
            "test - literal wrong. extected={}, got={}",
            expected_literal, got[i].1,
        );
    }
}

#[test]
fn test_line_and_column() {
    let input = "
let five = 5;
// this is comment
let a = 10;
        "
    .to_string();
    struct TestCase {
        expected_type: TokenType,
        expected_literal: String,
        expected_column: usize,
        expected_line: usize,
    }

    let tests = [
        TestCase {
            expected_type: TokenType::Let,
            expected_literal: "let".to_string(),
            expected_column: 1,
            expected_line: 2,
        },
        TestCase {
            expected_type: TokenType::Identifier,
            expected_literal: "five".to_string(),
            expected_column: 5,
            expected_line: 2,
        },
        TestCase {
            expected_type: TokenType::Assign,
            expected_literal: "=".to_string(),
            expected_column: 10,
            expected_line: 2,
        },
        TestCase {
            expected_type: TokenType::IntegerLiteral,
            expected_literal: "5".to_string(),
            expected_column: 12,
            expected_line: 2,
        },
        TestCase {
            expected_type: TokenType::Semicolon,
            expected_literal: ";".to_string(),
            expected_column: 13,
            expected_line: 2,
        },
        TestCase {
            expected_type: TokenType::Let,
            expected_literal: "let".to_string(),
            expected_column: 1,
            expected_line: 4,
        },
        TestCase {
            expected_type: TokenType::Identifier,
            expected_literal: "a".to_string(),
            expected_column: 5,
            expected_line: 4,
        },
        TestCase {
            expected_type: TokenType::Assign,
            expected_literal: "=".to_string(),
            expected_column: 7,
            expected_line: 4,
        },
        TestCase {
            expected_type: TokenType::IntegerLiteral,
            expected_literal: "10".to_string(),
            expected_column: 9,
            expected_line: 4,
        },
        TestCase {
            expected_type: TokenType::Semicolon,
            expected_literal: ";".to_string(),
            expected_column: 11,
            expected_line: 4,
        },
        TestCase {
            expected_type: TokenType::EndOfInput,
            expected_literal: "".to_string(),
            expected_column: 0,
            expected_line: 0,
        },
    ];

    let mut l = Lexer::new(input);
    for tt in tests {
        let tok = l.next_token();
        assert_eq!(
            tok.token_type, tt.expected_type,
            "test - tokentype wrong. extected={:?}, got={:?} - literal_e: {}",
            tt.expected_type, tok.token_type, tok.literal,
        );
        assert_eq!(
            tok.literal, tt.expected_literal,
            "test - literal wrong. extected={}, got={}",
            tt.expected_literal, tok.literal,
        );
        assert_eq!(
            tok.position.0, tt.expected_line,
            "test - wrong line number. expected={}, got={}",
            tt.expected_line, tok.position.0
        );
        assert_eq!(
            tok.position.1, tt.expected_column,
            "test - wrong column number. expected={}, got={}",
            tt.expected_column, tok.position.1
        );
    }
}

#[test]
fn positions_are_those_of_the_first_character() {
    let toks = all_tokens("ab == 12\n  != ..");
    let got: Vec<(TokenType, &str, Position)> =
        toks.iter().map(|t| (t.token_type, t.literal.as_str(), t.position)).collect();
    assert_eq!(
        got,
        vec![
            (TokenType::Identifier, "ab", Position(1, 1)),
            (TokenType::Equal, "==", Position(1, 4)),
            (TokenType::IntegerLiteral, "12", Position(1, 7)),
            (TokenType::NotEqual, "!=", Position(2, 3)),
            (TokenType::Range, "..", Position(2, 6)),
            (TokenType::EndOfInput, "", Position(0, 0)),
        ]
    );
}

#[test]
fn line_comment_runs_to_the_end_of_the_line() {
    let toks = all_tokens("a // b c d\n  e");
    let got: Vec<(TokenType, &str, Position)> =
        toks.iter().map(|t| (t.token_type, t.literal.as_str(), t.position)).collect();
    assert_eq!(
        got,
        vec![
            (TokenType::Identifier, "a", Position(1, 1)),
            (TokenType::Identifier, "e", Position(2, 3)),
            (TokenType::EndOfInput, "", Position(0, 0)),
        ]
    );
    let at_end = all_tokens("a // no newline after this");
    assert_eq!(at_end.len(), 2);
    assert_eq!(at_end[0].literal, "a");
    assert_eq!(at_end[1].token_type, TokenType::EndOfInput);
}

#[test]
fn block_comment_runs_across_lines() {
    let toks = all_tokens("a /* b\n c \n\n d */ e\nf");
    let got: Vec<(TokenType, &str, Position)> =
        toks.iter().map(|t| (t.token_type, t.literal.as_str(), t.position)).collect();
    assert_eq!(
        got,
        vec![
            (TokenType::Identifier, "a", Position(1, 1)),
            (TokenType::Identifier, "e", Position(4, 7)),
            (TokenType::Identifier, "f", Position(5, 1)),
            (TokenType::EndOfInput, "", Position(0, 0)),
        ]
    );
}

#[test]
fn block_comment_without_end_runs_to_the_end_of_the_source() {
    let got = kinds_and_literals("x /* never closed\n y z");
    assert_eq!(
        got,
        vec![
            (TokenType::Identifier, "x".to_string()),
            (TokenType::EndOfInput, "".to_string()),
        ]
    );
    let star = kinds_and_literals("x /* almost *");
    assert_eq!(star.len(), 2);
}

#[test]
fn block_comment_may_close_on_its_own_star() {
    let got = kinds_and_literals("/*/ a");
    assert_eq!(
        got,
        vec![
            (TokenType::Identifier, "a".to_string()),
            (TokenType::EndOfInput, "".to_string()),
        ]
    );
}

#[test]
fn slash_alone_is_a_token() {
    let got = kinds_and_literals("a / b /");
    assert_eq!(
        got,
        vec![
            (TokenType::Identifier, "a".to_string()),
            (TokenType::Slash, "/".to_string()),
            (TokenType::Identifier, "b".to_string()),
            (TokenType::Slash, "/".to_string()),
            (TokenType::EndOfInput, "".to_string()),
        ]
    );
}

#[test]
fn end_of_input_is_returned_forever() {
    let mut l = Lexer::new("x".to_string());
    assert_eq!(l.next_token().token_type, TokenType::Identifier);
    for _ in 0..5 {
        let tok = l.next_token();
        assert_eq!(tok.token_type, TokenType::EndOfInput);
        assert_eq!(tok.literal, "");
        assert_eq!(tok.position, Position(0, 0));
    }
    let mut empty = Lexer::new(String::new());
    assert_eq!(empty.next_token().token_type, TokenType::EndOfInput);
    assert_eq!(empty.next_token().token_type, TokenType::EndOfInput);
    let mut blank = Lexer::new(" \t\r\n ".to_string());
    assert_eq!(blank.next_token().token_type, TokenType::EndOfInput);
}

#[test]
fn illegal_characters_are_tokens_of_their_own() {
    let toks = all_tokens("a @ #b \u{e9}\u{0}1");
    let got: Vec<(TokenType, &str, Position)> =
        toks.iter().map(|t| (t.token_type, t.literal.as_str(), t.position)).collect();
    assert_eq!(
        got,
        vec![
            (TokenType::Identifier, "a", Position(1, 1)),
            (TokenType::Illegal, "@", Position(1, 3)),
            (TokenType::Illegal, "#", Position(1, 5)),
            (TokenType::Identifier, "b", Position(1, 6)),
            (TokenType::Illegal, "\u{e9}", Position(1, 8)),
            (TokenType::Illegal, "\u{0}", Position(1, 9)),
            (TokenType::IntegerLiteral, "1", Position(1, 10)),
            (TokenType::EndOfInput, "", Position(0, 0)),
        ]
    );
}

#[test]
fn identifiers_hold_no_digits() {
    let got = kinds_and_literals("x1 _a_b 12ab");
    assert_eq!(
        got,
        vec![
            (TokenType::Identifier, "x".to_string()),
            (TokenType::IntegerLiteral, "1".to_string()),
            (TokenType::Identifier, "_a_b".to_string()),
            (TokenType::IntegerLiteral, "12".to_string()),
            (TokenType::Identifier, "ab".to_string()),
            (TokenType::EndOfInput, "".to_string()),
        ]
    );
}

#[test]
fn two_character_marks() {
    let got = kinds_and_literals("= == === ! != !== . .. ...");
    let kinds: Vec<TokenType> = got.iter().map(|k| k.0).collect();
    assert_eq!(
        kinds,
        vec![
            TokenType::Assign,
            TokenType::Equal,
            TokenType::Equal,
            TokenType::Assign,
            TokenType::Bang,
            TokenType::NotEqual,
            TokenType::NotEqual,
            TokenType::Assign,
            TokenType::Dot,
            TokenType::Range,
            TokenType::Range,
            TokenType::Dot,
            TokenType::EndOfInput,
        ]
    );
}

#[test]
fn keywords_are_looked_up_by_their_exact_spelling() {
    assert_eq!(lookup_ident("fn"), TokenType::Function);
    assert_eq!(lookup_ident("let"), TokenType::Let);
    assert_eq!(lookup_ident("true"), TokenType::True);
    assert_eq!(lookup_ident("false"), TokenType::False);
    assert_eq!(lookup_ident("if"), TokenType::If);
    assert_eq!(lookup_ident("else"), TokenType::Else);
    assert_eq!(lookup_ident("return"), TokenType::Return);
    assert_eq!(lookup_ident("for"), TokenType::For);
    assert_eq!(lookup_ident("in"), TokenType::In);
    assert_eq!(lookup_ident("Let"), TokenType::Identifier);
    assert_eq!(lookup_ident("lets"), TokenType::Identifier);
    assert_eq!(lookup_ident("le"), TokenType::Identifier);
    assert_eq!(lookup_ident(""), TokenType::Identifier);
    assert_eq!(Token::lookup_ident("return"), TokenType::Return);
    assert_eq!(Token::lookup_ident("returns"), TokenType::Identifier);
}

#[test]
fn token_new_and_take() {
    let mut tok = Token::new(TokenType::Identifier, "abc".to_string(), Position(3, 4));
    assert_eq!(tok.token_type, TokenType::Identifier);
    assert_eq!(tok.literal, "abc");
    assert_eq!(tok.position, Position(3, 4));
    let copy = tok.clone();
    assert_eq!(copy.literal, "abc");
    let taken = tok.take();
    assert_eq!(taken.token_type, TokenType::Identifier);
    assert_eq!(taken.literal, "abc");
    assert_eq!(taken.position, Position(3, 4));
    assert_eq!(tok.token_type, TokenType::EndOfInput);
    assert_eq!(tok.literal, "");
    assert_eq!(tok.position, Position(0, 0));
    let d = Token::default();
    assert_eq!(d.token_type, TokenType::EndOfInput);
    assert_eq!(TokenType::default(), TokenType::EndOfInput);
    assert_eq!(Position::default(), Position(0, 0));
}

#[test]
fn kind_names() {
    assert_eq!(TokenType::Assign.name(), "Assign");
    assert_eq!(TokenType::EndOfInput.name(), "EndOfInput");
    assert_eq!(TokenType::IntegerLiteral.name(), "IntegerLiteral");
    assert_eq!(TokenType::Range.name(), "Range");
    assert_eq!(TokenType::In.name(), "In");
}
