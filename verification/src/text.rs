//! Characters and strings: the classes of characters the lexer tells apart,
//! copying between strings and vectors of characters, and decimal numerals.

use vstd::prelude::*;

verus! {

/// `String::push` appends one character: afterwards the string reads as it
/// did before, followed by `c`.
pub assume_specification[ String::push ](s: &mut String, c: char)
    ensures
        final(s)@ == old(s)@.push(c),
;

/// An ASCII letter or an underscore: what an identifier is made of.
pub open spec fn letter(ch: char) -> bool {
    'a' <= ch <= 'z' || 'A' <= ch <= 'Z' || ch == '_'
}

/// An ASCII digit: what an integer literal is made of.
pub open spec fn digit(ch: char) -> bool {
    '0' <= ch <= '9'
}

/// Whether `ch` may stand in an identifier.
pub fn is_letter(ch: char) -> (r: bool)
    ensures
        r == letter(ch),
{
    ('a' <= ch && ch <= 'z') || ('A' <= ch && ch <= 'Z') || ch == '_'
}

/// Whether `ch` may stand in an integer literal.
pub fn is_digit(ch: char) -> (r: bool)
    ensures
        r == digit(ch),
{
    '0' <= ch && ch <= '9'
}

/// The characters of a string, in order.
pub fn chars_of(s: &str) -> (v: Vec<char>)
    ensures
        v@ == s@,
{
    let mut v: Vec<char> = Vec::new();
    for c in it: s.chars()
        invariant
            it.seq() == s@,
            v@ == it.seq().take(it.index() as int),
    {
        v.push(c);
    }
    v
}

/// The string spelled by `chars[from..to]`.
pub fn string_of(chars: &Vec<char>, from: usize, to: usize) -> (s: String)
    requires
        from <= to <= chars.len(),
    ensures
        s@ == chars@.subrange(from as int, to as int),
{
    let mut s = String::new();
    let mut i: usize = from;
    while i < to
        invariant
            from <= i <= to <= chars.len(),
            s@ == chars@.subrange(from as int, i as int),
        decreases to - i,
    {
        s.push(chars[i]);
        assert(chars@.subrange(from as int, i + 1) == chars@.subrange(from as int, i as int).push(
            chars@[i as int],
        ));
        i += 1;
    }
    s
}

/// Whether `chars[from..to]` spells exactly `word`.
pub fn spells(chars: &Vec<char>, from: usize, to: usize, word: &str) -> (r: bool)
    requires
        from <= to <= chars.len(),
    ensures
        r == (chars@.subrange(from as int, to as int) == word@),
{
    let ghost found = chars@.subrange(from as int, to as int);
    let n = word.unicode_len();
    if to - from != n {
        return false;
    }
    let mut i: usize = 0;
    while i < n
        invariant
            from <= to <= chars.len(),
            to - from == n,
            n == word@.len(),
            i <= n,
            found == chars@.subrange(from as int, to as int),
            forall|k: int| 0 <= k < i ==> found[k] == word@[k],
        decreases n - i,
    {
        if chars[from + i] != word.get_char(i) {
            assert(found[i as int] != word@[i as int]);
            return false;
        }
        i += 1;
    }
    assert(found =~= word@);
    true
}

/// The character that writes the digit `d`.
pub open spec fn digit_char(d: nat) -> char
    recommends
        d < 10,
{
    (('0' as nat) + d) as char
}

/// The decimal numeral of `n`, without leading zeros.
pub open spec fn decimal(n: nat) -> Seq<char>
    decreases n,
{
    if n < 10 {
        seq![digit_char(n)]
    } else {
        decimal(n / 10).push(digit_char(n % 10))
    }
}

/// The number that a digit writes, and 0 for any other character.
pub open spec fn digit_value(c: char) -> nat {
    if digit(c) {
        ((c as nat) - ('0' as nat)) as nat
    } else {
        0
    }
}

/// The number that a run of digits writes, read as a decimal numeral.
pub open spec fn decimal_value(digits: Seq<char>) -> nat
    decreases digits.len(),
{
    if digits.len() == 0 {
        0
    } else {
        decimal_value(digits.drop_last()) * 10 + digit_value(digits.last())
    }
}

/// Whether every character of `s` is a digit.
pub open spec fn all_digits(s: Seq<char>) -> bool {
    forall|i: int| 0 <= i < s.len() ==> digit(#[trigger] s[i])
}

/// The number that an integer literal writes, where it is a run of digits
/// that a signed 64-bit integer can hold.
pub open spec fn integer_value(literal: Seq<char>) -> Option<i64> {
    if literal.len() > 0 && all_digits(literal) && decimal_value(literal) <= i64::MAX {
        Some(decimal_value(literal) as i64)
    } else {
        None
    }
}

/// The character that writes the digit `d`.
fn digit_to_char(d: usize) -> (c: char)
    requires
        d < 10,
    ensures
        c == digit_char(d as nat),
{
    if d == 0 {
        '0'
    } else if d == 1 {
        '1'
    } else if d == 2 {
        '2'
    } else if d == 3 {
        '3'
    } else if d == 4 {
        '4'
    } else if d == 5 {
        '5'
    } else if d == 6 {
        '6'
    } else if d == 7 {
        '7'
    } else if d == 8 {
        '8'
    } else {
        '9'
    }
}

/// The digit that `c` writes.
fn char_to_digit(c: char) -> (d: i64)
    requires
        digit(c),
    ensures
        d == digit_value(c),
        0 <= d <= 9,
{
    if c == '0' {
        0
    } else if c == '1' {
        1
    } else if c == '2' {
        2
    } else if c == '3' {
        3
    } else if c == '4' {
        4
    } else if c == '5' {
        5
    } else if c == '6' {
        6
    } else if c == '7' {
        7
    } else if c == '8' {
        8
    } else {
        9
    }
}

/// The decimal numeral of `n`.
pub fn decimal_string(n: usize) -> (s: String)
    ensures
        s@ == decimal(n as nat),
    decreases n,
{
    if n < 10 {
        let mut s = String::new();
        s.push(digit_to_char(n));
        assert(s@ =~= seq![digit_char(n as nat)]);
        s
    } else {
        let mut s = decimal_string(n / 10);
        s.push(digit_to_char(n % 10));
        s
    }
}

/// A longer run of digits writes no smaller a number than its beginning.
proof fn lemma_decimal_value_grows(digits: Seq<char>, i: int)
    requires
        0 <= i <= digits.len(),
    ensures
        decimal_value(digits.take(i)) <= decimal_value(digits),
    decreases digits.len() - i,
{
    if i < digits.len() {
        let longer = digits.take(i + 1);
        assert(longer.drop_last() =~= digits.take(i));
        lemma_decimal_value_grows(digits, i + 1);
    } else {
        assert(digits.take(i) =~= digits);
    }
}

/// The number that a run of digits writes, where a signed 64-bit integer can
/// hold it; `None` for an empty string, for one with another character in
/// it, and for a number that is too large.
pub fn parse_integer(literal: &str) -> (r: Option<i64>)
    ensures
        r == integer_value(literal@),
{
    let chars = chars_of(literal);
    if chars.len() == 0 {
        return None;
    }
    let mut value: i64 = 0;
    let mut i: usize = 0;
    while i < chars.len()
        invariant
            i <= chars.len(),
            chars@ == literal@,
            all_digits(chars@.take(i as int)),
            value == decimal_value(chars@.take(i as int)),
            0 <= value,
        decreases chars.len() - i,
    {
        let c = chars[i];
        if !is_digit(c) {
            assert(!digit(chars@[i as int]));
            return None;
        }
        let d = char_to_digit(c);
        proof {
            assert(chars@.take(i + 1).drop_last() =~= chars@.take(i as int));
            assert(decimal_value(chars@.take(i + 1)) == value * 10 + d);
        }
        if value > (i64::MAX - d) / 10 {
            proof {
                lemma_decimal_value_grows(chars@, i + 1);
            }
            return None;
        }
        value = value * 10 + d;
        assert(all_digits(chars@.take(i + 1))) by {
            let read = chars@.take(i + 1);
            assert forall|k: int| 0 <= k < i + 1 implies digit(#[trigger] read[k]) by {
                if k < i {
                    assert(chars@.take(i as int)[k] == chars@[k]);
                }
            }
        }
        i += 1;
    }
    assert(chars@.take(i as int) =~= chars@);
    Some(value)
}

} // verus!
