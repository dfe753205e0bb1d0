//! Running a source: from text to the program in canonical form, or to the
//! diagnostics where the text does not parse.

use vstd::prelude::*;

use crate::ast::render_statements;
use crate::grammar::program;
use crate::lexer::{tokenize, Lexer};
use crate::parser::{texts, Parser};

verus! {

/// The text that reports diagnostics: a heading of two lines, then one line
/// for each diagnostic, set in by a tab.
pub open spec fn report(errors: Seq<Seq<char>>, i: int) -> Seq<char>
    decreases errors.len() - i,
{
    if 0 <= i < errors.len() {
        "\t"@ + errors[i] + "\n"@ + report(errors, i + 1)
    } else {
        Seq::empty()
    }
}

/// The report of `errors`, ready to be printed.
pub fn parse_errors_report(errors: &Vec<String>) -> (s: String)
    ensures
        s@ == "Woops! We ran into some issue here!\n parser errors:\n"@ + report(
            texts(errors@),
            0,
        ),
{
    let ghost items = texts(errors@);
    let mut lines = String::new();
    let mut i: usize = 0;
    while i < errors.len()
        invariant
            i <= errors.len(),
            items == texts(errors@),
            lines@ + report(items, i as int) == report(items, 0),
        decreases errors.len() - i,
    {
        let ghost before = lines@;
        lines.append("\t");
        lines.append(errors[i].as_str());
        lines.append("\n");
        assert(lines@ + report(items, i + 1) =~= before + ("\t"@ + items[i as int] + "\n"@
            + report(items, i + 1)));
        i += 1;
    }
    assert(lines@ =~= report(items, 0));
    let mut s = String::from_str("Woops! We ran into some issue here!\n parser errors:\n");
    s.append(lines.as_str());
    s
}

/// Lexes and parses `input`. Where no diagnostic was recorded the result is
/// the program in canonical form; otherwise it is the diagnostics, in order.
pub fn exec(input: String) -> (r: Result<String, Vec<String>>)
    ensures
        match r {
            Ok(text) => {
                &&& program(tokenize(input@), 0).errors.len() == 0
                &&& text@ == render_statements(program(tokenize(input@), 0).value, 0)
            },
            Err(errors) => {
                &&& errors.len() > 0
                &&& texts(errors@) == program(tokenize(input@), 0).errors
            },
        },
{
    let l = Lexer::new(input);
    let mut p = Parser::new(l);
    let ghost before = p.diagnostics();
    let ghost parsed = program(p.tokens(), p.position());
    let program = p.parse_program();
    assert(p.diagnostics() =~= parsed.errors);
    let errors = p.errors();
    assert(texts(errors@).len() == errors.len());
    if errors.len() != 0 {
        let mut found: Vec<String> = Vec::new();
        let mut i: usize = 0;
        while i < errors.len()
            invariant
                i <= errors.len(),
                found.len() == i,
                forall|k: int| 0 <= k < i ==> found@[k]@ == errors@[k]@,
            decreases errors.len() - i,
        {
            found.push(errors[i].clone());
            i += 1;
        }
        assert(texts(found@) =~= texts(errors@));
        return Err(found);
    }
    Ok(program.string())
}

} // verus!
