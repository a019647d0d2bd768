//! Preparing a program's source for the interpreter.
use vstd::prelude::*;

use crate::ast::{is_prelude, same_import, with_default_imports, Module};
use crate::ast::views::{exposing_view, imports_view, stmts_view, ModuleView};
use crate::env::{first_index, lemma_first_index};
use crate::error::Error;
use crate::lexer::{lex_from, token_for_span, SrcToken, TokenIter};
use crate::parser::grammar::{perr, PErr};
use crate::parser::module_grammar::module_at;
use crate::parser;
use crate::text::{chars_of, owned, string_from_range};

verus! {

broadcast use vstd::string::group_string_axioms;

pub open spec fn is_newline() -> spec_fn(char) -> bool {
    |c: char| c == '\n'
}

/// Where the first line ends: at the first line break, or at the end of the text.
pub open spec fn first_line_end(s: Seq<char>) -> int {
    match first_index(s, is_newline()) {
        Some(i) => i,
        None => s.len() as int,
    }
}

/// The text without its first line when that line starts with `#!`: what follows the first
/// line break, or nothing when there is none. Any other text is kept as it is.
pub open spec fn hash_bang_filtered(s: Seq<char>) -> Seq<char> {
    if s.len() >= 2 && s[0] == '#' && s[1] == '!' {
        if first_line_end(s) < s.len() {
            s.skip(first_line_end(s) + 1)
        } else {
            Seq::empty()
        }
    } else {
        s
    }
}

/// Drops the first line of the code if it starts with `#!`, keeping the other lines as they
/// are.
pub fn filter_hash_bang(code: String) -> (r: String)
    ensures
        r@ == hash_bang_filtered(code@),
{
    let cs = chars_of(code.as_str());
    if cs.len() >= 2 && cs[0] == '#' && cs[1] == '!' {
        let mut end: usize = 0;
        while end < cs.len() && cs[end] != '\n'
            invariant
                end <= cs@.len(),
                forall|j: int| 0 <= j < end ==> !is_newline()(#[trigger] cs@[j]),
            decreases cs@.len() - end,
        {
            end = end + 1;
        }
        proof {
            lemma_first_index(cs@, is_newline(), end as int);
        }
        if end < cs.len() {
            let r = string_from_range(cs.as_slice(), end + 1, cs.len());
            assert(cs@.subrange(end + 1, cs@.len() as int) =~= cs@.skip(end + 1));
            r
        } else {
            String::new()
        }
    } else {
        code
    }
}

/// The tokens that lexing `source` gives: one for each span of `lex_from`, denoting its text.
pub open spec fn lexes_to(source: Seq<char>, ts: Seq<SrcToken>) -> bool {
    &&& ts.len() == lex_from(source, 0).len()
    &&& forall|k: int|
        0 <= k < ts.len() ==> token_for_span(source, #[trigger] ts[k], lex_from(source, 0)[k])
}

/// `r` is what the module grammar read: on success the module with the prelude imports
/// before its own, on failure the parse error.
pub open spec fn program_outcome(parsed: Result<ModuleView, PErr>, r: Result<Module, Error>) -> bool {
    match parsed {
        Ok(mv) => r matches Ok(m) && m.name.deep_view() == mv.0 && exposing_view(m.exposing)
            == mv.1 && imports_view(m.imports@).skip(4) == mv.2 && stmts_view(m.statements@)
            == mv.3,
        Err(e) => r matches Err(Error::ParserError(pe, _)) && perr(pe) == e,
    }
}

/// Parses the source of a program, and gives the module the default imports.
pub fn parse_program(contents: &str) -> (r: Result<Module, Error>)
    requires
        contents@.len() <= usize::MAX / 4,
    ensures
        r matches Err(e) ==> (e matches Error::ParserError(_, source) && source@ == contents@),
        r matches Ok(m) ==> m.imports@.len() >= 4 && is_prelude(m.imports@.take(4)),
        exists|ts: Seq<SrcToken>|
            #[trigger] lexes_to(contents@, ts) && program_outcome(module_at(ts, 0).0, r),
{
    let mut iter = TokenIter::from_source(contents);
    let ghost ts = iter.tokens@;
    proof {
        assert(lexes_to(contents@, ts));
    }
    match parser::parse(&mut iter) {
        Err(err) => Err(Error::ParserError(err, owned(contents))),
        Ok(module) => {
            let m = with_default_imports(&module);
            proof {
                assert forall|i: int| 0 <= i < module.imports@.len() implies #[trigger] imports_view(
                    m.imports@,
                ).skip(4)[i] == imports_view(module.imports@)[i] by {
                    assert(same_import(m.imports@[i + 4], module.imports@[i]));
                }
                assert(imports_view(m.imports@).skip(4) =~= imports_view(module.imports@));
            }
            Ok(m)
        },
    }
}

} // verus!
