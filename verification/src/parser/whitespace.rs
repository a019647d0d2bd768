//! Skipping spaces and comments inside a line.
use vstd::prelude::*;

use crate::lexer::{Token, TokenIter, advanced};
use super::grammar::{lemma_skip_end, skip_end, Skip};

verus! {

/// Spaces and comments, which `consume_spaces` passes over.
pub open spec fn is_space_or_comment(t: Token) -> bool {
    t is Space || t is SingleLineComment || t is MultiLineComment
}

// Consumes space and comments
/// Moves past the spaces and comments at the front of `iter`, stopping at the first other
/// token or at the end.
pub fn consume_spaces(iter: &mut TokenIter)
    requires
        old(iter).wf(),
    ensures
        advanced(*old(iter), *final(iter)),
        forall|k: int|
            old(iter).pos <= k < final(iter).pos ==> is_space_or_comment(
                #[trigger] final(iter).tokens@[k].0,
            ),
        final(iter).pos < final(iter).tokens@.len() ==> !is_space_or_comment(
            final(iter).tokens@[final(iter).pos as int].0,
        ),
        final(iter).pos == skip_end(old(iter).tokens@, old(iter).pos as int, Skip::Spaces),
{
    let ghost start = iter.pos as int;
    while iter.pos < iter.tokens.len()
        invariant
            iter.wf(),
            iter.tokens@ == old(iter).tokens@,
            start == old(iter).pos,
            start <= iter.pos,
            forall|k: int| start <= k < iter.pos ==> is_space_or_comment(#[trigger] iter.tokens@[k].0),
        decreases iter.tokens@.len() - iter.pos,
    {
        match iter.tokens[iter.pos].0 {
            Token::Space(_) | Token::SingleLineComment(_) | Token::MultiLineComment(_) => {
                iter.pos = iter.pos + 1;
            },
            _ => {
                proof {
                    lemma_skip_end(iter.tokens@, start, iter.pos as int, Skip::Spaces);
                }
                return ;
            },
        }
    }
    proof {
        lemma_skip_end(iter.tokens@, start, iter.pos as int, Skip::Spaces);
    }
}

} // verus!
