//! Indentation: how far a token sits from the start of its line, and how many line breaks
//! separate it from where a construct began.
use vstd::prelude::*;

use crate::lexer::{Token, TokenIter, advanced};
use super::Error;
use super::grammar::{consume_at, lemma_skip_end, presult, to_indented, to_line_start, token_seq, Indent, PErr, Skip};

verus! {

pub struct Indentation {
    pub lines: usize,
    pub spaces: usize,
}

/// `a + b`, or `usize::MAX` when that does not fit.
pub open spec fn sat_add(a: int, b: int) -> usize {
    if a + b > usize::MAX {
        usize::MAX
    } else {
        (a + b) as usize
    }
}

/// Whitespace tokens: a line break or a run of spaces.
pub open spec fn is_whitespace(t: Token) -> bool {
    t is NewLine || t is Space
}

/// Whitespace or comment tokens.
pub open spec fn is_layout(t: Token) -> bool {
    is_whitespace(t) || t is SingleLineComment || t is MultiLineComment
}

/// The indentation reached from `(lines, spaces)` after the layout tokens `ts`: a line break
/// starts a new line with no spaces, a run of spaces adds its length, comments change nothing.
pub open spec fn after_layout(lines: usize, spaces: usize, ts: Seq<Token>) -> (usize, usize)
    decreases ts.len(),
{
    if ts.len() == 0 {
        (lines, spaces)
    } else {
        let (l, s) = after_layout(lines, spaces, ts.drop_last());
        match ts.last() {
            Token::NewLine => (sat_add(l as int, 1), 0),
            Token::Space(n) => (l, sat_add(s as int, n as int)),
            _ => (l, s),
        }
    }
}

/// The tokens of `iter` from position `a` to position `b`.
pub open spec fn tokens_between(iter: TokenIter, a: int, b: int) -> Seq<Token> {
    token_seq(iter.tokens@, a, b)
}

/// The stream stopped at the first token from `from` on that `skippable` does not accept, or
/// at the end; every token passed over is skippable.
pub open spec fn skipped_to(iter: TokenIter, from: int, with_comments: bool) -> bool {
    &&& forall|k: int|
        from <= k < iter.pos ==> if with_comments {
            is_layout(#[trigger] iter.tokens@[k].0)
        } else {
            is_whitespace(#[trigger] iter.tokens@[k].0)
        }
    &&& iter.pos < iter.tokens@.len() ==> if with_comments {
        !is_layout(iter.tokens@[iter.pos as int].0)
    } else {
        !is_whitespace(iter.tokens@[iter.pos as int].0)
    }
}

impl Indentation {
    pub fn new() -> (r: Self)
        ensures
            r.lines == 0,
            r.spaces == 0,
    {
        Self { lines: 0, spaces: 0 }
    }

    pub fn copy(&self) -> (r: Self)
        ensures
            r == *self,
    {
        Self { lines: self.lines, spaces: self.spaces }
    }

    /// At the start of a line: no spaces before it.
    pub fn at_line_start(&self) -> (r: bool)
        ensures
            r == (self.spaces == 0),
    {
        self.spaces == 0
    }

    // Used to make sure that a new indentation exactly matches this one. For situations like case
    // statements where each branch should start at the same indentation
    /// Exactly as far in as `other`.
    pub fn matches(&self, other: &Self) -> (r: bool)
        ensures
            r == (self.spaces == other.spaces),
    {
        self.spaces == other.spaces
    }

    // Used to make sure that a new indentation is within a previous one. For situations where
    // we've parsed some expression and reached a new token and we want to know if that new token
    // is a continuation of that expression somehow or if it is at a shallower indent, indicating
    // that it is the start of something else
    /// On the same line as `other`, or further in.
    pub fn indented_from(&self, other: &Self) -> (r: bool)
        ensures
            r == (self.lines == other.lines || self.spaces > other.spaces),
    {
        self.lines == other.lines || self.spaces > other.spaces
    }

    fn step(&self, t: &Token) -> (r: Self)
        ensures
            (r.lines, r.spaces) == after_layout(self.lines, self.spaces, seq![*t]),
    {
        proof {
            assert(seq![*t].drop_last() =~= Seq::<Token>::empty());
            reveal_with_fuel(after_layout, 2);
        }
        match t {
            Token::NewLine => Self { lines: self.lines.saturating_add(1), spaces: 0 },
            Token::Space(n) => Self { lines: self.lines, spaces: self.spaces.saturating_add(*n) },
            _ => Self { lines: self.lines, spaces: self.spaces },
        }
    }

    /// Moves past the whitespace tokens at the front of `iter`. Gives the indentation reached
    /// from `self` at the token it stops at; when no token is left, gives `self` unchanged.
    pub fn consume(&self, iter: &mut TokenIter) -> (r: Indentation)
        requires
            old(iter).wf(),
        ensures
            advanced(*old(iter), *final(iter)),
            skipped_to(*final(iter), old(iter).pos as int, false),
            final(iter).pos < final(iter).tokens@.len() ==> (r.lines, r.spaces) == after_layout(
                self.lines,
                self.spaces,
                tokens_between(*final(iter), old(iter).pos as int, final(iter).pos as int),
            ),
            final(iter).pos == final(iter).tokens@.len() ==> r == *self,
            ((r.lines, r.spaces), final(iter).pos as int) == consume_at(
                (self.lines, self.spaces),
                old(iter).tokens@,
                old(iter).pos as int,
            ),
    {
        let mut new = self.copy();
        let ghost start = iter.pos as int;
        while iter.pos < iter.tokens.len()
            invariant
                iter.wf(),
                iter.tokens@ == old(iter).tokens@,
                start == old(iter).pos,
                start <= iter.pos,
                forall|k: int| start <= k < iter.pos ==> is_whitespace(#[trigger] iter.tokens@[k].0),
                (new.lines, new.spaces) == after_layout(
                    self.lines,
                    self.spaces,
                    tokens_between(*iter, start, iter.pos as int),
                ),
            decreases iter.tokens@.len() - iter.pos,
        {
            let t = &iter.tokens[iter.pos];
            match t.0 {
                Token::NewLine | Token::Space(_) => {},
                _ => {
                    proof {
                        lemma_skip_end(iter.tokens@, start, iter.pos as int, Skip::Whitespace);
                        reveal(consume_at);
                    }
                    return new;
                },
            }
            let ghost before = tokens_between(*iter, start, iter.pos as int);
            new = new.step(&t.0);
            iter.pos = iter.pos + 1;
            proof {
                lemma_tokens_between_push(*iter, start, iter.pos as int);
                lemma_after_layout_push(self.lines, self.spaces, before, iter.tokens@[iter.pos - 1].0);
            }
        }
        proof {
            lemma_skip_end(iter.tokens@, start, iter.pos as int, Skip::Whitespace);
            reveal(consume_at);
        }
        self.copy()
    }

    /// Moves past whitespace and comments. Succeeds when the token reached starts its line (or
    /// when no token is left); fails with `TokenNotAtLineStart` at that token otherwise.
    pub fn must_consume_to_line_start(&self, iter: &mut TokenIter) -> (r: Result<(), Error>)
        requires
            old(iter).wf(),
        ensures
            advanced(*old(iter), *final(iter)),
            skipped_to(*final(iter), old(iter).pos as int, true),
            final(iter).pos == final(iter).tokens@.len() ==> r is Ok,
            final(iter).pos < final(iter).tokens@.len() ==> {
                let (l, s) = after_layout(
                    self.lines,
                    self.spaces,
                    tokens_between(*final(iter), old(iter).pos as int, final(iter).pos as int),
                );
                &&& s == 0 ==> r is Ok
                &&& s != 0 ==> r == Err::<(), Error>(
                    Error::TokenNotAtLineStart(final(iter).tokens@[final(iter).pos as int].1),
                )
            },
            (presult(r), final(iter).pos as int) == to_line_start(
                (self.lines, self.spaces),
                old(iter).tokens@,
                old(iter).pos as int,
            ),
    {
        let mut new = self.copy();
        let ghost start = iter.pos as int;
        while iter.pos < iter.tokens.len()
            invariant
                iter.wf(),
                iter.tokens@ == old(iter).tokens@,
                start == old(iter).pos,
                start <= iter.pos,
                forall|k: int| start <= k < iter.pos ==> is_layout(#[trigger] iter.tokens@[k].0),
                (new.lines, new.spaces) == after_layout(
                    self.lines,
                    self.spaces,
                    tokens_between(*iter, start, iter.pos as int),
                ),
            decreases iter.tokens@.len() - iter.pos,
        {
            let t = &iter.tokens[iter.pos];
            match t.0 {
                Token::NewLine | Token::Space(_) | Token::SingleLineComment(_)
                | Token::MultiLineComment(_) => {},
                _ => {
                    proof {
                        lemma_skip_end(iter.tokens@, start, iter.pos as int, Skip::Layout);
                        reveal(to_line_start);
                    }
                    if new.spaces == 0 {
                        return Ok(());
                    } else {
                        return Err(
                            Error::TokenNotAtLineStart(
                                crate::lexer::Range { start: t.1.start, end: t.1.end },
                            ),
                        );
                    }
                },
            }
            let ghost before = tokens_between(*iter, start, iter.pos as int);
            new = new.step(&t.0);
            iter.pos = iter.pos + 1;
            proof {
                lemma_tokens_between_push(*iter, start, iter.pos as int);
                lemma_after_layout_push(self.lines, self.spaces, before, iter.tokens@[iter.pos - 1].0);
            }
        }
        // If we've run out of tokens then it is the end of the file and that is a kind of line
        // start too
        proof {
            lemma_skip_end(iter.tokens@, start, iter.pos as int, Skip::Layout);
            reveal(to_line_start);
        }
        Ok(())
    }

    /// Moves past whitespace. Succeeds with the indentation reached when the token reached is
    /// indented from `self`; fails with `Indent` at that token otherwise, and with
    /// `UnexpectedEnd` when no token is left.
    pub fn must_consume_to_indented(&self, iter: &mut TokenIter) -> (r: Result<Self, Error>)
        requires
            old(iter).wf(),
        ensures
            advanced(*old(iter), *final(iter)),
            skipped_to(*final(iter), old(iter).pos as int, false),
            final(iter).pos == final(iter).tokens@.len() ==> r == Err::<Self, Error>(
                Error::UnexpectedEnd,
            ),
            final(iter).pos < final(iter).tokens@.len() ==> {
                let (l, s) = after_layout(
                    self.lines,
                    self.spaces,
                    tokens_between(*final(iter), old(iter).pos as int, final(iter).pos as int),
                );
                &&& (l == self.lines || s > self.spaces) ==> r == Ok::<Self, Error>(
                    Indentation { lines: l, spaces: s },
                )
                &&& !(l == self.lines || s > self.spaces) ==> r == Err::<Self, Error>(
                    Error::Indent { range: final(iter).tokens@[final(iter).pos as int].1 },
                )
            },
            (indent_result(r), final(iter).pos as int) == to_indented(
                (self.lines, self.spaces),
                old(iter).tokens@,
                old(iter).pos as int,
            ),
    {
        let mut new = self.copy();
        let ghost start = iter.pos as int;
        while iter.pos < iter.tokens.len()
            invariant
                iter.wf(),
                iter.tokens@ == old(iter).tokens@,
                start == old(iter).pos,
                start <= iter.pos,
                forall|k: int| start <= k < iter.pos ==> is_whitespace(#[trigger] iter.tokens@[k].0),
                (new.lines, new.spaces) == after_layout(
                    self.lines,
                    self.spaces,
                    tokens_between(*iter, start, iter.pos as int),
                ),
            decreases iter.tokens@.len() - iter.pos,
        {
            let t = &iter.tokens[iter.pos];
            match t.0 {
                Token::NewLine | Token::Space(_) => {},
                _ => {
                    proof {
                        lemma_skip_end(iter.tokens@, start, iter.pos as int, Skip::Whitespace);
                        reveal(to_indented);
                    }
                    return if new.indented_from(self) {
                        Ok(new)
                    } else {
                        Err(Error::Indent { range: crate::lexer::Range { start: t.1.start, end: t.1.end } })
                    };
                },
            }
            let ghost before = tokens_between(*iter, start, iter.pos as int);
            new = new.step(&t.0);
            iter.pos = iter.pos + 1;
            proof {
                lemma_tokens_between_push(*iter, start, iter.pos as int);
                lemma_after_layout_push(self.lines, self.spaces, before, iter.tokens@[iter.pos - 1].0);
            }
        }
        proof {
            lemma_skip_end(iter.tokens@, start, iter.pos as int, Skip::Whitespace);
            reveal(to_indented);
        }
        Err(Error::UnexpectedEnd)
    }
}

/// An indentation outcome as mathematical values.
pub open spec fn indent_result(r: Result<Indentation, Error>) -> Result<Indent, PErr> {
    match presult(r) {
        Ok(i) => Ok((i.lines, i.spaces)),
        Err(e) => Err(e),
    }
}

proof fn lemma_tokens_between_push(iter: TokenIter, a: int, b: int)
    requires
        0 <= a < b <= iter.tokens@.len(),
    ensures
        tokens_between(iter, a, b) == tokens_between(iter, a, b - 1).push(iter.tokens@[b - 1].0),
{
    assert(tokens_between(iter, a, b) =~= tokens_between(iter, a, b - 1).push(
        iter.tokens@[b - 1].0,
    ));
}

proof fn lemma_after_layout_push(lines: usize, spaces: usize, ts: Seq<Token>, t: Token)
    ensures
        after_layout(lines, spaces, ts.push(t)) == {
            let (l, s) = after_layout(lines, spaces, ts);
            after_layout(l, s, seq![t])
        },
{
    assert(ts.push(t).drop_last() =~= ts);
    assert(seq![t].drop_last() =~= Seq::<Token>::empty());
    reveal_with_fuel(after_layout, 2);
}

} // verus!
