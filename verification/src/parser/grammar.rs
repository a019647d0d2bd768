//! The grammar the parser reads, as functions on the token sequence: each gives what is read
//! from a position and the position after it.
//!
//! Where a rule reads on from a later position, a guard (`ahead`, `within`) checks that the
//! position has moved on and gives `PErr::Unknown` otherwise. Reading a token or skipping
//! layout never moves back, so the guards never fail on what the parser reads; they make each
//! rule's recursion visibly well founded.
use vstd::prelude::*;

use crate::ast::{lower_segments, split_dots, upper_segments};
use crate::ast::views::{ExprView, PatternView};
use crate::lexer::{Range, SrcToken, Token, token_text};
use super::error::Error;
use super::extract::empty_named;
use super::indent::{after_layout, is_layout, is_whitespace};
use super::whitespace::is_space_or_comment;

verus! {

// ---------------------------------------------------------------------------------------------
// Errors
// ---------------------------------------------------------------------------------------------
/// A parse error as a mathematical value.
pub enum PErr {
    UnexpectedToken { expected: Seq<char>, found: Seq<char>, range: Range },
    UnexpectedEnd,
    TokenNotAtLineStart(Range),
    Indent { range: Range },
    TokensRemaining(Seq<Seq<char>>),
    NoOperand,
    NoOperator,
    EmptyOperatorStack,
    UnknownOperator(Seq<char>),
    UnknownExposing(Seq<char>),
    NegativePrecendence,
    NameMismatch,
    Unknown,
}

pub open spec fn perr(e: Error) -> PErr {
    match e {
        Error::UnexpectedToken { expected, found, range } => PErr::UnexpectedToken {
            expected: expected@,
            found: found@,
            range,
        },
        Error::UnexpectedEnd => PErr::UnexpectedEnd,
        Error::TokenNotAtLineStart(r) => PErr::TokenNotAtLineStart(r),
        Error::Indent { range } => PErr::Indent { range },
        Error::TokensRemaining(v) => PErr::TokensRemaining(v.deep_view()),
        Error::NoOperand => PErr::NoOperand,
        Error::NoOperator => PErr::NoOperator,
        Error::EmptyOperatorStack => PErr::EmptyOperatorStack,
        Error::UnknownOperator(s) => PErr::UnknownOperator(s@),
        Error::UnknownExposing(s) => PErr::UnknownExposing(s@),
        Error::NegativePrecendence => PErr::NegativePrecendence,
        Error::NameMismatch => PErr::NameMismatch,
        Error::Unknown => PErr::Unknown,
    }
}

/// The error for `found` at `range` where `expected` was wanted.
pub open spec fn unexpected_err(found: Token, range: Range, expected: Seq<char>) -> PErr {
    PErr::UnexpectedToken { expected, found: token_text(found), range }
}

/// A result with its error as a mathematical value.
pub open spec fn presult<T>(r: Result<T, Error>) -> Result<T, PErr> {
    match r {
        Ok(v) => Ok(v),
        Err(e) => Err(perr(e)),
    }
}

// ---------------------------------------------------------------------------------------------
// Tokens
// ---------------------------------------------------------------------------------------------
/// The token at `p`, if there is one.
pub open spec fn at(ts: Seq<SrcToken>, p: int) -> Option<SrcToken> {
    if 0 <= p < ts.len() {
        Some(ts[p])
    } else {
        None
    }
}

/// The position after reading one token at `p`: past it, or `p` at the end.
pub open spec fn past(ts: Seq<SrcToken>, p: int) -> int {
    if 0 <= p < ts.len() {
        p + 1
    } else {
        p
    }
}

/// The kinds of the tokens from `a` to `b`.
pub open spec fn token_seq(ts: Seq<SrcToken>, a: int, b: int) -> Seq<Token> {
    ts.subrange(a, b).map_values(|t: SrcToken| t.0)
}

/// What a skip passes over.
pub enum Skip {
    /// Line breaks and spaces.
    Whitespace,
    /// Line breaks, spaces and comments.
    Layout,
    /// Spaces and comments.
    Spaces,
}

pub open spec fn skips(mode: Skip, t: Token) -> bool {
    match mode {
        Skip::Whitespace => is_whitespace(t),
        Skip::Layout => is_layout(t),
        Skip::Spaces => is_space_or_comment(t),
    }
}

/// The first position from `p` on whose token the skip does not pass over, or the end.
pub open spec fn skip_end(ts: Seq<SrcToken>, p: int, mode: Skip) -> int
    decreases ts.len() - p,
{
    if p < 0 || p >= ts.len() {
        p
    } else if skips(mode, ts[p].0) {
        skip_end(ts, p + 1, mode)
    } else {
        p
    }
}

/// A skip from `from` that stopped at `q` stopped where `skip_end` does.
pub proof fn lemma_skip_end(ts: Seq<SrcToken>, from: int, q: int, mode: Skip)
    requires
        0 <= from <= q <= ts.len(),
        forall|k: int| from <= k < q ==> skips(mode, #[trigger] ts[k].0),
        q < ts.len() ==> !skips(mode, ts[q].0),
    ensures
        skip_end(ts, from, mode) == q,
    decreases q - from,
{
    if from < q {
        lemma_skip_end(ts, from + 1, q, mode);
    }
}

// ---------------------------------------------------------------------------------------------
// Indentation
// ---------------------------------------------------------------------------------------------
/// An indentation: line breaks passed and spaces since the last one.
pub type Indent = (usize, usize);

/// On the same line as `b`, or further in.
pub open spec fn indented_from(a: Indent, b: Indent) -> bool {
    a.0 == b.0 || a.1 > b.1
}

/// Passing the whitespace from `p`: the indentation reached from `ind` at the next token, or
/// `ind` when no token is left.
#[verifier::opaque]
pub open spec fn consume_at(ind: Indent, ts: Seq<SrcToken>, p: int) -> (Indent, int) {
    let q = skip_end(ts, p, Skip::Whitespace);
    if q < ts.len() {
        (after_layout(ind.0, ind.1, token_seq(ts, p, q)), q)
    } else {
        (ind, q)
    }
}

/// Passing the whitespace from `p` to a token indented from `ind`.
#[verifier::opaque]
pub open spec fn to_indented(ind: Indent, ts: Seq<SrcToken>, p: int) -> (Result<Indent, PErr>, int) {
    let q = skip_end(ts, p, Skip::Whitespace);
    if q >= ts.len() {
        (Err(PErr::UnexpectedEnd), q)
    } else {
        let reached = after_layout(ind.0, ind.1, token_seq(ts, p, q));
        if indented_from(reached, ind) {
            (Ok(reached), q)
        } else {
            (Err(PErr::Indent { range: ts[q].1 }), q)
        }
    }
}

/// Passing whitespace and comments from `p` to a token at the start of its line, or to the end.
#[verifier::opaque]
pub open spec fn to_line_start(ind: Indent, ts: Seq<SrcToken>, p: int) -> (Result<(), PErr>, int) {
    let q = skip_end(ts, p, Skip::Layout);
    if q >= ts.len() {
        (Ok(()), q)
    } else if after_layout(ind.0, ind.1, token_seq(ts, p, q)).1 == 0 {
        (Ok(()), q)
    } else {
        (Err(PErr::TokenNotAtLineStart(ts[q].1)), q)
    }
}

/// Reading the token `t` from `o`.
pub open spec fn expect_token(o: Option<SrcToken>, t: Token) -> Result<(), PErr> {
    match o {
        Some((x, range)) => if crate::lexer::same_token(x, t) {
            Ok(())
        } else {
            Err(unexpected_err(x, range, token_text(t)))
        },
        None => Err(PErr::UnexpectedEnd),
    }
}

/// Reading the token `t` at `p`.
pub open spec fn expect_at(ts: Seq<SrcToken>, p: int, t: Token) -> (Result<(), PErr>, int) {
    (expect_token(at(ts, p), t), past(ts, p))
}

// ---------------------------------------------------------------------------------------------
// Single tokens
// ---------------------------------------------------------------------------------------------
/// The name of a lower-case name, qualified by its capitalised segments.
pub open spec fn lower_name_parts(n: Seq<char>) -> (Seq<Seq<char>>, Seq<Seq<char>>) {
    (upper_segments(split_dots(n)), lower_segments(split_dots(n)))
}

/// A literal, `True`, `False`, or a name.
pub open spec fn contained_at(ts: Seq<SrcToken>, p: int) -> (Result<ExprView, PErr>, int) {
    match at(ts, p) {
        Some((Token::LiteralInteger(v), _)) => (Ok(ExprView::Integer(v)), p + 1),
        Some((Token::LiteralFloat(f), _)) => (Ok(ExprView::Float(f.0@)), p + 1),
        Some((Token::LiteralString(s), _)) => (Ok(ExprView::String(s@)), p + 1),
        Some((Token::UpperName(n), range)) => if n@ == "True"@ {
            (Ok(ExprView::Bool(true)), p + 1)
        } else if n@ == "False"@ {
            (Ok(ExprView::Bool(false)), p + 1)
        } else {
            (Err(unexpected_err(Token::UpperName(n), range, "Expression token"@)), p)
        },
        Some((Token::LowerName(n), _)) => (Ok(ExprView::VarName(lower_name_parts(n@))), p + 1),
        Some((Token::LowerPath(n), _)) => (Ok(ExprView::VarName(lower_name_parts(n@))), p + 1),
        Some((t, range)) => (Err(unexpected_err(t, range, "Expression token"@)), p),
        None => (Err(PErr::UnexpectedEnd), p),
    }
}

/// A case pattern: `True` or `False`.
pub open spec fn pattern_at(ts: Seq<SrcToken>, p: int) -> (Result<PatternView, PErr>, int) {
    match at(ts, p) {
        Some((Token::UpperName(n), range)) => if n@ == "True"@ {
            (Ok(PatternView::Bool(true)), p + 1)
        } else if n@ == "False"@ {
            (Ok(PatternView::Bool(false)), p + 1)
        } else {
            (Err(unexpected_err(Token::UpperName(n), range, "Expression token"@)), p)
        },
        Some((t, range)) => (Err(unexpected_err(t, range, "Expression token"@)), p),
        None => (Err(PErr::UnexpectedEnd), p),
    }
}

/// The text of an operator token.
pub open spec fn operator_of(o: Option<SrcToken>) -> Result<Seq<char>, PErr> {
    match o {
        Some((Token::Operator(op), _)) => Ok(op@),
        Some((t, range)) => Err(unexpected_err(t, range, empty_named("Operator"@))),
        None => Err(PErr::UnexpectedEnd),
    }
}


// ---------------------------------------------------------------------------------------------
// Expressions
// ---------------------------------------------------------------------------------------------
/// `q` is past `p`, within the tokens.
pub open spec fn ahead(ts: Seq<SrcToken>, p: int, q: int) -> bool {
    p < q <= ts.len()
}

/// `q` is at or past `p`, within the tokens.
pub open spec fn within(ts: Seq<SrcToken>, p: int, q: int) -> bool {
    p <= q <= ts.len()
}

/// The operand stack as mathematical values.
pub open spec fn operands_view(s: Seq<crate::ast::Expr>) -> Seq<ExprView> {
    s.map_values(|e: crate::ast::Expr| crate::ast::views::expr_view(e))
}

/// The operator stack as character sequences.
pub open spec fn ops_view(s: Seq<String>) -> Seq<Seq<char>> {
    s.map_values(|o: String| o@)
}

/// Pushing an item onto a list of expressions pushes its view.
pub proof fn lemma_exprs_view_push(s: Seq<std::rc::Rc<crate::ast::Expr>>, x: std::rc::Rc<crate::ast::Expr>)
    ensures
        crate::ast::views::exprs_view(s.push(x)) == crate::ast::views::exprs_view(s).push(
            crate::ast::views::expr_view(*x),
        ),
        crate::ast::views::exprs_view(s).len() == s.len(),
    decreases s.len(),
{
    assert(s.push(x).drop_last() =~= s);
    if s.len() > 0 {
        lemma_exprs_view_push(s.drop_last(), s.last());
        assert(s.drop_last().push(s.last()) =~= s);
    }
}

/// Pushing a branch onto a list of branches pushes its view.
pub proof fn lemma_branches_view_push(
    s: Seq<(crate::ast::Pattern, crate::ast::Expr)>,
    x: (crate::ast::Pattern, crate::ast::Expr),
)
    ensures
        crate::ast::views::branches_view(s.push(x)) == crate::ast::views::branches_view(s).push(
            (crate::ast::views::pattern_view(x.0), crate::ast::views::expr_view(x.1)),
        ),
{
    assert(s.push(x).drop_last() =~= s);
}

pub open spec fn expr_result(r: Result<crate::ast::Expr, Error>) -> Result<ExprView, PErr> {
    match r {
        Ok(e) => Ok(crate::ast::views::expr_view(e)),
        Err(e) => Err(perr(e)),
    }
}

/// A pattern outcome as mathematical values.
pub open spec fn pattern_result(r: Result<crate::ast::Pattern, Error>) -> Result<PatternView, PErr> {
    match r {
        Ok(p) => Ok(crate::ast::views::pattern_view(p)),
        Err(e) => Err(perr(e)),
    }
}

pub open spec fn expr_indent_result(r: Result<(crate::ast::Expr, super::indent::Indentation), Error>) -> Result<
    (ExprView, Indent),
    PErr,
> {
    match r {
        Ok((e, i)) => Ok((crate::ast::views::expr_view(e), (i.lines, i.spaces))),
        Err(e) => Err(perr(e)),
    }
}

/// Places `op` on the stacks: while its precedence is not greater than that of the operator on
/// top, that operator is applied to the two operands on top (an error when fewer than two are
/// left); then `op` is pushed.
pub open spec fn process_spec(op: Seq<char>, ops: Seq<Seq<char>>, operands: Seq<ExprView>) -> Result<
    (Seq<Seq<char>>, Seq<ExprView>),
    PErr,
>
    decreases ops.len(),
{
    if ops.len() == 0 {
        Ok((ops.push(op), operands))
    } else {
        match (super::precedence_of(op), super::precedence_of(ops.last())) {
            (None, _) => Err(PErr::UnknownOperator(op)),
            (Some(_), None) => Err(PErr::UnknownOperator(ops.last())),
            (Some(a), Some(b)) => if a > b {
                Ok((ops.push(op), operands))
            } else if operands.len() < 2 {
                Err(PErr::NoOperand)
            } else {
                let n = operands.len();
                process_spec(
                    op,
                    ops.drop_last(),
                    operands.subrange(0, n - 2).push(
                        ExprView::BinOp {
                            operator: ops.last(),
                            left: Box::new(operands[n - 2]),
                            right: Box::new(operands[n - 1]),
                        },
                    ),
                )
            },
        }
    }
}

/// Combines what is left on the stacks, the top operator first, into one expression.
pub open spec fn reduce_spec(ops: Seq<Seq<char>>, operands: Seq<ExprView>) -> ExprView
    decreases ops.len(),
{
    if ops.len() == 0 {
        operands.last()
    } else {
        let n = operands.len();
        reduce_spec(
            ops.drop_last(),
            operands.subrange(0, n - 2).push(
                ExprView::BinOp {
                    operator: ops.last(),
                    left: Box::new(operands[n - 2]),
                    right: Box::new(operands[n - 1]),
                },
            ),
        )
    }
}

/// The operands below an expression's binary operators, left to right.
pub open spec fn leaves(e: ExprView) -> Seq<ExprView>
    decreases e,
{
    match e {
        ExprView::BinOp { left, right, .. } => leaves(*left) + leaves(*right),
        _ => seq![e],
    }
}

/// The operands below a sequence of expressions, left to right.
pub open spec fn all_leaves(s: Seq<ExprView>) -> Seq<ExprView>
    decreases s.len(),
{
    if s.len() == 0 {
        Seq::empty()
    } else {
        all_leaves(s.drop_last()) + leaves(s.last())
    }
}

/// Every operator on the stack has a precedence, and precedences increase strictly from the
/// bottom of the stack to the top.
pub open spec fn ops_ordered(ops: Seq<Seq<char>>) -> bool {
    &&& forall|i: int| 0 <= i < ops.len() ==> super::precedence_of(#[trigger] ops[i]) is Some
    &&& forall|i: int, j: int|
        0 <= i < j < ops.len() ==> super::precedence_of(#[trigger] ops[i])->0
            < super::precedence_of(#[trigger] ops[j])->0
}

proof fn lemma_all_leaves_reduce(s: Seq<ExprView>, o: Seq<char>)
    requires
        s.len() >= 2,
    ensures
        ({
            let n = s.len();
            all_leaves(
                s.subrange(0, n - 2).push(
                    ExprView::BinOp {
                        operator: o,
                        left: Box::new(s[n - 2]),
                        right: Box::new(s[n - 1]),
                    },
                ),
            ) == all_leaves(s)
        }),
{
    let n = s.len();
    let sub = s.subrange(0, n - 2);
    let b = ExprView::BinOp { operator: o, left: Box::new(s[n - 2]), right: Box::new(s[n - 1]) };
    assert(sub.push(b).drop_last() =~= sub);
    assert(s.drop_last().drop_last() =~= sub);
    assert(s.drop_last().last() == s[n - 2]);
    assert(all_leaves(s.drop_last()) == all_leaves(sub) + leaves(s[n - 2]));
    assert(all_leaves(sub) + leaves(s[n - 2]) + leaves(s[n - 1]) =~= all_leaves(sub) + (leaves(
        s[n - 2],
    ) + leaves(s[n - 1])));
}

/// Placing an operator whose precedence is known on an ordered stack always succeeds: the
/// operator ends on top, the stack stays ordered, and the operands keep their order from left
/// to right.
pub proof fn law_process_keeps_operands(op: Seq<char>, ops: Seq<Seq<char>>, operands: Seq<ExprView>)
    requires
        super::precedence_of(op) is Some,
        ops_ordered(ops),
        operands.len() == ops.len() + 1,
    ensures
        match process_spec(op, ops, operands) {
            Ok((ops2, operands2)) => {
                &&& ops2.len() > 0 && ops2.last() == op
                &&& ops2.len() <= ops.len() + 1
                &&& operands2.len() == ops2.len()
                &&& ops_ordered(ops2)
                &&& all_leaves(operands2) == all_leaves(operands)
            },
            Err(_) => false,
        },
    decreases ops.len(),
{
    if ops.len() == 0 {
        assert(ops.push(op) =~= seq![op]);
    } else {
        let n = ops.len();
        let a = super::precedence_of(op)->0;
        assert(super::precedence_of(ops[n - 1]) is Some);
        let b = super::precedence_of(ops.last())->0;
        if a > b {
            let ops2 = ops.push(op);
            assert forall|i: int| 0 <= i < ops2.len() implies super::precedence_of(
                #[trigger] ops2[i],
            ) is Some by {
                if i < n {
                    assert(ops2[i] == ops[i]);
                }
            }
            assert forall|i: int, j: int| 0 <= i < j < ops2.len() implies super::precedence_of(
                #[trigger] ops2[i],
            )->0 < super::precedence_of(#[trigger] ops2[j])->0 by {
                assert(ops2[i] == ops[i]);
                if j < n {
                    assert(ops2[j] == ops[j]);
                } else if i < n - 1 {
                    assert(super::precedence_of(ops[i])->0 < super::precedence_of(ops[n - 1])->0);
                }
            }
        } else {
            let ops1 = ops.drop_last();
            assert forall|i: int| 0 <= i < ops1.len() implies super::precedence_of(
                #[trigger] ops1[i],
            ) is Some by {
                assert(ops1[i] == ops[i]);
            }
            assert forall|i: int, j: int| 0 <= i < j < ops1.len() implies super::precedence_of(
                #[trigger] ops1[i],
            )->0 < super::precedence_of(#[trigger] ops1[j])->0 by {
                assert(ops1[i] == ops[i]);
                assert(ops1[j] == ops[j]);
            }
            lemma_all_leaves_reduce(operands, ops.last());
            law_process_keeps_operands(
                op,
                ops1,
                operands.subrange(0, operands.len() - 2).push(
                    ExprView::BinOp {
                        operator: ops.last(),
                        left: Box::new(operands[operands.len() - 2]),
                        right: Box::new(operands[operands.len() - 1]),
                    },
                ),
            );
        }
    }
}

/// Two binary operators group by precedence: in `a op1 b op2 c`, the operator that binds
/// tighter is applied first, and when both bind equally the left one is.
pub proof fn law_binary_grouping(
    op1: Seq<char>,
    op2: Seq<char>,
    a: ExprView,
    b: ExprView,
    c: ExprView,
)
    requires
        super::precedence_of(op1) is Some,
        super::precedence_of(op2) is Some,
    ensures
        process_spec(op1, Seq::empty(), seq![a]) == Ok::<(Seq<Seq<char>>, Seq<ExprView>), PErr>(
            (seq![op1], seq![a]),
        ),
        ({
            let bin = |o: Seq<char>, l: ExprView, r: ExprView|
                ExprView::BinOp { operator: o, left: Box::new(l), right: Box::new(r) };
            match process_spec(op2, seq![op1], seq![a, b]) {
                Ok((ops, operands)) => reduce_spec(ops, operands.push(c)) == if super::precedence_of(
                    op2,
                )->0 > super::precedence_of(op1)->0 {
                    bin(op1, a, bin(op2, b, c))
                } else {
                    bin(op2, bin(op1, a, b), c)
                },
                Err(_) => false,
            }
        }),
{
    assert(Seq::<Seq<char>>::empty().push(op1) =~= seq![op1]);
    reveal_with_fuel(process_spec, 2);
    reveal_with_fuel(reduce_spec, 3);
    let ab = ExprView::BinOp { operator: op1, left: Box::new(a), right: Box::new(b) };
    let bc = ExprView::BinOp { operator: op2, left: Box::new(b), right: Box::new(c) };
    if super::precedence_of(op2)->0 > super::precedence_of(op1)->0 {
        assert(seq![op1].push(op2) =~= seq![op1, op2]);
        assert(seq![a, b].push(c) =~= seq![a, b, c]);
        assert(seq![op1, op2].drop_last() =~= seq![op1]);
        assert(seq![a, b, c].subrange(0, 1).push(bc) =~= seq![a, bc]);
        assert(seq![op1].drop_last() =~= Seq::<Seq<char>>::empty());
        assert(seq![a, bc].subrange(0, 0).push(
            ExprView::BinOp { operator: op1, left: Box::new(a), right: Box::new(bc) },
        ) =~= seq![ExprView::BinOp { operator: op1, left: Box::new(a), right: Box::new(bc) }]);
    } else {
        assert(seq![op1].drop_last() =~= Seq::<Seq<char>>::empty());
        assert(seq![a, b].subrange(0, 0).push(ab) =~= seq![ab]);
        assert(Seq::<Seq<char>>::empty().push(op2) =~= seq![op2]);
        assert(seq![ab].push(c) =~= seq![ab, c]);
        assert(seq![op2].drop_last() =~= Seq::<Seq<char>>::empty());
        assert(seq![ab, c].subrange(0, 0).push(
            ExprView::BinOp { operator: op2, left: Box::new(ab), right: Box::new(c) },
        ) =~= seq![ExprView::BinOp { operator: op2, left: Box::new(ab), right: Box::new(c) }]);
    }
}

/// An expression: an `if`, a `case`, or operands joined by binary operators.
pub open spec fn expression_at(ts: Seq<SrcToken>, p: int, base: Indent) -> (
    Result<(ExprView, Indent), PErr>,
    int,
)
    decreases ts.len() - p, 6int, 0int,
{
    match at(ts, p) {
        Some((Token::If, _)) => if_at(ts, p, base),
        Some((Token::Case, _)) => case_at(ts, p, base),
        Some(_) => binary_at(ts, p, base),
        None => (Err(PErr::UnexpectedEnd), p),
    }
}

/// `if c then a else b`, each part indented from `base`.
pub open spec fn if_at(ts: Seq<SrcToken>, p: int, base: Indent) -> (
    Result<(ExprView, Indent), PErr>,
    int,
)
    decreases ts.len() - p, 5int, 0int,
{
    let (r0, p1) = expect_at(ts, p, Token::If);
    if r0 is Err {
        (Err(r0->Err_0), p1)
    } else {
        let (r1, p2) = to_indented(base, ts, p1);
        if r1 is Err {
            (Err(r1->Err_0), p2)
        } else if !ahead(ts, p, p2) {
            (Err(PErr::Unknown), p2)
        } else {
            let (r2, p3) = expression_at(ts, p2, base);
            if r2 is Err {
                (Err(r2->Err_0), p3)
            } else {
                let (r3, p4) = to_indented(base, ts, p3);
                if r3 is Err {
                    (Err(r3->Err_0), p4)
                } else {
                    let (r4, p5) = expect_at(ts, p4, Token::Then);
                    if r4 is Err {
                        (Err(r4->Err_0), p5)
                    } else {
                        let (r5, p6) = to_indented(base, ts, p5);
                        if r5 is Err {
                            (Err(r5->Err_0), p6)
                        } else if !ahead(ts, p, p6) {
                            (Err(PErr::Unknown), p6)
                        } else {
                            let (r6, p7) = expression_at(ts, p6, base);
                            if r6 is Err {
                                (Err(r6->Err_0), p7)
                            } else {
                                let (r7, p8) = to_indented(base, ts, p7);
                                if r7 is Err {
                                    (Err(r7->Err_0), p8)
                                } else {
                                    let (r8, p9) = expect_at(ts, p8, Token::Else);
                                    if r8 is Err {
                                        (Err(r8->Err_0), p9)
                                    } else {
                                        let (r9, p10) = to_indented(base, ts, p9);
                                        if r9 is Err {
                                            (Err(r9->Err_0), p10)
                                        } else if !ahead(ts, p, p10) {
                                            (Err(PErr::Unknown), p10)
                                        } else {
                                            let (r10, p11) = expression_at(ts, p10, base);
                                            if r10 is Err {
                                                (Err(r10->Err_0), p11)
                                            } else {
                                                (
                                                    Ok(
                                                        (
                                                            ExprView::If {
                                                                condition: Box::new(r2->Ok_0.0),
                                                                then_branch: Box::new(r6->Ok_0.0),
                                                                else_branch: Box::new(r10->Ok_0.0),
                                                            },
                                                            r10->Ok_0.1,
                                                        ),
                                                    ),
                                                    p11,
                                                )
                                            }
                                        }
                                    }
                                }
                            }
                        }
                    }
                }
            }
        }
    }
}

/// `case e of` and its branches, each at the indentation of the first.
pub open spec fn case_at(ts: Seq<SrcToken>, p: int, base: Indent) -> (
    Result<(ExprView, Indent), PErr>,
    int,
)
    decreases ts.len() - p, 5int, 0int,
{
    let (r0, p1) = expect_at(ts, p, Token::Case);
    if r0 is Err {
        (Err(r0->Err_0), p1)
    } else {
        let (r1, p2) = to_indented(base, ts, p1);
        if r1 is Err {
            (Err(r1->Err_0), p2)
        } else if !ahead(ts, p, p2) {
            (Err(PErr::Unknown), p2)
        } else {
            let (r2, p3) = expression_at(ts, p2, base);
            if r2 is Err {
                (Err(r2->Err_0), p3)
            } else {
                let (r3, p4) = to_indented(base, ts, p3);
                if r3 is Err {
                    (Err(r3->Err_0), p4)
                } else {
                    let (r4, p5) = expect_at(ts, p4, Token::Of);
                    if r4 is Err {
                        (Err(r4->Err_0), p5)
                    } else {
                        let (r5, p6) = to_indented(base, ts, p5);
                        if r5 is Err {
                            (Err(r5->Err_0), p6)
                        } else if !ahead(ts, p, p6) {
                            (Err(PErr::Unknown), p6)
                        } else {
                            let bi = r5->Ok_0;
                            case_with(r2->Ok_0.0, branches_at(ts, p6, bi, Seq::empty(), bi))
                        }
                    }
                }
            }
        }
    }
}

/// The `case` expression on `e` with the branches read, or the error reading them gave.
pub open spec fn case_with(
    e: ExprView,
    r: (Result<(Seq<(PatternView, ExprView)>, Indent), PErr>, int),
) -> (Result<(ExprView, Indent), PErr>, int) {
    match r.0 {
        Err(x) => (Err(x), r.1),
        Ok((branches, ind)) => (Ok((ExprView::Case { expr: Box::new(e), branches }, ind)), r.1),
    }
}

/// The branches of a case from `q`, after those read so far: `pattern -> expression`, while
/// the token after a branch is at the branch indentation `bi`; `nti` is where the last one
/// left off.
pub open spec fn branches_at(
    ts: Seq<SrcToken>,
    q: int,
    bi: Indent,
    acc: Seq<(PatternView, ExprView)>,
    nti: Indent,
) -> (Result<(Seq<(PatternView, ExprView)>, Indent), PErr>, int)
    decreases ts.len() - q, 5int, 0int,
{
    if at(ts, q) is None {
        (Ok((acc, bi)), q)
    } else {
        let (r0, q1) = pattern_at(ts, q);
        if r0 is Err {
            (Err(r0->Err_0), q1)
        } else {
            let (r1, q2) = to_indented(bi, ts, q1);
            if r1 is Err {
                (Err(r1->Err_0), q2)
            } else {
                let (r2, q3) = expect_at(ts, q2, Token::RightArrow);
                if r2 is Err {
                    (Err(r2->Err_0), q3)
                } else {
                    let (r3, q4) = to_indented(bi, ts, q3);
                    if r3 is Err {
                        (Err(r3->Err_0), q4)
                    } else if !ahead(ts, q, q4) {
                        (Err(PErr::Unknown), q4)
                    } else {
                        let (r4, q5) = expression_at(ts, q4, bi);
                        if r4 is Err {
                            (Err(r4->Err_0), q5)
                        } else {
                            let acc2 = acc.push((r0->Ok_0, r4->Ok_0.0));
                            let ind = r4->Ok_0.1;
                            if ind.1 != bi.1 {
                                (Ok((acc2, ind)), q5)
                            } else if !ahead(ts, q, q5) {
                                (Err(PErr::Unknown), q5)
                            } else {
                                branches_at(ts, q5, bi, acc2, ind)
                            }
                        }
                    }
                }
            }
        }
    }
}

/// Operands joined by binary operators, combined by precedence.
pub open spec fn binary_at(ts: Seq<SrcToken>, p: int, base: Indent) -> (
    Result<(ExprView, Indent), PErr>,
    int,
)
    decreases ts.len() - p, 5int, 0int,
{
    let (r0, q) = var_or_call_at(ts, p, base);
    if r0 is Err {
        (Err(r0->Err_0), q)
    } else {
        let (e, nti) = r0->Ok_0;
        if !indented_from(nti, base) {
            (Ok((e, nti)), q)
        } else if !ahead(ts, p, q) {
            (Err(PErr::Unknown), q)
        } else {
            binary_loop(ts, q, base, Seq::empty(), seq![e], nti)
        }
    }
}

/// The operators and operands from `q`, with the stacks built so far; `nti` is where the last
/// operand left off.
pub open spec fn binary_loop(
    ts: Seq<SrcToken>,
    q: int,
    base: Indent,
    ops: Seq<Seq<char>>,
    operands: Seq<ExprView>,
    nti: Indent,
) -> (Result<(ExprView, Indent), PErr>, int)
    decreases ts.len() - q, 5int, 0int,
{
    match at(ts, q) {
        Some((Token::Operator(op), _)) => {
            let (r1, q2) = to_indented(base, ts, q + 1);
            if r1 is Err {
                (Err(r1->Err_0), q2)
            } else {
                match process_spec(op@, ops, operands) {
                    Err(e) => (Err(e), q2),
                    Ok((ops2, operands2)) => if !ahead(ts, q, q2) {
                        (Err(PErr::Unknown), q2)
                    } else {
                        let (r2, q3) = var_or_call_at(ts, q2, base);
                        if r2 is Err {
                            (Err(r2->Err_0), q3)
                        } else {
                            let operands3 = operands2.push(r2->Ok_0.0);
                            let ind = r2->Ok_0.1;
                            if !indented_from(ind, base) {
                                (Ok((reduce_spec(ops2, operands3), ind)), q3)
                            } else if !ahead(ts, q, q3) {
                                (Err(PErr::Unknown), q3)
                            } else {
                                binary_loop(ts, q3, base, ops2, operands3, ind)
                            }
                        }
                    },
                }
            }
        },
        _ => (Ok((reduce_spec(ops, operands), nti)), q),
    }
}

/// Tokens at which a call's arguments end.
pub open spec fn ends_call_at(ts: Seq<SrcToken>, q: int) -> bool {
    super::ends_call(at(ts, q))
}

/// A single value, or a call: a value followed by arguments indented from `base`.
pub open spec fn var_or_call_at(ts: Seq<SrcToken>, p: int, base: Indent) -> (
    Result<(ExprView, Indent), PErr>,
    int,
)
    decreases ts.len() - p, 4int, 0int,
{
    let (r0, q) = singular_at(ts, p, base);
    if r0 is Err {
        (Err(r0->Err_0), q)
    } else {
        let (f, nti) = r0->Ok_0;
        if !indented_from(nti, base) {
            (Ok((f, nti)), q)
        } else if !ahead(ts, p, q) {
            (Err(PErr::Unknown), q)
        } else {
            call_with(f, call_args_at(ts, q, base, Seq::empty(), nti))
        }
    }
}

/// `f` applied to the arguments read (`f` itself when there are none), or the error reading
/// them gave.
pub open spec fn call_with(f: ExprView, r: (Result<(Seq<ExprView>, Indent), PErr>, int)) -> (
    Result<(ExprView, Indent), PErr>,
    int,
) {
    match r.0 {
        Err(x) => (Err(x), r.1),
        Ok((args, ind)) => if args.len() == 0 {
            (Ok((f, ind)), r.1)
        } else {
            (Ok((ExprView::Call { function: Box::new(f), args }, ind)), r.1)
        },
    }
}

/// The arguments of a call from `q`, after those read so far.
pub open spec fn call_args_at(
    ts: Seq<SrcToken>,
    q: int,
    base: Indent,
    args: Seq<ExprView>,
    nti: Indent,
) -> (Result<(Seq<ExprView>, Indent), PErr>, int)
    decreases ts.len() - q, 4int, 0int,
{
    if ends_call_at(ts, q) {
        (Ok((args, nti)), q)
    } else {
        let (r0, q2) = singular_at(ts, q, base);
        if r0 is Err {
            (Err(r0->Err_0), q2)
        } else {
            let args2 = args.push(r0->Ok_0.0);
            let ind = r0->Ok_0.1;
            if !indented_from(ind, base) {
                (Ok((args2, ind)), q2)
            } else if !ahead(ts, q, q2) {
                (Err(PErr::Unknown), q2)
            } else {
                call_args_at(ts, q2, base, args2, ind)
            }
        }
    }
}

/// A parenthesised expression, a list literal, a literal or a name, and the indentation of
/// the token after it.
pub open spec fn singular_at(ts: Seq<SrcToken>, p: int, base: Indent) -> (
    Result<(ExprView, Indent), PErr>,
    int,
)
    decreases ts.len() - p, 3int, 0int,
{
    match at(ts, p) {
        None => (Err(PErr::UnexpectedEnd), p),
        Some((Token::OpenParen, _)) => {
            let (r0, p2) = expression_at(ts, p + 1, base);
            if r0 is Err {
                (Err(r0->Err_0), p2)
            } else {
                let (r1, p3) = to_indented(base, ts, p2);
                if r1 is Err {
                    (Err(r1->Err_0), p3)
                } else {
                    let (r2, p4) = expect_at(ts, p3, Token::CloseParen);
                    if r2 is Err {
                        (Err(r2->Err_0), p4)
                    } else {
                        let (ind, p5) = consume_at(base, ts, p4);
                        (Ok((r0->Ok_0.0, ind)), p5)
                    }
                }
            }
        },
        Some((Token::OpenBracket, _)) => {
            let (r0, q) = list_at(ts, p, base);
            if r0 is Err {
                (Err(r0->Err_0), q)
            } else {
                let (ind, q2) = consume_at(base, ts, q);
                (Ok((r0->Ok_0, ind)), q2)
            }
        },
        Some(_) => {
            let (r0, q) = contained_at(ts, p);
            if r0 is Err {
                (Err(r0->Err_0), q)
            } else {
                let (ind, q2) = consume_at(base, ts, q);
                (Ok((r0->Ok_0, ind)), q2)
            }
        },
    }
}

/// `[a, b, ...]`.
pub open spec fn list_at(ts: Seq<SrcToken>, p: int, base: Indent) -> (Result<ExprView, PErr>, int)
    decreases ts.len() - p, 2int, 0int,
{
    let (r0, p1) = expect_at(ts, p, Token::OpenBracket);
    if r0 is Err {
        (Err(r0->Err_0), p1)
    } else if !ahead(ts, p, p1) {
        (Err(PErr::Unknown), p1)
    } else {
        list_with(ts, list_items_at(ts, p1, base, Seq::empty()))
    }
}

/// The list of the items read, closed by `]`, or the error reading them gave.
pub open spec fn list_with(ts: Seq<SrcToken>, r: (Result<Seq<ExprView>, PErr>, int)) -> (
    Result<ExprView, PErr>,
    int,
) {
    match r.0 {
        Err(x) => (Err(x), r.1),
        Ok(items) => {
            let (r2, q2) = expect_at(ts, r.1, Token::CloseBracket);
            if r2 is Err {
                (Err(r2->Err_0), q2)
            } else {
                (Ok(ExprView::List(items)), q2)
            }
        },
    }
}

/// The items of a list literal from `q`, after those read so far, up to its `]`.
pub open spec fn list_items_at(ts: Seq<SrcToken>, q: int, base: Indent, items: Seq<ExprView>) -> (
    Result<Seq<ExprView>, PErr>,
    int,
)
    decreases ts.len() - q, 7int, 0int,
{
    let (r0, q1) = to_indented(base, ts, q);
    if r0 is Err {
        (Err(r0->Err_0), q1)
    } else if at(ts, q1) matches Some((Token::CloseBracket, _)) {
        (Ok(items), q1)
    } else if !within(ts, q, q1) {
        (Err(PErr::Unknown), q1)
    } else {
        let (r1, q2) = expression_at(ts, q1, base);
        if r1 is Err {
            (Err(r1->Err_0), q2)
        } else {
            let items2 = items.push(r1->Ok_0.0);
            let (r2, q3) = to_indented(base, ts, q2);
            if r2 is Err {
                (Err(r2->Err_0), q3)
            } else {
                match at(ts, q3) {
                    Some((Token::CloseBracket, _)) => (Ok(items2), q3),
                    Some((Token::Comma, _)) => if !ahead(ts, q, q3 + 1) {
                        (Err(PErr::Unknown), q3 + 1)
                    } else {
                        list_items_at(ts, q3 + 1, base, items2)
                    },
                    Some((t, range)) => (Err(unexpected_err(t, range, ", or ]"@)), q3),
                    None => (Err(PErr::UnexpectedEnd), q3),
                }
            }
        }
    }
}

} // verus!
