//! The grammar of types, as functions on the token sequence: each gives the type read from a
//! position and the position after it.
use vstd::prelude::*;

use crate::ast::Type;
use crate::ast::split_dots;
use crate::ast::views::{type_view, types_view, TypeView, UpperNameView};
use crate::lexer::{SrcToken, Token};
use super::error::Error;
use super::extract::empty_named;
use super::grammar::{ahead, at, consume_at, expect_at, indented_from, perr, to_indented, unexpected_err, Indent, PErr};
use super::types::upper_name_text;

verus! {

/// The qualified name a capitalised name or path spells.
pub open spec fn upper_name_of(n: Seq<char>) -> UpperNameView {
    (split_dots(n).drop_last(), split_dots(n).last())
}

/// The type a capitalised name denotes with its arguments: the built-in `Int`, `Float`,
/// `Char` and `String`, `List` of exactly one argument, or a type of the program.
pub open spec fn name_type(name: UpperNameView, args: Seq<TypeView>) -> Result<TypeView, PErr> {
    let full = upper_name_text(name);
    if full == "Int"@ {
        Ok(TypeView::Int)
    } else if full == "Float"@ {
        Ok(TypeView::Float)
    } else if full == "Char"@ {
        Ok(TypeView::Char)
    } else if full == "String"@ {
        Ok(TypeView::String)
    } else if full == "List"@ {
        if args.len() == 1 {
            Ok(TypeView::List(Box::new(args[0])))
        } else {
            Err(PErr::Unknown)
        }
    } else {
        Ok(TypeView::UserDefined { name, args })
    }
}

/// A type outcome as mathematical values.
pub open spec fn type_result(r: Result<Type, Error>) -> Result<TypeView, PErr> {
    match r {
        Ok(t) => Ok(type_view(t)),
        Err(e) => Err(perr(e)),
    }
}

/// Pushing a type onto a list of types pushes its view.
pub proof fn lemma_types_view_push(s: Seq<Type>, x: Type)
    ensures
        types_view(s.push(x)) == types_view(s).push(type_view(x)),
{
    assert(s.push(x).drop_last() =~= s);
}

/// The view of a list of types holds the view of each, in order.
pub proof fn lemma_types_view(s: Seq<Type>)
    ensures
        types_view(s).len() == s.len(),
        forall|i: int| 0 <= i < s.len() ==> #[trigger] types_view(s)[i] == type_view(s[i]),
    decreases s.len(),
{
    if s.len() > 0 {
        lemma_types_view(s.drop_last());
    }
}

/// A type: single types joined by `->`, each indented from `base`.
pub open spec fn type_at(ts: Seq<SrcToken>, p: int, base: Indent) -> (Result<TypeView, PErr>, int)
    decreases ts.len() - p, 3int, 0int,
{
    let (r0, p1) = single_type_at(ts, p, base);
    if r0 is Err {
        (Err(r0->Err_0), p1)
    } else {
        let (r1, p2) = to_indented(base, ts, p1);
        if r1 is Err {
            (Err(r1->Err_0), p2)
        } else if !ahead(ts, p, p2) {
            (Err(PErr::Unknown), p2)
        } else {
            arrows_at(ts, p2, base, r0->Ok_0)
        }
    }
}

/// The `-> t` parts from `q`: each makes a function type from `acc` to `t`.
pub open spec fn arrows_at(ts: Seq<SrcToken>, q: int, base: Indent, acc: TypeView) -> (
    Result<TypeView, PErr>,
    int,
)
    decreases ts.len() - q, 3int, 0int,
{
    if at(ts, q) matches Some((Token::RightArrow, _)) {
        let (r1, q2) = to_indented(base, ts, q + 1);
        if r1 is Err {
            (Err(r1->Err_0), q2)
        } else if !ahead(ts, q, q2) {
            (Err(PErr::Unknown), q2)
        } else {
            let (r2, q3) = single_type_at(ts, q2, base);
            if r2 is Err {
                (Err(r2->Err_0), q3)
            } else {
                let (r3, q4) = to_indented(base, ts, q3);
                if r3 is Err {
                    (Err(r3->Err_0), q4)
                } else if !ahead(ts, q, q4) {
                    (Err(PErr::Unknown), q4)
                } else {
                    arrows_at(
                        ts,
                        q4,
                        base,
                        TypeView::Function { from: Box::new(acc), to: Box::new(r2->Ok_0) },
                    )
                }
            }
        }
    } else {
        (Ok(acc), q)
    }
}

/// A type variable, or a named type with its arguments.
pub open spec fn single_type_at(ts: Seq<SrcToken>, p: int, base: Indent) -> (
    Result<TypeView, PErr>,
    int,
)
    decreases ts.len() - p, 2int, 0int,
{
    match at(ts, p) {
        Some((Token::UpperName(_), _)) => explicit_type_at(ts, p, base),
        Some((Token::UpperPath(_), _)) => explicit_type_at(ts, p, base),
        Some((Token::LowerName(n), _)) => (Ok(TypeView::Var(n@)), p + 1),
        Some((t, range)) => (Err(unexpected_err(t, range, "Not sure"@)), p),
        None => (Err(PErr::UnexpectedEnd), p),
    }
}

/// A named type: the name, then its arguments while they are indented from `base`.
pub open spec fn explicit_type_at(ts: Seq<SrcToken>, p: int, base: Indent) -> (
    Result<TypeView, PErr>,
    int,
)
    decreases ts.len() - p, 1int, 2int,
{
    let name: Option<Seq<char>> = match at(ts, p) {
        Some((Token::UpperName(n), _)) => Some(n@),
        Some((Token::UpperPath(n), _)) => Some(n@),
        _ => None,
    };
    match at(ts, p) {
        None => (Err(PErr::UnexpectedEnd), p),
        Some((t, range)) => if name is None {
            (Err(unexpected_err(t, range, empty_named("UpperName"@))), p + 1)
        } else {
            let n = upper_name_of(name->0);
            let (ind, p2) = consume_at(base, ts, p + 1);
            if !indented_from(ind, base) {
                (name_type(n, Seq::empty()), p2)
            } else if !ahead(ts, p, p2) {
                (Err(PErr::Unknown), p2)
            } else {
                type_args_at(ts, p2, base, n, Seq::empty())
            }
        },
    }
}

/// The arguments of the named type `name` from `q`, after those read so far; they end at
/// `)`, `->` or `|`, or where a token is not indented from `base`.
pub open spec fn type_args_at(
    ts: Seq<SrcToken>,
    q: int,
    base: Indent,
    name: UpperNameView,
    args: Seq<TypeView>,
) -> (Result<TypeView, PErr>, int)
    decreases ts.len() - q, 1int, 1int,
{
    match at(ts, q) {
        Some((Token::CloseParen, _)) => (name_type(name, args), q),
        Some((Token::RightArrow, _)) => (name_type(name, args), q),
        Some((Token::Bar, _)) => (name_type(name, args), q),
        _ => {
            let arg: (Result<TypeView, PErr>, int) = match at(ts, q) {
                Some((Token::OpenParen, _)) => {
                    let (r0, q2) = type_at(ts, q + 1, base);
                    if r0 is Err {
                        (Err(r0->Err_0), q2)
                    } else {
                        let (r1, q3) = expect_at(ts, q2, Token::CloseParen);
                        if r1 is Err {
                            (Err(r1->Err_0), q3)
                        } else {
                            (Ok(r0->Ok_0), q3)
                        }
                    }
                },
                Some((Token::UpperName(n), _)) => (name_type(upper_name_of(n@), Seq::empty()), q + 1),
                Some((Token::LowerName(n), _)) => (Ok(TypeView::Var(n@)), q + 1),
                Some((t, range)) => (Err(unexpected_err(t, range, "Not sure"@)), q),
                None => (Err(PErr::UnexpectedEnd), q),
            };
            if arg.0 is Err {
                (Err(arg.0->Err_0), arg.1)
            } else {
                let args2 = args.push(arg.0->Ok_0);
                let (ind, q3) = consume_at(base, ts, arg.1);
                if !indented_from(ind, base) {
                    (name_type(name, args2), q3)
                } else if !ahead(ts, q, q3) {
                    (Err(PErr::Unknown), q3)
                } else {
                    type_args_at(ts, q3, base, name, args2)
                }
            }
        },
    }
}

} // verus!
