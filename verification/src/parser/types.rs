//! Type annotations and custom type declarations.
use vstd::prelude::*;

use crate::ast::{join_with, LowerName, QualifiedUpperName, Stmt, Type};
use crate::ast::views::names_view;
use super::module_grammar::{constructors_at, decl_after_vars, decl_with, stmt_result, type_decl_at, type_vars_at};
use crate::lexer::{Token, TokenIter, advanced};
use crate::text::{owned, str_eq};

use super::error::Error;
use super::no_stack_error;
use super::extract;
use super::indent::Indentation;
use super::mtch;
use super::type_grammar::{
    arrows_at, explicit_type_at, lemma_types_view, lemma_types_view_push, name_type,
    single_type_at, type_args_at, type_at, type_result,
};
use super::grammar::PErr;
use crate::ast::views::{type_view, types_view, TypeView};

verus! {

broadcast use vstd::string::group_string_axioms;

/// The dotted text of a qualified capitalised name, as `QualifiedUpperName::as_string` gives it.
pub open spec fn upper_name_text(n: (Seq<Seq<char>>, Seq<char>)) -> Seq<char> {
    if join_with(n.0, "."@).len() == 0 {
        n.1
    } else {
        join_with(n.0, "."@) + "."@ + n.1
    }
}

/// A stream position moved forward by at least one token.
pub open spec fn consumed(old: TokenIter, new: TokenIter) -> bool {
    advanced(old, new) && old.pos < new.pos
}

/// Parses a custom type declaration: `type Name args = Constructor | Constructor ...`.
pub fn parse_type_declaration(iter: &mut TokenIter, base_indent: &Indentation) -> (r: Result<
    Stmt,
    Error,
>)
    requires
        old(iter).wf(),
    ensures
        advanced(*old(iter), *final(iter)),
        no_stack_error(r),
        r is Ok ==> consumed(*old(iter), *final(iter)),
        r matches Ok(s) ==> (s matches Stmt::Type { constructors, .. } && constructors@.len() >= 1),
        (stmt_result(r), final(iter).pos as int) == type_decl_at(
            old(iter).tokens@,
            old(iter).pos as int,
            (base_indent.lines, base_indent.spaces),
        ),
{
    let ghost ts = iter.tokens@;
    let ghost b = (base_indent.lines, base_indent.spaces);
    mtch::matches(&iter.next(), Token::Type)?;
    base_indent.must_consume_to_indented(iter)?;

    let name = extract::extract_upper_name(&iter.next())?;
    base_indent.must_consume_to_indented(iter)?;
    let ghost q0 = iter.pos as int;

    let mut args: Vec<LowerName> = Vec::new();
    proof {
        assert(names_view(args@) =~= Seq::<Seq<char>>::empty());
    }

    loop
        invariant
            iter.wf(),
            iter.tokens@ == ts,
            ts == old(iter).tokens@,
            b == (base_indent.lines, base_indent.spaces),
            old(iter).pos < q0 <= iter.pos,
            type_decl_at(ts, old(iter).pos as int, b) == decl_after_vars(
                ts,
                b,
                name.0@,
                type_vars_at(ts, q0, b, Seq::empty()),
            ),
            type_vars_at(ts, q0, b, Seq::empty()) == type_vars_at(
                ts,
                iter.pos as int,
                b,
                names_view(args@),
            ),
        ensures
            iter.wf(),
            iter.tokens@ == ts,
            old(iter).pos < iter.pos,
            type_vars_at(ts, q0, b, Seq::empty()) == (
                Ok::<Seq<Seq<char>>, PErr>(names_view(args@)),
                iter.pos as int,
            ),
        decreases iter.tokens@.len() - iter.pos,
    {
        if let Some((Token::Equals, _range)) = iter.peek() {
            break ;
        }
        let type_variable = extract::extract_lower_name(&iter.next())?;
        let ghost before = args@;
        args.push(type_variable);
        proof {
            assert(names_view(args@) =~= names_view(before).push(type_variable.0@));
        }
        base_indent.must_consume_to_indented(iter)?;
    }

    mtch::matches(&iter.next(), Token::Equals)?;
    base_indent.must_consume_to_indented(iter)?;

    let first_constructor = parse_type(iter, base_indent)?;
    base_indent.must_consume_to_indented(iter)?;
    let ghost q1 = iter.pos as int;
    let ghost c0 = type_view(first_constructor);

    let mut constructors = Vec::new();
    constructors.push(first_constructor);
    proof {
        lemma_types_view_push(Seq::<Type>::empty(), first_constructor);
        assert(Seq::<Type>::empty().push(first_constructor) =~= constructors@);
        assert(types_view(Seq::<Type>::empty()) =~= Seq::<TypeView>::empty());
        assert(types_view(constructors@) =~= seq![c0]);
    }

    loop
        invariant
            iter.wf(),
            iter.tokens@ == ts,
            ts == old(iter).tokens@,
            b == (base_indent.lines, base_indent.spaces),
            old(iter).pos < q1 <= iter.pos,
            constructors@.len() >= 1,
            type_decl_at(ts, old(iter).pos as int, b) == decl_with(
                name.0@,
                names_view(args@),
                constructors_at(ts, q1, b, seq![c0]),
            ),
            constructors_at(ts, q1, b, seq![c0]) == constructors_at(
                ts,
                iter.pos as int,
                b,
                types_view(constructors@),
            ),
        ensures
            iter.wf(),
            iter.tokens@ == ts,
            old(iter).pos < iter.pos,
            constructors@.len() >= 1,
            constructors_at(ts, q1, b, seq![c0]) == (
                Ok::<Seq<TypeView>, PErr>(types_view(constructors@)),
                iter.pos as int,
            ),
        decreases iter.tokens@.len() - iter.pos,
    {
        match iter.peek() {
            Some((Token::Bar, _range)) => {},
            _ => {
                break ;
            },
        }
        mtch::matches(&iter.next(), Token::Bar)?;
        base_indent.must_consume_to_indented(iter)?;

        let constructor = parse_type(iter, base_indent)?;
        let ghost before = constructors@;
        constructors.push(constructor);
        proof {
            lemma_types_view_push(before, constructor);
        }
        base_indent.must_consume_to_indented(iter)?;
    }

    Ok(Stmt::Type { name, args, constructors })
}

/// Parses a type, with `->` between the parts of a function type; each `->` makes a function
/// type from everything read so far to the part after it.
pub fn parse_type(iter: &mut TokenIter, base_indent: &Indentation) -> (r: Result<Type, Error>)
    requires
        old(iter).wf(),
    ensures
        advanced(*old(iter), *final(iter)),
        no_stack_error(r),
        r is Ok ==> consumed(*old(iter), *final(iter)),
        (type_result(r), final(iter).pos as int) == type_at(
            old(iter).tokens@,
            old(iter).pos as int,
            (base_indent.lines, base_indent.spaces),
        ),
    decreases old(iter).tokens@.len() - old(iter).pos, 2int,
{
    let ghost ts = iter.tokens@;
    let ghost b = (base_indent.lines, base_indent.spaces);
    let mut type_ = parse_single_type(iter, base_indent)?;
    base_indent.must_consume_to_indented(iter)?;
    let ghost q0 = iter.pos as int;
    let ghost t0 = type_view(type_);

    loop
        invariant
            iter.wf(),
            iter.tokens@ == ts,
            ts == old(iter).tokens@,
            b == (base_indent.lines, base_indent.spaces),
            old(iter).pos < q0 <= iter.pos,
            type_at(ts, old(iter).pos as int, b) == arrows_at(ts, q0, b, t0),
            arrows_at(ts, q0, b, t0) == arrows_at(ts, iter.pos as int, b, type_view(type_)),
        ensures
            iter.wf(),
            iter.tokens@ == ts,
            old(iter).pos < iter.pos,
            type_at(ts, old(iter).pos as int, b) == (
                Ok::<TypeView, PErr>(type_view(type_)),
                iter.pos as int,
            ),
        decreases iter.tokens@.len() - iter.pos,
    {
        match iter.peek() {
            Some((Token::RightArrow, _range)) => {},
            _ => {
                break ;
            },
        }
        mtch::matches(&iter.next(), Token::RightArrow)?;
        base_indent.must_consume_to_indented(iter)?;

        let next_type = parse_single_type(iter, base_indent)?;
        base_indent.must_consume_to_indented(iter)?;
        type_ = Type::Function { from: Box::new(type_), to: Box::new(next_type) };
    }

    Ok(type_)
}

// Parse up to the next "->" (RightArrow)
fn parse_single_type(iter: &mut TokenIter, base_indent: &Indentation) -> (r: Result<Type, Error>)
    requires
        old(iter).wf(),
    ensures
        advanced(*old(iter), *final(iter)),
        no_stack_error(r),
        r is Ok ==> consumed(*old(iter), *final(iter)),
        (type_result(r), final(iter).pos as int) == single_type_at(
            old(iter).tokens@,
            old(iter).pos as int,
            (base_indent.lines, base_indent.spaces),
        ),
    decreases old(iter).tokens@.len() - old(iter).pos, 1int,
{
    let is_explicit = match iter.peek() {
        Some((Token::UpperName(_), _range)) => true,
        Some((Token::UpperPath(_), _range)) => true,
        _ => false,
    };
    if is_explicit {
        return parse_explicit_type(iter, base_indent);
    }
    match iter.peek() {
        Some((Token::LowerName(_), _range)) => {
            let name = extract::extract_lower_name(&iter.next())?;
            Ok(Type::Var(name))
        },
        Some((token, range)) => Err(extract::unexpected(token, range, owned("Not sure"))),
        None => Err(Error::UnexpectedEnd),
    }
}

fn parse_explicit_type(iter: &mut TokenIter, base_indent: &Indentation) -> (r: Result<
    Type,
    Error,
>)
    requires
        old(iter).wf(),
    ensures
        advanced(*old(iter), *final(iter)),
        no_stack_error(r),
        r is Ok ==> consumed(*old(iter), *final(iter)),
        (type_result(r), final(iter).pos as int) == explicit_type_at(
            old(iter).tokens@,
            old(iter).pos as int,
            (base_indent.lines, base_indent.spaces),
        ),
    decreases old(iter).tokens@.len() - old(iter).pos, 0int,
{
    let ghost ts = iter.tokens@;
    let ghost b = (base_indent.lines, base_indent.spaces);
    let name = extract::extract_qualified_upper_name(&iter.next())?;
    let indent = base_indent.consume(iter);
    proof {
        assert(types_view(Seq::<Type>::empty()) =~= Seq::<TypeView>::empty());
    }
    if !indent.indented_from(base_indent) {
        return convert_name_to_type(name, Vec::new());
    }
    let ghost q0 = iter.pos as int;
    let ghost nv = name@;
    let mut args: Vec<Type> = Vec::new();
    loop
        invariant_except_break
            type_args_at(ts, q0, b, nv, Seq::empty()) == type_args_at(
                ts,
                iter.pos as int,
                b,
                nv,
                types_view(args@),
            ),
        invariant
            iter.wf(),
            iter.tokens@ == ts,
            ts == old(iter).tokens@,
            b == (base_indent.lines, base_indent.spaces),
            nv == name@,
            old(iter).pos < q0 <= iter.pos,
            explicit_type_at(ts, old(iter).pos as int, b) == type_args_at(
                ts,
                q0,
                b,
                nv,
                Seq::empty(),
            ),
        ensures
            iter.wf(),
            iter.tokens@ == ts,
            old(iter).pos < iter.pos,
            explicit_type_at(ts, old(iter).pos as int, b) == (
                name_type(nv, types_view(args@)),
                iter.pos as int,
            ),
        decreases iter.tokens@.len() - iter.pos,
    {
        match iter.peek() {
            Some((Token::CloseParen, _range)) | Some((Token::RightArrow, _range)) | Some(
                (Token::Bar, _range),
            ) => {
                break ;
            },
            _ => {},
        }

        let is_open = match iter.peek() {
            Some((Token::OpenParen, _range)) => true,
            _ => false,
        };
        let arg_type = if is_open {
            mtch::matches(&iter.next(), Token::OpenParen)?;
            let type_ = parse_type(iter, base_indent)?;
            mtch::matches(&iter.next(), Token::CloseParen)?;
            type_
        } else {
            match iter.peek() {
                Some((Token::UpperName(_), _range)) => {
                    let name = extract::extract_qualified_upper_name(&iter.next())?;
                    proof {
                        assert(types_view(Seq::<Type>::empty()) =~= Seq::<TypeView>::empty());
                    }
                    convert_name_to_type(name, Vec::new())?
                },
                Some((Token::LowerName(_), _range)) => {
                    let name = extract::extract_lower_name(&iter.next())?;
                    Type::Var(name)
                },
                Some((token, range)) => {
                    return Err(extract::unexpected(token, range, owned("Not sure")));
                },
                None => {
                    return Err(Error::UnexpectedEnd);
                },
            }
        };

        let ghost before = args@;
        args.push(arg_type);
        proof {
            lemma_types_view_push(before, arg_type);
        }

        let next_indent = base_indent.consume(iter);
        if !next_indent.indented_from(base_indent) {
            break ;
        }
    }

    convert_name_to_type(name, args)
}

/// The type a capitalised name denotes: the built-in `Int`, `Float`, `Char` and `String`,
/// `List` of its one argument (any other number of arguments is an error), or the
/// user-defined type of that name with its arguments.
pub fn convert_name_to_type(name: QualifiedUpperName, args: Vec<Type>) -> (r: Result<Type, Error>)
    ensures
        ({
            let full = upper_name_text(name@);
            if full == "Int"@ {
                r == Ok::<Type, Error>(Type::Int)
            } else if full == "Float"@ {
                r == Ok::<Type, Error>(Type::Float)
            } else if full == "Char"@ {
                r == Ok::<Type, Error>(Type::Char)
            } else if full == "String"@ {
                r == Ok::<Type, Error>(Type::String)
            } else if full == "List"@ {
                if args@.len() == 1 {
                    r matches Ok(Type::List(t)) && *t == args@[0]
                } else {
                    r == Err::<Type, Error>(Error::Unknown)
                }
            } else {
                r == Ok::<Type, Error>(Type::UserDefined { name, args })
            }
        }),
        type_result(r) == name_type(name@, types_view(args@)),
{
    proof {
        lemma_types_view(args@);
    }
    let full_name = name.as_string();
    let full = full_name.as_str();
    if str_eq(full, "Int") {
        Ok(Type::Int)
    } else if str_eq(full, "Float") {
        Ok(Type::Float)
    } else if str_eq(full, "Char") {
        Ok(Type::Char)
    } else if str_eq(full, "String") {
        Ok(Type::String)
    } else if str_eq(full, "List") {
        let mut args = args;
        if args.len() == 1 {
            match args.pop() {
                Some(arg) => Ok(Type::List(Box::new(arg))),
                None => Err(Error::Unknown),
            }
        } else {
            Err(Error::Unknown)
        }
    } else {
        Ok(Type::UserDefined { name, args })
    }
}

} // verus!
