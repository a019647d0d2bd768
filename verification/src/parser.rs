//! The parser: from tokens to a module's syntax tree.
use std::rc::Rc;
use vstd::prelude::*;

pub mod error;
pub mod expression;
pub mod extract;
pub mod grammar;
pub mod indent;
pub mod module_grammar;
pub mod mtch;
pub mod type_grammar;
pub mod types;
pub mod whitespace;

pub use self::error::Error;
pub use self::expression::{
    ends_call, has_greater_precedence, parse_expression, precedence, precedence_of, process_stacks,
    stack_ordered,
};

use crate::ast::{Exposing, ExposingDetail, Import, LowerName, Module, Pattern, Stmt, TypeAnnotation};
use crate::lexer::{Range, SrcToken, Token, TokenIter, advanced, token_text};
use crate::text::{owned, push_str, str_eq, u64_text};
use self::extract::{is_unexpected, unexpected};
use self::grammar::PErr;
use self::indent::Indentation;
use self::module_grammar::{
    annotation_at, annotation_result, details_at, details_result, exposing_at, exposing_result,
    fn_args_at, function_or_binding_at, imports_at, imports_result, infix_at, module_at,
    module_result, statement_at, statements_at, stmt_result, stmts_result,
};
use crate::ast::views::{
    annotation_view, details_view, import_view, imports_view, patterns_view, stmt_view, stmts_view,
    ExposingDetailView, ImportView, PatternView, StmtView,
};
use self::types::consumed;

verus! {

broadcast use vstd::string::group_string_axioms;

pub type ParseResult = Result<Module, Error>;

/// Errors that only a broken operator or operand stack could give.
pub open spec fn is_stack_error(e: Error) -> bool {
    e is NoOperand || e is NoOperator || e is EmptyOperatorStack
}

/// The outcome is not a stack error.
pub open spec fn no_stack_error<T>(r: Result<T, Error>) -> bool {
    r matches Err(e) ==> !is_stack_error(e)
}

/// Parses a whole module: its header, exposing list, imports and statements.
pub fn parse(iter: &mut TokenIter) -> (r: ParseResult)
    requires
        old(iter).wf(),
    ensures
        advanced(*old(iter), *final(iter)),
        no_stack_error(r),
        r is Ok ==> final(iter).pos == final(iter).tokens@.len(),
        (module_result(r), final(iter).pos as int) == module_at(
            old(iter).tokens@,
            old(iter).pos as int,
        ),
{
    // Uncomment to print out whole token stream
    // println!("{:?}", iter.collect::<Vec<_>>());
    let base_indent = Indentation::new();

    mtch::matches(&iter.next(), Token::Module)?;
    base_indent.must_consume_to_indented(iter)?;

    let name = extract::extract_module_name(&iter.next())?;
    base_indent.must_consume_to_indented(iter)?;

    let exposing = parse_exposing(iter)?;
    base_indent.must_consume_to_line_start(iter)?;

    let imports = parse_imports(iter)?;
    base_indent.must_consume_to_line_start(iter)?;

    let statements = parse_statements(iter)?;

    if iter.peek().is_none() {
        Ok(Module { name, exposing, imports, statements })
    } else {
        let mut tokens: Vec<String> = Vec::new();
        while iter.pos < iter.tokens.len()
            invariant
                iter.wf(),
                iter.tokens@ == old(iter).tokens@,
                old(iter).pos <= iter.pos,
            decreases iter.tokens@.len() - iter.pos,
        {
            tokens.push(src_token_text(&iter.tokens[iter.pos]));
            iter.pos = iter.pos + 1;
        }
        Err(Error::TokensRemaining(tokens))
    }
}

/// `(token, start..end)`, the `Debug` text of a token with its range.
pub open spec fn src_token_spec(t: SrcToken) -> Seq<char> {
    "("@ + token_text(t.0) + ", "@ + crate::text::nat_digits(t.1.start as nat) + ".."@
        + crate::text::nat_digits(t.1.end as nat) + ")"@
}

/// The text of a token with its range.
pub fn src_token_text(t: &SrcToken) -> (r: String)
    ensures
        r@ == src_token_spec(*t),
{
    let mut r = owned("(");
    let tt = t.0.to_text();
    push_str(&mut r, tt.as_str());
    push_str(&mut r, ", ");
    let a = u64_text(t.1.start as u64);
    push_str(&mut r, a.as_str());
    push_str(&mut r, "..");
    let b = u64_text(t.1.end as u64);
    push_str(&mut r, b.as_str());
    push_str(&mut r, ")");
    r
}

/// `Some(token text)` or `None`, the `Debug` text of what `peek` returned.
pub open spec fn peeked_spec(t: Option<SrcToken>) -> Seq<char> {
    match t {
        Some(t) => "Some("@ + src_token_spec(t) + ")"@,
        None => "None"@,
    }
}

fn peeked_text(t: Option<&SrcToken>) -> (r: String)
    ensures
        r@ == peeked_spec(match t {
            Some(x) => Some(*x),
            None => None,
        }),
{
    match t {
        Some(t) => {
            let mut r = owned("Some(");
            let s = src_token_text(t);
            push_str(&mut r, s.as_str());
            push_str(&mut r, ")");
            r
        },
        None => owned("None"),
    }
}

/// Parses `exposing (..)` or `exposing (a, (+), ...)`.
fn parse_exposing(iter: &mut TokenIter) -> (r: Result<Exposing, Error>)
    requires
        old(iter).wf(),
    ensures
        advanced(*old(iter), *final(iter)),
        no_stack_error(r),
        r is Ok ==> consumed(*old(iter), *final(iter)),
        (exposing_result(r), final(iter).pos as int) == exposing_at(
            old(iter).tokens@,
            old(iter).pos as int,
        ),
{
    // Fresh indentation as exposing lines only need to be indented from zero
    let base_indent = Indentation::new();

    mtch::matches(&iter.next(), Token::Exposing)?;
    base_indent.must_consume_to_indented(iter)?;

    mtch::matches(&iter.next(), Token::OpenParen)?;
    base_indent.must_consume_to_indented(iter)?;

    let exposing = match iter.peek() {
        Some((Token::Ellipsis, _range)) => {
            iter.next();
            Exposing::All
        },
        Some(_) => Exposing::List(parse_exposing_details(iter)?),
        token => {
            return Err(Error::UnknownExposing(peeked_text(token)));
        },
    };

    mtch::matches(&iter.next(), Token::CloseParen)?;

    Ok(exposing)
}

fn parse_exposing_details(iter: &mut TokenIter) -> (r: Result<Vec<ExposingDetail>, Error>)
    requires
        old(iter).wf(),
    ensures
        advanced(*old(iter), *final(iter)),
        no_stack_error(r),
        r is Ok ==> consumed(*old(iter), *final(iter)),
        (details_result(r), final(iter).pos as int) == details_at(
            old(iter).tokens@,
            old(iter).pos as int,
            Seq::empty(),
        ),
{
    let ghost ts = iter.tokens@;
    let ghost p0 = iter.pos as int;
    // Fresh indentation as exposing lines only need to be indented from zero
    let base_indent = Indentation::new();

    let mut details: Vec<ExposingDetail> = Vec::new();
    proof {
        assert(details_view(details@) =~= Seq::<ExposingDetailView>::empty());
    }
    loop
        invariant_except_break
            details_at(ts, p0, Seq::empty()) == details_at(
                ts,
                iter.pos as int,
                details_view(details@),
            ),
        invariant
            iter.wf(),
            iter.tokens@ == ts,
            ts == old(iter).tokens@,
            p0 == old(iter).pos,
            old(iter).pos <= iter.pos,
            base_indent.lines == 0,
            base_indent.spaces == 0,
        ensures
            iter.wf(),
            iter.tokens@ == ts,
            old(iter).pos < iter.pos,
            details_at(ts, p0, Seq::empty()) == (
                Ok::<Seq<ExposingDetailView>, PErr>(details_view(details@)),
                iter.pos as int,
            ),
        decreases iter.tokens@.len() - iter.pos,
    {
        let is_open = match iter.peek() {
            Some((Token::OpenParen, _range)) => true,
            _ => false,
        };
        let ghost before = details@;
        if is_open {
            iter.next();
            let operator_name = extract::extract_operator(&iter.next())?;
            mtch::matches(&iter.next(), Token::CloseParen)?;
            details.push(ExposingDetail::Operator(operator_name));
            proof {
                assert(details_view(details@) =~= details_view(before).push(
                    ExposingDetailView::Operator(operator_name@),
                ));
            }
        } else {
            let name = match iter.peek() {
                Some((Token::LowerName(name), _range)) => name.clone(),
                token => {
                    return Err(Error::UnknownExposing(peeked_text(token)));
                },
            };
            details.push(ExposingDetail::Name(name));
            proof {
                assert(details_view(details@) =~= details_view(before).push(
                    ExposingDetailView::Name(name@),
                ));
            }
            iter.next();
        }

        if let Some((Token::CloseParen, _range)) = iter.peek() {
            // Break without consuming the CloseParen
            break ;
        }
        mtch::matches(&iter.next(), Token::Comma)?;
        base_indent.must_consume_to_indented(iter)?;
    }

    Ok(details)
}

// Imports
fn parse_imports(iter: &mut TokenIter) -> (r: Result<Vec<Import>, Error>)
    requires
        old(iter).wf(),
    ensures
        advanced(*old(iter), *final(iter)),
        no_stack_error(r),
        (imports_result(r), final(iter).pos as int) == imports_at(
            old(iter).tokens@,
            old(iter).pos as int,
            Seq::empty(),
        ),
{
    let ghost ts = iter.tokens@;
    let ghost p0 = iter.pos as int;
    // Fresh indentation as import lines only need to be indented from zero
    let base_indent = Indentation::new();

    let mut imports: Vec<Import> = Vec::new();
    proof {
        assert(imports_view(imports@) =~= Seq::<ImportView>::empty());
    }

    loop
        invariant
            iter.wf(),
            iter.tokens@ == ts,
            ts == old(iter).tokens@,
            p0 == old(iter).pos,
            p0 <= iter.pos,
            base_indent.lines == 0,
            base_indent.spaces == 0,
            imports_at(ts, p0, Seq::empty()) == imports_at(
                ts,
                iter.pos as int,
                imports_view(imports@),
            ),
        ensures
            iter.wf(),
            iter.tokens@ == ts,
            p0 <= iter.pos,
            imports_at(ts, p0, Seq::empty()) == (
                Ok::<Seq<ImportView>, PErr>(imports_view(imports@)),
                iter.pos as int,
            ),
        decreases iter.tokens@.len() - iter.pos,
    {
        match iter.peek() {
            Some((Token::Import, _range)) => {},
            _ => {
                break ;
            },
        }

        mtch::matches(&iter.next(), Token::Import)?;
        base_indent.must_consume_to_indented(iter)?;

        let module_name = extract::extract_module_name(&iter.next())?;

        let mut exposing = None;

        let next_token_indent = base_indent.consume(iter);

        let at_exposing = match iter.peek() {
            Some((Token::Exposing, range)) => {
                if next_token_indent.at_line_start() {
                    return Err(Error::Indent { range: Range { start: range.start, end: range.end } });
                }
                true
            },
            Some((_, range)) => {
                if !next_token_indent.at_line_start() {
                    return Err(
                        Error::TokenNotAtLineStart(Range { start: range.start, end: range.end }),
                    );
                }
                false
            },
            None => false,
        };
        if at_exposing {
            exposing = Some(parse_exposing(iter)?);
            base_indent.must_consume_to_line_start(iter)?;
        }
        let ghost before = imports@;
        let import = Import { module_name, exposing };
        let ghost iv = import_view(import);
        imports.push(import);
        proof {
            assert(imports_view(imports@) =~= imports_view(before).push(iv));
        }
    }

    Ok(imports)
}

// Statements
fn parse_statements(iter: &mut TokenIter) -> (r: Result<Vec<Rc<Stmt>>, Error>)
    requires
        old(iter).wf(),
    ensures
        advanced(*old(iter), *final(iter)),
        no_stack_error(r),
        r is Ok ==> final(iter).pos == final(iter).tokens@.len(),
        (stmts_result(r), final(iter).pos as int) == statements_at(
            old(iter).tokens@,
            old(iter).pos as int,
            Seq::empty(),
        ),
{
    let ghost ts = iter.tokens@;
    let ghost p0 = iter.pos as int;
    // Fresh indentation as statement lines only need to be indented from zero
    // Until we're parsing let-in blocks anyway
    let base_indent = Indentation::new();

    let mut statements: Vec<Rc<Stmt>> = Vec::new();
    proof {
        assert(stmts_view(statements@) =~= Seq::<StmtView>::empty());
    }

    loop
        invariant
            iter.wf(),
            iter.tokens@ == ts,
            ts == old(iter).tokens@,
            p0 == old(iter).pos,
            p0 <= iter.pos,
            base_indent.lines == 0,
            base_indent.spaces == 0,
            statements_at(ts, p0, Seq::empty()) == statements_at(
                ts,
                iter.pos as int,
                stmts_view(statements@),
            ),
        ensures
            iter.wf(),
            iter.tokens@ == ts,
            p0 <= iter.pos,
            iter.pos == iter.tokens@.len(),
            statements_at(ts, p0, Seq::empty()) == (
                Ok::<Seq<StmtView>, PErr>(stmts_view(statements@)),
                iter.pos as int,
            ),
        decreases iter.tokens@.len() - iter.pos,
    {
        if iter.peek().is_none() {
            break ;
        }
        let statement = parse_statement(iter)?;
        let ghost before = statements@;
        let ghost sv = stmt_view(statement);
        statements.push(Rc::new(statement));
        proof {
            assert(stmts_view(statements@) =~= stmts_view(before).push(sv));
        }
        base_indent.must_consume_to_line_start(iter)?;
    }

    Ok(statements)
}

/// Parses one statement: a function or binding (with its type annotation, if it has one), a
/// type declaration, or an infix declaration.
fn parse_statement(iter: &mut TokenIter) -> (r: Result<Stmt, Error>)
    requires
        old(iter).wf(),
    ensures
        advanced(*old(iter), *final(iter)),
        no_stack_error(r),
        r is Ok ==> consumed(*old(iter), *final(iter)),
        (stmt_result(r), final(iter).pos as int) == statement_at(
            old(iter).tokens@,
            old(iter).pos as int,
        ),
{
    // Fresh indentation as statement lines only need to be indented from zero
    let base_indent = Indentation::new();

    let (is_name, is_type) = match iter.peek() {
        Some((Token::LowerName(_), _range)) => (true, false),
        Some((Token::Type, _range)) => (false, true),
        Some((Token::Infix, _range)) => (false, false),
        Some((token, range)) => {
            return Err(unexpected(token, range, owned("Expression token")));
        },
        None => {
            return Err(Error::UnexpectedEnd);
        },
    };
    if is_name {
        // Get the name
        let name = extract::extract_lower_name(&iter.next())?;
        whitespace::consume_spaces(iter);

        let has_annotation = match iter.peek() {
            Some((Token::Colon, _range)) => true,
            _ => false,
        };
        if has_annotation {
            let type_annotation = parse_type_annotation(iter, name.copy())?;
            base_indent.must_consume_to_line_start(iter)?;

            let function_name = extract::extract_lower_name(&iter.next())?;
            base_indent.must_consume_to_indented(iter)?;

            if function_name != name {
                return Err(Error::NameMismatch);
            }
            parse_function_or_binding(iter, function_name, Some(type_annotation), &base_indent)
        } else {
            parse_function_or_binding(iter, name, None, &base_indent)
        }
    } else if is_type {
        types::parse_type_declaration(iter, &base_indent)
    } else {
        parse_infix(iter)
    }
}

// Infix operators
fn parse_infix(iter: &mut TokenIter) -> (r: Result<Stmt, Error>)
    requires
        old(iter).wf(),
    ensures
        advanced(*old(iter), *final(iter)),
        no_stack_error(r),
        r is Ok ==> consumed(*old(iter), *final(iter)),
        r matches Ok(s) ==> s is Infix,
        (stmt_result(r), final(iter).pos as int) == infix_at(old(iter).tokens@, old(iter).pos as int),
{
    mtch::matches(&iter.next(), Token::Infix)?;
    whitespace::consume_spaces(iter);

    let associativity = extract::extract_associativity(&iter.next())?;
    whitespace::consume_spaces(iter);

    let precedence = extract_precendence(&iter.next())?;
    whitespace::consume_spaces(iter);

    mtch::matches(&iter.next(), Token::OpenParen)?;
    let operator_name = extract::extract_operator(&iter.next())?;
    mtch::matches(&iter.next(), Token::CloseParen)?;
    whitespace::consume_spaces(iter);

    mtch::matches(&iter.next(), Token::Equals)?;
    whitespace::consume_spaces(iter);

    let function_name = extract::extract_qualified_lower_name(&iter.next())?;

    Ok(Stmt::Infix { operator_name, associativity, precedence, function_name })
}

/// The precedence an integer literal gives; a negative one is an error.
fn extract_precendence(stream_token: &Option<SrcToken>) -> (r: Result<usize, Error>)
    ensures
        match *stream_token {
            Some((Token::LiteralInteger(v), _)) => if v >= 0 {
                r == Ok::<usize, Error>(v as usize)
            } else {
                r == Err::<usize, Error>(Error::NegativePrecendence)
            },
            Some((t, range)) => r matches Err(e) && is_unexpected(
                e,
                t,
                range,
                extract::empty_named("UpperName"@),
            ),
            None => r == Err::<usize, Error>(Error::UnexpectedEnd),
        },
{
    match stream_token {
        Some((Token::LiteralInteger(value), _range)) => {
            if *value >= 0 {
                Ok(*value as usize)
            } else {
                Err(Error::NegativePrecendence)
            }
        },
        Some((token, range)) => Err(unexpected(token, range, extract::upper_name_text())),
        None => Err(Error::UnexpectedEnd),
    }
}

// Type annotations
fn parse_type_annotation(iter: &mut TokenIter, name: LowerName) -> (r: Result<
    TypeAnnotation,
    Error,
>)
    requires
        old(iter).wf(),
    ensures
        advanced(*old(iter), *final(iter)),
        no_stack_error(r),
        r is Ok ==> consumed(*old(iter), *final(iter)),
        r matches Ok(a) ==> a.name == name,
        (annotation_result(r), final(iter).pos as int) == annotation_at(
            old(iter).tokens@,
            old(iter).pos as int,
            name.0@,
        ),
{
    mtch::matches(&iter.next(), Token::Colon)?;
    whitespace::consume_spaces(iter);

    let base = Indentation::new();
    let type_ = types::parse_type(iter, &base)?;
    whitespace::consume_spaces(iter);

    Ok(TypeAnnotation {
        // TODO: Don't use lower name for this stuff
        name,
        type_,
    })
}

// Functions & bindings
//
// Matches:
//
//   myFunc argA argB = < expr >
//          ^^^^^^^^^^^^^^^^^^^^
//
fn parse_function_or_binding(
    iter: &mut TokenIter,
    name: LowerName,
    type_annotation: Option<TypeAnnotation>,
    base_indent: &Indentation,
) -> (r: Result<Stmt, Error>)
    requires
        old(iter).wf(),
    ensures
        advanced(*old(iter), *final(iter)),
        no_stack_error(r),
        r is Ok ==> consumed(*old(iter), *final(iter)),
        r matches Ok(s) ==> (s is Binding || s is Function),
        (stmt_result(r), final(iter).pos as int) == function_or_binding_at(
            old(iter).tokens@,
            old(iter).pos as int,
            name.0@,
            annotation_view(type_annotation),
            (base_indent.lines, base_indent.spaces),
        ),
{
    let ghost ts = iter.tokens@;
    let ghost p0 = iter.pos as int;
    let ghost b = (base_indent.lines, base_indent.spaces);
    let mut args: Vec<Pattern> = Vec::new();
    proof {
        assert(patterns_view(args@) =~= Seq::<PatternView>::empty());
    }
    loop
        invariant
            iter.wf(),
            iter.tokens@ == ts,
            ts == old(iter).tokens@,
            p0 == old(iter).pos,
            p0 <= iter.pos,
            b == (base_indent.lines, base_indent.spaces),
            fn_args_at(ts, p0, b, Seq::empty()) == fn_args_at(
                ts,
                iter.pos as int,
                b,
                patterns_view(args@),
            ),
        ensures
            iter.wf(),
            iter.tokens@ == ts,
            p0 <= iter.pos,
            fn_args_at(ts, p0, b, Seq::empty()) == (
                Ok::<Seq<PatternView>, PErr>(patterns_view(args@)),
                iter.pos as int,
            ),
        decreases iter.tokens@.len() - iter.pos,
    {
        match iter.peek() {
            Some((Token::LowerName(_), _range)) => {},
            _ => {
                break ;
            },
        }

        let arg = extract::extract_pattern_name(&iter.next())?;
        let ghost before = args@;
        args.push(arg);
        proof {
            assert(patterns_view(args@) =~= patterns_view(before).push(
                crate::ast::views::pattern_view(arg),
            ));
        }

        base_indent.must_consume_to_indented(iter)?;
    }

    mtch::matches(&iter.next(), Token::Equals)?;

    base_indent.must_consume_to_indented(iter)?;

    let (expr, _) = parse_expression(iter, base_indent)?;

    if args.len() == 0 {
        Ok(Stmt::Binding { type_annotation, name, expr: Rc::new(expr) })
    } else {
        Ok(Stmt::Function { type_annotation, name, args, expr: Rc::new(expr) })
    }
}

} // verus!
