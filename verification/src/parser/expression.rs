//! Expressions: `if`, `case`, operands joined by binary operators, calls, lists, literals and
//! names.
use std::rc::Rc;
use vstd::prelude::*;

use crate::ast::{Expr, Pattern, QualifiedLowerName};
use crate::ast::views::{branches_view, exprs_view, ExprView, PatternView};
use crate::lexer::{SrcToken, Token, TokenIter, advanced};
use crate::text::{owned, str_eq};
use super::error::Error;
use super::extract::{self, unexpected};
use super::grammar::{
    binary_at, binary_loop, branches_at, call_args_at, case_at, case_with, call_with, contained_at,
    expr_indent_result, expr_result, expression_at, if_at, lemma_branches_view_push,
    lemma_exprs_view_push, list_at, list_items_at, list_with, operands_view, ops_view, pattern_at,
    pattern_result, perr, process_spec, reduce_spec, singular_at, var_or_call_at, Indent, PErr,
};
use super::indent::Indentation;
use super::mtch;
use super::no_stack_error;
use super::types::consumed;

verus! {

broadcast use vstd::string::group_string_axioms;

// Expressions
//
/// Parses an expression: an `if`, a `case`, or operands joined by binary operators.
pub fn parse_expression(iter: &mut TokenIter, base_indent: &Indentation) -> (r: Result<
    (Expr, Indentation),
    Error,
>)
    requires
        old(iter).wf(),
    ensures
        advanced(*old(iter), *final(iter)),
        no_stack_error(r),
        r is Ok ==> consumed(*old(iter), *final(iter)),
        (expr_indent_result(r), final(iter).pos as int) == expression_at(
            old(iter).tokens@,
            old(iter).pos as int,
            (base_indent.lines, base_indent.spaces),
        ),
    decreases old(iter).tokens@.len() - old(iter).pos, 6int,
{
    let (is_if, is_case) = match iter.peek() {
        Some((Token::If, _range)) => (true, false),
        Some((Token::Case, _range)) => (false, true),
        Some(_) => (false, false),
        None => {
            return Err(Error::UnexpectedEnd);
        },
    };
    if is_if {
        parse_if_expression(iter, base_indent)
    } else if is_case {
        parse_case_expression(iter, base_indent)
    } else {
        parse_binary_expression(iter, base_indent)
    }
}

/// The operator stack of the binary-expression parser: every operator above the bottom one
/// has a known precedence, and precedences strictly increase from the bottom to the top.
pub open spec fn stack_ordered(ops: Seq<String>) -> bool {
    &&& forall|i: int| 0 < i < ops.len() ==> precedence_of((#[trigger] ops[i])@) is Some
    &&& forall|i: int, j: int|
        0 <= i < j < ops.len() && precedence_of(ops[i]@) is Some ==> precedence_of(
            (#[trigger] ops[i])@,
        )->0 < precedence_of((#[trigger] ops[j])@)->0
}

// Binary Expressions
//
// Shunting yard approach based on:
//   - https://eli.thegreenplace.net/2009/03/20/a-recursive-descent-parser-with-an-infix-expression-evaluator
//   - http://www.engr.mun.ca/~theo/Misc/exp_parsing.htm
//
fn parse_binary_expression(iter: &mut TokenIter, base_indent: &Indentation) -> (r: Result<
    (Expr, Indentation),
    Error,
>)
    requires
        old(iter).wf(),
    ensures
        advanced(*old(iter), *final(iter)),
        no_stack_error(r),
        r is Ok ==> consumed(*old(iter), *final(iter)),
        (expr_indent_result(r), final(iter).pos as int) == binary_at(
            old(iter).tokens@,
            old(iter).pos as int,
            (base_indent.lines, base_indent.spaces),
        ),
    decreases old(iter).tokens@.len() - old(iter).pos, 5int,
{
    let ghost ts = iter.tokens@;
    let ghost b = (base_indent.lines, base_indent.spaces);
    let (expr, next_token_indent) = parse_var_or_call(iter, base_indent)?;

    // We have to keep parsing to look for more parts to this expression but if we find a change in
    // indentation that indicates the end of the scope for this expression then we just want to
    // return the expression we've found so far and allow the level up to deal with the change in
    // scope.
    if !next_token_indent.indented_from(base_indent) {
        return Ok((expr, next_token_indent));
    }

    let ghost q0 = iter.pos as int;
    let ghost e0 = crate::ast::views::expr_view(expr);
    let ghost nti0 = (next_token_indent.lines, next_token_indent.spaces);
    let mut operator_stack: Vec<String> = Vec::new();
    let mut operand_stack: Vec<Expr> = Vec::new();
    operand_stack.push(expr);
    proof {
        assert(operands_view(operand_stack@) =~= seq![e0]);
        assert(ops_view(operator_stack@) =~= Seq::<Seq<char>>::empty());
    }

    let mut next_token_indent = next_token_indent;
    loop
        invariant_except_break
            binary_loop(ts, q0, b, Seq::empty(), seq![e0], nti0) == binary_loop(
                ts,
                iter.pos as int,
                b,
                ops_view(operator_stack@),
                operands_view(operand_stack@),
                (next_token_indent.lines, next_token_indent.spaces),
            ),
        invariant
            iter.wf(),
            iter.tokens@ == ts,
            ts == old(iter).tokens@,
            b == (base_indent.lines, base_indent.spaces),
            old(iter).pos < iter.pos,
            operand_stack@.len() == operator_stack@.len() + 1,
            stack_ordered(operator_stack@),
            binary_at(ts, old(iter).pos as int, b) == binary_loop(
                ts,
                q0,
                b,
                Seq::empty(),
                seq![e0],
                nti0,
            ),
        ensures
            iter.wf(),
            iter.tokens@ == ts,
            old(iter).pos < iter.pos,
            operand_stack@.len() == operator_stack@.len() + 1,
            binary_at(ts, old(iter).pos as int, b) == (
                Ok::<(ExprView, Indent), PErr>(
                    (
                        reduce_spec(ops_view(operator_stack@), operands_view(operand_stack@)),
                        (next_token_indent.lines, next_token_indent.spaces),
                    ),
                ),
                iter.pos as int,
            ),
        decreases iter.tokens@.len() - iter.pos,
    {
        match iter.peek() {
            Some((Token::Operator(_), _range)) => {},
            _ => {
                break ;
            },
        }

        let ghost q = iter.pos as int;
        let operator = extract::extract_operator(&iter.next())?;
        base_indent.must_consume_to_indented(iter)?;

        process_stacks(&operator, &mut operator_stack, &mut operand_stack)?;

        let (right_hand_expr, indent) = parse_var_or_call(iter, base_indent)?;
        let ghost before = operand_stack@;
        operand_stack.push(right_hand_expr);
        next_token_indent = indent;
        proof {
            assert(operands_view(operand_stack@) =~= operands_view(before).push(
                crate::ast::views::expr_view(right_hand_expr),
            ));
        }

        // Similar to above, we consume the expression on the right hand side of the operator and
        // then any whitespace afterwards (to reach the next operator if there is one) but if we
        // find that we're no longer in the indentation scope of the expression then we assume
        // we've reached the end of it and continue with processing what we've got so far
        if !next_token_indent.indented_from(base_indent) {
            break ;
        }
    }

    let expr = reduce_stacks(operator_stack, operand_stack);
    Ok((expr, next_token_indent))
}

/// Combines what is left on the stacks, the top operator first, into one expression.
fn reduce_stacks(operator_stack: Vec<String>, operand_stack: Vec<Expr>) -> (r: Expr)
    requires
        operand_stack@.len() == operator_stack@.len() + 1,
    ensures
        crate::ast::views::expr_view(r) == reduce_spec(
            ops_view(operator_stack@),
            operands_view(operand_stack@),
        ),
{
    let ghost target = reduce_spec(ops_view(operator_stack@), operands_view(operand_stack@));
    let mut operator_stack = operator_stack;
    let mut operand_stack = operand_stack;
    while operator_stack.len() > 0
        invariant
            operand_stack@.len() == operator_stack@.len() + 1,
            target == reduce_spec(ops_view(operator_stack@), operands_view(operand_stack@)),
        decreases operator_stack@.len(),
    {
        let ghost ops0 = operator_stack@;
        let ghost es0 = operand_stack@;
        let operator = operator_stack.pop().unwrap();
        let right_hand_expr = operand_stack.pop().unwrap();
        let left_hand_expr = operand_stack.pop().unwrap();

        operand_stack.push(
            Expr::BinOp {
                operator,
                left: Rc::new(left_hand_expr),
                right: Rc::new(right_hand_expr),
            },
        );
        proof {
            let n = es0.len();
            assert(ops_view(operator_stack@) =~= ops_view(ops0).drop_last());
            assert(operands_view(operand_stack@) =~= operands_view(es0).subrange(0, n - 2).push(
                ExprView::BinOp {
                    operator: ops_view(ops0).last(),
                    left: Box::new(operands_view(es0)[n - 2]),
                    right: Box::new(operands_view(es0)[n - 1]),
                },
            ));
        }
    }
    operand_stack.pop().unwrap()
}

/// Places `operator` on the stacks: while its precedence is not greater than that of the
/// operator on top, that operator is applied to the two operands on top; then `operator` is
/// pushed. Fails with `UnknownOperator` when a precedence it needs is unknown, and with
/// `NoOperand` when fewer than two operands are left to apply an operator to; on stacks that
/// hold one operand more than operators, only the first can happen.
pub fn process_stacks(
    operator: &String,
    operator_stack: &mut Vec<String>,
    operand_stack: &mut Vec<Expr>,
) -> (r: Result<(), Error>)
    ensures
        old(operand_stack)@.len() == old(operator_stack)@.len() + 1 ==> {
            &&& r matches Err(e) ==> e is UnknownOperator
            &&& r is Ok ==> final(operand_stack)@.len() == final(operator_stack)@.len()
            &&& r is Ok ==> final(operator_stack)@.len() <= old(operator_stack)@.len() + 1
        },
        old(operand_stack)@.len() == old(operator_stack)@.len() + 1 && stack_ordered(
            old(operator_stack)@,
        ) && r is Ok ==> stack_ordered(final(operator_stack)@),
        r is Ok ==> final(operator_stack)@.len() > 0 && final(operator_stack)@.last()@ == operator@,
        match process_spec(
            operator@,
            ops_view(old(operator_stack)@),
            operands_view(old(operand_stack)@),
        ) {
            Ok((ops, operands)) => r is Ok && ops_view(final(operator_stack)@) == ops
                && operands_view(final(operand_stack)@) == operands,
            Err(e) => r matches Err(x) && perr(x) == e,
        },
    decreases old(operator_stack)@.len(),
{
    let ghost ops0 = operator_stack@;
    let ghost es0 = operand_stack@;
    if has_greater_precedence(operator, operator_stack)? {
        operator_stack.push(operator.clone());
        proof {
            let ops = operator_stack@;
            let n = ops.len() - 1;
            if stack_ordered(ops0) {
                if n > 0 {
                    assert(precedence_of(ops[n]@) is Some);
                }
                assert forall|i: int, j: int|
                    0 <= i < j < ops.len() && precedence_of(ops[i]@) is Some implies precedence_of(
                    (#[trigger] ops[i])@,
                )->0 < precedence_of((#[trigger] ops[j])@)->0 by {
                    if j == n && i < n - 1 {
                        assert(precedence_of(ops[n - 1]@) is Some);
                    }
                }
            }
            assert(ops_view(operator_stack@) =~= ops_view(ops0).push(operator@));
        }
    } else {
        let right_hand_expr = match operand_stack.pop() {
            Some(e) => e,
            None => {
                return Err(Error::NoOperand);
            },
        };
        let left_hand_expr = match operand_stack.pop() {
            Some(e) => e,
            None => {
                return Err(Error::NoOperand);
            },
        };
        let stored_operator = match operator_stack.pop() {
            Some(o) => o,
            None => {
                return Err(Error::NoOperator);
            },
        };

        operand_stack.push(
            Expr::BinOp {
                operator: stored_operator,
                left: Rc::new(left_hand_expr),
                right: Rc::new(right_hand_expr),
            },
        );
        proof {
            let n = es0.len();
            assert(ops_view(operator_stack@) =~= ops_view(ops0).drop_last());
            assert(operands_view(operand_stack@) =~= operands_view(es0).subrange(0, n - 2).push(
                ExprView::BinOp {
                    operator: ops_view(ops0).last(),
                    left: Box::new(operands_view(es0)[n - 2]),
                    right: Box::new(operands_view(es0)[n - 1]),
                },
            ));
        }

        process_stacks(operator, operator_stack, operand_stack)?;
    };

    Ok(())
}

/// Whether `operator_a` binds tighter than the operator on top of the stack; always true on
/// an empty stack, where no precedence is looked up.
pub fn has_greater_precedence(operator_a: &String, operator_stack: &Vec<String>) -> (r: Result<
    bool,
    Error,
>)
    ensures
        operator_stack@.len() == 0 ==> r == Ok::<bool, Error>(true),
        operator_stack@.len() > 0 ==> match (
            precedence_of(operator_a@),
            precedence_of(operator_stack@.last()@),
        ) {
            (Some(a), Some(b)) => r == Ok::<bool, Error>(a > b),
            (None, _) => r matches Err(Error::UnknownOperator(o)) && o@ == operator_a@,
            (Some(_), None) => r matches Err(Error::UnknownOperator(o)) && o@
                == operator_stack@.last()@,
        },
{
    if operator_stack.len() == 0 {
        Ok(true)
    } else {
        let precedence_a = precedence(operator_a)?;
        let precedence_b = precedence(&operator_stack[operator_stack.len() - 1])?;

        Ok(precedence_a > precedence_b)
    }
}

/// The precedence of a binary operator, or `None` when it is not one the parser knows.
pub open spec fn precedence_of(op: Seq<char>) -> Option<nat> {
    if op == "*"@ || op == "/"@ {
        Some(7)
    } else if op == "+"@ || op == "-"@ {
        Some(6)
    } else if op == "++"@ || op == "::"@ {
        Some(5)
    } else if op == "=="@ || op == "/="@ || op == ">"@ || op == "<"@ || op == "<="@ || op
        == ">="@ {
        Some(4)
    } else {
        None
    }
}

// Based on:
//
//   - http://faq.elm-community.org/operators.html
//   - https://github.com/elm-lang/core/blob/master/src/Basics.elm#L72-L90
//
/// The precedence of a binary operator; an operator the parser does not know is an error.
pub fn precedence(operator: &String) -> (r: Result<usize, Error>)
    ensures
        match precedence_of(operator@) {
            Some(p) => r == Ok::<usize, Error>(p as usize),
            None => r matches Err(Error::UnknownOperator(o)) && o@ == operator@,
        },
{
    let op = operator.as_str();
    if str_eq(op, "*") || str_eq(op, "/") {
        Ok(7)
    } else if str_eq(op, "+") || str_eq(op, "-") {
        Ok(6)
    } else if str_eq(op, "++") || str_eq(op, "::") {
        Ok(5)
    } else if str_eq(op, "==") || str_eq(op, "/=") || str_eq(op, ">") || str_eq(op, "<")
        || str_eq(op, "<=") || str_eq(op, ">=") {
        Ok(4)
    } else {
        Err(Error::UnknownOperator(operator.clone()))
    }
}

/* Parse a single variable or expression that might appear as an argument in a call site. ie.
 * nothing with args unless it is wrapped in parens or anything containing syntax.
 */
fn parse_singular_expression(iter: &mut TokenIter, base_indent: &Indentation) -> (r: Result<
    (Expr, Indentation),
    Error,
>)
    requires
        old(iter).wf(),
    ensures
        advanced(*old(iter), *final(iter)),
        no_stack_error(r),
        r is Ok ==> consumed(*old(iter), *final(iter)),
        (expr_indent_result(r), final(iter).pos as int) == singular_at(
            old(iter).tokens@,
            old(iter).pos as int,
            (base_indent.lines, base_indent.spaces),
        ),
    decreases old(iter).tokens@.len() - old(iter).pos, 3int,
{
    let (is_paren, is_bracket) = match iter.peek() {
        Some((Token::OpenParen, _range)) => (true, false),
        Some((Token::OpenBracket, _range)) => (false, true),
        None => {
            return Err(Error::UnexpectedEnd);
        },
        _ => (false, false),
    };
    let expr = if is_paren {
        mtch::matches(&iter.next(), Token::OpenParen)?;
        let (expr, _) = parse_expression(iter, base_indent)?;
        base_indent.must_consume_to_indented(iter)?;

        mtch::matches(&iter.next(), Token::CloseParen)?;
        expr
    } else if is_bracket {
        parse_list_literal(iter, base_indent)?
    } else {
        parse_contained_expression(iter)?
    };

    let next_token_indent = base_indent.consume(iter);
    Ok((expr, next_token_indent))
}

/// Parses a literal or a name.
fn parse_contained_expression(iter: &mut TokenIter) -> (r: Result<Expr, Error>)
    requires
        old(iter).wf(),
    ensures
        advanced(*old(iter), *final(iter)),
        no_stack_error(r),
        (expr_result(r), final(iter).pos as int) == contained_at(
            old(iter).tokens@,
            old(iter).pos as int,
        ),
{
    let result = match iter.peek() {
        Some((Token::LiteralInteger(value), _range)) => Expr::Integer(*value),
        Some((Token::LiteralFloat(float), _range)) => Expr::Float(
            crate::ast::FloatLiteral(float.0.clone()),
        ),
        Some((Token::LiteralString(string), _range)) => Expr::String(string.clone()),
        Some((Token::UpperName(name), range)) => {
            if str_eq(name.as_str(), "True") {
                Expr::Bool(true)
            } else if str_eq(name.as_str(), "False") {
                Expr::Bool(false)
            } else {
                return Err(
                    unexpected(&Token::UpperName(name.clone()), range, owned("Expression token")),
                );
            }
        },
        Some((Token::LowerName(name), _range)) => Expr::VarName(
            QualifiedLowerName::from(name.clone()),
        ),
        Some((Token::LowerPath(name), _range)) => Expr::VarName(
            QualifiedLowerName::from(name.clone()),
        ),
        Some((token, range)) => {
            return Err(unexpected(token, range, owned("Expression token")));
        },
        None => {
            return Err(Error::UnexpectedEnd);
        },
    };
    iter.next();
    Ok(result)
}

/* Parse the contents between [ and ] */
fn parse_list_literal(iter: &mut TokenIter, base_indent: &Indentation) -> (r: Result<Expr, Error>)
    requires
        old(iter).wf(),
    ensures
        advanced(*old(iter), *final(iter)),
        no_stack_error(r),
        r is Ok ==> consumed(*old(iter), *final(iter)),
        (expr_result(r), final(iter).pos as int) == list_at(
            old(iter).tokens@,
            old(iter).pos as int,
            (base_indent.lines, base_indent.spaces),
        ),
    decreases old(iter).tokens@.len() - old(iter).pos, 2int,
{
    let ghost ts = iter.tokens@;
    let ghost b = (base_indent.lines, base_indent.spaces);
    mtch::matches(&iter.next(), Token::OpenBracket)?;
    let ghost q0 = iter.pos as int;

    let mut expressions: Vec<Rc<Expr>> = Vec::new();

    loop
        invariant_except_break
            list_items_at(ts, q0, b, Seq::empty()) == list_items_at(
                ts,
                iter.pos as int,
                b,
                exprs_view(expressions@),
            ),
        invariant
            iter.wf(),
            iter.tokens@ == ts,
            ts == old(iter).tokens@,
            b == (base_indent.lines, base_indent.spaces),
            old(iter).pos < q0 <= iter.pos,
            list_at(ts, old(iter).pos as int, b) == list_with(ts, list_items_at(ts, q0, b, Seq::empty())),
        ensures
            iter.wf(),
            iter.tokens@ == ts,
            old(iter).pos < iter.pos,
            list_at(ts, old(iter).pos as int, b) == list_with(ts, list_items_at(ts, q0, b, Seq::empty())),
            list_items_at(ts, q0, b, Seq::empty()) == (
                Ok::<Seq<ExprView>, PErr>(exprs_view(expressions@)),
                iter.pos as int,
            ),
        decreases iter.tokens@.len() - iter.pos,
    {
        base_indent.must_consume_to_indented(iter)?;

        if let Some((Token::CloseBracket, _range)) = iter.peek() {
            break ;
        }
        let (expr, _) = parse_expression(iter, base_indent)?;
        let ghost before = expressions@;
        expressions.push(Rc::new(expr));
        proof {
            lemma_exprs_view_push(before, Rc::new(expr));
        }

        base_indent.must_consume_to_indented(iter)?;

        let next = match iter.peek() {
            Some((Token::CloseBracket, _range)) => 0u8,
            Some((Token::Comma, _range)) => 1u8,
            Some((token, range)) => {
                return Err(unexpected(token, range, owned(", or ]")));
            },
            None => {
                return Err(Error::UnexpectedEnd);
            },
        };
        if next == 0 {
            break ;
        }
        mtch::matches(&iter.next(), Token::Comma)?;
    }

    mtch::matches(&iter.next(), Token::CloseBracket)?;

    Ok(Expr::List(expressions))
}

/// Tokens at which a call's argument list ends.
pub open spec fn ends_call(t: Option<SrcToken>) -> bool {
    match t {
        Some((tok, _)) => tok is Operator || tok is CloseParen || tok is CloseBracket
            || tok is Comma || tok is Then || tok is Else || tok is Of || tok is RightArrow,
        None => true,
    }
}

/* A single value or a call site with some kind of single token or expression that we assume
 * resolves to a function if there are space separated arguments after it.
 */
fn parse_var_or_call(iter: &mut TokenIter, base_indent: &Indentation) -> (r: Result<
    (Expr, Indentation),
    Error,
>)
    requires
        old(iter).wf(),
    ensures
        advanced(*old(iter), *final(iter)),
        no_stack_error(r),
        r is Ok ==> consumed(*old(iter), *final(iter)),
        (expr_indent_result(r), final(iter).pos as int) == var_or_call_at(
            old(iter).tokens@,
            old(iter).pos as int,
            (base_indent.lines, base_indent.spaces),
        ),
    decreases old(iter).tokens@.len() - old(iter).pos, 4int,
{
    let ghost ts = iter.tokens@;
    let ghost b = (base_indent.lines, base_indent.spaces);
    let (var_or_func_expr, next_token_indent) = parse_singular_expression(iter, base_indent)?;

    // If the next token is within our base indent then we assume we have more of the expression to
    // parse but if it is at a shallower indent then we assume it is a separate entity
    if !next_token_indent.indented_from(base_indent) {
        return Ok((var_or_func_expr, next_token_indent));
    }

    let ghost q0 = iter.pos as int;
    let ghost nti0 = (next_token_indent.lines, next_token_indent.spaces);
    let ghost fv = crate::ast::views::expr_view(var_or_func_expr);
    let mut args: Vec<Rc<Expr>> = Vec::new();
    let mut next_token_indent = next_token_indent;

    loop
        invariant_except_break
            call_args_at(ts, q0, b, Seq::empty(), nti0) == call_args_at(
                ts,
                iter.pos as int,
                b,
                exprs_view(args@),
                (next_token_indent.lines, next_token_indent.spaces),
            ),
        invariant
            iter.wf(),
            iter.tokens@ == ts,
            ts == old(iter).tokens@,
            b == (base_indent.lines, base_indent.spaces),
            old(iter).pos < q0 <= iter.pos,
            var_or_call_at(ts, old(iter).pos as int, b) == call_with(
                fv,
                call_args_at(ts, q0, b, Seq::empty(), nti0),
            ),
        ensures
            iter.wf(),
            iter.tokens@ == ts,
            old(iter).pos < iter.pos,
            var_or_call_at(ts, old(iter).pos as int, b) == call_with(
                fv,
                call_args_at(ts, q0, b, Seq::empty(), nti0),
            ),
            call_args_at(ts, q0, b, Seq::empty(), nti0) == (
                Ok::<(Seq<ExprView>, Indent), PErr>(
                    (exprs_view(args@), (next_token_indent.lines, next_token_indent.spaces)),
                ),
                iter.pos as int,
            ),
        decreases iter.tokens@.len() - iter.pos,
    {
        let at_end = match iter.peek() {
            Some((Token::Operator(_), _)) | Some((Token::CloseParen, _)) | Some(
                (Token::CloseBracket, _),
            ) | Some((Token::Comma, _)) | Some((Token::Then, _)) | Some((Token::Else, _)) | Some(
                (Token::Of, _),
            ) | Some((Token::RightArrow, _)) | None => true,
            _ => false,
        };
        if at_end {
            // On certain tokens we know we've finish this 'var or call' and so we can exit and
            // let the parse_expression code handle it
            break ;
        }
        let (argument_expr, indent) = parse_singular_expression(iter, base_indent)?;
        let ghost before = args@;
        args.push(Rc::new(argument_expr));
        proof {
            lemma_exprs_view_push(before, Rc::new(argument_expr));
        }
        next_token_indent = indent;

        // Similar to above, we consume the expression on the right hand side of the operator and
        // then any whitespace afterwards (to reach the next operator if there is one) but if we
        // find that we're no longer in the indentation scope of the expression then we assume
        // we've reached the end of it and continue with processing what we've got so far
        if !next_token_indent.indented_from(base_indent) {
            break ;
        }
    }

    proof {
        lemma_exprs_view_push(args@, Rc::new(var_or_func_expr));
    }
    if args.len() == 0 {
        Ok((var_or_func_expr, next_token_indent))
    } else {
        Ok((Expr::Call { function: Rc::new(var_or_func_expr), args }, next_token_indent))
    }
}

fn parse_if_expression(iter: &mut TokenIter, base_indent: &Indentation) -> (r: Result<
    (Expr, Indentation),
    Error,
>)
    requires
        old(iter).wf(),
    ensures
        advanced(*old(iter), *final(iter)),
        no_stack_error(r),
        r is Ok ==> consumed(*old(iter), *final(iter)),
        (expr_indent_result(r), final(iter).pos as int) == if_at(
            old(iter).tokens@,
            old(iter).pos as int,
            (base_indent.lines, base_indent.spaces),
        ),
    decreases old(iter).tokens@.len() - old(iter).pos, 5int,
{
    mtch::matches(&iter.next(), Token::If)?;
    base_indent.must_consume_to_indented(iter)?;

    let (condition, _) = parse_expression(iter, base_indent)?;
    base_indent.must_consume_to_indented(iter)?;

    mtch::matches(&iter.next(), Token::Then)?;
    base_indent.must_consume_to_indented(iter)?;

    let (then_branch, _) = parse_expression(iter, base_indent)?;
    base_indent.must_consume_to_indented(iter)?;

    mtch::matches(&iter.next(), Token::Else)?;
    base_indent.must_consume_to_indented(iter)?;

    let (else_branch, next_token_indent) = parse_expression(iter, base_indent)?;

    Ok(
        (
            Expr::If {
                condition: Rc::new(condition),
                then_branch: Rc::new(then_branch),
                else_branch: Rc::new(else_branch),
            },
            next_token_indent,
        ),
    )
}

fn parse_case_expression(iter: &mut TokenIter, base_indent: &Indentation) -> (r: Result<
    (Expr, Indentation),
    Error,
>)
    requires
        old(iter).wf(),
    ensures
        advanced(*old(iter), *final(iter)),
        no_stack_error(r),
        r is Ok ==> consumed(*old(iter), *final(iter)),
        (expr_indent_result(r), final(iter).pos as int) == case_at(
            old(iter).tokens@,
            old(iter).pos as int,
            (base_indent.lines, base_indent.spaces),
        ),
    decreases old(iter).tokens@.len() - old(iter).pos, 5int,
{
    let ghost ts = iter.tokens@;
    let ghost b = (base_indent.lines, base_indent.spaces);
    mtch::matches(&iter.next(), Token::Case)?;
    base_indent.must_consume_to_indented(iter)?;

    let (expr, _) = parse_expression(iter, base_indent)?;
    base_indent.must_consume_to_indented(iter)?;

    mtch::matches(&iter.next(), Token::Of)?;
    let branch_indent = base_indent.must_consume_to_indented(iter)?;
    let ghost q0 = iter.pos as int;
    let ghost bi = (branch_indent.lines, branch_indent.spaces);
    let ghost ev = crate::ast::views::expr_view(expr);

    let mut branches: Vec<(Pattern, Expr)> = Vec::new();
    let mut next_token_indent = branch_indent.copy();

    loop
        invariant_except_break
            branches_at(ts, q0, bi, Seq::empty(), bi) == branches_at(
                ts,
                iter.pos as int,
                bi,
                branches_view(branches@),
                (next_token_indent.lines, next_token_indent.spaces),
            ),
        invariant
            iter.wf(),
            iter.tokens@ == ts,
            ts == old(iter).tokens@,
            b == (base_indent.lines, base_indent.spaces),
            old(iter).pos < q0 <= iter.pos,
            bi == (branch_indent.lines, branch_indent.spaces),
            case_at(ts, old(iter).pos as int, b) == case_with(
                ev,
                branches_at(ts, q0, bi, Seq::empty(), bi),
            ),
        ensures
            iter.wf(),
            iter.tokens@ == ts,
            old(iter).pos < iter.pos,
            case_at(ts, old(iter).pos as int, b) == case_with(
                ev,
                branches_at(ts, q0, bi, Seq::empty(), bi),
            ),
            branches_at(ts, q0, bi, Seq::empty(), bi) == (
                Ok::<(Seq<(PatternView, ExprView)>, Indent), PErr>(
                    (branches_view(branches@), (next_token_indent.lines, next_token_indent.spaces)),
                ),
                iter.pos as int,
            ),
        decreases iter.tokens@.len() - iter.pos,
    {
        if iter.peek().is_none() {
            // If there are no more tokens then we've finished parsing the possible cases
            next_token_indent = branch_indent.copy();
            break ;
        }
        let pattern = parse_pattern(iter)?;
        branch_indent.must_consume_to_indented(iter)?;

        mtch::matches(&iter.next(), Token::RightArrow)?;
        branch_indent.must_consume_to_indented(iter)?;

        let (expr, indent) = parse_expression(iter, &branch_indent)?;
        let ghost before = branches@;
        branches.push((pattern, expr));
        proof {
            lemma_branches_view_push(before, (pattern, expr));
        }
        next_token_indent = indent;

        if !next_token_indent.matches(&branch_indent) {
            break ;
        }
    }

    Ok((Expr::Case { expr: Rc::new(expr), branches }, next_token_indent))
}

/// Parses a case pattern: `True` or `False`.
fn parse_pattern(iter: &mut TokenIter) -> (r: Result<Pattern, Error>)
    requires
        old(iter).wf(),
    ensures
        advanced(*old(iter), *final(iter)),
        no_stack_error(r),
        (pattern_result(r), final(iter).pos as int) == pattern_at(
            old(iter).tokens@,
            old(iter).pos as int,
        ),
{
    let result = match iter.peek() {
        Some((Token::UpperName(name), range)) => {
            if str_eq(name.as_str(), "True") {
                Pattern::Bool(true)
            } else if str_eq(name.as_str(), "False") {
                Pattern::Bool(false)
            } else {
                return Err(
                    unexpected(&Token::UpperName(name.clone()), range, owned("Expression token")),
                );
            }
        },
        Some((token, range)) => {
            return Err(unexpected(token, range, owned("Expression token")));
        },
        None => {
            return Err(Error::UnexpectedEnd);
        },
    };
    iter.next();
    Ok(result)
}

} // verus!
