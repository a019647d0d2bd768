//! The evaluator: what a module's `main` gives when it is called with the program arguments.
use std::rc::Rc;
use vstd::prelude::*;

use self::values::{
    func_view, lemma_values_view_append, lemma_values_view_index, lemma_values_view_len,
    lemma_values_view_push, values_view, value_view, copy_values, Func, FuncView, Value,
    ValueView,
};
use crate::ast::{share, Expr, FloatLiteral, Module, Pattern, QualifiedLowerName, Stmt};
use crate::bindings::{Binding, BindingView};
use crate::builtins::{self, builtin_call, outcome_view};
use crate::env::{
    self, add_local_scope, env_lookup, first_index, found_view, full_name, get_built_in,
    kernel_function, lemma_first_index, Bindings, EnvView, Environment, FoundBinding,
    LookupView, NameView, Scope,
};
use crate::lexer::{debug_str, debug_string};
use crate::project;
use crate::text::{i64_text, int_text, owned, push_str, str_eq};
use vstd::wrapping::i32_specs;

pub mod values;

verus! {

broadcast use vstd::string::group_string_axioms;

#[derive(Debug)]
pub enum Error {
    UnsupportedOperation,
    UnknownFunction,
    UnknownBinding(String),
    UnexpectedBinding(String),
    FunctionError(builtins::Error),
    WrongArity,
    TooManyArguments,
    ScopeError(env::Error),
    UnsupportedArgumentPattern(String),
    NoMatchingCase,
    /// Evaluation nested deeper than `MAX_DEPTH`.
    RecursionLimit,
}

/// An evaluation error as a mathematical value.
pub enum ErrorView {
    UnsupportedOperation,
    UnknownFunction,
    UnknownBinding(Seq<char>),
    UnexpectedBinding(Seq<char>),
    FunctionError(builtins::Error),
    WrongArity,
    TooManyArguments,
    ScopeError(env::Error),
    UnsupportedArgumentPattern(Seq<char>),
    NoMatchingCase,
    RecursionLimit,
}

pub open spec fn error_view(e: Error) -> ErrorView {
    match e {
        Error::UnsupportedOperation => ErrorView::UnsupportedOperation,
        Error::UnknownFunction => ErrorView::UnknownFunction,
        Error::UnknownBinding(s) => ErrorView::UnknownBinding(s@),
        Error::UnexpectedBinding(s) => ErrorView::UnexpectedBinding(s@),
        Error::FunctionError(f) => ErrorView::FunctionError(f),
        Error::WrongArity => ErrorView::WrongArity,
        Error::TooManyArguments => ErrorView::TooManyArguments,
        Error::ScopeError(e) => ErrorView::ScopeError(e),
        Error::UnsupportedArgumentPattern(s) => ErrorView::UnsupportedArgumentPattern(s@),
        Error::NoMatchingCase => ErrorView::NoMatchingCase,
        Error::RecursionLimit => ErrorView::RecursionLimit,
    }
}

/// The outcome of an evaluation, as mathematical values.
pub open spec fn result_view(r: Result<Value, Error>) -> Result<ValueView, ErrorView> {
    match r {
        Ok(v) => Ok(v@),
        Err(e) => Err(error_view(e)),
    }
}

/// The outcome of evaluating a list of expressions, as mathematical values.
pub open spec fn results_view(r: Result<Vec<Value>, Error>) -> Result<Seq<ValueView>, ErrorView> {
    match r {
        Ok(v) => Ok(values_view(v@)),
        Err(e) => Err(error_view(e)),
    }
}

/// How deeply evaluations may nest: as deeply as the machine allows.
pub const MAX_DEPTH: usize = usize::MAX;

// ---------------------------------------------------------------------------------------------
// Float arithmetic
// ---------------------------------------------------------------------------------------------
/// An arithmetic operation on floats.
#[derive(Debug, Clone, Copy, PartialEq, Eq, Structural)]
pub enum FloatOperation {
    Add,
    Sub,
    Mul,
}

/// A comparison of floats.
#[derive(Debug, Clone, Copy, PartialEq, Eq, Structural)]
pub enum FloatComparison {
    Gt,
    Ge,
    Lt,
    Le,
}

/// Arithmetic on float literals, supplied by the caller of the evaluator. Nothing is assumed
/// of its results: an evaluation is stated in terms of the calls it made to it, each with its
/// arguments and what it returned, in the order they were made.
pub trait FloatArithmetic {
    fn operate(&self, operation: FloatOperation, left: &FloatLiteral, right: &FloatLiteral) -> FloatLiteral;

    fn compare(&self, comparison: FloatComparison, left: &FloatLiteral, right: &FloatLiteral) -> bool;
}

// ---------------------------------------------------------------------------------------------
// Semantics
// ---------------------------------------------------------------------------------------------
/// A call made to the float arithmetic: what was asked, of which two literals, and what it
/// returned.
pub enum FloatCall {
    Operate { operation: FloatOperation, left: Seq<char>, right: Seq<char>, result: Seq<char> },
    Compare { comparison: FloatComparison, left: Seq<char>, right: Seq<char>, result: bool },
}

/// The calls made to the float arithmetic, by the position at which they were made.
pub type Answers = spec_fn(nat) -> FloatCall;

/// The float operation that a binary operator asks for.
pub open spec fn operation_of(op: Seq<char>) -> Option<FloatOperation> {
    if op == "+"@ {
        Some(FloatOperation::Add)
    } else if op == "-"@ {
        Some(FloatOperation::Sub)
    } else if op == "*"@ {
        Some(FloatOperation::Mul)
    } else {
        None
    }
}

/// The float comparison that a binary operator asks for.
pub open spec fn comparison_of(op: Seq<char>) -> Option<FloatComparison> {
    if op == ">"@ {
        Some(FloatComparison::Gt)
    } else if op == ">="@ {
        Some(FloatComparison::Ge)
    } else if op == "<"@ {
        Some(FloatComparison::Lt)
    } else if op == "<="@ {
        Some(FloatComparison::Le)
    } else {
        None
    }
}

/// What a binary operator gives on the float literals `l` and `r`, where `call` is the call to
/// the float arithmetic at position `at`. An arithmetic operator gives the result of `call` when
/// `call` asked that operation of `l` and `r`, in that order; a comparison gives the answer of
/// `call` when `call` asked that comparison of `l` and `r`. Either uses that call. Another
/// operator fails, and uses no call; so does a call that asked anything else, which no run
/// of the evaluator makes there.
pub open spec fn float_value(op: Seq<char>, l: Seq<char>, r: Seq<char>, call: FloatCall, at: nat) -> Outcome {
    match operation_of(op) {
        Some(o) => match call {
            FloatCall::Operate { operation, left, right, result } => if operation == o && left == l
                && right == r {
                (Ok(ValueView::Float(result)), at + 1)
            } else {
                (Err(ErrorView::UnsupportedOperation), at)
            },
            _ => (Err(ErrorView::UnsupportedOperation), at),
        },
        None => match comparison_of(op) {
            Some(c) => match call {
                FloatCall::Compare { comparison, left, right, result } => if comparison == c
                    && left == l && right == r {
                    (Ok(ValueView::Bool(result)), at + 1)
                } else {
                    (Err(ErrorView::UnsupportedOperation), at)
                },
                _ => (Err(ErrorView::UnsupportedOperation), at),
            },
            None => (Err(ErrorView::UnsupportedOperation), at),
        },
    }
}

/// `answers` gives the answers of `used`, from position `at` on.
pub open spec fn agrees(answers: Answers, used: Seq<FloatCall>, at: nat) -> bool {
    forall|k: int| 0 <= k < used.len() ==> answers((at + k) as nat) == #[trigger] used[k]
}

/// The outcome of an evaluation that starts at a position of the answers: its result, and
/// the position of the next answer it did not use.
pub type Outcome = (Result<ValueView, ErrorView>, nat);

/// The outcome of evaluating a list of expressions.
pub type ListOutcome = (Result<Seq<ValueView>, ErrorView>, nat);

/// Answers `a` and then `b` agree with the answers from `at` on: each part in its place.
pub proof fn lemma_agrees_concat(answers: Answers, a: Seq<FloatCall>, b: Seq<FloatCall>, at: nat)
    requires
        agrees(answers, a + b, at),
    ensures
        agrees(answers, a, at),
        agrees(answers, b, at + a.len()),
{
    assert forall|k: int| 0 <= k < a.len() implies answers((at + k) as nat) == #[trigger] a[k] by {
        assert((a + b)[k] == a[k]);
    }
    assert forall|k: int| 0 <= k < b.len() implies answers(((at + a.len()) + k) as nat)
        == #[trigger] b[k] by {
        assert((a + b)[a.len() + k] == b[k]);
    }
}

/// What a binary operator gives on two values; on two floats it uses the call at `at`.
pub open spec fn binary_value(
    op: Seq<char>,
    left: ValueView,
    right: ValueView,
    answers: Answers,
    at: nat,
) -> Outcome {
    match (left, right) {
        (ValueView::Integer(l), ValueView::Integer(r)) => if op == "+"@ {
            (Ok(ValueView::Integer(i32_specs::wrapping_add(l, r))), at)
        } else if op == "-"@ {
            (Ok(ValueView::Integer(i32_specs::wrapping_sub(l, r))), at)
        } else if op == "*"@ {
            (Ok(ValueView::Integer(i32_specs::wrapping_mul(l, r))), at)
        } else if op == ">"@ {
            (Ok(ValueView::Bool(l > r)), at)
        } else if op == ">="@ {
            (Ok(ValueView::Bool(l >= r)), at)
        } else if op == "<"@ {
            (Ok(ValueView::Bool(l < r)), at)
        } else if op == "<="@ {
            (Ok(ValueView::Bool(l <= r)), at)
        } else {
            (Err(ErrorView::UnsupportedOperation), at)
        },
        (ValueView::Float(l), ValueView::Float(r)) => float_value(op, l, r, answers(at), at),
        (ValueView::String(l), ValueView::String(r)) => if op == "++"@ {
            (Ok(ValueView::String(l + r)), at)
        } else {
            (Err(ErrorView::UnsupportedOperation), at)
        },
        _ => (Err(ErrorView::UnsupportedOperation), at),
    }
}

/// Reveals the texts of the binary operators.
proof fn lemma_operator_texts()
    ensures
        "+"@.len() == 1 && "+"@[0] == '+',
        "-"@.len() == 1 && "-"@[0] == '-',
        "*"@.len() == 1 && "*"@[0] == '*',
        ">"@.len() == 1 && ">"@[0] == '>',
        ">="@.len() == 2 && ">="@[0] == '>' && ">="@[1] == '=',
        "<"@.len() == 1 && "<"@[0] == '<',
        "<="@.len() == 2 && "<="@[0] == '<' && "<="@[1] == '=',
        "++"@.len() == 2 && "++"@[0] == '+' && "++"@[1] == '+',
{
    reveal_strlit("+");
    reveal_strlit("-");
    reveal_strlit("*");
    reveal_strlit(">");
    reveal_strlit(">=");
    reveal_strlit("<");
    reveal_strlit("<=");
    reveal_strlit("++");
}

/// Comparisons of integers compare them as numbers: `>`, `>=`, `<` and `<=` give whether the
/// left one is greater than, at least, less than or at most the right one, and use no float
/// call. So no integer is greater than itself, of two integers at most one is greater than the
/// other, and `l < r` is `r > l`.
pub proof fn law_integer_comparisons(l: i32, r: i32, answers: Answers, at: nat)
    ensures
        binary_value(">"@, ValueView::Integer(l), ValueView::Integer(r), answers, at) == (
            Ok::<ValueView, ErrorView>(ValueView::Bool(l > r)),
            at,
        ),
        binary_value(">="@, ValueView::Integer(l), ValueView::Integer(r), answers, at) == (
            Ok::<ValueView, ErrorView>(ValueView::Bool(l >= r)),
            at,
        ),
        binary_value("<"@, ValueView::Integer(l), ValueView::Integer(r), answers, at) == (
            Ok::<ValueView, ErrorView>(ValueView::Bool(l < r)),
            at,
        ),
        binary_value("<="@, ValueView::Integer(l), ValueView::Integer(r), answers, at) == (
            Ok::<ValueView, ErrorView>(ValueView::Bool(l <= r)),
            at,
        ),
        binary_value(">"@, ValueView::Integer(l), ValueView::Integer(l), answers, at).0 == Ok::<
            ValueView,
            ErrorView,
        >(ValueView::Bool(false)),
        !(binary_value(">"@, ValueView::Integer(l), ValueView::Integer(r), answers, at).0 == Ok::<
            ValueView,
            ErrorView,
        >(ValueView::Bool(true)) && binary_value(
            ">"@,
            ValueView::Integer(r),
            ValueView::Integer(l),
            answers,
            at,
        ).0 == Ok::<ValueView, ErrorView>(ValueView::Bool(true))),
        binary_value("<"@, ValueView::Integer(l), ValueView::Integer(r), answers, at) == binary_value(
            ">"@,
            ValueView::Integer(r),
            ValueView::Integer(l),
            answers,
            at,
        ),
{
    lemma_operator_texts();
}

/// Arithmetic on integers gives the sum, the difference and the product of the two integers
/// modulo 2^32 (exactly, where it fits in an `i32`), and uses no float call; `++` joins two
/// strings, the left one first.
pub proof fn law_integer_arithmetic(l: i32, r: i32, s: Seq<char>, u: Seq<char>, answers: Answers, at: nat)
    ensures
        binary_value("+"@, ValueView::Integer(l), ValueView::Integer(r), answers, at) matches (
            Ok(ValueView::Integer(v)),
            p,
        ) && p == at && (v - (l + r)) % 0x1_0000_0000 == 0 && (i32::MIN <= l + r <= i32::MAX
            ==> v == l + r),
        binary_value("-"@, ValueView::Integer(l), ValueView::Integer(r), answers, at) matches (
            Ok(ValueView::Integer(v)),
            p,
        ) && p == at && (v - (l - r)) % 0x1_0000_0000 == 0 && (i32::MIN <= l - r <= i32::MAX
            ==> v == l - r),
        binary_value("*"@, ValueView::Integer(l), ValueView::Integer(r), answers, at) matches (
            Ok(ValueView::Integer(v)),
            p,
        ) && p == at && (v - l * r) % 0x1_0000_0000 == 0 && (i32::MIN <= l * r <= i32::MAX ==> v
            == l * r),
        binary_value("++"@, ValueView::String(s), ValueView::String(u), answers, at) == (
            Ok::<ValueView, ErrorView>(ValueView::String(s + u)),
            at,
        ),
{
    lemma_operator_texts();
    builtins::lemma_wrapping_add(l, r);
    builtins::lemma_wrapping_sub(l, r);
    builtins::lemma_wrapping_mul(l, r);
}

/// Whether a case pattern matches a value: equal booleans, equal integers, or the wildcard.
pub open spec fn pattern_matches(p: Pattern, v: ValueView) -> bool {
    match (p, v) {
        (Pattern::Bool(a), ValueView::Bool(b)) => a == b,
        (Pattern::Integer(a), ValueView::Integer(b)) => a == b,
        (Pattern::Anything, _) => true,
        _ => false,
    }
}

/// Whether a case branch's pattern matches `v`.
pub open spec fn branch_fits(v: ValueView) -> spec_fn((Pattern, Expr)) -> bool {
    |b: (Pattern, Expr)| pattern_matches(b.0, v)
}

/// Whether a pattern is not a plain name.
pub open spec fn not_a_name() -> spec_fn(Pattern) -> bool {
    |p: Pattern| !(p is Name)
}

/// The `Debug` text of a pattern.
pub open spec fn pattern_debug(p: Pattern) -> Seq<char> {
    match p {
        Pattern::Anything => "Anything"@,
        Pattern::Bool(b) => if b {
            "Bool(true)"@
        } else {
            "Bool(false)"@
        },
        Pattern::Integer(i) => "Integer("@ + int_text(i as int) + ")"@,
        Pattern::Name(n) => "Name("@ + debug_str(n@) + ")"@,
    }
}

pub open spec fn param_name(p: Pattern) -> Seq<char> {
    match p {
        Pattern::Name(n) => n@,
        _ => Seq::empty(),
    }
}

/// The names of the parameters.
pub open spec fn param_names(params: Seq<Pattern>) -> Seq<Seq<char>> {
    params.map_values(|p: Pattern| param_name(p))
}

/// Each name bound to the value at its position; a later name replaces an earlier equal one.
pub open spec fn argument_bindings(names: Seq<Seq<char>>, vals: Seq<ValueView>) -> Map<
    NameView,
    BindingView,
>
    decreases names.len(),
{
    if names.len() == 0 {
        Map::empty()
    } else {
        argument_bindings(names.drop_last(), vals).insert(
            (Seq::empty(), seq![names.last()]),
            BindingView::Value(vals[names.len() - 1]),
        )
    }
}

/// The value of a statement bound to a name: a function statement gives the function,
/// unapplied.
pub open spec fn statement_value(s: Stmt) -> Result<ValueView, ErrorView> {
    match s {
        Stmt::Function { args, expr, .. } => Ok(
            ValueView::PartiallyAppliedFunc {
                func: FuncView::UserFunc { args: args@, expr },
                values: Seq::empty(),
            },
        ),
        _ => Err(ErrorView::UnknownFunction),
    }
}

/// Evaluating an expression in an environment, nesting at most `fuel` deep, with the float
/// answers from position `at` on.
pub open spec fn eval_expr(e: Expr, env: EnvView, fuel: nat, answers: Answers, at: nat) -> Outcome
    decreases fuel, 0nat, 0nat,
{
    if fuel == 0 {
        (Err(ErrorView::RecursionLimit), at)
    } else {
        let f = (fuel - 1) as nat;
        match e {
            Expr::Bool(b) => (Ok(ValueView::Bool(b)), at),
            Expr::Integer(i) => (Ok(ValueView::Integer(i)), at),
            Expr::Float(x) => (Ok(ValueView::Float(x.0@)), at),
            Expr::String(s) => (Ok(ValueView::String(s@)), at),
            Expr::BinOp { operator, left, right } => eval_binary(
                operator@,
                *left,
                *right,
                env,
                f,
                answers,
                at,
            ),
            Expr::If { condition, then_branch, else_branch } => eval_if(
                *condition,
                *then_branch,
                *else_branch,
                env,
                f,
                answers,
                at,
            ),
            Expr::Case { expr, branches } => eval_case(*expr, branches@, env, f, answers, at),
            Expr::List(items) => match eval_list(items@, env, f, answers, at) {
                (Ok(vs), p) => (Ok(ValueView::List(vs)), p),
                (Err(x), p) => (Err(x), p),
            },
            Expr::Call { function, args } => eval_call(*function, args@, env, f, answers, at),
            Expr::VarName(name) => eval_var(name@, env, f, answers, at),
        }
    }
}

/// Evaluating expressions in order; the first error ends it.
pub open spec fn eval_list(
    items: Seq<Rc<Expr>>,
    env: EnvView,
    fuel: nat,
    answers: Answers,
    at: nat,
) -> ListOutcome
    decreases fuel, 1nat, items.len(),
{
    if items.len() == 0 {
        (Ok(Seq::empty()), at)
    } else {
        match eval_list(items.drop_last(), env, fuel, answers, at) {
            (Ok(vs), p) => match eval_expr(*items.last(), env, fuel, answers, p) {
                (Ok(v), q) => (Ok(vs.push(v)), q),
                (Err(x), q) => (Err(x), q),
            },
            other => other,
        }
    }
}

/// Evaluating both operands, then applying the operator.
pub open spec fn eval_binary(
    op: Seq<char>,
    left: Expr,
    right: Expr,
    env: EnvView,
    fuel: nat,
    answers: Answers,
    at: nat,
) -> Outcome
    decreases fuel, 1nat, 0nat,
{
    match eval_expr(left, env, fuel, answers, at) {
        (Ok(l), p) => match eval_expr(right, env, fuel, answers, p) {
            (Ok(r), q) => binary_value(op, l, r, answers, q),
            other => other,
        },
        other => other,
    }
}

/// Evaluating the condition, then the branch it selects.
pub open spec fn eval_if(
    condition: Expr,
    then_branch: Expr,
    else_branch: Expr,
    env: EnvView,
    fuel: nat,
    answers: Answers,
    at: nat,
) -> Outcome
    decreases fuel, 1nat, 0nat,
{
    match eval_expr(condition, env, fuel, answers, at) {
        (Ok(ValueView::Bool(true)), p) => eval_expr(then_branch, env, fuel, answers, p),
        (Ok(ValueView::Bool(false)), p) => eval_expr(else_branch, env, fuel, answers, p),
        (Ok(_), p) => (Err(ErrorView::UnsupportedOperation), p),
        other => other,
    }
}

/// Evaluating the scrutinee, then the first branch whose pattern matches it.
pub open spec fn eval_case(
    scrutinee: Expr,
    branches: Seq<(Pattern, Expr)>,
    env: EnvView,
    fuel: nat,
    answers: Answers,
    at: nat,
) -> Outcome
    decreases fuel, 1nat, 0nat,
{
    match eval_expr(scrutinee, env, fuel, answers, at) {
        (Ok(v), p) => match first_index(branches, branch_fits(v)) {
            Some(i) => eval_expr(branches[i].1, env, fuel, answers, p),
            None => (Err(ErrorView::NoMatchingCase), p),
        },
        other => other,
    }
}

/// Evaluating a name: what it is bound to, evaluated in the environment that the lookup gives.
pub open spec fn eval_var(name: NameView, env: EnvView, fuel: nat, answers: Answers, at: nat) -> Outcome
    decreases fuel, 1nat, 0nat,
{
    match env_lookup(env, name) {
        LookupView::Found(BindingView::UserBinding(e), found_env) => eval_expr(
            *e,
            found_env,
            fuel,
            answers,
            at,
        ),
        LookupView::Found(BindingView::UserFunc(s), _) => (statement_value(*s), at),
        LookupView::Found(BindingView::Value(v), _) => (Ok(v), at),
        LookupView::Kernel(n) => (
            Ok(
                ValueView::PartiallyAppliedFunc {
                    func: FuncView::BuiltInFunc(n),
                    values: Seq::empty(),
                },
            ),
            at,
        ),
        _ => (Err(ErrorView::UnknownBinding(full_name(name))), at),
    }
}

/// Applying a function value to `arg_count` arguments, whose evaluation from position `at`
/// gives `arg_values`.
///
/// A user function given more arguments than it has parameters fails; given exactly as many,
/// its body is evaluated in the caller's environment with a new innermost scope that binds the
/// parameters to the already applied values followed by the arguments; given fewer, it is
/// applied partially. A kernel function is called with the arguments alone. The failures
/// found before the arguments are evaluated come at `at`.
pub open spec fn apply_value(
    fv: ValueView,
    arg_count: nat,
    arg_values: ListOutcome,
    env: EnvView,
    fuel: nat,
    answers: Answers,
    at: nat,
) -> Outcome
    decreases fuel, 1nat, 0nat,
{
    match fv {
        ValueView::PartiallyAppliedFunc { func, values } => match func {
            FuncView::UserFunc { args: params, expr } => if values.len() + arg_count
                > params.len() {
                (Err(ErrorView::TooManyArguments), at)
            } else if values.len() + arg_count == params.len() {
                match first_index(params, not_a_name()) {
                    Some(i) => (
                        Err(ErrorView::UnsupportedArgumentPattern(pattern_debug(params[i]))),
                        at,
                    ),
                    None => match arg_values {
                        (Ok(avs), p) => eval_expr(
                            *expr,
                            (
                                env.0,
                                seq![
                                    (
                                        argument_bindings(param_names(params), values + avs),
                                        Map::empty(),
                                    ),
                                ] + env.1,
                            ),
                            fuel,
                            answers,
                            p,
                        ),
                        (Err(x), p) => (Err(x), p),
                    },
                }
            } else {
                match arg_values {
                    (Ok(avs), p) => (
                        Ok(
                            ValueView::PartiallyAppliedFunc {
                                func: FuncView::UserFunc { args: params, expr },
                                values: values + avs,
                            },
                        ),
                        p,
                    ),
                    (Err(x), p) => (Err(x), p),
                }
            },
            FuncView::BuiltInFunc(name) => match kernel_function(full_name(name)) {
                None => (Err(ErrorView::UnknownFunction), at),
                Some(b) => match arg_values {
                    (Ok(avs), p) => match builtin_call(b, avs) {
                        Ok(v) => (Ok(v), p),
                        Err(x) => (Err(ErrorView::FunctionError(x)), p),
                    },
                    (Err(x), p) => (Err(x), p),
                },
            },
        },
        _ => (Err(ErrorView::UnknownFunction), at),
    }
}

/// Applying a user function to some of its arguments and then to the rest gives what
/// applying it to all of them at once gives; the first application gives the function with
/// those arguments applied.
pub proof fn law_partial_application(
    params: Seq<Pattern>,
    expr: Rc<Expr>,
    applied: Seq<ValueView>,
    first: Seq<ValueView>,
    rest: Seq<ValueView>,
    env: EnvView,
    fuel: nat,
    answers: Answers,
    at: nat,
)
    requires
        applied.len() + first.len() < params.len(),
        applied.len() + first.len() + rest.len() <= params.len(),
    ensures
        apply_value(
            ValueView::PartiallyAppliedFunc {
                func: FuncView::UserFunc { args: params, expr },
                values: applied,
            },
            first.len(),
            (Ok(first), at),
            env,
            fuel,
            answers,
            at,
        ) == (
            Ok::<ValueView, ErrorView>(
                ValueView::PartiallyAppliedFunc {
                    func: FuncView::UserFunc { args: params, expr },
                    values: applied + first,
                },
            ),
            at,
        ),
        apply_value(
            ValueView::PartiallyAppliedFunc {
                func: FuncView::UserFunc { args: params, expr },
                values: applied + first,
            },
            rest.len(),
            (Ok(rest), at),
            env,
            fuel,
            answers,
            at,
        ) == apply_value(
            ValueView::PartiallyAppliedFunc {
                func: FuncView::UserFunc { args: params, expr },
                values: applied,
            },
            first.len() + rest.len(),
            (Ok(first + rest), at),
            env,
            fuel,
            answers,
            at,
        ),
{
    assert((applied + first) + rest =~= applied + (first + rest));
}

/// Evaluating the function, then applying it to the arguments.
pub open spec fn eval_call(
    function: Expr,
    args: Seq<Rc<Expr>>,
    env: EnvView,
    fuel: nat,
    answers: Answers,
    at: nat,
) -> Outcome
    decreases fuel, 2nat, 0nat,
{
    match eval_expr(function, env, fuel, answers, at) {
        (Ok(fv), p) => apply_value(
            fv,
            args.len(),
            eval_list(args, env, fuel, answers, p),
            env,
            fuel,
            answers,
            p,
        ),
        other => other,
    }
}


// ---------------------------------------------------------------------------------------------
// Evaluation
// ---------------------------------------------------------------------------------------------
/// The expression `main [args...]`: `main` applied to the list of the program arguments.
pub open spec fn is_main_call(e: Expr, args: Seq<Seq<char>>) -> bool {
    &&& e matches Expr::Call { function, args: call_args }
    &&& *function matches Expr::VarName(name)
    &&& name@ == main_name()
    &&& call_args@.len() == 1
    &&& *call_args@[0] matches Expr::List(items)
    &&& items@.len() == args.len()
    &&& forall|i: int|
        0 <= i < args.len() ==> (*#[trigger] items@[i] matches Expr::String(s) && s@ == args[i])
}

pub open spec fn main_name() -> NameView {
    (Seq::empty(), seq!["main"@])
}

/// The program arguments as a list value of strings.
pub open spec fn argument_list(args: Seq<Seq<char>>) -> ValueView {
    ValueView::List(string_values(args))
}

/// Each text as a string value.
pub open spec fn string_values(args: Seq<Seq<char>>) -> Seq<ValueView> {
    args.map_values(|s: Seq<char>| ValueView::String(s))
}

/// What running a module gives: `main` applied to the list of the program arguments, in the
/// module's environment, with the float answers from the first on.
pub open spec fn main_outcome(args: Seq<Seq<char>>, env: EnvView, answers: Answers) -> Outcome {
    let f = (MAX_DEPTH - 1) as nat;
    match eval_var(main_name(), env, (f - 1) as nat, answers, 0) {
        (Ok(fv), p) => apply_value(fv, 1, (Ok(seq![argument_list(args)]), p), env, f, answers, p),
        other => other,
    }
}

/// `result` is what evaluating `e` from position `at` gives, with the answers `used` there,
/// which it uses all.
pub open spec fn evaluates_to(
    e: Expr,
    env: EnvView,
    fuel: nat,
    used: Seq<FloatCall>,
    at: nat,
    result: Result<ValueView, ErrorView>,
) -> bool {
    forall|answers: Answers|
        agrees(answers, used, at) ==> #[trigger] eval_expr(e, env, fuel, answers, at) == (
            result,
            at + used.len(),
        )
}

/// `result` is what running a module gives with the answers `used`, which it uses all.
pub open spec fn runs_to(
    args: Seq<Seq<char>>,
    env: EnvView,
    used: Seq<FloatCall>,
    result: Result<ValueView, ErrorView>,
) -> bool {
    forall|answers: Answers|
        agrees(answers, used, 0) ==> #[trigger] main_outcome(args, env, answers) == (
            result,
            used.len(),
        )
}

/// Evaluates `main` applied to the list of the program arguments.
///
/// The result is what running the module gives with the answers that `floats` gave, in the
/// order in which they were asked for.
pub fn evaluate<F: FloatArithmetic>(
    _module: &Module,
    args: Vec<String>,
    environment: &Environment,
    _settings: &project::Settings,
    floats: &F,
) -> (r: Result<Value, Error>)
    ensures
        exists|used: Seq<FloatCall>|
            #[trigger] runs_to(args.deep_view(), environment@, used, result_view(r)),
{
    let mut items: Vec<Rc<Expr>> = Vec::new();
    let mut i: usize = 0;
    while i < args.len()
        invariant
            i <= args@.len(),
            items@.len() == i,
            forall|j: int|
                0 <= j < i ==> (*#[trigger] items@[j] matches Expr::String(s) && s@
                    == args.deep_view()[j]),
        decreases args@.len() - i,
    {
        items.push(Rc::new(Expr::String(args[i].clone())));
        i = i + 1;
    }
    let mut call_args: Vec<Rc<Expr>> = Vec::new();
    call_args.push(Rc::new(Expr::List(items)));
    let call_main = Expr::Call {
        function: Rc::new(Expr::VarName(QualifiedLowerName::simple(owned("main")))),
        args: call_args,
    };
    proof {
        reveal_strlit("main");
    }
    let (r, Ghost(used)) = evaluate_at(&call_main, environment, floats, MAX_DEPTH, Ghost(0nat));
    proof {
        assert forall|answers: Answers| agrees(answers, used, 0) implies #[trigger] main_outcome(
            args.deep_view(),
            environment@,
            answers,
        ) == (result_view(r), used.len()) by {
            lemma_main_call(call_main, args.deep_view(), environment@, answers);
        }
        assert(runs_to(args.deep_view(), environment@, used, result_view(r)));
    }
    r
}

/// Evaluating the list of string expressions gives the strings, and uses no answer.
proof fn lemma_string_list(
    items: Seq<Rc<Expr>>,
    args: Seq<Seq<char>>,
    env: EnvView,
    fuel: nat,
    answers: Answers,
    at: nat,
)
    requires
        fuel >= 1,
        items.len() == args.len(),
        forall|i: int|
            0 <= i < args.len() ==> (*#[trigger] items[i] matches Expr::String(s) && s@ == args[i]),
    ensures
        eval_list(items, env, fuel, answers, at) == (
            Ok::<Seq<ValueView>, ErrorView>(string_values(args)),
            at,
        ),
    decreases items.len(),
{
    if items.len() > 0 {
        let n = items.len() - 1;
        assert forall|i: int| 0 <= i < n implies (*#[trigger] items.drop_last()[i] matches Expr::String(s)
            && s@ == args.drop_last()[i]) by {
            assert(items.drop_last()[i] == items[i]);
        }
        lemma_string_list(items.drop_last(), args.drop_last(), env, fuel, answers, at);
        assert(*items[n] matches Expr::String(s) && s@ == args[n]);
        assert(items.last() == items[n]);
        assert(eval_expr(*items[n], env, fuel, answers, at) == (
            Ok::<ValueView, ErrorView>(ValueView::String(args[n])),
            at,
        ));
        assert(string_values(args) =~= string_values(args.drop_last()).push(
            ValueView::String(args[n]),
        ));
    } else {
        assert(string_values(args) =~= Seq::<ValueView>::empty());
    }
}

proof fn lemma_main_call(e: Expr, args: Seq<Seq<char>>, env: EnvView, answers: Answers)
    requires
        is_main_call(e, args),
    ensures
        eval_expr(e, env, MAX_DEPTH as nat, answers, 0) == main_outcome(args, env, answers),
{
    let f = (MAX_DEPTH - 1) as nat;
    let p = eval_var(main_name(), env, (f - 1) as nat, answers, 0).1;
    if let Expr::Call { function, args: call_args } = e {
        if let Expr::List(items) = *call_args@[0] {
            lemma_string_list(items@, args, env, (f - 1) as nat, answers, p);
            assert(eval_expr(*call_args@[0], env, f, answers, p) == (
                Ok::<ValueView, ErrorView>(argument_list(args)),
                p,
            ));
            assert(call_args@.drop_last() =~= Seq::<Rc<Expr>>::empty());
            assert(call_args@.last() == call_args@[0]);
            assert(eval_list(call_args@.drop_last(), env, f, answers, p) == (
                Ok::<Seq<ValueView>, ErrorView>(Seq::empty()),
                p,
            ));
            assert(Seq::<ValueView>::empty().push(argument_list(args)) =~= seq![argument_list(args)]);
            assert(eval_list(call_args@, env, f, answers, p) == (
                Ok::<Seq<ValueView>, ErrorView>(seq![argument_list(args)]),
                p,
            ));
            if let Expr::VarName(name) = *function {
                assert(eval_expr(*function, env, f, answers, 0) == eval_var(
                    main_name(),
                    env,
                    (f - 1) as nat,
                    answers,
                    0,
                ));
            }
        }
    }
}

/// The `Debug` text of a pattern, as `format!("{:?}", pattern)` gives it.
fn pattern_text(p: &Pattern) -> (r: String)
    ensures
        r@ == pattern_debug(*p),
{
    match p {
        Pattern::Anything => owned("Anything"),
        Pattern::Bool(b) => if *b {
            owned("Bool(true)")
        } else {
            owned("Bool(false)")
        },
        Pattern::Integer(i) => {
            let mut r = owned("Integer(");
            let d = i64_text(*i as i64);
            push_str(&mut r, d.as_str());
            push_str(&mut r, ")");
            r
        },
        Pattern::Name(n) => {
            let mut r = owned("Name(");
            let d = debug_string(n.as_str());
            push_str(&mut r, d.as_str());
            push_str(&mut r, ")");
            r
        },
    }
}

/// Evaluates an expression, nesting at most `depth` deep.
///
/// The result is what evaluating the expression gives with the answers that `floats` gave,
/// in the order in which they were asked for.
pub fn evaluate_expression<F: FloatArithmetic>(
    expr: &Expr,
    environment: &Environment,
    floats: &F,
    depth: usize,
) -> (r: Result<Value, Error>)
    ensures
        exists|used: Seq<FloatCall>|
            #[trigger] evaluates_to(*expr, environment@, depth as nat, used, 0, result_view(r)),
{
    let (r, Ghost(used)) = evaluate_at(expr, environment, floats, depth, Ghost(0nat));
    proof {
        assert forall|a: Answers| agrees(a, used, 0) implies #[trigger] eval_expr(
            *expr,
            environment@,
            depth as nat,
            a,
            0,
        ) == (result_view(r), 0 + used.len()) by {
            assert(eval_expr(*expr, environment@, depth as nat, a, 0) == (
                result_view(r),
                0 + used.len(),
            ));
        }
        assert(evaluates_to(*expr, environment@, depth as nat, used, 0, result_view(r)));
    }
    r
}

/// Evaluates an expression with the float answers from position `at` on; gives the result and
/// the answers it used.
fn evaluate_at<F: FloatArithmetic>(
    expr: &Expr,
    environment: &Environment,
    floats: &F,
    depth: usize,
    Ghost(at): Ghost<nat>,
) -> (out: (Result<Value, Error>, Ghost<Seq<FloatCall>>))
    ensures
        forall|answers: Answers|
            agrees(answers, out.1@, at) ==> #[trigger] eval_expr(
                *expr,
                environment@,
                depth as nat,
                answers,
                at,
            ) == (result_view(out.0), at + out.1@.len()),
    decreases depth, 0nat,
{
    if depth == 0 {
        return (Err(Error::RecursionLimit), Ghost(Seq::empty()));
    }
    let ghost fuel = depth as nat;
    let depth = depth - 1;
    match expr {
        Expr::Bool(b) => (Ok(Value::Bool(*b)), Ghost(Seq::empty())),
        Expr::Integer(i) => (Ok(Value::Integer(*i)), Ghost(Seq::empty())),
        Expr::Float(x) => (Ok(Value::Float(FloatLiteral(x.0.clone()))), Ghost(Seq::empty())),
        Expr::String(s) => (Ok(Value::String(s.clone())), Ghost(Seq::empty())),
        Expr::BinOp { operator, left, right } => {
            let (res, Ghost(used)) = evaluate_binary_expression(
                operator.as_str(),
                left,
                right,
                environment,
                floats,
                depth,
                Ghost(at),
            );
            proof {
                assert forall|a: Answers| agrees(a, used, at) implies #[trigger] eval_expr(
                    *expr,
                    environment@,
                    fuel,
                    a,
                    at,
                ) == (result_view(res), at + used.len()) by {
                    assert(eval_binary(operator@, **left, **right, environment@, depth as nat, a, at)
                        == (result_view(res), at + used.len()));
                }
            }
            (res, Ghost(used))
        },
        Expr::If { condition, then_branch, else_branch } => {
            let (res, Ghost(used)) = evaluate_if_expression(
                condition,
                then_branch,
                else_branch,
                environment,
                floats,
                depth,
                Ghost(at),
            );
            proof {
                assert forall|a: Answers| agrees(a, used, at) implies #[trigger] eval_expr(
                    *expr,
                    environment@,
                    fuel,
                    a,
                    at,
                ) == (result_view(res), at + used.len()) by {
                    assert(eval_if(
                        **condition,
                        **then_branch,
                        **else_branch,
                        environment@,
                        depth as nat,
                        a,
                        at,
                    ) == (result_view(res), at + used.len()));
                }
            }
            (res, Ghost(used))
        },
        Expr::Case { expr: scrutinee, branches } => {
            let (res, Ghost(used)) = evaluate_case_expression(
                scrutinee,
                branches,
                environment,
                floats,
                depth,
                Ghost(at),
            );
            proof {
                assert forall|a: Answers| agrees(a, used, at) implies #[trigger] eval_expr(
                    *expr,
                    environment@,
                    fuel,
                    a,
                    at,
                ) == (result_view(res), at + used.len()) by {
                    assert(eval_case(**scrutinee, branches@, environment@, depth as nat, a, at) == (
                        result_view(res),
                        at + used.len(),
                    ));
                }
            }
            (res, Ghost(used))
        },
        Expr::List(items) => {
            let (listed, Ghost(used)) = evaluate_list(items, environment, floats, depth, Ghost(at));
            let res = match listed {
                Ok(values) => Ok(Value::List(values)),
                Err(e) => Err(e),
            };
            proof {
                assert forall|a: Answers| agrees(a, used, at) implies #[trigger] eval_expr(
                    *expr,
                    environment@,
                    fuel,
                    a,
                    at,
                ) == (result_view(res), at + used.len()) by {
                    assert(eval_list(items@, environment@, depth as nat, a, at) == (
                        results_view(listed),
                        at + used.len(),
                    ));
                }
            }
            (res, Ghost(used))
        },
        Expr::Call { function, args } => {
            let (res, Ghost(used)) = evaluate_function_call(
                function,
                args,
                environment,
                floats,
                depth,
                Ghost(at),
            );
            proof {
                assert forall|a: Answers| agrees(a, used, at) implies #[trigger] eval_expr(
                    *expr,
                    environment@,
                    fuel,
                    a,
                    at,
                ) == (result_view(res), at + used.len()) by {
                    assert(eval_call(**function, args@, environment@, depth as nat, a, at) == (
                        result_view(res),
                        at + used.len(),
                    ));
                }
            }
            (res, Ghost(used))
        },
        Expr::VarName(name) => {
            let found = environment.get_binding(name);
            match found {
                Ok(FoundBinding::WithEnv(Binding::UserBinding(bound), env)) => {
                    let (res, Ghost(used)) = evaluate_at(&bound, &env, floats, depth, Ghost(at));
                    proof {
                        assert forall|a: Answers| agrees(a, used, at) implies #[trigger] eval_expr(
                            *expr,
                            environment@,
                            fuel,
                            a,
                            at,
                        ) == (result_view(res), at + used.len()) by {
                            assert(eval_expr(*bound, env@, depth as nat, a, at) == (
                                result_view(res),
                                at + used.len(),
                            ));
                        }
                    }
                    (res, Ghost(used))
                },
                Ok(FoundBinding::WithEnv(Binding::UserFunc(stmt), env)) => {
                    (evaluate_statement(&stmt, &env), Ghost(Seq::empty()))
                },
                Ok(FoundBinding::WithEnv(Binding::Value(value), _env)) => (
                    Ok(value),
                    Ghost(Seq::empty()),
                ),
                Ok(FoundBinding::BuiltInFunc(name)) => (
                    Ok(
                        Value::PartiallyAppliedFunc {
                            func: Func::BuiltInFunc(name),
                            values: Vec::new(),
                        },
                    ),
                    Ghost(Seq::empty()),
                ),
                _ => (Err(Error::UnknownBinding(name.as_string())), Ghost(Seq::empty())),
            }
        },
    }
}

/// The value of a statement that a name is bound to.
fn evaluate_statement(stmt: &Stmt, _environment: &Environment) -> (r: Result<Value, Error>)
    ensures
        statement_value(*stmt) == result_view(r),
{
    match stmt {
        Stmt::Function { args, expr, .. } => Ok(
            Value::PartiallyAppliedFunc {
                func: Func::UserFunc { args: values::copy_patterns(args), expr: share(expr) },
                values: Vec::new(),
            },
        ),
        _ => Err(Error::UnknownFunction),
    }
}

/// If evaluating a prefix of a list did not succeed, the whole list gives what it gave.
proof fn lemma_eval_list_stuck(
    items: Seq<Rc<Expr>>,
    k: int,
    env: EnvView,
    fuel: nat,
    answers: Answers,
    at: nat,
)
    requires
        0 <= k <= items.len(),
        !(eval_list(items.take(k), env, fuel, answers, at).0 is Ok),
    ensures
        eval_list(items, env, fuel, answers, at) == eval_list(items.take(k), env, fuel, answers, at),
    decreases items.len() - k,
{
    if k < items.len() {
        assert(items.take(k + 1).drop_last() =~= items.take(k));
        assert(eval_list(items.take(k + 1), env, fuel, answers, at) == eval_list(
            items.take(k),
            env,
            fuel,
            answers,
            at,
        ));
        lemma_eval_list_stuck(items, k + 1, env, fuel, answers, at);
    } else {
        assert(items.take(k) =~= items);
    }
}

/// Evaluates the expressions in order, with the float answers from position `at` on; the first
/// error ends it.
fn evaluate_list<F: FloatArithmetic>(
    items: &Vec<Rc<Expr>>,
    environment: &Environment,
    floats: &F,
    depth: usize,
    Ghost(at): Ghost<nat>,
) -> (out: (Result<Vec<Value>, Error>, Ghost<Seq<FloatCall>>))
    ensures
        forall|answers: Answers|
            agrees(answers, out.1@, at) ==> #[trigger] eval_list(
                items@,
                environment@,
                depth as nat,
                answers,
                at,
            ) == (results_view(out.0), at + out.1@.len()),
        out.0 matches Ok(vs) ==> vs@.len() == items@.len(),
    decreases depth, 1nat,
{
    let mut values: Vec<Value> = Vec::new();
    let ghost mut used: Seq<FloatCall> = Seq::empty();
    let mut i: usize = 0;
    while i < items.len()
        invariant
            i <= items@.len(),
            values@.len() == i,
            forall|answers: Answers|
                agrees(answers, used, at) ==> #[trigger] eval_list(
                    items@.take(i as int),
                    environment@,
                    depth as nat,
                    answers,
                    at,
                ) == (Ok::<Seq<ValueView>, ErrorView>(values_view(values@)), at + used.len()),
        decreases items@.len() - i,
    {
        let ghost q: nat = (at + used.len()) as nat;
        proof {
            assert(items@.take(i + 1).drop_last() =~= items@.take(i as int));
            assert(items@.take(i + 1).last() == items@[i as int]);
        }
        let (evaluated, Ghost(u)) = evaluate_at(&items[i], environment, floats, depth, Ghost(q));
        match evaluated {
            Ok(v) => {
                let ghost before = values@;
                values.push(v);
                proof {
                    lemma_values_view_push(before, v);
                    assert forall|a: Answers| agrees(a, used + u, at) implies #[trigger] eval_list(
                        items@.take(i + 1),
                        environment@,
                        depth as nat,
                        a,
                        at,
                    ) == (
                        Ok::<Seq<ValueView>, ErrorView>(values_view(values@)),
                        at + (used + u).len(),
                    ) by {
                        lemma_agrees_concat(a, used, u, at);
                        assert(eval_list(items@.take(i as int), environment@, depth as nat, a, at)
                            == (Ok::<Seq<ValueView>, ErrorView>(values_view(before)), q));
                        assert(eval_expr(*items@[i as int], environment@, depth as nat, a, q) == (
                            Ok::<ValueView, ErrorView>(v@),
                            q + u.len(),
                        ));
                    }
                    used = used + u;
                }
            },
            Err(e) => {
                proof {
                    assert forall|a: Answers| agrees(a, used + u, at) implies #[trigger] eval_list(
                        items@,
                        environment@,
                        depth as nat,
                        a,
                        at,
                    ) == (
                        Err::<Seq<ValueView>, ErrorView>(error_view(e)),
                        at + (used + u).len(),
                    ) by {
                        lemma_agrees_concat(a, used, u, at);
                        assert(eval_list(items@.take(i as int), environment@, depth as nat, a, at)
                            == (Ok::<Seq<ValueView>, ErrorView>(values_view(values@)), q));
                        assert(eval_expr(*items@[i as int], environment@, depth as nat, a, q) == (
                            Err::<ValueView, ErrorView>(error_view(e)),
                            q + u.len(),
                        ));
                        assert(eval_list(items@.take(i + 1), environment@, depth as nat, a, at) == (
                            Err::<Seq<ValueView>, ErrorView>(error_view(e)),
                            q + u.len(),
                        ));
                        lemma_eval_list_stuck(items@, i + 1, environment@, depth as nat, a, at);
                    }
                }
                return (Err(e), Ghost(used + u));
            },
        }
        i = i + 1;
    }
    proof {
        assert(items@.take(items@.len() as int) =~= items@);
    }
    (Ok(values), Ghost(used))
}

/// `answers` gives `x` at position `at`, where it agrees with `x` alone.
proof fn lemma_agrees_one(answers: Answers, x: FloatCall, at: nat)
    requires
        agrees(answers, seq![x], at),
    ensures
        answers(at) == x,
{
    assert(seq![x][0] == x);
}

/// Asks `floats` for `operation` on `left` and `right`; gives what it returned and the record
/// of the call.
fn ask_operate<F: FloatArithmetic>(
    floats: &F,
    operation: FloatOperation,
    left: &FloatLiteral,
    right: &FloatLiteral,
) -> (out: (FloatLiteral, Ghost<FloatCall>))
    ensures
        out.1@ == (FloatCall::Operate {
            operation,
            left: left.0@,
            right: right.0@,
            result: out.0.0@,
        }),
{
    let x = floats.operate(operation, left, right);
    let ghost call = FloatCall::Operate {
        operation,
        left: left.0@,
        right: right.0@,
        result: x.0@,
    };
    (x, Ghost(call))
}

/// Asks `floats` for `comparison` of `left` and `right`; gives what it returned and the record
/// of the call.
fn ask_compare<F: FloatArithmetic>(
    floats: &F,
    comparison: FloatComparison,
    left: &FloatLiteral,
    right: &FloatLiteral,
) -> (out: (bool, Ghost<FloatCall>))
    ensures
        out.1@ == (FloatCall::Compare {
            comparison,
            left: left.0@,
            right: right.0@,
            result: out.0,
        }),
{
    let t = floats.compare(comparison, left, right);
    let ghost call = FloatCall::Compare { comparison, left: left.0@, right: right.0@, result: t };
    (t, Ghost(call))
}

/// Applies a binary operator to two values; on two floats it makes its call to `floats` at
/// position `at`.
fn apply_operator<F: FloatArithmetic>(
    operator: &str,
    left: Value,
    right: Value,
    floats: &F,
    Ghost(at): Ghost<nat>,
) -> (out: (Result<Value, Error>, Ghost<Seq<FloatCall>>))
    ensures
        forall|answers: Answers|
            agrees(answers, out.1@, at) ==> #[trigger] binary_value(
                operator@,
                left@,
                right@,
                answers,
                at,
            ) == (result_view(out.0), at + out.1@.len()),
{
    let ghost lv = left@;
    let ghost rv = right@;
    match (left, right) {
        (Value::Integer(l), Value::Integer(r)) => {
            let res = if str_eq(operator, "+") {
                Ok(Value::Integer(l.wrapping_add(r)))
            } else if str_eq(operator, "-") {
                Ok(Value::Integer(l.wrapping_sub(r)))
            } else if str_eq(operator, "*") {
                Ok(Value::Integer(l.wrapping_mul(r)))
            } else if str_eq(operator, ">") {
                Ok(Value::Bool(l > r))
            } else if str_eq(operator, ">=") {
                Ok(Value::Bool(l >= r))
            } else if str_eq(operator, "<") {
                Ok(Value::Bool(l < r))
            } else if str_eq(operator, "<=") {
                Ok(Value::Bool(l <= r))
            } else {
                Err(Error::UnsupportedOperation)
            };
            (res, Ghost(Seq::empty()))
        },
        (Value::Float(l), Value::Float(r)) => {
            let operation = if str_eq(operator, "+") {
                Some(FloatOperation::Add)
            } else if str_eq(operator, "-") {
                Some(FloatOperation::Sub)
            } else if str_eq(operator, "*") {
                Some(FloatOperation::Mul)
            } else {
                None
            };
            let comparison = if str_eq(operator, ">") {
                Some(FloatComparison::Gt)
            } else if str_eq(operator, ">=") {
                Some(FloatComparison::Ge)
            } else if str_eq(operator, "<") {
                Some(FloatComparison::Lt)
            } else if str_eq(operator, "<=") {
                Some(FloatComparison::Le)
            } else {
                None
            };
            match operation {
                Some(o) => {
                    let (x, Ghost(call)) = ask_operate(floats, o, &l, &r);
                    proof {
                        assert forall|answers: Answers| agrees(answers, seq![call], at) implies #[trigger] binary_value(
                            operator@,
                            lv,
                            rv,
                            answers,
                            at,
                        ) == (Ok::<ValueView, ErrorView>(ValueView::Float(x.0@)), at + 1) by {
                            lemma_agrees_one(answers, call, at);
                        }
                    }
                    (Ok(Value::Float(x)), Ghost(Seq::empty().push(call)))
                },
                None => match comparison {
                    Some(c) => {
                        let (t, Ghost(call)) = ask_compare(floats, c, &l, &r);
                        proof {
                            assert forall|answers: Answers| agrees(answers, seq![call], at) implies #[trigger] binary_value(
                                operator@,
                                lv,
                                rv,
                                answers,
                                at,
                            ) == (Ok::<ValueView, ErrorView>(ValueView::Bool(t)), at + 1) by {
                                lemma_agrees_one(answers, call, at);
                            }
                        }
                        (Ok(Value::Bool(t)), Ghost(Seq::empty().push(call)))
                    },
                    None => (Err(Error::UnsupportedOperation), Ghost(Seq::empty())),
                },
            }
        },
        (Value::String(l), Value::String(r)) => {
            if str_eq(operator, "++") {
                let mut joined = l;
                push_str(&mut joined, r.as_str());
                (Ok(Value::String(joined)), Ghost(Seq::empty()))
            } else {
                (Err(Error::UnsupportedOperation), Ghost(Seq::empty()))
            }
        },
        _ => (Err(Error::UnsupportedOperation), Ghost(Seq::empty())),
    }
}

/// Evaluates both operands, then applies the operator, with the float answers from position
/// `at` on.
fn evaluate_binary_expression<F: FloatArithmetic>(
    operator: &str,
    left: &Expr,
    right: &Expr,
    environment: &Environment,
    floats: &F,
    depth: usize,
    Ghost(at): Ghost<nat>,
) -> (out: (Result<Value, Error>, Ghost<Seq<FloatCall>>))
    ensures
        forall|answers: Answers|
            agrees(answers, out.1@, at) ==> #[trigger] eval_binary(
                operator@,
                *left,
                *right,
                environment@,
                depth as nat,
                answers,
                at,
            ) == (result_view(out.0), at + out.1@.len()),
    decreases depth, 1nat,
{
    let (left_result, Ghost(u1)) = evaluate_at(left, environment, floats, depth, Ghost(at));
    let left_value = match left_result {
        Ok(v) => v,
        Err(e) => {
            proof {
                assert forall|a: Answers| agrees(a, u1, at) implies #[trigger] eval_binary(
                    operator@,
                    *left,
                    *right,
                    environment@,
                    depth as nat,
                    a,
                    at,
                ) == (Err::<ValueView, ErrorView>(error_view(e)), at + u1.len()) by {
                    assert(eval_expr(*left, environment@, depth as nat, a, at) == (
                        Err::<ValueView, ErrorView>(error_view(e)),
                        at + u1.len(),
                    ));
                }
            }
            return (Err(e), Ghost(u1));
        },
    };
    let ghost lv = left_value@;
    let ghost p: nat = (at + u1.len()) as nat;
    let (right_result, Ghost(u2)) = evaluate_at(right, environment, floats, depth, Ghost(p));
    let right_value = match right_result {
        Ok(v) => v,
        Err(e) => {
            proof {
                assert forall|a: Answers| agrees(a, u1 + u2, at) implies #[trigger] eval_binary(
                    operator@,
                    *left,
                    *right,
                    environment@,
                    depth as nat,
                    a,
                    at,
                ) == (Err::<ValueView, ErrorView>(error_view(e)), at + (u1 + u2).len()) by {
                    lemma_agrees_concat(a, u1, u2, at);
                    assert(eval_expr(*left, environment@, depth as nat, a, at) == (
                        Ok::<ValueView, ErrorView>(lv),
                        p,
                    ));
                    assert(eval_expr(*right, environment@, depth as nat, a, p) == (
                        Err::<ValueView, ErrorView>(error_view(e)),
                        p + u2.len(),
                    ));
                }
            }
            return (Err(e), Ghost(u1 + u2));
        },
    };
    let ghost rv = right_value@;
    let ghost q: nat = (p + u2.len()) as nat;
    let (res, Ghost(u3)) = apply_operator(operator, left_value, right_value, floats, Ghost(q));
    proof {
        assert forall|a: Answers| agrees(a, u1 + (u2 + u3), at) implies #[trigger] eval_binary(
            operator@,
            *left,
            *right,
            environment@,
            depth as nat,
            a,
            at,
        ) == (result_view(res), at + (u1 + (u2 + u3)).len()) by {
            lemma_agrees_concat(a, u1, u2 + u3, at);
            lemma_agrees_concat(a, u2, u3, p);
            assert(eval_expr(*left, environment@, depth as nat, a, at) == (
                Ok::<ValueView, ErrorView>(lv),
                p,
            ));
            assert(eval_expr(*right, environment@, depth as nat, a, p) == (
                Ok::<ValueView, ErrorView>(rv),
                q,
            ));
            assert(binary_value(operator@, lv, rv, a, q) == (result_view(res), q + u3.len()));
        }
    }
    (res, Ghost(u1 + (u2 + u3)))
}

/// Evaluates the condition, then the branch it selects, with the float answers from position
/// `at` on.
fn evaluate_if_expression<F: FloatArithmetic>(
    condition: &Expr,
    then_branch: &Expr,
    else_branch: &Expr,
    environment: &Environment,
    floats: &F,
    depth: usize,
    Ghost(at): Ghost<nat>,
) -> (out: (Result<Value, Error>, Ghost<Seq<FloatCall>>))
    ensures
        forall|answers: Answers|
            agrees(answers, out.1@, at) ==> #[trigger] eval_if(
                *condition,
                *then_branch,
                *else_branch,
                environment@,
                depth as nat,
                answers,
                at,
            ) == (result_view(out.0), at + out.1@.len()),
    decreases depth, 1nat,
{
    let (condition_result, Ghost(u1)) = evaluate_at(
        condition,
        environment,
        floats,
        depth,
        Ghost(at),
    );
    let condition_value = match condition_result {
        Ok(v) => v,
        Err(e) => {
            proof {
                assert forall|a: Answers| agrees(a, u1, at) implies #[trigger] eval_if(
                    *condition,
                    *then_branch,
                    *else_branch,
                    environment@,
                    depth as nat,
                    a,
                    at,
                ) == (Err::<ValueView, ErrorView>(error_view(e)), at + u1.len()) by {
                    assert(eval_expr(*condition, environment@, depth as nat, a, at) == (
                        Err::<ValueView, ErrorView>(error_view(e)),
                        at + u1.len(),
                    ));
                }
            }
            return (Err(e), Ghost(u1));
        },
    };
    let ghost cv = condition_value@;
    let ghost p: nat = (at + u1.len()) as nat;
    let chosen = match condition_value {
        Value::Bool(true) => then_branch,
        Value::Bool(false) => else_branch,
        _ => {
            proof {
                assert forall|a: Answers| agrees(a, u1, at) implies #[trigger] eval_if(
                    *condition,
                    *then_branch,
                    *else_branch,
                    environment@,
                    depth as nat,
                    a,
                    at,
                ) == (Err::<ValueView, ErrorView>(ErrorView::UnsupportedOperation), at + u1.len())
                    by {
                    assert(eval_expr(*condition, environment@, depth as nat, a, at) == (
                        Ok::<ValueView, ErrorView>(cv),
                        p,
                    ));
                }
            }
            return (Err(Error::UnsupportedOperation), Ghost(u1));
        },
    };
    let (res, Ghost(u2)) = evaluate_at(chosen, environment, floats, depth, Ghost(p));
    proof {
        assert forall|a: Answers| agrees(a, u1 + u2, at) implies #[trigger] eval_if(
            *condition,
            *then_branch,
            *else_branch,
            environment@,
            depth as nat,
            a,
            at,
        ) == (result_view(res), at + (u1 + u2).len()) by {
            lemma_agrees_concat(a, u1, u2, at);
            assert(eval_expr(*condition, environment@, depth as nat, a, at) == (
                Ok::<ValueView, ErrorView>(cv),
                p,
            ));
            assert(eval_expr(*chosen, environment@, depth as nat, a, p) == (
                result_view(res),
                p + u2.len(),
            ));
        }
    }
    (res, Ghost(u1 + u2))
}

/// Evaluates the scrutinee, then the first branch whose pattern matches it, with the float
/// answers from position `at` on.
fn evaluate_case_expression<F: FloatArithmetic>(
    expr: &Expr,
    branches: &Vec<(Pattern, Expr)>,
    environment: &Environment,
    floats: &F,
    depth: usize,
    Ghost(at): Ghost<nat>,
) -> (out: (Result<Value, Error>, Ghost<Seq<FloatCall>>))
    ensures
        forall|answers: Answers|
            agrees(answers, out.1@, at) ==> #[trigger] eval_case(
                *expr,
                branches@,
                environment@,
                depth as nat,
                answers,
                at,
            ) == (result_view(out.0), at + out.1@.len()),
    decreases depth, 1nat,
{
    let (scrutinee, Ghost(u1)) = evaluate_at(expr, environment, floats, depth, Ghost(at));
    let expr_value = match scrutinee {
        Ok(v) => v,
        Err(e) => {
            proof {
                assert forall|a: Answers| agrees(a, u1, at) implies #[trigger] eval_case(
                    *expr,
                    branches@,
                    environment@,
                    depth as nat,
                    a,
                    at,
                ) == (Err::<ValueView, ErrorView>(error_view(e)), at + u1.len()) by {
                    assert(eval_expr(*expr, environment@, depth as nat, a, at) == (
                        Err::<ValueView, ErrorView>(error_view(e)),
                        at + u1.len(),
                    ));
                }
            }
            return (Err(e), Ghost(u1));
        },
    };
    let ghost p: nat = (at + u1.len()) as nat;
    let mut i: usize = 0;
    while i < branches.len()
        invariant
            forall|a: Answers|
                agrees(a, u1, at) ==> #[trigger] eval_expr(
                    *expr,
                    environment@,
                    depth as nat,
                    a,
                    at,
                ) == (Ok::<ValueView, ErrorView>(expr_value@), p),
            p == at + u1.len(),
            i <= branches@.len(),
            forall|j: int| 0 <= j < i ==> !branch_fits(expr_value@)(#[trigger] branches@[j]),
        decreases branches@.len() - i,
    {
        if pattern_matches_values(&branches[i].0, &expr_value) {
            proof {
                lemma_first_index(branches@, branch_fits(expr_value@), i as int);
            }
            let (res, Ghost(u2)) = evaluate_at(&branches[i].1, environment, floats, depth, Ghost(p));
            proof {
                assert forall|a: Answers| agrees(a, u1 + u2, at) implies #[trigger] eval_case(
                    *expr,
                    branches@,
                    environment@,
                    depth as nat,
                    a,
                    at,
                ) == (result_view(res), at + (u1 + u2).len()) by {
                    lemma_agrees_concat(a, u1, u2, at);
                    assert(eval_expr(*expr, environment@, depth as nat, a, at) == (
                        Ok::<ValueView, ErrorView>(expr_value@),
                        p,
                    ));
                    assert(eval_expr(branches@[i as int].1, environment@, depth as nat, a, p) == (
                        result_view(res),
                        p + u2.len(),
                    ));
                }
            }
            return (res, Ghost(u1 + u2));
        }
        i = i + 1;
    }
    proof {
        lemma_first_index(branches@, branch_fits(expr_value@), branches@.len() as int);
        assert forall|a: Answers| agrees(a, u1, at) implies #[trigger] eval_case(
            *expr,
            branches@,
            environment@,
            depth as nat,
            a,
            at,
        ) == (Err::<ValueView, ErrorView>(ErrorView::NoMatchingCase), at + u1.len()) by {
            assert(eval_expr(*expr, environment@, depth as nat, a, at) == (
                Ok::<ValueView, ErrorView>(expr_value@),
                p,
            ));
        }
    }
    (Err(Error::NoMatchingCase), Ghost(u1))
}

/// Whether a case pattern matches a value.
pub fn pattern_matches_values(pattern: &Pattern, value: &Value) -> (r: bool)
    ensures
        r == pattern_matches(*pattern, value@),
{
    match (pattern, value) {
        (Pattern::Bool(p_bool), Value::Bool(v_bool)) => *p_bool == *v_bool,
        (Pattern::Integer(p_int), Value::Integer(v_int)) => *p_int == *v_int,
        (Pattern::Anything, _) => true,
        _ => false,
    }
}

/// Evaluates the function, then applies it to the arguments, with the float answers from
/// position `at` on.
fn evaluate_function_call<F: FloatArithmetic>(
    function_expr: &Rc<Expr>,
    arg_exprs: &Vec<Rc<Expr>>,
    environment: &Environment,
    floats: &F,
    depth: usize,
    Ghost(at): Ghost<nat>,
) -> (out: (Result<Value, Error>, Ghost<Seq<FloatCall>>))
    ensures
        forall|answers: Answers|
            agrees(answers, out.1@, at) ==> #[trigger] eval_call(
                **function_expr,
                arg_exprs@,
                environment@,
                depth as nat,
                answers,
                at,
            ) == (result_view(out.0), at + out.1@.len()),
    decreases depth, 2nat,
{
    let (function_result, Ghost(u1)) = evaluate_at(
        function_expr,
        environment,
        floats,
        depth,
        Ghost(at),
    );
    let func = match function_result {
        Ok(v) => v,
        Err(e) => {
            proof {
                assert forall|a: Answers| agrees(a, u1, at) implies #[trigger] eval_call(
                    **function_expr,
                    arg_exprs@,
                    environment@,
                    depth as nat,
                    a,
                    at,
                ) == (Err::<ValueView, ErrorView>(error_view(e)), at + u1.len()) by {
                    assert(eval_expr(**function_expr, environment@, depth as nat, a, at) == (
                        Err::<ValueView, ErrorView>(error_view(e)),
                        at + u1.len(),
                    ));
                }
            }
            return (Err(e), Ghost(u1));
        },
    };
    let ghost p: nat = (at + u1.len()) as nat;
    let ghost fv = func@;
    let (res, Ghost(used)) = match func {
        Value::PartiallyAppliedFunc { func, values } => {
            match func {
                Func::UserFunc { args, expr } => {
                    // If there are enough entries in values (the already applied values) and
                    // arg_exprs (the arguments provided at this call site) then we can evaluate
                    // the function, otherwise we want to return a PartiallyAppliedFunc with the
                    // args_exprs evaulated and inserted into the values array
                    proof {
                        lemma_values_view_len(values@);
                    }
                    if arg_exprs.len() > args.len() || values.len() > args.len()
                        - arg_exprs.len() {
                        // TODO Evaluate the function and see if it returns another function to apply
                        // the args to? Or maybe that isn't how Elm syntax works
                        (Err(Error::TooManyArguments), Ghost(Seq::empty()))
                    } else if values.len() == args.len() - arg_exprs.len() {
                        // Filter the args down to the valid Pattern::Name entries and error if
                        // we encounter anything else
                        match parameter_names(&args) {
                            Err(e) => (Err(e), Ghost(Seq::empty())),
                            Ok(names) => {
                                // TODO: Don't evaluate in advance here but rather on demand when
                                // used then we don't have to store values in the Scope/Bindings
                                // which is a bit out of place at the moment. Could potentially
                                // have another cache for evaluated expressions/values
                                let (listed, Ghost(u2)) = evaluate_list(
                                    arg_exprs,
                                    environment,
                                    floats,
                                    depth,
                                    Ghost(p),
                                );
                                match listed {
                                    Err(e) => {
                                        proof {
                                            assert forall|a: Answers|
                                                agrees(a, u2, p) implies #[trigger] apply_value(
                                                fv,
                                                arg_exprs@.len(),
                                                eval_list(arg_exprs@, environment@, depth as nat, a, p),
                                                environment@,
                                                depth as nat,
                                                a,
                                                p,
                                            ) == (
                                                Err::<ValueView, ErrorView>(error_view(e)),
                                                p + u2.len(),
                                            ) by {
                                                assert(eval_list(
                                                    arg_exprs@,
                                                    environment@,
                                                    depth as nat,
                                                    a,
                                                    p,
                                                ) == (
                                                    Err::<Seq<ValueView>, ErrorView>(error_view(e)),
                                                    p + u2.len(),
                                                ));
                                            }
                                        }
                                        (Err(e), Ghost(u2))
                                    },
                                    Ok(arg_values) => {
                                        let ghost avs = values_view(arg_values@);
                                        let all = concat_values(values, arg_values);
                                        // Evaluate each argument to the function call and create a
                                        // map from argument value to argument name to use as a
                                        // scope within the function evaluation
                                        let pairs = bind_arguments(&names, &all);
                                        let arg_scope = Scope::from_bindings(pairs);
                                        let inner = add_local_scope(environment, arg_scope);
                                        let ghost q: nat = (p + u2.len()) as nat;
                                        let (res, Ghost(u3)) = evaluate_at(
                                            &expr,
                                            &inner,
                                            floats,
                                            depth,
                                            Ghost(q),
                                        );
                                        proof {
                                            assert forall|a: Answers|
                                                agrees(a, u2 + u3, p) implies #[trigger] apply_value(
                                                fv,
                                                arg_exprs@.len(),
                                                eval_list(arg_exprs@, environment@, depth as nat, a, p),
                                                environment@,
                                                depth as nat,
                                                a,
                                                p,
                                            ) == (result_view(res), p + (u2 + u3).len()) by {
                                                lemma_agrees_concat(a, u2, u3, p);
                                                assert(eval_list(
                                                    arg_exprs@,
                                                    environment@,
                                                    depth as nat,
                                                    a,
                                                    p,
                                                ) == (Ok::<Seq<ValueView>, ErrorView>(avs), q));
                                                assert(eval_expr(*expr, inner@, depth as nat, a, q)
                                                    == (result_view(res), q + u3.len()));
                                            }
                                        }
                                        (res, Ghost(u2 + u3))
                                    },
                                }
                            },
                        }
                    } else {
                        let (listed, Ghost(u2)) = evaluate_list(
                            arg_exprs,
                            environment,
                            floats,
                            depth,
                            Ghost(p),
                        );
                        let ghost lv = results_view(listed);
                        let res = match listed {
                            Ok(arg_values) => Ok(
                                Value::PartiallyAppliedFunc {
                                    func: Func::UserFunc { args, expr },
                                    values: concat_values(values, arg_values),
                                },
                            ),
                            Err(e) => Err(e),
                        };
                        proof {
                            assert forall|a: Answers|
                                agrees(a, u2, p) implies #[trigger] apply_value(
                                fv,
                                arg_exprs@.len(),
                                eval_list(arg_exprs@, environment@, depth as nat, a, p),
                                environment@,
                                depth as nat,
                                a,
                                p,
                            ) == (result_view(res), p + u2.len()) by {
                                assert(eval_list(arg_exprs@, environment@, depth as nat, a, p) == (
                                    lv,
                                    p + u2.len(),
                                ));
                            }
                        }
                        (res, Ghost(u2))
                    }
                },
                Func::BuiltInFunc(name) => {
                    match get_built_in(&name) {
                        None => (Err(Error::UnknownFunction), Ghost(Seq::empty())),
                        Some(built_in_func) => {
                            let (listed, Ghost(u2)) = evaluate_list(
                                arg_exprs,
                                environment,
                                floats,
                                depth,
                                Ghost(p),
                            );
                            let ghost lv = results_view(listed);
                            let res = match listed {
                                Ok(arg_values) => match built_in_func.call(arg_values) {
                                    Ok(v) => Ok(v),
                                    Err(e) => Err(Error::FunctionError(e)),
                                },
                                Err(e) => Err(e),
                            };
                            proof {
                                assert forall|a: Answers|
                                    agrees(a, u2, p) implies #[trigger] apply_value(
                                    fv,
                                    arg_exprs@.len(),
                                    eval_list(arg_exprs@, environment@, depth as nat, a, p),
                                    environment@,
                                    depth as nat,
                                    a,
                                    p,
                                ) == (result_view(res), p + u2.len()) by {
                                    assert(eval_list(arg_exprs@, environment@, depth as nat, a, p)
                                        == (lv, p + u2.len()));
                                }
                            }
                            (res, Ghost(u2))
                        },
                    }
                },
            }
        },
        _ => (Err(Error::UnknownFunction), Ghost(Seq::empty())),
    };
    proof {
        assert forall|a: Answers| agrees(a, u1 + used, at) implies #[trigger] eval_call(
            **function_expr,
            arg_exprs@,
            environment@,
            depth as nat,
            a,
            at,
        ) == (result_view(res), at + (u1 + used).len()) by {
            lemma_agrees_concat(a, u1, used, at);
            assert(eval_expr(**function_expr, environment@, depth as nat, a, at) == (
                Ok::<ValueView, ErrorView>(fv),
                p,
            ));
            assert(apply_value(
                fv,
                arg_exprs@.len(),
                eval_list(arg_exprs@, environment@, depth as nat, a, p),
                environment@,
                depth as nat,
                a,
                p,
            ) == (result_view(res), p + used.len()));
        }
    }
    (res, Ghost(u1 + used))
}

/// The names of the parameters, or the error for the first one that is not a plain name.
fn parameter_names(args: &Vec<Pattern>) -> (r: Result<Vec<String>, Error>)
    ensures
        match first_index(args@, not_a_name()) {
            Some(i) => r matches Err(e) && error_view(e) == ErrorView::UnsupportedArgumentPattern(
                pattern_debug(args@[i]),
            ),
            None => r matches Ok(names) && names.deep_view() == param_names(args@) && names@.len()
                == args@.len(),
        },
{
    let mut names: Vec<String> = Vec::new();
    let mut i: usize = 0;
    while i < args.len()
        invariant
            i <= args@.len(),
            forall|j: int| 0 <= j < i ==> !not_a_name()(#[trigger] args@[j]),
            names.deep_view() == param_names(args@.take(i as int)),
            names@.len() == i,
        decreases args@.len() - i,
    {
        match &args[i] {
            Pattern::Name(name) => {
                let ghost before = names.deep_view();
                names.push(name.clone());
                proof {
                    assert(names.deep_view() =~= before.push(name@));
                    assert(args@.take(i + 1).drop_last() =~= args@.take(i as int));
                    assert(param_names(args@.take(i + 1)) =~= param_names(args@.take(i as int)).push(
                        name@,
                    ));
                }
            },
            other => {
                proof {
                    lemma_first_index(args@, not_a_name(), i as int);
                }
                return Err(Error::UnsupportedArgumentPattern(pattern_text(other)));
            },
        }
        i = i + 1;
    }
    proof {
        lemma_first_index(args@, not_a_name(), args@.len() as int);
    }
    assert(args@.take(args@.len() as int) =~= args@);
    Ok(names)
}

/// The values of `a` followed by those of `b`.
fn concat_values(a: Vec<Value>, b: Vec<Value>) -> (r: Vec<Value>)
    ensures
        values_view(r@) == values_view(a@) + values_view(b@),
        r@.len() == a@.len() + b@.len(),
{
    let ghost a0 = a@;
    let mut r = a;
    let mut i: usize = 0;
    while i < b.len()
        invariant
            i <= b@.len(),
            r@.len() == a0.len() + i,
            values_view(r@) == values_view(a0) + values_view(b@.take(i as int)),
        decreases b@.len() - i,
    {
        let x = b[i].copy();
        let ghost before = r@;
        r.push(x);
        proof {
            lemma_values_view_push(before, x);
            assert(b@.take(i + 1).drop_last() =~= b@.take(i as int));
            assert(values_view(b@.take(i + 1)) == values_view(b@.take(i as int)).push(
                value_view(b@[i as int]),
            ));
            assert(values_view(r@) =~= values_view(a0) + values_view(b@.take(i + 1)));
        }
        i = i + 1;
    }
    proof {
        assert(b@.take(b@.len() as int) =~= b@);
    }
    r
}

/// Binds each name to the value at its position.
fn bind_arguments(names: &Vec<String>, vals: &Vec<Value>) -> (r: Bindings)
    requires
        names@.len() <= vals@.len(),
    ensures
        r@ == argument_bindings(names.deep_view(), values_view(vals@)),
{
    let mut bindings = Bindings::new();
    let mut i: usize = 0;
    while i < names.len()
        invariant
            names@.len() <= vals@.len(),
            i <= names@.len(),
            bindings@ == argument_bindings(names.deep_view().take(i as int), values_view(vals@)),
        decreases names@.len() - i,
    {
        proof {
            assert(names.deep_view().take(i + 1).drop_last() =~= names.deep_view().take(i as int));
            lemma_values_view_index(vals@, i as int);
        }
        bindings.insert(
            QualifiedLowerName::simple(names[i].clone()),
            Binding::Value(vals[i].copy()),
        );
        i = i + 1;
    }
    assert(names.deep_view().take(names@.len() as int) =~= names.deep_view());
    bindings
}

} // verus!
