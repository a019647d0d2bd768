//! The type checker: infers a type term for `main`'s body and checks that `main` takes the
//! list of program arguments and gives a string.
use std::rc::Rc;
use vstd::prelude::*;

use self::term::{
    lemma_terms_view_index, lemma_terms_view_len, same_term, terms_view, Term, TermView, Value,
};
use self::unify::{new_substitutions, subs_map, unify, unify_spec, SubsView, MAX_UNIFY_DEPTH};
use crate::ast::{Expr, Module, Pattern, QualifiedLowerName, Stmt};
use crate::bindings::{Binding, BindingView};
use crate::builtins::{builtin_term, list_of};
use crate::env::{
    self, add_local_scope, env_lookup, env_operator, full_name, get_built_in, get_operator,
    kernel_function, Bindings, EnvView, Environment, FoundBinding, LookupView, NameView,
    OperatorView, Scope,
};
use crate::project;
use crate::text::{lemma_nat_digits_injective, nat_digits, owned, push_str, u64_text};
use vstd::wrapping::u32_specs;

pub mod term;
pub mod unify;

verus! {

broadcast use vstd::string::group_string_axioms;

#[derive(Debug)]
pub enum Error {
    UnknownBinding(String),
    UnhandledExpression(String),
    UnifyError(unify::Error),
    UnknownFunction(QualifiedLowerName),
    UnknownOperator(String),
    UnknownVarName(String),
    UnknownPattern(String),
    ArgumentMismatch(u32),
    TooManyArguments,
    Broken(&'static str),
    ScopeError(env::Error),
    ImpossiblyEmptyList,
    ImpossiblyEmptyCase,
    Unknown,
    /// Checking nested deeper than `MAX_CHECK_DEPTH`.
    RecursionLimit,
}

/// A checking error as a mathematical value.
pub enum ErrorView {
    UnknownBinding(Seq<char>),
    UnhandledExpression(Seq<char>),
    UnifyError(unify::ErrorView),
    UnknownFunction(NameView),
    UnknownOperator(Seq<char>),
    UnknownVarName(Seq<char>),
    UnknownPattern(Seq<char>),
    ArgumentMismatch(u32),
    TooManyArguments,
    Broken(Seq<char>),
    ScopeError(env::Error),
    ImpossiblyEmptyList,
    ImpossiblyEmptyCase,
    Unknown,
    RecursionLimit,
}

pub open spec fn error_view(e: Error) -> ErrorView {
    match e {
        Error::UnknownBinding(s) => ErrorView::UnknownBinding(s@),
        Error::UnhandledExpression(s) => ErrorView::UnhandledExpression(s@),
        Error::UnifyError(u) => ErrorView::UnifyError(unify::error_view(u)),
        Error::UnknownFunction(n) => ErrorView::UnknownFunction(n@),
        Error::UnknownOperator(s) => ErrorView::UnknownOperator(s@),
        Error::UnknownVarName(s) => ErrorView::UnknownVarName(s@),
        Error::UnknownPattern(s) => ErrorView::UnknownPattern(s@),
        Error::ArgumentMismatch(n) => ErrorView::ArgumentMismatch(n),
        Error::TooManyArguments => ErrorView::TooManyArguments,
        Error::Broken(s) => ErrorView::Broken(s@),
        Error::ScopeError(e) => ErrorView::ScopeError(e),
        Error::ImpossiblyEmptyList => ErrorView::ImpossiblyEmptyList,
        Error::ImpossiblyEmptyCase => ErrorView::ImpossiblyEmptyCase,
        Error::Unknown => ErrorView::Unknown,
        Error::RecursionLimit => ErrorView::RecursionLimit,
    }
}

pub open spec fn term_result(r: Result<Term, Error>) -> Result<TermView, ErrorView> {
    match r {
        Ok(t) => Ok(t@),
        Err(e) => Err(error_view(e)),
    }
}

pub open spec fn terms_result(r: Result<Vec<Term>, Error>) -> Result<Seq<TermView>, ErrorView> {
    match r {
        Ok(ts) => Ok(terms_view(ts@)),
        Err(e) => Err(error_view(e)),
    }
}

/// How deeply checking may nest: as deeply as the machine allows.
pub const MAX_CHECK_DEPTH: usize = usize::MAX;

// ---------------------------------------------------------------------------------------------
// Fresh type variables
// ---------------------------------------------------------------------------------------------
/// The name of the fresh variable with number `id`.
pub open spec fn var_name(id: u32) -> Seq<char> {
    "var-"@ + nat_digits(id as nat)
}

/// The number after `id`.
pub open spec fn next_id(id: u32) -> u32 {
    u32_specs::wrapping_add(id, 1)
}

/// Hands out fresh type variables, numbered from 1.
pub struct Context {
    pub next_unique_id: u32,
}

impl Context {
    pub fn new() -> (r: Self)
        ensures
            r.next_unique_id == 1,
    {
        Self { next_unique_id: 1 }
    }

    /// A fresh type variable.
    pub fn unique_var(&mut self) -> (t: Term)
        ensures
            t@ == TermView::Var(var_name(old(self).next_unique_id)),
            final(self).next_unique_id == next_id(old(self).next_unique_id),
    {
        let id = self.next_unique_id;
        self.next_unique_id = id.wrapping_add(1);
        let mut name = owned("var-");
        let digits = u64_text(id as u64);
        push_str(&mut name, digits.as_str());
        Term::Var(name)
    }
}

impl Default for Context {
    fn default() -> (r: Self)
        ensures
            r.next_unique_id == 1,
    {
        Self::new()
    }
}


/// Fresh variables with different numbers have different names.
pub proof fn law_fresh_variables_differ(i: u32, j: u32)
    requires
        i != j,
    ensures
        var_name(i) != var_name(j),
{
    if var_name(i) == var_name(j) {
        reveal_strlit("var-");
        assert(var_name(i).skip(4) =~= nat_digits(i as nat));
        assert(var_name(j).skip(4) =~= nat_digits(j as nat));
        lemma_nat_digits_injective(i as nat, j as nat);
    }
}

// ---------------------------------------------------------------------------------------------
// Semantics
// ---------------------------------------------------------------------------------------------
/// The outcome of inferring a term, and the number of the next fresh variable.
pub type Inferred = (Result<TermView, ErrorView>, u32);

/// The term `List a`.
pub open spec fn list_view(t: TermView) -> TermView {
    TermView::Type("List"@, seq![t])
}

/// The term of a pattern: a fresh variable for the wildcard, a variable named as the pattern
/// for a name.
pub open spec fn pattern_term(p: Pattern, id: u32) -> (TermView, u32) {
    match p {
        Pattern::Anything => (TermView::Var(var_name(id)), next_id(id)),
        Pattern::Bool(_) => (TermView::Constant(Value::Bool), id),
        Pattern::Integer(_) => (TermView::Constant(Value::Integer), id),
        Pattern::Name(n) => (TermView::Var(n@), id),
    }
}

/// Each name the parameters bind, bound to a fresh variable, in order.
pub open spec fn fresh_arg_bindings(params: Seq<Pattern>, id: u32) -> (
    Map<NameView, BindingView>,
    u32,
)
    decreases params.len(),
{
    if params.len() == 0 {
        (Map::empty(), id)
    } else {
        let (m, i) = fresh_arg_bindings(params.drop_last(), id);
        match params.last() {
            Pattern::Name(n) => (
                m.insert(
                    (Seq::empty(), seq![n@]),
                    BindingView::UserArg(TermView::Var(var_name(i))),
                ),
                next_id(i),
            ),
            _ => (m, i),
        }
    }
}

/// Each name the parameters of `main` bind, bound to a variable of the same name.
pub open spec fn main_arg_bindings(params: Seq<Pattern>) -> Map<NameView, BindingView>
    decreases params.len(),
{
    if params.len() == 0 {
        Map::empty()
    } else {
        let m = main_arg_bindings(params.drop_last());
        match params.last() {
            Pattern::Name(n) => m.insert(
                (Seq::empty(), seq![n@]),
                BindingView::UserArg(TermView::Var(n@)),
            ),
            _ => m,
        }
    }
}

/// The function term `p1 -> ... -> pn -> result` for parameters `p1 .. pn`, the last
/// parameter's term made first.
pub open spec fn wrap_signature(params: Seq<Pattern>, result: TermView, id: u32) -> (
    TermView,
    u32,
)
    decreases params.len(),
{
    if params.len() == 0 {
        (result, id)
    } else {
        let (pt, i) = pattern_term(params.last(), id);
        wrap_signature(params.drop_last(), TermView::Function(Box::new(pt), Box::new(result)), i)
    }
}

/// Applying a function term to argument terms: each argument is unified with the parameter
/// it meets, and what is left of the signature after the last argument is the result.
pub open spec fn resolve(signature: TermView, args: Seq<TermView>) -> Result<TermView, ErrorView>
    decreases args.len(),
{
    match signature {
        TermView::Function(from, to) => if args.len() == 0 {
            Err(ErrorView::Broken("no more args"@))
        } else {
            match unify_spec(args[0], *from, Map::empty(), MAX_UNIFY_DEPTH as nat) {
                Err(u) => Err(ErrorView::UnifyError(u)),
                Ok(_) => if args.len() == 1 {
                    Ok(*to)
                } else {
                    resolve(*to, args.drop_first())
                },
            }
        },
        _ => Err(ErrorView::Broken("signature is not a function"@)),
    }
}

/// Unifying each term with the one before it, threading the substitution; the last term is
/// the list's element term.
pub open spec fn list_fold(ts: Seq<TermView>) -> Result<(SubsView, TermView), ErrorView>
    decreases ts.len(),
{
    if ts.len() == 0 {
        Err(ErrorView::ImpossiblyEmptyList)
    } else if ts.len() == 1 {
        Ok((Map::empty(), ts[0]))
    } else {
        match list_fold(ts.drop_last()) {
            Ok(p) => match unify_spec(ts.last(), p.1, p.0, MAX_UNIFY_DEPTH as nat) {
                Ok(s) => Ok((s, ts.last())),
                Err(u) => Err(ErrorView::UnifyError(u)),
            },
            Err(e) => Err(e),
        }
    }
}

/// Inferring the term of an expression, nesting at most `fuel` deep, with fresh variables
/// numbered from `id`.
pub open spec fn term_of(e: Expr, env: EnvView, id: u32, fuel: nat) -> Inferred
    decreases fuel, 0nat, 0nat,
{
    if fuel == 0 {
        (Err(ErrorView::RecursionLimit), id)
    } else {
        let f = (fuel - 1) as nat;
        match e {
            Expr::Bool(_) => (Ok(TermView::Constant(Value::Bool)), id),
            Expr::Integer(_) => (Ok(TermView::Constant(Value::Integer)), id),
            Expr::String(_) => (Ok(TermView::Constant(Value::String)), id),
            Expr::Call { function, args } => call_term(*function, args@, env, id, f),
            Expr::BinOp { operator, left, right } => binary_term(
                operator@,
                *left,
                *right,
                env,
                id,
                f,
            ),
            Expr::VarName(name) => var_term(name@, env, id, f),
            Expr::If { condition, then_branch, else_branch } => if_term(
                *condition,
                *then_branch,
                *else_branch,
                env,
                id,
                f,
            ),
            Expr::Case { expr, branches } => case_term(*expr, branches@, env, id, f),
            Expr::List(items) => list_term(items@, env, id, f),
            Expr::Float(x) => (Err(ErrorView::UnhandledExpression("Float("@ + x.0@ + ")"@)), id),
        }
    }
}

/// The terms of expressions, in order; the first error ends it.
pub open spec fn terms_of(items: Seq<Rc<Expr>>, env: EnvView, id: u32, fuel: nat) -> (
    Result<Seq<TermView>, ErrorView>,
    u32,
)
    decreases fuel, 1nat, items.len(),
{
    if items.len() == 0 {
        (Ok(Seq::empty()), id)
    } else {
        let (r, i1) = terms_of(items.drop_last(), env, id, fuel);
        match r {
            Err(e) => (Err(e), i1),
            Ok(ts) => {
                let (t, i2) = term_of(*items.last(), env, i1, fuel);
                match t {
                    Ok(x) => (Ok(ts.push(x)), i2),
                    Err(e) => (Err(e), i2),
                }
            },
        }
    }
}

/// The term of a name: a kernel function's own term; a bound expression's term in the
/// environment the lookup gives; a function's signature; an argument's term.
pub open spec fn var_term(name: NameView, env: EnvView, id: u32, fuel: nat) -> Inferred
    decreases fuel, 2nat, 0nat,
{
    match env_lookup(env, name) {
        LookupView::Kernel(n) => match kernel_function(full_name(n)) {
            Some(b) => (Ok(builtin_term(b)), id),
            None => (Err(ErrorView::UnknownFunction(n)), id),
        },
        LookupView::Found(BindingView::UserBinding(e), found_env) => term_of(*e, found_env, id, fuel),
        LookupView::Found(BindingView::UserFunc(s), _) => match *s {
            Stmt::Function { args, expr, .. } => function_term(args@, *expr, env, id, fuel),
            _ => (Err(ErrorView::UnknownVarName(full_name(name))), id),
        },
        LookupView::Found(BindingView::UserArg(t), _) => (Ok(t), id),
        _ => (Err(ErrorView::UnknownVarName(full_name(name))), id),
    }
}

/// The signature of a function: its body's term, with its parameters bound to fresh
/// variables in a new innermost scope of the current environment, behind its parameters'
/// terms.
pub open spec fn function_term(params: Seq<Pattern>, body: Expr, env: EnvView, id: u32, fuel: nat) -> Inferred
    decreases fuel, 1nat, 0nat,
{
    let (bindings, id1) = fresh_arg_bindings(params, id);
    let env2 = (env.0, seq![(bindings, Map::<Seq<char>, OperatorView>::empty())] + env.1);
    let (br, id2) = term_of(body, env2, id1, fuel);
    match br {
        Err(e) => (Err(e), id2),
        Ok(bt) => {
            let (sig, id3) = wrap_signature(params, bt, id2);
            (Ok(sig), id3)
        },
    }
}

/// The term of a binary expression: the operator's function bound to an expression is
/// applied to the operands' terms; any other operator fails.
pub open spec fn binary_term(op: Seq<char>, left: Expr, right: Expr, env: EnvView, id: u32, fuel: nat) -> Inferred
    decreases fuel, 1nat, 0nat,
{
    match env_operator(env, op) {
        None => (Err(ErrorView::UnknownOperator(op)), id),
        Some(o) => match o.4 {
            BindingView::UserBinding(e) => {
                let (sr, i1) = term_of(*e, env, id, fuel);
                match sr {
                    Err(x) => (Err(x), i1),
                    Ok(sig) => {
                        let (lr, i2) = term_of(left, env, i1, fuel);
                        match lr {
                            Err(x) => (Err(x), i2),
                            Ok(l) => {
                                let (rr, i3) = term_of(right, env, i2, fuel);
                                match rr {
                                    Err(x) => (Err(x), i3),
                                    Ok(r) => (resolve(sig, seq![l, r]), i3),
                                }
                            },
                        }
                    },
                }
            },
            _ => (Err(ErrorView::UnknownFunction(o.3)), id),
        },
    }
}

/// The term of a call: the function's term applied to the arguments' terms.
pub open spec fn call_term(function: Expr, args: Seq<Rc<Expr>>, env: EnvView, id: u32, fuel: nat) -> Inferred
    decreases fuel, 2nat, 0nat,
{
    let (fr, i1) = term_of(function, env, id, fuel);
    match fr {
        Err(e) => (Err(e), i1),
        Ok(ft) => {
            let (ar, i2) = terms_of(args, env, i1, fuel);
            match ar {
                Err(e) => (Err(e), i2),
                Ok(ats) => (resolve(ft, ats), i2),
            }
        },
    }
}

/// The term of a conditional: the condition must unify with `Bool`, and both branches must
/// have the same term.
pub open spec fn if_term(
    condition: Expr,
    then_branch: Expr,
    else_branch: Expr,
    env: EnvView,
    id: u32,
    fuel: nat,
) -> Inferred
    decreases fuel, 1nat, 0nat,
{
    let (cr, i1) = term_of(condition, env, id, fuel);
    match cr {
        Err(e) => (Err(e), i1),
        Ok(ct) => match unify_spec(
            ct,
            TermView::Constant(Value::Bool),
            Map::empty(),
            MAX_UNIFY_DEPTH as nat,
        ) {
            Err(u) => (Err(ErrorView::UnifyError(u)), i1),
            Ok(_) => {
                let (tr, i2) = term_of(then_branch, env, i1, fuel);
                match tr {
                    Err(e) => (Err(e), i2),
                    Ok(tt) => {
                        let (er, i3) = term_of(else_branch, env, i2, fuel);
                        match er {
                            Err(e) => (Err(e), i3),
                            Ok(et) => if tt == et {
                                (Ok(tt), i3)
                            } else {
                                (Err(ErrorView::Broken("else & then don't match"@)), i3)
                            },
                        }
                    },
                }
            },
        },
    }
}

/// A conditional has a term only when both of its branches have that same term, and then it
/// is that term: whenever the terms of the two branches differ, or either branch has none,
/// inferring the conditional's term fails.
pub proof fn law_if_branches_agree(
    condition: Expr,
    then_branch: Expr,
    else_branch: Expr,
    env: EnvView,
    id: u32,
    fuel: nat,
)
    ensures
        ({
            let i1 = term_of(condition, env, id, fuel).1;
            let (tr, i2) = term_of(then_branch, env, i1, fuel);
            let er = term_of(else_branch, env, i2, fuel).0;
            if_term(condition, then_branch, else_branch, env, id, fuel).0 matches Ok(t)
                ==> tr == Ok::<TermView, ErrorView>(t) && er == Ok::<TermView, ErrorView>(t)
        }),
{
}

/// The branches of a case: each pattern's term must unify with the scrutinee's term; the
/// last branch's term is the result.
pub open spec fn branches_term(
    scrutinee: TermView,
    branches: Seq<(Pattern, Expr)>,
    env: EnvView,
    id: u32,
    fuel: nat,
) -> (Result<Option<TermView>, ErrorView>, u32)
    decreases fuel, 1nat, branches.len(),
{
    if branches.len() == 0 {
        (Ok(None), id)
    } else {
        let (r, i1) = branches_term(scrutinee, branches.drop_last(), env, id, fuel);
        match r {
            Err(e) => (Err(e), i1),
            Ok(_) => {
                let (pt, i2) = pattern_term(branches.last().0, i1);
                match unify_spec(scrutinee, pt, Map::empty(), MAX_UNIFY_DEPTH as nat) {
                    Err(u) => (Err(ErrorView::UnifyError(u)), i2),
                    Ok(_) => {
                        let (bt, i3) = term_of(branches.last().1, env, i2, fuel);
                        match bt {
                            Ok(t) => (Ok(Some(t)), i3),
                            Err(e) => (Err(e), i3),
                        }
                    },
                }
            },
        }
    }
}

/// The term of a case expression.
pub open spec fn case_term(scrutinee: Expr, branches: Seq<(Pattern, Expr)>, env: EnvView, id: u32, fuel: nat) -> Inferred
    decreases fuel, 2nat, 0nat,
{
    let (sr, i1) = term_of(scrutinee, env, id, fuel);
    match sr {
        Err(e) => (Err(e), i1),
        Ok(st) => {
            let (br, i2) = branches_term(st, branches, env, i1, fuel);
            match br {
                Ok(Some(t)) => (Ok(t), i2),
                Ok(None) => (Err(ErrorView::ImpossiblyEmptyCase), i2),
                Err(e) => (Err(e), i2),
            }
        },
    }
}

/// The term of a list: `List` of a fresh variable when empty, else `List` of the last item's
/// term, once all items' terms unify in turn.
pub open spec fn list_term(items: Seq<Rc<Expr>>, env: EnvView, id: u32, fuel: nat) -> Inferred
    decreases fuel, 2nat, 0nat,
{
    if items.len() == 0 {
        (Ok(list_view(TermView::Var(var_name(id)))), next_id(id))
    } else {
        let (r, i1) = terms_of(items, env, id, fuel);
        match r {
            Err(e) => (Err(e), i1),
            Ok(ts) => (
                match list_fold(ts) {
                    Ok(p) => Ok(list_view(p.1)),
                    Err(e) => Err(e),
                },
                i1,
            ),
        }
    }
}

/// The term `List String`.
pub open spec fn string_list() -> TermView {
    list_view(TermView::Constant(Value::String))
}

pub open spec fn main_name() -> NameView {
    (Seq::empty(), seq!["main"@])
}

/// Checking a module: `main` must be a function; with its parameters bound to variables of
/// their own names, the term `List String -> body` must unify with `List String -> String`.
pub open spec fn check_outcome(env: EnvView) -> Result<(), ErrorView> {
    match env_lookup(env, main_name()) {
        LookupView::Found(BindingView::UserFunc(s), _) => match *s {
            Stmt::Function { args, expr, .. } => {
                let env2 = (
                    env.0,
                    seq![(main_arg_bindings(args@), Map::<Seq<char>, OperatorView>::empty())]
                        + env.1,
                );
                match term_of(*expr, env2, 1, MAX_CHECK_DEPTH as nat).0 {
                    Err(e) => Err(e),
                    Ok(bt) => match unify_spec(
                        TermView::Function(Box::new(string_list()), Box::new(bt)),
                        TermView::Function(
                            Box::new(string_list()),
                            Box::new(TermView::Constant(Value::String)),
                        ),
                        Map::empty(),
                        MAX_UNIFY_DEPTH as nat,
                    ) {
                        Ok(_) => Ok(()),
                        Err(u) => Err(ErrorView::UnifyError(u)),
                    },
                }
            },
            _ => Err(ErrorView::UnknownBinding("main"@)),
        },
        _ => Err(ErrorView::UnknownBinding("main"@)),
    }
}

pub open spec fn unit_result(r: Result<(), Error>) -> Result<(), ErrorView> {
    match r {
        Ok(_) => Ok(()),
        Err(e) => Err(error_view(e)),
    }
}


// ---------------------------------------------------------------------------------------------
// Checking
// ---------------------------------------------------------------------------------------------
/// Checks that `main` takes the list of program arguments and gives a string.
pub fn check(_module: &Module, environment: &Environment, _settings: &project::Settings) -> (r:
    Result<(), Error>)
    ensures
        unit_result(r) == check_outcome(environment@),
{
    let main_name = QualifiedLowerName::simple(owned("main"));
    proof {
        reveal_strlit("main");
    }
    let mut context = Context::default();
    match environment.get_binding(&main_name) {
        Ok(FoundBinding::WithEnv(Binding::UserFunc(stmt_rc), _env)) => match &*stmt_rc {
            Stmt::Function { args, expr, .. } => {
                let mut bindings = Bindings::new();
                let mut i: usize = 0;
                while i < args.len()
                    invariant
                        i <= args@.len(),
                        bindings@ == main_arg_bindings(args@.take(i as int)),
                    decreases args@.len() - i,
                {
                    proof {
                        assert(args@.take(i + 1).drop_last() =~= args@.take(i as int));
                    }
                    let names = args[i].names();
                    proof {
                        assert(names.deep_view().len() == names@.len());
                        assert(args@.take(i + 1).last() == args@[i as int]);
                    }
                    if names.len() == 1 {
                        let name = &names[0];
                        proof {
                            assert(names.deep_view()[0] == name@);
                        }
                        bindings.insert(
                            QualifiedLowerName::simple(name.clone()),
                            Binding::UserArg(Term::Var(name.clone())),
                        );
                    }
                    i = i + 1;
                }
                assert(args@.take(args@.len() as int) =~= args@);
                let scope = Scope::from_bindings(bindings);
                let environment = add_local_scope(environment, scope);
                let body_term = match expression_to_term(
                    expr,
                    &mut context,
                    &environment,
                    MAX_CHECK_DEPTH,
                ) {
                    Ok(t) => t,
                    Err(e) => {
                        return Err(e);
                    },
                };
                let main_term = Term::Function(
                    Box::new(list_of(Term::Constant(Value::String))),
                    Box::new(body_term),
                );
                let target_term = Term::Function(
                    Box::new(list_of(Term::Constant(Value::String))),
                    Box::new(Term::Constant(Value::String)),
                );
                proof {
                    reveal_with_fuel(terms_view, 2);
                }
                let subs = new_substitutions();
                proof {
                    assert(subs_map(subs) =~= Map::<Seq<char>, TermView>::empty());
                }
                match unify(&main_term, &target_term, &subs) {
                    Ok(_) => Ok(()),
                    Err(e) => Err(Error::UnifyError(e)),
                }
            },
            _ => Err(Error::UnknownBinding(owned("main"))),
        },
        _ => Err(Error::UnknownBinding(owned("main"))),
    }
}

/// Infers the term of an expression, nesting at most `depth` deep.
pub fn expression_to_term(
    expr: &Expr,
    context: &mut Context,
    environment: &Environment,
    depth: usize,
) -> (r: Result<Term, Error>)
    ensures
        (term_result(r), final(context).next_unique_id) == term_of(
            *expr,
            environment@,
            old(context).next_unique_id,
            depth as nat,
        ),
    decreases depth, 0nat,
{
    if depth == 0 {
        return Err(Error::RecursionLimit);
    }
    let depth = depth - 1;
    match expr {
        Expr::Bool(_) => Ok(Term::Constant(Value::Bool)),
        Expr::Integer(_) => Ok(Term::Constant(Value::Integer)),
        Expr::String(_) => Ok(Term::Constant(Value::String)),
        Expr::Call { function, args } => call_to_term(function, args, context, environment, depth),
        Expr::BinOp { operator, left, right } => binary_expression_to_term(
            operator.as_str(),
            left,
            right,
            context,
            environment,
            depth,
        ),
        Expr::VarName(name) => var_name_to_term(name, context, environment, depth),
        Expr::If { condition, then_branch, else_branch } => if_expression_to_term(
            condition,
            then_branch,
            else_branch,
            context,
            environment,
            depth,
        ),
        Expr::Case { expr, branches } => case_expression_to_term(
            expr,
            branches,
            context,
            environment,
            depth,
        ),
        Expr::List(expressions) => list_to_term(expressions, context, environment, depth),
        Expr::Float(x) => {
            let mut text = owned("Float(");
            push_str(&mut text, x.0.as_str());
            push_str(&mut text, ")");
            Err(Error::UnhandledExpression(text))
        },
    }
}

/// The term of a name. Want to be able to fetch 'x' from the scope where 'x' is an typed or
/// untyped argument to the function that we might be in the scope of.
fn var_name_to_term(
    name: &QualifiedLowerName,
    context: &mut Context,
    environment: &Environment,
    depth: usize,
) -> (r: Result<Term, Error>)
    ensures
        (term_result(r), final(context).next_unique_id) == var_term(
            name@,
            environment@,
            old(context).next_unique_id,
            depth as nat,
        ),
    decreases depth, 2nat,
{
    match environment.get_binding(name) {
        Ok(FoundBinding::BuiltInFunc(name)) => {
            let built_in_func = match get_built_in(&name) {
                Some(f) => f,
                None => {
                    return Err(Error::UnknownFunction(name));
                },
            };
            // TODO: Don't resolve with fake args - just resolve directly to a term definition
            // for a function
            Ok(built_in_func.term())
        },
        Ok(FoundBinding::WithEnv(Binding::UserBinding(expr), env)) => {
            expression_to_term(&expr, context, &env, depth)
        },
        Ok(FoundBinding::WithEnv(Binding::UserFunc(stmt), _env)) => match &*stmt {
            Stmt::Function { args, expr, .. } => function_to_term(
                args,
                expr,
                context,
                environment,
                depth,
            ),
            _ => Err(Error::UnknownVarName(name.as_string())),
        },
        Ok(FoundBinding::WithEnv(Binding::UserArg(term), _env)) => Ok(term),
        _ => Err(Error::UnknownVarName(name.as_string())),
    }
}

/// The signature of a function statement.
fn function_to_term(
    args: &Vec<Pattern>,
    expr: &Expr,
    context: &mut Context,
    environment: &Environment,
    depth: usize,
) -> (r: Result<Term, Error>)
    ensures
        (term_result(r), final(context).next_unique_id) == function_term(
            args@,
            *expr,
            environment@,
            old(context).next_unique_id,
            depth as nat,
        ),
    decreases depth, 1nat,
{
    let ghost id0 = context.next_unique_id;
    let mut bindings = Bindings::new();
    let mut i: usize = 0;
    while i < args.len()
        invariant
            i <= args@.len(),
            (bindings@, context.next_unique_id) == fresh_arg_bindings(args@.take(i as int), id0),
        decreases args@.len() - i,
    {
        proof {
            assert(args@.take(i + 1).drop_last() =~= args@.take(i as int));
        }
        let names = args[i].names();
        proof {
            assert(names.deep_view().len() == names@.len());
            assert(args@.take(i + 1).last() == args@[i as int]);
        }
        if names.len() == 1 {
            let name = &names[0];
            proof {
                assert(names.deep_view()[0] == name@);
            }
            let var = context.unique_var();
            bindings.insert(QualifiedLowerName::simple(name.clone()), Binding::UserArg(var));
        }
        i = i + 1;
    }
    assert(args@.take(args@.len() as int) =~= args@);
    let scope = Scope::from_bindings(bindings);
    // TODO: The called function should probably not have the scope of the callee but
    // rather than scope of where it was parsed
    let environment = add_local_scope(environment, scope);
    // TODO: Might infer substitutions from this work that we should return and make
    // available
    let body_term = match expression_to_term(expr, context, &environment, depth) {
        Ok(t) => t,
        Err(e) => {
            return Err(e);
        },
    };
    let ghost id2 = context.next_unique_id;
    let ghost body_view = body_term@;
    let mut signature_term = body_term;
    let mut k = args.len();
    while k > 0
        invariant
            k <= args@.len(),
            wrap_signature(args@, body_view, id2) == wrap_signature(
                args@.take(k as int),
                signature_term@,
                context.next_unique_id,
            ),
        decreases k,
    {
        proof {
            assert(args@.take(k as int).drop_last() =~= args@.take(k - 1));
        }
        k = k - 1;
        let pattern_term = pattern_to_term(&args[k], context, &environment);
        signature_term = Term::Function(Box::new(pattern_term), Box::new(signature_term));
    }
    assert(args@.take(0) =~= Seq::<Pattern>::empty());
    assert(args@.take(args@.len() as int) =~= args@);
    Ok(signature_term)
}

fn binary_expression_to_term(
    operator_name: &str,
    left: &Rc<Expr>,
    right: &Rc<Expr>,
    context: &mut Context,
    environment: &Environment,
    depth: usize,
) -> (r: Result<Term, Error>)
    ensures
        (term_result(r), final(context).next_unique_id) == binary_term(
            operator_name@,
            **left,
            **right,
            environment@,
            old(context).next_unique_id,
            depth as nat,
        ),
    decreases depth, 1nat,
{
    if let Some(operator) = get_operator(environment, operator_name) {
        // TODO: Make sure we get the function that corresponds to the same scope as the operator
        // otherwise we might get another function
        match operator.binding {
            Binding::UserBinding(expr_rc) => {
                let signature_term = match expression_to_term(&expr_rc, context, environment, depth) {
                    Ok(t) => t,
                    Err(e) => {
                        return Err(e);
                    },
                };
                let left_term = match expression_to_term(left, context, environment, depth) {
                    Ok(t) => t,
                    Err(e) => {
                        return Err(e);
                    },
                };
                let right_term = match expression_to_term(right, context, environment, depth) {
                    Ok(t) => t,
                    Err(e) => {
                        return Err(e);
                    },
                };
                let mut arg_terms: Vec<Term> = Vec::new();
                arg_terms.push(left_term);
                arg_terms.push(right_term);
                proof {
                    reveal_with_fuel(terms_view, 3);
                    assert(terms_view(arg_terms@) =~= seq![arg_terms@[0]@, arg_terms@[1]@]);
                }
                resolve_function_and_args(&signature_term, &arg_terms, environment)
            },
            // TODO: Figure out how to get from a function statement to a usable signature for
            // checking against with the args that we have
            _ => Err(Error::UnknownFunction(operator.function_name)),
        }
    } else {
        Err(Error::UnknownOperator(owned(operator_name)))
    }
}

fn call_to_term(
    function: &Rc<Expr>,
    call_args: &Vec<Rc<Expr>>,
    context: &mut Context,
    environment: &Environment,
    depth: usize,
) -> (r: Result<Term, Error>)
    ensures
        (term_result(r), final(context).next_unique_id) == call_term(
            **function,
            call_args@,
            environment@,
            old(context).next_unique_id,
            depth as nat,
        ),
    decreases depth, 2nat,
{
    let function_term = match expression_to_term(function, context, environment, depth) {
        Ok(t) => t,
        Err(e) => {
            return Err(e);
        },
    };
    let arg_terms = match expressions_to_terms(call_args, context, environment, depth) {
        Ok(t) => t,
        Err(e) => {
            return Err(e);
        },
    };
    resolve_function_and_args(&function_term, &arg_terms, environment)
}

/// If inferring a prefix of the items failed, inferring all of them gives what it gave.
proof fn lemma_terms_of_stuck(items: Seq<Rc<Expr>>, k: int, env: EnvView, id: u32, fuel: nat)
    requires
        0 <= k <= items.len(),
        terms_of(items.take(k), env, id, fuel).0 is Err,
    ensures
        terms_of(items, env, id, fuel) == terms_of(items.take(k), env, id, fuel),
    decreases items.len() - k,
{
    if k < items.len() {
        assert(items.take(k + 1).drop_last() =~= items.take(k));
        lemma_terms_of_stuck(items, k + 1, env, id, fuel);
    } else {
        assert(items.take(k) =~= items);
    }
}

/// The terms of the expressions, in order; the first error ends it.
#[verifier::loop_isolation(false)]
fn expressions_to_terms(
    items: &Vec<Rc<Expr>>,
    context: &mut Context,
    environment: &Environment,
    depth: usize,
) -> (r: Result<Vec<Term>, Error>)
    ensures
        (terms_result(r), final(context).next_unique_id) == terms_of(
            items@,
            environment@,
            old(context).next_unique_id,
            depth as nat,
        ),
    decreases depth, 1nat,
{
    let ghost id0 = context.next_unique_id;
    let mut terms: Vec<Term> = Vec::new();
    let mut i: usize = 0;
    while i < items.len()
        invariant
            i <= items@.len(),
            terms_of(items@.take(i as int), environment@, id0, depth as nat) == (
                Ok::<Seq<TermView>, ErrorView>(terms_view(terms@)),
                context.next_unique_id,
            ),
        decreases items@.len() - i,
    {
        proof {
            assert(items@.take(i + 1).drop_last() =~= items@.take(i as int));
            assert(items@.take(i + 1).last() == items@[i as int]);
        }
        let ghost id_before = context.next_unique_id;
        match expression_to_term(&items[i], context, environment, depth) {
            Ok(t) => {
                let ghost before = terms@;
                terms.push(t);
                proof {
                    assert(terms@.drop_last() =~= before);
                }
            },
            Err(e) => {
                proof {
                    assert(term_of(*items@[i as int], environment@, id_before, depth as nat).0
                        == Err::<TermView, ErrorView>(error_view(e)));
                    assert(terms_of(items@.take(i + 1), environment@, id0, depth as nat) == (
                        Err::<Seq<TermView>, ErrorView>(error_view(e)),
                        context.next_unique_id,
                    ));
                    lemma_terms_of_stuck(items@, i + 1, environment@, id0, depth as nat);
                }
                return Err(e);
            },
        }
        i = i + 1;
    }
    assert(items@.take(items@.len() as int) =~= items@);
    Ok(terms)
}

/// Takes a function signature expressed as terms and arguments expressed as terms and applies
/// the arguments to the signature to resolve down to a shorter signature or a single
/// non-function term.
fn resolve_function_and_args(signature_term: &Term, arg_terms: &Vec<Term>, _environment: &Environment) -> (r:
    Result<Term, Error>)
    ensures
        term_result(r) == resolve(signature_term@, terms_view(arg_terms@)),
{
    proof {
        lemma_terms_view_len(arg_terms@);
    }
    let mut current: &Term = signature_term;
    let mut i: usize = 0;
    assert(terms_view(arg_terms@).skip(0) =~= terms_view(arg_terms@));
    loop
        invariant
            i < arg_terms@.len() || (i == 0 && arg_terms@.len() == 0),
            terms_view(arg_terms@).len() == arg_terms@.len(),
            resolve(signature_term@, terms_view(arg_terms@)) == resolve(
                current@,
                terms_view(arg_terms@).skip(i as int),
            ),
        decreases arg_terms@.len() - i,
    {
        match current {
            Term::Function(from, to) => {
                if arg_terms.len() == 0 {
                    return Err(Error::Broken("no more args"));
                }
                let subs = new_substitutions();
                proof {
                    assert(subs_map(subs) =~= Map::<Seq<char>, TermView>::empty());
                    lemma_terms_view_index(arg_terms@, i as int);
                    assert(terms_view(arg_terms@).skip(i as int)[0] == arg_terms@[i as int]@);
                }
                match unify(&arg_terms[i], &**from, &subs) {
                    Ok(_) => {
                        if i + 1 == arg_terms.len() {
                            return Ok((**to).copy());
                        }
                        proof {
                            assert(terms_view(arg_terms@).skip(i as int).drop_first() =~= terms_view(
                                arg_terms@,
                            ).skip(i + 1));
                        }
                        current = &**to;
                        i = i + 1;
                    },
                    Err(err) => {
                        return Err(Error::UnifyError(err));
                    },
                }
            },
            _ => {
                return Err(Error::Broken("signature is not a function"));
            },
        }
    }
}

fn if_expression_to_term(
    condition: &Expr,
    then_branch: &Expr,
    else_branch: &Expr,
    context: &mut Context,
    environment: &Environment,
    depth: usize,
) -> (r: Result<Term, Error>)
    ensures
        (term_result(r), final(context).next_unique_id) == if_term(
            *condition,
            *then_branch,
            *else_branch,
            environment@,
            old(context).next_unique_id,
            depth as nat,
        ),
    decreases depth, 1nat,
{
    // Infer condition
    let condition_term = match expression_to_term(condition, context, environment, depth) {
        Ok(t) => t,
        Err(e) => {
            return Err(e);
        },
    };
    // Unify condition
    let subs = new_substitutions();
    proof {
        assert(subs_map(subs) =~= Map::<Seq<char>, TermView>::empty());
    }
    match unify(&condition_term, &Term::Constant(Value::Bool), &subs) {
        Ok(_) => {},
        Err(e) => {
            return Err(Error::UnifyError(e));
        },
    }
    // Infer then_branch
    let then_branch_term = match expression_to_term(then_branch, context, environment, depth) {
        Ok(t) => t,
        Err(e) => {
            return Err(e);
        },
    };
    // Infer else_branch
    let else_branch_term = match expression_to_term(else_branch, context, environment, depth) {
        Ok(t) => t,
        Err(e) => {
            return Err(e);
        },
    };
    // TODO: Unify instead of equality check
    if same_term(&then_branch_term, &else_branch_term) {
        Ok(then_branch_term)
    } else {
        Err(Error::Broken("else & then don't match"))
    }
}

#[verifier::loop_isolation(false)]
fn case_expression_to_term(
    expr: &Expr,
    branches: &Vec<(Pattern, Expr)>,
    context: &mut Context,
    environment: &Environment,
    depth: usize,
) -> (r: Result<Term, Error>)
    ensures
        (term_result(r), final(context).next_unique_id) == case_term(
            *expr,
            branches@,
            environment@,
            old(context).next_unique_id,
            depth as nat,
        ),
    decreases depth, 1nat,
{
    let expr_term = match expression_to_term(expr, context, environment, depth) {
        Ok(t) => t,
        Err(e) => {
            return Err(e);
        },
    };
    let ghost id1 = context.next_unique_id;
    let subs = new_substitutions();
    proof {
        assert(subs_map(subs) =~= Map::<Seq<char>, TermView>::empty());
    }
    let mut branch_expr_term: Option<Term> = None;
    let mut i: usize = 0;
    while i < branches.len()
        invariant
            i <= branches@.len(),
            subs_map(subs) == Map::<Seq<char>, TermView>::empty(),
            branches_term(expr_term@, branches@.take(i as int), environment@, id1, depth as nat)
                == (
                Ok::<Option<TermView>, ErrorView>(
                    match branch_expr_term {
                        Some(t) => Some(t@),
                        None => None,
                    },
                ),
                context.next_unique_id,
            ),
        decreases branches@.len() - i,
    {
        proof {
            assert(branches@.take(i + 1).drop_last() =~= branches@.take(i as int));
            assert(branches@.take(i + 1).last() == branches@[i as int]);
        }
        let ghost id_before = context.next_unique_id;
        let pattern_term = pattern_to_term(&branches[i].0, context, environment);
        match unify(&expr_term, &pattern_term, &subs) {
            Ok(_) => {},
            Err(e) => {
                proof {
                    assert(branches_term(
                        expr_term@,
                        branches@.take(i + 1),
                        environment@,
                        id1,
                        depth as nat,
                    ) == (
                        Err::<Option<TermView>, ErrorView>(
                            ErrorView::UnifyError(unify::error_view(e)),
                        ),
                        context.next_unique_id,
                    ));
                    lemma_branches_stuck(
                        expr_term@,
                        branches@,
                        i + 1,
                        environment@,
                        id1,
                        depth as nat,
                    );
                }
                return Err(Error::UnifyError(e));
            },
        }
        let ghost id_mid = context.next_unique_id;
        match expression_to_term(&branches[i].1, context, environment, depth) {
            Ok(t) => {
                branch_expr_term = Some(t);
            },
            Err(e) => {
                proof {
                    assert(term_of(branches@[i as int].1, environment@, id_mid, depth as nat).0
                        == Err::<TermView, ErrorView>(error_view(e)));
                    assert(branches_term(
                        expr_term@,
                        branches@.take(i + 1),
                        environment@,
                        id1,
                        depth as nat,
                    ) == (Err::<Option<TermView>, ErrorView>(error_view(e)), context.next_unique_id));
                    lemma_branches_stuck(
                        expr_term@,
                        branches@,
                        i + 1,
                        environment@,
                        id1,
                        depth as nat,
                    );
                }
                return Err(e);
            },
        }
        i = i + 1;
    }
    assert(branches@.take(branches@.len() as int) =~= branches@);
    match branch_expr_term {
        Some(t) => Ok(t),
        None => Err(Error::ImpossiblyEmptyCase),
    }
}

/// If a prefix of the branches failed, all of them give what it gave.
proof fn lemma_branches_stuck(
    scrutinee: TermView,
    branches: Seq<(Pattern, Expr)>,
    k: int,
    env: EnvView,
    id: u32,
    fuel: nat,
)
    requires
        0 <= k <= branches.len(),
        branches_term(scrutinee, branches.take(k), env, id, fuel).0 is Err,
    ensures
        branches_term(scrutinee, branches, env, id, fuel) == branches_term(
            scrutinee,
            branches.take(k),
            env,
            id,
            fuel,
        ),
    decreases branches.len() - k,
{
    if k < branches.len() {
        assert(branches.take(k + 1).drop_last() =~= branches.take(k));
        lemma_branches_stuck(scrutinee, branches, k + 1, env, id, fuel);
    } else {
        assert(branches.take(k) =~= branches);
    }
}

/// The term of a pattern.
fn pattern_to_term(pattern: &Pattern, context: &mut Context, _environment: &Environment) -> (r:
    Term)
    ensures
        (r@, final(context).next_unique_id) == pattern_term(*pattern, old(context).next_unique_id),
{
    match pattern {
        Pattern::Anything => context.unique_var(),
        Pattern::Bool(_) => Term::Constant(Value::Bool),
        Pattern::Integer(_) => Term::Constant(Value::Integer),
        Pattern::Name(name) => Term::Var(name.clone()),
    }
}

#[verifier::loop_isolation(false)]
fn list_to_term(
    expressions: &Vec<Rc<Expr>>,
    context: &mut Context,
    environment: &Environment,
    depth: usize,
) -> (r: Result<Term, Error>)
    ensures
        (term_result(r), final(context).next_unique_id) == list_term(
            expressions@,
            environment@,
            old(context).next_unique_id,
            depth as nat,
        ),
    decreases depth, 2nat,
{
    proof {
        reveal_with_fuel(terms_view, 2);
    }
    if expressions.len() == 0 {
        let var = context.unique_var();
        return Ok(list_of(var));
    }
    let terms = match expressions_to_terms(expressions, context, environment, depth) {
        Ok(t) => t,
        Err(e) => {
            return Err(e);
        },
    };
    proof {
        lemma_terms_view_len(terms@);
    }
    // Unify terms by comparing each item with its neighbour and making sure there are no
    // issues unifying them with a consistent set of subs
    let ghost ts = terms_view(terms@);
    let mut subs = new_substitutions();
    proof {
        assert(subs_map(subs) =~= Map::<Seq<char>, TermView>::empty());
        lemma_terms_view_index(terms@, 0);
        assert(ts.take(1) =~= seq![ts[0]]);
    }
    let mut i: usize = 1;
    while i < terms.len()
        invariant
            1 <= i <= terms@.len(),
            ts == terms_view(terms@),
            ts.len() == terms@.len(),
            list_fold(ts.take(i as int)) == Ok::<(SubsView, TermView), ErrorView>(
                (subs_map(subs), terms@[i - 1]@),
            ),
        decreases terms@.len() - i,
    {
        proof {
            assert(ts.take(i + 1).drop_last() =~= ts.take(i as int));
            lemma_terms_view_index(terms@, i as int);
            assert(ts.take(i + 1).last() == terms@[i as int]@);
        }
        match unify(&terms[i], &terms[i - 1], &subs) {
            Ok(s) => {
                subs = s;
            },
            Err(e) => {
                proof {
                    assert(list_fold(ts.take(i + 1)) == Err::<(SubsView, TermView), ErrorView>(
                        ErrorView::UnifyError(unify::error_view(e)),
                    ));
                    lemma_list_fold_stuck(ts, i + 1);
                }
                return Err(Error::UnifyError(e));
            },
        }
        i = i + 1;
    }
    assert(ts.take(ts.len() as int) =~= ts);
    // TODO: What is the best term to actually include from the list? The most basic? The most
    // general?
    Ok(list_of(terms[terms.len() - 1].copy()))
}

/// If unifying a prefix of the terms failed, unifying all of them gives what it gave.
proof fn lemma_list_fold_stuck(ts: Seq<TermView>, k: int)
    requires
        1 <= k <= ts.len(),
        list_fold(ts.take(k)) is Err,
    ensures
        list_fold(ts) == list_fold(ts.take(k)),
    decreases ts.len() - k,
{
    if k < ts.len() {
        assert(ts.take(k + 1).drop_last() =~= ts.take(k));
        lemma_list_fold_stuck(ts, k + 1);
    } else {
        assert(ts.take(k) =~= ts);
    }
}

} // verus!
