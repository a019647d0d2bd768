//! Unification of type terms under a substitution of type variables.
use std::rc::Rc;
use vstd::prelude::*;

use super::term::{same_term, term_debug, Term, TermView, Value};

verus! {

broadcast use vstd::string::group_string_axioms;

#[verifier::external_type_specification]
#[verifier::external_body]
#[verifier::reject_recursive_types(K)]
#[verifier::reject_recursive_types(V)]
#[verifier::reject_recursive_types(S)]
pub struct ExHashMap<K, V, S>(im::HashMap<K, V, S>);

/// What each type variable stands for.
pub type Substitutions = im::HashMap<String, Rc<Term>>;

/// A substitution as a mathematical value.
pub type SubsView = Map<Seq<char>, TermView>;

/// The variables a substitution map binds, and the terms they stand for.
pub uninterp spec fn subs_map(m: Substitutions) -> SubsView;

/// `im::HashMap::new`: no variable bound.
#[verifier::external_body]
pub(crate) fn new_substitutions() -> (r: Substitutions)
    ensures
        subs_map(r).dom() == Set::<Seq<char>>::empty(),
{
    im::HashMap::new()
}

/// `im::HashMap::get`: the term bound to `key`, if any.
#[verifier::external_body]
fn subs_get<'a>(m: &'a Substitutions, key: &String) -> (r: Option<&'a Rc<Term>>)
    ensures
        match r {
            Some(t) => subs_map(*m).dom().contains(key@) && subs_map(*m)[key@] == (**t)@,
            None => !subs_map(*m).dom().contains(key@),
        },
{
    m.get(key)
}

/// `im::HashMap::update`: a map with `key` bound to `value`, replacing an earlier binding.
#[verifier::external_body]
fn subs_update(m: &Substitutions, key: String, value: Rc<Term>) -> (r: Substitutions)
    ensures
        subs_map(r) == subs_map(*m).insert(key@, (*value)@),
{
    m.update(key, value)
}

/// `im::HashMap::clone`: a map with the same bindings.
#[verifier::external_body]
fn subs_clone(m: &Substitutions) -> (r: Substitutions)
    ensures
        subs_map(r) == subs_map(*m),
{
    m.clone()
}

#[derive(Debug, PartialEq)]
pub enum Error {
    FailedToUnify(String, String),
    /// Unification nested deeper than `MAX_UNIFY_DEPTH`.
    TooDeep,
}

/// A unification error as a mathematical value.
pub enum ErrorView {
    FailedToUnify(Seq<char>, Seq<char>),
    TooDeep,
}

pub open spec fn error_view(e: Error) -> ErrorView {
    match e {
        Error::FailedToUnify(a, b) => ErrorView::FailedToUnify(a@, b@),
        Error::TooDeep => ErrorView::TooDeep,
    }
}

pub open spec fn unify_view(r: Result<Substitutions, Error>) -> Result<SubsView, ErrorView> {
    match r {
        Ok(s) => Ok(subs_map(s)),
        Err(e) => Err(error_view(e)),
    }
}

/// How deeply unifications may nest: as deeply as the machine allows.
pub const MAX_UNIFY_DEPTH: usize = usize::MAX;

/// Unifying two terms under `subs`, nesting at most `fuel` deep.
///
/// Equal terms unify as they are; a variable is unified through what it stands for, or else
/// bound to the other term; two functions unify argument with argument and then result with
/// result; any other pair fails with the texts of both terms.
pub open spec fn unify_spec(x: TermView, y: TermView, subs: SubsView, fuel: nat) -> Result<
    SubsView,
    ErrorView,
>
    decreases fuel, 0nat,
{
    if fuel == 0 {
        Err(ErrorView::TooDeep)
    } else {
        let f = (fuel - 1) as nat;
        if x == y {
            Ok(subs)
        } else if x is Var {
            unify_variable_spec(x->Var_0, x, y, subs, f)
        } else if y is Var {
            unify_variable_spec(y->Var_0, y, x, subs, f)
        } else {
            match (x, y) {
                (TermView::Function(x1, x_rest), TermView::Function(y1, y_rest)) => match unify_spec(
                    *x1,
                    *y1,
                    subs,
                    f,
                ) {
                    Ok(s) => unify_spec(*x_rest, *y_rest, s, f),
                    Err(e) => Err(e),
                },
                _ => Err(ErrorView::FailedToUnify(term_debug(x), term_debug(y))),
            }
        }
    }
}

/// Unifying the variable `v`, named `v_name`, with `x`.
pub open spec fn unify_variable_spec(
    v_name: Seq<char>,
    v: TermView,
    x: TermView,
    subs: SubsView,
    fuel: nat,
) -> Result<SubsView, ErrorView>
    decreases fuel, 1nat,
{
    if subs.dom().contains(v_name) {
        unify_spec(subs[v_name], x, subs, fuel)
    } else if x is Var && subs.dom().contains(x->Var_0) {
        unify_spec(v, subs[x->Var_0], subs, fuel)
    } else {
        Ok(subs.insert(v_name, x))
    }
}


/// A term unifies with itself, and the substitution is left as it was.
pub proof fn law_unify_reflexive(x: TermView, subs: SubsView, fuel: nat)
    requires
        fuel >= 1,
    ensures
        unify_spec(x, x, subs, fuel) == Ok::<SubsView, ErrorView>(subs),
{
}

/// A variable that the substitution leaves free, unified with another term that is not a
/// bound variable, is bound to that term; when that term is not a variable, the same holds
/// with the two sides swapped.
pub proof fn law_unify_binds_free_variable(name: Seq<char>, t: TermView, subs: SubsView, fuel: nat)
    requires
        fuel >= 1,
        !subs.dom().contains(name),
        t != TermView::Var(name),
        t is Var ==> !subs.dom().contains(t->Var_0),
    ensures
        unify_spec(TermView::Var(name), t, subs, fuel) == Ok::<SubsView, ErrorView>(
            subs.insert(name, t),
        ),
        !(t is Var) ==> unify_spec(t, TermView::Var(name), subs, fuel) == Ok::<
            SubsView,
            ErrorView,
        >(subs.insert(name, t)),
{
    let f = (fuel - 1) as nat;
    assert(unify_variable_spec(name, TermView::Var(name), t, subs, f) == Ok::<SubsView, ErrorView>(
        subs.insert(name, t),
    ));
}

/// Two constants unify only when they are the same; otherwise unification fails with the
/// texts of both.
pub proof fn law_unify_constants(a: Value, b: Value, subs: SubsView, fuel: nat)
    requires
        fuel >= 1,
    ensures
        unify_spec(TermView::Constant(a), TermView::Constant(b), subs, fuel) == if a == b {
            Ok::<SubsView, ErrorView>(subs)
        } else {
            Err(
                ErrorView::FailedToUnify(
                    term_debug(TermView::Constant(a)),
                    term_debug(TermView::Constant(b)),
                ),
            )
        },
{
}

/// Two functions unify when their arguments unify and then their results do, under the
/// substitution the first gave.
pub proof fn law_unify_functions(
    a1: TermView,
    a2: TermView,
    b1: TermView,
    b2: TermView,
    subs: SubsView,
    fuel: nat,
)
    requires
        fuel >= 1,
        TermView::Function(Box::new(a1), Box::new(a2)) != TermView::Function(
            Box::new(b1),
            Box::new(b2),
        ),
    ensures
        unify_spec(
            TermView::Function(Box::new(a1), Box::new(a2)),
            TermView::Function(Box::new(b1), Box::new(b2)),
            subs,
            fuel,
        ) == match unify_spec(a1, b1, subs, (fuel - 1) as nat) {
            Ok(s) => unify_spec(a2, b2, s, (fuel - 1) as nat),
            Err(e) => Err(e),
        },
{
}

/// A successful unification keeps every binding the substitution had: it only adds bindings
/// for variables that were free, so a variable already bound keeps the term it was bound to.
pub proof fn law_unify_keeps_bindings(x: TermView, y: TermView, subs: SubsView, fuel: nat)
    ensures
        unify_spec(x, y, subs, fuel) matches Ok(r) ==> forall|v: Seq<char>|
            #[trigger] subs.dom().contains(v) ==> r.dom().contains(v) && r[v] == subs[v],
    decreases fuel, 0nat,
{
    if fuel > 0 {
        let f = (fuel - 1) as nat;
        if x == y {
        } else if x is Var {
            lemma_unify_variable_keeps_bindings(x->Var_0, x, y, subs, f);
        } else if y is Var {
            lemma_unify_variable_keeps_bindings(y->Var_0, y, x, subs, f);
        } else {
            match (x, y) {
                (TermView::Function(x1, x_rest), TermView::Function(y1, y_rest)) => {
                    law_unify_keeps_bindings(*x1, *y1, subs, f);
                    if let Ok(s) = unify_spec(*x1, *y1, subs, f) {
                        law_unify_keeps_bindings(*x_rest, *y_rest, s, f);
                    }
                },
                _ => {},
            }
        }
    }
}

/// Unifying a variable keeps every binding the substitution had.
proof fn lemma_unify_variable_keeps_bindings(
    v_name: Seq<char>,
    v: TermView,
    x: TermView,
    subs: SubsView,
    fuel: nat,
)
    ensures
        unify_variable_spec(v_name, v, x, subs, fuel) matches Ok(r) ==> forall|w: Seq<char>|
            #[trigger] subs.dom().contains(w) ==> r.dom().contains(w) && r[w] == subs[w],
    decreases fuel, 1nat,
{
    if subs.dom().contains(v_name) {
        law_unify_keeps_bindings(subs[v_name], x, subs, fuel);
    } else if x is Var && subs.dom().contains(x->Var_0) {
        law_unify_keeps_bindings(v, subs[x->Var_0], subs, fuel);
    }
}

/// A variable that the substitution binds is unified through the term it is bound to, on
/// whichever side of the unification it stands, with a term that is not a variable.
pub proof fn law_unify_bound_variable(name: Seq<char>, t: TermView, subs: SubsView, fuel: nat)
    requires
        fuel >= 1,
        subs.dom().contains(name),
        !(t is Var),
    ensures
        unify_spec(TermView::Var(name), t, subs, fuel) == unify_spec(
            subs[name],
            t,
            subs,
            (fuel - 1) as nat,
        ),
        unify_spec(t, TermView::Var(name), subs, fuel) == unify_spec(
            subs[name],
            t,
            subs,
            (fuel - 1) as nat,
        ),
{
    let f = (fuel - 1) as nat;
    let v = TermView::Var(name);
    assert(unify_spec(v, t, subs, fuel) == unify_variable_spec(name, v, t, subs, f));
    assert(unify_spec(t, v, subs, fuel) == unify_variable_spec(name, v, t, subs, f));
    assert(unify_variable_spec(name, v, t, subs, f) == unify_spec(subs[name], t, subs, f));
}

/// Whether a term has no variable outside the arguments of named types; unification compares
/// a named type as it stands.
pub open spec fn rigid(t: TermView) -> bool
    decreases t,
{
    match t {
        TermView::Var(_) => false,
        TermView::Function(a, b) => rigid(*a) && rigid(*b),
        _ => true,
    }
}

/// Two rigid terms unify exactly when they are equal, and then the substitution is left as it
/// was; so whether they unify does not depend on their order.
pub proof fn law_unify_rigid_terms(x: TermView, y: TermView, subs: SubsView, fuel: nat)
    requires
        fuel >= 1,
        rigid(x),
        rigid(y),
    ensures
        unify_spec(x, y, subs, fuel) is Ok <==> x == y,
        x == y ==> unify_spec(x, y, subs, fuel) == Ok::<SubsView, ErrorView>(subs),
        unify_spec(x, y, subs, fuel) is Ok <==> unify_spec(y, x, subs, fuel) is Ok,
{
    if x != y {
        lemma_rigid_terms_differ(x, y, subs, fuel);
        lemma_rigid_terms_differ(y, x, subs, fuel);
    }
}

/// Two different rigid terms do not unify.
proof fn lemma_rigid_terms_differ(x: TermView, y: TermView, subs: SubsView, fuel: nat)
    requires
        rigid(x),
        rigid(y),
        x != y,
    ensures
        unify_spec(x, y, subs, fuel) is Err,
    decreases fuel,
{
    if fuel > 0 {
        let f = (fuel - 1) as nat;
        match (x, y) {
            (TermView::Function(x1, x_rest), TermView::Function(y1, y_rest)) => {
                if *x1 != *y1 {
                    lemma_rigid_terms_differ(*x1, *y1, subs, f);
                } else {
                    assert(*x_rest != *y_rest);
                    if f >= 1 {
                        law_unify_reflexive(*x1, subs, f);
                    }
                    lemma_rigid_terms_differ(*x_rest, *y_rest, subs, f);
                }
            },
            _ => {},
        }
    }
}

/// Unifies two terms under `subs`, giving the extended substitution.
pub fn unify(x: &Term, y: &Term, subs: &Substitutions) -> (r: Result<Substitutions, Error>)
    ensures
        unify_view(r) == unify_spec(x@, y@, subs_map(*subs), MAX_UNIFY_DEPTH as nat),
{
    unify_within(x, y, subs, MAX_UNIFY_DEPTH)
}

fn unify_within(x: &Term, y: &Term, subs: &Substitutions, depth: usize) -> (r: Result<
    Substitutions,
    Error,
>)
    ensures
        unify_view(r) == unify_spec(x@, y@, subs_map(*subs), depth as nat),
    decreases depth, 0nat,
{
    if depth == 0 {
        return Err(Error::TooDeep);
    }
    let depth = depth - 1;
    if same_term(x, y) {
        Ok(subs_clone(subs))
    } else if let Term::Var(name) = x {
        unify_variable(name, x, y, subs, depth)
    } else if let Term::Var(name) = y {
        unify_variable(name, y, x, subs, depth)
    } else {
        match (x, y) {
            (Term::Function(x_1, x_rest), Term::Function(y_1, y_rest)) => {
                let subs = match unify_within(&**x_1, &**y_1, subs, depth) {
                    Ok(s) => s,
                    Err(e) => {
                        return Err(e);
                    },
                };
                unify_within(&**x_rest, &**y_rest, &subs, depth)
            },
            _ => Err(Error::FailedToUnify(x.debug_text(), y.debug_text())),
        }
    }
}

fn unify_variable(v_name: &String, v: &Term, x: &Term, subs: &Substitutions, depth: usize) -> (r:
    Result<Substitutions, Error>)
    requires
        v@ == TermView::Var(v_name@),
    ensures
        unify_view(r) == unify_variable_spec(v_name@, v@, x@, subs_map(*subs), depth as nat),
    decreases depth, 1nat,
{
    if let Some(term) = subs_get(subs, v_name) {
        return unify_within(&**term, x, subs, depth);
    }
    if let Term::Var(x_name) = x {
        if let Some(term) = subs_get(subs, x_name) {
            return unify_within(v, &**term, subs, depth);
        }
    }
    Ok(subs_update(subs, v_name.clone(), Rc::new(x.copy())))
}

} // verus!
