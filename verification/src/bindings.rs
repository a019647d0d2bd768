//! What a name in scope is bound to.
use std::rc::Rc;
use vstd::prelude::*;

use crate::ast::{share, Expr, Stmt};
use crate::checker::term::{term_view, Term, TermView};
use crate::evaluator::values::{value_view, Value, ValueView};

verus! {

#[derive(Debug)]
pub enum Binding {
    // Represents a binding of a name to function statement
    UserFunc(Rc<Stmt>),
    // Represents a binding of a name to a simple expression (ie. no arguments involved.)
    UserBinding(Rc<Expr>),
    // TODO: Feels wrong to have a 'term ' in here with other things
    UserArg(Term),
    // TODO: Unsure about this entry especially as it means we need to make Value 'Clone' which
    // seems bad
    Value(Value),
}

/// A binding as a mathematical value.
pub enum BindingView {
    UserFunc(Rc<Stmt>),
    UserBinding(Rc<Expr>),
    UserArg(TermView),
    Value(ValueView),
}

pub open spec fn binding_view(b: Binding) -> BindingView {
    match b {
        Binding::UserFunc(s) => BindingView::UserFunc(s),
        Binding::UserBinding(e) => BindingView::UserBinding(e),
        Binding::UserArg(t) => BindingView::UserArg(term_view(t)),
        Binding::Value(v) => BindingView::Value(value_view(v)),
    }
}

impl View for Binding {
    type V = BindingView;

    open spec fn view(&self) -> BindingView {
        binding_view(*self)
    }
}

impl Binding {
    /// A copy of this binding; statements and expressions are shared, not copied.
    pub fn copy(&self) -> (r: Binding)
        ensures
            r@ == self@,
    {
        match self {
            Binding::UserFunc(s) => Binding::UserFunc(share(s)),
            Binding::UserBinding(e) => Binding::UserBinding(share(e)),
            Binding::UserArg(t) => Binding::UserArg(t.copy()),
            Binding::Value(v) => Binding::Value(v.copy()),
        }
    }
}

} // verus!
