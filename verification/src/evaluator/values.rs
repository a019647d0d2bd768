//! The values that evaluating an expression produces.
use std::rc::Rc;
use vstd::prelude::*;

use crate::ast::{share, Expr, FloatLiteral, Pattern, QualifiedLowerName};

verus! {

#[derive(Debug)]
pub enum Func {
    UserFunc { args: Vec<Pattern>, expr: Rc<Expr> },
    BuiltInFunc(QualifiedLowerName),
}

#[derive(Debug)]
pub enum Value {
    Bool(bool),
    Integer(i32),
    Float(FloatLiteral),
    String(String),
    List(Vec<Value>),
    PartiallyAppliedFunc { func: Func, values: Vec<Value> },
}

/// A function as a mathematical value.
pub enum FuncView {
    UserFunc { args: Seq<Pattern>, expr: Rc<Expr> },
    BuiltInFunc((Seq<Seq<char>>, Seq<Seq<char>>)),
}

/// A value as a mathematical value: text as character sequences, lists as sequences.
pub enum ValueView {
    Bool(bool),
    Integer(i32),
    Float(Seq<char>),
    String(Seq<char>),
    List(Seq<ValueView>),
    PartiallyAppliedFunc { func: FuncView, values: Seq<ValueView> },
}

pub open spec fn func_view(f: Func) -> FuncView {
    match f {
        Func::UserFunc { args, expr } => FuncView::UserFunc { args: args@, expr },
        Func::BuiltInFunc(name) => FuncView::BuiltInFunc(name@),
    }
}

/// The mathematical value of a value.
pub open spec fn value_view(v: Value) -> ValueView
    decreases v,
{
    match v {
        Value::Bool(b) => ValueView::Bool(b),
        Value::Integer(i) => ValueView::Integer(i),
        Value::Float(f) => ValueView::Float(f.0@),
        Value::String(s) => ValueView::String(s@),
        Value::List(items) => ValueView::List(values_view(items@)),
        Value::PartiallyAppliedFunc { func, values } => ValueView::PartiallyAppliedFunc {
            func: func_view(func),
            values: values_view(values@),
        },
    }
}

/// The mathematical values of a sequence of values.
pub open spec fn values_view(s: Seq<Value>) -> Seq<ValueView>
    decreases s,
{
    if s.len() == 0 {
        Seq::empty()
    } else {
        values_view(s.drop_last()).push(value_view(s.last()))
    }
}

pub proof fn lemma_values_view_len(s: Seq<Value>)
    ensures
        values_view(s).len() == s.len(),
    decreases s.len(),
{
    if s.len() > 0 {
        lemma_values_view_len(s.drop_last());
    }
}

pub proof fn lemma_values_view_index(s: Seq<Value>, i: int)
    requires
        0 <= i < s.len(),
    ensures
        values_view(s)[i] == value_view(s[i]),
    decreases s.len(),
{
    lemma_values_view_len(s.drop_last());
    if i < s.len() - 1 {
        lemma_values_view_index(s.drop_last(), i);
    }
}

pub proof fn lemma_values_view_push(s: Seq<Value>, v: Value)
    ensures
        values_view(s.push(v)) == values_view(s).push(value_view(v)),
{
    assert(s.push(v).drop_last() =~= s);
}

pub proof fn lemma_values_view_append(a: Seq<Value>, b: Seq<Value>)
    ensures
        values_view(a + b) == values_view(a) + values_view(b),
    decreases b.len(),
{
    if b.len() == 0 {
        assert(a + b =~= a);
        assert(values_view(a) + values_view(b) =~= values_view(a));
    } else {
        lemma_values_view_append(a, b.drop_last());
        assert((a + b).drop_last() =~= a + b.drop_last());
        assert(values_view(a) + values_view(b) =~= (values_view(a) + values_view(
            b.drop_last(),
        )).push(value_view(b.last())));
    }
}

impl View for Value {
    type V = ValueView;

    open spec fn view(&self) -> ValueView {
        value_view(*self)
    }
}

/// A copy of a list of patterns.
pub fn copy_patterns(v: &Vec<Pattern>) -> (r: Vec<Pattern>)
    ensures
        r@ == v@,
{
    let mut r: Vec<Pattern> = Vec::new();
    let mut i: usize = 0;
    while i < v.len()
        invariant
            i <= v@.len(),
            r@ == v@.take(i as int),
        decreases v@.len() - i,
    {
        r.push(v[i].copy());
        i = i + 1;
        assert(r@ =~= v@.take(i as int));
    }
    assert(v@.take(v@.len() as int) =~= v@);
    r
}

impl Func {
    /// A copy of this function.
    pub fn copy(&self) -> (r: Func)
        ensures
            func_view(r) == func_view(*self),
    {
        match self {
            Func::UserFunc { args, expr } => Func::UserFunc {
                args: copy_patterns(args),
                expr: share(expr),
            },
            Func::BuiltInFunc(name) => Func::BuiltInFunc(name.copy()),
        }
    }
}

/// A copy of a list of values.
pub fn copy_values(v: &Vec<Value>) -> (r: Vec<Value>)
    ensures
        values_view(r@) == values_view(v@),
    decreases v@,
{
    let mut r: Vec<Value> = Vec::new();
    let mut i: usize = 0;
    while i < v.len()
        invariant
            i <= v@.len(),
            values_view(r@) == values_view(v@.take(i as int)),
        decreases v@.len() - i,
    {
        proof {
            assert(decreases_to!(v@ => v@[i as int]));
        }
        let x = v[i].copy();
        let ghost before = r@;
        r.push(x);
        proof {
            assert(r@.drop_last() =~= before);
            assert(v@.take(i + 1).drop_last() =~= v@.take(i as int));
        }
        i = i + 1;
    }
    assert(v@.take(v@.len() as int) =~= v@);
    r
}

impl Value {
    /// A copy of this value.
    pub fn copy(&self) -> (r: Value)
        ensures
            r@ == self@,
        decreases self,
    {
        match self {
            Value::Bool(b) => Value::Bool(*b),
            Value::Integer(i) => Value::Integer(*i),
            Value::Float(f) => Value::Float(FloatLiteral(f.0.clone())),
            Value::String(s) => Value::String(s.clone()),
            Value::List(items) => {
                proof {
                    assert(decreases_to!(*self => (*self)->List_0));
                    assert(decreases_to!((*self)->List_0 => items@));
                }
                Value::List(copy_values(items))
            },
            Value::PartiallyAppliedFunc { func, values } => {
                proof {
                    assert(decreases_to!(*self => (*self)->values));
                    assert(decreases_to!((*self)->values => values@));
                }
                Value::PartiallyAppliedFunc { func: func.copy(), values: copy_values(values) }
            },
        }
    }
}

} // verus!
