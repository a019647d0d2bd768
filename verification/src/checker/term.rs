//! Type terms: what the checker infers for an expression.
use vstd::prelude::*;

use crate::text::{owned, push_str, str_eq};
use crate::lexer::{debug_str, debug_string};

verus! {

broadcast use vstd::string::group_string_axioms;

#[derive(Debug, PartialEq, Eq, Structural, Clone, Copy)]
pub enum Value {
    Bool,
    Integer,
    Float,
    String,
}

#[derive(Debug, PartialEq)]
pub enum Term {
    Constant(Value),
    Var(String),
    Function(Box<Term>, Box<Term>),
    Type(String, Vec<Term>),
}

/// A term as a mathematical value: names as character sequences, arguments as a sequence.
pub enum TermView {
    Constant(Value),
    Var(Seq<char>),
    Function(Box<TermView>, Box<TermView>),
    Type(Seq<char>, Seq<TermView>),
}

/// The mathematical value of a term.
pub open spec fn term_view(t: Term) -> TermView
    decreases t,
{
    match t {
        Term::Constant(v) => TermView::Constant(v),
        Term::Var(name) => TermView::Var(name@),
        Term::Function(from, to) => TermView::Function(
            Box::new(term_view(*from)),
            Box::new(term_view(*to)),
        ),
        Term::Type(name, args) => TermView::Type(name@, terms_view(args@)),
    }
}

/// The mathematical values of a sequence of terms.
pub open spec fn terms_view(s: Seq<Term>) -> Seq<TermView>
    decreases s,
{
    if s.len() == 0 {
        Seq::empty()
    } else {
        terms_view(s.drop_last()).push(term_view(s.last()))
    }
}

pub proof fn lemma_terms_view_len(s: Seq<Term>)
    ensures
        terms_view(s).len() == s.len(),
    decreases s.len(),
{
    if s.len() > 0 {
        lemma_terms_view_len(s.drop_last());
    }
}

pub proof fn lemma_terms_view_index(s: Seq<Term>, i: int)
    requires
        0 <= i < s.len(),
    ensures
        terms_view(s)[i] == term_view(s[i]),
    decreases s.len(),
{
    lemma_terms_view_len(s.drop_last());
    if i < s.len() - 1 {
        lemma_terms_view_index(s.drop_last(), i);
    }
}

impl View for Term {
    type V = TermView;

    open spec fn view(&self) -> TermView {
        term_view(*self)
    }
}


/// The `Debug` text of a value kind.
pub open spec fn value_debug(v: Value) -> Seq<char> {
    match v {
        Value::Bool => "Bool"@,
        Value::Integer => "Integer"@,
        Value::Float => "Float"@,
        Value::String => "String"@,
    }
}

/// The `Debug` text of a term, as the derived `Debug` writes it.
pub open spec fn term_debug(t: TermView) -> Seq<char>
    decreases t,
{
    match t {
        TermView::Constant(v) => "Constant("@ + value_debug(v) + ")"@,
        TermView::Var(n) => "Var("@ + debug_str(n) + ")"@,
        TermView::Function(a, b) => "Function("@ + term_debug(*a) + ", "@ + term_debug(*b) + ")"@,
        TermView::Type(n, args) => "Type("@ + debug_str(n) + ", ["@ + terms_debug(args) + "])"@,
    }
}

/// The `Debug` texts of terms, separated by `, `.
pub open spec fn terms_debug(args: Seq<TermView>) -> Seq<char>
    decreases args,
{
    if args.len() == 0 {
        Seq::empty()
    } else if args.len() == 1 {
        term_debug(args[0])
    } else {
        terms_debug(args.drop_last()) + ", "@ + term_debug(args.last())
    }
}

fn value_text(v: Value) -> (r: String)
    ensures
        r@ == value_debug(v),
{
    match v {
        Value::Bool => owned("Bool"),
        Value::Integer => owned("Integer"),
        Value::Float => owned("Float"),
        Value::String => owned("String"),
    }
}

impl Term {
    /// The term's `Debug` text.
    pub fn debug_text(&self) -> (r: String)
        ensures
            r@ == term_debug(self@),
        decreases self,
    {
        match self {
            Term::Constant(v) => {
                let mut r = owned("Constant(");
                let t = value_text(*v);
                push_str(&mut r, t.as_str());
                push_str(&mut r, ")");
                r
            },
            Term::Var(n) => {
                let mut r = owned("Var(");
                let t = debug_string(n.as_str());
                push_str(&mut r, t.as_str());
                push_str(&mut r, ")");
                r
            },
            Term::Function(a, b) => {
                let mut r = owned("Function(");
                let ta = (**a).debug_text();
                push_str(&mut r, ta.as_str());
                push_str(&mut r, ", ");
                let tb = (**b).debug_text();
                push_str(&mut r, tb.as_str());
                push_str(&mut r, ")");
                r
            },
            Term::Type(n, args) => {
                let mut r = owned("Type(");
                let t = debug_string(n.as_str());
                push_str(&mut r, t.as_str());
                push_str(&mut r, ", [");
                let mut inner = String::new();
                let mut i: usize = 0;
                while i < args.len()
                    invariant
                        *self == Term::Type(*n, *args),
                        i <= args@.len(),
                        inner@ == terms_debug(terms_view(args@.take(i as int))),
                    decreases args@.len() - i,
                {
                    proof {
                        assert(decreases_to!(*self => (*self)->Type_1));
                        assert(decreases_to!((*self)->Type_1 => args@[i as int]));
                        assert(args@.take(i + 1).drop_last() =~= args@.take(i as int));
                        lemma_terms_view_len(args@.take(i as int));
                        let tv = terms_view(args@.take(i + 1));
                        assert(tv == terms_view(args@.take(i as int)).push(args@[i as int]@));
                        assert(tv.drop_last() =~= terms_view(args@.take(i as int)));
                    }
                    if i > 0 {
                        push_str(&mut inner, ", ");
                    }
                    let ti = args[i].debug_text();
                    push_str(&mut inner, ti.as_str());
                    proof {
                        let tv = terms_view(args@.take(i + 1));
                        if i == 0 {
                            assert(terms_view(args@.take(0)) =~= Seq::<TermView>::empty());
                            assert(tv[0] == args@[0]@);
                        }
                    }
                    i = i + 1;
                }
                assert(args@.take(args@.len() as int) =~= args@);
                push_str(&mut r, inner.as_str());
                push_str(&mut r, "])");
                r
            },
        }
    }

    /// A copy of this term.
    pub fn copy(&self) -> (r: Term)
        ensures
            r@ == self@,
        decreases self,
    {
        match self {
            Term::Constant(v) => Term::Constant(*v),
            Term::Var(name) => Term::Var(name.clone()),
            Term::Function(from, to) => Term::Function(
                Box::new((**from).copy()),
                Box::new((**to).copy()),
            ),
            Term::Type(name, args) => {
                let mut r: Vec<Term> = Vec::new();
                let mut i: usize = 0;
                while i < args.len()
                    invariant
                        *self == Term::Type(*name, *args),
                        i <= args@.len(),
                        terms_view(r@) == terms_view(args@.take(i as int)),
                    decreases args@.len() - i,
                {
                    proof {
                        assert(decreases_to!(*self => (*self)->Type_1));
                        assert(decreases_to!((*self)->Type_1 => args@[i as int]));
                    }
                    let t = args[i].copy();
                    let ghost before = r@;
                    r.push(t);
                    proof {
                        assert(r@.drop_last() =~= before);
                        assert(args@.take(i + 1).drop_last() =~= args@.take(i as int));
                    }
                    i = i + 1;
                }
                assert(args@.take(args@.len() as int) =~= args@);
                Term::Type(name.clone(), r)
            },
        }
    }
}


/// Whether two terms are equal.
pub fn same_term(a: &Term, b: &Term) -> (r: bool)
    ensures
        r == (a@ == b@),
    decreases a,
{
    match (a, b) {
        (Term::Constant(x), Term::Constant(y)) => *x == *y,
        (Term::Var(x), Term::Var(y)) => str_eq(x.as_str(), y.as_str()),
        (Term::Function(a1, a2), Term::Function(b1, b2)) => {
            same_term(&**a1, &**b1) && same_term(&**a2, &**b2)
        },
        (Term::Type(n1, xs), Term::Type(n2, ys)) => {
            if !str_eq(n1.as_str(), n2.as_str()) {
                return false;
            }
            proof {
                lemma_terms_view_len(xs@);
                lemma_terms_view_len(ys@);
            }
            if xs.len() != ys.len() {
                return false;
            }
            let mut i: usize = 0;
            while i < xs.len()
                invariant
                    *a == Term::Type(*n1, *xs),
                    *b == Term::Type(*n2, *ys),
                    xs@.len() == ys@.len(),
                    i <= xs@.len(),
                    forall|j: int| 0 <= j < i ==> xs@[j]@ == ys@[j]@,
                decreases xs@.len() - i,
            {
                proof {
                    assert(decreases_to!(*a => (*a)->Type_1));
                    assert(decreases_to!((*a)->Type_1 => xs@[i as int]));
                }
                if !same_term(&xs[i], &ys[i]) {
                    proof {
                        lemma_terms_view_index(xs@, i as int);
                        lemma_terms_view_index(ys@, i as int);
                        assert(terms_view(xs@)[i as int] != terms_view(ys@)[i as int]);
                    }
                    return false;
                }
                i = i + 1;
            }
            proof {
                assert forall|j: int| 0 <= j < xs@.len() implies terms_view(xs@)[j] == terms_view(
                    ys@,
                )[j] by {
                    lemma_terms_view_index(xs@, j);
                    lemma_terms_view_index(ys@, j);
                }
                assert(terms_view(xs@) =~= terms_view(ys@));
            }
            true
        },
        _ => false,
    }
}

} // verus!
