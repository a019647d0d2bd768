//! The kernel functions that core modules bind to.
use vstd::prelude::*;

use crate::checker::term::{Term, TermView, Value as TermValue};
use crate::evaluator::values::{lemma_values_view_index, lemma_values_view_len, value_view, values_view, Value, ValueView};
use crate::text::{int_text, i64_text, owned, push_str};
use vstd::wrapping::i32_specs;

verus! {

broadcast use vstd::string::group_string_axioms;

#[derive(Debug, PartialEq, Eq, Structural, Clone, Copy)]
pub enum Error {
    WrongArity,
    WrongArgumentType,
}

/// A kernel function: it is called with evaluated arguments, and has a type term.
pub trait Func {
    fn call(&self, args: Vec<Value>) -> Result<Value, Error>;

    fn term(&self) -> Term;
}

/// The outcome of a call, as mathematical values.
pub open spec fn outcome_view(r: Result<Value, Error>) -> Result<ValueView, Error> {
    match r {
        Ok(v) => Ok(v@),
        Err(e) => Err(e),
    }
}

/// The two integer arguments of a binary kernel function.
pub open spec fn binary_ints(args: Seq<ValueView>, f: spec_fn(i32, i32) -> ValueView) -> Result<
    ValueView,
    Error,
> {
    if args.len() != 2 {
        Err(Error::WrongArity)
    } else {
        match (args[0], args[1]) {
            (ValueView::Integer(a), ValueView::Integer(b)) => Ok(f(a, b)),
            _ => Err(Error::WrongArgumentType),
        }
    }
}

fn integer_pair(args: &Vec<Value>) -> (r: Result<(i32, i32), Error>)
    ensures
        args@.len() != 2 ==> r == Err::<(i32, i32), Error>(Error::WrongArity),
        args@.len() == 2 ==> match (values_view(args@)[0], values_view(args@)[1]) {
            (ValueView::Integer(a), ValueView::Integer(b)) => r == Ok::<(i32, i32), Error>((a, b)),
            _ => r == Err::<(i32, i32), Error>(Error::WrongArgumentType),
        },
        values_view(args@).len() == args@.len(),
{
    proof {
        lemma_values_view_len(args@);
    }
    if args.len() != 2 {
        return Err(Error::WrongArity);
    }
    proof {
        lemma_values_view_index(args@, 0);
        lemma_values_view_index(args@, 1);
    }
    match (&args[0], &args[1]) {
        (Value::Integer(a), Value::Integer(b)) => Ok((*a, *b)),
        _ => Err(Error::WrongArgumentType),
    }
}

fn single(args: &Vec<Value>) -> (r: Result<&Value, Error>)
    ensures
        args@.len() != 1 ==> r == Err::<&Value, Error>(Error::WrongArity),
        args@.len() == 1 ==> (r matches Ok(v) && v@ == values_view(args@)[0]),
        values_view(args@).len() == args@.len(),
{
    proof {
        lemma_values_view_len(args@);
    }
    if args.len() != 1 {
        return Err(Error::WrongArity);
    }
    proof {
        lemma_values_view_index(args@, 0);
    }
    Ok(&args[0])
}

fn binary_term(a: TermValue, b: TermValue, c: TermValue) -> (t: Term)
    ensures
        t == Term::Function(
            Box::new(Term::Constant(a)),
            Box::new(Term::Function(Box::new(Term::Constant(b)), Box::new(Term::Constant(c)))),
        ),
{
    Term::Function(
        Box::new(Term::Constant(a)),
        Box::new(Term::Function(Box::new(Term::Constant(b)), Box::new(Term::Constant(c)))),
    )
}

/// The type term `List a`.
pub fn list_of(t: Term) -> (r: Term)
    ensures
        r matches Term::Type(name, args) && name@ == "List"@ && args@ == seq![t],
        r@ == TermView::Type("List"@, seq![t@]),
{
    let ghost tv = t@;
    let mut args = Vec::new();
    args.push(t);
    proof {
        assert(args@.drop_last() =~= Seq::<Term>::empty());
        reveal_with_fuel(crate::checker::term::terms_view, 2);
        assert(crate::checker::term::terms_view(args@) =~= seq![tv]);
    }
    Term::Type(owned("List"), args)
}

// stringFromInt
pub struct StringFromInt {}

pub open spec fn string_from_int(args: Seq<ValueView>) -> Result<ValueView, Error> {
    if args.len() != 1 {
        Err(Error::WrongArity)
    } else {
        match args[0] {
                ValueView::Integer(i) => Ok(ValueView::String(int_text(i as int))),
                _ => Err(Error::WrongArgumentType),}
    }
}

impl Func for StringFromInt {
    fn call(&self, args: Vec<Value>) -> (r: Result<Value, Error>)
        ensures
            outcome_view(r) == string_from_int(values_view(args@)),
    {
        let arg = match single(&args) {
            Ok(a) => a,
            Err(e) => {
                return Err(e);
            },
        };
        match arg {
            Value::Integer(value) => Ok(Value::String(i64_text(*value as i64))),
            _ => Err(Error::WrongArgumentType),
        }
    }

    fn term(&self) -> (t: Term)
        ensures
            t == Term::Function(
                Box::new(Term::Constant(TermValue::Integer)),
                Box::new(Term::Constant(TermValue::String)),
            ),
    {
        Term::Function(
            Box::new(Term::Constant(TermValue::Integer)),
            Box::new(Term::Constant(TermValue::String)),
        )
    }
}

// stringFromBool
pub struct StringFromBool {}

pub open spec fn string_from_bool(args: Seq<ValueView>) -> Result<ValueView, Error> {
    if args.len() != 1 {
        Err(Error::WrongArity)
    } else {
        match args[0] {
                ValueView::Bool(b) => Ok(ValueView::String(if b { "true"@ } else { "false"@ })),
                _ => Err(Error::WrongArgumentType),}
    }
}

impl Func for StringFromBool {
    fn call(&self, args: Vec<Value>) -> (r: Result<Value, Error>)
        ensures
            outcome_view(r) == string_from_bool(values_view(args@)),
    {
        let arg = match single(&args) {
            Ok(a) => a,
            Err(e) => {
                return Err(e);
            },
        };
        match arg {
            Value::Bool(b) => Ok(Value::String(if *b { owned("true") } else { owned("false") })),
            _ => Err(Error::WrongArgumentType),
        }
    }

    fn term(&self) -> (t: Term)
        ensures
            t == Term::Function(
                Box::new(Term::Constant(TermValue::Bool)),
                Box::new(Term::Constant(TermValue::String)),
            ),
    {
        Term::Function(
            Box::new(Term::Constant(TermValue::Bool)),
            Box::new(Term::Constant(TermValue::String)),
        )
    }
}

/// The texts of the string entries, concatenated; other entries are skipped.
pub open spec fn joined_strings(entries: Seq<ValueView>) -> Seq<char>
    decreases entries.len(),
{
    if entries.len() == 0 {
        Seq::empty()
    } else {
        joined_strings(entries.drop_last()) + match entries.last() {
            ValueView::String(s) => s,
            _ => Seq::empty(),
        }
    }
}

// stringJoin
pub struct StringJoin {}

pub open spec fn string_join(args: Seq<ValueView>) -> Result<ValueView, Error> {
    if args.len() != 1 {
        Err(Error::WrongArity)
    } else {
        match args[0] {
                ValueView::List(entries) => Ok(ValueView::String(joined_strings(entries))),
                _ => Err(Error::WrongArgumentType),}
    }
}

impl Func for StringJoin {
    fn call(&self, args: Vec<Value>) -> (r: Result<Value, Error>)
        ensures
            outcome_view(r) == string_join(values_view(args@)),
    {
        let arg = match single(&args) {
            Ok(a) => a,
            Err(e) => {
                return Err(e);
            },
        };
        match arg {
            Value::List(entries) => {
                let mut joined = String::new();
                let mut i: usize = 0;
                while i < entries.len()
                    invariant
                        i <= entries@.len(),
                        joined@ == joined_strings(values_view(entries@.take(i as int))),
                    decreases entries@.len() - i,
                {
                    if let Value::String(string) = &entries[i] {
                        push_str(&mut joined, string.as_str());
                    }
                    proof {
                        let t = entries@.take(i + 1);
                        assert(t.drop_last() =~= entries@.take(i as int));
                        let vs = values_view(entries@.take(i as int));
                        assert(values_view(t) == vs.push(value_view(entries@[i as int])));
                        assert(vs.push(value_view(entries@[i as int])).drop_last() =~= vs);
                    }
                    i = i + 1;
                }
                assert(entries@.take(entries@.len() as int) =~= entries@);
                Ok(Value::String(joined))
            },
            _ => Err(Error::WrongArgumentType),
        }
    }

    fn term(&self) -> (t: Term)
        ensures
            t matches Term::Function(from, to) && *to == Term::Constant(TermValue::String) && (
            *from matches Term::Type(name, args) && name@ == "List"@ && args@ == seq![
                Term::Constant(TermValue::String),
            ]),
    {
        Term::Function(
            Box::new(list_of(Term::Constant(TermValue::String))),
            Box::new(Term::Constant(TermValue::String)),
        )
    }
}

// Elm.Kernel.Basics.add
pub struct Add {}

pub open spec fn add_spec(args: Seq<ValueView>) -> Result<ValueView, Error> {
    binary_ints(args, |a: i32, b: i32| ValueView::Integer(i32_specs::wrapping_add(a, b)))
}

impl Func for Add {
    fn call(&self, args: Vec<Value>) -> (r: Result<Value, Error>)
        ensures
            outcome_view(r) == add_spec(values_view(args@)),
    {
        let (a, b) = match integer_pair(&args) {
            Ok(p) => p,
            Err(e) => {
                return Err(e);
            },
        };
        Ok(Value::Integer(a.wrapping_add(b)))
    }

    fn term(&self) -> (t: Term)
        ensures
            t == Term::Function(
                Box::new(Term::Constant(TermValue::Integer)),
                Box::new(
                    Term::Function(
                        Box::new(Term::Constant(TermValue::Integer)),
                        Box::new(Term::Constant(TermValue::Integer)),
                    ),
                ),
            ),
    {
        binary_term(TermValue::Integer, TermValue::Integer, TermValue::Integer)
    }
}

// Elm.Kernel.Basics.sub
pub struct Sub {}

pub open spec fn sub_spec(args: Seq<ValueView>) -> Result<ValueView, Error> {
    binary_ints(args, |a: i32, b: i32| ValueView::Integer(i32_specs::wrapping_sub(a, b)))
}

impl Func for Sub {
    fn call(&self, args: Vec<Value>) -> (r: Result<Value, Error>)
        ensures
            outcome_view(r) == sub_spec(values_view(args@)),
    {
        let (a, b) = match integer_pair(&args) {
            Ok(p) => p,
            Err(e) => {
                return Err(e);
            },
        };
        Ok(Value::Integer(a.wrapping_sub(b)))
    }

    fn term(&self) -> (t: Term)
        ensures
            t == Term::Function(
                Box::new(Term::Constant(TermValue::Integer)),
                Box::new(
                    Term::Function(
                        Box::new(Term::Constant(TermValue::Integer)),
                        Box::new(Term::Constant(TermValue::Integer)),
                    ),
                ),
            ),
    {
        binary_term(TermValue::Integer, TermValue::Integer, TermValue::Integer)
    }
}

// Elm.Kernel.Basics.mul
pub struct Mul {}

pub open spec fn mul_spec(args: Seq<ValueView>) -> Result<ValueView, Error> {
    binary_ints(args, |a: i32, b: i32| ValueView::Integer(i32_specs::wrapping_mul(a, b)))
}

impl Func for Mul {
    fn call(&self, args: Vec<Value>) -> (r: Result<Value, Error>)
        ensures
            outcome_view(r) == mul_spec(values_view(args@)),
    {
        let (a, b) = match integer_pair(&args) {
            Ok(p) => p,
            Err(e) => {
                return Err(e);
            },
        };
        Ok(Value::Integer(a.wrapping_mul(b)))
    }

    fn term(&self) -> (t: Term)
        ensures
            t == Term::Function(
                Box::new(Term::Constant(TermValue::Integer)),
                Box::new(
                    Term::Function(
                        Box::new(Term::Constant(TermValue::Integer)),
                        Box::new(Term::Constant(TermValue::Integer)),
                    ),
                ),
            ),
    {
        binary_term(TermValue::Integer, TermValue::Integer, TermValue::Integer)
    }
}

// Elm.Kernel.Basics.gt
pub struct Gt {}

pub open spec fn gt_spec(args: Seq<ValueView>) -> Result<ValueView, Error> {
    binary_ints(args, |a: i32, b: i32| ValueView::Bool(a > b))
}

impl Func for Gt {
    fn call(&self, args: Vec<Value>) -> (r: Result<Value, Error>)
        ensures
            outcome_view(r) == gt_spec(values_view(args@)),
    {
        let (a, b) = match integer_pair(&args) {
            Ok(p) => p,
            Err(e) => {
                return Err(e);
            },
        };
        Ok(Value::Bool(a > b))
    }

    fn term(&self) -> (t: Term)
        ensures
            t == Term::Function(
                Box::new(Term::Constant(TermValue::Integer)),
                Box::new(
                    Term::Function(
                        Box::new(Term::Constant(TermValue::Integer)),
                        Box::new(Term::Constant(TermValue::Bool)),
                    ),
                ),
            ),
    {
        binary_term(TermValue::Integer, TermValue::Integer, TermValue::Bool)
    }
}

// Elm.Kernel.Basics.lt
pub struct Lt {}

pub open spec fn lt_spec(args: Seq<ValueView>) -> Result<ValueView, Error> {
    binary_ints(args, |a: i32, b: i32| ValueView::Bool(a < b))
}

impl Func for Lt {
    fn call(&self, args: Vec<Value>) -> (r: Result<Value, Error>)
        ensures
            outcome_view(r) == lt_spec(values_view(args@)),
    {
        let (a, b) = match integer_pair(&args) {
            Ok(p) => p,
            Err(e) => {
                return Err(e);
            },
        };
        Ok(Value::Bool(a < b))
    }

    fn term(&self) -> (t: Term)
        ensures
            t == Term::Function(
                Box::new(Term::Constant(TermValue::Integer)),
                Box::new(
                    Term::Function(
                        Box::new(Term::Constant(TermValue::Integer)),
                        Box::new(Term::Constant(TermValue::Bool)),
                    ),
                ),
            ),
    {
        binary_term(TermValue::Integer, TermValue::Integer, TermValue::Bool)
    }
}

// Elm.Kernel.Basics.append
pub struct Append {}

pub open spec fn append_spec(args: Seq<ValueView>) -> Result<ValueView, Error> {
    if args.len() != 2 {
        Err(Error::WrongArity)
    } else {
        match (args[0], args[1]) {
            (ValueView::String(a), ValueView::String(b)) => Ok(ValueView::String(a + b)),
            _ => Err(Error::WrongArgumentType),
        }
    }
}

impl Func for Append {
    fn call(&self, args: Vec<Value>) -> (r: Result<Value, Error>)
        ensures
            outcome_view(r) == append_spec(values_view(args@)),
    {
        proof {
            lemma_values_view_len(args@);
        }
        if args.len() != 2 {
            return Err(Error::WrongArity);
        }
        proof {
            lemma_values_view_index(args@, 0);
            lemma_values_view_index(args@, 1);
        }
        match (&args[0], &args[1]) {
            (Value::String(a), Value::String(b)) => {
                let mut r = a.clone();
                push_str(&mut r, b.as_str());
                Ok(Value::String(r))
            },
            _ => Err(Error::WrongArgumentType),
        }
    }

    fn term(&self) -> (t: Term)
        ensures
            t == Term::Function(
                Box::new(Term::Constant(TermValue::String)),
                Box::new(
                    Term::Function(
                        Box::new(Term::Constant(TermValue::String)),
                        Box::new(Term::Constant(TermValue::String)),
                    ),
                ),
            ),
    {
        binary_term(TermValue::String, TermValue::String, TermValue::String)
    }
}

/// The sum of the integer entries, wrapping on overflow; other entries are skipped.
pub open spec fn summed_integers(entries: Seq<ValueView>) -> i32
    decreases entries.len(),
{
    if entries.len() == 0 {
        0
    } else {
        match entries.last() {
            ValueView::Integer(i) => i32_specs::wrapping_add(summed_integers(entries.drop_last()), i),
            _ => summed_integers(entries.drop_last()),
        }
    }
}

/// `Elm.Kernel.List.sum`: the sum of a list of integers, wrapping on overflow. The kernel table
/// names this function among the others, and no other definition of it exists; it is defined
/// here, so that the name it is looked up by gives a function.
pub struct ListSum {}

pub open spec fn list_sum(args: Seq<ValueView>) -> Result<ValueView, Error> {
    if args.len() != 1 {
        Err(Error::WrongArity)
    } else {
        match args[0] {
            ValueView::List(entries) => Ok(ValueView::Integer(summed_integers(entries))),
            _ => Err(Error::WrongArgumentType),
        }
    }
}

/// Wrapping addition gives the sum modulo 2^32, and the sum itself where it fits in an `i32`.
pub proof fn lemma_wrapping_add(a: i32, b: i32)
    ensures
        (i32_specs::wrapping_add(a, b) - (a + b)) % 0x1_0000_0000 == 0,
        i32::MIN <= a + b <= i32::MAX ==> i32_specs::wrapping_add(a, b) == a + b,
{
}

/// Wrapping subtraction gives the difference modulo 2^32, and the difference itself where it
/// fits in an `i32`.
pub proof fn lemma_wrapping_sub(a: i32, b: i32)
    ensures
        (i32_specs::wrapping_sub(a, b) - (a - b)) % 0x1_0000_0000 == 0,
        i32::MIN <= a - b <= i32::MAX ==> i32_specs::wrapping_sub(a, b) == a - b,
{
}

/// Wrapping multiplication gives the product modulo 2^32, and the product itself where it
/// fits in an `i32`.
pub proof fn lemma_wrapping_mul(a: i32, b: i32)
    ensures
        (i32_specs::wrapping_mul(a, b) - a * b) % 0x1_0000_0000 == 0,
        i32::MIN <= a * b <= i32::MAX ==> i32_specs::wrapping_mul(a, b) == a * b,
{
    let x: int = a * b;
    let m: int = x % 0x1_0000_0000;
    vstd::arithmetic::div_mod::lemma_fundamental_div_mod(x, 0x1_0000_0000);
    vstd::arithmetic::div_mod::lemma_mod_multiples_basic(-(x / 0x1_0000_0000), 0x1_0000_0000);
    vstd::arithmetic::div_mod::lemma_mod_multiples_basic(-(x / 0x1_0000_0000) - 1, 0x1_0000_0000);
    assert(0 <= m < 0x1_0000_0000);
    assert(m - x == -(x / 0x1_0000_0000) * 0x1_0000_0000) by (nonlinear_arith)
        requires
            x == 0x1_0000_0000 * (x / 0x1_0000_0000) + m,
    ;
    assert(m - 0x1_0000_0000 - x == (-(x / 0x1_0000_0000) - 1) * 0x1_0000_0000) by (
    nonlinear_arith)
        requires
            x == 0x1_0000_0000 * (x / 0x1_0000_0000) + m,
    ;
    if i32::MIN <= x <= i32::MAX {
        if x >= 0 {
            vstd::arithmetic::div_mod::lemma_small_mod(x as nat, 0x1_0000_0000);
        } else {
            vstd::arithmetic::div_mod::lemma_mod_add_multiples_vanish(x, 0x1_0000_0000);
            vstd::arithmetic::div_mod::lemma_small_mod((x + 0x1_0000_0000) as nat, 0x1_0000_0000);
        }
    }
}

/// `List.sum` adds up the integers of a list: the empty list sums to 0, and an integer put at
/// the end of a list adds itself to the list's sum, modulo 2^32; exactly, where the sum fits in
/// an `i32`. Negative entries are added like any other.
pub proof fn law_list_sum(entries: Seq<ValueView>, x: i32)
    ensures
        list_sum(seq![ValueView::List(Seq::empty())]) == Ok::<ValueView, Error>(
            ValueView::Integer(0),
        ),
        list_sum(seq![ValueView::List(entries)]) matches Ok(ValueView::Integer(s)) && list_sum(
            seq![ValueView::List(entries.push(ValueView::Integer(x)))],
        ) matches Ok(ValueView::Integer(t)) && (t - (s + x)) % 0x1_0000_0000 == 0 && (i32::MIN
            <= s + x <= i32::MAX ==> t == s + x),
{
    assert(entries.push(ValueView::Integer(x)).drop_last() =~= entries);
    lemma_wrapping_add(summed_integers(entries), x);
}

/// The integer kernel functions of `Basics` compute on the two integers they are given: `add`,
/// `sub` and `mul` give the sum, the difference and the product modulo 2^32 (exactly, where it
/// fits in an `i32`), `gt` and `lt` whether the first is greater or less than the second; and
/// `append` joins two strings, the first one first.
pub proof fn law_basics_kernel(a: i32, b: i32, s: Seq<char>, u: Seq<char>)
    ensures
        add_spec(seq![ValueView::Integer(a), ValueView::Integer(b)]) matches Ok(
            ValueView::Integer(v),
        ) && (v - (a + b)) % 0x1_0000_0000 == 0 && (i32::MIN <= a + b <= i32::MAX ==> v == a + b),
        sub_spec(seq![ValueView::Integer(a), ValueView::Integer(b)]) matches Ok(
            ValueView::Integer(v),
        ) && (v - (a - b)) % 0x1_0000_0000 == 0 && (i32::MIN <= a - b <= i32::MAX ==> v == a - b),
        mul_spec(seq![ValueView::Integer(a), ValueView::Integer(b)]) matches Ok(
            ValueView::Integer(v),
        ) && (v - a * b) % 0x1_0000_0000 == 0 && (i32::MIN <= a * b <= i32::MAX ==> v == a * b),
        gt_spec(seq![ValueView::Integer(a), ValueView::Integer(b)]) == Ok::<ValueView, Error>(
            ValueView::Bool(a > b),
        ),
        lt_spec(seq![ValueView::Integer(a), ValueView::Integer(b)]) == Ok::<ValueView, Error>(
            ValueView::Bool(a < b),
        ),
        gt_spec(seq![ValueView::Integer(a), ValueView::Integer(a)]) == Ok::<ValueView, Error>(
            ValueView::Bool(false),
        ),
        gt_spec(seq![ValueView::Integer(a), ValueView::Integer(b)]) == lt_spec(
            seq![ValueView::Integer(b), ValueView::Integer(a)],
        ),
        append_spec(seq![ValueView::String(s), ValueView::String(u)]) == Ok::<ValueView, Error>(
            ValueView::String(s + u),
        ),
{
    lemma_wrapping_add(a, b);
    lemma_wrapping_sub(a, b);
    lemma_wrapping_mul(a, b);
}

/// `String.join` joins the strings of a list in their order: the empty list gives the empty
/// string, a string put at the end of the list puts its text at the end, and an entry that is
/// not a string adds nothing.
pub proof fn law_string_join(entries: Seq<ValueView>, s: Seq<char>, other: ValueView)
    requires
        !(other is String),
    ensures
        string_join(seq![ValueView::List(Seq::empty())]) == Ok::<ValueView, Error>(
            ValueView::String(Seq::empty()),
        ),
        string_join(seq![ValueView::List(entries)]) matches Ok(ValueView::String(j)) && string_join(
            seq![ValueView::List(entries.push(ValueView::String(s)))],
        ) == Ok::<ValueView, Error>(ValueView::String(j + s)) && string_join(
            seq![ValueView::List(entries.push(other))],
        ) == Ok::<ValueView, Error>(ValueView::String(j)),
{
    assert(entries.push(ValueView::String(s)).drop_last() =~= entries);
    assert(entries.push(other).drop_last() =~= entries);
    assert(joined_strings(entries) + Seq::<char>::empty() =~= joined_strings(entries));
}

/// `String.fromInt` writes an integer in decimal: a digit is written as itself, a larger
/// number as the text of its tens followed by the digit of its units, and a negative number as
/// `-` followed by the text of its absolute value.
pub proof fn law_string_from_int(i: i32)
    ensures
        0 <= i < 10 ==> string_from_int(seq![ValueView::Integer(i)]) == Ok::<ValueView, Error>(
            ValueView::String(seq![crate::text::digit_char(i as nat)]),
        ),
        i >= 10 ==> string_from_int(seq![ValueView::Integer(i)]) == Ok::<ValueView, Error>(
            ValueView::String(int_text(i / 10).push(crate::text::digit_char((i % 10) as nat))),
        ),
        i < 0 ==> string_from_int(seq![ValueView::Integer(i)]) == Ok::<ValueView, Error>(
            ValueView::String(seq!['-'] + int_text(-i)),
        ),
{
}

impl Func for ListSum {
    fn call(&self, args: Vec<Value>) -> (r: Result<Value, Error>)
        ensures
            outcome_view(r) == list_sum(values_view(args@)),
    {
        let arg = match single(&args) {
            Ok(a) => a,
            Err(e) => {
                return Err(e);
            },
        };
        match arg {
            Value::List(entries) => {
                let mut total: i32 = 0;
                let mut i: usize = 0;
                while i < entries.len()
                    invariant
                        i <= entries@.len(),
                        total == summed_integers(values_view(entries@.take(i as int))),
                    decreases entries@.len() - i,
                {
                    if let Value::Integer(v) = &entries[i] {
                        total = total.wrapping_add(*v);
                    }
                    proof {
                        let t = entries@.take(i + 1);
                        assert(t.drop_last() =~= entries@.take(i as int));
                        let vs = values_view(entries@.take(i as int));
                        assert(values_view(t) == vs.push(value_view(entries@[i as int])));
                        assert(vs.push(value_view(entries@[i as int])).drop_last() =~= vs);
                    }
                    i = i + 1;
                }
                assert(entries@.take(entries@.len() as int) =~= entries@);
                Ok(Value::Integer(total))
            },
            _ => Err(Error::WrongArgumentType),
        }
    }

    fn term(&self) -> (t: Term)
        ensures
            t matches Term::Function(from, to) && *to == Term::Constant(TermValue::Integer) && (
            *from matches Term::Type(name, args) && name@ == "List"@ && args@ == seq![
                Term::Constant(TermValue::Integer),
            ]),
    {
        Term::Function(
            Box::new(list_of(Term::Constant(TermValue::Integer))),
            Box::new(Term::Constant(TermValue::Integer)),
        )
    }
}

/// The term `a -> b -> c` of constants.
pub open spec fn binary_term_view(a: TermValue, b: TermValue, c: TermValue) -> TermView {
    TermView::Function(
        Box::new(TermView::Constant(a)),
        Box::new(
            TermView::Function(Box::new(TermView::Constant(b)), Box::new(TermView::Constant(c))),
        ),
    )
}

/// The term `a -> b` of constants.
pub open spec fn unary_term_view(a: TermValue, b: TermValue) -> TermView {
    TermView::Function(Box::new(TermView::Constant(a)), Box::new(TermView::Constant(b)))
}

/// The term `List a -> b` of constants.
pub open spec fn list_term_view(a: TermValue, b: TermValue) -> TermView {
    TermView::Function(
        Box::new(TermView::Type("List"@, seq![TermView::Constant(a)])),
        Box::new(TermView::Constant(b)),
    )
}

/// The type term of a kernel function.
pub open spec fn builtin_term(f: BuiltIn) -> TermView {
    match f {
        BuiltIn::Add(_) => binary_term_view(TermValue::Integer, TermValue::Integer, TermValue::Integer),
        BuiltIn::Sub(_) => binary_term_view(TermValue::Integer, TermValue::Integer, TermValue::Integer),
        BuiltIn::Mul(_) => binary_term_view(TermValue::Integer, TermValue::Integer, TermValue::Integer),
        BuiltIn::Gt(_) => binary_term_view(TermValue::Integer, TermValue::Integer, TermValue::Bool),
        BuiltIn::Lt(_) => binary_term_view(TermValue::Integer, TermValue::Integer, TermValue::Bool),
        BuiltIn::Append(_) => binary_term_view(TermValue::String, TermValue::String, TermValue::String),
        BuiltIn::StringFromInt(_) => unary_term_view(TermValue::Integer, TermValue::String),
        BuiltIn::StringJoin(_) => list_term_view(TermValue::String, TermValue::String),
        BuiltIn::ListSum(_) => list_term_view(TermValue::Integer, TermValue::Integer),
    }
}

/// The kernel function bound to a kernel name.
pub enum BuiltIn {
    Add(Add),
    Sub(Sub),
    Mul(Mul),
    Gt(Gt),
    Lt(Lt),
    Append(Append),
    StringFromInt(StringFromInt),
    StringJoin(StringJoin),
    ListSum(ListSum),
}

/// What calling a kernel function on `args` gives.
pub open spec fn builtin_call(f: BuiltIn, args: Seq<ValueView>) -> Result<ValueView, Error> {
    match f {
        BuiltIn::Add(_) => add_spec(args),
        BuiltIn::Sub(_) => sub_spec(args),
        BuiltIn::Mul(_) => mul_spec(args),
        BuiltIn::Gt(_) => gt_spec(args),
        BuiltIn::Lt(_) => lt_spec(args),
        BuiltIn::Append(_) => append_spec(args),
        BuiltIn::StringFromInt(_) => string_from_int(args),
        BuiltIn::StringJoin(_) => string_join(args),
        BuiltIn::ListSum(_) => list_sum(args),
    }
}

impl BuiltIn {
    /// Calls the kernel function with evaluated arguments.
    pub fn call(&self, args: Vec<Value>) -> (r: Result<Value, Error>)
        ensures
            outcome_view(r) == builtin_call(*self, values_view(args@)),
    {
        match self {
            BuiltIn::Add(f) => f.call(args),
            BuiltIn::Sub(f) => f.call(args),
            BuiltIn::Mul(f) => f.call(args),
            BuiltIn::Gt(f) => f.call(args),
            BuiltIn::Lt(f) => f.call(args),
            BuiltIn::Append(f) => f.call(args),
            BuiltIn::StringFromInt(f) => f.call(args),
            BuiltIn::StringJoin(f) => f.call(args),
            BuiltIn::ListSum(f) => f.call(args),
        }
    }

    /// The type term of the kernel function.
    pub fn term(&self) -> (t: Term)
        ensures
            t@ == builtin_term(*self),
    {
        let t = match self {
            BuiltIn::Add(f) => f.term(),
            BuiltIn::Sub(f) => f.term(),
            BuiltIn::Mul(f) => f.term(),
            BuiltIn::Gt(f) => f.term(),
            BuiltIn::Lt(f) => f.term(),
            BuiltIn::Append(f) => f.term(),
            BuiltIn::StringFromInt(f) => f.term(),
            BuiltIn::StringJoin(f) => f.term(),
            BuiltIn::ListSum(f) => f.term(),
        };
        proof {
            reveal_with_fuel(crate::checker::term::term_view, 4);
            reveal_with_fuel(crate::checker::term::terms_view, 2);
        }
        t
    }
}

} // verus!
