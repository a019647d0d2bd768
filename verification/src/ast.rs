//! The syntax tree of an Elm module, and the name helpers the rest of the interpreter uses.
use std::rc::Rc;
use vstd::prelude::*;

use crate::text::{chars_of, owned, push_char, push_str, string_from_chars};

pub mod views;

verus! {

broadcast use vstd::string::group_string_axioms;

/// A shared handle on the same value: `Rc::clone`.
#[verifier::external_body]
pub(crate) fn share<T>(rc: &Rc<T>) -> (r: Rc<T>)
    ensures
        r == *rc,
{
    Rc::clone(rc)
}

pub type ModuleName = Vec<String>;

#[derive(Debug)]
pub struct Module {
    pub name: ModuleName,
    pub exposing: Exposing,
    pub imports: Vec<Import>,
    pub statements: Vec<Rc<Stmt>>,
}

/// Two imports name the same module and expose the same things.
pub open spec fn same_import(a: Import, b: Import) -> bool {
    &&& a.module_name.deep_view() == b.module_name.deep_view()
    &&& match (a.exposing, b.exposing) {
        (Some(x), Some(y)) => same_exposing(x, y),
        (None, None) => true,
        _ => false,
    }
}

/// Two exposing lists expose the same entries in the same order.
pub open spec fn same_exposing(a: Exposing, b: Exposing) -> bool {
    match (a, b) {
        (Exposing::All, Exposing::All) => true,
        (Exposing::List(x), Exposing::List(y)) => x@ == y@,
        _ => false,
    }
}

/// An exposing list made of the one operator `op`.
pub open spec fn exposes_only_operator(e: Option<Exposing>, op: Seq<char>) -> bool {
    match e {
        Some(Exposing::List(v)) => v@.len() == 1 && match v@[0] {
            ExposingDetail::Operator(o) => o@ == op,
            _ => false,
        },
        _ => false,
    }
}

/// An exposing list made of the one type `name` with its constructors, `name(..)`.
pub open spec fn exposes_only_open_type(e: Option<Exposing>, name: Seq<char>) -> bool {
    match e {
        Some(Exposing::List(v)) => v@.len() == 1 && match v@[0] {
            ExposingDetail::Type(n, TypeState::Open) => n.0@ == name,
            _ => false,
        },
        _ => false,
    }
}

/// The four imports every non-core module receives, in this order:
/// `Basics exposing ((+))`, `String`, `List`, `Maybe exposing (Maybe(..))`.
pub open spec fn is_prelude(imports: Seq<Import>) -> bool {
    &&& imports.len() == 4
    &&& imports[0].module_name.deep_view() == seq!["Basics"@]
    &&& exposes_only_operator(imports[0].exposing, "+"@)
    &&& imports[1].module_name.deep_view() == seq!["String"@]
    &&& imports[1].exposing is None
    &&& imports[2].module_name.deep_view() == seq!["List"@]
    &&& imports[2].exposing is None
    &&& imports[3].module_name.deep_view() == seq!["Maybe"@]
    &&& exposes_only_open_type(imports[3].exposing, "Maybe"@)
}

/// The module with the prelude imports placed before its own imports; everything else is
/// carried over unchanged.
pub fn with_default_imports(module: &Module) -> (r: Module)
    ensures
        r.name.deep_view() == module.name.deep_view(),
        same_exposing(r.exposing, module.exposing),
        r.statements@ == module.statements@,
        r.imports@.len() == 4 + module.imports@.len(),
        is_prelude(r.imports@.take(4)),
        forall|i: int|
            0 <= i < module.imports@.len() ==> same_import(
                #[trigger] r.imports@[i + 4],
                module.imports@[i],
            ),
{
    let mut imports = Import::prelude();
    let ghost prelude = imports@;
    let mut i: usize = 0;
    while i < module.imports.len()
        invariant
            i <= module.imports@.len(),
            imports@.len() == 4 + i,
            imports@.take(4) == prelude,
            is_prelude(prelude),
            forall|j: int| 0 <= j < i ==> same_import(#[trigger] imports@[j + 4], module.imports@[j]),
        decreases module.imports@.len() - i,
    {
        imports.push(module.imports[i].copy());
        assert(imports@.take(4) =~= prelude);
        i = i + 1;
    }
    Module {
        name: copy_names(&module.name),
        exposing: module.exposing.copy(),
        imports,
        statements: copy_statements(&module.statements),
    }
}

impl Module {
    /// A copy of the module: the same name, exposing, imports and statements.
    pub fn copy(&self) -> (r: Module)
        ensures
            r.name.deep_view() == self.name.deep_view(),
            same_exposing(r.exposing, self.exposing),
            r.statements@ == self.statements@,
            r.imports@.len() == self.imports@.len(),
            forall|i: int|
                0 <= i < self.imports@.len() ==> same_import(
                    #[trigger] r.imports@[i],
                    self.imports@[i],
                ),
    {
        let mut imports: Vec<Import> = Vec::new();
        let mut i: usize = 0;
        while i < self.imports.len()
            invariant
                i <= self.imports@.len(),
                imports@.len() == i,
                forall|j: int| 0 <= j < i ==> same_import(#[trigger] imports@[j], self.imports@[j]),
            decreases self.imports@.len() - i,
        {
            imports.push(self.imports[i].copy());
            i = i + 1;
        }
        Module {
            name: copy_names(&self.name),
            exposing: self.exposing.copy(),
            imports,
            statements: copy_statements(&self.statements),
        }
    }
}

/// A copy of a list of names.
pub fn copy_names(v: &Vec<String>) -> (r: Vec<String>)
    ensures
        r.deep_view() == v.deep_view(),
        r@ == v@,
{
    let mut r: Vec<String> = Vec::new();
    let mut i: usize = 0;
    while i < v.len()
        invariant
            i <= v@.len(),
            r@ == v@.take(i as int),
        decreases v@.len() - i,
    {
        r.push(v[i].clone());
        i = i + 1;
        assert(r@ =~= v@.take(i as int));
    }
    assert(v@.take(v@.len() as int) =~= v@);
    assert(r.deep_view() =~= v.deep_view());
    r
}

fn copy_statements(v: &Vec<Rc<Stmt>>) -> (r: Vec<Rc<Stmt>>)
    ensures
        r@ == v@,
{
    let mut r: Vec<Rc<Stmt>> = Vec::new();
    let mut i: usize = 0;
    while i < v.len()
        invariant
            i <= v@.len(),
            r@ == v@.take(i as int),
        decreases v@.len() - i,
    {
        r.push(share(&v[i]));
        i = i + 1;
        assert(r@ =~= v@.take(i as int));
    }
    assert(v@.take(v@.len() as int) =~= v@);
    r
}

#[derive(Debug)]
pub struct Import {
    pub module_name: Vec<String>,
    pub exposing: Option<Exposing>,
}

impl Import {
    /// A copy of this import.
    pub fn copy(&self) -> (r: Import)
        ensures
            same_import(r, *self),
    {
        let exposing = match &self.exposing {
            Some(e) => Some(e.copy()),
            None => None,
        };
        Import { module_name: copy_names(&self.module_name), exposing }
    }

    // How Elm determines whether to include the prelude:
    // https://github.com/elm/compiler/blob/770071accf791e8171440709effe71e78a9ab37c/compiler/src/Parse/Module.hs#L80
    /// The imports that every non-core module receives implicitly.
    pub fn prelude() -> (r: Vec<Import>)
        ensures
            is_prelude(r@),
    {
        let mut plus: Vec<ExposingDetail> = Vec::new();
        plus.push(ExposingDetail::Operator(owned("+")));
        let mut maybe_type: Vec<ExposingDetail> = Vec::new();
        maybe_type.push(ExposingDetail::Type(UpperName(owned("Maybe")), TypeState::Open));
        let mut r: Vec<Import> = Vec::new();
        r.push(Import { module_name: single_name("Basics"), exposing: Some(Exposing::List(plus)) });
        r.push(Import { module_name: single_name("String"), exposing: None });
        r.push(Import { module_name: single_name("List"), exposing: None });
        r.push(
            Import { module_name: single_name("Maybe"), exposing: Some(Exposing::List(maybe_type)) },
        );
        r
    }
}

fn single_name(s: &str) -> (r: Vec<String>)
    ensures
        r.deep_view() == seq![s@],
{
    let mut r: Vec<String> = Vec::new();
    r.push(owned(s));
    assert(r.deep_view() =~= seq![s@]);
    r
}

#[derive(Debug, Clone)]
pub enum Exposing {
    All,
    List(Vec<ExposingDetail>),
}

impl Exposing {
    /// A copy of this exposing list.
    pub fn copy(&self) -> (r: Exposing)
        ensures
            same_exposing(r, *self),
    {
        match self {
            Exposing::All => Exposing::All,
            Exposing::List(details) => {
                let mut r: Vec<ExposingDetail> = Vec::new();
                let mut i: usize = 0;
                while i < details.len()
                    invariant
                        i <= details@.len(),
                        r@ == details@.take(i as int),
                    decreases details@.len() - i,
                {
                    r.push(details[i].copy());
                    i = i + 1;
                    assert(r@ =~= details@.take(i as int));
                }
                assert(details@.take(details@.len() as int) =~= details@);
                Exposing::List(r)
            },
        }
    }
}

#[derive(Debug, Clone)]
pub enum ExposingDetail {
    Type(UpperName, TypeState),
    Operator(String),
    Name(String),
}

impl ExposingDetail {
    /// A copy of this exposed entry.
    pub fn copy(&self) -> (r: ExposingDetail)
        ensures
            r == *self,
    {
        match self {
            ExposingDetail::Type(name, state) => ExposingDetail::Type(
                UpperName(name.0.clone()),
                state.copy(),
            ),
            ExposingDetail::Operator(op) => ExposingDetail::Operator(op.clone()),
            ExposingDetail::Name(name) => ExposingDetail::Name(name.clone()),
        }
    }
}

#[derive(Debug, Clone)]
pub enum TypeState {
    Open,
    Closed,
}

impl TypeState {
    pub fn copy(&self) -> (r: TypeState)
        ensures
            r == *self,
    {
        match self {
            TypeState::Open => TypeState::Open,
            TypeState::Closed => TypeState::Closed,
        }
    }
}

#[derive(Debug, Clone)]
pub struct UpperName(pub String);

#[derive(Debug)]
pub struct LowerName(pub String);

impl PartialEq for LowerName {
    fn eq(&self, other: &Self) -> (r: bool) {
        self.0 == other.0
    }
}

impl vstd::std_specs::cmp::PartialEqSpecImpl for LowerName {
    open spec fn obeys_eq_spec() -> bool {
        true
    }

    open spec fn eq_spec(&self, other: &Self) -> bool {
        self.0@ == other.0@
    }
}

impl LowerName {
    /// A copy of this name.
    pub fn copy(&self) -> (r: LowerName)
        ensures
            r == *self,
    {
        LowerName(self.0.clone())
    }
}

/// The segments of `s` between the dots, as `str::split('.')` yields them.
pub open spec fn split_dots(s: Seq<char>) -> Seq<Seq<char>>
    decreases s.len(),
{
    if s.len() == 0 {
        seq![Seq::<char>::empty()]
    } else if s.last() == '.' {
        split_dots(s.drop_last()).push(Seq::<char>::empty())
    } else {
        let r = split_dots(s.drop_last());
        r.update(r.len() - 1, r.last().push(s.last()))
    }
}

/// A segment that names a module: it starts with a capital letter `A`..=`Z`.
pub open spec fn is_upper_segment(s: Seq<char>) -> bool {
    s.len() > 0 && 'A' <= s[0] && s[0] <= 'Z'
}

/// The segments that name modules, in order.
pub open spec fn upper_segments(segs: Seq<Seq<char>>) -> Seq<Seq<char>>
    decreases segs.len(),
{
    if segs.len() == 0 {
        segs
    } else if is_upper_segment(segs.last()) {
        upper_segments(segs.drop_last()).push(segs.last())
    } else {
        upper_segments(segs.drop_last())
    }
}

/// The segments that do not name modules, in order.
pub open spec fn lower_segments(segs: Seq<Seq<char>>) -> Seq<Seq<char>>
    decreases segs.len(),
{
    if segs.len() == 0 {
        segs
    } else if is_upper_segment(segs.last()) {
        lower_segments(segs.drop_last())
    } else {
        lower_segments(segs.drop_last()).push(segs.last())
    }
}

/// The segments joined with `sep` between consecutive ones, as `join` does.
pub open spec fn join_with(segs: Seq<Seq<char>>, sep: Seq<char>) -> Seq<char>
    decreases segs.len(),
{
    if segs.len() == 0 {
        Seq::<char>::empty()
    } else if segs.len() == 1 {
        segs[0]
    } else {
        join_with(segs.drop_last(), sep) + sep + segs.last()
    }
}

/// Joining the segments between the dots with dots gives the text back.
proof fn lemma_join_split_dots(s: Seq<char>)
    ensures
        join_with(split_dots(s), "."@) == s,
        split_dots(s).len() >= 1,
    decreases s.len(),
{
    reveal_strlit(".");
    if s.len() > 0 {
        let t = s.drop_last();
        lemma_join_split_dots(t);
        let r = split_dots(t);
        if s.last() == '.' {
            let r2 = r.push(Seq::<char>::empty());
            assert(r2.drop_last() =~= r);
            assert(join_with(r2, "."@) =~= t + "."@);
            assert(t + "."@ =~= s);
        } else {
            let r2 = r.update(r.len() - 1, r.last().push(s.last()));
            if r.len() == 1 {
                assert(r2[0] =~= s);
            } else {
                assert(r2.drop_last() =~= r.drop_last());
                assert(join_with(r2, "."@) =~= (join_with(r.drop_last(), "."@) + "."@ + r.last()).push(
                    s.last(),
                ));
                assert(t.push(s.last()) =~= s);
            }
        }
    }
}

/// Every capitalised segment comes before every segment that is not capitalised.
pub open spec fn upper_first(segs: Seq<Seq<char>>) -> bool {
    forall|i: int, j: int|
        0 <= i < j < segs.len() && is_upper_segment(#[trigger] segs[j]) ==> is_upper_segment(
            #[trigger] segs[i],
        )
}

proof fn lemma_all_upper_no_lower(segs: Seq<Seq<char>>)
    requires
        forall|i: int| 0 <= i < segs.len() ==> is_upper_segment(#[trigger] segs[i]),
    ensures
        lower_segments(segs) == Seq::<Seq<char>>::empty(),
        upper_segments(segs) == segs,
    decreases segs.len(),
{
    if segs.len() > 0 {
        let t = segs.drop_last();
        assert forall|i: int| 0 <= i < t.len() implies is_upper_segment(#[trigger] t[i]) by {
            assert(t[i] == segs[i]);
        }
        lemma_all_upper_no_lower(t);
        assert(is_upper_segment(segs[segs.len() - 1]));
        assert(t.push(segs.last()) =~= segs);
    }
}

/// With the capitalised segments first, the two groups together are the segments.
proof fn lemma_upper_lower_split(segs: Seq<Seq<char>>)
    requires
        upper_first(segs),
    ensures
        upper_segments(segs) + lower_segments(segs) == segs,
    decreases segs.len(),
{
    if segs.len() > 0 {
        let t = segs.drop_last();
        assert forall|i: int, j: int|
            0 <= i < j < t.len() && is_upper_segment(#[trigger] t[j]) implies is_upper_segment(
            #[trigger] t[i],
        ) by {
            assert(t[i] == segs[i] && t[j] == segs[j]);
        }
        lemma_upper_lower_split(t);
        if is_upper_segment(segs.last()) {
            assert forall|i: int| 0 <= i < t.len() implies is_upper_segment(#[trigger] t[i]) by {
                assert(t[i] == segs[i]);
                assert(segs[segs.len() - 1] == segs.last());
            }
            lemma_all_upper_no_lower(t);
            assert(t.push(segs.last()) =~= segs);
            assert(upper_segments(t).push(segs.last()) + lower_segments(t) =~= segs);
        } else {
            assert(upper_segments(t) + lower_segments(t).push(segs.last()) =~= (upper_segments(t)
                + lower_segments(t)).push(segs.last()));
            assert(t.push(segs.last()) =~= segs);
        }
    }
}

/// A lower-case name read from a text renders back to that text, when no capitalised
/// segment follows one that is not; a simple name renders as itself.
pub proof fn law_lower_name_round_trip(s: Seq<char>, n: Seq<char>)
    requires
        upper_first(split_dots(s)),
    ensures
        join_with(upper_segments(split_dots(s)) + lower_segments(split_dots(s)), "."@) == s,
        join_with(Seq::<Seq<char>>::empty() + seq![n], "."@) == n,
{
    lemma_upper_lower_split(split_dots(s));
    lemma_join_split_dots(s);
    assert(Seq::<Seq<char>>::empty() + seq![n] =~= seq![n]);
}

/// The first segment of a text that does not start with a dot is not empty.
proof fn lemma_first_segment(s: Seq<char>)
    requires
        s.len() > 0,
        s[0] != '.',
    ensures
        split_dots(s)[0].len() > 0,
    decreases s.len(),
{
    let t = s.drop_last();
    lemma_join_split_dots(t);
    if t.len() > 0 {
        lemma_first_segment(t);
    }
}

/// A capitalised name read from a text that does not start with a dot renders back to that
/// text.
pub proof fn law_upper_name_round_trip(name: Seq<char>)
    requires
        name.len() == 0 || name[0] != '.',
    ensures
        ({
            let segs = split_dots(name);
            let modules = segs.drop_last();
            (if join_with(modules, "."@).len() == 0 {
                segs.last()
            } else {
                join_with(modules, "."@) + "."@ + segs.last()
            }) == name
        }),
{
    reveal_strlit(".");
    let segs = split_dots(name);
    lemma_join_split_dots(name);
    if segs.len() == 1 {
        assert(segs.drop_last().len() == 0);
    } else {
        if name.len() > 0 {
            lemma_first_segment(name);
        } else {
            assert(segs == seq![Seq::<char>::empty()]);
        }
        let modules = segs.drop_last();
        if modules.len() == 1 {
            assert(modules[0] == segs[0]);
        } else {
            assert(join_with(modules, "."@) == join_with(modules.drop_last(), "."@) + "."@
                + modules.last());
        }
        assert(join_with(modules, "."@).len() > 0);
    }
}

proof fn lemma_split_dots_nonempty(s: Seq<char>)
    ensures
        split_dots(s).len() >= 1,
    decreases s.len(),
{
    if s.len() > 0 {
        lemma_split_dots_nonempty(s.drop_last());
    }
}

/// The segments of `s` between dots.
pub fn split_on_dots(s: &str) -> (r: Vec<String>)
    ensures
        r.deep_view() == split_dots(s@),
{
    let cs = chars_of(s);
    let mut done: Vec<String> = Vec::new();
    let mut current: Vec<char> = Vec::new();
    let mut i: usize = 0;
    while i < cs.len()
        invariant
            cs@ == s@,
            i <= cs@.len(),
            done.deep_view().push(current@) == split_dots(cs@.take(i as int)),
        decreases cs@.len() - i,
    {
        let ghost prev = cs@.take(i as int);
        assert(cs@.take(i + 1).drop_last() =~= prev);
        if cs[i] == '.' {
            let seg = string_from_chars(current.as_slice());
            done.push(seg);
            current = Vec::new();
            assert(done.deep_view() =~= split_dots(prev));
            assert(done.deep_view().push(current@) =~= split_dots(cs@.take(i + 1)));
        } else {
            current.push(cs[i]);
            proof {
                lemma_split_dots_nonempty(prev);
            }
            assert(done.deep_view().push(current@) =~= split_dots(cs@.take(i + 1)));
        }
        i = i + 1;
    }
    let seg = string_from_chars(current.as_slice());
    done.push(seg);
    assert(cs@.take(cs@.len() as int) =~= cs@);
    assert(done.deep_view() =~= split_dots(s@));
    done
}

/// Joins `segs` with `sep` between consecutive ones.
pub fn join_strings(segs: &Vec<String>, sep: &str) -> (r: String)
    ensures
        r@ == join_with(segs.deep_view(), sep@),
{
    let mut r = String::new();
    let mut i: usize = 0;
    while i < segs.len()
        invariant
            i <= segs@.len(),
            r@ == join_with(segs.deep_view().take(i as int), sep@),
        decreases segs@.len() - i,
    {
        let ghost prev = segs.deep_view().take(i as int);
        assert(segs.deep_view().take(i + 1).drop_last() =~= prev);
        if i > 0 {
            push_str(&mut r, sep);
        }
        push_str(&mut r, segs[i].as_str());
        i = i + 1;
        assert(r@ =~= join_with(segs.deep_view().take(i as int), sep@));
    }
    assert(segs.deep_view().take(segs@.len() as int) =~= segs.deep_view());
    r
}

fn starts_with_capital(s: &String) -> (r: bool)
    ensures
        r == is_upper_segment(s@),
{
    let cs = chars_of(s.as_str());
    cs.len() > 0 && 'A' <= cs[0] && cs[0] <= 'Z'
}

#[derive(Debug)]
pub struct QualifiedLowerName {
    pub modules: Vec<String>,
    pub access: Vec<String>,
}

impl View for QualifiedLowerName {
    type V = (Seq<Seq<char>>, Seq<Seq<char>>);

    open spec fn view(&self) -> Self::V {
        (self.modules.deep_view(), self.access.deep_view())
    }
}

impl PartialEq for QualifiedLowerName {
    fn eq(&self, other: &Self) -> (r: bool) {
        names_equal(&self.modules, &other.modules) && names_equal(&self.access, &other.access)
    }
}

impl vstd::std_specs::cmp::PartialEqSpecImpl for QualifiedLowerName {
    open spec fn obeys_eq_spec() -> bool {
        true
    }

    open spec fn eq_spec(&self, other: &Self) -> bool {
        self@ == other@
    }
}

/// Whether two lists of names hold the same names in the same order.
pub fn names_equal(a: &Vec<String>, b: &Vec<String>) -> (r: bool)
    ensures
        r == (a.deep_view() == b.deep_view()),
{
    if a.len() != b.len() {
        assert(a.deep_view().len() != b.deep_view().len());
        return false;
    }
    let mut i: usize = 0;
    while i < a.len()
        invariant
            a@.len() == b@.len(),
            i <= a@.len(),
            forall|j: int| 0 <= j < i ==> a.deep_view()[j] == b.deep_view()[j],
        decreases a@.len() - i,
    {
        if a[i] != b[i] {
            assert(a.deep_view()[i as int] != b.deep_view()[i as int]);
            return false;
        }
        i = i + 1;
    }
    assert(a.deep_view() =~= b.deep_view());
    true
}

impl QualifiedLowerName {
    /// The name `name` with no module part.
    pub fn simple(name: String) -> (r: Self)
        ensures
            r@ == (Seq::<Seq<char>>::empty(), seq![name@]),
    {
        let mut access: Vec<String> = Vec::new();
        access.push(name);
        assert(access.deep_view() =~= seq![name@]);
        let r = Self { modules: Vec::new(), access };
        assert(r.modules.deep_view() =~= Seq::<Seq<char>>::empty());
        r
    }

    /// Splits a dotted name: the capitalised segments form the module part, the others the
    /// access part, each in its original order.
    pub fn from(name: String) -> (r: Self)
        ensures
            r@ == (upper_segments(split_dots(name@)), lower_segments(split_dots(name@))),
    {
        let segments = split_on_dots(name.as_str());
        let mut modules: Vec<String> = Vec::new();
        let mut access: Vec<String> = Vec::new();
        let mut i: usize = 0;
        while i < segments.len()
            invariant
                i <= segments@.len(),
                modules.deep_view() == upper_segments(segments.deep_view().take(i as int)),
                access.deep_view() == lower_segments(segments.deep_view().take(i as int)),
            decreases segments@.len() - i,
        {
            let ghost prev = segments.deep_view().take(i as int);
            assert(segments.deep_view().take(i + 1).drop_last() =~= prev);
            let seg = segments[i].clone();
            if starts_with_capital(&seg) {
                modules.push(seg);
                assert(modules.deep_view() =~= upper_segments(segments.deep_view().take(i + 1)));
                assert(access.deep_view() =~= lower_segments(segments.deep_view().take(i + 1)));
            } else {
                access.push(seg);
                assert(modules.deep_view() =~= upper_segments(segments.deep_view().take(i + 1)));
                assert(access.deep_view() =~= lower_segments(segments.deep_view().take(i + 1)));
            }
            i = i + 1;
        }
        assert(segments.deep_view().take(segments@.len() as int) =~= segments.deep_view());
        Self { modules, access }
    }

    /// The dotted rendering: module segments, then access segments, joined with `.`.
    pub fn as_string(&self) -> (r: String)
        ensures
            r@ == join_with(self@.0 + self@.1, "."@),
    {
        let mut all = copy_names(&self.modules);
        let mut i: usize = 0;
        while i < self.access.len()
            invariant
                i <= self.access@.len(),
                all@ == self.modules@ + self.access@.take(i as int),
            decreases self.access@.len() - i,
        {
            all.push(self.access[i].clone());
            i = i + 1;
            assert(all@ =~= self.modules@ + self.access@.take(i as int));
        }
        assert(self.access@.take(self.access@.len() as int) =~= self.access@);
        assert(all.deep_view() =~= self.modules.deep_view() + self.access.deep_view());
        join_strings(&all, ".")
    }

    /// The same name without its module part.
    pub fn without_module(&self) -> (r: Self)
        ensures
            r@ == (Seq::<Seq<char>>::empty(), self@.1),
    {
        let r = Self { modules: Vec::new(), access: copy_names(&self.access) };
        assert(r.modules.deep_view() =~= Seq::<Seq<char>>::empty());
        r
    }

    /// A copy of this name.
    pub fn copy(&self) -> (r: Self)
        ensures
            r@ == self@,
    {
        Self { modules: copy_names(&self.modules), access: copy_names(&self.access) }
    }
}

#[derive(Debug)]
pub struct QualifiedUpperName {
    pub modules: Vec<String>,
    pub access: String,
}

impl View for QualifiedUpperName {
    type V = (Seq<Seq<char>>, Seq<char>);

    open spec fn view(&self) -> Self::V {
        (self.modules.deep_view(), self.access@)
    }
}

impl QualifiedUpperName {
    /// Splits a dotted name: the last segment is the accessed name, the ones before it the
    /// module path. A dotted name always has a last segment, so this never gives `None`.
    pub fn from(name: &str) -> (r: Option<Self>)
        ensures
            r is Some,
            r matches Some(n) ==> n@ == (
                split_dots(name@).drop_last(),
                split_dots(name@).last(),
            ),
    {
        let mut segments = split_on_dots(name);
        proof {
            lemma_split_dots_nonempty(name@);
        }
        let last = segments.pop();
        match last {
            Some(access) => {
                assert(segments.deep_view() =~= split_dots(name@).drop_last());
                Some(Self { modules: segments, access })
            },
            None => None,
        }
    }

    /// The dotted rendering: the module path joined with `.`, then `.` and the accessed name,
    /// or only the accessed name when the joined module path is empty.
    pub fn as_string(&self) -> (r: String)
        ensures
            r@ == (if join_with(self@.0, "."@).len() == 0 {
                self@.1
            } else {
                join_with(self@.0, "."@) + "."@ + self@.1
            }),
    {
        let mut string = join_strings(&self.modules, ".");
        if string.as_str().is_empty() {
            self.access.clone()
        } else {
            push_str(&mut string, ".");
            push_str(&mut string, self.access.as_str());
            string
        }
    }

    /// The same name without its module path.
    pub fn without_module(&self) -> (r: Self)
        ensures
            r@ == (Seq::<Seq<char>>::empty(), self@.1),
    {
        let r = Self { modules: Vec::new(), access: self.access.clone() };
        assert(r.modules.deep_view() =~= Seq::<Seq<char>>::empty());
        r
    }
}

#[allow(inconsistent_fields)]
#[derive(Debug)]
pub enum Stmt {
    Binding { type_annotation: Option<TypeAnnotation>, name: LowerName, expr: Rc<Expr> },
    Function {
        type_annotation: Option<TypeAnnotation>,
        name: LowerName,
        args: Vec<Pattern>,
        expr: Rc<Expr>,
    },
    Infix {
        operator_name: String,
        associativity: Associativity,
        precedence: usize,
        function_name: QualifiedLowerName,
    },
    Type { name: UpperName, args: Vec<LowerName>, constructors: Vec<Type> },
}

#[derive(Debug)]
pub struct TypeAnnotation {
    pub name: LowerName,
    pub type_: Type,
}

// Based on: https://github.com/elm-in-elm/compiler/blob/master/src/Elm/Data/Type.elm
#[derive(Debug)]
pub enum Type {
    Var(LowerName),
    Bool,
    Int,
    Float,
    Char,
    String,
    Unit,
    List(Box<Type>),
    Function { from: Box<Type>, to: Box<Type> },
    UserDefined { name: QualifiedUpperName, args: Vec<Type> },
}

#[derive(Debug)]
pub enum Associativity {
    Left,
    Right,
    Non,
}

impl Associativity {
    pub fn copy(&self) -> (r: Associativity)
        ensures
            r == *self,
    {
        match self {
            Associativity::Left => Associativity::Left,
            Associativity::Right => Associativity::Right,
            Associativity::Non => Associativity::Non,
        }
    }
}

// Based on: https://github.com/elm-in-elm/compiler/blob/master/src/Elm/AST/Canonical.elm#L97-L111
#[derive(Debug)]
pub enum Pattern {
    Anything,
    Bool(bool),
    Integer(i32),
    Name(String),
}

impl Pattern {
    /// The names this pattern binds: one for `Name`, none otherwise.
    pub fn names(&self) -> (r: Vec<String>)
        ensures
            r.deep_view() == (match *self {
                Pattern::Name(n) => seq![n@],
                _ => Seq::<Seq<char>>::empty(),
            }),
    {
        let mut r: Vec<String> = Vec::new();
        match self {
            Pattern::Name(name) => {
                r.push(name.clone());
                assert(r.deep_view() =~= seq![name@]);
            },
            _ => {
                assert(r.deep_view() =~= Seq::<Seq<char>>::empty());
            },
        }
        r
    }

    /// A copy of this pattern.
    pub fn copy(&self) -> (r: Pattern)
        ensures
            r == *self,
    {
        match self {
            Pattern::Anything => Pattern::Anything,
            Pattern::Bool(b) => Pattern::Bool(*b),
            Pattern::Integer(i) => Pattern::Integer(*i),
            Pattern::Name(n) => Pattern::Name(n.clone()),
        }
    }
}

/// The source text of a float literal, kept as written.
#[derive(Debug)]
pub struct FloatLiteral(pub String);

#[derive(Debug)]
pub enum Expr {
    Bool(bool),
    Integer(i32),
    Float(FloatLiteral),
    String(String),
    List(Vec<Rc<Expr>>),
    BinOp { operator: String, left: Rc<Expr>, right: Rc<Expr> },
    If { condition: Rc<Expr>, then_branch: Rc<Expr>, else_branch: Rc<Expr> },
    Case { expr: Rc<Expr>, branches: Vec<(Pattern, Expr)> },
    Call { function: Rc<Expr>, args: Vec<Rc<Expr>> },
    VarName(QualifiedLowerName),
}

} // verus!
