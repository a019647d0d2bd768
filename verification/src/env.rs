//! Scopes and environments: where names and operators are looked up.
use std::rc::Rc;
use vstd::prelude::*;

use crate::ast::{
    join_with, share, Associativity, Exposing, ModuleName, QualifiedLowerName, Stmt, copy_names,
    same_exposing,
};
use crate::bindings::{Binding, BindingView};
use crate::builtins::{self, BuiltIn};
use crate::parser;
use crate::text::str_eq;

pub mod loader;

verus! {

broadcast use vstd::string::group_string_axioms;

/// A name as a mathematical value: its module segments and its access segments.
pub type NameView = (Seq<Seq<char>>, Seq<Seq<char>>);

// ---------------------------------------------------------------------------------------------
// Persistent vectors
// ---------------------------------------------------------------------------------------------
#[verifier::external_type_specification]
#[verifier::external_body]
#[verifier::reject_recursive_types(A)]
pub struct ExVector<A>(im::Vector<A>);

/// The scopes an `im::Vector` of scopes holds, front first.
pub uninterp spec fn scope_list(v: im::Vector<Rc<Scope>>) -> Seq<Rc<Scope>>;

/// `im::Vector::unit`: the vector holding just `s`.
#[verifier::external_body]
fn scope_list_unit(s: Rc<Scope>) -> (r: im::Vector<Rc<Scope>>)
    ensures
        scope_list(r) == seq![s],
{
    im::Vector::unit(s)
}

/// `im::Vector::push_front`: `s` is placed before the other scopes.
#[verifier::external_body]
fn scope_list_push_front(v: &mut im::Vector<Rc<Scope>>, s: Rc<Scope>)
    ensures
        scope_list(*final(v)) == seq![s] + scope_list(*old(v)),
{
    v.push_front(s)
}

/// `im::Vector::clone`: a vector holding the same scopes.
#[verifier::external_body]
fn scope_list_clone(v: &im::Vector<Rc<Scope>>) -> (r: im::Vector<Rc<Scope>>)
    ensures
        scope_list(r) == scope_list(*v),
{
    v.clone()
}

/// `im::Vector::len`: the number of scopes held.
#[verifier::external_body]
fn scope_list_len(v: &im::Vector<Rc<Scope>>) -> (r: usize)
    ensures
        r == scope_list(*v).len(),
{
    v.len()
}

/// `im::Vector` indexing: the scope at `i`.
#[verifier::external_body]
fn scope_list_get(v: &im::Vector<Rc<Scope>>, i: usize) -> (r: &Rc<Scope>)
    requires
        i < scope_list(*v).len(),
    ensures
        *r == scope_list(*v)[i as int],
{
    &v[i]
}

/// `im::Vector::skip`: the vector without its first `count` scopes.
#[verifier::external_body]
fn scope_list_skip(v: &im::Vector<Rc<Scope>>, count: usize) -> (r: im::Vector<Rc<Scope>>)
    requires
        count <= scope_list(*v).len(),
    ensures
        scope_list(r) == scope_list(*v).skip(count as int),
{
    v.skip(count)
}

/// The imports of a module, in an `im::Vector`.
#[verifier::external_body]
pub struct ImportList {
    items: im::Vector<ModuleImport>,
}

/// The imports an import list holds, in order.
pub uninterp spec fn import_list(v: ImportList) -> Seq<ModuleImport>;

impl ImportList {
    /// `im::Vector::from` a `Vec`: the same imports in the same order.
    #[verifier::external_body]
    pub(crate) fn from_vec(v: Vec<ModuleImport>) -> (r: ImportList)
        ensures
            import_list(r) == v@,
    {
        ImportList { items: im::Vector::from(v) }
    }

    /// `im::Vector::clone`: a list holding the same imports.
    #[verifier::external_body]
    pub(crate) fn copy(&self) -> (r: ImportList)
        ensures
            import_list(r) == import_list(*self),
    {
        ImportList { items: self.items.clone() }
    }

    /// `im::Vector::len`: the number of imports.
    #[verifier::external_body]
    pub(crate) fn len(&self) -> (r: usize)
        ensures
            r == import_list(*self).len(),
    {
        self.items.len()
    }

    /// `im::Vector` indexing: the import at `i`.
    #[verifier::external_body]
    pub(crate) fn get(&self, i: usize) -> (r: &ModuleImport)
        requires
            i < import_list(*self).len(),
        ensures
            *r == import_list(*self)[i as int],
    {
        &self.items[i]
    }
}

// ---------------------------------------------------------------------------------------------
// Bindings and operators
// ---------------------------------------------------------------------------------------------
/// The bindings of a scope: later entries for a name replace earlier ones.
#[derive(Debug)]
pub struct Bindings {
    pub entries: Vec<(QualifiedLowerName, Binding)>,
}

/// The map a list of entries denotes, a later entry replacing an earlier one for its key.
pub open spec fn entries_map<K, V>(entries: Seq<(K, V)>) -> Map<K, V>
    decreases entries.len(),
{
    if entries.len() == 0 {
        Map::empty()
    } else {
        entries_map(entries.drop_last()).insert(entries.last().0, entries.last().1)
    }
}

/// What `key` is mapped to, if anything.
pub open spec fn map_get<K, V>(m: Map<K, V>, key: K) -> Option<V> {
    if m.dom().contains(key) {
        Some(m[key])
    } else {
        None
    }
}

proof fn lemma_entries_map_push<K, V>(entries: Seq<(K, V)>, e: (K, V))
    ensures
        entries_map(entries.push(e)) == entries_map(entries).insert(e.0, e.1),
{
    assert(entries.push(e).drop_last() =~= entries);
}

/// The entries of a binding list, each as a mathematical value.
pub open spec fn binding_entries(s: Seq<(QualifiedLowerName, Binding)>) -> Seq<
    (NameView, BindingView),
> {
    s.map_values(|e: (QualifiedLowerName, Binding)| (e.0@, e.1@))
}

/// The entries of an operator list, each as a mathematical value.
pub open spec fn operator_entries(s: Seq<(String, Operator)>) -> Seq<(Seq<char>, OperatorView)> {
    s.map_values(|e: (String, Operator)| (e.0@, e.1@))
}

impl View for Bindings {
    type V = Map<NameView, BindingView>;

    open spec fn view(&self) -> Map<NameView, BindingView> {
        entries_map(binding_entries(self.entries@))
    }
}

impl Bindings {
    /// No bindings.
    pub fn new() -> (r: Bindings)
        ensures
            r@ == Map::<NameView, BindingView>::empty(),
    {
        let r = Bindings { entries: Vec::new() };
        assert(binding_entries(r.entries@) =~= Seq::<(NameView, BindingView)>::empty());
        r
    }

    /// Binds `key` to `value`, replacing what `key` was bound to.
    pub fn insert(&mut self, key: QualifiedLowerName, value: Binding)
        ensures
            final(self)@ == old(self)@.insert(key@, value@),
    {
        let ghost before = self.entries@;
        self.entries.push((key, value));
        proof {
            let e = (key@, value@);
            assert(binding_entries(self.entries@) =~= binding_entries(before).push(e));
            lemma_entries_map_push(binding_entries(before), e);
        }
    }

    /// A copy of what `key` is bound to.
    pub fn get(&self, key: &QualifiedLowerName) -> (r: Option<Binding>)
        ensures
            match r {
                Some(b) => map_get(self@, key@) == Some(b@),
                None => map_get(self@, key@) is None,
            },
    {
        let ghost entries = binding_entries(self.entries@);
        let mut i = self.entries.len();
        while i > 0
            invariant
                entries == binding_entries(self.entries@),
                i <= self.entries@.len(),
                forall|j: int|
                    i <= j < self.entries@.len() ==> (#[trigger] self.entries@[j]).0@ != key@,
            decreases i,
        {
            let entry_name = &self.entries[i - 1].0;
            if crate::ast::names_equal(&entry_name.modules, &key.modules) && crate::ast::names_equal(
                &entry_name.access,
                &key.access,
            ) {
                proof {
                    lemma_entries_map_last_match(entries, i - 1, key@);
                }
                return Some(self.entries[i - 1].1.copy());
            }
            i = i - 1;
        }
        proof {
            lemma_entries_map_no_match(entries, key@);
        }
        None
    }
}

/// The entry at `i` is the last one for `key`, so the map gives its value for `key`.
proof fn lemma_entries_map_last_match<K, V>(entries: Seq<(K, V)>, i: int, key: K)
    requires
        0 <= i < entries.len(),
        entries[i].0 == key,
        forall|j: int| i < j < entries.len() ==> (#[trigger] entries[j]).0 != key,
    ensures
        map_get(entries_map(entries), key) == Some(entries[i].1),
    decreases entries.len(),
{
    if i < entries.len() - 1 {
        let rest = entries.drop_last();
        assert forall|j: int| i < j < rest.len() implies (#[trigger] rest[j]).0 != key by {
            assert(rest[j] == entries[j]);
        }
        lemma_entries_map_last_match(rest, i, key);
        assert(entries.last().0 != key);
    }
}

/// No entry is for `key`, so the map gives nothing for it.
proof fn lemma_entries_map_no_match<K, V>(entries: Seq<(K, V)>, key: K)
    requires
        forall|j: int| 0 <= j < entries.len() ==> (#[trigger] entries[j]).0 != key,
    ensures
        map_get(entries_map(entries), key) is None,
    decreases entries.len(),
{
    if entries.len() > 0 {
        let rest = entries.drop_last();
        assert forall|j: int| 0 <= j < rest.len() implies (#[trigger] rest[j]).0 != key by {
            assert(rest[j] == entries[j]);
        }
        lemma_entries_map_no_match(rest, key);
    }
}

#[derive(Debug)]
pub struct Operator {
    pub operator_name: String,
    pub associativity: Associativity,
    pub precedence: usize,
    pub function_name: QualifiedLowerName,
    pub binding: Binding,
}

/// An operator as a mathematical value.
pub type OperatorView = (Seq<char>, Associativity, usize, NameView, BindingView);

impl View for Operator {
    type V = OperatorView;

    open spec fn view(&self) -> OperatorView {
        (
            self.operator_name@,
            self.associativity,
            self.precedence,
            self.function_name@,
            self.binding@,
        )
    }
}

impl Operator {
    /// A copy of this operator.
    pub fn copy(&self) -> (r: Operator)
        ensures
            r@ == self@,
    {
        Operator {
            operator_name: self.operator_name.clone(),
            associativity: self.associativity.copy(),
            precedence: self.precedence,
            function_name: self.function_name.copy(),
            binding: self.binding.copy(),
        }
    }
}

/// The operators of a scope: later entries for an operator replace earlier ones.
#[derive(Debug)]
pub struct Operators {
    pub entries: Vec<(String, Operator)>,
}

impl View for Operators {
    type V = Map<Seq<char>, OperatorView>;

    open spec fn view(&self) -> Map<Seq<char>, OperatorView> {
        entries_map(operator_entries(self.entries@))
    }
}

impl Operators {
    /// No operators.
    pub fn new() -> (r: Operators)
        ensures
            r@ == Map::<Seq<char>, OperatorView>::empty(),
    {
        let r = Operators { entries: Vec::new() };
        assert(operator_entries(r.entries@) =~= Seq::<(Seq<char>, OperatorView)>::empty());
        r
    }

    /// Defines the operator `key`, replacing an earlier definition.
    pub fn insert(&mut self, key: String, value: Operator)
        ensures
            final(self)@ == old(self)@.insert(key@, value@),
    {
        let ghost before = self.entries@;
        self.entries.push((key, value));
        proof {
            let e = (key@, value@);
            assert(operator_entries(self.entries@) =~= operator_entries(before).push(e));
            lemma_entries_map_push(operator_entries(before), e);
        }
    }

    /// A copy of the operator `key`.
    pub fn get(&self, key: &str) -> (r: Option<Operator>)
        ensures
            match r {
                Some(o) => map_get(self@, key@) == Some(o@),
                None => map_get(self@, key@) is None,
            },
    {
        let ghost entries = operator_entries(self.entries@);
        let mut i = self.entries.len();
        while i > 0
            invariant
                entries == operator_entries(self.entries@),
                i <= self.entries@.len(),
                forall|j: int|
                    i <= j < self.entries@.len() ==> (#[trigger] self.entries@[j]).0@ != key@,
            decreases i,
        {
            if str_eq(self.entries[i - 1].0.as_str(), key) {
                proof {
                    lemma_entries_map_last_match(entries, i - 1, key@);
                }
                return Some(self.entries[i - 1].1.copy());
            }
            i = i - 1;
        }
        proof {
            lemma_entries_map_no_match(entries, key@);
        }
        None
    }
}

// ---------------------------------------------------------------------------------------------
// Scopes
// ---------------------------------------------------------------------------------------------
#[derive(Clone)]
pub struct ModuleImport {
    pub module_scope: Rc<ModuleScope>,
    pub exposing: Option<Exposing>,
}

#[derive(Debug)]
pub enum Error {
    UnableToFindModule(String),
    FailedToRead(String),
    FailedToParse(String, parser::Error),
}

#[derive(Debug)]
pub struct Scope {
    pub bindings: Bindings,
    pub operators: Operators,
}

impl Scope {
    /// A scope with these bindings and no operators.
    pub fn from_bindings(bindings: Bindings) -> (r: Self)
        ensures
            r.bindings == bindings,
            r.operators@ == Map::<Seq<char>, OperatorView>::empty(),
    {
        Scope { bindings, operators: Operators::new() }
    }
}

pub struct ModuleScope {
    pub(crate) name: ModuleName,
    pub(crate) module_imports: ImportList,
    pub(crate) local_scope: Rc<Scope>,
    pub(crate) exposing: Exposing,
    pub(crate) height: Ghost<nat>,
}

impl ModuleScope {
    /// Every imported module sits lower than the module that imports it.
    #[verifier::type_invariant]
    spec fn imports_lower(self) -> bool {
        forall|i: int|
            0 <= i < import_list(self.module_imports).len() ==> (#[trigger] import_list(
                self.module_imports,
            )[i]).module_scope.height@ < self.height@
    }

    pub closed spec fn spec_name(&self) -> Seq<Seq<char>> {
        self.name.deep_view()
    }

    pub closed spec fn spec_imports(&self) -> Seq<ModuleImport> {
        import_list(self.module_imports)
    }

    pub closed spec fn spec_local_scope(&self) -> Rc<Scope> {
        self.local_scope
    }

    pub closed spec fn spec_exposing(&self) -> Exposing {
        self.exposing
    }

    pub closed spec fn spec_height(&self) -> nat {
        self.height@
    }

    /// The module's name.
    pub fn name(&self) -> (r: &ModuleName)
        ensures
            r.deep_view() == self.spec_name(),
    {
        &self.name
    }

    /// The module's imports.
    pub fn module_imports(&self) -> (r: &ImportList)
        ensures
            import_list(*r) == self.spec_imports(),
    {
        &self.module_imports
    }

    /// The scope of the module's own statements.
    pub fn local_scope(&self) -> (r: &Rc<Scope>)
        ensures
            *r == self.spec_local_scope(),
    {
        &self.local_scope
    }

    /// What the module exposes.
    pub fn exposing(&self) -> (r: &Exposing)
        ensures
            *r == self.spec_exposing(),
    {
        &self.exposing
    }

    /// The scope of a module: its statements' bindings and operators, over the given imports.
    ///
    /// Each binding statement binds its name to its expression, each function statement binds
    /// its name to the statement; a later statement for a name replaces an earlier one. Each
    /// infix statement whose function is bound defines its operator, with that binding.
    pub fn from_parts(
        name: &ModuleName,
        exposing: &Exposing,
        statements: &Vec<Rc<Stmt>>,
        imports: Vec<ModuleImport>,
    ) -> (r: ModuleScope)
        ensures
            r.spec_name() == name.deep_view(),
            same_exposing(r.spec_exposing(), *exposing),
            r.spec_imports() == imports@,
            forall|j: int|
                0 <= j < imports@.len() ==> (#[trigger] imports@[j]).module_scope.spec_height()
                    < r.spec_height(),
            r.spec_local_scope().bindings@ == statement_bindings(statements@),
            r.spec_local_scope().operators@ == statement_operators(
                statements@,
                statement_bindings(statements@),
            ),
    {
        let mut bindings = Bindings::new();
        let mut i: usize = 0;
        while i < statements.len()
            invariant
                i <= statements@.len(),
                bindings@ == statement_bindings(statements@.take(i as int)),
            decreases statements@.len() - i,
        {
            proof {
                assert(statements@.take(i + 1).drop_last() =~= statements@.take(i as int));
            }
            match &*statements[i] {
                Stmt::Binding { name, expr, .. } => {
                    bindings.insert(
                        QualifiedLowerName::simple(name.0.clone()),
                        Binding::UserBinding(share(expr)),
                    );
                },
                Stmt::Function { name, .. } => {
                    bindings.insert(
                        QualifiedLowerName::simple(name.0.clone()),
                        Binding::UserFunc(share(&statements[i])),
                    );
                },
                _ => {},
            }
            i = i + 1;
        }
        assert(statements@.take(statements@.len() as int) =~= statements@);

        let mut operators = Operators::new();
        let mut i: usize = 0;
        while i < statements.len()
            invariant
                i <= statements@.len(),
                bindings@ == statement_bindings(statements@),
                operators@ == statement_operators(statements@.take(i as int), bindings@),
            decreases statements@.len() - i,
        {
            proof {
                assert(statements@.take(i + 1).drop_last() =~= statements@.take(i as int));
            }
            match &*statements[i] {
                Stmt::Infix { operator_name, associativity, precedence, function_name } => {
                    match bindings.get(function_name) {
                        Some(binding) => {
                            operators.insert(
                                operator_name.clone(),
                                Operator {
                                    operator_name: operator_name.clone(),
                                    associativity: associativity.copy(),
                                    precedence: *precedence,
                                    function_name: function_name.copy(),
                                    // Store the binding for the operator's function along with the
                                    // operator for easy access with checking & evaluating
                                    binding,
                                },
                            );
                        },
                        None => {},
                    }
                },
                _ => {},
            }
            i = i + 1;
        }
        assert(statements@.take(statements@.len() as int) =~= statements@);

        let module_imports = ImportList::from_vec(imports);
        let ghost height = max_height(import_list(module_imports)) + 1;
        proof {
            lemma_max_height(import_list(module_imports));
        }
        ModuleScope {
            name: copy_names(name),
            module_imports,
            local_scope: Rc::new(Scope { bindings, operators }),
            exposing: exposing.copy(),
            height: Ghost(height),
        }
    }

    /// The binding of `target` in this module: a name without a module part is looked up in
    /// the module's own scope; a qualified name in the scope of the first import whose module
    /// has that name, without its module part.
    pub fn get_binding(&self, target_name: &QualifiedLowerName) -> (r: Option<Binding>)
        ensures
            option_binding_view(r) == module_scope_binding(*self, target_name@),
    {
        // If there is no module part of the lower name then we look in the main scope for the
        // target name
        if target_name.modules.len() == 0 {
            return self.local_scope.bindings.get(target_name);
        }
        // If there is a module part then we find the corresponding module and then look in the
        // main scope of that module for just the 'access' part of the lower name
        assert(target_name@.0.len() == target_name.modules@.len());
        let n = self.module_imports.len();
        let mut i: usize = 0;
        while i < n
            invariant
                target_name@.0.len() > 0,
                n == import_list(self.module_imports).len(),
                i <= n,
                forall|j: int|
                    0 <= j < i ==> !imports_module(target_name@.0)(
                        #[trigger] import_list(self.module_imports)[j],
                    ),
            decreases n - i,
        {
            let import = self.module_imports.get(i);
            if crate::ast::names_equal(import.module_scope.name(), &target_name.modules) {
                proof {
                    lemma_first_index(
                        import_list(self.module_imports),
                        imports_module(target_name@.0),
                        i as int,
                    );
                }
                let short = target_name.without_module();
                return import.module_scope.local_scope().bindings.get(&short);
            }
            i = i + 1;
        }
        proof {
            lemma_first_index(
                        import_list(self.module_imports),
                        imports_module(target_name@.0),
                        n as int,
                    );
        }
        // TODO: Filter by exposing
        None
    }

    /// The operator `target_name`: from the module's own scope, or else from its imports, the
    /// last import first.
    pub fn get_operator(&self, target_name: &str) -> (r: Option<Operator>)
        ensures
            option_operator_view(r) == module_scope_operator(*self, target_name@),
        decreases self.spec_height(),
    {
        // TODO: Filter by exposing
        if let Some(value) = self.local_scope.operators.get(target_name) {
            return Some(value);
        }
        proof {
            use_type_invariant(self);
        }
        // Backwards through list to check lowest imports first
        let mut i = self.module_imports.len();
        while i > 0
            invariant
                i <= import_list(self.module_imports).len(),
                module_scope_operator(*self, target_name@) == imports_operator(
                    import_list(self.module_imports),
                    i as int,
                    target_name@,
                    self.height@,
                ),
                forall|j: int|
                    0 <= j < import_list(self.module_imports).len() ==> (#[trigger] import_list(
                        self.module_imports,
                    )[j]).module_scope.height@ < self.height@,
            decreases i,
        {
            let import = self.module_imports.get(i - 1);
            if let Some(value) = import.module_scope.get_operator(target_name) {
                return Some(value);
            }
            i = i - 1;
        }
        None
    }
}

/// The highest module among the imports.
pub open spec fn max_height(imports: Seq<ModuleImport>) -> nat
    decreases imports.len(),
{
    if imports.len() == 0 {
        0
    } else {
        let h = imports.last().module_scope.spec_height();
        let m = max_height(imports.drop_last());
        if h > m {
            h
        } else {
            m
        }
    }
}

proof fn lemma_max_height(imports: Seq<ModuleImport>)
    ensures
        forall|i: int|
            0 <= i < imports.len() ==> (#[trigger] imports[i]).module_scope.spec_height()
                <= max_height(imports),
    decreases imports.len(),
{
    if imports.len() > 0 {
        lemma_max_height(imports.drop_last());
        assert forall|i: int| 0 <= i < imports.len() implies (#[trigger] imports[i]).module_scope.spec_height()
            <= max_height(imports) by {
            if i < imports.len() - 1 {
                assert(imports[i] == imports.drop_last()[i]);
            }
        }
    }
}

/// The bindings the statements make, a later statement replacing an earlier one.
pub open spec fn statement_bindings(statements: Seq<Rc<Stmt>>) -> Map<NameView, BindingView>
    decreases statements.len(),
{
    if statements.len() == 0 {
        Map::empty()
    } else {
        let before = statement_bindings(statements.drop_last());
        let s = statements.last();
        match *s {
            Stmt::Binding { name, expr, .. } => before.insert(
                (Seq::empty(), seq![name.0@]),
                BindingView::UserBinding(expr),
            ),
            Stmt::Function { name, .. } => before.insert(
                (Seq::empty(), seq![name.0@]),
                BindingView::UserFunc(s),
            ),
            _ => before,
        }
    }
}

/// The operators the infix statements define, each with the binding of its function in
/// `bindings`; an infix statement whose function is not bound defines nothing.
pub open spec fn statement_operators(
    statements: Seq<Rc<Stmt>>,
    bindings: Map<NameView, BindingView>,
) -> Map<Seq<char>, OperatorView>
    decreases statements.len(),
{
    if statements.len() == 0 {
        Map::empty()
    } else {
        let before = statement_operators(statements.drop_last(), bindings);
        match *statements.last() {
            Stmt::Infix { operator_name, associativity, precedence, function_name } => match map_get(
                bindings,
                function_name@,
            ) {
                Some(b) => before.insert(
                    operator_name@,
                    (operator_name@, associativity, precedence, function_name@, b),
                ),
                None => before,
            },
            _ => before,
        }
    }
}

pub open spec fn option_binding_view(b: Option<Binding>) -> Option<BindingView> {
    match b {
        Some(b) => Some(b@),
        None => None,
    }
}

pub open spec fn option_operator_view(o: Option<Operator>) -> Option<OperatorView> {
    match o {
        Some(o) => Some(o@),
        None => None,
    }
}

/// The index of the first entry of `s` that satisfies `p`.
pub open spec fn first_index<T>(s: Seq<T>, p: spec_fn(T) -> bool) -> Option<int>
    decreases s.len(),
{
    if s.len() == 0 {
        None
    } else {
        match first_index(s.drop_last(), p) {
            Some(k) => Some(k),
            None => if p(s.last()) {
                Some(s.len() - 1)
            } else {
                None
            },
        }
    }
}

/// No entry before `i` satisfies `p`, so the first one that does is `i` if `i` does, and there
/// is none if `i` is past the end.
pub proof fn lemma_first_index<T>(s: Seq<T>, p: spec_fn(T) -> bool, i: int)
    requires
        0 <= i <= s.len(),
        forall|j: int| 0 <= j < i ==> !p(#[trigger] s[j]),
        i < s.len() ==> p(s[i]),
    ensures
        first_index(s, p) == if i < s.len() {
            Some(i)
        } else {
            None::<int>
        },
    decreases s.len(),
{
    if s.len() > 0 {
        let rest = s.drop_last();
        if i < s.len() - 1 {
            assert forall|j: int| 0 <= j < i implies !p(#[trigger] rest[j]) by {
                assert(rest[j] == s[j]);
            }
            assert(rest[i] == s[i]);
            lemma_first_index(rest, p, i);
        } else {
            assert forall|j: int| 0 <= j < rest.len() implies !p(#[trigger] rest[j]) by {
                assert(rest[j] == s[j]);
            }
            lemma_first_index(rest, p, rest.len() as int);
        }
    }
}

/// Whether an import is of the module named `name`.
pub open spec fn imports_module(name: Seq<Seq<char>>) -> spec_fn(ModuleImport) -> bool {
    |m: ModuleImport| m.module_scope.spec_name() == name
}

/// The binding of `target` in module scope `m`, as `ModuleScope::get_binding` finds it.
pub open spec fn module_scope_binding(m: ModuleScope, target: NameView) -> Option<BindingView> {
    if target.0.len() == 0 {
        map_get(m.spec_local_scope().bindings@, target)
    } else {
        match first_index(m.spec_imports(), imports_module(target.0)) {
            Some(k) => map_get(
                m.spec_imports()[k].module_scope.spec_local_scope().bindings@,
                (Seq::empty(), target.1),
            ),
            None => None,
        }
    }
}

/// The operator `name` as found among `imports[..count]`, the last one first; modules that do
/// not sit below `height` are not searched.
pub open spec fn imports_operator(
    imports: Seq<ModuleImport>,
    count: int,
    name: Seq<char>,
    height: nat,
) -> Option<OperatorView>
    decreases height, count,
{
    if count <= 0 || count > imports.len() {
        None
    } else {
        let m = *imports[count - 1].module_scope;
        if m.spec_height() < height {
            match module_scope_operator(m, name) {
                Some(o) => Some(o),
                None => imports_operator(imports, count - 1, name, height),
            }
        } else {
            imports_operator(imports, count - 1, name, height)
        }
    }
}

/// The operator `name` in module scope `m`, as `ModuleScope::get_operator` finds it.
pub open spec fn module_scope_operator(m: ModuleScope, name: Seq<char>) -> Option<OperatorView>
    decreases m.spec_height(), m.spec_imports().len() + 1,
{
    match map_get(m.spec_local_scope().operators@, name) {
        Some(o) => Some(o),
        None => imports_operator(m.spec_imports(), m.spec_imports().len() as int, name, m.spec_height()),
    }
}


// ---------------------------------------------------------------------------------------------
// Imports
// ---------------------------------------------------------------------------------------------
/// The binding of `target` through an import: a name qualified by the imported module's name
/// is looked up there without its module part, an unqualified name as it stands; any other
/// qualified name is not found.
pub open spec fn import_binding(imp: ModuleImport, target: NameView) -> Option<BindingView> {
    if target.0 == imp.module_scope.spec_name() {
        module_scope_binding(*imp.module_scope, (Seq::empty(), target.1))
    } else if target.0.len() == 0 {
        module_scope_binding(*imp.module_scope, target)
    } else {
        None
    }
}

impl ModuleImport {
    /// The binding of `target_name` through this import.
    pub fn get_binding(&self, target_name: &QualifiedLowerName) -> (r: Option<Binding>)
        ensures
            option_binding_view(r) == import_binding(*self, target_name@),
    {
        if crate::ast::names_equal(&target_name.modules, self.module_scope.name()) {
            // TODO: Check that target name is in exposing
            self.module_scope.get_binding(&target_name.without_module())
        } else if target_name.modules.len() == 0 {
            // TODO: Check that target name is in exposing
            proof {
                assert(target_name@.0.len() == target_name.modules@.len());
            }
            self.module_scope.get_binding(target_name)
        } else {
            proof {
                assert(target_name@.0.len() == target_name.modules@.len());
            }
            None
        }
    }

    /// The operator `target_name` through this import.
    pub fn get_operator(&self, target_name: &str) -> (r: Option<Operator>)
        ensures
            option_operator_view(r) == module_scope_operator(*self.module_scope, target_name@),
    {
        self.module_scope.get_operator(target_name)
    }
}

// ---------------------------------------------------------------------------------------------
// Environments
// ---------------------------------------------------------------------------------------------
/// A scope as a mathematical value: its bindings and its operators.
pub type ScopeView = (Map<NameView, BindingView>, Map<Seq<char>, OperatorView>);

/// An environment as a mathematical value: its imports, and its local scopes innermost first.
pub type EnvView = (Seq<ModuleImport>, Seq<ScopeView>);

pub open spec fn scope_view(s: Rc<Scope>) -> ScopeView {
    (s.bindings@, s.operators@)
}

pub open spec fn scope_views(s: Seq<Rc<Scope>>) -> Seq<ScopeView> {
    s.map_values(|x: Rc<Scope>| scope_view(x))
}

/// Where names are looked up: the local scopes, innermost first, then the imports.
pub struct Environment {
    pub module_imports: ImportList,
    pub local_scopes: im::Vector<Rc<Scope>>,
}

impl View for Environment {
    type V = EnvView;

    open spec fn view(&self) -> EnvView {
        (import_list(self.module_imports), scope_views(scope_list(self.local_scopes)))
    }
}

/// The environment in which a module's top level is evaluated.
pub open spec fn module_env(m: ModuleScope) -> EnvView {
    (m.spec_imports(), seq![scope_view(m.spec_local_scope())])
}

/// Whether a scope binds `name`.
pub open spec fn scope_binds(name: NameView) -> spec_fn(ScopeView) -> bool {
    |s: ScopeView| s.0.dom().contains(name)
}

/// Whether `name` is found through an import.
pub open spec fn import_binds(name: NameView) -> spec_fn(ModuleImport) -> bool {
    |m: ModuleImport| import_binding(m, name) is Some
}

/// Whether a scope defines the operator `name`.
pub open spec fn scope_defines(name: Seq<char>) -> spec_fn(ScopeView) -> bool {
    |s: ScopeView| s.1.dom().contains(name)
}

/// Whether a module defines the operator `name`, itself or through its imports.
pub open spec fn import_defines(name: Seq<char>) -> spec_fn(ModuleImport) -> bool {
    |m: ModuleImport| module_scope_operator(*m.module_scope, name) is Some
}

/// The dotted rendering of a name.
pub open spec fn full_name(name: NameView) -> Seq<char> {
    join_with(name.0 + name.1, "."@)
}

/// What looking a name up finds.
pub enum LookupView {
    Kernel(NameView),
    Found(BindingView, EnvView),
    Unknown,
}

/// Looking `name` up: a kernel name stands for its kernel function; otherwise the innermost
/// local scope that binds it gives the binding, to be evaluated in the environment from that
/// scope outwards; otherwise the first import through which it is found gives it, to be
/// evaluated at the top level of the imported module.
pub open spec fn env_lookup(env: EnvView, name: NameView) -> LookupView {
    if kernel_function(full_name(name)) is Some {
        LookupView::Kernel(name)
    } else {
        match first_index(env.1, scope_binds(name)) {
            Some(i) => LookupView::Found(env.1[i].0[name], (env.0, env.1.skip(i))),
            None => match first_index(env.0, import_binds(name)) {
                Some(k) => LookupView::Found(
                    import_binding(env.0[k], name).unwrap(),
                    module_env(*env.0[k].module_scope),
                ),
                None => LookupView::Unknown,
            },
        }
    }
}

/// The operator `name` in an environment: from the innermost local scope that defines it, or
/// else from the first import that provides it.
pub open spec fn env_operator(env: EnvView, name: Seq<char>) -> Option<OperatorView> {
    match first_index(env.1, scope_defines(name)) {
        Some(i) => Some(env.1[i].1[name]),
        None => match first_index(env.0, import_defines(name)) {
            Some(k) => module_scope_operator(*env.0[k].module_scope, name),
            None => None,
        },
    }
}


/// A name that the innermost scope binds is found there, whatever the outer scopes and the
/// imports bind; kernel names aside, which always stand for their kernel functions.
pub proof fn law_innermost_scope_wins(env: EnvView, scope: ScopeView, name: NameView)
    requires
        scope.0.dom().contains(name),
        kernel_function(full_name(name)) is None,
    ensures
        env_lookup((env.0, seq![scope] + env.1), name) == LookupView::Found(
            scope.0[name],
            (env.0, seq![scope] + env.1),
        ),
{
    let scopes = seq![scope] + env.1;
    assert(scopes[0] == scope);
    lemma_first_index(scopes, scope_binds(name), 0);
    assert(scopes.skip(0) =~= scopes);
}

/// A name bound in a local scope, and in no scope inside it, is found there (kernel names
/// aside), and what it is bound to is to be evaluated in the environment made of that scope
/// and the scopes outside it, with the same imports: never with the scopes inside the one that
/// binds it.
pub proof fn law_found_in_its_scope(env: EnvView, name: NameView, i: int)
    requires
        0 <= i < env.1.len(),
        env.1[i].0.dom().contains(name),
        forall|j: int| 0 <= j < i ==> !(#[trigger] env.1[j]).0.dom().contains(name),
        kernel_function(full_name(name)) is None,
    ensures
        env_lookup(env, name) == LookupView::Found(env.1[i].0[name], (env.0, env.1.skip(i))),
        env.1.skip(i).len() == env.1.len() - i,
        forall|k: int| 0 <= k < env.1.len() - i ==> #[trigger] env.1.skip(i)[k] == env.1[i + k],
{
    lemma_first_index(env.1, scope_binds(name), i);
}

/// The operator that the innermost scope defines is the one found.
pub proof fn law_innermost_operator_wins(env: EnvView, scope: ScopeView, name: Seq<char>)
    requires
        scope.1.dom().contains(name),
    ensures
        env_operator((env.0, seq![scope] + env.1), name) == Some(scope.1[name]),
{
    let scopes = seq![scope] + env.1;
    assert(scopes[0] == scope);
    lemma_first_index(scopes, scope_defines(name), 0);
}

/// A kernel name stands for its kernel function, whatever the environment binds.
pub proof fn law_kernel_names_win(env: EnvView, name: NameView)
    requires
        kernel_function(full_name(name)) is Some,
    ensures
        env_lookup(env, name) == LookupView::Kernel(name),
{
}

pub open spec fn found_view(r: Result<FoundBinding, GetBindingError>) -> LookupView {
    match r {
        Ok(FoundBinding::BuiltInFunc(name)) => LookupView::Kernel(name@),
        Ok(FoundBinding::WithEnv(b, env)) => LookupView::Found(b@, env@),
        Err(GetBindingError::Unknown) => LookupView::Unknown,
    }
}

impl Environment {
    /// The environment of a module's top level: its imports and its own scope.
    pub fn from_module_scope(module_scope: ModuleScope) -> (r: Environment)
        ensures
            r@ == module_env(module_scope),
    {
        let r = Environment {
            module_imports: module_scope.module_imports.copy(),
            local_scopes: scope_list_unit(share(&module_scope.local_scope)),
        };
        assert(r@.1 =~= seq![scope_view(module_scope.spec_local_scope())]);
        r
    }

    /// Returns the binding for the target name and the environment in which that binding
    /// should be evaluated.
    pub fn get_binding(&self, target_name: &QualifiedLowerName) -> (r: Result<
        FoundBinding,
        GetBindingError,
    >)
        ensures
            found_view(r) == env_lookup(self@, target_name@),
    {
        let dotted = target_name.as_string();
        if kernel_function_named(dotted.as_str()).is_some() {
            return Ok(FoundBinding::BuiltInFunc(target_name.copy()));
        }
        // TODO: Only check local scope if there is not module section to the LowerName
        let n = scope_list_len(&self.local_scopes);
        let mut i: usize = 0;
        while i < n
            invariant
                kernel_function(full_name(target_name@)) is None,
                n == self@.1.len(),
                i <= n,
                forall|j: int| 0 <= j < i ==> !scope_binds(target_name@)(#[trigger] self@.1[j]),
            decreases n - i,
        {
            let scope = scope_list_get(&self.local_scopes, i);
            if let Some(value) = scope.bindings.get(target_name) {
                proof {
                    lemma_first_index(self@.1, scope_binds(target_name@), i as int);
                }
                let env = Environment {
                    module_imports: self.module_imports.copy(),
                    local_scopes: scope_list_skip(&self.local_scopes, i),
                };
                assert(env@.1 =~= self@.1.skip(i as int));
                return Ok(FoundBinding::WithEnv(value, env));
            }
            i = i + 1;
        }
        proof {
            lemma_first_index(self@.1, scope_binds(target_name@), n as int);
        }
        // TODO: Iterate in reverse through imports so later ones override earlier ones?
        let n = self.module_imports.len();
        let mut k: usize = 0;
        while k < n
            invariant
                kernel_function(full_name(target_name@)) is None,
                first_index(self@.1, scope_binds(target_name@)) is None,
                n == self@.0.len(),
                k <= n,
                forall|j: int| 0 <= j < k ==> !import_binds(target_name@)(#[trigger] self@.0[j]),
            decreases n - k,
        {
            let module_import = self.module_imports.get(k);
            if let Some(value) = module_import.get_binding(target_name) {
                proof {
                    lemma_first_index(self@.0, import_binds(target_name@), k as int);
                }
                let env = Environment {
                    module_imports: module_import.module_scope.module_imports.copy(),
                    local_scopes: scope_list_unit(share(&module_import.module_scope.local_scope)),
                };
                assert(env@.1 =~= seq![scope_view(module_import.module_scope.spec_local_scope())]);
                return Ok(FoundBinding::WithEnv(value, env));
            }
            k = k + 1;
        }
        proof {
            lemma_first_index(self@.0, import_binds(target_name@), n as int);
        }
        Err(GetBindingError::Unknown)
    }
}

/// What a binding lookup found: a kernel function, or a binding together with the environment
/// in which it is evaluated.
pub enum FoundBinding {
    BuiltInFunc(QualifiedLowerName),
    WithEnv(Binding, Environment),
}

#[derive(Debug, PartialEq, Eq, Structural)]
pub enum GetBindingError {
    Unknown,
}

/// The kernel function a full name stands for.
pub open spec fn kernel_function(name: Seq<char>) -> Option<BuiltIn> {
    if name == "Elm.Kernel.Basics.add"@ {
        Some(BuiltIn::Add(builtins::Add {  }))
    } else if name == "Elm.Kernel.Basics.sub"@ {
        Some(BuiltIn::Sub(builtins::Sub {  }))
    } else if name == "Elm.Kernel.Basics.mul"@ {
        Some(BuiltIn::Mul(builtins::Mul {  }))
    } else if name == "Elm.Kernel.Basics.gt"@ {
        Some(BuiltIn::Gt(builtins::Gt {  }))
    } else if name == "Elm.Kernel.Basics.lt"@ {
        Some(BuiltIn::Lt(builtins::Lt {  }))
    } else if name == "Elm.Kernel.Basics.append"@ {
        Some(BuiltIn::Append(builtins::Append {  }))
    } else if name == "Elm.Kernel.String.fromInt"@ {
        Some(BuiltIn::StringFromInt(builtins::StringFromInt {  }))
    } else if name == "Elm.Kernel.String.join"@ {
        Some(BuiltIn::StringJoin(builtins::StringJoin {  }))
    } else if name == "Elm.Kernel.List.sum"@ {
        Some(BuiltIn::ListSum(builtins::ListSum {  }))
    } else {
        None
    }
}

fn kernel_function_named(name: &str) -> (r: Option<BuiltIn>)
    ensures
        r == kernel_function(name@),
{
    // core/Basics
    if str_eq(name, "Elm.Kernel.Basics.add") {
        Some(BuiltIn::Add(builtins::Add {  }))
    } else if str_eq(name, "Elm.Kernel.Basics.sub") {
        Some(BuiltIn::Sub(builtins::Sub {  }))
    } else if str_eq(name, "Elm.Kernel.Basics.mul") {
        Some(BuiltIn::Mul(builtins::Mul {  }))
    } else if str_eq(name, "Elm.Kernel.Basics.gt") {
        Some(BuiltIn::Gt(builtins::Gt {  }))
    } else if str_eq(name, "Elm.Kernel.Basics.lt") {
        Some(BuiltIn::Lt(builtins::Lt {  }))
    } else if str_eq(name, "Elm.Kernel.Basics.append") {
        Some(BuiltIn::Append(builtins::Append {  }))
    // core/String
    } else if str_eq(name, "Elm.Kernel.String.fromInt") {
        Some(BuiltIn::StringFromInt(builtins::StringFromInt {  }))
    } else if str_eq(name, "Elm.Kernel.String.join") {
        Some(BuiltIn::StringJoin(builtins::StringJoin {  }))
    // core/List
    } else if str_eq(name, "Elm.Kernel.List.sum") {
        Some(BuiltIn::ListSum(builtins::ListSum {  }))
    } else {
        None
    }
}

/// The kernel function that a name stands for, if it names one.
pub fn get_built_in(target_name: &QualifiedLowerName) -> (r: Option<BuiltIn>)
    ensures
        r == kernel_function(full_name(target_name@)),
{
    let full_name = target_name.as_string();
    kernel_function_named(full_name.as_str())
}

/// The operator `target_name`: from the innermost local scope that defines it, or else from the
/// first import that provides it.
pub fn get_operator(environment: &Environment, target_name: &str) -> (r: Option<Operator>)
    ensures
        option_operator_view(r) == env_operator(environment@, target_name@),
{
    let n = scope_list_len(&environment.local_scopes);
    let mut i: usize = 0;
    while i < n
        invariant
            n == environment@.1.len(),
            i <= n,
            forall|j: int|
                0 <= j < i ==> !scope_defines(target_name@)(#[trigger] environment@.1[j]),
        decreases n - i,
    {
        let scope = scope_list_get(&environment.local_scopes, i);
        if let Some(value) = scope.operators.get(target_name) {
            proof {
                lemma_first_index(environment@.1, scope_defines(target_name@), i as int);
            }
            return Some(value);
        }
        i = i + 1;
    }
    proof {
        lemma_first_index(environment@.1, scope_defines(target_name@), n as int);
    }
    let n = environment.module_imports.len();
    let mut k: usize = 0;
    while k < n
        invariant
            first_index(environment@.1, scope_defines(target_name@)) is None,
            n == environment@.0.len(),
            k <= n,
            forall|j: int|
                0 <= j < k ==> !import_defines(target_name@)(#[trigger] environment@.0[j]),
        decreases n - k,
    {
        let module_import = environment.module_imports.get(k);
        if let Some(value) = module_import.get_operator(target_name) {
            proof {
                lemma_first_index(environment@.0, import_defines(target_name@), k as int);
            }
            return Some(value);
        }
        k = k + 1;
    }
    proof {
        lemma_first_index(environment@.0, import_defines(target_name@), n as int);
    }
    None
}

/// The environment with `new_scope` placed innermost.
pub fn add_local_scope(environment: &Environment, new_scope: Scope) -> (r: Environment)
    ensures
        r@ == (environment@.0, seq![(new_scope.bindings@, new_scope.operators@)] + environment@.1),
{
    let mut new_scopes = scope_list_clone(&environment.local_scopes);
    scope_list_push_front(&mut new_scopes, Rc::new(new_scope));
    let r = Environment { module_imports: environment.module_imports.copy(), local_scopes: new_scopes };
    assert(r@.1 =~= seq![(new_scope.bindings@, new_scope.operators@)] + environment@.1);
    r
}

/// The environment with the same imports and `new_scope` as its only local scope.
pub fn new_local_scope(environment: &Environment, new_scope: Scope) -> (r: Environment)
    ensures
        r@ == (environment@.0, seq![(new_scope.bindings@, new_scope.operators@)]),
{
    let r = Environment {
        module_imports: environment.module_imports.copy(),
        local_scopes: scope_list_unit(Rc::new(new_scope)),
    };
    assert(r@.1 =~= seq![(new_scope.bindings@, new_scope.operators@)]);
    r
}

} // verus!
