//! Loading a module's scope: its imports are found, read, parsed and loaded in turn, depth
//! first. Reading a file is left to the caller: the loader says which file it needs next and
//! carries on with what the caller found there.
use std::rc::Rc;
use vstd::prelude::*;

use super::{max_height, statement_bindings, statement_operators, Error, ModuleImport, ModuleScope};
use crate::ast::{is_prelude, join_with, same_exposing, same_import, with_default_imports, Exposing, Import, Module};
use crate::ast::views::{exposing_view, imports_view, stmts_view, ModuleView};
use crate::lexer::{SrcToken, TokenIter};
use crate::parser::grammar::perr;
use crate::parser::module_grammar::module_at;
use crate::program::lexes_to;
use crate::parser;
use crate::project::Settings;
use crate::text::{owned, push_str};
use crate::ast::{copy_names, join_strings};

verus! {

broadcast use vstd::string::group_string_axioms;

// ---------------------------------------------------------------------------------------------
// Where modules are looked for
// ---------------------------------------------------------------------------------------------
/// The file of a module, relative to a source directory: its name's segments joined with `/`,
/// then `.elm`.
pub open spec fn module_file(name: Seq<Seq<char>>) -> Seq<char> {
    join_with(name, "/"@) + ".elm"@
}

/// A relative path below a directory: the directory, a `/` unless the directory is empty or
/// already ends with one, then the path.
pub open spec fn path_in(dir: Seq<char>, file: Seq<char>) -> Seq<char> {
    if dir.len() == 0 {
        file
    } else if dir.last() == '/' {
        dir + file
    } else {
        dir + "/"@ + file
    }
}

/// Where a module is looked for, in order: below each source directory, and last among the
/// core modules; each path is marked with whether it is a core module.
pub open spec fn candidate_paths(name: Seq<Seq<char>>, dirs: Seq<Seq<char>>) -> Seq<(Seq<char>, bool)> {
    dir_candidates(name, dirs).push((path_in("core"@, module_file(name)), true))
}

/// The module's path below each source directory.
pub open spec fn dir_candidates(name: Seq<Seq<char>>, dirs: Seq<Seq<char>>) -> Seq<(Seq<char>, bool)> {
    dirs.map_values(|d: Seq<char>| (path_in(d, module_file(name)), false))
}

pub open spec fn candidates_view(v: Seq<(String, bool)>) -> Seq<(Seq<char>, bool)> {
    v.map_values(|c: (String, bool)| (c.0@, c.1))
}

fn joined_path(dir: &String, file: &String) -> (r: String)
    ensures
        r@ == path_in(dir@, file@),
{
    let chars = crate::text::chars_of(dir.as_str());
    if chars.len() == 0 {
        return file.clone();
    }
    let mut r = dir.clone();
    if chars[chars.len() - 1] != '/' {
        push_str(&mut r, "/");
    }
    push_str(&mut r, file.as_str());
    r
}

/// The paths at which an imported module is looked for.
pub fn import_candidates(module_name: &Vec<String>, settings: &Settings) -> (r: Vec<(String, bool)>)
    ensures
        candidates_view(r@) == candidate_paths(
            module_name.deep_view(),
            settings.source_directories.deep_view(),
        ),
{
    let mut file = join_strings(module_name, "/");
    push_str(&mut file, ".elm");
    let dirs = &settings.source_directories;
    let mut r: Vec<(String, bool)> = Vec::new();
    let mut i: usize = 0;
    while i < dirs.len()
        invariant
            i <= dirs@.len(),
            file@ == module_file(module_name.deep_view()),
            candidates_view(r@) == dir_candidates(module_name.deep_view(), dirs.deep_view().take(i as int)),
        decreases dirs@.len() - i,
    {
        let path = joined_path(&dirs[i], &file);
        let ghost before = r@;
        r.push((path, false));
        proof {
            let name = module_name.deep_view();
            assert(candidates_view(r@) =~= candidates_view(before).push((path@, false)));
            assert(dir_candidates(name, dirs.deep_view().take(i + 1)) =~= dir_candidates(
                name,
                dirs.deep_view().take(i as int),
            ).push((path_in(dirs@[i as int]@, module_file(name)), false)));
        }
        i = i + 1;
    }
    let core = owned("core");
    let core_path = joined_path(&core, &file);
    let ghost before = r@;
    r.push((core_path, true));
    proof {
        assert(candidates_view(r@) =~= candidates_view(before).push((core_path@, true)));
        assert(dirs.deep_view().take(dirs@.len() as int) =~= dirs.deep_view());
        assert(candidates_view(r@) =~= candidate_paths(
            module_name.deep_view(),
            settings.source_directories.deep_view(),
        ));
    }
    r
}


// ---------------------------------------------------------------------------------------------
// The loader
// ---------------------------------------------------------------------------------------------
/// Two optional exposing lists are the same.
pub open spec fn same_option_exposing(a: Option<Exposing>, b: Option<Exposing>) -> bool {
    match (a, b) {
        (Some(x), Some(y)) => same_exposing(x, y),
        (None, None) => true,
        _ => false,
    }
}

fn copy_option_exposing(e: &Option<Exposing>) -> (r: Option<Exposing>)
    ensures
        same_option_exposing(r, *e),
{
    match e {
        Some(x) => Some(x.copy()),
        None => None,
    }
}

/// The scope loaded for a module: its name, exposing list and statements, over one import
/// for each of its imports, exposing what that import exposes.
pub open spec fn scope_of(s: ModuleScope, m: Module) -> bool {
    &&& s.spec_name() == m.name.deep_view()
    &&& same_exposing(s.spec_exposing(), m.exposing)
    &&& s.spec_imports().len() == m.imports@.len()
    &&& forall|j: int|
        0 <= j < m.imports@.len() ==> same_option_exposing(
            #[trigger] s.spec_imports()[j].exposing,
            m.imports@[j].exposing,
        )
    &&& s.spec_local_scope().bindings@ == statement_bindings(m.statements@)
    &&& s.spec_local_scope().operators@ == statement_operators(
        m.statements@,
        statement_bindings(m.statements@),
    )
}

/// `m` is the module read as `mv`: with the prelude imports before its own, unless it is a
/// core module.
pub open spec fn loaded_module(m: Module, mv: ModuleView, core: bool) -> bool {
    &&& m.name.deep_view() == mv.0
    &&& exposing_view(m.exposing) == mv.1
    &&& stmts_view(m.statements@) == mv.3
    &&& if core {
        imports_view(m.imports@) == mv.2
    } else {
        is_prelude(m.imports@.take(4)) && imports_view(m.imports@).skip(4) == mv.2
    }
}

/// What came of reading a file, as a mathematical value.
pub enum ReadView {
    Missing,
    Unreadable,
    Source(Seq<char>),
}

pub open spec fn read_view(o: ReadOutcome) -> ReadView {
    match o {
        ReadOutcome::Missing => ReadView::Missing,
        ReadOutcome::Unreadable => ReadView::Unreadable,
        ReadOutcome::Source(s) => ReadView::Source(s@),
    }
}

/// The files the caller reported, in order: each path with what came of reading it.
pub type Reads = Seq<(Seq<char>, ReadView)>;

/// `m` is the module the grammar reads from `source`: with the prelude imports before its
/// own, unless it is a core module.
pub open spec fn parsed_from(source: Seq<char>, m: Module, core: bool) -> bool {
    exists|ts: Seq<SrcToken>|
        #[trigger] lexes_to(source, ts) && (module_at(ts, 0).0 matches Ok(mv) && loaded_module(
            m,
            mv,
            core,
        ))
}

/// The file of `import` was found at its `k`th candidate path: that path was reported with the
/// text `source`, and every candidate before it was reported missing.
pub open spec fn found_at(
    import: Import,
    dirs: Seq<Seq<char>>,
    reads: Reads,
    k: int,
    source: Seq<char>,
) -> bool {
    let c = candidate_paths(import.module_name.deep_view(), dirs);
    &&& 0 <= k < c.len()
    &&& forall|i: int| 0 <= i < k ==> reads.contains((#[trigger] c[i].0, ReadView::Missing))
    &&& reads.contains((c[k].0, ReadView::Source(source)))
}

/// `s` is the scope loaded for `m`: its own parts are those of `m`, and each of its imports
/// was loaded in the same way from the module read from the file found for it.
pub open spec fn loaded_scope(s: ModuleScope, m: Module, dirs: Seq<Seq<char>>, reads: Reads) -> bool
    decreases s.spec_height(), 1int,
{
    &&& scope_of(s, m)
    &&& forall|j: int|
        0 <= j < m.imports@.len() ==> if (#[trigger] s.spec_imports()[j]).module_scope.spec_height()
            < s.spec_height() {
            import_loaded(s.spec_imports()[j], m.imports@[j], dirs, reads)
        } else {
            false
        }
}

/// The import `mi` was loaded for `import`: from the module read from the file found for it,
/// whose scope was loaded in the same way.
pub open spec fn import_loaded(mi: ModuleImport, import: Import, dirs: Seq<Seq<char>>, reads: Reads) -> bool
    decreases mi.module_scope.spec_height(), 2int,
{
    exists|k: int, source: Seq<char>, cm: Module|
        #![trigger found_at(import, dirs, reads, k, source), parsed_from(source, cm, candidate_paths(import.module_name.deep_view(), dirs)[k].1)]
        found_at(import, dirs, reads, k, source) && parsed_from(
            source,
            cm,
            candidate_paths(import.module_name.deep_view(), dirs)[k].1,
        ) && loaded_scope(*mi.module_scope, cm, dirs, reads)
}

/// The scope an import holds.
pub open spec fn scope_of_import(mi: ModuleImport) -> ModuleScope {
    *mi.module_scope
}

proof fn lemma_contains_push(a: Reads, e: (Seq<char>, ReadView), x: (Seq<char>, ReadView))
    requires
        a.contains(x),
    ensures
        a.push(e).contains(x),
{
    let i = choose|i: int| 0 <= i < a.len() && a[i] == x;
    assert(a.push(e)[i] == x);
}

proof fn lemma_found_at_push(
    import: Import,
    dirs: Seq<Seq<char>>,
    reads: Reads,
    k: int,
    source: Seq<char>,
    e: (Seq<char>, ReadView),
)
    requires
        found_at(import, dirs, reads, k, source),
    ensures
        found_at(import, dirs, reads.push(e), k, source),
{
    let c = candidate_paths(import.module_name.deep_view(), dirs);
    assert forall|i: int| 0 <= i < k implies reads.push(e).contains(
        (#[trigger] c[i].0, ReadView::Missing),
    ) by {
        lemma_contains_push(reads, e, (c[i].0, ReadView::Missing));
    }
    lemma_contains_push(reads, e, (c[k].0, ReadView::Source(source)));
}

/// What was loaded stays loaded when more reads are reported.
proof fn lemma_loaded_scope_push(s: ModuleScope, m: Module, dirs: Seq<Seq<char>>, reads: Reads, e: (Seq<char>, ReadView))
    requires
        loaded_scope(s, m, dirs, reads),
    ensures
        loaded_scope(s, m, dirs, reads.push(e)),
    decreases s.spec_height(), 1int,
{
    assert forall|j: int| 0 <= j < m.imports@.len() implies if (#[trigger] s.spec_imports()[j]).module_scope.spec_height()
        < s.spec_height() {
        import_loaded(s.spec_imports()[j], m.imports@[j], dirs, reads.push(e))
    } else {
        false
    } by {
        assert(s.spec_imports()[j].module_scope.spec_height() < s.spec_height());
        lemma_import_loaded_push(s.spec_imports()[j], m.imports@[j], dirs, reads, e);
    }
}

proof fn lemma_import_loaded_push(mi: ModuleImport, import: Import, dirs: Seq<Seq<char>>, reads: Reads, e: (Seq<char>, ReadView))
    requires
        import_loaded(mi, import, dirs, reads),
    ensures
        import_loaded(mi, import, dirs, reads.push(e)),
    decreases mi.module_scope.spec_height(), 2int,
{
    let c = candidate_paths(import.module_name.deep_view(), dirs);
    let (k, source, cm) = choose|k: int, source: Seq<char>, cm: Module|
        found_at(import, dirs, reads, k, source) && parsed_from(source, cm, c[k].1) && loaded_scope(
            *mi.module_scope,
            cm,
            dirs,
            reads,
        );
    lemma_found_at_push(import, dirs, reads, k, source, e);
    lemma_loaded_scope_push(scope_of_import(mi), cm, dirs, reads, e);
}

/// A module whose imports are being loaded.
struct Frame {
    module: Module,
    /// The imports loaded so far, in order.
    loaded: Vec<ModuleImport>,
    /// Where the first import not loaded yet is looked for.
    candidates: Vec<(String, bool)>,
    /// The next of those paths to try.
    next_candidate: usize,
    /// The text the module was read from.
    source: Ghost<Seq<char>>,
}

spec fn frame_ok(f: Frame, dirs: Seq<Seq<char>>, reads: Reads) -> bool {
    &&& f.loaded@.len() <= f.module.imports@.len()
    &&& forall|j: int|
        0 <= j < f.loaded@.len() ==> import_loaded(
            #[trigger] f.loaded@[j],
            f.module.imports@[j],
            dirs,
            reads,
        )
    &&& f.loaded@.len() < f.module.imports@.len() ==> forall|i: int|
        0 <= i < f.next_candidate ==> reads.contains(
            (
                #[trigger] candidate_paths(
                    f.module.imports@[f.loaded@.len() as int].module_name.deep_view(),
                    dirs,
                )[i].0,
                ReadView::Missing,
            ),
        )
    &&& forall|j: int|
        0 <= j < f.loaded@.len() ==> same_option_exposing(
            #[trigger] f.loaded@[j].exposing,
            f.module.imports@[j].exposing,
        )
    &&& f.loaded@.len() < f.module.imports@.len() ==> {
        &&& candidates_view(f.candidates@) == candidate_paths(
            f.module.imports@[f.loaded@.len() as int].module_name.deep_view(),
            dirs,
        )
        &&& f.next_candidate <= f.candidates@.len()
    }
}

/// `child` was read for the import that `parent` is looking for: from the file found at the
/// candidate path being tried.
spec fn chain_ok(parent: Frame, child: Frame, dirs: Seq<Seq<char>>, reads: Reads) -> bool {
    let import = parent.module.imports@[parent.loaded@.len() as int];
    &&& found_at(import, dirs, reads, parent.next_candidate as int, child.source@)
    &&& parsed_from(
        child.source@,
        child.module,
        candidate_paths(import.module_name.deep_view(), dirs)[parent.next_candidate as int].1,
    )
}

proof fn lemma_frame_ok_push(f: Frame, dirs: Seq<Seq<char>>, reads: Reads, e: (Seq<char>, ReadView))
    requires
        frame_ok(f, dirs, reads),
    ensures
        frame_ok(f, dirs, reads.push(e)),
{
    assert forall|j: int| 0 <= j < f.loaded@.len() implies import_loaded(
        #[trigger] f.loaded@[j],
        f.module.imports@[j],
        dirs,
        reads.push(e),
    ) by {
        lemma_import_loaded_push(f.loaded@[j], f.module.imports@[j], dirs, reads, e);
    }
    if f.loaded@.len() < f.module.imports@.len() {
        let c = candidate_paths(f.module.imports@[f.loaded@.len() as int].module_name.deep_view(), dirs);
        assert forall|i: int| 0 <= i < f.next_candidate implies reads.push(e).contains(
            (#[trigger] c[i].0, ReadView::Missing),
        ) by {
            lemma_contains_push(reads, e, (c[i].0, ReadView::Missing));
        }
    }
}

proof fn lemma_chain_ok_push(parent: Frame, child: Frame, dirs: Seq<Seq<char>>, reads: Reads, e: (Seq<char>, ReadView))
    requires
        chain_ok(parent, child, dirs, reads),
    ensures
        chain_ok(parent, child, dirs, reads.push(e)),
{
    let import = parent.module.imports@[parent.loaded@.len() as int];
    lemma_found_at_push(import, dirs, reads, parent.next_candidate as int, child.source@, e);
}

/// What the loader asks for next, or what it ended with.
pub enum LoadStep {
    /// Read the file at this path, and resume with what came of it.
    Read(String),
    Finished(Result<ModuleScope, Error>),
}

/// What came of reading a file.
pub enum ReadOutcome {
    /// There is no such file.
    Missing,
    /// The file is there but could not be read.
    Unreadable,
    /// The file's text.
    Source(String),
}

/// Loads the scope of a module: each of its imports is looked for at its candidate paths in
/// turn, and the first file found is parsed (given the default imports unless it is a core
/// module) and loaded in the same way, before the next import.
pub struct ModuleLoader {
    frames: Vec<Frame>,
    source_directories: Vec<String>,
    root: Ghost<Module>,
    reads: Ghost<Reads>,
}

impl ModuleLoader {
    /// The frames are consistent: each is a module with its imports loaded so far, every
    /// frame below the top waits for the import being loaded above it, and the bottom one is
    /// the module whose scope is being loaded.
    pub closed spec fn wf(&self) -> bool {
        &&& forall|i: int|
            0 <= i < self.frames@.len() ==> frame_ok(
                #[trigger] self.frames@[i],
                self.source_directories.deep_view(),
                self.reads@,
            )
        &&& forall|i: int|
            0 <= i < self.frames@.len() - 1 ==> (#[trigger] self.frames@[i]).loaded@.len()
                < self.frames@[i].module.imports@.len()
        &&& forall|i: int|
            0 < i < self.frames@.len() ==> chain_ok(
                self.frames@[i - 1],
                #[trigger] self.frames@[i],
                self.source_directories.deep_view(),
                self.reads@,
            )
        &&& self.frames@.len() > 0 ==> self.frames@[0].module == self.root@
    }

    /// The files reported so far, in order, with what came of reading each.
    pub closed spec fn reads(&self) -> Reads {
        self.reads@
    }

    /// The loader waits for a file.
    pub closed spec fn pending(&self) -> bool {
        &&& self.wf()
        &&& self.frames@.len() > 0
        &&& self.frames@.last().loaded@.len() < self.frames@.last().module.imports@.len()
        &&& self.frames@.last().next_candidate < self.frames@.last().candidates@.len()
    }

    /// The module whose scope is being loaded.
    pub closed spec fn root_module(&self) -> Module {
        self.root@
    }

    /// The directories that imports are looked for in.
    pub closed spec fn directories(&self) -> Seq<Seq<char>> {
        self.source_directories.deep_view()
    }

    /// How many modules are being loaded, one inside the other.
    pub closed spec fn depth(&self) -> nat {
        self.frames@.len()
    }

    /// The import being looked for.
    pub closed spec fn current_import(&self) -> Import {
        self.frames@.last().module.imports@[self.frames@.last().loaded@.len() as int]
    }

    /// The module whose import is being looked for.
    pub closed spec fn current_module(&self) -> Module {
        self.frames@.last().module
    }

    /// Which of its candidate paths is being tried.
    pub closed spec fn candidate_index(&self) -> int {
        self.frames@.last().next_candidate as int
    }

    /// The path of the file asked for, and whether it is a core module.
    pub open spec fn requested(&self) -> (Seq<char>, bool) {
        candidate_paths(self.current_import().module_name.deep_view(), self.directories())[self.candidate_index()]
    }

    /// What a step promises: a request is for the next candidate path of the import being
    /// looked for; a loaded scope is that of the module the loader was started with.
    pub open spec fn step_ok(&self, step: LoadStep, root: Module) -> bool {
        &&& self.root_module() == root
        &&& step matches LoadStep::Read(p) ==> {
            &&& self.pending()
            &&& 0 <= self.candidate_index() < candidate_paths(
                self.current_import().module_name.deep_view(),
                self.directories(),
            ).len()
            &&& p@ == self.requested().0
        }
        &&& step matches LoadStep::Finished(Ok(s)) ==> scope_of(s, root) && loaded_scope(
            s,
            root,
            self.directories(),
            self.reads(),
        )
        &&& step matches LoadStep::Finished(_) ==> !self.pending()
    }

    proof fn lemma_pending_requested(&self)
        requires
            self.pending(),
        ensures
            0 <= self.candidate_index() < candidate_paths(
                self.current_import().module_name.deep_view(),
                self.directories(),
            ).len(),
            self.requested() == candidates_view(self.frames@.last().candidates@)[self.candidate_index()],
    {
        assert(frame_ok(
            self.frames@[self.frames@.len() - 1],
            self.source_directories.deep_view(),
            self.reads@,
        ));
    }

    /// Starts loading the scope of `module`, with imports looked for below the settings'
    /// source directories.
    pub fn start(module: Module, settings: &Settings) -> (r: (ModuleLoader, LoadStep))
        ensures
            r.0.step_ok(r.1, module),
            r.0.directories() == settings.source_directories.deep_view(),
            r.1 is Read ==> r.0.depth() == 1 && r.0.candidate_index() == 0 && r.0.current_import()
                == module.imports@[0] && r.0.current_module() == module,
            module.imports@.len() > 0 ==> r.1 is Read,
            module.imports@.len() == 0 ==> r.1 matches LoadStep::Finished(Ok(_)),
            r.0.reads() == Seq::<(Seq<char>, ReadView)>::empty(),
    {
        let ghost root = module;
        let mut dirs: Vec<String> = copy_names(&settings.source_directories);
        let candidates = if module.imports.len() > 0 {
            import_candidates(&module.imports[0].module_name, settings)
        } else {
            Vec::new()
        };
        let frame = Frame {
            module,
            loaded: Vec::new(),
            candidates,
            next_candidate: 0,
            source: Ghost(Seq::empty()),
        };
        let mut frames: Vec<Frame> = Vec::new();
        frames.push(frame);
        let mut loader = ModuleLoader {
            frames,
            source_directories: dirs,
            root: Ghost(root),
            reads: Ghost(Seq::empty()),
        };
        proof {
            assert(loader.frames@[0] == frame);
        }
        let step = loader.advance();
        (loader, step)
    }

    /// Carries on after the file that was asked for was read.
    pub fn resume(&mut self, outcome: ReadOutcome) -> (step: LoadStep)
        requires
            old(self).pending(),
            outcome matches ReadOutcome::Source(s) ==> s@.len() <= usize::MAX / 4,
        ensures
            final(self).step_ok(step, old(self).root_module()),
            final(self).directories() == old(self).directories(),
            outcome is Missing ==> if old(self).candidate_index() + 1 < candidate_paths(
                old(self).current_import().module_name.deep_view(),
                old(self).directories(),
            ).len() {
                &&& step is Read
                &&& final(self).depth() == old(self).depth()
                &&& final(self).current_import() == old(self).current_import()
                &&& final(self).candidate_index() == old(self).candidate_index() + 1
            } else {
                (step matches LoadStep::Finished(Err(Error::UnableToFindModule(n))) && n@ == join_with(
                    old(self).current_import().module_name.deep_view(),
                    "."@,
                ))
            },
            outcome is Unreadable ==> (step matches LoadStep::Finished(Err(Error::FailedToRead(p)))
                && p@ == old(self).requested().0),
            step matches LoadStep::Finished(Err(Error::FailedToParse(p, _))) ==> (outcome is Source
                && p@ == old(self).requested().0),
            final(self).reads() == old(self).reads().push((old(self).requested().0, read_view(outcome))),
            outcome matches ReadOutcome::Source(s) ==> exists|ts: Seq<SrcToken>|
                #[trigger] lexes_to(s@, ts) && match module_at(ts, 0).0 {
                    Err(e) => step matches LoadStep::Finished(Err(Error::FailedToParse(_, pe)))
                        && perr(pe) == e,
                    Ok(mv) => {
                        &&& !(step matches LoadStep::Finished(Err(_)))
                        &&& (!old(self).requested().1 || mv.2.len() > 0) ==> {
                            &&& step is Read
                            &&& final(self).depth() == old(self).depth() + 1
                            &&& final(self).candidate_index() == 0
                            &&& loaded_module(final(self).current_module(), mv, old(self).requested().1)
                        }
                    },
                },
    {
        proof {
            self.lemma_pending_requested();
        }
        let ghost dirs = self.source_directories.deep_view();
        let ghost entry = (old(self).requested().0, read_view(outcome));
        let ghost new_reads = old(self).reads@.push(entry);
        proof {
            let fs = self.frames@;
            assert forall|i: int| 0 <= i < fs.len() implies frame_ok(
                #[trigger] fs[i],
                dirs,
                new_reads,
            ) by {
                lemma_frame_ok_push(fs[i], dirs, old(self).reads@, entry);
            }
            assert forall|i: int| 0 < i < fs.len() implies chain_ok(
                fs[i - 1],
                #[trigger] fs[i],
                dirs,
                new_reads,
            ) by {
                lemma_chain_ok_push(fs[i - 1], fs[i], dirs, old(self).reads@, entry);
            }
            assert(new_reads[new_reads.len() - 1] == entry);
        }
        self.reads = Ghost(new_reads);
        let mut top = self.frames.pop().unwrap();
        let ghost old_top = top;
        let ghost rest = self.frames@;
        proof {
            assert(old_top == old(self).frames@[old(self).frames@.len() - 1]);
            assert(frame_ok(old_top, dirs, new_reads));
            assert(old(self).frames@.last() == old(self).frames@[old(self).frames@.len() - 1]);
            assert(top.next_candidate < top.candidates@.len());
            assert(old(self).requested().0 == candidate_paths(
                old_top.module.imports@[old_top.loaded@.len() as int].module_name.deep_view(),
                dirs,
            )[old_top.next_candidate as int].0);
        }
        let (path, is_core) = {
            let c = &top.candidates[top.next_candidate];
            (c.0.clone(), c.1)
        };
        match outcome {
            ReadOutcome::Missing => {
                let count = top.candidates.len();
                top.next_candidate = top.next_candidate + 1;
                if top.next_candidate < count {
                    let next = top.candidates[top.next_candidate].0.clone();
                    let ghost before = self.frames@;
                    self.frames.push(top);
                    proof {
                        assert(self.frames@ == before.push(top));
                        let c = candidate_paths(
                            top.module.imports@[top.loaded@.len() as int].module_name.deep_view(),
                            dirs,
                        );
                        assert forall|i: int| 0 <= i < top.next_candidate implies new_reads.contains(
                            (#[trigger] c[i].0, ReadView::Missing),
                        ) by {
                            if i == old_top.next_candidate {
                                assert(new_reads[new_reads.len() - 1] == (c[i].0, ReadView::Missing));
                            }
                        }
                        assert(frame_ok(top, dirs, new_reads));
                        assert forall|i: int| 0 <= i < self.frames@.len() implies frame_ok(
                            #[trigger] self.frames@[i],
                            self.source_directories.deep_view(),
                            self.reads@,
                        ) by {
                            if i < before.len() {
                                assert(self.frames@[i] == old(self).frames@[i]);
                            }
                        }
                        assert forall|i: int| 0 <= i < self.frames@.len() - 1 implies (
                        #[trigger] self.frames@[i]).loaded@.len()
                            < self.frames@[i].module.imports@.len() by {
                            assert(self.frames@[i] == old(self).frames@[i]);
                        }
                        assert forall|i: int| 0 < i < self.frames@.len() implies chain_ok(
                            self.frames@[i - 1],
                            #[trigger] self.frames@[i],
                            self.source_directories.deep_view(),
                            self.reads@,
                        ) by {
                            assert(self.frames@[i - 1] == old(self).frames@[i - 1]);
                            assert(chain_ok(old(self).frames@[i - 1], old(self).frames@[i], dirs, new_reads));
                            if i < before.len() {
                                assert(self.frames@[i] == old(self).frames@[i]);
                            }
                        }
                        if self.frames@.len() > 1 {
                            assert(self.frames@[0] == old(self).frames@[0]);
                        }
                        self.lemma_pending_requested();
                    }
                    LoadStep::Read(next)
                } else {
                    let name = join_strings(&top.module.imports[top.loaded.len()].module_name, ".");
                    self.frames = Vec::new();
                    LoadStep::Finished(Err(Error::UnableToFindModule(name)))
                }
            },
            ReadOutcome::Unreadable => {
                self.frames = Vec::new();
                LoadStep::Finished(Err(Error::FailedToRead(path)))
            },
            ReadOutcome::Source(source) => {
                let mut iter = TokenIter::from_source(source.as_str());
                let ghost ts = iter.tokens@;
                proof {
                    assert(lexes_to(source@, ts));
                }
                match parser::parse(&mut iter) {
                    Err(e) => {
                        self.frames = Vec::new();
                        LoadStep::Finished(Err(Error::FailedToParse(path, e)))
                    },
                    Ok(parsed) => {
                        // A module from `core/` gets no prelude; see the README
                        let module = if is_core {
                            parsed
                        } else {
                            let m = with_default_imports(&parsed);
                            proof {
                                assert forall|i: int| 0 <= i < parsed.imports@.len() implies #[trigger] imports_view(
                                    m.imports@,
                                ).skip(4)[i] == imports_view(parsed.imports@)[i] by {
                                    assert(same_import(m.imports@[i + 4], parsed.imports@[i]));
                                }
                                assert(imports_view(m.imports@).skip(4) =~= imports_view(parsed.imports@));
                            }
                            m
                        };
                        proof {
                            assert(parsed_from(source@, module, is_core));
                        }
                        let ghost before = self.frames@;
                        self.frames.push(top);
                        let candidates = if module.imports.len() > 0 {
                            import_candidates_in(&module.imports[0].module_name, &self.source_directories)
                        } else {
                            Vec::new()
                        };
                        let child = Frame {
                            module,
                            loaded: Vec::new(),
                            candidates,
                            next_candidate: 0,
                            source: Ghost(source@),
                        };
                        self.frames.push(child);
                        proof {
                            let c = candidate_paths(
                                top.module.imports@[top.loaded@.len() as int].module_name.deep_view(),
                                dirs,
                            );
                            assert(new_reads[new_reads.len() - 1] == (
                                c[top.next_candidate as int].0,
                                ReadView::Source(source@),
                            ));
                            assert(found_at(
                                top.module.imports@[top.loaded@.len() as int],
                                dirs,
                                new_reads,
                                top.next_candidate as int,
                                source@,
                            ));
                            assert(chain_ok(top, child, dirs, new_reads));
                            assert forall|i: int| 0 <= i < self.frames@.len() implies frame_ok(
                                #[trigger] self.frames@[i],
                                self.source_directories.deep_view(),
                                self.reads@,
                            ) by {
                                if i < before.len() {
                                    assert(self.frames@[i] == old(self).frames@[i]);
                                } else if i == before.len() {
                                    assert(self.frames@[i] == top);
                                }
                            }
                            assert forall|i: int| 0 <= i < self.frames@.len() - 1 implies (
                            #[trigger] self.frames@[i]).loaded@.len()
                                < self.frames@[i].module.imports@.len() by {
                                if i < before.len() {
                                    assert(self.frames@[i] == old(self).frames@[i]);
                                }
                            }
                            assert forall|i: int| 0 < i < self.frames@.len() implies chain_ok(
                                self.frames@[i - 1],
                                #[trigger] self.frames@[i],
                                self.source_directories.deep_view(),
                                self.reads@,
                            ) by {
                                if i <= before.len() {
                                    assert(self.frames@[i - 1] == old(self).frames@[i - 1]);
                                    assert(self.frames@[i] == old(self).frames@[i]);
                                    assert(chain_ok(old(self).frames@[i - 1], old(self).frames@[i], dirs, new_reads));
                                } else {
                                    assert(self.frames@[i - 1] == top);
                                    assert(self.frames@[i] == child);
                                }
                            }
                            assert(self.frames@[0] == old(self).frames@[0]);
                        }
                        self.advance()
                    },
                }
            },
        }
    }

    /// Closes every module whose imports are all loaded, innermost first, and asks for the
    /// next file, or ends with the scope of the module the loader was started with.
    #[verifier::rlimit(50)]
    #[verifier::spinoff_prover]
    fn advance(&mut self) -> (step: LoadStep)
        requires
            old(self).wf(),
            old(self).frames@.len() > 0,
            old(self).frames@.last().loaded@.len() < old(self).frames@.last().module.imports@.len()
                ==> old(self).frames@.last().next_candidate == 0,
        ensures
            final(self).step_ok(step, old(self).root_module()),
            final(self).directories() == old(self).directories(),
            step is Read ==> final(self).candidate_index() == 0,
            step is Read || step matches LoadStep::Finished(Ok(_)),
            step is Read && old(self).frames@.last().loaded@.len() < old(
                self,
            ).frames@.last().module.imports@.len() ==> final(self).depth() == old(self).depth()
                && final(self).current_import() == old(self).current_import(),
            old(self).frames@.last().loaded@.len() < old(self).frames@.last().module.imports@.len()
                ==> step is Read && final(self).frames@ == old(self).frames@,
            final(self).reads() == old(self).reads(),
        decreases old(self).frames@.len(),
    {
        let ghost dirs = self.source_directories.deep_view();
        let ghost reads = self.reads@;
        let top_index = self.frames.len() - 1;
        proof {
            assert(frame_ok(self.frames@[top_index as int], dirs, reads));
        }
        if self.frames[top_index].loaded.len() < self.frames[top_index].module.imports.len() {
            proof {
                assert(candidate_paths(
                    self.frames@[top_index as int].module.imports@[self.frames@[top_index as int].loaded@.len() as int].module_name.deep_view(),
                    self.source_directories.deep_view(),
                ).len() > 0);
                self.lemma_pending_requested();
            }
            let path = self.frames[top_index].candidates[0].0.clone();
            return LoadStep::Read(path);
        }
        let frame = self.frames.pop().unwrap();
        let ghost after_pop = self.frames@;
        let ghost loaded = frame.loaded@;
        proof {
            assert(frame == old(self).frames@[top_index as int]);
            assert(frame_ok(frame, dirs, reads));
        }
        let scope = ModuleScope::from_parts(
            &frame.module.name,
            &frame.module.exposing,
            &frame.module.statements,
            frame.loaded,
        );
        proof {
            assert forall|j: int| 0 <= j < frame.module.imports@.len() implies if (
            #[trigger] scope.spec_imports()[j]).module_scope.spec_height() < scope.spec_height() {
                import_loaded(scope.spec_imports()[j], frame.module.imports@[j], dirs, reads)
            } else {
                false
            } by {
                assert(scope.spec_imports()[j] == loaded[j]);
            }
            assert(loaded_scope(scope, frame.module, dirs, reads));
        }
        if self.frames.len() == 0 {
            proof {
                assert(frame == old(self).frames@[0]);
            }
            return LoadStep::Finished(Ok(scope));
        }
        let mut parent = self.frames.pop().unwrap();
        let ghost old_parent = parent;
        proof {
            assert(parent == old(self).frames@[old(self).frames@.len() - 2]);
            assert(frame_ok(parent, dirs, reads));
            assert(chain_ok(
                old(self).frames@[top_index - 1],
                old(self).frames@[top_index as int],
                dirs,
                reads,
            ));
        }
        let exposing = copy_option_exposing(&parent.module.imports[parent.loaded.len()].exposing);
        let ghost before_loaded = parent.loaded@;
        let import = ModuleImport { module_scope: Rc::new(scope), exposing };
        proof {
            let im = old_parent.module.imports@[old_parent.loaded@.len() as int];
            let k = old_parent.next_candidate as int;
            let c = candidate_paths(im.module_name.deep_view(), dirs);
            assert(found_at(im, dirs, reads, k, frame.source@));
            assert(parsed_from(frame.source@, frame.module, c[k].1));
            assert(scope_of_import(import) == scope);
            assert(loaded_scope(*import.module_scope, frame.module, dirs, reads));
            assert(import_loaded(import, im, dirs, reads));
        }
        parent.loaded.push(import);
        if parent.loaded.len() < parent.module.imports.len() {
            parent.candidates = import_candidates_in(
                &parent.module.imports[parent.loaded.len()].module_name,
                &self.source_directories,
            );
        }
        parent.next_candidate = 0;
        let ghost before = self.frames@;
        self.frames.push(parent);
        proof {
            assert forall|j: int| 0 <= j < parent.loaded@.len() implies same_option_exposing(
                #[trigger] parent.loaded@[j].exposing,
                parent.module.imports@[j].exposing,
            ) by {
                if j < before_loaded.len() {
                    assert(parent.loaded@[j] == before_loaded[j]);
                }
            }
            assert forall|j: int| 0 <= j < parent.loaded@.len() implies import_loaded(
                #[trigger] parent.loaded@[j],
                parent.module.imports@[j],
                dirs,
                reads,
            ) by {
                if j < before_loaded.len() {
                    assert(parent.loaded@[j] == before_loaded[j]);
                }
            }
            assert(frame_ok(parent, dirs, reads));
            assert forall|i: int| 0 <= i < self.frames@.len() implies frame_ok(
                #[trigger] self.frames@[i],
                self.source_directories.deep_view(),
                self.reads@,
            ) by {
                if i < before.len() {
                    assert(self.frames@[i] == old(self).frames@[i]);
                }
            }
            assert forall|i: int| 0 <= i < self.frames@.len() - 1 implies (
            #[trigger] self.frames@[i]).loaded@.len() < self.frames@[i].module.imports@.len() by {
                assert(self.frames@[i] == old(self).frames@[i]);
            }
            assert forall|i: int| 0 < i < self.frames@.len() implies chain_ok(
                self.frames@[i - 1],
                #[trigger] self.frames@[i],
                self.source_directories.deep_view(),
                self.reads@,
            ) by {
                assert(self.frames@[i - 1] == old(self).frames@[i - 1]);
                assert(chain_ok(old(self).frames@[i - 1], old(self).frames@[i], dirs, reads));
                if i < before.len() {
                    assert(self.frames@[i] == old(self).frames@[i]);
                } else {
                    assert(self.frames@[i] == parent);
                    assert(old(self).frames@[i] == old_parent);
                }
            }
            assert(self.frames@[0].module == old(self).frames@[0].module);
        }
        self.advance()
    }
}


/// The paths at which an imported module is looked for, below the given directories.
fn import_candidates_in(module_name: &Vec<String>, dirs: &Vec<String>) -> (r: Vec<(String, bool)>)
    ensures
        candidates_view(r@) == candidate_paths(module_name.deep_view(), dirs.deep_view()),
{
    let settings = Settings { source_directories: copy_names(dirs) };
    import_candidates(module_name, &settings)
}

} // verus!
