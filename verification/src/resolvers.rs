//! Resolvers of import paths.

use crate::engine::Engine;
use crate::entries::{
    distinct_keys, entry_map, has_key, is_occurrence, lemma_distinct_last, lemma_distinct_push,
    lemma_entry_map_len, lemma_entry_map_push, lemma_entry_map_remove, lemma_entry_map_update,
};
use crate::module::{Module, ModuleResolver, ModuleView};
use crate::result::{EvalAltResult, EvalAltResultView};
use crate::token::Position;
use vstd::prelude::*;

verus! {

/// A resolver that serves the modules a host has put into it, each under
/// its path.
///
/// Its model is the map from paths to modules.  Paths are compared as they
/// stand, character by character.
#[derive(Debug)]
pub struct StaticModuleResolver {
    paths: Vec<String>,
    modules: Vec<Module>,
}

impl View for StaticModuleResolver {
    type V = Map<Seq<char>, ModuleView>;

    open spec fn view(&self) -> Map<Seq<char>, ModuleView> {
        entry_map(self.entries())
    }
}

/// What resolving `path` against `modules` gives: the module under that
/// path, or the error that names `path` and `pos`.
pub open spec fn resolution(modules: Map<Seq<char>, ModuleView>, path: Seq<char>, pos: Position) -> Result<
    ModuleView,
    EvalAltResultView,
> {
    if modules.contains_key(path) {
        Ok(modules[path])
    } else {
        Err(EvalAltResultView::ErrorModuleNotFound(path, pos))
    }
}

/// The model of what a resolver returns.
pub open spec fn resolved_view(r: Result<Module, Box<EvalAltResult>>) -> Result<
    ModuleView,
    EvalAltResultView,
> {
    match r {
        Ok(module) => Ok(module@),
        Err(e) => Err(e@),
    }
}

/// Whether the strings of `paths` differ from one another.
spec fn no_path_twice(paths: Seq<String>) -> bool {
    forall|i: int, j: int| 0 <= i < j < paths.len() ==> paths[i]@ != paths[j]@
}

/// Each path with the module at the same place.
spec fn paired(paths: Seq<String>, modules: Seq<Module>) -> Seq<(Seq<char>, ModuleView)> {
    Seq::new(paths.len(), |i: int| (paths[i]@, modules[i]@))
}

/// The paths differ from one another exactly if the names of the entries do.
proof fn lemma_paired_distinct(paths: Seq<String>, modules: Seq<Module>)
    ensures
        no_path_twice(paths) <==> distinct_keys(paired(paths, modules)),
{
    let s = paired(paths, modules);
    if no_path_twice(paths) {
        assert forall|i: int, j: int| 0 <= i < j < s.len() implies s[i].0 != s[j].0 by {
            assert(paths[i]@ != paths[j]@);
        }
    }
    if distinct_keys(s) {
        assert forall|i: int, j: int| 0 <= i < j < paths.len() implies paths[i]@ != paths[j]@ by {
            assert(s[i].0 != s[j].0);
        }
    }
}

impl StaticModuleResolver {
    #[verifier::type_invariant]
    spec fn well_formed(self) -> bool {
        &&& self.paths.len() == self.modules.len()
        &&& no_path_twice(self.paths@)
    }

    /// The paths with their modules, in the order in which the enumerating
    /// methods go through them.  No path occurs twice.
    pub closed spec fn entries(&self) -> Seq<(Seq<char>, ModuleView)> {
        paired(self.paths@, self.modules@)
    }

    /// Create a new `StaticModuleResolver`, which holds no module.
    pub fn new() -> (r: Self)
        ensures
            r@ == Map::<Seq<char>, ModuleView>::empty(),
            r.entries().len() == 0,
    {
        let r = StaticModuleResolver { paths: Vec::new(), modules: Vec::new() };
        r
    }

    /// Where `path` stands among the entries.
    fn position_of(&self, path: &str) -> (r: Option<usize>)
        ensures
            self.paths.len() == self.modules.len(),
            distinct_keys(self.entries()),
            r matches Some(i) ==> is_occurrence(self.entries(), path@, i as int),
            r is None ==> !has_key(self.entries(), path@),
    {
        proof {
            use_type_invariant(self);
            lemma_paired_distinct(self.paths@, self.modules@);
        }
        let mut i: usize = 0;
        while i < self.paths.len()
            invariant
                i <= self.paths.len() == self.modules.len(),
                distinct_keys(self.entries()),
                forall|j: int| 0 <= j < i ==> self.entries()[j].0 != path@,
            decreases self.paths.len() - i,
        {
            if crate::text::same_text(self.paths[i].as_str(), path) {
                return Some(i);
            }
            i += 1;
        }
        None
    }

    /// Puts `module` under `path`, in place of what stood there.
    fn insert_owned(&mut self, path: String, module: Module)
        ensures
            final(self)@ == old(self)@.insert(path@, module@),
    {
        let found = self.position_of(path.as_str());
        let ghost before = self.entries();
        let mut taken = StaticModuleResolver::new();
        std::mem::swap(self, &mut taken);
        let StaticModuleResolver { mut paths, mut modules } = taken;
        match found {
            Some(i) => {
                modules.set(i, module);
                proof {
                    lemma_entry_map_update(before, i as int, module@);
                    assert(paired(paths@, modules@) =~= before.update(i as int, (path@, module@)));
                    lemma_paired_distinct(paths@, modules@);
                }
                *self = StaticModuleResolver { paths, modules };
            },
            None => {
                paths.push(path);
                modules.push(module);
                proof {
                    lemma_entry_map_push(before, path@, module@);
                    lemma_distinct_push(before, path@, module@);
                    assert(paired(paths@, modules@) =~= before.push((path@, module@)));
                    lemma_paired_distinct(paths@, modules@);
                }
                *self = StaticModuleResolver { paths, modules };
            },
        }
    }

    /// Add a module keyed by its path.  A module that was there under the
    /// same path is replaced.
    pub fn insert(&mut self, path: &str, module: Module)
        ensures
            final(self)@ == old(self)@.insert(path@, module@),
    {
        self.insert_owned(path.to_owned(), module);
    }

    /// Remove a module given its path, and return it.
    pub fn remove(&mut self, path: &str) -> (r: Option<Module>)
        ensures
            old(self)@.contains_key(path@) ==> r is Some && r->0@ == old(self)@[path@],
            !old(self)@.contains_key(path@) ==> r is None,
            final(self)@ == old(self)@.remove(path@),
    {
        match self.position_of(path) {
            Some(i) => {
                let ghost before = self.entries();
                let mut taken = StaticModuleResolver::new();
                std::mem::swap(self, &mut taken);
                let StaticModuleResolver { mut paths, mut modules } = taken;
                paths.remove(i);
                let module = modules.remove(i);
                proof {
                    lemma_distinct_last(before, i as int);
                    lemma_entry_map_remove(before, i as int);
                    assert(paired(paths@, modules@) =~= before.remove(i as int));
                    lemma_paired_distinct(paths@, modules@);
                }
                *self = StaticModuleResolver { paths, modules };
                Some(module)
            },
            None => None,
        }
    }

    /// Does the path exist?
    pub fn contains_path(&self, path: &str) -> (r: bool)
        ensures
            r == self@.contains_key(path@),
    {
        self.position_of(path).is_some()
    }

    /// Remove all modules.
    pub fn clear(&mut self)
        ensures
            final(self)@ == Map::<Seq<char>, ModuleView>::empty(),
            final(self).entries().len() == 0,
    {
        *self = StaticModuleResolver::new();
    }

    /// Is this `StaticModuleResolver` empty?
    pub fn is_empty(&self) -> (r: bool)
        ensures
            r == (self@.len() == 0),
            r == (self@ == Map::<Seq<char>, ModuleView>::empty()),
    {
        proof {
            use_type_invariant(self);
            lemma_paired_distinct(self.paths@, self.modules@);
            lemma_entry_map_len(self.entries());
            if self.entries().len() == 0 {
                assert(self@ =~= Map::<Seq<char>, ModuleView>::empty());
            }
        }
        self.paths.len() == 0
    }

    /// Get the number of modules in this `StaticModuleResolver`.
    pub fn len(&self) -> (r: usize)
        ensures
            self@.dom().finite(),
            r == self@.len(),
            r == self.entries().len(),
    {
        proof {
            use_type_invariant(self);
            lemma_paired_distinct(self.paths@, self.modules@);
            lemma_entry_map_len(self.entries());
        }
        self.paths.len()
    }

    /// Merge another `StaticModuleResolver` into this.  Every module of
    /// `other` comes to stand under its path, in place of what stood there;
    /// the other paths keep their modules.
    pub fn merge(&mut self, other: Self)
        ensures
            final(self)@ == old(self)@.union_prefer_right(other@),
    {
        let ghost incoming = other.entries();
        let entries = other.into_iter();
        for entry in it: entries
            invariant
                it.seq().len() == incoming.len(),
                forall|i: int|
                    0 <= i < incoming.len() ==> #[trigger] it.seq()[i].deep_view() == incoming[i],
                self@ == old(self)@.union_prefer_right(entry_map(incoming.take(it.index() as int))),
        {
            let ghost n = it.index() as int;
            proof {
                lemma_entry_map_push(incoming.take(n), incoming[n].0, incoming[n].1);
                assert(incoming.take(n).push(incoming[n]) =~= incoming.take(n + 1));
                assert(entry.deep_view() == incoming[n]);
            }
            self.insert_owned(entry.0, entry.1);
        }
        assert(incoming.take(incoming.len() as int) =~= incoming);
    }

    /// All the paths with their modules.
    pub fn iter(&self) -> (r: Vec<(&str, &Module)>)
        ensures
            r.deep_view() == self.entries(),
            distinct_keys(self.entries()),
    {
        proof {
            use_type_invariant(self);
            lemma_paired_distinct(self.paths@, self.modules@);
        }
        let mut out: Vec<(&str, &Module)> = Vec::new();
        let mut i: usize = 0;
        while i < self.paths.len()
            invariant
                i <= self.paths.len() == self.modules.len(),
                out.len() == i,
                out.deep_view() == self.entries().take(i as int),
            decreases self.paths.len() - i,
        {
            out.push((self.paths[i].as_str(), &self.modules[i]));
            i += 1;
        }
        out
    }

    /// The module at place `index` of the enumeration with its path, or
    /// `None` if the enumeration ends before `index`.  The module can be
    /// changed in place; its path stays as it is.
    pub fn iter_mut(&mut self, index: usize) -> (r: Option<(&str, &mut Module)>)
        ensures
            index >= old(self).entries().len() ==> r is None && final(self).entries() == old(
                self,
            ).entries(),
            index < old(self).entries().len() ==> r is Some && (r.unwrap().0@, r.unwrap().1@) == old(
                self,
            ).entries()[index as int] && final(self).entries() == old(self).entries().update(
                index as int,
                (r.unwrap().0@, final(r.unwrap().1)@),
            ) && final(self)@ == old(self)@.insert(r.unwrap().0@, final(r.unwrap().1)@),
    {
        proof {
            use_type_invariant(&*self);
            lemma_paired_distinct(self.paths@, self.modules@);
            if index < self.paths.len() {
                let path = self.paths[index as int]@;
                assert forall|module: ModuleView|
                    #[trigger] entry_map(self.entries().update(index as int, (path, module)))
                        == self@.insert(path, module) by {
                    lemma_entry_map_update(self.entries(), index as int, module);
                }
            }
        }
        if index < self.paths.len() {
            Some((self.paths[index].as_str(), &mut self.modules[index]))
        } else {
            None
        }
    }

    /// All the paths with their modules, which leave the resolver.
    pub fn into_iter(self) -> (r: Vec<(String, Module)>)
        ensures
            r.deep_view() == self.entries(),
            distinct_keys(self.entries()),
    {
        proof {
            use_type_invariant(&self);
            lemma_paired_distinct(self.paths@, self.modules@);
        }
        let ghost all = self.entries();
        let StaticModuleResolver { paths, mut modules } = self;
        let mut out: Vec<(String, Module)> = Vec::new();
        for path in it: paths
            invariant
                it.seq().len() == all.len() == modules.len(),
                out.len() == it.index(),
                out.deep_view() == all.take(it.index() as int),
                forall|i: int| 0 <= i < all.len() ==> (#[trigger] it.seq()[i])@ == all[i].0,
                forall|i: int| it.index() <= i < all.len() ==> (#[trigger] modules[i])@ == all[i].1,
        {
            let mut module = Module::new();
            modules.set_and_swap(out.len(), &mut module);
            out.push((path, module));
        }
        out
    }

    /// All the paths.
    pub fn paths(&self) -> (r: Vec<&str>)
        ensures
            r.deep_view() == self.entries().map_values(|e: (Seq<char>, ModuleView)| e.0),
            distinct_keys(self.entries()),
    {
        proof {
            use_type_invariant(self);
            lemma_paired_distinct(self.paths@, self.modules@);
        }
        let ghost all = self.entries().map_values(|e: (Seq<char>, ModuleView)| e.0);
        let mut out: Vec<&str> = Vec::new();
        let mut i: usize = 0;
        while i < self.paths.len()
            invariant
                i <= self.paths.len(),
                all == self.entries().map_values(|e: (Seq<char>, ModuleView)| e.0),
                out.len() == i,
                out.deep_view() == all.take(i as int),
            decreases self.paths.len() - i,
        {
            out.push(self.paths[i].as_str());
            i += 1;
        }
        out
    }

    /// All the modules.
    pub fn values(&self) -> (r: Vec<&Module>)
        ensures
            r.deep_view() == self.entries().map_values(|e: (Seq<char>, ModuleView)| e.1),
    {
        proof {
            use_type_invariant(self);
        }
        let ghost all = self.entries().map_values(|e: (Seq<char>, ModuleView)| e.1);
        let mut out: Vec<&Module> = Vec::new();
        let mut i: usize = 0;
        while i < self.modules.len()
            invariant
                i <= self.modules.len() == self.paths.len(),
                all == self.entries().map_values(|e: (Seq<char>, ModuleView)| e.1),
                out.len() == i,
                out.deep_view() == all.take(i as int),
            decreases self.modules.len() - i,
        {
            out.push(&self.modules[i]);
            i += 1;
        }
        out
    }

    /// The module at place `index` of the enumeration, to be changed in
    /// place, or `None` if the enumeration ends before `index`.  The path of
    /// the module stays as it is.
    pub fn values_mut(&mut self, index: usize) -> (r: Option<&mut Module>)
        ensures
            index >= old(self).entries().len() ==> r is None && final(self).entries() == old(
                self,
            ).entries(),
            index < old(self).entries().len() ==> r is Some && r.unwrap()@ == old(
                self,
            ).entries()[index as int].1 && final(self).entries() == old(self).entries().update(
                index as int,
                (old(self).entries()[index as int].0, final(r.unwrap())@),
            ) && final(self)@ == old(self)@.insert(
                old(self).entries()[index as int].0,
                final(r.unwrap())@,
            ),
    {
        proof {
            use_type_invariant(&*self);
            lemma_paired_distinct(self.paths@, self.modules@);
            if index < self.paths.len() {
                let path = self.paths[index as int]@;
                assert forall|module: ModuleView|
                    #[trigger] entry_map(self.entries().update(index as int, (path, module)))
                        == self@.insert(path, module) by {
                    lemma_entry_map_update(self.entries(), index as int, module);
                }
            }
        }
        if index < self.modules.len() {
            Some(&mut self.modules[index])
        } else {
            None
        }
    }
}

impl ModuleResolver for StaticModuleResolver {
    /// The module that stands under exactly `path`, as a copy of its own.
    fn resolve(&self, engine: &Engine, path: &str, pos: Position) -> (r: Result<
        Module,
        Box<EvalAltResult>,
    >)
        ensures
            resolved_view(r) == resolution(self@, path@, pos),
    {
        match self.position_of(path) {
            Some(i) => {
                proof {
                    lemma_distinct_last(self.entries(), i as int);
                }
                Ok(self.modules[i].clone())
            },
            None => Err(Box::new(EvalAltResult::ErrorModuleNotFound(path.to_owned(), pos))),
        }
    }
}

impl Default for StaticModuleResolver {
    /// A resolver that holds no module.
    fn default() -> (r: Self)
        ensures
            r@ == Map::<Seq<char>, ModuleView>::empty(),
    {
        StaticModuleResolver::new()
    }
}

impl Clone for StaticModuleResolver {
    /// A resolver with a copy of every module, under the same paths.
    fn clone(&self) -> (r: Self)
        ensures
            r.entries() == self.entries(),
            r@ == self@,
    {
        proof {
            use_type_invariant(self);
        }
        let paths = self.paths.clone();
        let modules = self.modules.clone();
        proof {
            assert(paired(paths@, modules@) =~= paired(self.paths@, self.modules@));
        }
        StaticModuleResolver { paths, modules }
    }
}

impl std::ops::AddAssign<StaticModuleResolver> for StaticModuleResolver {
    /// Merges `rhs` into this resolver, as [`StaticModuleResolver::merge`]
    /// does.
    fn add_assign(&mut self, rhs: Self)
        ensures
            final(self)@ == old(self)@.union_prefer_right(rhs@),
    {
        self.merge(rhs);
    }
}

/// A module that was inserted is what its path resolves to.
pub proof fn lemma_inserted_module_resolves(
    modules: Map<Seq<char>, ModuleView>,
    path: Seq<char>,
    module: ModuleView,
    pos: Position,
)
    ensures
        resolution(modules.insert(path, module), path, pos) == Ok::<ModuleView, EvalAltResultView>(
            module,
        ),
{
}

/// A path under which there is no module resolves to the error that holds
/// exactly that path and the position given.
pub proof fn lemma_absent_path_fails(
    modules: Map<Seq<char>, ModuleView>,
    path: Seq<char>,
    pos: Position,
)
    requires
        !modules.contains_key(path),
    ensures
        resolution(modules, path, pos) == Err::<ModuleView, EvalAltResultView>(
            EvalAltResultView::ErrorModuleNotFound(path, pos),
        ),
{
}

/// What a merge holds: the paths of both sides; under a path of the
/// incoming side its module, under every other path the module that was
/// there.
pub proof fn lemma_merge_incoming_wins(
    current: Map<Seq<char>, ModuleView>,
    incoming: Map<Seq<char>, ModuleView>,
)
    ensures
        current.union_prefer_right(incoming).dom() == current.dom().union(incoming.dom()),
        forall|path: Seq<char>|
            incoming.contains_key(path) ==> #[trigger] current.union_prefer_right(incoming)[path]
                == incoming[path],
        forall|path: Seq<char>|
            current.contains_key(path) && !incoming.contains_key(path)
                ==> #[trigger] current.union_prefer_right(incoming)[path] == current[path],
{
}

/// How the number of modules follows the changes: an insert under a new
/// path adds one, an insert under a path that is there adds none; a remove
/// takes one away if the path was there; nothing is left after a clear;
/// and the resolver is empty exactly if that number is zero.
pub proof fn lemma_len_follows_changes(
    modules: Map<Seq<char>, ModuleView>,
    path: Seq<char>,
    module: ModuleView,
)
    requires
        modules.dom().finite(),
    ensures
        !modules.contains_key(path) ==> modules.insert(path, module).len() == modules.len() + 1,
        modules.contains_key(path) ==> modules.insert(path, module).len() == modules.len(),
        modules.contains_key(path) ==> modules.remove(path).len() == modules.len() - 1,
        !modules.contains_key(path) ==> modules.remove(path).len() == modules.len(),
        modules.insert(path, module).dom().finite(),
        modules.remove(path).dom().finite(),
        Map::<Seq<char>, ModuleView>::empty().len() == 0,
        modules.len() == 0 <==> modules == Map::<Seq<char>, ModuleView>::empty(),
{
    if modules.len() == 0 {
        assert(modules =~= Map::<Seq<char>, ModuleView>::empty());
    }
}

} // verus!
