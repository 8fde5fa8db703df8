//! The description of a module, with those of its sub-modules under their
//! names, and how an engine's whole registry is gathered into one.

use crate::ast::{ScriptFnMetadataView, AST};
use crate::engine::{Engine, EngineView};
use crate::entries::{
    ascending, entry_map, insert_entry, lemma_entry_map_push, lemma_insert_entry_ascending,
    lemma_insert_entry_map, lemma_insert_entry_members, named_above, named_below,
};
use crate::metadata::function::{normalize, normalize_script, FnMetadata, FnMetadataView};
use crate::module::{FuncInfo, FuncInfoView, Module, ModuleView};
use crate::text::{lemma_text_lt_irreflexive, lemma_text_lt_transitive, text_less, text_lt};
use vstd::prelude::*;

verus! {

/// The description of a module: the descriptions of its sub-modules, each
/// under its name, and those of its functions.
#[derive(Debug, PartialEq, Eq)]
pub struct ModuleMetadata {
    /// The sub-modules.  [`ModuleMetadata::insert_module`] keeps them in
    /// the order of their names.
    pub modules: Vec<(String, ModuleMetadata)>,
    pub functions: Vec<FnMetadata>,
}

/// The model of a [`ModuleMetadata`].
pub struct ModuleMetadataView {
    pub modules: Seq<(Seq<char>, ModuleMetadataView)>,
    pub functions: Seq<FnMetadataView>,
}

impl View for ModuleMetadata {
    type V = ModuleMetadataView;

    open spec fn view(&self) -> ModuleMetadataView {
        self.model()
    }
}

impl DeepView for ModuleMetadata {
    type V = ModuleMetadataView;

    open spec fn deep_view(&self) -> ModuleMetadataView {
        self.view()
    }
}

impl Clone for ModuleMetadata {
    fn clone(&self) -> (r: Self)
        ensures
            r@ == self@,
        decreases self,
    {
        let functions = self.functions.clone();
        assert(functions.deep_view() =~= self.functions.deep_view());
        let mut modules: Vec<(String, ModuleMetadata)> = Vec::new();
        let mut i: usize = 0;
        while i < self.modules.len()
            invariant
                i <= self.modules.len(),
                modules.len() == i,
                forall|j: int|
                    0 <= j < i ==> (#[trigger] modules[j]).deep_view() == self.modules[j].deep_view(),
            decreases self.modules.len() - i,
        {
            let entry = &self.modules[i];
            modules.push((entry.0.clone(), entry.1.clone()));
            i += 1;
        }
        let r = ModuleMetadata { modules, functions };
        assert(r@.modules =~= self@.modules);
        r
    }
}

impl Default for ModuleMetadata {
    /// A description without sub-modules or functions.
    fn default() -> (r: Self)
        ensures
            r@.modules.len() == 0,
            r@.functions.len() == 0,
    {
        ModuleMetadata::new()
    }
}

/// The descriptions of the functions `functions` of a module, in their
/// order.
pub open spec fn function_metadata(functions: Seq<FuncInfoView>) -> Seq<FnMetadataView> {
    Seq::new(functions.len(), |i: int| normalize(functions[i]))
}

/// The descriptions of the functions `functions` of a compiled script, in
/// their order.
pub open spec fn script_metadata(functions: Seq<ScriptFnMetadataView>) -> Seq<FnMetadataView> {
    Seq::new(functions.len(), |i: int| normalize_script(functions[i]))
}

/// The description of the module `module`: its functions described in their
/// order, and its sub-modules described in the order of their names.
pub open spec fn module_metadata(module: ModuleView) -> ModuleMetadataView
    decreases module, 1nat,
{
    ModuleMetadataView {
        modules: sub_module_metadata(module.sub_modules, module.sub_modules.len()),
        functions: function_metadata(module.functions),
    }
}

/// The descriptions of the first `n` of the named modules `named`, in the
/// order of their names.  Where a name occurs again, the later module
/// stands under it.
pub open spec fn sub_module_metadata(named: Seq<(Seq<char>, ModuleView)>, n: nat) -> Seq<
    (Seq<char>, ModuleMetadataView),
>
    decreases named, 0nat, n,
{
    if n == 0 || n > named.len() {
        Seq::empty()
    } else {
        insert_entry(
            sub_module_metadata(named, (n - 1) as nat),
            named[n - 1].0,
            module_metadata(named[n - 1].1),
        )
    }
}

/// The descriptions of the functions of the first `n` of `packages`, package
/// after package.
pub open spec fn package_metadata(packages: Seq<ModuleView>, n: nat) -> Seq<FnMetadataView>
    decreases n,
{
    if n == 0 || n > packages.len() {
        Seq::empty()
    } else {
        package_metadata(packages, (n - 1) as nat) + function_metadata(packages[n - 1].functions)
    }
}

/// The description of all that `engine` knows.
///
/// The registered modules are described under their names.  The functions
/// are, in this order: those of the packages, if `include_packages` is set;
/// those of the global namespace; those that `ast` defines, if there is
/// one.
pub open spec fn engine_metadata(
    engine: EngineView,
    ast: Option<Seq<ScriptFnMetadataView>>,
    include_packages: bool,
) -> ModuleMetadataView {
    ModuleMetadataView {
        modules: sub_module_metadata(engine.global_sub_modules, engine.global_sub_modules.len()),
        functions: (if include_packages {
            package_metadata(engine.packages, engine.packages.len())
        } else {
            Seq::empty()
        }) + function_metadata(engine.global_namespace.functions) + (match ast {
            Some(functions) => script_metadata(functions),
            None => Seq::empty(),
        }),
    }
}

/// Whether the sub-modules of `node` stand in the order of their names, and
/// so on in each of them.
pub open spec fn sorted_throughout(node: ModuleMetadataView) -> bool
    decreases node,
{
    &&& ascending(node.modules)
    &&& forall|i: int|
        0 <= i < node.modules.len() ==> sorted_throughout(#[trigger] node.modules[i].1)
}

/// The description of a module has its sub-modules in the order of their
/// names, at every depth.
pub proof fn lemma_module_metadata_sorted(module: ModuleView)
    ensures
        sorted_throughout(module_metadata(module)),
    decreases module, 1nat,
{
    lemma_sub_module_metadata_sorted(module.sub_modules, module.sub_modules.len());
}

/// The descriptions of named modules stand in the order of their names,
/// and so do the sub-modules in each of them, at every depth.
pub proof fn lemma_sub_module_metadata_sorted(named: Seq<(Seq<char>, ModuleView)>, n: nat)
    ensures
        ascending(sub_module_metadata(named, n)),
        forall|i: int|
            0 <= i < sub_module_metadata(named, n).len() ==> sorted_throughout(
                #[trigger] sub_module_metadata(named, n)[i].1,
            ),
    decreases named, 0nat, n,
{
    if n == 0 || n > named.len() {
    } else {
        let rest = sub_module_metadata(named, (n - 1) as nat);
        let name = named[n - 1].0;
        let node = module_metadata(named[n - 1].1);
        lemma_sub_module_metadata_sorted(named, (n - 1) as nat);
        lemma_module_metadata_sorted(named[n - 1].1);
        lemma_insert_entry_ascending(rest, name, node);
        let all = insert_entry(rest, name, node);
        assert forall|i: int| 0 <= i < all.len() implies sorted_throughout(#[trigger] all[i].1) by {
            lemma_insert_entry_members(rest, name, node, i);
            if all[i] != (name, node) {
                let j = choose|j: int| 0 <= j < rest.len() && rest[j] == all[i];
                assert(sorted_throughout(rest[j].1));
            }
        }
    }
}

/// Among the descriptions of named modules, each name that occurs stands
/// for the description of the module that comes last under that name.
pub proof fn lemma_sub_module_metadata_names(named: Seq<(Seq<char>, ModuleView)>, n: nat)
    requires
        n <= named.len(),
    ensures
        entry_map(sub_module_metadata(named, n)).dom() == entry_map(named.take(n as int)).dom(),
        forall|name: Seq<char>|
            entry_map(named.take(n as int)).contains_key(name) ==> #[trigger] entry_map(
                sub_module_metadata(named, n),
            )[name] == module_metadata(entry_map(named.take(n as int))[name]),
    decreases n,
{
    let described = entry_map(sub_module_metadata(named, n));
    let given = entry_map(named.take(n as int));
    if n == 0 {
        assert(described.dom() =~= given.dom());
    } else {
        let rest = sub_module_metadata(named, (n - 1) as nat);
        let name = named[n - 1].0;
        lemma_sub_module_metadata_names(named, (n - 1) as nat);
        lemma_sub_module_metadata_sorted(named, (n - 1) as nat);
        lemma_insert_entry_map(rest, name, module_metadata(named[n - 1].1));
        lemma_entry_map_push(named.take(n - 1), name, named[n - 1].1);
        assert(named.take(n - 1).push(named[n - 1]) =~= named.take(n as int));
        assert(described.dom() =~= given.dom());
    }
}

/// The description of all that an engine knows has its sub-modules in the
/// order of their names, at every depth.
pub proof fn lemma_engine_metadata_sorted(
    engine: EngineView,
    ast: Option<Seq<ScriptFnMetadataView>>,
    include_packages: bool,
)
    ensures
        sorted_throughout(engine_metadata(engine, ast, include_packages)),
{
    lemma_sub_module_metadata_sorted(engine.global_sub_modules, engine.global_sub_modules.len());
}

/// The model of the script that may come with a request for a description.
pub open spec fn script_view(ast: Option<&AST>) -> Option<Seq<ScriptFnMetadataView>> {
    match ast {
        Some(script) => Some(script@),
        None => None,
    }
}

/// Describes each of `functions` and puts the descriptions behind `out`.
fn describe_functions(out: &mut Vec<FnMetadata>, functions: &Vec<FuncInfo>)
    ensures
        final(out).deep_view() == old(out).deep_view() + function_metadata(functions.deep_view()),
{
    let ghost before = out.deep_view();
    let ghost added = function_metadata(functions.deep_view());
    let mut i: usize = 0;
    assert(out.deep_view() =~= before + added.take(0));
    while i < functions.len()
        invariant
            i <= functions.len(),
            added == function_metadata(functions.deep_view()),
            out.len() == before.len() + i,
            out.deep_view() == before + added.take(i as int),
        decreases functions.len() - i,
    {
        let ghost so_far = out.deep_view();
        out.push(FnMetadata::from_func_info(&functions[i]));
        assert(functions.deep_view()[i as int] == functions[i as int]@);
        assert(out.deep_view() =~= so_far.push(added[i as int]));
        assert(out.deep_view() =~= before + added.take(i + 1));
        i += 1;
    }
    assert(added.take(i as int) =~= added);
}

impl Engine {
    /// The description of all that this engine knows: see
    /// [`engine_metadata`].  `ast`, where given, is a compiled script whose
    /// functions are described too; `include_packages` asks for the
    /// functions of the installed packages.
    pub fn gen_fn_metadata(&self, ast: Option<&AST>, include_packages: bool) -> (r: ModuleMetadata)
        ensures
            r@ == engine_metadata(self@, script_view(ast), include_packages),
            sorted_throughout(r@),
    {
        let mut global = ModuleMetadata::new();
        let packages = self.packages();
        if include_packages {
            let mut i: usize = 0;
            assert(global@.functions =~= package_metadata(self@.packages, 0));
            while i < packages.len()
                invariant
                    i <= packages.len(),
                    packages.deep_view() == self@.packages,
                    global@.modules.len() == 0,
                    global@.functions == package_metadata(self@.packages, i as nat),
                decreases packages.len() - i,
            {
                assert(packages.deep_view()[i as int] == self@.packages[i as int]);
                describe_functions(&mut global.functions, packages[i].iter_fn());
                i += 1;
            }
        }
        let ghost from_packages = global@.functions;
        let named = self.global_sub_modules();
        let mut j: usize = 0;
        assert(global@.modules =~= sub_module_metadata(self@.global_sub_modules, 0));
        while j < named.len()
            invariant
                j <= named.len(),
                named.deep_view() == self@.global_sub_modules,
                global@.functions == from_packages,
                global@.modules == sub_module_metadata(self@.global_sub_modules, j as nat),
            decreases named.len() - j,
        {
            assert(named.deep_view()[j as int] == self@.global_sub_modules[j as int]);
            let node = ModuleMetadata::from(&named[j].1);
            global.insert_module(named[j].0.clone(), node);
            j += 1;
        }
        describe_functions(&mut global.functions, self.global_namespace().iter_fn());
        if let Some(script) = ast {
            let defined = script.iter_functions();
            let ghost before = global@.functions;
            let ghost added = script_metadata(script@);
            let mut k: usize = 0;
            assert(global@.functions =~= before + added.take(0));
            while k < defined.len()
                invariant
                    k <= defined.len(),
                    defined.deep_view() == script@,
                    added == script_metadata(script@),
                    global.functions.len() == before.len() + k,
                    global@.modules == sub_module_metadata(
                        self@.global_sub_modules,
                        self@.global_sub_modules.len(),
                    ),
                    global@.functions == before + added.take(k as int),
                decreases defined.len() - k,
            {
                let ghost so_far = global@.functions;
                global.functions.push(FnMetadata::from_script_fn(&defined[k]));
                assert(defined.deep_view()[k as int] == defined[k as int]@);
                assert(global@.functions =~= so_far.push(added[k as int]));
                assert(global@.functions =~= before + added.take(k + 1));
                k += 1;
            }
            assert(added.take(k as int) =~= added);
        }
        proof {
            lemma_engine_metadata_sorted(self@, script_view(ast), include_packages);
            assert(global@.functions =~= engine_metadata(
                self@,
                script_view(ast),
                include_packages,
            ).functions);
        }
        global
    }
}

impl ModuleMetadata {
    /// The model, built from the functions and, recursively, the
    /// sub-modules.
    pub open spec fn model(&self) -> ModuleMetadataView
        decreases self,
    {
        ModuleMetadataView {
            modules: Seq::new(
                self.modules@.len(),
                |i: int|
                    if 0 <= i < self.modules@.len() {
                        (self.modules@[i].0@, self.modules@[i].1.model())
                    } else {
                        arbitrary()
                    },
            ),
            functions: self.functions.deep_view(),
        }
    }

    /// A description without sub-modules or functions.
    pub fn new() -> (r: ModuleMetadata)
        ensures
            r@.modules.len() == 0,
            r@.functions.len() == 0,
    {
        ModuleMetadata { modules: Vec::new(), functions: Vec::new() }
    }

    /// Puts `node` under `name` among the sub-modules, in place of what
    /// stood under that name, and at its place in the order of names.
    pub fn insert_module(&mut self, name: String, node: ModuleMetadata)
        ensures
            final(self)@.modules == insert_entry(old(self)@.modules, name@, node@),
            final(self)@.functions == old(self)@.functions,
    {
        let ghost before = self@.modules;
        let ghost k = name@;
        let mut entries: Vec<(String, ModuleMetadata)> = Vec::new();
        std::mem::swap(&mut entries, &mut self.modules);
        assert(entries.deep_view() =~= before);
        let mut below: Vec<(String, ModuleMetadata)> = Vec::new();
        let mut above: Vec<(String, ModuleMetadata)> = Vec::new();
        proof {
            reveal(Seq::filter);
            assert(before.take(0).filter(named_below(k)) =~= Seq::empty());
            assert(before.take(0).filter(named_above(k)) =~= Seq::empty());
            assert(below.deep_view() =~= Seq::empty());
            assert(above.deep_view() =~= Seq::empty());
        }
        for entry in it: entries
            invariant
                k == name@,
                it.seq().len() == before.len(),
                forall|i: int|
                    0 <= i < before.len() ==> #[trigger] it.seq()[i].deep_view() == before[i],
                below.deep_view() == before.take(it.index() as int).filter(named_below(k)),
                above.deep_view() == before.take(it.index() as int).filter(named_above(k)),
        {
            let ghost n = it.index() as int;
            let ghost below_before = below.deep_view();
            let ghost above_before = above.deep_view();
            proof {
                assert(entry.deep_view() == before[n]);
                assert(before.take(n).push(before[n]) =~= before.take(n + 1));
                before.take(n).lemma_filter_push(before[n], named_below(k));
                before.take(n).lemma_filter_push(before[n], named_above(k));
            }
            if text_less(entry.0.as_str(), name.as_str()) {
                below.push(entry);
                proof {
                    if text_lt(k, before[n].0) {
                        lemma_text_lt_transitive(before[n].0, k, before[n].0);
                        lemma_text_lt_irreflexive(before[n].0);
                    }
                    assert(below.deep_view() =~= below_before.push(before[n]));
                }
            } else if text_less(name.as_str(), entry.0.as_str()) {
                above.push(entry);
                proof {
                    assert(above.deep_view() =~= above_before.push(before[n]));
                }
            }
        }
        assert(before.take(before.len() as int) =~= before);
        let ghost below_all = below.deep_view();
        let ghost above_all = above.deep_view();
        below.push((name, node));
        below.append(&mut above);
        assert(below.deep_view() =~= below_all + seq![(k, node@)] + above_all);
        self.modules = below;
        assert(self@.modules =~= insert_entry(before, k, node@));
    }

    /// The description of `module`.
    pub fn from(module: &Module) -> (r: ModuleMetadata)
        ensures
            r@ == module_metadata(module@),
            sorted_throughout(r@),
        decreases module@,
    {
        proof {
            lemma_module_metadata_sorted(module@);
        }
        let mut node = ModuleMetadata::new();
        describe_functions(&mut node.functions, module.iter_fn());
        assert(node@.functions =~= function_metadata(module@.functions));
        let named = module.iter_sub_modules();
        let mut j: usize = 0;
        assert(node@.modules =~= sub_module_metadata(module@.sub_modules, 0));
        while j < named.len()
            invariant
                j <= named.len(),
                named.deep_view() == module@.sub_modules,
                node@.functions == function_metadata(module@.functions),
                node@.modules == sub_module_metadata(module@.sub_modules, j as nat),
            decreases named.len() - j,
        {
            assert(named.deep_view()[j as int] == module@.sub_modules[j as int]);
            assert(named[j as int].1@ == module@.sub_modules[j as int].1);
            assert(decreases_to!(module@ => module@.sub_modules[j as int].1));
            let child = ModuleMetadata::from(&named[j].1);
            node.insert_module(named[j].0.clone(), child);
            j += 1;
        }
        node
    }
}

} // verus!
