//! The engine's registry of functions and modules: what reflection walks.

use crate::module::{FuncInfo, Module, ModuleView};
use vstd::prelude::*;

verus! {

/// What a host has registered with a scripting engine: packages, named
/// modules, and functions in the global namespace.
#[derive(Debug, PartialEq, Eq)]
pub struct Engine {
    packages: Vec<Module>,
    global_sub_modules: Vec<(String, Module)>,
    global_namespace: Module,
}

/// The model of an [`Engine`].
pub struct EngineView {
    /// The installed packages, in the order of registration.
    pub packages: Seq<ModuleView>,
    /// The registered modules with their names, in the order of
    /// registration.
    pub global_sub_modules: Seq<(Seq<char>, ModuleView)>,
    /// The module that holds the global functions.
    pub global_namespace: ModuleView,
}

impl View for Engine {
    type V = EngineView;

    closed spec fn view(&self) -> EngineView {
        EngineView {
            packages: self.packages.deep_view(),
            global_sub_modules: self.global_sub_modules.deep_view(),
            global_namespace: self.global_namespace@,
        }
    }
}

impl Engine {
    /// An engine with nothing registered.
    pub fn new() -> (r: Engine)
        ensures
            r@.packages.len() == 0,
            r@.global_sub_modules.len() == 0,
            r@.global_namespace.functions.len() == 0,
            r@.global_namespace.sub_modules.len() == 0,
    {
        Engine {
            packages: Vec::new(),
            global_sub_modules: Vec::new(),
            global_namespace: Module::new(),
        }
    }

    /// Installs a package behind those already installed.
    pub fn load_package(&mut self, package: Module)
        ensures
            final(self)@ == (EngineView {
                packages: old(self)@.packages.push(package@),
                ..old(self)@
            }),
    {
        self.packages.push(package);
        assert(self@.packages =~= old(self)@.packages.push(package@));
    }

    /// Registers `module` under `name`, behind the modules already
    /// registered.
    pub fn register_static_module(&mut self, name: &str, module: Module)
        ensures
            final(self)@ == (EngineView {
                global_sub_modules: old(self)@.global_sub_modules.push((name@, module@)),
                ..old(self)@
            }),
    {
        self.global_sub_modules.push((name.to_owned(), module));
        assert(self@.global_sub_modules =~= old(self)@.global_sub_modules.push((name@, module@)));
    }

    /// Registers a function in the global namespace, behind those already
    /// there.
    pub fn register_fn(&mut self, info: FuncInfo)
        ensures
            final(self)@ == (EngineView {
                global_namespace: ModuleView {
                    functions: old(self)@.global_namespace.functions.push(info@),
                    ..old(self)@.global_namespace
                },
                ..old(self)@
            }),
    {
        self.global_namespace.set_fn(info);
    }

    /// The installed packages, in the order of registration.
    pub fn packages(&self) -> (r: &Vec<Module>)
        ensures
            r.deep_view() == self@.packages,
    {
        &self.packages
    }

    /// The registered modules with their names, in the order of
    /// registration.
    pub fn global_sub_modules(&self) -> (r: &Vec<(String, Module)>)
        ensures
            r.deep_view() == self@.global_sub_modules,
    {
        &self.global_sub_modules
    }

    /// The module that holds the global functions.
    pub fn global_namespace(&self) -> (r: &Module)
        ensures
            r@ == self@.global_namespace,
    {
        &self.global_namespace
    }
}

} // verus!
