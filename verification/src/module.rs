//! Modules: named collections of functions and nested sub-modules, and the
//! interface through which import paths are resolved to them.

use crate::engine::Engine;
use crate::result::{EvalAltResult, EvalAltResultView};
use crate::token::Position;
use vstd::prelude::*;

verus! {

/// A source of modules: turns the path of an import into a module.
///
/// A resolver is asked whenever a script imports a path, possibly again
/// while a module that it handed out is being evaluated, and possibly
/// beside other resolvers.  An implementation runs no script and keeps no
/// state between calls that a caller could depend on.
pub trait ModuleResolver {
    /// The module that `path` stands for.  `pos` is the position of the
    /// importing statement; when there is no such module, the error carries
    /// both `path` and `pos`.
    fn resolve(&self, engine: &Engine, path: &str, pos: Position) -> (r: Result<
        Module,
        Box<EvalAltResult>,
    >)
        ensures
            r matches Err(e) ==> e@ == EvalAltResultView::ErrorModuleNotFound(path@, pos),
    ;
}

/// Where a function is visible from.
#[derive(Clone, Copy, Debug, PartialEq, Eq, Hash, Structural)]
pub enum FnNamespace {
    /// Callable from anywhere without qualification.
    Global,
    /// Callable only through the module that holds it.
    Internal,
}

/// Whether a function is exported by its module.
#[derive(Clone, Copy, Debug, PartialEq, Eq, Hash, Structural)]
pub enum FnAccess {
    /// Exported.
    Public,
    /// Private to the module.
    Private,
}

/// Where a function comes from, with what only that origin carries.
#[derive(Debug, PartialEq, Eq)]
pub enum FnOrigin {
    /// Defined in a script; `comments` are its documentation lines.
    Script { comments: Vec<String> },
    /// Registered by the host.
    Native,
}

/// The model of a [`FnOrigin`].
pub enum FnOriginView {
    Script { comments: Seq<Seq<char>> },
    Native,
}

impl View for FnOrigin {
    type V = FnOriginView;

    open spec fn view(&self) -> FnOriginView {
        match self {
            FnOrigin::Script { comments } => FnOriginView::Script { comments: comments.deep_view() },
            FnOrigin::Native => FnOriginView::Native,
        }
    }
}

impl DeepView for FnOrigin {
    type V = FnOriginView;

    open spec fn deep_view(&self) -> FnOriginView {
        self.view()
    }
}

impl Clone for FnOrigin {
    fn clone(&self) -> (r: Self)
        ensures
            r@ == self@,
    {
        match self {
            FnOrigin::Script { comments } => {
                let copy = comments.clone();
                FnOrigin::Script { comments: copy }
            },
            FnOrigin::Native => FnOrigin::Native,
        }
    }
}

impl FnOrigin {
    /// Whether the function is defined in a script.
    pub fn is_script(&self) -> (r: bool)
        ensures
            r == (self@ is Script),
    {
        match self {
            FnOrigin::Script { .. } => true,
            FnOrigin::Native => false,
        }
    }
}

/// A function as a module records it: the raw descriptor that reflection
/// starts from.
///
/// `param_names`, where present, holds one entry per parameter, each either
/// `name` or `name:type`, and may hold one more entry behind them.
#[derive(Debug, PartialEq, Eq)]
pub struct FuncInfo {
    pub namespace: FnNamespace,
    pub access: FnAccess,
    pub name: String,
    /// The declared number of parameters.
    pub params: usize,
    pub param_names: Option<Vec<String>>,
    pub origin: FnOrigin,
}

/// The model of a [`FuncInfo`].
pub struct FuncInfoView {
    pub namespace: FnNamespace,
    pub access: FnAccess,
    pub name: Seq<char>,
    pub params: nat,
    pub param_names: Option<Seq<Seq<char>>>,
    pub origin: FnOriginView,
}

impl View for FuncInfo {
    type V = FuncInfoView;

    open spec fn view(&self) -> FuncInfoView {
        FuncInfoView {
            namespace: self.namespace,
            access: self.access,
            name: self.name@,
            params: self.params as nat,
            param_names: self.param_names.deep_view(),
            origin: self.origin@,
        }
    }
}

impl DeepView for FuncInfo {
    type V = FuncInfoView;

    open spec fn deep_view(&self) -> FuncInfoView {
        self.view()
    }
}

impl Clone for FuncInfo {
    fn clone(&self) -> (r: Self)
        ensures
            r@ == self@,
    {
        let param_names = match &self.param_names {
            Some(names) => {
                let copy = names.clone();
                Some(copy)
            },
            None => None,
        };
        FuncInfo {
            namespace: self.namespace,
            access: self.access,
            name: self.name.clone(),
            params: self.params,
            param_names,
            origin: self.origin.clone(),
        }
    }
}

/// A named collection of functions and nested sub-modules.
#[derive(Debug, PartialEq, Eq)]
pub struct Module {
    functions: Vec<FuncInfo>,
    sub_modules: Vec<(String, Module)>,
}

/// The model of a [`Module`]: its functions in the order they were added,
/// and its sub-modules with their names in the order they were added.
pub struct ModuleView {
    pub functions: Seq<FuncInfoView>,
    pub sub_modules: Seq<(Seq<char>, ModuleView)>,
}

impl View for Module {
    type V = ModuleView;

    closed spec fn view(&self) -> ModuleView {
        self.model()
    }
}

impl DeepView for Module {
    type V = ModuleView;

    open spec fn deep_view(&self) -> ModuleView {
        self.view()
    }
}

impl Clone for Module {
    fn clone(&self) -> (r: Self)
        ensures
            r@ == self@,
        decreases self,
    {
        let functions = self.functions.clone();
        let mut sub_modules: Vec<(String, Module)> = Vec::new();
        let mut i: usize = 0;
        while i < self.sub_modules.len()
            invariant
                i <= self.sub_modules.len(),
                sub_modules.len() == i,
                forall|j: int|
                    0 <= j < i ==> sub_modules[j].0@ == self.sub_modules[j].0@ && sub_modules[j].1@
                        == self.sub_modules[j].1@,
            decreases self.sub_modules.len() - i,
        {
            let entry = &self.sub_modules[i];
            sub_modules.push((entry.0.clone(), entry.1.clone()));
            i += 1;
        }
        let r = Module { functions, sub_modules };
        assert(r@.sub_modules =~= self@.sub_modules);
        r
    }
}

impl Module {
    /// The model, built from the functions and, recursively, the sub-modules.
    spec fn model(&self) -> ModuleView
        decreases self,
    {
        ModuleView {
            functions: self.functions.deep_view(),
            sub_modules: Seq::new(
                self.sub_modules@.len(),
                |i: int|
                    if 0 <= i < self.sub_modules@.len() {
                        (self.sub_modules@[i].0@, self.sub_modules@[i].1.model())
                    } else {
                        arbitrary()
                    },
            ),
        }
    }

    /// A module without functions or sub-modules.
    pub fn new() -> (r: Module)
        ensures
            r@.functions.len() == 0,
            r@.sub_modules.len() == 0,
    {
        Module { functions: Vec::new(), sub_modules: Vec::new() }
    }

    /// Adds a function behind those the module already holds.
    pub fn set_fn(&mut self, info: FuncInfo)
        ensures
            final(self)@.functions == old(self)@.functions.push(info@),
            final(self)@.sub_modules == old(self)@.sub_modules,
    {
        self.functions.push(info);
    }

    /// Adds a sub-module under `name`, behind those the module already holds.
    pub fn set_sub_module(&mut self, name: &str, sub_module: Module)
        ensures
            final(self)@.functions == old(self)@.functions,
            final(self)@.sub_modules == old(self)@.sub_modules.push((name@, sub_module@)),
    {
        self.sub_modules.push((name.to_owned(), sub_module));
    }

    /// The functions of this module, in the order they were added.
    pub fn iter_fn(&self) -> (r: &Vec<FuncInfo>)
        ensures
            r.deep_view() == self@.functions,
    {
        &self.functions
    }

    /// The sub-modules of this module with their names, in the order they
    /// were added.
    pub fn iter_sub_modules(&self) -> (r: &Vec<(String, Module)>)
        ensures
            r.deep_view() == self@.sub_modules,
    {
        &self.sub_modules
    }
}

} // verus!
