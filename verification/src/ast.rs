//! Compiled scripts, as far as reflection looks into them: the functions
//! that a script defines.

use crate::module::FnAccess;
use vstd::prelude::*;

verus! {

/// A function defined in a compiled script.
#[derive(Debug, PartialEq, Eq)]
pub struct ScriptFnMetadata {
    pub access: FnAccess,
    pub name: String,
    /// The parameter names, in order.
    pub params: Vec<String>,
    /// The documentation lines above the definition.
    pub comments: Vec<String>,
}

/// The model of a [`ScriptFnMetadata`].
pub struct ScriptFnMetadataView {
    pub access: FnAccess,
    pub name: Seq<char>,
    pub params: Seq<Seq<char>>,
    pub comments: Seq<Seq<char>>,
}

impl View for ScriptFnMetadata {
    type V = ScriptFnMetadataView;

    open spec fn view(&self) -> ScriptFnMetadataView {
        ScriptFnMetadataView {
            access: self.access,
            name: self.name@,
            params: self.params.deep_view(),
            comments: self.comments.deep_view(),
        }
    }
}

impl DeepView for ScriptFnMetadata {
    type V = ScriptFnMetadataView;

    open spec fn deep_view(&self) -> ScriptFnMetadataView {
        self.view()
    }
}

/// A compiled script.
#[derive(Debug, PartialEq, Eq)]
pub struct AST {
    functions: Vec<ScriptFnMetadata>,
}

impl View for AST {
    type V = Seq<ScriptFnMetadataView>;

    /// The functions that the script defines, in the order of definition.
    closed spec fn view(&self) -> Seq<ScriptFnMetadataView> {
        self.functions.deep_view()
    }
}

impl AST {
    /// A script that defines no function.
    pub fn new() -> (r: AST)
        ensures
            r@.len() == 0,
    {
        AST { functions: Vec::new() }
    }

    /// Adds a function definition behind those the script already holds.
    pub fn add_function(&mut self, function: ScriptFnMetadata)
        ensures
            final(self)@ == old(self)@.push(function@),
    {
        self.functions.push(function);
    }

    /// The functions that the script defines, in the order of definition.
    pub fn iter_functions(&self) -> (r: &Vec<ScriptFnMetadata>)
        ensures
            r.deep_view() == self@,
    {
        &self.functions
    }
}

} // verus!
