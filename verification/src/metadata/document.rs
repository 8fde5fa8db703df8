//! The document in which a description leaves the library: a tree of
//! texts, numbers, lists and objects with named fields, ready to be
//! encoded.
//!
//! A field that would hold nothing is left out of its object.

use crate::metadata::function::{FnMetadata, FnMetadataView, FnParam, FnParamView};
use crate::metadata::tree::{ModuleMetadata, ModuleMetadataView};
use vstd::prelude::*;

verus! {

/// A value of a document.
#[derive(Debug, PartialEq, Eq)]
pub enum Document {
    Text(String),
    Number(usize),
    /// Values in a fixed order.
    List(Vec<Document>),
    /// Named fields in a fixed order.
    Object(Vec<(String, Document)>),
}

/// The model of a [`Document`].
pub enum DocumentView {
    Text(Seq<char>),
    Number(nat),
    List(Seq<DocumentView>),
    Object(Seq<(Seq<char>, DocumentView)>),
}

impl View for Document {
    type V = DocumentView;

    open spec fn view(&self) -> DocumentView {
        self.model()
    }
}

impl DeepView for Document {
    type V = DocumentView;

    open spec fn deep_view(&self) -> DocumentView {
        self.view()
    }
}

impl Document {
    /// The model, built from the values that this one holds.
    pub open spec fn model(&self) -> DocumentView
        decreases self,
    {
        match self {
            Document::Text(text) => DocumentView::Text(text@),
            Document::Number(n) => DocumentView::Number(*n as nat),
            Document::List(items) => DocumentView::List(
                Seq::new(
                    items@.len(),
                    |i: int|
                        if 0 <= i < items@.len() {
                            items@[i].model()
                        } else {
                            arbitrary()
                        },
                ),
            ),
            Document::Object(fields) => DocumentView::Object(
                Seq::new(
                    fields@.len(),
                    |i: int|
                        if 0 <= i < fields@.len() {
                            (fields@[i].0@, fields@[i].1.model())
                        } else {
                            arbitrary()
                        },
                ),
            ),
        }
    }
}

/// The list of the texts `lines`.
pub open spec fn text_list(lines: Seq<Seq<char>>) -> DocumentView {
    DocumentView::List(Seq::new(lines.len(), |i: int| DocumentView::Text(lines[i])))
}

/// The object for a parameter: `name`, and `type` where there is one.
pub open spec fn param_document(param: FnParamView) -> DocumentView {
    DocumentView::Object(
        seq![("name"@, DocumentView::Text(param.name))] + (match param.typ {
            Some(typ) => seq![("type"@, DocumentView::Text(typ))],
            None => Seq::empty(),
        }),
    )
}

/// The list of the objects for `params`.
pub open spec fn param_list(params: Seq<FnParamView>) -> DocumentView {
    DocumentView::List(Seq::new(params.len(), |i: int| param_document(params[i])))
}

/// The object for a function: `namespace`, `access`, `name`, `type` and
/// `numParams`; then `params` if there is a parameter, `returnType` if
/// there is a return type, `docComments` if there are documentation lines,
/// be it none of them.
pub open spec fn function_document(function: FnMetadataView) -> DocumentView {
    DocumentView::Object(
        seq![
            ("namespace"@, DocumentView::Text(function.namespace.spelling())),
            ("access"@, DocumentView::Text(function.access.spelling())),
            ("name"@, DocumentView::Text(function.name)),
            ("type"@, DocumentView::Text(function.typ.spelling())),
            ("numParams"@, DocumentView::Number(function.num_params)),
        ] + (if function.params.len() > 0 {
            seq![("params"@, param_list(function.params))]
        } else {
            Seq::empty()
        }) + (match function.return_type {
            Some(typ) => seq![("returnType"@, DocumentView::Text(typ))],
            None => Seq::empty(),
        }) + (match function.doc_comments {
            Some(lines) => seq![("docComments"@, text_list(lines))],
            None => Seq::empty(),
        }),
    )
}

/// The list of the objects for `functions`.
pub open spec fn function_list(functions: Seq<FnMetadataView>) -> DocumentView {
    DocumentView::List(Seq::new(functions.len(), |i: int| function_document(functions[i])))
}

/// The object for a module: `modules`, an object with one field for each
/// sub-module, named as the sub-module and in their order, if there is a
/// sub-module; then `functions`, the list of its functions, if there is a
/// function.
pub open spec fn module_document(node: ModuleMetadataView) -> DocumentView
    decreases node,
{
    DocumentView::Object(
        (if node.modules.len() > 0 {
            seq![
                (
                    "modules"@,
                    DocumentView::Object(
                        Seq::new(
                            node.modules.len(),
                            |i: int|
                                if 0 <= i < node.modules.len() {
                                    (node.modules[i].0, module_document(node.modules[i].1))
                                } else {
                                    arbitrary()
                                },
                        ),
                    ),
                ),
            ]
        } else {
            Seq::empty()
        }) + (if node.functions.len() > 0 {
            seq![("functions"@, function_list(node.functions))]
        } else {
            Seq::empty()
        }),
    )
}

/// A field `name` that holds `text`.
fn text_field(name: &str, text: &str) -> (r: (String, Document))
    ensures
        r.deep_view() == (name@, DocumentView::Text(text@)),
{
    (name.to_owned(), Document::Text(text.to_owned()))
}

/// The list of the texts `lines`.
fn list_of_texts(lines: &Vec<String>) -> (r: Document)
    ensures
        r@ == text_list(lines.deep_view()),
{
    let mut items: Vec<Document> = Vec::new();
    let mut i: usize = 0;
    while i < lines.len()
        invariant
            i <= lines.len(),
            items.len() == i,
            forall|j: int| 0 <= j < i ==> (#[trigger] items[j])@ == DocumentView::Text(lines[j]@),
        decreases lines.len() - i,
    {
        items.push(Document::Text(lines[i].clone()));
        i += 1;
    }
    let r = Document::List(items);
    assert(r@->List_0 =~= text_list(lines.deep_view())->List_0);
    r
}

impl FnParam {
    /// The object for this parameter: see [`param_document`].
    pub fn to_document(&self) -> (r: Document)
        ensures
            r@ == param_document(self@),
    {
        let mut fields: Vec<(String, Document)> = Vec::new();
        fields.push(text_field("name", self.name.as_str()));
        if let Some(typ) = &self.typ {
            fields.push(text_field("type", typ.as_str()));
        }
        let r = Document::Object(fields);
        assert(r@->Object_0 =~= param_document(self@)->Object_0);
        r
    }
}

impl FnMetadata {
    /// The object for this function: see [`function_document`].
    pub fn to_document(&self) -> (r: Document)
        ensures
            r@ == function_document(self@),
    {
        let mut fields: Vec<(String, Document)> = Vec::new();
        fields.push(text_field("namespace", self.namespace.as_str()));
        fields.push(text_field("access", self.access.as_str()));
        fields.push(text_field("name", self.name.as_str()));
        fields.push(text_field("type", self.typ.as_str()));
        fields.push(("numParams".to_owned(), Document::Number(self.num_params)));
        let ghost fixed = seq![
            ("namespace"@, DocumentView::Text(self@.namespace.spelling())),
            ("access"@, DocumentView::Text(self@.access.spelling())),
            ("name"@, DocumentView::Text(self@.name)),
            ("type"@, DocumentView::Text(self@.typ.spelling())),
            ("numParams"@, DocumentView::Number(self@.num_params)),
        ];
        let ghost params_part = if self@.params.len() > 0 {
            seq![("params"@, param_list(self@.params))]
        } else {
            Seq::empty()
        };
        if self.params.len() > 0 {
            let mut items: Vec<Document> = Vec::new();
            let mut i: usize = 0;
            while i < self.params.len()
                invariant
                    i <= self.params.len(),
                    items.len() == i,
                    forall|j: int|
                        0 <= j < i ==> (#[trigger] items[j])@ == param_document(self.params[j]@),
                decreases self.params.len() - i,
            {
                items.push(self.params[i].to_document());
                i += 1;
            }
            let list = Document::List(items);
            assert(list@->List_0 =~= param_list(self@.params)->List_0);
            fields.push(("params".to_owned(), list));
        }
        let ghost return_part = match self@.return_type {
            Some(typ) => seq![("returnType"@, DocumentView::Text(typ))],
            None => Seq::empty(),
        };
        if let Some(typ) = &self.return_type {
            fields.push(text_field("returnType", typ.as_str()));
        }
        let ghost doc_part = match self@.doc_comments {
            Some(lines) => seq![("docComments"@, text_list(lines))],
            None => Seq::empty(),
        };
        if let Some(lines) = &self.doc_comments {
            fields.push(("docComments".to_owned(), list_of_texts(lines)));
        }
        assert(fields.deep_view() =~= fixed + params_part + return_part + doc_part);
        let r = Document::Object(fields);
        assert(r@->Object_0 =~= function_document(self@)->Object_0);
        r
    }
}

impl ModuleMetadata {
    /// The object for this module: see [`module_document`].
    pub fn to_document(&self) -> (r: Document)
        ensures
            r@ == module_document(self@),
        decreases self,
    {
        let mut fields: Vec<(String, Document)> = Vec::new();
        if self.modules.len() > 0 {
            let mut named: Vec<(String, Document)> = Vec::new();
            let mut i: usize = 0;
            while i < self.modules.len()
                invariant
                    i <= self.modules.len(),
                    named.len() == i,
                    forall|j: int|
                        0 <= j < i ==> (#[trigger] named[j]).deep_view() == (
                            self.modules[j].0@,
                            module_document(self.modules[j].1@),
                        ),
                decreases self.modules.len() - i,
            {
                let entry = &self.modules[i];
                named.push((entry.0.clone(), entry.1.to_document()));
                i += 1;
            }
            let object = Document::Object(named);
            assert(object@->Object_0 =~= module_document(self@)->Object_0[0].1->Object_0);
            fields.push(("modules".to_owned(), object));
        }
        if self.functions.len() > 0 {
            let mut items: Vec<Document> = Vec::new();
            let mut i: usize = 0;
            while i < self.functions.len()
                invariant
                    i <= self.functions.len(),
                    items.len() == i,
                    forall|j: int|
                        0 <= j < i ==> (#[trigger] items[j])@ == function_document(
                            self.functions[j]@,
                        ),
                decreases self.functions.len() - i,
            {
                items.push(self.functions[i].to_document());
                i += 1;
            }
            let list = Document::List(items);
            assert(list@->List_0 =~= function_list(self@.functions)->List_0);
            fields.push(("functions".to_owned(), list));
        }
        let r = Document::Object(fields);
        assert(r@->Object_0 =~= module_document(self@)->Object_0);
        r
    }
}

} // verus!
