//! The normalised description of one function, and how it is made from
//! what a module or a script records.

use crate::ast::{ScriptFnMetadata, ScriptFnMetadataView};
use crate::metadata::tags::{FnAccess, FnNamespace, FnType};
use crate::module::{FnOrigin, FnOriginView, FuncInfo, FuncInfoView};
use crate::text::{chars_of, find_first, first_occurrence, trim_bounds, trimmed};
use vstd::prelude::*;
use vstd::string::StrSliceExecFns;

verus! {

/// A parameter of a function: its name and, where one is declared, its
/// type.
#[derive(Debug, PartialEq, Eq, Hash)]
pub struct FnParam {
    pub name: String,
    pub typ: Option<String>,
}

/// The model of a [`FnParam`].
pub struct FnParamView {
    pub name: Seq<char>,
    pub typ: Option<Seq<char>>,
}

impl View for FnParam {
    type V = FnParamView;

    open spec fn view(&self) -> FnParamView {
        FnParamView { name: self.name@, typ: self.typ.deep_view() }
    }
}

impl DeepView for FnParam {
    type V = FnParamView;

    open spec fn deep_view(&self) -> FnParamView {
        self.view()
    }
}

impl Clone for FnParam {
    fn clone(&self) -> (r: Self)
        ensures
            r@ == self@,
    {
        let typ = match &self.typ {
            Some(typ) => Some(typ.clone()),
            None => None,
        };
        FnParam { name: self.name.clone(), typ }
    }
}

/// The normalised description of a function.
#[derive(Debug, PartialEq, Eq, Hash)]
pub struct FnMetadata {
    pub namespace: FnNamespace,
    pub access: FnAccess,
    pub name: String,
    pub typ: FnType,
    pub num_params: usize,
    pub params: Vec<FnParam>,
    pub return_type: Option<String>,
    pub doc_comments: Option<Vec<String>>,
}

/// The model of a [`FnMetadata`].
pub struct FnMetadataView {
    pub namespace: FnNamespace,
    pub access: FnAccess,
    pub name: Seq<char>,
    pub typ: FnType,
    pub num_params: nat,
    pub params: Seq<FnParamView>,
    pub return_type: Option<Seq<char>>,
    pub doc_comments: Option<Seq<Seq<char>>>,
}

impl View for FnMetadata {
    type V = FnMetadataView;

    open spec fn view(&self) -> FnMetadataView {
        FnMetadataView {
            namespace: self.namespace,
            access: self.access,
            name: self.name@,
            typ: self.typ,
            num_params: self.num_params as nat,
            params: self.params.deep_view(),
            return_type: self.return_type.deep_view(),
            doc_comments: self.doc_comments.deep_view(),
        }
    }
}

impl DeepView for FnMetadata {
    type V = FnMetadataView;

    open spec fn deep_view(&self) -> FnMetadataView {
        self.view()
    }
}

impl Clone for FnMetadata {
    fn clone(&self) -> (r: Self)
        ensures
            r@ == self@,
    {
        let params = self.params.clone();
        let return_type = match &self.return_type {
            Some(typ) => Some(typ.clone()),
            None => None,
        };
        let doc_comments = match &self.doc_comments {
            Some(lines) => {
                let copy = lines.clone();
                Some(copy)
            },
            None => None,
        };
        FnMetadata {
            namespace: self.namespace,
            access: self.access,
            name: self.name.clone(),
            typ: self.typ,
            num_params: self.num_params,
            params,
            return_type,
            doc_comments,
        }
    }
}

/// The name that stands for a parameter without one.
pub open spec fn placeholder_name() -> Seq<char> {
    "_"@
}

/// The type that a function returns when it declares none.
pub open spec fn unit_type() -> Seq<char> {
    "()"@
}

/// The type of what a script passes and returns: any value.
pub open spec fn dynamic_type() -> Seq<char> {
    "Dynamic"@
}

/// `name`, or the placeholder where `name` is empty.
pub open spec fn name_or_placeholder(name: Seq<char>) -> Seq<char> {
    if name.len() == 0 {
        placeholder_name()
    } else {
        name
    }
}

/// The parameter that `raw` declares.
///
/// `raw` is split at its first colon.  What stands before it, trimmed, is
/// the name, or the placeholder if nothing is left.  What stands behind it,
/// trimmed, is the type; without a colon there is no type.
pub open spec fn parse_param(raw: Seq<char>) -> FnParamView {
    match first_occurrence(raw, ':') {
        Some(i) => FnParamView {
            name: name_or_placeholder(trimmed(raw.take(i))),
            typ: Some(trimmed(raw.skip(i + 1))),
        },
        None => FnParamView { name: name_or_placeholder(trimmed(raw)), typ: None },
    }
}

/// The parameters that a function with `count` declared parameters and the
/// raw entries `names` has: one for each of the first `count` entries, or
/// for each entry if there are fewer.
pub open spec fn parse_params(names: Seq<Seq<char>>, count: nat) -> Seq<FnParamView> {
    Seq::new(if count <= names.len() { count } else { names.len() }, |i: int| parse_param(names[i]))
}

/// The description of a function that a module records.
///
/// The tags are carried over and the number of parameters is the declared
/// one.  With raw entries, the parameters are parsed from the first of them
/// and the return type is the last entry as it stands, or the unit type if
/// there is no entry; without raw entries there are no parameters and no
/// return type.  The documentation lines are those of a script function; a
/// native function has none.
pub open spec fn normalize(info: FuncInfoView) -> FnMetadataView {
    FnMetadataView {
        namespace: FnNamespace::counterpart(info.namespace),
        access: FnAccess::counterpart(info.access),
        name: info.name,
        typ: match info.origin {
            FnOriginView::Script { .. } => FnType::Script,
            FnOriginView::Native => FnType::Native,
        },
        num_params: info.params,
        params: match info.param_names {
            Some(names) => parse_params(names, info.params),
            None => Seq::empty(),
        },
        return_type: match info.param_names {
            Some(names) => Some(
                if names.len() > 0 {
                    names.last()
                } else {
                    unit_type()
                },
            ),
            None => None,
        },
        doc_comments: match info.origin {
            FnOriginView::Script { comments } => Some(comments),
            FnOriginView::Native => None,
        },
    }
}

/// The description of a function that a compiled script defines.
///
/// Such a function is global and a script function.  Its parameters carry
/// their names as they stand and the dynamic type, which is its return type
/// too.  Documentation lines are there only if the function has some.
pub open spec fn normalize_script(f: ScriptFnMetadataView) -> FnMetadataView {
    FnMetadataView {
        namespace: FnNamespace::Global,
        access: FnAccess::counterpart(f.access),
        name: f.name,
        typ: FnType::Script,
        num_params: f.params.len(),
        params: Seq::new(
            f.params.len(),
            |i: int| FnParamView { name: f.params[i], typ: Some(dynamic_type()) },
        ),
        return_type: Some(dynamic_type()),
        doc_comments: if f.comments.len() == 0 {
            None
        } else {
            Some(f.comments)
        },
    }
}

/// With raw entries but none of them, a function returns the unit type;
/// without raw entries it has no return type.
pub proof fn lemma_return_type_default(info: FuncInfoView)
    ensures
        info.param_names == Some(Seq::<Seq<char>>::empty()) ==> normalize(info).return_type == Some(
            unit_type(),
        ),
        info.param_names is None ==> normalize(info).return_type is None,
{
}

impl FnParam {
    /// The parameter that `raw` declares, written `name` or `name:type`.
    pub fn parse(raw: &str) -> (r: FnParam)
        ensures
            r@ == parse_param(raw@),
    {
        let chars = chars_of(raw);
        let n = chars.len();
        let (name_from, name_to, typ) = match find_first(&chars, ':') {
            Some(i) => {
                let (a, b) = trim_bounds(&chars, 0, i);
                let (c, d) = trim_bounds(&chars, i + 1, n);
                let typ = raw.substring_char(c, d).to_owned();
                (a, b, Some(typ))
            },
            None => {
                let (a, b) = trim_bounds(&chars, 0, n);
                assert(raw@.subrange(0, n as int) =~= raw@);
                (a, b, None)
            },
        };
        let name = if name_from == name_to {
            "_".to_owned()
        } else {
            raw.substring_char(name_from, name_to).to_owned()
        };
        FnParam { name, typ }
    }
}

impl FnMetadata {
    /// The description of a function that a module records.
    pub fn from_func_info(info: &FuncInfo) -> (r: FnMetadata)
        ensures
            r@ == normalize(info@),
    {
        let params = match &info.param_names {
            Some(names) => {
                let count = if info.params <= names.len() {
                    info.params
                } else {
                    names.len()
                };
                let ghost expected = parse_params(names.deep_view(), info.params as nat);
                let mut params: Vec<FnParam> = Vec::new();
                let mut i: usize = 0;
                while i < count
                    invariant
                        i <= count <= names.len(),
                        expected.len() == count,
                        expected == parse_params(names.deep_view(), info.params as nat),
                        params.len() == i,
                        params.deep_view() == expected.take(i as int),
                    decreases count - i,
                {
                    params.push(FnParam::parse(names[i].as_str()));
                    i += 1;
                }
                params
            },
            None => Vec::new(),
        };
        let return_type = match &info.param_names {
            Some(names) => if names.len() > 0 {
                Some(names[names.len() - 1].clone())
            } else {
                Some("()".to_owned())
            },
            None => None,
        };
        let (typ, doc_comments) = match &info.origin {
            FnOrigin::Script { comments } => {
                let copy = comments.clone();
                (FnType::Script, Some(copy))
            },
            FnOrigin::Native => (FnType::Native, None),
        };
        let r = FnMetadata {
            namespace: FnNamespace::from(info.namespace),
            access: FnAccess::from(info.access),
            name: info.name.clone(),
            typ,
            num_params: info.params,
            params,
            return_type,
            doc_comments,
        };
        assert(r@.params =~= normalize(info@).params);
        r
    }

    /// The description of a function that a compiled script defines.
    pub fn from_script_fn(f: &ScriptFnMetadata) -> (r: FnMetadata)
        ensures
            r@ == normalize_script(f@),
    {
        let ghost expected = normalize_script(f@).params;
        let mut params: Vec<FnParam> = Vec::new();
        let mut i: usize = 0;
        while i < f.params.len()
            invariant
                i <= f.params.len(),
                expected == normalize_script(f@).params,
                params.len() == i,
                params.deep_view() == expected.take(i as int),
            decreases f.params.len() - i,
        {
            params.push(FnParam { name: f.params[i].clone(), typ: Some("Dynamic".to_owned()) });
            i += 1;
        }
        assert(expected.take(i as int) =~= expected);
        let doc_comments = if f.comments.len() == 0 {
            None
        } else {
            let copy = f.comments.clone();
            Some(copy)
        };
        FnMetadata {
            namespace: FnNamespace::Global,
            access: FnAccess::from(f.access),
            name: f.name.clone(),
            typ: FnType::Script,
            num_params: f.params.len(),
            params,
            return_type: Some("Dynamic".to_owned()),
            doc_comments,
        }
    }
}

} // verus!
