//! The tags of a function description and how each is spelled in a
//! document.

use crate::text::same_text;
use vstd::prelude::*;

verus! {

/// Whether a function is defined in a script or registered by the host.
#[derive(Clone, Copy, Debug, PartialEq, Eq, Hash, Structural)]
pub enum FnType {
    Script,
    Native,
}

/// Where a function is visible from.
#[derive(Clone, Copy, Debug, PartialEq, Eq, Hash, Structural)]
pub enum FnNamespace {
    Global,
    Internal,
}

/// Whether a function is exported by its module.
#[derive(Clone, Copy, Debug, PartialEq, Eq, Hash, Structural)]
pub enum FnAccess {
    Public,
    Private,
}

impl FnNamespace {
    /// The tag that stands for a module's tag `value`.
    pub open spec fn counterpart(value: crate::module::FnNamespace) -> FnNamespace {
        match value {
            crate::module::FnNamespace::Global => FnNamespace::Global,
            crate::module::FnNamespace::Internal => FnNamespace::Internal,
        }
    }

    /// The tag that stands for a module's tag `value`.
    pub fn from(value: crate::module::FnNamespace) -> (r: FnNamespace)
        ensures
            r == FnNamespace::counterpart(value),
    {
        match value {
            crate::module::FnNamespace::Global => FnNamespace::Global,
            crate::module::FnNamespace::Internal => FnNamespace::Internal,
        }
    }
}

impl FnAccess {
    /// The tag that stands for a module's tag `value`.
    pub open spec fn counterpart(value: crate::module::FnAccess) -> FnAccess {
        match value {
            crate::module::FnAccess::Public => FnAccess::Public,
            crate::module::FnAccess::Private => FnAccess::Private,
        }
    }

    /// The tag that stands for a module's tag `value`.
    pub fn from(value: crate::module::FnAccess) -> (r: FnAccess)
        ensures
            r == FnAccess::counterpart(value),
    {
        match value {
            crate::module::FnAccess::Public => FnAccess::Public,
            crate::module::FnAccess::Private => FnAccess::Private,
        }
    }
}

impl FnType {
    /// How the tag is spelled in a document.
    pub open spec fn spelling(self) -> Seq<char> {
        match self {
            FnType::Script => "script"@,
            FnType::Native => "native"@,
        }
    }

    /// The tag that `s` spells, if it spells one.
    pub open spec fn spelled(s: Seq<char>) -> Option<FnType> {
        if s == "script"@ {
            Some(FnType::Script)
        } else if s == "native"@ {
            Some(FnType::Native)
        } else {
            None
        }
    }

    /// How the tag is spelled in a document.
    pub fn as_str(&self) -> (r: &'static str)
        ensures
            r@ == self.spelling(),
    {
        match self {
            FnType::Script => "script",
            FnType::Native => "native",
        }
    }

    /// The tag that `s` spells, if it spells one.
    pub fn from_spelling(s: &str) -> (r: Option<FnType>)
        ensures
            r == FnType::spelled(s@),
    {
        if same_text(s, "script") {
            Some(FnType::Script)
        } else if same_text(s, "native") {
            Some(FnType::Native)
        } else {
            None
        }
    }

    /// A tag is read back from its own spelling.
    pub proof fn lemma_spelling_round_trip(self)
        ensures
            FnType::spelled(self.spelling()) == Some(self),
    {
        reveal_strlit("script");
        reveal_strlit("native");
        assert("native"@[0] != "script"@[0]);
    }
}

impl FnNamespace {
    /// How the tag is spelled in a document.
    pub open spec fn spelling(self) -> Seq<char> {
        match self {
            FnNamespace::Global => "global"@,
            FnNamespace::Internal => "internal"@,
        }
    }

    /// The tag that `s` spells, if it spells one.
    pub open spec fn spelled(s: Seq<char>) -> Option<FnNamespace> {
        if s == "global"@ {
            Some(FnNamespace::Global)
        } else if s == "internal"@ {
            Some(FnNamespace::Internal)
        } else {
            None
        }
    }

    /// How the tag is spelled in a document.
    pub fn as_str(&self) -> (r: &'static str)
        ensures
            r@ == self.spelling(),
    {
        match self {
            FnNamespace::Global => "global",
            FnNamespace::Internal => "internal",
        }
    }

    /// The tag that `s` spells, if it spells one.
    pub fn from_spelling(s: &str) -> (r: Option<FnNamespace>)
        ensures
            r == FnNamespace::spelled(s@),
    {
        if same_text(s, "global") {
            Some(FnNamespace::Global)
        } else if same_text(s, "internal") {
            Some(FnNamespace::Internal)
        } else {
            None
        }
    }

    /// A tag is read back from its own spelling.
    pub proof fn lemma_spelling_round_trip(self)
        ensures
            FnNamespace::spelled(self.spelling()) == Some(self),
    {
        reveal_strlit("global");
        reveal_strlit("internal");
        assert("internal"@[0] != "global"@[0]);
    }
}

impl FnAccess {
    /// How the tag is spelled in a document.
    pub open spec fn spelling(self) -> Seq<char> {
        match self {
            FnAccess::Public => "public"@,
            FnAccess::Private => "private"@,
        }
    }

    /// The tag that `s` spells, if it spells one.
    pub open spec fn spelled(s: Seq<char>) -> Option<FnAccess> {
        if s == "public"@ {
            Some(FnAccess::Public)
        } else if s == "private"@ {
            Some(FnAccess::Private)
        } else {
            None
        }
    }

    /// How the tag is spelled in a document.
    pub fn as_str(&self) -> (r: &'static str)
        ensures
            r@ == self.spelling(),
    {
        match self {
            FnAccess::Public => "public",
            FnAccess::Private => "private",
        }
    }

    /// The tag that `s` spells, if it spells one.
    pub fn from_spelling(s: &str) -> (r: Option<FnAccess>)
        ensures
            r == FnAccess::spelled(s@),
    {
        if same_text(s, "public") {
            Some(FnAccess::Public)
        } else if same_text(s, "private") {
            Some(FnAccess::Private)
        } else {
            None
        }
    }

    /// A tag is read back from its own spelling.
    pub proof fn lemma_spelling_round_trip(self)
        ensures
            FnAccess::spelled(self.spelling()) == Some(self),
    {
        reveal_strlit("public");
        reveal_strlit("private");
        assert("private"@[1] != "public"@[1]);
    }
}

} // verus!
