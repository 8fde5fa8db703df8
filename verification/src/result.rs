//! The errors that evaluation reports to its caller.

use crate::token::Position;
use vstd::prelude::*;

verus! {

/// An error of script evaluation.  Every variant is recoverable: it is
/// reported to the caller and never ends the process.
#[derive(Debug, PartialEq, Eq)]
pub enum EvalAltResult {
    /// An import names a path under which no module is to be found.  Holds
    /// the path and the position of the importing statement.
    ErrorModuleNotFound(String, Position),
}

/// The model of an [`EvalAltResult`].
pub enum EvalAltResultView {
    ErrorModuleNotFound(Seq<char>, Position),
}

impl View for EvalAltResult {
    type V = EvalAltResultView;

    open spec fn view(&self) -> EvalAltResultView {
        match self {
            EvalAltResult::ErrorModuleNotFound(path, pos) => EvalAltResultView::ErrorModuleNotFound(
                path@,
                *pos,
            ),
        }
    }
}

impl EvalAltResult {
    /// The position in the script that the error points at.
    pub fn position(&self) -> (r: Position)
        ensures
            self@ matches EvalAltResultView::ErrorModuleNotFound(_, pos) && r == pos,
    {
        match self {
            EvalAltResult::ErrorModuleNotFound(_, pos) => *pos,
        }
    }
}

} // verus!
