//! What the refactor dialog hands on: the parameters of an operation, from
//! where it was asked for and what was typed.

use crate::refactoring::{Position, Range, RefactorOperation};
use vstd::prelude::*;

verus! {

/// Where a refactoring was asked for: the file, the cursor and the
/// selection.
#[derive(Debug, Clone)]
pub struct RefactorContext {
    pub file_path: String,
    pub position: Position,
    pub selection: Option<Range>,
}

/// The parameters of a refactoring.
#[derive(Debug, Clone)]
pub enum RefactorParams {
    Rename { new_name: String },
    ExtractMethod { method_name: String, range: Range },
    InlineVariable,
    OptimizeImports,
    MoveSymbol { target_file: String },
    ChangeSignature { new_signature: String },
    Simple,
}

/// The parameters the dialog applies: the typed text as the new name, the
/// method name (over the selection, or the cursor when nothing is
/// selected) or the new signature; nothing more for other operations.
pub fn refactor_params(operation: RefactorOperation, context: &RefactorContext, input: String) -> (r: RefactorParams)
    ensures
        operation == RefactorOperation::Rename ==> (r matches RefactorParams::Rename { new_name } && new_name@ == input@),
        operation == RefactorOperation::ExtractMethod ==> (r matches RefactorParams::ExtractMethod { method_name, range }
            && method_name@ == input@ && range == match context.selection {
                Some(s) => s,
                None => Range { start: context.position, end: context.position },
            }),
        operation == RefactorOperation::ChangeSignature ==> (r matches RefactorParams::ChangeSignature { new_signature }
            && new_signature@ == input@),
        operation != RefactorOperation::Rename && operation != RefactorOperation::ExtractMethod
            && operation != RefactorOperation::ChangeSignature ==> r is Simple,
{
    match operation {
        RefactorOperation::Rename => RefactorParams::Rename { new_name: input },
        RefactorOperation::ExtractMethod => {
            let range = match context.selection {
                Some(s) => s,
                None => Range { start: context.position, end: context.position },
            };
            RefactorParams::ExtractMethod { method_name: input, range }
        },
        RefactorOperation::ChangeSignature => RefactorParams::ChangeSignature { new_signature: input },
        _ => RefactorParams::Simple,
    }
}

} // verus!
