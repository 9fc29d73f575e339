//! The typed faults of the resolver and the code generator, and the
//! umbrella error of the whole pipeline.

use vstd::prelude::*;

use crate::ident::TypeIdent;
use crate::messages::TokenError;

verus! {

/// A fault found while building the symbol universe.
#[derive(Debug, PartialEq, Eq)]
pub enum LookupError {
    /// A type name was declared more than once across the merged units.
    DuplicateType(TypeIdent),
    /// A member function names a receiver type that no unit declares and
    /// that is not a built-in.
    UnresolvedReceiver(TypeIdent),
}

/// A fault found while emitting target text.
#[derive(Debug, Clone, Copy, PartialEq, Eq, Structural)]
pub enum GenerationError {
    /// A `let` ownership modifier is not allowed on a call argument.
    LetAsCallArgument,
    /// An ownership modifier was applied to an expression that is not a
    /// field or a variable.
    ModifierOnNonLValue,
    /// A function declared its own receiver as a shared handle; that
    /// must be expressed at the type-declaration level instead.
    SelfAsSharedHandle,
}

/// Any fault of the pipeline, tagged by the stage that found it.
#[derive(Debug)]
pub enum TranspileError {
    Parse(TokenError),
    Lookup(LookupError),
    Generation(GenerationError),
}

} // verus!
