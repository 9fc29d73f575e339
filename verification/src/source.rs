//! Source texts handed to the compiler, and the text units it produces.

use vstd::prelude::*;

use crate::errors::TranspileError;

verus! {

/// One source text: its content and, when known, where it came from.
#[derive(Debug, Clone)]
pub struct Source {
    pub origin: Option<String>,
    pub content: String,
}

impl Source {
    /// A source with content only, as used for snippets and seeds.
    pub fn from_string(content: String) -> (r: Source)
        ensures
            r.origin is None,
            r.content@ == content@,
    {
        Source { origin: None, content }
    }

    /// The source text.
    pub fn content(&self) -> (r: &str)
        ensures
            r@ == self.content@,
    {
        self.content.as_str()
    }

    /// Where the source came from, when known.
    pub fn origin(&self) -> (r: &Option<String>)
        ensures
            r == &self.origin,
    {
        &self.origin
    }
}

/// One emitted text unit: the file name it is destined for and its
/// content. Consumers decide actual file placement.
#[derive(Debug, Clone, PartialEq, Eq)]
pub struct TranspileOutput {
    pub file_name: String,
    pub content: String,
}

/// The outcome of one compiler run over a set of sources.
#[derive(Debug)]
pub struct Transpilation {
    pub sources: Vec<Source>,
    pub transpiled: Result<String, TranspileError>,
}

/// A run that produced target text.
pub struct SuccessfulTranspilation {
    pub sources: Vec<Source>,
    pub transpiled: String,
}

/// A run that stopped at a fault.
pub struct FailedTranspilation {
    pub sources: Vec<Source>,
    pub errors: TranspileError,
}

impl Transpilation {
    /// Splits the outcome into the successful or the failed shape,
    /// carrying the sources along unchanged.
    pub fn into_result(self) -> (r: Result<SuccessfulTranspilation, FailedTranspilation>)
        ensures
            match r {
                Ok(s) => self.transpiled matches Ok(t) && s.transpiled == t && s.sources
                    == self.sources,
                Err(f) => self.transpiled matches Err(e) && f.errors == e && f.sources
                    == self.sources,
            },
    {
        match self.transpiled {
            Ok(transpiled) => Ok(
                SuccessfulTranspilation { sources: self.sources, transpiled },
            ),
            Err(errors) => Err(FailedTranspilation { sources: self.sources, errors }),
        }
    }
}

/// The faults collected for one source.
pub struct TranspileErrors {
    pub source: Source,
    pub errors: Vec<TranspileError>,
}

impl TranspileErrors {
    /// Whether no fault was collected.
    pub fn is_empty(&self) -> (r: bool)
        ensures
            r == (self.errors@.len() == 0),
    {
        self.errors.len() == 0
    }
}

} // verus!
