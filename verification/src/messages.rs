//! Structured diagnostics. The core never renders terminal output
//! itself: it produces a structured message with byte ranges, and an
//! external collaborator does the formatting.

use vstd::prelude::*;

use crate::lexer::Span;
use crate::source::Source;

verus! {

/// How severe a diagnostic is.
#[derive(Debug, Clone, Copy, PartialEq, Eq, Structural)]
pub enum Severity {
    Error,
    Warning,
    Info,
    Note,
    Help,
}

/// One annotated byte range of the source text.
#[derive(Debug, Clone)]
pub struct SourceAnnotation {
    pub label: String,
    pub range: Span,
    pub annotation_type: Severity,
}

/// A structured diagnostic: the issue, an optional hint, the severity,
/// the source it refers to and the annotated ranges within it.
#[derive(Debug)]
pub struct ParserMessage {
    pub issue: String,
    pub hint: Option<String>,
    pub msg_type: Severity,
    pub src: Source,
    pub annotations: Vec<SourceAnnotation>,
}

/// A fault found while tokenising or parsing: a message, the byte range
/// of the offending text and a short annotation for that range.
#[derive(Debug)]
pub struct TokenError {
    pub msg: String,
    pub span: Span,
    pub annotation: String,
}

/// Conversion of a fault into a structured diagnostic for a given
/// source, for implementers that carry their own message data.
pub trait AsParserMessage {
    fn as_parser_message(&self, src: Source) -> ParserMessage;
}

impl TokenError {
    /// Builds the error-severity diagnostic for this fault: the message
    /// as the issue, no hint, and one annotation covering the span.
    pub fn to_parser_message(&self, src: Source) -> (r: ParserMessage)
        ensures
            r.issue@ == self.msg@,
            r.hint is None,
            r.msg_type is Error,
            r.src == src,
            r.annotations@.len() == 1,
            r.annotations@[0].label@ == self.annotation@,
            r.annotations@[0].range == self.span,
            r.annotations@[0].annotation_type is Error,
    {
        let mut annotations: Vec<SourceAnnotation> = Vec::new();
        annotations.push(
            SourceAnnotation {
                label: self.annotation.clone(),
                range: self.span,
                annotation_type: Severity::Error,
            },
        );
        ParserMessage {
            issue: self.msg.clone(),
            hint: None,
            msg_type: Severity::Error,
            src,
            annotations,
        }
    }
}

impl AsParserMessage for TokenError {
    fn as_parser_message(&self, src: Source) -> ParserMessage {
        self.to_parser_message(src)
    }
}

} // verus!
