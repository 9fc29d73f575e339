//! A source-to-source compiler for a small statically-typed DSL.
//!
//! The pipeline runs in three stages over in-memory values: a recursive
//! descent parser turns a position-tagged token stream into declarations,
//! a resolver merges translation units into one symbol universe, and a
//! code generator walks the resolved tree and emits target-language text.
//! Every stage is a synchronous, terminating computation whose behaviour
//! is stated in its contract.

pub mod ast;
pub mod errors;
pub mod frontmatter;
pub mod ident;
pub mod lexer;
pub mod messages;
pub mod parse;
pub mod resolver;
pub mod source;
pub mod transpile;
pub mod type_item;

pub use ast::{
    AliasTypeDecl, Assignment, Ast, Async, Block, Body, Const, ConstructorCall,
    ConstructorCallArg, DeclModifier, Declaration, Expression, FnDecl, FnSignature, FunctionCall,
    FunctionCallArg, MainDecl, MemberFieldAccess, MemberFunctionCall, Modifiers, NumberLiteral,
    Param, ParamList, ParamType, ReceiverType, ReturnType, RootItem, Statement, StringLiteral,
    StructTypeDecl, StructTypeMember, TaskDecl, TestDecl, TupleTypeDecl, TupleTypeMember,
    TypeDecl, Visibility,
};
pub use errors::{GenerationError, LookupError, TranspileError};
pub use frontmatter::expected_result;
pub use ident::{Ident, TypeIdent};
pub use lexer::{tokenize, Span, SpannedToken, Token, TokenView};
pub use messages::{AsParserMessage, ParserMessage, Severity, SourceAnnotation, TokenError};
pub use parse::{
    parse_fn, parse_main, parse_source, parse_struct_type_members, parse_test, parse_type,
    parse_type_alias, parse_type_element, parse_tuple_type_members, parse_until_matching,
    MatchingToken, TopVerdict,
};
pub use resolver::{LookupContext, SegmentedAst, TypeEntry};
pub use source::{
    FailedTranspilation, Source, SuccessfulTranspilation, Transpilation, TranspileErrors,
    TranspileOutput,
};
pub use transpile::{
    galvan_module, transpile, transpile_asts, transpile_params, transpile_segmented,
    transpile_sources,
};
pub use type_item::{
    ArrayTypeItem, BasicTypeItem, DictionaryTypeItem, DowncastResultTypeItem, ErrorVariant,
    OptionalElement, OptionalTypeItem, OrderedDictionaryTypeItem, RefTypeItem, ResultTypeItem,
    SetTypeItem, SuccessVariant, TupleTypeItem, TypeElement,
};
