use galvan::ast::{
    Assignment, Block, ConstructorCall, ConstructorCallArg, DeclModifier, Declaration,
    Expression, FunctionCall, FunctionCallArg, MemberFieldAccess, MemberFunctionCall,
    NumberLiteral, Param, Statement, StringLiteral, TypeDecl, Visibility,
};
use galvan::errors::{GenerationError, LookupError, TranspileError};
use galvan::ident::{Ident, TypeIdent};
use galvan::lexer::tokenize;
use galvan::parse::parse_source;
use galvan::resolver::{LookupContext, SegmentedAst};
use galvan::source::Source;
use galvan::transpile::{galvan_module, transpile, transpile_segmented};
use galvan::type_item::TypeElement;

fn plain(name: &str) -> TypeElement {
    TypeElement::plain(TypeIdent::new(name))
}

fn param(name: &str, ty: TypeElement, modifier: Option<DeclModifier>) -> Param {
    Param {
        identifier: Ident::new(name.to_owned()),
        param_type: ty,
        decl_modifier: modifier,
    }
}

fn ast_of(src: &str) -> galvan::ast::Ast {
    let tokens = tokenize(src).expect("tokenization failed");
    parse_source(&tokens).expect("parse failed")
}

#[test]
fn type_lowering_follows_the_table() {
    assert_eq!(plain("Point").transpile(), "Point");
    assert_eq!(
        TypeElement::array(plain("Int")).transpile(),
        "std::collections::Vec<Int>"
    );
    assert_eq!(
        TypeElement::set(plain("Int")).transpile(),
        "std::collections::HashSet<Int>"
    );
    assert_eq!(
        TypeElement::dict(plain("Int"), plain("Float")).transpile(),
        "std::collections::HashMap<Int, Float>"
    );
    assert_eq!(
        TypeElement::ordered_dict(plain("Int"), plain("Float")).transpile(),
        "indexmap::IndexMap<Int, Float>"
    );
    assert_eq!(
        TypeElement::tuple(vec![plain("Int"), plain("Float")]).transpile(),
        "(Int, Float)"
    );
}

#[test]
fn monadic_and_reference_lowering() {
    let tokens = tokenize("Int?").unwrap();
    let mut pos: usize = 0;
    let optional =
        galvan::parse::parse_type_element(&tokens, &mut pos, tokens.len()).unwrap();
    assert_eq!(optional.transpile(), "Option<Int>");

    let tokens = tokenize("Int!").unwrap();
    let mut pos: usize = 0;
    let bare = galvan::parse::parse_type_element(&tokens, &mut pos, tokens.len()).unwrap();
    assert_eq!(bare.transpile(), "anyhow::Result<Int>");

    let tokens = tokenize("Int!Float").unwrap();
    let mut pos: usize = 0;
    let with_error =
        galvan::parse::parse_type_element(&tokens, &mut pos, tokens.len()).unwrap();
    assert_eq!(with_error.transpile(), "Result<Int, Float>");

    let tokens = tokenize("&Int").unwrap();
    let mut pos: usize = 0;
    let reference =
        galvan::parse::parse_type_element(&tokens, &mut pos, tokens.len()).unwrap();
    assert_eq!(reference.transpile(), "std::sync::Arc<std::sync::Mutex<Int>>");
}

#[test]
fn ownership_lowering_is_exclusive() {
    let ctx = LookupContext::new();
    let mutable = param("point", plain("Point"), Some(DeclModifier::Mut))
        .transpile(&ctx)
        .unwrap();
    let borrowed = param("point", plain("Point"), None).transpile(&ctx).unwrap();
    assert_eq!(mutable, "point: &mut Point");
    assert_eq!(borrowed, "point: &Point");
    assert_ne!(mutable, borrowed);

    let let_form = param("point", plain("Point"), Some(DeclModifier::Let))
        .transpile(&ctx)
        .unwrap();
    assert_eq!(let_form, borrowed, "no modifier and let lower the same way");
}

#[test]
fn value_types_are_taken_by_value() {
    let ctx = LookupContext::new();
    assert_eq!(param("n", plain("Int"), None).transpile(&ctx).unwrap(), "n: Int");
    assert_eq!(
        param("n", plain("Int"), Some(DeclModifier::Mut)).transpile(&ctx).unwrap(),
        "n: &mut Int"
    );
    assert!(ctx.is_copy(&TypeIdent::new("Float")));
    assert!(!ctx.is_copy(&TypeIdent::new("Point")));
}

#[test]
fn receiver_lowering_and_shared_handle_rules() {
    let ctx = LookupContext::new();
    assert_eq!(param("self", plain("Circle"), None).transpile(&ctx).unwrap(), "&self");
    assert_eq!(
        param("self", plain("Circle"), Some(DeclModifier::Mut)).transpile(&ctx).unwrap(),
        "&mut self"
    );
    assert_eq!(
        param("self", plain("Circle"), Some(DeclModifier::Ref)).transpile(&ctx),
        Err(GenerationError::SelfAsSharedHandle)
    );
    assert_eq!(
        param("handle", plain("Circle"), Some(DeclModifier::Ref)).transpile(&ctx).unwrap(),
        "handle: std::sync::Arc<std::sync::Mutex<Circle>>"
    );
}

#[test]
fn builtin_calls_are_rewritten() {
    let call = |name: &str| FunctionCall {
        identifier: Ident::new(name.to_owned()),
        arguments: vec![FunctionCallArg {
            modifier: None,
            expression: Expression::Ident(Ident::new("msg".to_owned())),
        }],
    };
    assert_eq!(
        call("println").transpile().unwrap(),
        "println!(\"{}\", &(&msg).__borrow())"
    );
    assert_eq!(call("print").transpile().unwrap(), "print!(\"{}\", &(&msg).__borrow())");
    assert_eq!(
        call("debug").transpile().unwrap(),
        "println!(\"{:?}\", &(&msg).__borrow())"
    );
    assert_eq!(call("greet").transpile().unwrap(), "greet(&(&msg).__borrow())");
}

#[test]
fn call_argument_lowering_follows_the_modifiers() {
    let ident_arg = |modifier| FunctionCallArg {
        modifier,
        expression: Expression::Ident(Ident::new("x".to_owned())),
    };
    assert_eq!(ident_arg(None).transpile().unwrap(), "&(&x).__borrow()");
    assert_eq!(ident_arg(Some(DeclModifier::Mut)).transpile().unwrap(), "&mut x");
    assert_eq!(
        ident_arg(Some(DeclModifier::Ref)).transpile().unwrap(),
        "::std::sync::Arc::clone(&x)"
    );
    assert_eq!(
        ident_arg(Some(DeclModifier::Let)).transpile(),
        Err(GenerationError::LetAsCallArgument)
    );

    let field_arg = FunctionCallArg {
        modifier: Some(DeclModifier::Mut),
        expression: Expression::MemberFieldAccess(MemberFieldAccess {
            receiver: Box::new(Expression::Ident(Ident::new("p".to_owned()))),
            identifier: Ident::new("x".to_owned()),
        }),
    };
    assert_eq!(field_arg.transpile().unwrap(), "&mut p.x");

    let literal_arg = FunctionCallArg {
        modifier: Some(DeclModifier::Mut),
        expression: Expression::NumberLiteral(NumberLiteral { text: "7".to_owned() }),
    };
    assert_eq!(literal_arg.transpile(), Err(GenerationError::ModifierOnNonLValue));

    let plain_literal = FunctionCallArg {
        modifier: None,
        expression: Expression::NumberLiteral(NumberLiteral { text: "7".to_owned() }),
    };
    assert_eq!(plain_literal.transpile().unwrap(), "&(7)");
}

#[test]
fn struct_declarations_lower_with_member_joining() {
    let ast = ast_of("type Point {\n    x: Int\n    y: Int\n}\n");
    let seg = SegmentedAst::segmented(vec![ast]);
    assert_eq!(seg.types.len(), 1);
    assert_eq!(
        seg.types[0].transpile(),
        "struct Point {\nx: Int,\ny: Int\n}"
    );

    let ast = ast_of("pub type Pair(Int, Float)\n");
    let seg = SegmentedAst::segmented(vec![ast]);
    assert_eq!(seg.types[0].transpile(), "pub struct Pair(Int, Float);");
    match &seg.types[0] {
        TypeDecl::TupleType(t) => assert!(matches!(t.visibility, Visibility::Public)),
        _ => panic!("Expected a tuple type"),
    }

    let ast = ast_of("type Id = Int\n");
    let seg = SegmentedAst::segmented(vec![ast]);
    assert_eq!(seg.types[0].transpile(), "type Id = Int;");
}

#[test]
fn empty_member_lists_lower_to_empty_text() {
    let ast = ast_of("type Empty {\n}\n");
    let seg = SegmentedAst::segmented(vec![ast]);
    assert_eq!(seg.types[0].transpile(), "struct Empty {\n\n}");
}

#[test]
fn duplicate_type_rejection_is_order_independent() {
    let first = ast_of("type Point {\n    x: Int\n}\n");
    let second = ast_of("type Point {\n    y: Float\n}\n");
    let seg = SegmentedAst::segmented(vec![first, second]);
    let err = LookupContext::new().with(&seg).unwrap_err();
    let LookupError::DuplicateType(name) = err else {
        panic!("Expected a duplicate type fault")
    };
    assert_eq!(name, TypeIdent::new("Point"));

    let first = ast_of("type Point {\n    x: Int\n}\n");
    let second = ast_of("type Point {\n    y: Float\n}\n");
    let seg = SegmentedAst::segmented(vec![second, first]);
    let err = LookupContext::new().with(&seg).unwrap_err();
    let LookupError::DuplicateType(name) = err else {
        panic!("Expected a duplicate type fault")
    };
    assert_eq!(name, TypeIdent::new("Point"));
}

#[test]
fn redeclaring_a_builtin_is_a_duplicate() {
    let ast = ast_of("type Int {\n    v: Float\n}\n");
    let seg = SegmentedAst::segmented(vec![ast]);
    let err = LookupContext::new().with(&seg).unwrap_err();
    assert!(matches!(err, LookupError::DuplicateType(_)));
}

#[test]
fn transpile_emits_one_unit_per_type_plus_the_aggregate() {
    let source = Source::from_string(
        "type Point {\n    x: Int\n    y: Int\n}\n".to_owned(),
    );
    let outputs = transpile(vec![source]).expect("transpilation failed");
    assert_eq!(outputs.len(), 2);
    assert_eq!(outputs[0].file_name, galvan_module());
    assert_eq!(outputs[0].content, "mod Point;\npub use Point::*;\n\n\n");
    assert_eq!(outputs[1].file_name, "Point.rs");
    assert_eq!(outputs[1].content, "struct Point {\nx: Int,\ny: Int\n}");
}

#[test]
fn member_functions_attach_to_their_receiver_type() {
    let source = Source::from_string(
        "type Circle {\n    r: Int\n}\nfn area(self: Circle) -> Int {\n}\nfn free() {\n}\n"
            .to_owned(),
    );
    let outputs = transpile(vec![source]).expect("transpilation failed");
    assert_eq!(outputs.len(), 2);
    assert_eq!(
        outputs[0].content,
        "mod Circle;\npub use Circle::*;\n\n\nfn free() {\n\n}"
    );
    assert_eq!(outputs[1].file_name, "Circle.rs");
    assert_eq!(
        outputs[1].content,
        "struct Circle {\nr: Int\n}\n\nfn area(&self) -> Int {\n\n}"
    );
}

#[test]
fn functions_on_builtin_receivers_stay_free() {
    let source = Source::from_string("fn double(n: Int) -> Int {\n}\n".to_owned());
    let outputs = transpile(vec![source]).expect("transpilation failed");
    assert_eq!(outputs.len(), 1);
    assert_eq!(outputs[0].content, "\n\nfn double(n: Int) -> Int {\n\n}");
}

#[test]
fn unknown_receiver_types_are_rejected() {
    let source = Source::from_string("fn area(self: Shape) -> Int {\n}\n".to_owned());
    let err = transpile(vec![source]).unwrap_err();
    let TranspileError::Lookup(LookupError::UnresolvedReceiver(name)) = err else {
        panic!("Expected an unresolved receiver fault")
    };
    assert_eq!(name, TypeIdent::new("Shape"));
}

#[test]
fn shared_handle_receiver_is_a_generation_fault() {
    let source = Source::from_string(
        "type Circle {\n    r: Int\n}\nfn area(ref self: Circle) -> Int {\n}\n".to_owned(),
    );
    let err = transpile(vec![source]).unwrap_err();
    assert!(matches!(
        err,
        TranspileError::Generation(GenerationError::SelfAsSharedHandle)
    ));
}

#[test]
fn duplicate_types_across_sources_fail_either_way() {
    let a = "type Point {\n    x: Int\n}\n";
    let b = "type Point {\n    y: Float\n}\n";
    for sources in [
        vec![
            Source::from_string(a.to_owned()),
            Source::from_string(b.to_owned()),
        ],
        vec![
            Source::from_string(b.to_owned()),
            Source::from_string(a.to_owned()),
        ],
    ] {
        let err = transpile(sources).unwrap_err();
        let TranspileError::Lookup(LookupError::DuplicateType(name)) = err else {
            panic!("Expected a duplicate type fault")
        };
        assert_eq!(name, TypeIdent::new("Point"));
    }
}

#[test]
fn parse_faults_surface_from_the_pipeline() {
    let source = Source::from_string("type Point {\n    x Int\n}\n".to_owned());
    let err = transpile(vec![source]).unwrap_err();
    assert!(matches!(err, TranspileError::Parse(_)));
}

#[test]
fn transpile_segmented_checks_duplicates_itself() {
    let first = ast_of("type Point {\n    x: Int\n}\n");
    let second = ast_of("type Point {\n    y: Float\n}\n");
    let seg = SegmentedAst::segmented(vec![first, second]);
    let lookup = LookupContext::new();
    let err = transpile_segmented(&seg, &lookup).unwrap_err();
    assert!(matches!(
        err,
        TranspileError::Lookup(LookupError::DuplicateType(_))
    ));
}

#[test]
fn diagnostics_carry_the_span_and_annotation() {
    let err = tokenize("t\u{00e9}st").unwrap_err();
    let message = err.to_parser_message(Source::from_string("".to_owned()));
    assert_eq!(message.issue, "Only ASCII source text is supported.");
    assert!(message.hint.is_none());
    assert!(matches!(message.msg_type, galvan::messages::Severity::Error));
    assert_eq!(message.annotations.len(), 1);
    assert_eq!(message.annotations[0].range.start, 0);
}

#[test]
fn transpilation_outcomes_split_cleanly() {
    let ok = galvan::source::Transpilation {
        sources: vec![Source::from_string("x".to_owned())],
        transpiled: Ok("text".to_owned()),
    };
    let split = ok.into_result();
    assert_eq!(split.ok().expect("expected success").transpiled, "text");

    let failed = galvan::source::Transpilation {
        sources: vec![],
        transpiled: Err(TranspileError::Generation(GenerationError::LetAsCallArgument)),
    };
    assert!(failed.into_result().is_err());

    let no_errors = galvan::source::TranspileErrors {
        source: Source::from_string("x".to_owned()),
        errors: vec![],
    };
    assert!(no_errors.is_empty());

    let some_errors = galvan::source::TranspileErrors {
        source: Source::from_string("x".to_owned()),
        errors: vec![TranspileError::Generation(GenerationError::ModifierOnNonLValue)],
    };
    assert!(!some_errors.is_empty());
}

#[test]
fn statements_and_blocks_lower_with_their_separators() {
    let declaration = Statement::Declaration(Declaration {
        decl_modifier: DeclModifier::Let,
        identifier: Ident::new("x".to_owned()),
        type_annotation: Some(plain("Int")),
        expression: Some(Expression::NumberLiteral(NumberLiteral { text: "1".to_owned() })),
    });
    let assignment = Statement::Assignment(Assignment {
        target: Expression::Ident(Ident::new("x".to_owned())),
        expression: Expression::NumberLiteral(NumberLiteral { text: "2".to_owned() }),
    });
    let block = Block { statements: vec![declaration, assignment] };
    assert_eq!(block.transpile().unwrap(), "{\nlet x: Int = 1;\nx = 2\n}");
}

#[test]
fn declaration_modifiers_lower_to_their_binding_forms() {
    let decl = |modifier| Declaration {
        decl_modifier: modifier,
        identifier: Ident::new("x".to_owned()),
        type_annotation: None,
        expression: Some(Expression::NumberLiteral(NumberLiteral { text: "1".to_owned() })),
    };
    assert_eq!(decl(DeclModifier::Let).transpile().unwrap(), "let x = 1");
    assert_eq!(decl(DeclModifier::Mut).transpile().unwrap(), "let mut x = 1");
    assert_eq!(
        decl(DeclModifier::Ref).transpile().unwrap(),
        "let x = std::sync::Arc::new(std::sync::Mutex::new(1))"
    );
}

#[test]
fn member_calls_and_constructors_lower_directly() {
    let call = MemberFunctionCall {
        receiver: Box::new(Expression::Ident(Ident::new("p".to_owned()))),
        identifier: Ident::new("scale".to_owned()),
        arguments: vec![FunctionCallArg {
            modifier: None,
            expression: Expression::NumberLiteral(NumberLiteral { text: "2".to_owned() }),
        }],
    };
    assert_eq!(call.transpile().unwrap(), "p.scale(&(2))");

    let ctor = ConstructorCall {
        identifier: TypeIdent::new("Point"),
        arguments: vec![
            ConstructorCallArg {
                ident: Ident::new("x".to_owned()),
                expression: Expression::NumberLiteral(NumberLiteral { text: "1".to_owned() }),
            },
            ConstructorCallArg {
                ident: Ident::new("y".to_owned()),
                expression: Expression::StringLiteral(StringLiteral { text: "2".to_owned() }),
            },
        ],
    };
    assert_eq!(ctor.transpile().unwrap(), "Point { x: 1, y: 2 }");
}

#[test]
fn public_functions_lower_with_their_visibility() {
    let source = Source::from_string("pub fn free() {\n}\n".to_owned());
    let outputs = transpile(vec![source]).expect("transpilation failed");
    assert_eq!(outputs[0].content, "\n\npub fn free() {\n\n}");
}
