use galvan::ast::{Modifiers, RootItem, TypeDecl, Visibility};
use galvan::ident::{Ident, TypeIdent};
use galvan::lexer::{tokenize, Token};
use galvan::parse::{
    parse_main, parse_source, parse_struct_type_members, parse_test, parse_type,
    parse_type_element, parse_until_matching, MatchingToken,
};
use galvan::type_item::{BasicTypeItem, ErrorVariant, OptionalElement, SuccessVariant, TypeElement};

fn tokens_of(src: &str) -> Vec<galvan::lexer::SpannedToken> {
    tokenize(src).expect("tokenization failed")
}

fn parse_one_type_element(src: &str) -> TypeElement {
    let tokens = tokens_of(src);
    let mut pos: usize = 0;
    let parsed = parse_type_element(&tokens, &mut pos, tokens.len()).expect("parse failed");
    assert_eq!(pos, tokens.len(), "the whole input must be consumed");
    parsed
}

fn plain(name: &str) -> TypeElement {
    TypeElement::plain(TypeIdent::new(name))
}

#[test]
fn test_parse_struct_type() {
    // Note that type keyword is expected to be consumed already
    let src = "TypeA {
    member_b: TypeB
    member_c: TypeC
}";
    let tokens = tokens_of(src);
    let mut pos: usize = 0;
    let parsed = parse_type(&tokens, &mut pos, &Modifiers::new()).expect("parse failed");

    assert!(matches!(parsed, TypeDecl::StructType(_)));
}

#[test]
fn test_parse_struct_type_members() {
    let src = "
a: TypeA
b: TypeB";
    let tokens = tokens_of(src);
    let parsed = parse_struct_type_members(&tokens, 0, tokens.len()).expect("parse failed");

    assert!(parsed.len() == 2);
    let a = &parsed[0];
    let b = &parsed[1];

    assert!(matches!(a.visibility, Visibility::Inherited));
    assert!(matches!(b.visibility, Visibility::Inherited));

    assert_eq!(a.ident, Ident::new("a".to_owned()));
    assert_eq!(b.ident, Ident::new("b".to_owned()));

    assert!(matches!(a.ty, TypeElement::Plain(_)));
    assert!(matches!(b.ty, TypeElement::Plain(_)));

    match a.ty {
        TypeElement::Plain(ref inner) => assert_eq!(inner.ident, TypeIdent::new("TypeA")),
        _ => unreachable!(),
    }

    match b.ty {
        TypeElement::Plain(ref inner) => assert_eq!(inner.ident, TypeIdent::new("TypeB")),
        _ => unreachable!(),
    }
}

#[test]
fn test_plain_type() {
    let parsed = parse_one_type_element("Int");
    let TypeElement::Plain(basic) = parsed else {
        panic!("Expected plain type")
    };
    assert_eq!(basic.ident, TypeIdent::new("Int"));
}

#[test]
fn test_tuple_type() {
    let parsed = parse_one_type_element("(Int, Float)");
    let TypeElement::Tuple(container) = parsed else {
        panic!("Wrong type")
    };
    let TypeElement::Plain(ref elements) = container.elements[0] else {
        panic!("Expected plain type as first element!")
    };
    assert_eq!(elements.ident, TypeIdent::new("Int"), "Testing first element");
    let TypeElement::Plain(ref elements) = container.elements[1] else {
        panic!("Expected plain type as second element!")
    };
    assert_eq!(elements.ident, TypeIdent::new("Float"), "Testing second element");

    let parsed = parse_one_type_element("(Int, String)");
    let TypeElement::Tuple(container) = parsed else {
        panic!("Wrong type")
    };
    let TypeElement::Plain(ref elements) = container.elements[0] else {
        panic!("Expected plain type as first element!")
    };
    assert_eq!(
        elements.ident,
        TypeIdent::new("Int"),
        "Testing first element for downcast TypeItem"
    );
    let TypeElement::Plain(ref elements) = container.elements[1] else {
        panic!("Expected plain type as second element!")
    };
    assert_eq!(
        elements.ident,
        TypeIdent::new("String"),
        "Testing second element for downcast TypeItem"
    );
}

#[test]
fn test_optional_type() {
    let parsed = parse_one_type_element("Int?");
    let TypeElement::Optional(container) = parsed else {
        panic!("Wrong type")
    };
    let TypeElement::Plain(some) = container.element() else {
        panic!("Expected plain type as some type")
    };
    assert_eq!(some.ident, TypeIdent::new("Int"), "Testing some");
}

#[test]
fn round_trip_array_type() {
    assert_eq!(parse_one_type_element("[Int]"), TypeElement::array(plain("Int")));
}

#[test]
fn round_trip_set_type() {
    assert_eq!(parse_one_type_element("{Int}"), TypeElement::set(plain("Int")));
}

#[test]
fn round_trip_dict_type() {
    assert_eq!(
        parse_one_type_element("{Int: Float}"),
        TypeElement::dict(plain("Int"), plain("Float"))
    );
}

#[test]
fn round_trip_ordered_dict_type() {
    assert_eq!(
        parse_one_type_element("[Int: Float]"),
        TypeElement::ordered_dict(plain("Int"), plain("Float"))
    );
}

#[test]
fn round_trip_tuple_type() {
    assert_eq!(
        parse_one_type_element("(Int, Float)"),
        TypeElement::tuple(vec![plain("Int"), plain("Float")])
    );
}

#[test]
fn round_trip_optional_type() {
    assert_eq!(
        parse_one_type_element("Int?"),
        TypeElement::optional(OptionalElement::Plain(BasicTypeItem {
            ident: TypeIdent::new("Int"),
        }))
    );
}

#[test]
fn round_trip_optional_collections() {
    let array = parse_one_type_element("[Int]?");
    let TypeElement::Optional(container) = array else {
        panic!("Wrong type")
    };
    assert_eq!(container.element(), TypeElement::array(plain("Int")));

    let set = parse_one_type_element("{Int}?");
    let TypeElement::Optional(container) = set else {
        panic!("Wrong type")
    };
    assert_eq!(container.element(), TypeElement::set(plain("Int")));

    let dict = parse_one_type_element("{Int: Float}?");
    let TypeElement::Optional(container) = dict else {
        panic!("Wrong type")
    };
    assert_eq!(container.element(), TypeElement::dict(plain("Int"), plain("Float")));

    let ordered = parse_one_type_element("[Int: Float]?");
    let TypeElement::Optional(container) = ordered else {
        panic!("Wrong type")
    };
    assert_eq!(
        container.element(),
        TypeElement::ordered_dict(plain("Int"), plain("Float"))
    );
}

#[test]
fn round_trip_result_types() {
    let bare = parse_one_type_element("Int!");
    assert_eq!(
        bare,
        TypeElement::result(
            SuccessVariant::Plain(BasicTypeItem { ident: TypeIdent::new("Int") }),
            None,
        )
    );

    let with_error = parse_one_type_element("Int!Float");
    let TypeElement::Result(container) = with_error else {
        panic!("Wrong type")
    };
    assert_eq!(container.success.upcast(), plain("Int"));
    assert_eq!(container.error.expect("error variant expected").upcast(), plain("Float"));

    let with_reference_error = parse_one_type_element("Int!&Float");
    let TypeElement::Result(container) = with_reference_error else {
        panic!("Wrong type")
    };
    assert_eq!(container.success.upcast(), plain("Int"));
    let error = container.error.expect("error variant expected").upcast();
    let TypeElement::Ref(reference) = error else {
        panic!("Expected a reference error variant")
    };
    assert_eq!(reference.element, plain("Float"));
}

#[test]
fn references_pass_into_the_monadic_sub_lattices() {
    let reference = || {
        let TypeElement::Ref(r) = parse_one_type_element("&Int") else {
            panic!("Wrong type")
        };
        TypeElement::Ref(r)
    };
    let as_optional = OptionalElement::try_from(reference()).expect("a reference may be wrapped");
    assert_eq!(as_optional.upcast(), reference());
    assert!(SuccessVariant::try_from(reference()).is_ok());
    assert!(ErrorVariant::try_from(reference()).is_ok());

    let optional_of_reference = TypeElement::optional(
        OptionalElement::try_from(reference()).unwrap(),
    );
    assert_eq!(
        optional_of_reference.transpile(),
        "Option<std::sync::Arc<std::sync::Mutex<Int>>>"
    );
}

#[test]
fn reference_of_optional_reads_greedily() {
    let parsed = parse_one_type_element("&Int?");
    let TypeElement::Ref(reference) = parsed else {
        panic!("Wrong type")
    };
    assert!(matches!(reference.element, TypeElement::Optional(_)));
}

#[test]
fn nested_monadic_wrappers_stay_rejected() {
    let optional = parse_one_type_element("Int?");
    assert!(OptionalElement::try_from(optional).is_err());
    let result = parse_one_type_element("Int!");
    assert!(SuccessVariant::try_from(result).is_err());
    let result = parse_one_type_element("Int!");
    assert!(ErrorVariant::try_from(result).is_err());
}

#[test]
fn empty_struct_member_region_yields_no_members() {
    let tokens = tokens_of("");
    let parsed = parse_struct_type_members(&tokens, 0, 0).expect("parse failed");
    assert!(parsed.is_empty());
}

#[test]
fn parse_fn_rejects_malformed_heads() {
    let tokens = tokens_of(", (");
    let mut pos: usize = 0;
    let err = galvan::parse::parse_fn(&tokens, &mut pos, &Modifiers::new()).unwrap_err();
    assert_eq!(err.msg, "Invalid identifier for function name.");

    let tokens = tokens_of("area Int");
    let mut pos: usize = 0;
    let err = galvan::parse::parse_fn(&tokens, &mut pos, &Modifiers::new()).unwrap_err();
    assert_eq!(err.msg, "Expected parameter list after function name.");
}

#[test]
fn parse_test_rejects_an_unclosed_body() {
    let tokens = tokens_of("\"x\" {");
    let mut pos: usize = 0;
    let err = parse_test(&tokens, &mut pos, galvan::ast::Async::Absent).unwrap_err();
    assert_eq!(err.msg, "Expected matching closing delimiter but found end of file.");
}

#[test]
fn round_trip_reference_type() {
    let parsed = parse_one_type_element("&Int");
    let TypeElement::Ref(container) = parsed else {
        panic!("Wrong type")
    };
    assert_eq!(container.element, plain("Int"));
}

#[test]
fn nested_optional_is_rejected() {
    let tokens = tokens_of("Int??");
    let mut pos: usize = 0;
    let parsed = parse_type_element(&tokens, &mut pos, tokens.len());
    assert!(parsed.is_err(), "an optional may not directly wrap an optional");
}

#[test]
fn struct_parsing_members_in_order() {
    let src = "TypeA {
  member_b: TypeB
  member_c: TypeC
}";
    let tokens = tokens_of(src);
    let mut pos: usize = 0;
    let parsed = parse_type(&tokens, &mut pos, &Modifiers::new()).expect("parse failed");
    let TypeDecl::StructType(decl) = parsed else {
        panic!("Expected a struct type")
    };
    assert_eq!(decl.ident, TypeIdent::new("TypeA"));
    assert_eq!(decl.members.len(), 2);
    assert!(matches!(decl.members[0].visibility, Visibility::Inherited));
    assert!(matches!(decl.members[1].visibility, Visibility::Inherited));
    assert_eq!(decl.members[0].ident, Ident::new("member_b".to_owned()));
    assert_eq!(decl.members[1].ident, Ident::new("member_c".to_owned()));
    assert_eq!(decl.members[0].ty, plain("TypeB"));
    assert_eq!(decl.members[1].ty, plain("TypeC"));
}

#[test]
fn tuple_and_alias_type_declarations() {
    let tokens = tokens_of("Pair(Int, Float)");
    let mut pos: usize = 0;
    let parsed = parse_type(&tokens, &mut pos, &Modifiers::new()).expect("parse failed");
    let TypeDecl::TupleType(decl) = parsed else {
        panic!("Expected a tuple type")
    };
    assert_eq!(decl.ident, TypeIdent::new("Pair"));
    assert_eq!(decl.members.len(), 2);
    assert_eq!(decl.members[0].ty, plain("Int"));
    assert_eq!(decl.members[1].ty, plain("Float"));

    let tokens = tokens_of("Id = Int\n");
    let mut pos: usize = 0;
    let parsed = parse_type(&tokens, &mut pos, &Modifiers::new()).expect("parse failed");
    let TypeDecl::AliasType(decl) = parsed else {
        panic!("Expected an alias type")
    };
    assert_eq!(decl.ident, TypeIdent::new("Id"));
    assert_eq!(decl.ty, plain("Int"));
}

#[test]
fn type_body_error_lists_the_three_forms() {
    let tokens = tokens_of("TypeA ?");
    let mut pos: usize = 0;
    let err = parse_type(&tokens, &mut pos, &Modifiers::new()).unwrap_err();
    assert!(err.msg.contains("type alias"));
    assert!(err.msg.contains("struct type"));
    assert!(err.msg.contains("tuple type"));
    assert!(err.msg.contains("TypeA"));
}

#[test]
fn duplicate_visibility_modifier_fails() {
    let tokens = tokens_of("pub pub type TypeA {\n    a: Int\n}\n");
    let err = parse_source(&tokens).unwrap_err();
    assert_eq!(err.msg, "Duplicate declaration modifier.");
}

#[test]
fn duplicate_const_modifier_fails() {
    let tokens = tokens_of("const const fn f() {\n}\n");
    let err = parse_source(&tokens).unwrap_err();
    assert_eq!(err.msg, "Duplicate declaration modifier.");
}

#[test]
fn main_after_visibility_modifier_fails() {
    let tokens = tokens_of("pub main {\n}\n");
    let err = parse_source(&tokens).unwrap_err();
    assert_eq!(
        err.msg,
        "Entry point declarations do not accept visibility or const modifiers."
    );
}

#[test]
fn test_after_const_modifier_fails() {
    let tokens = tokens_of("const test {\n}\n");
    let err = parse_source(&tokens).unwrap_err();
    assert_eq!(
        err.msg,
        "Entry point declarations do not accept visibility or const modifiers."
    );
}

#[test]
fn async_main_is_accepted() {
    let tokens = tokens_of("async main {\n}\n");
    let ast = parse_source(&tokens).expect("parse failed");
    assert_eq!(ast.items.len(), 1);
    assert!(matches!(ast.items[0], RootItem::Main(_)));
}

#[test]
fn build_keyword_is_reserved() {
    let tokens = tokens_of("build {\n}\n");
    let err = parse_source(&tokens).unwrap_err();
    assert_eq!(
        err.msg,
        "The build keyword is reserved but currently not implemented yet. Found at: "
    );
}

#[test]
fn unexpected_token_at_top_level_fails() {
    let tokens = tokens_of(", type TypeA {\n    a: Int\n}\n");
    let err = parse_source(&tokens).unwrap_err();
    assert_eq!(err.msg, "Unexpected token at top level.");
}

#[test]
fn empty_source_parses_to_no_items() {
    let tokens = tokens_of("");
    let ast = parse_source(&tokens).expect("parse failed");
    assert_eq!(ast.items.len(), 0);
}

#[test]
fn balanced_scanning_skips_nested_delimiters() {
    // ( a , ( b , c ) ) tail -- the scan starts after the outer open.
    let tokens = tokens_of("(a, (b, c)) tail");
    let mut pos: usize = 1;
    let close = parse_until_matching(&tokens, &mut pos, tokens.len(), MatchingToken::Paren)
        .expect("scan failed");
    assert_eq!(close, 8, "the outer close, not the inner one");
    assert_eq!(pos, 9);
    assert!(matches!(tokens[close].token, Token::ParenClose));
}

#[test]
fn balanced_scanning_in_struct_body_with_nested_tuple() {
    let src = "TypeA {
    member_b: (Int, Float)
}";
    let tokens = tokens_of(src);
    let mut pos: usize = 0;
    let parsed = parse_type(&tokens, &mut pos, &Modifiers::new()).expect("parse failed");
    let TypeDecl::StructType(decl) = parsed else {
        panic!("Expected a struct type")
    };
    assert_eq!(decl.members.len(), 1);
    assert_eq!(
        decl.members[0].ty,
        TypeElement::tuple(vec![plain("Int"), plain("Float")])
    );
}

#[test]
fn unmatched_open_fails_with_end_of_file() {
    let tokens = tokens_of("{ { a } ");
    let mut pos: usize = 1;
    let err = parse_until_matching(&tokens, &mut pos, tokens.len(), MatchingToken::Brace)
        .unwrap_err();
    assert_eq!(err.msg, "Expected matching closing delimiter but found end of file.");
}

#[test]
fn parse_main_requires_a_brace() {
    let tokens = tokens_of("{\n}\n");
    let mut pos: usize = 0;
    let parsed = parse_main(&tokens, &mut pos, galvan::ast::Async::Absent);
    assert!(parsed.is_ok());

    let tokens = tokens_of("");
    let mut pos: usize = 0;
    let err = parse_main(&tokens, &mut pos, galvan::ast::Async::Absent).unwrap_err();
    assert_eq!(err.msg, "Expected main body but found end of file.");
}

#[test]
fn parse_test_takes_an_optional_description() {
    let tokens = tokens_of("\"sums things\" {\n}\n");
    let mut pos: usize = 0;
    let parsed = parse_test(&tokens, &mut pos, galvan::ast::Async::Absent).expect("parse failed");
    assert_eq!(parsed.name.expect("a name was given").text, "sums things");

    let tokens = tokens_of("{\n}\n");
    let mut pos: usize = 0;
    let parsed = parse_test(&tokens, &mut pos, galvan::ast::Async::Absent).expect("parse failed");
    assert!(parsed.name.is_none());
}

#[test]
fn parse_fn_builds_a_signature() {
    let tokens = tokens_of("area(self: Circle, scale: Int) -> Int {\n}\n");
    let mut pos: usize = 0;
    let parsed = galvan::parse::parse_fn(&tokens, &mut pos, &Modifiers::new())
        .expect("parse failed");
    assert_eq!(parsed.signature.identifier, Ident::new("area".to_owned()));
    assert_eq!(parsed.signature.parameters.params.len(), 2);
    assert_eq!(
        parsed.signature.parameters.params[0].identifier,
        Ident::new("self".to_owned())
    );
    assert_eq!(parsed.signature.parameters.params[0].param_type, plain("Circle"));
    assert!(parsed.signature.parameters.params[0].decl_modifier.is_none());
    assert!(parsed.signature.parameters.params[1].decl_modifier.is_none());
    assert_eq!(parsed.signature.return_type, Some(plain("Int")));
    assert!(parsed.body.statements.is_empty());

    let receiver = parsed.signature.receiver().expect("a receiver was declared");
    assert_eq!(receiver.identifier, Ident::new("self".to_owned()));
}

#[test]
fn modifiers_track_each_kind_once() {
    let mut m = Modifiers::new();
    assert!(!m.has_vis_modifier());
    assert!(!m.has_const_modifier());
    assert!(!m.has_async_modifier());
    m.visibility = Visibility::Public;
    m.constness = galvan::ast::Const::Const;
    m.asyncness = galvan::ast::Async::Async;
    assert!(m.has_vis_modifier());
    assert!(m.has_const_modifier());
    assert!(m.has_async_modifier());
    m.reset();
    assert!(!m.has_vis_modifier());
    assert!(!m.has_const_modifier());
    assert!(!m.has_async_modifier());
}

#[test]
fn tokenizer_rejects_unterminated_strings_and_non_ascii() {
    let err = tokenize("\"open").unwrap_err();
    assert_eq!(err.msg, "Unterminated string literal.");

    let err = tokenize("t\u{00e9}st").unwrap_err();
    assert_eq!(err.msg, "Only ASCII source text is supported.");
}

#[test]
fn tokenizer_spans_are_byte_ranges() {
    let tokens = tokenize("type Point").expect("tokenization failed");
    assert_eq!(tokens.len(), 2);
    assert!(matches!(tokens[0].token, Token::TypeKeyword));
    assert_eq!(tokens[0].span.start, 0);
    assert_eq!(tokens[0].span.end, 4);
    match &tokens[1].token {
        Token::Ident(name) => assert_eq!(name, "Point"),
        _ => panic!("Expected an identifier"),
    }
    assert_eq!(tokens[1].span.start, 5);
    assert_eq!(tokens[1].span.end, 10);
}

#[test]
fn modifiers_reset_after_each_declaration() {
    let tokens = tokens_of("pub type A {\n    a: Int\n}\nmain {\n}\n");
    let ast = parse_source(&tokens).expect("parse failed");
    assert_eq!(ast.items.len(), 2);
    match &ast.items[0] {
        RootItem::Type(TypeDecl::StructType(s)) => {
            assert!(matches!(s.visibility, Visibility::Public));
        }
        _ => panic!("Expected a struct type first"),
    }
    assert!(matches!(ast.items[1], RootItem::Main(_)));
}

#[test]
fn alias_right_hand_sides_take_the_full_lattice() {
    let tokens = tokens_of("Ids = [Int]\n");
    let mut pos: usize = 0;
    let parsed = parse_type(&tokens, &mut pos, &Modifiers::new()).expect("parse failed");
    let TypeDecl::AliasType(decl) = parsed else {
        panic!("Expected an alias type")
    };
    assert_eq!(decl.ty, TypeElement::array(plain("Int")));
}

#[test]
fn expected_result_extracts_the_tagged_block() {
    let file = "header\n/*# AST\nline one\nline two\n*/\nrest\n";
    let block = galvan::expected_result(file, "AST").expect("extraction failed");
    assert_eq!(block, "line one\nline two");

    let empty = "/*# AST\n*/\n";
    let block = galvan::expected_result(empty, "AST").expect("extraction failed");
    assert_eq!(block, "");

    let missing = "no marker here\n";
    assert_eq!(
        galvan::expected_result(missing, "AST"),
        Err("Tag not found in test file!")
    );

    let unclosed = "/*# AST\nline one\n";
    assert_eq!(
        galvan::expected_result(unclosed, "AST"),
        Err("Tag not closed in test file!")
    );

    let wrong_tag = "/*# OTHER\nline\n*/\n";
    assert_eq!(
        galvan::expected_result(wrong_tag, "AST"),
        Err("Tag not found in test file!")
    );
}

#[test]
fn empty_tuple_body_is_rejected() {
    let tokens = tokens_of("Pair()");
    let mut pos: usize = 0;
    let parsed = parse_type(&tokens, &mut pos, &Modifiers::new());
    assert!(parsed.is_err(), "a tuple type needs at least one member");
}

#[test]
fn struct_body_with_trailing_blank_lines_parses() {
    let src = "TypeA {\n    member_b: TypeB\n\n\n}";
    let tokens = tokens_of(src);
    let mut pos: usize = 0;
    let parsed = parse_type(&tokens, &mut pos, &Modifiers::new()).expect("parse failed");
    let TypeDecl::StructType(decl) = parsed else {
        panic!("Expected a struct type")
    };
    assert_eq!(decl.members.len(), 1);
}
