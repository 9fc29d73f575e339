//! The recursive descent parser.
//!
//! The parser consumes a position-tagged token sequence once, building
//! top-level declarations and, within type bodies, structural members.
//! Its contracts are stated against the canonical token form of each
//! tree node: whenever a parse succeeds, the tokens consumed are exactly
//! the canonical form of the returned node, so parsing and re-deriving
//! the node's token form round-trip.

use vstd::prelude::*;

use crate::ast::{
    AliasTypeDecl, Ast, Async, Block, Body, Const, DeclModifier, FnDecl, FnSignature, MainDecl,
    Modifiers, Param, ParamList, RootItem, StringLiteral, StructTypeDecl, StructTypeMember,
    TestDecl, TupleTypeDecl, TupleTypeMember, TypeDecl, Visibility,
};
use crate::ident::{Ident, TypeIdent};
use crate::lexer::{token_views, Span, SpannedToken, Token, TokenView};
use crate::messages::TokenError;
use crate::type_item::{
    ArrayTypeItem, BasicTypeItem, DictionaryTypeItem, ErrorVariant, OptionalElement,
    OptionalTypeItem, OrderedDictionaryTypeItem, ResultTypeItem, SetTypeItem, SuccessVariant,
    TupleTypeItem, TypeElement,
};

verus! {

// ------------------------------------------------------------------
// Canonical token forms of the type lattice
// ------------------------------------------------------------------
/// The canonical token sequence of a type lattice node.
pub open spec fn type_tokens(t: TypeElement) -> Seq<TokenView>
    decreases t,
{
    match t {
        TypeElement::Plain(b) => seq![TokenView::Ident(b.ident@)],
        TypeElement::Array(a) => array_tokens(*a),
        TypeElement::OrderedDictionary(d) => ordered_dict_tokens(*d),
        TypeElement::SetType(s) => set_tokens(*s),
        TypeElement::Dictionary(d) => dict_tokens(*d),
        TypeElement::Tuple(tu) => tuple_tokens(*tu),
        TypeElement::Optional(o) => optional_tokens(*o),
        TypeElement::Result(r) => result_tokens(*r),
        TypeElement::Ref(rf) => seq![TokenView::Ampersand] + type_tokens(rf.element),
    }
}

/// `[T]`
pub open spec fn array_tokens(a: ArrayTypeItem) -> Seq<TokenView>
    decreases a,
{
    seq![TokenView::BracketOpen] + type_tokens(a.elements) + seq![TokenView::BracketClose]
}

/// `[K: V]`
pub open spec fn ordered_dict_tokens(d: OrderedDictionaryTypeItem) -> Seq<TokenView>
    decreases d,
{
    seq![TokenView::BracketOpen] + type_tokens(d.key) + seq![TokenView::Colon] + type_tokens(
        d.value,
    ) + seq![TokenView::BracketClose]
}

/// `{T}`
pub open spec fn set_tokens(s: SetTypeItem) -> Seq<TokenView>
    decreases s,
{
    seq![TokenView::BraceOpen] + type_tokens(s.elements) + seq![TokenView::BraceClose]
}

/// `{K: V}`
pub open spec fn dict_tokens(d: DictionaryTypeItem) -> Seq<TokenView>
    decreases d,
{
    seq![TokenView::BraceOpen] + type_tokens(d.key) + seq![TokenView::Colon] + type_tokens(
        d.value,
    ) + seq![TokenView::BraceClose]
}

/// `(T, U, ...)`
pub open spec fn tuple_tokens(t: TupleTypeItem) -> Seq<TokenView>
    decreases t,
{
    seq![TokenView::ParenOpen] + type_list_tokens(t.elements@) + seq![TokenView::ParenClose]
}

/// A comma-joined list of type elements.
pub open spec fn type_list_tokens(ts: Seq<TypeElement>) -> Seq<TokenView>
    decreases ts,
{
    if ts.len() == 0 {
        Seq::empty()
    } else if ts.len() == 1 {
        type_tokens(ts[0])
    } else {
        type_list_tokens(ts.drop_last()) + seq![TokenView::Comma] + type_tokens(ts.last())
    }
}

/// `T?`
pub open spec fn optional_tokens(o: OptionalTypeItem) -> Seq<TokenView>
    decreases o,
{
    optional_element_tokens(o.some) + seq![TokenView::QuestionMark]
}

/// The canonical token form of an optional's inner type.
pub open spec fn optional_element_tokens(e: OptionalElement) -> Seq<TokenView>
    decreases e,
{
    match e {
        OptionalElement::Plain(b) => seq![TokenView::Ident(b.ident@)],
        OptionalElement::Array(a) => array_tokens(*a),
        OptionalElement::OrderedDictionary(d) => ordered_dict_tokens(*d),
        OptionalElement::SetType(s) => set_tokens(*s),
        OptionalElement::Dictionary(d) => dict_tokens(*d),
        OptionalElement::Tuple(tu) => tuple_tokens(*tu),
        OptionalElement::Ref(rf) => seq![TokenView::Ampersand] + type_tokens(rf.element),
    }
}

/// `S!E`, or `S!` when the error variant is absent.
pub open spec fn result_tokens(r: ResultTypeItem) -> Seq<TokenView>
    decreases r,
{
    success_variant_tokens(r.success) + seq![TokenView::ExclamationMark] + (match r.error {
        Some(e) => error_variant_tokens(e),
        None => Seq::empty(),
    })
}

/// The canonical token form of a result's success variant.
pub open spec fn success_variant_tokens(s: SuccessVariant) -> Seq<TokenView>
    decreases s,
{
    match s {
        SuccessVariant::Plain(b) => seq![TokenView::Ident(b.ident@)],
        SuccessVariant::Array(a) => array_tokens(*a),
        SuccessVariant::OrderedDictionary(d) => ordered_dict_tokens(*d),
        SuccessVariant::SetType(st) => set_tokens(*st),
        SuccessVariant::Dictionary(d) => dict_tokens(*d),
        SuccessVariant::Tuple(tu) => tuple_tokens(*tu),
        SuccessVariant::Ref(rf) => seq![TokenView::Ampersand] + type_tokens(rf.element),
        SuccessVariant::Optional(o) => optional_tokens(*o),
    }
}

/// The canonical token form of a result's error variant.
pub open spec fn error_variant_tokens(e: ErrorVariant) -> Seq<TokenView>
    decreases e,
{
    match e {
        ErrorVariant::Plain(b) => seq![TokenView::Ident(b.ident@)],
        ErrorVariant::Array(a) => array_tokens(*a),
        ErrorVariant::OrderedDictionary(d) => ordered_dict_tokens(*d),
        ErrorVariant::SetType(s) => set_tokens(*s),
        ErrorVariant::Dictionary(d) => dict_tokens(*d),
        ErrorVariant::Tuple(tu) => tuple_tokens(*tu),
        ErrorVariant::Ref(rf) => seq![TokenView::Ampersand] + type_tokens(rf.element),
    }
}

/// An optional's inner type keeps its token form when lifted back to a
/// full lattice node.
pub proof fn lemma_optional_element_tokens(e: OptionalElement)
    ensures
        optional_element_tokens(e) == type_tokens(e.as_type_element()),
{
    match e {
        OptionalElement::Plain(_) => {},
        OptionalElement::Array(_) => {},
        OptionalElement::OrderedDictionary(_) => {},
        OptionalElement::SetType(_) => {},
        OptionalElement::Dictionary(_) => {},
        OptionalElement::Tuple(_) => {},
        OptionalElement::Ref(_) => {},
    }
}

/// A success variant keeps its token form when lifted back to a full
/// lattice node.
pub proof fn lemma_success_variant_tokens(s: SuccessVariant)
    ensures
        success_variant_tokens(s) == type_tokens(s.as_type_element()),
{
    match s {
        SuccessVariant::Plain(_) => {},
        SuccessVariant::Array(_) => {},
        SuccessVariant::OrderedDictionary(_) => {},
        SuccessVariant::SetType(_) => {},
        SuccessVariant::Dictionary(_) => {},
        SuccessVariant::Tuple(_) => {},
        SuccessVariant::Ref(_) => {},
        SuccessVariant::Optional(_) => {},
    }
}

/// An error variant keeps its token form when lifted back to a full
/// lattice node.
pub proof fn lemma_error_variant_tokens(e: ErrorVariant)
    ensures
        error_variant_tokens(e) == type_tokens(e.as_type_element()),
{
    match e {
        ErrorVariant::Plain(_) => {},
        ErrorVariant::Array(_) => {},
        ErrorVariant::OrderedDictionary(_) => {},
        ErrorVariant::SetType(_) => {},
        ErrorVariant::Dictionary(_) => {},
        ErrorVariant::Tuple(_) => {},
        ErrorVariant::Ref(_) => {},
    }
}

/// Every canonical token form holds at least one token.
pub proof fn lemma_type_tokens_nonempty(t: TypeElement)
    ensures
        type_tokens(t).len() >= 1,
    decreases t,
{
    reveal_with_fuel(type_tokens, 2);
    match t {
        TypeElement::Plain(_) => {},
        TypeElement::Array(_) => {},
        TypeElement::OrderedDictionary(_) => {},
        TypeElement::SetType(_) => {},
        TypeElement::Dictionary(_) => {},
        TypeElement::Tuple(_) => {},
        TypeElement::Optional(_) => {},
        TypeElement::Result(_) => {},
        TypeElement::Ref(rf) => {
            lemma_type_tokens_nonempty(rf.element);
        },
    }
}

/// The canonical form of an optional's inner type holds at least one
/// token.
pub proof fn lemma_optional_element_tokens_nonempty(e: OptionalElement)
    ensures
        optional_element_tokens(e).len() >= 1,
    decreases e,
{
    reveal_with_fuel(optional_element_tokens, 2);
    match e {
        OptionalElement::Ref(rf) => {
            lemma_type_tokens_nonempty(rf.element);
        },
        _ => {},
    }
}

/// The canonical form of a success variant holds at least one token.
pub proof fn lemma_success_variant_tokens_nonempty(sv: SuccessVariant)
    ensures
        success_variant_tokens(sv).len() >= 1,
    decreases sv,
{
    reveal_with_fuel(success_variant_tokens, 2);
    match sv {
        SuccessVariant::Ref(rf) => {
            lemma_type_tokens_nonempty(rf.element);
        },
        SuccessVariant::Optional(o) => {
            lemma_optional_element_tokens_nonempty(o.some);
        },
        _ => {},
    }
}

/// A one-token canonical form is a plain type of that identifier.
pub proof fn lemma_single_ident_inversion(t: TypeElement, n: Seq<char>)
    requires
        type_tokens(t) == seq![TokenView::Ident(n)],
    ensures
        t matches TypeElement::Plain(b) && b.ident@ == n,
{
    reveal_with_fuel(type_tokens, 3);
    match t {
        TypeElement::Plain(b) => {
            assert(type_tokens(t)[0] == TokenView::Ident(b.ident@));
            assert(seq![TokenView::Ident(n)][0] == TokenView::Ident(n));
        },
        TypeElement::Array(a) => {
            lemma_type_tokens_nonempty(a.elements);
        },
        TypeElement::OrderedDictionary(d) => {
            lemma_type_tokens_nonempty(d.key);
        },
        TypeElement::SetType(st) => {
            lemma_type_tokens_nonempty(st.elements);
        },
        TypeElement::Dictionary(d) => {
            lemma_type_tokens_nonempty(d.key);
        },
        TypeElement::Tuple(_) => {},
        TypeElement::Optional(o) => {
            lemma_optional_element_tokens_nonempty(o.some);
        },
        TypeElement::Result(r) => {
            lemma_success_variant_tokens_nonempty(r.success);
        },
        TypeElement::Ref(rf) => {
            lemma_type_tokens_nonempty(rf.element);
        },
    }
}

/// Appending one element to a non-trivial list appends a comma and the
/// element's token form.
pub proof fn lemma_type_list_tokens_push(ts: Seq<TypeElement>, t: TypeElement)
    ensures
        ts.len() == 0 ==> type_list_tokens(ts.push(t)) == type_tokens(t),
        ts.len() > 0 ==> type_list_tokens(ts.push(t)) == type_list_tokens(ts) + seq![
            TokenView::Comma,
        ] + type_tokens(t),
{
    let pushed = ts.push(t);
    assert(pushed.drop_last() =~= ts);
    assert(pushed.last() == t);
    if ts.len() == 0 {
        assert(pushed[0] == t);
    }
}

// ------------------------------------------------------------------
// Balanced-delimiter scanning
// ------------------------------------------------------------------
/// The delimiter kind a balanced scan matches on.
#[derive(Debug, Clone, Copy, PartialEq, Eq, Structural)]
pub enum MatchingToken {
    Brace,
    Paren,
    Bracket,
}

/// Whether a token opens the given delimiter kind.
pub open spec fn is_open_token(kind: MatchingToken, t: TokenView) -> bool {
    match kind {
        MatchingToken::Brace => t is BraceOpen,
        MatchingToken::Paren => t is ParenOpen,
        MatchingToken::Bracket => t is BracketOpen,
    }
}

/// Whether a token closes the given delimiter kind.
pub open spec fn is_close_token(kind: MatchingToken, t: TokenView) -> bool {
    match kind {
        MatchingToken::Brace => t is BraceClose,
        MatchingToken::Paren => t is ParenClose,
        MatchingToken::Bracket => t is BracketClose,
    }
}

/// The contribution of one token to the close-minus-open balance.
pub open spec fn close_delta(kind: MatchingToken, t: TokenView) -> int {
    if is_close_token(kind, t) {
        1
    } else if is_open_token(kind, t) {
        -1
    } else {
        0
    }
}

/// How many more closing than opening delimiters of the kind a token
/// sequence holds. A scan that starts just after an opening delimiter
/// ends at the first position where this balance reaches one.
pub open spec fn close_excess(kind: MatchingToken, vs: Seq<TokenView>) -> int
    decreases vs.len(),
{
    if vs.len() == 0 {
        0
    } else {
        close_excess(kind, vs.drop_last()) + close_delta(kind, vs.last())
    }
}

fn token_is_open(kind: MatchingToken, t: &Token) -> (r: bool)
    ensures
        r == is_open_token(kind, t@),
{
    match kind {
        MatchingToken::Brace => matches!(t, Token::BraceOpen),
        MatchingToken::Paren => matches!(t, Token::ParenOpen),
        MatchingToken::Bracket => matches!(t, Token::BracketOpen),
    }
}

fn token_is_close(kind: MatchingToken, t: &Token) -> (r: bool)
    ensures
        r == is_close_token(kind, t@),
{
    match kind {
        MatchingToken::Brace => matches!(t, Token::BraceClose),
        MatchingToken::Paren => matches!(t, Token::ParenClose),
        MatchingToken::Bracket => matches!(t, Token::BracketClose),
    }
}

/// Scans for the closing delimiter that matches an opening delimiter
/// already consumed just before `*pos`, stepping over nested pairs of
/// the same kind. On success the cursor stands just past the matching
/// close and its index is returned; if the region runs out first, the
/// scan fails with an end-of-file error and never loops.
pub fn parse_until_matching(
    tokens: &Vec<SpannedToken>,
    pos: &mut usize,
    end: usize,
    kind: MatchingToken,
) -> (r: Result<usize, TokenError>)
    requires
        *old(pos) <= end <= tokens@.len(),
    ensures
        match r {
            Ok(close) => {
                &&& *old(pos) <= close < end
                &&& *final(pos) == close + 1
                &&& is_close_token(kind, token_views(tokens@)[close as int])
                &&& close_excess(
                    kind,
                    token_views(tokens@).subrange(*old(pos) as int, close + 1),
                ) == 1
                &&& forall|k: int|
                    *old(pos) <= k < close ==> close_excess(
                        kind,
                        #[trigger] token_views(tokens@).subrange(*old(pos) as int, k + 1),
                    ) <= 0
            },
            Err(e) => {
                &&& forall|k: int|
                    *old(pos) <= k < end ==> close_excess(
                        kind,
                        #[trigger] token_views(tokens@).subrange(*old(pos) as int, k + 1),
                    ) <= 0
                &&& *final(pos) == end
                &&& e.msg@ == "Expected matching closing delimiter but found end of file."@
            },
        },
{
    let ghost vs = token_views(tokens@);
    let ghost start = *pos as int;
    let mut depth: u128 = 1;
    while *pos < end
        invariant
            0 <= start <= *pos <= end <= tokens@.len(),
            start == *old(pos),
            vs == token_views(tokens@),
            1 <= depth <= *pos - start + 1,
            depth == 1 - close_excess(kind, vs.subrange(start, *pos as int)),
            forall|k: int|
                start <= k < *pos ==> close_excess(
                    kind,
                    #[trigger] vs.subrange(start, k + 1),
                ) <= 0,
        decreases end - *pos,
    {
        let t = &tokens[*pos].token;
        proof {
            assert(vs.len() == tokens@.len());
            let sub = vs.subrange(start, *pos + 1);
            assert(sub.len() == *pos + 1 - start);
            assert(sub.drop_last() =~= vs.subrange(start, *pos as int));
            assert(sub.last() == vs[*pos as int]);
            assert(vs[*pos as int] == tokens@[*pos as int].token@);
        }
        if token_is_close(kind, t) {
            if depth == 1 {
                let close = *pos;
                *pos = *pos + 1;
                return Ok(close);
            }
            depth = depth - 1;
        } else if token_is_open(kind, t) {
            depth = depth + 1;
        }
        *pos = *pos + 1;
    }
    Err(
        TokenError {
            msg: "Expected matching closing delimiter but found end of file.".to_owned(),
            span: if tokens.len() > 0 {
                tokens[tokens.len() - 1].span
            } else {
                Span { start: 0, end: 0 }
            },
            annotation: "the opening delimiter is never closed".to_owned(),
        },
    )
}

// ------------------------------------------------------------------
// Type element parsing
// ------------------------------------------------------------------
/// Whether a type element is a result without an error variant; its
/// canonical form can be extended by a following error variant, so the
/// greedy parser only yields it when no type starts next.
pub open spec fn is_bare_result(t: TypeElement) -> bool {
    match t {
        TypeElement::Result(r) => r.error is None,
        _ => false,
    }
}

/// Whether a token can begin a type element.
pub open spec fn starts_type(t: TokenView) -> bool {
    ||| t is Ident
    ||| t is BracketOpen
    ||| t is BraceOpen
    ||| t is ParenOpen
    ||| t is Ampersand
}

fn token_starts_type(t: &Token) -> (r: bool)
    ensures
        r == starts_type(t@),
{
    match t {
        Token::Ident(_) => true,
        Token::BracketOpen => true,
        Token::BraceOpen => true,
        Token::ParenOpen => true,
        Token::Ampersand => true,
        _ => false,
    }
}

/// A fault at the given byte range.
fn err_at(span: Span, msg: &str, annotation: &str) -> (e: TokenError)
    ensures
        e.msg@ == msg@,
        e.span == span,
        e.annotation@ == annotation@,
{
    TokenError { msg: msg.to_owned(), span, annotation: annotation.to_owned() }
}

/// The byte range to blame at the given cursor: the token there, or an
/// empty range after the last token once the input is exhausted.
fn span_at(tokens: &Vec<SpannedToken>, pos: usize) -> (s: Span)
    ensures
        pos < tokens@.len() ==> s == tokens@[pos as int].span,
{
    if pos < tokens.len() {
        tokens[pos].span
    } else if tokens.len() > 0 {
        let last = tokens[tokens.len() - 1].span;
        Span { start: last.end, end: last.end }
    } else {
        Span { start: 0, end: 0 }
    }
}

/// Parses one type element starting at `*pos`, greedily taking the
/// postfix optional and result forms. On success the consumed tokens
/// are exactly the canonical token form of the returned node.
#[verifier::rlimit(100)]
pub fn parse_type_element(tokens: &Vec<SpannedToken>, pos: &mut usize, end: usize) -> (r: Result<
    TypeElement,
    TokenError,
>)
    requires
        *old(pos) <= end <= tokens@.len(),
    ensures
        match r {
            Ok(t) => {
                &&& *old(pos) < *final(pos) <= end
                &&& token_views(tokens@).subrange(*old(pos) as int, *final(pos) as int)
                    == type_tokens(t)
                &&& *final(pos) < end ==> (!(token_views(tokens@)[*final(pos) as int]
                    is QuestionMark) && !(token_views(tokens@)[*final(pos) as int]
                    is ExclamationMark))
                &&& is_bare_result(t) && *final(pos) < end ==> !starts_type(
                    token_views(tokens@)[*final(pos) as int],
                )
            },
            Err(_) => *old(pos) <= *final(pos) <= end,
        },
        !(*old(pos) < end && starts_type(token_views(tokens@)[*old(pos) as int])) ==> r is Err,
        match token_views(tokens@)[*old(pos) as int] {
            TokenView::Ident(n) => (*old(pos) < end && (*old(pos) + 1 >= end || (!(token_views(
                tokens@,
            )[*old(pos) + 1] is QuestionMark) && !(token_views(tokens@)[*old(pos)
                + 1] is ExclamationMark)))) ==> ({
                &&& r matches Ok(t)
                &&& *final(pos) == *old(pos) + 1
                &&& t matches TypeElement::Plain(b)
                &&& b.ident@ == n
            }),
            _ => true,
        },
    decreases end - *old(pos),
{
    let ghost vs = token_views(tokens@);
    let ghost start = *pos as int;
    proof {
        assert(vs.len() == tokens@.len());
    }
    if *pos >= end {
        return Err(
            err_at(span_at(tokens, *pos), "Expected a type but found end of input.", "a type is expected here"),
        );
    }
    proof {
        assert(vs[start] == tokens@[start].token@);
    }
    let mut t: TypeElement;
    match &tokens[*pos].token {
        Token::Ident(name) => {
            let ident = TypeIdent { name: name.clone() };
            t = TypeElement::Plain(BasicTypeItem { ident });
            *pos = *pos + 1;
            proof {
                reveal_with_fuel(type_tokens, 3);
                assert(vs[start] == tokens@[start].token@);
                assert(vs.subrange(start, *pos as int) =~= type_tokens(t));
            }
        },
        Token::BracketOpen => {
            *pos = *pos + 1;
            let key = parse_type_element(tokens, pos, end)?;
            let ghost p1 = *pos as int;
            if *pos < end && matches!(&tokens[*pos].token, Token::BracketClose) {
                *pos = *pos + 1;
                t = TypeElement::Array(Box::new(ArrayTypeItem { elements: key }));
                proof {
                    reveal_with_fuel(type_tokens, 3);
                    assert(vs[start] == tokens@[start].token@);
                    assert(vs[p1] == tokens@[p1].token@);
                    assert(vs.subrange(start, *pos as int) =~= seq![vs[start]] + vs.subrange(
                        start + 1,
                        p1,
                    ) + seq![vs[p1]]);
                    assert(vs.subrange(start, *pos as int) =~= type_tokens(t));
                }
            } else if *pos < end && matches!(&tokens[*pos].token, Token::Colon) {
                *pos = *pos + 1;
                let value = parse_type_element(tokens, pos, end)?;
                let ghost p2 = *pos as int;
                if *pos < end && matches!(&tokens[*pos].token, Token::BracketClose) {
                    *pos = *pos + 1;
                    t = TypeElement::OrderedDictionary(
                        Box::new(OrderedDictionaryTypeItem { key, value }),
                    );
                    proof {
                        reveal_with_fuel(type_tokens, 3);
                        assert(vs[start] == tokens@[start].token@);
                        assert(vs[p1] == tokens@[p1].token@);
                        assert(vs[p2] == tokens@[p2].token@);
                        assert(vs.subrange(start, *pos as int) =~= seq![vs[start]] + vs.subrange(
                            start + 1,
                            p1,
                        ) + seq![vs[p1]] + vs.subrange(p1 + 1, p2) + seq![vs[p2]]);
                        assert(vs.subrange(start, *pos as int) =~= type_tokens(t));
                    }
                } else {
                    return Err(
                        err_at(
                            span_at(tokens, *pos),
                            "Expected a closing bracket after the value type.",
                            "this ordered dictionary type is never closed",
                        ),
                    );
                }
            } else {
                return Err(
                    err_at(
                        span_at(tokens, *pos),
                        "Expected a closing bracket or a colon after the element type.",
                        "this bracketed type is never closed",
                    ),
                );
            }
        },
        Token::BraceOpen => {
            *pos = *pos + 1;
            let key = parse_type_element(tokens, pos, end)?;
            let ghost p1 = *pos as int;
            if *pos < end && matches!(&tokens[*pos].token, Token::BraceClose) {
                *pos = *pos + 1;
                t = TypeElement::SetType(Box::new(SetTypeItem { elements: key }));
                proof {
                    reveal_with_fuel(type_tokens, 3);
                    assert(vs[start] == tokens@[start].token@);
                    assert(vs[p1] == tokens@[p1].token@);
                    assert(vs.subrange(start, *pos as int) =~= seq![vs[start]] + vs.subrange(
                        start + 1,
                        p1,
                    ) + seq![vs[p1]]);
                    assert(vs.subrange(start, *pos as int) =~= type_tokens(t));
                }
            } else if *pos < end && matches!(&tokens[*pos].token, Token::Colon) {
                *pos = *pos + 1;
                let value = parse_type_element(tokens, pos, end)?;
                let ghost p2 = *pos as int;
                if *pos < end && matches!(&tokens[*pos].token, Token::BraceClose) {
                    *pos = *pos + 1;
                    t = TypeElement::Dictionary(Box::new(DictionaryTypeItem { key, value }));
                    proof {
                        reveal_with_fuel(type_tokens, 3);
                        assert(vs[start] == tokens@[start].token@);
                        assert(vs[p1] == tokens@[p1].token@);
                        assert(vs[p2] == tokens@[p2].token@);
                        assert(vs.subrange(start, *pos as int) =~= seq![vs[start]] + vs.subrange(
                            start + 1,
                            p1,
                        ) + seq![vs[p1]] + vs.subrange(p1 + 1, p2) + seq![vs[p2]]);
                        assert(vs.subrange(start, *pos as int) =~= type_tokens(t));
                    }
                } else {
                    return Err(
                        err_at(
                            span_at(tokens, *pos),
                            "Expected a closing brace after the value type.",
                            "this dictionary type is never closed",
                        ),
                    );
                }
            } else {
                return Err(
                    err_at(
                        span_at(tokens, *pos),
                        "Expected a closing brace or a colon after the element type.",
                        "this braced type is never closed",
                    ),
                );
            }
        },
        Token::ParenOpen => {
            proof {
                assert(vs[start] == tokens@[start].token@);
            }
            *pos = *pos + 1;
            let first = parse_type_element(tokens, pos, end)?;
            let mut elems: Vec<TypeElement> = Vec::new();
            elems.push(first);
            while *pos < end && matches!(&tokens[*pos].token, Token::Comma)
                invariant
                    0 <= start < *pos <= end <= tokens@.len(),
                    start == *old(pos),
                    vs == token_views(tokens@),
                    vs.len() == tokens@.len(),
                    vs[start] is ParenOpen,
                    elems@.len() >= 1,
                    vs.subrange(start + 1, *pos as int) == type_list_tokens(elems@),
                decreases end - *pos,
            {
                let ghost pc = *pos as int;
                *pos = *pos + 1;
                let next = parse_type_element(tokens, pos, end)?;
                let ghost prev = elems@;
                elems.push(next);
                proof {
                    lemma_type_list_tokens_push(prev, next);
                    assert(vs[pc] == tokens@[pc].token@);
                    assert(vs.subrange(start + 1, *pos as int) =~= vs.subrange(start + 1, pc)
                        + seq![vs[pc]] + vs.subrange(pc + 1, *pos as int));
                }
            }
            if *pos < end && matches!(&tokens[*pos].token, Token::ParenClose) {
                let ghost pc = *pos as int;
                *pos = *pos + 1;
                t = TypeElement::Tuple(Box::new(TupleTypeItem { elements: elems }));
                proof {
                    reveal_with_fuel(type_tokens, 3);
                    assert(vs[start] == tokens@[start].token@);
                    assert(vs[pc] == tokens@[pc].token@);
                    assert(vs.subrange(start, *pos as int) =~= seq![vs[start]] + vs.subrange(
                        start + 1,
                        pc,
                    ) + seq![vs[pc]]);
                    assert(vs.subrange(start, *pos as int) =~= type_tokens(t));
                }
            } else {
                return Err(
                    err_at(
                        span_at(tokens, *pos),
                        "Expected a comma or a closing parenthesis in the tuple type.",
                        "this tuple type is never closed",
                    ),
                );
            }
        },
        Token::Ampersand => {
            *pos = *pos + 1;
            let element = parse_type_element(tokens, pos, end)?;
            let r = TypeElement::Ref(Box::new(crate::type_item::RefTypeItem { element }));
            proof {
                reveal_with_fuel(type_tokens, 3);
                assert(vs[start] == tokens@[start].token@);
                assert(vs.subrange(start, *pos as int) =~= seq![vs[start]] + vs.subrange(
                    start + 1,
                    *pos as int,
                ));
                assert(vs.subrange(start, *pos as int) =~= type_tokens(r));
            }
            return Ok(r);
        },
        _ => {
            return Err(
                err_at(
                    span_at(tokens, *pos),
                    "Expected a type but found an unexpected token.",
                    "a type is expected here",
                ),
            );
        },
    }
    // Postfix forms: `?` wraps into an optional, `!` into a result.
    loop
        invariant
            0 <= start < *pos <= end <= tokens@.len(),
            start == *old(pos),
            vs == token_views(tokens@),
            vs.len() == tokens@.len(),
            vs.subrange(start, *pos as int) == type_tokens(t),
            is_bare_result(t) ==> (*pos >= end || !starts_type(vs[*pos as int])),
            (vs[start] is Ident && (start + 1 >= end || (!(vs[start + 1] is QuestionMark) && !(
            vs[start + 1] is ExclamationMark)))) ==> *pos == start + 1,
        ensures
            0 <= start < *pos <= end <= tokens@.len(),
            start == *old(pos),
            vs.subrange(start, *pos as int) == type_tokens(t),
            *pos < end ==> (!(vs[*pos as int] is QuestionMark) && !(vs[*pos as int]
                is ExclamationMark)),
            is_bare_result(t) ==> (*pos >= end || !starts_type(vs[*pos as int])),
            (vs[start] is Ident && (start + 1 >= end || (!(vs[start + 1] is QuestionMark) && !(
            vs[start + 1] is ExclamationMark)))) ==> *pos == start + 1,
        decreases end - *pos,
    {
        if *pos >= end {
            break;
        }
        proof {
            assert(vs[*pos as int] == tokens@[*pos as int].token@);
        }
        let is_question = matches!(&tokens[*pos].token, Token::QuestionMark);
        let is_excl = matches!(&tokens[*pos].token, Token::ExclamationMark);
        if is_question {
            let ghost pq = *pos as int;
            let ghost told = t;
            let some = match OptionalElement::try_from(t) {
                Ok(some) => some,
                Err(_) => {
                    return Err(
                        err_at(
                            span_at(tokens, *pos),
                            "This type cannot be wrapped in an optional.",
                            "optionals may not directly wrap optionals or results",
                        ),
                    );
                },
            };
            *pos = *pos + 1;
            t = TypeElement::Optional(Box::new(OptionalTypeItem { some }));
            proof {
                reveal_with_fuel(type_tokens, 3);
                lemma_optional_element_tokens(some);
                assert(vs[pq] == tokens@[pq].token@);
                assert(vs.subrange(start, *pos as int) =~= vs.subrange(start, pq) + seq![vs[pq]]);
                assert(vs.subrange(start, *pos as int) =~= type_tokens(t));
            }
        } else if is_excl {
            let ghost pe = *pos as int;
            let success = match SuccessVariant::try_from(t) {
                Ok(success) => success,
                Err(_) => {
                    return Err(
                        err_at(
                            span_at(tokens, *pos),
                            "This type cannot be the success variant of a result.",
                            "a result may not directly wrap another result",
                        ),
                    );
                },
            };
            *pos = *pos + 1;
            let has_error = *pos < end && token_starts_type(&tokens[*pos].token);
            if has_error {
                let element = parse_type_element(tokens, pos, end)?;
                let error = match ErrorVariant::try_from(element) {
                    Ok(error) => error,
                    Err(_) => {
                        return Err(
                            err_at(
                                span_at(tokens, *pos),
                                "This type cannot be the error variant of a result.",
                                "error variants may not be optionals or results",
                            ),
                        );
                    },
                };
                t = TypeElement::Result(Box::new(ResultTypeItem { success, error: Some(error) }));
                proof {
                    reveal_with_fuel(type_tokens, 3);
                    lemma_success_variant_tokens(success);
                    lemma_error_variant_tokens(error);
                    assert(vs[pe] == tokens@[pe].token@);
                    assert(vs.subrange(start, *pos as int) =~= vs.subrange(start, pe)
                        + seq![vs[pe]] + vs.subrange(pe + 1, *pos as int));
                    assert(vs.subrange(start, *pos as int) =~= type_tokens(t));
                }
            } else {
                t = TypeElement::Result(Box::new(ResultTypeItem { success, error: None }));
                proof {
                    reveal_with_fuel(type_tokens, 3);
                    lemma_success_variant_tokens(success);
                    assert(vs[pe] == tokens@[pe].token@);
                    assert(vs.subrange(start, *pos as int) =~= vs.subrange(start, pe)
                        + seq![vs[pe]]);
                    assert(vs.subrange(start, *pos as int) =~= type_tokens(t));
                }
            }
        } else {
            break;
        }
    }
    proof {
        if *pos == start + 1 {
            assert(vs.subrange(start, *pos as int) =~= seq![vs[start]]);
            match vs[start] {
                TokenView::Ident(n2) => {
                    lemma_single_ident_inversion(t, n2);
                },
                _ => {},
            }
        }
    }
    Ok(t)
}

// ------------------------------------------------------------------
// Type declaration bodies
// ------------------------------------------------------------------
/// The canonical token form of one record member group:
/// newline, name, colon, type.
pub open spec fn struct_member_tokens(m: StructTypeMember) -> Seq<TokenView> {
    seq![TokenView::Newline, TokenView::Ident(m.ident@), TokenView::Colon] + type_tokens(m.ty)
}

/// The canonical token form of a record body: its member groups in
/// order.
pub open spec fn struct_members_tokens(ms: Seq<StructTypeMember>) -> Seq<TokenView>
    decreases ms.len(),
{
    if ms.len() == 0 {
        Seq::empty()
    } else {
        struct_members_tokens(ms.drop_last()) + struct_member_tokens(ms.last())
    }
}

/// Appending one member appends its member group.
pub proof fn lemma_struct_members_tokens_push(ms: Seq<StructTypeMember>, m: StructTypeMember)
    ensures
        struct_members_tokens(ms.push(m)) == struct_members_tokens(ms) + struct_member_tokens(m),
{
    let pushed = ms.push(m);
    assert(pushed.drop_last() =~= ms);
    assert(pushed.last() == m);
}

/// The canonical token form of a tuple body: the member types joined by
/// commas.
pub open spec fn tuple_members_tokens(ms: Seq<TupleTypeMember>) -> Seq<TokenView>
    decreases ms.len(),
{
    if ms.len() == 0 {
        Seq::empty()
    } else if ms.len() == 1 {
        type_tokens(ms[0].ty)
    } else {
        tuple_members_tokens(ms.drop_last()) + seq![TokenView::Comma] + type_tokens(ms.last().ty)
    }
}

/// Appending one member appends a comma and its type's token form.
pub proof fn lemma_tuple_members_tokens_push(ms: Seq<TupleTypeMember>, m: TupleTypeMember)
    ensures
        ms.len() == 0 ==> tuple_members_tokens(ms.push(m)) == type_tokens(m.ty),
        ms.len() > 0 ==> tuple_members_tokens(ms.push(m)) == tuple_members_tokens(ms) + seq![
            TokenView::Comma,
        ] + type_tokens(m.ty),
{
    let pushed = ms.push(m);
    assert(pushed.drop_last() =~= ms);
    assert(pushed.last() == m);
    if ms.len() == 0 {
        assert(pushed[0] == m);
    }
}

/// Whether every member's type is a bare plain type.
pub open spec fn plain_members(ms: Seq<StructTypeMember>) -> bool {
    forall|i: int| 0 <= i < ms.len() ==> (#[trigger] ms[i]).ty is Plain
}

/// A member list's token form opens with its first member's group.
pub proof fn lemma_struct_members_tokens_first(ms: Seq<StructTypeMember>)
    requires
        ms.len() > 0,
    ensures
        struct_members_tokens(ms) == struct_member_tokens(ms[0]) + struct_members_tokens(
            ms.drop_first(),
        ),
    decreases ms.len(),
{
    if ms.len() == 1 {
        assert(ms.drop_last() =~= Seq::<StructTypeMember>::empty());
        assert(ms.drop_first() =~= Seq::<StructTypeMember>::empty());
        assert(ms[0] == ms.last());
        assert(struct_members_tokens(ms) =~= struct_member_tokens(ms[0])
            + struct_members_tokens(ms.drop_first()));
    } else {
        lemma_struct_members_tokens_first(ms.drop_last());
        assert(ms.drop_last()[0] == ms[0]);
        assert(ms.drop_last().drop_first() =~= ms.drop_first().drop_last());
        assert(ms.drop_first().last() == ms.last());
        assert(struct_members_tokens(ms) =~= struct_member_tokens(ms[0])
            + struct_members_tokens(ms.drop_first()));
    }
}

/// The token form of a member of plain type: newline, name, colon and
/// the type name.
pub proof fn lemma_plain_member_tokens(m: StructTypeMember, b: BasicTypeItem)
    requires
        m.ty == TypeElement::Plain(b),
    ensures
        struct_member_tokens(m) == seq![
            TokenView::Newline,
            TokenView::Ident(m.ident@),
            TokenView::Colon,
            TokenView::Ident(b.ident@),
        ],
{
    assert(type_tokens(m.ty) =~= seq![TokenView::Ident(b.ident@)]);
    assert(struct_member_tokens(m) =~= seq![
        TokenView::Newline,
        TokenView::Ident(m.ident@),
        TokenView::Colon,
        TokenView::Ident(b.ident@),
    ]);
}

/// Parses the member groups of a record body, each written as
/// `newline name ':' type`, consuming the whole region. Every member
/// gets inherited visibility. On a region that is exactly a member
/// list of plain types, success is owed.
pub fn parse_struct_type_members(tokens: &Vec<SpannedToken>, from: usize, to: usize) -> (r:
    Result<Vec<StructTypeMember>, TokenError>)
    requires
        from <= to <= tokens@.len(),
    ensures
        match r {
            Ok(ms) => {
                &&& token_views(tokens@).subrange(from as int, to as int)
                    == struct_members_tokens(ms@)
                &&& forall|i: int|
                    0 <= i < ms@.len() ==> (#[trigger] ms@[i]).visibility is Inherited
            },
            Err(_) => true,
        },
        from == to ==> (r matches Ok(ms) && ms@.len() == 0),
        (exists|ms: Seq<StructTypeMember>|
            plain_members(ms) && token_views(tokens@).subrange(from as int, to as int)
                == #[trigger] struct_members_tokens(ms)) ==> r is Ok,
{
    let ghost vs = token_views(tokens@);
    let mut members: Vec<StructTypeMember> = Vec::new();
    let mut pos: usize = from;
    proof {
        assert(vs.len() == tokens@.len());
        assert(vs.subrange(from as int, from as int) =~= struct_members_tokens(members@));
    }
    while pos < to
        invariant
            from <= pos <= to <= tokens@.len(),
            vs == token_views(tokens@),
            vs.len() == tokens@.len(),
            vs.subrange(from as int, pos as int) == struct_members_tokens(members@),
            forall|i: int|
                0 <= i < members@.len() ==> (#[trigger] members@[i]).visibility is Inherited,
            (exists|ms: Seq<StructTypeMember>|
                plain_members(ms) && vs.subrange(from as int, to as int)
                    == #[trigger] struct_members_tokens(ms)) ==> (exists|
                ms: Seq<StructTypeMember>,
            |
                plain_members(ms) && vs.subrange(pos as int, to as int)
                    == #[trigger] struct_members_tokens(ms)),
        decreases to - pos,
    {
        let ghost pn = pos as int;
        proof {
            assert((exists|ms: Seq<StructTypeMember>|
                plain_members(ms) && vs.subrange(from as int, to as int)
                    == #[trigger] struct_members_tokens(ms)) ==> (vs[pn] is Newline && pn + 4
                <= to && vs[pn + 1] is Ident && vs[pn + 2] is Colon && vs[pn + 3] is Ident && (pn
                + 4 == to || vs[pn + 4] is Newline) && (exists|rest: Seq<StructTypeMember>|
                plain_members(rest) && vs.subrange(pn + 4, to as int)
                    == #[trigger] struct_members_tokens(rest)))) by {
                if exists|ms: Seq<StructTypeMember>|
                    plain_members(ms) && vs.subrange(from as int, to as int)
                        == #[trigger] struct_members_tokens(ms) {
                    let ms2 = choose|ms: Seq<StructTypeMember>|
                        plain_members(ms) && vs.subrange(pn, to as int)
                            == #[trigger] struct_members_tokens(ms);
                    if ms2.len() == 0 {
                        assert(vs.subrange(pn, to as int).len() == 0);
                    } else {
                        lemma_struct_members_tokens_first(ms2);
                        assert(ms2[0].ty is Plain);
                        match ms2[0].ty {
                            TypeElement::Plain(b) => {
                                lemma_plain_member_tokens(ms2[0], b);
                            },
                            _ => {},
                        }
                        assert(vs.subrange(pn, to as int)[0] == vs[pn]);
                        assert(vs.subrange(pn, to as int)[1] == vs[pn + 1]);
                        assert(vs.subrange(pn, to as int)[2] == vs[pn + 2]);
                        assert(vs.subrange(pn, to as int)[3] == vs[pn + 3]);
                        assert(struct_member_tokens(ms2[0]).len() == 4);
                        assert(vs.subrange(pn, to as int).len() == 4 + struct_members_tokens(
                            ms2.drop_first(),
                        ).len());
                        assert forall|i: int|
                            0 <= i < struct_members_tokens(ms2.drop_first()).len() implies vs.subrange(
                            pn + 4,
                            to as int,
                        )[i] == struct_members_tokens(ms2.drop_first())[i] by {
                            assert(struct_members_tokens(ms2.drop_first())[i] == (
                            struct_member_tokens(ms2[0]) + struct_members_tokens(
                                ms2.drop_first(),
                            ))[4 + i]);
                            assert(vs.subrange(pn, to as int)[4 + i] == vs[pn + 4 + i]);
                            assert(vs.subrange(pn + 4, to as int)[i] == vs[pn + 4 + i]);
                        }
                        assert(vs.subrange(pn + 4, to as int) =~= struct_members_tokens(
                            ms2.drop_first(),
                        ));
                        assert(plain_members(ms2.drop_first()));
                        let rest = ms2.drop_first();
                        if pn + 4 < to {
                            assert(rest.len() > 0);
                            lemma_struct_members_tokens_first(rest);
                            assert(rest[0].ty is Plain);
                            match rest[0].ty {
                                TypeElement::Plain(b2) => {
                                    lemma_plain_member_tokens(rest[0], b2);
                                },
                                _ => {},
                            }
                            assert(vs[pn + 4] == vs.subrange(pn + 4, to as int)[0]);
                        }
                    }
                }
            }
        }
        if !matches!(&tokens[pos].token, Token::Newline) {
            return Err(
                err_at(
                    span_at(tokens, pos),
                    "Expected newline before struct member.",
                    "each struct member stands on its own line",
                ),
            );
        }
        pos = pos + 1;
        if pos >= to {
            return Err(
                err_at(
                    span_at(tokens, pos),
                    "Expected struct member name but found end of struct body.",
                    "a member name is expected here",
                ),
            );
        }
        let ghost pi = pos as int;
        let field_name = match &tokens[pos].token {
            Token::Ident(n) => n.clone(),
            _ => {
                return Err(
                    err_at(
                        span_at(tokens, pos),
                        "Expected identifier for struct member name.",
                        "a member name is expected here",
                    ),
                );
            },
        };
        let field = Ident::new(field_name);
        pos = pos + 1;
        let ghost pc = pos as int;
        if pos >= to || !matches!(&tokens[pos].token, Token::Colon) {
            return Err(
                err_at(
                    span_at(tokens, pos),
                    "Expected colon after struct member name.",
                    "a colon separates the member name from its type",
                ),
            );
        }
        pos = pos + 1;
        let ty = parse_type_element(tokens, &mut pos, to)?;
        let ghost prev = members@;
        let member = StructTypeMember { visibility: Visibility::Inherited, ident: field, ty };
        members.push(member);
        proof {
            lemma_struct_members_tokens_push(prev, member);
            assert(vs[pn] == tokens@[pn].token@);
            assert(vs[pi] == tokens@[pi].token@);
            assert(vs[pc] == tokens@[pc].token@);
            assert(vs.subrange(from as int, pos as int) =~= vs.subrange(from as int, pn)
                + seq![vs[pn]] + seq![vs[pi]] + seq![vs[pc]] + vs.subrange(pc + 1, pos as int));
            assert(struct_member_tokens(member) =~= seq![vs[pn]] + seq![vs[pi]] + seq![vs[pc]]
                + vs.subrange(pc + 1, pos as int));
        }
    }
    Ok(members)
}

/// Whether every tuple member's type is a bare plain type.
pub open spec fn plain_tuple_members(ms: Seq<TupleTypeMember>) -> bool {
    forall|i: int| 0 <= i < ms.len() ==> (#[trigger] ms[i]).ty is Plain
}

/// A tuple member list's token form opens with its first member's type.
pub proof fn lemma_tuple_members_tokens_first(ms: Seq<TupleTypeMember>)
    requires
        ms.len() > 0,
    ensures
        ms.len() == 1 ==> tuple_members_tokens(ms) == type_tokens(ms[0].ty),
        ms.len() > 1 ==> tuple_members_tokens(ms) == type_tokens(ms[0].ty) + seq![
            TokenView::Comma,
        ] + tuple_members_tokens(ms.drop_first()),
    decreases ms.len(),
{
    reveal_with_fuel(tuple_members_tokens, 3);
    if ms.len() == 2 {
        assert(ms.drop_last()[0] == ms[0]);
        assert(ms.drop_first()[0] == ms[1]);
        assert(tuple_members_tokens(ms) =~= type_tokens(ms[0].ty) + seq![TokenView::Comma]
            + tuple_members_tokens(ms.drop_first()));
    } else if ms.len() > 2 {
        lemma_tuple_members_tokens_first(ms.drop_last());
        assert(ms.drop_last()[0] == ms[0]);
        assert(ms.drop_last().drop_first() =~= ms.drop_first().drop_last());
        assert(ms.drop_first().last() == ms.last());
        assert(ms.drop_first().len() > 1);
        assert(tuple_members_tokens(ms) =~= type_tokens(ms[0].ty) + seq![TokenView::Comma]
            + tuple_members_tokens(ms.drop_first()));
    }
}

/// Parses the comma-separated member types of a tuple body, consuming
/// the whole region; at least one member is required. Every member gets
/// inherited visibility. On a region that is exactly a comma-separated
/// list of plain type names, success is owed.
pub fn parse_tuple_type_members(tokens: &Vec<SpannedToken>, from: usize, to: usize) -> (r: Result<
    Vec<TupleTypeMember>,
    TokenError,
>)
    requires
        from <= to <= tokens@.len(),
    ensures
        match r {
            Ok(ms) => {
                &&& token_views(tokens@).subrange(from as int, to as int)
                    == tuple_members_tokens(ms@)
                &&& ms@.len() >= 1
                &&& forall|i: int|
                    0 <= i < ms@.len() ==> (#[trigger] ms@[i]).visibility is Inherited
            },
            Err(_) => true,
        },
        from == to ==> r is Err,
        (exists|ms: Seq<TupleTypeMember>|
            plain_tuple_members(ms) && ms.len() >= 1 && token_views(tokens@).subrange(
                from as int,
                to as int,
            ) == #[trigger] tuple_members_tokens(ms)) ==> r is Ok,
{
    let ghost vs = token_views(tokens@);
    let mut members: Vec<TupleTypeMember> = Vec::new();
    let mut pos: usize = from;
    proof {
        assert(vs.len() == tokens@.len());
        assert((exists|ms: Seq<TupleTypeMember>|
            plain_tuple_members(ms) && ms.len() >= 1 && vs.subrange(from as int, to as int)
                == #[trigger] tuple_members_tokens(ms)) ==> (from < to && vs[from as int]
            is Ident && (from + 1 >= to || vs[from + 1] is Comma) && (from + 1 == to || (vs[from
            + 1] is Comma && (exists|rest: Seq<TupleTypeMember>|
            plain_tuple_members(rest) && rest.len() >= 1 && vs.subrange(from + 2, to as int)
                == #[trigger] tuple_members_tokens(rest)))))) by {
            if exists|ms: Seq<TupleTypeMember>|
                plain_tuple_members(ms) && ms.len() >= 1 && vs.subrange(from as int, to as int)
                    == #[trigger] tuple_members_tokens(ms) {
                let ms = choose|ms: Seq<TupleTypeMember>|
                    plain_tuple_members(ms) && ms.len() >= 1 && vs.subrange(
                        from as int,
                        to as int,
                    ) == #[trigger] tuple_members_tokens(ms);
                lemma_tuple_members_tokens_first(ms);
                assert(ms[0].ty is Plain);
                match ms[0].ty {
                    TypeElement::Plain(b) => {
                        assert(type_tokens(ms[0].ty) =~= seq![TokenView::Ident(b.ident@)]);
                    },
                    _ => {},
                }
                assert(type_tokens(ms[0].ty).len() == 1);
                if ms.len() == 1 {
                    assert(tuple_members_tokens(ms) == type_tokens(ms[0].ty));
                } else {
                    assert(tuple_members_tokens(ms) == type_tokens(ms[0].ty) + seq![
                        TokenView::Comma,
                    ] + tuple_members_tokens(ms.drop_first()));
                }
                assert(vs.subrange(from as int, to as int).len() == tuple_members_tokens(
                    ms,
                ).len());
                assert(to - from >= 1);
                assert(vs.subrange(from as int, to as int)[0] == vs[from as int]);
                if ms.len() > 1 {
                    assert(vs.subrange(from as int, to as int)[1] == vs[from + 1]);
                    assert(plain_tuple_members(ms.drop_first()));
                    assert(ms.drop_first().len() >= 1);
                    assert forall|i: int|
                        0 <= i < vs.subrange(from + 2, to as int).len() implies vs.subrange(
                        from + 2,
                        to as int,
                    )[i] == tuple_members_tokens(ms.drop_first())[i] by {
                        assert(vs.subrange(from + 2, to as int)[i] == vs[from + 2 + i]);
                        assert(vs.subrange(from as int, to as int)[2 + i] == vs[from + 2 + i]);
                        assert(tuple_members_tokens(ms)[2 + i] == (type_tokens(ms[0].ty) + seq![
                            TokenView::Comma,
                        ] + tuple_members_tokens(ms.drop_first()))[2 + i]);
                    }
                    assert(vs.subrange(from + 2, to as int) =~= tuple_members_tokens(
                        ms.drop_first(),
                    ));
                }
            }
        }
    }
    let first = parse_type_element(tokens, &mut pos, to)?;
    members.push(TupleTypeMember { visibility: Visibility::Inherited, ty: first });
    while pos < to
        invariant
            from <= pos <= to <= tokens@.len(),
            vs == token_views(tokens@),
            vs.len() == tokens@.len(),
            members@.len() >= 1,
            vs.subrange(from as int, pos as int) == tuple_members_tokens(members@),
            forall|i: int|
                0 <= i < members@.len() ==> (#[trigger] members@[i]).visibility is Inherited,
            (exists|ms: Seq<TupleTypeMember>|
                plain_tuple_members(ms) && ms.len() >= 1 && vs.subrange(from as int, to as int)
                    == #[trigger] tuple_members_tokens(ms)) ==> (pos == to || (vs[pos as int]
                is Comma && (exists|rest: Seq<TupleTypeMember>|
                plain_tuple_members(rest) && rest.len() >= 1 && vs.subrange(pos + 1, to as int)
                    == #[trigger] tuple_members_tokens(rest)))),
        decreases to - pos,
    {
        let ghost pc = pos as int;
        proof {
            assert((exists|ms: Seq<TupleTypeMember>|
                plain_tuple_members(ms) && ms.len() >= 1 && vs.subrange(from as int, to as int)
                    == #[trigger] tuple_members_tokens(ms)) ==> (vs[pc] is Comma && pc + 1 < to
                && vs[pc + 1] is Ident && (pc + 2 >= to || vs[pc + 2] is Comma) && (pc + 2 == to
                || (vs[pc + 2] is Comma && (exists|rest2: Seq<TupleTypeMember>|
                plain_tuple_members(rest2) && rest2.len() >= 1 && vs.subrange(pc + 3, to as int)
                    == #[trigger] tuple_members_tokens(rest2)))))) by {
                if exists|ms: Seq<TupleTypeMember>|
                    plain_tuple_members(ms) && ms.len() >= 1 && vs.subrange(
                        from as int,
                        to as int,
                    ) == #[trigger] tuple_members_tokens(ms) {
                    let rest = choose|rest: Seq<TupleTypeMember>|
                        plain_tuple_members(rest) && rest.len() >= 1 && vs.subrange(
                            pc + 1,
                            to as int,
                        ) == #[trigger] tuple_members_tokens(rest);
                    lemma_tuple_members_tokens_first(rest);
                    assert(rest[0].ty is Plain);
                    match rest[0].ty {
                        TypeElement::Plain(b) => {
                            assert(type_tokens(rest[0].ty) =~= seq![TokenView::Ident(
                                b.ident@,
                            )]);
                        },
                        _ => {},
                    }
                    assert(type_tokens(rest[0].ty).len() == 1);
                    if rest.len() == 1 {
                        assert(tuple_members_tokens(rest) == type_tokens(rest[0].ty));
                    } else {
                        assert(tuple_members_tokens(rest) == type_tokens(rest[0].ty) + seq![
                            TokenView::Comma,
                        ] + tuple_members_tokens(rest.drop_first()));
                    }
                    assert(vs.subrange(pc + 1, to as int).len() == tuple_members_tokens(
                        rest,
                    ).len());
                    assert(vs.subrange(pc + 1, to as int)[0] == vs[pc + 1]);
                    if rest.len() > 1 {
                        assert(vs.subrange(pc + 1, to as int)[1] == vs[pc + 2]);
                        assert(plain_tuple_members(rest.drop_first()));
                        assert(rest.drop_first().len() >= 1);
                        assert forall|i: int|
                            0 <= i < vs.subrange(pc + 3, to as int).len() implies vs.subrange(
                            pc + 3,
                            to as int,
                        )[i] == tuple_members_tokens(rest.drop_first())[i] by {
                            assert(vs.subrange(pc + 3, to as int)[i] == vs[pc + 3 + i]);
                            assert(vs.subrange(pc + 1, to as int)[2 + i] == vs[pc + 3 + i]);
                            assert(tuple_members_tokens(rest)[2 + i] == (type_tokens(
                                rest[0].ty,
                            ) + seq![TokenView::Comma] + tuple_members_tokens(
                                rest.drop_first(),
                            ))[2 + i]);
                        }
                        assert(vs.subrange(pc + 3, to as int) =~= tuple_members_tokens(
                            rest.drop_first(),
                        ));
                    }
                }
            }
        }
        if !matches!(&tokens[pos].token, Token::Comma) {
            return Err(
                err_at(
                    span_at(tokens, pos),
                    "Expected comma between tuple type members.",
                    "tuple members are separated by commas",
                ),
            );
        }
        pos = pos + 1;
        let next = parse_type_element(tokens, &mut pos, to)?;
        let ghost prev = members@;
        let member = TupleTypeMember { visibility: Visibility::Inherited, ty: next };
        members.push(member);
        proof {
            lemma_tuple_members_tokens_push(prev, member);
            assert(vs[pc] == tokens@[pc].token@);
            assert(vs.subrange(from as int, pos as int) =~= vs.subrange(from as int, pc)
                + seq![vs[pc]] + vs.subrange(pc + 1, pos as int));
        }
    }
    Ok(members)
}

/// Parses the right-hand side of a type alias: one type element filling
/// the whole region.
pub fn parse_type_alias(tokens: &Vec<SpannedToken>, from: usize, to: usize) -> (r: Result<
    TypeElement,
    TokenError,
>)
    requires
        from <= to <= tokens@.len(),
    ensures
        match r {
            Ok(t) => token_views(tokens@).subrange(from as int, to as int) == type_tokens(t),
            Err(_) => true,
        },
        (to - from == 1 && token_views(tokens@)[from as int] is Ident) ==> r is Ok,
{
    let mut pos: usize = from;
    let t = parse_type_element(tokens, &mut pos, to)?;
    if pos != to {
        return Err(
            err_at(
                span_at(tokens, pos),
                "Unexpected token after the aliased type.",
                "the alias ends at the end of the line",
            ),
        );
    }
    Ok(t)
}

/// Shrinks the region end past any trailing newline tokens.
fn trim_trailing_newlines(tokens: &Vec<SpannedToken>, from: usize, to: usize) -> (r: usize)
    requires
        from <= to <= tokens@.len(),
    ensures
        from <= r <= to,
        forall|k: int| r <= k < to ==> token_views(tokens@)[k] is Newline,
        r == from || !(token_views(tokens@)[r - 1] is Newline),
{
    let ghost vs = token_views(tokens@);
    proof {
        assert(vs.len() == tokens@.len());
    }
    let mut j: usize = to;
    while j > from && matches!(&tokens[j - 1].token, Token::Newline)
        invariant
            from <= j <= to <= tokens@.len(),
            vs == token_views(tokens@),
            vs.len() == tokens@.len(),
            forall|k: int| j <= k < to ==> vs[k] is Newline,
        decreases j,
    {
        proof {
            assert(vs[j - 1] == tokens@[j - 1].token@);
        }
        j = j - 1;
    }
    proof {
        if j > from {
            assert(vs[j - 1] == tokens@[j - 1].token@);
        }
    }
    j
}

/// The index of the first newline in the region, or the region end if
/// there is none.
fn find_newline(tokens: &Vec<SpannedToken>, from: usize, to: usize) -> (r: usize)
    requires
        from <= to <= tokens@.len(),
    ensures
        from <= r <= to,
        forall|k: int| from <= k < r ==> !(token_views(tokens@)[k] is Newline),
        r < to ==> token_views(tokens@)[r as int] is Newline,
{
    let ghost vs = token_views(tokens@);
    proof {
        assert(vs.len() == tokens@.len());
    }
    let mut j: usize = from;
    while j < to && !matches!(&tokens[j].token, Token::Newline)
        invariant
            from <= j <= to <= tokens@.len(),
            vs == token_views(tokens@),
            vs.len() == tokens@.len(),
            forall|k: int| from <= k < j ==> !(vs[k] is Newline),
        decreases to - j,
    {
        proof {
            assert(vs[j as int] == tokens@[j as int].token@);
        }
        j = j + 1;
    }
    proof {
        if j < to {
            assert(vs[j as int] == tokens@[j as int].token@);
        }
    }
    j
}

/// Plain member groups hold only line breaks, identifiers and colons,
/// so a balanced scan passes over them untouched.
pub proof fn lemma_plain_members_tokens_flat(ms: Seq<StructTypeMember>)
    requires
        plain_members(ms),
    ensures
        forall|i: int|
            0 <= i < struct_members_tokens(ms).len() ==> close_delta(
                MatchingToken::Brace,
                #[trigger] struct_members_tokens(ms)[i],
            ) == 0,
    decreases ms.len(),
{
    if ms.len() > 0 {
        assert(plain_members(ms.drop_last()));
        lemma_plain_members_tokens_flat(ms.drop_last());
        assert(ms[ms.len() - 1] == ms.last());
        assert(ms.last().ty is Plain);
        match ms.last().ty {
            TypeElement::Plain(b) => {
                lemma_plain_member_tokens(ms.last(), b);
            },
            _ => {},
        }
        let left = struct_members_tokens(ms.drop_last());
        let right = struct_member_tokens(ms.last());
        assert forall|i: int|
            0 <= i < struct_members_tokens(ms).len() implies close_delta(
            MatchingToken::Brace,
            #[trigger] struct_members_tokens(ms)[i],
        ) == 0 by {
            if i < left.len() {
                assert(struct_members_tokens(ms)[i] == left[i]);
            } else {
                assert(struct_members_tokens(ms)[i] == right[i - left.len()]);
            }
        }
    }
}

/// A token run without the kind's delimiters keeps the balance at zero.
pub proof fn lemma_flat_excess(kind: MatchingToken, s: Seq<TokenView>)
    requires
        forall|i: int| 0 <= i < s.len() ==> close_delta(kind, #[trigger] s[i]) == 0,
    ensures
        close_excess(kind, s) == 0,
    decreases s.len(),
{
    if s.len() > 0 {
        assert(forall|i: int|
            0 <= i < s.drop_last().len() ==> close_delta(kind, #[trigger] s.drop_last()[i])
                == 0);
        lemma_flat_excess(kind, s.drop_last());
        assert(s.last() == s[s.len() - 1]);
    }
}

/// A record declaration whose members all have plain types stands at
/// `pos`: the name, an opening brace, the member groups, optional
/// trailing line breaks, and the matching closing brace.
pub open spec fn plain_struct_decl_at(
    vs: Seq<TokenView>,
    pos: int,
    mend: int,
    close: int,
    ms: Seq<StructTypeMember>,
) -> bool {
    &&& 0 <= pos && pos + 2 <= mend <= close < vs.len()
    &&& vs[pos] is Ident
    &&& vs[pos + 1] is BraceOpen
    &&& plain_members(ms)
    &&& vs.subrange(pos + 2, mend) == struct_members_tokens(ms)
    &&& (forall|k: int| mend <= k < close ==> vs[k] is Newline)
    &&& vs[close] is BraceClose
}

/// Within a plain record body and its trailing line breaks, every
/// brace-scan prefix keeps the balance at zero.
pub proof fn lemma_plain_struct_flat_prefixes(
    vs: Seq<TokenView>,
    body_from: int,
    wmend: int,
    wclose: int,
    ms: Seq<StructTypeMember>,
)
    requires
        0 <= body_from <= wmend <= wclose <= vs.len(),
        plain_members(ms),
        vs.subrange(body_from, wmend) == struct_members_tokens(ms),
        forall|k: int| wmend <= k < wclose ==> vs[k] is Newline,
    ensures
        forall|k: int|
            body_from <= k <= wclose ==> close_excess(
                MatchingToken::Brace,
                #[trigger] vs.subrange(body_from, k),
            ) == 0,
{
    lemma_plain_members_tokens_flat(ms);
    assert forall|k: int|
        body_from <= k <= wclose implies close_excess(
        MatchingToken::Brace,
        #[trigger] vs.subrange(body_from, k),
    ) == 0 by {
        assert forall|i: int|
            0 <= i < vs.subrange(body_from, k).len() implies close_delta(
            MatchingToken::Brace,
            #[trigger] vs.subrange(body_from, k)[i],
        ) == 0 by {
            let v = vs.subrange(body_from, k)[i];
            assert(v == vs[body_from + i]);
            if body_from + i < wmend {
                assert(v == struct_members_tokens(ms)[i]);
            } else {
                assert(v is Newline);
            }
        }
        lemma_flat_excess(MatchingToken::Brace, vs.subrange(body_from, k));
    }
}

/// The balanced scan over a plain record body first reaches depth one
/// exactly at the declaration's closing brace.
pub proof fn lemma_plain_struct_scan_target(
    vs: Seq<TokenView>,
    body_from: int,
    wmend: int,
    wclose: int,
    ms: Seq<StructTypeMember>,
)
    requires
        0 <= body_from <= wmend <= wclose < vs.len(),
        plain_members(ms),
        vs.subrange(body_from, wmend) == struct_members_tokens(ms),
        forall|k: int| wmend <= k < wclose ==> vs[k] is Newline,
        vs[wclose] is BraceClose,
    ensures
        close_excess(MatchingToken::Brace, vs.subrange(body_from, wclose + 1)) == 1,
        forall|k: int|
            body_from <= k < wclose ==> close_excess(
                MatchingToken::Brace,
                #[trigger] vs.subrange(body_from, k + 1),
            ) <= 0,
{
    lemma_plain_struct_flat_prefixes(vs, body_from, wmend, wclose, ms);
    assert(vs.subrange(body_from, wclose + 1).drop_last() =~= vs.subrange(body_from, wclose));
    assert(vs.subrange(body_from, wclose + 1).last() == vs[wclose]);
    assert forall|k: int|
        body_from <= k < wclose implies close_excess(
        MatchingToken::Brace,
        #[trigger] vs.subrange(body_from, k + 1),
    ) <= 0 by {
        assert(close_excess(MatchingToken::Brace, vs.subrange(body_from, k + 1)) == 0);
    }
}

/// Trimming the trailing line breaks of the scanned region lands
/// exactly on the end of the member groups.
pub proof fn lemma_plain_struct_member_end(
    vs: Seq<TokenView>,
    body_from: int,
    wmend: int,
    wclose: int,
    ms: Seq<StructTypeMember>,
    j: int,
)
    requires
        0 <= body_from <= wmend <= wclose <= vs.len(),
        plain_members(ms),
        vs.subrange(body_from, wmend) == struct_members_tokens(ms),
        forall|k: int| wmend <= k < wclose ==> vs[k] is Newline,
        body_from <= j <= wclose,
        forall|k: int| j <= k < wclose ==> vs[k] is Newline,
        j == body_from || !(vs[j - 1] is Newline),
    ensures
        j == wmend,
{
    if ms.len() > 0 {
        assert(ms[ms.len() - 1] == ms.last());
        assert(ms.last().ty is Plain);
        match ms.last().ty {
            TypeElement::Plain(b) => {
                lemma_plain_member_tokens(ms.last(), b);
            },
            _ => {},
        }
        assert(struct_members_tokens(ms).last() == struct_member_tokens(ms.last()).last());
        assert(vs[wmend - 1] == struct_members_tokens(ms)[wmend - 1 - body_from]);
        assert(vs[wmend - 1] is Ident);
        if j < wmend {
            assert(vs[wmend - 1] is Newline);
        }
        if j > wmend {
            assert(vs[j - 1] is Newline);
        }
    } else {
        assert(vs.subrange(body_from, wmend).len() == 0);
        if j > wmend {
            assert(vs[j - 1] is Newline);
        }
    }
}

/// Plain tuple member lists hold only identifiers and commas, so a
/// balanced scan passes over them untouched.
pub proof fn lemma_plain_tuple_members_tokens_flat(ms: Seq<TupleTypeMember>)
    requires
        plain_tuple_members(ms),
    ensures
        forall|i: int|
            0 <= i < tuple_members_tokens(ms).len() ==> close_delta(
                MatchingToken::Paren,
                #[trigger] tuple_members_tokens(ms)[i],
            ) == 0,
    decreases ms.len(),
{
    if ms.len() > 0 {
        assert(plain_tuple_members(ms.drop_last()));
        lemma_plain_tuple_members_tokens_flat(ms.drop_last());
        assert(ms[ms.len() - 1] == ms.last());
        assert(ms.last().ty is Plain);
        match ms.last().ty {
            TypeElement::Plain(b) => {
                assert(type_tokens(ms.last().ty) =~= seq![TokenView::Ident(b.ident@)]);
            },
            _ => {},
        }
        if ms.len() == 1 {
            assert(ms[0] == ms.last());
        } else {
            let left = tuple_members_tokens(ms.drop_last());
            let right = type_tokens(ms.last().ty);
            assert forall|i: int|
                0 <= i < tuple_members_tokens(ms).len() implies close_delta(
                MatchingToken::Paren,
                #[trigger] tuple_members_tokens(ms)[i],
            ) == 0 by {
                if i < left.len() {
                    assert(tuple_members_tokens(ms)[i] == left[i]);
                } else if i == left.len() {
                    assert(tuple_members_tokens(ms)[i] == TokenView::Comma);
                } else {
                    assert(tuple_members_tokens(ms)[i] == right[i - left.len() - 1]);
                }
            }
        }
    }
}

/// The balanced scan over a plain tuple body first reaches depth one
/// exactly at the declaration's closing parenthesis.
pub proof fn lemma_plain_tuple_scan_target(
    vs: Seq<TokenView>,
    body_from: int,
    wmend: int,
    wclose: int,
    ms: Seq<TupleTypeMember>,
)
    requires
        0 <= body_from <= wmend <= wclose < vs.len(),
        plain_tuple_members(ms),
        vs.subrange(body_from, wmend) == tuple_members_tokens(ms),
        forall|k: int| wmend <= k < wclose ==> vs[k] is Newline,
        vs[wclose] is ParenClose,
    ensures
        close_excess(MatchingToken::Paren, vs.subrange(body_from, wclose + 1)) == 1,
        forall|k: int|
            body_from <= k < wclose ==> close_excess(
                MatchingToken::Paren,
                #[trigger] vs.subrange(body_from, k + 1),
            ) <= 0,
{
    lemma_plain_tuple_members_tokens_flat(ms);
    assert forall|k: int|
        body_from <= k <= wclose implies close_excess(
        MatchingToken::Paren,
        #[trigger] vs.subrange(body_from, k),
    ) == 0 by {
        assert forall|i: int|
            0 <= i < vs.subrange(body_from, k).len() implies close_delta(
            MatchingToken::Paren,
            #[trigger] vs.subrange(body_from, k)[i],
        ) == 0 by {
            let v = vs.subrange(body_from, k)[i];
            assert(v == vs[body_from + i]);
            if body_from + i < wmend {
                assert(v == tuple_members_tokens(ms)[i]);
            } else {
                assert(v is Newline);
            }
        }
        lemma_flat_excess(MatchingToken::Paren, vs.subrange(body_from, k));
    }
    assert(vs.subrange(body_from, wclose + 1).drop_last() =~= vs.subrange(body_from, wclose));
    assert(vs.subrange(body_from, wclose + 1).last() == vs[wclose]);
    assert forall|k: int|
        body_from <= k < wclose implies close_excess(
        MatchingToken::Paren,
        #[trigger] vs.subrange(body_from, k + 1),
    ) <= 0 by {
        assert(close_excess(MatchingToken::Paren, vs.subrange(body_from, k + 1)) == 0);
    }
}

/// Trimming the trailing line breaks of the scanned tuple body lands
/// exactly on the end of the member list.
pub proof fn lemma_plain_tuple_member_end(
    vs: Seq<TokenView>,
    body_from: int,
    wmend: int,
    wclose: int,
    ms: Seq<TupleTypeMember>,
    j: int,
)
    requires
        0 <= body_from <= wmend <= wclose <= vs.len(),
        plain_tuple_members(ms),
        ms.len() >= 1,
        vs.subrange(body_from, wmend) == tuple_members_tokens(ms),
        forall|k: int| wmend <= k < wclose ==> vs[k] is Newline,
        body_from <= j <= wclose,
        forall|k: int| j <= k < wclose ==> vs[k] is Newline,
        j == body_from || !(vs[j - 1] is Newline),
    ensures
        j == wmend,
{
    assert(ms[ms.len() - 1] == ms.last());
    assert(ms.last().ty is Plain);
    match ms.last().ty {
        TypeElement::Plain(b) => {
            assert(type_tokens(ms.last().ty) =~= seq![TokenView::Ident(b.ident@)]);
        },
        _ => {},
    }
    if ms.len() == 1 {
        assert(ms[0] == ms.last());
        assert(tuple_members_tokens(ms) == type_tokens(ms[0].ty));
    } else {
        assert(tuple_members_tokens(ms) == tuple_members_tokens(ms.drop_last()) + seq![
            TokenView::Comma,
        ] + type_tokens(ms.last().ty));
    }
    assert(tuple_members_tokens(ms).last() is Ident);
    assert(vs[wmend - 1] == tuple_members_tokens(ms)[wmend - 1 - body_from]);
    assert(vs[wmend - 1] is Ident);
    if j < wmend {
        assert(vs[wmend - 1] is Newline);
    }
    if j > wmend {
        assert(vs[j - 1] is Newline);
    }
}

/// A tuple declaration whose members all have plain types stands at
/// `pos`: the name, an opening parenthesis, the comma-separated member
/// list, optional trailing line breaks, and the matching closing
/// parenthesis.
pub open spec fn plain_tuple_decl_at(
    vs: Seq<TokenView>,
    pos: int,
    mend: int,
    close: int,
    ms: Seq<TupleTypeMember>,
) -> bool {
    &&& 0 <= pos && pos + 2 <= mend <= close < vs.len()
    &&& vs[pos] is Ident
    &&& vs[pos + 1] is ParenOpen
    &&& plain_tuple_members(ms)
    &&& ms.len() >= 1
    &&& vs.subrange(pos + 2, mend) == tuple_members_tokens(ms)
    &&& (forall|k: int| mend <= k < close ==> vs[k] is Newline)
    &&& vs[close] is ParenClose
}

/// The message of the structural error listing the three legal type
/// declaration forms for the given type name.
pub open spec fn three_forms_msg(name: Seq<char>) -> Seq<char> {
    "Expected one of the following:\n    - type alias:  'type "@ + name
        + " = TypeA'\n    - struct type: 'type "@ + name
        + " { attr: TypeA, ... }'\n    - tuple type:  'type "@ + name
        + "(TypeA, TypeB, ...)'\nbut found an unexpected token instead"@
}

/// Parses a type declaration. The modifiers and the type keyword are
/// already consumed; the declared name comes first, then `{` opens a
/// record body, `(` a tuple body, and `=` begins an alias running to
/// the next newline or the end of input. Any other token is a
/// structural error listing the three legal forms. On a record or
/// tuple declaration whose members all have plain types, and on an
/// alias of a plain type, success is owed.
#[verifier::rlimit(100)]
pub fn parse_type(tokens: &Vec<SpannedToken>, pos: &mut usize, mods: &Modifiers) -> (r: Result<
    TypeDecl,
    TokenError,
>)
    requires
        *old(pos) <= tokens@.len(),
    ensures
        match r {
            Ok(d) => {
                &&& *old(pos) + 2 <= *final(pos) <= tokens@.len()
                &&& token_views(tokens@)[*old(pos) as int] == TokenView::Ident(d.spec_ident()@)
                &&& d.spec_visibility() == mods.visibility
                &&& match d {
                    TypeDecl::StructType(s) => {
                        &&& token_views(tokens@)[*old(pos) + 1] is BraceOpen
                        &&& token_views(tokens@)[*final(pos) - 1] is BraceClose
                        &&& exists|mend: int|
                            {
                                &&& *old(pos) + 2 <= mend <= *final(pos) - 1
                                &&& #[trigger] token_views(tokens@).subrange(
                                    *old(pos) + 2,
                                    mend,
                                ) == struct_members_tokens(s.members@)
                                &&& forall|k: int|
                                    mend <= k < *final(pos) - 1 ==> token_views(
                                        tokens@,
                                    )[k] is Newline
                            }
                        &&& close_excess(
                            MatchingToken::Brace,
                            token_views(tokens@).subrange(*old(pos) + 2, *final(pos) as int),
                        ) == 1
                        &&& forall|k: int|
                            *old(pos) + 2 <= k < *final(pos) - 1 ==> close_excess(
                                MatchingToken::Brace,
                                #[trigger] token_views(tokens@).subrange(*old(pos) + 2, k + 1),
                            ) <= 0
                    },
                    TypeDecl::TupleType(t) => {
                        &&& token_views(tokens@)[*old(pos) + 1] is ParenOpen
                        &&& token_views(tokens@)[*final(pos) - 1] is ParenClose
                        &&& exists|mend: int|
                            {
                                &&& *old(pos) + 2 <= mend <= *final(pos) - 1
                                &&& #[trigger] token_views(tokens@).subrange(
                                    *old(pos) + 2,
                                    mend,
                                ) == tuple_members_tokens(t.members@)
                                &&& forall|k: int|
                                    mend <= k < *final(pos) - 1 ==> token_views(
                                        tokens@,
                                    )[k] is Newline
                            }
                        &&& close_excess(
                            MatchingToken::Paren,
                            token_views(tokens@).subrange(*old(pos) + 2, *final(pos) as int),
                        ) == 1
                    },
                    TypeDecl::AliasType(a) => {
                        &&& token_views(tokens@)[*old(pos) + 1] is Assign
                        &&& exists|aend: int|
                            {
                                &&& *old(pos) + 2 <= aend <= tokens@.len()
                                &&& #[trigger] token_views(tokens@).subrange(
                                    *old(pos) + 2,
                                    aend,
                                ) == type_tokens(a.ty)
                                &&& (aend == tokens@.len() && *final(pos) == aend || aend
                                    < tokens@.len() && token_views(tokens@)[aend] is Newline
                                    && *final(pos) == aend + 1)
                            }
                    },
                }
            },
            Err(e) => {
                &&& *old(pos) >= tokens@.len() ==> e.msg@
                    == "Expected type name but found end of file."@
                &&& (*old(pos) < tokens@.len() && !(token_views(tokens@)[*old(pos) as int]
                    is Ident)) ==> e.msg@ == "Invalid identifier for type name"@
                &&& (*old(pos) < tokens@.len() && token_views(tokens@)[*old(pos) as int]
                    is Ident && *old(pos) + 1 >= tokens@.len()) ==> e.msg@
                    == "Expected type declaration body but found end of file."@
            },
        },
        match token_views(tokens@)[*old(pos) as int] {
            TokenView::Ident(n) => (*old(pos) + 1 < tokens@.len() && !(token_views(
                tokens@,
            )[*old(pos) + 1] is BraceOpen || token_views(tokens@)[*old(pos) + 1] is ParenOpen
                || token_views(tokens@)[*old(pos) + 1] is Assign)) ==> (r matches Err(e)
                && e.msg@ == three_forms_msg(n)),
            _ => true,
        },
        (exists|ms: Seq<StructTypeMember>, mend: int, close: int|
            #[trigger] plain_struct_decl_at(
                token_views(tokens@),
                *old(pos) as int,
                mend,
                close,
                ms,
            )) ==> (r matches Ok(d) && d matches TypeDecl::StructType(_)),
        (*old(pos) + 3 <= tokens@.len() && token_views(tokens@)[*old(pos) as int] is Ident
            && token_views(tokens@)[*old(pos) + 1] is Assign && token_views(tokens@)[*old(pos)
            + 2] is Ident && (*old(pos) + 3 == tokens@.len() || token_views(tokens@)[*old(pos)
            + 3] is Newline)) ==> (r matches Ok(d) && d matches TypeDecl::AliasType(_)),
        (exists|ms: Seq<TupleTypeMember>, mend: int, close: int|
            #[trigger] plain_tuple_decl_at(
                token_views(tokens@),
                *old(pos) as int,
                mend,
                close,
                ms,
            )) ==> (r matches Ok(d) && d matches TypeDecl::TupleType(_)),
{
    let ghost vs = token_views(tokens@);
    let ghost start = *pos as int;
    proof {
        assert(vs.len() == tokens@.len());
    }
    let end = tokens.len();
    if *pos >= end {
        return Err(
            err_at(
                span_at(tokens, *pos),
                "Expected type name but found end of file.",
                "a type name is expected here",
            ),
        );
    }
    let name = match &tokens[*pos].token {
        Token::Ident(n) => n.clone(),
        _ => {
            return Err(
                err_at(
                    span_at(tokens, *pos),
                    "Invalid identifier for type name",
                    "a type name is expected here",
                ),
            );
        },
    };
    let ident = TypeIdent { name };
    *pos = *pos + 1;
    if *pos >= end {
        return Err(
            err_at(
                span_at(tokens, *pos),
                "Expected type declaration body but found end of file.",
                "a type body is expected here",
            ),
        );
    }
    match &tokens[*pos].token {
        Token::BraceOpen => {
            *pos = *pos + 1;
            let body_from = *pos;
            proof {
                assert((exists|ms: Seq<StructTypeMember>, wmend: int, wclose: int|
                    #[trigger] plain_struct_decl_at(vs, start, wmend, wclose, ms)) ==> (exists|
                    wclose: int,
                |
                    {
                        &&& body_from <= wclose < tokens@.len()
                        &&& is_close_token(MatchingToken::Brace, vs[wclose])
                        &&& close_excess(
                            MatchingToken::Brace,
                            #[trigger] vs.subrange(body_from as int, wclose + 1),
                        ) == 1
                        &&& forall|k: int|
                            body_from <= k < wclose ==> close_excess(
                                MatchingToken::Brace,
                                #[trigger] vs.subrange(body_from as int, k + 1),
                            ) <= 0
                    })) by {
                    if exists|ms: Seq<StructTypeMember>, wmend: int, wclose: int|
                        #[trigger] plain_struct_decl_at(vs, start, wmend, wclose, ms) {
                        let (ms, wmend, wclose) = choose|
                            ms: Seq<StructTypeMember>,
                            wmend: int,
                            wclose: int,
                        | #[trigger] plain_struct_decl_at(vs, start, wmend, wclose, ms);
                        lemma_plain_struct_scan_target(vs, body_from as int, wmend, wclose, ms);
                    }
                }
            }
            let close = parse_until_matching(tokens, pos, end, MatchingToken::Brace)?;
            let mend = trim_trailing_newlines(tokens, body_from, close);
            proof {
                if exists|ms: Seq<StructTypeMember>, wmend: int, wclose: int|
                    #[trigger] plain_struct_decl_at(vs, start, wmend, wclose, ms) {
                    let (wms, wmend, wclose) = choose|
                        wms: Seq<StructTypeMember>,
                        wmend: int,
                        wclose: int,
                    | #[trigger] plain_struct_decl_at(vs, start, wmend, wclose, wms);
                    lemma_plain_struct_scan_target(vs, body_from as int, wmend, wclose, wms);
                    assert(close == wclose);
                    lemma_plain_struct_member_end(
                        vs,
                        body_from as int,
                        wmend,
                        wclose,
                        wms,
                        mend as int,
                    );
                    assert(vs.subrange(body_from as int, mend as int) == struct_members_tokens(
                        wms,
                    ));
                }
            }
            let members = parse_struct_type_members(tokens, body_from, mend)?;
            let d = TypeDecl::StructType(
                StructTypeDecl { visibility: mods.visibility, ident, members },
            );
            proof {
                assert(vs[start] == tokens@[start].token@);
                assert(vs[start + 1] == tokens@[start + 1].token@);
                assert(vs[close as int] == tokens@[close as int].token@);
            }
            Ok(d)
        },
        Token::ParenOpen => {
            *pos = *pos + 1;
            let body_from = *pos;
            proof {
                assert((exists|ms: Seq<TupleTypeMember>, wmend: int, wclose: int|
                    #[trigger] plain_tuple_decl_at(vs, start, wmend, wclose, ms)) ==> (exists|
                    wclose: int,
                |
                    {
                        &&& body_from <= wclose < tokens@.len()
                        &&& is_close_token(MatchingToken::Paren, vs[wclose])
                        &&& close_excess(
                            MatchingToken::Paren,
                            #[trigger] vs.subrange(body_from as int, wclose + 1),
                        ) == 1
                        &&& forall|k: int|
                            body_from <= k < wclose ==> close_excess(
                                MatchingToken::Paren,
                                #[trigger] vs.subrange(body_from as int, k + 1),
                            ) <= 0
                    })) by {
                    if exists|ms: Seq<TupleTypeMember>, wmend: int, wclose: int|
                        #[trigger] plain_tuple_decl_at(vs, start, wmend, wclose, ms) {
                        let (ms, wmend, wclose) = choose|
                            ms: Seq<TupleTypeMember>,
                            wmend: int,
                            wclose: int,
                        | #[trigger] plain_tuple_decl_at(vs, start, wmend, wclose, ms);
                        lemma_plain_tuple_scan_target(vs, body_from as int, wmend, wclose, ms);
                    }
                }
            }
            let close = parse_until_matching(tokens, pos, end, MatchingToken::Paren)?;
            let mend = trim_trailing_newlines(tokens, body_from, close);
            proof {
                if exists|ms: Seq<TupleTypeMember>, wmend: int, wclose: int|
                    #[trigger] plain_tuple_decl_at(vs, start, wmend, wclose, ms) {
                    let (wms, wmend, wclose) = choose|
                        wms: Seq<TupleTypeMember>,
                        wmend: int,
                        wclose: int,
                    | #[trigger] plain_tuple_decl_at(vs, start, wmend, wclose, wms);
                    lemma_plain_tuple_scan_target(vs, body_from as int, wmend, wclose, wms);
                    assert(close == wclose);
                    lemma_plain_tuple_member_end(
                        vs,
                        body_from as int,
                        wmend,
                        wclose,
                        wms,
                        mend as int,
                    );
                    assert(vs.subrange(body_from as int, mend as int) == tuple_members_tokens(
                        wms,
                    ));
                }
            }
            let members = parse_tuple_type_members(tokens, body_from, mend)?;
            let d = TypeDecl::TupleType(
                TupleTypeDecl { visibility: mods.visibility, ident, members },
            );
            proof {
                assert(vs[start] == tokens@[start].token@);
                assert(vs[start + 1] == tokens@[start + 1].token@);
                assert(vs[close as int] == tokens@[close as int].token@);
            }
            Ok(d)
        },
        Token::Assign => {
            *pos = *pos + 1;
            let body_from = *pos;
            let nl = find_newline(tokens, body_from, end);
            proof {
                if start + 3 <= tokens@.len() && vs[start] is Ident && vs[start + 1] is Assign
                    && vs[start + 2] is Ident && (start + 3 == tokens@.len() || vs[start
                    + 3] is Newline) {
                    assert(vs[start + 2] == tokens@[start + 2].token@);
                    if nl < end {
                        assert(vs[nl as int] == tokens@[nl as int].token@);
                    }
                    assert(nl == start + 3);
                }
            }
            let ty = parse_type_alias(tokens, body_from, nl)?;
            if nl < end {
                *pos = nl + 1;
            } else {
                *pos = nl;
            }
            let d = TypeDecl::AliasType(
                AliasTypeDecl { visibility: mods.visibility, ident, ty },
            );
            proof {
                assert(vs[start] == tokens@[start].token@);
                assert(vs[start + 1] == tokens@[start + 1].token@);
                if nl < end {
                    assert(vs[nl as int] == tokens@[nl as int].token@);
                }
            }
            Ok(d)
        },
        _ => {
            let mut msg = "Expected one of the following:\n    - type alias:  'type ".to_owned();
            msg.append(ident.as_str());
            msg.append(" = TypeA'\n    - struct type: 'type ");
            msg.append(ident.as_str());
            msg.append(" { attr: TypeA, ... }'\n    - tuple type:  'type ");
            msg.append(ident.as_str());
            msg.append("(TypeA, TypeB, ...)'\nbut found an unexpected token instead");
            Err(
                TokenError {
                    msg,
                    span: span_at(tokens, *pos),
                    annotation: "unexpected token after type name".to_owned(),
                },
            )
        },
    }
}

// ------------------------------------------------------------------
// Function signatures
// ------------------------------------------------------------------
/// The token form of an ownership modifier.
pub open spec fn modifier_tokens(m: Option<DeclModifier>) -> Seq<TokenView> {
    match m {
        None => Seq::empty(),
        Some(DeclModifier::Let) => seq![TokenView::LetKeyword],
        Some(DeclModifier::Mut) => seq![TokenView::MutKeyword],
        Some(DeclModifier::Ref) => seq![TokenView::RefKeyword],
    }
}

/// The canonical token form of one parameter:
/// optional modifier, name, colon, type.
pub open spec fn param_tokens(p: Param) -> Seq<TokenView> {
    modifier_tokens(p.decl_modifier) + seq![TokenView::Ident(p.identifier@), TokenView::Colon]
        + type_tokens(p.param_type)
}

/// The canonical token form of a parameter list: the parameters joined
/// by commas.
pub open spec fn params_tokens(ps: Seq<Param>) -> Seq<TokenView>
    decreases ps.len(),
{
    if ps.len() == 0 {
        Seq::empty()
    } else if ps.len() == 1 {
        param_tokens(ps[0])
    } else {
        params_tokens(ps.drop_last()) + seq![TokenView::Comma] + param_tokens(ps.last())
    }
}

/// Appending one parameter appends a comma and its token form.
pub proof fn lemma_params_tokens_push(ps: Seq<Param>, p: Param)
    ensures
        ps.len() == 0 ==> params_tokens(ps.push(p)) == param_tokens(p),
        ps.len() > 0 ==> params_tokens(ps.push(p)) == params_tokens(ps) + seq![TokenView::Comma]
            + param_tokens(p),
{
    let pushed = ps.push(p);
    assert(pushed.drop_last() =~= ps);
    assert(pushed.last() == p);
    if ps.len() == 0 {
        assert(pushed[0] == p);
    }
}

/// Parses one parameter starting at `*pos`.
fn parse_param(tokens: &Vec<SpannedToken>, pos: &mut usize, end: usize) -> (r: Result<
    Param,
    TokenError,
>)
    requires
        *old(pos) <= end <= tokens@.len(),
    ensures
        match r {
            Ok(p) => {
                &&& *old(pos) < *final(pos) <= end
                &&& token_views(tokens@).subrange(*old(pos) as int, *final(pos) as int)
                    == param_tokens(p)
            },
            Err(_) => *old(pos) <= *final(pos) <= end,
        },
{
    let ghost vs = token_views(tokens@);
    let ghost start = *pos as int;
    proof {
        assert(vs.len() == tokens@.len());
    }
    if *pos >= end {
        return Err(
            err_at(
                span_at(tokens, *pos),
                "Expected a parameter but found the end of the parameter list.",
                "a parameter is expected here",
            ),
        );
    }
    let decl_modifier = match &tokens[*pos].token {
        Token::LetKeyword => Some(DeclModifier::Let),
        Token::MutKeyword => Some(DeclModifier::Mut),
        Token::RefKeyword => Some(DeclModifier::Ref),
        _ => None,
    };
    let ghost pm = *pos as int;
    if decl_modifier.is_some() {
        *pos = *pos + 1;
    }
    let ghost pi = *pos as int;
    if *pos >= end {
        return Err(
            err_at(
                span_at(tokens, *pos),
                "Expected a parameter name but found the end of the parameter list.",
                "a parameter name is expected here",
            ),
        );
    }
    let name = match &tokens[*pos].token {
        Token::Ident(n) => n.clone(),
        _ => {
            return Err(
                err_at(
                    span_at(tokens, *pos),
                    "Expected identifier for parameter name.",
                    "a parameter name is expected here",
                ),
            );
        },
    };
    let identifier = Ident::new(name);
    *pos = *pos + 1;
    let ghost pc = *pos as int;
    if *pos >= end || !matches!(&tokens[*pos].token, Token::Colon) {
        return Err(
            err_at(
                span_at(tokens, *pos),
                "Expected colon after parameter name.",
                "a colon separates the parameter name from its type",
            ),
        );
    }
    *pos = *pos + 1;
    let param_type = parse_type_element(tokens, pos, end)?;
    let p = Param { identifier, param_type, decl_modifier };
    proof {
        assert(vs[pi] == tokens@[pi].token@);
        assert(vs[pc] == tokens@[pc].token@);
        if p.decl_modifier is Some {
            assert(vs[pm] == tokens@[pm].token@);
            assert(vs.subrange(start, *pos as int) =~= seq![vs[pm]] + seq![vs[pi]] + seq![vs[pc]]
                + vs.subrange(pc + 1, *pos as int));
        } else {
            assert(vs.subrange(start, *pos as int) =~= seq![vs[pi]] + seq![vs[pc]] + vs.subrange(
                pc + 1,
                *pos as int,
            ));
        }
        assert(vs.subrange(start, *pos as int) =~= param_tokens(p));
    }
    Ok(p)
}

/// Parses a comma-separated parameter list filling the whole region;
/// an empty region yields an empty list.
fn parse_params(tokens: &Vec<SpannedToken>, from: usize, to: usize) -> (r: Result<
    Vec<Param>,
    TokenError,
>)
    requires
        from <= to <= tokens@.len(),
    ensures
        match r {
            Ok(ps) => token_views(tokens@).subrange(from as int, to as int) == params_tokens(
                ps@,
            ),
            Err(_) => true,
        },
{
    let ghost vs = token_views(tokens@);
    let mut params: Vec<Param> = Vec::new();
    let mut pos: usize = from;
    proof {
        assert(vs.len() == tokens@.len());
        assert(vs.subrange(from as int, from as int) =~= params_tokens(params@));
    }
    if from == to {
        return Ok(params);
    }
    let first = parse_param(tokens, &mut pos, to)?;
    let ghost prev0: Seq<Param> = params@;
    params.push(first);
    proof {
        lemma_params_tokens_push(prev0, first);
    }
    while pos < to
        invariant
            from <= pos <= to <= tokens@.len(),
            vs == token_views(tokens@),
            vs.len() == tokens@.len(),
            params@.len() >= 1,
            vs.subrange(from as int, pos as int) == params_tokens(params@),
        decreases to - pos,
    {
        let ghost pc = pos as int;
        if !matches!(&tokens[pos].token, Token::Comma) {
            return Err(
                err_at(
                    span_at(tokens, pos),
                    "Expected comma between parameters.",
                    "parameters are separated by commas",
                ),
            );
        }
        pos = pos + 1;
        let next = parse_param(tokens, &mut pos, to)?;
        let ghost prev = params@;
        params.push(next);
        proof {
            lemma_params_tokens_push(prev, next);
            assert(vs[pc] == tokens@[pc].token@);
            assert(vs.subrange(from as int, pos as int) =~= vs.subrange(from as int, pc)
                + seq![vs[pc]] + vs.subrange(pc + 1, pos as int));
        }
    }
    Ok(params)
}

/// Parses a function declaration. The modifiers and the `fn` keyword
/// are already consumed: the name comes first, then the parenthesised
/// parameter list, an optional arrow and return type, and the braced
/// body, which is scanned for balance but not parsed into statements.
pub fn parse_fn(tokens: &Vec<SpannedToken>, pos: &mut usize, mods: &Modifiers) -> (r: Result<
    FnDecl,
    TokenError,
>)
    requires
        *old(pos) <= tokens@.len(),
    ensures
        match r {
            Ok(f) => {
                &&& *old(pos) + 4 <= *final(pos) <= tokens@.len()
                &&& token_views(tokens@)[*old(pos) as int] == TokenView::Ident(
                    f.signature.identifier@,
                )
                &&& f.signature.visibility == mods.visibility
                &&& token_views(tokens@)[*old(pos) + 1] is ParenOpen
                &&& exists|pclose: int|
                    {
                        &&& *old(pos) + 2 <= pclose < *final(pos)
                        &&& #[trigger] token_views(tokens@)[pclose] is ParenClose
                        &&& close_excess(
                            MatchingToken::Paren,
                            token_views(tokens@).subrange(*old(pos) + 2, pclose + 1),
                        ) == 1
                        &&& token_views(tokens@).subrange(*old(pos) + 2, pclose)
                            == params_tokens(f.signature.parameters.params@)
                        &&& match f.signature.return_type {
                            Some(rt) => token_views(tokens@)[pclose + 1] is Arrow && exists|
                                bopen: int,
                            |
                                {
                                    &&& pclose + 2 <= bopen < *final(pos)
                                    &&& #[trigger] token_views(tokens@)[bopen] is BraceOpen
                                    &&& token_views(tokens@).subrange(pclose + 2, bopen)
                                        == type_tokens(rt)
                                    &&& close_excess(
                                        MatchingToken::Brace,
                                        token_views(tokens@).subrange(
                                            bopen + 1,
                                            *final(pos) as int,
                                        ),
                                    ) == 1
                                },
                            None => pclose + 1 < *final(pos) && token_views(tokens@)[pclose
                                + 1] is BraceOpen && close_excess(
                                MatchingToken::Brace,
                                token_views(tokens@).subrange(pclose + 2, *final(pos) as int),
                            ) == 1,
                        }
                    }
                &&& token_views(tokens@)[*final(pos) - 1] is BraceClose
                &&& f.body.statements@.len() == 0
            },
            Err(e) => {
                &&& *old(pos) >= tokens@.len() ==> e.msg@
                    == "Expected function name but found end of file."@
                &&& (*old(pos) < tokens@.len() && !(token_views(tokens@)[*old(pos) as int]
                    is Ident)) ==> e.msg@ == "Invalid identifier for function name."@
                &&& (*old(pos) < tokens@.len() && token_views(tokens@)[*old(pos) as int]
                    is Ident && (*old(pos) + 1 >= tokens@.len() || !(token_views(
                    tokens@,
                )[*old(pos) + 1] is ParenOpen))) ==> e.msg@
                    == "Expected parameter list after function name."@
            },
        },
{
    let ghost vs = token_views(tokens@);
    let ghost start = *pos as int;
    proof {
        assert(vs.len() == tokens@.len());
    }
    let end = tokens.len();
    if *pos >= end {
        return Err(
            err_at(
                span_at(tokens, *pos),
                "Expected function name but found end of file.",
                "a function name is expected here",
            ),
        );
    }
    let name = match &tokens[*pos].token {
        Token::Ident(n) => n.clone(),
        _ => {
            return Err(
                err_at(
                    span_at(tokens, *pos),
                    "Invalid identifier for function name.",
                    "a function name is expected here",
                ),
            );
        },
    };
    let identifier = Ident::new(name);
    *pos = *pos + 1;
    if *pos >= end || !matches!(&tokens[*pos].token, Token::ParenOpen) {
        return Err(
            err_at(
                span_at(tokens, *pos),
                "Expected parameter list after function name.",
                "an opening parenthesis is expected here",
            ),
        );
    }
    *pos = *pos + 1;
    let params_from = *pos;
    let pclose = parse_until_matching(tokens, pos, end, MatchingToken::Paren)?;
    let params = parse_params(tokens, params_from, pclose)?;
    let return_type: Option<TypeElement>;
    if *pos < end && matches!(&tokens[*pos].token, Token::Arrow) {
        *pos = *pos + 1;
        let rt = parse_type_element(tokens, pos, end)?;
        return_type = Some(rt);
    } else {
        return_type = None;
    }
    if *pos >= end || !matches!(&tokens[*pos].token, Token::BraceOpen) {
        return Err(
            err_at(
                span_at(tokens, *pos),
                "Expected function body after the signature.",
                "an opening brace is expected here",
            ),
        );
    }
    let ghost bopen = *pos as int;
    *pos = *pos + 1;
    let _bclose = parse_until_matching(tokens, pos, end, MatchingToken::Brace)?;
    let f = FnDecl {
        signature: FnSignature {
            visibility: mods.visibility,
            identifier,
            parameters: ParamList { params },
            return_type,
        },
        body: Block { statements: Vec::new() },
    };
    proof {
        assert(vs[start] == tokens@[start].token@);
        assert(vs[start + 1] == tokens@[start + 1].token@);
        assert(vs[pclose as int] == tokens@[pclose as int].token@);
        assert(vs[bopen] == tokens@[bopen].token@);
        if f.signature.return_type is Some {
            assert(vs[pclose + 1] == tokens@[pclose + 1].token@);
        }
        assert(vs[*final(pos) - 1] == tokens@[*final(pos) - 1].token@);
    }
    Ok(f)
}

/// Parses the entry point declaration: a braced body, scanned for
/// balance but not parsed into statements. The `main` keyword is
/// already consumed; the asyncness seen before it is accepted and
/// carries no further data.
pub fn parse_main(tokens: &Vec<SpannedToken>, pos: &mut usize, asyncness: Async) -> (r: Result<
    MainDecl,
    TokenError,
>)
    requires
        *old(pos) <= tokens@.len(),
    ensures
        match r {
            Ok(m) => {
                &&& *old(pos) + 2 <= *final(pos) <= tokens@.len()
                &&& token_views(tokens@)[*old(pos) as int] is BraceOpen
                &&& token_views(tokens@)[*final(pos) - 1] is BraceClose
                &&& close_excess(
                    MatchingToken::Brace,
                    token_views(tokens@).subrange(*old(pos) + 1, *final(pos) as int),
                ) == 1
                &&& m == (MainDecl { body: Body {  } })
            },
            Err(e) => {
                ||| (*old(pos) >= tokens@.len() && e.msg@
                    == "Expected main body but found end of file."@)
                ||| (*old(pos) < tokens@.len() && !(token_views(tokens@)[*old(pos) as int]
                    is BraceOpen) && e.msg@ == "Expected '{' to open the main body."@)
                ||| (*old(pos) < tokens@.len() && token_views(tokens@)[*old(pos) as int]
                    is BraceOpen && e.msg@
                    == "Expected matching closing delimiter but found end of file."@ && (
                forall|k: int|
                    *old(pos) + 1 <= k < tokens@.len() ==> close_excess(
                        MatchingToken::Brace,
                        #[trigger] token_views(tokens@).subrange(*old(pos) + 1, k + 1),
                    ) <= 0))
            },
        },
{
    let ghost vs = token_views(tokens@);
    let ghost start = *pos as int;
    proof {
        assert(vs.len() == tokens@.len());
    }
    let end = tokens.len();
    let _ = asyncness;
    if *pos >= end {
        return Err(
            err_at(
                span_at(tokens, *pos),
                "Expected main body but found end of file.",
                "a braced body is expected here",
            ),
        );
    }
    if !matches!(&tokens[*pos].token, Token::BraceOpen) {
        proof {
            assert(vs[start] == tokens@[start].token@);
        }
        return Err(
            err_at(
                span_at(tokens, *pos),
                "Expected '{' to open the main body.",
                "a braced body is expected here",
            ),
        );
    }
    proof {
        assert(vs[start] == tokens@[start].token@);
    }
    *pos = *pos + 1;
    let close = parse_until_matching(tokens, pos, end, MatchingToken::Brace)?;
    proof {
        assert(vs[close as int] == tokens@[close as int].token@);
    }
    Ok(MainDecl { body: Body {  } })
}

/// Parses a test declaration: an optional string-literal description,
/// then a braced body scanned for balance. The `test` keyword is
/// already consumed. It fails exactly on an exhausted stream, on a
/// stream whose body is not opened by a brace after the optional
/// description, and on a body brace that is never closed.
pub fn parse_test(tokens: &Vec<SpannedToken>, pos: &mut usize, asyncness: Async) -> (r: Result<
    TestDecl,
    TokenError,
>)
    requires
        *old(pos) <= tokens@.len(),
    ensures
        match r {
            Ok(t) => {
                &&& *old(pos) < *final(pos) <= tokens@.len()
                &&& match t.name {
                    Some(n) => token_views(tokens@)[*old(pos) as int] == TokenView::StringLiteral(
                        n.text@,
                    ) && token_views(tokens@)[*old(pos) + 1] is BraceOpen && close_excess(
                        MatchingToken::Brace,
                        token_views(tokens@).subrange(*old(pos) + 2, *final(pos) as int),
                    ) == 1,
                    None => token_views(tokens@)[*old(pos) as int] is BraceOpen && close_excess(
                        MatchingToken::Brace,
                        token_views(tokens@).subrange(*old(pos) + 1, *final(pos) as int),
                    ) == 1,
                }
                &&& token_views(tokens@)[*final(pos) - 1] is BraceClose
            },
            Err(e) => {
                ||| (*old(pos) >= tokens@.len() && e.msg@
                    == "Expected test body or test description but found end of file."@)
                ||| (*old(pos) < tokens@.len() && match token_views(tokens@)[*old(pos) as int] {
                    TokenView::StringLiteral(_) => {
                        ||| ((*old(pos) + 1 >= tokens@.len() || !(token_views(tokens@)[*old(pos)
                            + 1] is BraceOpen)) && e.msg@
                            == "Expected '{' or a test description to open the test body."@)
                        ||| (*old(pos) + 1 < tokens@.len() && token_views(tokens@)[*old(pos)
                            + 1] is BraceOpen && (forall|k: int|
                            *old(pos) + 2 <= k < tokens@.len() ==> close_excess(
                                MatchingToken::Brace,
                                #[trigger] token_views(tokens@).subrange(*old(pos) + 2, k + 1),
                            ) <= 0) && e.msg@
                            == "Expected matching closing delimiter but found end of file."@)
                    },
                    TokenView::BraceOpen => (forall|k: int|
                        *old(pos) + 1 <= k < tokens@.len() ==> close_excess(
                            MatchingToken::Brace,
                            #[trigger] token_views(tokens@).subrange(*old(pos) + 1, k + 1),
                        ) <= 0) && e.msg@
                        == "Expected matching closing delimiter but found end of file."@,
                    _ => e.msg@ == "Expected '{' or a test description to open the test body."@,
                })
            },
        },
{
    let ghost vs = token_views(tokens@);
    let ghost start = *pos as int;
    proof {
        assert(vs.len() == tokens@.len());
    }
    let end = tokens.len();
    let _ = asyncness;
    if *pos >= end {
        return Err(
            err_at(
                span_at(tokens, *pos),
                "Expected test body or test description but found end of file.",
                "a test body is expected here",
            ),
        );
    }
    proof {
        assert(vs[start] == tokens@[start].token@);
    }
    let name = match &tokens[*pos].token {
        Token::StringLiteral(text) => Some(StringLiteral { text: text.clone() }),
        _ => None,
    };
    if name.is_some() {
        *pos = *pos + 1;
    }
    let ghost bopen = *pos as int;
    if *pos >= end || !matches!(&tokens[*pos].token, Token::BraceOpen) {
        return Err(
            err_at(
                span_at(tokens, *pos),
                "Expected '{' or a test description to open the test body.",
                "a braced body is expected here",
            ),
        );
    }
    proof {
        assert(vs[bopen] == tokens@[bopen].token@);
    }
    *pos = *pos + 1;
    let close = parse_until_matching(tokens, pos, end, MatchingToken::Brace)?;
    proof {
        assert(vs[close as int] == tokens@[close as int].token@);
    }
    Ok(TestDecl { name, body: Body {  } })
}

// ------------------------------------------------------------------
// The top level
// ------------------------------------------------------------------
/// The modifier accumulator at the start of a parse.
pub open spec fn initial_modifiers() -> Modifiers {
    Modifiers {
        visibility: Visibility::Inherited,
        constness: Const::Absent,
        asyncness: Async::Absent,
    }
}

/// What the top-level token walk decides first, reading modifiers until
/// the first declaration keyword: the stream may end, a declaration may
/// start, or one of the modifier faults occurs.
pub enum TopVerdict {
    /// The stream ended with no declaration keyword.
    End,
    /// A declaration keyword stands at the index, with the accumulated
    /// modifiers.
    Decl { at: int, mods: Modifiers },
    /// A modifier of a kind already seen stands at the index.
    DuplicateModifier { at: int },
    /// A main or test keyword stands at the index while a visibility or
    /// const modifier is active.
    EntryWithModifier { at: int },
    /// The reserved build keyword stands at the index.
    ReservedBuild { at: int },
    /// A token that cannot start a declaration stands at the index.
    UnexpectedToken { at: int },
}

/// Walks the top level from `pos` with modifier state `m`, skipping
/// newlines and accumulating modifiers, until it can give a verdict.
pub open spec fn top_verdict(vs: Seq<TokenView>, pos: int, m: Modifiers) -> TopVerdict
    decreases vs.len() - pos,
{
    if pos < 0 || pos >= vs.len() {
        TopVerdict::End
    } else {
        match vs[pos] {
            TokenView::Newline => top_verdict(vs, pos + 1, m),
            TokenView::PublicKeyword => if m.visibility is Public {
                TopVerdict::DuplicateModifier { at: pos }
            } else {
                top_verdict(vs, pos + 1, Modifiers { visibility: Visibility::Public, ..m })
            },
            TokenView::ConstKeyword => if m.constness is Const {
                TopVerdict::DuplicateModifier { at: pos }
            } else {
                top_verdict(vs, pos + 1, Modifiers { constness: Const::Const, ..m })
            },
            TokenView::AsyncKeyword => if m.asyncness is Async {
                TopVerdict::DuplicateModifier { at: pos }
            } else {
                top_verdict(vs, pos + 1, Modifiers { asyncness: Async::Async, ..m })
            },
            TokenView::FnKeyword => TopVerdict::Decl { at: pos, mods: m },
            TokenView::TypeKeyword => TopVerdict::Decl { at: pos, mods: m },
            TokenView::MainKeyword => if m.visibility is Public || m.constness is Const {
                TopVerdict::EntryWithModifier { at: pos }
            } else {
                TopVerdict::Decl { at: pos, mods: m }
            },
            TokenView::TestKeyword => if m.visibility is Public || m.constness is Const {
                TopVerdict::EntryWithModifier { at: pos }
            } else {
                TopVerdict::Decl { at: pos, mods: m }
            },
            TokenView::BuildKeyword => TopVerdict::ReservedBuild { at: pos },
            _ => TopVerdict::UnexpectedToken { at: pos },
        }
    }
}

/// Parses one translation unit: top-level declarations with their
/// modifier prefixes. The first fault aborts the parse; up to the first
/// declaration keyword the outcome follows [`top_verdict`] exactly.
pub fn parse_source(tokens: &Vec<SpannedToken>) -> (r: Result<Ast, TokenError>)
    ensures
        top_verdict(token_views(tokens@), 0, initial_modifiers()) is End ==> (r matches Ok(a)
            && a.items@.len() == 0),
        top_verdict(token_views(tokens@), 0, initial_modifiers()) matches
            TopVerdict::DuplicateModifier { at } ==> (r matches Err(e) && e.span
            == tokens@[at].span && e.msg@ == "Duplicate declaration modifier."@),
        top_verdict(token_views(tokens@), 0, initial_modifiers()) matches
            TopVerdict::EntryWithModifier { at } ==> (r matches Err(e) && e.span
            == tokens@[at].span && e.msg@
            == "Entry point declarations do not accept visibility or const modifiers."@),
        top_verdict(token_views(tokens@), 0, initial_modifiers()) matches
            TopVerdict::ReservedBuild { at } ==> (r matches Err(e) && e.span == tokens@[at].span
            && e.msg@
            == "The build keyword is reserved but currently not implemented yet. Found at: "@),
        top_verdict(token_views(tokens@), 0, initial_modifiers()) matches
            TopVerdict::UnexpectedToken { at } ==> (r matches Err(e) && e.span
            == tokens@[at].span && e.msg@ == "Unexpected token at top level."@),
        r matches Ok(a) ==> (top_verdict(token_views(tokens@), 0, initial_modifiers()) matches
            TopVerdict::Decl { .. } ==> a.items@.len() >= 1),
{
    let ghost vs = token_views(tokens@);
    let ghost fv = top_verdict(vs, 0, initial_modifiers());
    let mut items: Vec<RootItem> = Vec::new();
    let mut m = Modifiers::new();
    let mut pos: usize = 0;
    let mut in_prefix_tracker: Ghost<bool> = Ghost(true);
    proof {
        assert(vs.len() == tokens@.len());
    }
    while pos < tokens.len()
        invariant
            pos <= tokens@.len(),
            vs == token_views(tokens@),
            vs.len() == tokens@.len(),
            fv == top_verdict(vs, 0, initial_modifiers()),
            in_prefix_tracker@ ==> fv == top_verdict(vs, pos as int, m),
            in_prefix_tracker@ ==> items@.len() == 0,
            !in_prefix_tracker@ ==> (fv matches TopVerdict::Decl { .. }),
            !in_prefix_tracker@ ==> items@.len() >= 1,
        decreases tokens@.len() - pos,
    {
        proof {
            assert(vs[pos as int] == tokens@[pos as int].token@);
        }
        match &tokens[pos].token {
            Token::Newline => {
                pos = pos + 1;
            },
            Token::FnKeyword => {
                proof {
                    if in_prefix_tracker@ {
                        assert(fv == (TopVerdict::Decl { at: pos as int, mods: m }));
                    }
                }
                in_prefix_tracker = Ghost(false);
                pos = pos + 1;
                let f = parse_fn(tokens, &mut pos, &m)?;
                items.push(RootItem::Fn(f));
                m.reset();
            },
            Token::TypeKeyword => {
                proof {
                    if in_prefix_tracker@ {
                        assert(fv == (TopVerdict::Decl { at: pos as int, mods: m }));
                    }
                }
                in_prefix_tracker = Ghost(false);
                pos = pos + 1;
                let d = parse_type(tokens, &mut pos, &m)?;
                items.push(RootItem::Type(d));
                m.reset();
            },
            Token::MainKeyword => {
                if m.has_vis_modifier() || m.has_const_modifier() {
                    return Err(
                        err_at(
                            span_at(tokens, pos),
                            "Entry point declarations do not accept visibility or const modifiers.",
                            "remove the modifier before this entry point",
                        ),
                    );
                }
                proof {
                    if in_prefix_tracker@ {
                        assert(fv == (TopVerdict::Decl { at: pos as int, mods: m }));
                    }
                }
                in_prefix_tracker = Ghost(false);
                pos = pos + 1;
                let d = parse_main(tokens, &mut pos, m.asyncness)?;
                items.push(RootItem::Main(d));
                m.reset();
            },
            Token::TestKeyword => {
                if m.has_vis_modifier() || m.has_const_modifier() {
                    return Err(
                        err_at(
                            span_at(tokens, pos),
                            "Entry point declarations do not accept visibility or const modifiers.",
                            "remove the modifier before this entry point",
                        ),
                    );
                }
                proof {
                    if in_prefix_tracker@ {
                        assert(fv == (TopVerdict::Decl { at: pos as int, mods: m }));
                    }
                }
                in_prefix_tracker = Ghost(false);
                pos = pos + 1;
                let d = parse_test(tokens, &mut pos, m.asyncness)?;
                items.push(RootItem::Test(d));
                m.reset();
            },
            Token::BuildKeyword => {
                return Err(
                    err_at(
                        span_at(tokens, pos),
                        "The build keyword is reserved but currently not implemented yet. Found at: ",
                        "the build keyword cannot be used yet",
                    ),
                );
            },
            Token::PublicKeyword => {
                if m.has_vis_modifier() {
                    return Err(
                        err_at(
                            span_at(tokens, pos),
                            "Duplicate declaration modifier.",
                            "this visibility modifier was already given",
                        ),
                    );
                }
                m.visibility = Visibility::Public;
                pos = pos + 1;
            },
            Token::ConstKeyword => {
                if m.has_const_modifier() {
                    return Err(
                        err_at(
                            span_at(tokens, pos),
                            "Duplicate declaration modifier.",
                            "this const modifier was already given",
                        ),
                    );
                }
                m.constness = Const::Const;
                pos = pos + 1;
            },
            Token::AsyncKeyword => {
                if m.has_async_modifier() {
                    return Err(
                        err_at(
                            span_at(tokens, pos),
                            "Duplicate declaration modifier.",
                            "this async modifier was already given",
                        ),
                    );
                }
                m.asyncness = Async::Async;
                pos = pos + 1;
            },
            _ => {
                return Err(
                    err_at(
                        span_at(tokens, pos),
                        "Unexpected token at top level.",
                        "a declaration or modifier is expected here",
                    ),
                );
            },
        }
    }
    Ok(Ast { items })
}

/// Two consecutive visibility modifiers at the top level are rejected
/// as a duplicate modifier, whatever state the accumulator is in.
pub proof fn lemma_duplicate_visibility_rejected(vs: Seq<TokenView>, pos: int, m: Modifiers)
    requires
        0 <= pos,
        pos + 1 < vs.len(),
        vs[pos] is PublicKeyword,
        vs[pos + 1] is PublicKeyword,
    ensures
        top_verdict(vs, pos, m) matches TopVerdict::DuplicateModifier { .. },
{
    if m.visibility is Public {
    } else {
        let m2 = Modifiers { visibility: Visibility::Public, ..m };
        assert(top_verdict(vs, pos, m) == top_verdict(vs, pos + 1, m2));
    }
}

/// A main or test keyword while a visibility or const modifier is
/// active is rejected; in particular `main` directly after a first
/// visibility or const modifier always is.
pub proof fn lemma_entry_after_modifier_rejected(vs: Seq<TokenView>, pos: int, m: Modifiers)
    requires
        0 <= pos,
        pos + 1 < vs.len(),
        vs[pos] is PublicKeyword || vs[pos] is ConstKeyword,
        vs[pos + 1] is MainKeyword || vs[pos + 1] is TestKeyword,
        !(m.visibility is Public),
        !(m.constness is Const),
    ensures
        top_verdict(vs, pos, m) == (TopVerdict::EntryWithModifier { at: pos + 1 }),
{
    if vs[pos] is PublicKeyword {
        let m2 = Modifiers { visibility: Visibility::Public, ..m };
        assert(top_verdict(vs, pos, m) == top_verdict(vs, pos + 1, m2));
    } else {
        let m2 = Modifiers { constness: Const::Const, ..m };
        assert(top_verdict(vs, pos, m) == top_verdict(vs, pos + 1, m2));
    }
}

} // verus!

