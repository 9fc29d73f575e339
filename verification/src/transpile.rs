//! The code generator: a structural recursion over the program tree
//! that emits target-language text.
//!
//! Every lowering has a mathematical counterpart over character
//! sequences, and each emitting function returns exactly that
//! counterpart's value, so the emitted text is pinned down completely.

use vstd::prelude::*;

use crate::ast::{
    Assignment, Block, ConstructorCall, ConstructorCallArg, DeclModifier, Declaration,
    Expression, FnDecl, FnSignature, FunctionCall, FunctionCallArg, MemberFieldAccess,
    MemberFunctionCall, Param, Statement, StructTypeMember, TupleTypeMember, TypeDecl,
    Visibility,
};
use crate::errors::GenerationError;
use crate::ident::TypeIdent;
use crate::errors::{LookupError, TranspileError};
use crate::ast::Ast;
use crate::resolver::{all_fns, all_types, builtin_names, ctx_matches, first_duplicate, lemma_first_duplicate_base_shrink, LookupContext, SegmentedAst};
use crate::source::Source;
use crate::source::TranspileOutput;
use crate::type_item::{
    ArrayTypeItem, DictionaryTypeItem, ErrorVariant, OptionalElement, OptionalTypeItem,
    OrderedDictionaryTypeItem, RefTypeItem, ResultTypeItem, SetTypeItem, SuccessVariant,
    TupleTypeItem, TypeElement,
};

verus! {

// ------------------------------------------------------------------
// Type lowering
// ------------------------------------------------------------------
impl TypeElement {
    /// The lowered form of this type: the structural mapping from the
    /// lattice to target-language type text.
    pub open spec fn lowered(self) -> Seq<char>
        decreases self,
    {
        match self {
            TypeElement::Plain(b) => b.ident@,
            TypeElement::Array(a) => array_lowered(*a),
            TypeElement::Dictionary(d) => dict_lowered(*d),
            TypeElement::OrderedDictionary(d) => ordered_dict_lowered(*d),
            TypeElement::SetType(s) => set_lowered(*s),
            TypeElement::Tuple(t) => tuple_lowered(*t),
            TypeElement::Optional(o) => optional_lowered(*o),
            TypeElement::Result(r) => result_lowered(*r),
            TypeElement::Ref(rf) => ref_lowered(*rf),
        }
    }
}

/// A sequence container lowers to a generic vector.
pub open spec fn array_lowered(a: ArrayTypeItem) -> Seq<char>
    decreases a,
{
    "std::collections::Vec<"@ + a.elements.lowered() + ">"@
}

/// An unordered mapping lowers to a generic hash map.
pub open spec fn dict_lowered(d: DictionaryTypeItem) -> Seq<char>
    decreases d,
{
    "std::collections::HashMap<"@ + d.key.lowered() + ", "@ + d.value.lowered() + ">"@
}

/// An insertion-ordered mapping lowers to a generic index map.
pub open spec fn ordered_dict_lowered(d: OrderedDictionaryTypeItem) -> Seq<char>
    decreases d,
{
    "indexmap::IndexMap<"@ + d.key.lowered() + ", "@ + d.value.lowered() + ">"@
}

/// A set lowers to a generic hash set.
pub open spec fn set_lowered(s: SetTypeItem) -> Seq<char>
    decreases s,
{
    "std::collections::HashSet<"@ + s.elements.lowered() + ">"@
}

/// A tuple lowers to a positional product.
pub open spec fn tuple_lowered(t: TupleTypeItem) -> Seq<char>
    decreases t,
{
    "("@ + type_list_lowered(t.elements@) + ")"@
}

/// A comma-joined list of lowered types.
pub open spec fn type_list_lowered(ts: Seq<TypeElement>) -> Seq<char>
    decreases ts,
{
    if ts.len() == 0 {
        Seq::empty()
    } else if ts.len() == 1 {
        ts[0].lowered()
    } else {
        type_list_lowered(ts.drop_last()) + ", "@ + ts.last().lowered()
    }
}

/// Appending one element appends a separator and its lowered form.
pub proof fn lemma_type_list_lowered_push(ts: Seq<TypeElement>, t: TypeElement)
    ensures
        ts.len() == 0 ==> type_list_lowered(ts.push(t)) == t.lowered(),
        ts.len() > 0 ==> type_list_lowered(ts.push(t)) == type_list_lowered(ts) + ", "@
            + t.lowered(),
{
    let pushed = ts.push(t);
    assert(pushed.drop_last() =~= ts);
    assert(pushed.last() == t);
    if ts.len() == 0 {
        assert(pushed[0] == t);
    }
}

/// An optional lowers to a single-case-or-absent wrapper.
pub open spec fn optional_lowered(o: OptionalTypeItem) -> Seq<char>
    decreases o,
{
    "Option<"@ + optional_element_lowered(o.some) + ">"@
}

/// The lowered form of an optional's inner type.
pub open spec fn optional_element_lowered(e: OptionalElement) -> Seq<char>
    decreases e,
{
    match e {
        OptionalElement::Plain(b) => b.ident@,
        OptionalElement::Array(a) => array_lowered(*a),
        OptionalElement::Dictionary(d) => dict_lowered(*d),
        OptionalElement::OrderedDictionary(d) => ordered_dict_lowered(*d),
        OptionalElement::SetType(s) => set_lowered(*s),
        OptionalElement::Tuple(t) => tuple_lowered(*t),
        OptionalElement::Ref(rf) => ref_lowered(*rf),
    }
}

/// A result lowers to a two-case wrapper; with no error variant it
/// lowers to a wrapper with a generic catch-all error type.
pub open spec fn result_lowered(r: ResultTypeItem) -> Seq<char>
    decreases r,
{
    match r.error {
        Some(e) => "Result<"@ + success_variant_lowered(r.success) + ", "@
            + error_variant_lowered(e) + ">"@,
        None => "anyhow::Result<"@ + success_variant_lowered(r.success) + ">"@,
    }
}

/// The lowered form of a result's success variant.
pub open spec fn success_variant_lowered(s: SuccessVariant) -> Seq<char>
    decreases s,
{
    match s {
        SuccessVariant::Plain(b) => b.ident@,
        SuccessVariant::Array(a) => array_lowered(*a),
        SuccessVariant::Dictionary(d) => dict_lowered(*d),
        SuccessVariant::OrderedDictionary(d) => ordered_dict_lowered(*d),
        SuccessVariant::SetType(st) => set_lowered(*st),
        SuccessVariant::Tuple(t) => tuple_lowered(*t),
        SuccessVariant::Ref(rf) => ref_lowered(*rf),
        SuccessVariant::Optional(o) => optional_lowered(*o),
    }
}

/// The lowered form of a result's error variant.
pub open spec fn error_variant_lowered(e: ErrorVariant) -> Seq<char>
    decreases e,
{
    match e {
        ErrorVariant::Plain(b) => b.ident@,
        ErrorVariant::Array(a) => array_lowered(*a),
        ErrorVariant::Dictionary(d) => dict_lowered(*d),
        ErrorVariant::OrderedDictionary(d) => ordered_dict_lowered(*d),
        ErrorVariant::SetType(s) => set_lowered(*s),
        ErrorVariant::Tuple(t) => tuple_lowered(*t),
        ErrorVariant::Ref(rf) => ref_lowered(*rf),
    }
}

/// A reference lowers to a shared-ownership handle with an internal
/// exclusive-access lock.
pub open spec fn ref_lowered(rf: RefTypeItem) -> Seq<char>
    decreases rf,
{
    "std::sync::Arc<std::sync::Mutex<"@ + rf.element.lowered() + ">>"@
}

/// An optional's inner type keeps its lowered form when lifted back to
/// a full lattice node.
pub proof fn lemma_optional_element_lowered(e: OptionalElement)
    ensures
        optional_element_lowered(e) == e.as_type_element().lowered(),
{
    match e {
        OptionalElement::Plain(_) => {},
        OptionalElement::Array(_) => {},
        OptionalElement::Dictionary(_) => {},
        OptionalElement::OrderedDictionary(_) => {},
        OptionalElement::SetType(_) => {},
        OptionalElement::Tuple(_) => {},
        OptionalElement::Ref(_) => {},
    }
}

/// A success variant keeps its lowered form when lifted back to a full
/// lattice node.
pub proof fn lemma_success_variant_lowered(s: SuccessVariant)
    ensures
        success_variant_lowered(s) == s.as_type_element().lowered(),
{
    match s {
        SuccessVariant::Plain(_) => {},
        SuccessVariant::Array(_) => {},
        SuccessVariant::Dictionary(_) => {},
        SuccessVariant::OrderedDictionary(_) => {},
        SuccessVariant::SetType(_) => {},
        SuccessVariant::Tuple(_) => {},
        SuccessVariant::Ref(_) => {},
        SuccessVariant::Optional(_) => {},
    }
}

/// An error variant keeps its lowered form when lifted back to a full
/// lattice node.
pub proof fn lemma_error_variant_lowered(e: ErrorVariant)
    ensures
        error_variant_lowered(e) == e.as_type_element().lowered(),
{
    match e {
        ErrorVariant::Plain(_) => {},
        ErrorVariant::Array(_) => {},
        ErrorVariant::Dictionary(_) => {},
        ErrorVariant::OrderedDictionary(_) => {},
        ErrorVariant::SetType(_) => {},
        ErrorVariant::Tuple(_) => {},
        ErrorVariant::Ref(_) => {},
    }
}

impl TypeElement {
    /// Emits the lowered form of this type.
    #[verifier::loop_isolation(false)]
    pub fn transpile(&self) -> (r: String)
        ensures
            r@ == self.lowered(),
        decreases self,
    {
        match self {
            TypeElement::Plain(b) => b.ident.name.clone(),
            TypeElement::Array(a) => {
                let mut s = "std::collections::Vec<".to_owned();
                let inner = a.elements.transpile();
                s.append(inner.as_str());
                s.append(">");
                proof {
                    reveal_with_fuel(TypeElement::lowered, 2);
                }
                s
            },
            TypeElement::Dictionary(d) => {
                let mut s = "std::collections::HashMap<".to_owned();
                let key = d.key.transpile();
                s.append(key.as_str());
                s.append(", ");
                let value = d.value.transpile();
                s.append(value.as_str());
                s.append(">");
                proof {
                    reveal_with_fuel(TypeElement::lowered, 2);
                }
                s
            },
            TypeElement::OrderedDictionary(d) => {
                let mut s = "indexmap::IndexMap<".to_owned();
                let key = d.key.transpile();
                s.append(key.as_str());
                s.append(", ");
                let value = d.value.transpile();
                s.append(value.as_str());
                s.append(">");
                proof {
                    reveal_with_fuel(TypeElement::lowered, 2);
                }
                s
            },
            TypeElement::SetType(st) => {
                let mut s = "std::collections::HashSet<".to_owned();
                let inner = st.elements.transpile();
                s.append(inner.as_str());
                s.append(">");
                proof {
                    reveal_with_fuel(TypeElement::lowered, 2);
                }
                s
            },
            TypeElement::Tuple(t) => {
                let mut s = "(".to_owned();
                let mut i: usize = 0;
                while i < t.elements.len()
                    invariant
                        i <= t.elements@.len(),
                        s@ == "("@ + type_list_lowered(t.elements@.subrange(0, i as int)),
                    decreases t.elements@.len() - i,
                {
                    if i > 0 {
                        s.append(", ");
                    }
                    let ghost prefix = t.elements@.subrange(0, i as int);
                    let piece = t.elements[i].transpile();
                    s.append(piece.as_str());
                    proof {
                        lemma_type_list_lowered_push(prefix, t.elements@[i as int]);
                        assert(t.elements@.subrange(0, i + 1) =~= prefix.push(
                            t.elements@[i as int],
                        ));
                    }
                    i = i + 1;
                }
                s.append(")");
                proof {
                    reveal_with_fuel(TypeElement::lowered, 2);
                    assert(t.elements@.subrange(0, t.elements@.len() as int) =~= t.elements@);
                }
                s
            },
            TypeElement::Optional(o) => {
                let mut s = "Option<".to_owned();
                let inner = o.some.transpile();
                s.append(inner.as_str());
                s.append(">");
                proof {
                    reveal_with_fuel(TypeElement::lowered, 2);
                }
                s
            },
            TypeElement::Result(r) => {
                let success = r.success.transpile();
                match &r.error {
                    Some(e) => {
                        let mut s = "Result<".to_owned();
                        s.append(success.as_str());
                        s.append(", ");
                        let err = e.transpile();
                        s.append(err.as_str());
                        s.append(">");
                        proof {
                            reveal_with_fuel(TypeElement::lowered, 2);
                        }
                        s
                    },
                    None => {
                        let mut s = "anyhow::Result<".to_owned();
                        s.append(success.as_str());
                        s.append(">");
                        proof {
                            reveal_with_fuel(TypeElement::lowered, 2);
                        }
                        s
                    },
                }
            },
            TypeElement::Ref(rf) => {
                let mut s = "std::sync::Arc<std::sync::Mutex<".to_owned();
                let inner = rf.element.transpile();
                s.append(inner.as_str());
                s.append(">>");
                proof {
                    reveal_with_fuel(TypeElement::lowered, 2);
                }
                s
            },
        }
    }
}

impl OptionalElement {
    /// Emits the lowered form of this restricted element.
    pub fn transpile(&self) -> (r: String)
        ensures
            r@ == optional_element_lowered(*self),
        decreases self,
    {
        match self {
            OptionalElement::Plain(b) => b.ident.name.clone(),
            OptionalElement::Array(a) => {
                let mut s = "std::collections::Vec<".to_owned();
                let inner = a.elements.transpile();
                s.append(inner.as_str());
                s.append(">");
                s
            },
            OptionalElement::Dictionary(d) => {
                let mut s = "std::collections::HashMap<".to_owned();
                let key = d.key.transpile();
                s.append(key.as_str());
                s.append(", ");
                let value = d.value.transpile();
                s.append(value.as_str());
                s.append(">");
                s
            },
            OptionalElement::OrderedDictionary(d) => {
                let mut s = "indexmap::IndexMap<".to_owned();
                let key = d.key.transpile();
                s.append(key.as_str());
                s.append(", ");
                let value = d.value.transpile();
                s.append(value.as_str());
                s.append(">");
                s
            },
            OptionalElement::SetType(st) => {
                let mut s = "std::collections::HashSet<".to_owned();
                let inner = st.elements.transpile();
                s.append(inner.as_str());
                s.append(">");
                s
            },
            OptionalElement::Tuple(t) => tuple_transpile(t),
            OptionalElement::Ref(rf) => ref_transpile(rf),
        }
    }
}

/// Emits the lowered form of a reference item.
fn ref_transpile(rf: &RefTypeItem) -> (r: String)
    ensures
        r@ == ref_lowered(*rf),
    decreases rf,
{
    let mut s = "std::sync::Arc<std::sync::Mutex<".to_owned();
    let inner = rf.element.transpile();
    s.append(inner.as_str());
    s.append(">>");
    s
}

/// Emits the lowered form of a tuple item.
fn tuple_transpile(t: &TupleTypeItem) -> (r: String)
    ensures
        r@ == tuple_lowered(*t),
    decreases t,
{
    let mut s = "(".to_owned();
    let mut i: usize = 0;
    while i < t.elements.len()
        invariant
            i <= t.elements@.len(),
            s@ == "("@ + type_list_lowered(t.elements@.subrange(0, i as int)),
        decreases t.elements@.len() - i,
    {
        if i > 0 {
            s.append(", ");
        }
        let ghost prefix = t.elements@.subrange(0, i as int);
        let piece = t.elements[i].transpile();
        s.append(piece.as_str());
        proof {
            lemma_type_list_lowered_push(prefix, t.elements@[i as int]);
            assert(t.elements@.subrange(0, i + 1) =~= prefix.push(t.elements@[i as int]));
        }
        i = i + 1;
    }
    s.append(")");
    proof {
        assert(t.elements@.subrange(0, t.elements@.len() as int) =~= t.elements@);
    }
    s
}

impl SuccessVariant {
    /// Emits the lowered form of this restricted variant.
    pub fn transpile(&self) -> (r: String)
        ensures
            r@ == success_variant_lowered(*self),
        decreases self,
    {
        match self {
            SuccessVariant::Plain(b) => b.ident.name.clone(),
            SuccessVariant::Array(a) => {
                let mut s = "std::collections::Vec<".to_owned();
                let inner = a.elements.transpile();
                s.append(inner.as_str());
                s.append(">");
                s
            },
            SuccessVariant::Dictionary(d) => {
                let mut s = "std::collections::HashMap<".to_owned();
                let key = d.key.transpile();
                s.append(key.as_str());
                s.append(", ");
                let value = d.value.transpile();
                s.append(value.as_str());
                s.append(">");
                s
            },
            SuccessVariant::OrderedDictionary(d) => {
                let mut s = "indexmap::IndexMap<".to_owned();
                let key = d.key.transpile();
                s.append(key.as_str());
                s.append(", ");
                let value = d.value.transpile();
                s.append(value.as_str());
                s.append(">");
                s
            },
            SuccessVariant::SetType(st) => {
                let mut s = "std::collections::HashSet<".to_owned();
                let inner = st.elements.transpile();
                s.append(inner.as_str());
                s.append(">");
                s
            },
            SuccessVariant::Tuple(t) => tuple_transpile(t),
            SuccessVariant::Ref(rf) => ref_transpile(rf),
            SuccessVariant::Optional(o) => {
                let mut s = "Option<".to_owned();
                let inner = o.some.transpile();
                s.append(inner.as_str());
                s.append(">");
                s
            },
        }
    }
}

impl ErrorVariant {
    /// Emits the lowered form of this restricted variant.
    pub fn transpile(&self) -> (r: String)
        ensures
            r@ == error_variant_lowered(*self),
        decreases self,
    {
        match self {
            ErrorVariant::Plain(b) => b.ident.name.clone(),
            ErrorVariant::Array(a) => {
                let mut s = "std::collections::Vec<".to_owned();
                let inner = a.elements.transpile();
                s.append(inner.as_str());
                s.append(">");
                s
            },
            ErrorVariant::Dictionary(d) => {
                let mut s = "std::collections::HashMap<".to_owned();
                let key = d.key.transpile();
                s.append(key.as_str());
                s.append(", ");
                let value = d.value.transpile();
                s.append(value.as_str());
                s.append(">");
                s
            },
            ErrorVariant::OrderedDictionary(d) => {
                let mut s = "indexmap::IndexMap<".to_owned();
                let key = d.key.transpile();
                s.append(key.as_str());
                s.append(", ");
                let value = d.value.transpile();
                s.append(value.as_str());
                s.append(">");
                s
            },
            ErrorVariant::SetType(st) => {
                let mut s = "std::collections::HashSet<".to_owned();
                let inner = st.elements.transpile();
                s.append(inner.as_str());
                s.append(">");
                s
            },
            ErrorVariant::Tuple(t) => tuple_transpile(t),
            ErrorVariant::Ref(rf) => ref_transpile(rf),
        }
    }
}

// ------------------------------------------------------------------
// Visibility, members and type declarations
// ------------------------------------------------------------------
/// The lowered form of a visibility: an exporting prefix or nothing.
pub open spec fn visibility_lowered(v: Visibility) -> Seq<char> {
    match v {
        Visibility::Public => "pub "@,
        Visibility::Inherited => Seq::empty(),
    }
}

impl Visibility {
    /// Emits the lowered form of this visibility.
    pub fn transpile(&self) -> (r: String)
        ensures
            r@ == visibility_lowered(*self),
    {
        match self {
            Visibility::Public => "pub ".to_owned(),
            Visibility::Inherited => String::new(),
        }
    }
}

/// The lowered form of one record member.
pub open spec fn struct_member_lowered(m: StructTypeMember) -> Seq<char> {
    visibility_lowered(m.visibility) + m.ident@ + ": "@ + m.ty.lowered()
}

/// Record members join with a comma and a line break.
pub open spec fn struct_members_lowered(ms: Seq<StructTypeMember>) -> Seq<char>
    decreases ms.len(),
{
    if ms.len() == 0 {
        Seq::empty()
    } else if ms.len() == 1 {
        struct_member_lowered(ms[0])
    } else {
        struct_members_lowered(ms.drop_last()) + ",\n"@ + struct_member_lowered(ms.last())
    }
}

proof fn lemma_struct_members_lowered_push(ms: Seq<StructTypeMember>, m: StructTypeMember)
    ensures
        ms.len() == 0 ==> struct_members_lowered(ms.push(m)) == struct_member_lowered(m),
        ms.len() > 0 ==> struct_members_lowered(ms.push(m)) == struct_members_lowered(ms)
            + ",\n"@ + struct_member_lowered(m),
{
    let pushed = ms.push(m);
    assert(pushed.drop_last() =~= ms);
    assert(pushed.last() == m);
    if ms.len() == 0 {
        assert(pushed[0] == m);
    }
}

/// The lowered form of one tuple member.
pub open spec fn tuple_member_lowered(m: TupleTypeMember) -> Seq<char> {
    visibility_lowered(m.visibility) + m.ty.lowered()
}

/// Tuple members join with a comma.
pub open spec fn tuple_members_lowered(ms: Seq<TupleTypeMember>) -> Seq<char>
    decreases ms.len(),
{
    if ms.len() == 0 {
        Seq::empty()
    } else if ms.len() == 1 {
        tuple_member_lowered(ms[0])
    } else {
        tuple_members_lowered(ms.drop_last()) + ", "@ + tuple_member_lowered(ms.last())
    }
}

proof fn lemma_tuple_members_lowered_push(ms: Seq<TupleTypeMember>, m: TupleTypeMember)
    ensures
        ms.len() == 0 ==> tuple_members_lowered(ms.push(m)) == tuple_member_lowered(m),
        ms.len() > 0 ==> tuple_members_lowered(ms.push(m)) == tuple_members_lowered(ms) + ", "@
            + tuple_member_lowered(m),
{
    let pushed = ms.push(m);
    assert(pushed.drop_last() =~= ms);
    assert(pushed.last() == m);
    if ms.len() == 0 {
        assert(pushed[0] == m);
    }
}

/// The lowered form of a type declaration: a record, a positional
/// product, or an alias.
pub open spec fn type_decl_lowered(d: TypeDecl) -> Seq<char> {
    match d {
        TypeDecl::StructType(s) => visibility_lowered(s.visibility) + "struct "@ + s.ident@
            + " {\n"@ + struct_members_lowered(s.members@) + "\n}"@,
        TypeDecl::TupleType(t) => visibility_lowered(t.visibility) + "struct "@ + t.ident@ + "("@
            + tuple_members_lowered(t.members@) + ");"@,
        TypeDecl::AliasType(a) => visibility_lowered(a.visibility) + "type "@ + a.ident@ + " = "@
            + a.ty.lowered() + ";"@,
    }
}

impl TypeDecl {
    /// Emits the lowered definition of this type declaration.
    #[verifier::loop_isolation(false)]
    #[verifier::rlimit(60)]
    pub fn transpile(&self) -> (r: String)
        ensures
            r@ == type_decl_lowered(*self),
    {
        match self {
            TypeDecl::StructType(sd) => {
                let mut s = sd.visibility.transpile();
                s.append("struct ");
                s.append(sd.ident.name.as_str());
                s.append(" {\n");
                let ghost mark = s@;
                let mut i: usize = 0;
                while i < sd.members.len()
                    invariant
                        i <= sd.members@.len(),
                        s@ == mark + struct_members_lowered(sd.members@.subrange(0, i as int)),
                    decreases sd.members@.len() - i,
                {
                    if i > 0 {
                        s.append(",\n");
                    }
                    let ghost prefix = sd.members@.subrange(0, i as int);
                    let m = &sd.members[i];
                    let vis = m.visibility.transpile();
                    s.append(vis.as_str());
                    s.append(m.ident.name.as_str());
                    s.append(": ");
                    let ty = m.ty.transpile();
                    s.append(ty.as_str());
                    proof {
                        lemma_struct_members_lowered_push(prefix, sd.members@[i as int]);
                        assert(sd.members@.subrange(0, i + 1) =~= prefix.push(
                            sd.members@[i as int],
                        ));
                    }
                    i = i + 1;
                }
                s.append("\n}");
                proof {
                    assert(sd.members@.subrange(0, sd.members@.len() as int) =~= sd.members@);
                }
                s
            },
            TypeDecl::TupleType(td) => {
                let mut s = td.visibility.transpile();
                s.append("struct ");
                s.append(td.ident.name.as_str());
                s.append("(");
                let ghost mark = s@;
                let mut i: usize = 0;
                while i < td.members.len()
                    invariant
                        i <= td.members@.len(),
                        s@ == mark + tuple_members_lowered(td.members@.subrange(0, i as int)),
                    decreases td.members@.len() - i,
                {
                    if i > 0 {
                        s.append(", ");
                    }
                    let ghost prefix = td.members@.subrange(0, i as int);
                    let m = &td.members[i];
                    let vis = m.visibility.transpile();
                    s.append(vis.as_str());
                    let ty = m.ty.transpile();
                    s.append(ty.as_str());
                    proof {
                        lemma_tuple_members_lowered_push(prefix, td.members@[i as int]);
                        assert(td.members@.subrange(0, i + 1) =~= prefix.push(
                            td.members@[i as int],
                        ));
                    }
                    i = i + 1;
                }
                s.append(");");
                proof {
                    assert(td.members@.subrange(0, td.members@.len() as int) =~= td.members@);
                }
                s
            },
            TypeDecl::AliasType(a) => {
                let mut s = a.visibility.transpile();
                s.append("type ");
                s.append(a.ident.name.as_str());
                s.append(" = ");
                let ty = a.ty.transpile();
                s.append(ty.as_str());
                s.append(";");
                s
            },
        }
    }
}

// ------------------------------------------------------------------
// Parameter ownership lowering
// ------------------------------------------------------------------
/// The text of a lowering that can fail with a generation fault.
pub open spec fn text_of(r: Result<String, GenerationError>) -> Result<Seq<char>, GenerationError> {
    match r {
        Ok(s) => Ok(s@),
        Err(e) => Err(e),
    }
}

/// The ownership lowering of one parameter, evaluated against the
/// universe's value-type classification.
///
/// With no modifier or `let`, the receiver lowers to an immutable
/// borrow of the enclosing value, a built-in value type is taken by
/// value, and anything else lowers to an immutable borrow. `mut`
/// lowers to a mutable borrow. `ref` lowers to a shared-ownership
/// handle with a lock; a receiver may not be declared that way.
pub open spec fn param_lowered(p: Param, ctx: LookupContext) -> Result<Seq<char>, GenerationError> {
    if p.identifier@ == "self"@ {
        match p.decl_modifier {
            None => Ok("&self"@),
            Some(DeclModifier::Let) => Ok("&self"@),
            Some(DeclModifier::Mut) => Ok("&mut self"@),
            Some(DeclModifier::Ref) => Err(GenerationError::SelfAsSharedHandle),
        }
    } else {
        match p.decl_modifier {
            None | Some(DeclModifier::Let) => match p.param_type {
                TypeElement::Plain(b) => if ctx.spec_is_value_type(b.ident@) {
                    Ok(p.identifier@ + ": "@ + p.param_type.lowered())
                } else {
                    Ok(p.identifier@ + ": &"@ + p.param_type.lowered())
                },
                _ => Ok(p.identifier@ + ": &"@ + p.param_type.lowered()),
            },
            Some(DeclModifier::Mut) => Ok(p.identifier@ + ": &mut "@ + p.param_type.lowered()),
            Some(DeclModifier::Ref) => Ok(
                p.identifier@ + ": std::sync::Arc<std::sync::Mutex<"@ + p.param_type.lowered()
                    + ">>"@,
            ),
        }
    }
}

impl Param {
    /// Emits the ownership lowering of this parameter.
    pub fn transpile(&self, ctx: &LookupContext) -> (r: Result<String, GenerationError>)
        requires
            ctx.wf(),
        ensures
            text_of(r) == param_lowered(*self, *ctx),
    {
        let is_self = self.identifier.name == "self".to_owned();
        if is_self {
            match self.decl_modifier {
                None => Ok("&self".to_owned()),
                Some(DeclModifier::Let) => Ok("&self".to_owned()),
                Some(DeclModifier::Mut) => Ok("&mut self".to_owned()),
                Some(DeclModifier::Ref) => Err(GenerationError::SelfAsSharedHandle),
            }
        } else {
            match self.decl_modifier {
                None | Some(DeclModifier::Let) => {
                    let mut s = self.identifier.name.clone();
                    let by_value = match &self.param_type {
                        TypeElement::Plain(b) => ctx.is_copy(&b.ident),
                        _ => false,
                    };
                    if by_value {
                        s.append(": ");
                    } else {
                        s.append(": &");
                    }
                    let ty = self.param_type.transpile();
                    s.append(ty.as_str());
                    Ok(s)
                },
                Some(DeclModifier::Mut) => {
                    let mut s = self.identifier.name.clone();
                    s.append(": &mut ");
                    let ty = self.param_type.transpile();
                    s.append(ty.as_str());
                    Ok(s)
                },
                Some(DeclModifier::Ref) => {
                    let mut s = self.identifier.name.clone();
                    s.append(": std::sync::Arc<std::sync::Mutex<");
                    let ty = self.param_type.transpile();
                    s.append(ty.as_str());
                    s.append(">>");
                    Ok(s)
                },
            }
        }
    }
}

/// The lowering of a parameter list: the lowered parameters joined by
/// commas, or the first fault among them.
pub open spec fn params_lowered(ps: Seq<Param>, ctx: LookupContext) -> Result<
    Seq<char>,
    GenerationError,
>
    decreases ps.len(),
{
    if ps.len() == 0 {
        Ok(Seq::empty())
    } else if ps.len() == 1 {
        param_lowered(ps[0], ctx)
    } else {
        match params_lowered(ps.drop_last(), ctx) {
            Err(e) => Err(e),
            Ok(init) => match param_lowered(ps.last(), ctx) {
                Err(e) => Err(e),
                Ok(last) => Ok(init + ", "@ + last),
            },
        }
    }
}

proof fn lemma_params_lowered_push(ps: Seq<Param>, p: Param, ctx: LookupContext)
    ensures
        params_lowered(ps.push(p), ctx) == (match params_lowered(ps, ctx) {
            Err(e) => Err(e),
            Ok(init) => match param_lowered(p, ctx) {
                Err(e) => Err(e),
                Ok(last) => Ok(
                    if ps.len() == 0 {
                        last
                    } else {
                        init + ", "@ + last
                    },
                ),
            },
        }),
{
    let pushed = ps.push(p);
    assert(pushed.drop_last() =~= ps);
    assert(pushed.last() == p);
    if ps.len() == 0 {
        assert(pushed[0] == p);
    }
}

/// Emits the lowering of a parameter list.
pub fn transpile_params(ps: &Vec<Param>, ctx: &LookupContext) -> (r: Result<
    String,
    GenerationError,
>)
    requires
        ctx.wf(),
    ensures
        text_of(r) == params_lowered(ps@, *ctx),
{
    let mut s = String::new();
    let mut i: usize = 0;
    proof {
        assert(ps@.subrange(0, 0) =~= Seq::<Param>::empty());
    }
    while i < ps.len()
        invariant
            ctx.wf(),
            i <= ps@.len(),
            params_lowered(ps@.subrange(0, i as int), *ctx) == Ok::<_, GenerationError>(s@),
        decreases ps@.len() - i,
    {
        let ghost prefix = ps@.subrange(0, i as int);
        if i > 0 {
            s.append(", ");
        }
        let piece = match ps[i].transpile(ctx) {
            Ok(piece) => piece,
            Err(e) => {
                proof {
                    lemma_params_lowered_push(prefix, ps@[i as int], *ctx);
                    assert(ps@.subrange(0, i + 1) =~= prefix.push(ps@[i as int]));
                    lemma_params_lowered_err(ps@, *ctx, i + 1);
                }
                return Err(e);
            },
        };
        s.append(piece.as_str());
        proof {
            lemma_params_lowered_push(prefix, ps@[i as int], *ctx);
            assert(ps@.subrange(0, i + 1) =~= prefix.push(ps@[i as int]));
        }
        i = i + 1;
    }
    proof {
        assert(ps@.subrange(0, ps@.len() as int) =~= ps@);
    }
    Ok(s)
}

/// A fault in a parameter list prefix is the fault of the whole list.
proof fn lemma_params_lowered_err(ps: Seq<Param>, ctx: LookupContext, k: int)
    requires
        0 <= k <= ps.len(),
        params_lowered(ps.subrange(0, k), ctx) is Err,
    ensures
        params_lowered(ps, ctx) == params_lowered(ps.subrange(0, k), ctx),
    decreases ps.len() - k,
{
    if k == ps.len() {
        assert(ps.subrange(0, k) =~= ps);
    } else {
        let prefix = ps.subrange(0, k);
        lemma_params_lowered_push(prefix, ps[k], ctx);
        assert(ps.subrange(0, k + 1) =~= prefix.push(ps[k]));
        lemma_params_lowered_err(ps, ctx, k + 1);
    }
}

// ------------------------------------------------------------------
// Expressions and call-site argument lowering
// ------------------------------------------------------------------
/// The lowered form of an expression.
pub open spec fn expression_lowered(e: Expression) -> Result<Seq<char>, GenerationError>
    decreases e,
{
    match e {
        Expression::Ident(i) => Ok(i@),
        Expression::StringLiteral(s) => Ok(s.text@),
        Expression::NumberLiteral(n) => Ok(n.text@),
        Expression::FunctionCall(c) => function_call_lowered(c),
        Expression::MemberFunctionCall(m) => member_function_call_lowered(m),
        Expression::MemberFieldAccess(m) => member_field_access_lowered(m),
        Expression::ConstructorCall(c) => constructor_call_lowered(c),
    }
}

/// The lowered form of a free function call. Three built-in names are
/// intercepted and rewritten to primitive output statements; every
/// other call lowers to a direct call with comma-joined arguments.
pub open spec fn function_call_lowered(c: FunctionCall) -> Result<Seq<char>, GenerationError>
    decreases c,
{
    match call_args_lowered(c.arguments@) {
        Err(e) => Err(e),
        Ok(args) => if c.identifier@ == "println"@ {
            Ok("println!(\"{}\", "@ + args + ")"@)
        } else if c.identifier@ == "print"@ {
            Ok("print!(\"{}\", "@ + args + ")"@)
        } else if c.identifier@ == "debug"@ {
            Ok("println!(\"{:?}\", "@ + args + ")"@)
        } else {
            Ok(c.identifier@ + "("@ + args + ")"@)
        },
    }
}

/// The lowering of one call argument, mirroring the declaration-site
/// ownership rule. An unmodified identifier is wrapped in an explicit
/// read-access adapter before being borrowed; `mut` passes a mutable
/// borrow of a field or variable; `ref` clones the shared handle; a
/// `let` modifier, or a modifier on anything but a field or variable,
/// is a fault.
pub open spec fn call_arg_lowered(a: FunctionCallArg) -> Result<Seq<char>, GenerationError>
    decreases a,
{
    match a.modifier {
        Some(DeclModifier::Let) => Err(GenerationError::LetAsCallArgument),
        None => match a.expression {
            Expression::Ident(_) => match expression_lowered(a.expression) {
                Ok(x) => Ok("&(&"@ + x + ").__borrow()"@),
                Err(e) => Err(e),
            },
            _ => match expression_lowered(a.expression) {
                Ok(x) => Ok("&("@ + x + ")"@),
                Err(e) => Err(e),
            },
        },
        Some(DeclModifier::Mut) => match a.expression {
            Expression::Ident(_) | Expression::MemberFieldAccess(_) => match expression_lowered(
                a.expression,
            ) {
                Ok(x) => Ok("&mut "@ + x),
                Err(e) => Err(e),
            },
            _ => Err(GenerationError::ModifierOnNonLValue),
        },
        Some(DeclModifier::Ref) => match a.expression {
            Expression::Ident(_) | Expression::MemberFieldAccess(_) => match expression_lowered(
                a.expression,
            ) {
                Ok(x) => Ok("::std::sync::Arc::clone(&"@ + x + ")"@),
                Err(e) => Err(e),
            },
            _ => Err(GenerationError::ModifierOnNonLValue),
        },
    }
}

/// The lowering of a call argument list: the lowered arguments joined
/// by commas, or the first fault among them.
pub open spec fn call_args_lowered(args: Seq<FunctionCallArg>) -> Result<
    Seq<char>,
    GenerationError,
>
    decreases args,
{
    if args.len() == 0 {
        Ok(Seq::empty())
    } else if args.len() == 1 {
        call_arg_lowered(args[0])
    } else {
        match call_args_lowered(args.drop_last()) {
            Err(e) => Err(e),
            Ok(init) => match call_arg_lowered(args.last()) {
                Err(e) => Err(e),
                Ok(last) => Ok(init + ", "@ + last),
            },
        }
    }
}

/// The lowered form of a member function call.
pub open spec fn member_function_call_lowered(m: MemberFunctionCall) -> Result<
    Seq<char>,
    GenerationError,
>
    decreases m,
{
    match expression_lowered(*m.receiver) {
        Err(e) => Err(e),
        Ok(recv) => match call_args_lowered(m.arguments@) {
            Err(e) => Err(e),
            Ok(args) => Ok(recv + "."@ + m.identifier@ + "("@ + args + ")"@),
        },
    }
}

/// The lowered form of a member field access.
pub open spec fn member_field_access_lowered(m: MemberFieldAccess) -> Result<
    Seq<char>,
    GenerationError,
>
    decreases m,
{
    match expression_lowered(*m.receiver) {
        Err(e) => Err(e),
        Ok(recv) => Ok(recv + "."@ + m.identifier@),
    }
}

/// The lowered form of one constructor argument.
pub open spec fn constructor_arg_lowered(a: ConstructorCallArg) -> Result<
    Seq<char>,
    GenerationError,
>
    decreases a,
{
    match expression_lowered(a.expression) {
        Err(e) => Err(e),
        Ok(x) => Ok(a.ident@ + ": "@ + x),
    }
}

/// The lowering of a constructor argument list.
pub open spec fn constructor_args_lowered(args: Seq<ConstructorCallArg>) -> Result<
    Seq<char>,
    GenerationError,
>
    decreases args,
{
    if args.len() == 0 {
        Ok(Seq::empty())
    } else if args.len() == 1 {
        constructor_arg_lowered(args[0])
    } else {
        match constructor_args_lowered(args.drop_last()) {
            Err(e) => Err(e),
            Ok(init) => match constructor_arg_lowered(args.last()) {
                Err(e) => Err(e),
                Ok(last) => Ok(init + ", "@ + last),
            },
        }
    }
}

/// The lowered form of a record constructor call.
pub open spec fn constructor_call_lowered(c: ConstructorCall) -> Result<
    Seq<char>,
    GenerationError,
>
    decreases c,
{
    match constructor_args_lowered(c.arguments@) {
        Err(e) => Err(e),
        Ok(args) => Ok(c.identifier@ + " { "@ + args + " }"@),
    }
}

proof fn lemma_call_args_lowered_push(args: Seq<FunctionCallArg>, a: FunctionCallArg)
    ensures
        call_args_lowered(args.push(a)) == (match call_args_lowered(args) {
            Err(e) => Err(e),
            Ok(init) => match call_arg_lowered(a) {
                Err(e) => Err(e),
                Ok(last) => Ok(
                    if args.len() == 0 {
                        last
                    } else {
                        init + ", "@ + last
                    },
                ),
            },
        }),
{
    let pushed = args.push(a);
    assert(pushed.drop_last() =~= args);
    assert(pushed.last() == a);
    if args.len() == 0 {
        assert(pushed[0] == a);
    }
}

proof fn lemma_call_args_lowered_err(args: Seq<FunctionCallArg>, k: int)
    requires
        0 <= k <= args.len(),
        call_args_lowered(args.subrange(0, k)) is Err,
    ensures
        call_args_lowered(args) == call_args_lowered(args.subrange(0, k)),
    decreases args.len() - k,
{
    if k == args.len() {
        assert(args.subrange(0, k) =~= args);
    } else {
        let prefix = args.subrange(0, k);
        lemma_call_args_lowered_push(prefix, args[k]);
        assert(args.subrange(0, k + 1) =~= prefix.push(args[k]));
        lemma_call_args_lowered_err(args, k + 1);
    }
}

proof fn lemma_constructor_args_lowered_push(args: Seq<ConstructorCallArg>, a: ConstructorCallArg)
    ensures
        constructor_args_lowered(args.push(a)) == (match constructor_args_lowered(args) {
            Err(e) => Err(e),
            Ok(init) => match constructor_arg_lowered(a) {
                Err(e) => Err(e),
                Ok(last) => Ok(
                    if args.len() == 0 {
                        last
                    } else {
                        init + ", "@ + last
                    },
                ),
            },
        }),
{
    let pushed = args.push(a);
    assert(pushed.drop_last() =~= args);
    assert(pushed.last() == a);
    if args.len() == 0 {
        assert(pushed[0] == a);
    }
}

proof fn lemma_constructor_args_lowered_err(args: Seq<ConstructorCallArg>, k: int)
    requires
        0 <= k <= args.len(),
        constructor_args_lowered(args.subrange(0, k)) is Err,
    ensures
        constructor_args_lowered(args) == constructor_args_lowered(args.subrange(0, k)),
    decreases args.len() - k,
{
    if k == args.len() {
        assert(args.subrange(0, k) =~= args);
    } else {
        let prefix = args.subrange(0, k);
        lemma_constructor_args_lowered_push(prefix, args[k]);
        assert(args.subrange(0, k + 1) =~= prefix.push(args[k]));
        lemma_constructor_args_lowered_err(args, k + 1);
    }
}

impl Expression {
    /// Emits the lowered form of this expression.
    pub fn transpile(&self) -> (r: Result<String, GenerationError>)
        ensures
            text_of(r) == expression_lowered(*self),
        decreases self,
    {
        match self {
            Expression::Ident(i) => Ok(i.name.clone()),
            Expression::StringLiteral(s) => Ok(s.text.clone()),
            Expression::NumberLiteral(n) => Ok(n.text.clone()),
            Expression::FunctionCall(c) => c.transpile(),
            Expression::MemberFunctionCall(m) => m.transpile(),
            Expression::MemberFieldAccess(m) => m.transpile(),
            Expression::ConstructorCall(c) => c.transpile(),
        }
    }
}

impl FunctionCall {
    /// Emits the lowered form of this call, rewriting the three
    /// built-in output names.
    pub fn transpile(&self) -> (r: Result<String, GenerationError>)
        ensures
            text_of(r) == function_call_lowered(*self),
        decreases self,
    {
        let args = match transpile_call_args(&self.arguments) {
            Ok(args) => args,
            Err(e) => {
                return Err(e);
            },
        };
        if self.identifier.name == "println".to_owned() {
            let mut s = "println!(\"{}\", ".to_owned();
            s.append(args.as_str());
            s.append(")");
            Ok(s)
        } else if self.identifier.name == "print".to_owned() {
            let mut s = "print!(\"{}\", ".to_owned();
            s.append(args.as_str());
            s.append(")");
            Ok(s)
        } else if self.identifier.name == "debug".to_owned() {
            let mut s = "println!(\"{:?}\", ".to_owned();
            s.append(args.as_str());
            s.append(")");
            Ok(s)
        } else {
            let mut s = self.identifier.name.clone();
            s.append("(");
            s.append(args.as_str());
            s.append(")");
            Ok(s)
        }
    }
}

impl FunctionCallArg {
    /// Emits the lowering of this call argument.
    pub fn transpile(&self) -> (r: Result<String, GenerationError>)
        ensures
            text_of(r) == call_arg_lowered(*self),
        decreases self,
    {
        match self.modifier {
            Some(DeclModifier::Let) => Err(GenerationError::LetAsCallArgument),
            None => {
                let x = match self.expression.transpile() {
                    Ok(x) => x,
                    Err(e) => {
                        return Err(e);
                    },
                };
                if matches!(self.expression, Expression::Ident(_)) {
                    let mut s = "&(&".to_owned();
                    s.append(x.as_str());
                    s.append(").__borrow()");
                    Ok(s)
                } else {
                    let mut s = "&(".to_owned();
                    s.append(x.as_str());
                    s.append(")");
                    Ok(s)
                }
            },
            Some(DeclModifier::Mut) => {
                if matches!(self.expression, Expression::Ident(_)) || matches!(
                    self.expression,
                    Expression::MemberFieldAccess(_),
                ) {
                    let x = match self.expression.transpile() {
                        Ok(x) => x,
                        Err(e) => {
                            return Err(e);
                        },
                    };
                    let mut s = "&mut ".to_owned();
                    s.append(x.as_str());
                    Ok(s)
                } else {
                    Err(GenerationError::ModifierOnNonLValue)
                }
            },
            Some(DeclModifier::Ref) => {
                if matches!(self.expression, Expression::Ident(_)) || matches!(
                    self.expression,
                    Expression::MemberFieldAccess(_),
                ) {
                    let x = match self.expression.transpile() {
                        Ok(x) => x,
                        Err(e) => {
                            return Err(e);
                        },
                    };
                    let mut s = "::std::sync::Arc::clone(&".to_owned();
                    s.append(x.as_str());
                    s.append(")");
                    Ok(s)
                } else {
                    Err(GenerationError::ModifierOnNonLValue)
                }
            },
        }
    }
}

/// Emits the lowering of a call argument list.
#[verifier::loop_isolation(false)]
pub fn transpile_call_args(args: &Vec<FunctionCallArg>) -> (r: Result<String, GenerationError>)
    ensures
        text_of(r) == call_args_lowered(args@),
    decreases args,
{
    let mut s = String::new();
    let mut i: usize = 0;
    proof {
        assert(args@.subrange(0, 0) =~= Seq::<FunctionCallArg>::empty());
    }
    while i < args.len()
        invariant
            i <= args@.len(),
            call_args_lowered(args@.subrange(0, i as int)) == Ok::<_, GenerationError>(s@),
        decreases args@.len() - i,
    {
        let ghost prefix = args@.subrange(0, i as int);
        if i > 0 {
            s.append(", ");
        }
        let piece = match args[i].transpile() {
            Ok(piece) => piece,
            Err(e) => {
                proof {
                    lemma_call_args_lowered_push(prefix, args@[i as int]);
                    assert(args@.subrange(0, i + 1) =~= prefix.push(args@[i as int]));
                    lemma_call_args_lowered_err(args@, i + 1);
                }
                return Err(e);
            },
        };
        s.append(piece.as_str());
        proof {
            lemma_call_args_lowered_push(prefix, args@[i as int]);
            assert(args@.subrange(0, i + 1) =~= prefix.push(args@[i as int]));
        }
        i = i + 1;
    }
    proof {
        assert(args@.subrange(0, args@.len() as int) =~= args@);
    }
    Ok(s)
}

impl MemberFunctionCall {
    /// Emits the lowered form of this member call.
    pub fn transpile(&self) -> (r: Result<String, GenerationError>)
        ensures
            text_of(r) == member_function_call_lowered(*self),
        decreases self,
    {
        let recv = match self.receiver.transpile() {
            Ok(recv) => recv,
            Err(e) => {
                return Err(e);
            },
        };
        let args = match transpile_call_args(&self.arguments) {
            Ok(args) => args,
            Err(e) => {
                return Err(e);
            },
        };
        let mut s = recv;
        s.append(".");
        s.append(self.identifier.name.as_str());
        s.append("(");
        s.append(args.as_str());
        s.append(")");
        Ok(s)
    }
}

impl MemberFieldAccess {
    /// Emits the lowered form of this field access.
    pub fn transpile(&self) -> (r: Result<String, GenerationError>)
        ensures
            text_of(r) == member_field_access_lowered(*self),
        decreases self,
    {
        let recv = match self.receiver.transpile() {
            Ok(recv) => recv,
            Err(e) => {
                return Err(e);
            },
        };
        let mut s = recv;
        s.append(".");
        s.append(self.identifier.name.as_str());
        Ok(s)
    }
}

impl ConstructorCall {
    /// Emits the lowered form of this constructor call.
    #[verifier::loop_isolation(false)]
    pub fn transpile(&self) -> (r: Result<String, GenerationError>)
        ensures
            text_of(r) == constructor_call_lowered(*self),
        decreases self,
    {
        let mut args = String::new();
        let mut i: usize = 0;
        proof {
            assert(self.arguments@.subrange(0, 0) =~= Seq::<ConstructorCallArg>::empty());
        }
        while i < self.arguments.len()
            invariant
                i <= self.arguments@.len(),
                constructor_args_lowered(self.arguments@.subrange(0, i as int)) == Ok::<
                    _,
                    GenerationError,
                >(args@),
            decreases self.arguments@.len() - i,
        {
            let ghost prefix = self.arguments@.subrange(0, i as int);
            if i > 0 {
                args.append(", ");
            }
            let a = &self.arguments[i];
            let x = match a.expression.transpile() {
                Ok(x) => x,
                Err(e) => {
                    proof {
                        lemma_constructor_args_lowered_push(prefix, self.arguments@[i as int]);
                        assert(self.arguments@.subrange(0, i + 1) =~= prefix.push(
                            self.arguments@[i as int],
                        ));
                        lemma_constructor_args_lowered_err(self.arguments@, i + 1);
                    }
                    return Err(e);
                },
            };
            let mut piece = a.ident.name.clone();
            piece.append(": ");
            piece.append(x.as_str());
            args.append(piece.as_str());
            proof {
                lemma_constructor_args_lowered_push(prefix, self.arguments@[i as int]);
                assert(self.arguments@.subrange(0, i + 1) =~= prefix.push(
                    self.arguments@[i as int],
                ));
            }
            i = i + 1;
        }
        proof {
            assert(self.arguments@.subrange(0, self.arguments@.len() as int)
                =~= self.arguments@);
        }
        let mut s = self.identifier.name.clone();
        s.append(" { ");
        s.append(args.as_str());
        s.append(" }");
        Ok(s)
    }
}

// ------------------------------------------------------------------
// Statements and function declarations
// ------------------------------------------------------------------
/// The lowered form of a local declaration statement.
pub open spec fn declaration_lowered(d: Declaration) -> Result<Seq<char>, GenerationError> {
    let head = match d.decl_modifier {
        DeclModifier::Let => "let "@,
        DeclModifier::Mut => "let mut "@,
        DeclModifier::Ref => "let "@,
    };
    let annotation = match d.type_annotation {
        Some(t) => if d.decl_modifier is Ref {
            ": std::sync::Arc<std::sync::Mutex<"@ + t.lowered() + ">>"@
        } else {
            ": "@ + t.lowered()
        },
        None => Seq::empty(),
    };
    match d.expression {
        Some(e) => match expression_lowered(e) {
            Err(err) => Err(err),
            Ok(x) => if d.decl_modifier is Ref {
                Ok(
                    head + d.identifier@ + annotation
                        + " = std::sync::Arc::new(std::sync::Mutex::new("@ + x + "))"@,
                )
            } else {
                Ok(head + d.identifier@ + annotation + " = "@ + x)
            },
        },
        None => Ok(head + d.identifier@ + annotation),
    }
}

/// The lowered form of an assignment statement.
pub open spec fn assignment_lowered(a: Assignment) -> Result<Seq<char>, GenerationError> {
    match expression_lowered(a.target) {
        Err(e) => Err(e),
        Ok(t) => match expression_lowered(a.expression) {
            Err(e) => Err(e),
            Ok(x) => Ok(t + " = "@ + x),
        },
    }
}

/// The lowered form of one statement.
pub open spec fn statement_lowered(s: Statement) -> Result<Seq<char>, GenerationError> {
    match s {
        Statement::Expression(e) => expression_lowered(e),
        Statement::Declaration(d) => declaration_lowered(d),
        Statement::Assignment(a) => assignment_lowered(a),
    }
}

/// The lowering of a statement list: statements joined by `;` and a
/// line break, or the first fault among them.
pub open spec fn statements_lowered(ss: Seq<Statement>) -> Result<Seq<char>, GenerationError>
    decreases ss.len(),
{
    if ss.len() == 0 {
        Ok(Seq::empty())
    } else if ss.len() == 1 {
        statement_lowered(ss[0])
    } else {
        match statements_lowered(ss.drop_last()) {
            Err(e) => Err(e),
            Ok(init) => match statement_lowered(ss.last()) {
                Err(e) => Err(e),
                Ok(last) => Ok(init + ";\n"@ + last),
            },
        }
    }
}

proof fn lemma_statements_lowered_push(ss: Seq<Statement>, s: Statement)
    ensures
        statements_lowered(ss.push(s)) == (match statements_lowered(ss) {
            Err(e) => Err(e),
            Ok(init) => match statement_lowered(s) {
                Err(e) => Err(e),
                Ok(last) => Ok(
                    if ss.len() == 0 {
                        last
                    } else {
                        init + ";\n"@ + last
                    },
                ),
            },
        }),
{
    let pushed = ss.push(s);
    assert(pushed.drop_last() =~= ss);
    assert(pushed.last() == s);
    if ss.len() == 0 {
        assert(pushed[0] == s);
    }
}

proof fn lemma_statements_lowered_err(ss: Seq<Statement>, k: int)
    requires
        0 <= k <= ss.len(),
        statements_lowered(ss.subrange(0, k)) is Err,
    ensures
        statements_lowered(ss) == statements_lowered(ss.subrange(0, k)),
    decreases ss.len() - k,
{
    if k == ss.len() {
        assert(ss.subrange(0, k) =~= ss);
    } else {
        let prefix = ss.subrange(0, k);
        lemma_statements_lowered_push(prefix, ss[k]);
        assert(ss.subrange(0, k + 1) =~= prefix.push(ss[k]));
        lemma_statements_lowered_err(ss, k + 1);
    }
}

/// The lowered form of a braced statement block.
pub open spec fn block_lowered(b: Block) -> Result<Seq<char>, GenerationError> {
    match statements_lowered(b.statements@) {
        Err(e) => Err(e),
        Ok(s) => Ok("{\n"@ + s + "\n}"@),
    }
}

impl Statement {
    /// Emits the lowered form of this statement.
    pub fn transpile(&self) -> (r: Result<String, GenerationError>)
        ensures
            text_of(r) == statement_lowered(*self),
    {
        match self {
            Statement::Expression(e) => e.transpile(),
            Statement::Declaration(d) => d.transpile(),
            Statement::Assignment(a) => a.transpile(),
        }
    }
}

impl Assignment {
    /// Emits the lowered form of this assignment.
    pub fn transpile(&self) -> (r: Result<String, GenerationError>)
        ensures
            text_of(r) == assignment_lowered(*self),
    {
        let t = match self.target.transpile() {
            Ok(t) => t,
            Err(e) => {
                return Err(e);
            },
        };
        let x = match self.expression.transpile() {
            Ok(x) => x,
            Err(e) => {
                return Err(e);
            },
        };
        let mut s = t;
        s.append(" = ");
        s.append(x.as_str());
        Ok(s)
    }
}

impl Declaration {
    /// Emits the lowered form of this local declaration.
    pub fn transpile(&self) -> (r: Result<String, GenerationError>)
        ensures
            text_of(r) == declaration_lowered(*self),
    {
        let mut s = match self.decl_modifier {
            DeclModifier::Let => "let ".to_owned(),
            DeclModifier::Mut => "let mut ".to_owned(),
            DeclModifier::Ref => "let ".to_owned(),
        };
        s.append(self.identifier.name.as_str());
        match &self.type_annotation {
            Some(t) => {
                let mut ann: String;
                if matches!(self.decl_modifier, DeclModifier::Ref) {
                    ann = ": std::sync::Arc<std::sync::Mutex<".to_owned();
                    let ty = t.transpile();
                    ann.append(ty.as_str());
                    ann.append(">>");
                } else {
                    ann = ": ".to_owned();
                    let ty = t.transpile();
                    ann.append(ty.as_str());
                }
                s.append(ann.as_str());
            },
            None => {},
        }
        match &self.expression {
            Some(e) => {
                let x = match e.transpile() {
                    Ok(x) => x,
                    Err(err) => {
                        return Err(err);
                    },
                };
                if matches!(self.decl_modifier, DeclModifier::Ref) {
                    s.append(" = std::sync::Arc::new(std::sync::Mutex::new(");
                    s.append(x.as_str());
                    s.append("))");
                } else {
                    s.append(" = ");
                    s.append(x.as_str());
                }
            },
            None => {},
        }
        Ok(s)
    }
}

impl Block {
    /// Emits the lowered form of this block.
    #[verifier::loop_isolation(false)]
    pub fn transpile(&self) -> (r: Result<String, GenerationError>)
        ensures
            text_of(r) == block_lowered(*self),
    {
        let mut body = String::new();
        let mut i: usize = 0;
        proof {
            assert(self.statements@.subrange(0, 0) =~= Seq::<Statement>::empty());
        }
        while i < self.statements.len()
            invariant
                i <= self.statements@.len(),
                statements_lowered(self.statements@.subrange(0, i as int)) == Ok::<
                    _,
                    GenerationError,
                >(body@),
            decreases self.statements@.len() - i,
        {
            let ghost prefix = self.statements@.subrange(0, i as int);
            if i > 0 {
                body.append(";\n");
            }
            let piece = match self.statements[i].transpile() {
                Ok(piece) => piece,
                Err(e) => {
                    proof {
                        lemma_statements_lowered_push(prefix, self.statements@[i as int]);
                        assert(self.statements@.subrange(0, i + 1) =~= prefix.push(
                            self.statements@[i as int],
                        ));
                        lemma_statements_lowered_err(self.statements@, i + 1);
                    }
                    return Err(e);
                },
            };
            body.append(piece.as_str());
            proof {
                lemma_statements_lowered_push(prefix, self.statements@[i as int]);
                assert(self.statements@.subrange(0, i + 1) =~= prefix.push(
                    self.statements@[i as int],
                ));
            }
            i = i + 1;
        }
        proof {
            assert(self.statements@.subrange(0, self.statements@.len() as int)
                =~= self.statements@);
        }
        let mut s = "{\n".to_owned();
        s.append(body.as_str());
        s.append("\n}");
        Ok(s)
    }
}

/// The lowered form of a function signature: visibility, name,
/// parenthesised parameters, and the optional return type.
pub open spec fn fn_signature_lowered(sig: FnSignature, ctx: LookupContext) -> Result<
    Seq<char>,
    GenerationError,
> {
    match params_lowered(sig.parameters.params@, ctx) {
        Err(e) => Err(e),
        Ok(ps) => match sig.return_type {
            Some(rt) => Ok(
                visibility_lowered(sig.visibility) + "fn "@ + sig.identifier@ + "("@ + ps + ")"@
                    + " -> "@ + rt.lowered(),
            ),
            None => Ok(
                visibility_lowered(sig.visibility) + "fn "@ + sig.identifier@ + "("@ + ps
                    + ")"@,
            ),
        },
    }
}

impl FnSignature {
    /// Emits the lowered form of this signature.
    pub fn transpile(&self, ctx: &LookupContext) -> (r: Result<String, GenerationError>)
        requires
            ctx.wf(),
        ensures
            text_of(r) == fn_signature_lowered(*self, *ctx),
    {
        let ps = match transpile_params(&self.parameters.params, ctx) {
            Ok(ps) => ps,
            Err(e) => {
                return Err(e);
            },
        };
        let mut s = self.visibility.transpile();
        s.append("fn ");
        s.append(self.identifier.name.as_str());
        s.append("(");
        s.append(ps.as_str());
        s.append(")");
        match &self.return_type {
            Some(rt) => {
                s.append(" -> ");
                let ty = rt.transpile();
                s.append(ty.as_str());
            },
            None => {},
        }
        Ok(s)
    }
}

/// The lowered form of a function declaration: its signature and its
/// block.
pub open spec fn fn_decl_lowered(f: FnDecl, ctx: LookupContext) -> Result<
    Seq<char>,
    GenerationError,
> {
    match fn_signature_lowered(f.signature, ctx) {
        Err(e) => Err(e),
        Ok(sig) => match block_lowered(f.body) {
            Err(e) => Err(e),
            Ok(b) => Ok(sig + " "@ + b),
        },
    }
}

impl FnDecl {
    /// Emits the lowered form of this function declaration.
    pub fn transpile(&self, ctx: &LookupContext) -> (r: Result<String, GenerationError>)
        requires
            ctx.wf(),
        ensures
            text_of(r) == fn_decl_lowered(*self, *ctx),
    {
        let sig = match self.signature.transpile(ctx) {
            Ok(sig) => sig,
            Err(e) => {
                return Err(e);
            },
        };
        let b = match self.body.transpile() {
            Ok(b) => b,
            Err(e) => {
                return Err(e);
            },
        };
        let mut s = sig;
        s.append(" ");
        s.append(b.as_str());
        Ok(s)
    }
}

// ------------------------------------------------------------------
// Emitting text units
// ------------------------------------------------------------------
/// The receiver type name of a function: the name of its first
/// parameter's bare plain type, if it has one. A function with a
/// receiver is a member of that type; any other function is free.
pub open spec fn receiver_type_name(f: FnDecl) -> Option<Seq<char>> {
    match f.signature.spec_receiver() {
        Some(p) => match p.param_type {
            TypeElement::Plain(b) => Some(b.ident@),
            _ => None,
        },
        None => None,
    }
}

/// Whether a name is declared among the given type declarations.
pub open spec fn declared_contains(types: Seq<TypeDecl>, n: Seq<char>) -> bool {
    exists|i: int| 0 <= i < types.len() && (#[trigger] types[i]).spec_ident()@ == n
}

/// The lowered text of a function, where lowering is known to succeed.
pub open spec fn fn_text(f: FnDecl, ctx: LookupContext) -> Seq<char> {
    match fn_decl_lowered(f, ctx) {
        Ok(s) => s,
        Err(_) => Seq::empty(),
    }
}

/// Whether a function belongs to the free-function aggregate: it has
/// no receiver, or its receiver names a built-in rather than a
/// declared type.
pub open spec fn is_free_fn(f: FnDecl, types: Seq<TypeDecl>) -> bool {
    match receiver_type_name(f) {
        None => true,
        Some(n) => !declared_contains(types, n),
    }
}

/// The lowered texts of the functions attached to the named type, in
/// source order.
pub open spec fn member_texts(fns: Seq<FnDecl>, n: Seq<char>, ctx: LookupContext) -> Seq<
    Seq<char>,
>
    decreases fns.len(),
{
    if fns.len() == 0 {
        Seq::empty()
    } else if receiver_type_name(fns.last()) == Some(n) {
        member_texts(fns.drop_last(), n, ctx).push(fn_text(fns.last(), ctx))
    } else {
        member_texts(fns.drop_last(), n, ctx)
    }
}

/// The lowered texts of the free functions, in source order.
pub open spec fn free_texts(fns: Seq<FnDecl>, types: Seq<TypeDecl>, ctx: LookupContext) -> Seq<
    Seq<char>,
>
    decreases fns.len(),
{
    if fns.len() == 0 {
        Seq::empty()
    } else if is_free_fn(fns.last(), types) {
        free_texts(fns.drop_last(), types, ctx).push(fn_text(fns.last(), ctx))
    } else {
        free_texts(fns.drop_last(), types, ctx)
    }
}

/// Texts joined by a separator; an empty list joins to the empty text.
pub open spec fn join_texts(ss: Seq<Seq<char>>, sep: Seq<char>) -> Seq<char>
    decreases ss.len(),
{
    if ss.len() == 0 {
        Seq::empty()
    } else if ss.len() == 1 {
        ss[0]
    } else {
        join_texts(ss.drop_last(), sep) + sep + ss.last()
    }
}

proof fn lemma_join_texts_push(ss: Seq<Seq<char>>, x: Seq<char>, sep: Seq<char>)
    ensures
        ss.len() == 0 ==> join_texts(ss.push(x), sep) == x,
        ss.len() > 0 ==> join_texts(ss.push(x), sep) == join_texts(ss, sep) + sep + x,
{
    let pushed = ss.push(x);
    assert(pushed.drop_last() =~= ss);
    assert(pushed.last() == x);
    if ss.len() == 0 {
        assert(pushed[0] == x);
    }
}

/// The module line of one declared type in the aggregate unit.
pub open spec fn module_line(d: TypeDecl) -> Seq<char> {
    "mod "@ + d.spec_ident()@ + ";\npub use "@ + d.spec_ident()@ + "::*;\n"@
}

/// The module lines of the declared types, in order.
pub open spec fn module_lines(types: Seq<TypeDecl>) -> Seq<Seq<char>>
    decreases types.len(),
{
    if types.len() == 0 {
        Seq::empty()
    } else {
        module_lines(types.drop_last()).push(module_line(types.last()))
    }
}

proof fn lemma_module_lines_push(types: Seq<TypeDecl>, d: TypeDecl)
    ensures
        module_lines(types.push(d)) == module_lines(types).push(module_line(d)),
{
    let pushed = types.push(d);
    assert(pushed.drop_last() =~= types);
    assert(pushed.last() == d);
}

/// The content of the aggregate unit: the module lines of every
/// declared type, a blank line, and the free functions joined by blank
/// lines.
pub open spec fn lib_unit_content(
    types: Seq<TypeDecl>,
    fns: Seq<FnDecl>,
    ctx: LookupContext,
) -> Seq<char> {
    join_texts(module_lines(types), "\n"@) + "\n\n"@ + join_texts(
        free_texts(fns, types, ctx),
        "\n\n"@,
    )
}

/// The content of one declared type's unit: its lowered definition and
/// its attached member functions, joined by blank lines.
pub open spec fn type_unit_content(
    types: Seq<TypeDecl>,
    fns: Seq<FnDecl>,
    ctx: LookupContext,
    i: int,
) -> Seq<char> {
    join_texts(
        seq![type_decl_lowered(types[i])] + member_texts(fns, types[i].spec_ident()@, ctx),
        "\n\n"@,
    )
}

/// The first member function whose receiver type is neither declared
/// nor known to the universe.
pub open spec fn first_unresolved(
    fns: Seq<FnDecl>,
    types: Seq<TypeDecl>,
    ctx: LookupContext,
) -> Option<Seq<char>>
    decreases fns.len(),
{
    if fns.len() == 0 {
        None
    } else {
        match receiver_type_name(fns[0]) {
            Some(n) => if !declared_contains(types, n) && !ctx.contains_type(n) {
                Some(n)
            } else {
                first_unresolved(fns.drop_first(), types, ctx)
            },
            None => first_unresolved(fns.drop_first(), types, ctx),
        }
    }
}

/// The first fault raised by lowering the functions in source order.
pub open spec fn first_fn_fault(fns: Seq<FnDecl>, ctx: LookupContext) -> Option<GenerationError>
    decreases fns.len(),
{
    if fns.len() == 0 {
        None
    } else {
        match fn_decl_lowered(fns[0], ctx) {
            Err(e) => Some(e),
            Ok(_) => first_fn_fault(fns.drop_first(), ctx),
        }
    }
}

/// What the emitted units of a successful run look like: one aggregate
/// unit first, then one unit per declared type, in declaration order.
pub open spec fn outputs_match(
    outs: Seq<crate::source::TranspileOutput>,
    types: Seq<TypeDecl>,
    fns: Seq<FnDecl>,
    ctx: LookupContext,
) -> bool {
    &&& outs.len() == 1 + types.len()
    &&& outs[0].file_name@ == "galvan_module.rs"@
    &&& outs[0].content@ == lib_unit_content(types, fns, ctx)
    &&& forall|k: int|
        1 <= k < outs.len() ==> ((#[trigger] outs[k]).file_name@ == types[k - 1].spec_ident()@
            + ".rs"@ && outs[k].content@ == type_unit_content(types, fns, ctx, k - 1))
}

proof fn lemma_member_texts_push(fns: Seq<FnDecl>, f: FnDecl, n: Seq<char>, ctx: LookupContext)
    ensures
        member_texts(fns.push(f), n, ctx) == (if receiver_type_name(f) == Some(n) {
            member_texts(fns, n, ctx).push(fn_text(f, ctx))
        } else {
            member_texts(fns, n, ctx)
        }),
{
    let pushed = fns.push(f);
    assert(pushed.drop_last() =~= fns);
    assert(pushed.last() == f);
}

proof fn lemma_free_texts_push(fns: Seq<FnDecl>, f: FnDecl, types: Seq<TypeDecl>, ctx: LookupContext)
    ensures
        free_texts(fns.push(f), types, ctx) == (if is_free_fn(f, types) {
            free_texts(fns, types, ctx).push(fn_text(f, ctx))
        } else {
            free_texts(fns, types, ctx)
        }),
{
    let pushed = fns.push(f);
    assert(pushed.drop_last() =~= fns);
    assert(pushed.last() == f);
}

proof fn lemma_module_lines_len(types: Seq<TypeDecl>)
    ensures
        module_lines(types).len() == types.len(),
    decreases types.len(),
{
    if types.len() > 0 {
        lemma_module_lines_len(types.drop_last());
    }
}

/// The receiver type identifier of a function, if it has one.
fn receiver_plain_ident(f: &FnDecl) -> (r: Option<&TypeIdent>)
    ensures
        match r {
            Some(t) => receiver_type_name(*f) == Some(t@),
            None => receiver_type_name(*f) is None,
        },
{
    if f.signature.parameters.params.len() > 0 {
        match &f.signature.parameters.params[0].param_type {
            TypeElement::Plain(b) => Some(&b.ident),
            _ => None,
        }
    } else {
        None
    }
}

/// The index of the declared type with the given name.
fn find_type_index(types: &Vec<TypeDecl>, name: &TypeIdent) -> (r: Option<usize>)
    ensures
        match r {
            Some(i) => i < types@.len() && types@[i as int].spec_ident()@ == name@,
            None => !declared_contains(types@, name@),
        },
{
    let mut i: usize = 0;
    while i < types.len()
        invariant
            i <= types@.len(),
            forall|k: int| 0 <= k < i ==> (#[trigger] types@[k]).spec_ident()@ != name@,
        decreases types@.len() - i,
    {
        if types[i].ident().name == name.name {
            return Some(i);
        }
        i = i + 1;
    }
    None
}

/// Rejects the first member function whose receiver type is neither
/// declared nor known to the universe.
fn check_receivers(seg: &SegmentedAst, lookup: &LookupContext) -> (r: Result<(), TypeIdent>)
    ensures
        match r {
            Ok(_) => first_unresolved(seg.functions@, seg.types@, *lookup) is None,
            Err(t) => first_unresolved(seg.functions@, seg.types@, *lookup) == Some(t@),
        },
{
    let ghost fns = seg.functions@;
    let ghost types = seg.types@;
    let ghost ctx = *lookup;
    let mut j: usize = 0;
    proof {
        assert(fns.subrange(0, fns.len() as int) =~= fns);
    }
    while j < seg.functions.len()
        invariant
            j <= fns.len(),
            fns == seg.functions@,
            types == seg.types@,
            ctx == *lookup,
            first_unresolved(fns, types, ctx) == first_unresolved(
                fns.subrange(j as int, fns.len() as int),
                types,
                ctx,
            ),
        decreases fns.len() - j,
    {
        let ghost rest = fns.subrange(j as int, fns.len() as int);
        proof {
            assert(rest[0] == fns[j as int]);
            assert(rest.drop_first() =~= fns.subrange(j + 1, fns.len() as int));
        }
        match receiver_plain_ident(&seg.functions[j]) {
            Some(t) => {
                if find_type_index(&seg.types, t).is_none() {
                    match lookup.resolve(t) {
                        Some(_) => {},
                        None => {
                            return Err(TypeIdent { name: t.name.clone() });
                        },
                    }
                }
            },
            None => {},
        }
        j = j + 1;
    }
    Ok(())
}

/// Lowers every function in source order, stopping at the first fault.
#[verifier::rlimit(100)]
fn lower_functions(seg: &SegmentedAst, lookup: &LookupContext) -> (r: Result<
    Vec<String>,
    GenerationError,
>)
    requires
        lookup.wf(),
    ensures
        match r {
            Ok(v) => {
                &&& first_fn_fault(seg.functions@, *lookup) is None
                &&& v@.len() == seg.functions@.len()
                &&& forall|k: int|
                    0 <= k < v@.len() ==> fn_decl_lowered(
                        #[trigger] seg.functions@[k],
                        *lookup,
                    ) is Ok
                &&& forall|k: int|
                    0 <= k < v@.len() ==> (#[trigger] v@[k])@ == fn_text(
                        seg.functions@[k],
                        *lookup,
                    )
            },
            Err(e) => first_fn_fault(seg.functions@, *lookup) == Some(e),
        },
{
    let ghost fns = seg.functions@;
    let ghost ctx = *lookup;
    let mut lowered: Vec<String> = Vec::new();
    let mut j: usize = 0;
    proof {
        assert(fns.subrange(0, fns.len() as int) =~= fns);
    }
    while j < seg.functions.len()
        invariant
            j <= fns.len(),
            fns == seg.functions@,
            ctx == *lookup,
            ctx.wf(),
            lowered@.len() == j,
            forall|k: int| 0 <= k < j ==> fn_decl_lowered(#[trigger] fns[k], ctx) is Ok,
            forall|k: int|
                0 <= k < j ==> (#[trigger] lowered@[k])@ == fn_text(fns[k], ctx),
            first_fn_fault(fns, ctx) == first_fn_fault(
                fns.subrange(j as int, fns.len() as int),
                ctx,
            ),
        decreases fns.len() - j,
    {
        let ghost rest = fns.subrange(j as int, fns.len() as int);
        proof {
            assert(rest[0] == fns[j as int]);
            assert(rest.drop_first() =~= fns.subrange(j + 1, fns.len() as int));
        }
        match seg.functions[j].transpile(lookup) {
            Ok(s) => {
                let ghost gs = s@;
                let ghost before = lowered@;
                lowered.push(s);
                proof {
                    assert(fn_decl_lowered(fns[j as int], ctx) == Ok::<Seq<char>, GenerationError>(
                        gs,
                    ));
                    assert(fn_text(fns[j as int], ctx) == gs);
                    assert((lowered@[j as int])@ == gs);
                    assert forall|k: int|
                        0 <= k < j + 1 implies fn_decl_lowered(#[trigger] fns[k], ctx) is Ok by {
                        if k < j {
                            assert(fn_decl_lowered(fns[k], ctx) is Ok);
                        }
                    }
                    assert forall|k: int|
                        0 <= k < j + 1 implies (#[trigger] lowered@[k])@ == fn_text(
                        fns[k],
                        ctx,
                    ) by {
                        if k < j {
                            assert(lowered@[k] == before[k]);
                        }
                    }
                }
            },
            Err(e) => {
                return Err(e);
            },
        }
        j = j + 1;
    }
    Ok(lowered)
}

/// Emits the aggregate unit content: the module lines of the declared
/// types, a blank line, and the free functions.
#[verifier::rlimit(60)]
fn emit_lib_content(seg: &SegmentedAst, lookup: &LookupContext, lowered: &Vec<String>) -> (r:
    String)
    requires
        lowered@.len() == seg.functions@.len(),
        forall|k: int|
            0 <= k < lowered@.len() ==> (#[trigger] lowered@[k])@ == fn_text(
                seg.functions@[k],
                *lookup,
            ),
    ensures
        r@ == lib_unit_content(seg.types@, seg.functions@, *lookup),
{
    let ghost fns = seg.functions@;
    let ghost types = seg.types@;
    let ghost ctx = *lookup;
    let mut modules = String::new();
    let mut i: usize = 0;
    proof {
        assert(types.subrange(0, 0) =~= Seq::<TypeDecl>::empty());
    }
    while i < seg.types.len()
        invariant
            i <= types.len(),
            types == seg.types@,
            modules@ == join_texts(module_lines(types.subrange(0, i as int)), "\n"@),
        decreases types.len() - i,
    {
        let ghost prefix = types.subrange(0, i as int);
        proof {
            lemma_module_lines_len(prefix);
        }
        if i > 0 {
            modules.append("\n");
        }
        let d = &seg.types[i];
        let mut piece = "mod ".to_owned();
        piece.append(d.ident().name.as_str());
        piece.append(";\npub use ");
        piece.append(d.ident().name.as_str());
        piece.append("::*;\n");
        modules.append(piece.as_str());
        proof {
            lemma_module_lines_push(prefix, types[i as int]);
            lemma_join_texts_push(module_lines(prefix), module_line(types[i as int]), "\n"@);
            assert(types.subrange(0, i + 1) =~= prefix.push(types[i as int]));
        }
        i = i + 1;
    }
    let mut free = String::new();
    let mut nfree: usize = 0;
    let mut j: usize = 0;
    proof {
        assert(fns.subrange(0, 0) =~= Seq::<FnDecl>::empty());
    }
    while j < seg.functions.len()
        invariant
            j <= fns.len(),
            fns == seg.functions@,
            types == seg.types@,
            ctx == *lookup,
            lowered@.len() == fns.len(),
            forall|k: int|
                0 <= k < lowered@.len() ==> (#[trigger] lowered@[k])@ == fn_text(fns[k], ctx),
            nfree <= j,
            nfree == free_texts(fns.subrange(0, j as int), types, ctx).len(),
            free@ == join_texts(free_texts(fns.subrange(0, j as int), types, ctx), "\n\n"@),
        decreases fns.len() - j,
    {
        let ghost prefix = fns.subrange(0, j as int);
        let f = &seg.functions[j];
        let is_free = match receiver_plain_ident(f) {
            Some(t) => find_type_index(&seg.types, t).is_none(),
            None => true,
        };
        proof {
            assert(is_free == is_free_fn(fns[j as int], types));
        }
        if is_free {
            if nfree > 0 {
                free.append("\n\n");
            }
            free.append(lowered[j].as_str());
            nfree = nfree + 1;
        }
        proof {
            lemma_free_texts_push(prefix, fns[j as int], types, ctx);
            if is_free_fn(fns[j as int], types) {
                lemma_join_texts_push(
                    free_texts(prefix, types, ctx),
                    fn_text(fns[j as int], ctx),
                    "\n\n"@,
                );
            }
            assert(fns.subrange(0, j + 1) =~= prefix.push(fns[j as int]));
        }
        j = j + 1;
    }
    proof {
        assert(types.subrange(0, types.len() as int) =~= types);
        assert(fns.subrange(0, fns.len() as int) =~= fns);
    }
    let mut content = modules;
    content.append("\n\n");
    content.append(free.as_str());
    content
}

/// Emits one declared type's unit content: its lowered definition and
/// its attached member functions.
#[verifier::rlimit(60)]
fn emit_type_content(
    seg: &SegmentedAst,
    lookup: &LookupContext,
    lowered: &Vec<String>,
    i: usize,
) -> (r: String)
    requires
        i < seg.types@.len(),
        lowered@.len() == seg.functions@.len(),
        forall|k: int|
            0 <= k < lowered@.len() ==> (#[trigger] lowered@[k])@ == fn_text(
                seg.functions@[k],
                *lookup,
            ),
    ensures
        r@ == type_unit_content(seg.types@, seg.functions@, *lookup, i as int),
{
    let ghost fns = seg.functions@;
    let ghost types = seg.types@;
    let ghost ctx = *lookup;
    let d = &seg.types[i];
    let ghost n_i = types[i as int].spec_ident()@;
    let ghost tt = type_decl_lowered(types[i as int]);
    let mut content = d.transpile();
    let mut j: usize = 0;
    proof {
        assert(fns.subrange(0, 0) =~= Seq::<FnDecl>::empty());
        assert(seq![tt] + member_texts(fns.subrange(0, 0), n_i, ctx) =~= seq![tt]);
        assert(join_texts(seq![tt], "\n\n"@) == tt);
    }
    while j < seg.functions.len()
        invariant
            j <= fns.len(),
            fns == seg.functions@,
            types == seg.types@,
            ctx == *lookup,
            i < types.len(),
            n_i == types[i as int].spec_ident()@,
            tt == type_decl_lowered(types[i as int]),
            lowered@.len() == fns.len(),
            forall|k: int|
                0 <= k < lowered@.len() ==> (#[trigger] lowered@[k])@ == fn_text(fns[k], ctx),
            content@ == join_texts(
                seq![tt] + member_texts(fns.subrange(0, j as int), n_i, ctx),
                "\n\n"@,
            ),
        decreases fns.len() - j,
    {
        let ghost prefix = fns.subrange(0, j as int);
        let f = &seg.functions[j];
        let is_member = match receiver_plain_ident(f) {
            Some(t) => t.name == seg.types[i].ident().name,
            None => false,
        };
        proof {
            assert(is_member == (receiver_type_name(fns[j as int]) == Some(n_i)));
        }
        if is_member {
            content.append("\n\n");
            content.append(lowered[j].as_str());
        }
        proof {
            lemma_member_texts_push(prefix, fns[j as int], n_i, ctx);
            let pieces = seq![tt] + member_texts(prefix, n_i, ctx);
            if receiver_type_name(fns[j as int]) == Some(n_i) {
                lemma_join_texts_push(pieces, fn_text(fns[j as int], ctx), "\n\n"@);
                assert(seq![tt] + member_texts(prefix, n_i, ctx).push(
                    fn_text(fns[j as int], ctx),
                ) =~= pieces.push(fn_text(fns[j as int], ctx)));
            }
            assert(fns.subrange(0, j + 1) =~= prefix.push(fns[j as int]));
        }
        j = j + 1;
    }
    proof {
        assert(fns.subrange(0, fns.len() as int) =~= fns);
    }
    content
}

/// Walks the segmented units and emits one text unit per declared
/// type, holding that type's lowered definition and its attached
/// member functions, plus one aggregate unit for the free functions.
/// It fails with the first duplicate declared type name, then with the
/// first member function whose receiver type is unknown, then with the
/// first lowering fault, in that order.
pub fn transpile_segmented(seg: &SegmentedAst, lookup: &LookupContext) -> (r: Result<
    Vec<TranspileOutput>,
    TranspileError,
>)
    requires
        lookup.wf(),
    ensures
        match r {
            Ok(outs) => {
                &&& first_duplicate(Seq::empty(), seg.types@) is None
                &&& first_unresolved(seg.functions@, seg.types@, *lookup) is None
                &&& first_fn_fault(seg.functions@, *lookup) is None
                &&& outputs_match(outs@, seg.types@, seg.functions@, *lookup)
            },
            Err(e) => match e {
                TranspileError::Lookup(le) => match le {
                    LookupError::DuplicateType(t) => first_duplicate(Seq::empty(), seg.types@)
                        == Some(t@),
                    LookupError::UnresolvedReceiver(t) => {
                        &&& first_duplicate(Seq::empty(), seg.types@) is None
                        &&& first_unresolved(seg.functions@, seg.types@, *lookup) == Some(t@)
                    },
                },
                TranspileError::Generation(g) => {
                    &&& first_duplicate(Seq::empty(), seg.types@) is None
                    &&& first_unresolved(seg.functions@, seg.types@, *lookup) is None
                    &&& first_fn_fault(seg.functions@, *lookup) == Some(g)
                },
                TranspileError::Parse(_) => false,
            },
        },
{
    let ghost fns = seg.functions@;
    let ghost types = seg.types@;
    let ghost ctx = *lookup;
    // Reject duplicate declared type names.
    let empty_ctx = LookupContext { types: Vec::new() };
    proof {
        assert(empty_ctx.names() =~= Seq::<Seq<char>>::empty());
    }
    match empty_ctx.with(seg) {
        Ok(_) => {},
        Err(e) => {
            return Err(TranspileError::Lookup(e));
        },
    }
    // Reject member functions whose receiver type nobody knows.
    match check_receivers(seg, lookup) {
        Ok(_) => {},
        Err(t) => {
            return Err(TranspileError::Lookup(LookupError::UnresolvedReceiver(t)));
        },
    }
    // Lower every function, stopping at the first fault.
    let lowered = match lower_functions(seg, lookup) {
        Ok(lowered) => lowered,
        Err(e) => {
            return Err(TranspileError::Generation(e));
        },
    };
    // The aggregate unit, then one unit per declared type.
    let lib_content = emit_lib_content(seg, lookup, &lowered);
    let mut outs: Vec<TranspileOutput> = Vec::new();
    outs.push(TranspileOutput { file_name: "galvan_module.rs".to_owned(), content: lib_content });
    let mut i: usize = 0;
    while i < seg.types.len()
        invariant
            i <= types.len(),
            fns == seg.functions@,
            types == seg.types@,
            ctx == *lookup,
            lowered@.len() == fns.len(),
            forall|k: int|
                0 <= k < lowered@.len() ==> (#[trigger] lowered@[k])@ == fn_text(fns[k], ctx),
            outs@.len() == 1 + i,
            outs@[0].file_name@ == "galvan_module.rs"@,
            outs@[0].content@ == lib_unit_content(types, fns, ctx),
            forall|k: int|
                1 <= k < outs@.len() ==> ((#[trigger] outs@[k]).file_name@ == types[k
                    - 1].spec_ident()@ + ".rs"@ && outs@[k].content@ == type_unit_content(
                    types,
                    fns,
                    ctx,
                    k - 1,
                )),
        decreases types.len() - i,
    {
        let content = emit_type_content(seg, lookup, &lowered, i);
        let mut fname = seg.types[i].ident().name.clone();
        fname.append(".rs");
        let ghost outs_before = outs@;
        outs.push(TranspileOutput { file_name: fname, content });
        proof {
            assert forall|k: int|
                1 <= k < outs@.len() implies ((#[trigger] outs@[k]).file_name@ == types[k
                - 1].spec_ident()@ + ".rs"@ && outs@[k].content@ == type_unit_content(
                types,
                fns,
                ctx,
                k - 1,
            )) by {
                if k < outs@.len() - 1 {
                    assert(outs@[k] == outs_before[k]);
                }
            }
        }
        i = i + 1;
    }
    Ok(outs)
}

/// The reserved name of the aggregate unit that exports every module.
pub fn galvan_module() -> (r: &'static str)
    ensures
        r@ == "galvan_module.rs"@,
{
    "galvan_module.rs"
}

/// Builds the symbol universe from the given units, then emits their
/// text units. Universe construction fails on the first type name that
/// collides with a built-in or with another declaration, counted over
/// all units in order.
pub fn transpile_asts(asts: Vec<Ast>) -> (r: Result<Vec<TranspileOutput>, TranspileError>)
    ensures
        match r {
            Ok(outs) => exists|ctx: LookupContext|
                #[trigger] ctx_matches(ctx, all_types(asts@)) && outputs_match(
                    outs@,
                    all_types(asts@),
                    all_fns(asts@),
                    ctx,
                ),
            Err(e) => match e {
                TranspileError::Lookup(le) => match le {
                    LookupError::DuplicateType(t) => first_duplicate(
                        builtin_names(),
                        all_types(asts@),
                    ) == Some(t@),
                    LookupError::UnresolvedReceiver(t) => exists|ctx: LookupContext|
                        #[trigger] ctx_matches(ctx, all_types(asts@)) && first_unresolved(
                            all_fns(asts@),
                            all_types(asts@),
                            ctx,
                        ) == Some(t@),
                },
                TranspileError::Generation(g) => exists|ctx: LookupContext|
                    #[trigger] ctx_matches(ctx, all_types(asts@)) && first_fn_fault(
                        all_fns(asts@),
                        ctx,
                    ) == Some(g),
                TranspileError::Parse(_) => false,
            },
        },
        asts@.len() == 0 ==> r is Ok,
{
    let ghost gasts = asts@;
    let segmented = SegmentedAst::segmented(asts);
    let base = LookupContext::new();
    let lookup = match base.with(&segmented) {
        Ok(lookup) => lookup,
        Err(e) => {
            return Err(TranspileError::Lookup(e));
        },
    };
    proof {
        assert(ctx_matches(lookup, all_types(gasts)));
        assert(forall|n: Seq<char>|
            Seq::<Seq<char>>::empty().contains(n) ==> builtin_names().contains(n));
        lemma_first_duplicate_base_shrink(
            builtin_names(),
            Seq::<Seq<char>>::empty(),
            segmented.types@,
        );
    }
    match transpile_segmented(&segmented, &lookup) {
        Ok(outs) => {
            proof {
                assert(ctx_matches(lookup, all_types(gasts)));
            }
            Ok(outs)
        },
        Err(e) => {
            proof {
                assert(ctx_matches(lookup, all_types(gasts)));
                if e matches TranspileError::Lookup(LookupError::DuplicateType(_)) {
                    assert(false);
                }
            }
            Err(e)
        },
    }
}

/// Tokenises and parses each source into a translation unit, then
/// builds the universe and emits the text units. The first fault of any
/// stage aborts the run.
pub fn transpile_sources(sources: Vec<Source>) -> (r: Result<Vec<TranspileOutput>, TranspileError>)
    ensures
        r matches Ok(outs) ==> exists|types: Seq<TypeDecl>, fns: Seq<FnDecl>, ctx: LookupContext|
            ctx_matches(ctx, types) && #[trigger] outputs_match(outs@, types, fns, ctx),
        sources@.len() == 0 ==> r is Ok,
{
    let mut asts: Vec<Ast> = Vec::new();
    let mut remaining = sources;
    while remaining.len() > 0
        invariant
            asts@.len() + remaining@.len() <= sources@.len(),
        decreases remaining@.len(),
    {
        let source = remaining.remove(0);
        let tokens = match crate::lexer::tokenize(source.content.as_str()) {
            Ok(tokens) => tokens,
            Err(e) => {
                return Err(TranspileError::Parse(e));
            },
        };
        let ast = match crate::parse::parse_source(&tokens) {
            Ok(ast) => ast,
            Err(e) => {
                return Err(TranspileError::Parse(e));
            },
        };
        asts.push(ast);
    }
    let r = transpile_asts(asts);
    match r {
        Ok(outs) => {
            proof {
                let ctx = choose|ctx: LookupContext|
                    #[trigger] ctx_matches(ctx, all_types(asts@)) && outputs_match(
                        outs@,
                        all_types(asts@),
                        all_fns(asts@),
                        ctx,
                    );
                assert(outputs_match(outs@, all_types(asts@), all_fns(asts@), ctx));
            }
            Ok(outs)
        },
        Err(e) => Err(e),
    }
}

/// Translates the given sources into target-language text units: one
/// per declared type and one aggregate for free functions.
pub fn transpile(sources: Vec<Source>) -> (r: Result<Vec<TranspileOutput>, TranspileError>)
    ensures
        r matches Ok(outs) ==> exists|types: Seq<TypeDecl>, fns: Seq<FnDecl>, ctx: LookupContext|
            ctx_matches(ctx, types) && #[trigger] outputs_match(outs@, types, fns, ctx),
        sources@.len() == 0 ==> r is Ok,
{
    transpile_sources(sources)
}

/// Lowering a `mut`-modified parameter always yields the mutable-borrow
/// form, lowering the same parameter unmodified (or with `let`) always
/// yields an immutable form, and the two lowerings are never the same
/// text.
pub proof fn lemma_ownership_lowering_exclusive(p_mut: Param, p_plain: Param, ctx: LookupContext)
    requires
        p_mut.identifier == p_plain.identifier,
        p_mut.param_type == p_plain.param_type,
        p_mut.decl_modifier == Some(DeclModifier::Mut),
        p_plain.decl_modifier is None || p_plain.decl_modifier == Some(DeclModifier::Let),
        p_mut.identifier@ != "self"@,
    ensures
        param_lowered(p_mut, ctx) == Ok::<Seq<char>, GenerationError>(
            p_mut.identifier@ + ": &mut "@ + p_mut.param_type.lowered(),
        ),
        param_lowered(p_plain, ctx) matches Ok(plain) && param_lowered(p_mut, ctx) matches Ok(
            mutated,
        ) && plain != mutated,
{
    reveal_strlit(": &mut ");
    reveal_strlit(": &");
    reveal_strlit(": ");
    assert(": &mut "@.len() == 7);
    assert(": &"@.len() == 3);
    assert(": "@.len() == 2);
    let id = p_mut.identifier@;
    let low = p_mut.param_type.lowered();
    let mutated = id + ": &mut "@ + low;
    assert(mutated.len() == id.len() + 7 + low.len());
    match p_plain.param_type {
        TypeElement::Plain(b) => {
            if ctx.spec_is_value_type(b.ident@) {
                assert((id + ": "@ + low).len() == id.len() + 2 + low.len());
            } else {
                assert((id + ": &"@ + low).len() == id.len() + 3 + low.len());
            }
        },
        _ => {
            assert((id + ": &"@ + low).len() == id.len() + 3 + low.len());
        },
    }
}

} // verus!
