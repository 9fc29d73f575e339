//! The closed type lattice of the source language.
//!
//! A type is either a plain named type, one of the generic container
//! shapes (sequence, set, unordered mapping, insertion-ordered mapping,
//! positional tuple), one of the monadic wrappers (optional, result), or
//! a shared-mutable reference. The immediate inner type of an optional
//! and the variants of a result are drawn from restricted sub-lattices
//! that exclude re-nesting the monadic wrappers directly: a plain type,
//! a container or a reference passes, a directly nested optional or
//! result does not. The typed conversions below fail, rather than
//! silently drop, when that restriction is violated.

use vstd::prelude::*;

use crate::ident::TypeIdent;

verus! {

/// A node of the type lattice.
#[derive(Debug, PartialEq, Eq)]
pub enum TypeElement {
    Array(Box<ArrayTypeItem>),
    Dictionary(Box<DictionaryTypeItem>),
    OrderedDictionary(Box<OrderedDictionaryTypeItem>),
    SetType(Box<SetTypeItem>),
    Tuple(Box<TupleTypeItem>),
    Optional(Box<OptionalTypeItem>),
    Result(Box<ResultTypeItem>),
    Ref(Box<RefTypeItem>),
    Plain(BasicTypeItem),
}

/// A sequence container: all elements share one type.
#[derive(Debug, PartialEq, Eq)]
pub struct ArrayTypeItem {
    pub elements: TypeElement,
}

/// An unordered key-to-value mapping.
#[derive(Debug, PartialEq, Eq)]
pub struct DictionaryTypeItem {
    pub key: TypeElement,
    pub value: TypeElement,
}

/// A key-to-value mapping that preserves insertion order.
#[derive(Debug, PartialEq, Eq)]
pub struct OrderedDictionaryTypeItem {
    pub key: TypeElement,
    pub value: TypeElement,
}

/// An unordered container of distinct elements.
#[derive(Debug, PartialEq, Eq)]
pub struct SetTypeItem {
    pub elements: TypeElement,
}

/// A positional product of types.
#[derive(Debug, PartialEq, Eq)]
pub struct TupleTypeItem {
    pub elements: Vec<TypeElement>,
}

/// A single-case-or-absent wrapper.
#[derive(Debug, PartialEq, Eq)]
pub struct OptionalTypeItem {
    pub some: OptionalElement,
}

/// A shared-ownership handle granting exclusive mutable access.
#[derive(Debug, PartialEq, Eq)]
pub struct RefTypeItem {
    pub element: TypeElement,
}

/// A non-generic named type reference.
#[derive(Debug, PartialEq, Eq)]
pub struct BasicTypeItem {
    pub ident: TypeIdent,
}

/// The sub-lattice allowed as the inner type of an optional: everything
/// but the monadic wrappers themselves.
#[derive(Debug, PartialEq, Eq)]
pub enum OptionalElement {
    Array(Box<ArrayTypeItem>),
    Dictionary(Box<DictionaryTypeItem>),
    OrderedDictionary(Box<OrderedDictionaryTypeItem>),
    SetType(Box<SetTypeItem>),
    Tuple(Box<TupleTypeItem>),
    Ref(Box<RefTypeItem>),
    Plain(BasicTypeItem),
}

/// A two-case wrapper for fallibility; an absent error variant lowers to
/// a generic catch-all error type.
#[derive(Debug, PartialEq, Eq)]
pub struct ResultTypeItem {
    pub success: SuccessVariant,
    pub error: Option<ErrorVariant>,
}

/// The sub-lattice allowed as the success variant of a result: an
/// optional is allowed, a nested result is not.
#[derive(Debug, PartialEq, Eq)]
pub enum SuccessVariant {
    Array(Box<ArrayTypeItem>),
    Dictionary(Box<DictionaryTypeItem>),
    OrderedDictionary(Box<OrderedDictionaryTypeItem>),
    SetType(Box<SetTypeItem>),
    Tuple(Box<TupleTypeItem>),
    Ref(Box<RefTypeItem>),
    Plain(BasicTypeItem),
    Optional(Box<OptionalTypeItem>),
}

/// The sub-lattice allowed as the error variant of a result: neither
/// monadic wrapper may appear directly.
#[derive(Debug, PartialEq, Eq)]
pub enum ErrorVariant {
    Array(Box<ArrayTypeItem>),
    Dictionary(Box<DictionaryTypeItem>),
    OrderedDictionary(Box<OrderedDictionaryTypeItem>),
    SetType(Box<SetTypeItem>),
    Tuple(Box<TupleTypeItem>),
    Ref(Box<RefTypeItem>),
    Plain(BasicTypeItem),
}

/// A result type with both variants lifted back to full lattice nodes.
#[derive(Debug, PartialEq, Eq)]
pub struct DowncastResultTypeItem {
    pub success: TypeElement,
    pub error: Option<TypeElement>,
}

impl TypeElement {
    pub fn plain(ident: TypeIdent) -> (r: TypeElement)
        ensures
            r == TypeElement::Plain(BasicTypeItem { ident }),
    {
        TypeElement::Plain(BasicTypeItem { ident })
    }

    pub fn from(value: TypeIdent) -> (r: TypeElement)
        ensures
            r == TypeElement::Plain(BasicTypeItem { ident: value }),
    {
        TypeElement::Plain(BasicTypeItem { ident: value })
    }

    pub fn array(elements: TypeElement) -> (r: TypeElement)
        ensures
            r == TypeElement::Array(Box::new(ArrayTypeItem { elements })),
    {
        TypeElement::Array(Box::new(ArrayTypeItem { elements }))
    }

    pub fn dict(key: TypeElement, value: TypeElement) -> (r: TypeElement)
        ensures
            r == TypeElement::Dictionary(Box::new(DictionaryTypeItem { key, value })),
    {
        TypeElement::Dictionary(Box::new(DictionaryTypeItem { key, value }))
    }

    pub fn ordered_dict(key: TypeElement, value: TypeElement) -> (r: TypeElement)
        ensures
            r == TypeElement::OrderedDictionary(
                Box::new(OrderedDictionaryTypeItem { key, value }),
            ),
    {
        TypeElement::OrderedDictionary(Box::new(OrderedDictionaryTypeItem { key, value }))
    }

    pub fn set(elements: TypeElement) -> (r: TypeElement)
        ensures
            r == TypeElement::SetType(Box::new(SetTypeItem { elements })),
    {
        TypeElement::SetType(Box::new(SetTypeItem { elements }))
    }

    pub fn tuple(elements: Vec<TypeElement>) -> (r: TypeElement)
        ensures
            r == TypeElement::Tuple(Box::new(TupleTypeItem { elements })),
    {
        TypeElement::Tuple(Box::new(TupleTypeItem { elements }))
    }

    pub fn optional(some: OptionalElement) -> (r: TypeElement)
        ensures
            r == TypeElement::Optional(Box::new(OptionalTypeItem { some })),
    {
        TypeElement::Optional(Box::new(OptionalTypeItem { some }))
    }

    pub fn result(success: SuccessVariant, error: Option<ErrorVariant>) -> (r: TypeElement)
        ensures
            r == TypeElement::Result(Box::new(ResultTypeItem { success, error })),
    {
        TypeElement::Result(Box::new(ResultTypeItem { success, error }))
    }
}

impl OptionalTypeItem {
    pub fn new(some: OptionalElement) -> (r: OptionalTypeItem)
        ensures
            r == (OptionalTypeItem { some }),
    {
        OptionalTypeItem { some }
    }

    /// Lifts the inner type of the optional to a full lattice node.
    pub fn element(self) -> (r: TypeElement)
        ensures
            r == self.some.as_type_element(),
    {
        self.some.upcast()
    }
}

impl OptionalElement {
    /// The lattice node this restricted element stands for.
    pub open spec fn as_type_element(self) -> TypeElement {
        match self {
            OptionalElement::Array(array) => TypeElement::Array(array),
            OptionalElement::Dictionary(dict) => TypeElement::Dictionary(dict),
            OptionalElement::OrderedDictionary(od) => TypeElement::OrderedDictionary(od),
            OptionalElement::SetType(set) => TypeElement::SetType(set),
            OptionalElement::Tuple(tuple) => TypeElement::Tuple(tuple),
            OptionalElement::Ref(reference) => TypeElement::Ref(reference),
            OptionalElement::Plain(basic) => TypeElement::Plain(basic),
        }
    }

    /// Lifts this restricted element back to a full lattice node.
    pub fn upcast(self) -> (r: TypeElement)
        ensures
            r == self.as_type_element(),
    {
        match self {
            OptionalElement::Array(array) => TypeElement::Array(array),
            OptionalElement::Dictionary(dict) => TypeElement::Dictionary(dict),
            OptionalElement::OrderedDictionary(od) => TypeElement::OrderedDictionary(od),
            OptionalElement::SetType(set) => TypeElement::SetType(set),
            OptionalElement::Tuple(tuple) => TypeElement::Tuple(tuple),
            OptionalElement::Ref(reference) => TypeElement::Ref(reference),
            OptionalElement::Plain(basic) => TypeElement::Plain(basic),
        }
    }

    /// The typed conversion into the restricted sub-lattice. It succeeds
    /// exactly on the nodes that are not themselves monadic wrappers and
    /// hands the offending node back otherwise.
    pub fn try_from(value: TypeElement) -> (r: Result<OptionalElement, TypeElement>)
        ensures
            match r {
                Ok(element) => element.as_type_element() == value,
                Err(rejected) => {
                    &&& rejected == value
                    &&& (value matches TypeElement::Optional(_) || value
                        matches TypeElement::Result(_))
                },
            },
    {
        match value {
            TypeElement::Array(array) => Ok(OptionalElement::Array(array)),
            TypeElement::Dictionary(dict) => Ok(OptionalElement::Dictionary(dict)),
            TypeElement::OrderedDictionary(od) => Ok(OptionalElement::OrderedDictionary(od)),
            TypeElement::SetType(set) => Ok(OptionalElement::SetType(set)),
            TypeElement::Tuple(tuple) => Ok(OptionalElement::Tuple(tuple)),
            TypeElement::Ref(reference) => Ok(OptionalElement::Ref(reference)),
            TypeElement::Plain(basic) => Ok(OptionalElement::Plain(basic)),
            TypeElement::Optional(_) => Err(value),
            TypeElement::Result(_) => Err(value),
        }
    }
}

impl SuccessVariant {
    /// The lattice node this restricted variant stands for.
    pub open spec fn as_type_element(self) -> TypeElement {
        match self {
            SuccessVariant::Array(array) => TypeElement::Array(array),
            SuccessVariant::Dictionary(dict) => TypeElement::Dictionary(dict),
            SuccessVariant::OrderedDictionary(od) => TypeElement::OrderedDictionary(od),
            SuccessVariant::SetType(set) => TypeElement::SetType(set),
            SuccessVariant::Tuple(tuple) => TypeElement::Tuple(tuple),
            SuccessVariant::Ref(reference) => TypeElement::Ref(reference),
            SuccessVariant::Plain(basic) => TypeElement::Plain(basic),
            SuccessVariant::Optional(optional) => TypeElement::Optional(optional),
        }
    }

    /// Lifts this restricted variant back to a full lattice node.
    pub fn upcast(self) -> (r: TypeElement)
        ensures
            r == self.as_type_element(),
    {
        match self {
            SuccessVariant::Array(array) => TypeElement::Array(array),
            SuccessVariant::Dictionary(dict) => TypeElement::Dictionary(dict),
            SuccessVariant::OrderedDictionary(od) => TypeElement::OrderedDictionary(od),
            SuccessVariant::SetType(set) => TypeElement::SetType(set),
            SuccessVariant::Tuple(tuple) => TypeElement::Tuple(tuple),
            SuccessVariant::Ref(reference) => TypeElement::Ref(reference),
            SuccessVariant::Plain(basic) => TypeElement::Plain(basic),
            SuccessVariant::Optional(optional) => TypeElement::Optional(optional),
        }
    }

    /// The typed conversion into the restricted sub-lattice. It succeeds
    /// exactly on the nodes that are not themselves a result.
    pub fn try_from(value: TypeElement) -> (r: Result<SuccessVariant, TypeElement>)
        ensures
            match r {
                Ok(variant) => variant.as_type_element() == value,
                Err(rejected) => {
                    &&& rejected == value
                    &&& value matches TypeElement::Result(_)
                },
            },
    {
        match value {
            TypeElement::Array(array) => Ok(SuccessVariant::Array(array)),
            TypeElement::Dictionary(dict) => Ok(SuccessVariant::Dictionary(dict)),
            TypeElement::OrderedDictionary(od) => Ok(SuccessVariant::OrderedDictionary(od)),
            TypeElement::SetType(set) => Ok(SuccessVariant::SetType(set)),
            TypeElement::Tuple(tuple) => Ok(SuccessVariant::Tuple(tuple)),
            TypeElement::Ref(reference) => Ok(SuccessVariant::Ref(reference)),
            TypeElement::Plain(basic) => Ok(SuccessVariant::Plain(basic)),
            TypeElement::Optional(optional) => Ok(SuccessVariant::Optional(optional)),
            TypeElement::Result(_) => Err(value),
        }
    }
}

impl ErrorVariant {
    /// The lattice node this restricted variant stands for.
    pub open spec fn as_type_element(self) -> TypeElement {
        match self {
            ErrorVariant::Array(array) => TypeElement::Array(array),
            ErrorVariant::Dictionary(dict) => TypeElement::Dictionary(dict),
            ErrorVariant::OrderedDictionary(od) => TypeElement::OrderedDictionary(od),
            ErrorVariant::SetType(set) => TypeElement::SetType(set),
            ErrorVariant::Tuple(tuple) => TypeElement::Tuple(tuple),
            ErrorVariant::Ref(reference) => TypeElement::Ref(reference),
            ErrorVariant::Plain(basic) => TypeElement::Plain(basic),
        }
    }

    /// Lifts this restricted variant back to a full lattice node.
    pub fn upcast(self) -> (r: TypeElement)
        ensures
            r == self.as_type_element(),
    {
        match self {
            ErrorVariant::Array(array) => TypeElement::Array(array),
            ErrorVariant::Dictionary(dict) => TypeElement::Dictionary(dict),
            ErrorVariant::OrderedDictionary(od) => TypeElement::OrderedDictionary(od),
            ErrorVariant::SetType(set) => TypeElement::SetType(set),
            ErrorVariant::Tuple(tuple) => TypeElement::Tuple(tuple),
            ErrorVariant::Ref(reference) => TypeElement::Ref(reference),
            ErrorVariant::Plain(basic) => TypeElement::Plain(basic),
        }
    }

    /// The typed conversion into the restricted sub-lattice. It succeeds
    /// exactly on the nodes that are not themselves monadic wrappers.
    pub fn try_from(value: TypeElement) -> (r: Result<ErrorVariant, TypeElement>)
        ensures
            match r {
                Ok(variant) => variant.as_type_element() == value,
                Err(rejected) => {
                    &&& rejected == value
                    &&& (value matches TypeElement::Optional(_) || value
                        matches TypeElement::Result(_))
                },
            },
    {
        match value {
            TypeElement::Array(array) => Ok(ErrorVariant::Array(array)),
            TypeElement::Dictionary(dict) => Ok(ErrorVariant::Dictionary(dict)),
            TypeElement::OrderedDictionary(od) => Ok(ErrorVariant::OrderedDictionary(od)),
            TypeElement::SetType(set) => Ok(ErrorVariant::SetType(set)),
            TypeElement::Tuple(tuple) => Ok(ErrorVariant::Tuple(tuple)),
            TypeElement::Ref(reference) => Ok(ErrorVariant::Ref(reference)),
            TypeElement::Plain(basic) => Ok(ErrorVariant::Plain(basic)),
            TypeElement::Optional(_) => Err(value),
            TypeElement::Result(_) => Err(value),
        }
    }
}

impl ResultTypeItem {
    pub fn new(success: SuccessVariant, error: Option<ErrorVariant>) -> (r: ResultTypeItem)
        ensures
            r == (ResultTypeItem { success, error }),
    {
        ResultTypeItem { success, error }
    }
}

impl DowncastResultTypeItem {
    /// Lifts the success and error variants of a result to lattice nodes.
    pub fn from(value: ResultTypeItem) -> (r: DowncastResultTypeItem)
        ensures
            r.success == value.success.as_type_element(),
            match value.error {
                Some(e) => r.error == Some(e.as_type_element()),
                None => r.error is None,
            },
    {
        let ResultTypeItem { success, error } = value;
        let success = success.upcast();
        let error = match error {
            Some(e) => Some(e.upcast()),
            None => None,
        };
        DowncastResultTypeItem { success, error }
    }
}

} // verus!
