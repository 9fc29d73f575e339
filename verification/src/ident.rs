//! Identifiers for values and for types.
//!
//! Both kinds wrap the identifier text; their view is the character
//! sequence, and equality means equality of that sequence.

use vstd::prelude::*;

verus! {

/// The name of a value: a variable, field, function or parameter.
#[derive(Debug, Clone)]
pub struct Ident {
    pub name: String,
}

impl View for Ident {
    type V = Seq<char>;

    open spec fn view(&self) -> Seq<char> {
        self.name@
    }
}

impl Ident {
    pub fn new(name: String) -> (r: Ident)
        ensures
            r@ == name@,
    {
        Ident { name }
    }

    /// The identifier text.
    pub fn as_str(&self) -> (r: &str)
        ensures
            r@ == self@,
    {
        self.name.as_str()
    }
}

impl PartialEq for Ident {
    fn eq(&self, other: &Ident) -> (r: bool) {
        self.name == other.name
    }
}

impl Eq for Ident {

}

impl vstd::std_specs::cmp::PartialEqSpecImpl for Ident {
    open spec fn obeys_eq_spec() -> bool {
        true
    }

    open spec fn eq_spec(&self, other: &Ident) -> bool {
        self.name@ == other.name@
    }
}

/// The name of a type.
#[derive(Debug, Clone)]
pub struct TypeIdent {
    pub name: String,
}

impl View for TypeIdent {
    type V = Seq<char>;

    open spec fn view(&self) -> Seq<char> {
        self.name@
    }
}

impl TypeIdent {
    pub fn new(name: &str) -> (r: TypeIdent)
        ensures
            r@ == name@,
    {
        TypeIdent { name: name.to_owned() }
    }

    /// The identifier text.
    pub fn as_str(&self) -> (r: &str)
        ensures
            r@ == self@,
    {
        self.name.as_str()
    }
}

impl PartialEq for TypeIdent {
    fn eq(&self, other: &TypeIdent) -> (r: bool) {
        self.name == other.name
    }
}

impl Eq for TypeIdent {

}

impl vstd::std_specs::cmp::PartialEqSpecImpl for TypeIdent {
    open spec fn obeys_eq_spec() -> bool {
        true
    }

    open spec fn eq_spec(&self, other: &TypeIdent) -> bool {
        self.name@ == other.name@
    }
}

} // verus!
