//! The resolver: merges parsed translation units into one symbol
//! universe, segments declarations, rejects duplicate type names and
//! seeds the built-in primitive value types.

use vstd::prelude::*;

use crate::ast::{Ast, FnDecl, MainDecl, RootItem, TestDecl, TypeDecl};
use crate::errors::LookupError;
use crate::ident::TypeIdent;

verus! {

/// All translation units' declarations, segmented by kind, in source
/// order.
#[derive(Debug)]
pub struct SegmentedAst {
    pub types: Vec<TypeDecl>,
    pub functions: Vec<FnDecl>,
    pub mains: Vec<MainDecl>,
    pub tests: Vec<TestDecl>,
}

/// The type declarations of an item sequence, in order.
pub open spec fn types_of(items: Seq<RootItem>) -> Seq<TypeDecl>
    decreases items.len(),
{
    if items.len() == 0 {
        Seq::empty()
    } else {
        (match items[0] {
            RootItem::Type(d) => seq![d],
            _ => Seq::empty(),
        }) + types_of(items.drop_first())
    }
}

/// The function declarations of an item sequence, in order.
pub open spec fn fns_of(items: Seq<RootItem>) -> Seq<FnDecl>
    decreases items.len(),
{
    if items.len() == 0 {
        Seq::empty()
    } else {
        (match items[0] {
            RootItem::Fn(f) => seq![f],
            _ => Seq::empty(),
        }) + fns_of(items.drop_first())
    }
}

/// The entry point declarations of an item sequence, in order.
pub open spec fn mains_of(items: Seq<RootItem>) -> Seq<MainDecl>
    decreases items.len(),
{
    if items.len() == 0 {
        Seq::empty()
    } else {
        (match items[0] {
            RootItem::Main(m) => seq![m],
            _ => Seq::empty(),
        }) + mains_of(items.drop_first())
    }
}

/// The test declarations of an item sequence, in order.
pub open spec fn tests_of(items: Seq<RootItem>) -> Seq<TestDecl>
    decreases items.len(),
{
    if items.len() == 0 {
        Seq::empty()
    } else {
        (match items[0] {
            RootItem::Test(t) => seq![t],
            _ => Seq::empty(),
        }) + tests_of(items.drop_first())
    }
}

/// The type declarations of several units, unit by unit.
pub open spec fn all_types(asts: Seq<Ast>) -> Seq<TypeDecl>
    decreases asts.len(),
{
    if asts.len() == 0 {
        Seq::empty()
    } else {
        types_of(asts[0].items@) + all_types(asts.drop_first())
    }
}

/// The function declarations of several units, unit by unit.
pub open spec fn all_fns(asts: Seq<Ast>) -> Seq<FnDecl>
    decreases asts.len(),
{
    if asts.len() == 0 {
        Seq::empty()
    } else {
        fns_of(asts[0].items@) + all_fns(asts.drop_first())
    }
}

/// The entry point declarations of several units, unit by unit.
pub open spec fn all_mains(asts: Seq<Ast>) -> Seq<MainDecl>
    decreases asts.len(),
{
    if asts.len() == 0 {
        Seq::empty()
    } else {
        mains_of(asts[0].items@) + all_mains(asts.drop_first())
    }
}

/// The test declarations of several units, unit by unit.
pub open spec fn all_tests(asts: Seq<Ast>) -> Seq<TestDecl>
    decreases asts.len(),
{
    if asts.len() == 0 {
        Seq::empty()
    } else {
        tests_of(asts[0].items@) + all_tests(asts.drop_first())
    }
}

impl SegmentedAst {
    /// Segments the items of the given units into types, functions,
    /// entry points and tests, keeping source order within each kind.
    pub fn segmented(asts: Vec<Ast>) -> (r: SegmentedAst)
        ensures
            r.types@ == all_types(asts@),
            r.functions@ == all_fns(asts@),
            r.mains@ == all_mains(asts@),
            r.tests@ == all_tests(asts@),
    {
        let ghost orig = asts@;
        let mut remaining = asts;
        let mut seg = SegmentedAst {
            types: Vec::new(),
            functions: Vec::new(),
            mains: Vec::new(),
            tests: Vec::new(),
        };
        proof {
            assert(all_types(orig) =~= seg.types@ + all_types(remaining@));
            assert(all_fns(orig) =~= seg.functions@ + all_fns(remaining@));
            assert(all_mains(orig) =~= seg.mains@ + all_mains(remaining@));
            assert(all_tests(orig) =~= seg.tests@ + all_tests(remaining@));
        }
        while remaining.len() > 0
            invariant
                all_types(orig) == seg.types@ + all_types(remaining@),
                all_fns(orig) == seg.functions@ + all_fns(remaining@),
                all_mains(orig) == seg.mains@ + all_mains(remaining@),
                all_tests(orig) == seg.tests@ + all_tests(remaining@),
            decreases remaining@.len(),
        {
            let ast = remaining.remove(0);
            let ghost ast_items = ast.items@;
            let mut items = ast.items;
            while items.len() > 0
                invariant
                    all_types(orig) == seg.types@ + types_of(items@) + all_types(remaining@),
                    all_fns(orig) == seg.functions@ + fns_of(items@) + all_fns(remaining@),
                    all_mains(orig) == seg.mains@ + mains_of(items@) + all_mains(remaining@),
                    all_tests(orig) == seg.tests@ + tests_of(items@) + all_tests(remaining@),
                decreases items@.len(),
            {
                let ghost before = items@;
                let item = items.remove(0);
                proof {
                    assert(before.drop_first() =~= items@);
                }
                match item {
                    RootItem::Type(d) => {
                        seg.types.push(d);
                    },
                    RootItem::Fn(f) => {
                        seg.functions.push(f);
                    },
                    RootItem::Main(m) => {
                        seg.mains.push(m);
                    },
                    RootItem::Test(t) => {
                        seg.tests.push(t);
                    },
                }
                proof {
                    assert(all_types(orig) =~= seg.types@ + types_of(items@) + all_types(
                        remaining@,
                    ));
                    assert(all_fns(orig) =~= seg.functions@ + fns_of(items@) + all_fns(
                        remaining@,
                    ));
                    assert(all_mains(orig) =~= seg.mains@ + mains_of(items@) + all_mains(
                        remaining@,
                    ));
                    assert(all_tests(orig) =~= seg.tests@ + tests_of(items@) + all_tests(
                        remaining@,
                    ));
                }
            }
            proof {
                assert(seg.types@ + types_of(items@) =~= seg.types@);
                assert(seg.functions@ + fns_of(items@) =~= seg.functions@);
                assert(seg.mains@ + mains_of(items@) =~= seg.mains@);
                assert(seg.tests@ + tests_of(items@) =~= seg.tests@);
            }
        }
        proof {
            assert(seg.types@ + all_types(remaining@) =~= seg.types@);
            assert(seg.functions@ + all_fns(remaining@) =~= seg.functions@);
            assert(seg.mains@ + all_mains(remaining@) =~= seg.mains@);
            assert(seg.tests@ + all_tests(remaining@) =~= seg.tests@);
        }
        seg
    }
}

/// One known type of the symbol universe: its name and whether it is a
/// built-in value type, copied by default rather than borrowed.
#[derive(Debug)]
pub struct TypeEntry {
    pub ident: TypeIdent,
    pub is_value_type: bool,
}

/// The symbol universe: every known type name, seeded with the
/// built-in primitive value types and extended by the declared types
/// of the merged units. Names are unique; inserting a name twice
/// fails.
#[derive(Debug)]
pub struct LookupContext {
    pub types: Vec<TypeEntry>,
}

/// The names of the built-in primitive value types, seeded before any
/// user symbols are merged. Changing this list is a breaking change to
/// generated output.
pub open spec fn builtin_names() -> Seq<Seq<char>> {
    seq!["Int"@, "Float"@, "String"@]
}

/// What the universe looks like after seeding the built-ins and merging
/// the given type declarations: the three built-in value types first,
/// then one non-value entry per declared type, in order.
pub open spec fn ctx_matches(ctx: LookupContext, types: Seq<TypeDecl>) -> bool {
    &&& ctx.wf()
    &&& ctx.types@.len() == 3 + types.len()
    &&& ctx.types@[0].ident@ == "Int"@ && ctx.types@[0].is_value_type
    &&& ctx.types@[1].ident@ == "Float"@ && ctx.types@[1].is_value_type
    &&& ctx.types@[2].ident@ == "String"@ && ctx.types@[2].is_value_type
    &&& forall|j: int|
        3 <= j < ctx.types@.len() ==> ((#[trigger] ctx.types@[j]).ident@ == types[j
            - 3].spec_ident()@ && !ctx.types@[j].is_value_type)
}

/// The first name of `decls` that collides with an earlier name, the
/// base names included; `None` when every name is fresh.
pub open spec fn first_duplicate(base: Seq<Seq<char>>, decls: Seq<TypeDecl>) -> Option<
    Seq<char>,
>
    decreases decls.len(),
{
    if decls.len() == 0 {
        None
    } else if base.contains(decls[0].spec_ident()@) {
        Some(decls[0].spec_ident()@)
    } else {
        first_duplicate(base.push(decls[0].spec_ident()@), decls.drop_first())
    }
}

impl LookupContext {
    /// The names known to the universe, in insertion order.
    pub open spec fn names(self) -> Seq<Seq<char>> {
        self.types@.map_values(|e: TypeEntry| e.ident@)
    }

    /// Whether the universe knows the name.
    pub open spec fn contains_type(self, name: Seq<char>) -> bool {
        exists|i: int| 0 <= i < self.types@.len() && #[trigger] self.types@[i].ident@ == name
    }

    /// Every known name occurs once.
    pub open spec fn wf(self) -> bool {
        forall|i: int, j: int|
            0 <= i < j < self.types@.len() ==> #[trigger] self.types@[i].ident@ != #[trigger] self.types@[j].ident@
    }

    /// Whether the name is a built-in value type of the universe.
    pub open spec fn spec_is_value_type(self, name: Seq<char>) -> bool {
        exists|i: int|
            0 <= i < self.types@.len() && #[trigger] self.types@[i].ident@ == name
                && self.types@[i].is_value_type
    }

    /// A universe holding exactly the built-in primitive value types.
    pub fn new() -> (r: LookupContext)
        ensures
            r.wf(),
            r.types@.len() == 3,
            r.types@[0].ident@ == "Int"@ && r.types@[0].is_value_type,
            r.types@[1].ident@ == "Float"@ && r.types@[1].is_value_type,
            r.types@[2].ident@ == "String"@ && r.types@[2].is_value_type,
            r.names() == builtin_names(),
    {
        let mut types: Vec<TypeEntry> = Vec::new();
        types.push(TypeEntry { ident: TypeIdent::new("Int"), is_value_type: true });
        types.push(TypeEntry { ident: TypeIdent::new("Float"), is_value_type: true });
        types.push(TypeEntry { ident: TypeIdent::new("String"), is_value_type: true });
        let r = LookupContext { types };
        proof {
            reveal_strlit("Int");
            reveal_strlit("Float");
            reveal_strlit("String");
            assert(r.types@.len() == 3);
            assert(r.types@[0].ident@ == "Int"@);
            assert(r.types@[1].ident@ == "Float"@);
            assert(r.types@[2].ident@ == "String"@);
            assert("Int"@.len() == 3 && "Float"@.len() == 5 && "String"@.len() == 6);
            assert(r.names() =~= builtin_names());
        }
        r
    }

    /// The index of the entry with the given name, if the universe
    /// knows it.
    fn lookup_index(&self, name: &String) -> (r: Option<usize>)
        ensures
            match r {
                Some(i) => i < self.types@.len() && self.types@[i as int].ident@ == name@,
                None => !self.contains_type(name@),
            },
    {
        let mut i: usize = 0;
        while i < self.types.len()
            invariant
                i <= self.types@.len(),
                forall|k: int| 0 <= k < i ==> #[trigger] self.types@[k].ident@ != name@,
            decreases self.types@.len() - i,
        {
            if self.types[i].ident.name == *name {
                return Some(i);
            }
            i = i + 1;
        }
        None
    }

    /// Whether the name resolves to a built-in value type, copied by
    /// default rather than borrowed at call sites.
    pub fn is_copy(&self, name: &TypeIdent) -> (r: bool)
        requires
            self.wf(),
        ensures
            r == self.spec_is_value_type(name@),
    {
        match self.lookup_index(&name.name) {
            Some(i) => self.types[i].is_value_type,
            None => false,
        }
    }

    /// The entry for the name, if the universe knows it: one of the
    /// stored entries, so that its value-type classification carries.
    pub fn resolve(&self, name: &TypeIdent) -> (r: Option<&TypeEntry>)
        ensures
            match r {
                Some(e) => {
                    &&& self.contains_type(name@)
                    &&& e.ident@ == name@
                    &&& exists|i: int|
                        0 <= i < self.types@.len() && #[trigger] self.types@[i] == *e
                    &&& self.wf() ==> e.is_value_type == self.spec_is_value_type(name@)
                },
                None => !self.contains_type(name@),
            },
    {
        match self.lookup_index(&name.name) {
            Some(i) => {
                let e = &self.types[i];
                proof {
                    assert(self.types@[i as int] == *e);
                    if self.wf() {
                        if self.spec_is_value_type(name@) {
                            let j = choose|j: int|
                                0 <= j < self.types@.len() && #[trigger] self.types@[j].ident@
                                    == name@ && self.types@[j].is_value_type;
                            assert(j == i);
                        }
                    }
                }
                Some(e)
            },
            None => None,
        }
    }

    /// Merges the declared types of the segmented units into the
    /// universe. It fails with the first name already present, whether
    /// that name collides with a built-in, with an earlier unit or
    /// within one unit; the outcome does not depend on anything but
    /// the declared name sequence.
    pub fn with(self, seg: &SegmentedAst) -> (r: Result<LookupContext, LookupError>)
        requires
            self.wf(),
        ensures
            match r {
                Ok(c) => {
                    &&& first_duplicate(self.names(), seg.types@) is None
                    &&& c.wf()
                    &&& c.types@.len() == self.types@.len() + seg.types@.len()
                    &&& forall|i: int|
                        0 <= i < self.types@.len() ==> #[trigger] c.types@[i] == self.types@[i]
                    &&& forall|j: int|
                        self.types@.len() <= j < c.types@.len() ==> ((#[trigger] c.types@[j]).ident@
                            == seg.types@[j - self.types@.len()].spec_ident()@ && !c.types@[j].is_value_type)
                },
                Err(e) => match e {
                    LookupError::DuplicateType(t) => first_duplicate(self.names(), seg.types@)
                        == Some(t@),
                    _ => false,
                },
            },
    {
        let ghost names0 = self.names();
        let ghost orig = self.types@;
        let ghost decls = seg.types@;
        let mut c = self;
        let mut i: usize = 0;
        proof {
            assert(decls.subrange(i as int, decls.len() as int) =~= decls);
        }
        while i < seg.types.len()
            invariant
                i <= seg.types@.len(),
                decls == seg.types@,
                names0 == self.names(),
                orig == self.types@,
                names0.len() == orig.len(),
                c.wf(),
                c.types@.len() == orig.len() + i,
                first_duplicate(names0, decls) == first_duplicate(
                    c.names(),
                    decls.subrange(i as int, decls.len() as int),
                ),
                forall|k: int| 0 <= k < orig.len() ==> #[trigger] c.types@[k] == orig[k],
                forall|j: int|
                    orig.len() <= j < c.types@.len() ==> ((#[trigger] c.types@[j]).ident@
                        == decls[j - orig.len()].spec_ident()@ && !c.types@[j].is_value_type),
            decreases seg.types@.len() - i,
        {
            let ghost rest = decls.subrange(i as int, decls.len() as int);
            proof {
                assert(rest[0] == decls[i as int]);
                assert(rest.drop_first() =~= decls.subrange(i + 1, decls.len() as int));
            }
            let d = &seg.types[i];
            let name = d.ident();
            match c.lookup_index(&name.name) {
                Some(_) => {
                    proof {
                        assert(c.contains_type(name@));
                        assert(c.names().contains(name@)) by {
                            let w = choose|k: int|
                                0 <= k < c.types@.len() && #[trigger] c.types@[k].ident@ == name@;
                            assert(c.names()[w] == name@);
                        }
                        assert(name@ == decls[i as int].spec_ident()@);
                        assert(first_duplicate(c.names(), rest) == Some(name@));
                        assert(first_duplicate(names0, decls) == Some(name@));
                    }
                    let dup = TypeIdent { name: name.name.clone() };
                    proof {
                        assert(dup@ == name@);
                        assert(first_duplicate(names0, decls) == Some(dup@));
                    }
                    return Err(LookupError::DuplicateType(dup));
                },
                None => {
                    proof {
                        assert(!c.names().contains(name@)) by {
                            if c.names().contains(name@) {
                                let w = choose|k: int|
                                    0 <= k < c.names().len() && c.names()[k] == name@;
                                assert(c.types@[w].ident@ == name@);
                            }
                        }
                    }
                    let ghost c_before = c;
                    let entry = TypeEntry {
                        ident: TypeIdent { name: name.name.clone() },
                        is_value_type: false,
                    };
                    c.types.push(entry);
                    proof {
                        assert(c.names() =~= c_before.names().push(name@));
                        assert(first_duplicate(c_before.names(), rest) == first_duplicate(
                            c.names(),
                            rest.drop_first(),
                        ));
                        assert forall|p: int, q: int|
                            0 <= p < q < c.types@.len() implies #[trigger] c.types@[p].ident@
                            != #[trigger] c.types@[q].ident@ by {
                            if q == c.types@.len() - 1 {
                                assert(c_before.types@[p].ident@ != name@);
                            }
                        }
                        assert(c.types@[orig.len() + i] == entry);
                        assert forall|j: int|
                            orig.len() <= j < c.types@.len() implies ((#[trigger] c.types@[j]).ident@
                            == decls[j - orig.len()].spec_ident()@ && !c.types@[j].is_value_type) by {
                            if j < c.types@.len() - 1 {
                                assert(c.types@[j] == c_before.types@[j]);
                            } else {
                                assert(c.types@[j] == entry);
                            }
                        }
                    }
                    i = i + 1;
                },
            }
        }
        proof {
            assert(decls.subrange(i as int, decls.len() as int).len() == 0);
            assert(first_duplicate(
                c.names(),
                decls.subrange(i as int, decls.len() as int),
            ) is None);
        }
        Ok(c)
    }
}

/// A fresh outcome over a larger base is fresh over a smaller base.
pub proof fn lemma_first_duplicate_base_shrink(
    base1: Seq<Seq<char>>,
    base2: Seq<Seq<char>>,
    decls: Seq<TypeDecl>,
)
    requires
        forall|n: Seq<char>| base2.contains(n) ==> base1.contains(n),
        first_duplicate(base1, decls) is None,
    ensures
        first_duplicate(base2, decls) is None,
    decreases decls.len(),
{
    if decls.len() > 0 {
        let n0 = decls[0].spec_ident()@;
        assert(!base1.contains(n0));
        assert(!base2.contains(n0));
        assert forall|n: Seq<char>| base2.push(n0).contains(n) implies base1.push(n0).contains(
            n,
        ) by {
            let w = choose|i: int| 0 <= i < base2.push(n0).len() && base2.push(n0)[i] == n;
            if w < base2.len() {
                assert(base2[w] == n);
                assert(base2.contains(n));
                let v = choose|i: int| 0 <= i < base1.len() && base1[i] == n;
                assert(base1.push(n0)[v] == n);
            } else {
                assert(base1.push(n0)[base1.len() as int] == n0);
            }
        }
        lemma_first_duplicate_base_shrink(base1.push(n0), base2.push(n0), decls.drop_first());
    }
}

/// A name already in the base makes the outcome a duplicate.
proof fn lemma_first_duplicate_of_base_hit(base: Seq<Seq<char>>, decls: Seq<TypeDecl>, k: int)
    requires
        0 <= k < decls.len(),
        base.contains(decls[k].spec_ident()@),
    ensures
        first_duplicate(base, decls) is Some,
    decreases decls.len(),
{
    let n0 = decls[0].spec_ident()@;
    if !base.contains(n0) {
        if k == 0 {
        } else {
            let n = decls[k].spec_ident()@;
            let w = choose|i: int| 0 <= i < base.len() && base[i] == n;
            assert(base.push(n0)[w] == n);
            assert(base.push(n0).contains(n));
            assert(decls.drop_first()[k - 1] == decls[k]);
            lemma_first_duplicate_of_base_hit(base.push(n0), decls.drop_first(), k - 1);
        }
    }
}

/// Two declarations of the same name make the outcome a duplicate.
proof fn lemma_first_duplicate_of_pair(base: Seq<Seq<char>>, decls: Seq<TypeDecl>, i: int, j: int)
    requires
        0 <= i < j < decls.len(),
        decls[i].spec_ident()@ == decls[j].spec_ident()@,
    ensures
        first_duplicate(base, decls) is Some,
    decreases decls.len(),
{
    let n0 = decls[0].spec_ident()@;
    if !base.contains(n0) {
        if i == 0 {
            assert(base.push(n0)[base.len() as int] == n0);
            assert(base.push(n0).contains(decls[j].spec_ident()@));
            assert(decls.drop_first()[j - 1] == decls[j]);
            lemma_first_duplicate_of_base_hit(base.push(n0), decls.drop_first(), j - 1);
        } else {
            assert(decls.drop_first()[i - 1] == decls[i]);
            assert(decls.drop_first()[j - 1] == decls[j]);
            lemma_first_duplicate_of_pair(base.push(n0), decls.drop_first(), i - 1, j - 1);
        }
    }
}

/// Merging two translation units that both declare a type of the same
/// name is rejected as a duplicate whichever unit is folded first.
pub proof fn lemma_duplicate_rejection_order_independent(
    base: Seq<Seq<char>>,
    first: Seq<TypeDecl>,
    second: Seq<TypeDecl>,
    i: int,
    j: int,
)
    requires
        0 <= i < first.len(),
        0 <= j < second.len(),
        first[i].spec_ident()@ == second[j].spec_ident()@,
    ensures
        first_duplicate(base, first + second) is Some,
        first_duplicate(base, second + first) is Some,
{
    assert((first + second)[i] == first[i]);
    assert((first + second)[first.len() + j] == second[j]);
    lemma_first_duplicate_of_pair(base, first + second, i, first.len() + j);
    assert((second + first)[j] == second[j]);
    assert((second + first)[second.len() + i] == first[i]);
    lemma_first_duplicate_of_pair(base, second + first, j, second.len() + i);
}

} // verus!

