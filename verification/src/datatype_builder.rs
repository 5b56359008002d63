use vstd::prelude::*;
use crate::context::Context;
use crate::decl::{DeclData, DeclKind, DeclKindV, DeclV, FuncDecl};
use crate::sort::{Sort, SortData, SortV};
use crate::sym::SymData;
use crate::sym::SymV;

verus! {

// ---------------------------------------------------------------------------
// Staged variants
// ---------------------------------------------------------------------------

/// Spec-level model of a staged variant: its name, the conventional
/// recognizer name, and the named, sorted fields in declaration order.
pub struct StagedV {
    pub name: Seq<char>,
    pub recognizer: Seq<char>,
    pub fields: Seq<(Seq<char>, SortV)>,
}

/// One staged constructor descriptor, not yet materialized into
/// declarations.
struct StagedVariant {
    name: String,
    recognizer: String,
    fields: Vec<(String, SortData)>,
}

pub open spec fn field_data_views(fs: Seq<(String, SortData)>) -> Seq<(Seq<char>, SortV)> {
    Seq::new(
        fs.len(),
        |i: int|
            if 0 <= i < fs.len() {
                (fs[i].0@, fs[i].1.view())
            } else {
                (Seq::empty(), SortV::BoolSort)
            },
    )
}

impl StagedVariant {
    spec fn view(self) -> StagedV {
        StagedV {
            name: self.name@,
            recognizer: self.recognizer@,
            fields: field_data_views(self.fields@),
        }
    }
}

/// The view of a field slice as handed to `variant`.
pub open spec fn field_views(fs: Seq<(&str, &Sort)>) -> Seq<(Seq<char>, SortV)> {
    Seq::new(fs.len(), |i: int| (fs[i].0@, fs[i].1@))
}

/// The constructor declaration a finished datatype holds for variant `k`.
pub open spec fn dt_ctor_decl(dt: Seq<char>, v: StagedV, k: nat) -> DeclV {
    DeclV {
        name: SymV::Name { s: v.name },
        domain: Seq::new(v.fields.len(), |i: int| v.fields[i].1),
        range: SortV::DatatypeSort { name: dt },
        kind: DeclKindV::Ctor { dt, idx: k },
    }
}

/// The tester declaration a finished datatype holds for variant `k`.
pub open spec fn dt_tester_decl(dt: Seq<char>, v: StagedV, k: nat) -> DeclV {
    DeclV {
        name: SymV::Name { s: v.recognizer },
        domain: seq![SortV::DatatypeSort { name: dt }],
        range: SortV::BoolSort,
        kind: DeclKindV::Tester {
            dt,
            idx: k,
            ctor_name: SymV::Name { s: v.name },
            ctor_arity: v.fields.len(),
        },
    }
}

/// The accessor declaration a finished datatype holds for field `f` of
/// variant `k`.
pub open spec fn dt_accessor_decl(dt: Seq<char>, v: StagedV, k: nat, f: int) -> DeclV {
    DeclV {
        name: SymV::Name { s: v.fields[f].0 },
        domain: seq![SortV::DatatypeSort { name: dt }],
        range: v.fields[f].1,
        kind: DeclKindV::Accessor { dt, idx: k, field: f as nat },
    }
}

// ---------------------------------------------------------------------------
// Builder, finished datatype, and its variants
// ---------------------------------------------------------------------------

/// One alternative of a finished algebraic datatype: a constructor, a
/// recognizer, and one accessor per field, in field-declaration order.
pub struct DatatypeVariant {
    pub constructor: FuncDecl,
    pub tester: FuncDecl,
    pub accessors: Vec<FuncDecl>,
}

/// A finished algebraic datatype: its sort plus its variants, in the order
/// they were staged.
pub struct Datatype {
    pub sort: Sort,
    pub variants: Vec<DatatypeVariant>,
}

impl Datatype {
    /// The identity of the owning context.
    pub open spec fn ctx(self) -> u64 {
        self.sort.ctx()
    }
}

/// Stages variant descriptors for an algebraic datatype, then finalizes them
/// into a sort plus per-variant declarations.
pub struct DatatypeBuilder {
    ctx_id: u64,
    staged: Vec<StagedVariant>,
}

impl DatatypeBuilder {
    /// The identity of the owning context.
    pub closed spec fn ctx(self) -> u64 {
        self.ctx_id
    }

    /// The variants staged so far, in the order `variant` was called.
    pub closed spec fn staged(self) -> Seq<StagedV> {
        Seq::new(
            self.staged@.len(),
            |i: int|
                if 0 <= i < self.staged@.len() {
                    self.staged@[i].view()
                } else {
                    StagedV { name: Seq::empty(), recognizer: Seq::empty(), fields: Seq::empty() }
                },
        )
    }

    pub fn new(ctx: &Context) -> (r: DatatypeBuilder)
        ensures
            r.ctx() == ctx.id(),
            r.staged() == Seq::<StagedV>::empty(),
    {
        let r = DatatypeBuilder { ctx_id: ctx.id_exec(), staged: Vec::new() };
        proof {
            assert(r.staged() =~= Seq::<StagedV>::empty());
        }
        r
    }

    /// Stages one variant: its name, a recognizer named `is-` plus the
    /// variant name, and the named fields with their sorts.
    pub fn variant(self, name: &str, fields: &[(&str, &Sort)]) -> (r: DatatypeBuilder)
        requires
            forall|i: int| 0 <= i < fields@.len() ==> fields@[i].1.ctx() == self.ctx(),
        ensures
            r.ctx() == self.ctx(),
            r.staged() == self.staged().push(
                StagedV {
                    name: name@,
                    recognizer: "is-"@ + name@,
                    fields: field_views(fields@),
                },
            ),
    {
        let mut recognizer = String::from_str("is-");
        recognizer.append(name);
        let mut fs: Vec<(String, SortData)> = Vec::new();
        let mut i: usize = 0;
        while i < fields.len()
            invariant
                i <= fields@.len(),
                fs@.len() == i,
                forall|j: int|
                    0 <= j < i ==> fs@[j].0@ == fields@[j].0@ && fs@[j].1.view()
                        == fields@[j].1@,
            decreases fields@.len() - i,
        {
            let fname = fields[i].0.to_owned();
            let fsort = fields[i].1.data_dup();
            fs.push((fname, fsort));
            i += 1;
        }
        let sv = StagedVariant { name: name.to_owned(), recognizer, fields: fs };
        proof {
            assert(sv.view() == (StagedV {
                name: name@,
                recognizer: "is-"@ + name@,
                fields: field_views(fields@),
            })) by {
                assert(field_data_views(sv.fields@) =~= field_views(fields@));
            }
        }
        let mut staged = self.staged;
        staged.push(sv);
        let r = DatatypeBuilder { ctx_id: self.ctx_id, staged };
        proof {
            assert(r.staged() =~= self.staged().push(
                StagedV {
                    name: name@,
                    recognizer: "is-"@ + name@,
                    fields: field_views(fields@),
                },
            ));
        }
        r
    }

    /// Materializes the staged variants into a datatype sort with concrete
    /// constructor, tester and accessor declarations; variant order matches
    /// the order `variant` was called, and field order matches declaration
    /// order.
    pub fn finish(self, name: &str) -> (r: Datatype)
        ensures
            r.ctx() == self.ctx(),
            r.sort@ == (SortV::DatatypeSort { name: name@ }),
            r.sort.ctx() == self.ctx(),
            r.variants@.len() == self.staged().len(),
            forall|k: int|
                0 <= k < self.staged().len() ==> {
                    &&& r.variants@[k].constructor@ == dt_ctor_decl(
                        name@,
                        self.staged()[k],
                        k as nat,
                    )
                    &&& r.variants@[k].constructor.ctx() == self.ctx()
                    &&& r.variants@[k].tester@ == dt_tester_decl(name@, self.staged()[k], k as nat)
                    &&& r.variants@[k].tester.ctx() == self.ctx()
                    &&& r.variants@[k].accessors@.len() == self.staged()[k].fields.len()
                },
            forall|k: int, f: int|
                0 <= k < self.staged().len() && 0 <= f < self.staged()[k].fields.len()
                    ==> r.variants@[k].accessors@[f]@ == dt_accessor_decl(
                    name@,
                    self.staged()[k],
                    k as nat,
                    f,
                ) && r.variants@[k].accessors@[f].ctx() == self.ctx(),
    {
        let cid = self.ctx_id;
        let ghost staged_v = self.staged();
        let dt = name.to_owned();
        let sort = Sort::datatype_sort(cid, dt.clone());
        let staged = self.staged;
        let mut variants: Vec<DatatypeVariant> = Vec::new();
        let mut k: usize = 0;
        while k < staged.len()
            invariant
                k <= staged@.len(),
                dt@ == name@,
                staged_v.len() == staged@.len(),
                forall|i: int| 0 <= i < staged@.len() ==> staged_v[i] == staged@[i].view(),
                variants@.len() == k,
                forall|j: int|
                    0 <= j < k ==> {
                        &&& variants@[j].constructor@ == dt_ctor_decl(name@, staged_v[j], j as nat)
                        &&& variants@[j].constructor.ctx() == cid
                        &&& variants@[j].tester@ == dt_tester_decl(name@, staged_v[j], j as nat)
                        &&& variants@[j].tester.ctx() == cid
                        &&& variants@[j].accessors@.len() == staged_v[j].fields.len()
                    },
                forall|j: int, f: int|
                    0 <= j < k && 0 <= f < staged_v[j].fields.len() ==> variants@[j].accessors@[f]@
                        == dt_accessor_decl(name@, staged_v[j], j as nat, f)
                        && variants@[j].accessors@[f].ctx() == cid,
            decreases staged@.len() - k,
        {
            let sv = &staged[k];
            // constructor: one domain entry per field
            let mut domain: Vec<SortData> = Vec::new();
            let mut f: usize = 0;
            while f < sv.fields.len()
                invariant
                    f <= sv.fields@.len(),
                    domain@.len() == f,
                    forall|i: int| 0 <= i < f ==> domain@[i].view() == sv.fields@[i].1.view(),
                decreases sv.fields@.len() - f,
            {
                domain.push(sv.fields[f].1.duplicate());
                f += 1;
            }
            let cd = DeclData {
                name: SymData::Name { s: sv.name.clone() },
                domain,
                range: SortData::DatatypeSort { name: dt.clone() },
                kind: DeclKind::Ctor { dt: dt.clone(), idx: k },
            };
            proof {
                assert(cd.view() == dt_ctor_decl(name@, staged_v[k as int], k as nat)) by {
                    assert(cd.view().domain =~= dt_ctor_decl(
                        name@,
                        staged_v[k as int],
                        k as nat,
                    ).domain);
                }
            }
            let constructor = FuncDecl::from_data(cid, cd);
            // tester: one argument of the datatype sort
            let mut tdomain: Vec<SortData> = Vec::new();
            tdomain.push(SortData::DatatypeSort { name: dt.clone() });
            let td = DeclData {
                name: SymData::Name { s: sv.recognizer.clone() },
                domain: tdomain,
                range: SortData::BoolSort,
                kind: DeclKind::Tester {
                    dt: dt.clone(),
                    idx: k,
                    ctor_name: SymData::Name { s: sv.name.clone() },
                    ctor_arity: sv.fields.len(),
                },
            };
            proof {
                assert(td.view() == dt_tester_decl(name@, staged_v[k as int], k as nat)) by {
                    assert(td.view().domain =~= dt_tester_decl(
                        name@,
                        staged_v[k as int],
                        k as nat,
                    ).domain);
                }
            }
            let tester = FuncDecl::from_data(cid, td);
            // accessors: one per field, from the datatype to the field sort
            let mut accessors: Vec<FuncDecl> = Vec::new();
            let mut f: usize = 0;
            while f < sv.fields.len()
                invariant
                    f <= sv.fields@.len(),
                    dt@ == name@,
                    staged_v.len() == staged@.len(),
                    forall|i: int| 0 <= i < staged@.len() ==> staged_v[i] == staged@[i].view(),
                    k < staged@.len(),
                    sv == &staged@[k as int],
                    accessors@.len() == f,
                    forall|i: int|
                        0 <= i < f ==> accessors@[i]@ == dt_accessor_decl(
                            name@,
                            staged_v[k as int],
                            k as nat,
                            i,
                        ) && accessors@[i].ctx() == cid,
                decreases sv.fields@.len() - f,
            {
                let mut adomain: Vec<SortData> = Vec::new();
                adomain.push(SortData::DatatypeSort { name: dt.clone() });
                let ad = DeclData {
                    name: SymData::Name { s: sv.fields[f].0.clone() },
                    domain: adomain,
                    range: sv.fields[f].1.duplicate(),
                    kind: DeclKind::Accessor { dt: dt.clone(), idx: k, field: f },
                };
                proof {
                    assert(ad.view() == dt_accessor_decl(
                        name@,
                        staged_v[k as int],
                        k as nat,
                        f as int,
                    )) by {
                        assert(ad.view().domain =~= dt_accessor_decl(
                            name@,
                            staged_v[k as int],
                            k as nat,
                            f as int,
                        ).domain);
                    }
                }
                accessors.push(FuncDecl::from_data(cid, ad));
                f += 1;
            }
            variants.push(DatatypeVariant { constructor, tester, accessors });
            k += 1;
        }
        Datatype { sort, variants }
    }
}

} // verus!
