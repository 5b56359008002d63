use vstd::prelude::*;
use crate::sym::{SymData, SymV, Symbol};
use crate::sort::{Sort, SortData, SortV};
use crate::context::Context;
use crate::ast::Ast;
use crate::term::{Term, TermV};

verus! {

// ---------------------------------------------------------------------------
// Function declarations
// ---------------------------------------------------------------------------

/// Spec-level role of a declaration: a plain (uninterpreted) function or
/// constant, or one of the three declaration families a datatype variant
/// produces.
pub enum DeclKindV {
    Uninterp,
    Ctor { dt: Seq<char>, idx: nat },
    /// A tester records the name and arity of the constructor it recognizes,
    /// so a nullary variant's value can be reconstructed from it.
    Tester { dt: Seq<char>, idx: nat, ctor_name: SymV, ctor_arity: nat },
    Accessor { dt: Seq<char>, idx: nat, field: nat },
}

#[derive(Debug)]
pub enum DeclKind {
    Uninterp,
    Ctor { dt: String, idx: usize },
    Tester { dt: String, idx: usize, ctor_name: SymData, ctor_arity: usize },
    Accessor { dt: String, idx: usize, field: usize },
}

impl DeclKind {
    pub open spec fn view(self) -> DeclKindV {
        match self {
            DeclKind::Uninterp => DeclKindV::Uninterp,
            DeclKind::Ctor { dt, idx } => DeclKindV::Ctor { dt: dt@, idx: idx as nat },
            DeclKind::Tester { dt, idx, ctor_name, ctor_arity } => DeclKindV::Tester {
                dt: dt@,
                idx: idx as nat,
                ctor_name: ctor_name.view(),
                ctor_arity: ctor_arity as nat,
            },
            DeclKind::Accessor { dt, idx, field } => DeclKindV::Accessor {
                dt: dt@,
                idx: idx as nat,
                field: field as nat,
            },
        }
    }

    pub fn duplicate(&self) -> (r: DeclKind)
        ensures
            r.view() == self.view(),
    {
        match self {
            DeclKind::Uninterp => DeclKind::Uninterp,
            DeclKind::Ctor { dt, idx } => DeclKind::Ctor { dt: dt.clone(), idx: *idx },
            DeclKind::Tester { dt, idx, ctor_name, ctor_arity } => DeclKind::Tester {
                dt: dt.clone(),
                idx: *idx,
                ctor_name: ctor_name.duplicate(),
                ctor_arity: *ctor_arity,
            },
            DeclKind::Accessor { dt, idx, field } => DeclKind::Accessor {
                dt: dt.clone(),
                idx: *idx,
                field: *field,
            },
        }
    }

    pub fn kind_eq(&self, other: &DeclKind) -> (r: bool)
        ensures
            r == (self.view() == other.view()),
    {
        match (self, other) {
            (DeclKind::Uninterp, DeclKind::Uninterp) => true,
            (DeclKind::Ctor { dt: d1, idx: i1 }, DeclKind::Ctor { dt: d2, idx: i2 }) => {
                let r = d1.eq(d2) && i1 == i2;
                proof {
                    if r {
                        assert(self.view() == other.view());
                    }
                }
                r
            },
            (
                DeclKind::Tester { dt: d1, idx: i1, ctor_name: n1, ctor_arity: a1 },
                DeclKind::Tester { dt: d2, idx: i2, ctor_name: n2, ctor_arity: a2 },
            ) => {
                let r = d1.eq(d2) && i1 == i2 && n1.sym_eq(n2) && a1 == a2;
                proof {
                    if r {
                        assert(self.view() == other.view());
                    }
                }
                r
            },
            (
                DeclKind::Accessor { dt: d1, idx: i1, field: f1 },
                DeclKind::Accessor { dt: d2, idx: i2, field: f2 },
            ) => {
                let r = d1.eq(d2) && i1 == i2 && f1 == f2;
                proof {
                    if r {
                        assert(self.view() == other.view());
                    }
                }
                r
            },
            _ => {
                proof {
                    assert(self.view() != other.view());
                }
                false
            },
        }
    }
}

/// Spec-level model of a function or constant declaration.
pub struct DeclV {
    pub name: SymV,
    pub domain: Seq<SortV>,
    pub range: SortV,
    pub kind: DeclKindV,
}

/// Executable representation of a declaration.
#[derive(Debug)]
pub struct DeclData {
    pub name: SymData,
    pub domain: Vec<SortData>,
    pub range: SortData,
    pub kind: DeclKind,
}

impl DeclData {
    pub open spec fn view(self) -> DeclV {
        DeclV {
            name: self.name.view(),
            domain: Seq::new(
                self.domain@.len(),
                |i: int|
                    if 0 <= i < self.domain@.len() {
                        self.domain@[i].view()
                    } else {
                        SortV::BoolSort
                    },
            ),
            range: self.range.view(),
            kind: self.kind.view(),
        }
    }

    pub fn duplicate(&self) -> (r: DeclData)
        ensures
            r.view() == self.view(),
    {
        let mut domain: Vec<SortData> = Vec::new();
        let mut i: usize = 0;
        while i < self.domain.len()
            invariant
                i <= self.domain.len(),
                domain@.len() == i,
                forall|j: int| 0 <= j < i ==> domain@[j].view() == self.domain@[j].view(),
            decreases self.domain.len() - i,
        {
            domain.push(self.domain[i].duplicate());
            i += 1;
        }
        let r = DeclData {
            name: self.name.duplicate(),
            domain,
            range: self.range.duplicate(),
            kind: self.kind.duplicate(),
        };
        proof {
            assert(r.view().domain =~= self.view().domain);
            assert(r.view() == self.view());
        }
        r
    }

    pub fn decl_eq(&self, other: &DeclData) -> (r: bool)
        ensures
            r == (self.view() == other.view()),
    {
        if !self.name.sym_eq(&other.name) {
            proof {
                assert(self.view() != other.view());
            }
            return false;
        }
        if !self.range.sort_eq(&other.range) {
            proof {
                assert(self.view() != other.view());
            }
            return false;
        }
        if !self.kind.kind_eq(&other.kind) {
            proof {
                assert(self.view() != other.view());
            }
            return false;
        }
        if self.domain.len() != other.domain.len() {
            proof {
                assert(self.view().domain.len() != other.view().domain.len());
            }
            return false;
        }
        let mut i: usize = 0;
        while i < self.domain.len()
            invariant
                i <= self.domain.len(),
                self.domain@.len() == other.domain@.len(),
                self.view().name == other.view().name,
                self.view().range == other.view().range,
                self.view().kind == other.view().kind,
                forall|j: int|
                    0 <= j < i ==> self.view().domain[j] == other.view().domain[j],
            decreases self.domain.len() - i,
        {
            if !self.domain[i].sort_eq(&other.domain[i]) {
                proof {
                    assert(self.view().domain[i as int] != other.view().domain[i as int]);
                }
                return false;
            }
            i += 1;
        }
        proof {
            assert(self.view().domain =~= other.view().domain);
            assert(self.view() == other.view());
        }
        true
    }
}

// ---------------------------------------------------------------------------
// The public declaration handle
// ---------------------------------------------------------------------------

pub open spec fn sort_views(s: Seq<&Sort>) -> Seq<SortV> {
    Seq::new(s.len(), |i: int| s[i]@)
}

pub open spec fn all_sorts_in_ctx(s: Seq<&Sort>, c: u64) -> bool {
    forall|i: int| 0 <= i < s.len() ==> s[i].ctx() == c
}

/// A declared function or constant symbol, applied to terms to build terms.
pub struct FuncDecl {
    pub(crate) ctx_id: u64,
    pub(crate) data: DeclData,
}

impl View for FuncDecl {
    type V = DeclV;

    closed spec fn view(&self) -> DeclV {
        self.data.view()
    }
}

impl FuncDecl {
    /// The identity of the owning context.
    pub closed spec fn ctx(self) -> u64 {
        self.ctx_id
    }

    pub(crate) fn from_data(ctx_id: u64, data: DeclData) -> (r: FuncDecl)
        ensures
            r@ == data.view(),
            r.ctx() == ctx_id,
    {
        FuncDecl { ctx_id, data }
    }

    /// Declares an uninterpreted function from the domain sorts to the range.
    pub fn new(ctx: &Context, name: Symbol, domain: &[&Sort], range: &Sort) -> (r: FuncDecl)
        requires
            name.ctx() == ctx.id(),
            all_sorts_in_ctx(domain@, ctx.id()),
            range.ctx() == ctx.id(),
        ensures
            r@ == (DeclV {
                name: name@,
                domain: sort_views(domain@),
                range: range@,
                kind: DeclKindV::Uninterp,
            }),
            r.ctx() == ctx.id(),
    {
        let mut ds: Vec<SortData> = Vec::new();
        let mut i: usize = 0;
        while i < domain.len()
            invariant
                i <= domain@.len(),
                ds@.len() == i,
                forall|j: int| 0 <= j < i ==> ds@[j].view() == domain@[j]@,
            decreases domain@.len() - i,
        {
            ds.push(domain[i].data_dup());
            i += 1;
        }
        let r = FuncDecl {
            ctx_id: ctx.id_exec(),
            data: DeclData {
                name: name.data_dup(),
                domain: ds,
                range: range.data_dup(),
                kind: DeclKind::Uninterp,
            },
        };
        proof {
            assert(r@.domain =~= sort_views(domain@));
        }
        r
    }

    /// Applies this declaration to the arguments, one per domain sort.
    pub fn apply(&self, args: &[&Ast]) -> (r: Ast)
        requires
            crate::ast::all_in_ctx(args@, self.ctx()),
            args@.len() == self@.domain.len(),
        ensures
            r@ == (TermV::FuncApp { decl: self@, args: crate::ast::views_of(args@) }),
            r.ctx() == self.ctx(),
    {
        let mut ts: Vec<Term> = Vec::new();
        let mut i: usize = 0;
        while i < args.len()
            invariant
                i <= args@.len(),
                ts@.len() == i,
                forall|j: int| 0 <= j < i ==> ts@[j].view() == args@[j]@,
            decreases args@.len() - i,
        {
            ts.push(args[i].term_dup());
            i += 1;
        }
        let r = Ast::of_term(
            self.ctx_id,
            Term::FuncApp { decl: self.data.duplicate(), args: ts },
        );
        proof {
            assert(crate::term::view_terms(ts@) =~= crate::ast::views_of(args@));
        }
        r
    }
}

} // verus!
