use vstd::prelude::*;
use vstd::arithmetic::power2::{pow2, lemma2_to64, lemma2_to64_rest, lemma_pow2_strictly_increases};
use vstd::arithmetic::div_mod::lemma_small_mod;
use crate::sym::{SymData, SymV, Symbol, sym_text, sym_to_text};
use crate::term::{Term, TermV};
use crate::context::Context;
use crate::decl::{DeclData, DeclKindV, DeclV, FuncDecl};
use crate::decl::DeclKind;

verus! {

// ---------------------------------------------------------------------------
// Sorts
// ---------------------------------------------------------------------------

/// Spec-level model of a sort (the type of a term).
pub enum SortV {
    BoolSort,
    IntSort,
    RealSort,
    BitVecSort { width: u32 },
    ArraySort { domain: Box<SortV>, range: Box<SortV> },
    SetSort { elem: Box<SortV> },
    UninterpSort { name: SymV },
    DatatypeSort { name: Seq<char> },
}

/// Executable representation of a sort.
#[derive(Debug)]
pub enum SortData {
    BoolSort,
    IntSort,
    RealSort,
    BitVecSort { width: u32 },
    ArraySort { domain: Box<SortData>, range: Box<SortData> },
    SetSort { elem: Box<SortData> },
    UninterpSort { name: SymData },
    DatatypeSort { name: String },
}

impl SortData {
    pub open spec fn view(self) -> SortV
        decreases self,
    {
        match self {
            SortData::BoolSort => SortV::BoolSort,
            SortData::IntSort => SortV::IntSort,
            SortData::RealSort => SortV::RealSort,
            SortData::BitVecSort { width } => SortV::BitVecSort { width },
            SortData::ArraySort { domain, range } => SortV::ArraySort {
                domain: Box::new(domain.view()),
                range: Box::new(range.view()),
            },
            SortData::SetSort { elem } => SortV::SetSort { elem: Box::new(elem.view()) },
            SortData::UninterpSort { name } => SortV::UninterpSort { name: name.view() },
            SortData::DatatypeSort { name } => SortV::DatatypeSort { name: name@ },
        }
    }

    pub fn duplicate(&self) -> (r: SortData)
        ensures
            r.view() == self.view(),
        decreases *self,
    {
        match self {
            SortData::BoolSort => SortData::BoolSort,
            SortData::IntSort => SortData::IntSort,
            SortData::RealSort => SortData::RealSort,
            SortData::BitVecSort { width } => SortData::BitVecSort { width: *width },
            SortData::ArraySort { domain, range } => SortData::ArraySort {
                domain: Box::new(domain.duplicate()),
                range: Box::new(range.duplicate()),
            },
            SortData::SetSort { elem } => SortData::SetSort { elem: Box::new(elem.duplicate()) },
            SortData::UninterpSort { name } => SortData::UninterpSort { name: name.duplicate() },
            SortData::DatatypeSort { name } => SortData::DatatypeSort { name: name.clone() },
        }
    }

    /// True exactly when this is the integer sort.
    pub fn is_int_sort(&self) -> (r: bool)
        ensures
            r == (self.view() == SortV::IntSort),
    {
        match self {
            SortData::IntSort => true,
            SortData::BoolSort => false,
            SortData::RealSort => false,
            SortData::BitVecSort { .. } => false,
            SortData::ArraySort { .. } => false,
            SortData::SetSort { .. } => false,
            SortData::UninterpSort { .. } => false,
            SortData::DatatypeSort { .. } => false,
        }
    }

    /// The width of a bit-vector sort, if this is one.
    pub fn bv_width(&self) -> (r: Option<u32>)
        ensures
            match r {
                Some(w) => self.view() == (SortV::BitVecSort { width: w }),
                None => !(self.view() is BitVecSort),
            },
    {
        match self {
            SortData::BitVecSort { width } => Some(*width),
            SortData::IntSort => None,
            SortData::BoolSort => None,
            SortData::RealSort => None,
            SortData::ArraySort { .. } => None,
            SortData::SetSort { .. } => None,
            SortData::UninterpSort { .. } => None,
            SortData::DatatypeSort { .. } => None,
        }
    }

    /// Structural equality of sorts, deciding equality of the spec views.
    pub fn sort_eq(&self, other: &SortData) -> (r: bool)
        ensures
            r == (self.view() == other.view()),
        decreases *self,
    {
        match (self, other) {
            (SortData::BoolSort, SortData::BoolSort) => true,
            (SortData::IntSort, SortData::IntSort) => true,
            (SortData::RealSort, SortData::RealSort) => true,
            (SortData::BitVecSort { width: a }, SortData::BitVecSort { width: b }) => a == b,
            (
                SortData::ArraySort { domain: d1, range: r1 },
                SortData::ArraySort { domain: d2, range: r2 },
            ) => d1.sort_eq(d2) && r1.sort_eq(r2),
            (SortData::SetSort { elem: a }, SortData::SetSort { elem: b }) => a.sort_eq(b),
            (SortData::UninterpSort { name: a }, SortData::UninterpSort { name: b }) => a.sym_eq(
                b,
            ),
            (SortData::DatatypeSort { name: a }, SortData::DatatypeSort { name: b }) => a.eq(b),
            _ => {
                proof {
                    assert(self.view() != other.view());
                }
                false
            },
        }
    }
}

// ---------------------------------------------------------------------------
// The public sort handle
// ---------------------------------------------------------------------------

/// Kind of term used to represent types.
pub struct Sort {
    pub(crate) ctx_id: u64,
    pub(crate) data: SortData,
}

impl View for Sort {
    type V = SortV;

    closed spec fn view(&self) -> SortV {
        self.data.view()
    }
}

/// The declaration of an enumeration variant's nullary constructor.
pub open spec fn enum_const_decl(dt: Seq<char>, vname: SymV, k: nat) -> DeclV {
    DeclV {
        name: vname,
        domain: Seq::empty(),
        range: SortV::DatatypeSort { name: dt },
        kind: DeclKindV::Ctor { dt, idx: k },
    }
}

/// The declaration of an enumeration variant's tester, named by convention
/// `is-` followed by the variant's text.
pub open spec fn enum_tester_decl(dt: Seq<char>, vname: SymV, k: nat) -> DeclV {
    DeclV {
        name: SymV::Name { s: "is-"@ + sym_text(vname) },
        domain: seq![SortV::DatatypeSort { name: dt }],
        range: SortV::BoolSort,
        kind: DeclKindV::Tester { dt, idx: k, ctor_name: vname, ctor_arity: 0 },
    }
}

/// The numeral value a sort stores for an integer: bit-vector numerals are
/// reduced modulo `2^width`.
pub open spec fn numeral_of(s: SortV, v: int) -> TermV {
    TermV::Numeral {
        value: if s is BitVecSort {
            v % (pow2(s->BitVecSort_width as nat) as int)
        } else {
            v
        },
        sort: s,
    }
}

impl Sort {
    /// The identity of the owning context.
    pub closed spec fn ctx(self) -> u64 {
        self.ctx_id
    }

    pub fn uninterpreted(ctx: &Context, sym: &Symbol) -> (r: Sort)
        requires
            sym.ctx() == ctx.id(),
        ensures
            r@ == (SortV::UninterpSort { name: sym@ }),
            r.ctx() == ctx.id(),
    {
        Sort {
            ctx_id: ctx.id_exec(),
            data: SortData::UninterpSort { name: sym.data_dup() },
        }
    }

    pub fn bool(ctx: &Context) -> (r: Sort)
        ensures
            r@ == SortV::BoolSort,
            r.ctx() == ctx.id(),
    {
        Sort { ctx_id: ctx.id_exec(), data: SortData::BoolSort }
    }

    pub fn integer(ctx: &Context) -> (r: Sort)
        ensures
            r@ == SortV::IntSort,
            r.ctx() == ctx.id(),
    {
        Sort { ctx_id: ctx.id_exec(), data: SortData::IntSort }
    }

    pub fn real_num(ctx: &Context) -> (r: Sort)
        ensures
            r@ == SortV::RealSort,
            r.ctx() == ctx.id(),
    {
        Sort { ctx_id: ctx.id_exec(), data: SortData::RealSort }
    }

    pub fn bitvector(ctx: &Context, sz: u32) -> (r: Sort)
        ensures
            r@ == (SortV::BitVecSort { width: sz }),
            r.ctx() == ctx.id(),
    {
        Sort { ctx_id: ctx.id_exec(), data: SortData::BitVecSort { width: sz } }
    }

    pub fn array(ctx: &Context, domain: &Sort, range: &Sort) -> (r: Sort)
        requires
            domain.ctx() == ctx.id(),
            range.ctx() == ctx.id(),
        ensures
            r@ == (SortV::ArraySort { domain: Box::new(domain@), range: Box::new(range@) }),
            r.ctx() == ctx.id(),
    {
        Sort {
            ctx_id: ctx.id_exec(),
            data: SortData::ArraySort {
                domain: Box::new(domain.data.duplicate()),
                range: Box::new(range.data.duplicate()),
            },
        }
    }

    pub fn set(ctx: &Context, elt: &Sort) -> (r: Sort)
        requires
            elt.ctx() == ctx.id(),
        ensures
            r@ == (SortV::SetSort { elem: Box::new(elt@) }),
            r.ctx() == ctx.id(),
    {
        Sort {
            ctx_id: ctx.id_exec(),
            data: SortData::SetSort { elem: Box::new(elt.data.duplicate()) },
        }
    }

    /// The canonical text of this sort.
    pub fn to_text(&self) -> (r: String)
        ensures
            r@ == crate::render::sort_text(self@),
    {
        crate::render::sort_to_text(&self.data)
    }

    /// Builds an enumeration sort, modeled as a datatype whose variants are
    /// the named nullary constructors.  Returns the sort, the per-variant
    /// constant declarations and the per-variant tester declarations, aligned
    /// by construction order.
    pub fn enumeration(ctx: &Context, name: &Symbol, enum_names: &[&Symbol]) -> (r: (
        Sort,
        Vec<FuncDecl>,
        Vec<FuncDecl>,
    ))
        requires
            name.ctx() == ctx.id(),
            forall|i: int| 0 <= i < enum_names@.len() ==> enum_names@[i].ctx() == ctx.id(),
        ensures
            r.0@ == (SortV::DatatypeSort { name: sym_text(name@) }),
            r.0.ctx() == ctx.id(),
            r.1@.len() == enum_names@.len(),
            r.2@.len() == enum_names@.len(),
            forall|k: int|
                0 <= k < enum_names@.len() ==> r.1@[k]@ == enum_const_decl(
                    sym_text(name@),
                    enum_names@[k]@,
                    k as nat,
                ) && r.1@[k].ctx() == ctx.id(),
            forall|k: int|
                0 <= k < enum_names@.len() ==> r.2@[k]@ == enum_tester_decl(
                    sym_text(name@),
                    enum_names@[k]@,
                    k as nat,
                ) && r.2@[k].ctx() == ctx.id(),
    {
        let cid = ctx.id_exec();
        let dt = sym_to_text(&name.data_dup());
        let sort = Sort { ctx_id: cid, data: SortData::DatatypeSort { name: dt.clone() } };
        let mut consts: Vec<FuncDecl> = Vec::new();
        let mut testers: Vec<FuncDecl> = Vec::new();
        let mut k: usize = 0;
        while k < enum_names.len()
            invariant
                k <= enum_names@.len(),
                cid == ctx.id(),
                dt@ == sym_text(name@),
                forall|i: int| 0 <= i < enum_names@.len() ==> enum_names@[i].ctx() == ctx.id(),
                consts@.len() == k,
                testers@.len() == k,
                forall|j: int|
                    0 <= j < k ==> consts@[j]@ == enum_const_decl(
                        sym_text(name@),
                        enum_names@[j]@,
                        j as nat,
                    ) && consts@[j].ctx() == ctx.id(),
                forall|j: int|
                    0 <= j < k ==> testers@[j]@ == enum_tester_decl(
                        sym_text(name@),
                        enum_names@[j]@,
                        j as nat,
                    ) && testers@[j].ctx() == ctx.id(),
            decreases enum_names@.len() - k,
        {
            let vname = enum_names[k].data_dup();
            let cd = DeclData {
                name: vname,
                domain: Vec::new(),
                range: SortData::DatatypeSort { name: dt.clone() },
                kind: DeclKind::Ctor { dt: dt.clone(), idx: k },
            };
            proof {
                assert(cd.view().domain =~= Seq::<SortV>::empty());
                assert(cd.view() == enum_const_decl(sym_text(name@), enum_names@[k as int]@, k as nat));
            }
            consts.push(FuncDecl::from_data(cid, cd));
            let vtext = sym_to_text(&enum_names[k].data_dup());
            let mut tname = String::from_str("is-");
            tname.append(vtext.as_str());
            let mut tdomain: Vec<SortData> = Vec::new();
            tdomain.push(SortData::DatatypeSort { name: dt.clone() });
            let td = DeclData {
                name: SymData::Name { s: tname },
                domain: tdomain,
                range: SortData::BoolSort,
                kind: DeclKind::Tester {
                    dt: dt.clone(),
                    idx: k,
                    ctor_name: enum_names[k].data_dup(),
                    ctor_arity: 0,
                },
            };
            proof {
                assert(td.view().domain =~= seq![
                    SortV::DatatypeSort { name: sym_text(name@) },
                ]);
                assert(td.view() == enum_tester_decl(
                    sym_text(name@),
                    enum_names@[k as int]@,
                    k as nat,
                ));
            }
            testers.push(FuncDecl::from_data(cid, td));
            proof {
                assert(consts@[k as int]@ == enum_const_decl(
                    sym_text(name@),
                    enum_names@[k as int]@,
                    k as nat,
                ));
                assert(consts@[k as int].ctx() == ctx.id());
                assert(testers@[k as int]@ == enum_tester_decl(
                    sym_text(name@),
                    enum_names@[k as int]@,
                    k as nat,
                ));
                assert(testers@[k as int].ctx() == ctx.id());
            }
            k += 1;
        }
        (sort, consts, testers)
    }

    /// A numeral of this sort from an unsigned integer; a bit-vector sort
    /// reduces the value modulo `2^width`.
    pub fn from_u64(&self, u: u64) -> (r: crate::ast::Ast)
        requires
            self@ is IntSort || self@ is BitVecSort,
        ensures
            r@ == numeral_of(self@, u as int),
            r.ctx() == self.ctx(),
    {
        match self.data.bv_width() {
            Some(w) => {
                let m: u64 = if w == 0 {
                    proof {
                        lemma2_to64();
                        assert((u as int) % (pow2(0) as int) == 0);
                    }
                    0
                } else if w <= 64 {
                    crate::eval::mod_pow2(false, u, w)
                } else {
                    // the value already lies below the modulus
                    proof {
                        lemma2_to64();
                        lemma2_to64_rest();
                        lemma_pow2_strictly_increases(64, w as nat);
                        lemma_small_mod(u as nat, pow2(w as nat));
                    }
                    u
                };
                crate::ast::Ast::of_term(
                    self.ctx_id,
                    Term::Numeral { neg: false, mag: m, sort: SortData::BitVecSort { width: w } },
                )
            },
            None => {
                crate::ast::Ast::of_term(
                    self.ctx_id,
                    Term::Numeral { neg: false, mag: u, sort: SortData::IntSort },
                )
            },
        }
    }

    /// A numeral of this sort from a signed integer; a bit-vector sort
    /// reduces the value modulo `2^width`.  A negative value at a width above
    /// 64 has a reduction beyond this layer's 64-bit numerals, so such
    /// inputs are left out.
    pub fn from_i64(&self, i: i64) -> (r: crate::ast::Ast)
        requires
            self@ is IntSort || (self@ is BitVecSort && (0 <= i || self@->BitVecSort_width
                <= 64)),
        ensures
            r@ == numeral_of(self@, i as int),
            r.ctx() == self.ctx(),
    {
        let neg: bool = i < 0;
        let mag: u64 = if i < 0 {
            (-(i as i128)) as u64
        } else {
            i as u64
        };
        proof {
            assert(crate::term::num_value(neg, mag) == i as int);
        }
        match self.data.bv_width() {
            Some(w) => {
                let m: u64 = if w == 0 {
                    proof {
                        lemma2_to64();
                        assert((i as int) % (pow2(0) as int) == 0);
                    }
                    0
                } else if w <= 64 {
                    crate::eval::mod_pow2(neg, mag, w)
                } else {
                    // nonnegative, and already below the modulus
                    proof {
                        lemma2_to64();
                        lemma2_to64_rest();
                        lemma_pow2_strictly_increases(64, w as nat);
                        lemma_small_mod(mag as nat, pow2(w as nat));
                    }
                    mag
                };
                crate::ast::Ast::of_term(
                    self.ctx_id,
                    Term::Numeral { neg: false, mag: m, sort: SortData::BitVecSort { width: w } },
                )
            },
            None => {
                crate::ast::Ast::of_term(
                    self.ctx_id,
                    Term::Numeral { neg, mag, sort: SortData::IntSort },
                )
            },
        }
    }

    pub(crate) fn datatype_sort(ctx_id: u64, name: String) -> (r: Sort)
        ensures
            r@ == (SortV::DatatypeSort { name: name@ }),
            r.ctx() == ctx_id,
    {
        Sort { ctx_id, data: SortData::DatatypeSort { name } }
    }

    pub(crate) fn ctx_exec(&self) -> (r: u64)
        ensures
            r == self.ctx(),
    {
        self.ctx_id
    }

    pub(crate) fn data_dup(&self) -> (r: SortData)
        ensures
            r.view() == self@,
    {
        self.data.duplicate()
    }

    pub(crate) fn dup(&self) -> (r: Sort)
        ensures
            r@ == self@,
            r.ctx() == self.ctx(),
    {
        Sort { ctx_id: self.ctx_id, data: self.data.duplicate() }
    }
}

impl PartialEq for Sort {
    /// Structural equality, as the engine's sort-equality check decides it;
    /// the owning contexts play no part.
    fn eq(&self, other: &Sort) -> (r: bool) {
        self.data.sort_eq(&other.data)
    }
}

impl Eq for Sort {

}

impl vstd::std_specs::cmp::PartialEqSpecImpl for Sort {
    open spec fn obeys_eq_spec() -> bool {
        true
    }

    open spec fn eq_spec(&self, other: &Sort) -> bool {
        self@ == other@
    }
}

} // verus!

