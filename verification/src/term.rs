use vstd::prelude::*;
use crate::sym::{SymData, SymV};
use crate::sort::{SortData, SortV};
use crate::decl::{DeclData, DeclV};

verus! {

// ---------------------------------------------------------------------------
// Operators
// ---------------------------------------------------------------------------

/// Operator tag of a term application node.  The four uniform construction
/// shapes (unary, binary with or without a flag, ternary, variadic) all
/// produce an application of one of these tags; tags that carry parameters
/// (a width, a bit index, a signedness flag) hold them as fields.
#[derive(Clone, Copy, PartialEq, Eq, Structural, Debug)]
pub enum Op {
    // boolean
    Distinct,
    Ite,
    Iff,
    Implies,
    Xor,
    AndOp,
    OrOp,
    NotOp,
    // arithmetic
    AddOp,
    SubOp,
    MulOp,
    DivOp,
    RemOp,
    Modulo,
    Power,
    Minus,
    Lt,
    Le,
    EqOp,
    Ge,
    Gt,
    Int2Real,
    Real2Int,
    IsInt,
    // bit-vector
    BvNot,
    BvNeg,
    BvRedand,
    BvRedor,
    BvAnd,
    BvOr,
    BvXor,
    BvNand,
    BvNor,
    BvXnor,
    BvAdd,
    BvSub,
    BvMul,
    BvUdiv,
    BvSdiv,
    BvUrem,
    BvSrem,
    BvSmod,
    BvUlt,
    BvSlt,
    BvUle,
    BvSle,
    BvUge,
    BvSge,
    BvUgt,
    BvSgt,
    Concat,
    BvShl,
    BvLshr,
    BvAshr,
    BvRotl,
    BvRotr,
    Int2Bv { width: u32 },
    Bv2Int { signed: bool },
    Extract { high: u32, low: u32 },
    Repeat { count: u32 },
    SignExt { extra: u32 },
    ZeroExt { extra: u32 },
    // overflow checks
    BvAddNoOverflow { signed: bool },
    BvAddNoUnderflow,
    BvSubNoOverflow,
    BvSubNoUnderflow { signed: bool },
    BvSdivNoOverflow,
    BvNegNoOverflow,
    BvMulNoOverflow { signed: bool },
    BvMulNoUnderflow,
    // arrays
    Select,
    Store,
    // sets
    SetAdd,
    SetDel,
    SetUnion,
    SetIntersect,
    SetMember,
    SetSubset,
    SetComplement,
}

/// Comparison kind of a pseudo-boolean constraint.
#[derive(Clone, Copy, PartialEq, Eq, Structural, Debug)]
pub enum PbKind {
    AtMost,
    AtLeast,
    Exactly,
}

// ---------------------------------------------------------------------------
// Terms
// ---------------------------------------------------------------------------

/// Spec-level model of a term.
pub enum TermV {
    BoolLit { b: bool },
    /// An integer or bit-vector numeral, tagged with its sort.
    Numeral { value: int, sort: SortV },
    /// A rational numeral of the real sort.
    Rational { num: int, den: int },
    /// A named constant of a sort.
    Constant { name: SymV, sort: SortV },
    /// An operator applied to arguments.
    App { op: Op, args: Seq<TermV> },
    /// A pseudo-boolean constraint over the arguments with parallel
    /// coefficients and a threshold.
    PbApp { kind: PbKind, coeffs: Seq<int>, k: int, args: Seq<TermV> },
    /// A declared function applied to arguments.
    FuncApp { decl: DeclV, args: Seq<TermV> },
    /// A quantifier binding the given constants over a body, with optional
    /// instantiation patterns and a weight.
    Quant {
        is_forall: bool,
        weight: u32,
        bounds: Seq<TermV>,
        patterns: Seq<Seq<TermV>>,
        body: Box<TermV>,
    },
}

/// Executable representation of a term.  A numeral's magnitude is limited to
/// 64 bits with an explicit sign, covering every numeral this layer can
/// construct.
#[derive(Debug)]
pub enum Term {
    BoolLit { b: bool },
    Numeral { neg: bool, mag: u64, sort: SortData },
    Rational { num: i64, den: i64 },
    Constant { name: SymData, sort: SortData },
    App { op: Op, args: Vec<Term> },
    PbApp { kind: PbKind, coeffs: Vec<i32>, k: i32, args: Vec<Term> },
    FuncApp { decl: DeclData, args: Vec<Term> },
    Quant {
        is_forall: bool,
        weight: u32,
        bounds: Vec<Term>,
        patterns: Vec<Vec<Term>>,
        body: Box<Term>,
    },
}

/// The signed value of an executable numeral.
pub open spec fn num_value(neg: bool, mag: u64) -> int {
    if neg {
        -(mag as int)
    } else {
        mag as int
    }
}

pub open spec fn view_terms(ts: Seq<Term>) -> Seq<TermV>
    decreases ts,
{
    Seq::new(
        ts.len(),
        |i: int|
            if 0 <= i < ts.len() {
                ts[i].view()
            } else {
                TermV::BoolLit { b: false }
            },
    )
}

impl Term {
    pub open spec fn view(self) -> TermV
        decreases self,
    {
        match self {
            Term::BoolLit { b } => TermV::BoolLit { b },
            Term::Numeral { neg, mag, sort } => TermV::Numeral {
                value: num_value(neg, mag),
                sort: sort.view(),
            },
            Term::Rational { num, den } => TermV::Rational { num: num as int, den: den as int },
            Term::Constant { name, sort } => TermV::Constant {
                name: name.view(),
                sort: sort.view(),
            },
            Term::App { op, args } => TermV::App { op, args: view_terms(args@) },
            Term::PbApp { kind, coeffs, k, args } => TermV::PbApp {
                kind,
                coeffs: Seq::new(coeffs@.len(), |i: int| coeffs@[i] as int),
                k: k as int,
                args: view_terms(args@),
            },
            Term::FuncApp { decl, args } => TermV::FuncApp {
                decl: decl.view(),
                args: view_terms(args@),
            },
            Term::Quant { is_forall, weight, bounds, patterns, body } => TermV::Quant {
                is_forall,
                weight,
                bounds: view_terms(bounds@),
                patterns: Seq::new(
                    patterns@.len(),
                    |i: int|
                        if 0 <= i < patterns@.len() {
                            view_terms(patterns@[i]@)
                        } else {
                            Seq::empty()
                        },
                ),
                body: Box::new(body.view()),
            },
        }
    }
}

pub fn dup_terms(ts: &Vec<Term>) -> (r: Vec<Term>)
    ensures
        view_terms(r@) == view_terms(ts@),
    decreases *ts,
{
    let mut r: Vec<Term> = Vec::new();
    let mut i: usize = 0;
    while i < ts.len()
        invariant
            i <= ts.len(),
            r@.len() == i,
            forall|j: int| 0 <= j < i ==> r@[j].view() == ts@[j].view(),
        decreases ts.len() - i,
    {
        r.push(ts[i].duplicate());
        i += 1;
    }
    proof {
        assert(view_terms(r@) =~= view_terms(ts@));
    }
    r
}

pub fn terms_eq(a: &Vec<Term>, b: &Vec<Term>) -> (r: bool)
    ensures
        r == (view_terms(a@) == view_terms(b@)),
    decreases *a,
{
    if a.len() != b.len() {
        proof {
            assert(view_terms(a@).len() != view_terms(b@).len());
        }
        return false;
    }
    let mut i: usize = 0;
    while i < a.len()
        invariant
            i <= a.len(),
            a@.len() == b@.len(),
            forall|j: int| 0 <= j < i ==> a@[j].view() == b@[j].view(),
        decreases a.len() - i,
    {
        if !a[i].term_eq(&b[i]) {
            proof {
                assert(view_terms(a@)[i as int] != view_terms(b@)[i as int]);
            }
            return false;
        }
        i += 1;
    }
    proof {
        assert(view_terms(a@) =~= view_terms(b@));
    }
    true
}

impl Term {
    pub fn duplicate(&self) -> (r: Term)
        ensures
            r.view() == self.view(),
        decreases *self,
    {
        match self {
            Term::BoolLit { b } => Term::BoolLit { b: *b },
            Term::Numeral { neg, mag, sort } => Term::Numeral {
                neg: *neg,
                mag: *mag,
                sort: sort.duplicate(),
            },
            Term::Rational { num, den } => Term::Rational { num: *num, den: *den },
            Term::Constant { name, sort } => Term::Constant {
                name: name.duplicate(),
                sort: sort.duplicate(),
            },
            Term::App { op, args } => Term::App { op: *op, args: dup_terms(args) },
            Term::PbApp { kind, coeffs, k, args } => {
                let mut cs: Vec<i32> = Vec::new();
                let mut i: usize = 0;
                while i < coeffs.len()
                    invariant
                        i <= coeffs.len(),
                        cs@.len() == i,
                        forall|j: int| 0 <= j < i ==> cs@[j] == coeffs@[j],
                    decreases coeffs.len() - i,
                {
                    cs.push(coeffs[i]);
                    i += 1;
                }
                let r = Term::PbApp { kind: *kind, coeffs: cs, k: *k, args: dup_terms(args) };
                proof {
                    assert(cs@ =~= coeffs@);
                }
                r
            },
            Term::FuncApp { decl, args } => Term::FuncApp {
                decl: decl.duplicate(),
                args: dup_terms(args),
            },
            Term::Quant { is_forall, weight, bounds, patterns, body } => {
                let mut ps: Vec<Vec<Term>> = Vec::new();
                let mut i: usize = 0;
                while i < patterns.len()
                    invariant
                        i <= patterns.len(),
                        ps@.len() == i,
                        *self == (Term::Quant {
                            is_forall: *is_forall,
                            weight: *weight,
                            bounds: *bounds,
                            patterns: *patterns,
                            body: *body,
                        }),
                        forall|j: int|
                            0 <= j < i ==> view_terms(ps@[j]@) == view_terms(patterns@[j]@),
                    decreases patterns.len() - i,
                {
                    proof {
                        assert(decreases_to!(*self => self->Quant_patterns));
                        assert(self->Quant_patterns == *patterns);
                        assert(decreases_to!(*patterns => patterns@[i as int]));
                    }
                    ps.push(dup_terms(&patterns[i]));
                    i += 1;
                }
                let r = Term::Quant {
                    is_forall: *is_forall,
                    weight: *weight,
                    bounds: dup_terms(bounds),
                    patterns: ps,
                    body: Box::new(body.duplicate()),
                };
                proof {
                    assert(r.view()->Quant_patterns =~= self.view()->Quant_patterns);
                    assert(r.view() == self.view());
                }
                r
            },
        }
    }

    /// True exactly when this term is a named constant.
    pub fn is_const(&self) -> (r: bool)
        ensures
            r == (self.view() is Constant),
    {
        match self {
            Term::Constant { .. } => true,
            Term::BoolLit { .. } => false,
            Term::Numeral { .. } => false,
            Term::Rational { .. } => false,
            Term::App { .. } => false,
            Term::PbApp { .. } => false,
            Term::FuncApp { .. } => false,
            Term::Quant { .. } => false,
        }
    }

    /// Structural equality of terms, deciding equality of the spec views.
    pub fn term_eq(&self, other: &Term) -> (r: bool)
        ensures
            r == (self.view() == other.view()),
        decreases *self,
    {
        match (self, other) {
            (Term::BoolLit { b: a }, Term::BoolLit { b: c }) => a == c,
            (
                Term::Numeral { neg: n1, mag: m1, sort: s1 },
                Term::Numeral { neg: n2, mag: m2, sort: s2 },
            ) => {
                let val_eq = if *m1 == 0 && *m2 == 0 {
                    true
                } else {
                    n1 == n2 && m1 == m2
                };
                let r = val_eq && s1.sort_eq(s2);
                proof {
                    if r {
                        assert(self.view() == other.view());
                    } else {
                        assert(self.view() != other.view());
                    }
                }
                r
            },
            (Term::Rational { num: n1, den: d1 }, Term::Rational { num: n2, den: d2 }) => {
                let r = n1 == n2 && d1 == d2;
                proof {
                    if r {
                        assert(self.view() == other.view());
                    }
                }
                r
            },
            (
                Term::Constant { name: a1, sort: s1 },
                Term::Constant { name: a2, sort: s2 },
            ) => {
                let r = a1.sym_eq(a2) && s1.sort_eq(s2);
                proof {
                    if r {
                        assert(self.view() == other.view());
                    }
                }
                r
            },
            (Term::App { op: o1, args: a1 }, Term::App { op: o2, args: a2 }) => {
                let r = o1 == o2 && terms_eq(a1, a2);
                proof {
                    if r {
                        assert(self.view() == other.view());
                    }
                }
                r
            },
            (
                Term::PbApp { kind: k1, coeffs: c1, k: t1, args: a1 },
                Term::PbApp { kind: k2, coeffs: c2, k: t2, args: a2 },
            ) => {
                if !(k1 == k2 && t1 == t2 && terms_eq(a1, a2)) {
                    proof {
                        assert(self.view() != other.view());
                    }
                    return false;
                }
                if c1.len() != c2.len() {
                    proof {
                        assert(self.view()->PbApp_coeffs.len()
                            != other.view()->PbApp_coeffs.len());
                    }
                    return false;
                }
                let mut i: usize = 0;
                while i < c1.len()
                    invariant
                        i <= c1.len(),
                        c1@.len() == c2@.len(),
                        *self == (Term::PbApp { kind: *k1, coeffs: *c1, k: *t1, args: *a1 }),
                        *other == (Term::PbApp { kind: *k2, coeffs: *c2, k: *t2, args: *a2 }),
                        forall|j: int| 0 <= j < i ==> c1@[j] == c2@[j],
                    decreases c1.len() - i,
                {
                    if c1[i] != c2[i] {
                        proof {
                            assert(self.view()->PbApp_coeffs[i as int]
                                != other.view()->PbApp_coeffs[i as int]);
                        }
                        return false;
                    }
                    i += 1;
                }
                proof {
                    assert(self.view()->PbApp_coeffs =~= other.view()->PbApp_coeffs);
                    assert(self.view() == other.view());
                }
                true
            },
            (
                Term::FuncApp { decl: d1, args: a1 },
                Term::FuncApp { decl: d2, args: a2 },
            ) => {
                let r = d1.decl_eq(d2) && terms_eq(a1, a2);
                proof {
                    if r {
                        assert(self.view() == other.view());
                    }
                }
                r
            },
            (
                Term::Quant { is_forall: f1, weight: w1, bounds: b1, patterns: p1, body: y1 },
                Term::Quant { is_forall: f2, weight: w2, bounds: b2, patterns: p2, body: y2 },
            ) => {
                if !(f1 == f2 && w1 == w2 && terms_eq(b1, b2) && y1.term_eq(y2)) {
                    proof {
                        assert(self.view() != other.view());
                    }
                    return false;
                }
                if p1.len() != p2.len() {
                    proof {
                        assert(self.view()->Quant_patterns.len()
                            != other.view()->Quant_patterns.len());
                    }
                    return false;
                }
                let mut i: usize = 0;
                while i < p1.len()
                    invariant
                        i <= p1.len(),
                        p1@.len() == p2@.len(),
                        *self == (Term::Quant {
                            is_forall: *f1,
                            weight: *w1,
                            bounds: *b1,
                            patterns: *p1,
                            body: *y1,
                        }),
                        *other == (Term::Quant {
                            is_forall: *f2,
                            weight: *w2,
                            bounds: *b2,
                            patterns: *p2,
                            body: *y2,
                        }),
                        forall|j: int|
                            0 <= j < i ==> view_terms(p1@[j]@) == view_terms(p2@[j]@),
                    decreases p1.len() - i,
                {
                    if !terms_eq(&p1[i], &p2[i]) {
                        proof {
                            assert(self.view()->Quant_patterns[i as int]
                                != other.view()->Quant_patterns[i as int]);
                        }
                        return false;
                    }
                    i += 1;
                }
                proof {
                    assert(self.view()->Quant_patterns =~= other.view()->Quant_patterns);
                    assert(self.view() == other.view());
                }
                true
            },
            _ => {
                proof {
                    assert(self.view() != other.view());
                }
                false
            },
        }
    }
}

} // verus!
