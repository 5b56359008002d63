use vstd::prelude::*;
use crate::context::Context;
use crate::sym::{SymData, SymV, Symbol};
use crate::sort::{Sort, SortData, SortV};
use crate::term::{Op, PbKind, Term, TermV, view_terms, num_value};
use crate::render::{text_of, term_to_text};
use crate::text::{dec_chars, hash_chars, hash_str};
use crate::eval::{spec_eval, eval_term, opt_view, env_view};
use crate::pattern::Pattern;

verus! {

// ---------------------------------------------------------------------------
// Shapes of term construction
// ---------------------------------------------------------------------------

pub open spec fn unary(op: Op, a: TermV) -> TermV {
    TermV::App { op, args: seq![a] }
}

pub open spec fn binary(op: Op, a: TermV, b: TermV) -> TermV {
    TermV::App { op, args: seq![a, b] }
}

pub open spec fn ternary(op: Op, a: TermV, b: TermV, c: TermV) -> TermV {
    TermV::App { op, args: seq![a, b, c] }
}

pub open spec fn variadic(op: Op, first: TermV, rest: Seq<TermV>) -> TermV {
    TermV::App { op, args: seq![first] + rest }
}

pub open spec fn views_of(s: Seq<&Ast>) -> Seq<TermV> {
    Seq::new(s.len(), |i: int| s[i]@)
}

pub open spec fn all_in_ctx(s: Seq<&Ast>, c: u64) -> bool {
    forall|i: int| 0 <= i < s.len() ==> s[i].ctx() == c
}

/// Structural hash of a term: the hash of its canonical text, so equal terms
/// hash identically.
pub open spec fn hash_of(t: TermV) -> u64 {
    hash_chars(text_of(t))
}

// ---------------------------------------------------------------------------
// Numeral read-back
// ---------------------------------------------------------------------------

pub open spec fn as_bool_spec(t: TermV) -> Option<bool> {
    match t {
        TermV::BoolLit { b } => Some(b),
        _ => None,
    }
}

pub open spec fn as_i64_spec(t: TermV) -> Option<i64> {
    match t {
        TermV::Numeral { value, sort } => if i64::MIN <= value <= i64::MAX {
            Some(value as i64)
        } else {
            None
        },
        _ => None,
    }
}

pub open spec fn as_u64_spec(t: TermV) -> Option<u64> {
    match t {
        TermV::Numeral { value, sort } => if 0 <= value <= u64::MAX {
            Some(value as u64)
        } else {
            None
        },
        _ => None,
    }
}

pub open spec fn as_i32_spec(t: TermV) -> Option<i32> {
    match t {
        TermV::Numeral { value, sort } => if i32::MIN <= value <= i32::MAX {
            Some(value as i32)
        } else {
            None
        },
        _ => None,
    }
}

pub open spec fn as_u32_spec(t: TermV) -> Option<u32> {
    match t {
        TermV::Numeral { value, sort } => if 0 <= value <= u32::MAX {
            Some(value as u32)
        } else {
            None
        },
        _ => None,
    }
}

pub open spec fn as_real_spec(t: TermV) -> Option<(i64, i64)> {
    match t {
        TermV::Rational { num, den } => if i64::MIN <= num <= i64::MAX && i64::MIN <= den
            <= i64::MAX {
            Some((num as i64, den as i64))
        } else {
            None
        },
        _ => None,
    }
}

// ---------------------------------------------------------------------------
// The term handle
// ---------------------------------------------------------------------------

/// Abstract syntax tree node: a term, formula or value, scoped to its owning
/// context.
pub struct Ast {
    pub(crate) ctx_id: u64,
    pub(crate) term: Term,
}

impl View for Ast {
    type V = TermV;

    closed spec fn view(&self) -> TermV {
        self.term.view()
    }
}

impl Ast {
    /// The identity of the owning context.
    pub closed spec fn ctx(self) -> u64 {
        self.ctx_id
    }

    pub(crate) fn of_term(ctx_id: u64, term: Term) -> (r: Ast)
        ensures
            r@ == term.view(),
            r.ctx() == ctx_id,
    {
        Ast { ctx_id, term }
    }

    pub(crate) fn ctx_exec(&self) -> (r: u64)
        ensures
            r == self.ctx(),
    {
        self.ctx_id
    }

    pub(crate) fn term_ref(&self) -> (r: &Term)
        ensures
            r.view() == self@,
    {
        &self.term
    }

    pub(crate) fn term_dup(&self) -> (r: Term)
        ensures
            r.view() == self@,
    {
        self.term.duplicate()
    }

    fn unop(&self, op: Op) -> (r: Ast)
        ensures
            r@ == unary(op, self@),
            r.ctx() == self.ctx(),
    {
        let args = vec![self.term.duplicate()];
        proof {
            assert(view_terms(args@) =~= seq![self@]);
        }
        Ast { ctx_id: self.ctx_id, term: Term::App { op, args } }
    }

    fn binop(&self, op: Op, other: &Ast) -> (r: Ast)
        requires
            other.ctx() == self.ctx(),
        ensures
            r@ == binary(op, self@, other@),
            r.ctx() == self.ctx(),
    {
        let args = vec![self.term.duplicate(), other.term.duplicate()];
        proof {
            assert(view_terms(args@) =~= seq![self@, other@]);
        }
        Ast { ctx_id: self.ctx_id, term: Term::App { op, args } }
    }

    fn trinop(&self, op: Op, a: &Ast, b: &Ast) -> (r: Ast)
        requires
            a.ctx() == self.ctx(),
            b.ctx() == self.ctx(),
        ensures
            r@ == ternary(op, self@, a@, b@),
            r.ctx() == self.ctx(),
    {
        let args = vec![self.term.duplicate(), a.term.duplicate(), b.term.duplicate()];
        proof {
            assert(view_terms(args@) =~= seq![self@, a@, b@]);
        }
        Ast { ctx_id: self.ctx_id, term: Term::App { op, args } }
    }

    fn varop(&self, op: Op, other: &[&Ast]) -> (r: Ast)
        requires
            all_in_ctx(other@, self.ctx()),
            other@.len() + 1 <= 0xffff_ffff,
        ensures
            r@ == variadic(op, self@, views_of(other@)),
            r.ctx() == self.ctx(),
    {
        let args = self.gather(other);
        Ast { ctx_id: self.ctx_id, term: Term::App { op, args } }
    }

    /// Flattens the receiver and the extra operands into one argument list.
    fn gather(&self, other: &[&Ast]) -> (args: Vec<Term>)
        ensures
            view_terms(args@) == seq![self@] + views_of(other@),
    {
        let mut args = vec![self.term.duplicate()];
        let mut i: usize = 0;
        while i < other.len()
            invariant
                i <= other@.len(),
                args@.len() == i + 1,
                args@[0].view() == self@,
                forall|j: int| 0 <= j < i ==> args@[j + 1].view() == other@[j]@,
            decreases other@.len() - i,
        {
            args.push(other[i].term.duplicate());
            i += 1;
        }
        proof {
            assert(view_terms(args@) =~= seq![self@] + views_of(other@));
        }
        args
    }

    /// Copies this term into the destination context; the result is owned by
    /// that context and structurally identical to the source term.
    pub fn translate(&self, dest: &Context) -> (r: Ast)
        ensures
            r@ == self@,
            r.ctx() == dest.id(),
    {
        Ast { ctx_id: dest.id_exec(), term: self.term.duplicate() }
    }

    /// A named constant of the given sort.
    pub fn new_const(sym: &Symbol, sort: &Sort) -> (r: Ast)
        requires
            sym.ctx() == sort.ctx(),
        ensures
            r@ == (TermV::Constant { name: sym@, sort: sort@ }),
            r.ctx() == sym.ctx(),
    {
        Ast {
            ctx_id: sort.ctx_exec(),
            term: Term::Constant { name: sym.data_dup(), sort: sort.data_dup() },
        }
    }

    /// A constant with a name the context has not handed out before: the
    /// prefix, an exclamation mark, and the context's fresh counter.
    pub fn fresh_const(ctx: &mut Context, prefix: &str, sort: &Sort) -> (r: Ast)
        requires
            sort.ctx() == old(ctx).id(),
            old(ctx).fresh_count() < u64::MAX,
        ensures
            r@ == (TermV::Constant {
                name: SymV::Name {
                    s: prefix@ + "!"@ + dec_chars(old(ctx).fresh_count() as nat),
                },
                sort: sort@,
            }),
            r.ctx() == old(ctx).id(),
            final(ctx).id() == old(ctx).id(),
            final(ctx).fresh_count() == old(ctx).fresh_count() + 1,
    {
        let n = ctx.next_fresh();
        let mut name = prefix.to_owned();
        name.append("!");
        let d = crate::text::u64_to_dec(n);
        name.append(d.as_str());
        proof {
            assert(name@ =~= prefix@ + "!"@ + dec_chars(old(ctx).fresh_count() as nat));
        }
        Ast {
            ctx_id: ctx.id_exec(),
            term: Term::Constant { name: SymData::Name { s: name }, sort: sort.data_dup() },
        }
    }

    pub fn from_bool(ctx: &Context, b: bool) -> (r: Ast)
        ensures
            r@ == (TermV::BoolLit { b }),
            r.ctx() == ctx.id(),
    {
        Ast { ctx_id: ctx.id_exec(), term: Term::BoolLit { b } }
    }

    pub fn from_i64(ctx: &Context, i: i64) -> (r: Ast)
        ensures
            r@ == (TermV::Numeral { value: i as int, sort: SortV::IntSort }),
            r.ctx() == ctx.id(),
    {
        if i < 0 {
            let mag: u64 = (-(i as i128)) as u64;
            Ast {
                ctx_id: ctx.id_exec(),
                term: Term::Numeral { neg: true, mag, sort: SortData::IntSort },
            }
        } else {
            Ast {
                ctx_id: ctx.id_exec(),
                term: Term::Numeral { neg: false, mag: i as u64, sort: SortData::IntSort },
            }
        }
    }

    pub fn from_u64(ctx: &Context, u: u64) -> (r: Ast)
        ensures
            r@ == (TermV::Numeral { value: u as int, sort: SortV::IntSort }),
            r.ctx() == ctx.id(),
    {
        Ast {
            ctx_id: ctx.id_exec(),
            term: Term::Numeral { neg: false, mag: u, sort: SortData::IntSort },
        }
    }

    pub fn from_i32(ctx: &Context, i: i32) -> (r: Ast)
        ensures
            r@ == (TermV::Numeral { value: i as int, sort: SortV::IntSort }),
            r.ctx() == ctx.id(),
    {
        Ast::from_i64(ctx, i as i64)
    }

    pub fn from_u32(ctx: &Context, u: u32) -> (r: Ast)
        ensures
            r@ == (TermV::Numeral { value: u as int, sort: SortV::IntSort }),
            r.ctx() == ctx.id(),
    {
        Ast::from_u64(ctx, u as u64)
    }

    pub fn from_isize(ctx: &Context, i: isize) -> (r: Ast)
        ensures
            r@ == (TermV::Numeral { value: i as int, sort: SortV::IntSort }),
            r.ctx() == ctx.id(),
    {
        Ast::from_i64(ctx, i as i64)
    }

    pub fn from_usize(ctx: &Context, i: usize) -> (r: Ast)
        ensures
            r@ == (TermV::Numeral { value: i as int, sort: SortV::IntSort }),
            r.ctx() == ctx.id(),
    {
        Ast::from_u64(ctx, i as u64)
    }

    /// A rational numeral, reduced to lowest terms with a positive
    /// denominator, as the engine normalizes rationals.
    pub fn from_real(ctx: &Context, num: i32, den: i32) -> (r: Ast)
        requires
            den != 0,
        ensures
            r@ == (TermV::Rational {
                num: crate::rational::reduced_num(num as int, den as int),
                den: crate::rational::reduced_den(num as int, den as int),
            }),
            r.ctx() == ctx.id(),
    {
        let (rn, rd) = crate::rational::reduce_rational(num as i64, den as i64);
        Ast { ctx_id: ctx.id_exec(), term: Term::Rational { num: rn, den: rd } }
    }

    /// The boolean value of a decided boolean literal; `None` otherwise.
    pub fn as_bool(&self) -> (r: Option<bool>)
        ensures
            r == as_bool_spec(self@),
    {
        match &self.term {
            Term::BoolLit { b } => Some(*b),
            _ => None,
        }
    }

    /// The value of a ground numeral that fits a signed 64-bit integer;
    /// `None` for other terms or values, a normal outcome.
    pub fn as_i64(&self) -> (r: Option<i64>)
        ensures
            r == as_i64_spec(self@),
    {
        match &self.term {
            Term::Numeral { neg, mag, sort } => {
                if !*neg {
                    if *mag <= i64::MAX as u64 {
                        Some(*mag as i64)
                    } else {
                        None
                    }
                } else {
                    if *mag <= 0x8000_0000_0000_0000u64 {
                        let v: i64 = (-(*mag as i128)) as i64;
                        Some(v)
                    } else {
                        None
                    }
                }
            },
            _ => None,
        }
    }

    pub fn as_u64(&self) -> (r: Option<u64>)
        ensures
            r == as_u64_spec(self@),
    {
        match &self.term {
            Term::Numeral { neg, mag, sort } => {
                if !*neg || *mag == 0 {
                    Some(*mag)
                } else {
                    None
                }
            },
            _ => None,
        }
    }

    pub fn as_i32(&self) -> (r: Option<i32>)
        ensures
            r == as_i32_spec(self@),
    {
        match self.as_i64() {
            Some(v) => {
                if i32::MIN as i64 <= v && v <= i32::MAX as i64 {
                    Some(v as i32)
                } else {
                    None
                }
            },
            None => None,
        }
    }

    pub fn as_u32(&self) -> (r: Option<u32>)
        ensures
            r == as_u32_spec(self@),
    {
        match self.as_u64() {
            Some(v) => {
                if v <= u32::MAX as u64 {
                    Some(v as u32)
                } else {
                    None
                }
            },
            None => None,
        }
    }

    pub fn as_isize(&self) -> (r: Option<isize>)
        requires
            as_i64_spec(self@) is Some ==> isize::MIN <= as_i64_spec(self@)->0 <= isize::MAX,
        ensures
            r == (match as_i64_spec(self@) {
                Some(v) => Some(v as isize),
                None => None::<isize>,
            }),
    {
        match self.as_i64() {
            Some(v) => Some(v as isize),
            None => None,
        }
    }

    pub fn as_usize(&self) -> (r: Option<usize>)
        requires
            as_u64_spec(self@) is Some ==> as_u64_spec(self@)->0 <= usize::MAX,
        ensures
            r == (match as_u64_spec(self@) {
                Some(v) => Some(v as usize),
                None => None::<usize>,
            }),
    {
        match self.as_u64() {
            Some(v) => Some(v as usize),
            None => None,
        }
    }

    pub fn as_real(&self) -> (r: Option<(i64, i64)>)
        ensures
            r == as_real_spec(self@),
    {
        match &self.term {
            Term::Rational { num, den } => Some((*num, *den)),
            _ => None,
        }
    }

    /// A bit-vector of width `n` holding this integer term's value.
    pub fn int2bv(&self, n: u64) -> (r: Ast)
        requires
            n <= u32::MAX,
        ensures
            r@ == unary(Op::Int2Bv { width: n as u32 }, self@),
            r.ctx() == self.ctx(),
    {
        self.unop(Op::Int2Bv { width: n as u32 })
    }

    /// The integer this bit-vector term stands for, signed or unsigned.
    pub fn bv2int(&self, signed: bool) -> (r: Ast)
        ensures
            r@ == unary(Op::Bv2Int { signed }, self@),
            r.ctx() == self.ctx(),
    {
        self.unop(Op::Bv2Int { signed })
    }

    pub fn bvextract(&self, high: usize, low: usize) -> (r: Ast)
        requires
            high <= u32::MAX,
            low <= u32::MAX,
        ensures
            r@ == unary(Op::Extract { high: high as u32, low: low as u32 }, self@),
            r.ctx() == self.ctx(),
    {
        self.unop(Op::Extract { high: high as u32, low: low as u32 })
    }

    pub fn bvrepeat(&self, n: usize) -> (r: Ast)
        requires
            n <= u32::MAX,
        ensures
            r@ == unary(Op::Repeat { count: n as u32 }, self@),
            r.ctx() == self.ctx(),
    {
        self.unop(Op::Repeat { count: n as u32 })
    }

    pub fn bvsignextend(&self, n: usize) -> (r: Ast)
        requires
            n <= u32::MAX,
        ensures
            r@ == unary(Op::SignExt { extra: n as u32 }, self@),
            r.ctx() == self.ctx(),
    {
        self.unop(Op::SignExt { extra: n as u32 })
    }

    pub fn bvzeroextend(&self, n: usize) -> (r: Ast)
        requires
            n <= u32::MAX,
        ensures
            r@ == unary(Op::ZeroExt { extra: n as u32 }, self@),
            r.ctx() == self.ctx(),
    {
        self.unop(Op::ZeroExt { extra: n as u32 })
    }

    /// Constant folding: the term's ground value where the evaluation rules
    /// decide it, the term unchanged otherwise.
    pub fn simplify(&self) -> (r: Ast)
        ensures
            r@ == (match spec_eval(self@, Seq::empty()) {
                Some(v) => v,
                None => self@,
            }),
            r.ctx() == self.ctx(),
    {
        let env: Vec<(Term, Term)> = Vec::new();
        proof {
            assert(env_view(env@) =~= Seq::<(TermV, TermV)>::empty());
        }
        match eval_term(&self.term, &env) {
            Some(v) => Ast { ctx_id: self.ctx_id, term: v },
            None => Ast { ctx_id: self.ctx_id, term: self.term.duplicate() },
        }
    }

    /// A universal quantifier over the bound constants; with no bounds the
    /// body itself is returned unchanged.  Quantified terms are never decided
    /// by this engine's ground evaluation, so asserting one leaves the check
    /// undecided.
    pub fn forall_const(ctx: &Context, bounds: &[&Ast], body: &Ast) -> (r: Ast)
        requires
            all_in_ctx(bounds@, ctx.id()),
            body.ctx() == ctx.id(),
            bounds@.len() <= u32::MAX,
        ensures
            bounds@.len() == 0 ==> r@ == body@,
            bounds@.len() > 0 ==> r@ == (TermV::Quant {
                is_forall: true,
                weight: 0,
                bounds: views_of(bounds@),
                patterns: Seq::empty(),
                body: Box::new(body@),
            }),
            r.ctx() == ctx.id(),
    {
        let no_pats: Vec<&Pattern> = Vec::new();
        let r = Ast::forall_const_weight_patterns(ctx, 0, bounds, no_pats.as_slice(), body);
        proof {
            assert(pattern_views(no_pats@) =~= Seq::<Seq<TermV>>::empty());
        }
        r
    }

    /// A universal quantifier with an instantiation weight and trigger
    /// patterns; with no bounds the body itself is returned unchanged.
    pub fn forall_const_weight_patterns(
        ctx: &Context,
        weight: usize,
        bounds: &[&Ast],
        patterns: &[&Pattern],
        body: &Ast,
    ) -> (r: Ast)
        requires
            all_in_ctx(bounds@, ctx.id()),
            forall|i: int| 0 <= i < patterns@.len() ==> patterns@[i].ctx() == ctx.id(),
            body.ctx() == ctx.id(),
            weight <= u32::MAX,
            bounds@.len() <= u32::MAX,
            patterns@.len() <= u32::MAX,
        ensures
            bounds@.len() == 0 ==> r@ == body@,
            bounds@.len() > 0 ==> r@ == (TermV::Quant {
                is_forall: true,
                weight: weight as u32,
                bounds: views_of(bounds@),
                patterns: pattern_views(patterns@),
                body: Box::new(body@),
            }),
            r.ctx() == ctx.id(),
    {
        Ast::quant_const(ctx, true, weight, bounds, patterns, body)
    }

    /// An existential quantifier over the bound constants; with no bounds the
    /// body itself is returned unchanged.  Quantified terms are never decided
    /// by this engine's ground evaluation, so asserting one leaves the check
    /// undecided.
    pub fn exists_const(ctx: &Context, bounds: &[&Ast], body: &Ast) -> (r: Ast)
        requires
            all_in_ctx(bounds@, ctx.id()),
            body.ctx() == ctx.id(),
            bounds@.len() <= u32::MAX,
        ensures
            bounds@.len() == 0 ==> r@ == body@,
            bounds@.len() > 0 ==> r@ == (TermV::Quant {
                is_forall: false,
                weight: 0,
                bounds: views_of(bounds@),
                patterns: Seq::empty(),
                body: Box::new(body@),
            }),
            r.ctx() == ctx.id(),
    {
        let no_pats: Vec<&Pattern> = Vec::new();
        let r = Ast::quant_const(ctx, false, 0, bounds, no_pats.as_slice(), body);
        proof {
            assert(pattern_views(no_pats@) =~= Seq::<Seq<TermV>>::empty());
        }
        r
    }

    fn quant_const(
        ctx: &Context,
        is_forall: bool,
        weight: usize,
        bounds: &[&Ast],
        patterns: &[&Pattern],
        body: &Ast,
    ) -> (r: Ast)
        requires
            all_in_ctx(bounds@, ctx.id()),
            forall|i: int| 0 <= i < patterns@.len() ==> patterns@[i].ctx() == ctx.id(),
            body.ctx() == ctx.id(),
            weight <= u32::MAX,
            bounds@.len() <= u32::MAX,
            patterns@.len() <= u32::MAX,
        ensures
            bounds@.len() == 0 ==> r@ == body@,
            bounds@.len() > 0 ==> r@ == (TermV::Quant {
                is_forall,
                weight: weight as u32,
                bounds: views_of(bounds@),
                patterns: pattern_views(patterns@),
                body: Box::new(body@),
            }),
            r.ctx() == ctx.id(),
    {
        if bounds.len() == 0 {
            return Ast { ctx_id: ctx.id_exec(), term: body.term_dup() };
        }
        let mut bs: Vec<Term> = Vec::new();
        let mut i: usize = 0;
        while i < bounds.len()
            invariant
                i <= bounds@.len(),
                bs@.len() == i,
                forall|j: int| 0 <= j < i ==> bs@[j].view() == bounds@[j]@,
            decreases bounds@.len() - i,
        {
            bs.push(bounds[i].term_dup());
            i += 1;
        }
        let mut ps: Vec<Vec<Term>> = Vec::new();
        let mut k: usize = 0;
        while k < patterns.len()
            invariant
                k <= patterns@.len(),
                ps@.len() == k,
                forall|i: int| 0 <= i < patterns@.len() ==> patterns@[i].ctx() == ctx.id(),
                forall|j: int| 0 <= j < k ==> view_terms(ps@[j]@) == patterns@[j]@,
            decreases patterns@.len() - k,
        {
            ps.push(patterns[k].terms_dup());
            k += 1;
        }
        let r = Ast {
            ctx_id: ctx.id_exec(),
            term: Term::Quant {
                is_forall,
                weight: weight as u32,
                bounds: bs,
                patterns: ps,
                body: Box::new(body.term_dup()),
            },
        };
        proof {
            assert(view_terms(bs@) =~= views_of(bounds@));
            assert(r@->Quant_patterns =~= pattern_views(patterns@));
            assert(r@ == (TermV::Quant {
                is_forall,
                weight: weight as u32,
                bounds: views_of(bounds@),
                patterns: pattern_views(patterns@),
                body: Box::new(body@),
            }));
        }
        r
    }

    /// The canonical text of this term: identical exactly for structurally
    /// equal terms.
    pub fn to_text(&self) -> (r: String)
        ensures
            r@ == text_of(self@),
    {
        term_to_text(&self.term)
    }

    /// A hash consistent with structural equality: equal terms hash alike.
    pub fn term_hash(&self) -> (r: u64)
        ensures
            r == hash_of(self@),
    {
        let t = self.to_text();
        hash_str(t.as_str())
    }
}

pub open spec fn pattern_views(s: Seq<&Pattern>) -> Seq<Seq<TermV>> {
    Seq::new(s.len(), |i: int| s[i]@)
}

impl PartialEq for Ast {
    /// Structural equality, as the engine's term-equality check decides it;
    /// the owning contexts play no part.
    fn eq(&self, other: &Ast) -> (r: bool) {
        self.term.term_eq(&other.term)
    }
}

impl Eq for Ast {

}

impl vstd::std_specs::cmp::PartialEqSpecImpl for Ast {
    open spec fn obeys_eq_spec() -> bool {
        true
    }

    open spec fn eq_spec(&self, other: &Ast) -> bool {
        self@ == other@
    }
}

impl Clone for Ast {
    /// An independent second owner of the same term.
    fn clone(&self) -> (r: Ast)
        ensures
            r@ == self@,
            r.ctx() == self.ctx(),
    {
        Ast { ctx_id: self.ctx_id, term: self.term.duplicate() }
    }
}

impl Ast {
    pub fn not(&self) -> (r: Ast)
        ensures
            r@ == unary(Op::NotOp, self@),
            r.ctx() == self.ctx(),
    {
        self.unop(Op::NotOp)
    }

    pub fn minus(&self) -> (r: Ast)
        ensures
            r@ == unary(Op::Minus, self@),
            r.ctx() == self.ctx(),
    {
        self.unop(Op::Minus)
    }

    pub fn int2real(&self) -> (r: Ast)
        ensures
            r@ == unary(Op::Int2Real, self@),
            r.ctx() == self.ctx(),
    {
        self.unop(Op::Int2Real)
    }

    pub fn real2int(&self) -> (r: Ast)
        ensures
            r@ == unary(Op::Real2Int, self@),
            r.ctx() == self.ctx(),
    {
        self.unop(Op::Real2Int)
    }

    pub fn is_int(&self) -> (r: Ast)
        ensures
            r@ == unary(Op::IsInt, self@),
            r.ctx() == self.ctx(),
    {
        self.unop(Op::IsInt)
    }

    pub fn bvnot(&self) -> (r: Ast)
        ensures
            r@ == unary(Op::BvNot, self@),
            r.ctx() == self.ctx(),
    {
        self.unop(Op::BvNot)
    }

    pub fn bvneg(&self) -> (r: Ast)
        ensures
            r@ == unary(Op::BvNeg, self@),
            r.ctx() == self.ctx(),
    {
        self.unop(Op::BvNeg)
    }

    pub fn bvredand(&self) -> (r: Ast)
        ensures
            r@ == unary(Op::BvRedand, self@),
            r.ctx() == self.ctx(),
    {
        self.unop(Op::BvRedand)
    }

    pub fn bvredor(&self) -> (r: Ast)
        ensures
            r@ == unary(Op::BvRedor, self@),
            r.ctx() == self.ctx(),
    {
        self.unop(Op::BvRedor)
    }

    pub fn set_complement(&self) -> (r: Ast)
        ensures
            r@ == unary(Op::SetComplement, self@),
            r.ctx() == self.ctx(),
    {
        self.unop(Op::SetComplement)
    }

    pub fn bvneg_no_overflow(&self) -> (r: Ast)
        ensures
            r@ == unary(Op::BvNegNoOverflow, self@),
            r.ctx() == self.ctx(),
    {
        self.unop(Op::BvNegNoOverflow)
    }

    pub fn iff(&self, other: &Ast) -> (r: Ast)
        requires
            other.ctx() == self.ctx(),
        ensures
            r@ == binary(Op::Iff, self@, other@),
            r.ctx() == self.ctx(),
    {
        self.binop(Op::Iff, other)
    }

    pub fn implies(&self, other: &Ast) -> (r: Ast)
        requires
            other.ctx() == self.ctx(),
        ensures
            r@ == binary(Op::Implies, self@, other@),
            r.ctx() == self.ctx(),
    {
        self.binop(Op::Implies, other)
    }

    pub fn xor(&self, other: &Ast) -> (r: Ast)
        requires
            other.ctx() == self.ctx(),
        ensures
            r@ == binary(Op::Xor, self@, other@),
            r.ctx() == self.ctx(),
    {
        self.binop(Op::Xor, other)
    }

    pub fn div(&self, other: &Ast) -> (r: Ast)
        requires
            other.ctx() == self.ctx(),
        ensures
            r@ == binary(Op::DivOp, self@, other@),
            r.ctx() == self.ctx(),
    {
        self.binop(Op::DivOp, other)
    }

    pub fn rem(&self, other: &Ast) -> (r: Ast)
        requires
            other.ctx() == self.ctx(),
        ensures
            r@ == binary(Op::RemOp, self@, other@),
            r.ctx() == self.ctx(),
    {
        self.binop(Op::RemOp, other)
    }

    pub fn modulo(&self, other: &Ast) -> (r: Ast)
        requires
            other.ctx() == self.ctx(),
        ensures
            r@ == binary(Op::Modulo, self@, other@),
            r.ctx() == self.ctx(),
    {
        self.binop(Op::Modulo, other)
    }

    pub fn power(&self, other: &Ast) -> (r: Ast)
        requires
            other.ctx() == self.ctx(),
        ensures
            r@ == binary(Op::Power, self@, other@),
            r.ctx() == self.ctx(),
    {
        self.binop(Op::Power, other)
    }

    pub fn lt(&self, other: &Ast) -> (r: Ast)
        requires
            other.ctx() == self.ctx(),
        ensures
            r@ == binary(Op::Lt, self@, other@),
            r.ctx() == self.ctx(),
    {
        self.binop(Op::Lt, other)
    }

    pub fn le(&self, other: &Ast) -> (r: Ast)
        requires
            other.ctx() == self.ctx(),
        ensures
            r@ == binary(Op::Le, self@, other@),
            r.ctx() == self.ctx(),
    {
        self.binop(Op::Le, other)
    }

    pub fn _eq(&self, other: &Ast) -> (r: Ast)
        requires
            other.ctx() == self.ctx(),
        ensures
            r@ == binary(Op::EqOp, self@, other@),
            r.ctx() == self.ctx(),
    {
        self.binop(Op::EqOp, other)
    }

    pub fn ge(&self, other: &Ast) -> (r: Ast)
        requires
            other.ctx() == self.ctx(),
        ensures
            r@ == binary(Op::Ge, self@, other@),
            r.ctx() == self.ctx(),
    {
        self.binop(Op::Ge, other)
    }

    pub fn gt(&self, other: &Ast) -> (r: Ast)
        requires
            other.ctx() == self.ctx(),
        ensures
            r@ == binary(Op::Gt, self@, other@),
            r.ctx() == self.ctx(),
    {
        self.binop(Op::Gt, other)
    }

    pub fn bvand(&self, other: &Ast) -> (r: Ast)
        requires
            other.ctx() == self.ctx(),
        ensures
            r@ == binary(Op::BvAnd, self@, other@),
            r.ctx() == self.ctx(),
    {
        self.binop(Op::BvAnd, other)
    }

    pub fn bvor(&self, other: &Ast) -> (r: Ast)
        requires
            other.ctx() == self.ctx(),
        ensures
            r@ == binary(Op::BvOr, self@, other@),
            r.ctx() == self.ctx(),
    {
        self.binop(Op::BvOr, other)
    }

    pub fn bvxor(&self, other: &Ast) -> (r: Ast)
        requires
            other.ctx() == self.ctx(),
        ensures
            r@ == binary(Op::BvXor, self@, other@),
            r.ctx() == self.ctx(),
    {
        self.binop(Op::BvXor, other)
    }

    pub fn bvnand(&self, other: &Ast) -> (r: Ast)
        requires
            other.ctx() == self.ctx(),
        ensures
            r@ == binary(Op::BvNand, self@, other@),
            r.ctx() == self.ctx(),
    {
        self.binop(Op::BvNand, other)
    }

    pub fn bvnor(&self, other: &Ast) -> (r: Ast)
        requires
            other.ctx() == self.ctx(),
        ensures
            r@ == binary(Op::BvNor, self@, other@),
            r.ctx() == self.ctx(),
    {
        self.binop(Op::BvNor, other)
    }

    pub fn bvxnor(&self, other: &Ast) -> (r: Ast)
        requires
            other.ctx() == self.ctx(),
        ensures
            r@ == binary(Op::BvXnor, self@, other@),
            r.ctx() == self.ctx(),
    {
        self.binop(Op::BvXnor, other)
    }

    pub fn bvadd(&self, other: &Ast) -> (r: Ast)
        requires
            other.ctx() == self.ctx(),
        ensures
            r@ == binary(Op::BvAdd, self@, other@),
            r.ctx() == self.ctx(),
    {
        self.binop(Op::BvAdd, other)
    }

    pub fn bvsub(&self, other: &Ast) -> (r: Ast)
        requires
            other.ctx() == self.ctx(),
        ensures
            r@ == binary(Op::BvSub, self@, other@),
            r.ctx() == self.ctx(),
    {
        self.binop(Op::BvSub, other)
    }

    pub fn bvmul(&self, other: &Ast) -> (r: Ast)
        requires
            other.ctx() == self.ctx(),
        ensures
            r@ == binary(Op::BvMul, self@, other@),
            r.ctx() == self.ctx(),
    {
        self.binop(Op::BvMul, other)
    }

    pub fn bvudiv(&self, other: &Ast) -> (r: Ast)
        requires
            other.ctx() == self.ctx(),
        ensures
            r@ == binary(Op::BvUdiv, self@, other@),
            r.ctx() == self.ctx(),
    {
        self.binop(Op::BvUdiv, other)
    }

    pub fn bvsdiv(&self, other: &Ast) -> (r: Ast)
        requires
            other.ctx() == self.ctx(),
        ensures
            r@ == binary(Op::BvSdiv, self@, other@),
            r.ctx() == self.ctx(),
    {
        self.binop(Op::BvSdiv, other)
    }

    pub fn bvurem(&self, other: &Ast) -> (r: Ast)
        requires
            other.ctx() == self.ctx(),
        ensures
            r@ == binary(Op::BvUrem, self@, other@),
            r.ctx() == self.ctx(),
    {
        self.binop(Op::BvUrem, other)
    }

    pub fn bvsrem(&self, other: &Ast) -> (r: Ast)
        requires
            other.ctx() == self.ctx(),
        ensures
            r@ == binary(Op::BvSrem, self@, other@),
            r.ctx() == self.ctx(),
    {
        self.binop(Op::BvSrem, other)
    }

    pub fn bvsmod(&self, other: &Ast) -> (r: Ast)
        requires
            other.ctx() == self.ctx(),
        ensures
            r@ == binary(Op::BvSmod, self@, other@),
            r.ctx() == self.ctx(),
    {
        self.binop(Op::BvSmod, other)
    }

    pub fn bvult(&self, other: &Ast) -> (r: Ast)
        requires
            other.ctx() == self.ctx(),
        ensures
            r@ == binary(Op::BvUlt, self@, other@),
            r.ctx() == self.ctx(),
    {
        self.binop(Op::BvUlt, other)
    }

    pub fn bvslt(&self, other: &Ast) -> (r: Ast)
        requires
            other.ctx() == self.ctx(),
        ensures
            r@ == binary(Op::BvSlt, self@, other@),
            r.ctx() == self.ctx(),
    {
        self.binop(Op::BvSlt, other)
    }

    pub fn bvule(&self, other: &Ast) -> (r: Ast)
        requires
            other.ctx() == self.ctx(),
        ensures
            r@ == binary(Op::BvUle, self@, other@),
            r.ctx() == self.ctx(),
    {
        self.binop(Op::BvUle, other)
    }

    pub fn bvsle(&self, other: &Ast) -> (r: Ast)
        requires
            other.ctx() == self.ctx(),
        ensures
            r@ == binary(Op::BvSle, self@, other@),
            r.ctx() == self.ctx(),
    {
        self.binop(Op::BvSle, other)
    }

    pub fn bvuge(&self, other: &Ast) -> (r: Ast)
        requires
            other.ctx() == self.ctx(),
        ensures
            r@ == binary(Op::BvUge, self@, other@),
            r.ctx() == self.ctx(),
    {
        self.binop(Op::BvUge, other)
    }

    pub fn bvsge(&self, other: &Ast) -> (r: Ast)
        requires
            other.ctx() == self.ctx(),
        ensures
            r@ == binary(Op::BvSge, self@, other@),
            r.ctx() == self.ctx(),
    {
        self.binop(Op::BvSge, other)
    }

    pub fn bvugt(&self, other: &Ast) -> (r: Ast)
        requires
            other.ctx() == self.ctx(),
        ensures
            r@ == binary(Op::BvUgt, self@, other@),
            r.ctx() == self.ctx(),
    {
        self.binop(Op::BvUgt, other)
    }

    pub fn bvsgt(&self, other: &Ast) -> (r: Ast)
        requires
            other.ctx() == self.ctx(),
        ensures
            r@ == binary(Op::BvSgt, self@, other@),
            r.ctx() == self.ctx(),
    {
        self.binop(Op::BvSgt, other)
    }

    pub fn concat(&self, other: &Ast) -> (r: Ast)
        requires
            other.ctx() == self.ctx(),
        ensures
            r@ == binary(Op::Concat, self@, other@),
            r.ctx() == self.ctx(),
    {
        self.binop(Op::Concat, other)
    }

    pub fn bvshl(&self, other: &Ast) -> (r: Ast)
        requires
            other.ctx() == self.ctx(),
        ensures
            r@ == binary(Op::BvShl, self@, other@),
            r.ctx() == self.ctx(),
    {
        self.binop(Op::BvShl, other)
    }

    pub fn bvlshr(&self, other: &Ast) -> (r: Ast)
        requires
            other.ctx() == self.ctx(),
        ensures
            r@ == binary(Op::BvLshr, self@, other@),
            r.ctx() == self.ctx(),
    {
        self.binop(Op::BvLshr, other)
    }

    pub fn bvashr(&self, other: &Ast) -> (r: Ast)
        requires
            other.ctx() == self.ctx(),
        ensures
            r@ == binary(Op::BvAshr, self@, other@),
            r.ctx() == self.ctx(),
    {
        self.binop(Op::BvAshr, other)
    }

    pub fn bvrotl(&self, other: &Ast) -> (r: Ast)
        requires
            other.ctx() == self.ctx(),
        ensures
            r@ == binary(Op::BvRotl, self@, other@),
            r.ctx() == self.ctx(),
    {
        self.binop(Op::BvRotl, other)
    }

    pub fn bvrotr(&self, other: &Ast) -> (r: Ast)
        requires
            other.ctx() == self.ctx(),
        ensures
            r@ == binary(Op::BvRotr, self@, other@),
            r.ctx() == self.ctx(),
    {
        self.binop(Op::BvRotr, other)
    }

    pub fn bvadd_no_underflow(&self, other: &Ast) -> (r: Ast)
        requires
            other.ctx() == self.ctx(),
        ensures
            r@ == binary(Op::BvAddNoUnderflow, self@, other@),
            r.ctx() == self.ctx(),
    {
        self.binop(Op::BvAddNoUnderflow, other)
    }

    pub fn bvsub_no_overflow(&self, other: &Ast) -> (r: Ast)
        requires
            other.ctx() == self.ctx(),
        ensures
            r@ == binary(Op::BvSubNoOverflow, self@, other@),
            r.ctx() == self.ctx(),
    {
        self.binop(Op::BvSubNoOverflow, other)
    }

    pub fn bvsdiv_no_overflow(&self, other: &Ast) -> (r: Ast)
        requires
            other.ctx() == self.ctx(),
        ensures
            r@ == binary(Op::BvSdivNoOverflow, self@, other@),
            r.ctx() == self.ctx(),
    {
        self.binop(Op::BvSdivNoOverflow, other)
    }

    pub fn bvmul_no_underflow(&self, other: &Ast) -> (r: Ast)
        requires
            other.ctx() == self.ctx(),
        ensures
            r@ == binary(Op::BvMulNoUnderflow, self@, other@),
            r.ctx() == self.ctx(),
    {
        self.binop(Op::BvMulNoUnderflow, other)
    }

    pub fn select(&self, other: &Ast) -> (r: Ast)
        requires
            other.ctx() == self.ctx(),
        ensures
            r@ == binary(Op::Select, self@, other@),
            r.ctx() == self.ctx(),
    {
        self.binop(Op::Select, other)
    }

    pub fn set_add(&self, other: &Ast) -> (r: Ast)
        requires
            other.ctx() == self.ctx(),
        ensures
            r@ == binary(Op::SetAdd, self@, other@),
            r.ctx() == self.ctx(),
    {
        self.binop(Op::SetAdd, other)
    }

    pub fn set_del(&self, other: &Ast) -> (r: Ast)
        requires
            other.ctx() == self.ctx(),
        ensures
            r@ == binary(Op::SetDel, self@, other@),
            r.ctx() == self.ctx(),
    {
        self.binop(Op::SetDel, other)
    }

    pub fn set_member(&self, other: &Ast) -> (r: Ast)
        requires
            other.ctx() == self.ctx(),
        ensures
            r@ == binary(Op::SetMember, self@, other@),
            r.ctx() == self.ctx(),
    {
        self.binop(Op::SetMember, other)
    }

    pub fn set_subset(&self, other: &Ast) -> (r: Ast)
        requires
            other.ctx() == self.ctx(),
        ensures
            r@ == binary(Op::SetSubset, self@, other@),
            r.ctx() == self.ctx(),
    {
        self.binop(Op::SetSubset, other)
    }

    pub fn bvadd_no_overflow(&self, other: &Ast, b: bool) -> (r: Ast)
        requires
            other.ctx() == self.ctx(),
        ensures
            r@ == binary(Op::BvAddNoOverflow { signed: b }, self@, other@),
            r.ctx() == self.ctx(),
    {
        self.binop(Op::BvAddNoOverflow { signed: b }, other)
    }

    pub fn bvsub_no_underflow(&self, other: &Ast, b: bool) -> (r: Ast)
        requires
            other.ctx() == self.ctx(),
        ensures
            r@ == binary(Op::BvSubNoUnderflow { signed: b }, self@, other@),
            r.ctx() == self.ctx(),
    {
        self.binop(Op::BvSubNoUnderflow { signed: b }, other)
    }

    pub fn bvmul_no_overflow(&self, other: &Ast, b: bool) -> (r: Ast)
        requires
            other.ctx() == self.ctx(),
        ensures
            r@ == binary(Op::BvMulNoOverflow { signed: b }, self@, other@),
            r.ctx() == self.ctx(),
    {
        self.binop(Op::BvMulNoOverflow { signed: b }, other)
    }

    pub fn ite(&self, a: &Ast, b: &Ast) -> (r: Ast)
        requires
            a.ctx() == self.ctx(),
            b.ctx() == self.ctx(),
        ensures
            r@ == ternary(Op::Ite, self@, a@, b@),
            r.ctx() == self.ctx(),
    {
        self.trinop(Op::Ite, a, b)
    }

    pub fn store(&self, a: &Ast, b: &Ast) -> (r: Ast)
        requires
            a.ctx() == self.ctx(),
            b.ctx() == self.ctx(),
        ensures
            r@ == ternary(Op::Store, self@, a@, b@),
            r.ctx() == self.ctx(),
    {
        self.trinop(Op::Store, a, b)
    }

    pub fn distinct(&self, other: &[&Ast]) -> (r: Ast)
        requires
            all_in_ctx(other@, self.ctx()),
            other@.len() + 1 <= 0xffff_ffff,
        ensures
            r@ == variadic(Op::Distinct, self@, views_of(other@)),
            r.ctx() == self.ctx(),
    {
        self.varop(Op::Distinct, other)
    }

    pub fn and(&self, other: &[&Ast]) -> (r: Ast)
        requires
            all_in_ctx(other@, self.ctx()),
            other@.len() + 1 <= 0xffff_ffff,
        ensures
            r@ == variadic(Op::AndOp, self@, views_of(other@)),
            r.ctx() == self.ctx(),
    {
        self.varop(Op::AndOp, other)
    }

    pub fn or(&self, other: &[&Ast]) -> (r: Ast)
        requires
            all_in_ctx(other@, self.ctx()),
            other@.len() + 1 <= 0xffff_ffff,
        ensures
            r@ == variadic(Op::OrOp, self@, views_of(other@)),
            r.ctx() == self.ctx(),
    {
        self.varop(Op::OrOp, other)
    }

    pub fn add(&self, other: &[&Ast]) -> (r: Ast)
        requires
            all_in_ctx(other@, self.ctx()),
            other@.len() + 1 <= 0xffff_ffff,
        ensures
            r@ == variadic(Op::AddOp, self@, views_of(other@)),
            r.ctx() == self.ctx(),
    {
        self.varop(Op::AddOp, other)
    }

    pub fn sub(&self, other: &[&Ast]) -> (r: Ast)
        requires
            all_in_ctx(other@, self.ctx()),
            other@.len() + 1 <= 0xffff_ffff,
        ensures
            r@ == variadic(Op::SubOp, self@, views_of(other@)),
            r.ctx() == self.ctx(),
    {
        self.varop(Op::SubOp, other)
    }

    pub fn mul(&self, other: &[&Ast]) -> (r: Ast)
        requires
            all_in_ctx(other@, self.ctx()),
            other@.len() + 1 <= 0xffff_ffff,
        ensures
            r@ == variadic(Op::MulOp, self@, views_of(other@)),
            r.ctx() == self.ctx(),
    {
        self.varop(Op::MulOp, other)
    }

    pub fn set_union(&self, other: &[&Ast]) -> (r: Ast)
        requires
            all_in_ctx(other@, self.ctx()),
            other@.len() + 1 <= 0xffff_ffff,
        ensures
            r@ == variadic(Op::SetUnion, self@, views_of(other@)),
            r.ctx() == self.ctx(),
    {
        self.varop(Op::SetUnion, other)
    }

    pub fn set_intersect(&self, other: &[&Ast]) -> (r: Ast)
        requires
            all_in_ctx(other@, self.ctx()),
            other@.len() + 1 <= 0xffff_ffff,
        ensures
            r@ == variadic(Op::SetIntersect, self@, views_of(other@)),
            r.ctx() == self.ctx(),
    {
        self.varop(Op::SetIntersect, other)
    }

    /// A pseudo-boolean constraint over the receiver and the extra operands,
    /// with one coefficient per term and the threshold `k`.
    pub fn pb_le(&self, other: &[&Ast], coeffs: Vec<i32>, k: i32) -> (r: Ast)
        requires
            all_in_ctx(other@, self.ctx()),
            other@.len() + 1 <= 0xffff_ffff,
            coeffs@.len() == other@.len() + 1,
        ensures
            r@ == (TermV::PbApp {
                kind: PbKind::AtMost,
                coeffs: Seq::new(coeffs@.len(), |i: int| coeffs@[i] as int),
                k: k as int,
                args: seq![self@] + views_of(other@),
            }),
            r.ctx() == self.ctx(),
    {
        let args = self.gather(other);
        Ast {
            ctx_id: self.ctx_id,
            term: Term::PbApp { kind: PbKind::AtMost, coeffs, k, args },
        }
    }

    /// A pseudo-boolean constraint over the receiver and the extra operands,
    /// with one coefficient per term and the threshold `k`.
    pub fn pb_ge(&self, other: &[&Ast], coeffs: Vec<i32>, k: i32) -> (r: Ast)
        requires
            all_in_ctx(other@, self.ctx()),
            other@.len() + 1 <= 0xffff_ffff,
            coeffs@.len() == other@.len() + 1,
        ensures
            r@ == (TermV::PbApp {
                kind: PbKind::AtLeast,
                coeffs: Seq::new(coeffs@.len(), |i: int| coeffs@[i] as int),
                k: k as int,
                args: seq![self@] + views_of(other@),
            }),
            r.ctx() == self.ctx(),
    {
        let args = self.gather(other);
        Ast {
            ctx_id: self.ctx_id,
            term: Term::PbApp { kind: PbKind::AtLeast, coeffs, k, args },
        }
    }

    /// A pseudo-boolean constraint over the receiver and the extra operands,
    /// with one coefficient per term and the threshold `k`.
    pub fn pb_eq(&self, other: &[&Ast], coeffs: Vec<i32>, k: i32) -> (r: Ast)
        requires
            all_in_ctx(other@, self.ctx()),
            other@.len() + 1 <= 0xffff_ffff,
            coeffs@.len() == other@.len() + 1,
        ensures
            r@ == (TermV::PbApp {
                kind: PbKind::Exactly,
                coeffs: Seq::new(coeffs@.len(), |i: int| coeffs@[i] as int),
                k: k as int,
                args: seq![self@] + views_of(other@),
            }),
            r.ctx() == self.ctx(),
    {
        let args = self.gather(other);
        Ast {
            ctx_id: self.ctx_id,
            term: Term::PbApp { kind: PbKind::Exactly, coeffs, k, args },
        }
    }

}

} // verus!
