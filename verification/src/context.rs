use vstd::prelude::*;
use crate::config::Config;
use crate::ast::{Ast, all_in_ctx, views_of, pattern_views};
use crate::decl::{DeclV, DeclKindV, FuncDecl, sort_views, all_sorts_in_ctx};
use crate::pattern::Pattern;
use crate::sort::{Sort, SortV, enum_const_decl, enum_tester_decl};
use crate::sym::{SymV, Symbol, sym_text};
use crate::term::TermV;
use crate::text::dec_chars;

verus! {

/// Manager of all other objects: every symbol, sort, term, declaration and
/// solver is scoped to the context it was created in, and operations on
/// several objects require them to share one context.
pub struct Context {
    id: u64,
    fresh: u64,
}

impl Context {
    /// The identity of this context; every object records the identity of
    /// its owning context.
    pub closed spec fn id(self) -> u64 {
        self.id
    }

    /// How many fresh constants this context has handed out.
    pub closed spec fn fresh_count(self) -> u64 {
        self.fresh
    }

    /// Creates a context from a configuration.  The context's identity is
    /// left unspecified: verified callers can relate handles to the one
    /// context they came from, but can never prove that two separately
    /// created contexts coincide, so mixing their objects stays unprovable.
    pub fn new(cfg: &Config) -> (r: Context)
        ensures
            r.fresh_count() == 0,
    {
        Context { id: 0, fresh: 0 }
    }

    pub(crate) fn id_exec(&self) -> (r: u64)
        ensures
            r == self.id(),
    {
        self.id
    }

    /// Hands out the next fresh-constant number.
    pub(crate) fn next_fresh(&mut self) -> (n: u64)
        requires
            old(self).fresh_count() < u64::MAX,
        ensures
            n == old(self).fresh_count(),
            final(self).fresh_count() == old(self).fresh_count() + 1,
            final(self).id() == old(self).id(),
    {
        let n = self.fresh;
        self.fresh = self.fresh + 1;
        n
    }

    // Helpers for common constructions

    pub fn bool_sort(&self) -> (r: Sort)
        ensures
            r@ == SortV::BoolSort,
            r.ctx() == self.id(),
    {
        Sort::bool(self)
    }

    pub fn int_sort(&self) -> (r: Sort)
        ensures
            r@ == SortV::IntSort,
            r.ctx() == self.id(),
    {
        Sort::integer(self)
    }

    pub fn real_sort(&self) -> (r: Sort)
        ensures
            r@ == SortV::RealSort,
            r.ctx() == self.id(),
    {
        Sort::real_num(self)
    }

    pub fn bitvector_sort(&self, sz: u32) -> (r: Sort)
        ensures
            r@ == (SortV::BitVecSort { width: sz }),
            r.ctx() == self.id(),
    {
        Sort::bitvector(self, sz)
    }

    pub fn array_sort(&self, domain: &Sort, range: &Sort) -> (r: Sort)
        requires
            domain.ctx() == self.id(),
            range.ctx() == self.id(),
        ensures
            r@ == (SortV::ArraySort { domain: Box::new(domain@), range: Box::new(range@) }),
            r.ctx() == self.id(),
    {
        Sort::array(self, domain, range)
    }

    pub fn set_sort(&self, elt: &Sort) -> (r: Sort)
        requires
            elt.ctx() == self.id(),
        ensures
            r@ == (SortV::SetSort { elem: Box::new(elt@) }),
            r.ctx() == self.id(),
    {
        Sort::set(self, elt)
    }

    /// Creates an enumeration sort with the given name and variant names;
    /// returns the sort, the variant constant declarations and the variant
    /// tester declarations, index-aligned.
    pub fn enumeration_sort(&self, name: &Symbol, enum_names: &[&Symbol]) -> (r: (
        Sort,
        Vec<FuncDecl>,
        Vec<FuncDecl>,
    ))
        requires
            name.ctx() == self.id(),
            forall|i: int| 0 <= i < enum_names@.len() ==> enum_names@[i].ctx() == self.id(),
        ensures
            r.0@ == (SortV::DatatypeSort { name: sym_text(name@) }),
            r.0.ctx() == self.id(),
            r.1@.len() == enum_names@.len(),
            r.2@.len() == enum_names@.len(),
            forall|k: int|
                0 <= k < enum_names@.len() ==> r.1@[k]@ == enum_const_decl(
                    sym_text(name@),
                    enum_names@[k]@,
                    k as nat,
                ) && r.1@[k].ctx() == self.id(),
            forall|k: int|
                0 <= k < enum_names@.len() ==> r.2@[k]@ == enum_tester_decl(
                    sym_text(name@),
                    enum_names@[k]@,
                    k as nat,
                ) && r.2@[k].ctx() == self.id(),
    {
        Sort::enumeration(self, name, enum_names)
    }

    pub fn int_sym(&self, i: u32) -> (r: Symbol)
        ensures
            r@ == (SymV::Num { i }),
            r.ctx() == self.id(),
    {
        Symbol::from_int(self, i)
    }

    pub fn str_sym(&self, s: &str) -> (r: Symbol)
        ensures
            r@ == (SymV::Name { s: s@ }),
            r.ctx() == self.id(),
    {
        Symbol::from_string(self, s)
    }

    pub fn named_const(&self, s: &str, sort: &Sort) -> (r: Ast)
        requires
            sort.ctx() == self.id(),
        ensures
            r@ == (TermV::Constant { name: SymV::Name { s: s@ }, sort: sort@ }),
            r.ctx() == self.id(),
    {
        Ast::new_const(&self.str_sym(s), sort)
    }

    pub fn numbered_const(&self, i: u32, sort: &Sort) -> (r: Ast)
        requires
            sort.ctx() == self.id(),
        ensures
            r@ == (TermV::Constant { name: SymV::Num { i }, sort: sort@ }),
            r.ctx() == self.id(),
    {
        Ast::new_const(&self.int_sym(i), sort)
    }

    pub fn fresh_const(&mut self, prefix: &str, sort: &Sort) -> (r: Ast)
        requires
            sort.ctx() == old(self).id(),
            old(self).fresh_count() < u64::MAX,
        ensures
            r@ == (TermV::Constant {
                name: SymV::Name { s: prefix@ + "!"@ + dec_chars(old(self).fresh_count() as nat) },
                sort: sort@,
            }),
            r.ctx() == old(self).id(),
            final(self).id() == old(self).id(),
            final(self).fresh_count() == old(self).fresh_count() + 1,
    {
        Ast::fresh_const(self, prefix, sort)
    }

    pub fn named_bool_const(&self, s: &str) -> (r: Ast)
        ensures
            r@ == (TermV::Constant { name: SymV::Name { s: s@ }, sort: SortV::BoolSort }),
            r.ctx() == self.id(),
    {
        Ast::new_const(&self.str_sym(s), &self.bool_sort())
    }

    pub fn numbered_bool_const(&self, i: u32) -> (r: Ast)
        ensures
            r@ == (TermV::Constant { name: SymV::Num { i }, sort: SortV::BoolSort }),
            r.ctx() == self.id(),
    {
        Ast::new_const(&self.int_sym(i), &self.bool_sort())
    }

    pub fn fresh_bool_const(&mut self, prefix: &str) -> (r: Ast)
        requires
            old(self).fresh_count() < u64::MAX,
        ensures
            r@ == (TermV::Constant {
                name: SymV::Name { s: prefix@ + "!"@ + dec_chars(old(self).fresh_count() as nat) },
                sort: SortV::BoolSort,
            }),
            r.ctx() == old(self).id(),
            final(self).id() == old(self).id(),
            final(self).fresh_count() == old(self).fresh_count() + 1,
    {
        let sort = self.bool_sort();
        Ast::fresh_const(self, prefix, &sort)
    }

    pub fn named_int_const(&self, s: &str) -> (r: Ast)
        ensures
            r@ == (TermV::Constant { name: SymV::Name { s: s@ }, sort: SortV::IntSort }),
            r.ctx() == self.id(),
    {
        Ast::new_const(&self.str_sym(s), &self.int_sort())
    }

    pub fn numbered_int_const(&self, i: u32) -> (r: Ast)
        ensures
            r@ == (TermV::Constant { name: SymV::Num { i }, sort: SortV::IntSort }),
            r.ctx() == self.id(),
    {
        Ast::new_const(&self.int_sym(i), &self.int_sort())
    }

    pub fn fresh_int_const(&mut self, prefix: &str) -> (r: Ast)
        requires
            old(self).fresh_count() < u64::MAX,
        ensures
            r@ == (TermV::Constant {
                name: SymV::Name { s: prefix@ + "!"@ + dec_chars(old(self).fresh_count() as nat) },
                sort: SortV::IntSort,
            }),
            r.ctx() == old(self).id(),
            final(self).id() == old(self).id(),
            final(self).fresh_count() == old(self).fresh_count() + 1,
    {
        let sort = self.int_sort();
        Ast::fresh_const(self, prefix, &sort)
    }

    pub fn named_real_const(&self, s: &str) -> (r: Ast)
        ensures
            r@ == (TermV::Constant { name: SymV::Name { s: s@ }, sort: SortV::RealSort }),
            r.ctx() == self.id(),
    {
        Ast::new_const(&self.str_sym(s), &self.real_sort())
    }

    pub fn numbered_real_const(&self, i: u32) -> (r: Ast)
        ensures
            r@ == (TermV::Constant { name: SymV::Num { i }, sort: SortV::RealSort }),
            r.ctx() == self.id(),
    {
        Ast::new_const(&self.int_sym(i), &self.real_sort())
    }

    pub fn fresh_real_const(&mut self, prefix: &str) -> (r: Ast)
        requires
            old(self).fresh_count() < u64::MAX,
        ensures
            r@ == (TermV::Constant {
                name: SymV::Name { s: prefix@ + "!"@ + dec_chars(old(self).fresh_count() as nat) },
                sort: SortV::RealSort,
            }),
            r.ctx() == old(self).id(),
            final(self).id() == old(self).id(),
            final(self).fresh_count() == old(self).fresh_count() + 1,
    {
        let sort = self.real_sort();
        Ast::fresh_const(self, prefix, &sort)
    }

    pub fn named_bitvector_const(&self, s: &str, sz: u32) -> (r: Ast)
        ensures
            r@ == (TermV::Constant {
                name: SymV::Name { s: s@ },
                sort: SortV::BitVecSort { width: sz },
            }),
            r.ctx() == self.id(),
    {
        Ast::new_const(&self.str_sym(s), &self.bitvector_sort(sz))
    }

    pub fn numbered_bitvector_const(&self, i: u32, sz: u32) -> (r: Ast)
        ensures
            r@ == (TermV::Constant {
                name: SymV::Num { i },
                sort: SortV::BitVecSort { width: sz },
            }),
            r.ctx() == self.id(),
    {
        Ast::new_const(&self.int_sym(i), &self.bitvector_sort(sz))
    }

    pub fn fresh_bitvector_const(&mut self, prefix: &str, sz: u32) -> (r: Ast)
        requires
            old(self).fresh_count() < u64::MAX,
        ensures
            r@ == (TermV::Constant {
                name: SymV::Name { s: prefix@ + "!"@ + dec_chars(old(self).fresh_count() as nat) },
                sort: SortV::BitVecSort { width: sz },
            }),
            r.ctx() == old(self).id(),
            final(self).id() == old(self).id(),
            final(self).fresh_count() == old(self).fresh_count() + 1,
    {
        let sort = self.bitvector_sort(sz);
        Ast::fresh_const(self, prefix, &sort)
    }

    pub fn from_bool(&self, b: bool) -> (r: Ast)
        ensures
            r@ == (TermV::BoolLit { b }),
            r.ctx() == self.id(),
    {
        Ast::from_bool(self, b)
    }

    pub fn from_u64(&self, u: u64) -> (r: Ast)
        ensures
            r@ == (TermV::Numeral { value: u as int, sort: SortV::IntSort }),
            r.ctx() == self.id(),
    {
        Ast::from_u64(self, u)
    }

    pub fn from_i64(&self, i: i64) -> (r: Ast)
        ensures
            r@ == (TermV::Numeral { value: i as int, sort: SortV::IntSort }),
            r.ctx() == self.id(),
    {
        Ast::from_i64(self, i)
    }

    pub fn from_real(&self, num: i32, den: i32) -> (r: Ast)
        requires
            den != 0,
        ensures
            r@ == (TermV::Rational {
                num: crate::rational::reduced_num(num as int, den as int),
                den: crate::rational::reduced_den(num as int, den as int),
            }),
            r.ctx() == self.id(),
    {
        Ast::from_real(self, num, den)
    }

    /// Declares an uninterpreted function from the domain sorts to the range.
    pub fn func_decl(&self, name: Symbol, domain: &[&Sort], range: &Sort) -> (r: FuncDecl)
        requires
            name.ctx() == self.id(),
            all_sorts_in_ctx(domain@, self.id()),
            range.ctx() == self.id(),
        ensures
            r@ == (DeclV {
                name: name@,
                domain: sort_views(domain@),
                range: range@,
                kind: DeclKindV::Uninterp,
            }),
            r.ctx() == self.id(),
    {
        FuncDecl::new(self, name, domain, range)
    }

    /// Create a forall quantifier over the bound constants; with no bounds
    /// the body itself is returned unchanged.  Quantified terms are never
    /// decided by this engine's ground evaluation, so asserting one leaves
    /// the check undecided.
    pub fn forall_const(&self, bounds: &[&Ast], body: &Ast) -> (r: Ast)
        requires
            all_in_ctx(bounds@, self.id()),
            body.ctx() == self.id(),
            bounds@.len() <= u32::MAX,
        ensures
            bounds@.len() == 0 ==> r@ == body@,
            bounds@.len() > 0 ==> r@ == (TermV::Quant {
                is_forall: true,
                weight: 0,
                bounds: views_of(bounds@),
                patterns: Seq::empty(),
                body: Box::new(body@),
            }),
            r.ctx() == self.id(),
    {
        Ast::forall_const(self, bounds, body)
    }

    /// A forall quantifier with an instantiation weight and trigger patterns.
    pub fn forall_const_weight_patterns(
        &self,
        weight: usize,
        bounds: &[&Ast],
        patterns: &[&Pattern],
        body: &Ast,
    ) -> (r: Ast)
        requires
            all_in_ctx(bounds@, self.id()),
            forall|i: int| 0 <= i < patterns@.len() ==> patterns@[i].ctx() == self.id(),
            body.ctx() == self.id(),
            weight <= u32::MAX,
            bounds@.len() <= u32::MAX,
            patterns@.len() <= u32::MAX,
        ensures
            bounds@.len() == 0 ==> r@ == body@,
            bounds@.len() > 0 ==> r@ == (TermV::Quant {
                is_forall: true,
                weight: weight as u32,
                bounds: views_of(bounds@),
                patterns: pattern_views(patterns@),
                body: Box::new(body@),
            }),
            r.ctx() == self.id(),
    {
        Ast::forall_const_weight_patterns(self, weight, bounds, patterns, body)
    }

    /// A quantifier instantiation pattern over the given terms.
    pub fn pattern(&self, terms: &[&Ast]) -> (r: Pattern)
        requires
            all_in_ctx(terms@, self.id()),
            1 <= terms@.len() <= 0xffff_ffff,
        ensures
            r@ == views_of(terms@),
            r.ctx() == self.id(),
    {
        Pattern::new(self, terms)
    }
}

} // verus!
