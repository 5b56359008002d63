use vstd::prelude::*;
use crate::context::Context;
use crate::term::{Term, TermV, view_terms, dup_terms};

verus! {

/// A quantifier instantiation pattern: a non-empty group of trigger terms.
pub struct Pattern {
    pub(crate) ctx_id: u64,
    pub(crate) terms: Vec<Term>,
}

impl View for Pattern {
    type V = Seq<TermV>;

    closed spec fn view(&self) -> Seq<TermV> {
        view_terms(self.terms@)
    }
}

impl Pattern {
    /// The identity of the owning context.
    pub closed spec fn ctx(self) -> u64 {
        self.ctx_id
    }

    pub fn new(ctx: &Context, terms: &[&crate::ast::Ast]) -> (r: Pattern)
        requires
            crate::ast::all_in_ctx(terms@, ctx.id()),
            1 <= terms@.len() <= 0xffff_ffff,
        ensures
            r@ == crate::ast::views_of(terms@),
            r.ctx() == ctx.id(),
    {
        let mut ts: Vec<Term> = Vec::new();
        let mut i: usize = 0;
        while i < terms.len()
            invariant
                i <= terms@.len(),
                ts@.len() == i,
                forall|j: int| 0 <= j < i ==> ts@[j].view() == terms@[j]@,
            decreases terms@.len() - i,
        {
            ts.push(terms[i].term_dup());
            i += 1;
        }
        let r = Pattern { ctx_id: ctx.id_exec(), terms: ts };
        proof {
            assert(r@ =~= crate::ast::views_of(terms@));
        }
        r
    }

    pub(crate) fn terms_dup(&self) -> (r: Vec<Term>)
        ensures
            view_terms(r@) == self@,
    {
        dup_terms(&self.terms)
    }
}

} // verus!
