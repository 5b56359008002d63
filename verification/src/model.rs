use vstd::prelude::*;
use crate::ast::Ast;
use crate::term::{Term, TermV};
use crate::eval::{spec_eval, eval_term, env_view};

verus! {

/// A concrete assignment of values to constants, produced by a satisfiable
/// check; terms are read back by evaluating them under the bindings.
pub struct Model {
    ctx_id: u64,
    bindings: Vec<(Term, Term)>,
}

impl View for Model {
    type V = Seq<(TermV, TermV)>;

    closed spec fn view(&self) -> Seq<(TermV, TermV)> {
        env_view(self.bindings@)
    }
}

impl Model {
    /// The identity of the owning context.
    pub closed spec fn ctx(self) -> u64 {
        self.ctx_id
    }

    pub(crate) fn from_bindings(ctx_id: u64, bindings: Vec<(Term, Term)>) -> (r: Model)
        ensures
            r@ == env_view(bindings@),
            r.ctx() == ctx_id,
    {
        Model { ctx_id, bindings }
    }

    /// The model of the last satisfiable check of an optimization context.
    pub fn of_optimize(o: &crate::optimize::Optimize) -> (r: Model)
        requires
            o.has_model(),
        ensures
            r@ == o.model_env(),
            r.ctx() == o.ctx(),
    {
        o.take_model()
    }

    /// Evaluates a term under this model's bindings; `None` where the ground
    /// rules leave it undecided.
    pub fn eval(&self, ast: &Ast) -> (r: Option<Ast>)
        requires
            ast.ctx() == self.ctx(),
        ensures
            match r {
                Some(v) => spec_eval(ast@, self@) == Some(v@) && v.ctx() == self.ctx(),
                None => spec_eval(ast@, self@) is None,
            },
    {
        match eval_term(&ast.term_ref(), &self.bindings) {
            Some(v) => Some(Ast::of_term(self.ctx_id, v)),
            None => None,
        }
    }
}

} // verus!
