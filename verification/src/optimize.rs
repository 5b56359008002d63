use vstd::prelude::*;
use crate::context::Context;
use crate::ast::Ast;
use crate::term::{Term, TermV, view_terms};
use crate::render::{text_of, term_to_text};
use crate::eval::{env_view, dup_env};
use crate::solver::{solve, solve_exec};
use crate::model::Model;

verus! {

/// The text of an assertion script, one assertion per line.
pub open spec fn script_text(asserts: Seq<TermV>) -> Seq<char>
    decreases asserts,
{
    if asserts.len() == 0 {
        Seq::empty()
    } else {
        script_text(asserts.drop_last()) + "(assert "@ + text_of(asserts.last()) + ")\n"@
    }
}

/// Context for optimization queries: an accumulator of assertions and
/// maximize/minimize objectives with a checkpoint stack.  Checking delegates
/// satisfiability of the assertions to the decision procedure.  That ground
/// procedure derives every binding from the assertions alone and has no
/// freedom among models, so the objectives never influence the model a
/// satisfiable check caches: they are recorded and checkpointed as state,
/// and no contract of this type connects the model to them.
pub struct Optimize {
    ctx_id: u64,
    assertions: Vec<Term>,
    objectives: Vec<(bool, Term)>,
    frames: Vec<(Vec<Term>, Vec<(bool, Term)>)>,
    cached: Option<Vec<(Term, Term)>>,
}

/// The view of an objective list.
pub open spec fn objectives_view(os: Seq<(bool, Term)>) -> Seq<(bool, TermV)> {
    Seq::new(
        os.len(),
        |i: int|
            if 0 <= i < os.len() {
                (os[i].0, os[i].1.view())
            } else {
                (false, TermV::BoolLit { b: false })
            },
    )
}

/// An independent copy of an objective list.
fn dup_objectives(os: &Vec<(bool, Term)>) -> (r: Vec<(bool, Term)>)
    ensures
        objectives_view(r@) == objectives_view(os@),
{
    let mut r: Vec<(bool, Term)> = Vec::new();
    let mut i: usize = 0;
    while i < os.len()
        invariant
            i <= os.len(),
            r@.len() == i,
            forall|j: int|
                0 <= j < i ==> r@[j].0 == os@[j].0 && r@[j].1.view() == os@[j].1.view(),
        decreases os.len() - i,
    {
        let b = os[i].0;
        let t = os[i].1.duplicate();
        r.push((b, t));
        i += 1;
    }
    proof {
        assert(objectives_view(r@) =~= objectives_view(os@));
    }
    r
}

impl Optimize {
    /// The identity of the owning context.
    pub closed spec fn ctx(self) -> u64 {
        self.ctx_id
    }

    /// The hard constraints added so far, oldest first.
    pub closed spec fn asserts(self) -> Seq<TermV> {
        view_terms(self.assertions@)
    }

    /// The objectives added so far: `true` marks a maximization.
    pub closed spec fn objectives(self) -> Seq<(bool, TermV)> {
        objectives_view(self.objectives@)
    }

    /// The checkpoint stack: saved assertion and objective sets.
    pub closed spec fn frames(self) -> Seq<(Seq<TermV>, Seq<(bool, TermV)>)> {
        Seq::new(
            self.frames@.len(),
            |i: int|
                if 0 <= i < self.frames@.len() {
                    (view_terms(self.frames@[i].0@), objectives_view(self.frames@[i].1@))
                } else {
                    (Seq::empty(), Seq::empty())
                },
        )
    }

    /// Whether a model from a satisfiable `check` is available.
    pub closed spec fn has_model(self) -> bool {
        self.cached is Some
    }

    /// The bindings of the cached model.
    pub closed spec fn model_env(self) -> Seq<(TermV, TermV)> {
        env_view(self.cached->0@)
    }

    /// Create a new optimize context.
    pub fn new(ctx: &Context) -> (r: Optimize)
        ensures
            r.ctx() == ctx.id(),
            r.asserts() == Seq::<TermV>::empty(),
            r.objectives() == Seq::<(bool, TermV)>::empty(),
            r.frames() == Seq::<(Seq<TermV>, Seq<(bool, TermV)>)>::empty(),
            !r.has_model(),
    {
        let r = Optimize {
            ctx_id: ctx.id_exec(),
            assertions: Vec::new(),
            objectives: Vec::new(),
            frames: Vec::new(),
            cached: None,
        };
        proof {
            assert(r.asserts() =~= Seq::<TermV>::empty());
            assert(r.objectives() =~= Seq::<(bool, TermV)>::empty());
            assert(r.frames() =~= Seq::<(Seq<TermV>, Seq<(bool, TermV)>)>::empty());
        }
        r
    }

    /// Assert hard constraint to the optimization context.
    pub fn assert_term(&mut self, ast: &Ast)
        requires
            ast.ctx() == old(self).ctx(),
        ensures
            final(self).ctx() == old(self).ctx(),
            final(self).asserts() == old(self).asserts().push(ast@),
            final(self).objectives() == old(self).objectives(),
            final(self).frames() == old(self).frames(),
            !final(self).has_model(),
    {
        self.assertions.push(ast.term_dup());
        self.cached = None;
        proof {
            assert(self.asserts() =~= old(self).asserts().push(ast@));
            assert(self.objectives() =~= old(self).objectives());
            assert(self.frames() =~= old(self).frames());
        }
    }

    /// Add a maximization objective.
    pub fn maximize(&mut self, ast: &Ast)
        requires
            ast.ctx() == old(self).ctx(),
        ensures
            final(self).ctx() == old(self).ctx(),
            final(self).asserts() == old(self).asserts(),
            final(self).objectives() == old(self).objectives().push((true, ast@)),
            final(self).frames() == old(self).frames(),
            !final(self).has_model(),
    {
        self.objectives.push((true, ast.term_dup()));
        self.cached = None;
        proof {
            assert(self.objectives() =~= old(self).objectives().push((true, ast@)));
            assert(self.frames() =~= old(self).frames());
        }
    }

    /// Add a minimization objective.
    pub fn minimize(&mut self, ast: &Ast)
        requires
            ast.ctx() == old(self).ctx(),
        ensures
            final(self).ctx() == old(self).ctx(),
            final(self).asserts() == old(self).asserts(),
            final(self).objectives() == old(self).objectives().push((false, ast@)),
            final(self).frames() == old(self).frames(),
            !final(self).has_model(),
    {
        self.objectives.push((false, ast.term_dup()));
        self.cached = None;
        proof {
            assert(self.objectives() =~= old(self).objectives().push((false, ast@)));
            assert(self.frames() =~= old(self).frames());
        }
    }

    /// Create a backtracking point: the assertions and objectives added so
    /// far are restored by the matching `pop`.
    pub fn push(&mut self)
        ensures
            final(self).ctx() == old(self).ctx(),
            final(self).asserts() == old(self).asserts(),
            final(self).objectives() == old(self).objectives(),
            final(self).frames() == old(self).frames().push(
                (old(self).asserts(), old(self).objectives()),
            ),
            !final(self).has_model(),
    {
        let a = crate::term::dup_terms(&self.assertions);
        let o = dup_objectives(&self.objectives);
        self.frames.push((a, o));
        self.cached = None;
        proof {
            assert(self.frames() =~= old(self).frames().push(
                (old(self).asserts(), old(self).objectives()),
            ));
            assert(self.objectives() =~= old(self).objectives());
            assert(self.asserts() =~= old(self).asserts());
        }
    }

    /// Backtrack one level; must not be called more times than `push`.
    pub fn pop(&mut self)
        requires
            old(self).frames().len() > 0,
        ensures
            final(self).ctx() == old(self).ctx(),
            final(self).asserts() == old(self).frames().last().0,
            final(self).objectives() == old(self).frames().last().1,
            final(self).frames() == old(self).frames().drop_last(),
            !final(self).has_model(),
    {
        match self.frames.pop() {
            Some(saved) => {
                let (a, o) = saved;
                self.assertions = a;
                self.objectives = o;
            },
            None => {
                proof {
                    assert(false);
                }
            },
        }
        self.cached = None;
        proof {
            assert(self.frames() =~= old(self).frames().drop_last());
        }
    }

    /// Check consistency of the hard constraints; a found model is cached,
    /// and every hard constraint evaluates to the true literal under it.
    pub fn check(&mut self) -> (r: bool)
        ensures
            final(self).ctx() == old(self).ctx(),
            final(self).asserts() == old(self).asserts(),
            final(self).objectives() == old(self).objectives(),
            final(self).frames() == old(self).frames(),
            r == (solve(old(self).asserts()) is Some),
            final(self).has_model() == r,
            r ==> final(self).model_env() == solve(old(self).asserts())->0,
            r ==> forall|j: int|
                0 <= j < old(self).asserts().len() ==> crate::eval::spec_eval(
                    old(self).asserts()[j],
                    final(self).model_env(),
                ) == Some(TermV::BoolLit { b: true }),
    {
        self.cached = solve_exec(&self.assertions);
        proof {
            assert(self.objectives() =~= old(self).objectives());
            assert(self.frames() =~= old(self).frames());
            if self.cached is Some {
                crate::solver::lemma_solve_sound(self.asserts(), self.model_env());
            }
        }
        self.cached.is_some()
    }

    /// Retrieve the model of the last satisfiable `check`; asking without one
    /// is a caller error.  The model satisfies every asserted constraint (see
    /// `check`); it is not related to the objectives, which the ground
    /// procedure cannot optimize.
    pub fn get_model(&self) -> (r: Model)
        requires
            self.has_model(),
        ensures
            r@ == self.model_env(),
            r.ctx() == self.ctx(),
    {
        Model::of_optimize(self)
    }

    pub(crate) fn take_model(&self) -> (r: Model)
        requires
            self.has_model(),
        ensures
            r@ == self.model_env(),
            r.ctx() == self.ctx(),
    {
        match &self.cached {
            Some(env) => Model::from_bindings(self.ctx_id, dup_env(env)),
            None => {
                proof {
                    assert(false);
                }
                Model::from_bindings(self.ctx_id, Vec::new())
            },
        }
    }

    /// The engine's description of its parameters; this engine has none.
    pub fn get_help(&self) -> (r: String)
        ensures
            r@ == Seq::<char>::empty(),
    {
        String::new()
    }

    /// The current assertions as a script, one per line.
    pub fn to_text(&self) -> (r: String)
        ensures
            r@ == script_text(self.asserts()),
    {
        let ghost av = self.asserts();
        let mut r = String::new();
        let mut i: usize = 0;
        proof {
            assert(av.take(0) =~= Seq::<TermV>::empty());
        }
        while i < self.assertions.len()
            invariant
                i <= self.assertions@.len(),
                av == view_terms(self.assertions@),
                av.len() == self.assertions@.len(),
                r@ == script_text(av.take(i as int)),
            decreases self.assertions@.len() - i,
        {
            r.append("(assert ");
            let t = term_to_text(&self.assertions[i]);
            r.append(t.as_str());
            r.append(")\n");
            proof {
                assert(av.take(i + 1).drop_last() =~= av.take(i as int));
                assert(av.take(i + 1).last() == av[i as int]);
                assert(r@ =~= script_text(av.take(i + 1)));
            }
            i += 1;
        }
        proof {
            assert(av.take(av.len() as int) =~= av);
        }
        r
    }
}

} // verus!
