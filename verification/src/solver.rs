use vstd::prelude::*;
use crate::context::Context;
use crate::ast::Ast;
use crate::term::{Op, Term, TermV, view_terms};
use crate::decl::{DeclData, DeclKind, DeclKindV, DeclV};
use crate::sort::{SortData, SortV};
use crate::eval::{spec_eval, eval_term, lookup, lookup_env, env_view, dup_env};
use crate::eval::{bv_bin_result, bv_bin_exec, lemma_bv_sub_add};
use crate::eval::{lemma_eval_extend, lemma_eval_prefix, lemma_lookup_push_hit};
use crate::model::Model;

verus! {

// ---------------------------------------------------------------------------
// The decision procedure of the modeled engine.  It is deliberately modest:
// an assertion counts as satisfied when it evaluates to the true literal
// under the bindings collected so far, and an unsettled assertion may bind
// one constant, in three forms: an equality between an unbound constant and
// a term with a ground value; an equality whose one side adds a ground
// bit-vector value to an unbound constant (solved by subtraction); and a
// nullary-variant tester applied to an unbound constant.  Anything the
// ground rules cannot settle leaves the outcome undecided, reported as not
// satisfiable.
// ---------------------------------------------------------------------------

/// The nullary-constructor value a tester declaration recognizes.
pub open spec fn tester_witness(k: DeclKindV) -> TermV {
    TermV::FuncApp {
        decl: DeclV {
            name: k->Tester_ctor_name,
            domain: Seq::empty(),
            range: SortV::DatatypeSort { name: k->Tester_dt },
            kind: DeclKindV::Ctor { dt: k->Tester_dt, idx: k->Tester_idx },
        },
        args: Seq::empty(),
    }
}

/// The binding an invertible bit-vector sum contributes: in an equality
/// whose one side is a ground value and whose other side adds a ground value
/// to an unbound constant, the constant is bound to the difference.
pub open spec fn try_bind_add(
    lhs: TermV,
    rhs: TermV,
    env: Seq<(TermV, TermV)>,
) -> Option<(TermV, TermV)> {
    if lhs is App && lhs->App_op == Op::BvAdd && lhs->App_args.len() == 2 {
        let a0 = lhs->App_args[0];
        let a1 = lhs->App_args[1];
        if a0 is Constant && lookup(env, a0) is None && spec_eval(a1, env) is Some && spec_eval(
            rhs,
            env,
        ) is Some {
            match bv_bin_result(Op::BvSub, spec_eval(rhs, env)->0, spec_eval(a1, env)->0) {
                Some(u) => Some((a0, u)),
                None => None,
            }
        } else if a1 is Constant && lookup(env, a1) is None && spec_eval(a0, env) is Some
            && spec_eval(rhs, env) is Some {
            match bv_bin_result(Op::BvSub, spec_eval(rhs, env)->0, spec_eval(a0, env)->0) {
                Some(u) => Some((a1, u)),
                None => None,
            }
        } else {
            None
        }
    } else {
        None
    }
}

/// The binding an unsettled assertion contributes: an equality between an
/// unbound constant and a term with a ground value binds the constant to the
/// value; an equality whose one side is an invertible bit-vector sum over an
/// unbound constant binds the constant to the difference; a nullary-variant
/// tester applied to an unbound constant binds the constant to that
/// variant's value.
pub open spec fn try_bind(a: TermV, env: Seq<(TermV, TermV)>) -> Option<(TermV, TermV)> {
    if a is App && a->App_op == Op::EqOp && a->App_args.len() == 2 {
        let l = a->App_args[0];
        let r = a->App_args[1];
        if l is Constant && lookup(env, l) is None && spec_eval(r, env) is Some {
            Some((l, spec_eval(r, env)->0))
        } else if r is Constant && lookup(env, r) is None && spec_eval(l, env) is Some {
            Some((r, spec_eval(l, env)->0))
        } else {
            match try_bind_add(l, r, env) {
                Some(kv) => Some(kv),
                None => try_bind_add(r, l, env),
            }
        }
    } else if a is FuncApp && a->FuncApp_decl.kind is Tester
        && a->FuncApp_decl.kind->Tester_ctor_arity == 0 && a->FuncApp_args.len() == 1
        && a->FuncApp_args[0] is Constant && lookup(env, a->FuncApp_args[0]) is None {
        Some((a->FuncApp_args[0], tester_witness(a->FuncApp_decl.kind)))
    } else {
        None
    }
}

pub open spec fn solve_from(
    asserts: Seq<TermV>,
    i: int,
    env: Seq<(TermV, TermV)>,
) -> Option<Seq<(TermV, TermV)>>
    decreases asserts.len() - i,
{
    if i < 0 {
        None
    } else if i >= asserts.len() {
        Some(env)
    } else {
        match spec_eval(asserts[i], env) {
            Some(v) => if v == (TermV::BoolLit { b: true }) {
                solve_from(asserts, i + 1, env)
            } else {
                None
            },
            None => match try_bind(asserts[i], env) {
                Some(b) => solve_from(asserts, i + 1, env.push(b)),
                None => None,
            },
        }
    }
}

/// The model the procedure finds for the assertions, if any.
pub open spec fn solve(asserts: Seq<TermV>) -> Option<Seq<(TermV, TermV)>> {
    solve_from(asserts, 0, Seq::empty())
}

/// An add-inversion binding makes both sides of its equality evaluate to
/// the same value.
proof fn lemma_add_bind_sound(
    lhs: TermV,
    rhs: TermV,
    env: Seq<(TermV, TermV)>,
    kv: (TermV, TermV),
)
    requires
        try_bind_add(lhs, rhs, env) == Some(kv),
    ensures
        spec_eval(lhs, env.push(kv)) is Some,
        spec_eval(rhs, env.push(kv)) == spec_eval(lhs, env.push(kv)),
{
    let env2 = env.push(kv);
    let a0 = lhs->App_args[0];
    let a1 = lhs->App_args[1];
    let vn = spec_eval(rhs, env)->0;
    lemma_eval_extend(rhs, env, kv);
    if a0 is Constant && lookup(env, a0) is None && spec_eval(a1, env) is Some && spec_eval(
        rhs,
        env,
    ) is Some {
        let tn = spec_eval(a1, env)->0;
        lemma_lookup_push_hit(env, a0, kv.1, 0);
        lemma_eval_extend(a1, env, kv);
        lemma_bv_sub_add(vn, tn, kv.1);
        assert(spec_eval(a0, env2) == Some(kv.1));
        assert(spec_eval(a1, env2) == Some(tn));
        assert(bv_bin_result(Op::BvAdd, kv.1, tn) == Some(vn));
        assert(spec_eval(lhs, env2) == Some(vn));
    } else {
        let tn = spec_eval(a0, env)->0;
        lemma_lookup_push_hit(env, a1, kv.1, 0);
        lemma_eval_extend(a0, env, kv);
        lemma_bv_sub_add(vn, tn, kv.1);
        assert(spec_eval(a1, env2) == Some(kv.1));
        assert(spec_eval(a0, env2) == Some(tn));
        assert(bv_bin_result(Op::BvAdd, tn, kv.1) == Some(vn));
        assert(spec_eval(lhs, env2) == Some(vn));
    }
}

/// Soundness of the procedure from position `i`: the model it returns
/// extends the bindings it started from, and every remaining assertion
/// evaluates to the true literal under that model.
pub proof fn lemma_solve_from_sound(
    asserts: Seq<TermV>,
    i: int,
    env: Seq<(TermV, TermV)>,
    m: Seq<(TermV, TermV)>,
)
    requires
        0 <= i <= asserts.len(),
        solve_from(asserts, i, env) == Some(m),
    ensures
        env.len() <= m.len(),
        m.take(env.len() as int) == env,
        forall|j: int|
            i <= j < asserts.len() ==> spec_eval(asserts[j], m) == Some(
                TermV::BoolLit { b: true },
            ),
    decreases asserts.len() - i,
{
    if i == asserts.len() {
        assert(m.take(env.len() as int) =~= env);
    } else {
        let a = asserts[i];
        match spec_eval(a, env) {
            Some(v) => {
                lemma_solve_from_sound(asserts, i + 1, env, m);
                lemma_eval_prefix(a, env, m);
            },
            None => {
                let b = try_bind(a, env)->0;
                let env2 = env.push(b);
                lemma_solve_from_sound(asserts, i + 1, env2, m);
                assert(m.take(env.len() as int) =~= env) by {
                    assert(m.take(env2.len() as int) == env2);
                    assert forall|x: int| 0 <= x < env.len() implies m[x] == env[x] by {
                        assert(m.take(env2.len() as int)[x] == env2[x]);
                    }
                }
                // the binding makes the assertion evaluate to true
                if a is App {
                    let l = a->App_args[0];
                    let r = a->App_args[1];
                    if l is Constant && lookup(env, l) is None && spec_eval(r, env) is Some {
                        let val = spec_eval(r, env)->0;
                        lemma_lookup_push_hit(env, l, val, 0);
                        lemma_eval_extend(r, env, b);
                        assert(spec_eval(l, env2) == Some(val));
                        assert(spec_eval(a, env2) == Some(TermV::BoolLit { b: true }));
                    } else if r is Constant && lookup(env, r) is None && spec_eval(l, env)
                        is Some {
                        let val = spec_eval(l, env)->0;
                        lemma_lookup_push_hit(env, r, val, 0);
                        lemma_eval_extend(l, env, b);
                        assert(spec_eval(r, env2) == Some(val));
                        assert(spec_eval(a, env2) == Some(TermV::BoolLit { b: true }));
                    } else if try_bind_add(l, r, env) is Some {
                        lemma_add_bind_sound(l, r, env, b);
                        assert(spec_eval(a, env2) == Some(TermV::BoolLit { b: true }));
                    } else {
                        lemma_add_bind_sound(r, l, env, b);
                        assert(spec_eval(a, env2) == Some(TermV::BoolLit { b: true }));
                    }
                } else {
                    let c = a->FuncApp_args[0];
                    let w = tester_witness(a->FuncApp_decl.kind);
                    lemma_lookup_push_hit(env, c, w, 0);
                    assert(spec_eval(c, env2) == Some(w));
                    assert(spec_eval(a, env2) == Some(TermV::BoolLit { b: true }));
                }
                lemma_eval_prefix(a, env2, m);
            },
        }
    }
}

/// Soundness of a satisfiable check: every assertion evaluates to the true
/// literal under the model the procedure hands back.
pub proof fn lemma_solve_sound(asserts: Seq<TermV>, m: Seq<(TermV, TermV)>)
    requires
        solve(asserts) == Some(m),
    ensures
        forall|j: int|
            0 <= j < asserts.len() ==> spec_eval(asserts[j], m) == Some(
                TermV::BoolLit { b: true },
            ),
{
    lemma_solve_from_sound(asserts, 0, Seq::empty(), m);
}

/// Looks for an invertible bit-vector sum in an equality: `lhs` adds a
/// ground value to an unbound constant and `rhs` has a ground value.
fn try_add_bind(lhs: &Term, rhs: &Term, env: &Vec<(Term, Term)>) -> (r: Option<(Term, Term)>)
    ensures
        match r {
            Some(kv) => try_bind_add(lhs.view(), rhs.view(), env_view(env@)) == Some(
                (kv.0.view(), kv.1.view()),
            ),
            None => try_bind_add(lhs.view(), rhs.view(), env_view(env@)) is None,
        },
{
    match lhs {
        Term::App { op, args } => {
            if matches!(op, Op::BvAdd) && args.len() == 2 {
                proof {
                    assert(lhs.view() == (TermV::App { op: *op, args: view_terms(args@) }));
                }
                let a0 = &args[0];
                let a1 = &args[1];
                proof {
                    assert(a0.view() == lhs.view()->App_args[0]);
                    assert(a1.view() == lhs.view()->App_args[1]);
                }
                let mut result: Option<(Term, Term)> = None;
                let mut decided = false;
                if a0.is_const() && lookup_env(env, a0).is_none() {
                    match eval_term(a1, env) {
                        Some(tn) => match eval_term(rhs, env) {
                            Some(vn) => {
                                decided = true;
                                match bv_bin_exec(Op::BvSub, &vn, &tn) {
                                    Some(u) => {
                                        result = Some((a0.duplicate(), u));
                                    },
                                    None => {},
                                }
                            },
                            None => {},
                        },
                        None => {},
                    }
                }
                if !decided {
                    if a1.is_const() && lookup_env(env, a1).is_none() {
                        match eval_term(a0, env) {
                            Some(tn) => match eval_term(rhs, env) {
                                Some(vn) => {
                                    match bv_bin_exec(Op::BvSub, &vn, &tn) {
                                        Some(u) => {
                                            result = Some((a1.duplicate(), u));
                                        },
                                        None => {},
                                    }
                                },
                                None => {},
                            },
                            None => {},
                        }
                    }
                }
                result
            } else {
                None
            }
        },
        _ => None,
    }
}

/// Runs the procedure over the assertions in order.
pub(crate) fn solve_exec(asserts: &Vec<Term>) -> (r: Option<Vec<(Term, Term)>>)
    ensures
        match r {
            Some(env) => solve(view_terms(asserts@)) == Some(env_view(env@)),
            None => solve(view_terms(asserts@)) is None,
        },
{
    let ghost av = view_terms(asserts@);
    let mut env: Vec<(Term, Term)> = Vec::new();
    let mut i: usize = 0;
    proof {
        assert(env_view(env@) =~= Seq::<(TermV, TermV)>::empty());
    }
    while i < asserts.len()
        invariant
            i <= asserts.len(),
            av == view_terms(asserts@),
            av.len() == asserts@.len(),
            solve(av) == solve_from(av, i as int, env_view(env@)),
        decreases asserts.len() - i,
    {
        let a = &asserts[i];
        proof {
            assert(a.view() == av[i as int]);
        }
        match eval_term(a, &env) {
            Some(v) => {
                match &v {
                    Term::BoolLit { b } => {
                        if !*b {
                            proof {
                                assert(v.view() != (TermV::BoolLit { b: true }));
                            }
                            return None;
                        }
                        proof {
                            assert(v.view() == (TermV::BoolLit { b: true }));
                        }
                    },
                    _ => {
                        proof {
                            assert(v.view() != (TermV::BoolLit { b: true }));
                        }
                        return None;
                    },
                }
            },
            None => {
                let ghost env0 = env@;
                let mut bound = false;
                match a {
                    Term::App { op, args } => {
                        if matches!(op, Op::EqOp) && args.len() == 2 {
                            let l = &args[0];
                            let r = &args[1];
                            proof {
                                assert(a.view() == (TermV::App {
                                    op: *op,
                                    args: view_terms(args@),
                                }));
                                assert(l.view() == av[i as int]->App_args[0]);
                                assert(r.view() == av[i as int]->App_args[1]);
                            }
                            if l.is_const() && lookup_env(&env, l).is_none() {
                                match eval_term(r, &env) {
                                    Some(v) => {
                                        let ghost kv = (l.view(), v.view());
                                        let key = l.duplicate();
                                        env.push((key, v));
                                        bound = true;
                                        proof {
                                            assert(try_bind(av[i as int], env_view(env0))
                                                == Some(kv));
                                            assert(env_view(env@) =~= env_view(env0).push(kv));
                                        }
                                    },
                                    None => {},
                                }
                            }
                            if !bound {
                                if r.is_const() && lookup_env(&env, r).is_none() {
                                    match eval_term(l, &env) {
                                        Some(v) => {
                                            let ghost kv = (r.view(), v.view());
                                            let key = r.duplicate();
                                            env.push((key, v));
                                            bound = true;
                                            proof {
                                                assert(try_bind(av[i as int], env_view(env0))
                                                    == Some(kv));
                                                assert(env_view(env@) =~= env_view(env0).push(
                                                    kv,
                                                ));
                                            }
                                        },
                                        None => {},
                                    }
                                }
                            }
                            if !bound {
                                let added = match try_add_bind(l, r, &env) {
                                    Some(kv) => Some(kv),
                                    None => try_add_bind(r, l, &env),
                                };
                                match added {
                                    Some(kv) => {
                                        let ghost kvv = (kv.0.view(), kv.1.view());
                                        env.push(kv);
                                        bound = true;
                                        proof {
                                            assert(try_bind(av[i as int], env_view(env0))
                                                == Some(kvv));
                                            assert(env_view(env@) =~= env_view(env0).push(
                                                kvv,
                                            ));
                                        }
                                    },
                                    None => {},
                                }
                            }
                        }
                    },
                    Term::FuncApp { decl: d, args: ts } => {
                        match &d.kind {
                            DeclKind::Tester { dt, idx, ctor_name, ctor_arity } => {
                                if *ctor_arity == 0 && ts.len() == 1 {
                                    let c = &ts[0];
                                    proof {
                                        assert(a.view() == (TermV::FuncApp {
                                            decl: d.view(),
                                            args: view_terms(ts@),
                                        }));
                                        assert(c.view() == av[i as int]->FuncApp_args[0]);
                                    }
                                    if c.is_const() && lookup_env(&env, c).is_none() {
                                        let wdomain: Vec<SortData> = Vec::new();
                                        let wargs: Vec<Term> = Vec::new();
                                        let witness = Term::FuncApp {
                                            decl: DeclData {
                                                name: ctor_name.duplicate(),
                                                domain: wdomain,
                                                range: SortData::DatatypeSort {
                                                    name: dt.clone(),
                                                },
                                                kind: DeclKind::Ctor {
                                                    dt: dt.clone(),
                                                    idx: *idx,
                                                },
                                            },
                                            args: wargs,
                                        };
                                        proof {
                                            assert(wdomain@ =~= Seq::<SortData>::empty());
                                            assert(wargs@ =~= Seq::<Term>::empty());
                                            assert(view_terms(wargs@) =~= Seq::<
                                                TermV,
                                            >::empty());
                                            assert(witness.view()->FuncApp_decl.domain
                                                =~= Seq::<SortV>::empty());
                                            assert(witness.view()->FuncApp_args
                                                == view_terms(wargs@));
                                            assert(witness.view() == tester_witness(
                                                av[i as int]->FuncApp_decl.kind,
                                            ));
                                        }
                                        let ghost kv = (c.view(), witness.view());
                                        let key = c.duplicate();
                                        env.push((key, witness));
                                        bound = true;
                                        proof {
                                            assert(try_bind(av[i as int], env_view(env0))
                                                == Some(kv));
                                            assert(env_view(env@) =~= env_view(env0).push(
                                                kv,
                                            ));
                                        }
                                    }
                                }
                            },
                            _ => {},
                        }
                    },
                    _ => {},
                }
                if !bound {
                    proof {
                        assert(try_bind(av[i as int], env_view(env@)) is None);
                    }
                    return None;
                }
            },
        }
        i += 1;
    }
    proof {
        assert(solve(av) == Some(env_view(env@)));
    }
    Some(env)
}

// ---------------------------------------------------------------------------
// The incremental solver
// ---------------------------------------------------------------------------

/// Accumulator of assertions with a checkpoint stack; checking hands the
/// assertions to the decision procedure and caches the model it finds.
pub struct Solver {
    ctx_id: u64,
    assertions: Vec<Term>,
    frames: Vec<Vec<Term>>,
    cached: Option<Vec<(Term, Term)>>,
}

impl Solver {
    /// The identity of the owning context.
    pub closed spec fn ctx(self) -> u64 {
        self.ctx_id
    }

    /// The assertions added so far, oldest first.
    pub closed spec fn asserts(self) -> Seq<TermV> {
        view_terms(self.assertions@)
    }

    /// The checkpoint stack: each entry is the assertion set saved by one
    /// `push`.
    pub closed spec fn frames(self) -> Seq<Seq<TermV>> {
        Seq::new(
            self.frames@.len(),
            |i: int|
                if 0 <= i < self.frames@.len() {
                    view_terms(self.frames@[i]@)
                } else {
                    Seq::empty()
                },
        )
    }

    /// Whether a model from a satisfiable `check` is available.
    pub closed spec fn has_model(self) -> bool {
        self.cached is Some
    }

    /// The bindings of the cached model.
    pub closed spec fn model_env(self) -> Seq<(TermV, TermV)> {
        env_view(self.cached->0@)
    }

    pub fn new(ctx: &Context) -> (r: Solver)
        ensures
            r.ctx() == ctx.id(),
            r.asserts() == Seq::<TermV>::empty(),
            r.frames() == Seq::<Seq<TermV>>::empty(),
            !r.has_model(),
    {
        let r = Solver {
            ctx_id: ctx.id_exec(),
            assertions: Vec::new(),
            frames: Vec::new(),
            cached: None,
        };
        proof {
            assert(r.asserts() =~= Seq::<TermV>::empty());
            assert(r.frames() =~= Seq::<Seq<TermV>>::empty());
        }
        r
    }

    /// Adds an assertion; any cached model becomes stale.
    pub fn assert_term(&mut self, ast: &Ast)
        requires
            ast.ctx() == old(self).ctx(),
        ensures
            final(self).ctx() == old(self).ctx(),
            final(self).asserts() == old(self).asserts().push(ast@),
            final(self).frames() == old(self).frames(),
            !final(self).has_model(),
    {
        self.assertions.push(ast.term_dup());
        self.cached = None;
        proof {
            assert(self.asserts() =~= old(self).asserts().push(ast@));
            assert(self.frames() =~= old(self).frames());
        }
    }

    /// Saves a checkpoint of the assertions added so far.
    pub fn push(&mut self)
        ensures
            final(self).ctx() == old(self).ctx(),
            final(self).asserts() == old(self).asserts(),
            final(self).frames() == old(self).frames().push(old(self).asserts()),
            !final(self).has_model(),
    {
        let snap = crate::term::dup_terms(&self.assertions);
        self.frames.push(snap);
        self.cached = None;
        proof {
            assert(self.frames() =~= old(self).frames().push(old(self).asserts()));
            assert(self.asserts() =~= old(self).asserts());
        }
    }

    /// Restores the most recent checkpoint, discarding the assertions added
    /// since; must not be called more times than `push`.
    pub fn pop(&mut self)
        requires
            old(self).frames().len() > 0,
        ensures
            final(self).ctx() == old(self).ctx(),
            final(self).asserts() == old(self).frames().last(),
            final(self).frames() == old(self).frames().drop_last(),
            !final(self).has_model(),
    {
        match self.frames.pop() {
            Some(saved) => {
                self.assertions = saved;
            },
            None => {
                proof {
                    assert(false);
                }
            },
        }
        self.cached = None;
        proof {
            assert(self.frames() =~= old(self).frames().drop_last());
        }
    }

    /// Runs the decision procedure on the current assertions.  Returns true
    /// exactly when it finds a model, which is then cached for `get_model`;
    /// every assertion evaluates to the true literal under that model.
    pub fn check(&mut self) -> (r: bool)
        ensures
            final(self).ctx() == old(self).ctx(),
            final(self).asserts() == old(self).asserts(),
            final(self).frames() == old(self).frames(),
            r == (solve(old(self).asserts()) is Some),
            final(self).has_model() == r,
            r ==> final(self).model_env() == solve(old(self).asserts())->0,
            r ==> forall|j: int|
                0 <= j < old(self).asserts().len() ==> spec_eval(
                    old(self).asserts()[j],
                    final(self).model_env(),
                ) == Some(TermV::BoolLit { b: true }),
    {
        self.cached = solve_exec(&self.assertions);
        proof {
            assert(self.frames() =~= old(self).frames());
            if self.cached is Some {
                lemma_solve_sound(self.asserts(), self.model_env());
            }
        }
        self.cached.is_some()
    }

    pub(crate) fn ctx_exec(&self) -> (r: u64)
        ensures
            r == self.ctx(),
    {
        self.ctx_id
    }

    /// How many assertions the solver currently holds.
    pub(crate) fn assertion_count(&self) -> (r: u64)
        requires
            self.asserts().len() <= u64::MAX,
        ensures
            r == self.asserts().len(),
    {
        self.assertions.len() as u64
    }

    /// The model of the last satisfiable `check`; stale or failed checks
    /// leave no model, and asking for one then is a caller error.
    pub fn get_model(&self) -> (r: Model)
        requires
            self.has_model(),
        ensures
            r@ == self.model_env(),
            r.ctx() == self.ctx(),
    {
        match &self.cached {
            Some(env) => Model::from_bindings(self.ctx_id, dup_env(env)),
            None => {
                proof {
                    assert(false);
                }
                Model::from_bindings(self.ctx_id, Vec::new())
            },
        }
    }
}

} // verus!
