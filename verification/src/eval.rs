use vstd::prelude::*;
use vstd::arithmetic::power2::{pow2, lemma2_to64, lemma2_to64_rest};
use vstd::arithmetic::div_mod::{
    lemma_fundamental_div_mod,
    lemma_fundamental_div_mod_converse,
    lemma_mod_division_less_than_divisor,
    lemma_small_mod,
};
use vstd::bits::lemma_u64_shl_is_mul;
use crate::sort::{SortData, SortV};
use crate::decl::{DeclKind, DeclKindV};
use crate::term::{Op, PbKind, Term, TermV, view_terms, num_value};

verus! {

// ---------------------------------------------------------------------------
// Environments: a model is a sequence of bindings from constant terms to
// value terms, looked up front to back.
// ---------------------------------------------------------------------------

pub open spec fn env_view(env: Seq<(Term, Term)>) -> Seq<(TermV, TermV)> {
    Seq::new(
        env.len(),
        |i: int|
            if 0 <= i < env.len() {
                (env[i].0.view(), env[i].1.view())
            } else {
                (TermV::BoolLit { b: false }, TermV::BoolLit { b: false })
            },
    )
}

pub open spec fn lookup_from(env: Seq<(TermV, TermV)>, c: TermV, i: int) -> Option<TermV>
    decreases env.len() - i,
{
    if i < 0 || i >= env.len() {
        None
    } else if env[i].0 == c {
        Some(env[i].1)
    } else {
        lookup_from(env, c, i + 1)
    }
}

/// The value bound to the constant `c`, if any.
pub open spec fn lookup(env: Seq<(TermV, TermV)>, c: TermV) -> Option<TermV> {
    lookup_from(env, c, 0)
}

pub open spec fn opt_view(r: Option<Term>) -> Option<TermV> {
    match r {
        Some(v) => Some(v.view()),
        None => None,
    }
}

pub fn lookup_env(env: &Vec<(Term, Term)>, key: &Term) -> (r: Option<Term>)
    ensures
        opt_view(r) == lookup(env_view(env@), key.view()),
{
    let ghost ev = env_view(env@);
    let mut i: usize = 0;
    while i < env.len()
        invariant
            i <= env.len(),
            ev == env_view(env@),
            lookup(ev, key.view()) == lookup_from(ev, key.view(), i as int),
        decreases env.len() - i,
    {
        if env[i].0.term_eq(key) {
            let v = env[i].1.duplicate();
            return Some(v);
        }
        i += 1;
    }
    None
}

/// An independent copy of an environment.
pub fn dup_env(env: &Vec<(Term, Term)>) -> (r: Vec<(Term, Term)>)
    ensures
        env_view(r@) == env_view(env@),
{
    let mut r: Vec<(Term, Term)> = Vec::new();
    let mut i: usize = 0;
    while i < env.len()
        invariant
            i <= env.len(),
            r@.len() == i,
            forall|j: int|
                0 <= j < i ==> r@[j].0.view() == env@[j].0.view() && r@[j].1.view()
                    == env@[j].1.view(),
        decreases env.len() - i,
    {
        let k = env[i].0.duplicate();
        let v = env[i].1.duplicate();
        r.push((k, v));
        i += 1;
    }
    proof {
        assert(env_view(r@) =~= env_view(env@));
    }
    r
}

// ---------------------------------------------------------------------------
// Ground evaluation.  The evaluator is deliberately partial: it decides
// literals, bound constants, boolean connectives, equality of values,
// integer/bit-vector conversions, modular bit-vector arithmetic and
// comparisons at widths up to 64, pseudo-boolean constraints over ground
// boolean operands, and the constructor/tester/accessor declarations of
// datatypes.  Everything else evaluates to `None`.
// ---------------------------------------------------------------------------

pub open spec fn all_bools(vs: Seq<TermV>) -> bool {
    forall|j: int| 0 <= j < vs.len() ==> vs[j] is BoolLit
}

pub open spec fn conj(vs: Seq<TermV>) -> bool {
    forall|j: int| 0 <= j < vs.len() ==> vs[j]->BoolLit_b
}

pub open spec fn disj(vs: Seq<TermV>) -> bool {
    exists|j: int| 0 <= j < vs.len() && vs[j]->BoolLit_b
}

pub open spec fn coeffs_view(cs: Seq<i32>) -> Seq<int> {
    Seq::new(cs.len(), |i: int| cs[i] as int)
}

/// The weighted sum of a pseudo-boolean constraint: each true operand
/// contributes its coefficient.
pub open spec fn pb_sum(coeffs: Seq<int>, vs: Seq<TermV>) -> int
    decreases vs.len(),
{
    if vs.len() == 0 {
        0
    } else {
        pb_sum(coeffs.drop_last(), vs.drop_last()) + (if vs.last()->BoolLit_b {
            coeffs.last()
        } else {
            0
        })
    }
}

/// The two's-complement reading of a bit-vector value.
pub open spec fn bv_signed(x: int, w: u32) -> int {
    if x >= pow2((w - 1) as nat) {
        x - pow2(w as nat)
    } else {
        x
    }
}

/// The result of a binary bit-vector operation on two evaluated operands:
/// decided for the modular arithmetic and comparison operators on same-width
/// numerals in range, at widths up to 64.
pub open spec fn bv_bin_result(op: Op, a: TermV, b: TermV) -> Option<TermV> {
    match (a, b) {
        (
            TermV::Numeral { value: x, sort: SortV::BitVecSort { width: w } },
            TermV::Numeral { value: y, sort: s2 },
        ) => {
            if s2 == (SortV::BitVecSort { width: w }) && 1 <= w <= 64 && 0 <= x < pow2(w as nat)
                && 0 <= y < pow2(w as nat) {
                let p = pow2(w as nat) as int;
                let bv = SortV::BitVecSort { width: w };
                match op {
                    Op::BvAdd => Some(TermV::Numeral { value: (x + y) % p, sort: bv }),
                    Op::BvSub => Some(TermV::Numeral { value: (x - y) % p, sort: bv }),
                    Op::BvMul => Some(TermV::Numeral { value: (x * y) % p, sort: bv }),
                    Op::BvUlt => Some(TermV::BoolLit { b: x < y }),
                    Op::BvUle => Some(TermV::BoolLit { b: x <= y }),
                    Op::BvUgt => Some(TermV::BoolLit { b: x > y }),
                    Op::BvUge => Some(TermV::BoolLit { b: x >= y }),
                    Op::BvSlt => Some(TermV::BoolLit { b: bv_signed(x, w) < bv_signed(y, w) }),
                    Op::BvSle => Some(TermV::BoolLit { b: bv_signed(x, w) <= bv_signed(y, w) }),
                    Op::BvSgt => Some(TermV::BoolLit { b: bv_signed(x, w) > bv_signed(y, w) }),
                    Op::BvSge => Some(TermV::BoolLit { b: bv_signed(x, w) >= bv_signed(y, w) }),
                    _ => None,
                }
            } else {
                None
            }
        },
        _ => None,
    }
}

/// The result of bit-vector negation on an evaluated operand.
pub open spec fn bv_neg_result(a: TermV) -> Option<TermV> {
    match a {
        TermV::Numeral { value: x, sort: SortV::BitVecSort { width: w } } => {
            if 1 <= w <= 64 && 0 <= x < pow2(w as nat) {
                Some(
                    TermV::Numeral {
                        value: (-x) % (pow2(w as nat) as int),
                        sort: SortV::BitVecSort { width: w },
                    },
                )
            } else {
                None
            }
        },
        _ => None,
    }
}

/// Subtraction inverts addition at a width: if `u` is `vn - tn`, then
/// `u + tn` (either operand order) is `vn` again.
pub proof fn lemma_bv_sub_add(vn: TermV, tn: TermV, u: TermV)
    requires
        bv_bin_result(Op::BvSub, vn, tn) == Some(u),
    ensures
        bv_bin_result(Op::BvAdd, u, tn) == Some(vn),
        bv_bin_result(Op::BvAdd, tn, u) == Some(vn),
{
    let w = vn->Numeral_sort->BitVecSort_width;
    let p = pow2(w as nat) as int;
    let v = vn->Numeral_value;
    let y = tn->Numeral_value;
    let uv = (v - y) % p;
    vstd::arithmetic::power2::lemma_pow2_pos(w as nat);
    lemma_mod_division_less_than_divisor(v - y, p);
    lemma_fundamental_div_mod(v - y, p);
    let q = (v - y) / p;
    assert(uv + y == (-q) * p + v) by (nonlinear_arith)
        requires
            v - y == p * q + uv,
    ;
    lemma_fundamental_div_mod_converse(uv + y, p, -q, v);
    assert((uv + y) % p == v);
    assert((y + uv) % p == v);
}

pub open spec fn pb_cmp(kind: PbKind, s: int, k: int) -> bool {
    match kind {
        PbKind::AtMost => s <= k,
        PbKind::AtLeast => s >= k,
        PbKind::Exactly => s == k,
    }
}

/// The value of a term under an environment, where this layer's ground
/// evaluation rules decide it.
pub open spec fn spec_eval(t: TermV, env: Seq<(TermV, TermV)>) -> Option<TermV>
    decreases t,
{
    match t {
        TermV::BoolLit { .. } => Some(t),
        TermV::Numeral { .. } => Some(t),
        TermV::Rational { .. } => Some(t),
        TermV::Constant { .. } => lookup(env, t),
        TermV::App { op, args } => match op {
            Op::NotOp => if args.len() == 1 {
                match spec_eval(args[0], env) {
                    Some(TermV::BoolLit { b }) => Some(TermV::BoolLit { b: !b }),
                    _ => None,
                }
            } else {
                None
            },
            Op::AndOp => match eval_args(args, env) {
                Some(vs) => if all_bools(vs) {
                    Some(TermV::BoolLit { b: conj(vs) })
                } else {
                    None
                },
                None => None,
            },
            Op::OrOp => match eval_args(args, env) {
                Some(vs) => if all_bools(vs) {
                    Some(TermV::BoolLit { b: disj(vs) })
                } else {
                    None
                },
                None => None,
            },
            Op::EqOp => if args.len() == 2 {
                match (spec_eval(args[0], env), spec_eval(args[1], env)) {
                    (Some(v0), Some(v1)) => Some(TermV::BoolLit { b: v0 == v1 }),
                    _ => None,
                }
            } else {
                None
            },
            Op::Int2Bv { width } => if args.len() == 1 && 1 <= width <= 64 {
                match spec_eval(args[0], env) {
                    Some(TermV::Numeral { value, sort }) => if sort == SortV::IntSort {
                        Some(
                            TermV::Numeral {
                                value: value % (pow2(width as nat) as int),
                                sort: SortV::BitVecSort { width },
                            },
                        )
                    } else {
                        None
                    },
                    _ => None,
                }
            } else {
                None
            },
            Op::Bv2Int { signed } => if args.len() == 1 {
                match spec_eval(args[0], env) {
                    Some(TermV::Numeral { value, sort }) => match sort {
                        SortV::BitVecSort { width } => if 1 <= width <= 64 && 0 <= value
                            < pow2(width as nat) {
                            Some(
                                TermV::Numeral {
                                    value: if signed && value >= pow2((width - 1) as nat) {
                                        value - pow2(width as nat)
                                    } else {
                                        value
                                    },
                                    sort: SortV::IntSort,
                                },
                            )
                        } else {
                            None
                        },
                        _ => None,
                    },
                    _ => None,
                }
            } else {
                None
            },
            Op::BvAdd | Op::BvSub | Op::BvMul | Op::BvUlt | Op::BvUle | Op::BvUgt | Op::BvUge
                | Op::BvSlt | Op::BvSle | Op::BvSgt | Op::BvSge => if args.len() == 2 {
                match (spec_eval(args[0], env), spec_eval(args[1], env)) {
                    (Some(a), Some(b)) => bv_bin_result(op, a, b),
                    _ => None,
                }
            } else {
                None
            },
            Op::BvNeg => if args.len() == 1 {
                match spec_eval(args[0], env) {
                    Some(a) => bv_neg_result(a),
                    None => None,
                }
            } else {
                None
            },
            _ => None,
        },
        TermV::PbApp { kind, coeffs, k, args } => match eval_args(args, env) {
            Some(vs) => if all_bools(vs) && coeffs.len() == vs.len() {
                Some(TermV::BoolLit { b: pb_cmp(kind, pb_sum(coeffs, vs), k) })
            } else {
                None
            },
            None => None,
        },
        TermV::FuncApp { decl, args } => match decl.kind {
            DeclKindV::Ctor { .. } => match eval_args(args, env) {
                Some(vs) => Some(TermV::FuncApp { decl, args: vs }),
                None => None,
            },
            DeclKindV::Tester { dt, idx, .. } => if args.len() == 1 {
                match spec_eval(args[0], env) {
                    Some(TermV::FuncApp { decl: d2, args: vs }) => match d2.kind {
                        DeclKindV::Ctor { dt: dt2, idx: idx2 } => if dt2 == dt {
                            Some(TermV::BoolLit { b: idx2 == idx })
                        } else {
                            None
                        },
                        _ => None,
                    },
                    _ => None,
                }
            } else {
                None
            },
            DeclKindV::Accessor { dt, idx, field } => if args.len() == 1 {
                match spec_eval(args[0], env) {
                    Some(TermV::FuncApp { decl: d2, args: vs }) => match d2.kind {
                        DeclKindV::Ctor { dt: dt2, idx: idx2 } => if dt2 == dt && idx2 == idx
                            && field < vs.len() {
                            Some(vs[field as int])
                        } else {
                            None
                        },
                        _ => None,
                    },
                    _ => None,
                }
            } else {
                None
            },
            DeclKindV::Uninterp => None,
        },
        TermV::Quant { .. } => None,
    }
}

/// Evaluation of an argument list: all arguments must evaluate.
pub open spec fn eval_args(args: Seq<TermV>, env: Seq<(TermV, TermV)>) -> Option<Seq<TermV>>
    decreases args,
{
    if args.len() == 0 {
        Some(Seq::empty())
    } else {
        match (eval_args(args.drop_last(), env), spec_eval(args.last(), env)) {
            (Some(vs), Some(v)) => Some(vs.push(v)),
            _ => None,
        }
    }
}

/// If one argument is stuck, the whole argument list is stuck.
pub proof fn lemma_eval_args_none(args: Seq<TermV>, env: Seq<(TermV, TermV)>, i: int)
    requires
        0 <= i < args.len(),
        spec_eval(args[i], env) is None,
    ensures
        eval_args(args, env) is None,
    decreases args.len(),
{
    if i == args.len() - 1 {
    } else {
        assert(args.drop_last()[i] == args[i]);
        lemma_eval_args_none(args.drop_last(), env, i);
    }
}

// ---------------------------------------------------------------------------
// Monotonicity: a term that evaluates keeps its value when the environment
// grows, since lookups are resolved front to back.
// ---------------------------------------------------------------------------

pub proof fn lemma_lookup_extend(env: Seq<(TermV, TermV)>, c: TermV, b: (TermV, TermV), i: int)
    requires
        0 <= i,
        lookup_from(env, c, i) is Some,
    ensures
        lookup_from(env.push(b), c, i) == lookup_from(env, c, i),
    decreases env.len() - i,
{
    if i < env.len() {
        assert(env.push(b)[i] == env[i]);
        if env[i].0 != c {
            lemma_lookup_extend(env, c, b, i + 1);
        }
    }
}

/// An unbound constant resolves to a binding pushed for it.
pub proof fn lemma_lookup_push_hit(env: Seq<(TermV, TermV)>, c: TermV, v: TermV, i: int)
    requires
        0 <= i <= env.len(),
        lookup_from(env, c, i) is None,
    ensures
        lookup_from(env.push((c, v)), c, i) == Some(v),
    decreases env.len() - i,
{
    if i < env.len() {
        assert(env.push((c, v))[i] == env[i]);
        lemma_lookup_push_hit(env, c, v, i + 1);
    } else {
        assert(env.push((c, v))[env.len() as int] == (c, v));
    }
}

pub proof fn lemma_eval_extend(t: TermV, env: Seq<(TermV, TermV)>, b: (TermV, TermV))
    requires
        spec_eval(t, env) is Some,
    ensures
        spec_eval(t, env.push(b)) == spec_eval(t, env),
    decreases t,
{
    let env2 = env.push(b);
    match t {
        TermV::BoolLit { .. } => {},
        TermV::Numeral { .. } => {},
        TermV::Rational { .. } => {},
        TermV::Constant { .. } => {
            lemma_lookup_extend(env, t, b, 0);
        },
        TermV::App { op, args } => {
            match op {
                Op::NotOp => {
                    lemma_eval_extend(args[0], env, b);
                },
                Op::AndOp => {
                    lemma_eval_args_extend(args, env, b);
                },
                Op::OrOp => {
                    lemma_eval_args_extend(args, env, b);
                },
                Op::EqOp => {
                    lemma_eval_extend(args[0], env, b);
                    lemma_eval_extend(args[1], env, b);
                },
                Op::Int2Bv { .. } => {
                    lemma_eval_extend(args[0], env, b);
                },
                Op::Bv2Int { .. } => {
                    lemma_eval_extend(args[0], env, b);
                },
                Op::BvAdd | Op::BvSub | Op::BvMul | Op::BvUlt | Op::BvUle | Op::BvUgt
                    | Op::BvUge | Op::BvSlt | Op::BvSle | Op::BvSgt | Op::BvSge => {
                    lemma_eval_extend(args[0], env, b);
                    lemma_eval_extend(args[1], env, b);
                },
                Op::BvNeg => {
                    lemma_eval_extend(args[0], env, b);
                },
                _ => {},
            }
        },
        TermV::PbApp { kind, coeffs, k, args } => {
            lemma_eval_args_extend(args, env, b);
        },
        TermV::FuncApp { decl, args } => {
            match decl.kind {
                DeclKindV::Ctor { .. } => {
                    lemma_eval_args_extend(args, env, b);
                },
                DeclKindV::Tester { .. } => {
                    lemma_eval_extend(args[0], env, b);
                },
                DeclKindV::Accessor { .. } => {
                    lemma_eval_extend(args[0], env, b);
                },
                DeclKindV::Uninterp => {},
            }
        },
        TermV::Quant { .. } => {},
    }
}

pub proof fn lemma_eval_args_extend(
    args: Seq<TermV>,
    env: Seq<(TermV, TermV)>,
    b: (TermV, TermV),
)
    requires
        eval_args(args, env) is Some,
    ensures
        eval_args(args, env.push(b)) == eval_args(args, env),
    decreases args,
{
    if args.len() > 0 {
        lemma_eval_args_extend(args.drop_last(), env, b);
        lemma_eval_extend(args.last(), env, b);
    }
}

/// Evaluation under an environment survives into any environment it is a
/// prefix of.
pub proof fn lemma_eval_prefix(t: TermV, env: Seq<(TermV, TermV)>, m: Seq<(TermV, TermV)>)
    requires
        env.len() <= m.len(),
        m.take(env.len() as int) == env,
        spec_eval(t, env) is Some,
    ensures
        spec_eval(t, m) == spec_eval(t, env),
    decreases m.len() - env.len(),
{
    if m.len() == env.len() {
        assert(m.take(m.len() as int) =~= m);
    } else {
        let shorter = m.drop_last();
        assert(shorter.take(env.len() as int) =~= env) by {
            assert(m.take(env.len() as int) == env);
        }
        lemma_eval_prefix(t, env, shorter);
        lemma_eval_extend(t, shorter, m.last());
        assert(shorter.push(m.last()) =~= m);
    }
}

// ---------------------------------------------------------------------------
// Modular arithmetic helpers for the bit-vector conversions.
// ---------------------------------------------------------------------------

proof fn lemma_neg_mod(a: int, p: int)
    requires
        p > 0,
        a >= 0,
    ensures
        (-a) % p == if a % p == 0 {
            0int
        } else {
            p - a % p
        },
{
    lemma_fundamental_div_mod(a, p);
    lemma_mod_division_less_than_divisor(a, p);
    let q = a / p;
    let r = a % p;
    if r == 0 {
        assert(-a == (-q) * p + 0) by (nonlinear_arith)
            requires
                a == p * q + r,
                r == 0,
        ;
        lemma_fundamental_div_mod_converse(-a, p, -q, 0);
    } else {
        assert(-a == (-q - 1) * p + (p - r)) by (nonlinear_arith)
            requires
                a == p * q + r,
        ;
        lemma_fundamental_div_mod_converse(-a, p, -q - 1, p - r);
    }
}

fn shift_pow2(w: u32) -> (p: u64)
    requires
        1 <= w <= 63,
    ensures
        p == pow2(w as nat),
        p >= 2,
{
    proof {
        lemma2_to64();
        lemma2_to64_rest();
        vstd::arithmetic::power2::lemma_pow2_strictly_increases(w as nat, 64);
        lemma_u64_shl_is_mul(1u64, w as u64);
    }
    1u64 << (w as u64)
}

/// Reduces the signed value `(neg, mag)` modulo `2^w`, into `[0, 2^w)`.
pub(crate) fn mod_pow2(neg: bool, mag: u64, w: u32) -> (u: u64)
    requires
        1 <= w <= 64,
    ensures
        u as int == num_value(neg, mag) % (pow2(w as nat) as int),
        (u as int) < pow2(w as nat),
{
    proof {
        lemma2_to64();
        lemma2_to64_rest();
    }
    if w == 64 {
        if !neg {
            proof {
                lemma_small_mod(mag as nat, pow2(64));
            }
            mag
        } else {
            let u = 0u64.wrapping_sub(mag);
            proof {
                lemma_neg_mod(mag as int, pow2(64) as int);
                lemma_small_mod(mag as nat, pow2(64));
            }
            u
        }
    } else {
        let p = shift_pow2(w);
        if !neg {
            let u = mag % p;
            proof {
                lemma_mod_division_less_than_divisor(mag as int, p as int);
            }
            u
        } else {
            let m = mag % p;
            proof {
                lemma_mod_division_less_than_divisor(mag as int, p as int);
                lemma_neg_mod(mag as int, p as int);
            }
            if m == 0 {
                0
            } else {
                p - m
            }
        }
    }
}

// ---------------------------------------------------------------------------
// The executable evaluator.
// ---------------------------------------------------------------------------

pub fn eval_args_exec(args: &Vec<Term>, env: &Vec<(Term, Term)>) -> (r: Option<Vec<Term>>)
    ensures
        match r {
            Some(vs) => eval_args(view_terms(args@), env_view(env@)) == Some(view_terms(vs@)),
            None => eval_args(view_terms(args@), env_view(env@)) is None,
        },
    decreases *args,
{
    let ghost av = view_terms(args@);
    let ghost ev = env_view(env@);
    let mut vals: Vec<Term> = Vec::new();
    let mut i: usize = 0;
    proof {
        assert(av.take(0) =~= Seq::<TermV>::empty());
        assert(eval_args(av.take(0), ev) == Some(view_terms(vals@))) by {
            assert(view_terms(vals@) =~= Seq::<TermV>::empty());
        }
    }
    while i < args.len()
        invariant
            i <= args.len(),
            av == view_terms(args@),
            ev == env_view(env@),
            av.len() == args@.len(),
            eval_args(av.take(i as int), ev) == Some(view_terms(vals@)),
        decreases args.len() - i,
    {
        match eval_term(&args[i], env) {
            Some(v) => {
                vals.push(v);
                proof {
                    assert(av.take(i + 1).drop_last() =~= av.take(i as int));
                    assert(av.take(i + 1).last() == av[i as int]);
                    assert(view_terms(vals@) =~= view_terms(vals@.drop_last()).push(
                        vals@.last().view(),
                    ));
                }
            },
            None => {
                proof {
                    lemma_eval_args_none(av, ev, i as int);
                }
                return None;
            },
        }
        i += 1;
    }
    proof {
        assert(av.take(args@.len() as int) =~= av);
    }
    Some(vals)
}

/// The two's-complement value of an in-range bit-vector word.
fn signed_val_exec(x: u64, w: u32) -> (s: i128)
    requires
        1 <= w <= 64,
        x < pow2(w as nat),
    ensures
        s == bv_signed(x as int, w),
{
    proof {
        lemma2_to64();
        lemma2_to64_rest();
    }
    if w == 64 {
        if x >= 0x8000_0000_0000_0000u64 {
            (x as i128) - 0x1_0000_0000_0000_0000i128
        } else {
            x as i128
        }
    } else {
        let half: u64 = if w == 1 {
            1
        } else {
            shift_pow2(w - 1)
        };
        let p = shift_pow2(w);
        if x >= half {
            (x as i128) - (p as i128)
        } else {
            x as i128
        }
    }
}

/// Executes a binary bit-vector operation on two evaluated operands.
pub(crate) fn bv_bin_exec(op: Op, v0: &Term, v1: &Term) -> (r: Option<Term>)
    ensures
        opt_view(r) == bv_bin_result(op, v0.view(), v1.view()),
{
    match (v0, v1) {
        (
            Term::Numeral { neg: n0, mag: m0, sort: s0 },
            Term::Numeral { neg: n1, mag: m1, sort: s1 },
        ) => {
            match (s0.bv_width(), s1.bv_width()) {
                (Some(w0), Some(w1)) => {
                    if !(w0 == w1 && 1 <= w0 && w0 <= 64 && (!*n0 || *m0 == 0) && (!*n1 || *m1
                        == 0)) {
                        return None;
                    }
                    proof {
                        lemma2_to64();
                        lemma2_to64_rest();
                    }
                    let x = *m0;
                    let y = *m1;
                    let in_range: bool = if w0 == 64 {
                        true
                    } else {
                        let p = shift_pow2(w0);
                        x < p && y < p
                    };
                    if !in_range {
                        return None;
                    }
                    let ghost pi = pow2(w0 as nat) as int;
                    let bv = SortData::BitVecSort { width: w0 };
                    match op {
                        Op::BvAdd => {
                            let v: u64 = if w0 == 64 {
                                let v = x.wrapping_add(y);
                                proof {
                                    if x + y > u64::MAX {
                                        lemma_fundamental_div_mod_converse(
                                            x + y,
                                            pi,
                                            1,
                                            x + y - pi,
                                        );
                                    } else {
                                        lemma_small_mod((x + y) as nat, pow2(64));
                                    }
                                }
                                v
                            } else {
                                let p = shift_pow2(w0);
                                let v = (x + y) % p;
                                proof {
                                    lemma_mod_division_less_than_divisor((x + y) as int, p as int);
                                }
                                v
                            };
                            Some(Term::Numeral { neg: false, mag: v, sort: bv })
                        },
                        Op::BvSub => {
                            let v: u64 = if w0 == 64 {
                                let v = x.wrapping_sub(y);
                                proof {
                                    if x < y {
                                        lemma_fundamental_div_mod_converse(
                                            x - y,
                                            pi,
                                            -1,
                                            x - y + pi,
                                        );
                                    } else {
                                        lemma_small_mod((x - y) as nat, pow2(64));
                                    }
                                }
                                v
                            } else {
                                let p = shift_pow2(w0);
                                if x >= y {
                                    proof {
                                        lemma_small_mod((x - y) as nat, p as nat);
                                    }
                                    x - y
                                } else {
                                    proof {
                                        lemma_fundamental_div_mod_converse(
                                            x - y,
                                            pi,
                                            -1,
                                            x - y + pi,
                                        );
                                    }
                                    x + p - y
                                }
                            };
                            Some(Term::Numeral { neg: false, mag: v, sort: bv })
                        },
                        Op::BvMul => {
                            let v: u64 = if w0 == 64 {
                                x.wrapping_mul(y)
                            } else {
                                let p = shift_pow2(w0);
                                proof {
                                    assert((x as int) * (y as int) < 0x1_0000_0000_0000_0000
                                        * 0x1_0000_0000_0000_0000) by (nonlinear_arith)
                                        requires
                                            x < 0x1_0000_0000_0000_0000,
                                            y < 0x1_0000_0000_0000_0000,
                                    ;
                                    lemma_mod_division_less_than_divisor(
                                        (x as int) * (y as int),
                                        p as int,
                                    );
                                }
                                (((x as u128) * (y as u128)) % (p as u128)) as u64
                            };
                            Some(Term::Numeral { neg: false, mag: v, sort: bv })
                        },
                        Op::BvUlt => Some(Term::BoolLit { b: x < y }),
                        Op::BvUle => Some(Term::BoolLit { b: x <= y }),
                        Op::BvUgt => Some(Term::BoolLit { b: x > y }),
                        Op::BvUge => Some(Term::BoolLit { b: x >= y }),
                        Op::BvSlt => {
                            let s0v = signed_val_exec(x, w0);
                            let s1v = signed_val_exec(y, w0);
                            Some(Term::BoolLit { b: s0v < s1v })
                        },
                        Op::BvSle => {
                            let s0v = signed_val_exec(x, w0);
                            let s1v = signed_val_exec(y, w0);
                            Some(Term::BoolLit { b: s0v <= s1v })
                        },
                        Op::BvSgt => {
                            let s0v = signed_val_exec(x, w0);
                            let s1v = signed_val_exec(y, w0);
                            Some(Term::BoolLit { b: s0v > s1v })
                        },
                        Op::BvSge => {
                            let s0v = signed_val_exec(x, w0);
                            let s1v = signed_val_exec(y, w0);
                            Some(Term::BoolLit { b: s0v >= s1v })
                        },
                        _ => None,
                    }
                },
                _ => None,
            }
        },
        _ => None,
    }
}

/// Executes bit-vector negation on an evaluated operand.
fn bv_neg_exec(v: &Term) -> (r: Option<Term>)
    ensures
        opt_view(r) == bv_neg_result(v.view()),
{
    match v {
        Term::Numeral { neg, mag, sort } => {
            match sort.bv_width() {
                Some(w) => {
                    if !(1 <= w && w <= 64 && (!*neg || *mag == 0)) {
                        return None;
                    }
                    proof {
                        lemma2_to64();
                        lemma2_to64_rest();
                    }
                    let in_range: bool = if w == 64 {
                        true
                    } else {
                        let p = shift_pow2(w);
                        *mag < p
                    };
                    if !in_range {
                        return None;
                    }
                    let u = mod_pow2(true, *mag, w);
                    proof {
                        assert(v.view() == (TermV::Numeral {
                            value: num_value(*neg, *mag),
                            sort: sort.view(),
                        }));
                        assert(num_value(*neg, *mag) == *mag as int || *mag == 0);
                        assert(u as int == (-(num_value(*neg, *mag) as int)) % (
                        pow2(w as nat) as int));
                    }
                    Some(Term::Numeral { neg: false, mag: u, sort: SortData::BitVecSort { width: w } })
                },
                None => None,
            }
        },
        _ => None,
    }
}

/// Folds evaluated pseudo-boolean operands into the weighted sum compared
/// with the threshold.
fn pb_fold(kind: PbKind, coeffs: &Vec<i32>, k: i32, vals: &Vec<Term>) -> (r: Option<bool>)
    requires
        coeffs@.len() == vals@.len(),
    ensures
        match r {
            Some(b) => all_bools(view_terms(vals@)) && b == pb_cmp(
                kind,
                pb_sum(coeffs_view(coeffs@), view_terms(vals@)),
                k as int,
            ),
            None => !all_bools(view_terms(vals@)),
        },
{
    let ghost vs = view_terms(vals@);
    let ghost cv = coeffs_view(coeffs@);
    let mut acc: i128 = 0;
    let mut j: usize = 0;
    while j < vals.len()
        invariant
            j <= vals.len(),
            vs == view_terms(vals@),
            cv == coeffs_view(coeffs@),
            vs.len() == vals@.len(),
            cv.len() == coeffs@.len(),
            coeffs@.len() == vals@.len(),
            forall|i: int| 0 <= i < j ==> vs[i] is BoolLit,
            acc == pb_sum(cv.take(j as int), vs.take(j as int)),
            -0x8000_0000 * (j as int) <= acc <= 0x7fff_ffff * (j as int),
        decreases vals.len() - j,
    {
        match &vals[j] {
            Term::BoolLit { b } => {
                let ghost acc0 = acc;
                if *b {
                    acc = acc + coeffs[j] as i128;
                }
                proof {
                    assert(cv.take(j + 1).drop_last() =~= cv.take(j as int));
                    assert(vs.take(j + 1).drop_last() =~= vs.take(j as int));
                    assert(vs.take(j + 1).last() == vs[j as int]);
                    assert(cv.take(j + 1).last() == cv[j as int]);
                    assert(-0x8000_0000 * (j + 1 as int) <= acc <= 0x7fff_ffff * (j + 1 as int))
                        by (nonlinear_arith)
                        requires
                            -0x8000_0000 * (j as int) <= acc0 <= 0x7fff_ffff * (j as int),
                            acc0 <= acc <= acc0 + 0x7fff_ffff || acc0 - 0x8000_0000 <= acc
                                <= acc0,
                    ;
                }
            },
            _ => {
                proof {
                    assert(!(vs[j as int] is BoolLit));
                    assert(!all_bools(vs));
                }
                return None;
            },
        }
        j += 1;
    }
    proof {
        assert(vs.take(vals@.len() as int) =~= vs);
        assert(cv.take(coeffs@.len() as int) =~= cv);
        assert(all_bools(vs));
    }
    let ki = k as i128;
    let b = match kind {
        PbKind::AtMost => acc <= ki,
        PbKind::AtLeast => acc >= ki,
        PbKind::Exactly => acc == ki,
    };
    Some(b)
}

/// Folds evaluated arguments into a boolean conjunction or disjunction.
fn bool_fold(vals: &Vec<Term>, is_and: bool) -> (r: Option<bool>)
    ensures
        match r {
            Some(b) => all_bools(view_terms(vals@)) && b == (if is_and {
                conj(view_terms(vals@))
            } else {
                disj(view_terms(vals@))
            }),
            None => !all_bools(view_terms(vals@)),
        },
{
    let ghost vs = view_terms(vals@);
    let mut acc = is_and;
    let mut j: usize = 0;
    while j < vals.len()
        invariant
            j <= vals.len(),
            vs == view_terms(vals@),
            vs.len() == vals@.len(),
            forall|k: int| 0 <= k < j ==> vs[k] is BoolLit,
            acc == (if is_and {
                conj(vs.take(j as int))
            } else {
                disj(vs.take(j as int))
            }),
        decreases vals.len() - j,
    {
        match &vals[j] {
            Term::BoolLit { b } => {
                let ghost acc0 = acc;
                if is_and {
                    acc = acc && *b;
                } else {
                    acc = acc || *b;
                }
                proof {
                    let s = vs.take(j + 1);
                    assert(s.drop_last() =~= vs.take(j as int));
                    assert(s.last() == vs[j as int]);
                    if is_and {
                        assert(conj(s) == (conj(s.drop_last()) && s.last()->BoolLit_b)) by {
                            if conj(s.drop_last()) && s.last()->BoolLit_b {
                                assert forall|k: int| 0 <= k < s.len() implies s[k]->BoolLit_b by {
                                    if k < s.len() - 1 {
                                        assert(s.drop_last()[k] == s[k]);
                                    }
                                }
                            } else if conj(s) {
                                assert forall|k: int|
                                    0 <= k < s.drop_last().len() implies s.drop_last()[k]->BoolLit_b by {
                                    assert(s.drop_last()[k] == s[k]);
                                }
                            }
                        }
                    } else {
                        assert(disj(s) == (disj(s.drop_last()) || s.last()->BoolLit_b)) by {
                            if disj(s.drop_last()) {
                                let w = choose|w: int|
                                    0 <= w < s.drop_last().len() && s.drop_last()[w]->BoolLit_b;
                                assert(s[w]->BoolLit_b);
                            }
                            if disj(s) && !s.last()->BoolLit_b {
                                let w = choose|w: int| 0 <= w < s.len() && s[w]->BoolLit_b;
                                assert(s.drop_last()[w]->BoolLit_b);
                            }
                        }
                    }
                }
            },
            _ => {
                proof {
                    assert(!(vs[j as int] is BoolLit));
                    assert(!all_bools(vs));
                }
                return None;
            },
        }
        j += 1;
    }
    proof {
        assert(vs.take(vals@.len() as int) =~= vs);
    }
    Some(acc)
}

/// The bit-vector numeral that an integer numeral reduces to at a width.
fn int_to_bv_value(v: &Term, width: u32) -> (r: Option<Term>)
    requires
        1 <= width <= 64,
    ensures
        opt_view(r) == (match v.view() {
            TermV::Numeral { value, sort } => if sort == SortV::IntSort {
                Some(
                    TermV::Numeral {
                        value: value % (pow2(width as nat) as int),
                        sort: SortV::BitVecSort { width },
                    },
                )
            } else {
                None
            },
            _ => None,
        }),
{
    match v {
        Term::Numeral { neg, mag, sort } => {
            if sort.is_int_sort() {
                let u = mod_pow2(*neg, *mag, width);
                Some(Term::Numeral { neg: false, mag: u, sort: SortData::BitVecSort { width } })
            } else {
                None
            }
        },
        _ => None,
    }
}

/// What a tester declaration returns on an evaluated argument.
fn apply_tester(v: &Term, dt: &String, idx: usize) -> (r: Option<Term>)
    ensures
        opt_view(r) == (match v.view() {
            TermV::FuncApp { decl: d2, args: vs } => match d2.kind {
                DeclKindV::Ctor { dt: dt2, idx: idx2 } => if dt2 == dt@ {
                    Some(TermV::BoolLit { b: idx2 == idx as nat })
                } else {
                    None
                },
                _ => None,
            },
            _ => None,
        }),
{
    match v {
        Term::FuncApp { decl: d2, args: _vs } => match &d2.kind {
            DeclKind::Ctor { dt: dt2, idx: idx2 } => {
                if dt2.eq(dt) {
                    Some(Term::BoolLit { b: *idx2 == idx })
                } else {
                    None
                }
            },
            _ => None,
        },
        _ => None,
    }
}

/// What an accessor declaration returns on an evaluated argument.
fn apply_accessor(v: &Term, dt: &String, idx: usize, field: usize) -> (r: Option<Term>)
    ensures
        opt_view(r) == (match v.view() {
            TermV::FuncApp { decl: d2, args: vs } => match d2.kind {
                DeclKindV::Ctor { dt: dt2, idx: idx2 } => if dt2 == dt@ && idx2 == idx as nat
                    && (field as nat) < vs.len() {
                    Some(vs[field as int])
                } else {
                    None
                },
                _ => None,
            },
            _ => None,
        }),
{
    match v {
        Term::FuncApp { decl: d2, args: vs } => match &d2.kind {
            DeclKind::Ctor { dt: dt2, idx: idx2 } => {
                if dt2.eq(dt) && *idx2 == idx && field < vs.len() {
                    let out = vs[field].duplicate();
                    proof {
                        assert(v.view() is FuncApp);
                        assert(v.view()->FuncApp_decl == d2.view());
                        assert(v.view()->FuncApp_args == view_terms(vs@));
                        assert(d2.view().kind == (DeclKindV::Ctor { dt: dt2@, idx: *idx2 as nat }));
                        assert(view_terms(vs@)[field as int] == vs@[field as int].view());
                        assert(out.view() == vs@[field as int].view());
                    }
                    Some(out)
                } else {
                    None
                }
            },
            _ => None,
        },
        _ => None,
    }
}

/// Evaluates a term under an environment; `None` where the ground rules do
/// not decide it.
pub fn eval_term(t: &Term, env: &Vec<(Term, Term)>) -> (r: Option<Term>)
    ensures
        opt_view(r) == spec_eval(t.view(), env_view(env@)),
    decreases *t,
{
    let ghost ev = env_view(env@);
    match t {
        Term::BoolLit { .. } => Some(t.duplicate()),
        Term::Numeral { .. } => Some(t.duplicate()),
        Term::Rational { .. } => Some(t.duplicate()),
        Term::Constant { .. } => lookup_env(env, t),
        Term::App { op, args } => {
            proof {
                assert(t.view() == (TermV::App { op: *op, args: view_terms(args@) }));
            }
            match op {
                Op::NotOp => {
                    if args.len() == 1 {
                        match eval_term(&args[0], env) {
                            Some(v) => match v {
                                Term::BoolLit { b } => Some(Term::BoolLit { b: !b }),
                                _ => None,
                            },
                            None => None,
                        }
                    } else {
                        None
                    }
                },
                Op::AndOp => {
                    match eval_args_exec(args, env) {
                        Some(vals) => match bool_fold(&vals, true) {
                            Some(b) => Some(Term::BoolLit { b }),
                            None => None,
                        },
                        None => None,
                    }
                },
                Op::OrOp => {
                    match eval_args_exec(args, env) {
                        Some(vals) => match bool_fold(&vals, false) {
                            Some(b) => Some(Term::BoolLit { b }),
                            None => None,
                        },
                        None => None,
                    }
                },
                Op::EqOp => {
                    if args.len() == 2 {
                        match eval_term(&args[0], env) {
                            Some(v0) => match eval_term(&args[1], env) {
                                Some(v1) => Some(Term::BoolLit { b: v0.term_eq(&v1) }),
                                None => None,
                            },
                            None => None,
                        }
                    } else {
                        None
                    }
                },
                Op::Int2Bv { width } => {
                    if args.len() == 1 && 1 <= *width && *width <= 64 {
                        match eval_term(&args[0], env) {
                            Some(v) => int_to_bv_value(&v, *width),
                            None => None,
                        }
                    } else {
                        None
                    }
                },
                Op::Bv2Int { signed } => {
                    if args.len() == 1 {
                        match eval_term(&args[0], env) {
                            Some(v) => bv_to_int_value(&v, *signed),
                            None => None,
                        }
                    } else {
                        None
                    }
                },
                Op::BvAdd | Op::BvSub | Op::BvMul | Op::BvUlt | Op::BvUle | Op::BvUgt
                    | Op::BvUge | Op::BvSlt | Op::BvSle | Op::BvSgt | Op::BvSge => {
                    if args.len() == 2 {
                        match eval_term(&args[0], env) {
                            Some(v0) => match eval_term(&args[1], env) {
                                Some(v1) => bv_bin_exec(*op, &v0, &v1),
                                None => None,
                            },
                            None => None,
                        }
                    } else {
                        None
                    }
                },
                Op::BvNeg => {
                    if args.len() == 1 {
                        match eval_term(&args[0], env) {
                            Some(v) => bv_neg_exec(&v),
                            None => None,
                        }
                    } else {
                        None
                    }
                },
                _ => None,
            }
        },
        Term::PbApp { kind, coeffs, k, args } => {
            proof {
                assert(t.view() == (TermV::PbApp {
                    kind: *kind,
                    coeffs: coeffs_view(coeffs@),
                    k: *k as int,
                    args: view_terms(args@),
                })) by {
                    assert(t.view()->PbApp_coeffs =~= coeffs_view(coeffs@));
                }
            }
            match eval_args_exec(args, env) {
                Some(vals) => {
                    if coeffs.len() == vals.len() {
                        match pb_fold(*kind, coeffs, *k, &vals) {
                            Some(b) => Some(Term::BoolLit { b }),
                            None => None,
                        }
                    } else {
                        None
                    }
                },
                None => None,
            }
        },
        Term::Quant { .. } => None,
        Term::FuncApp { decl, args } => {
            proof {
                assert(t.view() == (TermV::FuncApp { decl: decl.view(), args: view_terms(args@) }));
            }
            match &decl.kind {
                DeclKind::Ctor { .. } => {
                    match eval_args_exec(args, env) {
                        Some(vs) => Some(Term::FuncApp { decl: decl.duplicate(), args: vs }),
                        None => None,
                    }
                },
                DeclKind::Tester { dt, idx, .. } => {
                    if args.len() == 1 {
                        match eval_term(&args[0], env) {
                            Some(v) => apply_tester(&v, dt, *idx),
                            None => None,
                        }
                    } else {
                        None
                    }
                },
                DeclKind::Accessor { dt, idx, field } => {
                    if args.len() == 1 {
                        match eval_term(&args[0], env) {
                            Some(v) => apply_accessor(&v, dt, *idx, *field),
                            None => None,
                        }
                    } else {
                        None
                    }
                },
                DeclKind::Uninterp => None,
            }
        },
    }
}

/// The integer value of an evaluated bit-vector numeral, under the requested
/// signedness.
fn bv_to_int_value(v: &Term, signed: bool) -> (r: Option<Term>)
    ensures
        opt_view(r) == (match v.view() {
            TermV::Numeral { value, sort } => match sort {
                SortV::BitVecSort { width } => if 1 <= width <= 64 && 0 <= value < pow2(
                    width as nat,
                ) {
                    Some(
                        TermV::Numeral {
                            value: if signed && value >= pow2((width - 1) as nat) {
                                value - pow2(width as nat)
                            } else {
                                value
                            },
                            sort: SortV::IntSort,
                        },
                    )
                } else {
                    None
                },
                _ => None,
            },
            _ => None,
        }),
{
    match v {
        Term::Numeral { neg, mag, sort } => match sort {
            SortData::BitVecSort { width } => {
                if 1 <= *width && *width <= 64 && (!*neg || *mag == 0) {
                    proof {
                        lemma2_to64();
                        lemma2_to64_rest();
                    }
                    let in_range: bool = if *width == 64 {
                        true
                    } else {
                        let p = shift_pow2(*width);
                        *mag < p
                    };
                    if !in_range {
                        return None;
                    }
                    let half: u64 = if *width == 64 {
                        0x8000_0000_0000_0000
                    } else if *width == 1 {
                        1
                    } else {
                        shift_pow2(*width - 1)
                    };
                    proof {
                        assert(half == pow2((*width - 1) as nat));
                    }
                    if signed && *mag >= half {
                        // value - 2^w is negative: represent as a negative
                        // numeral with magnitude 2^w - value.
                        let res_mag: u64 = if *width == 64 {
                            0u64.wrapping_sub(*mag)
                        } else {
                            let p = shift_pow2(*width);
                            p - *mag
                        };
                        proof {
                            assert(num_value(true, res_mag) == num_value(*neg, *mag) - pow2(
                                *width as nat,
                            ));
                        }
                        Some(Term::Numeral { neg: true, mag: res_mag, sort: SortData::IntSort })
                    } else {
                        Some(Term::Numeral { neg: false, mag: *mag, sort: SortData::IntSort })
                    }
                } else {
                    None
                }
            },
            _ => None,
        },
        _ => None,
    }
}

} // verus!
