use vstd::prelude::*;
use vstd::arithmetic::power2::{pow2, lemma_pow2_pos};
use vstd::arithmetic::div_mod::{
    lemma_fundamental_div_mod,
    lemma_fundamental_div_mod_converse,
    lemma_mod_division_less_than_divisor,
};
use crate::ast::{as_i64_spec, hash_of};
use crate::decl::DeclV;
use crate::eval::{spec_eval, eval_args, lookup};
use crate::render::text_of;
use crate::text::{dec_chars, lemma_dec_chars_injective};
use crate::sort::{SortV, enum_const_decl, enum_tester_decl};
use crate::sym::SymV;
use crate::solver::{solve, solve_from, try_bind};
use crate::term::{Op, TermV};
use crate::datatype_builder::{StagedV, dt_ctor_decl, dt_accessor_decl};

verus! {

// ---------------------------------------------------------------------------
// Laws of the library, stated over the spec-level model that the public
// contracts speak of.
// ---------------------------------------------------------------------------

/// Terms are structurally equal exactly when their canonical texts are
/// identical, and equal terms hash identically.
pub proof fn lemma_eq_iff_text(a: TermV, b: TermV)
    ensures
        (a == b) <==> (text_of(a) == text_of(b)),
        a == b ==> hash_of(a) == hash_of(b),
{
    if text_of(a) == text_of(b) {
        crate::render::lemma_text_of_injective(a, b);
    }
}

/// A term translated into another context is structurally unchanged, so its
/// canonical text in the destination context is identical to the source's;
/// `Ast::translate` ensures exactly that structural identity.
pub proof fn lemma_translate_preserves_text(a: TermV, translated: TermV)
    requires
        translated == a,
    ensures
        text_of(translated) == text_of(a),
{
}

/// Round trip of signed 64-bit numerals: the term `from_i64` builds reads
/// back as `Some(i)` through `as_i64`.
pub proof fn lemma_i64_round_trip(i: i64)
    ensures
        as_i64_spec(TermV::Numeral { value: i as int, sort: SortV::IntSort }) == Some(i),
{
}

/// The integer a width-`n` bit-vector round trip produces: the unsigned
/// reduction of `i` modulo `2^n`, re-centered into `[-2^(n-1), 2^(n-1))`
/// when read back signed.
pub open spec fn bv_round(i: int, n: u32, signed: bool) -> int {
    let u = i % (pow2(n as nat) as int);
    if signed && u >= pow2((n - 1) as nat) {
        u - pow2(n as nat)
    } else {
        u
    }
}

/// Bit-vector round trip: evaluating `bv2int(int2bv(i, n), signed)` yields
/// the reduction of `i` modulo `2^n` under the requested signedness: a value
/// congruent to `i` modulo `2^n`, in `[0, 2^n)` unsigned and in
/// `[-2^(n-1), 2^(n-1))` signed.
pub proof fn lemma_bv_round_trip(i: int, n: u32, signed: bool, env: Seq<(TermV, TermV)>)
    requires
        1 <= n <= 64,
    ensures
        spec_eval(
            TermV::App {
                op: Op::Bv2Int { signed },
                args: seq![
                    TermV::App {
                        op: Op::Int2Bv { width: n },
                        args: seq![TermV::Numeral { value: i, sort: SortV::IntSort }],
                    },
                ],
            },
            env,
        ) == Some(TermV::Numeral { value: bv_round(i, n, signed), sort: SortV::IntSort }),
        (bv_round(i, n, signed) - i) % (pow2(n as nat) as int) == 0,
        !signed ==> 0 <= bv_round(i, n, signed) < pow2(n as nat),
        signed ==> -(pow2((n - 1) as nat) as int) <= bv_round(i, n, signed) < pow2(
            (n - 1) as nat,
        ),
{
    let p = pow2(n as nat) as int;
    lemma_pow2_pos(n as nat);
    lemma_pow2_pos((n - 1) as nat);
    let u = i % p;
    lemma_mod_division_less_than_divisor(i, p);
    let inner = TermV::App {
        op: Op::Int2Bv { width: n },
        args: seq![TermV::Numeral { value: i, sort: SortV::IntSort }],
    };
    let arg = TermV::Numeral { value: i, sort: SortV::IntSort };
    assert(inner->App_args.len() == 1 && inner->App_args[0] == arg);
    assert(spec_eval(arg, env) == Some(arg));
    assert(spec_eval(inner, env) == Some(
        TermV::Numeral { value: u, sort: SortV::BitVecSort { width: n } },
    ));
    let outer_args = seq![inner];
    assert(outer_args.len() == 1 && outer_args[0] == inner);
    // congruence of u with i
    lemma_fundamental_div_mod(i, p);
    let q = i / p;
    assert((u - i) % p == 0) by {
        assert(u - i == (-q) * p + 0) by (nonlinear_arith)
            requires
                i == p * q + u,
        ;
        lemma_fundamental_div_mod_converse(u - i, p, -q, 0);
    }
    if signed && u >= pow2((n - 1) as nat) {
        // subtracting 2^n keeps the congruence
        assert((u - p - i) % p == 0) by {
            assert(u - p - i == (-q - 1) * p + 0) by (nonlinear_arith)
                requires
                    i == p * q + u,
            ;
            lemma_fundamental_div_mod_converse(u - p - i, p, -q - 1, 0);
        }
        // the two half ranges agree: 2^(n-1) + 2^(n-1) == 2^n
        assert(pow2((n - 1) as nat) + pow2((n - 1) as nat) == pow2(n as nat)) by {
            vstd::arithmetic::power2::lemma_pow2_unfold(n as nat);
        }
    } else {
        if signed {
            assert(pow2((n - 1) as nat) + pow2((n - 1) as nat) == pow2(n as nat)) by {
                vstd::arithmetic::power2::lemma_pow2_unfold(n as nat);
            }
        }
    }
}

/// Enumeration round trip: a variant's tester applied to a variant's
/// constant evaluates to true exactly when the two variants are the same.
pub proof fn lemma_enum_round_trip(
    dt: Seq<char>,
    vj: SymV,
    vk: SymV,
    j: nat,
    k: nat,
    env: Seq<(TermV, TermV)>,
)
    ensures
        spec_eval(
            TermV::FuncApp {
                decl: enum_tester_decl(dt, vj, j),
                args: seq![
                    TermV::FuncApp { decl: enum_const_decl(dt, vk, k), args: Seq::empty() },
                ],
            },
            env,
        ) == Some(TermV::BoolLit { b: j == k }),
{
    let ctor_app = TermV::FuncApp { decl: enum_const_decl(dt, vk, k), args: Seq::empty() };
    assert(eval_args(Seq::empty(), env) == Some(Seq::<TermV>::empty()));
    assert(spec_eval(ctor_app, env) == Some(ctor_app)) by {
        assert(TermV::FuncApp { decl: enum_const_decl(dt, vk, k), args: Seq::<TermV>::empty() }
            == ctor_app);
    }
}

/// Datatype round trip: applying variant `k`'s field-`f` accessor to the
/// variant's constructor applied to argument values yields the `f`-th value,
/// for any argument values that evaluate to themselves.
pub proof fn lemma_datatype_round_trip(
    dt: Seq<char>,
    v: StagedV,
    k: nat,
    f: int,
    vals: Seq<TermV>,
    env: Seq<(TermV, TermV)>,
)
    requires
        0 <= f < vals.len(),
        eval_args(vals, env) == Some(vals),
    ensures
        spec_eval(
            TermV::FuncApp {
                decl: dt_accessor_decl(dt, v, k, f),
                args: seq![TermV::FuncApp { decl: dt_ctor_decl(dt, v, k), args: vals }],
            },
            env,
        ) == Some(vals[f]),
{
    let ctor_app = TermV::FuncApp { decl: dt_ctor_decl(dt, v, k), args: vals };
    assert(spec_eval(ctor_app, env) == Some(ctor_app));
}

/// The names of fresh constants are distinct: the same prefix with two
/// different fresh counters renders to two different names.
pub proof fn lemma_fresh_names_distinct(prefix: Seq<char>, n1: nat, n2: nat)
    requires
        n1 != n2,
    ensures
        prefix + "!"@ + dec_chars(n1) != prefix + "!"@ + dec_chars(n2),
{
    lemma_dec_chars_injective(n1, n2);
    let s1 = prefix + "!"@ + dec_chars(n1);
    let s2 = prefix + "!"@ + dec_chars(n2);
    if s1 == s2 {
        reveal_strlit("!");
        let h = prefix.len() + "!"@.len();
        assert(s1.skip(h as int) =~= dec_chars(n1));
        assert(s2.skip(h as int) =~= dec_chars(n2));
        assert(false);
    }
}

/// Fresh constants are pairwise distinct terms, whatever their sorts: their
/// names carry different fresh counters.
pub proof fn lemma_fresh_consts_distinct(
    prefix: Seq<char>,
    n1: nat,
    n2: nat,
    s1: SortV,
    s2: SortV,
)
    requires
        n1 != n2,
    ensures
        (TermV::Constant { name: SymV::Name { s: prefix + "!"@ + dec_chars(n1) }, sort: s1 })
            != (TermV::Constant {
            name: SymV::Name { s: prefix + "!"@ + dec_chars(n2) },
            sort: s2,
        }),
{
    lemma_fresh_names_distinct(prefix, n1, n2);
}

/// Asserting that a constant equals a term that evaluates to a value is
/// satisfiable, and the model binds the constant to that value.  With the
/// constructor applications of a datatype this is how the round-trip models
/// are built.
pub proof fn lemma_bind_constant(c: TermV, v: TermV)
    requires
        c is Constant,
        spec_eval(v, Seq::empty()) == Some(v),
    ensures
        solve(seq![TermV::App { op: Op::EqOp, args: seq![c, v] }]) == Some(seq![(c, v)]),
{
    let e = TermV::App { op: Op::EqOp, args: seq![c, v] };
    let empty_env = Seq::<(TermV, TermV)>::empty();
    assert(lookup(empty_env, c) is None);
    assert(spec_eval(e, empty_env) is None);
    assert(try_bind(e, empty_env) == Some((c, v)));
    let env1 = empty_env.push((c, v));
    assert(seq![e][0] == e);
    assert(solve_from(seq![e], 1, env1) == Some(env1));
    assert(env1 =~= seq![(c, v)]);
}

/// Stack discipline of conflicting bindings: asserting that a constant
/// equals one ground numeral is satisfiable, with the constant bound to it;
/// also asserting that it equals a different numeral is not.  This is the
/// state `push`/`pop` moves between when the second assertion sits above a
/// checkpoint.
pub proof fn lemma_conflicting_assertions(c: TermV, v1: TermV, v2: TermV)
    requires
        c is Constant,
        v1 is Numeral,
        v2 is Numeral,
        v1 != v2,
    ensures
        solve(seq![TermV::App { op: Op::EqOp, args: seq![c, v1] }]) == Some(seq![(c, v1)]),
        solve(
            seq![
                TermV::App { op: Op::EqOp, args: seq![c, v1] },
                TermV::App { op: Op::EqOp, args: seq![c, v2] },
            ],
        ) is None,
{
    let e1 = TermV::App { op: Op::EqOp, args: seq![c, v1] };
    let e2 = TermV::App { op: Op::EqOp, args: seq![c, v2] };
    let empty_env = Seq::<(TermV, TermV)>::empty();
    // under the empty environment the constant is unbound, so the first
    // equality does not evaluate but binds
    assert(lookup(empty_env, c) is None);
    assert(spec_eval(e1, empty_env) is None);
    assert(try_bind(e1, empty_env) == Some((c, v1)));
    let env1 = empty_env.push((c, v1));
    // one assertion: the binding is the model
    assert(solve(seq![e1]) == Some(env1)) by {
        assert(seq![e1][0] == e1);
        assert(solve_from(seq![e1], 1, env1) == Some(env1));
    }
    assert(env1 =~= seq![(c, v1)]);
    // two assertions: the second now evaluates to a false equality
    let both = seq![e1, e2];
    assert(both[0] == e1 && both[1] == e2);
    assert(lookup(env1, c) == Some(v1)) by {
        assert(env1[0] == (c, v1));
    }
    assert(spec_eval(e2, env1) == Some(TermV::BoolLit { b: false })) by {
        assert(spec_eval(c, env1) == Some(v1));
        assert(spec_eval(v2, env1) == Some(v2));
    }
    assert(solve_from(both, 1, env1) is None);
}

} // verus!
