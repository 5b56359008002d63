use vstd::prelude::*;
use crate::sym::{SymData, SymV};
use crate::sort::{SortData, SortV};
use crate::decl::{DeclData, DeclKind, DeclKindV, DeclV};
use crate::term::{Op, PbKind, Term, TermV, view_terms};
use crate::text::{dec_chars, dec_digit};

verus! {

// ---------------------------------------------------------------------------
// The canonical textual form of terms.  The form is a sequential code that
// determines the term exactly: every node writes a tag and its components,
// every number is written in decimal and ended by a semicolon, and a name is
// written as its length followed by its character codes.  Structural
// equality of terms coincides with equality of their canonical texts, and
// the injectivity proofs below establish it.
// ---------------------------------------------------------------------------

/// One number of the canonical form: its decimal digits and a terminator.
pub open spec fn tok(n: nat) -> Seq<char> {
    dec_chars(n).push(';')
}

/// Signed values are folded into naturals, negatives onto the odd numbers.
pub open spec fn zig(z: int) -> nat {
    if z >= 0 {
        (2 * z) as nat
    } else {
        (-2 * z - 1) as nat
    }
}

pub open spec fn pb_code(kind: PbKind) -> nat {
    match kind {
        PbKind::AtMost => 0,
        PbKind::AtLeast => 1,
        PbKind::Exactly => 2,
    }
}

// ---------------------------------------------------------------------------
// The encoding, one spec function per syntactic class.
// ---------------------------------------------------------------------------

/// The characters of a name, one code token each.
pub open spec fn chars_code(s: Seq<char>) -> Seq<char>
    decreases s.len(),
{
    if s.len() == 0 {
        Seq::empty()
    } else {
        tok((s[0] as u32) as nat) + chars_code(s.drop_first())
    }
}

/// A name: its length, then its character codes.
pub open spec fn str_code(s: Seq<char>) -> Seq<char> {
    tok(s.len()) + chars_code(s)
}

pub open spec fn sym_code(s: SymV) -> Seq<char> {
    match s {
        SymV::Num { i } => tok(0) + tok(i as nat),
        SymV::Name { s } => tok(1) + str_code(s),
    }
}

/// The canonical text of a sort.
pub open spec fn sort_text(s: SortV) -> Seq<char>
    decreases s,
{
    match s {
        SortV::BoolSort => tok(0),
        SortV::IntSort => tok(1),
        SortV::RealSort => tok(2),
        SortV::BitVecSort { width } => tok(3) + tok(width as nat),
        SortV::ArraySort { domain, range } => tok(4) + sort_text(*domain) + sort_text(*range),
        SortV::SetSort { elem } => tok(5) + sort_text(*elem),
        SortV::UninterpSort { name } => tok(6) + sym_code(name),
        SortV::DatatypeSort { name } => tok(7) + str_code(name),
    }
}

pub open spec fn sorts_code(ss: Seq<SortV>) -> Seq<char>
    decreases ss.len(),
{
    if ss.len() == 0 {
        Seq::empty()
    } else {
        sort_text(ss[0]) + sorts_code(ss.drop_first())
    }
}

pub open spec fn kind_code(k: DeclKindV) -> Seq<char> {
    match k {
        DeclKindV::Uninterp => tok(0),
        DeclKindV::Ctor { dt, idx } => tok(1) + str_code(dt) + tok(idx),
        DeclKindV::Tester { dt, idx, ctor_name, ctor_arity } => tok(2) + str_code(dt) + tok(idx)
            + sym_code(ctor_name) + tok(ctor_arity),
        DeclKindV::Accessor { dt, idx, field } => tok(3) + str_code(dt) + tok(idx) + tok(field),
    }
}

pub open spec fn decl_code(d: DeclV) -> Seq<char> {
    sym_code(d.name) + tok(d.domain.len()) + sorts_code(d.domain) + sort_text(d.range)
        + kind_code(d.kind)
}

pub open spec fn coeffs_code(cs: Seq<int>) -> Seq<char>
    decreases cs.len(),
{
    if cs.len() == 0 {
        Seq::empty()
    } else {
        tok(zig(cs[0])) + coeffs_code(cs.drop_first())
    }
}

/// The canonical text of a term.
pub open spec fn text_of(t: TermV) -> Seq<char>
    decreases t,
{
    match t {
        TermV::BoolLit { b } => tok(0) + tok(if b { 1nat } else { 0nat }),
        TermV::Numeral { value, sort } => tok(1) + tok(zig(value)) + sort_text(sort),
        TermV::Rational { num, den } => tok(2) + tok(zig(num)) + tok(zig(den)),
        TermV::Constant { name, sort } => tok(3) + sym_code(name) + sort_text(sort),
        TermV::App { op, args } => tok(4) + tok(op_code(op)) + tok(op_p1(op)) + tok(op_p2(op))
            + tok(args.len()) + texts_code(args),
        TermV::PbApp { kind, coeffs, k, args } => tok(5) + tok(pb_code(kind)) + tok(zig(k)) + tok(
            coeffs.len(),
        ) + coeffs_code(coeffs) + tok(args.len()) + texts_code(args),
        TermV::FuncApp { decl, args } => tok(6) + decl_code(decl) + tok(args.len()) + texts_code(
            args,
        ),
        TermV::Quant { is_forall, weight, bounds, patterns, body } => tok(7) + tok(
            if is_forall { 1nat } else { 0nat },
        ) + tok(weight as nat) + tok(bounds.len()) + texts_code(bounds) + tok(patterns.len())
            + pats_code(patterns) + text_of(*body),
    }
}

pub open spec fn texts_code(ts: Seq<TermV>) -> Seq<char>
    decreases ts,
{
    if ts.len() == 0 {
        Seq::empty()
    } else {
        text_of(ts[0]) + texts_code(ts.drop_first())
    }
}

pub open spec fn pats_code(ps: Seq<Seq<TermV>>) -> Seq<char>
    decreases ps,
{
    if ps.len() == 0 {
        Seq::empty()
    } else {
        tok(ps[0].len()) + texts_code(ps[0]) + pats_code(ps.drop_first())
    }
}

// ---------------------------------------------------------------------------
// Operator codes: every operator tag maps to a distinct code, with up to two
// numeric parameters; the triple determines the operator.
// ---------------------------------------------------------------------------

pub open spec fn op_code(op: Op) -> nat {
    match op {
        Op::Distinct => 0,
        Op::Ite => 1,
        Op::Iff => 2,
        Op::Implies => 3,
        Op::Xor => 4,
        Op::AndOp => 5,
        Op::OrOp => 6,
        Op::NotOp => 7,
        Op::AddOp => 8,
        Op::SubOp => 9,
        Op::MulOp => 10,
        Op::DivOp => 11,
        Op::RemOp => 12,
        Op::Modulo => 13,
        Op::Power => 14,
        Op::Minus => 15,
        Op::Lt => 16,
        Op::Le => 17,
        Op::EqOp => 18,
        Op::Ge => 19,
        Op::Gt => 20,
        Op::Int2Real => 21,
        Op::Real2Int => 22,
        Op::IsInt => 23,
        Op::BvNot => 24,
        Op::BvNeg => 25,
        Op::BvRedand => 26,
        Op::BvRedor => 27,
        Op::BvAnd => 28,
        Op::BvOr => 29,
        Op::BvXor => 30,
        Op::BvNand => 31,
        Op::BvNor => 32,
        Op::BvXnor => 33,
        Op::BvAdd => 34,
        Op::BvSub => 35,
        Op::BvMul => 36,
        Op::BvUdiv => 37,
        Op::BvSdiv => 38,
        Op::BvUrem => 39,
        Op::BvSrem => 40,
        Op::BvSmod => 41,
        Op::BvUlt => 42,
        Op::BvSlt => 43,
        Op::BvUle => 44,
        Op::BvSle => 45,
        Op::BvUge => 46,
        Op::BvSge => 47,
        Op::BvUgt => 48,
        Op::BvSgt => 49,
        Op::Concat => 50,
        Op::BvShl => 51,
        Op::BvLshr => 52,
        Op::BvAshr => 53,
        Op::BvRotl => 54,
        Op::BvRotr => 55,
        Op::Int2Bv { .. } => 56,
        Op::Bv2Int { .. } => 57,
        Op::Extract { .. } => 58,
        Op::Repeat { .. } => 59,
        Op::SignExt { .. } => 60,
        Op::ZeroExt { .. } => 61,
        Op::BvAddNoOverflow { .. } => 62,
        Op::BvSubNoUnderflow { .. } => 63,
        Op::BvMulNoOverflow { .. } => 64,
        Op::BvAddNoUnderflow => 65,
        Op::BvSubNoOverflow => 66,
        Op::BvSdivNoOverflow => 67,
        Op::BvNegNoOverflow => 68,
        Op::BvMulNoUnderflow => 69,
        Op::Select => 70,
        Op::Store => 71,
        Op::SetAdd => 72,
        Op::SetDel => 73,
        Op::SetUnion => 74,
        Op::SetIntersect => 75,
        Op::SetMember => 76,
        Op::SetSubset => 77,
        Op::SetComplement => 78,
    }
}

pub open spec fn op_p1(op: Op) -> nat {
    match op {
        Op::Int2Bv { width } => width as nat,
        Op::Bv2Int { signed } => if signed { 1nat } else { 0nat },
        Op::Extract { high, low } => high as nat,
        Op::Repeat { count } => count as nat,
        Op::SignExt { extra } => extra as nat,
        Op::ZeroExt { extra } => extra as nat,
        Op::BvAddNoOverflow { signed } => if signed { 1nat } else { 0nat },
        Op::BvSubNoUnderflow { signed } => if signed { 1nat } else { 0nat },
        Op::BvMulNoOverflow { signed } => if signed { 1nat } else { 0nat },
        _ => 0nat,
    }
}

pub open spec fn op_p2(op: Op) -> nat {
    match op {
        Op::Int2Bv { width } => 0,
        Op::Bv2Int { signed } => 0,
        Op::Extract { high, low } => low as nat,
        Op::Repeat { count } => 0,
        Op::SignExt { extra } => 0,
        Op::ZeroExt { extra } => 0,
        Op::BvAddNoOverflow { signed } => 0,
        Op::BvSubNoUnderflow { signed } => 0,
        Op::BvMulNoOverflow { signed } => 0,
        _ => 0nat,
    }
}

/// The code triple determines the operator.
#[verifier::rlimit(100)]
pub proof fn lemma_op_inj(o1: Op, o2: Op)
    requires
        op_code(o1) == op_code(o2),
        op_p1(o1) == op_p1(o2),
        op_p2(o1) == op_p2(o2),
    ensures
        o1 == o2,
{
}

fn op_codes_exec(op: &Op) -> (r: (u64, u64, u64))
    ensures
        r.0 as nat == op_code(*op),
        r.1 as nat == op_p1(*op),
        r.2 as nat == op_p2(*op),
{
    match op {
        Op::Distinct => (0, 0, 0),
        Op::Ite => (1, 0, 0),
        Op::Iff => (2, 0, 0),
        Op::Implies => (3, 0, 0),
        Op::Xor => (4, 0, 0),
        Op::AndOp => (5, 0, 0),
        Op::OrOp => (6, 0, 0),
        Op::NotOp => (7, 0, 0),
        Op::AddOp => (8, 0, 0),
        Op::SubOp => (9, 0, 0),
        Op::MulOp => (10, 0, 0),
        Op::DivOp => (11, 0, 0),
        Op::RemOp => (12, 0, 0),
        Op::Modulo => (13, 0, 0),
        Op::Power => (14, 0, 0),
        Op::Minus => (15, 0, 0),
        Op::Lt => (16, 0, 0),
        Op::Le => (17, 0, 0),
        Op::EqOp => (18, 0, 0),
        Op::Ge => (19, 0, 0),
        Op::Gt => (20, 0, 0),
        Op::Int2Real => (21, 0, 0),
        Op::Real2Int => (22, 0, 0),
        Op::IsInt => (23, 0, 0),
        Op::BvNot => (24, 0, 0),
        Op::BvNeg => (25, 0, 0),
        Op::BvRedand => (26, 0, 0),
        Op::BvRedor => (27, 0, 0),
        Op::BvAnd => (28, 0, 0),
        Op::BvOr => (29, 0, 0),
        Op::BvXor => (30, 0, 0),
        Op::BvNand => (31, 0, 0),
        Op::BvNor => (32, 0, 0),
        Op::BvXnor => (33, 0, 0),
        Op::BvAdd => (34, 0, 0),
        Op::BvSub => (35, 0, 0),
        Op::BvMul => (36, 0, 0),
        Op::BvUdiv => (37, 0, 0),
        Op::BvSdiv => (38, 0, 0),
        Op::BvUrem => (39, 0, 0),
        Op::BvSrem => (40, 0, 0),
        Op::BvSmod => (41, 0, 0),
        Op::BvUlt => (42, 0, 0),
        Op::BvSlt => (43, 0, 0),
        Op::BvUle => (44, 0, 0),
        Op::BvSle => (45, 0, 0),
        Op::BvUge => (46, 0, 0),
        Op::BvSge => (47, 0, 0),
        Op::BvUgt => (48, 0, 0),
        Op::BvSgt => (49, 0, 0),
        Op::Concat => (50, 0, 0),
        Op::BvShl => (51, 0, 0),
        Op::BvLshr => (52, 0, 0),
        Op::BvAshr => (53, 0, 0),
        Op::BvRotl => (54, 0, 0),
        Op::BvRotr => (55, 0, 0),
        Op::Int2Bv { width } => (56, *width as u64, 0),
        Op::Bv2Int { signed } => (57, if *signed { 1 } else { 0 }, 0),
        Op::Extract { high, low } => (58, *high as u64, *low as u64),
        Op::Repeat { count } => (59, *count as u64, 0),
        Op::SignExt { extra } => (60, *extra as u64, 0),
        Op::ZeroExt { extra } => (61, *extra as u64, 0),
        Op::BvAddNoOverflow { signed } => (62, if *signed { 1 } else { 0 }, 0),
        Op::BvSubNoUnderflow { signed } => (63, if *signed { 1 } else { 0 }, 0),
        Op::BvMulNoOverflow { signed } => (64, if *signed { 1 } else { 0 }, 0),
        Op::BvAddNoUnderflow => (65, 0, 0),
        Op::BvSubNoOverflow => (66, 0, 0),
        Op::BvSdivNoOverflow => (67, 0, 0),
        Op::BvNegNoOverflow => (68, 0, 0),
        Op::BvMulNoUnderflow => (69, 0, 0),
        Op::Select => (70, 0, 0),
        Op::Store => (71, 0, 0),
        Op::SetAdd => (72, 0, 0),
        Op::SetDel => (73, 0, 0),
        Op::SetUnion => (74, 0, 0),
        Op::SetIntersect => (75, 0, 0),
        Op::SetMember => (76, 0, 0),
        Op::SetSubset => (77, 0, 0),
        Op::SetComplement => (78, 0, 0),
    }
}

// ---------------------------------------------------------------------------
// Stepping lemmas: extending a prefix of a list extends its code at the end.
// ---------------------------------------------------------------------------

pub proof fn lemma_chars_snoc(s: Seq<char>, i: int)
    requires
        0 <= i < s.len(),
    ensures
        chars_code(s.take(i + 1)) == chars_code(s.take(i)) + tok((s[i] as u32) as nat),
    decreases i,
{
    if i == 0 {
        assert(s.take(1).len() == 1 && s.take(1)[0] == s[0]);
        assert(s.take(1).drop_first() =~= Seq::<char>::empty());
        assert(chars_code(s.take(1)) == tok((s[0] as u32) as nat) + chars_code(s.take(1).drop_first()));
        assert(chars_code(s.take(0)).len() == 0);
        assert(chars_code(s.take(1)) =~= chars_code(s.take(0)) + tok((s[0] as u32) as nat));
    } else {
        let d = s.drop_first();
        assert(s.take(i + 1).len() == i + 1 && s.take(i + 1)[0] == s[0]);
        assert(s.take(i).len() == i && s.take(i)[0] == s[0]);
        assert(s.take(i + 1).drop_first() =~= d.take(i));
        assert(s.take(i).drop_first() =~= d.take(i - 1));
        lemma_chars_snoc(d, i - 1);
        assert(d[i - 1] == s[i]);
        assert(chars_code(s.take(i + 1)) == tok((s[0] as u32) as nat) + chars_code(d.take(i)));
        assert(chars_code(s.take(i)) == tok((s[0] as u32) as nat) + chars_code(d.take(i - 1)));
        assert(chars_code(s.take(i + 1)) =~= chars_code(s.take(i)) + tok((s[i] as u32) as nat));
    }
}

pub proof fn lemma_sorts_snoc(s: Seq<SortV>, i: int)
    requires
        0 <= i < s.len(),
    ensures
        sorts_code(s.take(i + 1)) == sorts_code(s.take(i)) + sort_text(s[i]),
    decreases i,
{
    if i == 0 {
        assert(s.take(1).len() == 1 && s.take(1)[0] == s[0]);
        assert(s.take(1).drop_first() =~= Seq::<SortV>::empty());
        assert(sorts_code(s.take(1)) == sort_text(s[0]) + sorts_code(s.take(1).drop_first()));
        assert(sorts_code(s.take(0)).len() == 0);
        assert(sorts_code(s.take(1)) =~= sorts_code(s.take(0)) + sort_text(s[0]));
    } else {
        let d = s.drop_first();
        assert(s.take(i + 1).len() == i + 1 && s.take(i + 1)[0] == s[0]);
        assert(s.take(i).len() == i && s.take(i)[0] == s[0]);
        assert(s.take(i + 1).drop_first() =~= d.take(i));
        assert(s.take(i).drop_first() =~= d.take(i - 1));
        lemma_sorts_snoc(d, i - 1);
        assert(d[i - 1] == s[i]);
        assert(sorts_code(s.take(i + 1)) == sort_text(s[0]) + sorts_code(d.take(i)));
        assert(sorts_code(s.take(i)) == sort_text(s[0]) + sorts_code(d.take(i - 1)));
        assert(sorts_code(s.take(i + 1)) =~= sorts_code(s.take(i)) + sort_text(s[i]));
    }
}

pub proof fn lemma_texts_snoc(s: Seq<TermV>, i: int)
    requires
        0 <= i < s.len(),
    ensures
        texts_code(s.take(i + 1)) == texts_code(s.take(i)) + text_of(s[i]),
    decreases i,
{
    if i == 0 {
        assert(s.take(1).len() == 1 && s.take(1)[0] == s[0]);
        assert(s.take(1).drop_first() =~= Seq::<TermV>::empty());
        assert(texts_code(s.take(1)) == text_of(s[0]) + texts_code(s.take(1).drop_first()));
        assert(texts_code(s.take(0)).len() == 0);
        assert(texts_code(s.take(1)) =~= texts_code(s.take(0)) + text_of(s[0]));
    } else {
        let d = s.drop_first();
        assert(s.take(i + 1).len() == i + 1 && s.take(i + 1)[0] == s[0]);
        assert(s.take(i).len() == i && s.take(i)[0] == s[0]);
        assert(s.take(i + 1).drop_first() =~= d.take(i));
        assert(s.take(i).drop_first() =~= d.take(i - 1));
        lemma_texts_snoc(d, i - 1);
        assert(d[i - 1] == s[i]);
        assert(texts_code(s.take(i + 1)) == text_of(s[0]) + texts_code(d.take(i)));
        assert(texts_code(s.take(i)) == text_of(s[0]) + texts_code(d.take(i - 1)));
        assert(texts_code(s.take(i + 1)) =~= texts_code(s.take(i)) + text_of(s[i]));
    }
}

pub proof fn lemma_coeffs_snoc(s: Seq<int>, i: int)
    requires
        0 <= i < s.len(),
    ensures
        coeffs_code(s.take(i + 1)) == coeffs_code(s.take(i)) + tok(zig(s[i])),
    decreases i,
{
    if i == 0 {
        assert(s.take(1).len() == 1 && s.take(1)[0] == s[0]);
        assert(s.take(1).drop_first() =~= Seq::<int>::empty());
        assert(coeffs_code(s.take(1)) == tok(zig(s[0])) + coeffs_code(s.take(1).drop_first()));
        assert(coeffs_code(s.take(0)).len() == 0);
        assert(coeffs_code(s.take(1)) =~= coeffs_code(s.take(0)) + tok(zig(s[0])));
    } else {
        let d = s.drop_first();
        assert(s.take(i + 1).len() == i + 1 && s.take(i + 1)[0] == s[0]);
        assert(s.take(i).len() == i && s.take(i)[0] == s[0]);
        assert(s.take(i + 1).drop_first() =~= d.take(i));
        assert(s.take(i).drop_first() =~= d.take(i - 1));
        lemma_coeffs_snoc(d, i - 1);
        assert(d[i - 1] == s[i]);
        assert(coeffs_code(s.take(i + 1)) == tok(zig(s[0])) + coeffs_code(d.take(i)));
        assert(coeffs_code(s.take(i)) == tok(zig(s[0])) + coeffs_code(d.take(i - 1)));
        assert(coeffs_code(s.take(i + 1)) =~= coeffs_code(s.take(i)) + tok(zig(s[i])));
    }
}

pub proof fn lemma_pats_snoc(s: Seq<Seq<TermV>>, i: int)
    requires
        0 <= i < s.len(),
    ensures
        pats_code(s.take(i + 1)) == pats_code(s.take(i)) + tok(s[i].len()) + texts_code(s[i]),
    decreases i,
{
    if i == 0 {
        assert(s.take(1).len() == 1 && s.take(1)[0] == s[0]);
        assert(s.take(1).drop_first() =~= Seq::<Seq<TermV>>::empty());
        assert(pats_code(s.take(1)) == (tok(s[0].len()) + texts_code(s[0])) + pats_code(s.take(1).drop_first()));
        assert(pats_code(s.take(0)).len() == 0);
        assert(pats_code(s.take(1)) =~= pats_code(s.take(0)) + (tok(s[0].len()) + texts_code(s[0])));
    } else {
        let d = s.drop_first();
        assert(s.take(i + 1).len() == i + 1 && s.take(i + 1)[0] == s[0]);
        assert(s.take(i).len() == i && s.take(i)[0] == s[0]);
        assert(s.take(i + 1).drop_first() =~= d.take(i));
        assert(s.take(i).drop_first() =~= d.take(i - 1));
        lemma_pats_snoc(d, i - 1);
        assert(d[i - 1] == s[i]);
        assert(pats_code(s.take(i + 1)) == (tok(s[0].len()) + texts_code(s[0])) + pats_code(d.take(i)));
        assert(pats_code(s.take(i)) == (tok(s[0].len()) + texts_code(s[0])) + pats_code(d.take(i - 1)));
        assert(pats_code(s.take(i + 1)) =~= pats_code(s.take(i)) + (tok(s[i].len()) + texts_code(s[i])));
    }
}

// ---------------------------------------------------------------------------
// The executable renderer: writers that append a node's canonical text.
// ---------------------------------------------------------------------------

fn push_tok(out: &mut String, n: u128)
    ensures
        final(out)@ == old(out)@ + tok(n as nat),
{
    let d = crate::text::u128_to_dec(n);
    out.append(d.as_str());
    out.append(";");
    proof {
        reveal_strlit(";");
        assert(out@ =~= old(out)@ + tok(n as nat));
    }
}

/// The folded token of a signed executable numeral value.
fn push_zig(out: &mut String, neg: bool, mag: u64)
    ensures
        final(out)@ == old(out)@ + tok(zig(crate::term::num_value(neg, mag))),
{
    let n: u128 = if neg && mag > 0 {
        2 * (mag as u128) - 1
    } else {
        2 * (mag as u128)
    };
    push_tok(out, n);
}

fn push_zig_i64(out: &mut String, v: i64)
    ensures
        final(out)@ == old(out)@ + tok(zig(v as int)),
{
    let n: u128 = if v < 0 {
        2 * ((-(v as i128)) as u128) - 1
    } else {
        2 * (v as u128)
    };
    push_tok(out, n);
}

fn write_str(s: &str, out: &mut String)
    ensures
        final(out)@ == old(out)@ + str_code(s@),
{
    let n = s.unicode_len();
    push_tok(out, n as u128);
    let ghost head = out@;
    let mut i: usize = 0;
    proof {
        assert(chars_code(s@.take(0)) =~= Seq::<char>::empty());
        assert(out@ =~= head + chars_code(s@.take(0)));
    }
    while i < n
        invariant
            i <= n,
            n == s@.len(),
            out@ == head + chars_code(s@.take(i as int)),
        decreases n - i,
    {
        let c = s.get_char(i);
        push_tok(out, (c as u32) as u128);
        proof {
            lemma_chars_snoc(s@, i as int);
            assert(out@ =~= head + chars_code(s@.take(i + 1)));
        }
        i += 1;
    }
    proof {
        assert(s@.take(n as int) =~= s@);
        assert(out@ =~= old(out)@ + str_code(s@));
    }
}

fn write_sym(s: &SymData, out: &mut String)
    ensures
        final(out)@ == old(out)@ + sym_code(s.view()),
{
    match s {
        SymData::Num { i } => {
            push_tok(out, 0);
            push_tok(out, *i as u128);
            proof {
                assert(out@ =~= old(out)@ + sym_code(s.view()));
            }
        },
        SymData::Name { s: name } => {
            push_tok(out, 1);
            write_str(name.as_str(), out);
            proof {
                assert(out@ =~= old(out)@ + sym_code(s.view()));
            }
        },
    }
}

fn write_sort(s: &SortData, out: &mut String)
    ensures
        final(out)@ == old(out)@ + sort_text(s.view()),
    decreases *s,
{
    match s {
        SortData::BoolSort => {
            push_tok(out, 0);
        },
        SortData::IntSort => {
            push_tok(out, 1);
        },
        SortData::RealSort => {
            push_tok(out, 2);
        },
        SortData::BitVecSort { width } => {
            push_tok(out, 3);
            push_tok(out, *width as u128);
            proof {
                assert(out@ =~= old(out)@ + sort_text(s.view()));
            }
        },
        SortData::ArraySort { domain, range } => {
            push_tok(out, 4);
            write_sort(domain, out);
            write_sort(range, out);
            proof {
                assert(out@ =~= old(out)@ + sort_text(s.view()));
            }
        },
        SortData::SetSort { elem } => {
            push_tok(out, 5);
            write_sort(elem, out);
            proof {
                assert(out@ =~= old(out)@ + sort_text(s.view()));
            }
        },
        SortData::UninterpSort { name } => {
            push_tok(out, 6);
            write_sym(name, out);
            proof {
                assert(out@ =~= old(out)@ + sort_text(s.view()));
            }
        },
        SortData::DatatypeSort { name } => {
            push_tok(out, 7);
            write_str(name.as_str(), out);
            proof {
                assert(out@ =~= old(out)@ + sort_text(s.view()));
            }
        },
    }
}

fn write_kind(k: &DeclKind, out: &mut String)
    ensures
        final(out)@ == old(out)@ + kind_code(k.view()),
{
    match k {
        DeclKind::Uninterp => {
            push_tok(out, 0);
        },
        DeclKind::Ctor { dt, idx } => {
            push_tok(out, 1);
            write_str(dt.as_str(), out);
            push_tok(out, *idx as u128);
            proof {
                assert(out@ =~= old(out)@ + kind_code(k.view()));
            }
        },
        DeclKind::Tester { dt, idx, ctor_name, ctor_arity } => {
            push_tok(out, 2);
            write_str(dt.as_str(), out);
            push_tok(out, *idx as u128);
            write_sym(ctor_name, out);
            push_tok(out, *ctor_arity as u128);
            proof {
                assert(out@ =~= old(out)@ + kind_code(k.view()));
            }
        },
        DeclKind::Accessor { dt, idx, field } => {
            push_tok(out, 3);
            write_str(dt.as_str(), out);
            push_tok(out, *idx as u128);
            push_tok(out, *field as u128);
            proof {
                assert(out@ =~= old(out)@ + kind_code(k.view()));
            }
        },
    }
}

fn write_decl(d: &DeclData, out: &mut String)
    ensures
        final(out)@ == old(out)@ + decl_code(d.view()),
{
    write_sym(&d.name, out);
    push_tok(out, d.domain.len() as u128);
    let ghost head = out@;
    let ghost dv = d.view().domain;
    let mut i: usize = 0;
    proof {
        assert(sorts_code(dv.take(0)) =~= Seq::<char>::empty());
        assert(out@ =~= head + sorts_code(dv.take(0)));
    }
    while i < d.domain.len()
        invariant
            i <= d.domain@.len(),
            dv == d.view().domain,
            dv.len() == d.domain@.len(),
            out@ == head + sorts_code(dv.take(i as int)),
        decreases d.domain@.len() - i,
    {
        write_sort(&d.domain[i], out);
        proof {
            lemma_sorts_snoc(dv, i as int);
            assert(out@ =~= head + sorts_code(dv.take(i + 1)));
        }
        i += 1;
    }
    proof {
        assert(dv.take(dv.len() as int) =~= dv);
    }
    write_sort(&d.range, out);
    write_kind(&d.kind, out);
    proof {
        assert(out@ =~= old(out)@ + decl_code(d.view()));
    }
}

fn write_terms(ts: &Vec<Term>, out: &mut String)
    ensures
        final(out)@ == old(out)@ + tok(ts@.len()) + texts_code(view_terms(ts@)),
    decreases *ts,
{
    push_tok(out, ts.len() as u128);
    let ghost head = out@;
    let ghost tv = view_terms(ts@);
    let mut i: usize = 0;
    proof {
        assert(texts_code(tv.take(0)) =~= Seq::<char>::empty());
        assert(out@ =~= head + texts_code(tv.take(0)));
    }
    while i < ts.len()
        invariant
            i <= ts@.len(),
            tv == view_terms(ts@),
            tv.len() == ts@.len(),
            out@ == head + texts_code(tv.take(i as int)),
        decreases ts@.len() - i,
    {
        write_term(&ts[i], out);
        proof {
            lemma_texts_snoc(tv, i as int);
            assert(out@ =~= head + texts_code(tv.take(i + 1)));
        }
        i += 1;
    }
    proof {
        assert(tv.take(tv.len() as int) =~= tv);
        assert(out@ =~= old(out)@ + tok(ts@.len()) + texts_code(tv));
    }
}

#[verifier::rlimit(100)]
fn write_term(t: &Term, out: &mut String)
    ensures
        final(out)@ == old(out)@ + text_of(t.view()),
    decreases *t,
{
    match t {
        Term::BoolLit { b } => {
            push_tok(out, 0);
            push_tok(out, if *b { 1 } else { 0 });
            proof {
                assert(out@ =~= old(out)@ + text_of(t.view()));
            }
        },
        Term::Numeral { neg, mag, sort } => {
            push_tok(out, 1);
            push_zig(out, *neg, *mag);
            write_sort(sort, out);
            proof {
                assert(out@ =~= old(out)@ + text_of(t.view()));
            }
        },
        Term::Rational { num, den } => {
            push_tok(out, 2);
            push_zig_i64(out, *num);
            push_zig_i64(out, *den);
            proof {
                assert(out@ =~= old(out)@ + text_of(t.view()));
            }
        },
        Term::Constant { name, sort } => {
            push_tok(out, 3);
            write_sym(name, out);
            write_sort(sort, out);
            proof {
                assert(out@ =~= old(out)@ + text_of(t.view()));
            }
        },
        Term::App { op, args } => {
            push_tok(out, 4);
            let (c, p1, p2) = op_codes_exec(op);
            push_tok(out, c as u128);
            push_tok(out, p1 as u128);
            push_tok(out, p2 as u128);
            write_terms(args, out);
            proof {
                assert(out@ =~= old(out)@ + text_of(t.view()));
            }
        },
        Term::PbApp { kind, coeffs, k, args } => {
            push_tok(out, 5);
            let kc: u128 = match kind {
                PbKind::AtMost => 0,
                PbKind::AtLeast => 1,
                PbKind::Exactly => 2,
            };
            push_tok(out, kc);
            push_zig_i64(out, *k as i64);
            push_tok(out, coeffs.len() as u128);
            let ghost head = out@;
            let ghost cv = t.view()->PbApp_coeffs;
            proof {
                assert(cv =~= Seq::new(coeffs@.len(), |i: int| coeffs@[i] as int));
            }
            let mut i: usize = 0;
            proof {
                assert(coeffs_code(cv.take(0)) =~= Seq::<char>::empty());
                assert(out@ =~= head + coeffs_code(cv.take(0)));
            }
            while i < coeffs.len()
                invariant
                    i <= coeffs@.len(),
                    *t == (Term::PbApp { kind: *kind, coeffs: *coeffs, k: *k, args: *args }),
                    cv == t.view()->PbApp_coeffs,
                    cv.len() == coeffs@.len(),
                    forall|j: int| 0 <= j < cv.len() ==> cv[j] == coeffs@[j] as int,
                    out@ == head + coeffs_code(cv.take(i as int)),
                decreases coeffs@.len() - i,
            {
                push_zig_i64(out, coeffs[i] as i64);
                proof {
                    lemma_coeffs_snoc(cv, i as int);
                    assert(out@ =~= head + coeffs_code(cv.take(i + 1)));
                }
                i += 1;
            }
            proof {
                assert(cv.take(cv.len() as int) =~= cv);
            }
            write_terms(args, out);
            proof {
                assert(out@ =~= old(out)@ + text_of(t.view()));
            }
        },
        Term::FuncApp { decl, args } => {
            push_tok(out, 6);
            write_decl(decl, out);
            write_terms(args, out);
            proof {
                assert(out@ =~= old(out)@ + text_of(t.view()));
            }
        },
        Term::Quant { is_forall, weight, bounds, patterns, body } => {
            push_tok(out, 7);
            push_tok(out, if *is_forall { 1 } else { 0 });
            push_tok(out, *weight as u128);
            write_terms(bounds, out);
            push_tok(out, patterns.len() as u128);
            let ghost head = out@;
            let ghost pv = t.view()->Quant_patterns;
            let mut i: usize = 0;
            proof {
                assert(pats_code(pv.take(0)) =~= Seq::<char>::empty());
                assert(out@ =~= head + pats_code(pv.take(0)));
            }
            while i < patterns.len()
                invariant
                    i <= patterns@.len(),
                    *t == (Term::Quant {
                        is_forall: *is_forall,
                        weight: *weight,
                        bounds: *bounds,
                        patterns: *patterns,
                        body: *body,
                    }),
                    pv == t.view()->Quant_patterns,
                    pv.len() == patterns@.len(),
                    forall|j: int| 0 <= j < pv.len() ==> pv[j] == view_terms(patterns@[j]@),
                    out@ == head + pats_code(pv.take(i as int)),
                decreases patterns@.len() - i,
            {
                proof {
                    assert(decreases_to!(*t => t->Quant_patterns));
                    assert(t->Quant_patterns == *patterns);
                    assert(decreases_to!(*patterns => patterns@[i as int]));
                }
                write_terms(&patterns[i], out);
                proof {
                    lemma_pats_snoc(pv, i as int);
                    assert(out@ =~= head + pats_code(pv.take(i + 1)));
                }
                i += 1;
            }
            proof {
                assert(pv.take(pv.len() as int) =~= pv);
            }
            write_term(body, out);
            proof {
                assert(out@ =~= old(out)@ + text_of(t.view()));
            }
        },
    }
}

/// Renders a term to its canonical text.
pub fn term_to_text(t: &Term) -> (r: String)
    ensures
        r@ == text_of(t.view()),
{
    let mut out = String::new();
    write_term(t, &mut out);
    proof {
        assert(out@ =~= text_of(t.view()));
    }
    out
}

/// Renders a sort to its canonical text.
pub fn sort_to_text(s: &SortData) -> (r: String)
    ensures
        r@ == sort_text(s.view()),
{
    let mut out = String::new();
    write_sort(s, &mut out);
    proof {
        assert(out@ =~= sort_text(s.view()));
    }
    out
}

// ---------------------------------------------------------------------------
// Injectivity.  The canonical form is a prefix code: a node's text followed
// by anything determines the node and the remainder.  The proofs peel one
// token at a time.
// ---------------------------------------------------------------------------

pub open spec fn is_digit(c: char) -> bool {
    ||| c == '0'
    ||| c == '1'
    ||| c == '2'
    ||| c == '3'
    ||| c == '4'
    ||| c == '5'
    ||| c == '6'
    ||| c == '7'
    ||| c == '8'
    ||| c == '9'
}

pub proof fn lemma_dec_digits(n: nat)
    ensures
        forall|i: int| 0 <= i < dec_chars(n).len() ==> is_digit(#[trigger] dec_chars(n)[i]),
    decreases n,
{
    if n >= 10 {
        lemma_dec_digits(n / 10);
        assert forall|i: int| 0 <= i < dec_chars(n).len() implies is_digit(
            dec_chars(n)[i],
        ) by {
            if i < dec_chars(n).len() - 1 {
                assert(dec_chars(n)[i] == dec_chars(n / 10)[i]);
            } else {
                assert(dec_chars(n)[i] == dec_digit((n % 10) as int));
            }
        }
    }
}

/// A number token followed by anything determines the number and the
/// remainder: the digits run to the first terminator.
pub proof fn lemma_tok_unamb(a: nat, b: nat, r1: Seq<char>, r2: Seq<char>)
    requires
        tok(a) + r1 == tok(b) + r2,
    ensures
        a == b,
        r1 == r2,
{
    let da = dec_chars(a);
    let db = dec_chars(b);
    lemma_dec_digits(a);
    lemma_dec_digits(b);
    let la = da.len() as int;
    let lb = db.len() as int;
    let lhs = tok(a) + r1;
    assert(lhs.len() == la + 1 + r1.len());
    assert((tok(b) + r2).len() == lb + 1 + r2.len());
    assert(lhs[la] == ';');
    assert(lhs[lb] == ';') by {
        assert((tok(b) + r2)[lb] == ';');
    }
    if la < lb {
        assert((tok(b) + r2)[la] == db[la]);
        assert(is_digit(db[la]));
        assert(false);
    }
    if lb < la {
        assert((tok(a) + r1)[lb] == da[lb]);
        assert(is_digit(da[lb]));
        assert(false);
    }
    assert(da =~= db) by {
        assert forall|i: int| 0 <= i < la implies da[i] == db[i] by {
            assert(lhs[i] == da[i]);
            assert((tok(b) + r2)[i] == db[i]);
        }
    }
    if a != b {
        crate::text::lemma_dec_chars_injective(a, b);
        assert(false);
    }
    assert(r1 =~= r2) by {
        assert(r1.len() == r2.len());
        assert forall|j: int| 0 <= j < r1.len() implies r1[j] == r2[j] by {
            assert(lhs[la + 1 + j] == r1[j]);
            assert((tok(b) + r2)[la + 1 + j] == r2[j]);
        }
    }
}

/// The fold of signed values onto naturals is injective.
pub proof fn lemma_zig_inj(z1: int, z2: int)
    requires
        zig(z1) == zig(z2),
    ensures
        z1 == z2,
{
}

pub proof fn lemma_chars_unamb(s1: Seq<char>, s2: Seq<char>, r1: Seq<char>, r2: Seq<char>)
    requires
        s1.len() == s2.len(),
        chars_code(s1) + r1 == chars_code(s2) + r2,
    ensures
        s1 == s2,
        r1 == r2,
    decreases s1.len(),
{
    if s1.len() == 0 {
        assert(r1 =~= r2);
        assert(s1 =~= s2);
    } else {
        assert(chars_code(s1) + r1 =~= tok((s1[0] as u32) as nat) + (chars_code(s1.drop_first()) + r1));
        assert(chars_code(s2) + r2 =~= tok((s2[0] as u32) as nat) + (chars_code(s2.drop_first()) + r2));
        lemma_tok_unamb(
            (s1[0] as u32) as nat,
            (s2[0] as u32) as nat,
            chars_code(s1.drop_first()) + r1,
            chars_code(s2.drop_first()) + r2,
        );
        assert(s1[0] as u32 == s2[0] as u32);
        vstd::utf8::char_u32_cast(s1[0], s1[0] as u32);
        vstd::utf8::char_u32_cast(s2[0], s2[0] as u32);
        assert(s1[0] == s2[0]);
        lemma_chars_unamb(s1.drop_first(), s2.drop_first(), r1, r2);
        assert(s1 =~= s2) by {
            assert forall|i: int| 0 <= i < s1.len() implies s1[i] == s2[i] by {
                if i > 0 {
                    assert(s1[i] == s1.drop_first()[i - 1]);
                    assert(s2[i] == s2.drop_first()[i - 1]);
                }
            }
        }
    }
}

pub proof fn lemma_str_unamb(s1: Seq<char>, s2: Seq<char>, r1: Seq<char>, r2: Seq<char>)
    requires
        str_code(s1) + r1 == str_code(s2) + r2,
    ensures
        s1 == s2,
        r1 == r2,
{
    assert(str_code(s1) + r1 =~= tok(s1.len()) + (chars_code(s1) + r1));
    assert(str_code(s2) + r2 =~= tok(s2.len()) + (chars_code(s2) + r2));
    lemma_tok_unamb(s1.len(), s2.len(), chars_code(s1) + r1, chars_code(s2) + r2);
    lemma_chars_unamb(s1, s2, r1, r2);
}

pub open spec fn sym_tag(s: SymV) -> nat {
    match s {
        SymV::Num { .. } => 0,
        SymV::Name { .. } => 1,
    }
}

pub proof fn lemma_sym_unamb(m1: SymV, m2: SymV, r1: Seq<char>, r2: Seq<char>)
    requires
        sym_code(m1) + r1 == sym_code(m2) + r2,
    ensures
        m1 == m2,
        r1 == r2,
{
    let b1 = match m1 {
        SymV::Num { i } => tok(i as nat),
        SymV::Name { s } => str_code(s),
    };
    let b2 = match m2 {
        SymV::Num { i } => tok(i as nat),
        SymV::Name { s } => str_code(s),
    };
    assert(sym_code(m1) + r1 =~= tok(sym_tag(m1)) + (b1 + r1));
    assert(sym_code(m2) + r2 =~= tok(sym_tag(m2)) + (b2 + r2));
    lemma_tok_unamb(sym_tag(m1), sym_tag(m2), b1 + r1, b2 + r2);
    match (m1, m2) {
        (SymV::Num { i: i1 }, SymV::Num { i: i2 }) => {
            lemma_tok_unamb(i1 as nat, i2 as nat, r1, r2);
        },
        (SymV::Name { s: n1 }, SymV::Name { s: n2 }) => {
            lemma_str_unamb(n1, n2, r1, r2);
        },
        _ => {
            assert(false);
        },
    }
}

pub open spec fn sort_tag(s: SortV) -> nat {
    match s {
        SortV::BoolSort => 0,
        SortV::IntSort => 1,
        SortV::RealSort => 2,
        SortV::BitVecSort { .. } => 3,
        SortV::ArraySort { .. } => 4,
        SortV::SetSort { .. } => 5,
        SortV::UninterpSort { .. } => 6,
        SortV::DatatypeSort { .. } => 7,
    }
}

pub open spec fn sort_body(s: SortV) -> Seq<char> {
    match s {
        SortV::BoolSort => Seq::empty(),
        SortV::IntSort => Seq::empty(),
        SortV::RealSort => Seq::empty(),
        SortV::BitVecSort { width } => tok(width as nat),
        SortV::ArraySort { domain, range } => sort_text(*domain) + sort_text(*range),
        SortV::SetSort { elem } => sort_text(*elem),
        SortV::UninterpSort { name } => sym_code(name),
        SortV::DatatypeSort { name } => str_code(name),
    }
}

pub proof fn lemma_sort_unamb(s1: SortV, s2: SortV, r1: Seq<char>, r2: Seq<char>)
    requires
        sort_text(s1) + r1 == sort_text(s2) + r2,
    ensures
        s1 == s2,
        r1 == r2,
    decreases s1,
{
    assert(sort_text(s1) + r1 =~= tok(sort_tag(s1)) + (sort_body(s1) + r1));
    assert(sort_text(s2) + r2 =~= tok(sort_tag(s2)) + (sort_body(s2) + r2));
    lemma_tok_unamb(sort_tag(s1), sort_tag(s2), sort_body(s1) + r1, sort_body(s2) + r2);
    match (s1, s2) {
        (SortV::BoolSort, SortV::BoolSort) => {
            assert(r1 =~= r2);
        },
        (SortV::IntSort, SortV::IntSort) => {
            assert(r1 =~= r2);
        },
        (SortV::RealSort, SortV::RealSort) => {
            assert(r1 =~= r2);
        },
        (SortV::BitVecSort { width: w1 }, SortV::BitVecSort { width: w2 }) => {
            lemma_tok_unamb(w1 as nat, w2 as nat, r1, r2);
        },
        (
            SortV::ArraySort { domain: d1, range: g1 },
            SortV::ArraySort { domain: d2, range: g2 },
        ) => {
            assert(sort_body(s1) + r1 =~= sort_text(*d1) + (sort_text(*g1) + r1));
            assert(sort_body(s2) + r2 =~= sort_text(*d2) + (sort_text(*g2) + r2));
            lemma_sort_unamb(*d1, *d2, sort_text(*g1) + r1, sort_text(*g2) + r2);
            lemma_sort_unamb(*g1, *g2, r1, r2);
        },
        (SortV::SetSort { elem: e1 }, SortV::SetSort { elem: e2 }) => {
            lemma_sort_unamb(*e1, *e2, r1, r2);
        },
        (SortV::UninterpSort { name: n1 }, SortV::UninterpSort { name: n2 }) => {
            lemma_sym_unamb(n1, n2, r1, r2);
        },
        (SortV::DatatypeSort { name: n1 }, SortV::DatatypeSort { name: n2 }) => {
            lemma_str_unamb(n1, n2, r1, r2);
        },
        _ => {
            assert(false);
        },
    }
}

pub proof fn lemma_sorts_unamb(ss1: Seq<SortV>, ss2: Seq<SortV>, r1: Seq<char>, r2: Seq<char>)
    requires
        ss1.len() == ss2.len(),
        sorts_code(ss1) + r1 == sorts_code(ss2) + r2,
    ensures
        ss1 == ss2,
        r1 == r2,
    decreases ss1.len(),
{
    if ss1.len() == 0 {
        assert(r1 =~= r2);
        assert(ss1 =~= ss2);
    } else {
        assert(sorts_code(ss1) + r1 =~= sort_text(ss1[0]) + (sorts_code(ss1.drop_first()) + r1));
        assert(sorts_code(ss2) + r2 =~= sort_text(ss2[0]) + (sorts_code(ss2.drop_first()) + r2));
        lemma_sort_unamb(
            ss1[0],
            ss2[0],
            sorts_code(ss1.drop_first()) + r1,
            sorts_code(ss2.drop_first()) + r2,
        );
        lemma_sorts_unamb(ss1.drop_first(), ss2.drop_first(), r1, r2);
        assert(ss1 =~= ss2) by {
            assert forall|i: int| 0 <= i < ss1.len() implies ss1[i] == ss2[i] by {
                if i > 0 {
                    assert(ss1[i] == ss1.drop_first()[i - 1]);
                    assert(ss2[i] == ss2.drop_first()[i - 1]);
                }
            }
        };
    }
}

pub open spec fn kind_tag(k: DeclKindV) -> nat {
    match k {
        DeclKindV::Uninterp => 0,
        DeclKindV::Ctor { .. } => 1,
        DeclKindV::Tester { .. } => 2,
        DeclKindV::Accessor { .. } => 3,
    }
}

pub open spec fn kind_body(k: DeclKindV) -> Seq<char> {
    match k {
        DeclKindV::Uninterp => Seq::empty(),
        DeclKindV::Ctor { dt, idx } => str_code(dt) + tok(idx),
        DeclKindV::Tester { dt, idx, ctor_name, ctor_arity } => str_code(dt) + tok(idx)
            + sym_code(ctor_name) + tok(ctor_arity),
        DeclKindV::Accessor { dt, idx, field } => str_code(dt) + tok(idx) + tok(field),
    }
}

#[verifier::rlimit(100)]
pub proof fn lemma_kind_unamb(k1: DeclKindV, k2: DeclKindV, r1: Seq<char>, r2: Seq<char>)
    requires
        kind_code(k1) + r1 == kind_code(k2) + r2,
    ensures
        k1 == k2,
        r1 == r2,
{
    assert(kind_code(k1) + r1 =~= tok(kind_tag(k1)) + (kind_body(k1) + r1));
    assert(kind_code(k2) + r2 =~= tok(kind_tag(k2)) + (kind_body(k2) + r2));
    lemma_tok_unamb(kind_tag(k1), kind_tag(k2), kind_body(k1) + r1, kind_body(k2) + r2);
    match (k1, k2) {
        (DeclKindV::Uninterp, DeclKindV::Uninterp) => {
            assert(r1 =~= r2);
        },
        (DeclKindV::Ctor { dt: d1, idx: i1 }, DeclKindV::Ctor { dt: d2, idx: i2 }) => {
            assert(kind_body(k1) + r1 =~= str_code(d1) + (tok(i1) + r1));
            assert(kind_body(k2) + r2 =~= str_code(d2) + (tok(i2) + r2));
            lemma_str_unamb(d1, d2, tok(i1) + r1, tok(i2) + r2);
            lemma_tok_unamb(i1, i2, r1, r2);
        },
        (
            DeclKindV::Tester { dt: d1, idx: i1, ctor_name: n1, ctor_arity: a1 },
            DeclKindV::Tester { dt: d2, idx: i2, ctor_name: n2, ctor_arity: a2 },
        ) => {
            assert(kind_body(k1) + r1 =~= str_code(d1) + (tok(i1) + (sym_code(n1) + (tok(a1)
                + r1))));
            assert(kind_body(k2) + r2 =~= str_code(d2) + (tok(i2) + (sym_code(n2) + (tok(a2)
                + r2))));
            lemma_str_unamb(
                d1,
                d2,
                tok(i1) + (sym_code(n1) + (tok(a1) + r1)),
                tok(i2) + (sym_code(n2) + (tok(a2) + r2)),
            );
            lemma_tok_unamb(i1, i2, sym_code(n1) + (tok(a1) + r1), sym_code(n2) + (tok(a2) + r2));
            lemma_sym_unamb(n1, n2, tok(a1) + r1, tok(a2) + r2);
            lemma_tok_unamb(a1, a2, r1, r2);
        },
        (
            DeclKindV::Accessor { dt: d1, idx: i1, field: f1 },
            DeclKindV::Accessor { dt: d2, idx: i2, field: f2 },
        ) => {
            assert(kind_body(k1) + r1 =~= str_code(d1) + (tok(i1) + (tok(f1) + r1)));
            assert(kind_body(k2) + r2 =~= str_code(d2) + (tok(i2) + (tok(f2) + r2)));
            lemma_str_unamb(d1, d2, tok(i1) + (tok(f1) + r1), tok(i2) + (tok(f2) + r2));
            lemma_tok_unamb(i1, i2, tok(f1) + r1, tok(f2) + r2);
            lemma_tok_unamb(f1, f2, r1, r2);
        },
        _ => {
            assert(false);
        },
    }
}

proof fn lemma_assoc(a: Seq<char>, b: Seq<char>, c: Seq<char>)
    ensures
        (a + b) + c == a + (b + c),
{
    assert((a + b) + c =~= a + (b + c));
}

proof fn lemma_decl_shape(d: DeclV, r: Seq<char>)
    ensures
        decl_code(d) + r == sym_code(d.name) + (tok(d.domain.len()) + (sorts_code(d.domain)
            + (sort_text(d.range) + (kind_code(d.kind) + r)))),
{
    let x0 = sym_code(d.name);
    let x1 = tok(d.domain.len());
    let x2 = sorts_code(d.domain);
    let x3 = sort_text(d.range);
    let x4 = kind_code(d.kind);
    assert(decl_code(d) == x0 + x1 + x2 + x3 + x4);
    lemma_assoc(x0 + x1 + x2 + x3, x4, r);
    lemma_assoc(x0 + x1 + x2, x3, x4 + r);
    lemma_assoc(x0 + x1, x2, x3 + (x4 + r));
    lemma_assoc(x0, x1, x2 + (x3 + (x4 + r)));
}

#[verifier::rlimit(100)]
pub proof fn lemma_decl_unamb(d1: DeclV, d2: DeclV, r1: Seq<char>, r2: Seq<char>)
    requires
        decl_code(d1) + r1 == decl_code(d2) + r2,
    ensures
        d1 == d2,
        r1 == r2,
{
    let t1 = sorts_code(d1.domain) + (sort_text(d1.range) + (kind_code(d1.kind) + r1));
    let t2 = sorts_code(d2.domain) + (sort_text(d2.range) + (kind_code(d2.kind) + r2));
    lemma_decl_shape(d1, r1);
    lemma_decl_shape(d2, r2);
    assert(decl_code(d1) + r1 == sym_code(d1.name) + (tok(d1.domain.len()) + t1));
    assert(decl_code(d2) + r2 == sym_code(d2.name) + (tok(d2.domain.len()) + t2));
    lemma_sym_unamb(d1.name, d2.name, tok(d1.domain.len()) + t1, tok(d2.domain.len()) + t2);
    lemma_tok_unamb(d1.domain.len(), d2.domain.len(), t1, t2);
    lemma_sorts_unamb(
        d1.domain,
        d2.domain,
        sort_text(d1.range) + (kind_code(d1.kind) + r1),
        sort_text(d2.range) + (kind_code(d2.kind) + r2),
    );
    lemma_sort_unamb(d1.range, d2.range, kind_code(d1.kind) + r1, kind_code(d2.kind) + r2);
    lemma_kind_unamb(d1.kind, d2.kind, r1, r2);
}

pub proof fn lemma_coeffs_unamb(cs1: Seq<int>, cs2: Seq<int>, r1: Seq<char>, r2: Seq<char>)
    requires
        cs1.len() == cs2.len(),
        coeffs_code(cs1) + r1 == coeffs_code(cs2) + r2,
    ensures
        cs1 == cs2,
        r1 == r2,
    decreases cs1.len(),
{
    if cs1.len() == 0 {
        assert(r1 =~= r2);
        assert(cs1 =~= cs2);
    } else {
        assert(coeffs_code(cs1) + r1 =~= tok(zig(cs1[0])) + (coeffs_code(cs1.drop_first()) + r1));
        assert(coeffs_code(cs2) + r2 =~= tok(zig(cs2[0])) + (coeffs_code(cs2.drop_first()) + r2));
        lemma_tok_unamb(
            zig(cs1[0]),
            zig(cs2[0]),
            coeffs_code(cs1.drop_first()) + r1,
            coeffs_code(cs2.drop_first()) + r2,
        );
        lemma_zig_inj(cs1[0], cs2[0]);
        lemma_coeffs_unamb(cs1.drop_first(), cs2.drop_first(), r1, r2);
        assert(cs1 =~= cs2) by {
            assert forall|i: int| 0 <= i < cs1.len() implies cs1[i] == cs2[i] by {
                if i > 0 {
                    assert(cs1[i] == cs1.drop_first()[i - 1]);
                    assert(cs2[i] == cs2.drop_first()[i - 1]);
                }
            }
        };
    }
}

pub open spec fn term_tag(t: TermV) -> nat {
    match t {
        TermV::BoolLit { .. } => 0,
        TermV::Numeral { .. } => 1,
        TermV::Rational { .. } => 2,
        TermV::Constant { .. } => 3,
        TermV::App { .. } => 4,
        TermV::PbApp { .. } => 5,
        TermV::FuncApp { .. } => 6,
        TermV::Quant { .. } => 7,
    }
}

pub open spec fn term_body(t: TermV) -> Seq<char> {
    match t {
        TermV::BoolLit { b } => tok(if b { 1nat } else { 0nat }),
        TermV::Numeral { value, sort } => tok(zig(value)) + sort_text(sort),
        TermV::Rational { num, den } => tok(zig(num)) + tok(zig(den)),
        TermV::Constant { name, sort } => sym_code(name) + sort_text(sort),
        TermV::App { op, args } => tok(op_code(op)) + tok(op_p1(op)) + tok(op_p2(op)) + tok(
            args.len(),
        ) + texts_code(args),
        TermV::PbApp { kind, coeffs, k, args } => tok(pb_code(kind)) + tok(zig(k)) + tok(
            coeffs.len(),
        ) + coeffs_code(coeffs) + tok(args.len()) + texts_code(args),
        TermV::FuncApp { decl, args } => decl_code(decl) + tok(args.len()) + texts_code(args),
        TermV::Quant { is_forall, weight, bounds, patterns, body } => tok(
            if is_forall { 1nat } else { 0nat },
        ) + tok(weight as nat) + tok(bounds.len()) + texts_code(bounds) + tok(patterns.len())
            + pats_code(patterns) + text_of(*body),
    }
}



/// Every term's text is its tag token followed by its body.
#[verifier::rlimit(100)]
proof fn lemma_head_body(t: TermV)
    ensures
        text_of(t) == tok(term_tag(t)) + term_body(t),
{
    match t {
        TermV::BoolLit { .. } => {},
        TermV::Numeral { value, sort } => {
            lemma_assoc(tok(1), tok(zig(value)), sort_text(sort));
        },
        TermV::Rational { num, den } => {
            lemma_assoc(tok(2), tok(zig(num)), tok(zig(den)));
        },
        TermV::Constant { name, sort } => {
            lemma_assoc(tok(3), sym_code(name), sort_text(sort));
        },
        TermV::App { op, args } => {
            lemma_assoc(tok(4) + tok(op_code(op)) + tok(op_p1(op)) + tok(op_p2(op)), tok(
                args.len(),
            ), texts_code(args));
            lemma_assoc(tok(4) + tok(op_code(op)) + tok(op_p1(op)), tok(op_p2(op)), tok(
                args.len(),
            ) + texts_code(args));
            lemma_assoc(tok(4) + tok(op_code(op)), tok(op_p1(op)), tok(op_p2(op)) + (tok(
                args.len(),
            ) + texts_code(args)));
            lemma_assoc(tok(4), tok(op_code(op)), tok(op_p1(op)) + (tok(op_p2(op)) + (tok(
                args.len(),
            ) + texts_code(args))));
            assert(term_body(t) =~= tok(op_code(op)) + (tok(op_p1(op)) + (tok(op_p2(op)) + (tok(
                args.len(),
            ) + texts_code(args)))));
        },
        TermV::PbApp { kind, coeffs, k, args } => {
            let x5 = texts_code(args);
            let x4 = tok(args.len());
            let x3 = coeffs_code(coeffs);
            let x2 = tok(coeffs.len());
            let x1 = tok(zig(k));
            let x0 = tok(pb_code(kind));
            lemma_assoc(tok(5) + x0 + x1 + x2 + x3, x4, x5);
            lemma_assoc(tok(5) + x0 + x1 + x2, x3, x4 + x5);
            lemma_assoc(tok(5) + x0 + x1, x2, x3 + (x4 + x5));
            lemma_assoc(tok(5) + x0, x1, x2 + (x3 + (x4 + x5)));
            lemma_assoc(tok(5), x0, x1 + (x2 + (x3 + (x4 + x5))));
            assert(term_body(t) =~= x0 + (x1 + (x2 + (x3 + (x4 + x5)))));
        },
        TermV::FuncApp { decl, args } => {
            lemma_assoc(tok(6) + decl_code(decl), tok(args.len()), texts_code(args));
            lemma_assoc(tok(6), decl_code(decl), tok(args.len()) + texts_code(args));
            assert(term_body(t) =~= decl_code(decl) + (tok(args.len()) + texts_code(args)));
        },
        TermV::Quant { is_forall, weight, bounds, patterns, body } => {
            let x5 = text_of(*body);
            let x4 = pats_code(patterns);
            let x3 = tok(patterns.len());
            let x2 = texts_code(bounds);
            let x1 = tok(bounds.len());
            let x0 = tok(weight as nat);
            let h = tok(if is_forall { 1nat } else { 0nat });
            lemma_assoc(tok(7) + h + x0 + x1 + x2 + x3, x4, x5);
            lemma_assoc(tok(7) + h + x0 + x1 + x2, x3, x4 + x5);
            lemma_assoc(tok(7) + h + x0 + x1, x2, x3 + (x4 + x5));
            lemma_assoc(tok(7) + h + x0, x1, x2 + (x3 + (x4 + x5)));
            lemma_assoc(tok(7) + h, x0, x1 + (x2 + (x3 + (x4 + x5))));
            lemma_assoc(tok(7), h, x0 + (x1 + (x2 + (x3 + (x4 + x5)))));
            assert(term_body(t) =~= h + (x0 + (x1 + (x2 + (x3 + (x4 + x5))))));
        },
    }
}

/// A term's text followed by anything determines the term and the
/// remainder.
#[verifier::rlimit(100)]
pub proof fn lemma_text_unamb(t1: TermV, t2: TermV, r1: Seq<char>, r2: Seq<char>)
    requires
        text_of(t1) + r1 == text_of(t2) + r2,
    ensures
        t1 == t2,
        r1 == r2,
    decreases t1, 2nat,
{
    lemma_head_body(t1);
    lemma_head_body(t2);
    lemma_assoc(tok(term_tag(t1)), term_body(t1), r1);
    lemma_assoc(tok(term_tag(t2)), term_body(t2), r2);
    lemma_tok_unamb(term_tag(t1), term_tag(t2), term_body(t1) + r1, term_body(t2) + r2);
    match (t1, t2) {
        (TermV::BoolLit { b: b1 }, TermV::BoolLit { b: b2 }) => {
            lemma_tok_unamb(
                if b1 { 1nat } else { 0nat },
                if b2 { 1nat } else { 0nat },
                r1,
                r2,
            );
        },
        (
            TermV::Numeral { value: v1, sort: s1 },
            TermV::Numeral { value: v2, sort: s2 },
        ) => {
            assert(term_body(t1) + r1 =~= tok(zig(v1)) + (sort_text(s1) + r1));
            assert(term_body(t2) + r2 =~= tok(zig(v2)) + (sort_text(s2) + r2));
            lemma_tok_unamb(zig(v1), zig(v2), sort_text(s1) + r1, sort_text(s2) + r2);
            lemma_zig_inj(v1, v2);
            lemma_sort_unamb(s1, s2, r1, r2);
        },
        (TermV::Rational { num: n1, den: d1 }, TermV::Rational { num: n2, den: d2 }) => {
            assert(term_body(t1) + r1 =~= tok(zig(n1)) + (tok(zig(d1)) + r1));
            assert(term_body(t2) + r2 =~= tok(zig(n2)) + (tok(zig(d2)) + r2));
            lemma_tok_unamb(zig(n1), zig(n2), tok(zig(d1)) + r1, tok(zig(d2)) + r2);
            lemma_zig_inj(n1, n2);
            lemma_tok_unamb(zig(d1), zig(d2), r1, r2);
            lemma_zig_inj(d1, d2);
        },
        (
            TermV::Constant { name: n1, sort: s1 },
            TermV::Constant { name: n2, sort: s2 },
        ) => {
            assert(term_body(t1) + r1 =~= sym_code(n1) + (sort_text(s1) + r1));
            assert(term_body(t2) + r2 =~= sym_code(n2) + (sort_text(s2) + r2));
            lemma_sym_unamb(n1, n2, sort_text(s1) + r1, sort_text(s2) + r2);
            lemma_sort_unamb(s1, s2, r1, r2);
        },
        (TermV::App { .. }, TermV::App { .. }) => {
            lemma_text_unamb_app(t1, t2, r1, r2);
        },
        (TermV::PbApp { .. }, TermV::PbApp { .. }) => {
            lemma_text_unamb_pb(t1, t2, r1, r2);
        },
        (TermV::FuncApp { .. }, TermV::FuncApp { .. }) => {
            lemma_text_unamb_func(t1, t2, r1, r2);
        },
        (TermV::Quant { .. }, TermV::Quant { .. }) => {
            lemma_text_unamb_quant(t1, t2, r1, r2);
        },
        _ => {
            assert(false);
        },
    }
}

#[verifier::rlimit(100)]
proof fn lemma_text_unamb_app(t1: TermV, t2: TermV, r1: Seq<char>, r2: Seq<char>)
    requires
        t1 is App,
        t2 is App,
        term_body(t1) + r1 == term_body(t2) + r2,
    ensures
        t1 == t2,
        r1 == r2,
    decreases t1, 1nat,
{
    let o1 = t1->App_op;
    let a1 = t1->App_args;
    let o2 = t2->App_op;
    let a2 = t2->App_args;
    let u1 = tok(a1.len()) + (texts_code(a1) + r1);
    let u2 = tok(a2.len()) + (texts_code(a2) + r2);
    assert(term_body(t1) + r1 =~= tok(op_code(o1)) + (tok(op_p1(o1)) + (tok(op_p2(o1)) + u1)));
    assert(term_body(t2) + r2 =~= tok(op_code(o2)) + (tok(op_p1(o2)) + (tok(op_p2(o2)) + u2)));
    lemma_tok_unamb(
        op_code(o1),
        op_code(o2),
        tok(op_p1(o1)) + (tok(op_p2(o1)) + u1),
        tok(op_p1(o2)) + (tok(op_p2(o2)) + u2),
    );
    lemma_tok_unamb(op_p1(o1), op_p1(o2), tok(op_p2(o1)) + u1, tok(op_p2(o2)) + u2);
    lemma_tok_unamb(op_p2(o1), op_p2(o2), u1, u2);
    lemma_op_inj(o1, o2);
    lemma_tok_unamb(a1.len(), a2.len(), texts_code(a1) + r1, texts_code(a2) + r2);
    lemma_texts_unamb(a1, a2, r1, r2);
}

#[verifier::rlimit(100)]
proof fn lemma_pb_body_shape(t: TermV, r: Seq<char>)
    requires
        t is PbApp,
    ensures
        term_body(t) + r == tok(pb_code(t->PbApp_kind)) + (tok(zig(t->PbApp_k)) + (tok(
            t->PbApp_coeffs.len(),
        ) + (coeffs_code(t->PbApp_coeffs) + (tok(t->PbApp_args.len()) + (texts_code(
            t->PbApp_args,
        ) + r))))),
{
    let x0 = tok(pb_code(t->PbApp_kind));
    let x1 = tok(zig(t->PbApp_k));
    let x2 = tok(t->PbApp_coeffs.len());
    let x3 = coeffs_code(t->PbApp_coeffs);
    let x4 = tok(t->PbApp_args.len());
    let x5 = texts_code(t->PbApp_args);
    assert(term_body(t) == x0 + x1 + x2 + x3 + x4 + x5);
    lemma_assoc(x0 + x1 + x2 + x3 + x4, x5, r);
    lemma_assoc(x0 + x1 + x2 + x3, x4, x5 + r);
    lemma_assoc(x0 + x1 + x2, x3, x4 + (x5 + r));
    lemma_assoc(x0 + x1, x2, x3 + (x4 + (x5 + r)));
    lemma_assoc(x0, x1, x2 + (x3 + (x4 + (x5 + r))));
}

#[verifier::rlimit(100)]
proof fn lemma_text_unamb_pb(t1: TermV, t2: TermV, r1: Seq<char>, r2: Seq<char>)
    requires
        t1 is PbApp,
        t2 is PbApp,
        term_body(t1) + r1 == term_body(t2) + r2,
    ensures
        t1 == t2,
        r1 == r2,
    decreases t1, 1nat,
{
    let k1 = t1->PbApp_kind;
    let c1 = t1->PbApp_coeffs;
    let x1 = t1->PbApp_k;
    let a1 = t1->PbApp_args;
    let k2 = t2->PbApp_kind;
    let c2 = t2->PbApp_coeffs;
    let x2 = t2->PbApp_k;
    let a2 = t2->PbApp_args;
    let u1 = coeffs_code(c1) + (tok(a1.len()) + (texts_code(a1) + r1));
    let u2 = coeffs_code(c2) + (tok(a2.len()) + (texts_code(a2) + r2));
    lemma_pb_body_shape(t1, r1);
    lemma_pb_body_shape(t2, r2);
    assert(term_body(t1) + r1 == tok(pb_code(k1)) + (tok(zig(x1)) + (tok(c1.len()) + u1)));
    assert(term_body(t2) + r2 == tok(pb_code(k2)) + (tok(zig(x2)) + (tok(c2.len()) + u2)));
    lemma_tok_unamb(
        pb_code(k1),
        pb_code(k2),
        tok(zig(x1)) + (tok(c1.len()) + u1),
        tok(zig(x2)) + (tok(c2.len()) + u2),
    );
    lemma_tok_unamb(zig(x1), zig(x2), tok(c1.len()) + u1, tok(c2.len()) + u2);
    lemma_zig_inj(x1, x2);
    lemma_tok_unamb(c1.len(), c2.len(), u1, u2);
    lemma_coeffs_unamb(
        c1,
        c2,
        tok(a1.len()) + (texts_code(a1) + r1),
        tok(a2.len()) + (texts_code(a2) + r2),
    );
    lemma_tok_unamb(a1.len(), a2.len(), texts_code(a1) + r1, texts_code(a2) + r2);
    lemma_texts_unamb(a1, a2, r1, r2);
}

#[verifier::rlimit(100)]
proof fn lemma_text_unamb_func(t1: TermV, t2: TermV, r1: Seq<char>, r2: Seq<char>)
    requires
        t1 is FuncApp,
        t2 is FuncApp,
        term_body(t1) + r1 == term_body(t2) + r2,
    ensures
        t1 == t2,
        r1 == r2,
    decreases t1, 1nat,
{
    let d1 = t1->FuncApp_decl;
    let a1 = t1->FuncApp_args;
    let d2 = t2->FuncApp_decl;
    let a2 = t2->FuncApp_args;
    assert(term_body(t1) + r1 =~= decl_code(d1) + (tok(a1.len()) + (texts_code(a1) + r1)));
    assert(term_body(t2) + r2 =~= decl_code(d2) + (tok(a2.len()) + (texts_code(a2) + r2)));
    lemma_decl_unamb(
        d1,
        d2,
        tok(a1.len()) + (texts_code(a1) + r1),
        tok(a2.len()) + (texts_code(a2) + r2),
    );
    lemma_tok_unamb(a1.len(), a2.len(), texts_code(a1) + r1, texts_code(a2) + r2);
    lemma_texts_unamb(a1, a2, r1, r2);
}

#[verifier::rlimit(100)]
proof fn lemma_quant_body_shape(t: TermV, r: Seq<char>)
    requires
        t is Quant,
    ensures
        term_body(t) + r == tok(if t->Quant_is_forall { 1nat } else { 0nat }) + (tok(
            t->Quant_weight as nat,
        ) + (tok(t->Quant_bounds.len()) + (texts_code(t->Quant_bounds) + (tok(
            t->Quant_patterns.len(),
        ) + (pats_code(t->Quant_patterns) + (text_of(*t->Quant_body) + r)))))),
{
    let h = tok(if t->Quant_is_forall { 1nat } else { 0nat });
    let x0 = tok(t->Quant_weight as nat);
    let x1 = tok(t->Quant_bounds.len());
    let x2 = texts_code(t->Quant_bounds);
    let x3 = tok(t->Quant_patterns.len());
    let x4 = pats_code(t->Quant_patterns);
    let x5 = text_of(*t->Quant_body);
    assert(term_body(t) == h + x0 + x1 + x2 + x3 + x4 + x5);
    lemma_assoc(h + x0 + x1 + x2 + x3 + x4, x5, r);
    lemma_assoc(h + x0 + x1 + x2 + x3, x4, x5 + r);
    lemma_assoc(h + x0 + x1 + x2, x3, x4 + (x5 + r));
    lemma_assoc(h + x0 + x1, x2, x3 + (x4 + (x5 + r)));
    lemma_assoc(h + x0, x1, x2 + (x3 + (x4 + (x5 + r))));
    lemma_assoc(h, x0, x1 + (x2 + (x3 + (x4 + (x5 + r)))));
}

#[verifier::rlimit(100)]
proof fn lemma_text_unamb_quant(t1: TermV, t2: TermV, r1: Seq<char>, r2: Seq<char>)
    requires
        t1 is Quant,
        t2 is Quant,
        term_body(t1) + r1 == term_body(t2) + r2,
    ensures
        t1 == t2,
        r1 == r2,
    decreases t1, 1nat,
{
    let f1 = t1->Quant_is_forall;
    let w1 = t1->Quant_weight;
    let b1 = t1->Quant_bounds;
    let p1 = t1->Quant_patterns;
    let y1 = t1->Quant_body;
    let f2 = t2->Quant_is_forall;
    let w2 = t2->Quant_weight;
    let b2 = t2->Quant_bounds;
    let p2 = t2->Quant_patterns;
    let y2 = t2->Quant_body;
    let u1 = texts_code(b1) + (tok(p1.len()) + (pats_code(p1) + (text_of(*y1) + r1)));
    let u2 = texts_code(b2) + (tok(p2.len()) + (pats_code(p2) + (text_of(*y2) + r2)));
    lemma_quant_body_shape(t1, r1);
    lemma_quant_body_shape(t2, r2);
    assert(term_body(t1) + r1 == tok(if f1 { 1nat } else { 0nat }) + (tok(w1 as nat) + (tok(
        b1.len(),
    ) + u1)));
    assert(term_body(t2) + r2 == tok(if f2 { 1nat } else { 0nat }) + (tok(w2 as nat) + (tok(
        b2.len(),
    ) + u2)));
    lemma_tok_unamb(
        if f1 { 1nat } else { 0nat },
        if f2 { 1nat } else { 0nat },
        tok(w1 as nat) + (tok(b1.len()) + u1),
        tok(w2 as nat) + (tok(b2.len()) + u2),
    );
    lemma_tok_unamb(w1 as nat, w2 as nat, tok(b1.len()) + u1, tok(b2.len()) + u2);
    lemma_tok_unamb(b1.len(), b2.len(), u1, u2);
    lemma_texts_unamb(
        b1,
        b2,
        tok(p1.len()) + (pats_code(p1) + (text_of(*y1) + r1)),
        tok(p2.len()) + (pats_code(p2) + (text_of(*y2) + r2)),
    );
    lemma_tok_unamb(
        p1.len(),
        p2.len(),
        pats_code(p1) + (text_of(*y1) + r1),
        pats_code(p2) + (text_of(*y2) + r2),
    );
    lemma_pats_unamb(p1, p2, text_of(*y1) + r1, text_of(*y2) + r2);
    lemma_text_unamb(*y1, *y2, r1, r2);
}

pub proof fn lemma_texts_unamb(ts1: Seq<TermV>, ts2: Seq<TermV>, r1: Seq<char>, r2: Seq<char>)
    requires
        ts1.len() == ts2.len(),
        texts_code(ts1) + r1 == texts_code(ts2) + r2,
    ensures
        ts1 == ts2,
        r1 == r2,
    decreases ts1, 0nat,
{
    if ts1.len() == 0 {
        assert(r1 =~= r2);
        assert(ts1 =~= ts2);
    } else {
        assert(texts_code(ts1) + r1 =~= text_of(ts1[0]) + (texts_code(ts1.drop_first()) + r1));
        assert(texts_code(ts2) + r2 =~= text_of(ts2[0]) + (texts_code(ts2.drop_first()) + r2));
        lemma_text_unamb(
            ts1[0],
            ts2[0],
            texts_code(ts1.drop_first()) + r1,
            texts_code(ts2.drop_first()) + r2,
        );
        lemma_texts_unamb(ts1.drop_first(), ts2.drop_first(), r1, r2);
        assert(ts1 =~= ts2) by {
            assert forall|i: int| 0 <= i < ts1.len() implies ts1[i] == ts2[i] by {
                if i > 0 {
                    assert(ts1[i] == ts1.drop_first()[i - 1]);
                    assert(ts2[i] == ts2.drop_first()[i - 1]);
                }
            }
        };
    }
}

pub proof fn lemma_pats_unamb(
    ps1: Seq<Seq<TermV>>,
    ps2: Seq<Seq<TermV>>,
    r1: Seq<char>,
    r2: Seq<char>,
)
    requires
        ps1.len() == ps2.len(),
        pats_code(ps1) + r1 == pats_code(ps2) + r2,
    ensures
        ps1 == ps2,
        r1 == r2,
    decreases ps1, 0nat,
{
    if ps1.len() == 0 {
        assert(r1 =~= r2);
        assert(ps1 =~= ps2);
    } else {
        assert(pats_code(ps1) + r1 =~= tok(ps1[0].len()) + (texts_code(ps1[0]) + (pats_code(
            ps1.drop_first(),
        ) + r1)));
        assert(pats_code(ps2) + r2 =~= tok(ps2[0].len()) + (texts_code(ps2[0]) + (pats_code(
            ps2.drop_first(),
        ) + r2)));
        lemma_tok_unamb(
            ps1[0].len(),
            ps2[0].len(),
            texts_code(ps1[0]) + (pats_code(ps1.drop_first()) + r1),
            texts_code(ps2[0]) + (pats_code(ps2.drop_first()) + r2),
        );
        lemma_texts_unamb(
            ps1[0],
            ps2[0],
            pats_code(ps1.drop_first()) + r1,
            pats_code(ps2.drop_first()) + r2,
        );
        lemma_pats_unamb(ps1.drop_first(), ps2.drop_first(), r1, r2);
        assert(ps1 =~= ps2) by {
            assert forall|i: int| 0 <= i < ps1.len() implies ps1[i] == ps2[i] by {
                if i > 0 {
                    assert(ps1[i] == ps1.drop_first()[i - 1]);
                    assert(ps2[i] == ps2.drop_first()[i - 1]);
                }
            }
        };
    }
}

/// The canonical text determines the term: distinct terms have distinct
/// texts.
pub proof fn lemma_text_of_injective(t1: TermV, t2: TermV)
    requires
        text_of(t1) == text_of(t2),
    ensures
        t1 == t2,
{
    assert(text_of(t1) + Seq::<char>::empty() =~= text_of(t1));
    assert(text_of(t2) + Seq::<char>::empty() =~= text_of(t2));
    lemma_text_unamb(t1, t2, Seq::empty(), Seq::empty());
}

} // verus!
