use vstd::prelude::*;
use crate::context::Context;
use crate::sym::{SymData, SymV, sym_text, sym_to_text};
use crate::param_descrs::{ParamDescrs, ParamKind};
use crate::text::{dec_chars, u64_to_dec};

verus! {

/// A typed parameter value.
pub enum ParamValue {
    BoolValue { b: bool },
    UIntValue { u: u64 },
    SymValue { s: SymV },
}

enum ParamValueData {
    BoolValue { b: bool },
    UIntValue { u: u64 },
    SymValue { s: SymData },
}

impl ParamValueData {
    spec fn view(self) -> ParamValue {
        match self {
            ParamValueData::BoolValue { b } => ParamValue::BoolValue { b },
            ParamValueData::UIntValue { u } => ParamValue::UIntValue { u },
            ParamValueData::SymValue { s } => ParamValue::SymValue { s: s.view() },
        }
    }
}

/// The kind of descriptor a value satisfies.
pub open spec fn value_kind(v: ParamValue) -> ParamKind {
    match v {
        ParamValue::BoolValue { .. } => ParamKind::BoolParam,
        ParamValue::UIntValue { .. } => ParamKind::UIntParam,
        ParamValue::SymValue { .. } => ParamKind::SymParam,
    }
}

pub open spec fn param_value_text(v: ParamValue) -> Seq<char> {
    match v {
        ParamValue::BoolValue { b } => if b {
            "true"@
        } else {
            "false"@
        },
        ParamValue::UIntValue { u } => dec_chars(u as nat),
        ParamValue::SymValue { s } => sym_text(s),
    }
}

/// The rendered parameter list, one parenthesized key/value pair per entry.
pub open spec fn params_text(entries: Seq<(SymV, ParamValue)>) -> Seq<char>
    decreases entries.len(),
{
    if entries.len() == 0 {
        Seq::empty()
    } else {
        params_text(entries.drop_last()) + "("@ + sym_text(entries.last().0) + " "@
            + param_value_text(entries.last().1) + ")"@
    }
}

/// Setting a key that is already present replaces its value in place, as the
/// engine's parameter maps overwrite; a new key is appended.
pub open spec fn params_set(
    es: Seq<(SymV, ParamValue)>,
    k: SymV,
    v: ParamValue,
) -> Seq<(SymV, ParamValue)>
    decreases es.len(),
{
    if es.len() == 0 {
        seq![(k, v)]
    } else if es[0].0 == k {
        seq![(k, v)] + es.drop_first()
    } else {
        seq![es[0]] + params_set(es.drop_first(), k, v)
    }
}

proof fn lemma_params_set_hit(es: Seq<(SymV, ParamValue)>, k: SymV, v: ParamValue, i: int)
    requires
        0 <= i < es.len(),
        es[i].0 == k,
        forall|j: int| 0 <= j < i ==> (#[trigger] es[j]).0 != k,
    ensures
        params_set(es, k, v) == es.update(i, (k, v)),
    decreases i,
{
    if i == 0 {
        assert(params_set(es, k, v) =~= es.update(0, (k, v)));
    } else {
        let d = es.drop_first();
        assert(d[i - 1].0 == k);
        assert(forall|j: int| 0 <= j < i - 1 ==> (#[trigger] d[j]).0 != k);
        lemma_params_set_hit(d, k, v, i - 1);
        assert(params_set(es, k, v) =~= es.update(i, (k, v)));
    }
}

proof fn lemma_params_set_miss(es: Seq<(SymV, ParamValue)>, k: SymV, v: ParamValue)
    requires
        forall|j: int| 0 <= j < es.len() ==> (#[trigger] es[j]).0 != k,
    ensures
        params_set(es, k, v) == es.push((k, v)),
    decreases es.len(),
{
    if es.len() == 0 {
        assert(params_set(es, k, v) =~= es.push((k, v)));
    } else {
        let d = es.drop_first();
        lemma_params_set_miss(d, k, v);
        assert(params_set(es, k, v) =~= es.push((k, v)));
    }
}

/// Every set parameter is described, with a matching kind.
pub open spec fn params_valid(
    entries: Seq<(SymV, ParamValue)>,
    descrs: Seq<(SymV, ParamKind)>,
) -> bool {
    forall|i: int|
        0 <= i < entries.len() ==> exists|j: int|
            0 <= j < descrs.len() && #[trigger] descrs[j].0 == (#[trigger] entries[i]).0
                && descrs[j].1 == value_kind(entries[i].1)
}

/// A set of key/value engine options; values are set, never read back.
pub struct Params {
    ctx_id: u64,
    entries: Vec<(SymData, ParamValueData)>,
}

impl View for Params {
    type V = Seq<(SymV, ParamValue)>;

    closed spec fn view(&self) -> Seq<(SymV, ParamValue)> {
        Seq::new(
            self.entries@.len(),
            |i: int|
                if 0 <= i < self.entries@.len() {
                    (self.entries@[i].0.view(), self.entries@[i].1.view())
                } else {
                    (SymV::Num { i: 0 }, ParamValue::BoolValue { b: false })
                },
        )
    }
}

impl Params {
    /// The identity of the owning context.
    pub closed spec fn ctx(self) -> u64 {
        self.ctx_id
    }

    pub fn new(ctx: &Context) -> (r: Params)
        ensures
            r.ctx() == ctx.id(),
            r@ == Seq::<(SymV, ParamValue)>::empty(),
    {
        let r = Params { ctx_id: ctx.id_exec(), entries: Vec::new() };
        proof {
            assert(r@ =~= Seq::<(SymV, ParamValue)>::empty());
        }
        r
    }

    /// Sets or replaces the entry for the key.
    fn set_value(&mut self, k: &crate::sym::Symbol, val: ParamValueData)
        ensures
            final(self).ctx() == old(self).ctx(),
            final(self)@ == params_set(old(self)@, k@, val.view()),
    {
        let kd = k.data_dup();
        let n = self.entries.len();
        let mut i: usize = 0;
        while i < n
            invariant
                i <= n,
                n == self.entries@.len(),
                *self == *old(self),
                kd.view() == k@,
                forall|j: int| 0 <= j < i ==> (#[trigger] old(self)@[j]).0 != k@,
            decreases n - i,
        {
            if self.entries[i].0.sym_eq(&kd) {
                proof {
                    assert(old(self)@[i as int].0 == k@);
                }
                self.entries[i] = (kd, val);
                proof {
                    assert(self@ =~= old(self)@.update(i as int, (k@, val.view())));
                    lemma_params_set_hit(old(self)@, k@, val.view(), i as int);
                }
                return;
            }
            proof {
                assert(old(self)@[i as int].0 != k@);
            }
            i += 1;
        }
        self.entries.push((kd, val));
        proof {
            assert(self@ =~= old(self)@.push((k@, val.view())));
            lemma_params_set_miss(old(self)@, k@, val.view());
        }
    }

    pub fn set_bool(&mut self, k: &crate::sym::Symbol, v: bool)
        requires
            k.ctx() == old(self).ctx(),
        ensures
            final(self).ctx() == old(self).ctx(),
            final(self)@ == params_set(old(self)@, k@, ParamValue::BoolValue { b: v }),
    {
        self.set_value(k, ParamValueData::BoolValue { b: v });
    }

    pub fn set_uint(&mut self, k: &crate::sym::Symbol, v: usize)
        requires
            k.ctx() == old(self).ctx(),
            v <= u32::MAX as usize,
        ensures
            final(self).ctx() == old(self).ctx(),
            final(self)@ == params_set(old(self)@, k@, ParamValue::UIntValue { u: v as u64 }),
    {
        self.set_value(k, ParamValueData::UIntValue { u: v as u64 });
    }

    pub fn set_symbol(&mut self, k: &crate::sym::Symbol, v: &crate::sym::Symbol)
        requires
            k.ctx() == old(self).ctx(),
            v.ctx() == old(self).ctx(),
        ensures
            final(self).ctx() == old(self).ctx(),
            final(self)@ == params_set(old(self)@, k@, ParamValue::SymValue { s: v@ }),
    {
        self.set_value(k, ParamValueData::SymValue { s: v.data_dup() });
    }

    /// Checks this parameter set against a descriptor set; handing the
    /// engine a parameter it does not describe is a caller error.
    pub fn validate(&self, d: &ParamDescrs)
        requires
            d.ctx() == self.ctx(),
            params_valid(self@, d@),
    {
    }

    /// The canonical text of the parameter list.
    pub fn to_text(&self) -> (r: String)
        ensures
            r@ == params_text(self@),
    {
        let ghost ev = self@;
        let mut r = String::new();
        let mut i: usize = 0;
        proof {
            assert(ev.take(0) =~= Seq::<(SymV, ParamValue)>::empty());
        }
        while i < self.entries.len()
            invariant
                i <= self.entries@.len(),
                ev == self@,
                ev.len() == self.entries@.len(),
                r@ == params_text(ev.take(i as int)),
            decreases self.entries@.len() - i,
        {
            r.append("(");
            let n = sym_to_text(&self.entries[i].0);
            r.append(n.as_str());
            r.append(" ");
            match &self.entries[i].1 {
                ParamValueData::BoolValue { b } => {
                    if *b {
                        r.append("true");
                    } else {
                        r.append("false");
                    }
                },
                ParamValueData::UIntValue { u } => {
                    let d = u64_to_dec(*u);
                    r.append(d.as_str());
                },
                ParamValueData::SymValue { s } => {
                    let t = sym_to_text(s);
                    r.append(t.as_str());
                },
            }
            r.append(")");
            proof {
                assert(ev.take(i + 1).drop_last() =~= ev.take(i as int));
                assert(ev.take(i + 1).last() == ev[i as int]);
                assert(r@ =~= params_text(ev.take(i + 1)));
            }
            i += 1;
        }
        proof {
            assert(ev.take(ev.len() as int) =~= ev);
        }
        r
    }
}

} // verus!
