use vstd::prelude::*;
use crate::sym::{SymData, SymV, sym_text, sym_to_text};

verus! {

/// The kind of value a parameter accepts.
#[derive(Clone, Copy, PartialEq, Eq, Structural, Debug)]
pub enum ParamKind {
    BoolParam,
    UIntParam,
    SymParam,
}

pub open spec fn param_kind_text(k: ParamKind) -> Seq<char> {
    match k {
        ParamKind::BoolParam => "bool"@,
        ParamKind::UIntParam => "uint"@,
        ParamKind::SymParam => "symbol"@,
    }
}

/// The descriptors of the parameters a solver component accepts: each
/// parameter's name with the kind of value it takes.
pub struct ParamDescrs {
    ctx_id: u64,
    entries: Vec<(SymData, ParamKind)>,
}

impl View for ParamDescrs {
    type V = Seq<(SymV, ParamKind)>;

    closed spec fn view(&self) -> Seq<(SymV, ParamKind)> {
        Seq::new(
            self.entries@.len(),
            |i: int|
                if 0 <= i < self.entries@.len() {
                    (self.entries@[i].0.view(), self.entries@[i].1)
                } else {
                    (SymV::Num { i: 0 }, ParamKind::BoolParam)
                },
        )
    }
}

/// The rendered descriptor list, one parenthesized name/kind pair per entry.
pub open spec fn descrs_text(entries: Seq<(SymV, ParamKind)>) -> Seq<char>
    decreases entries.len(),
{
    if entries.len() == 0 {
        Seq::empty()
    } else {
        descrs_text(entries.drop_last()) + "("@ + sym_text(entries.last().0) + " "@
            + param_kind_text(entries.last().1) + ")"@
    }
}

impl ParamDescrs {
    /// The identity of the owning context.
    pub closed spec fn ctx(self) -> u64 {
        self.ctx_id
    }

    pub(crate) fn new(ctx_id: u64, entries: Vec<(SymData, ParamKind)>) -> (r: ParamDescrs)
        ensures
            r.ctx() == ctx_id,
            r@.len() == entries@.len(),
            forall|i: int|
                0 <= i < entries@.len() ==> r@[i] == (entries@[i].0.view(), entries@[i].1),
    {
        ParamDescrs { ctx_id, entries }
    }

    /// The canonical text of the descriptor list.
    pub fn to_text(&self) -> (r: String)
        ensures
            r@ == descrs_text(self@),
    {
        let ghost ev = self@;
        let mut r = String::new();
        let mut i: usize = 0;
        proof {
            assert(ev.take(0) =~= Seq::<(SymV, ParamKind)>::empty());
        }
        while i < self.entries.len()
            invariant
                i <= self.entries@.len(),
                ev == self@,
                ev.len() == self.entries@.len(),
                r@ == descrs_text(ev.take(i as int)),
            decreases self.entries@.len() - i,
        {
            r.append("(");
            let n = sym_to_text(&self.entries[i].0);
            r.append(n.as_str());
            r.append(" ");
            let k = match self.entries[i].1 {
                ParamKind::BoolParam => "bool",
                ParamKind::UIntParam => "uint",
                ParamKind::SymParam => "symbol",
            };
            r.append(k);
            r.append(")");
            proof {
                assert(ev.take(i + 1).drop_last() =~= ev.take(i as int));
                assert(ev.take(i + 1).last() == ev[i as int]);
                assert(r@ =~= descrs_text(ev.take(i + 1)));
            }
            i += 1;
        }
        proof {
            assert(ev.take(ev.len() as int) =~= ev);
        }
        r
    }
}

} // verus!
