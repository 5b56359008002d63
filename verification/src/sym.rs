use vstd::prelude::*;
use crate::text::{dec_chars, u64_to_dec};

verus! {

/// Spec-level model of an interned symbol: either a number or a name.
pub enum SymV {
    Num { i: u32 },
    Name { s: Seq<char> },
}

/// Executable representation of a symbol's content.
#[derive(Debug)]
pub enum SymData {
    Num { i: u32 },
    Name { s: String },
}

impl SymData {
    pub open spec fn view(self) -> SymV {
        match self {
            SymData::Num { i } => SymV::Num { i },
            SymData::Name { s } => SymV::Name { s: s@ },
        }
    }

    pub fn duplicate(&self) -> (r: SymData)
        ensures
            r.view() == self.view(),
    {
        match self {
            SymData::Num { i } => SymData::Num { i: *i },
            SymData::Name { s } => SymData::Name { s: s.clone() },
        }
    }

    pub fn sym_eq(&self, other: &SymData) -> (r: bool)
        ensures
            r == (self.view() == other.view()),
    {
        match (self, other) {
            (SymData::Num { i: a }, SymData::Num { i: b }) => a == b,
            (SymData::Name { s: a }, SymData::Name { s: b }) => {
                let r = a.eq(b);
                proof {
                    if r {
                        assert(self.view() == other.view());
                    }
                }
                r
            },
            _ => {
                proof {
                    assert(self.view() != other.view());
                }
                false
            },
        }
    }
}

/// Canonical text of a symbol: a numbered symbol renders as `k!` followed by
/// its number; a named symbol renders as its name.
pub open spec fn sym_text(s: SymV) -> Seq<char> {
    match s {
        SymV::Num { i } => seq!['k', '!'] + dec_chars(i as nat),
        SymV::Name { s } => s,
    }
}

pub fn sym_to_text(s: &SymData) -> (r: String)
    ensures
        r@ == sym_text(s.view()),
{
    match s {
        SymData::Num { i } => {
            proof {
                reveal_strlit("k!");
            }
            let mut t = String::from_str("k!");
            let d = u64_to_dec(*i as u64);
            t.append(d.as_str());
            proof {
                assert(t@ =~= sym_text(s.view()));
            }
            t
        },
        SymData::Name { s: name } => name.clone(),
    }
}

/// A symbol interned in a context: the name of a constant, sort or function.
pub struct Symbol {
    pub(crate) ctx_id: u64,
    pub(crate) data: SymData,
}

impl View for Symbol {
    type V = SymV;

    closed spec fn view(&self) -> SymV {
        self.data.view()
    }
}

impl Symbol {
    /// The identity of the owning context.
    pub closed spec fn ctx(self) -> u64 {
        self.ctx_id
    }

    pub fn from_int(ctx: &crate::context::Context, i: u32) -> (r: Symbol)
        ensures
            r@ == (SymV::Num { i }),
            r.ctx() == ctx.id(),
    {
        Symbol { ctx_id: ctx.id_exec(), data: SymData::Num { i } }
    }

    pub fn from_string(ctx: &crate::context::Context, s: &str) -> (r: Symbol)
        ensures
            r@ == (SymV::Name { s: s@ }),
            r.ctx() == ctx.id(),
    {
        Symbol { ctx_id: ctx.id_exec(), data: SymData::Name { s: s.to_owned() } }
    }

    pub(crate) fn ctx_exec(&self) -> (r: u64)
        ensures
            r == self.ctx(),
    {
        self.ctx_id
    }

    pub(crate) fn data_dup(&self) -> (r: SymData)
        ensures
            r.view() == self@,
    {
        self.data.duplicate()
    }
}

} // verus!
