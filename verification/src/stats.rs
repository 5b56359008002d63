use vstd::prelude::*;
use crate::solver::Solver;
use crate::text::{dec_chars, u64_to_dec};

verus! {

/// The rendered statistics, one parenthesized keyword/value pair per entry.
pub open spec fn stats_text(entries: Seq<(Seq<char>, u64)>) -> Seq<char>
    decreases entries.len(),
{
    if entries.len() == 0 {
        Seq::empty()
    } else {
        stats_text(entries.drop_last()) + "(:"@ + entries.last().0 + " "@ + dec_chars(
            entries.last().1 as nat,
        ) + ")"@
    }
}

/// Diagnostic counters read off a solver: named numeric entries.
pub struct Stats {
    ctx_id: u64,
    entries: Vec<(String, u64)>,
}

impl View for Stats {
    type V = Seq<(Seq<char>, u64)>;

    closed spec fn view(&self) -> Seq<(Seq<char>, u64)> {
        Seq::new(
            self.entries@.len(),
            |i: int|
                if 0 <= i < self.entries@.len() {
                    (self.entries@[i].0@, self.entries@[i].1)
                } else {
                    (Seq::empty(), 0u64)
                },
        )
    }
}

impl Stats {
    /// The identity of the owning context.
    pub closed spec fn ctx(self) -> u64 {
        self.ctx_id
    }

    /// The statistics this engine keeps of a solver: the count of assertions
    /// it currently holds.
    pub fn with_solver(solver: &Solver) -> (r: Stats)
        requires
            solver.asserts().len() <= u64::MAX,
        ensures
            r@ == seq![("assertions"@, solver.asserts().len() as u64)],
            r.ctx() == solver.ctx(),
    {
        let n = solver.assertion_count();
        let mut entries: Vec<(String, u64)> = Vec::new();
        entries.push((String::from_str("assertions"), n));
        let r = Stats { ctx_id: solver.ctx_exec(), entries };
        proof {
            assert(r@ =~= seq![("assertions"@, solver.asserts().len() as u64)]);
        }
        r
    }

    /// The canonical text of the statistics.
    pub fn to_text(&self) -> (r: String)
        ensures
            r@ == stats_text(self@),
    {
        let ghost ev = self@;
        let mut r = String::new();
        let mut i: usize = 0;
        proof {
            assert(ev.take(0) =~= Seq::<(Seq<char>, u64)>::empty());
        }
        while i < self.entries.len()
            invariant
                i <= self.entries@.len(),
                ev == self@,
                ev.len() == self.entries@.len(),
                r@ == stats_text(ev.take(i as int)),
            decreases self.entries@.len() - i,
        {
            r.append("(:");
            r.append(self.entries[i].0.as_str());
            r.append(" ");
            let d = u64_to_dec(self.entries[i].1);
            r.append(d.as_str());
            r.append(")");
            proof {
                assert(ev.take(i + 1).drop_last() =~= ev.take(i as int));
                assert(ev.take(i + 1).last() == ev[i as int]);
                assert(r@ =~= stats_text(ev.take(i + 1)));
            }
            i += 1;
        }
        proof {
            assert(ev.take(ev.len() as int) =~= ev);
        }
        r
    }
}

} // verus!
