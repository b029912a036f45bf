//! The register table: a mapping from names (single characters and longer
//! strings share one namespace) to values. Stores append; lookups find the
//! most recent entry, so a later store shadows an earlier one and nothing
//! is ever implicitly deleted.

use crate::value::{Value, ValueV};
use vstd::prelude::*;

verus! {

/// One register binding.
#[derive(Debug)]
pub struct RegEntry {
    pub name: Vec<char>,
    pub val: Value,
}

impl View for RegEntry {
    type V = (Seq<char>, ValueV);

    open spec fn view(&self) -> (Seq<char>, ValueV) {
        (self.name@, self.val@)
    }
}

/// The value bound to `name`, if any: the most recent binding wins.
pub open spec fn spec_lookup(regs: Seq<(Seq<char>, ValueV)>, name: Seq<char>) -> Option<ValueV>
    decreases regs.len(),
{
    if regs.len() == 0 {
        None
    } else if regs.last().0 == name {
        Some(regs.last().1)
    } else {
        spec_lookup(regs.drop_last(), name)
    }
}

/// In a table of well-formed values, whatever a lookup finds is well
/// formed.
pub proof fn lemma_lookup_wf(regs: Seq<(Seq<char>, ValueV)>, name: Seq<char>)
    requires
        regs_v_wf(regs),
        spec_lookup(regs, name) is Some,
    ensures
        spec_lookup(regs, name)->Some_0.wf(),
    decreases regs.len(),
{
    if regs.len() > 0 {
        if regs.last().0 == name {
            assert(regs.last() == regs[regs.len() - 1]);
        } else {
            assert(regs_v_wf(regs.drop_last())) by {
                assert(forall|i: int|
                    0 <= i < regs.drop_last().len() ==> regs.drop_last()[i] == regs[i]);
            }
            lemma_lookup_wf(regs.drop_last(), name);
        }
    }
}

/// The register table.
#[derive(Debug)]
pub struct Registers {
    pub entries: Vec<RegEntry>,
}

impl View for Registers {
    type V = Seq<(Seq<char>, ValueV)>;

    open spec fn view(&self) -> Seq<(Seq<char>, ValueV)> {
        self.entries@.map_values(|e: RegEntry| e@)
    }
}

/// All values in a register table are well formed.
pub open spec fn regs_v_wf(regs: Seq<(Seq<char>, ValueV)>) -> bool {
    forall|i: int| 0 <= i < regs.len() ==> (#[trigger] regs[i]).1.wf()
}

impl Registers {
    /// An empty register table.
    pub fn new() -> (r: Registers)
        ensures
            r@ == Seq::<(Seq<char>, ValueV)>::empty(),
    {
        let r = Registers { entries: Vec::new() };
        proof {
            assert(r@ =~= Seq::<(Seq<char>, ValueV)>::empty());
        }
        r
    }

    /// Binds `name` to `val`, shadowing any earlier binding.
    pub fn store(&mut self, name: Vec<char>, val: Value)
        ensures
            final(self)@ == old(self)@.push((name@, val@)),
    {
        let ghost nv = name@;
        let ghost vv = val@;
        self.entries.push(RegEntry { name, val });
        proof {
            assert(self@ =~= old(self)@.push((nv, vv)));
        }
    }

    /// The value bound to `name`, if any.
    pub fn get(&self, name: &Vec<char>) -> (r: Option<&Value>)
        ensures
            match r {
                Some(v) => spec_lookup(self@, name@) == Some(v@),
                None => spec_lookup(self@, name@) is None,
            },
    {
        let mut i: usize = self.entries.len();
        proof {
            assert(self@.take(self@.len() as int) =~= self@);
        }
        while i > 0
            invariant
                0 <= i <= self.entries@.len(),
                self@.len() == self.entries@.len(),
                spec_lookup(self@, name@) == spec_lookup(self@.take(i as int), name@),
            decreases i,
        {
            i = i - 1;
            if crate::value::chars_eq(&self.entries[i].name, name) {
                proof {
                    assert(self@.take(i + 1).last() == self@[i as int]);
                    assert(self@[i as int] == self.entries@[i as int]@);
                }
                return Some(&self.entries[i].val);
            }
            proof {
                assert(self@.take(i + 1).last() == self@[i as int]);
                assert(self@[i as int] == self.entries@[i as int]@);
                assert(self@.take(i + 1).drop_last() =~= self@.take(i as int));
            }
        }
        proof {
            assert(self@.take(0) =~= Seq::<(Seq<char>, ValueV)>::empty());
        }
        None
    }
}

} // verus!
