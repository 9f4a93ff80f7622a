use crate::ast::{Ast, Node};
use vstd::prelude::*;

verus! {

/// The user procedures defined so far, by name. Defining a name again replaces
/// its earlier definition. The entries are kept as a list of pairs: with
/// `String` keys, a `HashMap` lets nothing be proved about its lookups.
pub struct ProcTable {
    entries: Vec<(String, Node)>,
}

/// The map that a list of definitions stands for: a later entry overrides an
/// earlier one of the same name.
pub open spec fn defs_map(s: Seq<(String, Node)>) -> Map<Seq<char>, Ast>
    decreases s.len(),
{
    if s.len() == 0 {
        Map::empty()
    } else {
        defs_map(s.drop_last()).insert(s.last().0@, s.last().1@)
    }
}

proof fn lemma_defs_map_dom(s: Seq<(String, Node)>, name: Seq<char>)
    ensures
        defs_map(s).dom().contains(name) <==> exists|k: int| 0 <= k < s.len() && s[k].0@ == name,
    decreases s.len(),
{
    if s.len() > 0 {
        let p = s.drop_last();
        lemma_defs_map_dom(p, name);
        if exists|k: int| 0 <= k < p.len() && p[k].0@ == name {
            let k = choose|k: int| 0 <= k < p.len() && p[k].0@ == name;
            assert(s[k] == p[k]);
        }
        if exists|k: int| 0 <= k < s.len() && s[k].0@ == name {
            let k = choose|k: int| 0 <= k < s.len() && s[k].0@ == name;
            if k < p.len() {
                assert(p[k] == s[k]);
            }
        }
    }
}

impl View for ProcTable {
    type V = Map<Seq<char>, Ast>;

    closed spec fn view(&self) -> Map<Seq<char>, Ast> {
        defs_map(self.entries@)
    }
}

impl ProcTable {
    /// A table with no procedures.
    pub fn new() -> (r: ProcTable)
        ensures
            r@ == Map::<Seq<char>, Ast>::empty(),
    {
        ProcTable { entries: Vec::new() }
    }

    /// Defines `name` as `def`, replacing any earlier definition.
    pub fn insert(&mut self, name: String, def: Node)
        ensures
            final(self)@ == old(self)@.insert(name@, def@),
    {
        let ghost before = self.entries@;
        self.entries.push((name, def));
        assert(self.entries@.drop_last() =~= before);
    }

    /// Whether a procedure of this name is defined.
    pub fn contains_key(&self, name: &String) -> (r: bool)
        ensures
            r == self@.dom().contains(name@),
    {
        let mut i: usize = 0;
        while i < self.entries.len()
            invariant
                i <= self.entries.len(),
                forall|k: int| 0 <= k < i ==> (#[trigger] self.entries@[k]).0@ != name@,
            decreases self.entries.len() - i,
        {
            if self.entries[i].0 == *name {
                proof {
                    lemma_defs_map_dom(self.entries@, name@);
                    assert(self.entries@[i as int].0@ == name@);
                }
                return true;
            }
            i = i + 1;
        }
        proof {
            lemma_defs_map_dom(self.entries@, name@);
        }
        false
    }
}

} // verus!
