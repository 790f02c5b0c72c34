use vstd::prelude::*;
use vstd::string::*;

use crate::code::str_eq;

verus! {

/// The architecture's reserved names and their addresses.
pub open spec fn predefined() -> Map<Seq<char>, u16> {
    map![
        "R0"@ => 0u16, "R1"@ => 1u16, "R2"@ => 2u16, "R3"@ => 3u16,
        "R4"@ => 4u16, "R5"@ => 5u16, "R6"@ => 6u16, "R7"@ => 7u16,
        "R8"@ => 8u16, "R9"@ => 9u16, "R10"@ => 10u16, "R11"@ => 11u16,
        "R12"@ => 12u16, "R13"@ => 13u16, "R14"@ => 14u16, "R15"@ => 15u16,
        "SP"@ => 0u16, "LCL"@ => 1u16, "ARG"@ => 2u16, "THIS"@ => 3u16,
        "THAT"@ => 4u16, "SCREEN"@ => 16384u16, "KBD"@ => 24576u16,
    ]
}

/// Names bound to 16-bit addresses.
pub struct SymbolTable {
    pub entries: Vec<(String, u16)>,
}

impl SymbolTable {
    /// No name is bound twice.
    pub open spec fn wf(&self) -> bool {
        forall|i: int, j: int|
            0 <= i < j < self.entries@.len() ==> self.entries@[i].0@ != self.entries@[j].0@
    }

    /// Whether some entry binds `k`.
    pub open spec fn binds(&self, k: Seq<char>) -> bool {
        exists|i: int| 0 <= i < self.entries@.len() && self.entries@[i].0@ == k
    }

    /// The entry that binds `k`.
    pub open spec fn slot(&self, k: Seq<char>) -> int {
        choose|i: int| 0 <= i < self.entries@.len() && self.entries@[i].0@ == k
    }

    /// Each bound name and its address.
    pub open spec fn view(&self) -> Map<Seq<char>, u16> {
        Map::new(|k: Seq<char>| self.binds(k), |k: Seq<char>| self.entries@[self.slot(k)].1)
    }

    /// Every entry of a well-formed table is what the view gives for its name.
    proof fn lemma_slot(&self, i: int)
        requires
            self.wf(),
            0 <= i < self.entries@.len(),
        ensures
            self@.contains_key(self.entries@[i].0@),
            self@[self.entries@[i].0@] == self.entries@[i].1,
    {
        let k = self.entries@[i].0@;
        assert(self.binds(k));
        let s = self.slot(k);
        assert(s == i) by {
            if s < i {
            } else if i < s {
            }
        }
    }

    /// Where `symbol` is bound, if it is.
    fn find(&self, symbol: &str) -> (r: Option<usize>)
        requires
            self.wf(),
        ensures
            r is None <==> !self@.contains_key(symbol@),
            r matches Some(i) ==> i < self.entries@.len() && self.entries@[i as int].0@ == symbol@,
    {
        let mut i: usize = 0;
        while i < self.entries.len()
            invariant
                i <= self.entries@.len(),
                forall|j: int| 0 <= j < i ==> self.entries@[j].0@ != symbol@,
            decreases self.entries@.len() - i,
        {
            if str_eq(self.entries[i].0.as_str(), symbol) {
                return Some(i);
            }
            i = i + 1;
        }
        None
    }

    /// A table that holds the reserved names alone.
    pub fn new() -> (r: Self)
        ensures
            r.wf(),
            r@ == predefined(),
    {
        let mut t = SymbolTable { entries: Vec::new() };
        assert(t@ =~= Map::empty());
        t.add_entry("R0", 0);
        t.add_entry("R1", 1);
        t.add_entry("R2", 2);
        t.add_entry("R3", 3);
        t.add_entry("R4", 4);
        t.add_entry("R5", 5);
        t.add_entry("R6", 6);
        t.add_entry("R7", 7);
        t.add_entry("R8", 8);
        t.add_entry("R9", 9);
        t.add_entry("R10", 10);
        t.add_entry("R11", 11);
        t.add_entry("R12", 12);
        t.add_entry("R13", 13);
        t.add_entry("R14", 14);
        t.add_entry("R15", 15);
        t.add_entry("SP", 0);
        t.add_entry("LCL", 1);
        t.add_entry("ARG", 2);
        t.add_entry("THIS", 3);
        t.add_entry("THAT", 4);
        t.add_entry("SCREEN", 16384);
        t.add_entry("KBD", 24576);
        t
    }

    /// Binds `symbol` to `address`, replacing an earlier binding of it.
    pub fn add_entry(&mut self, symbol: &str, address: u16)
        requires
            old(self).wf(),
        ensures
            final(self).wf(),
            final(self)@ == old(self)@.insert(symbol@, address),
    {
        let ghost before: SymbolTable = *self;
        let ghost key = symbol@;
        match self.find(symbol) {
            Some(i) => {
                self.entries.set(i, (String::from_str(symbol), address));
                assert forall|k: Seq<char>| self@.contains_key(k) implies before@.insert(key, address).contains_key(k)
                    && self@[k] == before@.insert(key, address)[k] by {
                    let j = self.slot(k);
                    self.lemma_slot(j);
                    if j != i {
                        before.lemma_slot(j);
                    }
                }
                assert forall|k: Seq<char>| before@.insert(key, address).contains_key(k) implies self@.contains_key(k) by {
                    if k != key {
                        let j = before.slot(k);
                        assert(self.entries@[j].0@ == k);
                    } else {
                        assert(self.entries@[i as int].0@ == k);
                    }
                }
            },
            None => {
                self.entries.push((String::from_str(symbol), address));
                let ghost n = before.entries@.len() as int;
                assert(self.entries@[n].0@ == key);
                assert forall|k: Seq<char>| self@.contains_key(k) implies before@.insert(key, address).contains_key(k)
                    && self@[k] == before@.insert(key, address)[k] by {
                    let j = self.slot(k);
                    self.lemma_slot(j);
                    if j != n {
                        before.lemma_slot(j);
                    }
                }
                assert forall|k: Seq<char>| before@.insert(key, address).contains_key(k) implies self@.contains_key(k) by {
                    if k != key {
                        let j = before.slot(k);
                        assert(self.entries@[j].0@ == k);
                    }
                }
            },
        }
        assert(self@ =~= before@.insert(key, address));
    }

    /// Whether `symbol` is bound.
    pub fn contains(&self, symbol: &str) -> (r: bool)
        requires
            self.wf(),
        ensures
            r == self@.contains_key(symbol@),
    {
        self.find(symbol).is_some()
    }

    /// The address bound to `symbol`, which must be bound.
    pub fn get_address(&self, symbol: &str) -> (r: u16)
        requires
            self.wf(),
            self@.contains_key(symbol@),
        ensures
            r == self@[symbol@],
    {
        match self.find(symbol) {
            Some(i) => {
                proof { self.lemma_slot(i as int); }
                self.entries[i].1
            },
            None => 0,
        }
    }
}

} // verus!
