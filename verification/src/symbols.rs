//! The symbol table: a mapping from identifier text to 16-bit addresses,
//! seeded with the architecture-defined names, plus a counter handing out the
//! next free variable address (starting at 16).
use crate::text::str_eq;
use vstd::prelude::*;
use vstd::string::StringExecFns;

verus! {

/// The mapping held by an entry list, entries at earlier positions shadowing
/// later ones.
pub open spec fn assoc_map(entries: Seq<(Seq<char>, u16)>) -> Map<Seq<char>, u16>
    decreases entries.len(),
{
    if entries.len() == 0 {
        Map::empty()
    } else {
        assoc_map(entries.drop_first()).insert(entries[0].0, entries[0].1)
    }
}

/// Helper for reading entry views: the pair with the key as a character
/// sequence.
pub open spec fn entry_view(p: (String, u16)) -> (Seq<char>, u16) {
    (p.0@, p.1)
}

proof fn lemma_assoc_first_match(s: Seq<(Seq<char>, u16)>, name: Seq<char>, i: int)
    requires
        0 <= i < s.len(),
        forall|k: int| 0 <= k < i ==> s[k].0 != name,
        s[i].0 == name,
    ensures
        assoc_map(s).dom().contains(name),
        assoc_map(s)[name] == s[i].1,
    decreases i,
{
    if i > 0 {
        lemma_assoc_first_match(s.drop_first(), name, i - 1);
    }
}

proof fn lemma_assoc_no_match(s: Seq<(Seq<char>, u16)>, name: Seq<char>)
    requires
        forall|k: int| 0 <= k < s.len() ==> s[k].0 != name,
    ensures
        !assoc_map(s).dom().contains(name),
    decreases s.len(),
{
    if s.len() > 0 {
        lemma_assoc_no_match(s.drop_first(), name);
    }
}

/// The fixed bindings every assembly run starts from: the architectural
/// pointers and memory-mapped devices, and the sixteen register names.
pub open spec fn seeded_map() -> Map<Seq<char>, u16> {
    Map::empty().insert("SP"@, 0).insert("LCL"@, 1).insert("ARG"@, 2).insert("THIS"@, 3).insert(
        "THAT"@,
        4,
    ).insert("SCREEN"@, 0x4000).insert("KBD"@, 0x6000).insert("R0"@, 0).insert("R1"@, 1).insert(
        "R2"@,
        2,
    ).insert("R3"@, 3).insert("R4"@, 4).insert("R5"@, 5).insert("R6"@, 6).insert("R7"@, 7).insert(
        "R8"@,
        8,
    ).insert("R9"@, 9).insert("R10"@, 10).insert("R11"@, 11).insert("R12"@, 12).insert(
        "R13"@,
        13,
    ).insert("R14"@, 14).insert("R15"@, 15)
}

/// Maps symbolic names to 16-bit addresses. Once a variable address is handed
/// out, the counter only grows; a `register`-style `add` overwrites (last
/// write wins), matching the label registration pass.
#[derive(Debug, Clone)]
pub struct SymbolTable {
    entries: Vec<(String, u16)>,
    var_counter: u16,
}

impl SymbolTable {
    /// The mapping from names to addresses that this table currently holds.
    pub closed spec fn addr_map(&self) -> Map<Seq<char>, u16> {
        assoc_map(self.entries@.map_values(|p: (String, u16)| entry_view(p)))
    }

    /// The next address a fresh variable would receive.
    pub closed spec fn next_free(&self) -> u16 {
        self.var_counter
    }

    /// A table seeded with the architectural names, whose first free variable
    /// address is 16.
    pub fn new() -> (t: SymbolTable)
        ensures
            t.addr_map() == seeded_map(),
            t.next_free() == 16,
    {
        let mut t = SymbolTable { entries: Vec::new(), var_counter: 16 };
        proof {
            assert(t.entries@.map_values(|p: (String, u16)| entry_view(p)) =~= Seq::empty());
        }
        t.add(String::from_str("SP"), 0);
        t.add(String::from_str("LCL"), 1);
        t.add(String::from_str("ARG"), 2);
        t.add(String::from_str("THIS"), 3);
        t.add(String::from_str("THAT"), 4);
        t.add(String::from_str("SCREEN"), 0x4000);
        t.add(String::from_str("KBD"), 0x6000);
        t.add(String::from_str("R0"), 0);
        t.add(String::from_str("R1"), 1);
        t.add(String::from_str("R2"), 2);
        t.add(String::from_str("R3"), 3);
        t.add(String::from_str("R4"), 4);
        t.add(String::from_str("R5"), 5);
        t.add(String::from_str("R6"), 6);
        t.add(String::from_str("R7"), 7);
        t.add(String::from_str("R8"), 8);
        t.add(String::from_str("R9"), 9);
        t.add(String::from_str("R10"), 10);
        t.add(String::from_str("R11"), 11);
        t.add(String::from_str("R12"), 12);
        t.add(String::from_str("R13"), 13);
        t.add(String::from_str("R14"), 14);
        t.add(String::from_str("R15"), 15);
        t
    }

    /// Insert or overwrite a binding; used to register label addresses.
    pub fn add(&mut self, symbol: String, addr: u16)
        ensures
            final(self).addr_map() == old(self).addr_map().insert(symbol@, addr),
            final(self).next_free() == old(self).next_free(),
    {
        let ghost before = self.entries@.map_values(|p: (String, u16)| entry_view(p));
        self.entries.insert(0, (symbol, addr));
        proof {
            let after = self.entries@.map_values(|p: (String, u16)| entry_view(p));
            assert(after.drop_first() =~= before);
            assert(after[0] == entry_view(self.entries@[0]));
        }
    }

    /// Bind `symbol` to the next free variable address and return that
    /// address; later variables receive the following addresses in order.
    pub fn add_variable(&mut self, symbol: String) -> (addr: u16)
        requires
            old(self).next_free() < 0xFFFF,
        ensures
            addr == old(self).next_free(),
            final(self).addr_map() == old(self).addr_map().insert(symbol@, addr),
            final(self).next_free() == old(self).next_free() + 1,
    {
        let out: u16 = self.var_counter;
        self.add(symbol, out);
        self.var_counter = self.var_counter + 1;
        out
    }

    /// Whether `symbol` is bound.
    pub fn contains(&self, symbol: &str) -> (r: bool)
        ensures
            r == self.addr_map().dom().contains(symbol@),
    {
        self.addr_of(symbol).is_some()
    }

    /// The address bound to `symbol`, if any.
    pub fn addr_of(&self, symbol: &str) -> (r: Option<u16>)
        ensures
            r == if self.addr_map().dom().contains(symbol@) {
                Some(self.addr_map()[symbol@])
            } else {
                None::<u16>
            },
    {
        let ghost s = self.entries@.map_values(|p: (String, u16)| entry_view(p));
        let mut i: usize = 0;
        while i < self.entries.len()
            invariant
                i <= self.entries@.len(),
                s == self.entries@.map_values(|p: (String, u16)| entry_view(p)),
                forall|k: int| 0 <= k < i ==> s[k].0 != symbol@,
            decreases self.entries@.len() - i,
        {
            if str_eq(self.entries[i].0.as_str(), symbol) {
                let r: u16 = self.entries[i].1;
                proof {
                    lemma_assoc_first_match(s, symbol@, i as int);
                }
                return Some(r);
            }
            i += 1;
        }
        proof {
            lemma_assoc_no_match(s, symbol@);
        }
        None
    }
}

} // verus!
