//! The symbol table: the labels of a program with their addresses.

use vstd::prelude::*;
use crate::text::chars_eq;

verus! {

/// A label and the address it stands for.
pub struct Symbol {
    pub name: Vec<char>,
    pub address: u16,
}

/// The labels in the order in which the program defines them.
pub struct SymbolTable {
    pub entries: Vec<Symbol>,
}

impl View for SymbolTable {
    type V = Seq<(Seq<char>, u16)>;

    open spec fn view(&self) -> Seq<(Seq<char>, u16)> {
        self.entries@.map_values(|s: Symbol| (s.name@, s.address))
    }
}

/// The address of the first entry from `i` on that is called `name`.
pub open spec fn lookup_from(table: Seq<(Seq<char>, u16)>, name: Seq<char>, i: int) -> Option<u16>
    decreases table.len() - i,
{
    if i < 0 || i >= table.len() {
        None
    } else if table[i].0 == name {
        Some(table[i].1)
    } else {
        lookup_from(table, name, i + 1)
    }
}

/// The address that `name` stands for, if the table defines it.
pub open spec fn lookup(table: Seq<(Seq<char>, u16)>, name: Seq<char>) -> Option<u16> {
    lookup_from(table, name, 0)
}

/// The table after `name` is defined as `address`. A name that the table
/// already defines keeps its first address.
pub open spec fn defined(table: Seq<(Seq<char>, u16)>, name: Seq<char>, address: u16) -> Seq<
    (Seq<char>, u16),
> {
    if lookup(table, name) is Some {
        table
    } else {
        table.push((name, address))
    }
}

/// No two entries have the same name.
pub open spec fn unique_names(table: Seq<(Seq<char>, u16)>) -> bool {
    forall|i: int, j: int| 0 <= i < j < table.len() ==> table[i].0 != table[j].0
}

proof fn lemma_lookup_none(table: Seq<(Seq<char>, u16)>, name: Seq<char>, i: int)
    requires
        0 <= i,
        lookup_from(table, name, i) is None,
    ensures
        forall|j: int| i <= j < table.len() ==> table[j].0 != name,
    decreases table.len() - i,
{
    if i < table.len() {
        lemma_lookup_none(table, name, i + 1);
    }
}

/// Defining a name keeps the names of a table unique, and the name then
/// stands for an address: its first one.
pub proof fn lemma_defined(table: Seq<(Seq<char>, u16)>, name: Seq<char>, address: u16)
    requires
        unique_names(table),
    ensures
        unique_names(defined(table, name, address)),
        lookup(defined(table, name, address), name) == Some(
            match lookup(table, name) {
                Some(first) => first,
                None => address,
            },
        ),
{
    if lookup(table, name) is None {
        lemma_lookup_none(table, name, 0);
        lemma_lookup_pushed(table, name, address, 0);
    }
}

proof fn lemma_lookup_pushed(table: Seq<(Seq<char>, u16)>, name: Seq<char>, address: u16, i: int)
    requires
        0 <= i <= table.len(),
        forall|j: int| i <= j < table.len() ==> table[j].0 != name,
    ensures
        lookup_from(table.push((name, address)), name, i) == Some(address),
    decreases table.len() - i,
{
    if i < table.len() {
        lemma_lookup_pushed(table, name, address, i + 1);
    }
}

impl SymbolTable {
    pub fn new() -> (table: Self)
        ensures
            table@ == Seq::<(Seq<char>, u16)>::empty(),
    {
        let table = SymbolTable { entries: Vec::new() };
        assert(table@ =~= Seq::<(Seq<char>, u16)>::empty());
        table
    }

    /// The address that `name` stands for, if the table defines it.
    pub fn lookup(&self, name: &Vec<char>) -> (address: Option<u16>)
        ensures
            address == lookup(self@, name@),
    {
        let mut i: usize = 0;
        while i < self.entries.len()
            invariant
                i <= self.entries@.len(),
                lookup(self@, name@) == lookup_from(self@, name@, i as int),
            decreases self.entries@.len() - i,
        {
            if chars_eq(&self.entries[i].name, name) {
                return Some(self.entries[i].address);
            }
            i += 1;
        }
        None
    }

    /// Defines `name` as `address`, unless the table defines it already.
    pub fn define(&mut self, name: &Vec<char>, address: u16)
        ensures
            final(self)@ == defined(old(self)@, name@, address),
    {
        if self.lookup(name).is_none() {
            self.entries.push(Symbol { name: name.clone(), address });
            assert(self@ =~= old(self)@.push((name@, address)));
        }
    }
}

} // verus!
