//! The machine's memory: a flat space of 65536 words, the low part of which
//! is privileged.

use vstd::prelude::*;

verus! {

/// Number of words in memory: one for each 16-bit address.
pub const MEMORY_SIZE: usize = 0x10000;

/// First address of user memory. Every address below it is privileged.
pub const UNPRIVILEGED_MEMORY: u16 = 0x3000;

/// Whether `address` lies in privileged memory.
pub open spec fn privileged_address(address: u16) -> bool {
    address < UNPRIVILEGED_MEMORY
}

/// Memory that holds zero in every word.
pub open spec fn zeroed_memory() -> Seq<u16> {
    Seq::new(MEMORY_SIZE as nat, |i: int| 0u16)
}

pub struct Memory {
    cells: Vec<u16>,
}

impl View for Memory {
    type V = Seq<u16>;

    /// The words by address.
    closed spec fn view(&self) -> Seq<u16> {
        self.cells@
    }
}

impl Memory {
    #[verifier::type_invariant]
    spec fn every_address_has_a_word(&self) -> bool {
        self.cells@.len() == MEMORY_SIZE
    }

    pub fn new() -> (m: Self)
        ensures
            m@ == zeroed_memory(),
    {
        let cells: Vec<u16> = vec![0u16; MEMORY_SIZE];
        assert(cells@ =~= zeroed_memory());
        Self { cells }
    }

    /// The number of words, which is the same for every memory.
    pub fn size(&self) -> (n: usize)
        ensures
            n == MEMORY_SIZE,
            self@.len() == MEMORY_SIZE,
    {
        proof {
            use_type_invariant(self);
        }
        self.cells.len()
    }

    /// A copy of every word, in address order.
    pub fn dump(&self) -> (words: Vec<u16>)
        ensures
            words@ == self@,
            words@.len() == MEMORY_SIZE,
    {
        proof {
            use_type_invariant(self);
        }
        self.cells.clone()
    }

    pub fn read(&self, address: u16) -> (value: u16)
        ensures
            value == self@[address as int],
    {
        proof {
            use_type_invariant(self);
        }
        self.cells[address as usize]
    }

    pub fn write(&mut self, address: u16, value: u16)
        ensures
            final(self)@ == old(self)@.update(address as int, value),
    {
        proof {
            use_type_invariant(&*self);
        }
        self.cells[address as usize] = value;
    }

    pub fn is_privileged(&self, address: u16) -> (p: bool)
        ensures
            p == privileged_address(address),
    {
        address < UNPRIVILEGED_MEMORY
    }
}

impl Default for Memory {
    fn default() -> (m: Self)
        ensures
            m@ == zeroed_memory(),
    {
        Self::new()
    }
}

} // verus!
