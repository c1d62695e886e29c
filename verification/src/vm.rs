//! The machine: a register file and a memory, stepped one instruction at a
//! time.

use vstd::prelude::*;
use vstd::std_specs::convert::FromSpecImpl;
use crate::instruction::{execute, execute_spec, Fault, Outcome, Transition};
use crate::memory::{zeroed_memory, Memory, MEMORY_SIZE};
use crate::register::{initial_registers, Registers, IR, PC, PSR};

verus! {

/// Bit of the status register that is set in user mode.
pub const USER_MODE_BIT: u16 = 0x8000;

/// What a machine holds: the registers by number and the words by address.
pub ghost struct MachineState {
    pub registers: Seq<u16>,
    pub memory: Seq<u16>,
}

impl MachineState {
    /// The value of register number `r`.
    pub open spec fn reg(self, r: int) -> u16 {
        self.registers[r]
    }

    /// The word at `address`.
    pub open spec fn word(self, address: u16) -> u16 {
        self.memory[address as int]
    }

    /// The state after `value` is written to register number `r`.
    pub open spec fn with_reg(self, r: int, value: u16) -> MachineState {
        MachineState { registers: self.registers.update(r, value), memory: self.memory }
    }

    /// The state after `value` is written to `address`.
    pub open spec fn with_word(self, address: u16, value: u16) -> MachineState {
        MachineState {
            registers: self.registers,
            memory: self.memory.update(address as int, value),
        }
    }

    /// The state after the condition codes are set for the value in register `r`.
    pub open spec fn with_condition_codes(self, r: int) -> MachineState {
        self.with_reg(
            PSR as int,
            crate::register::psr_with_flag(self.reg(PSR as int), self.reg(r)),
        )
    }

    /// The mode that the status register's top bit selects.
    pub open spec fn mode(self) -> PrivilegeMode {
        if self.reg(PSR as int) & USER_MODE_BIT != 0 {
            PrivilegeMode::User
        } else {
            PrivilegeMode::Privileged
        }
    }

    /// Whether the machine, in its present mode, may read or write `address`:
    /// privileged memory is closed to user mode.
    pub open spec fn may_access(self, address: u16) -> bool {
        !(crate::memory::privileged_address(address) && self.mode() == PrivilegeMode::User)
    }

    /// The state after a fetch: the word at the program counter stands in the
    /// instruction register, and the program counter is one further.
    pub open spec fn fetched(self) -> MachineState {
        self.with_reg(PC as int, (self.reg(PC as int) + 1) as u16).with_reg(
            IR as int,
            self.word(self.reg(PC as int)),
        )
    }

    /// The state after `words` are written to consecutive addresses from `base` on.
    pub open spec fn loaded(self, base: u16, words: Seq<u16>) -> MachineState {
        MachineState {
            registers: self.registers,
            memory: Seq::new(
                self.memory.len(),
                |a: int|
                    if base <= a < base + words.len() {
                        words[a - base]
                    } else {
                        self.memory[a]
                    },
            ),
        }
    }
}

/// A machine that was just switched on.
pub open spec fn initial_machine() -> MachineState {
    MachineState { registers: initial_registers(), memory: zeroed_memory() }
}

/// One step: fetch the word at the program counter, then execute it. A
/// machine whose program counter stands on the last address cannot move on
/// and stops with a fault.
pub open spec fn step_spec(s: MachineState) -> Transition {
    if s.reg(PC as int) == 0xFFFF {
        Transition { state: s, outcome: Outcome::Fault(Fault::EndOfMemory) }
    } else {
        execute_spec(s.fetched(), s.word(s.reg(PC as int)))
    }
}

/// Steps until an instruction does not ask to continue, for at most `budget`
/// steps. The outcome `Continue` says that the budget ran out first.
pub open spec fn run_spec(s: MachineState, budget: nat) -> Transition
    decreases budget,
{
    if budget == 0 {
        Transition { state: s, outcome: Outcome::Continue }
    } else {
        let t = step_spec(s);
        if t.outcome == Outcome::Continue {
            run_spec(t.state, (budget - 1) as nat)
        } else {
            t
        }
    }
}

/// A run from a machine that was just switched on and loaded with `image` at
/// the start of user memory.
pub open spec fn run_image(image: Seq<u16>, budget: nat) -> Transition {
    run_spec(initial_machine().loaded(crate::memory::UNPRIVILEGED_MEMORY, image), budget)
}

/// The two modes of the machine. Privileged memory is open to the first
/// only.
#[derive(Clone, Copy, Debug, PartialEq, Eq, Structural)]
pub enum PrivilegeMode {
    Privileged,
    User,
}

impl PrivilegeMode {
    /// The mode as the value of the status register's mode bit.
    pub open spec fn spec_bit(self) -> u16 {
        match self {
            PrivilegeMode::Privileged => 0,
            PrivilegeMode::User => 1,
        }
    }

    #[verifier::when_used_as_spec(spec_bit)]
    pub fn bit(self) -> (b: u16)
        ensures
            b == self.spec_bit(),
    {
        match self {
            PrivilegeMode::Privileged => 0,
            PrivilegeMode::User => 1,
        }
    }
}

impl From<PrivilegeMode> for u16 {
    fn from(mode: PrivilegeMode) -> (b: u16) {
        mode.bit()
    }
}

impl FromSpecImpl<PrivilegeMode> for u16 {
    open spec fn obeys_from_spec() -> bool {
        true
    }

    open spec fn from_spec(mode: PrivilegeMode) -> u16 {
        mode.spec_bit()
    }
}

/// The machine. Its registers and its memory are its whole state.
pub struct VirtualMachine {
    pub registers: Registers,
    pub memory: Memory,
}

impl View for VirtualMachine {
    type V = MachineState;

    open spec fn view(&self) -> MachineState {
        MachineState { registers: self.registers@, memory: self.memory@ }
    }
}

impl VirtualMachine {
    pub fn new() -> (vm: Self)
        ensures
            vm@ == initial_machine(),
    {
        Self { registers: Registers::new(), memory: Memory::new() }
    }

    /// Writes `words` to consecutive addresses from `base` on.
    pub fn load(&mut self, base: u16, words: &Vec<u16>)
        requires
            base + words@.len() <= MEMORY_SIZE,
        ensures
            final(self)@ == old(self)@.loaded(base, words@),
    {
        let ghost before = self@;
        let size: usize = self.memory.size();
        let mut i: usize = 0;
        while i < words.len()
            invariant
                i <= words@.len(),
                base + words@.len() <= MEMORY_SIZE,
                before.memory.len() == size == MEMORY_SIZE,
                self.registers == old(self).registers,
                self.memory@ == before.loaded(base, words@.subrange(0, i as int)).memory,
            decreases words@.len() - i,
        {
            let address: u16 = (base as usize + i) as u16;
            self.memory.write(address, words[i]);
            i += 1;
            assert(self.memory@ =~= before.loaded(base, words@.subrange(0, i as int)).memory);
        }
        assert(words@.subrange(0, i as int) =~= words@);
    }

    fn fetch(&mut self) -> (instruction: u16)
        requires
            old(self)@.reg(PC as int) < 0xFFFF,
        ensures
            final(self)@ == old(self)@.fetched(),
            instruction == old(self)@.word(old(self)@.reg(PC as int)),
    {
        let pc: u16 = self.registers.get(PC);
        self.registers.increment_pc_register();
        let instruction: u16 = self.memory.read(pc);
        self.registers.set(IR, instruction);
        instruction
    }

    /// Fetches and executes one instruction.
    pub fn step(&mut self) -> (outcome: Outcome)
        ensures
            final(self)@ == step_spec(old(self)@).state,
            outcome == step_spec(old(self)@).outcome,
    {
        if self.registers.get(PC) == 0xFFFF {
            return Outcome::Fault(Fault::EndOfMemory);
        }
        let instruction: u16 = self.fetch();
        execute(self, instruction)
    }

    /// Steps until the machine halts, asks for a system routine or faults, for
    /// at most `budget` steps.
    pub fn run(&mut self, budget: u64) -> (outcome: Outcome)
        ensures
            final(self)@ == run_spec(old(self)@, budget as nat).state,
            outcome == run_spec(old(self)@, budget as nat).outcome,
    {
        let mut left: u64 = budget;
        while left > 0
            invariant
                run_spec(old(self)@, budget as nat) == run_spec(self@, left as nat),
            decreases left,
        {
            let outcome: Outcome = self.step();
            match outcome {
                Outcome::Continue => {
                    left -= 1;
                },
                _ => {
                    return outcome;
                },
            }
        }
        Outcome::Continue
    }

    /// The mode the machine is in.
    pub fn get_mode(&self) -> (mode: PrivilegeMode)
        ensures
            mode == self@.mode(),
    {
        if self.registers.get(PSR) & USER_MODE_BIT != 0 {
            PrivilegeMode::User
        } else {
            PrivilegeMode::Privileged
        }
    }
}

/// A run that has stopped does not depend on the budget: with any larger
/// budget the machine stops at the same instruction, in the same state.
pub proof fn lemma_run_budget(s: MachineState, n: nat, m: nat)
    requires
        run_spec(s, n).outcome != Outcome::Continue,
        n <= m,
    ensures
        run_spec(s, m) == run_spec(s, n),
    decreases n,
{
    if n > 0 {
        let t = step_spec(s);
        if t.outcome == Outcome::Continue {
            lemma_run_budget(t.state, (n - 1) as nat, (m - 1) as nat);
        }
    }
}

/// Running a freshly loaded image to a halt is deterministic: whatever the
/// budgets, two runs of one image that both reach a halting trap end in the
/// same state, registers and memory.
pub proof fn lemma_run_to_halt_deterministic(image: Seq<u16>, n: nat, m: nat)
    requires
        run_image(image, n).outcome == Outcome::Halt,
        run_image(image, m).outcome == Outcome::Halt,
    ensures
        run_image(image, n).state == run_image(image, m).state,
{
    let s = initial_machine().loaded(crate::memory::UNPRIVILEGED_MEMORY, image);
    if n <= m {
        lemma_run_budget(s, n, m);
    } else {
        lemma_run_budget(s, m, n);
    }
}

} // verus!
