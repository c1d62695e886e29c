//! The register file: eight general registers, the program counter, the
//! instruction register and the processor status register.

use vstd::prelude::*;
use vstd::std_specs::convert::FromSpecImpl;
use crate::text::{append_hex4, append_str, chars_of, hex4, is_word, joined, string_of};

verus! {

/// Number of registers in the file.
pub const REGISTER_COUNT: u16 = 11;

/// Number of the program counter.
pub const PC: u16 = 8;

/// Number of the instruction register.
pub const IR: u16 = 9;

/// Number of the processor status register.
pub const PSR: u16 = 10;

/// A register by name. `R0` to `R7` are addressable by the three-bit fields of
/// an instruction word; `PC`, `IR` and `PSR` hold machine state.
#[derive(Clone, Copy, Debug, PartialEq, Eq, Structural)]
pub enum Register {
    R0,
    R1,
    R2,
    R3,
    R4,
    R5,
    R6,
    R7,
    PC,
    IR,
    PSR,
}

impl Register {
    /// The register's number: its position in the file.
    pub open spec fn spec_number(self) -> u16 {
        match self {
            Register::R0 => 0,
            Register::R1 => 1,
            Register::R2 => 2,
            Register::R3 => 3,
            Register::R4 => 4,
            Register::R5 => 5,
            Register::R6 => 6,
            Register::R7 => 7,
            Register::PC => 8,
            Register::IR => 9,
            Register::PSR => 10,
        }
    }

    /// The register with the given number, if there is one.
    pub open spec fn spec_from_number(n: u16) -> Option<Register> {
        match n {
            0 => Some(Register::R0),
            1 => Some(Register::R1),
            2 => Some(Register::R2),
            3 => Some(Register::R3),
            4 => Some(Register::R4),
            5 => Some(Register::R5),
            6 => Some(Register::R6),
            7 => Some(Register::R7),
            8 => Some(Register::PC),
            9 => Some(Register::IR),
            10 => Some(Register::PSR),
            _ => None,
        }
    }

    #[verifier::when_used_as_spec(spec_number)]
    pub fn number(self) -> (n: u16)
        ensures
            n == self.spec_number(),
            n < REGISTER_COUNT,
    {
        match self {
            Register::R0 => 0,
            Register::R1 => 1,
            Register::R2 => 2,
            Register::R3 => 3,
            Register::R4 => 4,
            Register::R5 => 5,
            Register::R6 => 6,
            Register::R7 => 7,
            Register::PC => 8,
            Register::IR => 9,
            Register::PSR => 10,
        }
    }

    pub fn from_number(n: u16) -> (r: Option<Register>)
        ensures
            r == Register::spec_from_number(n),
            r is Some <==> n < REGISTER_COUNT,
    {
        match n {
            0 => Some(Register::R0),
            1 => Some(Register::R1),
            2 => Some(Register::R2),
            3 => Some(Register::R3),
            4 => Some(Register::R4),
            5 => Some(Register::R5),
            6 => Some(Register::R6),
            7 => Some(Register::R7),
            8 => Some(Register::PC),
            9 => Some(Register::IR),
            10 => Some(Register::PSR),
            _ => None,
        }
    }
}

/// A name that is no register's.
#[derive(Clone, Debug, PartialEq, Eq)]
pub enum RegisterError {
    UnknownRegister(String),
}

impl View for RegisterError {
    type V = Seq<char>;

    /// The name that was not found.
    open spec fn view(&self) -> Seq<char> {
        match self {
            RegisterError::UnknownRegister(s) => s@,
        }
    }
}

impl RegisterError {
    /// The one-line message that a user is shown.
    pub fn message(&self) -> (text: String)
        ensures
            text@ == "Unknown register "@ + self@,
    {
        match self {
            RegisterError::UnknownRegister(s) => {
                let name: Vec<char> = chars_of(s.as_str());
                string_of(&joined("Unknown register ", &name))
            },
        }
    }
}

impl Register {
    /// The register that `name` names, if it names one.
    pub open spec fn named(name: Seq<char>) -> Option<Register> {
        if name == "R0"@ {
            Some(Register::R0)
        } else if name == "R1"@ {
            Some(Register::R1)
        } else if name == "R2"@ {
            Some(Register::R2)
        } else if name == "R3"@ {
            Some(Register::R3)
        } else if name == "R4"@ {
            Some(Register::R4)
        } else if name == "R5"@ {
            Some(Register::R5)
        } else if name == "R6"@ {
            Some(Register::R6)
        } else if name == "R7"@ {
            Some(Register::R7)
        } else if name == "PC"@ {
            Some(Register::PC)
        } else if name == "IR"@ {
            Some(Register::IR)
        } else if name == "PSR"@ {
            Some(Register::PSR)
        } else {
            None
        }
    }

    /// The name by which the register is written.
    pub open spec fn spec_name(self) -> Seq<char> {
        match self {
            Register::R0 => "R0"@,
            Register::R1 => "R1"@,
            Register::R2 => "R2"@,
            Register::R3 => "R3"@,
            Register::R4 => "R4"@,
            Register::R5 => "R5"@,
            Register::R6 => "R6"@,
            Register::R7 => "R7"@,
            Register::PC => "PC"@,
            Register::IR => "IR"@,
            Register::PSR => "PSR"@,
        }
    }

    pub fn name(self) -> (n: &'static str)
        ensures
            n@ == self.spec_name(),
    {
        match self {
            Register::R0 => "R0",
            Register::R1 => "R1",
            Register::R2 => "R2",
            Register::R3 => "R3",
            Register::R4 => "R4",
            Register::R5 => "R5",
            Register::R6 => "R6",
            Register::R7 => "R7",
            Register::PC => "PC",
            Register::IR => "IR",
            Register::PSR => "PSR",
        }
    }

    /// Whether an instruction can name the register in one of its three-bit
    /// fields: `R0` to `R7` can, the registers of the machine's state cannot.
    pub open spec fn spec_addressable(self) -> bool {
        self.spec_number() < 8
    }

    /// The register that `name` names as an operand of an instruction: one
    /// of `R0` to `R7`. The names of the other registers are no operands.
    pub open spec fn operand_named(name: Seq<char>) -> Option<Register> {
        match Register::named(name) {
            Some(register) => if register.spec_addressable() {
                Some(register)
            } else {
                None
            },
            None => None,
        }
    }

    #[verifier::when_used_as_spec(spec_addressable)]
    pub fn addressable(self) -> (yes: bool)
        ensures
            yes == self.spec_addressable(),
    {
        self.number() < 8
    }

    /// Looks a register up by its name.
    pub fn from_chars(name: &Vec<char>) -> (r: Option<Register>)
        ensures
            r == Register::named(name@),
    {
        if is_word(name, "R0") {
            Some(Register::R0)
        } else if is_word(name, "R1") {
            Some(Register::R1)
        } else if is_word(name, "R2") {
            Some(Register::R2)
        } else if is_word(name, "R3") {
            Some(Register::R3)
        } else if is_word(name, "R4") {
            Some(Register::R4)
        } else if is_word(name, "R5") {
            Some(Register::R5)
        } else if is_word(name, "R6") {
            Some(Register::R6)
        } else if is_word(name, "R7") {
            Some(Register::R7)
        } else if is_word(name, "PC") {
            Some(Register::PC)
        } else if is_word(name, "IR") {
            Some(Register::IR)
        } else if is_word(name, "PSR") {
            Some(Register::PSR)
        } else {
            None
        }
    }

    /// Looks a register up by its name. An unknown name comes back in the
    /// error.
    pub fn from_str(s: &str) -> (r: Result<Register, RegisterError>)
        ensures
            match r {
                Ok(register) => Register::named(s@) == Some(register),
                Err(e) => Register::named(s@) is None && e@ == s@,
            },
    {
        let name: Vec<char> = chars_of(s);
        match Register::from_chars(&name) {
            Some(register) => Ok(register),
            None => Err(RegisterError::UnknownRegister(string_of(&name))),
        }
    }
}

/// A register is found again by its name, and no other name finds it.
pub proof fn lemma_register_name_round_trip(x: Register, name: Seq<char>)
    ensures
        Register::named(x.spec_name()) == Some(x),
        Register::named(name) == Some(x) ==> name == x.spec_name(),
{
    reveal_strlit("R0");
    assert("R0"@.len() == 2 && "R0"@[0] == 'R' && "R0"@[1] == '0');
    reveal_strlit("R1");
    assert("R1"@.len() == 2 && "R1"@[0] == 'R' && "R1"@[1] == '1');
    reveal_strlit("R2");
    assert("R2"@.len() == 2 && "R2"@[0] == 'R' && "R2"@[1] == '2');
    reveal_strlit("R3");
    assert("R3"@.len() == 2 && "R3"@[0] == 'R' && "R3"@[1] == '3');
    reveal_strlit("R4");
    assert("R4"@.len() == 2 && "R4"@[0] == 'R' && "R4"@[1] == '4');
    reveal_strlit("R5");
    assert("R5"@.len() == 2 && "R5"@[0] == 'R' && "R5"@[1] == '5');
    reveal_strlit("R6");
    assert("R6"@.len() == 2 && "R6"@[0] == 'R' && "R6"@[1] == '6');
    reveal_strlit("R7");
    assert("R7"@.len() == 2 && "R7"@[0] == 'R' && "R7"@[1] == '7');
    reveal_strlit("PC");
    assert("PC"@.len() == 2 && "PC"@[0] == 'P' && "PC"@[1] == 'C');
    reveal_strlit("IR");
    assert("IR"@.len() == 2 && "IR"@[0] == 'I' && "IR"@[1] == 'R');
    reveal_strlit("PSR");
    assert("PSR"@.len() == 3 && "PSR"@[0] == 'P' && "PSR"@[1] == 'S' && "PSR"@[2] == 'R');
}

/// Of the registers' names, those of `R0` to `R7` are operands and those of
/// `PC`, `IR` and `PSR` are not.
pub proof fn lemma_operand_names(r: Register)
    ensures
        Register::operand_named(r.spec_name()) == if r.spec_number() < 8 {
            Some(r)
        } else {
            None
        },
{
    lemma_register_name_round_trip(r, r.spec_name());
}

impl From<Register> for u16 {
    fn from(register: Register) -> (n: u16) {
        register.number()
    }
}

impl FromSpecImpl<Register> for u16 {
    open spec fn obeys_from_spec() -> bool {
        true
    }

    open spec fn from_spec(register: Register) -> u16 {
        register.spec_number()
    }
}

/// Numbering and naming by number undo each other.
pub proof fn lemma_register_number_round_trip(r: Register, n: u16)
    ensures
        Register::spec_from_number(r.spec_number()) == Some(r),
        Register::spec_from_number(n) matches Some(q) ==> q.spec_number() == n,
{
}

/// The three condition flags, each one bit of the low three bits of the
/// status register.
#[derive(Clone, Copy, Debug, PartialEq, Eq, Structural)]
pub enum ConditionalFlag {
    Positive,
    Zero,
    Negative,
}

impl ConditionalFlag {
    /// The flag's bit: positive is bit 0, zero is bit 1, negative is bit 2.
    pub open spec fn spec_bits(self) -> u16 {
        match self {
            ConditionalFlag::Positive => 1,
            ConditionalFlag::Zero => 2,
            ConditionalFlag::Negative => 4,
        }
    }

    /// The flag that classifies a 16-bit value read as a two's-complement
    /// number.
    pub open spec fn spec_of_value(value: u16) -> ConditionalFlag {
        if value == 0 {
            ConditionalFlag::Zero
        } else if value >= 0x8000 {
            ConditionalFlag::Negative
        } else {
            ConditionalFlag::Positive
        }
    }

    #[verifier::when_used_as_spec(spec_bits)]
    pub fn bits(self) -> (b: u16)
        ensures
            b == self.spec_bits(),
    {
        match self {
            ConditionalFlag::Positive => 1,
            ConditionalFlag::Zero => 2,
            ConditionalFlag::Negative => 4,
        }
    }

    #[verifier::when_used_as_spec(spec_of_value)]
    pub fn of_value(value: u16) -> (f: ConditionalFlag)
        ensures
            f == ConditionalFlag::spec_of_value(value),
    {
        if value == 0 {
            ConditionalFlag::Zero
        } else if (value >> 15) != 0 {
            assert((value >> 15) != 0 <==> value >= 0x8000) by (bit_vector);
            ConditionalFlag::Negative
        } else {
            assert((value >> 15) != 0 <==> value >= 0x8000) by (bit_vector);
            ConditionalFlag::Positive
        }
    }
}

impl From<ConditionalFlag> for u16 {
    fn from(flag: ConditionalFlag) -> (b: u16) {
        flag.bits()
    }
}

impl FromSpecImpl<ConditionalFlag> for u16 {
    open spec fn obeys_from_spec() -> bool {
        true
    }

    open spec fn from_spec(flag: ConditionalFlag) -> u16 {
        flag.spec_bits()
    }
}

/// The status register after the condition codes are set for `value`: the low
/// three bits hold the flag of `value`, the other bits stay.
pub open spec fn psr_with_flag(psr: u16, value: u16) -> u16 {
    (psr & 0xFFF8) | ConditionalFlag::spec_of_value(value).spec_bits()
}

/// The register file.
#[derive(Clone, Copy, Debug)]
pub struct Registers {
    pub r0: u16,
    pub r1: u16,
    pub r2: u16,
    pub r3: u16,
    pub r4: u16,
    pub r5: u16,
    pub r6: u16,
    pub r7: u16,
    pub pc: u16,
    pub ir: u16,
    pub psr: u16,
}

impl View for Registers {
    type V = Seq<u16>;

    /// The registers' values by number.
    open spec fn view(&self) -> Seq<u16> {
        seq![
            self.r0,
            self.r1,
            self.r2,
            self.r3,
            self.r4,
            self.r5,
            self.r6,
            self.r7,
            self.pc,
            self.ir,
            self.psr,
        ]
    }
}

/// The register file of a machine that was just switched on: the program
/// counter at the start of user memory, the status register in user mode with
/// the zero flag set, everything else zero.
pub open spec fn initial_registers() -> Seq<u16> {
    seq![0u16, 0u16, 0u16, 0u16, 0u16, 0u16, 0u16, 0u16, 0x3000u16, 0u16, 0x8002u16]
}

/// One register in a dump: its name, then its value as four hexadecimal
/// digits.
pub open spec fn dump_entry(registers: Seq<u16>, n: int) -> Seq<char> {
    Register::spec_from_number(n as u16)->0.spec_name() + ": 0x"@ + hex4(registers[n])
}

/// The registers from number `from` up to, not including, number `to`, with
/// a bar between each two neighbours.
pub open spec fn dump_row(registers: Seq<u16>, from: int, to: int) -> Seq<char>
    decreases to - from,
{
    if to <= from {
        Seq::empty()
    } else if to == from + 1 {
        dump_entry(registers, from)
    } else {
        dump_row(registers, from, to - 1) + " | "@ + dump_entry(registers, to - 1)
    }
}

/// Every register on two lines: `R0` to `R5`, then `R6` to `PSR`.
pub open spec fn dump_text(registers: Seq<u16>) -> Seq<char> {
    dump_row(registers, 0, 6) + "\n"@ + dump_row(registers, 6, 11) + "\n"@
}

impl Registers {
    fn append_row(&self, text: &mut Vec<char>, from: u16, to: u16)
        requires
            from <= to <= REGISTER_COUNT,
        ensures
            final(text)@ == old(text)@ + dump_row(self@, from as int, to as int),
    {
        let mut n: u16 = from;
        assert(text@ =~= old(text)@ + dump_row(self@, from as int, n as int));
        while n < to
            invariant
                from <= n <= to <= REGISTER_COUNT,
                text@ == old(text)@ + dump_row(self@, from as int, n as int),
            decreases to - n,
        {
            if n > from {
                append_str(text, " | ");
            }
            let name: &str = match Register::from_number(n) {
                Some(register) => register.name(),
                None => "",
            };
            append_str(text, name);
            append_str(text, ": 0x");
            append_hex4(text, self.get(n));
            n += 1;
            assert(text@ =~= old(text)@ + dump_row(self@, from as int, n as int));
        }
    }

    /// The text of a dump of every register.
    pub fn dump(&self) -> (text: String)
        ensures
            text@ == dump_text(self@),
    {
        let mut chars: Vec<char> = Vec::new();
        self.append_row(&mut chars, 0, 6);
        append_str(&mut chars, "\n");
        self.append_row(&mut chars, 6, REGISTER_COUNT);
        append_str(&mut chars, "\n");
        assert(chars@ =~= dump_text(self@));
        string_of(&chars)
    }

    pub fn new() -> (r: Self)
        ensures
            r@ == initial_registers(),
    {
        let r = Self {
            r0: 0,
            r1: 0,
            r2: 0,
            r3: 0,
            r4: 0,
            r5: 0,
            r6: 0,
            r7: 0,
            pc: 0x3000,
            ir: 0,
            psr: 0x8002,
        };
        assert(r@ =~= initial_registers());
        r
    }

    pub fn get(&self, register: u16) -> (value: u16)
        requires
            register < REGISTER_COUNT,
        ensures
            value == self@[register as int],
    {
        match register {
            0 => self.r0,
            1 => self.r1,
            2 => self.r2,
            3 => self.r3,
            4 => self.r4,
            5 => self.r5,
            6 => self.r6,
            7 => self.r7,
            8 => self.pc,
            9 => self.ir,
            _ => self.psr,
        }
    }

    pub fn set(&mut self, register: u16, value: u16)
        requires
            register < REGISTER_COUNT,
        ensures
            final(self)@ == old(self)@.update(register as int, value),
    {
        match register {
            0 => self.r0 = value,
            1 => self.r1 = value,
            2 => self.r2 = value,
            3 => self.r3 = value,
            4 => self.r4 = value,
            5 => self.r5 = value,
            6 => self.r6 = value,
            7 => self.r7 = value,
            8 => self.pc = value,
            9 => self.ir = value,
            _ => self.psr = value,
        }
        assert(self@ =~= old(self)@.update(register as int, value));
    }

    /// Sets the condition codes for the value that `register` holds.
    pub fn set_condition_codes(&mut self, register: u16)
        requires
            register < REGISTER_COUNT,
        ensures
            final(self)@ == old(self)@.update(
                PSR as int,
                psr_with_flag(old(self)@[PSR as int], old(self)@[register as int]),
            ),
    {
        let psr: u16 = self.get(PSR);
        let flag: ConditionalFlag = ConditionalFlag::of_value(self.get(register));
        self.set(PSR, (psr & 0xFFF8) | flag.bits());
    }

    pub fn increment_pc_register(&mut self)
        requires
            old(self)@[PC as int] < 0xFFFF,
        ensures
            final(self)@ == old(self)@.update(PC as int, (old(self)@[PC as int] + 1) as u16),
    {
        self.pc += 1;
        assert(self@ =~= old(self)@.update(PC as int, (old(self)@[PC as int] + 1) as u16));
    }
}

/// After the condition codes are set for a value, exactly one of the three
/// flags is set, it is the one that matches the value's sign or zero-ness,
/// and the other bits of the status register are as before.
pub proof fn lemma_condition_codes_one_hot(psr: u16, value: u16)
    ensures
        ({
            let after = psr_with_flag(psr, value);
            &&& after & 0xFFF8 == psr & 0xFFF8
            &&& (after & 0x7 == 1 || after & 0x7 == 2 || after & 0x7 == 4)
            &&& (after & 0x4 != 0 <==> value >= 0x8000)
            &&& (after & 0x2 != 0 <==> value == 0)
            &&& (after & 0x1 != 0 <==> 0 < value < 0x8000)
        }),
{
    let flag = ConditionalFlag::spec_of_value(value).spec_bits();
    let after = (psr & 0xFFF8) | flag;
    assert(flag == 1 || flag == 2 || flag == 4);
    assert((flag == 1 || flag == 2 || flag == 4) ==> {
        &&& after & 0xFFF8 == psr & 0xFFF8
        &&& after & 0x7 == flag
        &&& (after & 0x4 != 0 <==> flag == 4)
        &&& (after & 0x2 != 0 <==> flag == 2)
        &&& (after & 0x1 != 0 <==> flag == 1)
    }) by (bit_vector)
        requires
            after == (psr & 0xFFF8) | flag,
    ;
}

} // verus!
