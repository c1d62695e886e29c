//! The instruction set: opcodes, trap vectors, the layout of an instruction
//! word, and what each instruction does to a machine.

use vstd::prelude::*;
use vstd::std_specs::convert::FromSpecImpl;
use crate::register::{PC, PSR};
use crate::text::{chars_of, is_word, string_of};
use crate::vm::{MachineState, PrivilegeMode, VirtualMachine};

verus! {

/// The sixteen opcodes, in the order of their codes 0 to 15.
#[derive(Clone, Copy, Debug, PartialEq, Eq, Structural)]
pub enum Opcode {
    /// Conditional branch
    BR,
    /// Add
    ADD,
    /// Load
    LD,
    /// Store
    ST,
    /// Jump to subroutine
    JSR,
    /// Bitwise and
    AND,
    /// Load base + offset
    LDR,
    /// Store base + offset
    STR,
    /// Return from trap or interrupt
    RTI,
    /// Bitwise not
    NOT,
    /// Load indirect
    LDI,
    /// Store indirect
    STI,
    /// Jump
    JMP,
    /// Reserved
    RES,
    /// Load effective address
    LEA,
    /// System call
    TRAP,
}

impl Opcode {
    /// The opcode's code: the value of bits 15 to 12 of its instruction words.
    pub open spec fn spec_code(self) -> u8 {
        match self {
            Opcode::BR => 0,
            Opcode::ADD => 1,
            Opcode::LD => 2,
            Opcode::ST => 3,
            Opcode::JSR => 4,
            Opcode::AND => 5,
            Opcode::LDR => 6,
            Opcode::STR => 7,
            Opcode::RTI => 8,
            Opcode::NOT => 9,
            Opcode::LDI => 10,
            Opcode::STI => 11,
            Opcode::JMP => 12,
            Opcode::RES => 13,
            Opcode::LEA => 14,
            Opcode::TRAP => 15,
        }
    }

    /// The opcode that an instruction word selects: its top four bits.
    pub open spec fn spec_decode(instruction: u16) -> Opcode {
        match instruction >> 12 {
            0 => Opcode::BR,
            1 => Opcode::ADD,
            2 => Opcode::LD,
            3 => Opcode::ST,
            4 => Opcode::JSR,
            5 => Opcode::AND,
            6 => Opcode::LDR,
            7 => Opcode::STR,
            8 => Opcode::RTI,
            9 => Opcode::NOT,
            10 => Opcode::LDI,
            11 => Opcode::STI,
            12 => Opcode::JMP,
            13 => Opcode::RES,
            14 => Opcode::LEA,
            _ => Opcode::TRAP,
        }
    }

    #[verifier::when_used_as_spec(spec_code)]
    pub fn code(self) -> (c: u8)
        ensures
            c == self.spec_code(),
            c < 16,
    {
        match self {
            Opcode::BR => 0,
            Opcode::ADD => 1,
            Opcode::LD => 2,
            Opcode::ST => 3,
            Opcode::JSR => 4,
            Opcode::AND => 5,
            Opcode::LDR => 6,
            Opcode::STR => 7,
            Opcode::RTI => 8,
            Opcode::NOT => 9,
            Opcode::LDI => 10,
            Opcode::STI => 11,
            Opcode::JMP => 12,
            Opcode::RES => 13,
            Opcode::LEA => 14,
            Opcode::TRAP => 15,
        }
    }

    #[verifier::when_used_as_spec(spec_decode)]
    pub fn decode(instruction: u16) -> (opcode: Opcode)
        ensures
            opcode == Opcode::spec_decode(instruction),
    {
        match instruction >> 12 {
            0 => Opcode::BR,
            1 => Opcode::ADD,
            2 => Opcode::LD,
            3 => Opcode::ST,
            4 => Opcode::JSR,
            5 => Opcode::AND,
            6 => Opcode::LDR,
            7 => Opcode::STR,
            8 => Opcode::RTI,
            9 => Opcode::NOT,
            10 => Opcode::LDI,
            11 => Opcode::STI,
            12 => Opcode::JMP,
            13 => Opcode::RES,
            14 => Opcode::LEA,
            _ => Opcode::TRAP,
        }
    }
}

/// A name that is no opcode's.
#[derive(Clone, Debug, PartialEq, Eq)]
pub enum OpcodeError {
    UnknownOpcode(String),
}

impl View for OpcodeError {
    type V = Seq<char>;

    /// The name that was not found.
    open spec fn view(&self) -> Seq<char> {
        match self {
            OpcodeError::UnknownOpcode(s) => s@,
        }
    }
}

impl Opcode {
    /// The opcode that `name` names, if it names one. The halting trap is
    /// written `HALT` and stands for the opcode `TRAP`.
    pub open spec fn named(name: Seq<char>) -> Option<Opcode> {
        if name == "BR"@ {
            Some(Opcode::BR)
        } else if name == "ADD"@ {
            Some(Opcode::ADD)
        } else if name == "LD"@ {
            Some(Opcode::LD)
        } else if name == "ST"@ {
            Some(Opcode::ST)
        } else if name == "JSR"@ {
            Some(Opcode::JSR)
        } else if name == "AND"@ {
            Some(Opcode::AND)
        } else if name == "LDR"@ {
            Some(Opcode::LDR)
        } else if name == "STR"@ {
            Some(Opcode::STR)
        } else if name == "RTI"@ {
            Some(Opcode::RTI)
        } else if name == "NOT"@ {
            Some(Opcode::NOT)
        } else if name == "LDI"@ {
            Some(Opcode::LDI)
        } else if name == "STI"@ {
            Some(Opcode::STI)
        } else if name == "JMP"@ {
            Some(Opcode::JMP)
        } else if name == "RES"@ {
            Some(Opcode::RES)
        } else if name == "LEA"@ {
            Some(Opcode::LEA)
        } else if name == "HALT"@ {
            Some(Opcode::TRAP)
        } else {
            None
        }
    }

    /// The name by which the opcode is written.
    pub open spec fn spec_name(self) -> Seq<char> {
        match self {
            Opcode::BR => "BR"@,
            Opcode::ADD => "ADD"@,
            Opcode::LD => "LD"@,
            Opcode::ST => "ST"@,
            Opcode::JSR => "JSR"@,
            Opcode::AND => "AND"@,
            Opcode::LDR => "LDR"@,
            Opcode::STR => "STR"@,
            Opcode::RTI => "RTI"@,
            Opcode::NOT => "NOT"@,
            Opcode::LDI => "LDI"@,
            Opcode::STI => "STI"@,
            Opcode::JMP => "JMP"@,
            Opcode::RES => "RES"@,
            Opcode::LEA => "LEA"@,
            Opcode::TRAP => "HALT"@,
        }
    }

    pub fn name(self) -> (n: &'static str)
        ensures
            n@ == self.spec_name(),
    {
        match self {
            Opcode::BR => "BR",
            Opcode::ADD => "ADD",
            Opcode::LD => "LD",
            Opcode::ST => "ST",
            Opcode::JSR => "JSR",
            Opcode::AND => "AND",
            Opcode::LDR => "LDR",
            Opcode::STR => "STR",
            Opcode::RTI => "RTI",
            Opcode::NOT => "NOT",
            Opcode::LDI => "LDI",
            Opcode::STI => "STI",
            Opcode::JMP => "JMP",
            Opcode::RES => "RES",
            Opcode::LEA => "LEA",
            Opcode::TRAP => "HALT",
        }
    }

    /// Looks an opcode up by its name.
    pub fn from_chars(name: &Vec<char>) -> (r: Option<Opcode>)
        ensures
            r == Opcode::named(name@),
    {
        if is_word(name, "BR") {
            Some(Opcode::BR)
        } else if is_word(name, "ADD") {
            Some(Opcode::ADD)
        } else if is_word(name, "LD") {
            Some(Opcode::LD)
        } else if is_word(name, "ST") {
            Some(Opcode::ST)
        } else if is_word(name, "JSR") {
            Some(Opcode::JSR)
        } else if is_word(name, "AND") {
            Some(Opcode::AND)
        } else if is_word(name, "LDR") {
            Some(Opcode::LDR)
        } else if is_word(name, "STR") {
            Some(Opcode::STR)
        } else if is_word(name, "RTI") {
            Some(Opcode::RTI)
        } else if is_word(name, "NOT") {
            Some(Opcode::NOT)
        } else if is_word(name, "LDI") {
            Some(Opcode::LDI)
        } else if is_word(name, "STI") {
            Some(Opcode::STI)
        } else if is_word(name, "JMP") {
            Some(Opcode::JMP)
        } else if is_word(name, "RES") {
            Some(Opcode::RES)
        } else if is_word(name, "LEA") {
            Some(Opcode::LEA)
        } else if is_word(name, "HALT") {
            Some(Opcode::TRAP)
        } else {
            None
        }
    }

    /// Looks an opcode up by its name. An unknown name comes back in the
    /// error.
    pub fn from_str(s: &str) -> (r: Result<Opcode, OpcodeError>)
        ensures
            match r {
                Ok(found) => Opcode::named(s@) == Some(found),
                Err(e) => Opcode::named(s@) is None && e@ == s@,
            },
    {
        let name: Vec<char> = chars_of(s);
        match Opcode::from_chars(&name) {
            Some(found) => Ok(found),
            None => Err(OpcodeError::UnknownOpcode(string_of(&name))),
        }
    }
}

/// An opcode is found again by its name, and no other name finds it.
pub proof fn lemma_opcode_name_round_trip(x: Opcode, name: Seq<char>)
    ensures
        Opcode::named(x.spec_name()) == Some(x),
        Opcode::named(name) == Some(x) ==> name == x.spec_name(),
{
    reveal_strlit("BR");
    assert("BR"@.len() == 2 && "BR"@[0] == 'B' && "BR"@[1] == 'R');
    reveal_strlit("ADD");
    assert("ADD"@.len() == 3 && "ADD"@[0] == 'A' && "ADD"@[1] == 'D' && "ADD"@[2] == 'D');
    reveal_strlit("LD");
    assert("LD"@.len() == 2 && "LD"@[0] == 'L' && "LD"@[1] == 'D');
    reveal_strlit("ST");
    assert("ST"@.len() == 2 && "ST"@[0] == 'S' && "ST"@[1] == 'T');
    reveal_strlit("JSR");
    assert("JSR"@.len() == 3 && "JSR"@[0] == 'J' && "JSR"@[1] == 'S' && "JSR"@[2] == 'R');
    reveal_strlit("AND");
    assert("AND"@.len() == 3 && "AND"@[0] == 'A' && "AND"@[1] == 'N' && "AND"@[2] == 'D');
    reveal_strlit("LDR");
    assert("LDR"@.len() == 3 && "LDR"@[0] == 'L' && "LDR"@[1] == 'D' && "LDR"@[2] == 'R');
    reveal_strlit("STR");
    assert("STR"@.len() == 3 && "STR"@[0] == 'S' && "STR"@[1] == 'T' && "STR"@[2] == 'R');
    reveal_strlit("RTI");
    assert("RTI"@.len() == 3 && "RTI"@[0] == 'R' && "RTI"@[1] == 'T' && "RTI"@[2] == 'I');
    reveal_strlit("NOT");
    assert("NOT"@.len() == 3 && "NOT"@[0] == 'N' && "NOT"@[1] == 'O' && "NOT"@[2] == 'T');
    reveal_strlit("LDI");
    assert("LDI"@.len() == 3 && "LDI"@[0] == 'L' && "LDI"@[1] == 'D' && "LDI"@[2] == 'I');
    reveal_strlit("STI");
    assert("STI"@.len() == 3 && "STI"@[0] == 'S' && "STI"@[1] == 'T' && "STI"@[2] == 'I');
    reveal_strlit("JMP");
    assert("JMP"@.len() == 3 && "JMP"@[0] == 'J' && "JMP"@[1] == 'M' && "JMP"@[2] == 'P');
    reveal_strlit("RES");
    assert("RES"@.len() == 3 && "RES"@[0] == 'R' && "RES"@[1] == 'E' && "RES"@[2] == 'S');
    reveal_strlit("LEA");
    assert("LEA"@.len() == 3 && "LEA"@[0] == 'L' && "LEA"@[1] == 'E' && "LEA"@[2] == 'A');
    reveal_strlit("HALT");
    assert("HALT"@.len() == 4 && "HALT"@[0] == 'H' && "HALT"@[1] == 'A' && "HALT"@[2] == 'L' && "HALT"@[3] == 'T');
}

impl From<Opcode> for u8 {
    fn from(opcode: Opcode) -> (c: u8) {
        opcode.code()
    }
}

impl FromSpecImpl<Opcode> for u8 {
    open spec fn obeys_from_spec() -> bool {
        true
    }

    open spec fn from_spec(opcode: Opcode) -> u8 {
        opcode.spec_code()
    }
}

/// Decoding finds the opcode whose code stands in the top four bits, whatever
/// the other twelve bits hold.
pub proof fn lemma_opcode_round_trip(opcode: Opcode, fields: u16)
    requires
        fields < 0x1000,
    ensures
        Opcode::spec_decode(((opcode.spec_code() as u16) << 12) | fields) == opcode,
        Opcode::spec_decode(fields).spec_code() == 0,
{
    let c = opcode.spec_code() as u16;
    assert(c < 16 && fields < 0x1000 ==> ((c << 12) | fields) >> 12 == c) by (bit_vector);
    assert(fields < 0x1000 ==> fields >> 12 == 0) by (bit_vector);
}

/// The system routines, each with its trap vector.
#[derive(Clone, Copy, Debug, PartialEq, Eq, Structural)]
pub enum TrapCode {
    /// Get character from keyboard
    GETC,
    /// Output a character
    OUT,
    /// Output a word string
    PUTS,
    /// Input a character, with a prompt
    IN,
    /// Output a byte string
    PUTSP,
    /// Halt the program
    HALT,
}

impl TrapCode {
    /// The routine's trap vector, 0x20 to 0x25.
    pub open spec fn spec_vector(self) -> u8 {
        match self {
            TrapCode::GETC => 0x20,
            TrapCode::OUT => 0x21,
            TrapCode::PUTS => 0x22,
            TrapCode::IN => 0x23,
            TrapCode::PUTSP => 0x24,
            TrapCode::HALT => 0x25,
        }
    }

    /// The routine that a trap vector selects, if it selects one.
    pub open spec fn spec_from_vector(vector: u8) -> Option<TrapCode> {
        match vector {
            0x20 => Some(TrapCode::GETC),
            0x21 => Some(TrapCode::OUT),
            0x22 => Some(TrapCode::PUTS),
            0x23 => Some(TrapCode::IN),
            0x24 => Some(TrapCode::PUTSP),
            0x25 => Some(TrapCode::HALT),
            _ => None,
        }
    }

    #[verifier::when_used_as_spec(spec_vector)]
    pub fn vector(self) -> (v: u8)
        ensures
            v == self.spec_vector(),
    {
        match self {
            TrapCode::GETC => 0x20,
            TrapCode::OUT => 0x21,
            TrapCode::PUTS => 0x22,
            TrapCode::IN => 0x23,
            TrapCode::PUTSP => 0x24,
            TrapCode::HALT => 0x25,
        }
    }

    pub fn from_vector(vector: u8) -> (code: Option<TrapCode>)
        ensures
            code == TrapCode::spec_from_vector(vector),
    {
        match vector {
            0x20 => Some(TrapCode::GETC),
            0x21 => Some(TrapCode::OUT),
            0x22 => Some(TrapCode::PUTS),
            0x23 => Some(TrapCode::IN),
            0x24 => Some(TrapCode::PUTSP),
            0x25 => Some(TrapCode::HALT),
            _ => None,
        }
    }
}

/// A name that is no system routine's.
#[derive(Clone, Debug, PartialEq, Eq)]
pub enum TrapCodeError {
    UnknownTrapCode(String),
}

impl View for TrapCodeError {
    type V = Seq<char>;

    /// The name that was not found.
    open spec fn view(&self) -> Seq<char> {
        match self {
            TrapCodeError::UnknownTrapCode(s) => s@,
        }
    }
}

impl TrapCode {
    /// The system routine that `name` names, if it names one.
    pub open spec fn named(name: Seq<char>) -> Option<TrapCode> {
        if name == "GETC"@ {
            Some(TrapCode::GETC)
        } else if name == "OUT"@ {
            Some(TrapCode::OUT)
        } else if name == "PUTS"@ {
            Some(TrapCode::PUTS)
        } else if name == "IN"@ {
            Some(TrapCode::IN)
        } else if name == "PUTSP"@ {
            Some(TrapCode::PUTSP)
        } else if name == "HALT"@ {
            Some(TrapCode::HALT)
        } else {
            None
        }
    }

    /// The name by which the system routine is written.
    pub open spec fn spec_name(self) -> Seq<char> {
        match self {
            TrapCode::GETC => "GETC"@,
            TrapCode::OUT => "OUT"@,
            TrapCode::PUTS => "PUTS"@,
            TrapCode::IN => "IN"@,
            TrapCode::PUTSP => "PUTSP"@,
            TrapCode::HALT => "HALT"@,
        }
    }

    pub fn name(self) -> (n: &'static str)
        ensures
            n@ == self.spec_name(),
    {
        match self {
            TrapCode::GETC => "GETC",
            TrapCode::OUT => "OUT",
            TrapCode::PUTS => "PUTS",
            TrapCode::IN => "IN",
            TrapCode::PUTSP => "PUTSP",
            TrapCode::HALT => "HALT",
        }
    }

    /// Looks a system routine up by its name.
    pub fn from_chars(name: &Vec<char>) -> (r: Option<TrapCode>)
        ensures
            r == TrapCode::named(name@),
    {
        if is_word(name, "GETC") {
            Some(TrapCode::GETC)
        } else if is_word(name, "OUT") {
            Some(TrapCode::OUT)
        } else if is_word(name, "PUTS") {
            Some(TrapCode::PUTS)
        } else if is_word(name, "IN") {
            Some(TrapCode::IN)
        } else if is_word(name, "PUTSP") {
            Some(TrapCode::PUTSP)
        } else if is_word(name, "HALT") {
            Some(TrapCode::HALT)
        } else {
            None
        }
    }

    /// Looks a system routine up by its name. An unknown name comes back in the
    /// error.
    pub fn from_str(s: &str) -> (r: Result<TrapCode, TrapCodeError>)
        ensures
            match r {
                Ok(found) => TrapCode::named(s@) == Some(found),
                Err(e) => TrapCode::named(s@) is None && e@ == s@,
            },
    {
        let name: Vec<char> = chars_of(s);
        match TrapCode::from_chars(&name) {
            Some(found) => Ok(found),
            None => Err(TrapCodeError::UnknownTrapCode(string_of(&name))),
        }
    }
}

/// A system routine is found again by its name, and no other name finds it.
pub proof fn lemma_trap_name_round_trip(x: TrapCode, name: Seq<char>)
    ensures
        TrapCode::named(x.spec_name()) == Some(x),
        TrapCode::named(name) == Some(x) ==> name == x.spec_name(),
{
    reveal_strlit("GETC");
    assert("GETC"@.len() == 4 && "GETC"@[0] == 'G' && "GETC"@[1] == 'E' && "GETC"@[2] == 'T' && "GETC"@[3] == 'C');
    reveal_strlit("OUT");
    assert("OUT"@.len() == 3 && "OUT"@[0] == 'O' && "OUT"@[1] == 'U' && "OUT"@[2] == 'T');
    reveal_strlit("PUTS");
    assert("PUTS"@.len() == 4 && "PUTS"@[0] == 'P' && "PUTS"@[1] == 'U' && "PUTS"@[2] == 'T' && "PUTS"@[3] == 'S');
    reveal_strlit("IN");
    assert("IN"@.len() == 2 && "IN"@[0] == 'I' && "IN"@[1] == 'N');
    reveal_strlit("PUTSP");
    assert("PUTSP"@.len() == 5 && "PUTSP"@[0] == 'P' && "PUTSP"@[1] == 'U' && "PUTSP"@[2] == 'T' && "PUTSP"@[3] == 'S' && "PUTSP"@[4] == 'P');
    reveal_strlit("HALT");
    assert("HALT"@.len() == 4 && "HALT"@[0] == 'H' && "HALT"@[1] == 'A' && "HALT"@[2] == 'L' && "HALT"@[3] == 'T');
}

/// A routine is found again by its vector, and a vector by its routine.
pub proof fn lemma_trap_vector_round_trip(code: TrapCode, vector: u8)
    ensures
        TrapCode::spec_from_vector(code.spec_vector()) == Some(code),
        TrapCode::spec_from_vector(vector) matches Some(c) ==> c.spec_vector() == vector,
{
}

/// Why an instruction could not be carried out.
#[derive(Clone, Copy, Debug, PartialEq, Eq, Structural)]
pub enum Fault {
    /// The reserved opcode.
    IllegalOpcode,
    /// A return from interrupt in user mode.
    PrivilegeViolation,
    /// A read or write of privileged memory in user mode.
    AccessViolation,
    /// A trap vector that selects no system routine.
    UnknownTrap(u8),
    /// The program counter stands on the last address and cannot move on.
    EndOfMemory,
}

/// What the machine asks of its host after an instruction.
#[derive(Clone, Copy, Debug, PartialEq, Eq, Structural)]
pub enum Outcome {
    /// Go on with the next instruction.
    Continue,
    /// The halting trap: stop.
    Halt,
    /// A system routine other than the halting trap: the host performs it and
    /// may then go on.
    Trap(TrapCode),
    /// The instruction was not carried out.
    Fault(Fault),
}

/// A machine state together with what the machine asks for next.
pub ghost struct Transition {
    pub state: MachineState,
    pub outcome: Outcome,
}

/// The state `s`, with the request to continue.
pub open spec fn proceed(s: MachineState) -> Transition {
    Transition { state: s, outcome: Outcome::Continue }
}

/// The state `s`, unchanged, with a fault.
pub open spec fn fault(s: MachineState, f: Fault) -> Transition {
    Transition { state: s, outcome: Outcome::Fault(f) }
}

/// Bits 11 to 9: the destination or source register of most instructions, or
/// the condition bits that a branch tests.
pub open spec fn dr_of(instruction: u16) -> u16 {
    (instruction >> 9) & 0x7
}

/// Bits 8 to 6: the first source register or the base register.
pub open spec fn sr1_of(instruction: u16) -> u16 {
    (instruction >> 6) & 0x7
}

/// Bits 2 to 0: the second source register.
pub open spec fn sr2_of(instruction: u16) -> u16 {
    instruction & 0x7
}

/// Widens the number in the low `bit_count` bits of `x` to 16 bits: where bit
/// `bit_count - 1` is set, every higher bit is set too.
pub open spec fn sign_extend_spec(x: u16, bit_count: u8) -> u16 {
    if (x >> ((bit_count - 1) as u16)) & 0x1 != 0 {
        x | (0xFFFFu16 << (bit_count as u16))
    } else {
        x
    }
}

/// The address `offset` words from `base`, in 16-bit arithmetic.
pub open spec fn offset_address(base: u16, offset: u16) -> u16 {
    base.wrapping_add(offset)
}

/// The second operand of an addition or a conjunction: the immediate in bits
/// 4 to 0, sign-extended, where bit 5 is set; else the second source register.
pub open spec fn second_operand(s: MachineState, instruction: u16) -> u16 {
    if (instruction >> 5) & 0x1 == 1 {
        sign_extend_spec(instruction & 0x1F, 5)
    } else {
        s.reg(sr2_of(instruction) as int)
    }
}

/// The program counter plus the sign-extended offset in bits 8 to 0.
pub open spec fn pc_relative(s: MachineState, instruction: u16) -> u16 {
    offset_address(s.reg(PC as int), sign_extend_spec(instruction & 0x1FF, 9))
}

/// The base register plus the sign-extended offset in bits 5 to 0.
pub open spec fn base_relative(s: MachineState, instruction: u16) -> u16 {
    offset_address(s.reg(sr1_of(instruction) as int), sign_extend_spec(instruction & 0x3F, 6))
}

/// Writes `value` to the destination register and sets the condition codes.
pub open spec fn write_result(s: MachineState, instruction: u16, value: u16) -> MachineState {
    s.with_reg(dr_of(instruction) as int, value).with_condition_codes(dr_of(instruction) as int)
}

/// An instruction that writes a result leaves that value in the destination
/// register and the condition codes set for it: exactly one flag, the one
/// that matches the value.
pub proof fn lemma_result_sets_condition_codes(s: MachineState, instruction: u16, value: u16)
    requires
        s.registers.len() == crate::register::REGISTER_COUNT,
    ensures
        write_result(s, instruction, value).reg(dr_of(instruction) as int) == value,
        write_result(s, instruction, value).reg(PSR as int) == crate::register::psr_with_flag(
            s.reg(PSR as int),
            value,
        ),
        write_result(s, instruction, value).memory == s.memory,
{
    assert((instruction >> 9) & 0x7 < 8) by (bit_vector);
}

pub open spec fn br_spec(s: MachineState, instruction: u16) -> Transition {
    if dr_of(instruction) & s.reg(PSR as int) != 0 {
        proceed(s.with_reg(PC as int, pc_relative(s, instruction)))
    } else {
        proceed(s)
    }
}

pub open spec fn add_spec(s: MachineState, instruction: u16) -> Transition {
    proceed(
        write_result(
            s,
            instruction,
            s.reg(sr1_of(instruction) as int).wrapping_add(second_operand(s, instruction)),
        ),
    )
}

pub open spec fn and_spec(s: MachineState, instruction: u16) -> Transition {
    proceed(
        write_result(
            s,
            instruction,
            s.reg(sr1_of(instruction) as int) & second_operand(s, instruction),
        ),
    )
}

pub open spec fn not_spec(s: MachineState, instruction: u16) -> Transition {
    proceed(write_result(s, instruction, !s.reg(sr1_of(instruction) as int)))
}

/// A load from `address`, or an access violation.
pub open spec fn load_from(s: MachineState, instruction: u16, address: u16) -> Transition {
    if s.may_access(address) {
        proceed(write_result(s, instruction, s.word(address)))
    } else {
        fault(s, Fault::AccessViolation)
    }
}

/// A store of the source register to `address`, or an access violation.
pub open spec fn store_to(s: MachineState, instruction: u16, address: u16) -> Transition {
    if s.may_access(address) {
        proceed(s.with_word(address, s.reg(dr_of(instruction) as int)))
    } else {
        fault(s, Fault::AccessViolation)
    }
}

pub open spec fn ld_spec(s: MachineState, instruction: u16) -> Transition {
    load_from(s, instruction, pc_relative(s, instruction))
}

pub open spec fn ldr_spec(s: MachineState, instruction: u16) -> Transition {
    load_from(s, instruction, base_relative(s, instruction))
}

pub open spec fn ldi_spec(s: MachineState, instruction: u16) -> Transition {
    if s.may_access(pc_relative(s, instruction)) {
        load_from(s, instruction, s.word(pc_relative(s, instruction)))
    } else {
        fault(s, Fault::AccessViolation)
    }
}

pub open spec fn lea_spec(s: MachineState, instruction: u16) -> Transition {
    proceed(s.with_reg(dr_of(instruction) as int, pc_relative(s, instruction)))
}

pub open spec fn st_spec(s: MachineState, instruction: u16) -> Transition {
    store_to(s, instruction, pc_relative(s, instruction))
}

pub open spec fn str_spec(s: MachineState, instruction: u16) -> Transition {
    store_to(s, instruction, base_relative(s, instruction))
}

pub open spec fn sti_spec(s: MachineState, instruction: u16) -> Transition {
    if s.may_access(pc_relative(s, instruction)) {
        store_to(s, instruction, s.word(pc_relative(s, instruction)))
    } else {
        fault(s, Fault::AccessViolation)
    }
}

pub open spec fn jmp_spec(s: MachineState, instruction: u16) -> Transition {
    proceed(s.with_reg(PC as int, s.reg(sr1_of(instruction) as int)))
}

/// The program counter is saved in R7 first; the base register is read after
/// that.
pub open spec fn jsr_spec(s: MachineState, instruction: u16) -> Transition {
    let linked = s.with_reg(7, s.reg(PC as int));
    if (instruction >> 11) & 0x1 == 1 {
        proceed(
            linked.with_reg(
                PC as int,
                offset_address(s.reg(PC as int), sign_extend_spec(instruction & 0x7FF, 11)),
            ),
        )
    } else {
        proceed(linked.with_reg(PC as int, linked.reg(sr1_of(instruction) as int)))
    }
}

/// In user mode a privilege violation. In privileged mode the program counter
/// and the status register are popped, in this order, from the stack that R6
/// points to.
pub open spec fn rti_spec(s: MachineState, instruction: u16) -> Transition {
    if s.mode() == PrivilegeMode::User {
        fault(s, Fault::PrivilegeViolation)
    } else {
        let sp = s.reg(6);
        proceed(
            s.with_reg(PC as int, s.word(sp)).with_reg(
                PSR as int,
                s.word(sp.wrapping_add(1)),
            ).with_reg(6, sp.wrapping_add(2)),
        )
    }
}

pub open spec fn res_spec(s: MachineState, instruction: u16) -> Transition {
    fault(s, Fault::IllegalOpcode)
}

/// The vector in bits 7 to 0 selects a system routine. The machine leaves
/// the routine to its host; the halting trap stops the run.
pub open spec fn trap_spec(s: MachineState, instruction: u16) -> Transition {
    match TrapCode::spec_from_vector((instruction & 0xFF) as u8) {
        Some(TrapCode::HALT) => Transition { state: s, outcome: Outcome::Halt },
        Some(code) => Transition { state: s, outcome: Outcome::Trap(code) },
        None => fault(s, Fault::UnknownTrap((instruction & 0xFF) as u8)),
    }
}

/// What `instruction` does to a machine in state `s`, the program counter
/// already standing on the next instruction.
pub open spec fn execute_spec(s: MachineState, instruction: u16) -> Transition {
    match Opcode::spec_decode(instruction) {
        Opcode::BR => br_spec(s, instruction),
        Opcode::ADD => add_spec(s, instruction),
        Opcode::LD => ld_spec(s, instruction),
        Opcode::ST => st_spec(s, instruction),
        Opcode::JSR => jsr_spec(s, instruction),
        Opcode::AND => and_spec(s, instruction),
        Opcode::LDR => ldr_spec(s, instruction),
        Opcode::STR => str_spec(s, instruction),
        Opcode::RTI => rti_spec(s, instruction),
        Opcode::NOT => not_spec(s, instruction),
        Opcode::LDI => ldi_spec(s, instruction),
        Opcode::STI => sti_spec(s, instruction),
        Opcode::JMP => jmp_spec(s, instruction),
        Opcode::RES => res_spec(s, instruction),
        Opcode::LEA => lea_spec(s, instruction),
        Opcode::TRAP => trap_spec(s, instruction),
    }
}

pub fn sign_extend(x: u16, bit_count: u8) -> (r: u16)
    requires
        1 <= bit_count <= 15,
    ensures
        r == sign_extend_spec(x, bit_count),
{
    let mut x: u16 = x;
    if (x >> ((bit_count - 1) as u16)) & 0x1 != 0 {
        x |= 0xFFFFu16 << (bit_count as u16);
    }
    x
}

/// The number that the low `bit_count` bits of `x` stand for in two's
/// complement.
pub open spec fn twos_complement(x: u16, bit_count: u8) -> int {
    if x < vstd::arithmetic::power2::pow2((bit_count - 1) as nat) {
        x as int
    } else {
        x - vstd::arithmetic::power2::pow2(bit_count as nat)
    }
}

/// For the field widths of the instruction set, sign extension is exact: the
/// 16-bit result stands for the same number as the field.
pub proof fn lemma_sign_extend_exact(x: u16, bit_count: u8)
    requires
        bit_count == 5 || bit_count == 6 || bit_count == 9 || bit_count == 11,
        x < vstd::arithmetic::power2::pow2(bit_count as nat),
    ensures
        twos_complement(sign_extend_spec(x, bit_count), 16) == twos_complement(x, bit_count),
{
    vstd::arithmetic::power2::lemma2_to64();
    let r = sign_extend_spec(x, bit_count);
    if bit_count == 5 {
        assert(x < 32 ==> (if (x >> 4u16) & 0x1 != 0 {
            x >= 16 && (x | (0xFFFFu16 << 5u16)) == x + 0xFFE0
        } else {
            x < 16
        })) by (bit_vector);
    } else if bit_count == 6 {
        assert(x < 64 ==> (if (x >> 5u16) & 0x1 != 0 {
            x >= 32 && (x | (0xFFFFu16 << 6u16)) == x + 0xFFC0
        } else {
            x < 32
        })) by (bit_vector);
    } else if bit_count == 9 {
        assert(x < 512 ==> (if (x >> 8u16) & 0x1 != 0 {
            x >= 256 && (x | (0xFFFFu16 << 9u16)) == x + 0xFE00
        } else {
            x < 256
        })) by (bit_vector);
    } else {
        assert(x < 2048 ==> (if (x >> 10u16) & 0x1 != 0 {
            x >= 1024 && (x | (0xFFFFu16 << 11u16)) == x + 0xF800
        } else {
            x < 1024
        })) by (bit_vector);
    }
}

fn dr_field(instruction: u16) -> (r: u16)
    ensures
        r == dr_of(instruction),
        r < 8,
{
    assert((instruction >> 9) & 0x7 < 8) by (bit_vector);
    (instruction >> 9) & 0x7
}

fn sr1_field(instruction: u16) -> (r: u16)
    ensures
        r == sr1_of(instruction),
        r < 8,
{
    assert((instruction >> 6) & 0x7 < 8) by (bit_vector);
    (instruction >> 6) & 0x7
}

fn sr2_field(instruction: u16) -> (r: u16)
    ensures
        r == sr2_of(instruction),
        r < 8,
{
    assert(instruction & 0x7 < 8) by (bit_vector);
    instruction & 0x7
}

fn operand2(vm: &VirtualMachine, instruction: u16) -> (value: u16)
    ensures
        value == second_operand(vm@, instruction),
{
    if (instruction >> 5) & 0x1 == 1 {
        sign_extend(instruction & 0x1F, 5)
    } else {
        vm.registers.get(sr2_field(instruction))
    }
}

fn pc_address(vm: &VirtualMachine, instruction: u16) -> (address: u16)
    ensures
        address == pc_relative(vm@, instruction),
{
    let offset: u16 = sign_extend(instruction & 0x1FF, 9);
    vm.registers.get(PC).wrapping_add(offset)
}

fn base_address(vm: &VirtualMachine, instruction: u16) -> (address: u16)
    ensures
        address == base_relative(vm@, instruction),
{
    let offset: u16 = sign_extend(instruction & 0x3F, 6);
    vm.registers.get(sr1_field(instruction)).wrapping_add(offset)
}

fn allowed(vm: &VirtualMachine, address: u16) -> (ok: bool)
    ensures
        ok == vm@.may_access(address),
{
    !(vm.memory.is_privileged(address) && vm.get_mode() == PrivilegeMode::User)
}

fn set_result(vm: &mut VirtualMachine, instruction: u16, value: u16)
    ensures
        final(vm)@ == write_result(old(vm)@, instruction, value),
{
    let dr: u16 = dr_field(instruction);
    vm.registers.set(dr, value);
    vm.registers.set_condition_codes(dr);
}

fn load(vm: &mut VirtualMachine, instruction: u16, address: u16) -> (outcome: Outcome)
    ensures
        final(vm)@ == load_from(old(vm)@, instruction, address).state,
        outcome == load_from(old(vm)@, instruction, address).outcome,
{
    if allowed(vm, address) {
        let value: u16 = vm.memory.read(address);
        set_result(vm, instruction, value);
        Outcome::Continue
    } else {
        Outcome::Fault(Fault::AccessViolation)
    }
}

fn store(vm: &mut VirtualMachine, instruction: u16, address: u16) -> (outcome: Outcome)
    ensures
        final(vm)@ == store_to(old(vm)@, instruction, address).state,
        outcome == store_to(old(vm)@, instruction, address).outcome,
{
    if allowed(vm, address) {
        let value: u16 = vm.registers.get(dr_field(instruction));
        vm.memory.write(address, value);
        Outcome::Continue
    } else {
        Outcome::Fault(Fault::AccessViolation)
    }
}

fn br(vm: &mut VirtualMachine, instruction: u16) -> (outcome: Outcome)
    ensures
        final(vm)@ == br_spec(old(vm)@, instruction).state,
        outcome == br_spec(old(vm)@, instruction).outcome,
{
    let flags: u16 = dr_field(instruction);
    if flags & vm.registers.get(PSR) != 0 {
        let address: u16 = pc_address(vm, instruction);
        vm.registers.set(PC, address);
    }
    Outcome::Continue
}

fn add(vm: &mut VirtualMachine, instruction: u16) -> (outcome: Outcome)
    ensures
        final(vm)@ == add_spec(old(vm)@, instruction).state,
        outcome == add_spec(old(vm)@, instruction).outcome,
{
    let first: u16 = vm.registers.get(sr1_field(instruction));
    let second: u16 = operand2(vm, instruction);
    set_result(vm, instruction, first.wrapping_add(second));
    Outcome::Continue
}

fn and(vm: &mut VirtualMachine, instruction: u16) -> (outcome: Outcome)
    ensures
        final(vm)@ == and_spec(old(vm)@, instruction).state,
        outcome == and_spec(old(vm)@, instruction).outcome,
{
    let first: u16 = vm.registers.get(sr1_field(instruction));
    let second: u16 = operand2(vm, instruction);
    set_result(vm, instruction, first & second);
    Outcome::Continue
}

fn not(vm: &mut VirtualMachine, instruction: u16) -> (outcome: Outcome)
    ensures
        final(vm)@ == not_spec(old(vm)@, instruction).state,
        outcome == not_spec(old(vm)@, instruction).outcome,
{
    let value: u16 = vm.registers.get(sr1_field(instruction));
    set_result(vm, instruction, !value);
    Outcome::Continue
}

fn ld(vm: &mut VirtualMachine, instruction: u16) -> (outcome: Outcome)
    ensures
        final(vm)@ == ld_spec(old(vm)@, instruction).state,
        outcome == ld_spec(old(vm)@, instruction).outcome,
{
    let address: u16 = pc_address(vm, instruction);
    load(vm, instruction, address)
}

fn ldr(vm: &mut VirtualMachine, instruction: u16) -> (outcome: Outcome)
    ensures
        final(vm)@ == ldr_spec(old(vm)@, instruction).state,
        outcome == ldr_spec(old(vm)@, instruction).outcome,
{
    let address: u16 = base_address(vm, instruction);
    load(vm, instruction, address)
}

fn ldi(vm: &mut VirtualMachine, instruction: u16) -> (outcome: Outcome)
    ensures
        final(vm)@ == ldi_spec(old(vm)@, instruction).state,
        outcome == ldi_spec(old(vm)@, instruction).outcome,
{
    let indirect: u16 = pc_address(vm, instruction);
    if allowed(vm, indirect) {
        let address: u16 = vm.memory.read(indirect);
        load(vm, instruction, address)
    } else {
        Outcome::Fault(Fault::AccessViolation)
    }
}

fn lea(vm: &mut VirtualMachine, instruction: u16) -> (outcome: Outcome)
    ensures
        final(vm)@ == lea_spec(old(vm)@, instruction).state,
        outcome == lea_spec(old(vm)@, instruction).outcome,
{
    let address: u16 = pc_address(vm, instruction);
    vm.registers.set(dr_field(instruction), address);
    Outcome::Continue
}

fn st(vm: &mut VirtualMachine, instruction: u16) -> (outcome: Outcome)
    ensures
        final(vm)@ == st_spec(old(vm)@, instruction).state,
        outcome == st_spec(old(vm)@, instruction).outcome,
{
    let address: u16 = pc_address(vm, instruction);
    store(vm, instruction, address)
}

fn str(vm: &mut VirtualMachine, instruction: u16) -> (outcome: Outcome)
    ensures
        final(vm)@ == str_spec(old(vm)@, instruction).state,
        outcome == str_spec(old(vm)@, instruction).outcome,
{
    let address: u16 = base_address(vm, instruction);
    store(vm, instruction, address)
}

fn sti(vm: &mut VirtualMachine, instruction: u16) -> (outcome: Outcome)
    ensures
        final(vm)@ == sti_spec(old(vm)@, instruction).state,
        outcome == sti_spec(old(vm)@, instruction).outcome,
{
    let indirect: u16 = pc_address(vm, instruction);
    if allowed(vm, indirect) {
        let address: u16 = vm.memory.read(indirect);
        store(vm, instruction, address)
    } else {
        Outcome::Fault(Fault::AccessViolation)
    }
}

fn jmp(vm: &mut VirtualMachine, instruction: u16) -> (outcome: Outcome)
    ensures
        final(vm)@ == jmp_spec(old(vm)@, instruction).state,
        outcome == jmp_spec(old(vm)@, instruction).outcome,
{
    let address: u16 = vm.registers.get(sr1_field(instruction));
    vm.registers.set(PC, address);
    Outcome::Continue
}

fn jsr(vm: &mut VirtualMachine, instruction: u16) -> (outcome: Outcome)
    ensures
        final(vm)@ == jsr_spec(old(vm)@, instruction).state,
        outcome == jsr_spec(old(vm)@, instruction).outcome,
{
    let pc: u16 = vm.registers.get(PC);
    vm.registers.set(7, pc);
    if (instruction >> 11) & 0x1 == 1 {
        let offset: u16 = sign_extend(instruction & 0x7FF, 11);
        vm.registers.set(PC, pc.wrapping_add(offset));
    } else {
        let address: u16 = vm.registers.get(sr1_field(instruction));
        vm.registers.set(PC, address);
    }
    Outcome::Continue
}

fn rti(vm: &mut VirtualMachine, instruction: u16) -> (outcome: Outcome)
    ensures
        final(vm)@ == rti_spec(old(vm)@, instruction).state,
        outcome == rti_spec(old(vm)@, instruction).outcome,
{
    if vm.get_mode() == PrivilegeMode::User {
        Outcome::Fault(Fault::PrivilegeViolation)
    } else {
        let sp: u16 = vm.registers.get(6);
        let pc: u16 = vm.memory.read(sp);
        let psr: u16 = vm.memory.read(sp.wrapping_add(1));
        vm.registers.set(PC, pc);
        vm.registers.set(PSR, psr);
        vm.registers.set(6, sp.wrapping_add(2));
        Outcome::Continue
    }
}

fn res(vm: &mut VirtualMachine, instruction: u16) -> (outcome: Outcome)
    ensures
        final(vm)@ == res_spec(old(vm)@, instruction).state,
        outcome == res_spec(old(vm)@, instruction).outcome,
{
    Outcome::Fault(Fault::IllegalOpcode)
}

fn trap(vm: &mut VirtualMachine, instruction: u16) -> (outcome: Outcome)
    ensures
        final(vm)@ == trap_spec(old(vm)@, instruction).state,
        outcome == trap_spec(old(vm)@, instruction).outcome,
{
    assert(instruction & 0xFF < 0x100) by (bit_vector);
    let vector: u8 = (instruction & 0xFF) as u8;
    match TrapCode::from_vector(vector) {
        Some(TrapCode::HALT) => Outcome::Halt,
        Some(code) => Outcome::Trap(code),
        None => Outcome::Fault(Fault::UnknownTrap(vector)),
    }
}

/// Executes one instruction word on a machine whose program counter already
/// stands on the next instruction.
pub fn execute(vm: &mut VirtualMachine, instruction: u16) -> (outcome: Outcome)
    ensures
        final(vm)@ == execute_spec(old(vm)@, instruction).state,
        outcome == execute_spec(old(vm)@, instruction).outcome,
{
    match Opcode::decode(instruction) {
        Opcode::BR => br(vm, instruction),
        Opcode::ADD => self::add(vm, instruction),
        Opcode::LD => ld(vm, instruction),
        Opcode::ST => st(vm, instruction),
        Opcode::JSR => jsr(vm, instruction),
        Opcode::AND => and(vm, instruction),
        Opcode::LDR => ldr(vm, instruction),
        Opcode::STR => str(vm, instruction),
        Opcode::RTI => rti(vm, instruction),
        Opcode::NOT => not(vm, instruction),
        Opcode::LDI => ldi(vm, instruction),
        Opcode::STI => sti(vm, instruction),
        Opcode::JMP => jmp(vm, instruction),
        Opcode::RES => res(vm, instruction),
        Opcode::LEA => lea(vm, instruction),
        Opcode::TRAP => trap(vm, instruction),
    }
}

} // verus!
