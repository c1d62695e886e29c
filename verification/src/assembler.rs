//! The two-pass assembler. The first pass checks a program's structure and
//! collects its labels; the second emits one word for each instruction.

use vstd::prelude::*;
use crate::error::{failure, AssemblerError, ErrorKind, ErrorModel};
use crate::instruction::{
    execute_spec,
    proceed,
    sign_extend_spec,
    Opcode,
    Outcome,
    Transition,
    TrapCode,
};
use crate::numeric::{numeric_of, numeric_value};
use crate::register::Register;
use crate::source::{
    all_hold_code,
    holds_code,
    models,
    program_lines,
    read_program,
    Line,
    LineModel,
};
use crate::symbols::{defined, lemma_defined, lookup, unique_names, SymbolTable};
use crate::vm::MachineState;
use crate::text::{
    append_decimal,
    chars_of,
    contains_word,
    decimal,
    is_word,
    joined,
    texts,
};

verus! {

/// What the first pass knows after some lines.
pub ghost struct ScanModel {
    /// The line that sets the origin was read.
    pub started: bool,
    /// The line that ends the program was read.
    pub ended: bool,
    /// A halting trap was read.
    pub halted: bool,
    /// The address at which the program is loaded.
    pub origin: u16,
    /// The location counter: the address of the next instruction.
    pub counter: u16,
    /// The labels read so far.
    pub symbols: Seq<(Seq<char>, u16)>,
}

/// The record of the first pass.
pub struct Scan {
    pub started: bool,
    pub ended: bool,
    pub halted: bool,
    pub origin: u16,
    pub counter: u16,
    pub symbols: SymbolTable,
}

impl View for Scan {
    type V = ScanModel;

    open spec fn view(&self) -> ScanModel {
        ScanModel {
            started: self.started,
            ended: self.ended,
            halted: self.halted,
            origin: self.origin,
            counter: self.counter,
            symbols: self.symbols@,
        }
    }
}

/// The first pass before its first line.
pub open spec fn start_scan() -> ScanModel {
    ScanModel {
        started: false,
        ended: false,
        halted: false,
        origin: 0,
        counter: 0,
        symbols: Seq::empty(),
    }
}

/// The location counter after one more instruction, in 16-bit arithmetic.
pub open spec fn advanced(counter: u16) -> u16 {
    counter.wrapping_add(1)
}

/// The first pass on a line whose first field is a label.
pub open spec fn scan_labelled(st: ScanModel, line: LineModel) -> Result<ScanModel, ErrorModel> {
    if line.fields.contains("HALT"@) && (line.fields.last() != "HALT"@ || line.fields.len() != 2) {
        Err(failure(ErrorKind::HaltUsage, "HALT cannot have operand - given: "@ + line.text))
    } else if line.fields.contains(".END"@) {
        Err(
            failure(
                ErrorKind::EndUsage,
                ".END cannot have symbol or operand - given: "@ + line.text,
            ),
        )
    } else {
        Ok(
            ScanModel {
                halted: st.halted || line.fields.contains("HALT"@),
                counter: advanced(st.counter),
                symbols: defined(st.symbols, line.fields[0], st.counter),
                ..st
            },
        )
    }
}

/// The first pass on the first line of code, which must set the origin.
pub open spec fn scan_origin(st: ScanModel, line: LineModel) -> Result<ScanModel, ErrorModel> {
    if line.fields[0] != ".ORIG"@ {
        Err(
            failure(
                ErrorKind::OrigUsage,
                ".ORIG cannot have a symbol before it - given: "@ + line.fields[0],
            ),
        )
    } else if line.fields.len() != 2 {
        Err(
            failure(
                ErrorKind::OrigUsage,
                ".ORIG can only have 1 operand - given: "@ + decimal(
                    (line.fields.len() - 1) as nat,
                ),
            ),
        )
    } else {
        match numeric_value(line.fields[1]) {
            Ok(origin) => Ok(ScanModel { started: true, origin, counter: origin, ..st }),
            Err(e) => Err(e),
        }
    }
}

/// The first pass on one line of code.
pub open spec fn scan_line_spec(st: ScanModel, line: LineModel) -> Result<ScanModel, ErrorModel> {
    let first = line.fields[0];
    if st.ended {
        Err(failure(ErrorKind::EndUsage, "Code after .END: "@ + line.text))
    } else if !st.started {
        scan_origin(st, line)
    } else if first == "ORIG"@ || first == "END"@ {
        Err(failure(ErrorKind::InvalidSymbol, first))
    } else if first == ".ORIG"@ {
        Err(failure(ErrorKind::OrigUsage, "Can only have one .ORIG"@))
    } else if first == ".END"@ {
        if line.fields.len() != 1 {
            Err(failure(ErrorKind::EndUsage, ".END cannot have operand - given: "@ + line.text))
        } else {
            Ok(ScanModel { ended: true, ..st })
        }
    } else if first == "HALT"@ {
        if line.fields.len() != 1 {
            Err(failure(ErrorKind::HaltUsage, "HALT cannot have operand - given: "@ + line.text))
        } else {
            Ok(ScanModel { halted: true, ..st })
        }
    } else if first == "ADD"@ {
        Ok(ScanModel { counter: advanced(st.counter), ..st })
    } else {
        scan_labelled(st, line)
    }
}

/// The first pass on the lines from `i` on, up to its first error.
pub open spec fn scan_from(lines: Seq<LineModel>, i: int, st: ScanModel) -> Result<
    ScanModel,
    ErrorModel,
>
    decreases lines.len() - i,
{
    if i < 0 || i >= lines.len() {
        Ok(st)
    } else {
        match scan_line_spec(st, lines[i]) {
            Ok(next) => scan_from(lines, i + 1, next),
            Err(e) => Err(e),
        }
    }
}

/// The first pass: every line in turn, then the two checks on the whole
/// program, that it ends and that it halts.
pub open spec fn first_pass_spec(lines: Seq<LineModel>) -> Result<ScanModel, ErrorModel> {
    match scan_from(lines, 0, start_scan()) {
        Err(e) => Err(e),
        Ok(st) => if !st.ended {
            Err(failure(ErrorKind::EndUsage, "Missing .END"@))
        } else if !st.halted {
            Err(failure(ErrorKind::HaltUsage, "Missing HALT"@))
        } else {
            Ok(st)
        },
    }
}

proof fn lemma_scan_keeps_names_unique(lines: Seq<LineModel>, i: int, st: ScanModel)
    requires
        unique_names(st.symbols),
    ensures
        scan_from(lines, i, st) matches Ok(end) ==> unique_names(end.symbols),
    decreases lines.len() - i,
{
    if 0 <= i < lines.len() {
        match scan_line_spec(st, lines[i]) {
            Ok(next) => {
                lemma_defined(st.symbols, lines[i].fields[0], st.counter);
                lemma_scan_keeps_names_unique(lines, i + 1, next);
            },
            Err(_) => {},
        }
    }
}

/// No label stands twice in the symbol table that the first pass yields.
pub proof fn lemma_first_pass_names_unique(lines: Seq<LineModel>)
    ensures
        first_pass_spec(lines) matches Ok(st) ==> unique_names(st.symbols),
{
    lemma_scan_keeps_names_unique(lines, 0, start_scan());
}

/// An instruction word from its fields: the opcode in bits 15 to 12, the
/// destination register from bit 9, the first source register from bit 6, the
/// mode flag in bit 5, and the immediate or the second source register in the
/// low bits.
pub open spec fn instruction_word(opcode: Opcode, dr: u16, sr1: u16, flag: u16, low: u16) -> u16 {
    ((opcode.spec_code() as u16) << 12) | (dr << 9) | (sr1 << 6) | (flag << 5) | low
}

/// The word of a trap: the opcode in bits 15 to 12, the vector in bits 7 to 0.
pub open spec fn trap_word(code: TrapCode) -> u16 {
    ((Opcode::TRAP.spec_code() as u16) << 12) | (code.spec_vector() as u16)
}

/// Each fault in a program's structure has an error of its own: code after
/// `.END`, a second `.ORIG`, a reserved word in the place of a label, a
/// wrong number of operands of `.ORIG`, and, once every line is read, a
/// missing `.END` and a missing `HALT`.
pub proof fn lemma_structure_errors(st: ScanModel, line: LineModel, lines: Seq<LineModel>)
    ensures
        st.ended ==> scan_line_spec(st, line) == Err::<ScanModel, ErrorModel>(
            failure(ErrorKind::EndUsage, "Code after .END: "@ + line.text),
        ),
        !st.ended && st.started && line.fields[0] == ".ORIG"@ ==> scan_line_spec(st, line) == Err::<
            ScanModel,
            ErrorModel,
        >(failure(ErrorKind::OrigUsage, "Can only have one .ORIG"@)),
        !st.ended && st.started && (line.fields[0] == "ORIG"@ || line.fields[0] == "END"@)
            ==> scan_line_spec(st, line) == Err::<ScanModel, ErrorModel>(
            failure(ErrorKind::InvalidSymbol, line.fields[0]),
        ),
        !st.ended && !st.started && line.fields[0] == ".ORIG"@ && line.fields.len() != 2
            ==> scan_line_spec(st, line) == Err::<ScanModel, ErrorModel>(
            failure(
                ErrorKind::OrigUsage,
                ".ORIG can only have 1 operand - given: "@ + decimal(
                    (line.fields.len() - 1) as nat,
                ),
            ),
        ),
        scan_from(lines, 0, start_scan()) matches Ok(end) ==> {
            &&& !end.ended ==> first_pass_spec(lines) == Err::<ScanModel, ErrorModel>(
                failure(ErrorKind::EndUsage, "Missing .END"@),
            )
            &&& end.ended && !end.halted ==> first_pass_spec(lines) == Err::<
                ScanModel,
                ErrorModel,
            >(failure(ErrorKind::HaltUsage, "Missing HALT"@))
        },
{
    reveal_strlit(".ORIG");
    reveal_strlit("ORIG");
    reveal_strlit("END");
    assert(".ORIG"@.len() == 5 && "ORIG"@.len() == 4 && "END"@.len() == 3);
}

/// What holds of the lines from `i` on where the first pass accepts them.
proof fn lemma_scan_shape(lines: Seq<LineModel>, i: int, st: ScanModel)
    requires
        0 <= i <= lines.len(),
        all_hold_code(lines),
        scan_from(lines, i, st) is Ok,
    ensures
        ({
            let end = scan_from(lines, i, st)->Ok_0;
            &&& st.ended ==> i == lines.len()
            &&& st.started ==> end.started && end.origin == st.origin
            &&& !st.started && i < lines.len() ==> {
                &&& end.started
                &&& lines[i].fields[0] == ".ORIG"@
                &&& lines[i].fields.len() == 2
                &&& numeric_value(lines[i].fields[1]) == Ok::<u16, ErrorModel>(end.origin)
            }
            &&& forall|k: int|
                i <= k < lines.len() && (st.started || i < k) ==> {
                    &&& (#[trigger] lines[k]).fields[0] != ".ORIG"@
                    &&& lines[k].fields[0] != "ORIG"@
                    &&& lines[k].fields[0] != "END"@
                }
            &&& forall|k: int|
                i <= k < lines.len() - 1 && (st.started || i < k) ==> (#[trigger] lines[k]).fields[0]
                    != ".END"@
            &&& end.ended && !st.ended ==> {
                &&& i < lines.len()
                &&& lines.last().fields[0] == ".END"@
                &&& lines.last().fields.len() == 1
            }
            &&& end.halted && !st.halted ==> exists|k: int|
                i <= k < lines.len() && (#[trigger] lines[k]).fields.contains("HALT"@)
        }),
    decreases lines.len() - i,
{
    if i < lines.len() {
        assert(holds_code(lines[i]));
        let next = scan_line_spec(st, lines[i])->Ok_0;
        lemma_scan_shape(lines, i + 1, next);
        let end = scan_from(lines, i, st)->Ok_0;
        if end.halted && !st.halted {
            if next.halted {
                assert(lines[i].fields[0] == "HALT"@ || lines[i].fields.contains("HALT"@));
                assert(lines[i].fields.contains("HALT"@));
            } else {
                let k = choose|k: int|
                    i + 1 <= k < lines.len() && (#[trigger] lines[k]).fields.contains("HALT"@);
                assert(lines[k].fields.contains("HALT"@));
            }
        }
    }
}

/// A program that the first pass accepts has the shape that the language
/// asks for: its first line is its one `.ORIG` line, with one operand, the
/// origin; its last line is its one `.END` line, with no operand; no line
/// between them starts with a reserved word; and some line holds `HALT`.
pub proof fn lemma_accepted_program(lines: Seq<LineModel>)
    requires
        all_hold_code(lines),
        first_pass_spec(lines) is Ok,
    ensures
        lines.len() >= 2,
        lines[0].fields[0] == ".ORIG"@,
        lines[0].fields.len() == 2,
        numeric_value(lines[0].fields[1]) == Ok::<u16, ErrorModel>(
            first_pass_spec(lines)->Ok_0.origin,
        ),
        lines.last().fields[0] == ".END"@,
        lines.last().fields.len() == 1,
        forall|k: int|
            0 < k < lines.len() ==> {
                &&& (#[trigger] lines[k]).fields[0] != ".ORIG"@
                &&& lines[k].fields[0] != "ORIG"@
                &&& lines[k].fields[0] != "END"@
            },
        forall|k: int| 0 < k < lines.len() - 1 ==> (#[trigger] lines[k]).fields[0] != ".END"@,
        exists|k: int| 0 <= k < lines.len() && (#[trigger] lines[k]).fields.contains("HALT"@),
{
    lemma_scan_shape(lines, 0, start_scan());
    let end = scan_from(lines, 0, start_scan())->Ok_0;
    assert(end.ended && end.halted);
    assert(lines.len() > 0);
    reveal_strlit(".ORIG");
    reveal_strlit(".END");
    assert(".ORIG"@.len() == 5 && ".END"@.len() == 4);
}

/// The words of the lines from `i` on: one for each line that is no
/// directive, after those of `out`.
proof fn lemma_emit_count(
    lines: Seq<LineModel>,
    i: int,
    symbols: Seq<(Seq<char>, u16)>,
    out: Seq<u16>,
    directives: int,
)
    requires
        0 <= i <= lines.len(),
        emit_from(lines, i, symbols, out) is Ok,
        directives == 0 || directives == 1,
        directives == 1 ==> i < lines.len(),
        forall|k: int|
            i <= k < lines.len() - directives ==> !is_directive((#[trigger] lines[k]).fields[0]),
        directives == 1 ==> is_directive(lines.last().fields[0]),
    ensures
        emit_from(lines, i, symbols, out)->Ok_0.len() == out.len() + lines.len() - i - directives,
        emit_from(lines, i, symbols, out)->Ok_0.subrange(0, out.len() as int) == out,
    decreases lines.len() - i,
{
    if i < lines.len() {
        if is_directive(lines[i].fields[0]) {
            lemma_emit_count(lines, i + 1, symbols, out, 0);
        } else {
            let word = encode_instruction_spec(lines[i].fields, symbols)->Ok_0;
            lemma_emit_count(lines, i + 1, symbols, out.push(word), directives);
            let all = emit_from(lines, i, symbols, out)->Ok_0;
            assert(all.subrange(0, out.len() as int) =~= all.subrange(
                0,
                (out.len() + 1) as int,
            ).subrange(0, out.len() as int));
        }
    } else {
        assert(out.subrange(0, out.len() as int) =~= out);
    }
}

/// The words of a program that assembles are its origin, then one word for
/// each line between the `.ORIG` line and the `.END` line.
pub proof fn lemma_assembled_words(program: Seq<char>)
    requires
        assemble_spec(program) is Ok,
    ensures
        assemble_spec(program)->Ok_0.len() == program_lines(program).len() - 1,
        numeric_value(program_lines(program)[0].fields[1]) == Ok::<u16, ErrorModel>(
            assemble_spec(program)->Ok_0[0],
        ),
{
    let lines = program_lines(program);
    crate::source::lemma_significant_hold_code(crate::source::split_lines(program));
    lemma_accepted_program(lines);
    let st = first_pass_spec(lines)->Ok_0;
    assert forall|k: int| 1 <= k < lines.len() - 1 implies !is_directive(
        (#[trigger] lines[k]).fields[0],
    ) by {}
    lemma_emit_count(lines, 1, st.symbols, seq![st.origin], 1);
    let words = assemble_spec(program)->Ok_0;
    assert(words.subrange(0, 1)[0] == st.origin);
}

/// The assembler and the engine agree on the layout of a word: from a word
/// that is packed from fields that fit, the engine reads the same opcode and
/// the same fields.
pub proof fn lemma_word_layout(opcode: Opcode, dr: u16, sr1: u16, flag: u16, low: u16)
    requires
        dr < 8,
        sr1 < 8,
        flag < 2,
        low < 32,
    ensures
        Opcode::spec_decode(instruction_word(opcode, dr, sr1, flag, low)) == opcode,
        crate::instruction::dr_of(instruction_word(opcode, dr, sr1, flag, low)) == dr,
        crate::instruction::sr1_of(instruction_word(opcode, dr, sr1, flag, low)) == sr1,
        (instruction_word(opcode, dr, sr1, flag, low) >> 5) & 0x1 == flag,
        instruction_word(opcode, dr, sr1, flag, low) & 0x1F == low,
{
    let c = opcode.spec_code() as u16;
    let w = (c << 12) | (dr << 9) | (sr1 << 6) | (flag << 5) | low;
    assert(c < 16 && dr < 8 && sr1 < 8 && flag < 2 && low < 32 ==> {
        &&& w >> 12 == c
        &&& (w >> 9) & 0x7 == dr
        &&& (w >> 6) & 0x7 == sr1
        &&& (w >> 5) & 0x1 == flag
        &&& w & 0x1F == low
    }) by (bit_vector)
        requires
            w == (c << 12) | (dr << 9) | (sr1 << 6) | (flag << 5) | low,
    ;
}

/// The word of a trap selects the trap opcode and carries the routine's
/// vector in its low eight bits.
pub proof fn lemma_trap_word_layout(code: TrapCode)
    ensures
        Opcode::spec_decode(trap_word(code)) == Opcode::TRAP,
        TrapCode::spec_from_vector((trap_word(code) & 0xFF) as u8) == Some(code),
{
    let v = code.spec_vector() as u16;
    let w = (15u16 << 12) | v;
    assert(v < 0x100 ==> w >> 12 == 15 && w & 0xFF == v) by (bit_vector)
        requires
            w == (15u16 << 12) | v,
    ;
}

/// The engine carries out an addition as the assembler wrote it. The word of
/// an immediate addition adds the sign-extended immediate to the first
/// source; the word of a register addition adds the second source. Either
/// way the sum goes to the destination, the condition codes are set for it,
/// and the machine continues.
pub proof fn lemma_add_word_executes(s: MachineState, dr: u16, sr1: u16, flag: u16, low: u16)
    requires
        dr < 8,
        sr1 < 8,
        flag == 1 && low < 32 || flag == 0 && low < 8,
    ensures
        execute_spec(s, instruction_word(Opcode::ADD, dr, sr1, flag, low)) == proceed(
            s.with_reg(
                dr as int,
                s.reg(sr1 as int).wrapping_add(
                    if flag == 1 {
                        sign_extend_spec(low, 5)
                    } else {
                        s.reg(low as int)
                    },
                ),
            ).with_condition_codes(dr as int),
        ),
{
    let w = instruction_word(Opcode::ADD, dr, sr1, flag, low);
    lemma_word_layout(Opcode::ADD, dr, sr1, flag, low);
    assert(w & 0x1F == low && low < 8 ==> w & 0x7 == low) by (bit_vector);
}

/// The engine stops at the word that the assembler writes for the halting
/// trap, and leaves the machine as it is.
pub proof fn lemma_halt_word_executes(s: MachineState)
    ensures
        execute_spec(s, trap_word(TrapCode::HALT)) == (Transition {
            state: s,
            outcome: Outcome::Halt,
        }),
{
    lemma_trap_word_layout(TrapCode::HALT);
}

/// The error for a name that is no register's, or that of a register that
/// no instruction field can hold.
pub open spec fn unknown_register(name: Seq<char>) -> ErrorModel {
    failure(ErrorKind::Operands, "Unknown register "@ + name)
}

/// The word of an addition whose mnemonic is field `at`. The three operands
/// are the fields after it. The first two are registers, and only `R0` to
/// `R7` are: any other name, `PC`, `IR` and `PSR` too, is an error that
/// names it. The third is a numeric literal where it starts with `x`, `b` or
/// `#`: its low five bits are the immediate. It is a register, again one of
/// `R0` to `R7`, where it starts with `R`. Anything else is a label, whose
/// address is added to the word in 16-bit arithmetic.
pub open spec fn encode_add_spec(
    fields: Seq<Seq<char>>,
    at: int,
    symbols: Seq<(Seq<char>, u16)>,
) -> Result<u16, ErrorModel> {
    let count = fields.len() - at - 1;
    if count != 3 {
        Err(failure(ErrorKind::Operands, "ADD needs 3 operands - given: "@ + decimal(count as nat)))
    } else {
        let third = fields[at + 3];
        match (Register::operand_named(fields[at + 1]), Register::operand_named(fields[at + 2])) {
            (None, _) => Err(unknown_register(fields[at + 1])),
            (Some(_), None) => Err(unknown_register(fields[at + 2])),
            (Some(dr), Some(sr1)) => if third.len() > 0 && (third[0] == 'x' || third[0] == 'b'
                || third[0] == '#') {
                match numeric_value(third) {
                    Ok(immediate) => Ok(
                        instruction_word(
                            Opcode::ADD,
                            dr.spec_number(),
                            sr1.spec_number(),
                            1,
                            immediate & 0x1F,
                        ),
                    ),
                    Err(e) => Err(e),
                }
            } else if third.len() > 0 && third[0] == 'R' {
                match Register::operand_named(third) {
                    Some(sr2) => Ok(
                        instruction_word(
                            Opcode::ADD,
                            dr.spec_number(),
                            sr1.spec_number(),
                            0,
                            sr2.spec_number(),
                        ),
                    ),
                    None => Err(unknown_register(third)),
                }
            } else {
                match lookup(symbols, third) {
                    Some(address) => Ok(
                        instruction_word(
                            Opcode::ADD,
                            dr.spec_number(),
                            sr1.spec_number(),
                            0,
                            0,
                        ).wrapping_add(address),
                    ),
                    None => Err(failure(ErrorKind::InvalidSymbol, third)),
                }
            },
        }
    }
}

/// An addition that has a word names only registers that its fields can
/// hold. Where its third operand is an immediate or a register, the engine
/// reads from the word the addition's opcode and the two registers that the
/// line names.
pub proof fn lemma_encoded_add(fields: Seq<Seq<char>>, at: int, symbols: Seq<(Seq<char>, u16)>)
    requires
        encode_add_spec(fields, at, symbols) is Ok,
    ensures
        Register::named(fields[at + 1]) is Some,
        Register::named(fields[at + 2]) is Some,
        Register::named(fields[at + 1])->0.spec_number() < 8,
        Register::named(fields[at + 2])->0.spec_number() < 8,
        fields[at + 3].len() > 0 && (fields[at + 3][0] == 'x' || fields[at + 3][0] == 'b'
            || fields[at + 3][0] == '#' || fields[at + 3][0] == 'R') ==> {
            let word = encode_add_spec(fields, at, symbols)->Ok_0;
            &&& Opcode::spec_decode(word) == Opcode::ADD
            &&& crate::instruction::dr_of(word) == Register::named(fields[at + 1])->0.spec_number()
            &&& crate::instruction::sr1_of(word) == Register::named(
                fields[at + 2],
            )->0.spec_number()
        },
{
    let third = fields[at + 3];
    let dr = Register::named(fields[at + 1])->0.spec_number();
    let sr1 = Register::named(fields[at + 2])->0.spec_number();
    if third.len() > 0 && (third[0] == 'x' || third[0] == 'b' || third[0] == '#') {
        let immediate = numeric_value(third)->Ok_0;
        assert(immediate & 0x1F < 32) by (bit_vector);
        lemma_word_layout(Opcode::ADD, dr, sr1, 1, immediate & 0x1F);
    } else if third.len() > 0 && third[0] == 'R' {
        let sr2 = Register::named(third)->0.spec_number();
        lemma_word_layout(Opcode::ADD, dr, sr1, 0, sr2);
    }
}

/// The word of one instruction. Where the first field is a label of the
/// program, the mnemonic is the second field; else it is the first. Only the
/// addition and the halting trap have an encoding.
pub open spec fn encode_instruction_spec(
    fields: Seq<Seq<char>>,
    symbols: Seq<(Seq<char>, u16)>,
) -> Result<u16, ErrorModel> {
    let at: int = if lookup(symbols, fields[0]) is Some {
        1
    } else {
        0
    };
    if fields.len() <= at {
        Err(failure(ErrorKind::UnknownOpcode, "Unknown opcode "@))
    } else {
        match Opcode::named(fields[at]) {
            None => Err(failure(ErrorKind::UnknownOpcode, "Unknown opcode "@ + fields[at])),
            Some(Opcode::ADD) => encode_add_spec(fields, at, symbols),
            Some(Opcode::TRAP) => match TrapCode::named(fields[at]) {
                Some(code) => Ok(trap_word(code)),
                None => Err(
                    failure(ErrorKind::UnknownOpcode, "Unknown trap code "@ + fields[at]),
                ),
            },
            Some(_) => Err(
                failure(ErrorKind::UnknownOpcode, "No encoding for opcode "@ + fields[at]),
            ),
        }
    }
}

/// A directive emits no word.
pub open spec fn is_directive(field: Seq<char>) -> bool {
    field == ".ORIG"@ || field == ".END"@
}

/// The words of the lines from `i` on, after `out`, up to the first error.
pub open spec fn emit_from(
    lines: Seq<LineModel>,
    i: int,
    symbols: Seq<(Seq<char>, u16)>,
    out: Seq<u16>,
) -> Result<Seq<u16>, ErrorModel>
    decreases lines.len() - i,
{
    if i < 0 || i >= lines.len() {
        Ok(out)
    } else if is_directive(lines[i].fields[0]) {
        emit_from(lines, i + 1, symbols, out)
    } else {
        match encode_instruction_spec(lines[i].fields, symbols) {
            Ok(word) => emit_from(lines, i + 1, symbols, out.push(word)),
            Err(e) => Err(e),
        }
    }
}

/// The second pass: the origin, then the word of each line after the first.
pub open spec fn second_pass_spec(lines: Seq<LineModel>, st: ScanModel) -> Result<
    Seq<u16>,
    ErrorModel,
> {
    emit_from(lines, 1, st.symbols, seq![st.origin])
}

/// The words of a program, or its first error.
pub open spec fn assemble_spec(program: Seq<char>) -> Result<Seq<u16>, ErrorModel> {
    match first_pass_spec(program_lines(program)) {
        Ok(st) => second_pass_spec(program_lines(program), st),
        Err(e) => Err(e),
    }
}

/// A result of the first pass seen as its model.
pub open spec fn scan_result(r: Result<Scan, AssemblerError>) -> Result<ScanModel, ErrorModel> {
    match r {
        Ok(st) => Ok(st@),
        Err(e) => Err(e@),
    }
}

/// A result of the second pass seen as its model.
pub open spec fn words_result(r: Result<Vec<u16>, AssemblerError>) -> Result<
    Seq<u16>,
    ErrorModel,
> {
    match r {
        Ok(words) => Ok(words@),
        Err(e) => Err(e@),
    }
}

fn fail(kind: ErrorKind, head: &str, tail: &Vec<char>) -> (e: AssemblerError)
    ensures
        e@ == failure(kind, head@ + tail@),
{
    AssemblerError::of_chars(kind, &joined(head, tail))
}

fn fail_with(kind: ErrorKind, text: &str) -> (e: AssemblerError)
    ensures
        e@ == failure(kind, text@),
{
    AssemblerError::of_chars(kind, &chars_of(text))
}

fn fail_count(kind: ErrorKind, head: &str, count: usize) -> (e: AssemblerError)
    ensures
        e@ == failure(kind, head@ + decimal(count as nat)),
{
    let mut text: Vec<char> = chars_of(head);
    append_decimal(&mut text, count);
    AssemblerError::of_chars(kind, &text)
}

fn scan_first_line(st: Scan, line: &Line) -> (r: Result<Scan, AssemblerError>)
    requires
        holds_code(line@),
    ensures
        scan_result(r) == scan_origin(st@, line@),
{
    let mut st = st;
    let first: &Vec<char> = &line.fields[0];
    if !is_word(first, ".ORIG") {
        return Err(
            fail(ErrorKind::OrigUsage, ".ORIG cannot have a symbol before it - given: ", first),
        );
    }
    if line.fields.len() != 2 {
        return Err(
            fail_count(
                ErrorKind::OrigUsage,
                ".ORIG can only have 1 operand - given: ",
                line.fields.len() - 1,
            ),
        );
    }
    match numeric_of(&line.fields[1]) {
        Ok(origin) => {
            st.started = true;
            st.origin = origin;
            st.counter = origin;
            Ok(st)
        },
        Err(e) => Err(e),
    }
}

fn scan_label_line(st: Scan, line: &Line) -> (r: Result<Scan, AssemblerError>)
    requires
        holds_code(line@),
    ensures
        scan_result(r) == scan_labelled(st@, line@),
{
    let mut st = st;
    let count: usize = line.fields.len();
    let halts: bool = contains_word(&line.fields, "HALT");
    if halts && (!is_word(&line.fields[count - 1], "HALT") || count != 2) {
        return Err(fail(ErrorKind::HaltUsage, "HALT cannot have operand - given: ", &line.text));
    }
    if contains_word(&line.fields, ".END") {
        return Err(
            fail(
                ErrorKind::EndUsage,
                ".END cannot have symbol or operand - given: ",
                &line.text,
            ),
        );
    }
    if halts {
        st.halted = true;
    }
    st.symbols.define(&line.fields[0], st.counter);
    st.counter = st.counter.wrapping_add(1);
    Ok(st)
}

/// The first pass on one line of code.
pub fn scan_line(st: Scan, line: &Line) -> (r: Result<Scan, AssemblerError>)
    requires
        holds_code(line@),
    ensures
        scan_result(r) == scan_line_spec(st@, line@),
{
    let mut st = st;
    let first: &Vec<char> = &line.fields[0];
    if st.ended {
        Err(fail(ErrorKind::EndUsage, "Code after .END: ", &line.text))
    } else if !st.started {
        scan_first_line(st, line)
    } else if is_word(first, "ORIG") || is_word(first, "END") {
        Err(AssemblerError::of_chars(ErrorKind::InvalidSymbol, first))
    } else if is_word(first, ".ORIG") {
        Err(fail_with(ErrorKind::OrigUsage, "Can only have one .ORIG"))
    } else if is_word(first, ".END") {
        if line.fields.len() != 1 {
            Err(fail(ErrorKind::EndUsage, ".END cannot have operand - given: ", &line.text))
        } else {
            st.ended = true;
            Ok(st)
        }
    } else if is_word(first, "HALT") {
        if line.fields.len() != 1 {
            Err(fail(ErrorKind::HaltUsage, "HALT cannot have operand - given: ", &line.text))
        } else {
            st.halted = true;
            Ok(st)
        }
    } else if is_word(first, "ADD") {
        st.counter = st.counter.wrapping_add(1);
        Ok(st)
    } else {
        scan_label_line(st, line)
    }
}

/// The first pass: checks the program's structure and collects its labels.
pub fn first_pass(lines: &Vec<Line>) -> (r: Result<Scan, AssemblerError>)
    requires
        all_hold_code(models(lines@)),
    ensures
        scan_result(r) == first_pass_spec(models(lines@)),
{
    let mut st = Scan {
        started: false,
        ended: false,
        halted: false,
        origin: 0,
        counter: 0,
        symbols: SymbolTable::new(),
    };
    let mut i: usize = 0;
    while i < lines.len()
        invariant
            i <= lines@.len(),
            all_hold_code(models(lines@)),
            scan_from(models(lines@), 0, start_scan()) == scan_from(models(lines@), i as int, st@),
        decreases lines@.len() - i,
    {
        assert(holds_code(models(lines@)[i as int]));
        match scan_line(st, &lines[i]) {
            Ok(next) => {
                st = next;
            },
            Err(e) => {
                return Err(e);
            },
        }
        i += 1;
    }
    if !st.ended {
        Err(fail_with(ErrorKind::EndUsage, "Missing .END"))
    } else if !st.halted {
        Err(fail_with(ErrorKind::HaltUsage, "Missing HALT"))
    } else {
        Ok(st)
    }
}

fn register_of(name: &Vec<char>) -> (r: Result<Register, AssemblerError>)
    ensures
        match r {
            Ok(register) => Register::operand_named(name@) == Some(register)
                && register.spec_number() < 8,
            Err(e) => Register::operand_named(name@) is None && e@ == unknown_register(name@),
        },
{
    match Register::from_chars(name) {
        Some(register) => if register.addressable() {
            Ok(register)
        } else {
            Err(fail(ErrorKind::Operands, "Unknown register ", name))
        },
        None => Err(fail(ErrorKind::Operands, "Unknown register ", name)),
    }
}

fn pack(opcode: Opcode, dr: u16, sr1: u16, flag: u16, low: u16) -> (word: u16)
    requires
        dr < 8,
        sr1 < 8,
        flag < 2,
        low < 32,
    ensures
        word == instruction_word(opcode, dr, sr1, flag, low),
{
    ((opcode.code() as u16) << 12) | (dr << 9) | (sr1 << 6) | (flag << 5) | low
}

fn encode_add(fields: &Vec<Vec<char>>, at: usize, symbols: &SymbolTable) -> (r: Result<
    u16,
    AssemblerError,
>)
    requires
        at < fields@.len(),
    ensures
        crate::numeric::word_result(r) == encode_add_spec(texts(fields@), at as int, symbols@),
{
    let count: usize = fields.len() - at - 1;
    if count != 3 {
        return Err(fail_count(ErrorKind::Operands, "ADD needs 3 operands - given: ", count));
    }
    let dr: Register = match register_of(&fields[at + 1]) {
        Ok(register) => register,
        Err(e) => {
            return Err(e);
        },
    };
    let sr1: Register = match register_of(&fields[at + 2]) {
        Ok(register) => register,
        Err(e) => {
            return Err(e);
        },
    };
    let third: &Vec<char> = &fields[at + 3];
    if third.len() > 0 && (third[0] == 'x' || third[0] == 'b' || third[0] == '#') {
        match numeric_of(third) {
            Ok(immediate) => {
                assert(immediate & 0x1F < 32) by (bit_vector);
                Ok(pack(Opcode::ADD, dr.number(), sr1.number(), 1, immediate & 0x1F))
            },
            Err(e) => Err(e),
        }
    } else if third.len() > 0 && third[0] == 'R' {
        match register_of(third) {
            Ok(sr2) => Ok(pack(Opcode::ADD, dr.number(), sr1.number(), 0, sr2.number())),
            Err(e) => Err(e),
        }
    } else {
        match symbols.lookup(third) {
            Some(address) => Ok(
                pack(Opcode::ADD, dr.number(), sr1.number(), 0, 0).wrapping_add(address),
            ),
            None => Err(AssemblerError::of_chars(ErrorKind::InvalidSymbol, third)),
        }
    }
}

/// Encodes one instruction from the fields of its line.
pub fn encode_instruction(fields: &Vec<Vec<char>>, symbols: &SymbolTable) -> (r: Result<
    u16,
    AssemblerError,
>)
    requires
        fields@.len() > 0,
    ensures
        crate::numeric::word_result(r) == encode_instruction_spec(texts(fields@), symbols@),
{
    let at: usize = if symbols.lookup(&fields[0]).is_some() {
        1
    } else {
        0
    };
    if fields.len() <= at {
        return Err(fail_with(ErrorKind::UnknownOpcode, "Unknown opcode "));
    }
    let mnemonic: &Vec<char> = &fields[at];
    match Opcode::from_chars(mnemonic) {
        None => Err(fail(ErrorKind::UnknownOpcode, "Unknown opcode ", mnemonic)),
        Some(Opcode::ADD) => encode_add(fields, at, symbols),
        Some(Opcode::TRAP) => match TrapCode::from_chars(mnemonic) {
            Some(code) => Ok(((Opcode::TRAP.code() as u16) << 12) | (code.vector() as u16)),
            None => Err(fail(ErrorKind::UnknownOpcode, "Unknown trap code ", mnemonic)),
        },
        Some(_) => Err(fail(ErrorKind::UnknownOpcode, "No encoding for opcode ", mnemonic)),
    }
}

/// The second pass: emits the origin, then one word for each instruction.
pub fn second_pass(lines: &Vec<Line>, st: &Scan) -> (r: Result<Vec<u16>, AssemblerError>)
    requires
        all_hold_code(models(lines@)),
    ensures
        words_result(r) == second_pass_spec(models(lines@), st@),
{
    let mut out: Vec<u16> = Vec::new();
    out.push(st.origin);
    assert(out@ =~= seq![st.origin]);
    let mut i: usize = 1;
    while i < lines.len()
        invariant
            1 <= i,
            all_hold_code(models(lines@)),
            second_pass_spec(models(lines@), st@) == emit_from(
                models(lines@),
                i as int,
                st.symbols@,
                out@,
            ),
        decreases lines@.len() - i,
    {
        assert(holds_code(models(lines@)[i as int]));
        let line: &Line = &lines[i];
        let first: &Vec<char> = &line.fields[0];
        if !(is_word(first, ".ORIG") || is_word(first, ".END")) {
            match encode_instruction(&line.fields, &st.symbols) {
                Ok(word) => {
                    out.push(word);
                },
                Err(e) => {
                    return Err(e);
                },
            }
        }
        i += 1;
    }
    Ok(out)
}

/// Assembles a program into its words: the load address first, then one
/// word for each instruction. Stops at the first error.
pub fn assemble(program: String) -> (r: Result<Vec<u16>, AssemblerError>)
    ensures
        words_result(r) == assemble_spec(program@),
{
    let text: Vec<char> = chars_of(program.as_str());
    let lines: Vec<Line> = read_program(&text);
    match first_pass(&lines) {
        Ok(st) => second_pass(&lines, &st),
        Err(e) => Err(e),
    }
}

} // verus!
