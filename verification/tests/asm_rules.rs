use lc3::{
    assemble, encode_instruction, encode_numeric, first_pass, read_program, AssemblerError,
    ErrorKind, Outcome, Register, SymbolTable, VirtualMachine,
};

fn chars(s: &str) -> Vec<char> {
    s.chars().collect()
}

fn fields(line: &[&str]) -> Vec<Vec<char>> {
    line.iter().map(|f| chars(f)).collect()
}

#[test]
fn origin_alone_is_not_a_program() {
    let output = assemble(".ORIG x3000\n.END\n".to_string());
    assert_eq!(
        output,
        Err(AssemblerError::HaltUsage("Missing HALT".into()))
    );
}

#[test]
fn empty_text_misses_its_end() {
    assert_eq!(
        assemble(String::new()),
        Err(AssemblerError::EndUsage("Missing .END".into()))
    );
    assert_eq!(
        assemble("\n   \n; nothing\n".to_string()),
        Err(AssemblerError::EndUsage("Missing .END".into()))
    );
}

#[test]
fn halt_only_program() {
    assert_eq!(
        assemble(".ORIG x3000\nHALT\n.END".to_string()),
        Ok(vec![0x3000, 0xF025])
    );
}

#[test]
fn the_three_radixes_of_an_immediate() {
    let program = ".ORIG x3000\nADD R0, R0, #3\nADD R1, R1, b0100\nADD R2, R0, R1\nHALT\n.END\n";
    assert_eq!(
        assemble(program.to_string()),
        Ok(vec![0x3000, 0x1023, 0x1264, 0x1401, 0xF025])
    );
}

#[test]
fn an_immediate_keeps_its_low_five_bits() {
    let program = ".ORIG x3000\nADD R7, R6, x1F\nADD R0, R0, x3F\nHALT\n.END\n";
    assert_eq!(
        assemble(program.to_string()),
        Ok(vec![0x3000, 0x1FBF, 0x103F, 0xF025])
    );
}

#[test]
fn reserved_words_are_no_symbols() {
    assert_eq!(
        assemble(".ORIG x3000\nORIG x3000\nHALT\n.END\n".to_string()),
        Err(AssemblerError::InvalidSymbol("ORIG".into()))
    );
    assert_eq!(
        assemble(".ORIG x3000\nHALT\nEND\n".to_string()),
        Err(AssemblerError::InvalidSymbol("END".into()))
    );
}

#[test]
fn a_malformed_origin_names_its_radix() {
    assert_eq!(
        assemble(".ORIG b102\nHALT\n.END\n".to_string()),
        Err(AssemblerError::InvalidBinary("102".into()))
    );
    assert_eq!(
        assemble(".ORIG #65536\nHALT\n.END\n".to_string()),
        Err(AssemblerError::InvalidDecimal("65536".into()))
    );
    assert_eq!(
        assemble(".ORIG x30G0\nHALT\n.END\n".to_string()),
        Err(AssemblerError::InvalidHex("30G0".into()))
    );
    assert_eq!(
        assemble(".ORIG 3000\nHALT\n.END\n".to_string()),
        Err(AssemblerError::InvalidNumber("3000".into()))
    );
}

#[test]
fn numeric_literals() {
    assert_eq!(encode_numeric("x3000"), Ok(0x3000));
    assert_eq!(encode_numeric("xffff"), Ok(0xFFFF));
    assert_eq!(encode_numeric("xFFFF"), Ok(0xFFFF));
    assert_eq!(encode_numeric("#10"), Ok(10));
    assert_eq!(encode_numeric("#65535"), Ok(65535));
    assert_eq!(encode_numeric("#0"), Ok(0));
    assert_eq!(encode_numeric("#007"), Ok(7));
    assert_eq!(encode_numeric("b101"), Ok(5));
    assert_eq!(encode_numeric("b1111111111111111"), Ok(0xFFFF));
    assert_eq!(encode_numeric("x+10"), Ok(16));
    assert_eq!(
        encode_numeric("x10000"),
        Err(AssemblerError::InvalidHex("10000".into()))
    );
    assert_eq!(
        encode_numeric("b10000000000000000"),
        Err(AssemblerError::InvalidBinary("10000000000000000".into()))
    );
    assert_eq!(
        encode_numeric("x"),
        Err(AssemblerError::InvalidHex("".into()))
    );
    assert_eq!(
        encode_numeric("x+"),
        Err(AssemblerError::InvalidHex("+".into()))
    );
    assert_eq!(
        encode_numeric("#-1"),
        Err(AssemblerError::InvalidDecimal("-1".into()))
    );
    assert_eq!(
        encode_numeric("#1a"),
        Err(AssemblerError::InvalidDecimal("1a".into()))
    );
    assert_eq!(
        encode_numeric("b2"),
        Err(AssemblerError::InvalidBinary("2".into()))
    );
    assert_eq!(
        encode_numeric("X30"),
        Err(AssemblerError::InvalidNumber("X30".into()))
    );
    assert_eq!(
        encode_numeric(""),
        Err(AssemblerError::InvalidNumber("".into()))
    );
    for value in [0u16, 1, 9, 10, 255, 4096, 65535] {
        assert_eq!(encode_numeric(&format!("#{}", value)), Ok(value));
        assert_eq!(encode_numeric(&format!("x{:x}", value)), Ok(value));
        assert_eq!(encode_numeric(&format!("b{:b}", value)), Ok(value));
    }
}

#[test]
fn a_label_takes_the_address_of_its_line() {
    let program = "
.ORIG x3000
LOOP    ADD R0, R0, #1
        ADD R1, R1, LOOP
        HALT
.END
";
    assert_eq!(
        assemble(program.to_string()),
        Ok(vec![0x3000, 0x1021, 0x4240, 0xF025])
    );
}

#[test]
fn a_label_that_stands_twice_keeps_its_first_address() {
    let text = chars(".ORIG x3000\nA ADD R0, R0, #1\nB ADD R0, R0, #1\nA HALT\n.END\n");
    let lines = read_program(&text);
    assert_eq!(lines.len(), 5);
    let scan = first_pass(&lines).unwrap();
    assert_eq!(scan.origin, 0x3000);
    assert_eq!(scan.counter, 0x3003);
    assert_eq!(scan.symbols.entries.len(), 2);
    assert_eq!(scan.symbols.lookup(&chars("A")), Some(0x3000));
    assert_eq!(scan.symbols.lookup(&chars("B")), Some(0x3001));
    assert_eq!(scan.symbols.lookup(&chars("C")), None);
}

#[test]
fn opcodes_without_an_encoding_are_named() {
    assert_eq!(
        assemble(".ORIG x3000\nL AND R0, R0, R1\nHALT\n.END\n".to_string()),
        Err(AssemblerError::UnknownOpcode(
            "No encoding for opcode AND".into()
        ))
    );
    assert_eq!(
        assemble(".ORIG x3000\nL FOO R0\nHALT\n.END\n".to_string()),
        Err(AssemblerError::UnknownOpcode("Unknown opcode FOO".into()))
    );
    assert_eq!(
        assemble(".ORIG x3000\nL\nHALT\n.END\n".to_string()),
        Err(AssemblerError::UnknownOpcode("Unknown opcode ".into()))
    );
}

#[test]
fn operands_of_an_addition() {
    assert_eq!(
        assemble(".ORIG x3000\nADD R0, R0, R9\nHALT\n.END\n".to_string()),
        Err(AssemblerError::Operands("Unknown register R9".into()))
    );
    assert_eq!(
        assemble(".ORIG x3000\nADD R0, R0, R1, R2\nHALT\n.END\n".to_string()),
        Err(AssemblerError::Operands(
            "ADD needs 3 operands - given: 4".into()
        ))
    );
    assert_eq!(
        assemble(".ORIG x3000\nADD\nHALT\n.END\n".to_string()),
        Err(AssemblerError::Operands(
            "ADD needs 3 operands - given: 0".into()
        ))
    );
    assert_eq!(
        assemble(".ORIG x3000\nADD R0, R0, xZ\nHALT\n.END\n".to_string()),
        Err(AssemblerError::InvalidHex("Z".into()))
    );
    assert_eq!(
        assemble(".ORIG x3000\nADD R0, R0, 5\nHALT\n.END\n".to_string()),
        Err(AssemblerError::InvalidSymbol("5".into()))
    );
}

#[test]
fn many_operands_are_counted_in_decimal() {
    let program = ".ORIG x3000 a b c d e f g h i j k l\nHALT\n.END\n";
    assert_eq!(
        assemble(program.to_string()),
        Err(AssemblerError::OrigUsage(
            ".ORIG can only have 1 operand - given: 13".into()
        ))
    );
}

#[test]
fn any_white_space_parts_fields() {
    let program = "\t.ORIG\tx3000\r\n\u{a0}ADD\u{2003}R0,\tR0, x3  ; three\r\n HALT;stop\r\n.END\r\n";
    assert_eq!(
        assemble(program.to_string()),
        Ok(vec![0x3000, 0x1023, 0xF025])
    );
}

#[test]
fn an_error_shows_the_line_without_the_space_around_it() {
    let program = ".ORIG x3000\nHALT\n.END\n \t ADD R0, R0, R0 ; late \t\n";
    assert_eq!(
        assemble(program.to_string()),
        Err(AssemblerError::EndUsage(
            "Code after .END: ADD R0, R0, R0 ; late".into()
        ))
    );
}

#[test]
fn halt_after_a_label_takes_nothing_else() {
    assert_eq!(
        assemble(".ORIG x3000\nDONE HALT x1\n.END\n".to_string()),
        Err(AssemblerError::HaltUsage(
            "HALT cannot have operand - given: DONE HALT x1".into()
        ))
    );
    assert_eq!(
        assemble(".ORIG x3000\nDONE HALT\n.END\n".to_string()),
        Ok(vec![0x3000, 0xF025])
    );
}

#[test]
fn an_error_has_its_kind_and_its_message() {
    let error = assemble(".ORIG x3000\n.ORIG x3000\n".to_string()).unwrap_err();
    assert_eq!(error.kind(), ErrorKind::OrigUsage);
    assert_eq!(error.message(), "Can only have one .ORIG");
    let made = AssemblerError::new(ErrorKind::InvalidHex, "zz".to_string());
    assert_eq!(made, AssemblerError::InvalidHex("zz".into()));
    assert_eq!(made.message(), "zz");
}

#[test]
fn one_instruction_from_its_fields() {
    let mut symbols = SymbolTable::new();
    symbols.define(&chars("LOOP"), 0x0004);
    symbols.define(&chars("LOOP"), 0x0008);
    assert_eq!(
        encode_instruction(&fields(&["ADD", "R2", "R0", "R1"]), &symbols),
        Ok(0x1401)
    );
    assert_eq!(
        encode_instruction(&fields(&["LOOP", "ADD", "R2", "R0", "#1"]), &symbols),
        Ok(0x1421)
    );
    assert_eq!(
        encode_instruction(&fields(&["ADD", "R2", "R0", "LOOP"]), &symbols),
        Ok(0x1404)
    );
    assert_eq!(
        encode_instruction(&fields(&["HALT"]), &symbols),
        Ok(0xF025)
    );
    assert_eq!(
        encode_instruction(&fields(&["ADD", "R2", "R0", ""]), &symbols),
        Err(AssemblerError::InvalidSymbol("".into()))
    );
    assert_eq!(
        encode_instruction(&fields(&["ADD", "Rx", "R0", "R1"]), &symbols),
        Err(AssemblerError::Operands("Unknown register Rx".into()))
    );
    assert_eq!(
        encode_instruction(&fields(&["ADD", "R0", "x0", "R1"]), &symbols),
        Err(AssemblerError::Operands("Unknown register x0".into()))
    );
}

#[test]
fn the_engine_reads_what_the_assembler_writes() {
    let program = ".ORIG x3000\nADD R0, R0, #3\nADD R1, R1, b0100\nADD R2, R0, R1\nHALT\n.END\n";
    let words = assemble(program.to_string()).unwrap();
    let mut vm = VirtualMachine::new();
    vm.load(words[0], &words[1..].to_vec());
    assert_eq!(vm.run(100), Outcome::Halt);
    assert_eq!(vm.registers.get(Register::R0.into()), 3);
    assert_eq!(vm.registers.get(Register::R1.into()), 4);
    assert_eq!(vm.registers.get(Register::R2.into()), 7);
}

#[test]
fn state_registers_are_no_operands() {
    let symbols = SymbolTable::new();
    assert_eq!(
        encode_instruction(&fields(&["ADD", "PC", "R0", "R0"]), &symbols),
        Err(AssemblerError::Operands("Unknown register PC".into()))
    );
    assert_eq!(
        encode_instruction(&fields(&["ADD", "R0", "PC", "R0"]), &symbols),
        Err(AssemblerError::Operands("Unknown register PC".into()))
    );
    assert_eq!(
        encode_instruction(&fields(&["ADD", "IR", "R0", "R0"]), &symbols),
        Err(AssemblerError::Operands("Unknown register IR".into()))
    );
    assert_eq!(
        encode_instruction(&fields(&["ADD", "R0", "PSR", "#1"]), &symbols),
        Err(AssemblerError::Operands("Unknown register PSR".into()))
    );
    assert_eq!(
        assemble(".ORIG x3000\nADD PC, R0, R0\nHALT\n.END\n".to_string()),
        Err(AssemblerError::Operands("Unknown register PC".into()))
    );
    assert_eq!(
        assemble(".ORIG x3000\nADD R0, PC, R0\nHALT\n.END\n".to_string()),
        Err(AssemblerError::Operands("Unknown register PC".into()))
    );
    assert_eq!(
        assemble(".ORIG x3000\nADD R0, R0, PSR\nHALT\n.END\n".to_string()),
        Err(AssemblerError::InvalidSymbol("PSR".into()))
    );
}

#[test]
fn every_general_register_is_an_operand() {
    let symbols = SymbolTable::new();
    for n in 0..8u16 {
        let name = format!("R{}", n);
        assert_eq!(
            encode_instruction(&fields(&["ADD", &name, &name, &name]), &symbols),
            Ok(0x1000 | n << 9 | n << 6 | n)
        );
    }
    assert!(Register::PC.number() >= 8 && !Register::PC.addressable());
    assert!(Register::R7.addressable());
}
