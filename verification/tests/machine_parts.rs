use lc3::{
    from_bytes, to_bytes, ConditionalFlag, Memory, Opcode, OpcodeError, PrivilegeMode, Register,
    RegisterError, Registers, TrapCode, TrapCodeError,
};

#[test]
fn condition_codes_are_one_hot_and_match_the_value() {
    let cases: [(u16, u16); 6] = [
        (0x0000, 2),
        (0x0001, 1),
        (0x7FFF, 1),
        (0x8000, 4),
        (0xFFFF, 4),
        (0x1234, 1),
    ];
    for register in 0..10u16 {
        for (value, flag) in cases {
            let mut registers = Registers::new();
            registers.set(Register::PSR.into(), 0xABC7);
            registers.set(register, value);
            registers.set_condition_codes(register);
            let psr = registers.get(Register::PSR.into());
            assert_eq!(psr & 0x7, flag);
            assert_eq!(psr & 0xFFF8, 0xABC0);
            assert_eq!(registers.get(register), value);
        }
    }
}

#[test]
fn condition_codes_of_the_status_register_itself() {
    let mut registers = Registers::new();
    registers.set_condition_codes(Register::PSR.into());
    assert_eq!(registers.get(Register::PSR.into()), 0x8004);
}

#[test]
fn flags_have_their_bits() {
    assert_eq!(u16::from(ConditionalFlag::Positive), 1);
    assert_eq!(u16::from(ConditionalFlag::Zero), 2);
    assert_eq!(u16::from(ConditionalFlag::Negative), 4);
    assert_eq!(ConditionalFlag::of_value(0), ConditionalFlag::Zero);
    assert_eq!(ConditionalFlag::of_value(0x8000), ConditionalFlag::Negative);
    assert_eq!(ConditionalFlag::of_value(0x7FFF), ConditionalFlag::Positive);
    assert_eq!(u16::from(PrivilegeMode::Privileged), 0);
    assert_eq!(u16::from(PrivilegeMode::User), 1);
}

#[test]
fn registers_are_set_and_read_by_number() {
    let mut registers = Registers::new();
    for register in 0..11u16 {
        registers.set(register, 0x100 + register);
    }
    for register in 0..11u16 {
        assert_eq!(registers.get(register), 0x100 + register);
    }
    registers.increment_pc_register();
    assert_eq!(registers.get(Register::PC.into()), 0x109);
}

#[test]
fn register_names_and_numbers_round_trip() {
    let all = [
        Register::R0,
        Register::R1,
        Register::R2,
        Register::R3,
        Register::R4,
        Register::R5,
        Register::R6,
        Register::R7,
        Register::PC,
        Register::IR,
        Register::PSR,
    ];
    for (position, register) in all.iter().enumerate() {
        assert_eq!(register.number() as usize, position);
        assert_eq!(u16::from(*register) as usize, position);
        assert_eq!(Register::from_number(position as u16), Some(*register));
        assert_eq!(Register::from_str(register.name()), Ok(*register));
    }
    assert_eq!(Register::PSR.name(), "PSR");
    assert_eq!(Register::from_number(11), None);
    let unknown = Register::from_str("R8");
    assert_eq!(unknown, Err(RegisterError::UnknownRegister("R8".into())));
    assert_eq!(unknown.unwrap_err().message(), "Unknown register R8");
    assert!(Register::from_str("r0").is_err());
    assert!(Register::from_str("").is_err());
}

#[test]
fn opcode_names_and_codes_round_trip() {
    let all = [
        Opcode::BR,
        Opcode::ADD,
        Opcode::LD,
        Opcode::ST,
        Opcode::JSR,
        Opcode::AND,
        Opcode::LDR,
        Opcode::STR,
        Opcode::RTI,
        Opcode::NOT,
        Opcode::LDI,
        Opcode::STI,
        Opcode::JMP,
        Opcode::RES,
        Opcode::LEA,
        Opcode::TRAP,
    ];
    for (position, opcode) in all.iter().enumerate() {
        assert_eq!(opcode.code() as usize, position);
        assert_eq!(u8::from(*opcode) as usize, position);
        assert_eq!(Opcode::decode((position as u16) << 12 | 0x0ABC), *opcode);
        assert_eq!(Opcode::from_str(opcode.name()), Ok(*opcode));
    }
    assert_eq!(Opcode::from_str("HALT"), Ok(Opcode::TRAP));
    assert_eq!(
        Opcode::from_str("TRAP"),
        Err(OpcodeError::UnknownOpcode("TRAP".into()))
    );
    assert_eq!(
        Opcode::from_str("add"),
        Err(OpcodeError::UnknownOpcode("add".into()))
    );
}

#[test]
fn trap_names_and_vectors_round_trip() {
    let all = [
        (TrapCode::GETC, 0x20, "GETC"),
        (TrapCode::OUT, 0x21, "OUT"),
        (TrapCode::PUTS, 0x22, "PUTS"),
        (TrapCode::IN, 0x23, "IN"),
        (TrapCode::PUTSP, 0x24, "PUTSP"),
        (TrapCode::HALT, 0x25, "HALT"),
    ];
    for (code, vector, name) in all {
        assert_eq!(code.vector(), vector);
        assert_eq!(TrapCode::from_vector(vector), Some(code));
        assert_eq!(code.name(), name);
        assert_eq!(TrapCode::from_str(name), Ok(code));
    }
    assert_eq!(TrapCode::from_vector(0x1F), None);
    assert_eq!(TrapCode::from_vector(0x26), None);
    assert_eq!(
        TrapCode::from_str("STOP"),
        Err(TrapCodeError::UnknownTrapCode("STOP".into()))
    );
}

#[test]
fn memory_is_zeroed_and_keeps_what_is_written() {
    let mut memory = Memory::new();
    assert_eq!(memory.dump(), vec![0u16; 65536]);
    memory.write(0xFFFF, 0xABCD);
    memory.write(0, 0x1234);
    assert_eq!(memory.read(0xFFFF), 0xABCD);
    assert_eq!(memory.read(0), 0x1234);
    assert_eq!(memory.read(1), 0);
    assert_eq!(Memory::default().dump(), vec![0u16; 65536]);
}

#[test]
fn the_privileged_part_ends_where_user_memory_starts() {
    let memory = Memory::new();
    assert!(memory.is_privileged(0));
    assert!(memory.is_privileged(0x2FFF));
    assert!(!memory.is_privileged(0x3000));
    assert!(!memory.is_privileged(0xFFFF));
}

#[test]
fn words_are_written_low_byte_first() {
    assert_eq!(
        to_bytes(&vec![0x3000, 0xF025]),
        vec![0x00, 0x30, 0x25, 0xF0]
    );
    assert_eq!(to_bytes(&vec![]), Vec::<u8>::new());
    assert_eq!(
        from_bytes(&vec![0x00, 0x30, 0x25, 0xF0]),
        vec![0x3000, 0xF025]
    );
    assert_eq!(from_bytes(&vec![0x23, 0x10, 0x7F]), vec![0x1023]);
    let words = vec![0x0000, 0xFFFF, 0x1234, 0x8001];
    assert_eq!(from_bytes(&to_bytes(&words)), words);
}

#[test]
fn a_dump_shows_every_register_in_hexadecimal() {
    let mut registers = Registers::new();
    assert_eq!(
        registers.dump(),
        "R0: 0x0000 | R1: 0x0000 | R2: 0x0000 | R3: 0x0000 | R4: 0x0000 | R5: 0x0000\n\
         R6: 0x0000 | R7: 0x0000 | PC: 0x3000 | IR: 0x0000 | PSR: 0x8002\n"
    );
    registers.set(Register::R1.into(), 0xABCD);
    registers.set(Register::R5.into(), 0x00EF);
    registers.set(Register::R6.into(), 0x9A10);
    registers.set(Register::IR.into(), 0xF025);
    assert_eq!(
        registers.dump(),
        "R0: 0x0000 | R1: 0xABCD | R2: 0x0000 | R3: 0x0000 | R4: 0x0000 | R5: 0x00EF\n\
         R6: 0x9A10 | R7: 0x0000 | PC: 0x3000 | IR: 0xF025 | PSR: 0x8002\n"
    );
}
