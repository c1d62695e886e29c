use lc3::{assemble, AssemblerError};

#[test]
fn basic_simplest_program() {
    let program = "
.ORIG   x3000
        HALT
.END
";
    let binary = vec![0x3000, 0xf025];
    let output = assemble(program.to_string());
    assert!(output.is_ok_and(|b| b == binary));
}

#[test]
fn undefined_symbol() {
    let _program = "
.ORIG   x3000
        HALT
        ADD R1, R2, SYMBOL
.END
";
    let output = assemble(_program.to_string());
    assert_eq!(output, Err(AssemblerError::InvalidSymbol("SYMBOL".into())));
}

#[test]
fn no_spaces_between_operands() {
    let _program = "
.ORIG   x3000
        HALT
        ADD R1,R2,R3
.END
";
    let output = assemble(_program.to_string());
    assert_eq!(
        output,
        Err(AssemblerError::Operands(
            "ADD needs 3 operands - given: 1".into()
        ))
    );
}

#[test]
fn commas_between_operands() {
    let _program = "
.ORIG   x3000
        HALT
        ADD R1 R2 R3
.END
";
    let output = assemble(_program.to_string());
    assert_eq!(output, Ok(vec![0x3000, 0xf025, 0x1283]));
}
