use lc3::{Fault, Outcome, PrivilegeMode, Register, TrapCode, VirtualMachine};

fn machine_with(words: &[u16]) -> VirtualMachine {
    let mut vm = VirtualMachine::new();
    vm.load(0x3000, &words.to_vec());
    vm
}

fn registers_of(vm: &VirtualMachine) -> Vec<u16> {
    (0..11).map(|r| vm.registers.get(r)).collect()
}

#[test]
fn a_new_machine_starts_in_user_memory_in_user_mode() {
    let vm = VirtualMachine::new();
    assert_eq!(
        registers_of(&vm),
        vec![0, 0, 0, 0, 0, 0, 0, 0, 0x3000, 0, 0x8002]
    );
    assert_eq!(vm.get_mode(), PrivilegeMode::User);
    assert_eq!(vm.memory.read(0), 0);
    assert_eq!(vm.memory.read(0xFFFF), 0);
}

#[test]
fn fetch_latches_the_word_and_moves_the_counter_before_execution() {
    // LEA R1, #3 sees the counter already on the next word.
    let mut vm = machine_with(&[0xE203]);
    assert_eq!(vm.step(), Outcome::Continue);
    assert_eq!(vm.registers.get(Register::IR.into()), 0xE203);
    assert_eq!(vm.registers.get(Register::PC.into()), 0x3001);
    assert_eq!(vm.registers.get(Register::R1.into()), 0x3004);
    // LEA leaves the condition codes alone.
    assert_eq!(vm.registers.get(Register::PSR.into()), 0x8002);
}

#[test]
fn branch_is_taken_only_on_a_matching_flag() {
    // ADD R0, R0, #1 ; BRn +2 ; BRp +2
    let mut vm = machine_with(&[0x1021, 0x0802, 0x0202]);
    vm.step();
    assert_eq!(vm.step(), Outcome::Continue);
    assert_eq!(vm.registers.get(Register::PC.into()), 0x3002);
    assert_eq!(vm.step(), Outcome::Continue);
    assert_eq!(vm.registers.get(Register::PC.into()), 0x3005);
}

#[test]
fn branch_backwards() {
    // BRz -1 with the zero flag of a new machine: back onto itself.
    let mut vm = machine_with(&[0x05FF]);
    vm.step();
    assert_eq!(vm.registers.get(Register::PC.into()), 0x3000);
}

#[test]
fn jump_and_subroutine_calls() {
    // JSR +5
    let mut vm = machine_with(&[0x4805]);
    vm.step();
    assert_eq!(vm.registers.get(Register::R7.into()), 0x3001);
    assert_eq!(vm.registers.get(Register::PC.into()), 0x3006);

    // JSRR R3
    let mut vm = machine_with(&[0x40C0]);
    vm.registers.set(Register::R3.into(), 0x4000);
    vm.step();
    assert_eq!(vm.registers.get(Register::R7.into()), 0x3001);
    assert_eq!(vm.registers.get(Register::PC.into()), 0x4000);

    // JSRR R7 reads R7 after the counter was saved in it.
    let mut vm = machine_with(&[0x41C0]);
    vm.registers.set(Register::R7.into(), 0x4000);
    vm.step();
    assert_eq!(vm.registers.get(Register::PC.into()), 0x3001);

    // JMP R2
    let mut vm = machine_with(&[0xC080]);
    vm.registers.set(Register::R2.into(), 0x3456);
    vm.step();
    assert_eq!(vm.registers.get(Register::PC.into()), 0x3456);
}

#[test]
fn not_complements_and_sets_the_flags() {
    // NOT R1, R0
    let mut vm = machine_with(&[0x923F]);
    vm.registers.set(Register::R0.into(), 0x00FF);
    vm.step();
    assert_eq!(vm.registers.get(Register::R1.into()), 0xFF00);
    assert_eq!(vm.registers.get(Register::PSR.into()), 0x8004);
}

#[test]
fn addition_wraps_in_sixteen_bits() {
    // ADD R2, R0, R1
    let mut vm = machine_with(&[0x1401]);
    vm.registers.set(Register::R0.into(), 0xFFFF);
    vm.registers.set(Register::R1.into(), 0x0002);
    vm.step();
    assert_eq!(vm.registers.get(Register::R2.into()), 0x0001);
    assert_eq!(vm.registers.get(Register::PSR.into()), 0x8001);
}

#[test]
fn and_with_a_negative_immediate() {
    // AND R1, R0, #-1
    let mut vm = machine_with(&[0x523F]);
    vm.registers.set(Register::R0.into(), 0x8421);
    vm.step();
    assert_eq!(vm.registers.get(Register::R1.into()), 0x8421);
    assert_eq!(vm.registers.get(Register::PSR.into()), 0x8004);
}

#[test]
fn loads_by_base_and_indirect() {
    // LDR R1, R2, #1
    let mut vm = machine_with(&[0x6281]);
    vm.registers.set(Register::R2.into(), 0x4000);
    vm.memory.write(0x4001, 0x1234);
    assert_eq!(vm.step(), Outcome::Continue);
    assert_eq!(vm.registers.get(Register::R1.into()), 0x1234);

    // LDR R1, R2, #-1
    let mut vm = machine_with(&[0x62BF]);
    vm.registers.set(Register::R2.into(), 0x4000);
    vm.memory.write(0x3FFF, 0x4321);
    assert_eq!(vm.step(), Outcome::Continue);
    assert_eq!(vm.registers.get(Register::R1.into()), 0x4321);

    // LDI R1, #1: the word at 0x3002 is the address of the value.
    let mut vm = machine_with(&[0xA201, 0x0000, 0x5000]);
    vm.memory.write(0x5000, 0x8765);
    assert_eq!(vm.step(), Outcome::Continue);
    assert_eq!(vm.registers.get(Register::R1.into()), 0x8765);
    assert_eq!(vm.registers.get(Register::PSR.into()), 0x8004);
}

#[test]
fn stores_by_counter_base_and_indirect() {
    // ST R0, #2
    let mut vm = machine_with(&[0x3002]);
    vm.registers.set(Register::R0.into(), 0xBEEF);
    assert_eq!(vm.step(), Outcome::Continue);
    assert_eq!(vm.memory.read(0x3003), 0xBEEF);

    // STR R0, R2, #0
    let mut vm = machine_with(&[0x7080]);
    vm.registers.set(Register::R0.into(), 0xBEEF);
    vm.registers.set(Register::R2.into(), 0x4000);
    assert_eq!(vm.step(), Outcome::Continue);
    assert_eq!(vm.memory.read(0x4000), 0xBEEF);

    // STI R0, #1
    let mut vm = machine_with(&[0xB001, 0x0000, 0x5000]);
    vm.registers.set(Register::R0.into(), 0xBEEF);
    assert_eq!(vm.step(), Outcome::Continue);
    assert_eq!(vm.memory.read(0x5000), 0xBEEF);
    assert_eq!(vm.memory.read(0x3002), 0x5000);
}

#[test]
fn privileged_memory_is_closed_to_user_mode() {
    // LD R3, #-2 reaches 0x2FFF.
    let mut vm = machine_with(&[0x27FE]);
    vm.memory.write(0x2FFF, 0x0042);
    assert_eq!(vm.step(), Outcome::Fault(Fault::AccessViolation));
    assert_eq!(vm.registers.get(Register::R3.into()), 0);

    // ST R0, #-2
    let mut vm = machine_with(&[0x31FE]);
    vm.registers.set(Register::R0.into(), 7);
    assert_eq!(vm.step(), Outcome::Fault(Fault::AccessViolation));
    assert_eq!(vm.memory.read(0x2FFF), 0);

    // LDI R1, #0 through a pointer into privileged memory.
    let mut vm = machine_with(&[0xA200, 0x0100]);
    assert_eq!(vm.step(), Outcome::Fault(Fault::AccessViolation));

    // STI R1, #0 through a pointer into privileged memory.
    let mut vm = machine_with(&[0xB200, 0x0100]);
    assert_eq!(vm.step(), Outcome::Fault(Fault::AccessViolation));
    assert_eq!(vm.memory.read(0x0100), 0);
}

#[test]
fn privileged_memory_is_open_to_privileged_mode() {
    let mut vm = machine_with(&[0x27FE]);
    vm.registers.set(Register::PSR.into(), 0x0002);
    vm.memory.write(0x2FFF, 0x0042);
    assert_eq!(vm.get_mode(), PrivilegeMode::Privileged);
    assert_eq!(vm.step(), Outcome::Continue);
    assert_eq!(vm.registers.get(Register::R3.into()), 0x0042);
}

#[test]
fn traps_are_handed_to_the_host() {
    let mut vm = machine_with(&[0xF025]);
    assert_eq!(vm.step(), Outcome::Halt);
    let mut vm = machine_with(&[0xF021]);
    assert_eq!(vm.step(), Outcome::Trap(TrapCode::OUT));
    let mut vm = machine_with(&[0xF020]);
    assert_eq!(vm.step(), Outcome::Trap(TrapCode::GETC));
    let mut vm = machine_with(&[0xF0FF]);
    assert_eq!(vm.step(), Outcome::Fault(Fault::UnknownTrap(0xFF)));
}

#[test]
fn reserved_opcode_and_return_from_interrupt() {
    let mut vm = machine_with(&[0xD000]);
    assert_eq!(vm.step(), Outcome::Fault(Fault::IllegalOpcode));

    let mut vm = machine_with(&[0x8000]);
    assert_eq!(vm.step(), Outcome::Fault(Fault::PrivilegeViolation));

    let mut vm = machine_with(&[0x8000]);
    vm.registers.set(Register::PSR.into(), 0x0002);
    vm.registers.set(Register::R6.into(), 0x4000);
    vm.memory.write(0x4000, 0x3100);
    vm.memory.write(0x4001, 0x8001);
    assert_eq!(vm.step(), Outcome::Continue);
    assert_eq!(vm.registers.get(Register::PC.into()), 0x3100);
    assert_eq!(vm.registers.get(Register::PSR.into()), 0x8001);
    assert_eq!(vm.registers.get(Register::R6.into()), 0x4002);
}

#[test]
fn the_counter_cannot_leave_memory() {
    let mut vm = VirtualMachine::new();
    vm.registers.set(Register::PC.into(), 0xFFFF);
    assert_eq!(vm.step(), Outcome::Fault(Fault::EndOfMemory));
    assert_eq!(vm.registers.get(Register::PC.into()), 0xFFFF);
    assert_eq!(vm.run(10), Outcome::Fault(Fault::EndOfMemory));
}

#[test]
fn run_stops_at_the_halting_trap() {
    // ADD R0, R0, #3 ; HALT ; ADD R0, R0, #3
    let mut vm = machine_with(&[0x1023, 0xF025, 0x1023]);
    assert_eq!(vm.run(100), Outcome::Halt);
    assert_eq!(vm.registers.get(Register::R0.into()), 3);
    assert_eq!(vm.registers.get(Register::PC.into()), 0x3002);
}

#[test]
fn run_stops_when_the_budget_is_spent() {
    // BRnzp -1: for ever.
    let mut vm = machine_with(&[0x0FFF]);
    assert_eq!(vm.run(1000), Outcome::Continue);
    assert_eq!(vm.registers.get(Register::PC.into()), 0x3000);
    let mut vm = machine_with(&[0x1023, 0xF025]);
    assert_eq!(vm.run(1), Outcome::Continue);
    assert_eq!(vm.run(0), Outcome::Continue);
    assert_eq!(vm.run(1), Outcome::Halt);
}

#[test]
fn running_an_image_to_a_halt_is_deterministic() {
    let image = [0x1023, 0x1264, 0x1401, 0x923F, 0x3005, 0xF025];
    let mut first = machine_with(&image);
    let mut second = machine_with(&image);
    assert_eq!(first.run(50), Outcome::Halt);
    assert_eq!(second.run(5000), Outcome::Halt);
    assert_eq!(registers_of(&first), registers_of(&second));
    assert_eq!(first.memory.dump(), second.memory.dump());
    assert_eq!(
        registers_of(&first),
        vec![3, 0xFFFC, 7, 0, 0, 0, 0, 0, 0x3006, 0xF025, 0x8004]
    );
}

#[test]
fn load_writes_consecutive_words_and_nothing_else() {
    let mut vm = VirtualMachine::new();
    vm.load(0xFFFE, &vec![1, 2]);
    assert_eq!(vm.memory.read(0xFFFD), 0);
    assert_eq!(vm.memory.read(0xFFFE), 1);
    assert_eq!(vm.memory.read(0xFFFF), 2);
    assert_eq!(vm.memory.read(0), 0);
    assert_eq!(vm.registers.get(Register::PC.into()), 0x3000);
}
