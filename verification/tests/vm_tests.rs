use lc3_vm::instruction::Termination;
use lc3_vm::instruction::{get_opcode, sign_extend, OpCode};
use lc3_vm::vm::MemoryMappedReg;
use lc3_vm::register::Registers;
use lc3_vm::vm::VM;

const FL_POS: u16 = 1;
const FL_ZRO: u16 = 2;
const FL_NEG: u16 = 4;

#[test]
fn sign_extend_keeps_non_negative_values() {
    assert_eq!(sign_extend(0b01010, 5), 0b01010);
    assert_eq!(sign_extend(0b011111, 6), 0b011111);
    assert_eq!(sign_extend(0b0_1111_1111, 9), 0b0_1111_1111);
    assert_eq!(sign_extend(0b000_0000_0001, 11), 1);
    assert_eq!(sign_extend(0, 5), 0);
}

#[test]
fn sign_extend_widens_negative_values() {
    assert_eq!(sign_extend(0b10000, 5), 0xFFF0);
    assert_eq!(sign_extend(0b11101, 5), 0xFFFD); // -3
    assert_eq!(sign_extend(0b100000, 6), 0xFFE0);
    assert_eq!(sign_extend(0b1_0000_0000, 9), 0xFF00);
    assert_eq!(sign_extend(0b100_0000_0000, 11), 0xFC00);
}

#[test]
fn condition_flags_are_exclusive_and_match_sign() {
    let mut regs = Registers::new();
    regs.update(3, 0);
    regs.update_r_cond_register(3);
    assert_eq!(regs.cond, FL_ZRO);

    regs.update(3, 0x8000);
    regs.update_r_cond_register(3);
    assert_eq!(regs.cond, FL_NEG);

    regs.update(3, 1);
    regs.update_r_cond_register(3);
    assert_eq!(regs.cond, FL_POS);
}

#[test]
fn registers_update_and_get_round_trip() {
    let mut regs = Registers::new();
    assert_eq!(regs.pc, 0x3000);
    assert_eq!(regs.get(8), 0x3000);
    regs.update(3, 9);
    assert_eq!(regs.get(3), 9);
    regs.update(8, 0x1234);
    assert_eq!(regs.pc, 0x1234);
}

#[test]
fn opcode_decoding_covers_all_sixteen() {
    assert_eq!(get_opcode(&0x0000), Some(OpCode::BR));
    assert_eq!(get_opcode(&0x107D), Some(OpCode::ADD));
    assert_eq!(get_opcode(&0x2005), Some(OpCode::LD));
    assert_eq!(get_opcode(&0x3004), Some(OpCode::ST));
    assert_eq!(get_opcode(&0x4080), Some(OpCode::JSR));
    assert_eq!(get_opcode(&0x5042), Some(OpCode::AND));
    assert_eq!(get_opcode(&0x6042), Some(OpCode::LDR));
    assert_eq!(get_opcode(&0x7042), Some(OpCode::STR));
    assert_eq!(get_opcode(&0x8000), Some(OpCode::RTI));
    assert_eq!(get_opcode(&0x907F), Some(OpCode::NOT));
    assert_eq!(get_opcode(&0xA002), Some(OpCode::LDI));
    assert_eq!(get_opcode(&0xB004), Some(OpCode::STI));
    assert_eq!(get_opcode(&0xC1C0), Some(OpCode::JMP));
    assert_eq!(get_opcode(&0xD000), Some(OpCode::RES));
    assert_eq!(get_opcode(&0xE005), Some(OpCode::LEA));
    assert_eq!(get_opcode(&0xF025), Some(OpCode::TRAP));
}

#[test]
fn add_immediate_with_negative_operand() {
    // ADD R0, R1, #-3 with R1 = 5 yields 2, flags POS
    let mut vm = VM::new();
    vm.registers.r1 = 5;
    lc3_vm::instruction::add(0x107D, &mut vm);
    assert_eq!(vm.registers.r0, 2);
    assert_eq!(vm.registers.cond, FL_POS);
}

#[test]
fn add_register_mode_wraps_around() {
    // ADD R0, R1, R2 with R1 = 0xFFFF, R2 = 1 wraps to 0, flags ZRO
    let mut vm = VM::new();
    vm.registers.r1 = 0xFFFF;
    vm.registers.r2 = 1;
    lc3_vm::instruction::add(0x1042, &mut vm);
    assert_eq!(vm.registers.r0, 0);
    assert_eq!(vm.registers.cond, FL_ZRO);
}

#[test]
fn and_register_mode() {
    // AND R0, R1, R2 with R1 = 0xFF0F, R2 = 0x0FF0 yields 0x0F00
    let mut vm = VM::new();
    vm.registers.r1 = 0xFF0F;
    vm.registers.r2 = 0x0FF0;
    lc3_vm::instruction::and(0x5042, &mut vm);
    assert_eq!(vm.registers.r0, 0x0F00);
    assert_eq!(vm.registers.cond, FL_POS);
}

#[test]
fn and_immediate_mode() {
    // AND R0, R1, #-1 keeps R1, here a negative word
    let mut vm = VM::new();
    vm.registers.r1 = 0xFFFF;
    lc3_vm::instruction::and(0x507F, &mut vm);
    assert_eq!(vm.registers.r0, 0xFFFF);
    assert_eq!(vm.registers.cond, FL_NEG);
}

#[test]
fn not_complements_the_source() {
    let mut vm = VM::new();
    vm.registers.r1 = 0x00FF;
    lc3_vm::instruction::not(0x907F, &mut vm);
    assert_eq!(vm.registers.r0, 0xFF00);
    assert_eq!(vm.registers.cond, FL_NEG);
}

#[test]
fn br_taken_and_not_taken_on_zero_flag() {
    // with flags = ZRO, a mask including ZRO moves the counter
    let mut vm = VM::new();
    vm.registers.cond = FL_ZRO;
    lc3_vm::instruction::br(0x0407, &mut vm); // BRz #7
    assert_eq!(vm.registers.pc, 0x3007);

    // a mask excluding ZRO leaves it unchanged
    let mut vm = VM::new();
    vm.registers.cond = FL_ZRO;
    lc3_vm::instruction::br(0x0207, &mut vm); // BRp #7
    assert_eq!(vm.registers.pc, 0x3000);
}

#[test]
fn br_with_negative_offset_wraps() {
    let mut vm = VM::new();
    vm.registers.cond = FL_POS;
    // BRp #-1 : mask 001, offset 0x1FF
    lc3_vm::instruction::br(0x03FF, &mut vm);
    assert_eq!(vm.registers.pc, 0x2FFF);
}

#[test]
fn jmp_moves_pc_to_base_register() {
    let mut vm = VM::new();
    vm.registers.r2 = 0x1234;
    lc3_vm::instruction::jmp(0xC080, &mut vm); // JMP R2
    assert_eq!(vm.registers.pc, 0x1234);
}

#[test]
fn jsr_short_then_jmp_r7_returns() {
    // JSRR R2 saves the incremented counter in R7; JMP R7 returns there
    let mut vm = VM::new();
    vm.registers.r2 = 0x4000;
    lc3_vm::instruction::jsr(0x4080, &mut vm);
    assert_eq!(vm.registers.r7, 0x3000);
    assert_eq!(vm.registers.pc, 0x4000);
    lc3_vm::instruction::jmp(0xC1C0, &mut vm); // JMP R7
    assert_eq!(vm.registers.pc, 0x3000);
}

#[test]
fn jsr_long_form_uses_the_offset() {
    let mut vm = VM::new();
    lc3_vm::instruction::jsr(0x4802, &mut vm); // JSR #2
    assert_eq!(vm.registers.r7, 0x3000);
    assert_eq!(vm.registers.pc, 0x3002);
}

#[test]
fn ld_loads_memory_contents() {
    let mut vm = VM::new();
    vm.write_memory(0x3005, 0xBEEF);
    lc3_vm::instruction::ld(0x2005, &mut vm); // LD R0, #5
    assert_eq!(vm.registers.r0, 0xBEEF);
    assert_eq!(vm.registers.cond, FL_NEG);
}

#[test]
fn ldi_round_trip_through_a_pointer() {
    // pointer at PC+2, value where it points: LDI loads the value
    let mut vm = VM::new();
    vm.write_memory(0x3002, 0x4000);
    vm.write_memory(0x4000, 0x1234);
    lc3_vm::instruction::ldi(0xA002, &mut vm); // LDI R0, #2
    assert_eq!(vm.registers.r0, 0x1234);
    assert_eq!(vm.registers.cond, FL_POS);
}

#[test]
fn ldr_loads_from_base_plus_offset() {
    let mut vm = VM::new();
    vm.registers.r1 = 0x5000;
    vm.write_memory(0x5002, 42);
    lc3_vm::instruction::ldr(0x6042, &mut vm); // LDR R0, R1, #2
    assert_eq!(vm.registers.r0, 42);
}

#[test]
fn lea_stores_the_address_ld_its_contents() {
    // same operand bits: LEA keeps the address, LD reads through it
    let mut vm = VM::new();
    vm.write_memory(0x3005, 0xBEEF);
    lc3_vm::instruction::lea(0xE005, &mut vm); // LEA R0, #5
    let lea_result = vm.registers.r0;
    assert_eq!(lea_result, 0x3005);

    let mut vm = VM::new();
    vm.write_memory(0x3005, 0xBEEF);
    lc3_vm::instruction::ld(0x2005, &mut vm); // LD R0, #5
    let ld_result = vm.registers.r0;
    assert_eq!(ld_result, 0xBEEF);
    assert_ne!(lea_result, ld_result);
}

#[test]
fn st_writes_the_source_register() {
    let mut vm = VM::new();
    vm.registers.r0 = 0xCAFE;
    lc3_vm::instruction::st(0x3004, &mut vm); // ST R0, #4
    assert_eq!(vm.read_memory(0x3004), 0xCAFE);
    // stores never touch the flags
    assert_eq!(vm.registers.cond, 0);
}

#[test]
fn sti_writes_through_a_pointer() {
    let mut vm = VM::new();
    vm.registers.r0 = 0xCAFE;
    vm.write_memory(0x3004, 0x5000);
    lc3_vm::instruction::sti(0xB004, &mut vm); // STI R0, #4
    assert_eq!(vm.read_memory(0x5000), 0xCAFE);
}

#[test]
fn str_writes_at_base_plus_offset() {
    let mut vm = VM::new();
    vm.registers.r0 = 7;
    vm.registers.r1 = 0x5000;
    lc3_vm::instruction::str(0x7042, &mut vm); // STR R0, R1, #2
    assert_eq!(vm.read_memory(0x5002), 7);
}

#[test]
fn rti_and_res_are_no_ops() {
    let mut vm = VM::new();
    vm.registers.r3 = 77;
    assert_eq!(lc3_vm::instruction::execute_instruction(0x8000, &mut vm), None);
    assert_eq!(lc3_vm::instruction::execute_instruction(0xD000, &mut vm), None);
    assert_eq!(vm.registers.r3, 77);
    assert_eq!(vm.registers.pc, 0x3000);
}

#[test]
fn memory_write_then_read_round_trip() {
    let mut vm = VM::new();
    vm.write_memory(0x1234, 77);
    assert_eq!(vm.read_memory(0x1234), 77);
    assert_eq!(vm.read_memory(0xFFFF), 0);
}

#[test]
fn keyboard_poll_reports_a_pending_byte() {
    let mut vm = VM::new();
    vm.input = vec![0x41];
    let status = vm.read_memory(0xFE00);
    assert_eq!(status, 0x8000);
    assert_eq!(vm.read_memory(0xFE02), 0x41);
    assert!(vm.input.is_empty());
}

#[test]
fn keyboard_poll_with_nothing_pending_clears_status() {
    let mut vm = VM::new();
    vm.write_memory(0xFE00, 0x8000);
    let status = vm.read_memory(0xFE00);
    assert_eq!(status, 0);
}

#[test]
fn trap_getc_reads_one_byte_into_r0() {
    let mut vm = VM::new();
    vm.input = vec![0x58, 0x59];
    let r = lc3_vm::instruction::trap(0xF020, &mut vm);
    assert_eq!(r, None);
    assert_eq!(vm.registers.r0, 0x58);
    assert_eq!(vm.input, vec![0x59]);
    // no echo, no flag update
    assert!(vm.output.is_empty());
    assert_eq!(vm.registers.cond, 0);
}

#[test]
fn trap_getc_without_input_rewinds_and_signals() {
    let mut vm = VM::new();
    vm.registers.pc = 0x3001;
    let r = lc3_vm::instruction::trap(0xF020, &mut vm);
    assert_eq!(r, Some(Termination::OutOfInput));
    assert_eq!(vm.registers.pc, 0x3000);
}

#[test]
fn trap_out_writes_the_low_byte_of_r0() {
    let mut vm = VM::new();
    vm.registers.r0 = 0x3141;
    let r = lc3_vm::instruction::trap(0xF021, &mut vm);
    assert_eq!(r, None);
    assert_eq!(vm.output, vec![0x41]);
}

#[test]
fn trap_puts_writes_one_character_per_word() {
    let mut vm = VM::new();
    vm.registers.r0 = 0x4000;
    vm.write_memory(0x4000, 'H' as u16);
    vm.write_memory(0x4001, 'i' as u16);
    vm.write_memory(0x4002, 0);
    let r = lc3_vm::instruction::trap(0xF022, &mut vm);
    assert_eq!(r, None);
    assert_eq!(vm.output, b"Hi".to_vec());
}

#[test]
fn trap_in_prompts_then_reads() {
    let mut vm = VM::new();
    vm.input = vec![0x79];
    let r = lc3_vm::instruction::trap(0xF023, &mut vm);
    assert_eq!(r, None);
    assert_eq!(vm.output, b"Enter a  character : ".to_vec());
    assert_eq!(vm.registers.r0, 0x79);
}

#[test]
fn trap_in_without_input_prompts_nothing() {
    let mut vm = VM::new();
    vm.registers.pc = 0x3001;
    let r = lc3_vm::instruction::trap(0xF023, &mut vm);
    assert_eq!(r, Some(Termination::OutOfInput));
    assert_eq!(vm.registers.pc, 0x3000);
    assert!(vm.output.is_empty());
}

#[test]
fn trap_putsp_unpacks_two_characters_per_word() {
    let mut vm = VM::new();
    vm.registers.r0 = 0x4000;
    vm.write_memory(0x4000, 0x6548); // 'H' low, 'e' high
    vm.write_memory(0x4001, 0x006C); // 'l' low, empty high
    vm.write_memory(0x4002, 0);
    let r = lc3_vm::instruction::trap(0xF024, &mut vm);
    assert_eq!(r, None);
    assert_eq!(vm.output, b"Hel".to_vec());
}

#[test]
fn halt_and_invalid_trap_are_distinguishable() {
    let mut vm = VM::new();
    let halted = lc3_vm::instruction::trap(0xF025, &mut vm);
    assert_eq!(halted, Some(Termination::Halted));

    let mut vm = VM::new();
    let invalid = lc3_vm::instruction::trap(0xF026, &mut vm);
    assert_eq!(invalid, Some(Termination::InvalidTrap));
    assert_ne!(halted, invalid);
}

#[test]
fn execute_instruction_dispatches_on_the_top_bits() {
    let mut vm = VM::new();
    vm.registers.r1 = 5;
    assert_eq!(lc3_vm::instruction::execute_instruction(0x107D, &mut vm), None);
    assert_eq!(vm.registers.r0, 2);
    assert_eq!(
        lc3_vm::instruction::execute_instruction(0xF025, &mut vm),
        Some(Termination::Halted)
    );
}

#[test]
fn program_writes_a_and_halts() {
    // OUT with R0 = 'A', then HALT: output "A", normal-halt signal
    let mut vm = VM::new();
    vm.write_memory(0x3000, 0xF021);
    vm.write_memory(0x3001, 0xF025);
    vm.registers.r0 = 0x0041;
    let r = lc3_vm::execute_program(&mut vm, 10);
    assert_eq!(r, Some(Termination::Halted));
    assert_eq!(vm.output, b"A".to_vec());
}

#[test]
fn program_waiting_for_input_can_be_resumed() {
    // GETC then HALT: the run pauses on empty input and resumes cleanly
    let mut vm = VM::new();
    vm.write_memory(0x3000, 0xF020);
    vm.write_memory(0x3001, 0xF025);
    let r = lc3_vm::execute_program(&mut vm, 10);
    assert_eq!(r, Some(Termination::OutOfInput));
    vm.input.push(0x5A);
    let r = lc3_vm::execute_program(&mut vm, 10);
    assert_eq!(r, Some(Termination::Halted));
    assert_eq!(vm.registers.r0, 0x5A);
}

#[test]
fn program_with_no_budget_does_nothing() {
    let mut vm = VM::new();
    vm.write_memory(0x3000, 0xF025);
    let r = lc3_vm::execute_program(&mut vm, 0);
    assert_eq!(r, None);
    assert_eq!(vm.registers.pc, 0x3000);
}

#[test]
fn step_runs_exactly_one_instruction() {
    let mut vm = VM::new();
    vm.write_memory(0x3000, 0x107D); // ADD R0, R1, #-3
    vm.registers.r1 = 5;
    let r = lc3_vm::step(&mut vm);
    assert_eq!(r, None);
    assert_eq!(vm.registers.pc, 0x3001);
    assert_eq!(vm.registers.r0, 2);
}

#[test]
fn ldr_with_negative_offset() {
    let mut vm = VM::new();
    vm.registers.r1 = 0x5000;
    vm.write_memory(0x4FFF, 11);
    lc3_vm::instruction::ldr(0x607F, &mut vm); // LDR R0, R1, #-1
    assert_eq!(vm.registers.r0, 11);
}

#[test]
fn ldr_from_the_keyboard_status_cell_polls() {
    let mut vm = VM::new();
    vm.input = vec![0x41];
    vm.registers.r1 = 0xFE00;
    lc3_vm::instruction::ldr(0x6040, &mut vm); // LDR R0, R1, #0
    assert_eq!(vm.registers.r0, 0x8000);
    assert_eq!(vm.read_memory(0xFE02), 0x41);
    assert!(vm.input.is_empty());
}

#[test]
fn puts_stops_at_the_keyboard_status_cell_when_no_key_pends() {
    // the scan reaches 0xFE00; the poll finds nothing and clears it to 0
    let mut vm = VM::new();
    vm.registers.r0 = 0xFDFF;
    vm.write_memory(0xFDFF, 'X' as u16);
    vm.write_memory(0xFE00, 0x8000);
    let r = lc3_vm::instruction::trap(0xF022, &mut vm);
    assert_eq!(r, None);
    assert_eq!(vm.output, b"X".to_vec());
    assert_eq!(vm.read_memory(0xFE02), 0);
}

#[test]
fn memory_mapped_register_addresses() {
    assert_eq!(MemoryMappedReg::Kbsr.address(), 0xFE00);
    assert_eq!(MemoryMappedReg::Kbdr.address(), 0xFE02);
}
