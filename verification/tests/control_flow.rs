use chip8::{Chip8, Chip8Error, RunState};

fn machine(program: &[u8]) -> Chip8 {
    let mut chip = Chip8::new();
    chip.init(program, vec![]).unwrap();
    chip
}

fn run(chip: &mut Chip8, cycles: usize) {
    for _ in 0..cycles {
        assert_eq!(chip.emulate_cycle(), Ok(RunState::Executing));
    }
}

#[test]
fn jump_sets_the_program_counter() {
    let mut chip = machine(&[0x1A, 0xBC]);
    run(&mut chip, 1);
    assert_eq!(chip.pc(), 0xABC);
    assert_eq!(chip.stack_depth(), 0);
}

#[test]
fn jump_with_offset_adds_register_zero() {
    let mut chip = machine(&[0x60, 0xFF, 0xBF, 0xFF]);
    run(&mut chip, 2);
    assert_eq!(chip.pc(), 0xFFF + 0xFF);
    let mut chip = machine(&[0x60, 0x04, 0xB3, 0x00]);
    run(&mut chip, 2);
    assert_eq!(chip.pc(), 0x304);
}

#[test]
fn call_then_return_resumes_after_the_call() {
    // 0x200: call 0x206; 0x206: return.
    let mut chip = machine(&[0x22, 0x06, 0x00, 0x00, 0x00, 0x00, 0x00, 0xEE]);
    run(&mut chip, 1);
    assert_eq!(chip.pc(), 0x206);
    assert_eq!(chip.stack_depth(), 1);
    run(&mut chip, 1);
    assert_eq!(chip.pc(), 0x202);
    assert_eq!(chip.stack_depth(), 0);
}

#[test]
fn nested_calls_unwind_in_reverse_order() {
    // 0x200: call 0x210;  0x210: call 0x220;  0x220: call 0x230;  0x230: return;
    // 0x222: return;  0x212: return.
    let mut program = vec![0u8; 0x40];
    program[0x00..0x02].copy_from_slice(&[0x22, 0x10]);
    program[0x10..0x12].copy_from_slice(&[0x22, 0x20]);
    program[0x20..0x22].copy_from_slice(&[0x22, 0x30]);
    program[0x30..0x32].copy_from_slice(&[0x00, 0xEE]);
    program[0x22..0x24].copy_from_slice(&[0x00, 0xEE]);
    program[0x12..0x14].copy_from_slice(&[0x00, 0xEE]);
    let mut chip = machine(&program);
    let mut trace = Vec::new();
    for _ in 0..6 {
        run(&mut chip, 1);
        trace.push((chip.pc(), chip.stack_depth()));
    }
    assert_eq!(
        trace,
        vec![(0x210, 1), (0x220, 2), (0x230, 3), (0x222, 2), (0x212, 1), (0x202, 0)]
    );
}

#[test]
fn deep_recursion_grows_the_stack() {
    // 0x200: call 0x200, over and over.
    let mut chip = machine(&[0x22, 0x00]);
    run(&mut chip, 1000);
    assert_eq!(chip.stack_depth(), 1000);
    assert_eq!(chip.pc(), 0x200);
}

#[test]
fn return_on_an_empty_stack_is_reported_and_halts() {
    let mut chip = machine(&[0x6A, 0x01, 0x00, 0xEE]);
    run(&mut chip, 1);
    for _ in 0..3 {
        assert_eq!(chip.emulate_cycle(), Err(Chip8Error::StackUnderflow));
        assert_eq!(chip.pc(), 0x202);
        assert_eq!(chip.stack_depth(), 0);
        assert_eq!(chip.registers()[10], 1);
    }
}

#[test]
fn unknown_opcode_is_reported_and_skipped() {
    let mut chip = machine(&[0x81, 0x2F, 0xFF, 0xFF, 0x00, 0x00, 0x6A, 0x01]);
    assert_eq!(chip.emulate_cycle(), Err(Chip8Error::UnknownOpcode { opcode: 0x812F }));
    assert_eq!(chip.pc(), 0x202);
    assert_eq!(chip.emulate_cycle(), Err(Chip8Error::UnknownOpcode { opcode: 0xFFFF }));
    assert_eq!(chip.pc(), 0x204);
    assert_eq!(chip.emulate_cycle(), Err(Chip8Error::UnknownOpcode { opcode: 0x0000 }));
    assert_eq!(chip.pc(), 0x206);
    assert_eq!(chip.registers(), &[0u8; 16]);
    run(&mut chip, 1);
    assert_eq!(chip.registers()[10], 1);
}

#[test]
fn program_counter_on_the_last_byte_is_reported_and_halts() {
    let mut chip = machine(&[0x1F, 0xFF]);
    run(&mut chip, 1);
    assert_eq!(chip.pc(), 0xFFF);
    for _ in 0..3 {
        assert_eq!(chip.emulate_cycle(), Err(Chip8Error::AddressOutOfBounds));
        assert_eq!(chip.pc(), 0xFFF);
    }
}

#[test]
fn program_counter_beyond_memory_is_reported_and_halts() {
    let mut chip = machine(&[0x60, 0xFF, 0xBF, 0xFF]);
    run(&mut chip, 2);
    assert_eq!(chip.pc(), 0x10FE);
    assert_eq!(chip.emulate_cycle(), Err(Chip8Error::AddressOutOfBounds));
    assert_eq!(chip.pc(), 0x10FE);
    assert_eq!(chip.emulate_cycle_with(9), Err(Chip8Error::AddressOutOfBounds));
    assert_eq!(chip.pc(), 0x10FE);
}

#[test]
fn running_off_the_end_of_memory_is_reported() {
    // Jump to the last instruction slot, which holds V0 := 1.
    let mut program = vec![0u8; 4096 - 0x200];
    program[0..2].copy_from_slice(&[0x1F, 0xFE]);
    program[0xDFE..0xE00].copy_from_slice(&[0x60, 0x01]);
    let mut chip = machine(&program);
    run(&mut chip, 2);
    assert_eq!(chip.registers()[0], 1);
    assert_eq!(chip.pc(), 0x1000);
    assert_eq!(chip.emulate_cycle(), Err(Chip8Error::AddressOutOfBounds));
    assert_eq!(chip.pc(), 0x1000);
}

/// The program counter after `V1 := a; V2 := b; <skip>`, less the address of
/// the skip.
fn skip_distance(a: u8, b: u8, skip: [u8; 2]) -> u16 {
    let mut chip = machine(&[0x61, a, 0x62, b, skip[0], skip[1]]);
    run(&mut chip, 3);
    assert_eq!(chip.registers()[1], a);
    assert_eq!(chip.registers()[2], b);
    chip.pc() - 0x204
}

#[test]
fn skip_if_equal_to_immediate() {
    assert_eq!(skip_distance(7, 0, [0x31, 0x07]), 4);
    assert_eq!(skip_distance(7, 0, [0x31, 0x08]), 2);
}

#[test]
fn skip_if_not_equal_to_immediate() {
    assert_eq!(skip_distance(7, 0, [0x41, 0x07]), 2);
    assert_eq!(skip_distance(7, 0, [0x41, 0x08]), 4);
}

#[test]
fn skip_if_registers_equal() {
    assert_eq!(skip_distance(7, 7, [0x51, 0x20]), 4);
    assert_eq!(skip_distance(7, 8, [0x51, 0x20]), 2);
}

#[test]
fn skip_if_registers_not_equal() {
    assert_eq!(skip_distance(7, 7, [0x91, 0x20]), 2);
    assert_eq!(skip_distance(7, 8, [0x91, 0x20]), 4);
}

#[test]
fn immediate_skips_for_every_register_value() {
    for a in 0..=255u8 {
        assert_eq!(skip_distance(a, 0, [0x31, 0x80]), if a == 0x80 { 4 } else { 2 });
        assert_eq!(skip_distance(a, 0, [0x41, 0x80]), if a != 0x80 { 4 } else { 2 });
    }
}

fn key_skip_distance(key_register: u8, pressed: &[usize], skip: [u8; 2]) -> u16 {
    let mut chip = machine(&[0x61, key_register, skip[0], skip[1]]);
    for &k in pressed {
        chip.set_key(k, true);
    }
    run(&mut chip, 2);
    chip.pc() - 0x202
}

#[test]
fn skip_if_key_pressed() {
    assert_eq!(key_skip_distance(0xA, &[0xA], [0xE1, 0x9E]), 4);
    assert_eq!(key_skip_distance(0xA, &[0xB], [0xE1, 0x9E]), 2);
    assert_eq!(key_skip_distance(0xA, &[], [0xE1, 0x9E]), 2);
}

#[test]
fn skip_if_key_not_pressed() {
    assert_eq!(key_skip_distance(0xA, &[0xA], [0xE1, 0xA1]), 2);
    assert_eq!(key_skip_distance(0xA, &[0xB], [0xE1, 0xA1]), 4);
    assert_eq!(key_skip_distance(0xA, &[], [0xE1, 0xA1]), 4);
}

#[test]
fn a_key_that_the_keypad_lacks_reads_as_released() {
    let all: Vec<usize> = (0..16).collect();
    assert_eq!(key_skip_distance(16, &all, [0xE1, 0x9E]), 2);
    assert_eq!(key_skip_distance(16, &all, [0xE1, 0xA1]), 4);
    assert_eq!(key_skip_distance(255, &all, [0xE1, 0x9E]), 2);
    assert_eq!(key_skip_distance(255, &all, [0xE1, 0xA1]), 4);
}

#[test]
fn wait_for_key_blocks_until_a_key_is_pressed() {
    let mut chip = machine(&[0xF3, 0x0A, 0x64, 0x01]);
    for _ in 0..10 {
        assert_eq!(chip.emulate_cycle(), Ok(RunState::AwaitingInput));
        assert_eq!(chip.pc(), 0x200);
        assert_eq!(chip.registers(), &[0u8; 16]);
    }
    chip.set_key(9, true);
    assert_eq!(chip.emulate_cycle(), Ok(RunState::Executing));
    assert_eq!(chip.pc(), 0x202);
    assert_eq!(chip.registers()[3], 9);
    assert_eq!(chip.emulate_cycle(), Ok(RunState::Executing));
    assert_eq!(chip.registers()[4], 1);
}

#[test]
fn wait_for_key_takes_the_lowest_pressed_key() {
    let mut chip = machine(&[0xF3, 0x0A]);
    chip.set_key(15, true);
    chip.set_key(6, true);
    chip.set_key(11, true);
    assert_eq!(chip.emulate_cycle(), Ok(RunState::Executing));
    assert_eq!(chip.registers()[3], 6);
}

#[test]
fn wait_for_key_sees_key_zero_and_key_fifteen() {
    let mut chip = machine(&[0x63, 0x77, 0xF3, 0x0A]);
    chip.set_key(0, true);
    run(&mut chip, 2);
    assert_eq!(chip.registers()[3], 0);
    let mut chip = machine(&[0xF3, 0x0A]);
    chip.set_key(15, true);
    run(&mut chip, 1);
    assert_eq!(chip.registers()[3], 15);
}

#[test]
fn wait_for_key_blocks_again_after_the_key_is_released() {
    let mut chip = machine(&[0xF3, 0x0A]);
    chip.set_key(2, true);
    chip.set_key(2, false);
    assert_eq!(chip.emulate_cycle(), Ok(RunState::AwaitingInput));
    assert_eq!(chip.pc(), 0x200);
}

#[test]
fn memory_operand_past_the_top_of_memory_is_reported_and_halts() {
    // I := 0xFFE, then each of: store decimal, store V0..V2, load V0..V2, draw 3 rows.
    for tail in [[0xF0, 0x33], [0xF2, 0x55], [0xF2, 0x65], [0xD0, 0x03]] {
        let mut chip = machine(&[0x60, 0x2A, 0xAF, 0xFE, tail[0], tail[1]]);
        run(&mut chip, 2);
        let memory = *chip.memory();
        for _ in 0..2 {
            assert_eq!(chip.emulate_cycle(), Err(Chip8Error::AddressOutOfBounds));
            assert_eq!(chip.pc(), 0x204);
            assert_eq!(chip.memory(), &memory);
            assert_eq!(chip.registers()[0], 0x2A);
            assert_eq!(chip.registers()[15], 0);
            assert!(!chip.draw_flag());
        }
    }
}

#[test]
fn memory_operand_that_ends_at_the_top_of_memory_is_accepted() {
    // I := 0xFFE, then each of: store V0..V1, load V0..V1, draw 2 rows.
    for tail in [[0xF1, 0x55], [0xF1, 0x65], [0xD0, 0x02]] {
        let mut chip = machine(&[0x60, 0x2A, 0xAF, 0xFE, tail[0], tail[1]]);
        run(&mut chip, 3);
        assert_eq!(chip.pc(), 0x206);
    }
    // I := 0xFFD; store decimal.
    let mut chip = machine(&[0x60, 0x2A, 0xAF, 0xFD, 0xF0, 0x33]);
    run(&mut chip, 3);
    assert_eq!(&chip.memory()[0xFFD..], &[0, 4, 2]);
}

#[test]
fn drawing_no_rows_needs_no_memory() {
    // I := 0xFFF; V0 := 0xFF; I += V0, so that I is past memory; VF := 1; draw 0 rows.
    let mut chip = machine(&[0xAF, 0xFF, 0x60, 0xFF, 0xF0, 0x1E, 0x6F, 0x01, 0xD0, 0x00]);
    run(&mut chip, 5);
    assert_eq!(chip.index(), 0x10FE);
    assert_eq!(chip.registers()[15], 0);
    assert!(chip.draw_flag());
    assert!(chip.display().iter().all(|&p| p == 0));
}
