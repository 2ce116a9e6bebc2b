use chip8::{Chip8, RunState};

/// A machine that has run `program` to its end.
fn after(program: &[u8]) -> Chip8 {
    let mut chip = Chip8::new();
    chip.init(program, vec![]).unwrap();
    for _ in 0..program.len() / 2 {
        assert_eq!(chip.emulate_cycle(), Ok(RunState::Executing));
    }
    assert_eq!(chip.pc() as usize, 0x200 + program.len());
    chip
}

/// Registers after `V1 := a; V2 := b; <opcode on V1, V2>`.
fn binary(a: u8, b: u8, low_nibble: u8) -> [u8; 16] {
    *after(&[0x61, a, 0x62, b, 0x81, 0x20 | low_nibble]).registers()
}

#[test]
fn load_sets_the_register() {
    let chip = after(&[0x6C, 0xFE]);
    assert_eq!(chip.registers()[12], 0xFE);
}

#[test]
fn add_immediate_wraps_and_leaves_the_flag_alone() {
    let chip = after(&[0x63, 0xFA, 0x6F, 0x07, 0x73, 0x0A]);
    assert_eq!(chip.registers()[3], 4);
    assert_eq!(chip.registers()[15], 7);
    let chip = after(&[0x63, 0x10, 0x73, 0x0A]);
    assert_eq!(chip.registers()[3], 0x1A);
    assert_eq!(chip.registers()[15], 0);
}

#[test]
fn move_or_and_xor() {
    assert_eq!(binary(0b1100, 0b1010, 0x0)[1], 0b1010);
    assert_eq!(binary(0b1100, 0b1010, 0x1)[1], 0b1110);
    assert_eq!(binary(0b1100, 0b1010, 0x2)[1], 0b1000);
    assert_eq!(binary(0b1100, 0b1010, 0x3)[1], 0b0110);
    assert_eq!(binary(0b1100, 0b1010, 0x3)[2], 0b1010);
    assert_eq!(binary(0b1100, 0b1010, 0x3)[15], 0);
}

#[test]
fn add_sets_carry_exactly_on_overflow() {
    let v = binary(200, 55, 0x4);
    assert_eq!((v[1], v[15]), (255, 0));
    let v = binary(200, 56, 0x4);
    assert_eq!((v[1], v[15]), (0, 1));
    let v = binary(255, 255, 0x4);
    assert_eq!((v[1], v[15]), (254, 1));
    let v = binary(0, 0, 0x4);
    assert_eq!((v[1], v[15]), (0, 0));
}

#[test]
fn add_for_all_operand_pairs() {
    for a in (0..=255u16).step_by(5) {
        for b in (0..=255u16).step_by(3) {
            let v = binary(a as u8, b as u8, 0x4);
            assert_eq!(v[1] as u16, (a + b) % 256);
            assert_eq!(v[15] as u16, (a + b) / 256);
            assert_eq!(v[2] as u16, b);
        }
    }
}

#[test]
fn subtract_sets_flag_exactly_when_nothing_is_borrowed() {
    let v = binary(10, 3, 0x5);
    assert_eq!((v[1], v[15]), (7, 1));
    let v = binary(3, 10, 0x5);
    assert_eq!((v[1], v[15]), (249, 0));
    let v = binary(7, 7, 0x5);
    assert_eq!((v[1], v[15]), (0, 1));
    let v = binary(0, 255, 0x5);
    assert_eq!((v[1], v[15]), (1, 0));
}

#[test]
fn subtract_from_reverses_the_operands() {
    let v = binary(3, 10, 0x7);
    assert_eq!((v[1], v[15]), (7, 1));
    let v = binary(10, 3, 0x7);
    assert_eq!((v[1], v[15]), (249, 0));
    let v = binary(7, 7, 0x7);
    assert_eq!((v[1], v[15]), (0, 1));
    assert_eq!(v[2], 7);
}

#[test]
fn subtract_for_all_operand_pairs() {
    for a in (0..=255i32).step_by(7) {
        for b in (0..=255i32).step_by(5) {
            let v = binary(a as u8, b as u8, 0x5);
            assert_eq!(v[1] as i32, (a - b).rem_euclid(256));
            assert_eq!(v[15] == 1, a >= b);
            let v = binary(a as u8, b as u8, 0x7);
            assert_eq!(v[1] as i32, (b - a).rem_euclid(256));
            assert_eq!(v[15] == 1, b >= a);
        }
    }
}

#[test]
fn shift_right_moves_the_low_bit_to_the_flag() {
    let v = binary(0b1000_0101, 0xFF, 0x6);
    assert_eq!((v[1], v[15]), (0b0100_0010, 1));
    let v = binary(0b1000_0100, 0xFF, 0x6);
    assert_eq!((v[1], v[15]), (0b0100_0010, 0));
    assert_eq!(v[2], 0xFF);
}

#[test]
fn shift_left_moves_the_high_bit_to_the_flag() {
    let v = binary(0b1000_0101, 0xFF, 0xE);
    assert_eq!((v[1], v[15]), (0b0000_1010, 1));
    let v = binary(0b0100_0101, 0xFF, 0xE);
    assert_eq!((v[1], v[15]), (0b1000_1010, 0));
    assert_eq!(v[2], 0xFF);
}

#[test]
fn shifts_for_every_byte() {
    for a in 0..=255u8 {
        let v = binary(a, 0, 0x6);
        assert_eq!((v[1], v[15]), (a >> 1, a & 1));
        let v = binary(a, 0, 0xE);
        assert_eq!((v[1], v[15]), (a << 1, a >> 7));
    }
}

#[test]
fn arithmetic_into_the_flag_register_keeps_the_result() {
    // VF := 200; V1 := 100; VF := VF + V1.
    let chip = after(&[0x6F, 200, 0x61, 100, 0x8F, 0x14]);
    assert_eq!(chip.registers()[15], 44);
    // VF := 3; V1 := 10; VF := VF - V1.
    let chip = after(&[0x6F, 3, 0x61, 10, 0x8F, 0x15]);
    assert_eq!(chip.registers()[15], 249);
    // VF := 3; V1 := 10; VF := V1 - VF.
    let chip = after(&[0x6F, 3, 0x61, 10, 0x8F, 0x17]);
    assert_eq!(chip.registers()[15], 7);
}

#[test]
fn arithmetic_reading_the_flag_register_uses_its_old_value() {
    // VF := 250; V1 := 10; V1 := V1 + VF.
    let chip = after(&[0x6F, 250, 0x61, 10, 0x81, 0xF4]);
    assert_eq!(chip.registers()[1], 4);
    assert_eq!(chip.registers()[15], 1);
}

#[test]
fn shifting_the_flag_register_shifts_the_flag() {
    // VF := 0b1000_0001; VF >>= 1: the flag is 1, and then halved.
    let chip = after(&[0x6F, 0x81, 0x8F, 0x06]);
    assert_eq!(chip.registers()[15], 0);
    // VF := 0b1000_0001; VF <<= 1: the flag is 1, and then doubled.
    let chip = after(&[0x6F, 0x81, 0x8F, 0x0E]);
    assert_eq!(chip.registers()[15], 2);
    let chip = after(&[0x6F, 0x7F, 0x8F, 0x0E]);
    assert_eq!(chip.registers()[15], 0);
}

#[test]
fn index_register_is_set_and_added_to() {
    let chip = after(&[0xAF, 0xFF]);
    assert_eq!(chip.index(), 0xFFF);
    let chip = after(&[0xA1, 0x00, 0x64, 0x23, 0xF4, 0x1E]);
    assert_eq!(chip.index(), 0x123);
    assert_eq!(chip.registers()[15], 0);
}

#[test]
fn index_register_wraps_at_sixteen_bits() {
    // I := 0xFFF; V0 := 0xFF; I += V0, 241 times: 0xFFF + 241 * 255 = 65550 = 65536 + 14.
    let mut program = vec![0xAF, 0xFF, 0x60, 0xFF];
    for _ in 0..241 {
        program.extend_from_slice(&[0xF0, 0x1E]);
    }
    let mut chip = Chip8::new();
    chip.init(&program, vec![]).unwrap();
    for _ in 0..2 + 240 {
        chip.emulate_cycle().unwrap();
    }
    assert_eq!(chip.index(), 0xFFF + 240 * 255);
    chip.emulate_cycle().unwrap();
    assert_eq!(chip.index(), 14);
}

#[test]
fn glyph_address_is_font_origin_plus_five_per_digit() {
    let chip = after(&[0x67, 0x00, 0xF7, 0x29]);
    assert_eq!(chip.index(), 0x50);
    let chip = after(&[0x67, 0x0F, 0xF7, 0x29]);
    assert_eq!(chip.index(), 0x50 + 75);
    let chip = after(&[0x67, 0xFF, 0xF7, 0x29]);
    assert_eq!(chip.index(), 0x50 + 255 * 5);
}

#[test]
fn decimal_digits_are_stored_hundreds_first() {
    let chip = after(&[0x60, 254, 0xA3, 0x00, 0xF0, 0x33]);
    assert_eq!(&chip.memory()[0x300..0x303], &[2, 5, 4]);
    assert_eq!(chip.index(), 0x300);
    let chip = after(&[0x60, 7, 0xA3, 0x00, 0xF0, 0x33]);
    assert_eq!(&chip.memory()[0x300..0x303], &[0, 0, 7]);
    let chip = after(&[0x60, 100, 0xA3, 0x00, 0xF0, 0x33]);
    assert_eq!(&chip.memory()[0x300..0x303], &[1, 0, 0]);
    let chip = after(&[0x60, 99, 0xAF, 0xFD, 0xF0, 0x33]);
    assert_eq!(&chip.memory()[0xFFD..0x1000], &[0, 9, 9]);
}

#[test]
fn registers_are_stored_up_to_and_including_x() {
    let chip = after(&[0x60, 0x11, 0x61, 0x22, 0x62, 0x33, 0x63, 0x44, 0xA3, 0x00, 0xF2, 0x55]);
    assert_eq!(&chip.memory()[0x300..0x304], &[0x11, 0x22, 0x33, 0x00]);
    assert_eq!(chip.memory()[0x2FF], 0);
    assert_eq!(chip.index(), 0x300);
}

#[test]
fn register_zero_alone_is_stored() {
    let chip = after(&[0x60, 0x11, 0x61, 0x22, 0xA3, 0x00, 0xF0, 0x55]);
    assert_eq!(&chip.memory()[0x300..0x302], &[0x11, 0x00]);
}

#[test]
fn all_sixteen_registers_are_stored_and_loaded() {
    let mut program = Vec::new();
    for r in 0..16u8 {
        program.extend_from_slice(&[0x60 | r, 0xA0 + r]);
    }
    // I := 0xFF0; store V0..VF; then V0..VF := 0; load V0..VF.
    program.extend_from_slice(&[0xAF, 0xF0, 0xFF, 0x55]);
    for r in 0..16u8 {
        program.extend_from_slice(&[0x60 | r, 0x00]);
    }
    program.extend_from_slice(&[0xFF, 0x65]);
    let chip = after(&program);
    let expected: Vec<u8> = (0..16u8).map(|r| 0xA0 + r).collect();
    assert_eq!(&chip.memory()[0xFF0..0x1000], &expected[..]);
    assert_eq!(&chip.registers()[..], &expected[..]);
}

#[test]
fn registers_are_loaded_up_to_and_including_x() {
    // The program reads its own first bytes back: I := 0x200; V3 := 0x99; load V0..V2.
    let chip = after(&[0xA2, 0x00, 0x63, 0x99, 0xF2, 0x65]);
    assert_eq!(&chip.registers()[..5], &[0xA2, 0x00, 0x63, 0x99, 0x00]);
    assert_eq!(chip.index(), 0x200);
}

#[test]
fn random_is_masked_by_the_immediate() {
    for _ in 0..200 {
        let chip = after(&[0x65, 0xFF, 0xC5, 0x00]);
        assert_eq!(chip.registers()[5], 0);
        let chip = after(&[0xC5, 0x0F]);
        assert_eq!(chip.registers()[5] & 0xF0, 0);
    }
}

#[test]
fn random_takes_more_than_one_value() {
    let first = after(&[0xC5, 0xFF]).registers()[5];
    let mut differs = false;
    for _ in 0..1000 {
        if after(&[0xC5, 0xFF]).registers()[5] != first {
            differs = true;
        }
    }
    assert!(differs);
}

#[test]
fn given_random_byte_is_anded_with_the_immediate() {
    let mut chip = Chip8::new();
    chip.init(&[0xC5, 0xF0, 0xC6, 0x3C, 0x67, 0x11], vec![]).unwrap();
    assert_eq!(chip.emulate_cycle_with(0xAB), Ok(RunState::Executing));
    assert_eq!(chip.registers()[5], 0xA0);
    assert_eq!(chip.emulate_cycle_with(0xFF), Ok(RunState::Executing));
    assert_eq!(chip.registers()[6], 0x3C);
    // Other instructions ignore the byte.
    assert_eq!(chip.emulate_cycle_with(0x77), Ok(RunState::Executing));
    assert_eq!(chip.registers()[7], 0x11);
    assert_eq!(chip.pc(), 0x206);
}
