use chip8::{Chip8, RunState};

fn fontset() -> Vec<u8> {
    vec![
        0xF0, 0x90, 0x90, 0x90, 0xF0, 0x20, 0x60, 0x20, 0x20, 0x70, 0xF0, 0x10, 0xF0, 0x80, 0xF0,
        0xF0, 0x10, 0xF0, 0x10, 0xF0, 0x90, 0x90, 0xF0, 0x10, 0x10, 0xF0, 0x80, 0xF0, 0x10, 0xF0,
        0xF0, 0x80, 0xF0, 0x90, 0xF0, 0xF0, 0x10, 0x20, 0x40, 0x40, 0xF0, 0x90, 0xF0, 0x90, 0xF0,
        0xF0, 0x90, 0xF0, 0x10, 0xF0, 0xF0, 0x90, 0xF0, 0x90, 0x90, 0xE0, 0x90, 0xE0, 0x90, 0xE0,
        0xF0, 0x80, 0x80, 0x80, 0xF0, 0xE0, 0x90, 0x90, 0x90, 0xE0, 0xF0, 0x80, 0xF0, 0x80, 0xF0,
        0xF0, 0x80, 0xF0, 0x80, 0x80,
    ]
}

#[test]
fn load_then_add_immediate() {
    let mut chip = Chip8::new();
    chip.init(&[0x60, 0x05, 0x70, 0x03], fontset()).unwrap();
    assert_eq!(chip.emulate_cycle(), Ok(RunState::Executing));
    assert_eq!(chip.emulate_cycle(), Ok(RunState::Executing));
    assert_eq!(chip.registers()[0], 8);
    assert_eq!(chip.pc(), 0x204);
}

#[test]
fn draw_then_clear_leaves_blank_screen_and_raised_flag() {
    let mut chip = Chip8::new();
    // I := 0x208 (the sprite byte), draw 8x1 at (V0, V0) = (0, 0), clear.
    chip.init(&[0xA2, 0x08, 0xD0, 0x01, 0x00, 0xE0, 0x00, 0x00, 0xFF], fontset()).unwrap();
    chip.emulate_cycle().unwrap();
    chip.emulate_cycle().unwrap();
    assert_eq!(&chip.display()[0..8], &[1u8; 8]);
    assert!(chip.display()[8..].iter().all(|&p| p == 0));
    assert!(chip.draw_flag());
    assert_eq!(chip.registers()[15], 0);
    chip.emulate_cycle().unwrap();
    assert!(chip.display().iter().all(|&p| p == 0));
    assert!(chip.draw_flag());
    assert_eq!(chip.pc(), 0x206);
}

#[test]
fn clear_raises_the_draw_flag_on_its_own() {
    let mut chip = Chip8::new();
    chip.init(&[0x00, 0xE0], fontset()).unwrap();
    assert!(!chip.draw_flag());
    chip.emulate_cycle().unwrap();
    assert!(chip.draw_flag());
    chip.clear_draw_flag();
    assert!(!chip.draw_flag());
}

#[test]
fn host_frame_loop_counts_down_and_draws_a_glyph() {
    let mut chip = Chip8::new();
    // V0 := 3; delay := V0; V1 := 0xA; I := glyph(V1); draw 5 rows at (V2, V2); jump to self.
    chip.init(
        &[0x60, 0x03, 0xF0, 0x15, 0x61, 0x0A, 0xF1, 0x29, 0xD2, 0x25, 0x12, 0x0A],
        fontset(),
    ).unwrap();
    for _ in 0..3 {
        for _ in 0..15 {
            assert_eq!(chip.emulate_cycle(), Ok(RunState::Executing));
        }
        chip.update_timers();
    }
    assert_eq!(chip.delay_timer(), 0);
    assert_eq!(chip.pc(), 0x20A);
    assert_eq!(chip.index(), 0x50 + 10 * 5);
    // Glyph "A" is F0 90 F0 90 90.
    let rows: [[u8; 4]; 5] = [[1, 1, 1, 1], [1, 0, 0, 1], [1, 1, 1, 1], [1, 0, 0, 1], [1, 0, 0, 1]];
    for (y, row) in rows.iter().enumerate() {
        assert_eq!(&chip.display()[y * 64..y * 64 + 4], row);
        assert!(chip.display()[y * 64 + 4..(y + 1) * 64].iter().all(|&p| p == 0));
    }
    assert!(chip.draw_flag());
}
