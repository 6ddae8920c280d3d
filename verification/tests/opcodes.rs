use chip8::cpu::Chip8;
use chip8::ExecutionError;

fn fresh() -> Chip8 {
    Chip8::new(&[]).unwrap()
}

#[test]
fn cls_clears_every_pixel() {
    let mut chip = fresh();
    chip.display.set(0, 0, true);
    chip.display.set(63, 31, true);
    chip.display.set(12, 7, true);
    chip.execute_with(0x00E0, 0).unwrap();
    for x in 0..64 {
        for y in 0..32 {
            assert_eq!(chip.display.get(x, y), false);
        }
    }
    assert!(chip.draw_screen);
    assert_eq!(chip.pc, 0x202);
}

#[test]
fn call_then_ret_round_trips_pc() {
    let mut chip = fresh();
    assert_eq!(chip.pc, 0x200);
    chip.execute_with(0x2300, 0).unwrap();
    assert_eq!(chip.pc, 0x300);
    assert_eq!(chip.sp, 1);
    chip.execute_with(0x00EE, 0).unwrap();
    assert_eq!(chip.pc, 0x202);
    assert_eq!(chip.sp, 0);
}

#[test]
fn ret_on_empty_stack_underflows() {
    let mut chip = fresh();
    assert_eq!(
        chip.execute_with(0x00EE, 0),
        Err(ExecutionError::StackUnderflow)
    );
    assert_eq!(chip.pc, 0x200);
    assert_eq!(chip.sp, 0);
}

#[test]
fn sixteenth_nested_call_overflows() {
    let mut chip = fresh();
    for depth in 1..=15 {
        chip.execute_with(0x2300, 0).unwrap();
        assert_eq!(chip.sp, depth);
    }
    assert_eq!(
        chip.execute_with(0x2300, 0),
        Err(ExecutionError::StackOverflow)
    );
    assert_eq!(chip.sp, 15);
}

#[test]
fn jp_sets_pc() {
    let mut chip = fresh();
    chip.execute_with(0x1ABC, 0).unwrap();
    assert_eq!(chip.pc, 0xABC);
}

#[test]
fn jp_v0_adds_register() {
    let mut chip = fresh();
    chip.execute_with(0x6007, 0).unwrap();
    chip.execute_with(0xB300, 0).unwrap();
    assert_eq!(chip.pc, 0x307);
}

#[test]
fn skip_equal_byte() {
    let mut chip = fresh();
    chip.execute_with(0x3000, 0).unwrap();
    assert_eq!(chip.pc, 0x204);
    chip.execute_with(0x3001, 0).unwrap();
    assert_eq!(chip.pc, 0x206);
}

#[test]
fn skip_not_equal_byte() {
    let mut chip = fresh();
    chip.execute_with(0x4001, 0).unwrap();
    assert_eq!(chip.pc, 0x204);
    chip.execute_with(0x4000, 0).unwrap();
    assert_eq!(chip.pc, 0x206);
}

#[test]
fn skip_register_compares() {
    let mut chip = fresh();
    chip.execute_with(0x6A05, 0).unwrap();
    chip.execute_with(0x6B05, 0).unwrap();
    let pc = chip.pc;
    chip.execute_with(0x5AB0, 0).unwrap();
    assert_eq!(chip.pc, pc + 4);
    chip.execute_with(0x9AB0, 0).unwrap();
    assert_eq!(chip.pc, pc + 6);
    chip.execute_with(0x6B06, 0).unwrap();
    let pc = chip.pc;
    chip.execute_with(0x5AB0, 0).unwrap();
    assert_eq!(chip.pc, pc + 2);
    chip.execute_with(0x9AB0, 0).unwrap();
    assert_eq!(chip.pc, pc + 6);
}

#[test]
fn ld_then_add_immediate() {
    let mut chip = fresh();
    chip.execute_with(0x6A05, 0).unwrap();
    chip.execute_with(0x7A0B, 0).unwrap();
    assert_eq!(chip.v[0xA], 0x10);
    assert_eq!(chip.v[0xF], 0);
    assert_eq!(chip.pc, 0x204);
}

#[test]
fn add_immediate_wraps_without_flag() {
    let mut chip = fresh();
    chip.execute_with(0x6FAA, 0).unwrap();
    chip.execute_with(0x6AFF, 0).unwrap();
    chip.execute_with(0x7A02, 0).unwrap();
    assert_eq!(chip.v[0xA], 0x01);
    assert_eq!(chip.v[0xF], 0xAA);
}

#[test]
fn ld_register_copies() {
    let mut chip = fresh();
    chip.execute_with(0x6B2A, 0).unwrap();
    chip.execute_with(0x8AB0, 0).unwrap();
    assert_eq!(chip.v[0xA], 0x2A);
    assert_eq!(chip.v[0xB], 0x2A);
}

#[test]
fn bitwise_or_and_xor() {
    let mut chip = fresh();
    chip.execute_with(0x6A0C, 0).unwrap();
    chip.execute_with(0x6B0A, 0).unwrap();
    chip.execute_with(0x8AB1, 0).unwrap();
    assert_eq!(chip.v[0xA], 0x0E);
    chip.execute_with(0x6A0C, 0).unwrap();
    chip.execute_with(0x8AB2, 0).unwrap();
    assert_eq!(chip.v[0xA], 0x08);
    chip.execute_with(0x6A0C, 0).unwrap();
    chip.execute_with(0x8AB3, 0).unwrap();
    assert_eq!(chip.v[0xA], 0x06);
}

#[test]
fn add_register_overflow_sets_carry() {
    let mut chip = fresh();
    chip.execute_with(0x6AFF, 0).unwrap();
    chip.execute_with(0x6B01, 0).unwrap();
    chip.execute_with(0x8AB4, 0).unwrap();
    assert_eq!(chip.v[0xA], 0x00);
    assert_eq!(chip.v[0xF], 1);
}

#[test]
fn add_register_without_overflow_clears_carry() {
    let mut chip = fresh();
    chip.execute_with(0x6F01, 0).unwrap();
    chip.execute_with(0x6A10, 0).unwrap();
    chip.execute_with(0x6B0F, 0).unwrap();
    chip.execute_with(0x8AB4, 0).unwrap();
    assert_eq!(chip.v[0xA], 0x1F);
    assert_eq!(chip.v[0xF], 0);
}

#[test]
fn sub_borrow_wraps_and_clears_flag() {
    let mut chip = fresh();
    chip.execute_with(0x6A05, 0).unwrap();
    chip.execute_with(0x6B0A, 0).unwrap();
    chip.execute_with(0x8AB5, 0).unwrap();
    assert_eq!(chip.v[0xA], 0xFB);
    assert_eq!(chip.v[0xF], 0);
}

#[test]
fn sub_without_borrow_sets_flag() {
    let mut chip = fresh();
    chip.execute_with(0x6A0A, 0).unwrap();
    chip.execute_with(0x6B05, 0).unwrap();
    chip.execute_with(0x8AB5, 0).unwrap();
    assert_eq!(chip.v[0xA], 0x05);
    assert_eq!(chip.v[0xF], 1);
}

#[test]
fn shr_reports_low_bit() {
    let mut chip = fresh();
    chip.execute_with(0x6A05, 0).unwrap();
    chip.execute_with(0x8A06, 0).unwrap();
    assert_eq!(chip.v[0xA], 0x02);
    assert_eq!(chip.v[0xF], 1);
    chip.execute_with(0x6A04, 0).unwrap();
    chip.execute_with(0x8A06, 0).unwrap();
    assert_eq!(chip.v[0xA], 0x02);
    assert_eq!(chip.v[0xF], 0);
}

#[test]
fn shl_reports_high_bit() {
    let mut chip = fresh();
    chip.execute_with(0x6A81, 0).unwrap();
    chip.execute_with(0x8A0E, 0).unwrap();
    assert_eq!(chip.v[0xA], 0x02);
    assert_eq!(chip.v[0xF], 1);
    chip.execute_with(0x6A41, 0).unwrap();
    chip.execute_with(0x8A0E, 0).unwrap();
    assert_eq!(chip.v[0xA], 0x82);
    assert_eq!(chip.v[0xF], 0);
}

#[test]
fn subn_targets_vy() {
    let mut chip = fresh();
    chip.execute_with(0x6A05, 0).unwrap();
    chip.execute_with(0x6B0A, 0).unwrap();
    chip.execute_with(0x8AB7, 0).unwrap();
    assert_eq!(chip.v[0xB], 0x05);
    assert_eq!(chip.v[0xA], 0x05);
    assert_eq!(chip.v[0xF], 1);
    chip.execute_with(0x6A08, 0).unwrap();
    chip.execute_with(0x6B03, 0).unwrap();
    chip.execute_with(0x8AB7, 0).unwrap();
    assert_eq!(chip.v[0xB], 0xFB);
    assert_eq!(chip.v[0xF], 0);
}

#[test]
fn ld_i_sets_index() {
    let mut chip = fresh();
    chip.execute_with(0xA123, 0).unwrap();
    assert_eq!(chip.i, 0x123);
    assert_eq!(chip.pc, 0x202);
}

#[test]
fn rnd_masks_supplied_byte() {
    let mut chip = fresh();
    chip.execute_with(0xC0FF, 0x5C).unwrap();
    assert_eq!(chip.v[0], 0x5C);
    chip.execute_with(0xC00F, 0xAB).unwrap();
    assert_eq!(chip.v[0], 0x0B);
    assert_eq!(chip.pc, 0x204);
}

#[test]
fn rnd_with_zero_mask_is_zero() {
    let mut chip = fresh();
    chip.execute_with(0x60FF, 0).unwrap();
    chip.execute(0xC000).unwrap();
    assert_eq!(chip.v[0], 0);
}

#[test]
fn drw_draws_glyph_and_xor_erases() {
    let mut chip = fresh();
    chip.execute_with(0xA000, 0).unwrap();
    chip.execute_with(0xD015, 0).unwrap();
    assert_eq!(chip.v[0xF], 0);
    assert!(chip.draw_screen);
    let glyph0 = [0xF0u8, 0x90, 0x90, 0x90, 0xF0];
    for (row, &byte) in glyph0.iter().enumerate() {
        for bit in 0..8 {
            let expected = (byte >> (7 - bit)) & 1 == 1;
            assert_eq!(chip.display.get(bit, row), expected);
        }
    }
    chip.execute_with(0xD015, 0).unwrap();
    assert_eq!(chip.v[0xF], 1);
    for x in 0..64 {
        for y in 0..32 {
            assert_eq!(chip.display.get(x, y), false);
        }
    }
}

#[test]
fn drw_wraps_at_both_edges() {
    let mut chip = Chip8::new(&[0xFF, 0xFF]).unwrap();
    chip.execute_with(0xA200, 0).unwrap();
    chip.execute_with(0x603E, 0).unwrap();
    chip.execute_with(0x611E, 0).unwrap();
    chip.execute_with(0xD012, 0).unwrap();
    assert_eq!(chip.v[0xF], 0);
    for &y in &[30usize, 31] {
        for &x in &[62usize, 63, 0, 1, 2, 3, 4, 5] {
            assert_eq!(chip.display.get(x, y), true, "pixel ({x},{y})");
        }
        assert_eq!(chip.display.get(6, y), false);
        assert_eq!(chip.display.get(61, y), false);
    }
    for y in 0..30 {
        for x in 0..64 {
            assert_eq!(chip.display.get(x, y), false);
        }
    }
}

#[test]
fn drw_collision_only_on_erased_pixel() {
    let mut chip = Chip8::new(&[0x80, 0x01]).unwrap();
    chip.execute_with(0xA200, 0).unwrap();
    chip.execute_with(0xD011, 0).unwrap();
    assert_eq!(chip.v[0xF], 0);
    assert!(chip.display.get(0, 0));
    chip.execute_with(0xA201, 0).unwrap();
    chip.execute_with(0xD011, 0).unwrap();
    assert_eq!(chip.v[0xF], 0);
    assert!(chip.display.get(0, 0));
    assert!(chip.display.get(7, 0));
    chip.execute_with(0xA200, 0).unwrap();
    chip.execute_with(0xD011, 0).unwrap();
    assert_eq!(chip.v[0xF], 1);
    assert!(!chip.display.get(0, 0));
    assert!(chip.display.get(7, 0));
}

#[test]
fn unknown_opcodes_halt_without_moving() {
    let mut chip = fresh();
    for &word in &[0x0000u16, 0x0300, 0x5AB1, 0x8AB8, 0x9AB3, 0xE09E, 0xEAA1, 0xF00A, 0xF315] {
        assert_eq!(
            chip.execute_with(word, 0),
            Err(ExecutionError::UnknownOpcode(word)),
            "word {word:04X}"
        );
        assert_eq!(chip.pc, 0x200);
        assert_eq!(chip.sp, 0);
    }
}

#[test]
fn pc_wraps_at_address_space_end() {
    let mut chip = fresh();
    chip.execute_with(0x1FFF, 0).unwrap();
    assert_eq!(chip.pc, 0xFFF);
    chip.pc = 0xFFFE;
    chip.execute_with(0x6000, 0).unwrap();
    assert_eq!(chip.pc, 0x0000);
}
