use chip8::Chip8;
use chip8::Fault;
use chip8::PROGRAM_START;

#[test]
fn new_machine_is_zeroed_with_font() {
    let m = Chip8::new();
    assert_eq!(m.program_counter(), PROGRAM_START);
    for x in 0..16 {
        assert_eq!(m.v_reg(x), 0);
    }
    assert_eq!(m.i_reg(), 0);
    assert_eq!(m.delay_timer(), 0);
    assert_eq!(m.sound_timer(), 0);
    assert_eq!(m.stack_depth(), 0);
    assert!(!m.awaiting_key());
    assert!(!m.sound_active());
    for y in 0..32 {
        for x in 0..64 {
            assert!(!m.pixel(x, y));
        }
    }
    // the font sprite for digit 0 sits at address 0
    assert_eq!(m.mem_byte(0), 0xF0);
    assert_eq!(m.mem_byte(1), 0x90);
    assert_eq!(m.mem_byte(4), 0xF0);
    // the font sprite for digit F starts at 75
    assert_eq!(m.mem_byte(75), 0xF0);
    assert_eq!(m.mem_byte(79), 0x80);
    // past the font everything is zero
    assert_eq!(m.mem_byte(80), 0);
    assert_eq!(m.mem_byte(0x200), 0);
}

#[test]
fn load_and_copy_registers() {
    let mut m = Chip8::new();
    m.ld(3, 0x42);
    assert_eq!(m.v_reg(3), 0x42);
    m.ld2(5, 3);
    assert_eq!(m.v_reg(5), 0x42);
    assert_eq!(m.v_reg(3), 0x42);
}

#[test]
fn add_immediate_wraps_without_flag() {
    let mut m = Chip8::new();
    m.ld(0, 250);
    m.ld(0xF, 9); // a previous flag value must survive
    m.add(0, 10);
    assert_eq!(m.v_reg(0), 4);
    assert_eq!(m.v_reg(0xF), 9);
}

#[test]
fn add_carry_sets_flag_exactly_on_overflow() {
    let mut m = Chip8::new();
    m.ld(0, 200);
    m.ld(1, 100);
    m.add_carry(0, 1);
    assert_eq!(m.v_reg(0), 44);
    assert_eq!(m.v_reg(0xF), 1);

    m.ld(2, 1);
    m.ld(3, 2);
    m.add_carry(2, 3);
    assert_eq!(m.v_reg(2), 3);
    assert_eq!(m.v_reg(0xF), 0);

    // boundary: 255 + 0 does not overflow, 255 + 1 does
    m.ld(4, 255);
    m.ld(5, 0);
    m.add_carry(4, 5);
    assert_eq!(m.v_reg(4), 255);
    assert_eq!(m.v_reg(0xF), 0);
    m.ld(6, 255);
    m.ld(7, 1);
    m.add_carry(6, 7);
    assert_eq!(m.v_reg(6), 0);
    assert_eq!(m.v_reg(0xF), 1);
}

#[test]
fn sub_sets_flag_exactly_when_no_borrow() {
    let mut m = Chip8::new();
    m.ld(0, 5);
    m.ld(1, 3);
    m.sub(0, 1);
    assert_eq!(m.v_reg(0), 2);
    assert_eq!(m.v_reg(0xF), 1);

    m.ld(2, 3);
    m.ld(3, 5);
    m.sub(2, 3);
    assert_eq!(m.v_reg(2), 254);
    assert_eq!(m.v_reg(0xF), 0);

    // equal values: no borrow
    m.ld(4, 7);
    m.ld(5, 7);
    m.sub(4, 5);
    assert_eq!(m.v_reg(4), 0);
    assert_eq!(m.v_reg(0xF), 1);
}

#[test]
fn subn_reverses_operands() {
    let mut m = Chip8::new();
    m.ld(0, 3);
    m.ld(1, 10);
    m.subn(0, 1);
    assert_eq!(m.v_reg(0), 7);
    assert_eq!(m.v_reg(0xF), 1);

    m.ld(2, 10);
    m.ld(3, 3);
    m.subn(2, 3);
    assert_eq!(m.v_reg(2), 249);
    assert_eq!(m.v_reg(0xF), 0);
}

#[test]
fn shifts_capture_the_dropped_bit_before_mutating() {
    let mut m = Chip8::new();
    m.ld(0, 0b0000_0101);
    m.shr(0, 1);
    assert_eq!(m.v_reg(0), 0b0000_0010);
    assert_eq!(m.v_reg(0xF), 1);
    m.shr(0, 1);
    assert_eq!(m.v_reg(0), 0b0000_0001);
    assert_eq!(m.v_reg(0xF), 0);

    m.ld(1, 0x81);
    m.shl(1, 2);
    assert_eq!(m.v_reg(1), 0x02);
    assert_eq!(m.v_reg(0xF), 1);
    m.shl(1, 2);
    assert_eq!(m.v_reg(1), 0x04);
    assert_eq!(m.v_reg(0xF), 0);
}

#[test]
fn bitwise_operations() {
    let mut m = Chip8::new();
    m.ld(0, 0b1100);
    m.ld(1, 0b1010);
    m.or(0, 1);
    assert_eq!(m.v_reg(0), 0b1110);
    m.ld(0, 0b1100);
    m.and(0, 1);
    assert_eq!(m.v_reg(0), 0b1000);
    m.ld(0, 0b1100);
    m.xor(0, 1);
    assert_eq!(m.v_reg(0), 0b0110);
}

#[test]
fn skip_instructions_move_the_program_counter() {
    let mut m = Chip8::new();
    let base = m.program_counter();
    m.ld(0, 7);
    m.se(0, 7);
    assert_eq!(m.program_counter(), base + 2);
    m.se(0, 8);
    assert_eq!(m.program_counter(), base + 2);
    m.sne(0, 8);
    assert_eq!(m.program_counter(), base + 4);
    m.sne(0, 7);
    assert_eq!(m.program_counter(), base + 4);
    m.ld(1, 7);
    m.se2(0, 1);
    assert_eq!(m.program_counter(), base + 6);
    m.sne2(0, 1);
    assert_eq!(m.program_counter(), base + 6);
    m.ld(1, 9);
    m.sne2(0, 1);
    assert_eq!(m.program_counter(), base + 8);
}

#[test]
fn jumps_and_address_register() {
    let mut m = Chip8::new();
    m.jp(0x456);
    assert_eq!(m.program_counter(), 0x456);
    m.ld(0, 5);
    m.jp1(0x100);
    assert_eq!(m.program_counter(), 0x105);
    m.ldi(0x300);
    assert_eq!(m.i_reg(), 0x300);
    m.ld(2, 0x20);
    m.addi(2);
    assert_eq!(m.i_reg(), 0x320);
}

#[test]
fn add_to_address_register_wraps() {
    let mut m = Chip8::new();
    m.ldi(0xFFFF);
    m.ld(0, 2);
    m.addi(0);
    assert_eq!(m.i_reg(), 1);
}

#[test]
fn call_and_ret_restore_the_program_counter() {
    let mut m = Chip8::new();
    m.jp(0x202);
    let depth = m.stack_depth();
    assert_eq!(m.call(0x400), Ok(()));
    assert_eq!(m.program_counter(), 0x400);
    assert_eq!(m.stack_depth(), depth + 1);
    assert_eq!(m.ret(), Ok(()));
    assert_eq!(m.program_counter(), 0x202);
    assert_eq!(m.stack_depth(), depth);
}

#[test]
fn stack_faults_at_its_bounds() {
    let mut m = Chip8::new();
    assert_eq!(m.ret(), Err(Fault::StackUnderflow));
    for _ in 0..16 {
        assert_eq!(m.call(0x300), Ok(()));
    }
    assert_eq!(m.stack_depth(), 16);
    assert_eq!(m.call(0x300), Err(Fault::StackOverflow));
    assert_eq!(m.stack_depth(), 16);
}

#[test]
fn timers_load_and_tick_to_zero() {
    let mut m = Chip8::new();
    m.ld(4, 2);
    m.ld_dtxv(4);
    m.ld(5, 1);
    m.ld_st(5);
    assert_eq!(m.delay_timer(), 2);
    assert_eq!(m.sound_timer(), 1);
    assert!(m.sound_active());
    m.tick_timers();
    assert_eq!(m.delay_timer(), 1);
    assert_eq!(m.sound_timer(), 0);
    assert!(!m.sound_active());
    m.tick_timers();
    assert_eq!(m.delay_timer(), 0);
    assert_eq!(m.sound_timer(), 0);
    m.ld_xvdt(9);
    assert_eq!(m.v_reg(9), 0);
}

#[test]
fn keypad_reads_and_skips() {
    let mut m = Chip8::new();
    let base = m.program_counter();
    m.ld(0, 4);
    m.skp(0);
    assert_eq!(m.program_counter(), base);
    m.sknp(0);
    assert_eq!(m.program_counter(), base + 2);
    m.set_key(4, true);
    m.skp(0);
    assert_eq!(m.program_counter(), base + 4);
    m.sknp(0);
    assert_eq!(m.program_counter(), base + 4);
    m.set_key(4, false);
    m.skp(0);
    assert_eq!(m.program_counter(), base + 4);
}

#[test]
fn font_lookup_points_at_glyphs() {
    let mut m = Chip8::new();
    m.ld(0, 0x0);
    m.ldf(0);
    assert_eq!(m.i_reg(), 0);
    m.ld(0, 0x7);
    m.ldf(0);
    assert_eq!(m.i_reg(), 35);
    // only the low nibble selects the digit
    m.ld(0, 0xAF);
    m.ldf(0);
    assert_eq!(m.i_reg(), 75);
}

#[test]
fn bcd_of_255_and_0() {
    let mut m = Chip8::new();
    m.ldi(0x300);
    m.ld(2, 255);
    assert_eq!(m.ldb(2), Ok(()));
    assert_eq!(m.mem_byte(0x300), 2);
    assert_eq!(m.mem_byte(0x301), 5);
    assert_eq!(m.mem_byte(0x302), 5);

    m.ldi(0x310);
    m.ld(3, 0);
    assert_eq!(m.ldb(3), Ok(()));
    assert_eq!(m.mem_byte(0x310), 0);
    assert_eq!(m.mem_byte(0x311), 0);
    assert_eq!(m.mem_byte(0x312), 0);

    m.ldi(0x320);
    m.ld(4, 42);
    assert_eq!(m.ldb(4), Ok(()));
    assert_eq!(m.mem_byte(0x320), 0);
    assert_eq!(m.mem_byte(0x321), 4);
    assert_eq!(m.mem_byte(0x322), 2);
}

#[test]
fn store_then_load_registers_round_trips() {
    let mut m = Chip8::new();
    m.ld(0, 11);
    m.ld(1, 22);
    m.ld(2, 33);
    m.ld(3, 44);
    m.ldi(0x300);
    assert_eq!(m.ldivx(3), Ok(()));
    assert_eq!(m.mem_byte(0x300), 11);
    assert_eq!(m.mem_byte(0x301), 22);
    assert_eq!(m.mem_byte(0x302), 33);
    assert_eq!(m.mem_byte(0x303), 44);
    // registers are untouched by the store
    assert_eq!(m.v_reg(0), 11);
    // zero the register file, then load the block back
    for x in 0..16 {
        m.ld(x, 0);
    }
    m.ldvxi(3);
    assert_eq!(m.v_reg(0), 11);
    assert_eq!(m.v_reg(1), 22);
    assert_eq!(m.v_reg(2), 33);
    assert_eq!(m.v_reg(3), 44);
    // registers past the range stay zero
    assert_eq!(m.v_reg(4), 0);
}

#[test]
fn full_register_block_round_trips() {
    let mut m = Chip8::new();
    for x in 0..16 {
        m.ld(x, (10 + x as u16) & 0xFF);
    }
    m.ldi(0x280);
    assert_eq!(m.ldivx(15), Ok(()));
    for x in 0..16 {
        m.ld(x, 0);
    }
    m.ldvxi(15);
    for x in 0..16 {
        assert_eq!(m.v_reg(x), 10 + x as u8);
    }
}

#[test]
fn register_store_faults_at_the_top_of_memory() {
    let mut m = Chip8::new();
    m.ld(0, 0xAA);
    m.ld(1, 0xBB);
    m.ld(2, 0xCC);
    m.ldi(0xFFE);
    // a three-byte block starting at 0xFFE would cross the top of memory
    assert_eq!(m.ldivx(2), Err(Fault::OutOfBoundsStore { addr: 0xFFE }));
    // nothing was written, the reserved font region included
    assert_eq!(m.mem_byte(0xFFE), 0);
    assert_eq!(m.mem_byte(0xFFF), 0);
    assert_eq!(m.mem_byte(0x000), 0xF0);
    // the highest block that fits is accepted and read back in place
    m.ldi(0xFFD);
    assert_eq!(m.ldivx(2), Ok(()));
    assert_eq!(m.mem_byte(0xFFD), 0xAA);
    assert_eq!(m.mem_byte(0xFFE), 0xBB);
    assert_eq!(m.mem_byte(0xFFF), 0xCC);
    m.ld(0, 0);
    m.ld(1, 0);
    m.ld(2, 0);
    m.ldvxi(2);
    assert_eq!(m.v_reg(0), 0xAA);
    assert_eq!(m.v_reg(1), 0xBB);
    assert_eq!(m.v_reg(2), 0xCC);
}

#[test]
fn bcd_store_faults_at_the_top_of_memory() {
    let mut m = Chip8::new();
    m.ld(0, 123);
    m.ldi(0xFFE);
    assert_eq!(m.ldb(0), Err(Fault::OutOfBoundsStore { addr: 0xFFE }));
    assert_eq!(m.mem_byte(0xFFE), 0);
    assert_eq!(m.mem_byte(0x000), 0xF0);
    // the highest three-byte range that fits is accepted
    m.ldi(0xFFD);
    assert_eq!(m.ldb(0), Ok(()));
    assert_eq!(m.mem_byte(0xFFD), 1);
    assert_eq!(m.mem_byte(0xFFE), 2);
    assert_eq!(m.mem_byte(0xFFF), 3);
}

#[test]
fn random_masks_and_is_reproducible() {
    let mut m = Chip8::new();
    m.rnd(0, 0x00);
    assert_eq!(m.v_reg(0), 0);
    // same seed, same draws: a fresh machine repeats the sequence
    let mut m2 = Chip8::new();
    m.rnd(1, 0xFF);
    m2.rnd(2, 0x00);
    m2.rnd(3, 0xFF);
    assert_eq!(m.v_reg(1), m2.v_reg(3));
}
