use chip8::{decode, Chip8, Chip8Error, Command, Instruction, Stack, DISPLAY_SIZE, DISPLAY_WIDTH};

fn boot(program: &[u8]) -> Chip8 {
    Chip8::new(&program.to_vec()).unwrap()
}

fn run(machine: &mut Chip8, ticks: usize) {
    for _ in 0..ticks {
        machine.tick_with_random(0).unwrap();
    }
}

#[test]
fn load_byte_sets_register_and_advances_pc() {
    for x in 0..16u8 {
        for kk in [0x00u8, 0x42, 0xFF] {
            let mut m = boot(&[0x60 | x, kk]);
            let r = m.tick_with_random(0).unwrap();
            assert_eq!(r, Command::Nothing);
            assert_eq!(m.register(x), kk);
            assert_eq!(m.pc(), 0x202);
        }
    }
}

#[test]
fn add_registers_sets_carry_on_overflow() {
    let mut m = boot(&[0x60, 0xFF, 0x61, 0x01, 0x80, 0x14]);
    run(&mut m, 3);
    assert_eq!(m.register(0), 0x00);
    assert_eq!(m.register(0xF), 1);
    assert_eq!(m.pc(), 0x206);
}

#[test]
fn add_registers_without_carry() {
    let mut m = boot(&[0x60, 0x10, 0x61, 0x20, 0x80, 0x14]);
    run(&mut m, 3);
    assert_eq!(m.register(0), 0x30);
    assert_eq!(m.register(0xF), 0);
}

#[test]
fn sub_registers_with_borrow() {
    let mut m = boot(&[0x60, 0x01, 0x61, 0x02, 0x80, 0x15]);
    run(&mut m, 3);
    assert_eq!(m.register(0), 0xFF);
    assert_eq!(m.register(0xF), 0);
}

#[test]
fn sub_registers_without_borrow() {
    let mut m = boot(&[0x60, 0x05, 0x61, 0x05, 0x80, 0x15]);
    run(&mut m, 3);
    assert_eq!(m.register(0), 0x00);
    assert_eq!(m.register(0xF), 1);
}

#[test]
fn shift_right_moves_low_bit_into_flag() {
    let mut m = boot(&[0x62, 0x03, 0x82, 0x06]);
    run(&mut m, 2);
    assert_eq!(m.register(2), 0x01);
    assert_eq!(m.register(0xF), 1);
}

#[test]
fn shift_left_moves_high_bit_into_flag() {
    let mut m = boot(&[0x60, 0x81, 0x80, 0x0E]);
    run(&mut m, 2);
    assert_eq!(m.register(0), 0x02);
    assert_eq!(m.register(0xF), 1);
}

#[test]
fn subn_subtracts_x_from_y() {
    let mut m = boot(&[0x60, 0x01, 0x61, 0x03, 0x80, 0x17]);
    run(&mut m, 3);
    assert_eq!(m.register(0), 0x02);
    assert_eq!(m.register(0xF), 1);
}

#[test]
fn add_byte_wraps_and_leaves_flag() {
    let mut m = boot(&[0x60, 0xFF, 0x70, 0x02]);
    run(&mut m, 2);
    assert_eq!(m.register(0), 0x01);
    assert_eq!(m.register(0xF), 0);
}

#[test]
fn logic_operations() {
    let mut m = boot(&[
        0x60, 0x0C, 0x61, 0x0A, 0x62, 0x0C, 0x63, 0x0C, 0x80, 0x11, 0x82, 0x12, 0x83, 0x13, 0x84,
        0x10,
    ]);
    run(&mut m, 8);
    assert_eq!(m.register(0), 0x0E);
    assert_eq!(m.register(2), 0x08);
    assert_eq!(m.register(3), 0x06);
    assert_eq!(m.register(4), 0x0A);
}

#[test]
fn call_then_return_restores_pc_and_depth() {
    let mut program = vec![0u8; 0x102];
    program[0] = 0x23;
    program[1] = 0x00;
    program[0x100] = 0x00;
    program[0x101] = 0xEE;
    let mut m = boot(&program);
    assert_eq!(m.stack_depth(), 0);
    m.tick_with_random(0).unwrap();
    assert_eq!(m.pc(), 0x300);
    assert_eq!(m.stack_depth(), 1);
    m.tick_with_random(0).unwrap();
    assert_eq!(m.pc(), 0x202);
    assert_eq!(m.stack_depth(), 0);
}

#[test]
fn draw_wraps_around_the_right_edge() {
    // I := 0x20A, V0 := 60, V1 := 0, draw twice; the sprite row 0xFF sits at 0x20A.
    let mut m = boot(&[0xA2, 0x0A, 0x60, 0x3C, 0x61, 0x00, 0xD0, 0x11, 0xD0, 0x11, 0xFF]);
    run(&mut m, 3);
    let lit = [60usize, 61, 62, 63, 0, 1, 2, 3];
    match m.tick_with_random(0).unwrap() {
        Command::Draw(screen) => {
            assert_eq!(screen.len(), DISPLAY_SIZE);
            for p in 0..DISPLAY_SIZE {
                assert_eq!(screen[p], p < DISPLAY_WIDTH && lit.contains(&p));
            }
        }
        other => panic!("expected a draw, got {:?}", other),
    }
    for x in lit {
        assert!(m.pixel(x, 0));
    }
    assert!(!m.pixel(4, 0));
    assert!(!m.pixel(59, 0));
    assert_eq!(m.register(0xF), 0);
    assert_eq!(m.pc(), 0x208);
    // Drawing the same sprite again turns the lit pixels off: a collision.
    m.tick_with_random(0).unwrap();
    assert_eq!(m.register(0xF), 1);
    assert!(m.display().iter().all(|p| !*p));
}

#[test]
fn draw_wraps_around_the_bottom_edge() {
    // I := 0x20A, V0 := 0, V1 := 31, draw two rows of 0x80.
    let mut m = boot(&[0xA2, 0x0A, 0x60, 0x00, 0x61, 0x1F, 0xD0, 0x12, 0x00, 0x00, 0x80, 0x80]);
    run(&mut m, 4);
    assert!(m.pixel(0, 31));
    assert!(m.pixel(0, 0));
    assert!(!m.pixel(1, 0));
    assert_eq!(m.display().iter().filter(|p| **p).count(), 2);
}

#[test]
fn clear_screen_turns_every_pixel_off() {
    let mut m = boot(&[0xA0, 0x00, 0xD0, 0x05, 0x00, 0xE0, 0x00, 0xE0]);
    run(&mut m, 2);
    assert!(m.display().iter().any(|p| *p));
    run(&mut m, 1);
    assert!(m.display().iter().all(|p| !*p));
    assert_eq!(m.pc(), 0x206);
    run(&mut m, 1);
    assert!(m.display().iter().all(|p| !*p));
    assert_eq!(m.pc(), 0x208);
}

#[test]
fn pop_on_empty_stack_underflows() {
    let mut s = Stack::new();
    assert_eq!(s.pop(), Err(Chip8Error::StackUnderflow));
    assert_eq!(s.depth(), 0);
    assert_eq!(s.push(0x202), Ok(()));
    assert_eq!(s.pop(), Ok(0x202));
    assert_eq!(s.pop(), Err(Chip8Error::StackUnderflow));
}

#[test]
fn return_with_empty_stack_underflows() {
    let mut m = boot(&[0x00, 0xEE]);
    assert_eq!(m.tick_with_random(0), Err(Chip8Error::StackUnderflow));
    assert_eq!(m.pc(), 0x200);
}

#[test]
fn push_on_full_stack_overflows() {
    let mut s = Stack::new();
    for k in 0..16u16 {
        assert_eq!(s.push(k), Ok(()));
    }
    assert_eq!(s.push(99), Err(Chip8Error::StackOverflow));
    assert_eq!(s.depth(), 16);
    assert_eq!(s.pop(), Ok(15));
}

#[test]
fn call_with_full_stack_overflows() {
    // 2200 calls itself forever.
    let mut m = boot(&[0x22, 0x00]);
    run(&mut m, 16);
    assert_eq!(m.stack_depth(), 16);
    assert_eq!(m.tick_with_random(0), Err(Chip8Error::StackOverflow));
    assert_eq!(m.stack_depth(), 16);
    assert_eq!(m.pc(), 0x200);
}

#[test]
fn unknown_opcode_is_reported_and_changes_nothing() {
    let mut m = boot(&[0x60, 0x07, 0xFF, 0xFF]);
    run(&mut m, 1);
    let before = m.display();
    assert_eq!(
        m.tick_with_random(0),
        Err(Chip8Error::InvalidOpcode { pc: 0x202, instruction: 0xFFFF })
    );
    assert_eq!(m.pc(), 0x202);
    assert_eq!(m.register(0), 0x07);
    assert_eq!(m.index(), 0);
    assert_eq!(m.stack_depth(), 0);
    assert_eq!(m.display(), before);
    assert_eq!(m.memory(0x202), Some(0xFF));
}

#[test]
fn sound_timer_counts_down_to_zero_and_stops() {
    let mut m = boot(&[0x60, 0x05, 0xF0, 0x18]);
    run(&mut m, 1);
    assert_eq!(m.tick_with_random(0), Ok(Command::Beep));
    assert_eq!(m.sound_timer(), 5);
    assert!(m.is_sound_on());
    for _ in 0..5 {
        m.advance_timers();
    }
    assert_eq!(m.sound_timer(), 0);
    assert!(!m.is_sound_on());
    m.advance_timers();
    assert_eq!(m.sound_timer(), 0);
}

#[test]
fn delay_timer_is_read_back() {
    let mut m = boot(&[0x60, 0x03, 0xF0, 0x15, 0xF1, 0x07]);
    run(&mut m, 2);
    assert_eq!(m.delay_timer(), 3);
    m.advance_timers();
    run(&mut m, 1);
    assert_eq!(m.register(1), 2);
    assert_eq!(m.sound_timer(), 0);
}

#[test]
fn program_too_large_is_refused() {
    assert_eq!(
        Chip8::new(&vec![0u8; 3585]).err(),
        Some(Chip8Error::ProgramTooLarge { size: 3585 })
    );
    let m = Chip8::new(&vec![0xAB; 3584]).unwrap();
    assert_eq!(m.memory(0xFFF), Some(0xAB));
    assert_eq!(m.memory(0x1000), None);
}

#[test]
fn boot_loads_font_and_program() {
    let m = boot(&[0x12, 0x34]);
    assert_eq!(m.pc(), 0x200);
    let glyph: Vec<Option<u8>> = (0..5).map(|a| m.memory(a)).collect();
    assert_eq!(glyph, vec![Some(0xF0), Some(0x90), Some(0x90), Some(0x90), Some(0xF0)]);
    assert_eq!(m.memory(75), Some(0xF0));
    assert_eq!(m.memory(79), Some(0x80));
    assert_eq!(m.memory(80), Some(0));
    assert_eq!(m.memory(0x200), Some(0x12));
    assert_eq!(m.memory(0x201), Some(0x34));
    assert_eq!(m.memory(0x202), Some(0));
    assert!(!m.is_waiting());
}

#[test]
fn bcd_out_of_memory_is_refused() {
    let mut m = boot(&[0xAF, 0xFE, 0xF0, 0x33]);
    run(&mut m, 1);
    assert_eq!(m.tick_with_random(0), Err(Chip8Error::MemoryOutOfBounds { address: 4096 }));
    assert_eq!(m.pc(), 0x202);
}

#[test]
fn draw_past_memory_is_refused() {
    let mut m = boot(&[0xAF, 0xFF, 0xD0, 0x01, 0xD0, 0x02]);
    run(&mut m, 2);
    assert_eq!(m.tick_with_random(0), Err(Chip8Error::MemoryOutOfBounds { address: 4096 }));
}

#[test]
fn fetch_past_memory_is_refused() {
    let mut m = boot(&[0x1F, 0xFF]);
    run(&mut m, 1);
    assert_eq!(m.pc(), 0xFFF);
    assert_eq!(m.tick_with_random(0), Err(Chip8Error::MemoryOutOfBounds { address: 4096 }));
}

#[test]
fn bcd_stores_decimal_digits() {
    let mut m = boot(&[0x60, 0xFE, 0xA3, 0x00, 0xF0, 0x33]);
    run(&mut m, 3);
    assert_eq!(m.memory(0x300), Some(2));
    assert_eq!(m.memory(0x301), Some(5));
    assert_eq!(m.memory(0x302), Some(4));
}

#[test]
fn store_and_load_registers() {
    let mut m = boot(&[
        0x60, 0x11, 0x61, 0x22, 0x62, 0x33, 0xA3, 0x00, 0xF1, 0x55, 0x60, 0x00, 0x61, 0x00, 0xF1,
        0x65,
    ]);
    run(&mut m, 5);
    assert_eq!(m.memory(0x300), Some(0x11));
    assert_eq!(m.memory(0x301), Some(0x22));
    assert_eq!(m.memory(0x302), Some(0));
    run(&mut m, 3);
    assert_eq!(m.register(0), 0x11);
    assert_eq!(m.register(1), 0x22);
    assert_eq!(m.register(2), 0x33);
    assert_eq!(m.index(), 0x300);
}

#[test]
fn skips_on_equal_and_not_equal() {
    let mut m = boot(&[0x60, 0x05, 0x30, 0x05]);
    run(&mut m, 2);
    assert_eq!(m.pc(), 0x206);
    let mut m = boot(&[0x60, 0x05, 0x30, 0x06]);
    run(&mut m, 2);
    assert_eq!(m.pc(), 0x204);
    let mut m = boot(&[0x60, 0x05, 0x40, 0x06]);
    run(&mut m, 2);
    assert_eq!(m.pc(), 0x206);
    let mut m = boot(&[0x60, 0x05, 0x61, 0x05, 0x50, 0x10, 0x00, 0x00, 0x90, 0x10]);
    run(&mut m, 3);
    assert_eq!(m.pc(), 0x208);
    run(&mut m, 1);
    assert_eq!(m.pc(), 0x20A);
}

#[test]
fn jumps_set_pc_directly() {
    let mut m = boot(&[0x13, 0x45]);
    run(&mut m, 1);
    assert_eq!(m.pc(), 0x345);
    let mut m = boot(&[0x60, 0x04, 0xB3, 0x00]);
    run(&mut m, 2);
    assert_eq!(m.pc(), 0x304);
}

#[test]
fn index_register_operations() {
    let mut m = boot(&[0xA1, 0x23, 0x60, 0x10, 0xF0, 0x1E, 0x61, 0x07, 0xF1, 0x29]);
    run(&mut m, 3);
    assert_eq!(m.index(), 0x133);
    run(&mut m, 2);
    assert_eq!(m.index(), 35);
}

#[test]
fn key_skips() {
    let mut m = boot(&[0x61, 0x05, 0xE1, 0x9E, 0x00, 0x00, 0xE1, 0xA1]);
    m.set_key(5, true);
    run(&mut m, 2);
    assert_eq!(m.pc(), 0x206);
    run(&mut m, 1);
    assert_eq!(m.pc(), 0x208);
    let mut m = boot(&[0x61, 0x05, 0xE1, 0xA1]);
    run(&mut m, 2);
    assert_eq!(m.pc(), 0x206);
}

#[test]
fn wait_for_key_suspends_until_a_new_press() {
    let mut m = boot(&[0xF3, 0x0A]);
    m.set_key(2, true);
    run(&mut m, 1);
    assert!(m.is_waiting());
    assert_eq!(m.pc(), 0x200);
    // A key already held when the wait began is no new press.
    run(&mut m, 3);
    assert!(m.is_waiting());
    assert_eq!(m.pc(), 0x200);
    m.set_key(9, true);
    assert_eq!(m.tick_with_random(0), Ok(Command::Nothing));
    assert!(!m.is_waiting());
    assert_eq!(m.register(3), 9);
    assert_eq!(m.pc(), 0x202);
}

#[test]
fn random_byte_is_masked() {
    let mut m = boot(&[0xC0, 0x0F, 0xC1, 0x00]);
    m.tick_with_random(0xAB).unwrap();
    assert_eq!(m.register(0), 0x0B);
    m.tick().unwrap();
    assert_eq!(m.register(1), 0x00);
    assert_eq!(m.pc(), 0x204);
}

#[test]
fn decode_fields() {
    assert_eq!(decode(0x8014), Some(Instruction::AddReg { x: 0, y: 1 }));
    assert_eq!(decode(0xD7A5), Some(Instruction::Drw { x: 7, y: 0xA, n: 5 }));
    assert_eq!(decode(0x2ABC), Some(Instruction::Call { nnn: 0xABC }));
    assert_eq!(decode(0x5011), None);
    assert_eq!(decode(0x0123), None);
    assert_eq!(decode(0xFFFF), None);
}

#[test]
fn load_sprites_writes_font_and_keeps_the_rest() {
    let mut ram = vec![7u8; 100];
    Chip8::load_sprites(&mut ram);
    assert_eq!(ram.len(), 100);
    assert_eq!(&ram[0..5], &[0xF0, 0x90, 0x90, 0x90, 0xF0]);
    assert_eq!(&ram[25..30], &[0xF0, 0x80, 0xF0, 0x10, 0xF0]);
    assert!(ram[80..].iter().all(|b| *b == 7));
    for d in 0..16 {
        for e in (d + 1)..16 {
            assert_ne!(&ram[5 * d..5 * d + 5], &ram[5 * e..5 * e + 5]);
        }
    }
    let mut exact = vec![0u8; 80];
    Chip8::load_sprites(&mut exact);
    assert_eq!(exact[79], 0x80);
}
