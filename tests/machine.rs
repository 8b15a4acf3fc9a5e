use chip8::{delay_value_after, Chip8, Fault, Key, LoadError, Pixel, Timer};

fn machine(program: &[u8]) -> Chip8 {
    Chip8::initialize(program.to_vec()).unwrap()
}

fn run(c: &mut Chip8, cycles: usize) {
    for _ in 0..cycles {
        c.emulate_cycle().unwrap();
    }
}

#[test]
fn add_sets_carry_on_overflow() {
    let mut c = machine(&[0x60, 200, 0x61, 100, 0x80, 0x14]);
    run(&mut c, 3);
    assert_eq!(c.register(0), 44);
    assert_eq!(c.register(0xf), 1);
}

#[test]
fn add_clears_carry_without_overflow() {
    let mut c = machine(&[0x6f, 1, 0x60, 100, 0x61, 155, 0x80, 0x14]);
    run(&mut c, 4);
    assert_eq!(c.register(0), 255);
    assert_eq!(c.register(0xf), 0);
}

#[test]
fn subtract_borrow_clears_flag() {
    let mut c = machine(&[0x60, 5, 0x61, 10, 0x80, 0x15]);
    run(&mut c, 3);
    assert_eq!(c.register(0), 251);
    assert_eq!(c.register(0xf), 0);
}

#[test]
fn subtract_without_borrow_sets_flag() {
    let mut c = machine(&[0x60, 10, 0x61, 10, 0x80, 0x15]);
    run(&mut c, 3);
    assert_eq!(c.register(0), 0);
    assert_eq!(c.register(0xf), 1);
}

#[test]
fn delay_value_counts_down_to_zero() {
    assert_eq!(delay_value_after(60, 0), 60);
    assert_eq!(delay_value_after(60, 16), 60);
    assert_eq!(delay_value_after(60, 17), 59);
    assert_eq!(delay_value_after(60, 500), 30);
    assert_eq!(delay_value_after(60, 999), 1);
    assert_eq!(delay_value_after(60, 1000), 0);
    assert_eq!(delay_value_after(60, 100_000), 0);
    assert_eq!(delay_value_after(255, 5000), 0);
    let mut last = 60;
    for ms in 0..1200u128 {
        let now = delay_value_after(60, ms);
        assert!(now <= last);
        last = now;
    }
}

#[test]
fn timer_started_at_sixty_reads_at_most_sixty() {
    let mut t = Timer::initialize();
    assert_eq!(t.get_value(), 0);
    t.start(60);
    assert_eq!(t.start_value(), 60);
    let first = t.get_value();
    assert!(first <= 60);
    assert!(t.get_value() <= first);
}

#[test]
fn delay_timer_opcodes() {
    let mut c = machine(&[0x60, 60, 0xf0, 0x15, 0xf1, 0x07]);
    run(&mut c, 3);
    assert_eq!(c.delay_start(), 60);
    assert!(c.register(1) <= 60);
    assert!(c.delay_timer_value() <= 60);
    let mut d = machine(&[0xf3, 0x07]);
    assert_eq!(d.execute(0xf307, 0, 42), Ok(()));
    assert_eq!(d.register(3), 42);
}

#[test]
fn drawing_twice_restores_screen() {
    // I := glyph 0; draw it at (3, 4) twice.
    let mut c = machine(&[0x60, 0, 0xf0, 0x29, 0x61, 3, 0x62, 4, 0xd1, 0x25, 0xd1, 0x25]);
    run(&mut c, 5);
    assert_eq!(c.register(0xf), 0);
    assert_eq!(c.pixel(3, 4), Pixel::On);
    assert_eq!(c.pixel(4, 5), Pixel::Off);
    let first = c.take_draw_queue();
    assert_eq!(first.len(), 14);
    run(&mut c, 1);
    assert_eq!(c.register(0xf), 1);
    for x in 0..64 {
        for y in 0..32 {
            assert_eq!(c.pixel(x, y), Pixel::Off);
        }
    }
    let second = c.take_draw_queue();
    assert_eq!(second.len(), 14);
    assert_eq!(second[0], (3, 4, Pixel::Off));
}

#[test]
fn draw_reports_changes_in_order() {
    let mut c = machine(&[0x60, 1, 0xf0, 0x29, 0x61, 0, 0xd1, 0x11]);
    run(&mut c, 4);
    // First row of glyph 1 is 0x20: one pixel, at column 2.
    assert_eq!(c.take_draw_queue(), vec![(2, 0, Pixel::On)]);
    assert_eq!(c.take_draw_queue(), vec![]);
}

#[test]
fn draw_clips_at_screen_edge() {
    let mut c = machine(&[0x60, 0, 0xf0, 0x29, 0x61, 62, 0x62, 30, 0xd1, 0x25]);
    run(&mut c, 5);
    assert_eq!(c.pixel(62, 30), Pixel::On);
    assert_eq!(c.pixel(63, 30), Pixel::On);
    assert_eq!(c.pixel(62, 31), Pixel::On);
    assert_eq!(c.pixel(63, 31), Pixel::Off);
    assert_eq!(c.pixel(0, 30), Pixel::Off);
    assert_eq!(c.pixel(62, 0), Pixel::Off);
    assert_eq!(c.take_draw_queue().len(), 3);
}

#[test]
fn clear_screen_turns_every_pixel_off() {
    let mut c = machine(&[0x60, 8, 0xf0, 0x29, 0xd0, 0x05, 0x00, 0xe0]);
    run(&mut c, 3);
    assert!(!c.take_full_redraw());
    run(&mut c, 1);
    for x in 0..64 {
        for y in 0..32 {
            assert_eq!(c.pixel(x, y), Pixel::Off);
        }
    }
    assert!(c.take_full_redraw());
    assert!(!c.take_full_redraw());
    assert_eq!(c.take_draw_queue(), vec![]);
    assert_eq!(c.program_counter(), 0x208);
}

#[test]
fn bcd_of_157() {
    let mut c = machine(&[0x65, 157, 0xa3, 0x00, 0xf5, 0x33]);
    run(&mut c, 3);
    assert_eq!(c.memory_at(0x300), 1);
    assert_eq!(c.memory_at(0x301), 5);
    assert_eq!(c.memory_at(0x302), 7);
}

#[test]
fn bcd_does_not_overwrite_font() {
    let mut c = machine(&[0x65, 157, 0xa0, 0x4f, 0xf5, 0x33]);
    run(&mut c, 3);
    assert_eq!(c.memory_at(0x4f), 1);
    assert_eq!(c.memory_at(0x50), 0xf0);
    assert_eq!(c.memory_at(0x51), 0x90);
}

#[test]
fn font_glyph_a_scenario() {
    let mut c = machine(&[0x60, 0x0A, 0xF0, 0x29, 0xD0, 0x05]);
    assert_eq!(c.register(0), 0);
    run(&mut c, 1);
    assert_eq!(c.register(0), 0x0A);
    run(&mut c, 1);
    assert_eq!(c.index_register(), 0x50 + 10 * 5);
    // D005 names V0 for both coordinates, so the glyph lands at (10, 10).
    run(&mut c, 1);
    let glyph: [u8; 5] = [0xf0, 0x90, 0xf0, 0x90, 0x90];
    for (y, row) in glyph.iter().enumerate() {
        for x in 0..8 {
            let on = row & (0x80 >> x) != 0;
            let expected = if on { Pixel::On } else { Pixel::Off };
            assert_eq!(c.pixel(x + 10, y + 10), expected);
        }
    }
    assert_eq!(c.register(0xf), 0);
}

#[test]
fn empty_stack_return_is_fatal() {
    let mut c = machine(&[0x00, 0xee]);
    assert_eq!(c.emulate_cycle(), Err(Fault::StackUnderflow { pc: 0x200 }));
    assert_eq!(c.program_counter(), 0x200);
}

#[test]
fn call_and_return() {
    let mut c = machine(&[0x22, 0x04, 0x00, 0x00, 0x00, 0xee]);
    run(&mut c, 1);
    assert_eq!(c.program_counter(), 0x204);
    assert_eq!(c.stack_depth(), 1);
    run(&mut c, 1);
    assert_eq!(c.program_counter(), 0x202);
    assert_eq!(c.stack_depth(), 0);
}

#[test]
fn pressed_key_skips_and_is_consumed() {
    let mut c = machine(&[0x61, 0x05, 0xe1, 0x9e]);
    c.press_key(5);
    assert_eq!(c.key(5), Key::Down);
    run(&mut c, 2);
    assert_eq!(c.program_counter(), 0x206);
    assert_eq!(c.key(5), Key::Up);
}

#[test]
fn unpressed_key_does_not_skip() {
    let mut c = machine(&[0x61, 0x05, 0xe1, 0x9e]);
    run(&mut c, 2);
    assert_eq!(c.program_counter(), 0x204);
}

#[test]
fn skip_if_not_key() {
    let mut c = machine(&[0x61, 0x03, 0xe1, 0xa1]);
    run(&mut c, 2);
    assert_eq!(c.program_counter(), 0x206);
    let mut d = machine(&[0x61, 0x03, 0xe1, 0xa1]);
    d.press_key(3);
    run(&mut d, 2);
    assert_eq!(d.program_counter(), 0x204);
    assert_eq!(d.key(3), Key::Up);
    d.press_key(3);
    d.release_key(3);
    assert_eq!(d.key(3), Key::Up);
}

#[test]
fn unknown_instruction_is_fatal() {
    let mut c = machine(&[0x50, 0x10]);
    assert_eq!(
        c.emulate_cycle(),
        Err(Fault::UnknownInstruction { instr: 0x5010, pc: 0x200 })
    );
    assert_eq!(c.program_counter(), 0x200);
    let mut d = machine(&[0x01, 0x23]);
    assert_eq!(
        d.emulate_cycle(),
        Err(Fault::UnknownInstruction { instr: 0x0123, pc: 0x200 })
    );
    let mut e = machine(&[0x80, 0x17]);
    assert!(e.emulate_cycle().is_err());
}

#[test]
fn oversized_program_is_refused() {
    let big = vec![0u8; 3585];
    assert_eq!(
        Chip8::initialize(big).err(),
        Some(LoadError::ProgramTooLarge { len: 3585, max: 3584 })
    );
    let fits = vec![0xffu8; 3584];
    let c = Chip8::initialize(fits).unwrap();
    assert_eq!(c.memory_at(4095), 0xff);
    assert_eq!(c.memory_at(0x1ff), 0);
}

#[test]
fn initial_state() {
    let c = machine(&[0x12, 0x34]);
    assert_eq!(c.program_counter(), 0x200);
    assert_eq!(c.index_register(), 0);
    assert_eq!(c.memory_at(0x200), 0x12);
    assert_eq!(c.memory_at(0x201), 0x34);
    assert_eq!(c.memory_at(0x50), 0xf0);
    assert_eq!(c.memory_at(0x9f), 0x80);
    assert_eq!(c.memory_at(0xa0), 0);
    assert_eq!(c.stack_depth(), 0);
    assert_eq!(c.sound_timer(), 0);
    for r in 0..16 {
        assert_eq!(c.register(r), 0);
        assert_eq!(c.key(r), Key::Up);
    }
}

#[test]
fn jump_sets_pc() {
    let mut c = machine(&[0x13, 0x45]);
    run(&mut c, 1);
    assert_eq!(c.program_counter(), 0x345);
}

#[test]
fn skip_on_immediate_compare() {
    let mut c = machine(&[0x60, 7, 0x30, 7]);
    run(&mut c, 2);
    assert_eq!(c.program_counter(), 0x206);
    let mut d = machine(&[0x60, 7, 0x40, 7]);
    run(&mut d, 2);
    assert_eq!(d.program_counter(), 0x204);
    let mut e = machine(&[0x60, 7, 0x40, 8]);
    run(&mut e, 2);
    assert_eq!(e.program_counter(), 0x206);
}

#[test]
fn skip_on_register_compare() {
    let mut c = machine(&[0x60, 7, 0x61, 8, 0x90, 0x10]);
    run(&mut c, 3);
    assert_eq!(c.program_counter(), 0x208);
    let mut d = machine(&[0x60, 7, 0x61, 7, 0x90, 0x10]);
    run(&mut d, 3);
    assert_eq!(d.program_counter(), 0x206);
}

#[test]
fn add_immediate_wraps_without_flag() {
    let mut c = machine(&[0x6f, 9, 0x60, 250, 0x70, 10]);
    run(&mut c, 3);
    assert_eq!(c.register(0), 4);
    assert_eq!(c.register(0xf), 9);
}

#[test]
fn copy_and_and() {
    let mut c = machine(&[0x60, 0b1100, 0x61, 0b1010, 0x82, 0x10, 0x80, 0x12]);
    run(&mut c, 4);
    assert_eq!(c.register(2), 0b1010);
    assert_eq!(c.register(0), 0b1000);
}

#[test]
fn shift_right_keeps_low_bit_in_flag() {
    let mut c = machine(&[0x60, 0b101, 0x80, 0x06]);
    run(&mut c, 2);
    assert_eq!(c.register(0), 0b10);
    assert_eq!(c.register(0xf), 1);
    let mut d = machine(&[0x60, 0b100, 0x80, 0x06]);
    run(&mut d, 2);
    assert_eq!(d.register(0), 0b10);
    assert_eq!(d.register(0xf), 0);
}

#[test]
fn add_to_index_wraps_with_flag() {
    let mut c = machine(&[0xaf, 0xff, 0x60, 2, 0xf0, 0x1e]);
    run(&mut c, 3);
    assert_eq!(c.index_register(), 1);
    assert_eq!(c.register(0xf), 1);
    let mut d = machine(&[0xa1, 0x00, 0x60, 2, 0xf0, 0x1e]);
    run(&mut d, 3);
    assert_eq!(d.index_register(), 0x102);
    assert_eq!(d.register(0xf), 0);
}

#[test]
fn sound_timer_is_set() {
    let mut c = machine(&[0x64, 33, 0xf4, 0x18]);
    run(&mut c, 2);
    assert_eq!(c.sound_timer(), 33);
}

#[test]
fn load_registers_from_memory() {
    let mut c = machine(&[0x63, 99, 0xa2, 0x06, 0xf2, 0x65, 7, 8, 9, 10]);
    run(&mut c, 3);
    assert_eq!(c.register(0), 7);
    assert_eq!(c.register(1), 8);
    assert_eq!(c.register(2), 9);
    assert_eq!(c.register(3), 99);
}

#[test]
fn random_is_masked() {
    let mut c = machine(&[0xc0, 0x0f, 0xc1, 0x00, 0xc2, 0xff]);
    run(&mut c, 3);
    assert!(c.register(0) <= 0x0f);
    assert_eq!(c.register(1), 0);
    assert!(c.register(2) < 255);
    let mut d = machine(&[0xc0, 0xf0]);
    assert_eq!(d.execute(0xc0f0, 0xab, 0), Ok(()));
    assert_eq!(d.register(0), 0xa0);
}

#[test]
fn pixel_flip() {
    assert_eq!(Pixel::On.flip(), Pixel::Off);
    assert_eq!(Pixel::Off.flip(), Pixel::On);
}
