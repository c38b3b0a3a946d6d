use chip8::{Chip8Error, Instruction, TickStatus, CPU, STACK_DEPTH};

fn write_words(cpu: &mut CPU, addr: u16, words: &[u16]) {
    for (i, w) in words.iter().enumerate() {
        let a = addr + 2 * i as u16;
        cpu.memory.write(a, (w >> 8) as u8).unwrap();
        cpu.memory.write(a + 1, (w & 0xFF) as u8).unwrap();
    }
}

#[test]
fn add_to_register() {
    let mut cpu = CPU::new();

    cpu.registers[1] = 1;

    cpu.memory.write(0x600, 0x70).unwrap();
    cpu.memory.write(0x601, 0x69).unwrap();

    cpu.memory.write(0x602, 0x71).unwrap();
    cpu.memory.write(0x603, 0xC0).unwrap();

    cpu.tick().unwrap();
    cpu.tick().unwrap();

    assert_eq!(cpu.registers[0], 0x69);
    assert_eq!(cpu.registers[1], 0xC1);
}

#[test]
fn set_to_register() {
    let mut cpu = CPU::new();

    cpu.registers[1] = 1;

    cpu.memory.write(0x600, 0x60).unwrap();
    cpu.memory.write(0x601, 0x69).unwrap();

    cpu.memory.write(0x602, 0x61).unwrap();
    cpu.memory.write(0x603, 0xC0).unwrap();

    cpu.tick().unwrap();
    cpu.tick().unwrap();

    assert_eq!(cpu.registers[0], 0x69);
    assert_eq!(cpu.registers[1], 0xC0);
}

#[test]
fn jump_instruction() {
    let mut cpu = CPU::new();
    // jump to 0xC0D
    cpu.memory.write(0x600, 0x1C).unwrap();
    cpu.memory.write(0x601, 0x0D).unwrap();

    // and from there back to 0x600
    cpu.memory.write(0xC0D, 0x16).unwrap();
    cpu.memory.write(0xC0E, 0x00).unwrap();

    cpu.tick().unwrap();
    assert_eq!(cpu.pc, 0x0C0D);
    cpu.tick().unwrap();
    assert_eq!(cpu.pc, 0x0600);
}

#[test]
fn alu_instructions() {
    let mut cpu = CPU::new();
    cpu.load_register_file([1; 16]);

    // ADD and SUB
    cpu.memory.write(0x600, 0x80).unwrap();
    cpu.memory.write(0x601, 0x14).unwrap();
    cpu.memory.write(0x602, 0x82).unwrap();
    cpu.memory.write(0x603, 0x35).unwrap();

    // OR and AND
    cpu.memory.write(0x604, 0x80).unwrap();
    cpu.memory.write(0x605, 0x11).unwrap();
    cpu.memory.write(0x606, 0x82).unwrap();
    cpu.memory.write(0x607, 0x32).unwrap();

    cpu.tick().unwrap();
    cpu.tick().unwrap();

    let reg0 = cpu.registers[0];
    let reg2 = cpu.registers[2];

    assert_eq!(reg0, 2); // ADD
    assert_eq!(reg2, 0); // SUB

    cpu.load_register_file([1; 16]);
    cpu.registers[1] = 2;
    cpu.registers[2] = 2;
    cpu.registers[3] = 4;

    cpu.tick().unwrap();
    cpu.tick().unwrap();

    let reg2 = cpu.registers[2];
    let reg0 = cpu.registers[0];
    assert_eq!(reg2, 2 & 4);
    assert_eq!(reg0, 3)
}

#[test]
fn add_immediate_wraps() {
    let mut cpu = CPU::new();
    cpu.registers[4] = 0xFF;
    write_words(&mut cpu, 0x600, &[0x7401]);
    assert_eq!(cpu.tick(), Ok(TickStatus::Executed));
    assert_eq!(cpu.registers[4], 0x00);
    assert_eq!(cpu.registers[15], 0);
    assert_eq!(cpu.pc, 0x602);
}

#[test]
fn add_registers_sets_carry() {
    let mut cpu = CPU::new();
    cpu.registers[0] = 0x80;
    cpu.registers[1] = 0x80;
    write_words(&mut cpu, 0x600, &[0x8014]);
    cpu.tick().unwrap();
    assert_eq!(cpu.registers[0], 0x00);
    assert_eq!(cpu.registers[15], 1);
}

#[test]
fn subtract_registers_borrow_clears_flag() {
    let mut cpu = CPU::new();
    cpu.registers[0] = 0x05;
    cpu.registers[1] = 0x0A;
    cpu.registers[15] = 7;
    write_words(&mut cpu, 0x600, &[0x8015]);
    cpu.tick().unwrap();
    assert_eq!(cpu.registers[0], 0xFB);
    assert_eq!(cpu.registers[15], 0);
}

#[test]
fn subtract_equal_registers_sets_flag() {
    let mut cpu = CPU::new();
    cpu.registers[0] = 9;
    cpu.registers[1] = 9;
    write_words(&mut cpu, 0x600, &[0x8015]);
    cpu.tick().unwrap();
    assert_eq!(cpu.registers[0], 0);
    assert_eq!(cpu.registers[15], 1);
}

#[test]
fn reverse_subtract_wraps() {
    let mut cpu = CPU::new();
    cpu.registers[2] = 0x10;
    cpu.registers[3] = 0x01;
    write_words(&mut cpu, 0x600, &[0x8237]);
    cpu.tick().unwrap();
    assert_eq!(cpu.registers[2], 0xF1);
    assert_eq!(cpu.registers[15], 0);
}

#[test]
fn shifts_take_source_register() {
    let mut cpu = CPU::new();
    cpu.registers[1] = 0x81;
    write_words(&mut cpu, 0x600, &[0x8016, 0x821E]);
    cpu.tick().unwrap();
    assert_eq!(cpu.registers[0], 0x40);
    assert_eq!(cpu.registers[15], 1);
    cpu.tick().unwrap();
    assert_eq!(cpu.registers[2], 0x02);
    assert_eq!(cpu.registers[15], 1);
}

#[test]
fn xor_and_move() {
    let mut cpu = CPU::new();
    cpu.registers[0] = 0b1100;
    cpu.registers[1] = 0b1010;
    write_words(&mut cpu, 0x600, &[0x8013, 0x8500]);
    cpu.tick().unwrap();
    cpu.tick().unwrap();
    assert_eq!(cpu.registers[0], 0b0110);
    assert_eq!(cpu.registers[5], 0b0110);
}

#[test]
fn jump_sets_pc_exactly() {
    let mut cpu = CPU::new();
    write_words(&mut cpu, 0x600, &[0x1ABC]);
    cpu.tick().unwrap();
    assert_eq!(cpu.pc, 0x0ABC);
}

#[test]
fn jump_with_offset() {
    let mut cpu = CPU::new();
    cpu.registers[0] = 0x10;
    write_words(&mut cpu, 0x600, &[0xB300]);
    cpu.tick().unwrap();
    assert_eq!(cpu.pc, 0x310);
}

#[test]
fn call_then_return() {
    let mut cpu = CPU::new();
    write_words(&mut cpu, 0x600, &[0x2700]);
    write_words(&mut cpu, 0x700, &[0x00EE]);
    cpu.tick().unwrap();
    assert_eq!(cpu.pc, 0x700);
    assert_eq!(cpu.stack_depth(), 1);
    cpu.tick().unwrap();
    assert_eq!(cpu.pc, 0x602);
    assert_eq!(cpu.stack_depth(), 0);
}

#[test]
fn return_on_empty_stack_underflows() {
    let mut cpu = CPU::new();
    write_words(&mut cpu, 0x600, &[0x00EE]);
    assert_eq!(cpu.tick(), Err(Chip8Error::StackUnderflow));
    assert_eq!(cpu.pc, 0x600);
}

#[test]
fn deep_calls_overflow() {
    let mut cpu = CPU::new();
    // a subroutine at 0x600 that calls itself
    write_words(&mut cpu, 0x600, &[0x2600]);
    for _ in 0..STACK_DEPTH {
        assert_eq!(cpu.tick(), Ok(TickStatus::Executed));
    }
    assert_eq!(cpu.stack_depth(), STACK_DEPTH);
    assert_eq!(cpu.tick(), Err(Chip8Error::StackOverflow));
    assert_eq!(cpu.stack_depth(), STACK_DEPTH);
}

#[test]
fn skips_advance_by_two_or_four() {
    let mut cpu = CPU::new();
    cpu.registers[3] = 0x42;
    write_words(&mut cpu, 0x600, &[0x3342]);
    cpu.tick().unwrap();
    assert_eq!(cpu.pc, 0x604);

    let mut cpu = CPU::new();
    cpu.registers[3] = 0x42;
    write_words(&mut cpu, 0x600, &[0x3343]);
    cpu.tick().unwrap();
    assert_eq!(cpu.pc, 0x602);

    let mut cpu = CPU::new();
    cpu.registers[3] = 0x42;
    write_words(&mut cpu, 0x600, &[0x4343]);
    cpu.tick().unwrap();
    assert_eq!(cpu.pc, 0x604);

    let mut cpu = CPU::new();
    cpu.registers[1] = 5;
    cpu.registers[2] = 5;
    write_words(&mut cpu, 0x600, &[0x5120, 0x0000, 0x9120]);
    cpu.tick().unwrap();
    assert_eq!(cpu.pc, 0x604);
    cpu.tick().unwrap();
    assert_eq!(cpu.pc, 0x606);
}

#[test]
fn key_skips_follow_key_state() {
    let mut cpu = CPU::new();
    cpu.registers[0] = 0xA;
    cpu.set_key(0xA, true);
    write_words(&mut cpu, 0x600, &[0xE09E]);
    cpu.tick().unwrap();
    assert_eq!(cpu.pc, 0x604);

    let mut cpu = CPU::new();
    cpu.registers[0] = 0xA;
    write_words(&mut cpu, 0x600, &[0xE0A1]);
    cpu.tick().unwrap();
    assert_eq!(cpu.pc, 0x604);
}

#[test]
fn wait_for_key_suspends_until_press() {
    let mut cpu = CPU::new();
    write_words(&mut cpu, 0x600, &[0xF30A]);
    assert_eq!(cpu.tick(), Ok(TickStatus::AwaitingKey));
    assert_eq!(cpu.awaiting_key(), Some(3));
    assert_eq!(cpu.tick(), Ok(TickStatus::AwaitingKey));
    assert_eq!(cpu.pc, 0x600);
    cpu.set_key(7, true);
    assert_eq!(cpu.awaiting_key(), None);
    assert_eq!(cpu.registers[3], 7);
    assert_eq!(cpu.pc, 0x602);
}

#[test]
fn timers_count_down_to_zero() {
    let mut cpu = CPU::new();
    cpu.registers[0] = 2;
    write_words(&mut cpu, 0x600, &[0xF015, 0xF018, 0xF107]);
    cpu.tick().unwrap();
    cpu.tick().unwrap();
    assert_eq!(cpu.delay_timer(), 2);
    assert_eq!(cpu.sound_timer(), 2);
    cpu.decrement_timers();
    cpu.tick().unwrap();
    assert_eq!(cpu.registers[1], 1);
    cpu.decrement_timers();
    cpu.decrement_timers();
    assert_eq!(cpu.delay_timer(), 0);
    assert_eq!(cpu.sound_timer(), 0);
}

#[test]
fn index_instructions() {
    let mut cpu = CPU::new();
    cpu.registers[2] = 0x0C;
    cpu.registers[3] = 0x1B;
    write_words(&mut cpu, 0x600, &[0xA123, 0xF21E, 0xF329]);
    cpu.tick().unwrap();
    assert_eq!(cpu.index(), 0x123);
    cpu.tick().unwrap();
    assert_eq!(cpu.index(), 0x12F);
    cpu.tick().unwrap();
    assert_eq!(cpu.index(), 5 * 0xB);
}

#[test]
fn bcd_stores_decimal_digits() {
    let mut cpu = CPU::new();
    cpu.registers[4] = 123;
    write_words(&mut cpu, 0x600, &[0xA300, 0xF433]);
    cpu.tick().unwrap();
    cpu.tick().unwrap();
    assert_eq!(cpu.memory.read(0x300), Ok(1));
    assert_eq!(cpu.memory.read(0x301), Ok(2));
    assert_eq!(cpu.memory.read(0x302), Ok(3));
}

#[test]
fn bcd_past_end_of_memory_fails() {
    let mut cpu = CPU::new();
    write_words(&mut cpu, 0x600, &[0xAFFE, 0xF033]);
    cpu.tick().unwrap();
    assert_eq!(cpu.tick(), Err(Chip8Error::OutOfBoundsAccess));
    assert_eq!(cpu.pc, 0x602);
}

#[test]
fn store_and_load_registers() {
    let mut cpu = CPU::new();
    cpu.load_register_file([10, 11, 12, 13, 14, 15, 16, 17, 18, 19, 20, 21, 22, 23, 24, 25]);
    write_words(&mut cpu, 0x600, &[0xA400, 0xF255]);
    cpu.tick().unwrap();
    cpu.tick().unwrap();
    assert_eq!(cpu.memory.read(0x400), Ok(10));
    assert_eq!(cpu.memory.read(0x402), Ok(12));
    assert_eq!(cpu.memory.read(0x403), Ok(0));
    assert_eq!(cpu.index(), 0x400);

    cpu.load_register_file([0; 16]);
    write_words(&mut cpu, 0x604, &[0xF165]);
    cpu.tick().unwrap();
    assert_eq!(cpu.registers[0], 10);
    assert_eq!(cpu.registers[1], 11);
    assert_eq!(cpu.registers[2], 0);
}

#[test]
fn random_with_zero_mask_is_zero() {
    let mut cpu = CPU::new();
    cpu.registers[6] = 0xFF;
    write_words(&mut cpu, 0x600, &[0xC600, 0xC70F]);
    cpu.tick().unwrap();
    assert_eq!(cpu.registers[6], 0);
    cpu.tick().unwrap();
    assert!(cpu.registers[7] <= 0x0F);
}

#[test]
fn random_with_given_byte() {
    let mut cpu = CPU::new();
    write_words(&mut cpu, 0x600, &[0xC53C]);
    cpu.tick_with_random(0xAB).unwrap();
    assert_eq!(cpu.registers[5], 0xAB & 0x3C);
}

#[test]
fn unknown_instruction_is_skipped() {
    let mut cpu = CPU::new();
    write_words(&mut cpu, 0x600, &[0xFFFF]);
    assert_eq!(cpu.tick(), Ok(TickStatus::UnknownInstruction(0xFFFF)));
    assert_eq!(cpu.pc, 0x602);
}

#[test]
fn fetch_past_end_of_memory_fails() {
    let mut cpu = CPU::new();
    cpu.pc = 0xFFF;
    assert_eq!(cpu.tick(), Err(Chip8Error::OutOfBoundsAccess));
    cpu.pc = 0x1000;
    assert_eq!(cpu.tick(), Err(Chip8Error::OutOfBoundsAccess));
}

#[test]
fn draw_twice_restores_screen_and_flags_collision() {
    let mut cpu = CPU::new();
    cpu.memory.write(0x300, 0b1111_0000).unwrap();
    cpu.memory.write(0x301, 0b1001_0000).unwrap();
    cpu.registers[0] = 62;
    cpu.registers[1] = 31;
    write_words(&mut cpu, 0x600, &[0xA300, 0xD012, 0xD012]);
    cpu.tick().unwrap();
    cpu.tick().unwrap();
    assert_eq!(cpu.registers[15], 0);
    let screen = cpu.display().get_display();
    // row 31: columns 62, 63, then wrapped 0, 1
    assert_eq!(screen[31 * 64 + 62], 1);
    assert_eq!(screen[31 * 64 + 63], 1);
    assert_eq!(screen[31 * 64], 1);
    assert_eq!(screen[31 * 64 + 1], 1);
    assert_eq!(screen[31 * 64 + 2], 0);
    // row 0 (wrapped): columns 62 and 1
    assert_eq!(screen[62], 1);
    assert_eq!(screen[63], 0);
    assert_eq!(screen[1], 1);
    assert_eq!(screen.iter().filter(|&&p| p == 1).count(), 6);

    cpu.tick().unwrap();
    assert_eq!(cpu.registers[15], 1);
    assert!(cpu.display().get_display().iter().all(|&p| p == 0));
}

#[test]
fn clear_screen_instruction() {
    let mut cpu = CPU::new();
    cpu.memory.write(0x300, 0xFF).unwrap();
    write_words(&mut cpu, 0x600, &[0xA300, 0xD001, 0x00E0]);
    cpu.tick().unwrap();
    cpu.tick().unwrap();
    assert!(cpu.display().get_display().iter().any(|&p| p == 1));
    cpu.tick().unwrap();
    assert!(cpu.display().get_display().iter().all(|&p| p == 0));
    assert_eq!(cpu.pc, 0x606);
}

#[test]
fn load_program_at_origin_then_run() {
    let mut cpu = CPU::new();
    cpu.registers[1] = 0x50;
    cpu.memory.load(&[0x60, 0x69, 0x71, 0xC0], 0x600).unwrap();
    cpu.tick().unwrap();
    cpu.tick().unwrap();
    assert_eq!(cpu.registers[0], 0x69);
    assert_eq!(cpu.registers[1], 0x10);
}

#[test]
fn execute_decoded_instruction() {
    let mut cpu = CPU::new();
    assert_eq!(cpu.execute(Instruction::SetImm(2, 9), 0), Ok(TickStatus::Executed));
    assert_eq!(cpu.registers[2], 9);
    assert_eq!(cpu.pc, 0x602);
}
