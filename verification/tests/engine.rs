use chip8::{Chip, Fault, LoadError, Operation};

#[test]
fn draw_sets_pixels_and_reports_collision() {
    let mut c = Chip::new();
    c.memory[0x300] = 0xFF;
    c.execute_operation(Operation::SetIndexRegister(0x300));
    // Registers 0 and 1 are zero: the sprite lands at (0, 0).
    c.execute_operation(Operation::Draw(0, 1, 1));
    for x in 0..8 {
        assert!(c.pixel(x, 0));
    }
    assert!(!c.pixel(8, 0));
    assert_eq!(c.get_flag(), 0);
    // Drawing the same sprite again erases it and reports the collision.
    c.execute_operation(Operation::Draw(0, 1, 1));
    for x in 0..8 {
        assert!(!c.pixel(x, 0));
    }
    assert!(c.framebuffer.iter().all(|p| !p));
    assert_eq!(c.get_flag(), 1);
}

#[test]
fn draw_wraps_around_screen_edges() {
    let mut c = Chip::new();
    c.memory[0x300] = 0b1100_0000;
    c.memory[0x301] = 0b1100_0000;
    c.execute_operation(Operation::SetIndexRegister(0x300));
    c.execute_operation(Operation::SetRegister(0, 63));
    c.execute_operation(Operation::SetRegister(1, 31));
    c.execute_operation(Operation::Draw(0, 1, 2));
    assert!(c.pixel(63, 31));
    assert!(c.pixel(0, 31));
    assert!(c.pixel(63, 0));
    assert!(c.pixel(0, 0));
    assert_eq!(c.get_flag(), 0);
}

#[test]
fn draw_position_is_taken_modulo_screen_size() {
    let mut c = Chip::new();
    c.memory[0x300] = 0b1000_0000;
    c.execute_operation(Operation::SetIndexRegister(0x300));
    c.execute_operation(Operation::SetRegister(0, 70));
    c.execute_operation(Operation::SetRegister(1, 33));
    c.execute_operation(Operation::Draw(0, 1, 1));
    assert!(c.pixel(6, 1));
    assert_eq!(c.get_flag(), 0);
}

#[test]
fn tick_fetches_big_endian_and_executes() {
    let mut c = Chip::new();
    c.memory[0x200] = 0x12;
    c.memory[0x201] = 0x34;
    c.running = true;
    assert_eq!(c.fetch_opcode(), 0x1234);
    c.tick();
    assert_eq!(c.program_counter, 0x234);
    assert!(c.running);
}

#[test]
fn unknown_opcode_advances_without_halting() {
    let mut c = Chip::new();
    let rom = vec![0xFF, 0xFF];
    assert_eq!(c.load_rom(&rom), Ok(()));
    c.running = true;
    c.tick();
    assert!(c.running);
    assert_eq!(c.fault, None);
    assert_eq!(c.program_counter, 0x202);
}

#[test]
fn program_counter_out_of_bounds_halts() {
    let mut c = Chip::new();
    c.running = true;
    c.program_counter = 4095;
    c.tick();
    assert!(!c.running);
    assert_eq!(c.fault, Some(Fault::ProgramCounterOutOfBounds));
}

#[test]
fn load_rom_copies_bytes_at_load_offset() {
    let mut c = Chip::new();
    let rom = vec![0xAA, 0xBB, 0xCC];
    assert_eq!(c.load_rom(&rom), Ok(()));
    assert_eq!(c.memory[0x200], 0xAA);
    assert_eq!(c.memory[0x201], 0xBB);
    assert_eq!(c.memory[0x202], 0xCC);
    assert_eq!(c.memory[0x203], 0x00);
    assert_eq!(c.memory[0x1FF], 0x00);
}

#[test]
fn load_rom_accepts_exactly_full_memory() {
    let mut c = Chip::new();
    let rom = vec![0x5A; 4096 - 0x200];
    assert_eq!(c.load_rom(&rom), Ok(()));
    assert_eq!(c.memory[0x200], 0x5A);
    assert_eq!(c.memory[4095], 0x5A);
}

#[test]
fn load_rom_rejects_oversized_rom() {
    let mut c = Chip::new();
    let rom = vec![0x5A; 4096 - 0x200 + 1];
    assert_eq!(c.load_rom(&rom), Err(LoadError::RomTooLarge));
    // Nothing was written: the machine never holds a partial program.
    assert_eq!(c.memory[0x200], 0x00);
    assert!(!c.running);
}

#[test]
fn run_rom_walks_zeroed_memory_and_halts_at_the_end() {
    let mut c = Chip::new();
    let rom = vec![0xFF, 0xFF];
    assert_eq!(c.run_rom(&rom, 10_000), Ok(()));
    assert!(!c.running);
    assert_eq!(c.fault, Some(Fault::ProgramCounterOutOfBounds));
}

#[test]
fn run_rom_honors_the_cycle_budget() {
    let mut c = Chip::new();
    // A two-instruction loop: jump to an unknown word, which advances back.
    let rom = vec![0x12, 0x00];
    assert_eq!(c.run_rom(&rom, 7), Ok(()));
    // Still running: the jump-to-self never halts, the budget stops it.
    assert!(c.running);
    assert_eq!(c.program_counter, 0x200);
    assert_eq!(c.fault, None);
}

#[test]
fn run_rom_rejects_oversized_rom_untouched() {
    let mut c = Chip::new();
    let rom = vec![0x00; 4096];
    assert_eq!(c.run_rom(&rom, 100), Err(LoadError::RomTooLarge));
    assert!(!c.running);
    assert_eq!(c.program_counter, 0x200);
}

#[test]
fn reset_rezeroes_and_reloads_the_rom() {
    let mut c = Chip::new();
    let rom = vec![0x60, 0x42, 0xFF, 0xFF];
    assert_eq!(c.load_rom(&rom), Ok(()));
    c.running = true;
    c.tick();
    assert_eq!(c.registers[0], 0x42);
    c.memory[0x200] = 0x00;
    c.framebuffer[5] = true;
    c.index_register = 9;
    c.delay_timer = 3;
    c.reset();
    assert!(c.running);
    assert_eq!(c.fault, None);
    assert!(c.registers.iter().all(|r| *r == 0));
    assert_eq!(c.index_register, 0);
    assert_eq!(c.program_counter, 0x200);
    assert!(c.stack.is_empty());
    assert_eq!(c.memory[0x200], 0x60);
    assert_eq!(c.memory[0x201], 0x42);
    assert!(c.framebuffer.iter().all(|p| !p));
    assert_eq!(c.delay_timer, 0);
    assert_eq!(c.sound_timer, 0);
}

#[test]
fn new_machine_is_zeroed_and_stopped() {
    let c = Chip::new();
    assert!(!c.running);
    assert_eq!(c.fault, None);
    assert_eq!(c.program_counter, 0x200);
    assert_eq!(c.index_register, 0);
    assert!(c.stack.is_empty());
    assert_eq!(c.registers.len(), 16);
    assert!(c.registers.iter().all(|r| *r == 0));
    assert_eq!(c.memory.len(), 4096);
    assert!(c.memory.iter().all(|b| *b == 0));
    assert_eq!(c.framebuffer.len(), 2048);
    assert!(c.framebuffer.iter().all(|p| !p));
    assert_eq!(c.keys.len(), 16);
    assert_eq!(c.delay_timer, 0);
    assert_eq!(c.sound_timer, 0);
}

#[test]
fn flag_register_is_register_fifteen() {
    let mut c = Chip::new();
    c.set_flag(9);
    assert_eq!(c.registers[15], 9);
    c.execute_operation(Operation::SetRegister(15, 3));
    assert_eq!(c.get_flag(), 3);
}

#[test]
fn next_instruction_steps_by_two() {
    let mut c = Chip::new();
    c.next_instruction();
    assert_eq!(c.program_counter, 0x202);
}
