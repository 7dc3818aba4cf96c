use chip8::{Chip, Fault, Operation};

#[test]
fn set_and_add_register() {
    let mut c = Chip::new();
    c.execute_operation(Operation::SetRegister(3, 0x42));
    assert_eq!(c.registers[3], 0x42);
    assert_eq!(c.program_counter, 0x202);
    c.execute_operation(Operation::AddRegister(3, 0x10));
    assert_eq!(c.registers[3], 0x52);
    // The plain add wraps without touching the flag.
    c.execute_operation(Operation::AddRegister(3, 0xFF));
    assert_eq!(c.registers[3], 0x51);
    assert_eq!(c.get_flag(), 0);
}

#[test]
fn add_with_carry_overflow() {
    let mut c = Chip::new();
    c.execute_operation(Operation::SetRegister(0, 250));
    c.execute_operation(Operation::SetRegister(1, 10));
    c.execute_operation(Operation::AddRegisterWithCarry(0, 1));
    assert_eq!(c.registers[0], 4);
    assert_eq!(c.get_flag(), 1);
}

#[test]
fn add_with_carry_no_overflow() {
    let mut c = Chip::new();
    c.execute_operation(Operation::SetRegister(0, 1));
    c.execute_operation(Operation::SetRegister(1, 1));
    c.execute_operation(Operation::AddRegisterWithCarry(0, 1));
    assert_eq!(c.registers[0], 2);
    assert_eq!(c.get_flag(), 0);
}

#[test]
fn copy_or_and_xor() {
    let mut c = Chip::new();
    c.execute_operation(Operation::SetRegister(0, 0b1100));
    c.execute_operation(Operation::SetRegister(1, 0b1010));
    c.execute_operation(Operation::CopyRegister(2, 0));
    assert_eq!(c.registers[2], 0b1100);
    c.execute_operation(Operation::OrRegister(2, 1));
    assert_eq!(c.registers[2], 0b1110);
    c.execute_operation(Operation::AndRegister(2, 0));
    assert_eq!(c.registers[2], 0b1100);
    c.execute_operation(Operation::XorRegister(2, 1));
    assert_eq!(c.registers[2], 0b0110);
}

#[test]
fn subtract_with_borrow() {
    let mut c = Chip::new();
    c.execute_operation(Operation::SetRegister(0, 10));
    c.execute_operation(Operation::SetRegister(1, 5));
    c.execute_operation(Operation::SubtractRegister(0, 1));
    assert_eq!(c.registers[0], 5);
    assert_eq!(c.get_flag(), 1);
    c.execute_operation(Operation::SetRegister(0, 5));
    c.execute_operation(Operation::SetRegister(1, 10));
    c.execute_operation(Operation::SubtractRegister(0, 1));
    assert_eq!(c.registers[0], 251);
    assert_eq!(c.get_flag(), 0);
}

#[test]
fn subtract_reversed() {
    let mut c = Chip::new();
    c.execute_operation(Operation::SetRegister(0, 5));
    c.execute_operation(Operation::SetRegister(1, 10));
    c.execute_operation(Operation::SubtractRegisterReversed(0, 1));
    assert_eq!(c.registers[0], 5);
    assert_eq!(c.get_flag(), 1);
    c.execute_operation(Operation::SetRegister(0, 10));
    c.execute_operation(Operation::SetRegister(1, 5));
    c.execute_operation(Operation::SubtractRegisterReversed(0, 1));
    assert_eq!(c.registers[0], 251);
    assert_eq!(c.get_flag(), 0);
}

#[test]
fn shifts() {
    let mut c = Chip::new();
    c.execute_operation(Operation::SetRegister(0, 0b1011));
    c.execute_operation(Operation::ShiftRight(0));
    assert_eq!(c.registers[0], 0b101);
    assert_eq!(c.get_flag(), 1);
    c.execute_operation(Operation::SetRegister(0, 0b1000_0001));
    c.execute_operation(Operation::ShiftLeft(0));
    assert_eq!(c.registers[0], 0b10);
    assert_eq!(c.get_flag(), 1);
    c.execute_operation(Operation::SetRegister(0, 0b0100_0000));
    c.execute_operation(Operation::ShiftLeft(0));
    assert_eq!(c.registers[0], 0b1000_0000);
    assert_eq!(c.get_flag(), 0);
}

#[test]
fn skips() {
    let mut c = Chip::new();
    c.execute_operation(Operation::SetRegister(0, 7));
    let pc = c.program_counter;
    c.execute_operation(Operation::SkipIfEqual(0, 7));
    assert_eq!(c.program_counter, pc + 4);
    let pc = c.program_counter;
    c.execute_operation(Operation::SkipIfEqual(0, 8));
    assert_eq!(c.program_counter, pc + 2);
    let pc = c.program_counter;
    c.execute_operation(Operation::SkipIfNotEqual(0, 8));
    assert_eq!(c.program_counter, pc + 4);
    c.execute_operation(Operation::SetRegister(1, 7));
    let pc = c.program_counter;
    c.execute_operation(Operation::SkipIfRegistersEqual(0, 1));
    assert_eq!(c.program_counter, pc + 4);
    let pc = c.program_counter;
    c.execute_operation(Operation::SkipIfRegistersNotEqual(0, 1));
    assert_eq!(c.program_counter, pc + 2);
}

#[test]
fn jump_and_jump_with_offset() {
    let mut c = Chip::new();
    c.execute_operation(Operation::Jump(0x400));
    assert_eq!(c.program_counter, 0x400);
    c.execute_operation(Operation::SetRegister(0, 4));
    c.execute_operation(Operation::JumpWithOffset(0x300));
    assert_eq!(c.program_counter, 0x304);
}

#[test]
fn call_then_return_restores_pc_and_stack() {
    let mut c = Chip::new();
    assert_eq!(c.program_counter, 0x200);
    c.execute_operation(Operation::CallSubroutine(0x400));
    assert_eq!(c.program_counter, 0x400);
    assert_eq!(c.stack, vec![0x202]);
    c.execute_operation(Operation::ReturnFromSubroutine);
    assert_eq!(c.program_counter, 0x202);
    assert!(c.stack.is_empty());
    assert!(c.running == false || c.fault.is_none());
}

#[test]
fn seventeen_nested_calls_overflow_the_stack() {
    let mut c = Chip::new();
    c.running = true;
    for _ in 0..16 {
        c.execute_operation(Operation::CallSubroutine(0x300));
    }
    assert!(c.running);
    assert_eq!(c.stack.len(), 16);
    c.execute_operation(Operation::CallSubroutine(0x300));
    assert!(!c.running);
    assert_eq!(c.fault, Some(Fault::StackOverflow));
    assert_eq!(c.stack.len(), 16);
}

#[test]
fn return_on_empty_stack_underflows() {
    let mut c = Chip::new();
    c.running = true;
    c.execute_operation(Operation::ReturnFromSubroutine);
    assert!(!c.running);
    assert_eq!(c.fault, Some(Fault::StackUnderflow));
}

#[test]
fn index_register_operations() {
    let mut c = Chip::new();
    c.execute_operation(Operation::SetIndexRegister(0xFFA));
    assert_eq!(c.index_register, 0xFFA);
    c.execute_operation(Operation::SetRegister(2, 10));
    c.execute_operation(Operation::AddToIndex(2));
    // 0xFFA + 10 wraps inside the 4096-byte memory.
    assert_eq!(c.index_register, 4);
    c.execute_operation(Operation::SetRegister(3, 0x17));
    c.execute_operation(Operation::SetIndexToFont(3));
    assert_eq!(c.index_register, 35);
}

#[test]
fn timers_via_operations() {
    let mut c = Chip::new();
    c.execute_operation(Operation::SetRegister(3, 7));
    c.execute_operation(Operation::SetDelayTimer(3));
    assert_eq!(c.delay_timer, 7);
    c.execute_operation(Operation::ReadDelayTimer(4));
    assert_eq!(c.registers[4], 7);
    c.execute_operation(Operation::SetSoundTimer(3));
    assert_eq!(c.sound_timer, 7);
}

#[test]
fn tick_timers_counts_down_to_zero() {
    let mut c = Chip::new();
    c.delay_timer = 2;
    c.sound_timer = 1;
    c.tick_timers();
    assert_eq!(c.delay_timer, 1);
    assert_eq!(c.sound_timer, 0);
    c.tick_timers();
    assert_eq!(c.delay_timer, 0);
    assert_eq!(c.sound_timer, 0);
    c.tick_timers();
    assert_eq!(c.delay_timer, 0);
    assert_eq!(c.sound_timer, 0);
}

#[test]
fn key_skips() {
    let mut c = Chip::new();
    c.set_key(5, true);
    c.execute_operation(Operation::SetRegister(2, 5));
    let pc = c.program_counter;
    c.execute_operation(Operation::SkipIfKeyPressed(2));
    assert_eq!(c.program_counter, pc + 4);
    let pc = c.program_counter;
    c.execute_operation(Operation::SkipIfKeyNotPressed(2));
    assert_eq!(c.program_counter, pc + 2);
    c.set_key(5, false);
    let pc = c.program_counter;
    c.execute_operation(Operation::SkipIfKeyPressed(2));
    assert_eq!(c.program_counter, pc + 2);
}

#[test]
fn wait_for_key_blocks_until_pressed() {
    let mut c = Chip::new();
    let pc = c.program_counter;
    c.execute_operation(Operation::WaitForKey(6));
    // No key pressed: the program counter does not advance.
    assert_eq!(c.program_counter, pc);
    c.set_key(9, true);
    c.set_key(3, true);
    c.execute_operation(Operation::WaitForKey(6));
    // The lowest pressed key lands in the register.
    assert_eq!(c.registers[6], 3);
    assert_eq!(c.program_counter, pc + 2);
}

#[test]
fn random_and_is_reproducible_and_masked() {
    let mut a = Chip::new();
    let mut b = Chip::new();
    a.execute_operation(Operation::RandomAnd(0, 0xFF));
    b.execute_operation(Operation::RandomAnd(0, 0xFF));
    assert_eq!(a.registers[0], b.registers[0]);
    a.execute_operation(Operation::RandomAnd(1, 0x0F));
    assert!(a.registers[1] < 16);
    a.execute_operation(Operation::RandomAnd(2, 0));
    assert_eq!(a.registers[2], 0);
}

#[test]
fn store_bcd_digits() {
    let mut c = Chip::new();
    c.execute_operation(Operation::SetRegister(2, 153));
    c.execute_operation(Operation::SetIndexRegister(0x300));
    c.execute_operation(Operation::StoreBcd(2));
    assert_eq!(c.memory[0x300], 1);
    assert_eq!(c.memory[0x301], 5);
    assert_eq!(c.memory[0x302], 3);
}

#[test]
fn store_and_load_register_range() {
    let mut c = Chip::new();
    c.execute_operation(Operation::SetRegister(0, 11));
    c.execute_operation(Operation::SetRegister(1, 22));
    c.execute_operation(Operation::SetRegister(2, 33));
    c.execute_operation(Operation::SetIndexRegister(0x320));
    c.execute_operation(Operation::StoreRegisters(2));
    assert_eq!(c.memory[0x320], 11);
    assert_eq!(c.memory[0x321], 22);
    assert_eq!(c.memory[0x322], 33);
    assert_eq!(c.memory[0x323], 0);
    let mut d = Chip::new();
    d.memory[0x320] = 7;
    d.memory[0x321] = 8;
    d.execute_operation(Operation::SetIndexRegister(0x320));
    d.execute_operation(Operation::LoadRegisters(1));
    assert_eq!(d.registers[0], 7);
    assert_eq!(d.registers[1], 8);
    assert_eq!(d.registers[2], 0);
}

#[test]
fn clear_screen_blanks_framebuffer() {
    let mut c = Chip::new();
    c.framebuffer[100] = true;
    c.execute_operation(Operation::ClearScreen);
    assert!(c.framebuffer.iter().all(|p| !p));
    assert_eq!(c.program_counter, 0x202);
}
