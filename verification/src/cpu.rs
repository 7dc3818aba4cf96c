//! The executable CHIP-8 machine: registers, memory, call stack,
//! framebuffer, timers and keypad, with the fetch-decode-execute engine.
//! Every mutation is proved to match the transitions in `machine`.

use vstd::prelude::*;
use crate::machine::{
    advanced, bcd_memory, blank_framebuffer, draw_collision_upto, draw_framebuffer,
    draw_mask_bit, fetch_word, first_pressed_from, initial_machine, lemma_collision_step,
    lemma_step_preserves_wf, lemma_tick_step_preserves_wf, load_memory,
    load_registers_registers, next_rng, reset_machine, run_steps, step,
    store_registers_memory, tick_step, timer_step, wf, zero_memory, Fault, Machine,
    FLAG_REGISTER, MEMORY_SIZE, REGISTER_COUNT, RNG_SEED, ROM_START_ADDRESS, SCREEN_HEIGHT,
    SCREEN_PIXELS, SCREEN_WIDTH, STACK_DEPTH,
};
use crate::opcode::{operation_wf, Opcode, Operation};

verus! {

/// Why a ROM could not be loaded.
#[derive(Clone, Copy, Debug, PartialEq, Eq, Structural)]
pub enum LoadError {
    RomTooLarge,
}

/// The single mutable entity of the interpreter. The flag register is
/// `registers[15]` itself: flag-setting side effects write that index, so
/// there is exactly one storage location for it.
#[derive(Debug)]
pub struct Chip {
    pub running: bool,
    pub fault: Option<Fault>,
    pub registers: Vec<u8>,
    pub index_register: u16,
    pub program_counter: usize,
    pub stack: Vec<u16>,
    pub memory: Vec<u8>,
    pub framebuffer: Vec<bool>,
    pub delay_timer: u8,
    pub sound_timer: u8,
    pub keys: Vec<bool>,
    pub rng_state: u16,
    pub loaded_rom: Option<Vec<u8>>,
}

impl View for Chip {
    type V = Machine;

    open spec fn view(&self) -> Machine {
        Machine {
            running: self.running,
            fault: self.fault,
            registers: self.registers@,
            index_register: self.index_register,
            program_counter: self.program_counter as int,
            stack: self.stack@,
            memory: self.memory@,
            framebuffer: self.framebuffer@,
            delay_timer: self.delay_timer,
            sound_timer: self.sound_timer,
            keys: self.keys@,
            rng_state: self.rng_state,
            loaded_rom: match self.loaded_rom {
                Some(ref r) => Some(r@),
                None => None,
            },
        }
    }
}

/// A vector of `len` copies of `value`.
fn filled_bytes(len: usize, value: u8) -> (r: Vec<u8>)
    ensures
        r@ == Seq::new(len as nat, |i: int| value),
{
    let mut v: Vec<u8> = Vec::new();
    while v.len() < len
        invariant
            v@.len() <= len,
            forall|i: int| 0 <= i < v@.len() ==> v@[i] == value,
        decreases len - v@.len(),
    {
        v.push(value);
    }
    proof {
        assert(v@ =~= Seq::new(len as nat, |i: int| value));
    }
    v
}

/// A vector of `len` copies of `value`.
fn filled_bools(len: usize, value: bool) -> (r: Vec<bool>)
    ensures
        r@ == Seq::new(len as nat, |i: int| value),
{
    let mut v: Vec<bool> = Vec::new();
    while v.len() < len
        invariant
            v@.len() <= len,
            forall|i: int| 0 <= i < v@.len() ==> v@[i] == value,
        decreases len - v@.len(),
    {
        v.push(value);
    }
    proof {
        assert(v@ =~= Seq::new(len as nat, |i: int| value));
    }
    v
}

/// A byte-for-byte copy of `bytes`.
fn copied_bytes(bytes: &Vec<u8>) -> (r: Vec<u8>)
    ensures
        r@ == bytes@,
{
    let mut v: Vec<u8> = Vec::new();
    let mut i: usize = 0;
    while i < bytes.len()
        invariant
            i <= bytes@.len(),
            v@ == bytes@.subrange(0, i as int),
        decreases bytes@.len() - i,
    {
        v.push(bytes[i]);
        i = i + 1;
        proof {
            assert(v@ =~= bytes@.subrange(0, i as int));
        }
    }
    proof {
        assert(bytes@.subrange(0, bytes@.len() as int) =~= bytes@);
    }
    v
}

impl Chip {
    /// A fresh machine: everything zeroed, the program counter at the load
    /// offset, not yet running.
    pub fn new() -> (r: Self)
        ensures
            r@ == initial_machine(),
            wf(r@),
    {
        let chip = Self {
            running: false,
            fault: None,
            registers: filled_bytes(REGISTER_COUNT, 0),
            index_register: 0,
            program_counter: ROM_START_ADDRESS,
            stack: Vec::new(),
            memory: filled_bytes(MEMORY_SIZE, 0),
            framebuffer: filled_bools(SCREEN_PIXELS, false),
            delay_timer: 0,
            sound_timer: 0,
            keys: filled_bools(REGISTER_COUNT, false),
            rng_state: RNG_SEED,
            loaded_rom: None,
        };
        proof {
            assert(chip@ =~= initial_machine());
        }
        chip
    }

    /// The carry/borrow/collision flag, register 15.
    pub fn get_flag(&self) -> (r: u8)
        requires
            wf(self@),
        ensures
            r == self@.registers[FLAG_REGISTER as int],
    {
        self.registers[FLAG_REGISTER]
    }

    /// Write the carry/borrow/collision flag, register 15.
    pub fn set_flag(&mut self, value: u8)
        requires
            wf(old(self)@),
        ensures
            final(self)@ == (Machine {
                registers: old(self)@.registers.update(FLAG_REGISTER as int, value),
                ..old(self)@
            }),
            wf(final(self)@),
    {
        self.registers.set(FLAG_REGISTER, value);
    }

    /// Move the program counter past one 2-byte instruction.
    pub fn next_instruction(&mut self)
        requires
            wf(old(self)@),
            old(self)@.program_counter + 2 <= 0xFFFF,
        ensures
            final(self)@ == advanced(old(self)@),
            wf(final(self)@),
    {
        self.program_counter = self.program_counter + 2;
    }

    /// Pixel (`x`, `y`) of the framebuffer, for an external renderer.
    pub fn pixel(&self, x: usize, y: usize) -> (r: bool)
        requires
            wf(self@),
            x < SCREEN_WIDTH,
            y < SCREEN_HEIGHT,
        ensures
            r == self@.framebuffer[y * SCREEN_WIDTH + x],
    {
        self.framebuffer[y * SCREEN_WIDTH + x]
    }

    /// Record a key of the 16-key keypad as pressed or released, for an
    /// external input collaborator.
    pub fn set_key(&mut self, key: u8, pressed: bool)
        requires
            wf(old(self)@),
            key < 16,
        ensures
            final(self)@ == (Machine {
                keys: old(self)@.keys.update(key as int, pressed),
                ..old(self)@
            }),
            wf(final(self)@),
    {
        self.keys.set(key as usize, pressed);
    }

    fn clear_screen(&mut self)
        requires
            wf(old(self)@),
            old(self)@.program_counter + 1 < MEMORY_SIZE,
        ensures
            final(self)@ == step(old(self)@, Operation::ClearScreen),
    {
        self.framebuffer = filled_bools(SCREEN_PIXELS, false);
        self.program_counter = self.program_counter + 2;
        proof {
            assert(self@.framebuffer =~= blank_framebuffer());
            assert(self@ =~= step(old(self)@, Operation::ClearScreen));
        }
    }

    fn return_from_subroutine(&mut self)
        requires
            wf(old(self)@),
            old(self)@.program_counter + 1 < MEMORY_SIZE,
        ensures
            final(self)@ == step(old(self)@, Operation::ReturnFromSubroutine),
    {
        match self.stack.pop() {
            Some(a) => {
                self.program_counter = a as usize;
                proof {
                    assert(self@.stack =~= old(self)@.stack.drop_last());
                    assert(self@ =~= step(old(self)@, Operation::ReturnFromSubroutine));
                }
            },
            None => {
                self.running = false;
                self.fault = Some(Fault::StackUnderflow);
                proof {
                    assert(self@ =~= step(old(self)@, Operation::ReturnFromSubroutine));
                }
            },
        }
    }

    fn jump(&mut self, a: u16)
        requires
            wf(old(self)@),
            old(self)@.program_counter + 1 < MEMORY_SIZE,
            a < 0x1000,
        ensures
            final(self)@ == step(old(self)@, Operation::Jump(a)),
    {
        self.program_counter = a as usize;
        proof {
            assert(self@ =~= step(old(self)@, Operation::Jump(a)));
        }
    }

    fn call_subroutine(&mut self, a: u16)
        requires
            wf(old(self)@),
            old(self)@.program_counter + 1 < MEMORY_SIZE,
            a < 0x1000,
        ensures
            final(self)@ == step(old(self)@, Operation::CallSubroutine(a)),
    {
        if self.stack.len() >= STACK_DEPTH {
            self.running = false;
            self.fault = Some(Fault::StackOverflow);
            proof {
                assert(self@ =~= step(old(self)@, Operation::CallSubroutine(a)));
            }
        } else {
            let ret = (self.program_counter + 2) as u16;
            self.stack.push(ret);
            self.program_counter = a as usize;
            proof {
                assert(self@ =~= step(old(self)@, Operation::CallSubroutine(a)));
            }
        }
    }

    fn skip_if_equal(&mut self, x: u8, kk: u8)
        requires
            wf(old(self)@),
            old(self)@.program_counter + 1 < MEMORY_SIZE,
            x < 16,
        ensures
            final(self)@ == step(old(self)@, Operation::SkipIfEqual(x, kk)),
    {
        if self.registers[x as usize] == kk {
            self.program_counter = self.program_counter + 4;
        } else {
            self.program_counter = self.program_counter + 2;
        }
        proof {
            assert(self@ =~= step(old(self)@, Operation::SkipIfEqual(x, kk)));
        }
    }

    fn skip_if_not_equal(&mut self, x: u8, kk: u8)
        requires
            wf(old(self)@),
            old(self)@.program_counter + 1 < MEMORY_SIZE,
            x < 16,
        ensures
            final(self)@ == step(old(self)@, Operation::SkipIfNotEqual(x, kk)),
    {
        if self.registers[x as usize] != kk {
            self.program_counter = self.program_counter + 4;
        } else {
            self.program_counter = self.program_counter + 2;
        }
        proof {
            assert(self@ =~= step(old(self)@, Operation::SkipIfNotEqual(x, kk)));
        }
    }

    fn skip_if_registers_equal(&mut self, x: u8, y: u8)
        requires
            wf(old(self)@),
            old(self)@.program_counter + 1 < MEMORY_SIZE,
            x < 16,
            y < 16,
        ensures
            final(self)@ == step(old(self)@, Operation::SkipIfRegistersEqual(x, y)),
    {
        if self.registers[x as usize] == self.registers[y as usize] {
            self.program_counter = self.program_counter + 4;
        } else {
            self.program_counter = self.program_counter + 2;
        }
        proof {
            assert(self@ =~= step(old(self)@, Operation::SkipIfRegistersEqual(x, y)));
        }
    }

    fn skip_if_registers_not_equal(&mut self, x: u8, y: u8)
        requires
            wf(old(self)@),
            old(self)@.program_counter + 1 < MEMORY_SIZE,
            x < 16,
            y < 16,
        ensures
            final(self)@ == step(old(self)@, Operation::SkipIfRegistersNotEqual(x, y)),
    {
        if self.registers[x as usize] != self.registers[y as usize] {
            self.program_counter = self.program_counter + 4;
        } else {
            self.program_counter = self.program_counter + 2;
        }
        proof {
            assert(self@ =~= step(old(self)@, Operation::SkipIfRegistersNotEqual(x, y)));
        }
    }

    fn set_register(&mut self, x: u8, kk: u8)
        requires
            wf(old(self)@),
            old(self)@.program_counter + 1 < MEMORY_SIZE,
            x < 16,
        ensures
            final(self)@ == step(old(self)@, Operation::SetRegister(x, kk)),
    {
        self.registers.set(x as usize, kk);
        self.program_counter = self.program_counter + 2;
        proof {
            assert(self@ =~= step(old(self)@, Operation::SetRegister(x, kk)));
        }
    }

    fn add_register(&mut self, x: u8, kk: u8)
        requires
            wf(old(self)@),
            old(self)@.program_counter + 1 < MEMORY_SIZE,
            x < 16,
        ensures
            final(self)@ == step(old(self)@, Operation::AddRegister(x, kk)),
    {
        let a = self.registers[x as usize];
        let v = ((a as u16 + kk as u16) % 256) as u8;
        self.registers.set(x as usize, v);
        self.program_counter = self.program_counter + 2;
        proof {
            assert(self@ =~= step(old(self)@, Operation::AddRegister(x, kk)));
        }
    }

    fn copy_register(&mut self, x: u8, y: u8)
        requires
            wf(old(self)@),
            old(self)@.program_counter + 1 < MEMORY_SIZE,
            x < 16,
            y < 16,
        ensures
            final(self)@ == step(old(self)@, Operation::CopyRegister(x, y)),
    {
        let v = self.registers[y as usize];
        self.registers.set(x as usize, v);
        self.program_counter = self.program_counter + 2;
        proof {
            assert(self@ =~= step(old(self)@, Operation::CopyRegister(x, y)));
        }
    }

    fn or_register(&mut self, x: u8, y: u8)
        requires
            wf(old(self)@),
            old(self)@.program_counter + 1 < MEMORY_SIZE,
            x < 16,
            y < 16,
        ensures
            final(self)@ == step(old(self)@, Operation::OrRegister(x, y)),
    {
        let v = self.registers[x as usize] | self.registers[y as usize];
        self.registers.set(x as usize, v);
        self.program_counter = self.program_counter + 2;
        proof {
            assert(self@ =~= step(old(self)@, Operation::OrRegister(x, y)));
        }
    }

    fn and_register(&mut self, x: u8, y: u8)
        requires
            wf(old(self)@),
            old(self)@.program_counter + 1 < MEMORY_SIZE,
            x < 16,
            y < 16,
        ensures
            final(self)@ == step(old(self)@, Operation::AndRegister(x, y)),
    {
        let v = self.registers[x as usize] & self.registers[y as usize];
        self.registers.set(x as usize, v);
        self.program_counter = self.program_counter + 2;
        proof {
            assert(self@ =~= step(old(self)@, Operation::AndRegister(x, y)));
        }
    }

    fn xor_register(&mut self, x: u8, y: u8)
        requires
            wf(old(self)@),
            old(self)@.program_counter + 1 < MEMORY_SIZE,
            x < 16,
            y < 16,
        ensures
            final(self)@ == step(old(self)@, Operation::XorRegister(x, y)),
    {
        let v = self.registers[x as usize] ^ self.registers[y as usize];
        self.registers.set(x as usize, v);
        self.program_counter = self.program_counter + 2;
        proof {
            assert(self@ =~= step(old(self)@, Operation::XorRegister(x, y)));
        }
    }

    fn add_register_with_carry(&mut self, x: u8, y: u8)
        requires
            wf(old(self)@),
            old(self)@.program_counter + 1 < MEMORY_SIZE,
            x < 16,
            y < 16,
        ensures
            final(self)@ == step(old(self)@, Operation::AddRegisterWithCarry(x, y)),
    {
        let sum = self.registers[x as usize] as u16 + self.registers[y as usize] as u16;
        self.registers.set(x as usize, (sum % 256) as u8);
        let f: u8 = if sum > 255 {
            1
        } else {
            0
        };
        self.registers.set(FLAG_REGISTER, f);
        self.program_counter = self.program_counter + 2;
        proof {
            assert(self@ =~= step(old(self)@, Operation::AddRegisterWithCarry(x, y)));
        }
    }

    fn subtract_register(&mut self, x: u8, y: u8)
        requires
            wf(old(self)@),
            old(self)@.program_counter + 1 < MEMORY_SIZE,
            x < 16,
            y < 16,
        ensures
            final(self)@ == step(old(self)@, Operation::SubtractRegister(x, y)),
    {
        let a = self.registers[x as usize];
        let b = self.registers[y as usize];
        let v = ((a as u16 + 256 - b as u16) % 256) as u8;
        self.registers.set(x as usize, v);
        let f: u8 = if a >= b {
            1
        } else {
            0
        };
        self.registers.set(FLAG_REGISTER, f);
        self.program_counter = self.program_counter + 2;
        proof {
            assert(self@ =~= step(old(self)@, Operation::SubtractRegister(x, y)));
        }
    }

    fn shift_right(&mut self, x: u8)
        requires
            wf(old(self)@),
            old(self)@.program_counter + 1 < MEMORY_SIZE,
            x < 16,
        ensures
            final(self)@ == step(old(self)@, Operation::ShiftRight(x)),
    {
        let a = self.registers[x as usize];
        self.registers.set(x as usize, a / 2);
        self.registers.set(FLAG_REGISTER, a % 2);
        self.program_counter = self.program_counter + 2;
        proof {
            assert(self@ =~= step(old(self)@, Operation::ShiftRight(x)));
        }
    }

    fn subtract_register_reversed(&mut self, x: u8, y: u8)
        requires
            wf(old(self)@),
            old(self)@.program_counter + 1 < MEMORY_SIZE,
            x < 16,
            y < 16,
        ensures
            final(self)@ == step(old(self)@, Operation::SubtractRegisterReversed(x, y)),
    {
        let a = self.registers[x as usize];
        let b = self.registers[y as usize];
        let v = ((b as u16 + 256 - a as u16) % 256) as u8;
        self.registers.set(x as usize, v);
        let f: u8 = if b >= a {
            1
        } else {
            0
        };
        self.registers.set(FLAG_REGISTER, f);
        self.program_counter = self.program_counter + 2;
        proof {
            assert(self@ =~= step(old(self)@, Operation::SubtractRegisterReversed(x, y)));
        }
    }

    fn shift_left(&mut self, x: u8)
        requires
            wf(old(self)@),
            old(self)@.program_counter + 1 < MEMORY_SIZE,
            x < 16,
        ensures
            final(self)@ == step(old(self)@, Operation::ShiftLeft(x)),
    {
        let a = self.registers[x as usize];
        let v = ((a as u16 * 2) % 256) as u8;
        self.registers.set(x as usize, v);
        let f: u8 = if a >= 128 {
            1
        } else {
            0
        };
        self.registers.set(FLAG_REGISTER, f);
        self.program_counter = self.program_counter + 2;
        proof {
            assert(self@ =~= step(old(self)@, Operation::ShiftLeft(x)));
        }
    }

    fn set_index_register(&mut self, a: u16)
        requires
            wf(old(self)@),
            old(self)@.program_counter + 1 < MEMORY_SIZE,
            a < 0x1000,
        ensures
            final(self)@ == step(old(self)@, Operation::SetIndexRegister(a)),
    {
        self.index_register = a;
        self.program_counter = self.program_counter + 2;
        proof {
            assert(self@ =~= step(old(self)@, Operation::SetIndexRegister(a)));
        }
    }

    fn jump_with_offset(&mut self, a: u16)
        requires
            wf(old(self)@),
            old(self)@.program_counter + 1 < MEMORY_SIZE,
            a < 0x1000,
        ensures
            final(self)@ == step(old(self)@, Operation::JumpWithOffset(a)),
    {
        self.program_counter = a as usize + self.registers[0] as usize;
        proof {
            assert(self@ =~= step(old(self)@, Operation::JumpWithOffset(a)));
        }
    }

    fn random_and(&mut self, x: u8, kk: u8)
        requires
            wf(old(self)@),
            old(self)@.program_counter + 1 < MEMORY_SIZE,
            x < 16,
        ensures
            final(self)@ == step(old(self)@, Operation::RandomAnd(x, kk)),
    {
        let s2 = (((self.rng_state as u32) * 25173 + 13849) % 65536) as u16;
        proof {
            assert(s2 == next_rng(old(self)@.rng_state));
        }
        let b = (s2 >> 8) as u8;
        self.registers.set(x as usize, b & kk);
        self.rng_state = s2;
        self.program_counter = self.program_counter + 2;
        proof {
            assert(self@ =~= step(old(self)@, Operation::RandomAnd(x, kk)));
        }
    }

    fn skip_if_key_pressed(&mut self, x: u8)
        requires
            wf(old(self)@),
            old(self)@.program_counter + 1 < MEMORY_SIZE,
            x < 16,
        ensures
            final(self)@ == step(old(self)@, Operation::SkipIfKeyPressed(x)),
    {
        let k = (self.registers[x as usize] % 16) as usize;
        if self.keys[k] {
            self.program_counter = self.program_counter + 4;
        } else {
            self.program_counter = self.program_counter + 2;
        }
        proof {
            assert(self@ =~= step(old(self)@, Operation::SkipIfKeyPressed(x)));
        }
    }

    fn skip_if_key_not_pressed(&mut self, x: u8)
        requires
            wf(old(self)@),
            old(self)@.program_counter + 1 < MEMORY_SIZE,
            x < 16,
        ensures
            final(self)@ == step(old(self)@, Operation::SkipIfKeyNotPressed(x)),
    {
        let k = (self.registers[x as usize] % 16) as usize;
        if !self.keys[k] {
            self.program_counter = self.program_counter + 4;
        } else {
            self.program_counter = self.program_counter + 2;
        }
        proof {
            assert(self@ =~= step(old(self)@, Operation::SkipIfKeyNotPressed(x)));
        }
    }

    fn read_delay_timer(&mut self, x: u8)
        requires
            wf(old(self)@),
            old(self)@.program_counter + 1 < MEMORY_SIZE,
            x < 16,
        ensures
            final(self)@ == step(old(self)@, Operation::ReadDelayTimer(x)),
    {
        let v = self.delay_timer;
        self.registers.set(x as usize, v);
        self.program_counter = self.program_counter + 2;
        proof {
            assert(self@ =~= step(old(self)@, Operation::ReadDelayTimer(x)));
        }
    }

    fn wait_for_key(&mut self, x: u8)
        requires
            wf(old(self)@),
            old(self)@.program_counter + 1 < MEMORY_SIZE,
            x < 16,
        ensures
            final(self)@ == step(old(self)@, Operation::WaitForKey(x)),
    {
        let mut i: usize = 0;
        while i < 16
            invariant
                wf(old(self)@),
                old(self)@.program_counter + 1 < MEMORY_SIZE,
                x < 16,
                *self == *old(self),
                0 <= i <= 16,
                first_pressed_from(old(self)@.keys, 0) == first_pressed_from(
                    old(self)@.keys,
                    i as int,
                ),
            decreases 16 - i,
        {
            if self.keys[i] {
                self.registers.set(x as usize, i as u8);
                self.program_counter = self.program_counter + 2;
                proof {
                    assert(self@ =~= step(old(self)@, Operation::WaitForKey(x)));
                }
                return ;
            }
            i = i + 1;
        }
        proof {
            assert(first_pressed_from(old(self)@.keys, 16) == None::<u8>);
            assert(self@ =~= step(old(self)@, Operation::WaitForKey(x)));
        }
    }

    fn set_delay_timer(&mut self, x: u8)
        requires
            wf(old(self)@),
            old(self)@.program_counter + 1 < MEMORY_SIZE,
            x < 16,
        ensures
            final(self)@ == step(old(self)@, Operation::SetDelayTimer(x)),
    {
        self.delay_timer = self.registers[x as usize];
        self.program_counter = self.program_counter + 2;
        proof {
            assert(self@ =~= step(old(self)@, Operation::SetDelayTimer(x)));
        }
    }

    fn set_sound_timer(&mut self, x: u8)
        requires
            wf(old(self)@),
            old(self)@.program_counter + 1 < MEMORY_SIZE,
            x < 16,
        ensures
            final(self)@ == step(old(self)@, Operation::SetSoundTimer(x)),
    {
        self.sound_timer = self.registers[x as usize];
        self.program_counter = self.program_counter + 2;
        proof {
            assert(self@ =~= step(old(self)@, Operation::SetSoundTimer(x)));
        }
    }

    fn add_to_index(&mut self, x: u8)
        requires
            wf(old(self)@),
            old(self)@.program_counter + 1 < MEMORY_SIZE,
            x < 16,
        ensures
            final(self)@ == step(old(self)@, Operation::AddToIndex(x)),
    {
        let v = (self.index_register as usize + self.registers[x as usize] as usize)
            % MEMORY_SIZE;
        self.index_register = v as u16;
        self.program_counter = self.program_counter + 2;
        proof {
            assert(self@ =~= step(old(self)@, Operation::AddToIndex(x)));
        }
    }

    fn set_index_to_font(&mut self, x: u8)
        requires
            wf(old(self)@),
            old(self)@.program_counter + 1 < MEMORY_SIZE,
            x < 16,
        ensures
            final(self)@ == step(old(self)@, Operation::SetIndexToFont(x)),
    {
        let d = self.registers[x as usize] % 16;
        self.index_register = 5 * d as u16;
        self.program_counter = self.program_counter + 2;
        proof {
            assert(self@ =~= step(old(self)@, Operation::SetIndexToFont(x)));
        }
    }

    fn store_bcd(&mut self, x: u8)
        requires
            wf(old(self)@),
            old(self)@.program_counter + 1 < MEMORY_SIZE,
            x < 16,
        ensures
            final(self)@ == step(old(self)@, Operation::StoreBcd(x)),
    {
        let i0 = self.index_register as usize;
        let v = self.registers[x as usize];
        self.memory.set(i0, v / 100);
        if i0 + 1 < MEMORY_SIZE {
            self.memory.set(i0 + 1, (v / 10) % 10);
        }
        if i0 + 2 < MEMORY_SIZE {
            self.memory.set(i0 + 2, v % 10);
        }
        self.program_counter = self.program_counter + 2;
        proof {
            assert(self@.memory =~= bcd_memory(old(self)@.memory, i0 as int, v));
            assert(self@ =~= step(old(self)@, Operation::StoreBcd(x)));
        }
    }

    fn store_registers(&mut self, x: u8)
        requires
            wf(old(self)@),
            old(self)@.program_counter + 1 < MEMORY_SIZE,
            x < 16,
        ensures
            final(self)@ == step(old(self)@, Operation::StoreRegisters(x)),
    {
        let i0 = self.index_register as usize;
        let mut j: usize = 0;
        while j <= x as usize
            invariant
                wf(old(self)@),
                x < 16,
                i0 == old(self)@.index_register,
                0 <= j <= x + 1,
                self@ == (Machine { memory: self@.memory, ..old(self)@ }),
                self@.memory.len() == MEMORY_SIZE,
                forall|i: int|
                    0 <= i < MEMORY_SIZE ==> self@.memory[i] == (if i0 <= i < i0 + j {
                        old(self)@.registers[i - i0]
                    } else {
                        old(self)@.memory[i]
                    }),
            decreases x + 1 - j,
        {
            let addr = i0 + j;
            if addr < MEMORY_SIZE {
                let v = self.registers[j];
                self.memory.set(addr, v);
            }
            j = j + 1;
        }
        self.program_counter = self.program_counter + 2;
        proof {
            assert(self@.memory =~= store_registers_memory(old(self)@, x));
            assert(self@ =~= step(old(self)@, Operation::StoreRegisters(x)));
        }
    }

    fn load_registers(&mut self, x: u8)
        requires
            wf(old(self)@),
            old(self)@.program_counter + 1 < MEMORY_SIZE,
            x < 16,
        ensures
            final(self)@ == step(old(self)@, Operation::LoadRegisters(x)),
    {
        let i0 = self.index_register as usize;
        let mut j: usize = 0;
        while j <= x as usize
            invariant
                wf(old(self)@),
                x < 16,
                i0 == old(self)@.index_register,
                0 <= j <= x + 1,
                self@ == (Machine { registers: self@.registers, ..old(self)@ }),
                self@.registers.len() == REGISTER_COUNT,
                forall|t: int|
                    0 <= t < REGISTER_COUNT ==> self@.registers[t] == (if t < j && i0 + t
                        < MEMORY_SIZE {
                        old(self)@.memory[i0 + t]
                    } else {
                        old(self)@.registers[t]
                    }),
            decreases x + 1 - j,
        {
            let addr = i0 + j;
            if addr < MEMORY_SIZE {
                let v = self.memory[addr];
                self.registers.set(j, v);
            }
            j = j + 1;
        }
        self.program_counter = self.program_counter + 2;
        proof {
            assert(self@.registers =~= load_registers_registers(old(self)@, x));
            assert(self@ =~= step(old(self)@, Operation::LoadRegisters(x)));
        }
    }

    fn draw(&mut self, x: u8, y: u8, n: u8)
        requires
            wf(old(self)@),
            old(self)@.program_counter + 1 < MEMORY_SIZE,
            x < 16,
            y < 16,
            n < 16,
        ensures
            final(self)@ == step(old(self)@, Operation::Draw(x, y, n)),
    {
        let gx = self.registers[x as usize] as usize % SCREEN_WIDTH;
        let gy = self.registers[y as usize] as usize % SCREEN_HEIGHT;
        let mut newfb: Vec<bool> = Vec::new();
        let mut collision = false;
        let mut p: usize = 0;
        while p < SCREEN_PIXELS
            invariant
                wf(old(self)@),
                x < 16,
                y < 16,
                n < 16,
                *self == *old(self),
                gx == (old(self)@.registers[x as int] as int) % 64,
                gy == (old(self)@.registers[y as int] as int) % 32,
                0 <= p <= SCREEN_PIXELS,
                newfb@.len() == p,
                forall|q: int|
                    0 <= q < p ==> newfb@[q] == (old(self)@.framebuffer[q] ^ #[trigger]
                    draw_mask_bit(old(self)@, x, y, n, q)),
                collision == draw_collision_upto(old(self)@, x, y, n, p as int),
            decreases SCREEN_PIXELS - p,
        {
            let px = p % SCREEN_WIDTH;
            let py = p / SCREEN_WIDTH;
            let c = (px + SCREEN_WIDTH - gx) % SCREEN_WIDTH;
            let r = (py + SCREEN_HEIGHT - gy) % SCREEN_HEIGHT;
            let bit: bool = if c < 8 && r < n as usize {
                let addr = self.index_register as usize + r;
                let byte: u8 = if addr < MEMORY_SIZE {
                    self.memory[addr]
                } else {
                    0
                };
                (byte >> ((7 - c) as u8)) & 1 == 1
            } else {
                false
            };
            proof {
                assert(bit == draw_mask_bit(old(self)@, x, y, n, p as int));
            }
            let on = self.framebuffer[p];
            let newpx = if bit {
                !on
            } else {
                on
            };
            newfb.push(newpx);
            proof {
                lemma_collision_step(old(self)@, x, y, n, p as int);
            }
            if on && bit {
                collision = true;
            }
            p = p + 1;
        }
        self.framebuffer = newfb;
        let f: u8 = if collision {
            1
        } else {
            0
        };
        self.registers.set(FLAG_REGISTER, f);
        self.program_counter = self.program_counter + 2;
        proof {
            assert(self@.framebuffer =~= draw_framebuffer(old(self)@, x, y, n));
            assert(self@ =~= step(old(self)@, Operation::Draw(x, y, n)));
        }
    }

    /// Apply one decoded operation to the machine state: exactly the
    /// transition `machine::step` gives it. Operations that set the
    /// program counter themselves do not auto-advance; all others advance
    /// it by 2.
    pub fn execute_operation(&mut self, operation: Operation)
        requires
            wf(old(self)@),
            operation_wf(operation),
            old(self)@.program_counter + 1 < MEMORY_SIZE,
        ensures
            final(self)@ == step(old(self)@, operation),
            wf(final(self)@),
    {
        proof {
            lemma_step_preserves_wf(old(self)@, operation);
        }
        match operation {
            Operation::ClearScreen => self.clear_screen(),
            Operation::ReturnFromSubroutine => self.return_from_subroutine(),
            Operation::Jump(a) => self.jump(a),
            Operation::CallSubroutine(a) => self.call_subroutine(a),
            Operation::SkipIfEqual(x, kk) => self.skip_if_equal(x, kk),
            Operation::SkipIfNotEqual(x, kk) => self.skip_if_not_equal(x, kk),
            Operation::SkipIfRegistersEqual(x, y) => self.skip_if_registers_equal(x, y),
            Operation::SkipIfRegistersNotEqual(x, y) => self.skip_if_registers_not_equal(x, y),
            Operation::SetRegister(x, kk) => self.set_register(x, kk),
            Operation::AddRegister(x, kk) => self.add_register(x, kk),
            Operation::CopyRegister(x, y) => self.copy_register(x, y),
            Operation::OrRegister(x, y) => self.or_register(x, y),
            Operation::AndRegister(x, y) => self.and_register(x, y),
            Operation::XorRegister(x, y) => self.xor_register(x, y),
            Operation::AddRegisterWithCarry(x, y) => self.add_register_with_carry(x, y),
            Operation::SubtractRegister(x, y) => self.subtract_register(x, y),
            Operation::ShiftRight(x) => self.shift_right(x),
            Operation::SubtractRegisterReversed(x, y) => self.subtract_register_reversed(x, y),
            Operation::ShiftLeft(x) => self.shift_left(x),
            Operation::SetIndexRegister(a) => self.set_index_register(a),
            Operation::JumpWithOffset(a) => self.jump_with_offset(a),
            Operation::RandomAnd(x, kk) => self.random_and(x, kk),
            Operation::Draw(x, y, n) => self.draw(x, y, n),
            Operation::SkipIfKeyPressed(x) => self.skip_if_key_pressed(x),
            Operation::SkipIfKeyNotPressed(x) => self.skip_if_key_not_pressed(x),
            Operation::ReadDelayTimer(x) => self.read_delay_timer(x),
            Operation::WaitForKey(x) => self.wait_for_key(x),
            Operation::SetDelayTimer(x) => self.set_delay_timer(x),
            Operation::SetSoundTimer(x) => self.set_sound_timer(x),
            Operation::AddToIndex(x) => self.add_to_index(x),
            Operation::SetIndexToFont(x) => self.set_index_to_font(x),
            Operation::StoreBcd(x) => self.store_bcd(x),
            Operation::StoreRegisters(x) => self.store_registers(x),
            Operation::LoadRegisters(x) => self.load_registers(x),
            Operation::Unknown(_w) => {
                self.program_counter = self.program_counter + 2;
                proof {
                    assert(self@ =~= step(old(self)@, operation));
                }
            },
        }
    }

    /// Read the two bytes at the program counter and combine them
    /// big-endian into one instruction word.
    pub fn fetch_opcode(&self) -> (r: u16)
        requires
            wf(self@),
            self@.program_counter + 1 < MEMORY_SIZE,
        ensures
            r == fetch_word(self@),
    {
        let head = (self.memory[self.program_counter] as u16) << 8;
        let tail = self.memory[self.program_counter + 1] as u16;
        head | tail
    }

    /// One fetch-decode-execute cycle. When even the fetch would read past
    /// the end of memory, the machine halts with a recorded fault instead;
    /// an unknown opcode is executed as a plain advance and never halts.
    pub fn tick(&mut self)
        requires
            wf(old(self)@),
        ensures
            final(self)@ == tick_step(old(self)@),
            wf(final(self)@),
    {
        proof {
            lemma_tick_step_preserves_wf(old(self)@);
        }
        if self.program_counter + 1 >= MEMORY_SIZE {
            self.running = false;
            self.fault = Some(Fault::ProgramCounterOutOfBounds);
            proof {
                assert(self@ =~= tick_step(old(self)@));
            }
        } else {
            let word = self.fetch_opcode();
            let operation = Operation::from(Opcode::from(word));
            self.execute_operation(operation);
        }
    }

    /// Run whole cycles until the machine halts or the budget runs out.
    /// The budget is the run loop's controlled-rate interleaving point: an
    /// external scheduler grants some cycles, then ticks the timers or
    /// polls input, and a host that wants to stop the machine clears
    /// `running` between grants. A halted machine consumes no cycles.
    pub fn run(&mut self, cycles: u64)
        requires
            wf(old(self)@),
        ensures
            final(self)@ == run_steps(old(self)@, cycles as nat),
            wf(final(self)@),
    {
        let mut k: u64 = 0;
        while k < cycles && self.running
            invariant
                wf(self@),
                k <= cycles,
                run_steps(old(self)@, cycles as nat) == run_steps(
                    self@,
                    (cycles - k) as nat,
                ),
            decreases cycles - k,
        {
            self.tick();
            k = k + 1;
        }
    }

    /// Copy a ROM into memory at the load offset and remember it for
    /// resets. A ROM that would overflow memory is rejected before any
    /// byte is written, so the machine never holds a partial program.
    pub fn load_rom(&mut self, rom: &Vec<u8>) -> (r: Result<(), LoadError>)
        requires
            wf(old(self)@),
        ensures
            wf(final(self)@),
            r is Ok <==> rom@.len() <= MEMORY_SIZE - ROM_START_ADDRESS,
            r is Ok ==> final(self)@ == (Machine {
                memory: load_memory(old(self)@.memory, rom@),
                loaded_rom: Some(rom@),
                ..old(self)@
            }),
            r is Err ==> *final(self) == *old(self),
    {
        if rom.len() > MEMORY_SIZE - ROM_START_ADDRESS {
            return Err(LoadError::RomTooLarge);
        }
        let mut i: usize = 0;
        while i < rom.len()
            invariant
                wf(old(self)@),
                rom@.len() <= MEMORY_SIZE - ROM_START_ADDRESS,
                0 <= i <= rom@.len(),
                self@ == (Machine { memory: self@.memory, ..old(self)@ }),
                self@.memory.len() == MEMORY_SIZE,
                forall|t: int|
                    0 <= t < MEMORY_SIZE ==> self@.memory[t] == (if ROM_START_ADDRESS <= t
                        < ROM_START_ADDRESS + i {
                        rom@[t - ROM_START_ADDRESS]
                    } else {
                        old(self)@.memory[t]
                    }),
            decreases rom@.len() - i,
        {
            let b = rom[i];
            self.memory.set(ROM_START_ADDRESS + i, b);
            i = i + 1;
        }
        self.loaded_rom = Some(copied_bytes(rom));
        proof {
            assert(self@.memory =~= load_memory(old(self)@.memory, rom@));
            assert(self@ =~= (Machine {
                memory: load_memory(old(self)@.memory, rom@),
                loaded_rom: Some(rom@),
                ..old(self)@
            }));
        }
        Ok(())
    }

    /// Load a ROM, start the machine, and run it for at most `cycles`
    /// whole cycles or until it halts. A ROM that does not fit is
    /// reported before execution begins and leaves the machine untouched.
    pub fn run_rom(&mut self, rom: &Vec<u8>, cycles: u64) -> (r: Result<(), LoadError>)
        requires
            wf(old(self)@),
        ensures
            wf(final(self)@),
            r is Ok <==> rom@.len() <= MEMORY_SIZE - ROM_START_ADDRESS,
            r is Ok ==> final(self)@ == run_steps(
                Machine {
                    running: true,
                    memory: load_memory(old(self)@.memory, rom@),
                    loaded_rom: Some(rom@),
                    ..old(self)@
                },
                cycles as nat,
            ),
            r is Err ==> *final(self) == *old(self),
    {
        match self.load_rom(rom) {
            Ok(_u) => {},
            Err(e) => {
                return Err(e);
            },
        }
        self.running = true;
        self.run(cycles);
        Ok(())
    }

    /// Re-zero every part of the machine, set the program counter back to
    /// the load offset, copy the remembered ROM back into memory, and mark
    /// the machine running.
    pub fn reset(&mut self)
        requires
            wf(old(self)@),
        ensures
            final(self)@ == reset_machine(old(self)@),
            wf(final(self)@),
    {
        self.running = true;
        self.fault = None;
        self.registers = filled_bytes(REGISTER_COUNT, 0);
        self.index_register = 0;
        self.stack = Vec::new();
        self.framebuffer = filled_bools(SCREEN_PIXELS, false);
        self.delay_timer = 0;
        self.sound_timer = 0;
        self.keys = filled_bools(REGISTER_COUNT, false);
        self.rng_state = RNG_SEED;
        self.program_counter = ROM_START_ADDRESS;
        let rom: Vec<u8> = match &self.loaded_rom {
            Some(r) => copied_bytes(r),
            None => Vec::new(),
        };
        let mut mem = filled_bytes(MEMORY_SIZE, 0);
        let mut i: usize = 0;
        while i < rom.len()
            invariant
                rom@.len() <= MEMORY_SIZE - ROM_START_ADDRESS,
                0 <= i <= rom@.len(),
                mem@.len() == MEMORY_SIZE,
                forall|t: int|
                    0 <= t < MEMORY_SIZE ==> mem@[t] == (if ROM_START_ADDRESS <= t
                        < ROM_START_ADDRESS + i {
                        rom@[t - ROM_START_ADDRESS]
                    } else {
                        0u8
                    }),
            decreases rom@.len() - i,
        {
            let b = rom[i];
            mem.set(ROM_START_ADDRESS + i, b);
            i = i + 1;
        }
        self.memory = mem;
        proof {
            let spec_rom = match old(self)@.loaded_rom {
                Some(r) => r,
                None => Seq::<u8>::empty(),
            };
            assert(self@.memory =~= load_memory(zero_memory(), spec_rom));
            assert(self@ =~= reset_machine(old(self)@));
        }
    }

    /// One 60 Hz timer tick, driven by an external scheduler and never by
    /// the instruction cycle: each timer counts down to zero.
    pub fn tick_timers(&mut self)
        requires
            wf(old(self)@),
        ensures
            final(self)@ == timer_step(old(self)@),
            wf(final(self)@),
    {
        if self.delay_timer > 0 {
            self.delay_timer = self.delay_timer - 1;
        }
        if self.sound_timer > 0 {
            self.sound_timer = self.sound_timer - 1;
        }
        proof {
            assert(self@ =~= timer_step(old(self)@));
        }
    }
}

} // verus!
