//! The mathematical model of the CHIP-8 machine state and the transition
//! function of each operation. The executable engine in `cpu` is proved to
//! follow these transitions exactly.

use vstd::prelude::*;
use crate::opcode::Operation;

verus! {

/// Size of the emulated memory in bytes.
pub const MEMORY_SIZE: usize = 4096;

/// Fixed offset at which ROM code is loaded and execution starts.
pub const ROM_START_ADDRESS: usize = 0x200;

/// Greatest number of return addresses the call stack may hold.
pub const STACK_DEPTH: usize = 16;

/// Width of the framebuffer in pixels.
pub const SCREEN_WIDTH: usize = 64;

/// Height of the framebuffer in pixels.
pub const SCREEN_HEIGHT: usize = 32;

/// Number of pixels in the framebuffer.
pub const SCREEN_PIXELS: usize = 2048;

/// Number of general-purpose registers.
pub const REGISTER_COUNT: usize = 16;

/// Index of the register that doubles as the carry/borrow/collision flag.
pub const FLAG_REGISTER: usize = 15;

/// State the pseudo-random sequence starts from in a fresh machine.
pub const RNG_SEED: u16 = 0x2A6D;

/// A condition that is fatal to the run loop: it halts execution and is
/// recorded so the caller can tell why the machine stopped.
#[derive(Clone, Copy, Debug, PartialEq, Eq, Structural)]
pub enum Fault {
    ProgramCounterOutOfBounds,
    StackOverflow,
    StackUnderflow,
}

/// The abstract machine state: what the executable `Chip` looks like to
/// every contract.
#[verifier::ext_equal]
pub ghost struct Machine {
    pub running: bool,
    pub fault: Option<Fault>,
    pub registers: Seq<u8>,
    pub index_register: u16,
    pub program_counter: int,
    pub stack: Seq<u16>,
    pub memory: Seq<u8>,
    pub framebuffer: Seq<bool>,
    pub delay_timer: u8,
    pub sound_timer: u8,
    pub keys: Seq<bool>,
    pub rng_state: u16,
    pub loaded_rom: Option<Seq<u8>>,
}

/// Well-formedness of a machine state: the fixed sizes of its parts, the
/// bounded call stack, the index register inside memory, and a program
/// counter that fits the 16-bit addresses the stack can hold.
pub open spec fn wf(m: Machine) -> bool {
    &&& m.registers.len() == REGISTER_COUNT
    &&& m.memory.len() == MEMORY_SIZE
    &&& m.framebuffer.len() == SCREEN_PIXELS
    &&& m.keys.len() == REGISTER_COUNT
    &&& m.stack.len() <= STACK_DEPTH
    &&& m.index_register < MEMORY_SIZE
    &&& 0 <= m.program_counter <= 0xFFFF
    &&& match m.loaded_rom {
        Some(rom) => rom.len() <= MEMORY_SIZE - ROM_START_ADDRESS,
        None => true,
    }
}

/// An all-zero byte sequence of the memory's size.
pub open spec fn zero_memory() -> Seq<u8> {
    Seq::new(MEMORY_SIZE as nat, |i: int| 0u8)
}

/// A framebuffer with every pixel off.
pub open spec fn blank_framebuffer() -> Seq<bool> {
    Seq::new(SCREEN_PIXELS as nat, |p: int| false)
}

/// The state a freshly constructed machine is in: everything zeroed, the
/// program counter at the load offset, not yet running.
pub open spec fn initial_machine() -> Machine {
    Machine {
        running: false,
        fault: None,
        registers: Seq::new(REGISTER_COUNT as nat, |i: int| 0u8),
        index_register: 0,
        program_counter: ROM_START_ADDRESS as int,
        stack: Seq::empty(),
        memory: zero_memory(),
        framebuffer: blank_framebuffer(),
        delay_timer: 0,
        sound_timer: 0,
        keys: Seq::new(REGISTER_COUNT as nat, |i: int| false),
        rng_state: RNG_SEED,
        loaded_rom: None,
    }
}

/// Memory after copying `rom` over `mem` starting at the load offset.
pub open spec fn load_memory(mem: Seq<u8>, rom: Seq<u8>) -> Seq<u8> {
    Seq::new(
        MEMORY_SIZE as nat,
        |i: int|
            if ROM_START_ADDRESS <= i < ROM_START_ADDRESS + rom.len() {
                rom[i - ROM_START_ADDRESS]
            } else {
                mem[i]
            },
    )
}

/// The machine after a reset: zeroed as a fresh machine, running, with the
/// remembered ROM (if any) copied back into memory.
pub open spec fn reset_machine(m: Machine) -> Machine {
    let rom = match m.loaded_rom {
        Some(r) => r,
        None => Seq::empty(),
    };
    Machine {
        running: true,
        memory: load_memory(zero_memory(), rom),
        program_counter: ROM_START_ADDRESS as int,
        loaded_rom: m.loaded_rom,
        ..initial_machine()
    }
}

/// The machine with the program counter moved past one 2-byte instruction.
pub open spec fn advanced(m: Machine) -> Machine {
    Machine { program_counter: m.program_counter + 2, ..m }
}

/// The machine with register `x` set to `v`.
pub open spec fn reg_set(m: Machine, x: u8, v: u8) -> Machine {
    Machine { registers: m.registers.update(x as int, v), ..m }
}

/// The machine halted by a fatal condition, with the reason recorded.
pub open spec fn halted(m: Machine, f: Fault) -> Machine {
    Machine { running: false, fault: Some(f), ..m }
}

/// The next state of the pseudo-random sequence.
pub open spec fn next_rng(s: u16) -> u16 {
    ((s * 25173 + 13849) % 0x10000) as u16
}

/// The byte an advance of the pseudo-random sequence yields.
pub open spec fn rng_byte(s: u16) -> u8 {
    (next_rng(s) >> 8) as u8
}

/// The sprite byte for row `r` of a draw: read at `index_register + r`, or
/// zero where that address falls outside memory.
pub open spec fn sprite_row_byte(m: Machine, r: int) -> u8 {
    if m.index_register + r < MEMORY_SIZE {
        m.memory[m.index_register + r]
    } else {
        0u8
    }
}

/// Bit `c` of a sprite byte, counted from the most significant bit, as
/// sprites are drawn left to right.
pub open spec fn sprite_bit(b: u8, c: int) -> bool {
    (b >> ((7 - c) as u8)) & 1 == 1
}

/// Whether a draw of an `n`-row sprite at the position named by registers
/// `x` and `y` toggles pixel `p`. The sprite's top-left corner is at
/// (`registers[x]` mod 64, `registers[y]` mod 32) and its bits wrap around
/// both screen edges, so each pixel has exactly one candidate sprite row
/// and column, recovered here by modular inversion.
pub open spec fn draw_mask_bit(m: Machine, x: u8, y: u8, n: u8, p: int) -> bool {
    let px = p % 64;
    let py = p / 64;
    let x0 = (m.registers[x as int] as int) % 64;
    let y0 = (m.registers[y as int] as int) % 32;
    let c = (px + 64 - x0) % 64;
    let r = (py + 32 - y0) % 32;
    c < 8 && r < n && sprite_bit(sprite_row_byte(m, r), c)
}

/// The framebuffer after a draw: every pixel XOR-ed with the sprite bit
/// that lands on it.
pub open spec fn draw_framebuffer(m: Machine, x: u8, y: u8, n: u8) -> Seq<bool> {
    Seq::new(SCREEN_PIXELS as nat, |p: int| m.framebuffer[p] ^ draw_mask_bit(m, x, y, n, p))
}

/// Whether any of the first `k` pixels was on and is toggled by the draw.
pub open spec fn draw_collision_upto(m: Machine, x: u8, y: u8, n: u8, k: int) -> bool {
    exists|p: int| 0 <= p < k && m.framebuffer[p] && #[trigger] draw_mask_bit(m, x, y, n, p)
}

/// Whether the draw toggles any pixel that was on: the collision flag.
pub open spec fn draw_collision(m: Machine, x: u8, y: u8, n: u8) -> bool {
    draw_collision_upto(m, x, y, n, SCREEN_PIXELS as int)
}

/// Extending the collision scan by one pixel adds exactly that pixel's
/// contribution.
pub proof fn lemma_collision_step(m: Machine, x: u8, y: u8, n: u8, k: int)
    requires
        0 <= k,
    ensures
        draw_collision_upto(m, x, y, n, k + 1) <==> (draw_collision_upto(m, x, y, n, k) || (
        m.framebuffer[k] && draw_mask_bit(m, x, y, n, k))),
{
    if draw_collision_upto(m, x, y, n, k + 1) {
        let p = choose|p: int|
            0 <= p < k + 1 && m.framebuffer[p] && #[trigger] draw_mask_bit(m, x, y, n, p);
        if p < k {
            assert(draw_collision_upto(m, x, y, n, k));
        }
    }
    if draw_collision_upto(m, x, y, n, k) {
        let p = choose|p: int|
            0 <= p < k && m.framebuffer[p] && #[trigger] draw_mask_bit(m, x, y, n, p);
        assert(draw_collision_upto(m, x, y, n, k + 1));
    }
    if m.framebuffer[k] && draw_mask_bit(m, x, y, n, k) {
        assert(draw_collision_upto(m, x, y, n, k + 1));
    }
}

/// The index of the lowest-numbered pressed key at or above `i`, if any.
pub open spec fn first_pressed_from(keys: Seq<bool>, i: int) -> Option<u8>
    decreases 16 - i,
{
    if i < 0 || i >= 16 {
        None
    } else if keys[i] {
        Some(i as u8)
    } else {
        first_pressed_from(keys, i + 1)
    }
}

/// Memory after the binary-coded-decimal store of value `v` at `i0`:
/// hundreds, tens and ones digits at `i0`, `i0 + 1`, `i0 + 2`, with writes
/// that would fall outside memory dropped.
pub open spec fn bcd_memory(mem: Seq<u8>, i0: int, v: u8) -> Seq<u8> {
    Seq::new(
        MEMORY_SIZE as nat,
        |i: int|
            if i == i0 {
                (v / 100) as u8
            } else if i == i0 + 1 {
                ((v / 10) % 10) as u8
            } else if i == i0 + 2 {
                (v % 10) as u8
            } else {
                mem[i]
            },
    )
}

/// Memory after storing registers 0 through `x` at `i0` onward, with
/// writes that would fall outside memory dropped.
pub open spec fn store_registers_memory(m: Machine, x: u8) -> Seq<u8> {
    let i0 = m.index_register as int;
    Seq::new(
        MEMORY_SIZE as nat,
        |i: int|
            if i0 <= i <= i0 + x {
                m.registers[i - i0]
            } else {
                m.memory[i]
            },
    )
}

/// Registers after loading 0 through `x` from memory at `i0` onward; a
/// register whose source address falls outside memory keeps its value.
pub open spec fn load_registers_registers(m: Machine, x: u8) -> Seq<u8> {
    let i0 = m.index_register as int;
    Seq::new(
        REGISTER_COUNT as nat,
        |j: int|
            if j <= x && i0 + j < MEMORY_SIZE {
                m.memory[i0 + j]
            } else {
                m.registers[j]
            },
    )
}

/// The transition of one operation on the machine state: exactly the
/// per-operation semantics table. Operations that set the program counter
/// themselves (jump, call, return, taken skips, jump-with-offset) do not
/// auto-advance; every other operation advances it by 2. An unknown word
/// is a plain advance: it never halts the machine.
pub open spec fn step(m: Machine, op: Operation) -> Machine {
    match op {
        Operation::ClearScreen => advanced(Machine { framebuffer: blank_framebuffer(), ..m }),
        Operation::ReturnFromSubroutine => if m.stack.len() == 0 {
            halted(m, Fault::StackUnderflow)
        } else {
            Machine {
                program_counter: m.stack.last() as int,
                stack: m.stack.drop_last(),
                ..m
            }
        },
        Operation::Jump(a) => Machine { program_counter: a as int, ..m },
        Operation::CallSubroutine(a) => if m.stack.len() >= STACK_DEPTH {
            halted(m, Fault::StackOverflow)
        } else {
            Machine {
                program_counter: a as int,
                stack: m.stack.push((m.program_counter + 2) as u16),
                ..m
            }
        },
        Operation::SkipIfEqual(x, kk) => Machine {
            program_counter: m.program_counter + (if m.registers[x as int] == kk {
                4int
            } else {
                2int
            }),
            ..m
        },
        Operation::SkipIfNotEqual(x, kk) => Machine {
            program_counter: m.program_counter + (if m.registers[x as int] != kk {
                4int
            } else {
                2int
            }),
            ..m
        },
        Operation::SkipIfRegistersEqual(x, y) => Machine {
            program_counter: m.program_counter + (if m.registers[x as int] == m.registers[
                y as int
            ] {
                4int
            } else {
                2int
            }),
            ..m
        },
        Operation::SkipIfRegistersNotEqual(x, y) => Machine {
            program_counter: m.program_counter + (if m.registers[x as int] != m.registers[
                y as int
            ] {
                4int
            } else {
                2int
            }),
            ..m
        },
        Operation::SetRegister(x, kk) => advanced(reg_set(m, x, kk)),
        Operation::AddRegister(x, kk) => advanced(
            reg_set(m, x, ((m.registers[x as int] + kk) % 256) as u8),
        ),
        Operation::CopyRegister(x, y) => advanced(reg_set(m, x, m.registers[y as int])),
        Operation::OrRegister(x, y) => advanced(
            reg_set(m, x, m.registers[x as int] | m.registers[y as int]),
        ),
        Operation::AndRegister(x, y) => advanced(
            reg_set(m, x, m.registers[x as int] & m.registers[y as int]),
        ),
        Operation::XorRegister(x, y) => advanced(
            reg_set(m, x, m.registers[x as int] ^ m.registers[y as int]),
        ),
        Operation::AddRegisterWithCarry(x, y) => {
            let sum = m.registers[x as int] + m.registers[y as int];
            advanced(
                Machine {
                    registers: m.registers.update(x as int, (sum % 256) as u8).update(
                        FLAG_REGISTER as int,
                        if sum > 255 {
                            1u8
                        } else {
                            0u8
                        },
                    ),
                    ..m
                },
            )
        },
        Operation::SubtractRegister(x, y) => {
            let a = m.registers[x as int];
            let b = m.registers[y as int];
            advanced(
                Machine {
                    registers: m.registers.update(x as int, ((a - b + 256) % 256) as u8).update(
                        FLAG_REGISTER as int,
                        if a >= b {
                            1u8
                        } else {
                            0u8
                        },
                    ),
                    ..m
                },
            )
        },
        Operation::ShiftRight(x) => {
            let a = m.registers[x as int];
            advanced(
                Machine {
                    registers: m.registers.update(x as int, a / 2).update(
                        FLAG_REGISTER as int,
                        a % 2,
                    ),
                    ..m
                },
            )
        },
        Operation::SubtractRegisterReversed(x, y) => {
            let a = m.registers[x as int];
            let b = m.registers[y as int];
            advanced(
                Machine {
                    registers: m.registers.update(x as int, ((b - a + 256) % 256) as u8).update(
                        FLAG_REGISTER as int,
                        if b >= a {
                            1u8
                        } else {
                            0u8
                        },
                    ),
                    ..m
                },
            )
        },
        Operation::ShiftLeft(x) => {
            let a = m.registers[x as int];
            advanced(
                Machine {
                    registers: m.registers.update(x as int, ((a * 2) % 256) as u8).update(
                        FLAG_REGISTER as int,
                        if a >= 128 {
                            1u8
                        } else {
                            0u8
                        },
                    ),
                    ..m
                },
            )
        },
        Operation::SetIndexRegister(a) => advanced(Machine { index_register: a, ..m }),
        Operation::JumpWithOffset(a) => Machine {
            program_counter: a + m.registers[0],
            ..m
        },
        Operation::RandomAnd(x, kk) => advanced(
            Machine {
                registers: m.registers.update(x as int, rng_byte(m.rng_state) & kk),
                rng_state: next_rng(m.rng_state),
                ..m
            },
        ),
        Operation::Draw(x, y, n) => advanced(
            Machine {
                framebuffer: draw_framebuffer(m, x, y, n),
                registers: m.registers.update(
                    FLAG_REGISTER as int,
                    if draw_collision(m, x, y, n) {
                        1u8
                    } else {
                        0u8
                    },
                ),
                ..m
            },
        ),
        Operation::SkipIfKeyPressed(x) => Machine {
            program_counter: m.program_counter + (if m.keys[(m.registers[x as int] % 16) as int] {
                4int
            } else {
                2int
            }),
            ..m
        },
        Operation::SkipIfKeyNotPressed(x) => Machine {
            program_counter: m.program_counter + (if !m.keys[(m.registers[x as int] % 16) as int] {
                4int
            } else {
                2int
            }),
            ..m
        },
        Operation::ReadDelayTimer(x) => advanced(reg_set(m, x, m.delay_timer)),
        Operation::WaitForKey(x) => match first_pressed_from(m.keys, 0) {
            Some(k) => advanced(reg_set(m, x, k)),
            None => m,
        },
        Operation::SetDelayTimer(x) => advanced(
            Machine { delay_timer: m.registers[x as int], ..m },
        ),
        Operation::SetSoundTimer(x) => advanced(
            Machine { sound_timer: m.registers[x as int], ..m },
        ),
        Operation::AddToIndex(x) => advanced(
            Machine {
                index_register: ((m.index_register + m.registers[x as int]) % (
                MEMORY_SIZE as int)) as u16,
                ..m
            },
        ),
        Operation::SetIndexToFont(x) => advanced(
            Machine { index_register: (5 * (m.registers[x as int] % 16)) as u16, ..m },
        ),
        Operation::StoreBcd(x) => advanced(
            Machine {
                memory: bcd_memory(m.memory, m.index_register as int, m.registers[x as int]),
                ..m
            },
        ),
        Operation::StoreRegisters(x) => advanced(
            Machine { memory: store_registers_memory(m, x), ..m },
        ),
        Operation::LoadRegisters(x) => advanced(
            Machine { registers: load_registers_registers(m, x), ..m },
        ),
        Operation::Unknown(_w) => advanced(m),
    }
}

/// The 16-bit word fetched big-endian at the program counter.
pub open spec fn fetch_word(m: Machine) -> u16 {
    ((m.memory[m.program_counter] as u16) << 8) | (m.memory[m.program_counter + 1] as u16)
}

/// One whole fetch-decode-execute cycle: halt with a fault when the second
/// fetch byte would fall outside memory, otherwise apply the decoded
/// operation's transition.
pub open spec fn tick_step(m: Machine) -> Machine {
    if m.program_counter + 1 >= MEMORY_SIZE {
        halted(m, Fault::ProgramCounterOutOfBounds)
    } else {
        step(m, crate::opcode::decode(fetch_word(m)))
    }
}

/// Up to `fuel` whole cycles, stopping early as soon as the machine is no
/// longer running.
pub open spec fn run_steps(m: Machine, fuel: nat) -> Machine
    decreases fuel,
{
    if fuel == 0 || !m.running {
        m
    } else {
        run_steps(tick_step(m), (fuel - 1) as nat)
    }
}

/// One 60 Hz timer tick: each timer counts down to zero and stays there.
pub open spec fn timer_step(m: Machine) -> Machine {
    Machine {
        delay_timer: if m.delay_timer > 0 {
            (m.delay_timer - 1) as u8
        } else {
            0u8
        },
        sound_timer: if m.sound_timer > 0 {
            (m.sound_timer - 1) as u8
        } else {
            0u8
        },
        ..m
    }
}

/// Every operation with well-formed operands preserves well-formedness,
/// provided both fetch bytes of the current instruction are inside memory
/// (the condition under which the engine executes at all).
pub proof fn lemma_step_preserves_wf(m: Machine, op: Operation)
    requires
        wf(m),
        crate::opcode::operation_wf(op),
        m.program_counter + 1 < MEMORY_SIZE,
    ensures
        wf(step(m, op)),
{
}

/// Add-with-carry law: for any pair of register values `a` and `b`, the
/// result register holds `(a + b) mod 256` and the flag register holds 1
/// exactly when `a + b` overflows a byte. The target register must not be
/// the flag register itself, which the carry write overrides.
pub proof fn lemma_add_register_with_carry(m: Machine, x: u8, y: u8)
    requires
        wf(m),
        x < 16,
        y < 16,
        x != FLAG_REGISTER as u8,
    ensures
        ({
            let a = m.registers[x as int] as int;
            let b = m.registers[y as int] as int;
            let m2 = step(m, Operation::AddRegisterWithCarry(x, y));
            &&& m2.registers[x as int] == (a + b) % 256
            &&& m2.registers[FLAG_REGISTER as int] == (if a + b > 255 {
                1u8
            } else {
                0u8
            })
        }),
{
}

/// Draw round-trip law: drawing the same sprite twice at the same position
/// with no other mutation restores the framebuffer, because XOR is its own
/// inverse. The register operands must not be the flag register, whose
/// collision write between the two draws could move the sprite.
pub proof fn lemma_draw_involutive(m: Machine, x: u8, y: u8, n: u8)
    requires
        wf(m),
        x < 16,
        y < 16,
        n < 16,
        x != FLAG_REGISTER as u8,
        y != FLAG_REGISTER as u8,
    ensures
        step(step(m, Operation::Draw(x, y, n)), Operation::Draw(x, y, n)).framebuffer
            == m.framebuffer,
{
    let m1 = step(m, Operation::Draw(x, y, n));
    let m2 = step(m1, Operation::Draw(x, y, n));
    assert forall|p: int| 0 <= p < SCREEN_PIXELS implies #[trigger] draw_mask_bit(m1, x, y, n, p)
        == draw_mask_bit(m, x, y, n, p) by {
        assert(m1.registers[x as int] == m.registers[x as int]);
        assert(m1.registers[y as int] == m.registers[y as int]);
    }
    assert(m2.framebuffer =~= m.framebuffer);
}

/// Call/return law: calling a subroutine and returning from it resumes at
/// the instruction immediately after the call, with the stack back at its
/// pre-call depth and registers, memory and running state untouched.
pub proof fn lemma_call_return(m: Machine, a: u16)
    requires
        wf(m),
        m.stack.len() < STACK_DEPTH,
        m.program_counter + 1 < MEMORY_SIZE,
    ensures
        ({
            let m1 = step(m, Operation::CallSubroutine(a));
            let m2 = step(m1, Operation::ReturnFromSubroutine);
            &&& m1.program_counter == a
            &&& m1.stack == m.stack.push((m.program_counter + 2) as u16)
            &&& m2.program_counter == m.program_counter + 2
            &&& m2.stack == m.stack
            &&& m2.registers == m.registers
            &&& m2.memory == m.memory
            &&& m2.running == m.running
            &&& m2.fault == m.fault
        }),
{
    let m1 = step(m, Operation::CallSubroutine(a));
    assert(m1.stack.drop_last() =~= m.stack);
}

/// Stack overflow law: a call made with the stack already at its bounded
/// depth halts the machine with a recorded fault instead of growing the
/// stack.
pub proof fn lemma_call_stack_overflow(m: Machine, a: u16)
    requires
        m.stack.len() >= STACK_DEPTH,
    ensures
        ({
            let m2 = step(m, Operation::CallSubroutine(a));
            &&& !m2.running
            &&& m2.fault == Some(Fault::StackOverflow)
            &&& m2.stack == m.stack
            &&& m2.program_counter == m.program_counter
        }),
{
}

/// Unknown-opcode law: an unrecognized word is a plain no-op advance of
/// the program counter by 2; it neither halts the machine nor touches any
/// other part of the state.
pub proof fn lemma_unknown_no_halt(m: Machine, w: u16)
    ensures
        step(m, Operation::Unknown(w)) == (Machine {
            program_counter: m.program_counter + 2,
            ..m
        }),
{
}

/// A whole cycle preserves well-formedness.
pub proof fn lemma_tick_step_preserves_wf(m: Machine)
    requires
        wf(m),
    ensures
        wf(tick_step(m)),
{
    if m.program_counter + 1 < MEMORY_SIZE {
        crate::opcode::lemma_decode_wf(fetch_word(m));
        lemma_step_preserves_wf(m, crate::opcode::decode(fetch_word(m)));
    }
}

} // verus!
