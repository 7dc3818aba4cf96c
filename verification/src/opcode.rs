//! The 16-bit CHIP-8 instruction word and its classification into a closed
//! set of operations.

use vstd::prelude::*;

verus! {

/// The 12-bit address operand, bits 0-11 of the instruction word.
pub open spec fn spec_addr(value: u16) -> u16 {
    value & 0x0FFF
}

/// The 8-bit immediate operand, bits 0-7.
pub open spec fn spec_kk(value: u16) -> u8 {
    (value & 0x00FF) as u8
}

/// The 4-bit immediate operand, bits 0-3.
pub open spec fn spec_n(value: u16) -> u8 {
    (value & 0x000F) as u8
}

/// The first register index, bits 8-11.
pub open spec fn spec_x(value: u16) -> u8 {
    ((value & 0x0F00) >> 8) as u8
}

/// The second register index, bits 4-7.
pub open spec fn spec_y(value: u16) -> u8 {
    ((value & 0x00F0) >> 4) as u8
}

/// Every operand field is bounded by its width: 12 bits for the address,
/// 4 bits for the nibble fields.
pub proof fn lemma_field_bounds(value: u16)
    by (bit_vector)
    ensures
        spec_addr(value) < 0x1000,
        spec_n(value) < 0x10,
        spec_x(value) < 0x10,
        spec_y(value) < 0x10,
{
}

/// A 16-bit CHIP-8 instruction word. Decoding its operand fields is a pure
/// function of the value; an `Opcode` is never mutated after construction.
#[derive(Clone, Copy, Debug, PartialEq, Eq, Structural)]
pub struct Opcode {
    pub value: u16,
}

impl Opcode {
    pub fn from(value: u16) -> (r: Self)
        ensures
            r.value == value,
    {
        Self { value }
    }

    /// The 12-bit address field, bits 0-11.
    pub fn _nnn(&self) -> (r: u16)
        ensures
            r == spec_addr(self.value),
            r < 0x1000,
    {
        proof {
            lemma_field_bounds(self.value);
        }
        self.value & 0x0FFF
    }

    /// The 8-bit immediate field, bits 0-7.
    pub fn __nn(&self) -> (r: u8)
        ensures
            r == spec_kk(self.value),
    {
        (self.value & 0x00FF) as u8
    }

    /// The 4-bit immediate field, bits 0-3.
    pub fn ___n(&self) -> (r: u8)
        ensures
            r == spec_n(self.value),
            r < 0x10,
    {
        proof {
            lemma_field_bounds(self.value);
        }
        (self.value & 0x000F) as u8
    }

    /// The first register index, bits 8-11.
    pub fn _x__(&self) -> (r: u8)
        ensures
            r == spec_x(self.value),
            r < 0x10,
    {
        proof {
            lemma_field_bounds(self.value);
        }
        ((self.value & 0x0F00) >> 8) as u8
    }

    /// The second register index, bits 4-7.
    pub fn __y_(&self) -> (r: u8)
        ensures
            r == spec_y(self.value),
            r < 0x10,
    {
        proof {
            lemma_field_bounds(self.value);
        }
        ((self.value & 0x00F0) >> 4) as u8
    }
}

/// The closed set of instruction variants, one per supported CHIP-8
/// instruction, each carrying exactly the operand fields it needs. A word
/// that matches no variant classifies as `Unknown`, never as an abort.
#[derive(Clone, Copy, Debug, PartialEq, Eq, Structural)]
pub enum Operation {
    ClearScreen,
    ReturnFromSubroutine,
    Jump(u16),
    CallSubroutine(u16),
    SkipIfEqual(u8, u8),
    SkipIfNotEqual(u8, u8),
    SkipIfRegistersEqual(u8, u8),
    SkipIfRegistersNotEqual(u8, u8),
    SetRegister(u8, u8),
    AddRegister(u8, u8),
    CopyRegister(u8, u8),
    OrRegister(u8, u8),
    AndRegister(u8, u8),
    XorRegister(u8, u8),
    AddRegisterWithCarry(u8, u8),
    SubtractRegister(u8, u8),
    ShiftRight(u8),
    SubtractRegisterReversed(u8, u8),
    ShiftLeft(u8),
    SetIndexRegister(u16),
    JumpWithOffset(u16),
    RandomAnd(u8, u8),
    Draw(u8, u8, u8),
    SkipIfKeyPressed(u8),
    SkipIfKeyNotPressed(u8),
    ReadDelayTimer(u8),
    WaitForKey(u8),
    SetDelayTimer(u8),
    SetSoundTimer(u8),
    AddToIndex(u8),
    SetIndexToFont(u8),
    StoreBcd(u8),
    StoreRegisters(u8),
    LoadRegisters(u8),
    Unknown(u16),
}

/// Classification of the `0x8xy_` arithmetic family by its lowest nibble.
pub open spec fn decode_arithmetic(value: u16) -> Operation {
    let x = spec_x(value);
    let y = spec_y(value);
    let n = spec_n(value);
    if n == 0x0 {
        Operation::CopyRegister(x, y)
    } else if n == 0x1 {
        Operation::OrRegister(x, y)
    } else if n == 0x2 {
        Operation::AndRegister(x, y)
    } else if n == 0x3 {
        Operation::XorRegister(x, y)
    } else if n == 0x4 {
        Operation::AddRegisterWithCarry(x, y)
    } else if n == 0x5 {
        Operation::SubtractRegister(x, y)
    } else if n == 0x6 {
        Operation::ShiftRight(x)
    } else if n == 0x7 {
        Operation::SubtractRegisterReversed(x, y)
    } else if n == 0xE {
        Operation::ShiftLeft(x)
    } else {
        Operation::Unknown(value)
    }
}

/// Classification of the `0xFx__` family by its lowest byte.
pub open spec fn decode_misc(value: u16) -> Operation {
    let x = spec_x(value);
    let kk = spec_kk(value);
    if kk == 0x07 {
        Operation::ReadDelayTimer(x)
    } else if kk == 0x0A {
        Operation::WaitForKey(x)
    } else if kk == 0x15 {
        Operation::SetDelayTimer(x)
    } else if kk == 0x18 {
        Operation::SetSoundTimer(x)
    } else if kk == 0x1E {
        Operation::AddToIndex(x)
    } else if kk == 0x29 {
        Operation::SetIndexToFont(x)
    } else if kk == 0x33 {
        Operation::StoreBcd(x)
    } else if kk == 0x55 {
        Operation::StoreRegisters(x)
    } else if kk == 0x65 {
        Operation::LoadRegisters(x)
    } else {
        Operation::Unknown(value)
    }
}

/// Total classification of a 16-bit word: the highest nibble selects the
/// instruction family, and families that hold several instructions are
/// disambiguated by the lowest nibble or lowest byte. Every 16-bit value
/// maps to exactly one variant; values outside the instruction set map to
/// `Unknown`.
pub open spec fn decode(value: u16) -> Operation {
    let high = value >> 12;
    if value == 0x00E0 {
        Operation::ClearScreen
    } else if value == 0x00EE {
        Operation::ReturnFromSubroutine
    } else if high == 0x1 {
        Operation::Jump(spec_addr(value))
    } else if high == 0x2 {
        Operation::CallSubroutine(spec_addr(value))
    } else if high == 0x3 {
        Operation::SkipIfEqual(spec_x(value), spec_kk(value))
    } else if high == 0x4 {
        Operation::SkipIfNotEqual(spec_x(value), spec_kk(value))
    } else if high == 0x5 && spec_n(value) == 0x0 {
        Operation::SkipIfRegistersEqual(spec_x(value), spec_y(value))
    } else if high == 0x6 {
        Operation::SetRegister(spec_x(value), spec_kk(value))
    } else if high == 0x7 {
        Operation::AddRegister(spec_x(value), spec_kk(value))
    } else if high == 0x8 {
        decode_arithmetic(value)
    } else if high == 0x9 && spec_n(value) == 0x0 {
        Operation::SkipIfRegistersNotEqual(spec_x(value), spec_y(value))
    } else if high == 0xA {
        Operation::SetIndexRegister(spec_addr(value))
    } else if high == 0xB {
        Operation::JumpWithOffset(spec_addr(value))
    } else if high == 0xC {
        Operation::RandomAnd(spec_x(value), spec_kk(value))
    } else if high == 0xD {
        Operation::Draw(spec_x(value), spec_y(value), spec_n(value))
    } else if high == 0xE && spec_kk(value) == 0x9E {
        Operation::SkipIfKeyPressed(spec_x(value))
    } else if high == 0xE && spec_kk(value) == 0xA1 {
        Operation::SkipIfKeyNotPressed(spec_x(value))
    } else if high == 0xF {
        decode_misc(value)
    } else {
        Operation::Unknown(value)
    }
}

/// Every operand a decoded operation carries is within the range its field
/// width allows: register indices and nibbles below 16, addresses below
/// 4096.
pub open spec fn operation_wf(op: Operation) -> bool {
    match op {
        Operation::ClearScreen => true,
        Operation::ReturnFromSubroutine => true,
        Operation::Jump(a) => a < 0x1000,
        Operation::CallSubroutine(a) => a < 0x1000,
        Operation::SkipIfEqual(x, _kk) => x < 16,
        Operation::SkipIfNotEqual(x, _kk) => x < 16,
        Operation::SkipIfRegistersEqual(x, y) => x < 16 && y < 16,
        Operation::SkipIfRegistersNotEqual(x, y) => x < 16 && y < 16,
        Operation::SetRegister(x, _kk) => x < 16,
        Operation::AddRegister(x, _kk) => x < 16,
        Operation::CopyRegister(x, y) => x < 16 && y < 16,
        Operation::OrRegister(x, y) => x < 16 && y < 16,
        Operation::AndRegister(x, y) => x < 16 && y < 16,
        Operation::XorRegister(x, y) => x < 16 && y < 16,
        Operation::AddRegisterWithCarry(x, y) => x < 16 && y < 16,
        Operation::SubtractRegister(x, y) => x < 16 && y < 16,
        Operation::ShiftRight(x) => x < 16,
        Operation::SubtractRegisterReversed(x, y) => x < 16 && y < 16,
        Operation::ShiftLeft(x) => x < 16,
        Operation::SetIndexRegister(a) => a < 0x1000,
        Operation::JumpWithOffset(a) => a < 0x1000,
        Operation::RandomAnd(x, _kk) => x < 16,
        Operation::Draw(x, y, n) => x < 16 && y < 16 && n < 16,
        Operation::SkipIfKeyPressed(x) => x < 16,
        Operation::SkipIfKeyNotPressed(x) => x < 16,
        Operation::ReadDelayTimer(x) => x < 16,
        Operation::WaitForKey(x) => x < 16,
        Operation::SetDelayTimer(x) => x < 16,
        Operation::SetSoundTimer(x) => x < 16,
        Operation::AddToIndex(x) => x < 16,
        Operation::SetIndexToFont(x) => x < 16,
        Operation::StoreBcd(x) => x < 16,
        Operation::StoreRegisters(x) => x < 16,
        Operation::LoadRegisters(x) => x < 16,
        Operation::Unknown(_w) => true,
    }
}

/// Decoding any 16-bit word yields an operation whose operands are within
/// their field widths.
pub proof fn lemma_decode_wf(value: u16)
    ensures
        operation_wf(decode(value)),
{
    lemma_field_bounds(value);
}

/// Decoding is total and deterministic: it is a function of the 16-bit
/// value alone, so decoding the same value twice yields equal operations.
pub proof fn lemma_decode_deterministic(a: u16, b: u16)
    requires
        a == b,
    ensures
        decode(a) == decode(b),
{
}

impl Operation {
    /// Classify an instruction word per the two-level nibble match.
    pub fn from(opcode: Opcode) -> (r: Self)
        ensures
            r == decode(opcode.value),
            operation_wf(r),
    {
        proof {
            lemma_decode_wf(opcode.value);
        }
        let value = opcode.value;
        let high = value >> 12;
        if value == 0x00E0 {
            Self::ClearScreen
        } else if value == 0x00EE {
            Self::ReturnFromSubroutine
        } else if high == 0x1 {
            Self::Jump(opcode._nnn())
        } else if high == 0x2 {
            Self::CallSubroutine(opcode._nnn())
        } else if high == 0x3 {
            Self::SkipIfEqual(opcode._x__(), opcode.__nn())
        } else if high == 0x4 {
            Self::SkipIfNotEqual(opcode._x__(), opcode.__nn())
        } else if high == 0x5 && opcode.___n() == 0x0 {
            Self::SkipIfRegistersEqual(opcode._x__(), opcode.__y_())
        } else if high == 0x6 {
            Self::SetRegister(opcode._x__(), opcode.__nn())
        } else if high == 0x7 {
            Self::AddRegister(opcode._x__(), opcode.__nn())
        } else if high == 0x8 {
            Self::from_arithmetic(opcode)
        } else if high == 0x9 && opcode.___n() == 0x0 {
            Self::SkipIfRegistersNotEqual(opcode._x__(), opcode.__y_())
        } else if high == 0xA {
            Self::SetIndexRegister(opcode._nnn())
        } else if high == 0xB {
            Self::JumpWithOffset(opcode._nnn())
        } else if high == 0xC {
            Self::RandomAnd(opcode._x__(), opcode.__nn())
        } else if high == 0xD {
            Self::Draw(opcode._x__(), opcode.__y_(), opcode.___n())
        } else if high == 0xE && opcode.__nn() == 0x9E {
            Self::SkipIfKeyPressed(opcode._x__())
        } else if high == 0xE && opcode.__nn() == 0xA1 {
            Self::SkipIfKeyNotPressed(opcode._x__())
        } else if high == 0xF {
            Self::from_misc(opcode)
        } else {
            Self::Unknown(value)
        }
    }

    fn from_arithmetic(opcode: Opcode) -> (r: Self)
        ensures
            r == decode_arithmetic(opcode.value),
    {
        let n = opcode.___n();
        if n == 0x0 {
            Self::CopyRegister(opcode._x__(), opcode.__y_())
        } else if n == 0x1 {
            Self::OrRegister(opcode._x__(), opcode.__y_())
        } else if n == 0x2 {
            Self::AndRegister(opcode._x__(), opcode.__y_())
        } else if n == 0x3 {
            Self::XorRegister(opcode._x__(), opcode.__y_())
        } else if n == 0x4 {
            Self::AddRegisterWithCarry(opcode._x__(), opcode.__y_())
        } else if n == 0x5 {
            Self::SubtractRegister(opcode._x__(), opcode.__y_())
        } else if n == 0x6 {
            Self::ShiftRight(opcode._x__())
        } else if n == 0x7 {
            Self::SubtractRegisterReversed(opcode._x__(), opcode.__y_())
        } else if n == 0xE {
            Self::ShiftLeft(opcode._x__())
        } else {
            Self::Unknown(opcode.value)
        }
    }

    fn from_misc(opcode: Opcode) -> (r: Self)
        ensures
            r == decode_misc(opcode.value),
    {
        let kk = opcode.__nn();
        if kk == 0x07 {
            Self::ReadDelayTimer(opcode._x__())
        } else if kk == 0x0A {
            Self::WaitForKey(opcode._x__())
        } else if kk == 0x15 {
            Self::SetDelayTimer(opcode._x__())
        } else if kk == 0x18 {
            Self::SetSoundTimer(opcode._x__())
        } else if kk == 0x1E {
            Self::AddToIndex(opcode._x__())
        } else if kk == 0x29 {
            Self::SetIndexToFont(opcode._x__())
        } else if kk == 0x33 {
            Self::StoreBcd(opcode._x__())
        } else if kk == 0x55 {
            Self::StoreRegisters(opcode._x__())
        } else if kk == 0x65 {
            Self::LoadRegisters(opcode._x__())
        } else {
            Self::Unknown(opcode.value)
        }
    }
}

} // verus!
