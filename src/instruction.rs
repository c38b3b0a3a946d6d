use vstd::prelude::*;

verus! {

/// A decoded instruction word. Register operands are indices `0..16`,
/// addresses are 12-bit, immediates are bytes, and sprite heights are
/// nibbles.
#[derive(Debug, Clone, Copy, PartialEq, Eq, Structural)]
pub enum Instruction {
    /// `00E0`: clear the display.
    ClearScreen,
    /// `00EE`: return from a subroutine.
    Return,
    /// `1NNN`: jump to `NNN`.
    Jump(u16),
    /// `2NNN`: call the subroutine at `NNN`.
    Call(u16),
    /// `3XNN`: skip the next instruction if `Vx == NN`.
    SkipEqImm(u8, u8),
    /// `4XNN`: skip the next instruction if `Vx != NN`.
    SkipNeImm(u8, u8),
    /// `5XY0`: skip the next instruction if `Vx == Vy`.
    SkipEqReg(u8, u8),
    /// `6XNN`: `Vx := NN`.
    SetImm(u8, u8),
    /// `7XNN`: `Vx := Vx + NN`, wrapping, flag untouched.
    AddImm(u8, u8),
    /// `8XY0`: `Vx := Vy`.
    Mov(u8, u8),
    /// `8XY1`: `Vx := Vx | Vy`.
    Or(u8, u8),
    /// `8XY2`: `Vx := Vx & Vy`.
    And(u8, u8),
    /// `8XY3`: `Vx := Vx ^ Vy`.
    Xor(u8, u8),
    /// `8XY4`: `Vx := Vx + Vy`, wrapping; `VF` is the carry.
    AddReg(u8, u8),
    /// `8XY5`: `Vx := Vx - Vy`, wrapping; `VF` is 1 when no borrow occurs.
    SubReg(u8, u8),
    /// `8XY6`: `Vx := Vy >> 1`; `VF` is the bit shifted out.
    ShiftRight(u8, u8),
    /// `8XY7`: `Vx := Vy - Vx`, wrapping; `VF` is 1 when no borrow occurs.
    SubNeg(u8, u8),
    /// `8XYE`: `Vx := Vy << 1`, wrapping; `VF` is the bit shifted out.
    ShiftLeft(u8, u8),
    /// `9XY0`: skip the next instruction if `Vx != Vy`.
    SkipNeReg(u8, u8),
    /// `ANNN`: `I := NNN`.
    SetIndex(u16),
    /// `BNNN`: jump to `NNN + V0`.
    JumpOffset(u16),
    /// `CXNN`: `Vx := random byte & NN`.
    Random(u8, u8),
    /// `DXYN`: draw the `N`-byte sprite at `I` at `(Vx, Vy)`.
    Draw(u8, u8, u8),
    /// `EX9E`: skip the next instruction if key `Vx` is pressed.
    SkipKey(u8),
    /// `EXA1`: skip the next instruction if key `Vx` is not pressed.
    SkipNotKey(u8),
    /// `FX07`: `Vx := delay timer`.
    GetDelay(u8),
    /// `FX0A`: wait for a key press and store the key in `Vx`.
    WaitKey(u8),
    /// `FX15`: `delay timer := Vx`.
    SetDelay(u8),
    /// `FX18`: `sound timer := Vx`.
    SetSound(u8),
    /// `FX1E`: `I := I + Vx`, wrapping at 16 bits.
    AddIndex(u8),
    /// `FX29`: `I :=` address of the font glyph for the low nibble of `Vx`.
    FontChar(u8),
    /// `FX33`: store the decimal digits of `Vx` at `I`, `I+1`, `I+2`.
    Bcd(u8),
    /// `FX55`: store `V0..=Vx` at `I..`; `I` is left unchanged.
    StoreRegs(u8),
    /// `FX65`: load `V0..=Vx` from `I..`; `I` is left unchanged.
    LoadRegs(u8),
    /// A word that encodes no instruction.
    Unknown(u16),
}

/// Top nibble: the instruction family.
pub open spec fn family(w: u16) -> u16 {
    w / 4096
}

/// Second nibble: the `X` register operand.
pub open spec fn nib_x(w: u16) -> u8 {
    ((w / 256) % 16) as u8
}

/// Third nibble: the `Y` register operand.
pub open spec fn nib_y(w: u16) -> u8 {
    ((w / 16) % 16) as u8
}

/// Low nibble.
pub open spec fn nib_n(w: u16) -> u8 {
    (w % 16) as u8
}

/// Low byte: the immediate operand.
pub open spec fn low_byte(w: u16) -> u8 {
    (w % 256) as u8
}

/// Low twelve bits: the address operand.
pub open spec fn addr_of(w: u16) -> u16 {
    w % 4096
}

/// The instruction that the word `w` encodes.
pub open spec fn decode_spec(w: u16) -> Instruction {
    let x = nib_x(w);
    let y = nib_y(w);
    let n = nib_n(w);
    let nn = low_byte(w);
    let nnn = addr_of(w);
    if w == 0x00E0 {
        Instruction::ClearScreen
    } else if w == 0x00EE {
        Instruction::Return
    } else if family(w) == 1 {
        Instruction::Jump(nnn)
    } else if family(w) == 2 {
        Instruction::Call(nnn)
    } else if family(w) == 3 {
        Instruction::SkipEqImm(x, nn)
    } else if family(w) == 4 {
        Instruction::SkipNeImm(x, nn)
    } else if family(w) == 5 && n == 0 {
        Instruction::SkipEqReg(x, y)
    } else if family(w) == 6 {
        Instruction::SetImm(x, nn)
    } else if family(w) == 7 {
        Instruction::AddImm(x, nn)
    } else if family(w) == 8 && n == 0 {
        Instruction::Mov(x, y)
    } else if family(w) == 8 && n == 1 {
        Instruction::Or(x, y)
    } else if family(w) == 8 && n == 2 {
        Instruction::And(x, y)
    } else if family(w) == 8 && n == 3 {
        Instruction::Xor(x, y)
    } else if family(w) == 8 && n == 4 {
        Instruction::AddReg(x, y)
    } else if family(w) == 8 && n == 5 {
        Instruction::SubReg(x, y)
    } else if family(w) == 8 && n == 6 {
        Instruction::ShiftRight(x, y)
    } else if family(w) == 8 && n == 7 {
        Instruction::SubNeg(x, y)
    } else if family(w) == 8 && n == 0xE {
        Instruction::ShiftLeft(x, y)
    } else if family(w) == 9 && n == 0 {
        Instruction::SkipNeReg(x, y)
    } else if family(w) == 0xA {
        Instruction::SetIndex(nnn)
    } else if family(w) == 0xB {
        Instruction::JumpOffset(nnn)
    } else if family(w) == 0xC {
        Instruction::Random(x, nn)
    } else if family(w) == 0xD {
        Instruction::Draw(x, y, n)
    } else if family(w) == 0xE && nn == 0x9E {
        Instruction::SkipKey(x)
    } else if family(w) == 0xE && nn == 0xA1 {
        Instruction::SkipNotKey(x)
    } else if family(w) == 0xF && nn == 0x07 {
        Instruction::GetDelay(x)
    } else if family(w) == 0xF && nn == 0x0A {
        Instruction::WaitKey(x)
    } else if family(w) == 0xF && nn == 0x15 {
        Instruction::SetDelay(x)
    } else if family(w) == 0xF && nn == 0x18 {
        Instruction::SetSound(x)
    } else if family(w) == 0xF && nn == 0x1E {
        Instruction::AddIndex(x)
    } else if family(w) == 0xF && nn == 0x29 {
        Instruction::FontChar(x)
    } else if family(w) == 0xF && nn == 0x33 {
        Instruction::Bcd(x)
    } else if family(w) == 0xF && nn == 0x55 {
        Instruction::StoreRegs(x)
    } else if family(w) == 0xF && nn == 0x65 {
        Instruction::LoadRegs(x)
    } else {
        Instruction::Unknown(w)
    }
}

impl Instruction {
    /// Register operands name one of the sixteen registers, addresses fit
    /// in twelve bits and sprite heights in a nibble.
    pub open spec fn wf(self) -> bool {
        match self {
            Instruction::Jump(a) | Instruction::Call(a) | Instruction::SetIndex(a)
            | Instruction::JumpOffset(a) => a < 4096,
            Instruction::SkipEqImm(x, _) | Instruction::SkipNeImm(x, _) | Instruction::SetImm(
                x,
                _,
            ) | Instruction::AddImm(x, _) | Instruction::Random(x, _) => x < 16,
            Instruction::SkipEqReg(x, y) | Instruction::SkipNeReg(x, y) | Instruction::Mov(x, y)
            | Instruction::Or(x, y) | Instruction::And(x, y) | Instruction::Xor(x, y)
            | Instruction::AddReg(x, y) | Instruction::SubReg(x, y) | Instruction::ShiftRight(
                x,
                y,
            ) | Instruction::SubNeg(x, y) | Instruction::ShiftLeft(x, y) => x < 16 && y < 16,
            Instruction::Draw(x, y, n) => x < 16 && y < 16 && n < 16,
            Instruction::SkipKey(x) | Instruction::SkipNotKey(x) | Instruction::GetDelay(x)
            | Instruction::WaitKey(x) | Instruction::SetDelay(x) | Instruction::SetSound(x)
            | Instruction::AddIndex(x) | Instruction::FontChar(x) | Instruction::Bcd(x)
            | Instruction::StoreRegs(x) | Instruction::LoadRegs(x) => x < 16,
            _ => true,
        }
    }

    /// Splits the word `w` into its nibble fields and names the instruction
    /// it encodes; a word outside the instruction set decodes to `Unknown`.
    pub fn decode(w: u16) -> (r: Instruction)
        ensures
            r == decode_spec(w),
            r.wf(),
    {
        let fam: u16 = w / 4096;
        let x: u8 = ((w / 256) % 16) as u8;
        let y: u8 = ((w / 16) % 16) as u8;
        let n: u8 = (w % 16) as u8;
        let nn: u8 = (w % 256) as u8;
        let nnn: u16 = w % 4096;
        if w == 0x00E0 {
            Instruction::ClearScreen
        } else if w == 0x00EE {
            Instruction::Return
        } else if fam == 1 {
            Instruction::Jump(nnn)
        } else if fam == 2 {
            Instruction::Call(nnn)
        } else if fam == 3 {
            Instruction::SkipEqImm(x, nn)
        } else if fam == 4 {
            Instruction::SkipNeImm(x, nn)
        } else if fam == 5 && n == 0 {
            Instruction::SkipEqReg(x, y)
        } else if fam == 6 {
            Instruction::SetImm(x, nn)
        } else if fam == 7 {
            Instruction::AddImm(x, nn)
        } else if fam == 8 {
            if n == 0 {
                Instruction::Mov(x, y)
            } else if n == 1 {
                Instruction::Or(x, y)
            } else if n == 2 {
                Instruction::And(x, y)
            } else if n == 3 {
                Instruction::Xor(x, y)
            } else if n == 4 {
                Instruction::AddReg(x, y)
            } else if n == 5 {
                Instruction::SubReg(x, y)
            } else if n == 6 {
                Instruction::ShiftRight(x, y)
            } else if n == 7 {
                Instruction::SubNeg(x, y)
            } else if n == 0xE {
                Instruction::ShiftLeft(x, y)
            } else {
                Instruction::Unknown(w)
            }
        } else if fam == 9 && n == 0 {
            Instruction::SkipNeReg(x, y)
        } else if fam == 0xA {
            Instruction::SetIndex(nnn)
        } else if fam == 0xB {
            Instruction::JumpOffset(nnn)
        } else if fam == 0xC {
            Instruction::Random(x, nn)
        } else if fam == 0xD {
            Instruction::Draw(x, y, n)
        } else if fam == 0xE && nn == 0x9E {
            Instruction::SkipKey(x)
        } else if fam == 0xE && nn == 0xA1 {
            Instruction::SkipNotKey(x)
        } else if fam == 0xF {
            if nn == 0x07 {
                Instruction::GetDelay(x)
            } else if nn == 0x0A {
                Instruction::WaitKey(x)
            } else if nn == 0x15 {
                Instruction::SetDelay(x)
            } else if nn == 0x18 {
                Instruction::SetSound(x)
            } else if nn == 0x1E {
                Instruction::AddIndex(x)
            } else if nn == 0x29 {
                Instruction::FontChar(x)
            } else if nn == 0x33 {
                Instruction::Bcd(x)
            } else if nn == 0x55 {
                Instruction::StoreRegs(x)
            } else if nn == 0x65 {
                Instruction::LoadRegs(x)
            } else {
                Instruction::Unknown(w)
            }
        } else {
            Instruction::Unknown(w)
        }
    }
}

} // verus!
