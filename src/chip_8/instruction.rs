use vstd::prelude::*;

verus! {

/// A decoded instruction. Register operands `x` and `y` are below 16, `n` is
/// below 16 and `nnn` is below 4096.
#[derive(Debug, Clone, Copy, PartialEq, Eq, Structural)]
pub enum Instruction {
    /// 00E0: clear the display.
    Cls,
    /// 00EE: return from a subroutine.
    Ret,
    /// 1nnn: jump to nnn.
    Jp { nnn: u16 },
    /// 2nnn: call the subroutine at nnn.
    Call { nnn: u16 },
    /// 3xkk: skip the next instruction if V[x] == kk.
    SeByte { x: u8, kk: u8 },
    /// 4xkk: skip the next instruction if V[x] != kk.
    SneByte { x: u8, kk: u8 },
    /// 5xy0: skip the next instruction if V[x] == V[y].
    SeReg { x: u8, y: u8 },
    /// 6xkk: V[x] := kk.
    LdByte { x: u8, kk: u8 },
    /// 7xkk: V[x] := V[x] + kk, wrapping.
    AddByte { x: u8, kk: u8 },
    /// 8xy0: V[x] := V[y].
    LdReg { x: u8, y: u8 },
    /// 8xy1: V[x] := V[x] | V[y].
    Or { x: u8, y: u8 },
    /// 8xy2: V[x] := V[x] & V[y].
    And { x: u8, y: u8 },
    /// 8xy3: V[x] := V[x] ^ V[y].
    Xor { x: u8, y: u8 },
    /// 8xy4: V[x] := V[x] + V[y], VF := carry.
    AddReg { x: u8, y: u8 },
    /// 8xy5: V[x] := V[x] - V[y], VF := no borrow.
    Sub { x: u8, y: u8 },
    /// 8xy6: V[x] := V[x] >> 1, VF := the bit shifted out.
    Shr { x: u8, y: u8 },
    /// 8xy7: V[x] := V[y] - V[x], VF := no borrow.
    Subn { x: u8, y: u8 },
    /// 8xyE: V[x] := V[x] << 1, VF := the bit shifted out.
    Shl { x: u8, y: u8 },
    /// 9xy0: skip the next instruction if V[x] != V[y].
    SneReg { x: u8, y: u8 },
    /// Annn: I := nnn.
    LdI { nnn: u16 },
    /// Bnnn: jump to nnn + V[0].
    JpV0 { nnn: u16 },
    /// Cxkk: V[x] := random byte & kk.
    Rnd { x: u8, kk: u8 },
    /// Dxyn: draw the n-row sprite at I at (V[x], V[y]).
    Drw { x: u8, y: u8, n: u8 },
    /// Ex9E: skip the next instruction if key V[x] is pressed.
    Skp { x: u8 },
    /// ExA1: skip the next instruction if key V[x] is not pressed.
    Sknp { x: u8 },
    /// Fx07: V[x] := DT.
    LdVxDt { x: u8 },
    /// Fx0A: wait for a key press and store its index in V[x].
    LdKey { x: u8 },
    /// Fx15: DT := V[x].
    LdDtVx { x: u8 },
    /// Fx18: ST := V[x].
    LdStVx { x: u8 },
    /// Fx1E: I := I + V[x], wrapping.
    AddI { x: u8 },
    /// Fx29: I := address of the font glyph for digit V[x].
    LdFont { x: u8 },
    /// Fx33: store the decimal digits of V[x] at I, I+1, I+2.
    LdBcd { x: u8 },
    /// Fx55: store V[0] through V[x] at I onward.
    StoreRegs { x: u8 },
    /// Fx65: load V[0] through V[x] from I onward.
    LoadRegs { x: u8 },
}

/// The 12-bit address field.
pub open spec fn nnn_of(w: u16) -> u16 {
    w & 0x0FFF
}

/// The 4-bit immediate field.
pub open spec fn n_of(w: u16) -> u8 {
    (w & 0x000F) as u8
}

/// The first register field.
pub open spec fn x_of(w: u16) -> u8 {
    ((w >> 8u16) & 0x0F) as u8
}

/// The second register field.
pub open spec fn y_of(w: u16) -> u8 {
    ((w >> 4u16) & 0x0F) as u8
}

/// The 8-bit immediate field.
pub open spec fn kk_of(w: u16) -> u8 {
    (w & 0x00FF) as u8
}

/// The operation family, the high nibble.
pub open spec fn family_of(w: u16) -> u16 {
    w >> 12u16
}

/// The instruction that the word `w` encodes, if any.
pub open spec fn decode_spec(w: u16) -> Option<Instruction> {
    let nnn = nnn_of(w);
    let n = n_of(w);
    let x = x_of(w);
    let y = y_of(w);
    let kk = kk_of(w);
    let f = family_of(w);
    if w == 0x00E0 {
        Some(Instruction::Cls)
    } else if w == 0x00EE {
        Some(Instruction::Ret)
    } else if f == 1 {
        Some(Instruction::Jp { nnn })
    } else if f == 2 {
        Some(Instruction::Call { nnn })
    } else if f == 3 {
        Some(Instruction::SeByte { x, kk })
    } else if f == 4 {
        Some(Instruction::SneByte { x, kk })
    } else if f == 5 && n == 0 {
        Some(Instruction::SeReg { x, y })
    } else if f == 6 {
        Some(Instruction::LdByte { x, kk })
    } else if f == 7 {
        Some(Instruction::AddByte { x, kk })
    } else if f == 8 && n == 0 {
        Some(Instruction::LdReg { x, y })
    } else if f == 8 && n == 1 {
        Some(Instruction::Or { x, y })
    } else if f == 8 && n == 2 {
        Some(Instruction::And { x, y })
    } else if f == 8 && n == 3 {
        Some(Instruction::Xor { x, y })
    } else if f == 8 && n == 4 {
        Some(Instruction::AddReg { x, y })
    } else if f == 8 && n == 5 {
        Some(Instruction::Sub { x, y })
    } else if f == 8 && n == 6 {
        Some(Instruction::Shr { x, y })
    } else if f == 8 && n == 7 {
        Some(Instruction::Subn { x, y })
    } else if f == 8 && n == 0xE {
        Some(Instruction::Shl { x, y })
    } else if f == 9 && n == 0 {
        Some(Instruction::SneReg { x, y })
    } else if f == 0xA {
        Some(Instruction::LdI { nnn })
    } else if f == 0xB {
        Some(Instruction::JpV0 { nnn })
    } else if f == 0xC {
        Some(Instruction::Rnd { x, kk })
    } else if f == 0xD {
        Some(Instruction::Drw { x, y, n })
    } else if f == 0xE && kk == 0x9E {
        Some(Instruction::Skp { x })
    } else if f == 0xE && kk == 0xA1 {
        Some(Instruction::Sknp { x })
    } else if f == 0xF && kk == 0x07 {
        Some(Instruction::LdVxDt { x })
    } else if f == 0xF && kk == 0x0A {
        Some(Instruction::LdKey { x })
    } else if f == 0xF && kk == 0x15 {
        Some(Instruction::LdDtVx { x })
    } else if f == 0xF && kk == 0x18 {
        Some(Instruction::LdStVx { x })
    } else if f == 0xF && kk == 0x1E {
        Some(Instruction::AddI { x })
    } else if f == 0xF && kk == 0x29 {
        Some(Instruction::LdFont { x })
    } else if f == 0xF && kk == 0x33 {
        Some(Instruction::LdBcd { x })
    } else if f == 0xF && kk == 0x55 {
        Some(Instruction::StoreRegs { x })
    } else if f == 0xF && kk == 0x65 {
        Some(Instruction::LoadRegs { x })
    } else {
        None
    }
}

/// Operand fields are within their widths.
pub proof fn lemma_field_bounds(w: u16)
    ensures
        nnn_of(w) < 4096,
        n_of(w) < 16,
        x_of(w) < 16,
        y_of(w) < 16,
        family_of(w) < 16,
{
    assert(w & 0x0FFF < 4096) by (bit_vector);
    assert((w & 0x000F) < 16) by (bit_vector);
    assert(((w >> 8u16) & 0x0F) < 16) by (bit_vector);
    assert(((w >> 4u16) & 0x0F) < 16) by (bit_vector);
    assert(w >> 12u16 < 16) by (bit_vector);
}

/// Whether the operand fields of `ins` are within their widths.
pub open spec fn operands_in_range(ins: Instruction) -> bool {
    match ins {
        Instruction::Jp { nnn } | Instruction::Call { nnn } | Instruction::LdI { nnn }
        | Instruction::JpV0 { nnn } => nnn < 4096,
        Instruction::SeByte { x, .. } | Instruction::SneByte { x, .. }
        | Instruction::LdByte { x, .. } | Instruction::AddByte { x, .. }
        | Instruction::Rnd { x, .. } | Instruction::Skp { x } | Instruction::Sknp { x }
        | Instruction::LdVxDt { x } | Instruction::LdKey { x } | Instruction::LdDtVx { x }
        | Instruction::LdStVx { x } | Instruction::AddI { x } | Instruction::LdFont { x }
        | Instruction::LdBcd { x } | Instruction::StoreRegs { x }
        | Instruction::LoadRegs { x } => x < 16,
        Instruction::SeReg { x, y } | Instruction::LdReg { x, y } | Instruction::Or { x, y }
        | Instruction::And { x, y } | Instruction::Xor { x, y } | Instruction::AddReg { x, y }
        | Instruction::Sub { x, y } | Instruction::Shr { x, y } | Instruction::Subn { x, y }
        | Instruction::Shl { x, y } | Instruction::SneReg { x, y } => x < 16 && y < 16,
        Instruction::Drw { x, y, n } => x < 16 && y < 16 && n < 16,
        Instruction::Cls | Instruction::Ret => true,
    }
}

/// Decodes one instruction word.
pub fn decode(w: u16) -> (r: Option<Instruction>)
    ensures
        r == decode_spec(w),
        r matches Some(ins) ==> operands_in_range(ins),
{
    proof {
        lemma_field_bounds(w);
    }
    let nnn: u16 = w & 0x0FFF;
    let n: u8 = (w & 0x000F) as u8;
    let x: u8 = ((w >> 8u16) & 0x0F) as u8;
    let y: u8 = ((w >> 4u16) & 0x0F) as u8;
    let kk: u8 = (w & 0x00FF) as u8;
    let f: u16 = w >> 12u16;
    if w == 0x00E0 {
        Some(Instruction::Cls)
    } else if w == 0x00EE {
        Some(Instruction::Ret)
    } else if f == 1 {
        Some(Instruction::Jp { nnn })
    } else if f == 2 {
        Some(Instruction::Call { nnn })
    } else if f == 3 {
        Some(Instruction::SeByte { x, kk })
    } else if f == 4 {
        Some(Instruction::SneByte { x, kk })
    } else if f == 5 && n == 0 {
        Some(Instruction::SeReg { x, y })
    } else if f == 6 {
        Some(Instruction::LdByte { x, kk })
    } else if f == 7 {
        Some(Instruction::AddByte { x, kk })
    } else if f == 8 {
        match n {
            0 => Some(Instruction::LdReg { x, y }),
            1 => Some(Instruction::Or { x, y }),
            2 => Some(Instruction::And { x, y }),
            3 => Some(Instruction::Xor { x, y }),
            4 => Some(Instruction::AddReg { x, y }),
            5 => Some(Instruction::Sub { x, y }),
            6 => Some(Instruction::Shr { x, y }),
            7 => Some(Instruction::Subn { x, y }),
            0xE => Some(Instruction::Shl { x, y }),
            _ => None,
        }
    } else if f == 9 && n == 0 {
        Some(Instruction::SneReg { x, y })
    } else if f == 0xA {
        Some(Instruction::LdI { nnn })
    } else if f == 0xB {
        Some(Instruction::JpV0 { nnn })
    } else if f == 0xC {
        Some(Instruction::Rnd { x, kk })
    } else if f == 0xD {
        Some(Instruction::Drw { x, y, n })
    } else if f == 0xE {
        match kk {
            0x9E => Some(Instruction::Skp { x }),
            0xA1 => Some(Instruction::Sknp { x }),
            _ => None,
        }
    } else if f == 0xF {
        match kk {
            0x07 => Some(Instruction::LdVxDt { x }),
            0x0A => Some(Instruction::LdKey { x }),
            0x15 => Some(Instruction::LdDtVx { x }),
            0x18 => Some(Instruction::LdStVx { x }),
            0x1E => Some(Instruction::AddI { x }),
            0x29 => Some(Instruction::LdFont { x }),
            0x33 => Some(Instruction::LdBcd { x }),
            0x55 => Some(Instruction::StoreRegs { x }),
            0x65 => Some(Instruction::LoadRegs { x }),
            _ => None,
        }
    } else {
        None
    }
}

} // verus!
