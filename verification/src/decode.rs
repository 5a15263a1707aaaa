use crate::Opcode;
use vstd::prelude::*;

verus! {

/// The sub-operation of the register-arithmetic instruction class
/// (high nibble 0x8), selected by the word's low nibble.
#[derive(Copy, Clone, PartialEq, Eq, Structural, Debug)]
pub enum ArithKind {
    /// Vx := Vy.
    Mov,
    /// Vx := Vx | Vy.
    Or,
    /// Vx := Vx & Vy.
    And,
    /// Vx := Vx ^ Vy.
    Xor,
    /// Vx := Vx + Vy; VF := 1 on carry past 255, else 0.
    Add,
    /// Vx := Vx - Vy; VF := 1 when no borrow (Vx >= Vy), else 0.
    Sub,
    /// Vx := Vx >> 1; VF := the bit shifted out (the old low bit).
    Shr,
    /// Vx := Vy - Vx; VF := 1 when no borrow (Vy >= Vx), else 0.
    Subn,
    /// Vx := Vx << 1; VF := the bit shifted out (the old high bit).
    Shl,
}

/// One decoded CHIP-8 instruction. `Invalid` marks a word that matches
/// no defined pattern; whether the executor ignores it or faults is a
/// policy of the machine, not of the decoder.
#[derive(Copy, Clone, PartialEq, Eq, Structural, Debug)]
pub enum DecodedOp {
    /// 00E0: clear the screen.
    Cls,
    /// 00EE: return from subroutine.
    Ret,
    /// 1nnn: jump to addr.
    Jmp { addr: u16 },
    /// 2nnn: call subroutine at addr.
    Call { addr: u16 },
    /// 3xkk: skip next instruction if Vx == kk.
    SkipEqByte { x: u8, byte: u8 },
    /// 4xkk: skip next instruction if Vx != kk.
    SkipNeByte { x: u8, byte: u8 },
    /// 5xy0: skip next instruction if Vx == Vy.
    SkipEqReg { x: u8, y: u8 },
    /// 6xkk: Vx := kk.
    Load { x: u8, byte: u8 },
    /// 7xkk: Vx := Vx + kk, without touching VF.
    AddByte { x: u8, byte: u8 },
    /// 8xyk: register arithmetic, see `ArithKind`.
    Arith { kind: ArithKind, x: u8, y: u8 },
    /// 9xy0: skip next instruction if Vx != Vy.
    SkipNeReg { x: u8, y: u8 },
    /// Annn: I := addr.
    LoadIndex { addr: u16 },
    /// Bnnn: jump to addr + V0.
    JumpOffset { addr: u16 },
    /// Cxkk: Vx := random byte & kk.
    Random { x: u8, byte: u8 },
    /// Dxyn: draw the n-byte sprite at I at (Vx, Vy); VF := collision.
    Draw { x: u8, y: u8, n: u8 },
    /// Ex9E: skip next instruction if the key named by Vx is pressed.
    SkipKeyPressed { x: u8 },
    /// ExA1: skip next instruction if the key named by Vx is not pressed.
    SkipKeyNotPressed { x: u8 },
    /// Fx07: Vx := delay timer.
    ReadDelay { x: u8 },
    /// Fx0A: halt until a key is pressed, then Vx := that key.
    WaitKey { x: u8 },
    /// Fx15: delay timer := Vx.
    SetDelay { x: u8 },
    /// Fx18: sound timer := Vx.
    SetSound { x: u8 },
    /// Fx1E: I := I + Vx, wrapped to 12 bits.
    AddIndex { x: u8 },
    /// Fx29: I := address of the built-in sprite for the hex digit in Vx.
    LoadFont { x: u8 },
    /// Fx33: store the decimal digits of Vx at I, I+1, I+2.
    StoreBcd { x: u8 },
    /// Fx55: store V0..=Vx into memory starting at I.
    StoreRegs { x: u8 },
    /// Fx65: load V0..=Vx from memory starting at I.
    LoadRegs { x: u8 },
    /// No defined pattern matches the word.
    Invalid,
}

/// Field x: the second nibble from the top.
pub open spec fn op_x(w: u16) -> u8 {
    ((w >> 8u16) & 0xF) as u8
}

/// Field y: the third nibble from the top.
pub open spec fn op_y(w: u16) -> u8 {
    ((w >> 4u16) & 0xF) as u8
}

/// Field n: the low nibble.
pub open spec fn op_n(w: u16) -> u8 {
    (w & 0xF) as u8
}

/// Field kk: the low byte.
pub open spec fn op_kk(w: u16) -> u8 {
    (w & 0xFF) as u8
}

/// Field addr: the low 12 bits.
pub open spec fn op_addr(w: u16) -> u16 {
    w & 0xFFF
}

/// The instruction a 16-bit word denotes. Total over all words: every
/// word decodes to exactly one variant, with `Invalid` for the words
/// outside the instruction set. The dispatch is two-level: first the
/// exact value of the high nibble, then, where that nibble is
/// ambiguous (0x0, 0x8, 0xE, 0xF), the exact value of the low byte or
/// low nibble.
pub open spec fn spec_decode(w: u16) -> DecodedOp {
    let hi = (w >> 12u16) & 0xF;
    if w == 0x00E0 {
        DecodedOp::Cls
    } else if w == 0x00EE {
        DecodedOp::Ret
    } else if hi == 0x1 {
        DecodedOp::Jmp { addr: op_addr(w) }
    } else if hi == 0x2 {
        DecodedOp::Call { addr: op_addr(w) }
    } else if hi == 0x3 {
        DecodedOp::SkipEqByte { x: op_x(w), byte: op_kk(w) }
    } else if hi == 0x4 {
        DecodedOp::SkipNeByte { x: op_x(w), byte: op_kk(w) }
    } else if hi == 0x5 && op_n(w) == 0 {
        DecodedOp::SkipEqReg { x: op_x(w), y: op_y(w) }
    } else if hi == 0x6 {
        DecodedOp::Load { x: op_x(w), byte: op_kk(w) }
    } else if hi == 0x7 {
        DecodedOp::AddByte { x: op_x(w), byte: op_kk(w) }
    } else if hi == 0x8 {
        spec_decode_arith(w)
    } else if hi == 0x9 && op_n(w) == 0 {
        DecodedOp::SkipNeReg { x: op_x(w), y: op_y(w) }
    } else if hi == 0xA {
        DecodedOp::LoadIndex { addr: op_addr(w) }
    } else if hi == 0xB {
        DecodedOp::JumpOffset { addr: op_addr(w) }
    } else if hi == 0xC {
        DecodedOp::Random { x: op_x(w), byte: op_kk(w) }
    } else if hi == 0xD {
        DecodedOp::Draw { x: op_x(w), y: op_y(w), n: op_n(w) }
    } else if hi == 0xE && op_kk(w) == 0x9E {
        DecodedOp::SkipKeyPressed { x: op_x(w) }
    } else if hi == 0xE && op_kk(w) == 0xA1 {
        DecodedOp::SkipKeyNotPressed { x: op_x(w) }
    } else if hi == 0xF {
        spec_decode_misc(w)
    } else {
        DecodedOp::Invalid
    }
}

/// Secondary dispatch for high nibble 0x8, on the low nibble.
pub open spec fn spec_decode_arith(w: u16) -> DecodedOp {
    let n = op_n(w);
    if n == 0x0 {
        DecodedOp::Arith { kind: ArithKind::Mov, x: op_x(w), y: op_y(w) }
    } else if n == 0x1 {
        DecodedOp::Arith { kind: ArithKind::Or, x: op_x(w), y: op_y(w) }
    } else if n == 0x2 {
        DecodedOp::Arith { kind: ArithKind::And, x: op_x(w), y: op_y(w) }
    } else if n == 0x3 {
        DecodedOp::Arith { kind: ArithKind::Xor, x: op_x(w), y: op_y(w) }
    } else if n == 0x4 {
        DecodedOp::Arith { kind: ArithKind::Add, x: op_x(w), y: op_y(w) }
    } else if n == 0x5 {
        DecodedOp::Arith { kind: ArithKind::Sub, x: op_x(w), y: op_y(w) }
    } else if n == 0x6 {
        DecodedOp::Arith { kind: ArithKind::Shr, x: op_x(w), y: op_y(w) }
    } else if n == 0x7 {
        DecodedOp::Arith { kind: ArithKind::Subn, x: op_x(w), y: op_y(w) }
    } else if n == 0xE {
        DecodedOp::Arith { kind: ArithKind::Shl, x: op_x(w), y: op_y(w) }
    } else {
        DecodedOp::Invalid
    }
}

/// Secondary dispatch for high nibble 0xF, on the low byte.
pub open spec fn spec_decode_misc(w: u16) -> DecodedOp {
    let kk = op_kk(w);
    if kk == 0x07 {
        DecodedOp::ReadDelay { x: op_x(w) }
    } else if kk == 0x0A {
        DecodedOp::WaitKey { x: op_x(w) }
    } else if kk == 0x15 {
        DecodedOp::SetDelay { x: op_x(w) }
    } else if kk == 0x18 {
        DecodedOp::SetSound { x: op_x(w) }
    } else if kk == 0x1E {
        DecodedOp::AddIndex { x: op_x(w) }
    } else if kk == 0x29 {
        DecodedOp::LoadFont { x: op_x(w) }
    } else if kk == 0x33 {
        DecodedOp::StoreBcd { x: op_x(w) }
    } else if kk == 0x55 {
        DecodedOp::StoreRegs { x: op_x(w) }
    } else if kk == 0x65 {
        DecodedOp::LoadRegs { x: op_x(w) }
    } else {
        DecodedOp::Invalid
    }
}

/// Every field a decoded instruction carries lies in its range:
/// register indices and nibbles below 16, addresses below 4096.
pub open spec fn wf_op(op: DecodedOp) -> bool {
    match op {
        DecodedOp::Cls => true,
        DecodedOp::Ret => true,
        DecodedOp::Jmp { addr } => addr < 4096,
        DecodedOp::Call { addr } => addr < 4096,
        DecodedOp::SkipEqByte { x, byte } => x < 16,
        DecodedOp::SkipNeByte { x, byte } => x < 16,
        DecodedOp::SkipEqReg { x, y } => x < 16 && y < 16,
        DecodedOp::Load { x, byte } => x < 16,
        DecodedOp::AddByte { x, byte } => x < 16,
        DecodedOp::Arith { kind, x, y } => x < 16 && y < 16,
        DecodedOp::SkipNeReg { x, y } => x < 16 && y < 16,
        DecodedOp::LoadIndex { addr } => addr < 4096,
        DecodedOp::JumpOffset { addr } => addr < 4096,
        DecodedOp::Random { x, byte } => x < 16,
        DecodedOp::Draw { x, y, n } => x < 16 && y < 16 && n < 16,
        DecodedOp::SkipKeyPressed { x } => x < 16,
        DecodedOp::SkipKeyNotPressed { x } => x < 16,
        DecodedOp::ReadDelay { x } => x < 16,
        DecodedOp::WaitKey { x } => x < 16,
        DecodedOp::SetDelay { x } => x < 16,
        DecodedOp::SetSound { x } => x < 16,
        DecodedOp::AddIndex { x } => x < 16,
        DecodedOp::LoadFont { x } => x < 16,
        DecodedOp::StoreBcd { x } => x < 16,
        DecodedOp::StoreRegs { x } => x < 16,
        DecodedOp::LoadRegs { x } => x < 16,
        DecodedOp::Invalid => true,
    }
}

/// Decoding only ever yields in-range fields, since each field is cut
/// out of the word by a mask.
pub proof fn lemma_decode_wf(w: u16)
    ensures
        wf_op(spec_decode(w)),
{
    assert((w >> 8u16) & 0xF < 16) by (bit_vector);
    assert((w >> 4u16) & 0xF < 16) by (bit_vector);
    assert(w & 0xF < 16) by (bit_vector);
    assert(w & 0xFFF < 4096) by (bit_vector);
}

/// Decodes one raw instruction word into the instruction it denotes,
/// exactly as `spec_decode` states: total and deterministic over all
/// 2^16 words, with `DecodedOp::Invalid` for the undefined ones.
pub fn decode_opcode(op: Opcode) -> (r: DecodedOp)
    ensures
        r == spec_decode(op@),
        wf_op(r),
{
    let w: u16 = op.to_u16();
    proof {
        lemma_decode_wf(op@);
        assert((w >> 0u16) & 0xFF == w & 0xFF) by (bit_vector);
        assert((w >> 0u16) & 0xF == w & 0xF) by (bit_vector);
    }
    let hi: u16 = op.get_nibble(3);
    let x: u8 = op.get_nibble(2) as u8;
    let y: u8 = op.get_nibble(1) as u8;
    let n: u8 = op.get_nibble(0) as u8;
    let kk: u8 = op.get_byte(0) as u8;
    let addr: u16 = w & 0xFFF;
    if w == 0x00E0 {
        DecodedOp::Cls
    } else if w == 0x00EE {
        DecodedOp::Ret
    } else if hi == 0x1 {
        DecodedOp::Jmp { addr }
    } else if hi == 0x2 {
        DecodedOp::Call { addr }
    } else if hi == 0x3 {
        DecodedOp::SkipEqByte { x, byte: kk }
    } else if hi == 0x4 {
        DecodedOp::SkipNeByte { x, byte: kk }
    } else if hi == 0x5 && n == 0 {
        DecodedOp::SkipEqReg { x, y }
    } else if hi == 0x6 {
        DecodedOp::Load { x, byte: kk }
    } else if hi == 0x7 {
        DecodedOp::AddByte { x, byte: kk }
    } else if hi == 0x8 {
        if n == 0x0 {
            DecodedOp::Arith { kind: ArithKind::Mov, x, y }
        } else if n == 0x1 {
            DecodedOp::Arith { kind: ArithKind::Or, x, y }
        } else if n == 0x2 {
            DecodedOp::Arith { kind: ArithKind::And, x, y }
        } else if n == 0x3 {
            DecodedOp::Arith { kind: ArithKind::Xor, x, y }
        } else if n == 0x4 {
            DecodedOp::Arith { kind: ArithKind::Add, x, y }
        } else if n == 0x5 {
            DecodedOp::Arith { kind: ArithKind::Sub, x, y }
        } else if n == 0x6 {
            DecodedOp::Arith { kind: ArithKind::Shr, x, y }
        } else if n == 0x7 {
            DecodedOp::Arith { kind: ArithKind::Subn, x, y }
        } else if n == 0xE {
            DecodedOp::Arith { kind: ArithKind::Shl, x, y }
        } else {
            DecodedOp::Invalid
        }
    } else if hi == 0x9 && n == 0 {
        DecodedOp::SkipNeReg { x, y }
    } else if hi == 0xA {
        DecodedOp::LoadIndex { addr }
    } else if hi == 0xB {
        DecodedOp::JumpOffset { addr }
    } else if hi == 0xC {
        DecodedOp::Random { x, byte: kk }
    } else if hi == 0xD {
        DecodedOp::Draw { x, y, n }
    } else if hi == 0xE && kk == 0x9E {
        DecodedOp::SkipKeyPressed { x }
    } else if hi == 0xE && kk == 0xA1 {
        DecodedOp::SkipKeyNotPressed { x }
    } else if hi == 0xF {
        if kk == 0x07 {
            DecodedOp::ReadDelay { x }
        } else if kk == 0x0A {
            DecodedOp::WaitKey { x }
        } else if kk == 0x15 {
            DecodedOp::SetDelay { x }
        } else if kk == 0x18 {
            DecodedOp::SetSound { x }
        } else if kk == 0x1E {
            DecodedOp::AddIndex { x }
        } else if kk == 0x29 {
            DecodedOp::LoadFont { x }
        } else if kk == 0x33 {
            DecodedOp::StoreBcd { x }
        } else if kk == 0x55 {
            DecodedOp::StoreRegs { x }
        } else if kk == 0x65 {
            DecodedOp::LoadRegs { x }
        } else {
            DecodedOp::Invalid
        }
    } else {
        DecodedOp::Invalid
    }
}

} // verus!
