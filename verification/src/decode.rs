//! The instruction decoder: a pure function from a 16-bit instruction word to
//! its four 4-bit nibbles, the recombined 12-bit address field and 8-bit
//! immediate field, and finally to a tagged instruction with typed operands.
//!
//! Every 16-bit word splits into nibbles; not every nibble pattern names an
//! instruction, so `decode` returns `None` for the patterns outside the
//! baseline set and the executor turns that into an unknown-opcode fault.

use vstd::prelude::*;

verus! {

/// One decoded instruction of the baseline set, with its typed operands:
/// `x` and `y` name general registers (always below 16), `kk` is a byte
/// immediate, `addr` a 12-bit address (always below 4096) and `n` a sprite
/// height nibble.
#[derive(Clone, Copy, Debug, PartialEq, Eq, Structural)]
pub enum Instr {
    /// 00E0: clear the display.
    Cls,
    /// 00EE: return from a subroutine.
    Ret,
    /// 1nnn: jump to `addr`.
    Jp { addr: u16 },
    /// 2nnn: call the subroutine at `addr`.
    Call { addr: u16 },
    /// 3xkk: skip the next instruction if `v[x] == kk`.
    SeImm { x: u8, kk: u8 },
    /// 4xkk: skip the next instruction if `v[x] != kk`.
    SneImm { x: u8, kk: u8 },
    /// 5xy0: skip the next instruction if `v[x] == v[y]`.
    SeReg { x: u8, y: u8 },
    /// 6xkk: load `kk` into `v[x]`.
    LdImm { x: u8, kk: u8 },
    /// 7xkk: add `kk` to `v[x]`, wrapping, without touching the flag.
    AddImm { x: u8, kk: u8 },
    /// 8xy0: copy `v[y]` into `v[x]`.
    LdReg { x: u8, y: u8 },
    /// 8xy1: bitwise or of `v[x]` and `v[y]` into `v[x]`.
    Or { x: u8, y: u8 },
    /// 8xy2: bitwise and of `v[x]` and `v[y]` into `v[x]`.
    And { x: u8, y: u8 },
    /// 8xy3: bitwise xor of `v[x]` and `v[y]` into `v[x]`.
    Xor { x: u8, y: u8 },
    /// 8xy4: add `v[y]` to `v[x]` wrapping; the flag records the carry.
    AddCarry { x: u8, y: u8 },
    /// 8xy5: subtract `v[y]` from `v[x]` wrapping; the flag records no-borrow.
    Sub { x: u8, y: u8 },
    /// 8xy6: shift `v[x]` right by one; the flag captures the dropped bit.
    Shr { x: u8, y: u8 },
    /// 8xy7: `v[x] := v[y] - v[x]` wrapping; the flag records no-borrow.
    Subn { x: u8, y: u8 },
    /// 8xyE: shift `v[x]` left by one; the flag captures the dropped bit.
    Shl { x: u8, y: u8 },
    /// 9xy0: skip the next instruction if `v[x] != v[y]`.
    SneReg { x: u8, y: u8 },
    /// Annn: load `addr` into the address register.
    LdI { addr: u16 },
    /// Bnnn: jump to `addr + v[0]`.
    JpV0 { addr: u16 },
    /// Cxkk: load a fresh pseudo-random byte masked by `kk` into `v[x]`.
    Rnd { x: u8, kk: u8 },
    /// Dxyn: draw the `n`-byte sprite at the address register to
    /// `(v[x] mod 64, v[y] mod 32)`; the flag records a collision.
    Drw { x: u8, y: u8, n: u8 },
    /// Ex9E: skip the next instruction if key `v[x]` is pressed.
    Skp { x: u8 },
    /// ExA1: skip the next instruction if key `v[x]` is not pressed.
    Sknp { x: u8 },
    /// Fx07: copy the delay timer into `v[x]`.
    LdVxDt { x: u8 },
    /// Fx0A: block until a key is pressed; that key's index goes to `v[x]`.
    WaitKey { x: u8 },
    /// Fx15: copy `v[x]` into the delay timer.
    LdDtVx { x: u8 },
    /// Fx18: copy `v[x]` into the sound timer.
    LdStVx { x: u8 },
    /// Fx1E: add `v[x]` to the address register, wrapping, without a flag.
    AddI { x: u8 },
    /// Fx29: point the address register at the font sprite for digit `v[x]`.
    LdF { x: u8 },
    /// Fx33: write the three decimal digits of `v[x]` to memory.
    LdB { x: u8 },
    /// Fx55: store `v[0..=x]` to memory at the address register.
    StoreRegs { x: u8 },
    /// Fx65: load `v[0..=x]` from memory at the address register.
    LoadRegs { x: u8 },
}

/// The most significant nibble of `w`.
pub open spec fn nib1(w: u16) -> u16 {
    w / 4096
}

/// The second nibble of `w`.
pub open spec fn nib2(w: u16) -> u16 {
    (w / 256) % 16
}

/// The third nibble of `w`.
pub open spec fn nib3(w: u16) -> u16 {
    (w / 16) % 16
}

/// The least significant nibble of `w`.
pub open spec fn nib4(w: u16) -> u16 {
    w % 16
}

/// Splits an instruction word into its four nibbles, most significant first.
pub fn components(x: u16) -> (r: (u16, u16, u16, u16))
    ensures
        r.0 == nib1(x) && r.0 < 16,
        r.1 == nib2(x) && r.1 < 16,
        r.2 == nib3(x) && r.2 < 16,
        r.3 == nib4(x) && r.3 < 16,
{
    proof {
        assert(x >> 12 == x / 4096 && x >> 12 < 16) by (bit_vector);
        assert((x >> 8) & 0xF == (x / 256) % 16 && (x >> 8) & 0xF < 16) by (bit_vector);
        assert((x >> 4) & 0xF == (x / 16) % 16 && (x >> 4) & 0xF < 16) by (bit_vector);
        assert(x & 0xF == x % 16 && x & 0xF < 16) by (bit_vector);
    }
    (x >> 12, (x >> 8) & 0xF, (x >> 4) & 0xF, x & 0xF)
}

/// Recombines three nibbles into the 12-bit address field.
pub fn combine3(n1: u16, n2: u16, n3: u16) -> (r: u16)
    requires
        n1 < 16,
        n2 < 16,
        n3 < 16,
    ensures
        r == n1 * 256 + n2 * 16 + n3,
        r < 4096,
{
    n1 * 256 + n2 * 16 + n3
}

/// Recombines two nibbles into the 8-bit immediate field.
pub fn combine2(n1: u16, n2: u16) -> (r: u16)
    requires
        n1 < 16,
        n2 < 16,
    ensures
        r == n1 * 16 + n2,
        r < 256,
{
    n1 * 16 + n2
}

/// The 12-bit address field of `w`: its low three nibbles.
pub open spec fn addr_of(w: u16) -> u16 {
    (w % 4096) as u16
}

/// The 8-bit immediate field of `w`: its low two nibbles.
pub open spec fn imm_of(w: u16) -> u8 {
    (w % 256) as u8
}

/// What a 16-bit word decodes to: the instruction it names, or `None` for a
/// nibble pattern outside the baseline set.
pub open spec fn decode_spec(w: u16) -> Option<Instr> {
    let x = nib2(w) as u8;
    let y = nib3(w) as u8;
    let n = nib4(w) as u8;
    if w == 0x00E0 {
        Some(Instr::Cls)
    } else if w == 0x00EE {
        Some(Instr::Ret)
    } else if nib1(w) == 0x1 {
        Some(Instr::Jp { addr: addr_of(w) })
    } else if nib1(w) == 0x2 {
        Some(Instr::Call { addr: addr_of(w) })
    } else if nib1(w) == 0x3 {
        Some(Instr::SeImm { x, kk: imm_of(w) })
    } else if nib1(w) == 0x4 {
        Some(Instr::SneImm { x, kk: imm_of(w) })
    } else if nib1(w) == 0x5 && nib4(w) == 0x0 {
        Some(Instr::SeReg { x, y })
    } else if nib1(w) == 0x6 {
        Some(Instr::LdImm { x, kk: imm_of(w) })
    } else if nib1(w) == 0x7 {
        Some(Instr::AddImm { x, kk: imm_of(w) })
    } else if nib1(w) == 0x8 && nib4(w) == 0x0 {
        Some(Instr::LdReg { x, y })
    } else if nib1(w) == 0x8 && nib4(w) == 0x1 {
        Some(Instr::Or { x, y })
    } else if nib1(w) == 0x8 && nib4(w) == 0x2 {
        Some(Instr::And { x, y })
    } else if nib1(w) == 0x8 && nib4(w) == 0x3 {
        Some(Instr::Xor { x, y })
    } else if nib1(w) == 0x8 && nib4(w) == 0x4 {
        Some(Instr::AddCarry { x, y })
    } else if nib1(w) == 0x8 && nib4(w) == 0x5 {
        Some(Instr::Sub { x, y })
    } else if nib1(w) == 0x8 && nib4(w) == 0x6 {
        Some(Instr::Shr { x, y })
    } else if nib1(w) == 0x8 && nib4(w) == 0x7 {
        Some(Instr::Subn { x, y })
    } else if nib1(w) == 0x8 && nib4(w) == 0xE {
        Some(Instr::Shl { x, y })
    } else if nib1(w) == 0x9 && nib4(w) == 0x0 {
        Some(Instr::SneReg { x, y })
    } else if nib1(w) == 0xA {
        Some(Instr::LdI { addr: addr_of(w) })
    } else if nib1(w) == 0xB {
        Some(Instr::JpV0 { addr: addr_of(w) })
    } else if nib1(w) == 0xC {
        Some(Instr::Rnd { x, kk: imm_of(w) })
    } else if nib1(w) == 0xD {
        Some(Instr::Drw { x, y, n })
    } else if nib1(w) == 0xE && nib3(w) == 0x9 && nib4(w) == 0xE {
        Some(Instr::Skp { x })
    } else if nib1(w) == 0xE && nib3(w) == 0xA && nib4(w) == 0x1 {
        Some(Instr::Sknp { x })
    } else if nib1(w) == 0xF && nib3(w) == 0x0 && nib4(w) == 0x7 {
        Some(Instr::LdVxDt { x })
    } else if nib1(w) == 0xF && nib3(w) == 0x0 && nib4(w) == 0xA {
        Some(Instr::WaitKey { x })
    } else if nib1(w) == 0xF && nib3(w) == 0x1 && nib4(w) == 0x5 {
        Some(Instr::LdDtVx { x })
    } else if nib1(w) == 0xF && nib3(w) == 0x1 && nib4(w) == 0x8 {
        Some(Instr::LdStVx { x })
    } else if nib1(w) == 0xF && nib3(w) == 0x1 && nib4(w) == 0xE {
        Some(Instr::AddI { x })
    } else if nib1(w) == 0xF && nib3(w) == 0x2 && nib4(w) == 0x9 {
        Some(Instr::LdF { x })
    } else if nib1(w) == 0xF && nib3(w) == 0x3 && nib4(w) == 0x3 {
        Some(Instr::LdB { x })
    } else if nib1(w) == 0xF && nib3(w) == 0x5 && nib4(w) == 0x5 {
        Some(Instr::StoreRegs { x })
    } else if nib1(w) == 0xF && nib3(w) == 0x6 && nib4(w) == 0x5 {
        Some(Instr::LoadRegs { x })
    } else {
        None
    }
}

/// The bounds decoding guarantees of every operand: register indexes and the
/// sprite height are nibbles, addresses fit in 12 bits.
pub open spec fn instr_wf(instr: Instr) -> bool {
    match instr {
        Instr::Cls => true,
        Instr::Ret => true,
        Instr::Jp { addr } => addr < 4096,
        Instr::Call { addr } => addr < 4096,
        Instr::SeImm { x, kk } => x < 16,
        Instr::SneImm { x, kk } => x < 16,
        Instr::SeReg { x, y } => x < 16 && y < 16,
        Instr::LdImm { x, kk } => x < 16,
        Instr::AddImm { x, kk } => x < 16,
        Instr::LdReg { x, y } => x < 16 && y < 16,
        Instr::Or { x, y } => x < 16 && y < 16,
        Instr::And { x, y } => x < 16 && y < 16,
        Instr::Xor { x, y } => x < 16 && y < 16,
        Instr::AddCarry { x, y } => x < 16 && y < 16,
        Instr::Sub { x, y } => x < 16 && y < 16,
        Instr::Shr { x, y } => x < 16 && y < 16,
        Instr::Subn { x, y } => x < 16 && y < 16,
        Instr::Shl { x, y } => x < 16 && y < 16,
        Instr::SneReg { x, y } => x < 16 && y < 16,
        Instr::LdI { addr } => addr < 4096,
        Instr::JpV0 { addr } => addr < 4096,
        Instr::Rnd { x, kk } => x < 16,
        Instr::Drw { x, y, n } => x < 16 && y < 16 && n < 16,
        Instr::Skp { x } => x < 16,
        Instr::Sknp { x } => x < 16,
        Instr::LdVxDt { x } => x < 16,
        Instr::WaitKey { x } => x < 16,
        Instr::LdDtVx { x } => x < 16,
        Instr::LdStVx { x } => x < 16,
        Instr::AddI { x } => x < 16,
        Instr::LdF { x } => x < 16,
        Instr::LdB { x } => x < 16,
        Instr::StoreRegs { x } => x < 16,
        Instr::LoadRegs { x } => x < 16,
    }
}

/// Decodes an instruction word into the instruction it names, or `None` for
/// an undefined nibble pattern.
pub fn decode(word: u16) -> (r: Option<Instr>)
    ensures
        r == decode_spec(word),
        match r {
            Some(instr) => instr_wf(instr),
            None => true,
        },
{
    let (n1, n2, n3, n4) = components(word);
    let x = n2 as u8;
    let y = n3 as u8;
    let n = n4 as u8;
    proof {
        assert(word % 4096 == (word / 256 % 16) * 256 + (word / 16 % 16) * 16 + word % 16)
            by (bit_vector);
        assert(word % 256 == (word / 16 % 16) * 16 + word % 16) by (bit_vector);
        assert(word == (word / 4096) * 4096 + word % 4096) by (bit_vector);
    }
    let addr = combine3(n2, n3, n4);
    let kk = combine2(n3, n4) as u8;
    if word == 0x00E0 {
        Some(Instr::Cls)
    } else if word == 0x00EE {
        Some(Instr::Ret)
    } else if n1 == 0x1 {
        Some(Instr::Jp { addr })
    } else if n1 == 0x2 {
        Some(Instr::Call { addr })
    } else if n1 == 0x3 {
        Some(Instr::SeImm { x, kk })
    } else if n1 == 0x4 {
        Some(Instr::SneImm { x, kk })
    } else if n1 == 0x5 && n4 == 0x0 {
        Some(Instr::SeReg { x, y })
    } else if n1 == 0x6 {
        Some(Instr::LdImm { x, kk })
    } else if n1 == 0x7 {
        Some(Instr::AddImm { x, kk })
    } else if n1 == 0x8 && n4 == 0x0 {
        Some(Instr::LdReg { x, y })
    } else if n1 == 0x8 && n4 == 0x1 {
        Some(Instr::Or { x, y })
    } else if n1 == 0x8 && n4 == 0x2 {
        Some(Instr::And { x, y })
    } else if n1 == 0x8 && n4 == 0x3 {
        Some(Instr::Xor { x, y })
    } else if n1 == 0x8 && n4 == 0x4 {
        Some(Instr::AddCarry { x, y })
    } else if n1 == 0x8 && n4 == 0x5 {
        Some(Instr::Sub { x, y })
    } else if n1 == 0x8 && n4 == 0x6 {
        Some(Instr::Shr { x, y })
    } else if n1 == 0x8 && n4 == 0x7 {
        Some(Instr::Subn { x, y })
    } else if n1 == 0x8 && n4 == 0xE {
        Some(Instr::Shl { x, y })
    } else if n1 == 0x9 && n4 == 0x0 {
        Some(Instr::SneReg { x, y })
    } else if n1 == 0xA {
        Some(Instr::LdI { addr })
    } else if n1 == 0xB {
        Some(Instr::JpV0 { addr })
    } else if n1 == 0xC {
        Some(Instr::Rnd { x, kk })
    } else if n1 == 0xD {
        Some(Instr::Drw { x, y, n })
    } else if n1 == 0xE && n3 == 0x9 && n4 == 0xE {
        Some(Instr::Skp { x })
    } else if n1 == 0xE && n3 == 0xA && n4 == 0x1 {
        Some(Instr::Sknp { x })
    } else if n1 == 0xF && n3 == 0x0 && n4 == 0x7 {
        Some(Instr::LdVxDt { x })
    } else if n1 == 0xF && n3 == 0x0 && n4 == 0xA {
        Some(Instr::WaitKey { x })
    } else if n1 == 0xF && n3 == 0x1 && n4 == 0x5 {
        Some(Instr::LdDtVx { x })
    } else if n1 == 0xF && n3 == 0x1 && n4 == 0x8 {
        Some(Instr::LdStVx { x })
    } else if n1 == 0xF && n3 == 0x1 && n4 == 0xE {
        Some(Instr::AddI { x })
    } else if n1 == 0xF && n3 == 0x2 && n4 == 0x9 {
        Some(Instr::LdF { x })
    } else if n1 == 0xF && n3 == 0x3 && n4 == 0x3 {
        Some(Instr::LdB { x })
    } else if n1 == 0xF && n3 == 0x5 && n4 == 0x5 {
        Some(Instr::StoreRegs { x })
    } else if n1 == 0xF && n3 == 0x6 && n4 == 0x5 {
        Some(Instr::LoadRegs { x })
    } else {
        None
    }
}

} // verus!
