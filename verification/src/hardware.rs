//! The machine itself: register file, memory, display, stack, keypad and
//! timers, with one method per instruction and a `step` method that fetches,
//! decodes and executes one instruction.
//!
//! Every instruction method states its exact effect as an equation between
//! the machine's view after the call and a transition function of the view
//! before it. Addresses that instructions read (sprite rows, register loads)
//! wrap modulo 4096; a store whose write range would cross the top of memory
//! faults before mutating anything, so executed instructions never wrap a
//! write back into the reserved font region. The address register and the
//! register-add to it wrap modulo 65536.

use vstd::prelude::*;

use crate::decode::Instr;
use crate::decode::decode;
use crate::decode::decode_spec;
use crate::screen::covers;
use crate::screen::draw_collision;
use crate::screen::draw_display;
use crate::screen::row_bit;
use crate::stack::Stack;

verus! {

/// The size of the machine's flat memory in bytes.
pub const MEM_SIZE: usize = 4096;

/// The address at which a loaded program image begins.
pub const PROGRAM_START: u16 = 0x200;

/// The architectural bound on the call stack's depth.
pub const STACK_LIMIT: usize = 16;

/// A fault raised by `step`. Every fault is detected before any state is
/// mutated, so a faulting step leaves the machine exactly as it was.
#[derive(Clone, Copy, Debug, PartialEq, Eq, Structural)]
pub enum Fault {
    /// The fetched word matches no instruction of the baseline set.
    UnknownOpcode { word: u16, pc: u16 },
    /// A call was attempted with the stack already at its 16-entry bound.
    StackOverflow,
    /// A return was attempted with an empty stack.
    StackUnderflow,
    /// The program counter does not point at a fully readable 2-byte
    /// instruction inside memory.
    OutOfBoundsFetch { pc: u16 },
    /// A store instruction's write range, starting at the address register,
    /// would cross the top of memory.
    OutOfBoundsStore { addr: u16 },
}

/// The mathematical state of the machine: every contract speaks of this view.
#[verifier::ext_equal]
pub ghost struct Chip8View {
    /// The sixteen general registers; `v[15]` doubles as the flag register.
    pub v: Seq<u8>,
    /// The 16-bit address register.
    pub i: u16,
    /// The program counter.
    pub pc: u16,
    /// The stack pointer: always the current stack depth.
    pub sp: u8,
    /// The return addresses, bottom to top.
    pub stack: Seq<u16>,
    /// The delay timer.
    pub dt: u8,
    /// The sound timer; a tone is owed exactly while it is nonzero.
    pub st: u8,
    /// The 4096 memory bytes.
    pub mem: Seq<u8>,
    /// The 64x32 display pixels, row-major: pixel `(x, y)` at `y * 64 + x`.
    pub display: Seq<bool>,
    /// The sixteen key press states.
    pub keypad: Seq<bool>,
    /// When the machine is blocked on a key wait, the register that will
    /// receive the key index.
    pub waiting: Option<u8>,
    /// The state of the pseudo-random generator.
    pub rng: u16,
    /// The instruction word most recently executed by `step`.
    pub opcode: u16,
}

impl Chip8View {
    /// The structural invariant: every component has its architectural size,
    /// the stack respects its bound, the stack pointer mirrors the depth, and
    /// a pending key wait names a real register.
    pub open spec fn wf(self) -> bool {
        &&& self.v.len() == 16
        &&& self.mem.len() == 4096
        &&& self.display.len() == 2048
        &&& self.keypad.len() == 16
        &&& self.stack.len() <= 16
        &&& self.sp as int == self.stack.len()
        &&& match self.waiting {
            Some(x) => x < 16,
            None => true,
        }
    }
}

/// Addition of two register bytes, wrapping modulo 256.
pub open spec fn byte_add(a: u8, b: u8) -> u8 {
    if a + b > 255 {
        (a + b - 256) as u8
    } else {
        (a + b) as u8
    }
}

/// Subtraction of two register bytes, wrapping modulo 256.
pub open spec fn byte_sub(a: u8, b: u8) -> u8 {
    if a - b < 0 {
        (a - b + 256) as u8
    } else {
        (a - b) as u8
    }
}

/// The carry flag of `a + b`: 1 exactly when the unsigned sum overflows
/// 8 bits.
pub open spec fn carry_flag(a: u8, b: u8) -> u8 {
    if a + b > 255 {
        1u8
    } else {
        0u8
    }
}

/// The no-borrow flag of `a - b`: 1 exactly when `a >= b`.
pub open spec fn no_borrow_flag(a: u8, b: u8) -> u8 {
    if a >= b {
        1u8
    } else {
        0u8
    }
}

/// Addition of two 16-bit words, wrapping modulo 65536.
pub open spec fn word_add(a: u16, b: u16) -> u16 {
    if a + b > 65535 {
        (a + b - 65536) as u16
    } else {
        (a + b) as u16
    }
}

/// Subtraction of two 16-bit words, wrapping modulo 65536.
pub open spec fn word_sub(a: u16, b: u16) -> u16 {
    if a - b < 0 {
        (a - b + 65536) as u16
    } else {
        (a - b) as u16
    }
}

/// The next state of the pseudo-random generator: a linear congruential
/// step modulo 65536.
pub open spec fn next_rng(s: u16) -> u16 {
    ((s * 25173 + 13849) % 65536) as u16
}

/// The pseudo-random byte drawn by one generator step: the high byte of the
/// next state.
pub open spec fn rng_byte(s: u16) -> u8 {
    (next_rng(s) / 256) as u8
}

/// The built-in font: sixteen 5-byte sprites for the hexadecimal digits,
/// stored from address 0 upward, digit `d` at address `5 * d`.
pub open spec fn font() -> Seq<u8> {
    seq![
        0xF0u8, 0x90, 0x90, 0x90, 0xF0,  // 0
        0x20, 0x60, 0x20, 0x20, 0x70,  // 1
        0xF0, 0x10, 0xF0, 0x80, 0xF0,  // 2
        0xF0, 0x10, 0xF0, 0x10, 0xF0,  // 3
        0x90, 0x90, 0xF0, 0x10, 0x10,  // 4
        0xF0, 0x80, 0xF0, 0x10, 0xF0,  // 5
        0xF0, 0x80, 0xF0, 0x90, 0xF0,  // 6
        0xF0, 0x10, 0x20, 0x40, 0x40,  // 7
        0xF0, 0x90, 0xF0, 0x90, 0xF0,  // 8
        0xF0, 0x90, 0xF0, 0x10, 0xF0,  // 9
        0xF0, 0x90, 0xF0, 0x90, 0x90,  // A
        0xE0, 0x90, 0xE0, 0x90, 0xE0,  // B
        0xF0, 0x80, 0x80, 0x80, 0xF0,  // C
        0xE0, 0x90, 0x90, 0x90, 0xE0,  // D
        0xF0, 0x80, 0xF0, 0x80, 0xF0,  // E
        0xF0, 0x80, 0xF0, 0x80, 0x80,  // F
    ]
}

/// Memory as initialization leaves it: the 80 font bytes, then zeroes.
pub open spec fn initial_memory() -> Seq<u8> {
    Seq::new(4096, |a: int| if a < 80 { font()[a] } else { 0u8 })
}

/// The machine state right after initialization: registers, timers, stack
/// and display cleared, no key pressed, the font in memory, and the program
/// counter at the program start address.
pub open spec fn initial_state() -> Chip8View {
    Chip8View {
        v: Seq::new(16, |k: int| 0u8),
        i: 0,
        pc: PROGRAM_START,
        sp: 0,
        stack: Seq::empty(),
        dt: 0,
        st: 0,
        mem: initial_memory(),
        display: Seq::new(2048, |k: int| false),
        keypad: Seq::new(16, |k: int| false),
        waiting: None,
        rng: RNG_SEED,
        opcode: 0,
    }
}

/// The seed the pseudo-random generator starts from.
pub const RNG_SEED: u16 = 0x2F41;

/// The effect of clear-screen: all display pixels false.
pub open spec fn cls_t(m: Chip8View) -> Chip8View {
    Chip8View { display: Seq::new(2048, |k: int| false), ..m }
}

/// The effect of return: pop the top of the stack into the program counter.
/// Meaningful only on a nonempty stack; the executor faults otherwise.
pub open spec fn ret_t(m: Chip8View) -> Chip8View {
    Chip8View { pc: m.stack.last(), stack: m.stack.drop_last(), sp: (m.sp - 1) as u8, ..m }
}

/// The effect of jump: the program counter becomes `addr`.
pub open spec fn jp_t(m: Chip8View, addr: u16) -> Chip8View {
    Chip8View { pc: addr, ..m }
}

/// The effect of call: push the current program counter (already advanced
/// past the call instruction), then jump to `addr`. Meaningful only below
/// the stack bound; the executor faults otherwise.
pub open spec fn call_t(m: Chip8View, addr: u16) -> Chip8View {
    Chip8View { stack: m.stack.push(m.pc), sp: (m.sp + 1) as u8, pc: addr, ..m }
}

/// The effect of the conditional skips: advance the program counter two
/// further bytes when `cond` holds.
pub open spec fn skip_t(m: Chip8View, cond: bool) -> Chip8View {
    Chip8View { pc: if cond { (m.pc + 2) as u16 } else { m.pc }, ..m }
}

/// The effect of writing `val` to register `x`.
pub open spec fn set_v_t(m: Chip8View, x: int, val: u8) -> Chip8View {
    Chip8View { v: m.v.update(x, val), ..m }
}

/// The effect of an arithmetic instruction that stores `val` in register `x`
/// and then records `flag` in the flag register (the flag write wins when
/// `x` is 15).
pub open spec fn set_v_flag_t(m: Chip8View, x: int, val: u8, flag: u8) -> Chip8View {
    Chip8View { v: m.v.update(x, val).update(15, flag), ..m }
}

/// The effect of loading `addr` into the address register.
pub open spec fn ldi_t(m: Chip8View, addr: u16) -> Chip8View {
    Chip8View { i: addr, ..m }
}

/// The effect of the offset jump: the program counter becomes
/// `addr + v[0]`.
pub open spec fn jp1_t(m: Chip8View, addr: u16) -> Chip8View {
    Chip8View { pc: word_add(addr, m.v[0] as u16), ..m }
}

/// The effect of the random instruction: step the generator and store the
/// drawn byte, masked by `kk`, in register `x`.
pub open spec fn rnd_t(m: Chip8View, x: int, kk: u8) -> Chip8View {
    Chip8View { rng: next_rng(m.rng), v: m.v.update(x, rng_byte(m.rng) & kk), ..m }
}

/// The effect of a key wait: record the destination register and block.
pub open spec fn wait_t(m: Chip8View, x: u8) -> Chip8View {
    Chip8View { waiting: Some(x), ..m }
}

/// The effect of retiring a key wait: the pressed key's index goes to the
/// recorded register, the block is cleared and the program counter advances
/// past the wait instruction.
pub open spec fn retire_t(m: Chip8View, x: u8, key: u8) -> Chip8View {
    Chip8View { v: m.v.update(x as int, key), waiting: None, pc: word_add(m.pc, 2), ..m }
}

/// The effect of loading the delay timer from register `x`.
pub open spec fn ld_dt_t(m: Chip8View, x: int) -> Chip8View {
    Chip8View { dt: m.v[x], ..m }
}

/// The effect of loading the sound timer from register `x`.
pub open spec fn ld_st_t(m: Chip8View, x: int) -> Chip8View {
    Chip8View { st: m.v[x], ..m }
}

/// The effect of adding register `x` to the address register, wrapping,
/// with no flag.
pub open spec fn addi_t(m: Chip8View, x: int) -> Chip8View {
    Chip8View { i: word_add(m.i, m.v[x] as u16), ..m }
}

/// The effect of the font lookup: the address register points at the 5-byte
/// sprite of the digit named by the low nibble of register `x`.
pub open spec fn ldf_t(m: Chip8View, x: int) -> Chip8View {
    Chip8View { i: (5 * (m.v[x] % 16)) as u16, ..m }
}

/// The effect of the BCD store: the three decimal digits of register `x`,
/// most significant first, at the address register and the two bytes after
/// it. Meaningful only when the three addresses fit below the top of
/// memory; the executor faults otherwise, before any write.
pub open spec fn ldb_t(m: Chip8View, x: int) -> Chip8View {
    Chip8View {
        mem: m.mem.update(m.i as int, m.v[x] / 100).update(
            m.i as int + 1,
            (m.v[x] / 10) % 10,
        ).update(m.i as int + 2, m.v[x] % 10),
        ..m
    }
}

/// Memory after storing registers 0 through `x` at addresses `i`,
/// `i + 1`, ..., in ascending order. Meaningful only when the whole range
/// fits below the top of memory; the executor faults otherwise, before any
/// write.
pub open spec fn store_regs(mem: Seq<u8>, v: Seq<u8>, x: int, i: int) -> Seq<u8>
    decreases x + 1,
{
    if x < 0 {
        mem
    } else {
        store_regs(mem, v, x - 1, i).update(i + x, v[x])
    }
}

/// Registers after loading 0 through `x` from addresses `i`, `i + 1`, ...
/// (each taken modulo 4096), in ascending order.
pub open spec fn load_regs(v: Seq<u8>, mem: Seq<u8>, x: int, i: int) -> Seq<u8>
    decreases x + 1,
{
    if x < 0 {
        v
    } else {
        load_regs(v, mem, x - 1, i).update(x, mem[(i + x) % 4096])
    }
}

/// The effect of the register store instruction.
pub open spec fn store_regs_t(m: Chip8View, x: int) -> Chip8View {
    Chip8View { mem: store_regs(m.mem, m.v, x, m.i as int), ..m }
}

/// The effect of the register load instruction.
pub open spec fn load_regs_t(m: Chip8View, x: int) -> Chip8View {
    Chip8View { v: load_regs(m.v, m.mem, x, m.i as int), ..m }
}

/// The sprite read for a draw: `n` row bytes from the address register on,
/// addresses taken modulo 4096.
pub open spec fn sprite_at(mem: Seq<u8>, i: int, n: int) -> Seq<u8> {
    Seq::new(n as nat, |r: int| mem[(i + r) % 4096])
}

/// The effect of a draw: XOR-composite the sprite onto the display at
/// `(v[x] mod 64, v[y] mod 32)` and record a collision in the flag register.
pub open spec fn drw_t(m: Chip8View, x: int, y: int, n: int) -> Chip8View {
    let sprite = sprite_at(m.mem, m.i as int, n);
    let x0 = m.v[x] as int % 64;
    let y0 = m.v[y] as int % 32;
    Chip8View {
        display: draw_display(m.display, sprite, x0, y0),
        v: m.v.update(
            15,
            if draw_collision(m.display, sprite, x0, y0) {
                1u8
            } else {
                0u8
            },
        ),
        ..m
    }
}

/// Whether a store instruction's write range, starting at the address
/// register, fits below the top of memory; true for every other
/// instruction. A store that does not fit faults before mutating anything,
/// which is what keeps executed instructions from wrapping a write back
/// into the reserved font region at the bottom of memory.
pub open spec fn store_fits(m: Chip8View, instr: Instr) -> bool {
    match instr {
        Instr::LdB { .. } => m.i + 2 < 4096,
        Instr::StoreRegs { x } => m.i + x < 4096,
        _ => true,
    }
}

/// The lowest pressed key index at or above `k`, if any; `None` past the
/// last key. A pending key wait retires on `first_pressed(keypad, 0)`.
pub open spec fn first_pressed(keypad: Seq<bool>, k: int) -> Option<u8>
    decreases 16 - k,
{
    if k < 0 || k >= 16 {
        None
    } else if keypad[k] {
        Some(k as u8)
    } else {
        first_pressed(keypad, k + 1)
    }
}

/// Whether the program counter points at a fully readable 2-byte
/// instruction.
pub open spec fn fetch_ok(m: Chip8View) -> bool {
    m.pc as int + 1 < 4096
}

/// The big-endian instruction word at the program counter.
pub open spec fn fetched_word(m: Chip8View) -> u16 {
    (m.mem[m.pc as int] * 256 + m.mem[m.pc as int + 1]) as u16
}

/// The machine right after a fetch: the program counter advanced past the
/// fetched word `w`, and `w` recorded as the current opcode.
pub open spec fn advanced(m: Chip8View, w: u16) -> Chip8View {
    Chip8View { pc: word_add(m.pc, 2), opcode: w, ..m }
}

/// The effect of executing `instr` on `m`, where `m` is the machine state
/// right after the fetch that produced `instr`. The key wait moves the
/// program counter back onto its own instruction, so that the machine stays
/// there until the wait retires.
pub open spec fn instr_effect(m: Chip8View, instr: Instr) -> Chip8View {
    match instr {
        Instr::Cls => cls_t(m),
        Instr::Ret => ret_t(m),
        Instr::Jp { addr } => jp_t(m, addr),
        Instr::Call { addr } => call_t(m, addr),
        Instr::SeImm { x, kk } => skip_t(m, m.v[x as int] == kk),
        Instr::SneImm { x, kk } => skip_t(m, m.v[x as int] != kk),
        Instr::SeReg { x, y } => skip_t(m, m.v[x as int] == m.v[y as int]),
        Instr::LdImm { x, kk } => set_v_t(m, x as int, kk),
        Instr::AddImm { x, kk } => set_v_t(m, x as int, byte_add(m.v[x as int], kk)),
        Instr::LdReg { x, y } => set_v_t(m, x as int, m.v[y as int]),
        Instr::Or { x, y } => set_v_t(m, x as int, m.v[x as int] | m.v[y as int]),
        Instr::And { x, y } => set_v_t(m, x as int, m.v[x as int] & m.v[y as int]),
        Instr::Xor { x, y } => set_v_t(m, x as int, m.v[x as int] ^ m.v[y as int]),
        Instr::AddCarry { x, y } => set_v_flag_t(
            m,
            x as int,
            byte_add(m.v[x as int], m.v[y as int]),
            carry_flag(m.v[x as int], m.v[y as int]),
        ),
        Instr::Sub { x, y } => set_v_flag_t(
            m,
            x as int,
            byte_sub(m.v[x as int], m.v[y as int]),
            no_borrow_flag(m.v[x as int], m.v[y as int]),
        ),
        Instr::Shr { x, y } => set_v_flag_t(m, x as int, m.v[x as int] / 2, m.v[x as int] % 2),
        Instr::Subn { x, y } => set_v_flag_t(
            m,
            x as int,
            byte_sub(m.v[y as int], m.v[x as int]),
            no_borrow_flag(m.v[y as int], m.v[x as int]),
        ),
        Instr::Shl { x, y } => set_v_flag_t(
            m,
            x as int,
            byte_add(m.v[x as int], m.v[x as int]),
            m.v[x as int] / 128,
        ),
        Instr::SneReg { x, y } => skip_t(m, m.v[x as int] != m.v[y as int]),
        Instr::LdI { addr } => ldi_t(m, addr),
        Instr::JpV0 { addr } => jp1_t(m, addr),
        Instr::Rnd { x, kk } => rnd_t(m, x as int, kk),
        Instr::Drw { x, y, n } => drw_t(m, x as int, y as int, n as int),
        Instr::Skp { x } => skip_t(m, m.keypad[m.v[x as int] as int % 16]),
        Instr::Sknp { x } => skip_t(m, !m.keypad[m.v[x as int] as int % 16]),
        Instr::LdVxDt { x } => set_v_t(m, x as int, m.dt),
        Instr::WaitKey { x } => (Chip8View { waiting: Some(x), pc: word_sub(m.pc, 2), ..m }),
        Instr::LdDtVx { x } => ld_dt_t(m, x as int),
        Instr::LdStVx { x } => ld_st_t(m, x as int),
        Instr::AddI { x } => addi_t(m, x as int),
        Instr::LdF { x } => ldf_t(m, x as int),
        Instr::LdB { x } => ldb_t(m, x as int),
        Instr::StoreRegs { x } => store_regs_t(m, x as int),
        Instr::LoadRegs { x } => load_regs_t(m, x as int),
    }
}

/// The machine: all components owned exclusively by value.
pub struct Chip8 {
    v: Vec<u8>,
    i: u16,
    pc: u16,
    sp: u8,
    stack: Stack<u16>,
    dt: u8,
    st: u8,
    memory: Vec<u8>,
    display: Vec<bool>,
    keypad: Vec<bool>,
    waiting: Option<u8>,
    rng: u16,
    current_opcode: u16,
}

impl View for Chip8 {
    type V = Chip8View;

    closed spec fn view(&self) -> Chip8View {
        Chip8View {
            v: self.v@,
            i: self.i,
            pc: self.pc,
            sp: self.sp,
            stack: self.stack@,
            dt: self.dt,
            st: self.st,
            mem: self.memory@,
            display: self.display@,
            keypad: self.keypad@,
            waiting: self.waiting,
            rng: self.rng,
            opcode: self.current_opcode,
        }
    }
}

/// A vector of `n` copies of `val`.
fn filled<T: Copy>(n: usize, val: T) -> (r: Vec<T>)
    ensures
        r@ == Seq::new(n as nat, |k: int| val),
{
    let mut out: Vec<T> = Vec::new();
    let mut k: usize = 0;
    while k < n
        invariant
            k <= n,
            out@.len() == k,
            forall|j: int| 0 <= j < k ==> out@[j] == val,
        decreases n - k,
    {
        out.push(val);
        k += 1;
    }
    proof {
        assert(out@ =~= Seq::new(n as nat, |k: int| val));
    }
    out
}

/// The font sprites as bytes, in memory order.
#[verifier::rlimit(100)]
fn font_table() -> (r: Vec<u8>)
    ensures
        r@ == font(),
{
    let mut f: Vec<u8> = Vec::new();
    f.push(0xF0);
    f.push(0x90);
    f.push(0x90);
    f.push(0x90);
    f.push(0xF0);
    f.push(0x20);
    f.push(0x60);
    f.push(0x20);
    f.push(0x20);
    f.push(0x70);
    f.push(0xF0);
    f.push(0x10);
    f.push(0xF0);
    f.push(0x80);
    f.push(0xF0);
    f.push(0xF0);
    f.push(0x10);
    f.push(0xF0);
    f.push(0x10);
    f.push(0xF0);
    f.push(0x90);
    f.push(0x90);
    f.push(0xF0);
    f.push(0x10);
    f.push(0x10);
    f.push(0xF0);
    f.push(0x80);
    f.push(0xF0);
    f.push(0x10);
    f.push(0xF0);
    f.push(0xF0);
    f.push(0x80);
    f.push(0xF0);
    f.push(0x90);
    f.push(0xF0);
    f.push(0xF0);
    f.push(0x10);
    f.push(0x20);
    f.push(0x40);
    f.push(0x40);
    f.push(0xF0);
    f.push(0x90);
    f.push(0xF0);
    f.push(0x90);
    f.push(0xF0);
    f.push(0xF0);
    f.push(0x90);
    f.push(0xF0);
    f.push(0x10);
    f.push(0xF0);
    f.push(0xF0);
    f.push(0x90);
    f.push(0xF0);
    f.push(0x90);
    f.push(0x90);
    f.push(0xE0);
    f.push(0x90);
    f.push(0xE0);
    f.push(0x90);
    f.push(0xE0);
    f.push(0xF0);
    f.push(0x80);
    f.push(0x80);
    f.push(0x80);
    f.push(0xF0);
    f.push(0xE0);
    f.push(0x90);
    f.push(0x90);
    f.push(0x90);
    f.push(0xE0);
    f.push(0xF0);
    f.push(0x80);
    f.push(0xF0);
    f.push(0x80);
    f.push(0xF0);
    f.push(0xF0);
    f.push(0x80);
    f.push(0xF0);
    f.push(0x80);
    f.push(0x80);
    proof {
        assert(f@ =~= font());
    }
    f
}

impl Chip8 {
    /// Creates a machine in the initial state: everything zeroed, the display
    /// cleared, the font loaded at the bottom of memory and the program
    /// counter at the program start address.
    pub fn new() -> (r: Self)
        ensures
            r@ == initial_state(),
            r@.wf(),
    {
        let font_rows = font_table();
        let mut memory: Vec<u8> = Vec::new();
        let mut a: usize = 0;
        while a < 80
            invariant
                a <= 80,
                memory@.len() == a,
                font_rows@ == font(),
                forall|j: int| 0 <= j < a ==> memory@[j] == font()[j],
            decreases 80 - a,
        {
            memory.push(font_rows[a]);
            a += 1;
        }
        while a < 4096
            invariant
                80 <= a <= 4096,
                memory@.len() == a,
                forall|j: int| 0 <= j < 80 ==> memory@[j] == font()[j],
                forall|j: int| 80 <= j < a ==> memory@[j] == 0u8,
            decreases 4096 - a,
        {
            memory.push(0);
            a += 1;
        }
        proof {
            assert(memory@ =~= initial_memory());
        }
        let r = Chip8 {
            v: filled(16, 0u8),
            i: 0,
            pc: PROGRAM_START,
            sp: 0,
            stack: Stack::new(),
            dt: 0,
            st: 0,
            memory,
            display: filled(2048, false),
            keypad: filled(16, false),
            waiting: None,
            rng: RNG_SEED,
            current_opcode: 0,
        };
        proof {
            assert(r@ =~= initial_state());
        }
        r
    }

    /// Copies a program image verbatim into memory starting at the program
    /// start address and leaves everything else unchanged.
    pub fn load_program(&mut self, program: &Vec<u8>)
        requires
            old(self)@.wf(),
            program@.len() <= MEM_SIZE - PROGRAM_START as int,
        ensures
            final(self)@.wf(),
            final(self)@ == (Chip8View {
                mem: Seq::new(
                    4096,
                    |a: int|
                        if PROGRAM_START <= a < PROGRAM_START + program@.len() {
                            program@[a - PROGRAM_START]
                        } else {
                            old(self)@.mem[a]
                        },
                ),
                ..old(self)@
            }),
    {
        let mut k: usize = 0;
        while k < program.len()
            invariant
                old(self)@.wf(),
                program@.len() <= 4096 - 0x200,
                k <= program@.len(),
                self@ == (Chip8View { mem: self@.mem, ..old(self)@ }),
                self@.mem.len() == 4096,
                forall|j: int|
                    0x200 <= j < 0x200 + k ==> self@.mem[j] == program@[j - 0x200],
                forall|j: int|
                    (0 <= j < 0x200 || 0x200 + k <= j < 4096) ==> self@.mem[j] == old(self)@.mem[j],
            decreases program@.len() - k,
        {
            self.memory[0x200 + k] = program[k];
            k += 1;
        }
        proof {
            assert(self@.mem =~= Seq::new(
                4096,
                |a: int|
                    if PROGRAM_START <= a < PROGRAM_START + program@.len() {
                        program@[a - PROGRAM_START]
                    } else {
                        old(self)@.mem[a]
                    },
            ));
            assert(self@ =~= (Chip8View {
                mem: Seq::new(
                    4096,
                    |a: int|
                        if PROGRAM_START <= a < PROGRAM_START + program@.len() {
                            program@[a - PROGRAM_START]
                        } else {
                            old(self)@.mem[a]
                        },
                ),
                ..old(self)@
            }));
        }
    }
}

// The host interface: timers, input and read-only views of the state,
// exposed between steps.
impl Chip8 {
    /// Decrements both timers by one, each floored at zero. The host calls
    /// this at a fixed real-time rate, independent of the stepping rate.
    pub fn tick_timers(&mut self)
        requires
            old(self)@.wf(),
        ensures
            final(self)@.wf(),
            final(self)@ == (Chip8View {
                dt: if old(self)@.dt > 0 {
                    (old(self)@.dt - 1) as u8
                } else {
                    0u8
                },
                st: if old(self)@.st > 0 {
                    (old(self)@.st - 1) as u8
                } else {
                    0u8
                },
                ..old(self)@
            }),
    {
        if self.dt > 0 {
            self.dt = self.dt - 1;
        }
        if self.st > 0 {
            self.st = self.st - 1;
        }
    }

    /// Records a key press or release. `index` must name one of the sixteen
    /// keys; passing anything larger is a caller error.
    pub fn set_key(&mut self, index: usize, pressed: bool)
        requires
            old(self)@.wf(),
            index < 16,
        ensures
            final(self)@.wf(),
            final(self)@ == (Chip8View {
                keypad: old(self)@.keypad.update(index as int, pressed),
                ..old(self)@
            }),
    {
        self.keypad[index] = pressed;
    }

    /// Reads the display pixel at column `x`, row `y`.
    pub fn pixel(&self, x: usize, y: usize) -> (r: bool)
        requires
            self@.wf(),
            x < 64,
            y < 32,
        ensures
            r == self@.display[y * 64 + x],
    {
        self.display[y * 64 + x]
    }

    /// Reads the memory byte at `addr`.
    pub fn mem_byte(&self, addr: usize) -> (r: u8)
        requires
            self@.wf(),
            addr < 4096,
        ensures
            r == self@.mem[addr as int],
    {
        self.memory[addr]
    }

    /// Reads general register `x`.
    pub fn v_reg(&self, x: usize) -> (r: u8)
        requires
            self@.wf(),
            x < 16,
        ensures
            r == self@.v[x as int],
    {
        self.v[x]
    }

    /// Reads the address register.
    pub fn i_reg(&self) -> (r: u16)
        ensures
            r == self@.i,
    {
        self.i
    }

    /// Reads the program counter.
    pub fn program_counter(&self) -> (r: u16)
        ensures
            r == self@.pc,
    {
        self.pc
    }

    /// Reads the delay timer.
    pub fn delay_timer(&self) -> (r: u8)
        ensures
            r == self@.dt,
    {
        self.dt
    }

    /// Reads the sound timer.
    pub fn sound_timer(&self) -> (r: u8)
        ensures
            r == self@.st,
    {
        self.st
    }

    /// Whether a tone is owed: exactly when the sound timer is nonzero.
    pub fn sound_active(&self) -> (r: bool)
        ensures
            r == (self@.st > 0),
    {
        self.st > 0
    }

    /// The current depth of the call stack.
    pub fn stack_depth(&self) -> (r: usize)
        ensures
            r == self@.stack.len(),
    {
        self.stack.len()
    }

    /// Whether the machine is blocked on a key wait.
    pub fn awaiting_key(&self) -> (r: bool)
        ensures
            r == (self@.waiting is Some),
    {
        self.waiting.is_some()
    }

    /// The lowest-numbered pressed key, if any.
    fn scan_keys(&self) -> (r: Option<u8>)
        requires
            self@.wf(),
        ensures
            r == first_pressed(self@.keypad, 0),
    {
        let mut k: usize = 0;
        while k < 16
            invariant
                self@.wf(),
                k <= 16,
                first_pressed(self@.keypad, 0) == first_pressed(self@.keypad, k as int),
            decreases 16 - k,
        {
            if self.keypad[k] {
                return Some(k as u8);
            }
            k += 1;
        }
        None
    }
}

// The instruction set. Each method is one operation of the machine; `step`
// dispatches to them after decoding.
impl Chip8 {
    /// clear-screen: every display pixel becomes false.
    pub fn cls(&mut self)
        requires
            old(self)@.wf(),
        ensures
            final(self)@.wf(),
            final(self)@ == cls_t(old(self)@),
    {
        self.display = filled(2048, false);
        proof {
            assert(self@ =~= cls_t(old(self)@));
        }
    }

    /// return: pops the top return address into the program counter; reports
    /// `StackUnderflow`, changing nothing, exactly when the stack is empty.
    pub fn ret(&mut self) -> (r: Result<(), Fault>)
        requires
            old(self)@.wf(),
        ensures
            final(self)@.wf(),
            match r {
                Ok(()) => old(self)@.stack.len() > 0 && final(self)@ == ret_t(old(self)@),
                Err(f) => f == Fault::StackUnderflow && old(self)@.stack.len() == 0 && final(
                    self
                )@ == old(self)@,
            },
    {
        match self.stack.pop() {
            Some(address) => {
                self.pc = address;
                self.sp = self.sp - 1;
                Ok(())
            },
            None => Err(Fault::StackUnderflow),
        }
    }

    /// jump: the program counter becomes `address`.
    pub fn jp(&mut self, address: u16)
        requires
            old(self)@.wf(),
        ensures
            final(self)@.wf(),
            final(self)@ == jp_t(old(self)@, address),
    {
        self.pc = address;
    }

    /// call: pushes the current program counter and jumps to `address`;
    /// reports `StackOverflow`, changing nothing, exactly when the stack is
    /// already at its 16-entry bound.
    pub fn call(&mut self, address: u16) -> (r: Result<(), Fault>)
        requires
            old(self)@.wf(),
        ensures
            final(self)@.wf(),
            match r {
                Ok(()) => old(self)@.stack.len() < 16 && final(self)@ == call_t(
                    old(self)@,
                    address,
                ),
                Err(f) => f == Fault::StackOverflow && old(self)@.stack.len() == 16 && final(
                    self
                )@ == old(self)@,
            },
    {
        if self.stack.len() == STACK_LIMIT {
            Err(Fault::StackOverflow)
        } else {
            self.stack.push(self.pc);
            self.sp = self.sp + 1;
            self.pc = address;
            Ok(())
        }
    }

    /// skip-if-equal: advances the program counter two further bytes when
    /// register `x` equals the immediate.
    pub fn se(&mut self, x: u16, value: u16)
        requires
            old(self)@.wf(),
            x < 16,
            value < 256,
            old(self)@.pc + 2 <= u16::MAX,
        ensures
            final(self)@.wf(),
            final(self)@ == skip_t(old(self)@, old(self)@.v[x as int] == value as u8),
    {
        if self.v[x as usize] == value as u8 {
            self.pc = self.pc + 2;
        }
    }

    /// skip-if-not-equal: advances the program counter two further bytes
    /// when register `x` differs from the immediate.
    pub fn sne(&mut self, x: u16, value: u16)
        requires
            old(self)@.wf(),
            x < 16,
            value < 256,
            old(self)@.pc + 2 <= u16::MAX,
        ensures
            final(self)@.wf(),
            final(self)@ == skip_t(old(self)@, old(self)@.v[x as int] != value as u8),
    {
        if self.v[x as usize] != value as u8 {
            self.pc = self.pc + 2;
        }
    }

    /// skip-if-registers-equal: advances the program counter two further
    /// bytes when registers `x` and `y` hold the same value.
    pub fn se2(&mut self, x: u16, y: u16)
        requires
            old(self)@.wf(),
            x < 16,
            y < 16,
            old(self)@.pc + 2 <= u16::MAX,
        ensures
            final(self)@.wf(),
            final(self)@ == skip_t(
                old(self)@,
                old(self)@.v[x as int] == old(self)@.v[y as int],
            ),
    {
        if self.v[x as usize] == self.v[y as usize] {
            self.pc = self.pc + 2;
        }
    }

    /// skip-if-registers-not-equal: advances the program counter two further
    /// bytes when registers `x` and `y` differ.
    pub fn sne2(&mut self, x: u16, y: u16)
        requires
            old(self)@.wf(),
            x < 16,
            y < 16,
            old(self)@.pc + 2 <= u16::MAX,
        ensures
            final(self)@.wf(),
            final(self)@ == skip_t(
                old(self)@,
                old(self)@.v[x as int] != old(self)@.v[y as int],
            ),
    {
        if self.v[x as usize] != self.v[y as usize] {
            self.pc = self.pc + 2;
        }
    }

    /// load immediate: register `x` becomes the immediate.
    pub fn ld(&mut self, x: u16, value: u16)
        requires
            old(self)@.wf(),
            x < 16,
            value < 256,
        ensures
            final(self)@.wf(),
            final(self)@ == set_v_t(old(self)@, x as int, value as u8),
    {
        self.v[x as usize] = value as u8;
    }

    /// add immediate: register `x` gains the immediate, wrapping, with no
    /// flag change.
    pub fn add(&mut self, x: u16, value: u16)
        requires
            old(self)@.wf(),
            x < 16,
            value < 256,
        ensures
            final(self)@.wf(),
            final(self)@ == set_v_t(
                old(self)@,
                x as int,
                byte_add(old(self)@.v[x as int], value as u8),
            ),
    {
        let a = self.v[x as usize];
        self.v[x as usize] = a.wrapping_add(value as u8);
    }

    /// load register: register `x` becomes a copy of register `y`.
    pub fn ld2(&mut self, x: u16, y: u16)
        requires
            old(self)@.wf(),
            x < 16,
            y < 16,
        ensures
            final(self)@.wf(),
            final(self)@ == set_v_t(old(self)@, x as int, old(self)@.v[y as int]),
    {
        let b = self.v[y as usize];
        self.v[x as usize] = b;
    }

    /// or: register `x` becomes the bitwise or of registers `x` and `y`.
    pub fn or(&mut self, x: u16, y: u16)
        requires
            old(self)@.wf(),
            x < 16,
            y < 16,
        ensures
            final(self)@.wf(),
            final(self)@ == set_v_t(
                old(self)@,
                x as int,
                old(self)@.v[x as int] | old(self)@.v[y as int],
            ),
    {
        let a = self.v[x as usize];
        let b = self.v[y as usize];
        self.v[x as usize] = a | b;
    }

    /// and: register `x` becomes the bitwise and of registers `x` and `y`.
    pub fn and(&mut self, x: u16, y: u16)
        requires
            old(self)@.wf(),
            x < 16,
            y < 16,
        ensures
            final(self)@.wf(),
            final(self)@ == set_v_t(
                old(self)@,
                x as int,
                old(self)@.v[x as int] & old(self)@.v[y as int],
            ),
    {
        let a = self.v[x as usize];
        let b = self.v[y as usize];
        self.v[x as usize] = a & b;
    }

    /// xor: register `x` becomes the bitwise xor of registers `x` and `y`.
    pub fn xor(&mut self, x: u16, y: u16)
        requires
            old(self)@.wf(),
            x < 16,
            y < 16,
        ensures
            final(self)@.wf(),
            final(self)@ == set_v_t(
                old(self)@,
                x as int,
                old(self)@.v[x as int] ^ old(self)@.v[y as int],
            ),
    {
        let a = self.v[x as usize];
        let b = self.v[y as usize];
        self.v[x as usize] = a ^ b;
    }

    /// add with carry: register `x` becomes the wrapped sum of registers `x`
    /// and `y`; the flag register becomes 1 exactly when the unsigned sum
    /// exceeds 255, else 0.
    pub fn add_carry(&mut self, x: u16, y: u16)
        requires
            old(self)@.wf(),
            x < 16,
            y < 16,
        ensures
            final(self)@.wf(),
            final(self)@ == set_v_flag_t(
                old(self)@,
                x as int,
                byte_add(old(self)@.v[x as int], old(self)@.v[y as int]),
                carry_flag(old(self)@.v[x as int], old(self)@.v[y as int]),
            ),
    {
        let a = self.v[x as usize];
        let b = self.v[y as usize];
        self.v[x as usize] = a.wrapping_add(b);
        self.v[15] = if (a as u16) + (b as u16) > 255 {
            1
        } else {
            0
        };
    }

    /// subtract: register `x` becomes the wrapped difference of registers
    /// `x` and `y`; the flag register becomes 1 exactly when no borrow was
    /// needed, that is when `v[x] >= v[y]`.
    pub fn sub(&mut self, x: u16, y: u16)
        requires
            old(self)@.wf(),
            x < 16,
            y < 16,
        ensures
            final(self)@.wf(),
            final(self)@ == set_v_flag_t(
                old(self)@,
                x as int,
                byte_sub(old(self)@.v[x as int], old(self)@.v[y as int]),
                no_borrow_flag(old(self)@.v[x as int], old(self)@.v[y as int]),
            ),
    {
        let a = self.v[x as usize];
        let b = self.v[y as usize];
        self.v[x as usize] = a.wrapping_sub(b);
        self.v[15] = if a >= b {
            1
        } else {
            0
        };
    }

    /// shift-right: the flag register captures the low bit of register `x`
    /// before the shift; register `x` is then halved.
    pub fn shr(&mut self, x: u16, y: u16)
        requires
            old(self)@.wf(),
            x < 16,
            y < 16,
        ensures
            final(self)@.wf(),
            final(self)@ == set_v_flag_t(
                old(self)@,
                x as int,
                old(self)@.v[x as int] / 2,
                old(self)@.v[x as int] % 2,
            ),
    {
        let a = self.v[x as usize];
        self.v[x as usize] = a / 2;
        self.v[15] = a % 2;
    }

    /// subtract reversed: register `x` becomes the wrapped value of
    /// `v[y] - v[x]`; the flag register becomes 1 exactly when
    /// `v[y] >= v[x]`.
    pub fn subn(&mut self, x: u16, y: u16)
        requires
            old(self)@.wf(),
            x < 16,
            y < 16,
        ensures
            final(self)@.wf(),
            final(self)@ == set_v_flag_t(
                old(self)@,
                x as int,
                byte_sub(old(self)@.v[y as int], old(self)@.v[x as int]),
                no_borrow_flag(old(self)@.v[y as int], old(self)@.v[x as int]),
            ),
    {
        let a = self.v[x as usize];
        let b = self.v[y as usize];
        self.v[x as usize] = b.wrapping_sub(a);
        self.v[15] = if b >= a {
            1
        } else {
            0
        };
    }

    /// shift-left: the flag register captures the high bit of register `x`
    /// before the shift; register `x` is then doubled, wrapping.
    pub fn shl(&mut self, x: u16, y: u16)
        requires
            old(self)@.wf(),
            x < 16,
            y < 16,
        ensures
            final(self)@.wf(),
            final(self)@ == set_v_flag_t(
                old(self)@,
                x as int,
                byte_add(old(self)@.v[x as int], old(self)@.v[x as int]),
                old(self)@.v[x as int] / 128,
            ),
    {
        let a = self.v[x as usize];
        self.v[x as usize] = a.wrapping_add(a);
        self.v[15] = a / 128;
    }

    /// load address register: it becomes `address`.
    pub fn ldi(&mut self, address: u16)
        requires
            old(self)@.wf(),
        ensures
            final(self)@.wf(),
            final(self)@ == ldi_t(old(self)@, address),
    {
        self.i = address;
    }

    /// jump with offset: the program counter becomes `address + v[0]`,
    /// wrapping.
    pub fn jp1(&mut self, address: u16)
        requires
            old(self)@.wf(),
        ensures
            final(self)@.wf(),
            final(self)@ == jp1_t(old(self)@, address),
    {
        self.pc = address.wrapping_add(self.v[0] as u16);
    }

    /// random: register `x` becomes a fresh pseudo-random byte masked by the
    /// immediate; the generator advances by one step.
    pub fn rnd(&mut self, x: u16, value: u16)
        requires
            old(self)@.wf(),
            x < 16,
            value < 256,
        ensures
            final(self)@.wf(),
            final(self)@ == rnd_t(old(self)@, x as int, value as u8),
    {
        let next = ((self.rng as u32) * 25173 + 13849) % 65536;
        self.rng = next as u16;
        let byte = (next / 256) as u8;
        self.v[x as usize] = byte & (value as u8);
    }

    /// skip-if-key-pressed: advances the program counter two further bytes
    /// when the key named by the low nibble of register `x` is pressed.
    pub fn skp(&mut self, x: u16)
        requires
            old(self)@.wf(),
            x < 16,
            old(self)@.pc + 2 <= u16::MAX,
        ensures
            final(self)@.wf(),
            final(self)@ == skip_t(
                old(self)@,
                old(self)@.keypad[old(self)@.v[x as int] as int % 16],
            ),
    {
        let key = self.v[x as usize] % 16;
        if self.keypad[key as usize] {
            self.pc = self.pc + 2;
        }
    }

    /// skip-if-key-not-pressed: advances the program counter two further
    /// bytes when the key named by the low nibble of register `x` is not
    /// pressed.
    pub fn sknp(&mut self, x: u16)
        requires
            old(self)@.wf(),
            x < 16,
            old(self)@.pc + 2 <= u16::MAX,
        ensures
            final(self)@.wf(),
            final(self)@ == skip_t(
                old(self)@,
                !old(self)@.keypad[old(self)@.v[x as int] as int % 16],
            ),
    {
        let key = self.v[x as usize] % 16;
        if !self.keypad[key as usize] {
            self.pc = self.pc + 2;
        }
    }

    /// load from delay timer: register `x` becomes the delay timer's value.
    pub fn ld_xvdt(&mut self, x: u16)
        requires
            old(self)@.wf(),
            x < 16,
        ensures
            final(self)@.wf(),
            final(self)@ == set_v_t(old(self)@, x as int, old(self)@.dt),
    {
        let t = self.dt;
        self.v[x as usize] = t;
    }

    /// wait-for-key: blocks stepping until a key is pressed; register `x`
    /// will receive the key's index when the wait retires.
    pub fn ld_keypres(&mut self, x: u16)
        requires
            old(self)@.wf(),
            x < 16,
        ensures
            final(self)@.wf(),
            final(self)@ == wait_t(old(self)@, x as u8),
    {
        self.waiting = Some(x as u8);
    }

    /// load delay timer: it becomes register `x`.
    pub fn ld_dtxv(&mut self, x: u16)
        requires
            old(self)@.wf(),
            x < 16,
        ensures
            final(self)@.wf(),
            final(self)@ == ld_dt_t(old(self)@, x as int),
    {
        self.dt = self.v[x as usize];
    }

    /// load sound timer: it becomes register `x`.
    pub fn ld_st(&mut self, x: u16)
        requires
            old(self)@.wf(),
            x < 16,
        ensures
            final(self)@.wf(),
            final(self)@ == ld_st_t(old(self)@, x as int),
    {
        self.st = self.v[x as usize];
    }

    /// add to address register: it gains register `x`, wrapping, with no
    /// flag.
    pub fn addi(&mut self, x: u16)
        requires
            old(self)@.wf(),
            x < 16,
        ensures
            final(self)@.wf(),
            final(self)@ == addi_t(old(self)@, x as int),
    {
        let a = self.v[x as usize];
        self.i = self.i.wrapping_add(a as u16);
    }

    /// font lookup: the address register points at the 5-byte font sprite of
    /// the digit named by the low nibble of register `x`.
    pub fn ldf(&mut self, x: u16)
        requires
            old(self)@.wf(),
            x < 16,
        ensures
            final(self)@.wf(),
            final(self)@ == ldf_t(old(self)@, x as int),
    {
        let digit = self.v[x as usize] % 16;
        self.i = 5 * (digit as u16);
    }

    /// store-BCD: writes the three decimal digits of register `x`, most
    /// significant first, at the address register and the two bytes after
    /// it; reports `OutOfBoundsStore`, writing nothing, exactly when that
    /// range would cross the top of memory.
    pub fn ldb(&mut self, x: u16) -> (r: Result<(), Fault>)
        requires
            old(self)@.wf(),
            x < 16,
        ensures
            final(self)@.wf(),
            match r {
                Ok(()) => old(self)@.i + 2 < 4096 && final(self)@ == ldb_t(old(self)@, x as int),
                Err(f) => f == (Fault::OutOfBoundsStore { addr: old(self)@.i }) && old(self)@.i + 2
                    >= 4096 && final(self)@ == old(self)@,
            },
    {
        if self.i >= 4094 {
            return Err(Fault::OutOfBoundsStore { addr: self.i });
        }
        let val = self.v[x as usize];
        let base = self.i as usize;
        self.memory[base] = val / 100;
        self.memory[base + 1] = (val / 10) % 10;
        self.memory[base + 2] = val % 10;
        Ok(())
    }

    /// store-registers: writes registers 0 through `x` to memory at the
    /// address register on; reports `OutOfBoundsStore`, writing nothing,
    /// exactly when that range would cross the top of memory.
    pub fn ldivx(&mut self, x: u16) -> (r: Result<(), Fault>)
        requires
            old(self)@.wf(),
            x < 16,
        ensures
            final(self)@.wf(),
            match r {
                Ok(()) => old(self)@.i + x < 4096 && final(self)@ == store_regs_t(
                    old(self)@,
                    x as int,
                ),
                Err(f) => f == (Fault::OutOfBoundsStore { addr: old(self)@.i }) && old(self)@.i + x
                    >= 4096 && final(self)@ == old(self)@,
            },
    {
        let count = x as usize;
        if self.i as usize + count >= 4096 {
            return Err(Fault::OutOfBoundsStore { addr: self.i });
        }
        let base = self.i as usize;
        let mut k: usize = 0;
        while k <= count
            invariant
                old(self)@.wf(),
                count < 16,
                base == old(self)@.i as int,
                base + count < 4096,
                k <= count + 1,
                self@ == (Chip8View { mem: self@.mem, ..old(self)@ }),
                self@.mem.len() == 4096,
                self@.mem == store_regs(old(self)@.mem, old(self)@.v, k - 1, old(self)@.i as int),
            decreases count + 1 - k,
        {
            let b = self.v[k];
            self.memory[base + k] = b;
            k += 1;
        }
        Ok(())
    }

    /// draw: XOR-composites the `n`-byte sprite at the address register onto
    /// the display at `(v[x] mod 64, v[y] mod 32)`, wrapping columns around
    /// the right edge and clipping rows past the bottom edge; the flag
    /// register becomes 1 exactly when some lit pixel was turned off.
    pub fn drw(&mut self, vx: u16, vy: u16, n: u16)
        requires
            old(self)@.wf(),
            vx < 16,
            vy < 16,
            n < 16,
        ensures
            final(self)@.wf(),
            final(self)@ == drw_t(old(self)@, vx as int, vy as int, n as int),
    {
        let ghost sprite = sprite_at(old(self)@.mem, old(self)@.i as int, n as int);
        let x0 = (self.v[vx as usize] % 64) as usize;
        let y0 = (self.v[vy as usize] % 32) as usize;
        let height = n as usize;
        let mut rows: Vec<u8> = Vec::new();
        let mut r: usize = 0;
        while r < height
            invariant
                old(self)@.wf(),
                self == old(self),
                r <= height < 16,
                rows@.len() == r,
                forall|j: int| 0 <= j < r ==> rows@[j] == self@.mem[(self@.i as int + j) % 4096],
            decreases height - r,
        {
            let b = self.memory[(self.i as usize + r) % 4096];
            rows.push(b);
            r += 1;
        }
        proof {
            assert(rows@ =~= sprite);
        }
        let mut collided = false;
        let mut k: usize = 0;
        while k < 2048
            invariant
                old(self)@.wf(),
                k <= 2048,
                self@ == (Chip8View { display: self@.display, ..old(self)@ }),
                self@.display.len() == 2048,
                vx < 16,
                vy < 16,
                rows@ == sprite,
                sprite.len() == n < 16,
                height == n as int,
                x0 == old(self)@.v[vx as int] as int % 64,
                y0 == old(self)@.v[vy as int] as int % 32,
                x0 < 64,
                y0 < 32,
                forall|j: int|
                    0 <= j < k ==> self@.display[j] == (old(self)@.display[j] != covers(
                        sprite,
                        x0 as int,
                        y0 as int,
                        j % 64,
                        j / 64,
                    )),
                forall|j: int| k <= j < 2048 ==> self@.display[j] == old(self)@.display[j],
                collided == exists|j: int|
                    0 <= j < k && old(self)@.display[j] && covers(
                        sprite,
                        x0 as int,
                        y0 as int,
                        j % 64,
                        j / 64,
                    ),
            decreases 2048 - k,
        {
            let px = k % 64;
            let py = k / 64;
            let cov: bool = if py >= y0 && py - y0 < height {
                let c = (px + 64 - x0) % 64;
                if c < 8 {
                    row_bit(rows[py - y0], c)
                } else {
                    false
                }
            } else {
                false
            };
            proof {
                assert(cov == covers(sprite, x0 as int, y0 as int, k as int % 64, k as int / 64));
            }
            if cov {
                let cur = self.display[k];
                if cur {
                    collided = true;
                }
                self.display[k] = !cur;
            }
            k += 1;
        }
        self.v[15] = if collided {
            1
        } else {
            0
        };
        proof {
            let x0i = old(self)@.v[vx as int] as int % 64;
            let y0i = old(self)@.v[vy as int] as int % 32;
            assert(self@.display =~= draw_display(old(self)@.display, sprite, x0i, y0i));
            assert(collided == draw_collision(old(self)@.display, sprite, x0i, y0i));
            assert(self@ =~= drw_t(old(self)@, vx as int, vy as int, n as int));
        }
    }

    /// load-registers: reads memory at the address register on (addresses
    /// modulo 4096) into registers 0 through `x`.
    pub fn ldvxi(&mut self, x: u16)
        requires
            old(self)@.wf(),
            x < 16,
        ensures
            final(self)@.wf(),
            final(self)@ == load_regs_t(old(self)@, x as int),
    {
        let count = x as usize;
        let mut k: usize = 0;
        while k <= count
            invariant
                old(self)@.wf(),
                count < 16,
                k <= count + 1,
                self@ == (Chip8View { v: self@.v, ..old(self)@ }),
                self@.v.len() == 16,
                self@.v == load_regs(old(self)@.v, old(self)@.mem, k - 1, old(self)@.i as int),
            decreases count + 1 - k,
        {
            let b = self.memory[(self.i as usize + k) % 4096];
            self.v[k] = b;
            k += 1;
        }
    }

    /// Executes exactly one instruction, or services a pending key wait.
    ///
    /// A pending wait makes the step a no-op until some key is pressed; it
    /// then retires by writing the lowest pressed key's index to the recorded
    /// register and advancing past the wait instruction. Otherwise the word
    /// at the program counter is fetched, decoded and executed. Every fault
    /// is detected before any mutation, so an `Err` leaves the machine
    /// exactly as it was.
    pub fn step(&mut self) -> (r: Result<(), Fault>)
        requires
            old(self)@.wf(),
        ensures
            final(self)@.wf(),
            (match old(self)@.waiting {
                Some(wx) => r == Ok::<(), Fault>(()) && (match first_pressed(
                    old(self)@.keypad,
                    0,
                ) {
                    Some(key) => final(self)@ == retire_t(old(self)@, wx, key),
                    None => final(self)@ == old(self)@,
                }),
                None => {
                    if !fetch_ok(old(self)@) {
                        &&& r == Err::<(), Fault>(
                            Fault::OutOfBoundsFetch { pc: old(self)@.pc },
                        )
                        &&& final(self)@ == old(self)@
                    } else {
                        match decode_spec(fetched_word(old(self)@)) {
                            None => r == Err::<(), Fault>(
                                Fault::UnknownOpcode {
                                    word: fetched_word(old(self)@),
                                    pc: old(self)@.pc,
                                },
                            ) && final(self)@ == old(self)@,
                            Some(instr) => {
                                if instr is Call && old(self)@.stack.len() >= 16 {
                                    r == Err::<(), Fault>(Fault::StackOverflow) && final(self)@
                                        == old(self)@
                                } else if instr is Ret && old(self)@.stack.len() == 0 {
                                    r == Err::<(), Fault>(Fault::StackUnderflow) && final(self)@
                                        == old(self)@
                                } else if !store_fits(old(self)@, instr) {
                                    r == Err::<(), Fault>(
                                        Fault::OutOfBoundsStore { addr: old(self)@.i },
                                    ) && final(self)@ == old(self)@
                                } else {
                                    r == Ok::<(), Fault>(()) && final(self)@ == instr_effect(
                                        advanced(old(self)@, fetched_word(old(self)@)),
                                        instr,
                                    )
                                }
                            },
                        }
                    }
                },
            }),
    {
        match self.waiting {
            Some(wx) => {
                match self.scan_keys() {
                    Some(key) => {
                        self.v[wx as usize] = key;
                        self.waiting = None;
                        self.pc = self.pc.wrapping_add(2);
                        Ok(())
                    },
                    None => Ok(()),
                }
            },
            None => {
                if self.pc as usize + 1 >= MEM_SIZE {
                    return Err(Fault::OutOfBoundsFetch { pc: self.pc });
                }
                let hi = self.memory[self.pc as usize];
                let lo = self.memory[self.pc as usize + 1];
                let word = (hi as u16) * 256 + (lo as u16);
                match decode(word) {
                    None => Err(Fault::UnknownOpcode { word, pc: self.pc }),
                    Some(instr) => {
                        match instr {
                            Instr::Call { .. } => {
                                if self.stack.len() == STACK_LIMIT {
                                    return Err(Fault::StackOverflow);
                                }
                            },
                            Instr::Ret => {
                                if self.stack.len() == 0 {
                                    return Err(Fault::StackUnderflow);
                                }
                            },
                            Instr::LdB { .. } => {
                                if self.i >= 4094 {
                                    return Err(Fault::OutOfBoundsStore { addr: self.i });
                                }
                            },
                            Instr::StoreRegs { x } => {
                                if self.i as usize + x as usize >= 4096 {
                                    return Err(Fault::OutOfBoundsStore { addr: self.i });
                                }
                            },
                            _ => {},
                        }
                        self.pc = self.pc + 2;
                        self.current_opcode = word;
                        proof {
                            assert(self@ == advanced(old(self)@, word));
                        }
                        match instr {
                            Instr::Cls => self.cls(),
                            Instr::Ret => {
                                let _ = self.ret();
                            },
                            Instr::Jp { addr } => self.jp(addr),
                            Instr::Call { addr } => {
                                let _ = self.call(addr);
                            },
                            Instr::SeImm { x, kk } => self.se(x as u16, kk as u16),
                            Instr::SneImm { x, kk } => self.sne(x as u16, kk as u16),
                            Instr::SeReg { x, y } => self.se2(x as u16, y as u16),
                            Instr::LdImm { x, kk } => self.ld(x as u16, kk as u16),
                            Instr::AddImm { x, kk } => self.add(x as u16, kk as u16),
                            Instr::LdReg { x, y } => self.ld2(x as u16, y as u16),
                            Instr::Or { x, y } => self.or(x as u16, y as u16),
                            Instr::And { x, y } => self.and(x as u16, y as u16),
                            Instr::Xor { x, y } => self.xor(x as u16, y as u16),
                            Instr::AddCarry { x, y } => self.add_carry(x as u16, y as u16),
                            Instr::Sub { x, y } => self.sub(x as u16, y as u16),
                            Instr::Shr { x, y } => self.shr(x as u16, y as u16),
                            Instr::Subn { x, y } => self.subn(x as u16, y as u16),
                            Instr::Shl { x, y } => self.shl(x as u16, y as u16),
                            Instr::SneReg { x, y } => self.sne2(x as u16, y as u16),
                            Instr::LdI { addr } => self.ldi(addr),
                            Instr::JpV0 { addr } => self.jp1(addr),
                            Instr::Rnd { x, kk } => self.rnd(x as u16, kk as u16),
                            Instr::Drw { x, y, n } => self.drw(x as u16, y as u16, n as u16),
                            Instr::Skp { x } => self.skp(x as u16),
                            Instr::Sknp { x } => self.sknp(x as u16),
                            Instr::LdVxDt { x } => self.ld_xvdt(x as u16),
                            Instr::WaitKey { x } => {
                                self.pc = self.pc - 2;
                                self.ld_keypres(x as u16);
                            },
                            Instr::LdDtVx { x } => self.ld_dtxv(x as u16),
                            Instr::LdStVx { x } => self.ld_st(x as u16),
                            Instr::AddI { x } => self.addi(x as u16),
                            Instr::LdF { x } => self.ldf(x as u16),
                            Instr::LdB { x } => {
                                let _ = self.ldb(x as u16);
                            },
                            Instr::StoreRegs { x } => {
                                let _ = self.ldivx(x as u16);
                            },
                            Instr::LoadRegs { x } => self.ldvxi(x as u16),
                        }
                        Ok(())
                    },
                }
            },
        }
    }
}

/// Storing preserves memory's size.
proof fn lemma_store_regs_len(mem: Seq<u8>, v: Seq<u8>, x: int, i: int)
    requires
        mem.len() == 4096,
        0 <= i,
        i + x < 4096,
    ensures
        store_regs(mem, v, x, i).len() == mem.len(),
    decreases x + 1,
{
    if x >= 0 {
        lemma_store_regs_len(mem, v, x - 1, i);
    }
}

/// Loading preserves the register file's size.
proof fn lemma_load_regs_len(v: Seq<u8>, mem: Seq<u8>, x: int, i: int)
    requires
        v.len() == 16,
        x < 16,
    ensures
        load_regs(v, mem, x, i).len() == v.len(),
    decreases x + 1,
{
    if x >= 0 {
        lemma_load_regs_len(v, mem, x - 1, i);
    }
}

/// What storing wrote: register `k` of the stored block sits at address
/// `i + k`.
proof fn lemma_store_regs_reads(mem: Seq<u8>, v: Seq<u8>, x: int, i: int, k: int)
    requires
        mem.len() == 4096,
        v.len() == 16,
        0 <= i,
        i + x < 4096,
        0 <= k <= x < 16,
    ensures
        store_regs(mem, v, x, i)[i + k] == v[k],
    decreases x,
{
    lemma_store_regs_len(mem, v, x - 1, i);
    if k < x {
        lemma_store_regs_reads(mem, v, x - 1, i, k);
    }
}

/// What storing left alone: every address outside the stored block keeps
/// its byte.
proof fn lemma_store_regs_frame(mem: Seq<u8>, v: Seq<u8>, x: int, i: int, a: int)
    requires
        mem.len() == 4096,
        0 <= i,
        i + x < 4096,
        0 <= a < 4096,
        a < i || a > i + x,
    ensures
        store_regs(mem, v, x, i)[a] == mem[a],
    decreases x + 1,
{
    if x >= 0 {
        lemma_store_regs_len(mem, v, x - 1, i);
        lemma_store_regs_frame(mem, v, x - 1, i, a);
    }
}

/// What loading read: register `k` of the loaded block came from the wrapped
/// address `i + k`.
proof fn lemma_load_regs_reads(v: Seq<u8>, mem: Seq<u8>, x: int, i: int, k: int)
    requires
        v.len() == 16,
        0 <= k <= x < 16,
    ensures
        load_regs(v, mem, x, i)[k] == mem[(i + k) % 4096],
    decreases x,
{
    lemma_load_regs_len(v, mem, x - 1, i);
    if k < x {
        lemma_load_regs_reads(v, mem, x - 1, i, k);
    }
}

/// The store/load round trip: storing registers 0 through `x` of `v` to
/// memory at address `i` (a range that fits below the top of memory, as the
/// store instruction demands) and then loading the same range from the same
/// address into any register file `z` reproduces the stored values.
pub proof fn lemma_store_load_roundtrip(mem: Seq<u8>, v: Seq<u8>, z: Seq<u8>, x: int, i: int)
    requires
        mem.len() == 4096,
        v.len() == 16,
        z.len() == 16,
        0 <= x < 16,
        0 <= i,
        i + x < 4096,
    ensures
        forall|k: int|
            0 <= k <= x ==> load_regs(z, store_regs(mem, v, x, i), x, i)[k] == v[k],
{
    let stored = store_regs(mem, v, x, i);
    lemma_store_regs_len(mem, v, x, i);
    assert forall|k: int| 0 <= k <= x implies load_regs(z, stored, x, i)[k] == v[k] by {
        lemma_load_regs_reads(z, stored, x, i, k);
        assert((i + k) % 4096 == i + k);
        lemma_store_regs_reads(mem, v, x, i, k);
    }
}

/// The font region is never mutated by executing instructions: any
/// instruction whose store range fits (as `step` enforces before mutating)
/// and whose stores, if it is one of the two store instructions, start at
/// or above the program area leaves every byte below the program start
/// address exactly as initialization wrote it. Only the two store
/// instructions write memory at all.
pub proof fn lemma_font_region_preserved(m: Chip8View, instr: Instr)
    requires
        m.wf(),
        store_fits(m, instr),
        match instr {
            Instr::LdB { .. } => m.i >= PROGRAM_START,
            Instr::StoreRegs { .. } => m.i >= PROGRAM_START,
            _ => true,
        },
    ensures
        forall|a: int| 0 <= a < PROGRAM_START ==> instr_effect(m, instr).mem[a] == m.mem[a],
{
    match instr {
        Instr::StoreRegs { x } => {
            assert forall|a: int| 0 <= a < PROGRAM_START implies instr_effect(m, instr).mem[a]
                == m.mem[a] by {
                lemma_store_regs_frame(m.mem, m.v, x as int, m.i as int, a);
            }
        },
        _ => {},
    }
}

/// Stack discipline: a call followed immediately by a return restores the
/// whole machine state, and in particular the program counter, which at the
/// call already pointed past the call instruction, and the stack depth. The
/// call itself deepens the stack by exactly one entry.
pub proof fn lemma_call_then_ret(m: Chip8View, addr: u16)
    requires
        m.wf(),
        m.stack.len() < 16,
    ensures
        call_t(m, addr).stack.len() == m.stack.len() + 1,
        ret_t(call_t(m, addr)) == m,
{
    assert(call_t(m, addr).stack.drop_last() =~= m.stack);
    assert(ret_t(call_t(m, addr)) =~= m);
}

} // verus!
