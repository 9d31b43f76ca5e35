//! The abstract CHIP-8 machine: its state as mathematical values, and the
//! meaning of each instruction as a function from state to state.
//!
//! Arithmetic on the registers, the index register, the program counter and
//! the stack pointer wraps around in the width of its type (8 bits for the
//! V registers, 16 bits for the others). The only faults are reads and writes
//! outside memory, the stack or the keypad: each instruction that can make
//! one comes with a predicate (`..._ok`) that says on which states it does
//! not, and `instruction_ok` gathers them.
use vstd::prelude::*;

verus! {

/// Run state of the machine.
#[derive(PartialEq, Eq, Structural, Clone, Copy, Debug)]
pub enum STATE {
    RUNNING,
    STOPED,
    PAUSED,
}

/// Address at which programs are loaded and execution starts.
pub const PROGRAM_START: u16 = 0x200;

/// The machine state as mathematical values. `display[x][y]` is the pixel in
/// column `x` and row `y`.
#[verifier::ext_equal]
pub struct Machine {
    pub key: Seq<bool>,
    pub display: Seq<Seq<bool>>,
    pub mem: Seq<u8>,
    pub v: Seq<u8>,
    pub stack: Seq<u16>,
    pub pc: u16,
    pub sp: u16,
    pub i: u16,
    pub dt: u8,
    pub st: u8,
    pub kp: u8,
    pub ku: bool,
    pub state: STATE,
}

/// The X register field of an instruction (bits 8..12).
pub open spec fn op_x(op: u16) -> int {
    (op as int / 0x100) % 0x10
}

/// The Y register field of an instruction (bits 4..8).
pub open spec fn op_y(op: u16) -> int {
    (op as int / 0x10) % 0x10
}

/// The low nibble of an instruction.
pub open spec fn op_n(op: u16) -> int {
    op as int % 0x10
}

/// The low byte of an instruction.
pub open spec fn op_nn(op: u16) -> int {
    op as int % 0x100
}

/// The low twelve bits of an instruction (an address).
pub open spec fn op_nnn(op: u16) -> int {
    op as int % 0x1000
}

/// The high nibble of an instruction, which selects its family.
pub open spec fn op_family(op: u16) -> int {
    op as int / 0x1000
}

/// Moving to the next instruction: the program counter grows by two (in
/// 16 bits) when that stays below 4090, and stays where it is otherwise.
pub open spec fn advance(s: Machine) -> Machine {
    let next = (s.pc + 2) % 0x10000;
    Machine { pc: if next < 4090 { next as u16 } else { s.pc }, ..s }
}

/// Storing a value in register `x`.
pub open spec fn set_v(s: Machine, x: int, val: u8) -> Machine {
    Machine { v: s.v.update(x, val), ..s }
}

/// A conditional skip: the next instruction is passed over when `cond` holds.
pub open spec fn skip_if(s: Machine, cond: bool) -> Machine {
    if cond {
        advance(advance(s))
    } else {
        advance(s)
    }
}

/// The screen with every pixel off.
pub open spec fn blank_display() -> Seq<Seq<bool>> {
    Seq::new(64, |x: int| Seq::new(32, |y: int| false))
}

/// The sizes of the machine's memories: 16 keys, 64 columns of 32 pixels,
/// 4096 bytes of memory, 16 registers and 16 stack slots.
pub open spec fn wf(s: Machine) -> bool {
    &&& s.key.len() == 16
    &&& s.display.len() == 64
    &&& forall|x: int| 0 <= x < 64 ==> (#[trigger] s.display[x]).len() == 32
    &&& s.mem.len() == 4096
    &&& s.v.len() == 16
    &&& s.stack.len() == 16
}

// ----- instruction fetch -----

/// The two bytes at the program counter lie in memory.
pub open spec fn fetch_ok(s: Machine) -> bool {
    s.pc + 1 < 4096
}

/// The big-endian instruction word at the program counter.
pub open spec fn fetch_spec(s: Machine) -> u16 {
    (s.mem[s.pc as int] as int * 0x100 + s.mem[s.pc + 1] as int) as u16
}

// ----- the instructions, one by one -----

/// 00E0: clear the screen.
pub open spec fn op_00e0(s: Machine) -> Machine {
    advance(Machine { display: blank_display(), ..s })
}

/// 00EE: return from a subroutine: the program counter is taken from the
/// stack slot at the stack pointer, the stack pointer drops by one, and the
/// machine moves past the call.
pub open spec fn op_00ee(s: Machine) -> Machine {
    advance(Machine { pc: s.stack[s.sp as int], sp: ((s.sp - 1) % 0x10000) as u16, ..s })
}

/// The stack slot read lies in the stack.
pub open spec fn op_00ee_ok(s: Machine) -> bool {
    s.sp < 16
}

/// 1NNN: jump to NNN.
pub open spec fn op_1nnn(s: Machine, op: u16) -> Machine {
    Machine { pc: op_nnn(op) as u16, ..s }
}

/// 2NNN: call NNN: the stack pointer grows by one, the current program
/// counter is stored in the slot it then names, and control jumps to NNN.
pub open spec fn op_2nnn(s: Machine, op: u16) -> Machine {
    let sp = (s.sp + 1) % 0x10000;
    Machine { sp: sp as u16, stack: s.stack.update(sp, s.pc), pc: op_nnn(op) as u16, ..s }
}

/// The stack slot written lies in the stack.
pub open spec fn op_2nnn_ok(s: Machine) -> bool {
    (s.sp + 1) % 0x10000 < 16
}

/// 3XNN: skip the next instruction when VX equals NN.
pub open spec fn op_3xnn(s: Machine, op: u16) -> Machine {
    skip_if(s, s.v[op_x(op)] == op_nn(op))
}

/// 4XNN: skip the next instruction when VX differs from NN.
pub open spec fn op_4xnn(s: Machine, op: u16) -> Machine {
    skip_if(s, s.v[op_x(op)] != op_nn(op))
}

/// 5XY?: skip the next instruction when VX equals VY.
pub open spec fn op_5xy0(s: Machine, op: u16) -> Machine {
    skip_if(s, s.v[op_x(op)] == s.v[op_y(op)])
}

/// 6XNN: VX = NN.
pub open spec fn op_6xnn(s: Machine, op: u16) -> Machine {
    advance(set_v(s, op_x(op), op_nn(op) as u8))
}

/// 7XNN: VX = (VX + NN) mod 256; VF is not touched.
pub open spec fn op_7xnn(s: Machine, op: u16) -> Machine {
    advance(set_v(s, op_x(op), ((s.v[op_x(op)] + op_nn(op)) % 256) as u8))
}

/// 8XY0: VX = VY.
pub open spec fn op_8xy0(s: Machine, op: u16) -> Machine {
    advance(set_v(s, op_x(op), s.v[op_y(op)]))
}

/// 8XY1: VX = VX | VY, then VF = 0.
pub open spec fn op_8xy1(s: Machine, op: u16) -> Machine {
    advance(
        Machine { v: s.v.update(op_x(op), s.v[op_x(op)] | s.v[op_y(op)]).update(15, 0), ..s },
    )
}

/// 8XY2: VX = VX & VY, then VF = 0.
pub open spec fn op_8xy2(s: Machine, op: u16) -> Machine {
    advance(
        Machine { v: s.v.update(op_x(op), s.v[op_x(op)] & s.v[op_y(op)]).update(15, 0), ..s },
    )
}

/// 8XY3: VX = VX ^ VY, then VF = 0.
pub open spec fn op_8xy3(s: Machine, op: u16) -> Machine {
    advance(
        Machine { v: s.v.update(op_x(op), s.v[op_x(op)] ^ s.v[op_y(op)]).update(15, 0), ..s },
    )
}

/// 8XY4: VF = the carry of VX + VY, then VX = (VX + VY) mod 256.
pub open spec fn op_8xy4(s: Machine, op: u16) -> Machine {
    let total = s.v[op_x(op)] + s.v[op_y(op)];
    let carry: u8 = if total > 255 { 1 } else { 0 };
    advance(Machine { v: s.v.update(15, carry).update(op_x(op), (total % 256) as u8), ..s })
}

/// 8XY5: VY is subtracted from VX: VX = (VX - VY) mod 256 (not VY - VX,
/// which is 8XY7). VF is first cleared, then set to 1 when VY < VX (read
/// after the clear), so it is 0 on a borrow; VX is written last.
pub open spec fn op_8xy5(s: Machine, op: u16) -> Machine {
    let x = op_x(op);
    let y = op_y(op);
    let diff = ((s.v[x] - s.v[y]) % 256) as u8;
    let v1 = s.v.update(15, 0);
    let v2 = if v1[y] < v1[x] { v1.update(15, 1) } else { v1 };
    advance(Machine { v: v2.update(x, diff), ..s })
}

/// 8XY6: VF = the low bit of VX and VX = VX >> 1 (VF written last).
pub open spec fn op_8xy6(s: Machine, op: u16) -> Machine {
    let w = s.v[op_x(op)];
    advance(Machine { v: s.v.update(op_x(op), w / 2).update(15, w % 2), ..s })
}

/// 8XY7: VX = (VY - VX) mod 256, then VF = 0 on a borrow (VY < VX) and 1
/// otherwise.
pub open spec fn op_8xy7(s: Machine, op: u16) -> Machine {
    let x = op_x(op);
    let y = op_y(op);
    let flag: u8 = if s.v[y] >= s.v[x] { 1 } else { 0 };
    advance(Machine { v: s.v.update(x, ((s.v[y] - s.v[x]) % 256) as u8).update(15, flag), ..s })
}

/// 8XYE: VF = the high bit of VX and VX = (VX << 1) mod 256 (VF written last).
pub open spec fn op_8xye(s: Machine, op: u16) -> Machine {
    let w = s.v[op_x(op)];
    advance(Machine { v: s.v.update(op_x(op), ((2 * w) % 256) as u8).update(15, w / 128), ..s })
}

/// 9XY?: skip the next instruction when VX differs from VY.
pub open spec fn op_9xy0(s: Machine, op: u16) -> Machine {
    skip_if(s, s.v[op_x(op)] != s.v[op_y(op)])
}

/// ANNN: I = NNN.
pub open spec fn op_annn(s: Machine, op: u16) -> Machine {
    advance(Machine { i: op_nnn(op) as u16, ..s })
}

/// BNNN: jump to NNN + V0.
pub open spec fn op_bnnn(s: Machine, op: u16) -> Machine {
    Machine { pc: (op_nnn(op) + s.v[0]) as u16, ..s }
}

/// CXNN: VX = r & NN, where `r` is a random byte.
pub open spec fn op_cxnn(s: Machine, op: u16, r: u8) -> Machine {
    advance(set_v(s, op_x(op), r & (op_nn(op) as u8)))
}

/// Column `col` (0 = leftmost) of a sprite row byte, most significant bit first.
pub open spec fn sprite_bit(row: u8, col: int) -> bool {
    row & (0x80u8 >> (col as u8)) != 0
}

/// Whether the sprite of height `h` read from memory at I and drawn with its
/// top-left corner at (`vx`, `vy`) covers screen pixel (`a`, `b`); the sprite
/// wraps around the screen edges.
pub open spec fn sprite_covers(s: Machine, vx: int, vy: int, h: int, a: int, b: int) -> bool {
    let col = (a - vx) % 64;
    let row = (b - vy) % 32;
    &&& col < 8
    &&& row < h
    &&& sprite_bit(s.mem[s.i + row], col)
}

/// Whether drawing that sprite turns off a pixel that was on.
pub open spec fn sprite_collides(s: Machine, vx: int, vy: int, h: int) -> bool {
    exists|a: int, b: int|
        0 <= a < 64 && 0 <= b < 32 && #[trigger] sprite_covers(s, vx, vy, h, a, b)
            && s.display[a][b]
}

/// DXYN: draw the N-row sprite at I at (VX, VY) by flipping each covered
/// pixel; VF = 1 when a pixel that was on is turned off, 0 otherwise.
pub open spec fn op_dxyn(s: Machine, op: u16) -> Machine {
    let vx = s.v[op_x(op)] as int;
    let vy = s.v[op_y(op)] as int;
    let h = op_n(op);
    let flag: u8 = if sprite_collides(s, vx, vy, h) { 1 } else { 0 };
    advance(
        Machine {
            display: Seq::new(
                64,
                |a: int|
                    Seq::new(32, |b: int| s.display[a][b] != sprite_covers(s, vx, vy, h, a, b)),
            ),
            v: s.v.update(15, flag),
            ..s
        },
    )
}

/// The sprite's rows lie in memory.
pub open spec fn op_dxyn_ok(s: Machine, op: u16) -> bool {
    op_n(op) == 0 || s.i + op_n(op) <= 4096
}

/// EX9E: skip the next instruction when the key numbered VX is down.
pub open spec fn op_ex9e(s: Machine, op: u16) -> Machine {
    skip_if(s, s.key[s.v[op_x(op)] as int])
}

/// EXA1: skip the next instruction when the key numbered VX is up.
pub open spec fn op_exa1(s: Machine, op: u16) -> Machine {
    skip_if(s, !s.key[s.v[op_x(op)] as int])
}

/// EX9E and EXA1 read the key numbered VX, which must be one of the 16.
pub open spec fn op_key_ok(s: Machine, op: u16) -> bool {
    s.v[op_x(op)] < 16
}

/// FX07: VX = the delay timer.
pub open spec fn op_fx07(s: Machine, op: u16) -> Machine {
    advance(set_v(s, op_x(op), s.dt))
}

/// FX0A: wait for a key. When a key was released (`ku`), VX = its number and
/// the machine moves on to the next instruction; otherwise the program
/// counter steps back by two and forward by two, staying on this instruction
/// unless that step forward is refused near the end of memory.
pub open spec fn op_fx0a(s: Machine, op: u16) -> Machine {
    if s.ku {
        advance(set_v(s, op_x(op), s.kp & 0xf))
    } else {
        advance(Machine { pc: ((s.pc - 2) % 0x10000) as u16, ..s })
    }
}

/// FX15: delay timer = VX.
pub open spec fn op_fx15(s: Machine, op: u16) -> Machine {
    advance(Machine { dt: s.v[op_x(op)], ..s })
}

/// FX18: sound timer = VX.
pub open spec fn op_fx18(s: Machine, op: u16) -> Machine {
    advance(Machine { st: s.v[op_x(op)], ..s })
}

/// FX1E: I = (I + VX) mod 65536.
pub open spec fn op_fx1e(s: Machine, op: u16) -> Machine {
    advance(Machine { i: ((s.i + s.v[op_x(op)]) % 0x10000) as u16, ..s })
}

/// FX29: I = (VX * 5) mod 256, the address of the font glyph for digit VX
/// (the product is an 8-bit one).
pub open spec fn op_fx29(s: Machine, op: u16) -> Machine {
    advance(Machine { i: ((s.v[op_x(op)] * 5) % 256) as u16, ..s })
}

/// FX33: store the hundreds, tens and ones digits of VX at I, I+1 and I+2.
pub open spec fn op_fx33(s: Machine, op: u16) -> Machine {
    let n = s.v[op_x(op)] as int;
    advance(
        Machine {
            mem: s.mem.update(s.i as int, (n / 100) as u8).update(s.i + 1, ((n / 10) % 10) as u8).update(
                s.i + 2,
                (n % 10) as u8,
            ),
            ..s
        },
    )
}

/// The three bytes written lie in memory.
pub open spec fn op_fx33_ok(s: Machine) -> bool {
    s.i + 2 < 4096
}

/// FX55: V0..=VX are stored at I..=I+X, then I = I + X + 1.
pub open spec fn op_fx55(s: Machine, op: u16) -> Machine {
    let x = op_x(op);
    advance(
        Machine {
            mem: Seq::new(
                s.mem.len(),
                |a: int| if s.i <= a <= s.i + x { s.v[a - s.i] } else { s.mem[a] },
            ),
            i: (s.i + x + 1) as u16,
            ..s
        },
    )
}

/// FX65: V0..=VX are filled from I..=I+X, then I = I + X + 1.
pub open spec fn op_fx65(s: Machine, op: u16) -> Machine {
    let x = op_x(op);
    advance(
        Machine {
            v: Seq::new(s.v.len(), |k: int| if k <= x { s.mem[s.i + k] } else { s.v[k] }),
            i: (s.i + x + 1) as u16,
            ..s
        },
    )
}

/// FX55 and FX65 address memory at I..=I+X, which must lie in memory.
pub open spec fn op_fx_block_ok(s: Machine, op: u16) -> bool {
    s.i + op_x(op) < 4096
}

// ----- decoding -----

/// The state after instruction `op` (before the key-release flag is cleared);
/// `r` is the random byte that CXNN uses. Unknown instructions change nothing.
pub open spec fn instruction_effect(s: Machine, op: u16, r: u8) -> Machine {
    let f = op_family(op);
    if f == 0 {
        if op_nn(op) == 0 {
            advance(s)
        } else if op_nn(op) == 0xE0 {
            op_00e0(s)
        } else if op_nn(op) == 0xEE {
            op_00ee(s)
        } else {
            s
        }
    } else if f == 1 {
        op_1nnn(s, op)
    } else if f == 2 {
        op_2nnn(s, op)
    } else if f == 3 {
        op_3xnn(s, op)
    } else if f == 4 {
        op_4xnn(s, op)
    } else if f == 5 {
        op_5xy0(s, op)
    } else if f == 6 {
        op_6xnn(s, op)
    } else if f == 7 {
        op_7xnn(s, op)
    } else if f == 8 {
        let n = op_n(op);
        if n == 0 {
            op_8xy0(s, op)
        } else if n == 1 {
            op_8xy1(s, op)
        } else if n == 2 {
            op_8xy2(s, op)
        } else if n == 3 {
            op_8xy3(s, op)
        } else if n == 4 {
            op_8xy4(s, op)
        } else if n == 5 {
            op_8xy5(s, op)
        } else if n == 6 {
            op_8xy6(s, op)
        } else if n == 7 {
            op_8xy7(s, op)
        } else if n == 0xE {
            op_8xye(s, op)
        } else {
            s
        }
    } else if f == 9 {
        op_9xy0(s, op)
    } else if f == 0xA {
        op_annn(s, op)
    } else if f == 0xB {
        op_bnnn(s, op)
    } else if f == 0xC {
        op_cxnn(s, op, r)
    } else if f == 0xD {
        op_dxyn(s, op)
    } else if f == 0xE {
        if op_nn(op) == 0x9E {
            op_ex9e(s, op)
        } else if op_nn(op) == 0xA1 {
            op_exa1(s, op)
        } else {
            s
        }
    } else {
        let k = op_nn(op);
        if k == 0x07 {
            op_fx07(s, op)
        } else if k == 0x0A {
            op_fx0a(s, op)
        } else if k == 0x15 {
            op_fx15(s, op)
        } else if k == 0x18 {
            op_fx18(s, op)
        } else if k == 0x1E {
            op_fx1e(s, op)
        } else if k == 0x29 {
            op_fx29(s, op)
        } else if k == 0x33 {
            op_fx33(s, op)
        } else if k == 0x55 {
            op_fx55(s, op)
        } else if k == 0x65 {
            op_fx65(s, op)
        } else {
            s
        }
    }
}

/// The inputs on which instruction `op` stays inside memory, the stack and
/// the keypad.
pub open spec fn instruction_ok(s: Machine, op: u16) -> bool {
    let f = op_family(op);
    if f == 0 {
        op_nn(op) == 0xEE ==> op_00ee_ok(s)
    } else if f == 2 {
        op_2nnn_ok(s)
    } else if f == 0xD {
        op_dxyn_ok(s, op)
    } else if f == 0xE {
        (op_nn(op) == 0x9E || op_nn(op) == 0xA1) ==> op_key_ok(s, op)
    } else if f == 0xF {
        let k = op_nn(op);
        if k == 0x33 {
            op_fx33_ok(s)
        } else if k == 0x55 || k == 0x65 {
            op_fx_block_ok(s, op)
        } else {
            true
        }
    } else {
        true
    }
}

/// Executing `op`: its effect, after which the key-release flag is cleared.
pub open spec fn execute_spec(s: Machine, op: u16, r: u8) -> Machine {
    Machine { ku: false, ..instruction_effect(s, op, r) }
}

/// Whether `op` is a CXNN instruction, the only one that reads a random byte.
pub open spec fn uses_random(op: u16) -> bool {
    op_family(op) == 0xC
}

/// One machine step: fetch at the program counter, then execute.
#[verifier::opaque]
pub open spec fn step(s: Machine, r: u8) -> Machine {
    execute_spec(s, fetch_spec(s), r)
}

pub open spec fn step_ok(s: Machine) -> bool {
    fetch_ok(s) && instruction_ok(s, fetch_spec(s))
}

/// The state after one step for each byte of `rs`, in order.
pub open spec fn run(s: Machine, rs: Seq<u8>) -> Machine
    decreases rs.len(),
{
    if rs.len() == 0 {
        s
    } else {
        step(run(s, rs.drop_last()), rs.last())
    }
}

/// `n` steps from `s` run without a fault, whatever random bytes come: each
/// of them starts from a state where the next step cannot fault.
pub open spec fn run_ok(s: Machine, n: nat) -> bool {
    forall|rs: Seq<u8>| rs.len() < n ==> step_ok(#[trigger] run(s, rs))
}

/// One tick of the 60 Hz timers: each timer above zero drops by one.
pub open spec fn tick_timers(s: Machine) -> Machine {
    Machine {
        dt: if s.dt > 0 { (s.dt - 1) as u8 } else { s.dt },
        st: if s.st > 0 { (s.st - 1) as u8 } else { s.st },
        ..s
    }
}


// ----- power-on and program loading -----

/// The built-in font: five bytes per hexadecimal digit 0..F.
pub open spec fn font_glyphs() -> Seq<u8> {
    seq![
        0xF0u8, 0x90, 0x90, 0x90, 0xF0,
        0x20, 0x60, 0x20, 0x20, 0x70,
        0xF0, 0x10, 0xF0, 0x80, 0xF0,
        0xF0, 0x10, 0xF0, 0x10, 0xF0,
        0x90, 0x90, 0xF0, 0x10, 0x10,
        0xF0, 0x80, 0xF0, 0x10, 0xF0,
        0xF0, 0x80, 0xF0, 0x90, 0xF0,
        0xF0, 0x10, 0x20, 0x40, 0x40,
        0xF0, 0x90, 0xF0, 0x90, 0xF0,
        0xF0, 0x90, 0xF0, 0x10, 0xF0,
        0xF0, 0x90, 0xF0, 0x90, 0x90,
        0xE0, 0x90, 0xE0, 0x90, 0xE0,
        0xF0, 0x80, 0x80, 0x80, 0xF0,
        0xE0, 0x90, 0x90, 0x90, 0xE0,
        0xF0, 0x80, 0xF0, 0x80, 0xF0,
        0xF0, 0x80, 0xF0, 0x80, 0x80
    ]
}

/// Memory holding the font at addresses 0..80 and zeros elsewhere.
pub open spec fn fresh_memory() -> Seq<u8> {
    Seq::new(4096, |a: int| if a < 80 { font_glyphs()[a] } else { 0 })
}

/// The machine as it is switched on: keys up, screen dark, fresh memory,
/// registers, stack and timers zero, program counter at 0x200, stopped.
pub open spec fn power_on() -> Machine {
    Machine {
        key: Seq::new(16, |k: int| false),
        display: blank_display(),
        mem: fresh_memory(),
        v: Seq::new(16, |k: int| 0u8),
        stack: Seq::new(16, |k: int| 0u16),
        pc: PROGRAM_START,
        sp: 0,
        i: 0,
        dt: 0,
        st: 0,
        kp: 0,
        ku: false,
        state: STATE::STOPED,
    }
}

/// A reset: everything as at power-on except the last released key, its
/// flag and the run state, which are kept.
pub open spec fn reset_spec(s: Machine) -> Machine {
    Machine { kp: s.kp, ku: s.ku, state: s.state, ..power_on() }
}

/// Fresh memory with the program `rom` at 0x200 and the bytes 1 and 4 at
/// 0x1FE and 0x1FF.
pub open spec fn loaded_memory(rom: Seq<u8>) -> Seq<u8> {
    Seq::new(
        4096,
        |a: int|
            if 0x200 <= a < 0x200 + rom.len() {
                rom[a - 0x200]
            } else if a == 0x1FE {
                1
            } else if a == 0x1FF {
                4
            } else {
                fresh_memory()[a]
            },
    )
}

/// Loading a program: a reset, the program in memory, and the machine running.
pub open spec fn load_spec(s: Machine, rom: Seq<u8>) -> Machine {
    Machine { mem: loaded_memory(rom), state: STATE::RUNNING, ..reset_spec(s) }
}

} // verus!

