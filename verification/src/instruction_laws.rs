//! What the instructions, loading and drawing do, stated over their inputs
//! and results: program-counter movement, the collision flag, the pixels a
//! sprite flips, the frame buffer layout and the state after loading.
use vstd::prelude::*;
use crate::frontend::frame_pixel;
use crate::machine::{
    execute_spec, font_glyphs, instruction_effect, instruction_ok, load_spec, op_00e0, op_1nnn, op_2nnn,
    op_3xnn, op_4xnn, op_5xy0, op_6xnn, op_7xnn, op_8xy0, op_8xy1, op_8xy2, op_8xy3, op_8xy4,
    op_8xy5, op_8xy6, op_8xy7, op_8xye, op_9xy0, op_annn, op_bnnn, op_cxnn, op_dxyn,
    op_dxyn_ok, op_ex9e, op_exa1, op_fx07, op_fx0a, op_fx15, op_fx18, op_fx1e, op_fx29,
    op_fx55, op_fx65, op_fx_block_ok, power_on, reset_spec, tick_timers, wf, Machine, STATE,
};

verus! {

/// The register an instruction names in bits 8..12.
pub open spec fn reg_x(op: u16) -> int {
    (op as int / 256) % 16
}

/// The register an instruction names in bits 4..8.
pub open spec fn reg_y(op: u16) -> int {
    (op as int / 16) % 16
}

/// Two states that differ at most in their program counter.
pub open spec fn same_but_pc(a: Machine, b: Machine) -> bool {
    Machine { pc: b.pc, ..a } == b
}

/// The register skips move the program counter by four when their test
/// holds and by two otherwise, and change nothing else: 3XNN tests VX == NN,
/// 4XNN tests VX != NN, 5XY0 tests VX == VY and 9XY0 tests VX != VY.
pub proof fn law_register_skips(s: Machine, op: u16)
    requires
        s.pc + 4 < 4090,
    ensures
        op_3xnn(s, op).pc == if s.v[reg_x(op)] == op as int % 256 { s.pc + 4 } else { s.pc + 2 },
        op_4xnn(s, op).pc == if s.v[reg_x(op)] != op as int % 256 { s.pc + 4 } else { s.pc + 2 },
        op_5xy0(s, op).pc == if s.v[reg_x(op)] == s.v[reg_y(op)] { s.pc + 4 } else { s.pc + 2 },
        op_9xy0(s, op).pc == if s.v[reg_x(op)] != s.v[reg_y(op)] { s.pc + 4 } else { s.pc + 2 },
        same_but_pc(s, op_3xnn(s, op)),
        same_but_pc(s, op_4xnn(s, op)),
        same_but_pc(s, op_5xy0(s, op)),
        same_but_pc(s, op_9xy0(s, op)),
{
    assert(Machine { pc: op_3xnn(s, op).pc, ..s } == op_3xnn(s, op));
    assert(Machine { pc: op_4xnn(s, op).pc, ..s } == op_4xnn(s, op));
    assert(Machine { pc: op_5xy0(s, op).pc, ..s } == op_5xy0(s, op));
    assert(Machine { pc: op_9xy0(s, op).pc, ..s } == op_9xy0(s, op));
}

/// The key skips look at the key numbered VX and at no other: EX9E moves the
/// program counter by four when that key is down and by two when it is up,
/// EXA1 the other way round, and neither changes anything else.
pub proof fn law_key_skips(s: Machine, op: u16, other: Seq<bool>)
    requires
        s.pc + 4 < 4090,
        s.key.len() == 16,
        other.len() == 16,
        s.v[reg_x(op)] < 16,
        other[s.v[reg_x(op)] as int] == s.key[s.v[reg_x(op)] as int],
    ensures
        op_ex9e(s, op).pc == if s.key[s.v[reg_x(op)] as int] { s.pc + 4 } else { s.pc + 2 },
        op_exa1(s, op).pc == if s.key[s.v[reg_x(op)] as int] { s.pc + 2 } else { s.pc + 4 },
        same_but_pc(s, op_ex9e(s, op)),
        same_but_pc(s, op_exa1(s, op)),
        op_ex9e(Machine { key: other, ..s }, op).pc == op_ex9e(s, op).pc,
        op_exa1(Machine { key: other, ..s }, op).pc == op_exa1(s, op).pc,
{
    assert(Machine { pc: op_ex9e(s, op).pc, ..s } == op_ex9e(s, op));
    assert(Machine { pc: op_exa1(s, op).pc, ..s } == op_exa1(s, op));
}

/// FX0A: after a key release, VX receives the low four bits of the released
/// key's number and the machine moves on by one instruction; without one, the
/// program counter does not move and nothing else changes.
pub proof fn law_wait_for_key(s: Machine, op: u16)
    requires
        s.pc + 2 < 4090,
        s.v.len() == 16,
    ensures
        s.ku ==> op_fx0a(s, op).pc == s.pc + 2,
        s.ku ==> op_fx0a(s, op).v[reg_x(op)] == s.kp % 16,
        s.ku ==> forall|k: int| 0 <= k < 16 && k != reg_x(op) ==> op_fx0a(s, op).v[k] == s.v[k],
        !s.ku ==> op_fx0a(s, op) == s,
{
    let kp = s.kp;
    assert(kp & 0xf == kp % 16) by (bit_vector);
    if !s.ku {
        assert(op_fx0a(s, op) =~= s);
    }
}

/// The bit of a sprite row for column `col` (0 = leftmost) is bit `7 - col`.
proof fn lemma_row_bit(row: u8, col: u8)
    requires
        col < 8,
    ensures
        (row & (0x80u8 >> col) != 0) == ((row >> (7 - col) as u8) & 1 == 1),
{
    assert((row & (0x80u8 >> col) != 0) == ((row >> (7 - col) as u8) & 1 == 1)) by (bit_vector)
        requires
            col < 8,
    ;
}

/// DXYN flips the screen pixel (a, b) exactly when it lies in the N-row,
/// 8-column box whose top-left corner is (VX, VY), counted with wrap-around,
/// and the bit of the sprite row in memory at I for that column is set. VF
/// is 1 exactly when some pixel that was on is off afterwards and 0 otherwise,
/// whatever it held before; in particular drawing on a dark screen leaves
/// VF = 0. Memory, I, the keys, the timers and the other registers stay as
/// they were, and the machine moves on by one instruction.
pub proof fn law_draw(s: Machine, op: u16)
    requires
        wf(s),
        op_dxyn_ok(s, op),
        s.pc + 2 < 4090,
    ensures
        forall|a: int, b: int| 0 <= a < 64 && 0 <= b < 32 ==> {
            let col = (a - s.v[reg_x(op)]) % 64;
            let row = (b - s.v[reg_y(op)]) % 32;
            (#[trigger] op_dxyn(s, op).display[a][b] != s.display[a][b]) == (col < 8 && row
                < op as int % 16 && (s.mem[s.i + row] >> (7 - col) as u8) & 1 == 1)
        },
        op_dxyn(s, op).v[15] == if exists|a: int, b: int|
            0 <= a < 64 && 0 <= b < 32 && #[trigger] s.display[a][b]
                && !op_dxyn(s, op).display[a][b] { 1u8 } else { 0u8 },
        (forall|a: int, b: int| 0 <= a < 64 && 0 <= b < 32 ==> !#[trigger] s.display[a][b])
            ==> op_dxyn(s, op).v[15] == 0,
        forall|k: int| 0 <= k < 15 ==> #[trigger] op_dxyn(s, op).v[k] == s.v[k],
        op_dxyn(s, op).pc == s.pc + 2,
        (Machine { display: s.display, v: s.v, pc: s.pc, ..op_dxyn(s, op) }) == s,
{
    let t = op_dxyn(s, op);
    assert forall|a: int, b: int| 0 <= a < 64 && 0 <= b < 32 implies {
        let col = (a - s.v[reg_x(op)]) % 64;
        let row = (b - s.v[reg_y(op)]) % 32;
        (#[trigger] t.display[a][b] != s.display[a][b]) == (col < 8 && row < op as int % 16 && (
        s.mem[s.i + row] >> (7 - col) as u8) & 1 == 1)
    } by {
        let col = (a - s.v[reg_x(op)]) % 64;
        if col < 8 {
            lemma_row_bit(s.mem[s.i + (b - s.v[reg_y(op)]) % 32], col as u8);
        }
    }
    let erased = exists|a: int, b: int|
        0 <= a < 64 && 0 <= b < 32 && #[trigger] s.display[a][b] && !t.display[a][b];
    let vx = s.v[reg_x(op)] as int;
    let vy = s.v[reg_y(op)] as int;
    let h = op as int % 16;
    if erased {
        let (a, b) = choose|a: int, b: int|
            0 <= a < 64 && 0 <= b < 32 && #[trigger] s.display[a][b] && !t.display[a][b];
        assert(crate::machine::sprite_covers(s, vx, vy, h, a, b));
    }
    if crate::machine::sprite_collides(s, vx, vy, h) {
        let (a, b) = choose|a: int, b: int|
            0 <= a < 64 && 0 <= b < 32 && #[trigger] crate::machine::sprite_covers(s, vx, vy, h, a, b)
                && s.display[a][b];
        assert(s.display[a][b] && !t.display[a][b]);
    }
    assert(Machine { display: s.display, v: s.v, pc: s.pc, ..t } == s);
}

/// The frame buffer shows machine pixel (x, y) as the 10 x 10 block of window
/// pixels whose top-left corner is (10x, 10y), white when the pixel is on and
/// black when it is off.
pub proof fn law_frame_blocks(s: Machine, x: int, y: int, sx: int, sy: int)
    requires
        0 <= x < 64,
        0 <= y < 32,
        0 <= sx < 10,
        0 <= sy < 10,
    ensures
        frame_pixel(s, (y * 10 + sy) * 640 + x * 10 + sx) == if s.display[x][y] {
            0xFFFFFFFFu32
        } else {
            0xFF000000u32
        },
{
    let idx = (y * 10 + sy) * 640 + x * 10 + sx;
    vstd::arithmetic::div_mod::lemma_fundamental_div_mod_converse(idx, 640, y * 10 + sy, x * 10 + sx);
    vstd::arithmetic::div_mod::lemma_fundamental_div_mod_converse(x * 10 + sx, 10, x, sx);
    vstd::arithmetic::div_mod::lemma_fundamental_div_mod_converse(y * 10 + sy, 10, y, sy);
}

/// Loading a program leaves the screen dark, the program at 0x200 onwards,
/// the registers, I, the stack pointer and both timers at zero, the program
/// counter at 0x200 and the machine running, whatever state it was in before.
pub proof fn law_load(s: Machine, rom: Seq<u8>)
    requires
        rom.len() <= 4096 - 0x200,
    ensures
        forall|a: int, b: int| 0 <= a < 64 && 0 <= b < 32 ==> !#[trigger] load_spec(s, rom).display[a][b],
        load_spec(s, rom).display.len() == 64,
        forall|k: int| 0 <= k < rom.len() ==> #[trigger] load_spec(s, rom).mem[0x200 + k] == rom[k],
        forall|k: int| 0 <= k < 16 ==> #[trigger] load_spec(s, rom).v[k] == 0,
        load_spec(s, rom).pc == 0x200,
        load_spec(s, rom).i == 0,
        load_spec(s, rom).sp == 0,
        load_spec(s, rom).dt == 0,
        load_spec(s, rom).st == 0,
        load_spec(s, rom).state == STATE::RUNNING,
        forall|a: int| 0 <= a < 80 ==> #[trigger] load_spec(s, rom).mem[a] == font_glyphs()[a],
        load_spec(s, rom).mem[0x1FE] == 1,
        load_spec(s, rom).mem[0x1FF] == 4,
        forall|a: int| 0x200 + rom.len() <= a < 4096 ==> #[trigger] load_spec(s, rom).mem[a] == 0,
{
}

/// A reset, and switching on, leave the screen dark, the registers zero, the
/// font at addresses 0..80 and zeros above it; a machine switched on is
/// stopped until a program is loaded.
pub proof fn law_reset_and_power_on_clear(s: Machine)
    ensures
        forall|a: int| 0 <= a < 80 ==> #[trigger] power_on().mem[a] == font_glyphs()[a],
        forall|a: int| 80 <= a < 4096 ==> #[trigger] power_on().mem[a] == 0,
        forall|a: int| 0 <= a < 4096 ==> #[trigger] reset_spec(s).mem[a] == power_on().mem[a],
        power_on().mem.len() == 4096,
        power_on().state == STATE::STOPED,
        reset_spec(s).state == s.state,
        forall|a: int, b: int| 0 <= a < 64 && 0 <= b < 32 ==> !#[trigger] reset_spec(s).display[a][b],
        forall|a: int, b: int| 0 <= a < 64 && 0 <= b < 32 ==> !#[trigger] power_on().display[a][b],
        forall|k: int| 0 <= k < 16 ==> #[trigger] reset_spec(s).v[k] == 0,
        reset_spec(s).pc == 0x200,
        power_on().pc == 0x200,
{
}


/// Register `k` other than `x` and VF is the same in both states.
pub open spec fn others_kept(a: Machine, b: Machine, x: int) -> bool {
    forall|k: int| 0 <= k < 15 && k != x ==> #[trigger] b.v[k] == a.v[k]
}

/// Two states that differ at most in their program counter and registers.
pub open spec fn same_but_pc_and_v(a: Machine, b: Machine) -> bool {
    Machine { pc: b.pc, v: b.v, ..a } == b
}

/// 6XNN sets VX to NN and 7XNN adds NN to VX modulo 256; neither touches VF
/// or any other register, and both move on by one instruction.
pub proof fn law_set_and_add(s: Machine, op: u16)
    requires
        wf(s),
        s.pc + 2 < 4090,
        reg_x(op) != 15,
    ensures
        op_6xnn(s, op).v[reg_x(op)] == op as int % 256,
        op_6xnn(s, op).v[15] == s.v[15] && others_kept(s, op_6xnn(s, op), reg_x(op)),
        op_7xnn(s, op).v[reg_x(op)] == s.v[reg_x(op)] + op as int % 256
            || op_7xnn(s, op).v[reg_x(op)] == s.v[reg_x(op)] + op as int % 256 - 256,
        op_7xnn(s, op).v[15] == s.v[15] && others_kept(s, op_7xnn(s, op), reg_x(op)),
        op_6xnn(s, op).pc == s.pc + 2 && same_but_pc_and_v(s, op_6xnn(s, op)),
        op_7xnn(s, op).pc == s.pc + 2 && same_but_pc_and_v(s, op_7xnn(s, op)),
{
    assert(same_but_pc_and_v(s, op_6xnn(s, op)));
    assert(same_but_pc_and_v(s, op_7xnn(s, op)));
}

/// 8XY0 copies VY to VX; 8XY1, 8XY2 and 8XY3 combine VX and VY by or, and and
/// xor and clear VF. Other registers stay, and the machine moves on.
pub proof fn law_copy_and_logic(s: Machine, op: u16)
    requires
        wf(s),
        s.pc + 2 < 4090,
        reg_x(op) != 15,
    ensures
        op_8xy0(s, op).v[reg_x(op)] == s.v[reg_y(op)] && others_kept(s, op_8xy0(s, op), reg_x(op)),
        op_8xy1(s, op).v[reg_x(op)] == (s.v[reg_x(op)] | s.v[reg_y(op)]) && op_8xy1(s, op).v[15] == 0
            && others_kept(s, op_8xy1(s, op), reg_x(op)),
        op_8xy2(s, op).v[reg_x(op)] == (s.v[reg_x(op)] & s.v[reg_y(op)]) && op_8xy2(s, op).v[15] == 0
            && others_kept(s, op_8xy2(s, op), reg_x(op)),
        op_8xy3(s, op).v[reg_x(op)] == (s.v[reg_x(op)] ^ s.v[reg_y(op)]) && op_8xy3(s, op).v[15] == 0
            && others_kept(s, op_8xy3(s, op), reg_x(op)),
        op_8xy0(s, op).pc == s.pc + 2 && same_but_pc_and_v(s, op_8xy0(s, op)),
        op_8xy1(s, op).pc == s.pc + 2 && same_but_pc_and_v(s, op_8xy1(s, op)),
        op_8xy2(s, op).pc == s.pc + 2 && same_but_pc_and_v(s, op_8xy2(s, op)),
        op_8xy3(s, op).pc == s.pc + 2 && same_but_pc_and_v(s, op_8xy3(s, op)),
{
    assert(same_but_pc_and_v(s, op_8xy0(s, op)));
    assert(same_but_pc_and_v(s, op_8xy1(s, op)));
    assert(same_but_pc_and_v(s, op_8xy2(s, op)));
    assert(same_but_pc_and_v(s, op_8xy3(s, op)));
}

/// 8XY4 adds VY to VX with VF the carry; 8XY5 subtracts VY from VX with
/// VF = 1 when VX > VY; 8XY7 subtracts VX from VY with VF = 0 exactly on a
/// borrow. Results are taken modulo 256, other registers stay, and the machine
/// moves on. (Neither X nor Y is VF here: 8XY5 reads VY after clearing VF.)
pub proof fn law_add_and_subtract(s: Machine, op: u16)
    requires
        wf(s),
        s.pc + 2 < 4090,
        reg_x(op) != 15,
        reg_y(op) != 15,
    ensures
        op_8xy4(s, op).v[reg_x(op)] + 256 * op_8xy4(s, op).v[15] == s.v[reg_x(op)] + s.v[reg_y(op)],
        op_8xy4(s, op).v[15] <= 1 && others_kept(s, op_8xy4(s, op), reg_x(op)),
        op_8xy5(s, op).v[reg_x(op)] == if s.v[reg_x(op)] >= s.v[reg_y(op)] {
            s.v[reg_x(op)] - s.v[reg_y(op)]
        } else {
            s.v[reg_x(op)] - s.v[reg_y(op)] + 256
        },
        op_8xy5(s, op).v[15] == if s.v[reg_x(op)] > s.v[reg_y(op)] { 1u8 } else { 0u8 },
        others_kept(s, op_8xy5(s, op), reg_x(op)),
        op_8xy7(s, op).v[reg_x(op)] == if s.v[reg_y(op)] >= s.v[reg_x(op)] {
            s.v[reg_y(op)] - s.v[reg_x(op)]
        } else {
            s.v[reg_y(op)] - s.v[reg_x(op)] + 256
        },
        op_8xy7(s, op).v[15] == if s.v[reg_y(op)] >= s.v[reg_x(op)] { 1u8 } else { 0u8 },
        others_kept(s, op_8xy7(s, op), reg_x(op)),
        op_8xy4(s, op).pc == s.pc + 2 && same_but_pc_and_v(s, op_8xy4(s, op)),
        op_8xy5(s, op).pc == s.pc + 2 && same_but_pc_and_v(s, op_8xy5(s, op)),
        op_8xy7(s, op).pc == s.pc + 2 && same_but_pc_and_v(s, op_8xy7(s, op)),
{
    assert(same_but_pc_and_v(s, op_8xy4(s, op)));
    assert(same_but_pc_and_v(s, op_8xy5(s, op)));
    assert(same_but_pc_and_v(s, op_8xy7(s, op)));
}

/// 8XY6 halves VX with VF its low bit, and 8XYE doubles VX modulo 256 with
/// VF its high bit; other registers stay, and the machine moves on.
pub proof fn law_shifts(s: Machine, op: u16)
    requires
        wf(s),
        s.pc + 2 < 4090,
        reg_x(op) != 15,
    ensures
        2 * op_8xy6(s, op).v[reg_x(op)] + op_8xy6(s, op).v[15] == s.v[reg_x(op)],
        op_8xy6(s, op).v[15] <= 1 && others_kept(s, op_8xy6(s, op), reg_x(op)),
        op_8xye(s, op).v[reg_x(op)] + 256 * op_8xye(s, op).v[15] == 2 * s.v[reg_x(op)],
        op_8xye(s, op).v[15] <= 1 && others_kept(s, op_8xye(s, op), reg_x(op)),
        op_8xy6(s, op).pc == s.pc + 2 && same_but_pc_and_v(s, op_8xy6(s, op)),
        op_8xye(s, op).pc == s.pc + 2 && same_but_pc_and_v(s, op_8xye(s, op)),
{
    assert(same_but_pc_and_v(s, op_8xy6(s, op)));
    assert(same_but_pc_and_v(s, op_8xye(s, op)));
}

/// Jumps and calls: 1NNN jumps to NNN, BNNN to NNN + V0, and 2NNN jumps to NNN
/// with the address of the call pushed on the stack one slot up; ANNN sets I
/// to NNN and moves on.
pub proof fn law_jumps(s: Machine, op: u16)
    requires
        wf(s),
        s.sp < 15,
        s.pc + 2 < 4090,
    ensures
        op_1nnn(s, op).pc == op as int % 4096 && same_but_pc(s, op_1nnn(s, op)),
        op_bnnn(s, op).pc == op as int % 4096 + s.v[0] && same_but_pc(s, op_bnnn(s, op)),
        op_2nnn(s, op).pc == op as int % 4096,
        op_2nnn(s, op).sp == s.sp + 1,
        op_2nnn(s, op).stack[s.sp + 1] == s.pc,
        forall|k: int| 0 <= k < 16 && k != s.sp + 1 ==> #[trigger] op_2nnn(s, op).stack[k] == s.stack[k],
        op_annn(s, op).i == op as int % 4096 && op_annn(s, op).pc == s.pc + 2,
        op_annn(s, op).v == s.v && op_annn(s, op).mem == s.mem,
{
}

/// 00E0 turns every pixel off and moves on, changing nothing else.
pub proof fn law_clear_screen(s: Machine)
    requires
        s.pc + 2 < 4090,
    ensures
        forall|a: int, b: int| 0 <= a < 64 && 0 <= b < 32 ==> !#[trigger] op_00e0(s).display[a][b],
        op_00e0(s).display.len() == 64,
        op_00e0(s).pc == s.pc + 2,
        (Machine { display: s.display, pc: s.pc, ..op_00e0(s) }) == s,
{
}

/// The timer and index instructions: FX07 copies the delay timer to VX, FX15
/// and FX18 set the delay and sound timers from VX, FX1E adds VX to I modulo
/// 65536, and FX29 points I at the five-byte font glyph of digit VX.
pub proof fn law_timers_and_index(s: Machine, op: u16)
    requires
        wf(s),
        s.pc + 2 < 4090,
    ensures
        op_fx07(s, op).v[reg_x(op)] == s.dt,
        forall|k: int| 0 <= k < 16 && k != reg_x(op) ==> #[trigger] op_fx07(s, op).v[k] == s.v[k],
        op_fx15(s, op).dt == s.v[reg_x(op)] && op_fx15(s, op).v == s.v,
        op_fx18(s, op).st == s.v[reg_x(op)] && op_fx18(s, op).v == s.v,
        op_fx1e(s, op).i == (s.i + s.v[reg_x(op)]) % 65536,
        s.v[reg_x(op)] < 16 ==> forall|k: int| 0 <= k < 5 ==>
            #[trigger] font_glyphs()[op_fx29(s, op).i + k] == font_glyphs()[5 * s.v[reg_x(op)] + k],
        s.v[reg_x(op)] < 16 ==> op_fx29(s, op).i == 5 * s.v[reg_x(op)],
        op_fx07(s, op).pc == s.pc + 2 && op_fx15(s, op).pc == s.pc + 2 && op_fx18(s, op).pc == s.pc + 2,
        op_fx1e(s, op).pc == s.pc + 2 && op_fx29(s, op).pc == s.pc + 2,
{
}

/// CXNN leaves in VX a byte with no bit outside NN, and any such byte can come
/// out: for every byte `m` that is a subset of NN, the random byte `m` gives it.
pub proof fn law_random_masked(s: Machine, op: u16, r: u8)
    requires
        wf(s),
    ensures
        op_cxnn(s, op, r).v[reg_x(op)] & ((op % 256) as u8) == op_cxnn(s, op, r).v[reg_x(op)],
        (r & ((op % 256) as u8)) == r ==> op_cxnn(s, op, r).v[reg_x(op)] == r,
        forall|k: int| 0 <= k < 16 && k != reg_x(op) ==> #[trigger] op_cxnn(s, op, r).v[k] == s.v[k],
{
    let nn = (op % 256) as u8;
    assert((r & nn) & nn == r & nn) by (bit_vector);
}

/// FX55 stores V0..=VX at I..=I+X and FX65 loads V0..=VX from there; both
/// leave I past the block. Storing and then loading the same block from the
/// same I gives the registers back.
pub proof fn law_register_block(s: Machine, op: u16)
    requires
        wf(s),
        op_fx_block_ok(s, op),
        s.pc + 2 < 4090,
    ensures
        forall|k: int| 0 <= k <= reg_x(op) ==> #[trigger] op_fx55(s, op).mem[s.i + k] == s.v[k],
        forall|a: int| 0 <= a < 4096 && !(s.i <= a <= s.i + reg_x(op)) ==> #[trigger] op_fx55(s, op).mem[a] == s.mem[a],
        op_fx55(s, op).i == s.i + reg_x(op) + 1,
        op_fx55(s, op).v == s.v,
        forall|k: int| 0 <= k <= reg_x(op) ==> #[trigger] op_fx65(s, op).v[k] == s.mem[s.i + k],
        forall|k: int| reg_x(op) < k < 16 ==> #[trigger] op_fx65(s, op).v[k] == s.v[k],
        op_fx65(s, op).i == s.i + reg_x(op) + 1,
        op_fx65(s, op).mem == s.mem,
        op_fx65(Machine { i: s.i, ..op_fx55(s, op) }, op).v =~= s.v,
{
    let t = op_fx55(s, op);
    let u = op_fx65(Machine { i: s.i, ..t }, op);
    assert(u.v =~= s.v);
}

/// Each instruction family runs its own instruction: the high nibble (and, in
/// families 0, 8, E and F, the low bits) select the instruction whose effect
/// `execute` has.
pub proof fn law_dispatch(s: Machine, op: u16, r: u8)
    ensures
        op as int / 4096 == 1 ==> instruction_effect(s, op, r) == op_1nnn(s, op),
        op as int / 4096 == 2 ==> instruction_effect(s, op, r) == op_2nnn(s, op),
        op as int / 4096 == 3 ==> instruction_effect(s, op, r) == op_3xnn(s, op),
        op as int / 4096 == 4 ==> instruction_effect(s, op, r) == op_4xnn(s, op),
        op as int / 4096 == 5 ==> instruction_effect(s, op, r) == op_5xy0(s, op),
        op as int / 4096 == 6 ==> instruction_effect(s, op, r) == op_6xnn(s, op),
        op as int / 4096 == 7 ==> instruction_effect(s, op, r) == op_7xnn(s, op),
        op as int / 4096 == 9 ==> instruction_effect(s, op, r) == op_9xy0(s, op),
        op as int / 4096 == 0xA ==> instruction_effect(s, op, r) == op_annn(s, op),
        op as int / 4096 == 0xB ==> instruction_effect(s, op, r) == op_bnnn(s, op),
        op as int / 4096 == 0xC ==> instruction_effect(s, op, r) == op_cxnn(s, op, r),
        op as int / 4096 == 0xD ==> instruction_effect(s, op, r) == op_dxyn(s, op),
        op == 0x00E0 ==> instruction_effect(s, op, r) == op_00e0(s),
        op as int / 4096 == 8 && op as int % 16 == 4 ==> instruction_effect(s, op, r) == op_8xy4(s, op),
        op as int / 4096 == 8 && op as int % 16 == 5 ==> instruction_effect(s, op, r) == op_8xy5(s, op),
        op as int / 4096 == 8 && op as int % 16 == 7 ==> instruction_effect(s, op, r) == op_8xy7(s, op),
        op as int / 4096 == 0xE && op as int % 256 == 0x9E ==> instruction_effect(s, op, r) == op_ex9e(s, op),
        op as int / 4096 == 0xE && op as int % 256 == 0xA1 ==> instruction_effect(s, op, r) == op_exa1(s, op),
        op as int / 4096 == 0xF && op as int % 256 == 0x0A ==> instruction_effect(s, op, r) == op_fx0a(s, op),
        op as int / 4096 == 0xF && op as int % 256 == 0x55 ==> instruction_effect(s, op, r) == op_fx55(s, op),
        op as int / 4096 == 0xF && op as int % 256 == 0x65 ==> instruction_effect(s, op, r) == op_fx65(s, op),
        !execute_spec(s, op, r).ku,
{
}

/// Exactly these instructions can fault, each by reaching outside the memory,
/// the stack or the keypad: 00EE when the stack pointer is not below 16; 2NNN
/// when the stack pointer plus one (in 16 bits) is not below 16; DXYN when
/// its N rows from I pass the end of memory; EX9E and EXA1 when VX is not a
/// key number; FX33 when I+2 is past the end of memory; FX55 and FX65 when
/// I+X is. Every other instruction always runs.
pub proof fn law_fault_conditions(s: Machine, op: u16)
    ensures
        instruction_ok(s, op) == {
            let f = op as int / 4096;
            let nn = op as int % 256;
            let n = op as int % 16;
            &&& f == 0 && nn == 0xEE ==> s.sp < 16
            &&& f == 2 ==> (s.sp + 1) % 65536 < 16
            &&& f == 0xD && n > 0 ==> s.i + n <= 4096
            &&& f == 0xE && (nn == 0x9E || nn == 0xA1) ==> s.v[reg_x(op)] < 16
            &&& f == 0xF && nn == 0x33 ==> s.i + 2 < 4096
            &&& f == 0xF && (nn == 0x55 || nn == 0x65) ==> s.i + reg_x(op) < 4096
        },
{
}

/// One timer tick lowers each timer by one unless it is already zero.
pub proof fn law_tick(s: Machine)
    ensures
        tick_timers(s).dt == if s.dt == 0 { 0 } else { s.dt - 1 },
        tick_timers(s).st == if s.st == 0 { 0 } else { s.st - 1 },
        (Machine { dt: s.dt, st: s.st, ..tick_timers(s) }) == s,
{
}

} // verus!

