//! The executable instructions, one function per CHIP-8 opcode.
use vstd::prelude::*;
use crate::chip8::Chip8;
use crate::rng::random_byte;
use crate::machine::{
    op_00e0, op_00ee, op_00ee_ok, op_1nnn, op_2nnn, op_2nnn_ok, op_3xnn, op_4xnn, op_5xy0,
    op_6xnn, op_7xnn, op_8xy0, op_8xy1, op_8xy2, op_8xy3, op_8xy4, op_8xy5, op_8xy6, op_8xy7,
    op_8xye, op_9xy0, op_annn, op_bnnn, op_cxnn, op_dxyn, op_dxyn_ok, op_ex9e, op_exa1, op_fx07,
    op_fx0a, op_fx15, op_fx18, op_fx1e, op_fx29, op_fx33, op_fx33_ok, op_fx55, op_fx65,
    op_fx_block_ok, op_key_ok, op_n, op_nn, op_nnn, op_x, op_y, set_v, skip_if, sprite_bit,
    sprite_covers, sprite_collides, wf, Machine,
};

verus! {

/// The X field of an instruction.
pub fn field_x(opcode: u16) -> (x: u16)
    ensures
        x == op_x(opcode),
        x < 16,
{
    let x = (opcode & 0x0F00) >> 8;
    assert(((opcode & 0x0F00) >> 8) == (opcode / 0x100) % 0x10) by (bit_vector);
    x
}

/// The Y field of an instruction.
pub fn field_y(opcode: u16) -> (y: u16)
    ensures
        y == op_y(opcode),
        y < 16,
{
    let y = (opcode & 0x00F0) >> 4;
    assert(((opcode & 0x00F0) >> 4) == (opcode / 0x10) % 0x10) by (bit_vector);
    y
}

/// The N field (low nibble) of an instruction.
pub fn field_n(opcode: u16) -> (n: u16)
    ensures
        n == op_n(opcode),
        n < 16,
{
    let n = opcode & 0x000F;
    assert((opcode & 0x000F) == opcode % 0x10) by (bit_vector);
    n
}

/// The NN field (low byte) of an instruction.
pub fn field_nn(opcode: u16) -> (nn: u16)
    ensures
        nn == op_nn(opcode),
        nn < 256,
{
    let nn = opcode & 0x00FF;
    assert((opcode & 0x00FF) == opcode % 0x100) by (bit_vector);
    nn
}

/// The NNN field (low twelve bits) of an instruction.
pub fn field_nnn(opcode: u16) -> (nnn: u16)
    ensures
        nnn == op_nnn(opcode),
        nnn < 4096,
{
    let nnn = opcode & 0x0FFF;
    assert((opcode & 0x0FFF) == opcode % 0x1000) by (bit_vector);
    nnn
}

/// Pixels of the sprite already drawn after `rows` full rows and `cols`
/// columns of the next one.
pub open spec fn drawn(s: Machine, vx: int, vy: int, h: int, a: int, b: int, rows: int, cols: int) -> bool {
    let col = (a - vx) % 64;
    let row = (b - vy) % 32;
    &&& sprite_covers(s, vx, vy, h, a, b)
    &&& (row < rows || (row == rows && col < cols))
}

/// Whether a pixel already drawn was on before drawing.
pub open spec fn hit_so_far(s: Machine, vx: int, vy: int, h: int, rows: int, cols: int) -> bool {
    exists|a: int, b: int|
        0 <= a < 64 && 0 <= b < 32 && #[trigger] drawn(s, vx, vy, h, a, b, rows, cols)
            && s.display[a][b]
}

/// On the ring of 64 columns, stepping back `v` from `a` lands on `k`
/// exactly when `a` is `k` columns past `v`.
proof fn lemma_wrap_columns(a: int, v: int, k: int)
    requires
        0 <= a < 64,
        0 <= k < 64,
        0 <= v < 256,
    ensures
        ((a - v) % 64 == k) <==> (a == (v + k) % 64),
{
}

/// On the ring of 32 rows, stepping back `v` from `b` lands on `k`
/// exactly when `b` is `k` rows past `v`.
proof fn lemma_wrap_rows(b: int, v: int, k: int)
    requires
        0 <= b < 32,
        0 <= k < 32,
        0 <= v < 256,
    ensures
        ((b - v) % 32 == k) <==> (b == (v + k) % 32),
{
}

/// DXYN: draws a sprite (see `op_dxyn`).
pub fn xDXYN(chip8: &mut Chip8, opcode: u16)
    requires
        op_dxyn_ok(old(chip8)@, opcode),
    ensures
        final(chip8)@ == op_dxyn(old(chip8)@, opcode),
{
    let ghost s0 = chip8@;
    proof { chip8.lemma_wf(); }
    let x = chip8.v[field_x(opcode) as usize] as usize;
    let y = chip8.v[field_y(opcode) as usize] as usize;
    let height = field_n(opcode) as usize;
    let ghost vx = x as int;
    let ghost vy = y as int;
    let ghost h = height as int;

    chip8.v[0xF] = 0;

    let mut yline: usize = 0;
    while yline < height
        invariant
            0 <= yline <= height,
            height == op_n(opcode),
            height == 0 || s0.i + height <= 4096,
            x == vx, y == vy, h == height, x < 256, y < 256,
            wf(s0),
            chip8.i == s0.i,
            chip8.mem@ == s0.mem,
            chip8@.key == s0.key,
            chip8@.stack == s0.stack,
            chip8.pc == s0.pc, chip8.sp == s0.sp, chip8.dt == s0.dt, chip8.st == s0.st,
            chip8.kp == s0.kp, chip8.ku == s0.ku, chip8.state == s0.state,
            chip8.v@ == s0.v.update(15, if hit_so_far(s0, vx, vy, h, yline as int, 0) { 1u8 } else { 0u8 }),
            forall|a: int, b: int| 0 <= a < 64 && 0 <= b < 32 ==>
                #[trigger] chip8.display@[a]@[b] == (s0.display[a][b] != drawn(s0, vx, vy, h, a, b, yline as int, 0)),
        decreases height - yline,
    {
        let pixel = chip8.get(chip8.i + yline as u16);
        let mut xline: usize = 0;
        while xline < 8
            invariant
                0 <= xline <= 8,
                yline < height,
                height == op_n(opcode),
                height == 0 || s0.i + height <= 4096,
                x == vx, y == vy, h == height, x < 256, y < 256,
                pixel == s0.mem[s0.i + yline],
                wf(s0),
            chip8.i == s0.i,
                chip8.mem@ == s0.mem,
                chip8@.key == s0.key,
                chip8@.stack == s0.stack,
                chip8.pc == s0.pc, chip8.sp == s0.sp, chip8.dt == s0.dt, chip8.st == s0.st,
                chip8.kp == s0.kp, chip8.ku == s0.ku, chip8.state == s0.state,
                chip8.v@ == s0.v.update(15, if hit_so_far(s0, vx, vy, h, yline as int, xline as int) { 1u8 } else { 0u8 }),
                forall|a: int, b: int| 0 <= a < 64 && 0 <= b < 32 ==>
                    #[trigger] chip8.display@[a]@[b] == (s0.display[a][b] != drawn(s0, vx, vy, h, a, b, yline as int, xline as int)),
            decreases 8 - xline,
        {
            let ghost rows = yline as int;
            let ghost cols = xline as int;
            let ghost v_before = chip8.v@;
            let mask: u8 = 0b1000_0000u8 >> xline as u8;
            let xi = (x + xline) % 64;
            let yi = (y + yline) % 32;
            proof {
                assert forall|a: int, b: int| 0 <= a < 64 && 0 <= b < 32 implies
                    #[trigger] drawn(s0, vx, vy, h, a, b, rows, cols + 1) == (drawn(s0, vx, vy, h, a, b, rows, cols)
                        || (a == xi && b == yi && sprite_bit(pixel, cols))) by {
                    lemma_wrap_columns(a, vx, cols);
                    lemma_wrap_rows(b, vy, rows);
                }
            }
            proof {
                lemma_wrap_columns(xi as int, vx, cols);
                lemma_wrap_rows(yi as int, vy, rows);
                assert(!drawn(s0, vx, vy, h, xi as int, yi as int, rows, cols));
                assert(chip8.display@[xi as int]@[yi as int] == s0.display[xi as int][yi as int]);
                assert(((pixel & mask) != 0) == sprite_bit(pixel, cols));
            }
            if (pixel & mask) != 0 {
                if chip8.get_pixel(xi, yi) {
                    chip8.v[0xF] = 1;
                }
                let mut column = chip8.display[xi];
                column[yi] = !column[yi];
                chip8.display[xi] = column;
            }
            proof {
                assert(hit_so_far(s0, vx, vy, h, rows, cols + 1) == (hit_so_far(s0, vx, vy, h, rows, cols)
                    || (sprite_bit(pixel, cols) && s0.display[xi as int][yi as int]))) by {
                    if hit_so_far(s0, vx, vy, h, rows, cols) {
                        let (a, b) = choose|a: int, b: int|
                            0 <= a < 64 && 0 <= b < 32 && #[trigger] drawn(s0, vx, vy, h, a, b, rows, cols)
                                && s0.display[a][b];
                        assert(drawn(s0, vx, vy, h, a, b, rows, cols + 1));
                    }
                    if sprite_bit(pixel, cols) && s0.display[xi as int][yi as int] {
                        assert(drawn(s0, vx, vy, h, xi as int, yi as int, rows, cols + 1));
                    }
                    if hit_so_far(s0, vx, vy, h, rows, cols + 1) {
                        let (a, b) = choose|a: int, b: int|
                            0 <= a < 64 && 0 <= b < 32 && #[trigger] drawn(s0, vx, vy, h, a, b, rows, cols + 1)
                                && s0.display[a][b];
                        if !(a == xi && b == yi) {
                            assert(drawn(s0, vx, vy, h, a, b, rows, cols));
                        }
                    }
                }
                if sprite_bit(pixel, cols) && s0.display[xi as int][yi as int] {
                    assert(chip8.v@ =~= v_before.update(15, 1u8));
                    assert(chip8.v@ =~= s0.v.update(15, 1u8));
                } else {
                    assert(chip8.v@ =~= v_before);
                }
                assert(chip8.v@ =~= s0.v.update(15, if hit_so_far(s0, vx, vy, h, rows, cols + 1) { 1u8 } else { 0u8 }));
            }
            xline += 1;
        }
        proof {
            let rows = yline as int;
            assert forall|a: int, b: int| 0 <= a < 64 && 0 <= b < 32 implies
                #[trigger] drawn(s0, vx, vy, h, a, b, rows, 8) == drawn(s0, vx, vy, h, a, b, rows + 1, 0) by {}
            assert(hit_so_far(s0, vx, vy, h, rows, 8) == hit_so_far(s0, vx, vy, h, rows + 1, 0)) by {
                if hit_so_far(s0, vx, vy, h, rows, 8) {
                    let (a, b) = choose|a: int, b: int|
                        0 <= a < 64 && 0 <= b < 32 && #[trigger] drawn(s0, vx, vy, h, a, b, rows, 8)
                            && s0.display[a][b];
                    assert(drawn(s0, vx, vy, h, a, b, rows + 1, 0));
                }
                if hit_so_far(s0, vx, vy, h, rows + 1, 0) {
                    let (a, b) = choose|a: int, b: int|
                        0 <= a < 64 && 0 <= b < 32 && #[trigger] drawn(s0, vx, vy, h, a, b, rows + 1, 0)
                            && s0.display[a][b];
                    assert(drawn(s0, vx, vy, h, a, b, rows, 8));
                }
            }
        }
        yline += 1;
    }
    proof {
        assert forall|a: int, b: int| 0 <= a < 64 && 0 <= b < 32 implies
            #[trigger] drawn(s0, vx, vy, h, a, b, h, 0) == sprite_covers(s0, vx, vy, h, a, b) by {}
        assert(hit_so_far(s0, vx, vy, h, h, 0) == sprite_collides(s0, vx, vy, h)) by {
            if hit_so_far(s0, vx, vy, h, h, 0) {
                let (a, b) = choose|a: int, b: int|
                    0 <= a < 64 && 0 <= b < 32 && #[trigger] drawn(s0, vx, vy, h, a, b, h, 0)
                        && s0.display[a][b];
                assert(sprite_covers(s0, vx, vy, h, a, b));
            }
            if sprite_collides(s0, vx, vy, h) {
                let (a, b) = choose|a: int, b: int|
                    0 <= a < 64 && 0 <= b < 32 && #[trigger] sprite_covers(s0, vx, vy, h, a, b)
                        && s0.display[a][b];
                assert(drawn(s0, vx, vy, h, a, b, h, 0));
            }
        }
    }
    let ghost drawn_state = chip8@;
    chip8.next();
    proof {
        let target = op_dxyn(s0, opcode);
        assert(drawn_state.display =~~= target.display);
        assert(drawn_state.v =~= target.v);
        assert(chip8@ =~~= target);
    }
}


/// Moves on by one instruction, or by two when `cond` holds.
pub fn skip_when(chip8: &mut Chip8, cond: bool)
    ensures
        final(chip8)@ == skip_if(old(chip8)@, cond),
{
    if cond {
        chip8.next();
    }
    chip8.next();
}

/// 00E0: clears the screen.
pub fn x00E0(chip8: &mut Chip8)
    ensures
        final(chip8)@ == op_00e0(old(chip8)@),
{
    chip8.clear_display();
    chip8.next();
}

/// 00EE: returns from a subroutine.
pub fn x00EE(chip8: &mut Chip8, opcode: u16)
    requires
        op_00ee_ok(old(chip8)@),
    ensures
        final(chip8)@ == op_00ee(old(chip8)@),
{
    chip8.pc = chip8.stack[chip8.sp as usize];
    chip8.sp = chip8.sp.wrapping_sub(1);
    assert(chip8@ =~~= Machine { pc: old(chip8)@.stack[old(chip8)@.sp as int], sp: ((old(chip8)@.sp - 1) % 0x10000) as u16, ..old(chip8)@ });
    chip8.next();
}

/// 1NNN: jumps to NNN.
pub fn x1NNN(chip8: &mut Chip8, opcode: u16)
    ensures
        final(chip8)@ == op_1nnn(old(chip8)@, opcode),
{
    let nnn = field_nnn(opcode);
    chip8.jump(nnn);
}

/// 2NNN: calls the subroutine at NNN.
pub fn x2NNN(chip8: &mut Chip8, opcode: u16)
    requires
        op_2nnn_ok(old(chip8)@),
    ensures
        final(chip8)@ == op_2nnn(old(chip8)@, opcode),
{
    let nnn = field_nnn(opcode);
    chip8.sp = chip8.sp.wrapping_add(1);
    chip8.stack[chip8.sp as usize] = chip8.pc;
    chip8.jump(nnn);
    assert(chip8@ =~~= op_2nnn(old(chip8)@, opcode));
}

/// 3XNN: skips the next instruction when VX equals NN.
pub fn x3XNN(chip8: &mut Chip8, opcode: u16)
    ensures
        final(chip8)@ == op_3xnn(old(chip8)@, opcode),
{
    let x = field_x(opcode);
    let nn = field_nn(opcode);
    skip_when(chip8, chip8.v[x as usize] == nn as u8);
}

/// 4XNN: skips the next instruction when VX differs from NN.
pub fn x4XNN(chip8: &mut Chip8, opcode: u16)
    ensures
        final(chip8)@ == op_4xnn(old(chip8)@, opcode),
{
    let x = field_x(opcode);
    let nn = field_nn(opcode);
    skip_when(chip8, chip8.v[x as usize] != nn as u8);
}

/// 5XY0: skips the next instruction when VX equals VY.
pub fn x5XY0(chip8: &mut Chip8, opcode: u16)
    ensures
        final(chip8)@ == op_5xy0(old(chip8)@, opcode),
{
    let x = field_x(opcode);
    let y = field_y(opcode);
    skip_when(chip8, chip8.v[x as usize] == chip8.v[y as usize]);
}

/// 6XNN: VX = NN.
pub fn x6XNN(chip8: &mut Chip8, opcode: u16)
    ensures
        final(chip8)@ == op_6xnn(old(chip8)@, opcode),
{
    let x = field_x(opcode);
    let nn = field_nn(opcode);
    chip8.v[x as usize] = nn as u8;
    assert(chip8@ =~~= set_v(old(chip8)@, op_x(opcode), op_nn(opcode) as u8));
    chip8.next();
}

/// 7XNN: VX = VX + NN, wrapping in 8 bits.
pub fn x7XNN(chip8: &mut Chip8, opcode: u16)
    ensures
        final(chip8)@ == op_7xnn(old(chip8)@, opcode),
{
    let x = field_x(opcode);
    let nn = field_nn(opcode);
    chip8.v[x as usize] = chip8.v[x as usize].wrapping_add(nn as u8);
    assert(chip8@ =~~= set_v(old(chip8)@, op_x(opcode), ((old(chip8)@.v[op_x(opcode)] + op_nn(opcode)) % 256) as u8));
    chip8.next();
}

/// 8XY0: VX = VY.
pub fn x8XY0(chip8: &mut Chip8, opcode: u16)
    ensures
        final(chip8)@ == op_8xy0(old(chip8)@, opcode),
{
    let x = field_x(opcode);
    let y = field_y(opcode);
    chip8.v[x as usize] = chip8.v[y as usize];
    assert(chip8@ =~~= set_v(old(chip8)@, op_x(opcode), old(chip8)@.v[op_y(opcode)]));
    chip8.next();
}

/// 8XY1: VX = VX | VY, VF = 0.
pub fn x8XY1(chip8: &mut Chip8, opcode: u16)
    ensures
        final(chip8)@ == op_8xy1(old(chip8)@, opcode),
{
    let ghost s = chip8@;
    let x = field_x(opcode);
    let y = field_y(opcode);
    chip8.v[x as usize] |= chip8.v[y as usize];
    chip8.v[0xf] = 0;
    assert(chip8@ =~~= (Machine { v: s.v.update(op_x(opcode), s.v[op_x(opcode)] | s.v[op_y(opcode)]).update(15, 0), ..s }));
    chip8.next();
}

/// 8XY2: VX = VX & VY, VF = 0.
pub fn x8XY2(chip8: &mut Chip8, opcode: u16)
    ensures
        final(chip8)@ == op_8xy2(old(chip8)@, opcode),
{
    let ghost s = chip8@;
    let x = field_x(opcode);
    let y = field_y(opcode);
    chip8.v[x as usize] &= chip8.v[y as usize];
    chip8.v[0xf] = 0;
    assert(chip8@ =~~= (Machine { v: s.v.update(op_x(opcode), s.v[op_x(opcode)] & s.v[op_y(opcode)]).update(15, 0), ..s }));
    chip8.next();
}

/// 8XY3: VX = VX ^ VY, VF = 0.
pub fn x8XY3(chip8: &mut Chip8, opcode: u16)
    ensures
        final(chip8)@ == op_8xy3(old(chip8)@, opcode),
{
    let ghost s = chip8@;
    let x = field_x(opcode);
    let y = field_y(opcode);
    chip8.v[x as usize] ^= chip8.v[y as usize];
    chip8.v[0xf] = 0;
    assert(chip8@ =~~= (Machine { v: s.v.update(op_x(opcode), s.v[op_x(opcode)] ^ s.v[op_y(opcode)]).update(15, 0), ..s }));
    chip8.next();
}

/// 8XY4: VX = VX + VY modulo 256, VF = the carry.
pub fn x8XY4(chip8: &mut Chip8, opcode: u16)
    ensures
        final(chip8)@ == op_8xy4(old(chip8)@, opcode),
{
    let ghost s = chip8@;
    let x = field_x(opcode);
    let y = field_y(opcode);
    let a = chip8.v[x as usize];
    let b = chip8.v[y as usize];
    let sum = a.wrapping_add(b);
    let carry = a as u16 + b as u16 > 255;
    chip8.v[0xf] = if carry { 1 } else { 0 };
    chip8.v[x as usize] = sum;
    let ghost total = s.v[op_x(opcode)] + s.v[op_y(opcode)];
    assert(chip8@ =~~= (Machine { v: s.v.update(15, if total > 255 { 1u8 } else { 0u8 }).update(op_x(opcode), (total % 256) as u8), ..s }));
    chip8.next();
}

/// 8XY5: VY is subtracted from VX (VX = VX - VY, wrapping in 8 bits; VY - VX
/// is 8XY7); VF = 1 when VY < VX.
pub fn x8XY5(chip8: &mut Chip8, opcode: u16)
    ensures
        final(chip8)@ == op_8xy5(old(chip8)@, opcode),
{
    let ghost s = chip8@;
    let x = field_x(opcode);
    let y = field_y(opcode);
    let sub = chip8.v[x as usize].wrapping_sub(chip8.v[y as usize]);
    chip8.v[0xf] = 0;
    if chip8.v[y as usize] < chip8.v[x as usize] {
        chip8.v[0xf] = 1;
    }
    chip8.v[x as usize] = sub;
    proof {
        let xi = op_x(opcode);
        let yi = op_y(opcode);
        let v1 = s.v.update(15, 0);
        let v2 = if v1[yi] < v1[xi] { v1.update(15, 1) } else { v1 };
        assert(chip8@ =~~= (Machine { v: v2.update(xi, ((s.v[xi] - s.v[yi]) % 256) as u8), ..s }));
    }
    chip8.next();
}

/// 8XY6: VF = the low bit of VX, VX = VX >> 1.
pub fn x8XY6(chip8: &mut Chip8, opcode: u16)
    ensures
        final(chip8)@ == op_8xy6(old(chip8)@, opcode),
{
    let ghost s = chip8@;
    let x = field_x(opcode);
    let shiftedBit = chip8.v[x as usize] & 0x01;
    chip8.v[x as usize] = (chip8.getV(x) >> 1) as u8;
    chip8.v[0xf] = shiftedBit;
    proof {
        let w = s.v[op_x(opcode)];
        assert(w & 0x01 == w % 2) by (bit_vector);
        assert(((w as u16) >> 1) as u8 == w / 2) by (bit_vector);
        assert(chip8@ =~~= (Machine { v: s.v.update(op_x(opcode), w / 2).update(15, w % 2), ..s }));
    }
    chip8.next();
}

/// 8XY7: VX = VY - VX, wrapping in 8 bits; VF = 0 on a borrow, 1 otherwise.
pub fn x8XY7(chip8: &mut Chip8, opcode: u16)
    ensures
        final(chip8)@ == op_8xy7(old(chip8)@, opcode),
{
    let ghost s = chip8@;
    let x = field_x(opcode);
    let y = field_y(opcode);
    let no_borrow = chip8.v[y as usize] >= chip8.v[x as usize];
    chip8.v[x as usize] = chip8.v[y as usize].wrapping_sub(chip8.v[x as usize]);
    chip8.v[0xf] = if no_borrow { 1 } else { 0 };
    proof {
        let xi = op_x(opcode);
        let yi = op_y(opcode);
        let flag: u8 = if s.v[yi] >= s.v[xi] { 1 } else { 0 };
        assert(chip8@ =~~= (Machine { v: s.v.update(xi, ((s.v[yi] - s.v[xi]) % 256) as u8).update(15, flag), ..s }));
    }
    chip8.next();
}

/// 8XYE: VF = the high bit of VX, VX = VX << 1 modulo 256.
pub fn x8XYE(chip8: &mut Chip8, opcode: u16)
    ensures
        final(chip8)@ == op_8xye(old(chip8)@, opcode),
{
    let ghost s = chip8@;
    let x = field_x(opcode);
    let shiftedBit = chip8.v[x as usize] >> 7;
    chip8.v[x as usize] = (chip8.getV(x) << 1) as u8;
    chip8.v[0xf] = shiftedBit;
    proof {
        let w = s.v[op_x(opcode)];
        assert(w >> 7 == w / 128) by (bit_vector);
        assert(((w as u16) << 1) as u8 == ((2 * w) % 256) as u8) by (bit_vector);
        assert(chip8@ =~~= (Machine { v: s.v.update(op_x(opcode), ((2 * w) % 256) as u8).update(15, w / 128), ..s }));
    }
    chip8.next();
}

/// 9XY0: skips the next instruction when VX differs from VY.
pub fn x9XY0(chip8: &mut Chip8, opcode: u16)
    ensures
        final(chip8)@ == op_9xy0(old(chip8)@, opcode),
{
    let x = field_x(opcode);
    let y = field_y(opcode);
    skip_when(chip8, chip8.getV(x) != chip8.getV(y));
}

/// ANNN: I = NNN.
pub fn xANNN(chip8: &mut Chip8, opcode: u16)
    ensures
        final(chip8)@ == op_annn(old(chip8)@, opcode),
{
    let nnn = field_nnn(opcode);
    chip8.i = nnn;
    assert(chip8@ =~~= (Machine { i: op_nnn(opcode) as u16, ..old(chip8)@ }));
    chip8.next();
}

/// BNNN: jumps to NNN + V0.
pub fn xBNNN(chip8: &mut Chip8, opcode: u16)
    ensures
        final(chip8)@ == op_bnnn(old(chip8)@, opcode),
{
    let nnn = field_nnn(opcode);
    chip8.jump(nnn + chip8.v[0] as u16);
}

/// CXNN with the random byte given: VX = r & NN.
pub fn set_random_masked(chip8: &mut Chip8, opcode: u16, r: u8)
    ensures
        final(chip8)@ == op_cxnn(old(chip8)@, opcode, r),
{
    let x = field_x(opcode);
    let nn = field_nn(opcode);
    chip8.setV(x, (r & nn as u8) as u16);
    proof {
        let m = r & (nn as u8);
        assert(((m as u16) % 256) as u8 == m) by (bit_vector);
    }
    chip8.next();
}

/// CXNN: VX = a random byte & NN.
pub fn xCXNN(chip8: &mut Chip8, opcode: u16)
    ensures
        exists|r: u8| final(chip8)@ == op_cxnn(old(chip8)@, opcode, r),
{
    let r = random_byte();
    set_random_masked(chip8, opcode, r);
}

/// EX9E: skips the next instruction when the key numbered VX is down.
pub fn xEX9E(chip8: &mut Chip8, opcode: u16)
    requires
        op_key_ok(old(chip8)@, opcode),
    ensures
        final(chip8)@ == op_ex9e(old(chip8)@, opcode),
{
    let x = field_x(opcode);
    let vx = chip8.getV(x);
    skip_when(chip8, chip8.key[vx as usize]);
}

/// EXA1: skips the next instruction when the key numbered VX is up.
pub fn xEXA1(chip8: &mut Chip8, opcode: u16)
    requires
        op_key_ok(old(chip8)@, opcode),
    ensures
        final(chip8)@ == op_exa1(old(chip8)@, opcode),
{
    let x = field_x(opcode);
    let vx = chip8.v[x as usize];
    skip_when(chip8, !chip8.key[vx as usize]);
}

/// FX07: VX = the delay timer.
pub fn xFX07(chip8: &mut Chip8, opcode: u16)
    ensures
        final(chip8)@ == op_fx07(old(chip8)@, opcode),
{
    let x = field_x(opcode);
    chip8.v[x as usize] = chip8.dt;
    assert(chip8@ =~~= set_v(old(chip8)@, op_x(opcode), old(chip8)@.dt));
    chip8.next();
}

/// FX0A: waits for a key release and stores its number in VX.
pub fn xFX0A(chip8: &mut Chip8, opcode: u16)
    ensures
        final(chip8)@ == op_fx0a(old(chip8)@, opcode),
{
    let x = field_x(opcode);
    if chip8.ku {
        chip8.v[x as usize] = chip8.kp & 0xf;
        assert(chip8@ =~~= set_v(old(chip8)@, op_x(opcode), old(chip8)@.kp & 0xf));
    } else {
        chip8.pc = chip8.pc.wrapping_sub(2);
        assert(chip8@ =~~= (Machine { pc: ((old(chip8)@.pc - 2) % 0x10000) as u16, ..old(chip8)@ }));
    }
    chip8.next();
}

/// FX15: delay timer = VX.
pub fn xFX15(chip8: &mut Chip8, opcode: u16)
    ensures
        final(chip8)@ == op_fx15(old(chip8)@, opcode),
{
    let x = field_x(opcode);
    chip8.dt = chip8.v[x as usize];
    assert(chip8@ =~~= (Machine { dt: old(chip8)@.v[op_x(opcode)], ..old(chip8)@ }));
    chip8.next();
}

/// FX18: sound timer = VX.
pub fn xFX18(chip8: &mut Chip8, opcode: u16)
    ensures
        final(chip8)@ == op_fx18(old(chip8)@, opcode),
{
    let x = field_x(opcode);
    chip8.st = chip8.v[x as usize];
    assert(chip8@ =~~= (Machine { st: old(chip8)@.v[op_x(opcode)], ..old(chip8)@ }));
    chip8.next();
}

/// FX1E: I = I + VX, wrapping in 16 bits.
pub fn xFX1E(chip8: &mut Chip8, opcode: u16)
    ensures
        final(chip8)@ == op_fx1e(old(chip8)@, opcode),
{
    let x = field_x(opcode);
    chip8.i = chip8.i.wrapping_add(chip8.v[x as usize] as u16);
    assert(chip8@ =~~= (Machine { i: ((old(chip8)@.i + old(chip8)@.v[op_x(opcode)]) % 0x10000) as u16, ..old(chip8)@ }));
    chip8.next();
}

/// FX29: I = VX * 5 (an 8-bit product), the font glyph of digit VX.
pub fn xFX29(chip8: &mut Chip8, opcode: u16)
    ensures
        final(chip8)@ == op_fx29(old(chip8)@, opcode),
{
    let x = field_x(opcode);
    chip8.i = chip8.v[x as usize].wrapping_mul(5) as u16;
    assert(chip8@ =~~= (Machine { i: ((old(chip8)@.v[op_x(opcode)] * 5) % 256) as u16, ..old(chip8)@ }));
    chip8.next();
}

/// FX33: stores the three decimal digits of VX at I, I+1 and I+2.
pub fn xFX33(chip8: &mut Chip8, opcode: u16)
    requires
        op_fx33_ok(old(chip8)@),
    ensures
        final(chip8)@ == op_fx33(old(chip8)@, opcode),
{
    let ghost s = chip8@;
    let x = field_x(opcode);
    let vx = chip8.getV(x);
    let hundreds = (vx / 100) as u8;
    let tens = ((vx / 10) % 10) as u8;
    let ones = (vx % 10) as u8;
    chip8.write(chip8.i as usize, hundreds);
    chip8.write((chip8.i + 1) as usize, tens);
    chip8.write((chip8.i + 2) as usize, ones);
    proof {
        let n = s.v[op_x(opcode)] as int;
        assert(chip8@ =~~= (Machine {
            mem: s.mem.update(s.i as int, (n / 100) as u8).update(s.i + 1, ((n / 10) % 10) as u8).update(s.i + 2, (n % 10) as u8),
            ..s
        }));
    }
    chip8.next();
}

/// FX55: V0..=VX are stored at I..=I+X, then I = I + X + 1.
pub fn xFX55(chip8: &mut Chip8, opcode: u16)
    requires
        op_fx_block_ok(old(chip8)@, opcode),
    ensures
        final(chip8)@ == op_fx55(old(chip8)@, opcode),
{
    let ghost s = chip8@;
    proof { chip8.lemma_wf(); }
    let x = field_x(opcode);
    let mut i: u16 = 0;
    while i <= x
        invariant
            x == op_x(opcode),
            x < 16,
            s.i + x < 4096,
            wf(s),
            0 <= i <= x + 1,
            chip8@ == (Machine { mem: chip8@.mem, ..s }),
            chip8@.mem.len() == 4096,
            forall|a: int| 0 <= a < 4096 ==> #[trigger] chip8@.mem[a] == (if s.i <= a < s.i + i { s.v[a - s.i] } else { s.mem[a] }),
        decreases x + 1 - i,
    {
        chip8.write((chip8.i + i) as usize, chip8.v[i as usize]);
        i += 1;
    }
    chip8.i += x + 1;
    assert(chip8@ =~~= (Machine {
        mem: Seq::new(s.mem.len(), |a: int| if s.i <= a <= s.i + op_x(opcode) { s.v[a - s.i] } else { s.mem[a] }),
        i: (s.i + op_x(opcode) + 1) as u16,
        ..s
    }));
    chip8.next();
}

/// FX65: V0..=VX are filled from I..=I+X, then I = I + X + 1.
pub fn xFX65(chip8: &mut Chip8, opcode: u16)
    requires
        op_fx_block_ok(old(chip8)@, opcode),
    ensures
        final(chip8)@ == op_fx65(old(chip8)@, opcode),
{
    let ghost s = chip8@;
    proof { chip8.lemma_wf(); }
    let x = field_x(opcode);
    let mut i: u16 = 0;
    while i <= x
        invariant
            x == op_x(opcode),
            x < 16,
            s.i + x < 4096,
            wf(s),
            0 <= i <= x + 1,
            chip8@ == (Machine { v: chip8@.v, ..s }),
            chip8@.v.len() == 16,
            forall|k: int| 0 <= k < 16 ==> #[trigger] chip8@.v[k] == (if k < i { s.mem[s.i + k] } else { s.v[k] }),
        decreases x + 1 - i,
    {
        chip8.v[i as usize] = chip8.get(chip8.i + i);
        i += 1;
    }
    chip8.i += x + 1;
    assert(chip8@ =~~= (Machine {
        v: Seq::new(s.v.len(), |k: int| if k <= op_x(opcode) { s.mem[s.i + k] } else { s.v[k] }),
        i: (s.i + op_x(opcode) + 1) as u16,
        ..s
    }));
    chip8.next();
}

} // verus!
