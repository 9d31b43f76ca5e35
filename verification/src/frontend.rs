//! What the window shows and what the keyboard does to the machine.
use vstd::prelude::*;
use crate::chip8::Chip8;
use crate::machine::Machine;

verus! {

/// Each machine pixel is drawn as a square of `SCALE` x `SCALE` window pixels.
pub const SCALE: usize = 10;

/// Window width and height in pixels.
pub const WIDTH: usize = 640;

pub const HEIGHT: usize = 320;

/// Frame rate of the window.
pub const HZ: usize = 60;

/// Window pixel colours (0xAARRGGBB).
pub const WHITE: u32 = 0xFFFFFFFF;

pub const BLACK: u32 = 0xFF000000;

/// The CHIP-8 key (0..F) that each of the sixteen keyboard keys stands for, in
/// the order in which the keyboard is read (1 2 3 4 / Q E R E / A S D F /
/// Z X C V).
pub const KEYPAD: [u8; 16] = [
    0x1, 0x2, 0x3, 0xC,
    0x4, 0x5, 0x6, 0xD,
    0x7, 0x8, 0x9, 0xE,
    0xA, 0xB, 0x0, 0xF,
];

pub open spec fn keypad() -> Seq<u8> {
    seq![0x1u8, 0x2, 0x3, 0xC, 0x4, 0x5, 0x6, 0xD, 0x7, 0x8, 0x9, 0xE, 0xA, 0xB, 0x0, 0xF]
}

/// The colour of window pixel `index` (row-major, `WIDTH` pixels per row).
pub open spec fn frame_pixel(s: Machine, index: int) -> u32 {
    let x = (index % 640) / 10;
    let y = (index / 640) / 10;
    if s.display[x][y] {
        0xFFFFFFFFu32
    } else {
        0xFF000000u32
    }
}

/// What one keyboard key does: while it is down, its CHIP-8 key is down;
/// when it has just been released, its CHIP-8 key is up and is recorded as
/// the last released key.
pub open spec fn key_event_spec(s: Machine, index: u8, down: bool, released: bool) -> Machine {
    if down {
        Machine { key: s.key.update(index as int, true), ..s }
    } else if released {
        Machine { key: s.key.update(index as int, false), kp: index, ku: true, ..s }
    } else {
        s
    }
}

/// The keyboard read in order: the first `n` keys applied one after another.
pub open spec fn keypad_spec(s: Machine, down: Seq<bool>, released: Seq<bool>, n: int) -> Machine
    decreases n,
{
    if n <= 0 {
        s
    } else {
        key_event_spec(
            keypad_spec(s, down, released, n - 1),
            keypad()[n - 1],
            down[n - 1],
            released[n - 1],
        )
    }
}

/// Applies what one keyboard key did since the last frame to CHIP-8 key `index`.
pub fn key_event(chip8: &mut Chip8, index: u8, down: bool, released: bool)
    requires
        index < 16,
    ensures
        final(chip8)@ == key_event_spec(old(chip8)@, index, down, released),
{
    if down {
        chip8.key[index as usize] = true;
    } else if released {
        chip8.kp = index;
        chip8.ku = true;
        chip8.key[index as usize] = false;
    }
    assert(chip8@ =~~= key_event_spec(old(chip8)@, index, down, released));
}

/// Applies the whole keyboard, read in `KEYPAD` order: `down[j]` and
/// `released[j]` are the state of keyboard key `j`.
pub fn update_keys(chip8: &mut Chip8, down: &[bool; 16], released: &[bool; 16])
    ensures
        final(chip8)@ == keypad_spec(old(chip8)@, down@, released@, 16),
{
    let keys = KEYPAD;
    assert(keys@ =~= keypad());
    for j in 0..16
        invariant
            keys@ == keypad(),
            chip8@ == keypad_spec(old(chip8)@, down@, released@, j as int),
    {
        key_event(chip8, keys[j], down[j], released[j]);
    }
}

/// Fills `buffer` with the screen scaled to the window: window pixel `index`
/// shows machine pixel (`(index % WIDTH) / SCALE`, `(index / WIDTH) / SCALE`),
/// white when it is on and black when it is off.
pub fn render(chip8: &Chip8, buffer: &mut Vec<u32>)
    requires
        old(buffer).len() == 640 * 320,
    ensures
        final(buffer).len() == 640 * 320,
        forall|index: int| 0 <= index < 640 * 320 ==> #[trigger] final(buffer)@[index] == frame_pixel(chip8@, index),
{
    let len = WIDTH * HEIGHT;
    for index in 0..len
        invariant
            len == 640 * 320,
            buffer.len() == len,
            forall|k: int| 0 <= k < index ==> #[trigger] buffer@[k] == frame_pixel(chip8@, k),
    {
        let x = (index % WIDTH) / SCALE;
        let y = (index / WIDTH) / SCALE;
        assert(x < 64 && y < 32);
        let pixel = chip8.get_pixel(x, y);
        if pixel {
            buffer[index] = WHITE;
        } else {
            buffer[index] = BLACK;
        }
    }
}

} // verus!
