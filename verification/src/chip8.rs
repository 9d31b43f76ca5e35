//! The executable CHIP-8 machine.
use vstd::prelude::*;
use crate::machine::{
    advance, blank_display, fetch_ok, fetch_spec, font_glyphs, fresh_memory, load_spec,
    loaded_memory, power_on, reset_spec, set_v, wf, Machine, STATE,
};

verus! {

/// The font glyphs for the digits 0..F, five rows each.
pub const FONT_SET: [u8; 80] = [
    0xF0, 0x90, 0x90, 0x90, 0xF0, // 0
    0x20, 0x60, 0x20, 0x20, 0x70, // 1
    0xF0, 0x10, 0xF0, 0x80, 0xF0, // 2
    0xF0, 0x10, 0xF0, 0x10, 0xF0, // 3
    0x90, 0x90, 0xF0, 0x10, 0x10, // 4
    0xF0, 0x80, 0xF0, 0x10, 0xF0, // 5
    0xF0, 0x80, 0xF0, 0x90, 0xF0, // 6
    0xF0, 0x10, 0x20, 0x40, 0x40, // 7
    0xF0, 0x90, 0xF0, 0x90, 0xF0, // 8
    0xF0, 0x90, 0xF0, 0x10, 0xF0, // 9
    0xF0, 0x90, 0xF0, 0x90, 0x90, // A
    0xE0, 0x90, 0xE0, 0x90, 0xE0, // B
    0xF0, 0x80, 0x80, 0x80, 0xF0, // C
    0xE0, 0x90, 0x90, 0x90, 0xE0, // D
    0xF0, 0x80, 0xF0, 0x80, 0xF0, // E
    0xF0, 0x80, 0xF0, 0x80, 0x80, // F
];

/// A CHIP-8 machine: keypad, 64x32 monochrome screen, 4 KiB of memory,
/// sixteen 8-bit registers, a call stack and the special registers.
pub struct Chip8 {
    pub key: [bool; 16],
    pub display: [[bool; 32]; 64],
    pub mem: [u8; 4096],
    pub v: [u8; 16],
    pub stack: [u16; 16],
    pub pc: u16,
    pub sp: u16,
    pub i: u16,
    pub dt: u8,
    pub st: u8,
    pub kp: u8,
    pub ku: bool,
    pub state: STATE,
}

impl View for Chip8 {
    type V = Machine;

    open spec fn view(&self) -> Machine {
        Machine {
            key: self.key@,
            display: Seq::new(64, |x: int| self.display@[x]@),
            mem: self.mem@,
            v: self.v@,
            stack: self.stack@,
            pc: self.pc,
            sp: self.sp,
            i: self.i,
            dt: self.dt,
            st: self.st,
            kp: self.kp,
            ku: self.ku,
            state: self.state,
        }
    }
}

impl Chip8 {
    /// The view of every machine has the sizes of a CHIP-8.
    pub proof fn lemma_wf(&self)
        ensures
            wf(self@),
    {
        assert forall|x: int| 0 <= x < 64 implies (#[trigger] self@.display[x]).len() == 32 by {
            assert(self@.display[x] == self.display@[x]@);
        }
    }

    /// Copies the font into memory at addresses 0..80.
    pub fn loadFonts(&mut self)
        ensures
            final(self)@ == (Machine {
                mem: Seq::new(4096, |a: int| if a < 80 { font_glyphs()[a] } else { old(self)@.mem[a] }),
                ..old(self)@
            }),
    {
        let ghost s0 = self@;
        let font = FONT_SET;
        assert(font@ =~= font_glyphs());
        for i in 0..80
            invariant
                font@ == font_glyphs(),
                self@ == (Machine { mem: self@.mem, ..s0 }),
                self@.mem.len() == 4096,
                s0.mem.len() == 4096,
                forall|a: int| 0 <= a < 4096 ==> #[trigger] self@.mem[a] == (if a < i { font_glyphs()[a] } else { s0.mem[a] }),
        {
            self.mem[i] = font[i];
        }
        assert(self@ =~~= (Machine {
            mem: Seq::new(4096, |a: int| if a < 80 { font_glyphs()[a] } else { s0.mem[a] }),
            ..s0
        }));
    }

    /// Zeroes the memory from the program start (0x200) to the end.
    pub fn clearMem(&mut self)
        ensures
            final(self)@ == (Machine {
                mem: Seq::new(4096, |a: int| if a < 0x200 { old(self)@.mem[a] } else { 0 }),
                ..old(self)@
            }),
    {
        let ghost s0 = self@;
        for i in 0x200..4096
            invariant
                self@ == (Machine { mem: self@.mem, ..s0 }),
                self@.mem.len() == 4096,
                s0.mem.len() == 4096,
                forall|a: int| 0 <= a < 4096 ==> #[trigger] self@.mem[a] == (if 0x200 <= a < i { 0 } else { s0.mem[a] }),
        {
            self.write(i, 0);
        }
        assert(self@ =~~= (Machine {
            mem: Seq::new(4096, |a: int| if a < 0x200 { s0.mem[a] } else { 0 }),
            ..s0
        }));
    }

    /// Puts everything back as at power-on, except the last released key,
    /// its flag and the run state.
    pub fn reset(&mut self)
        ensures
            final(self)@ == reset_spec(old(self)@),
    {
        self.key = [false; 16];
        self.mem = [0; 4096];
        self.v = [0; 16];
        self.stack = [0; 16];
        self.pc = 0x200;
        self.sp = 0;
        self.i = 0;
        self.dt = 0;
        self.st = 0;
        self.loadFonts();
        self.clear_display();
        assert(self@ =~~= reset_spec(old(self)@));
    }

    /// Pushes a return address on the stack.
    pub fn addRoutine(&mut self, adress: u16)
        requires
            old(self).sp < 16,
        ensures
            final(self)@ == (Machine {
                stack: old(self)@.stack.update(old(self).sp as int, adress),
                sp: (old(self).sp + 1) as u16,
                ..old(self)@
            }),
    {
        self.stack[self.sp as usize] = adress;
        self.sp += 1;
        assert(self@ =~~= (Machine {
            stack: old(self)@.stack.update(old(self).sp as int, adress),
            sp: (old(self).sp + 1) as u16,
            ..old(self)@
        }));
    }

    /// Pops a return address from the stack.
    pub fn returnRoutine(&mut self) -> (adress: u16)
        requires
            1 <= old(self).sp <= 16,
        ensures
            final(self)@ == (Machine { sp: (old(self).sp - 1) as u16, ..old(self)@ }),
            adress == old(self)@.stack[old(self).sp - 1],
    {
        self.sp -= 1;
        assert(self@ =~~= (Machine { sp: (old(self).sp - 1) as u16, ..old(self)@ }));
        self.stack[self.sp as usize]
    }

    /// Writes a byte of memory.
    pub fn write(&mut self, adress: usize, value: u8)
        requires
            adress < 4096,
        ensures
            final(self)@ == (Machine { mem: old(self)@.mem.update(adress as int, value), ..old(self)@ }),
    {
        self.mem[adress] = value;
        assert(self@ =~~= (Machine { mem: old(self)@.mem.update(adress as int, value), ..old(self)@ }));
    }

    /// Reads a byte of memory.
    pub fn get(&self, index: u16) -> (b: u8)
        requires
            index < 4096,
        ensures
            b == self@.mem[index as int],
    {
        self.mem[index as usize]
    }

    /// Reads register `v` as a 16-bit value.
    pub fn getV(&self, v: u16) -> (r: u16)
        requires
            v < 16,
        ensures
            r == self@.v[v as int],
    {
        self.v[v as usize] as u16
    }

    /// Writes the low byte of `value` to register `v`.
    pub fn setV(&mut self, v: u16, value: u16)
        requires
            v < 16,
        ensures
            final(self)@ == set_v(old(self)@, v as int, (value % 256) as u8),
    {
        self.v[v as usize] = value as u8;
        assert(value as u8 == (value % 256) as u8) by (bit_vector);
        assert(self@ =~~= set_v(old(self)@, v as int, (value % 256) as u8));
    }

    /// The big-endian instruction word at the program counter.
    pub fn fetch(&self) -> (op: u16)
        requires
            fetch_ok(self@),
        ensures
            op == fetch_spec(self@),
    {
        let higher_byte = self.mem[self.pc as usize] as u16;
        let lower_byte = self.mem[(self.pc + 1) as usize] as u16;
        let op = (higher_byte << 8) | lower_byte;
        assert(op == higher_byte * 256 + lower_byte) by (bit_vector)
            requires
                higher_byte < 256,
                lower_byte < 256,
                op == (higher_byte << 8) | lower_byte,
        ;
        op
    }

    /// Counts the delay timer down by one unless it is zero.
    pub fn decreaseDT(&mut self)
        ensures
            final(self)@ == (Machine {
                dt: if old(self).dt > 0 { (old(self).dt - 1) as u8 } else { old(self).dt },
                ..old(self)@
            }),
    {
        if self.dt > 0 {
            self.dt -= 1;
        }
        assert(self@ =~~= (Machine {
            dt: if old(self).dt > 0 { (old(self).dt - 1) as u8 } else { old(self).dt },
            ..old(self)@
        }));
    }

    /// Counts the sound timer down by one unless it is zero.
    pub fn decreaseST(&mut self)
        ensures
            final(self)@ == (Machine {
                st: if old(self).st > 0 { (old(self).st - 1) as u8 } else { old(self).st },
                ..old(self)@
            }),
    {
        if self.st > 0 {
            self.st -= 1;
        }
        assert(self@ =~~= (Machine {
            st: if old(self).st > 0 { (old(self).st - 1) as u8 } else { old(self).st },
            ..old(self)@
        }));
    }

    /// Turns every pixel off.
    pub fn clear_display(&mut self)
        ensures
            final(self)@ == (Machine { display: blank_display(), ..old(self)@ }),
    {
        let ghost s0 = self@;
        for row in 0..32
            invariant
                self@ == (Machine { display: self@.display, ..s0 }),
                forall|a: int| 0 <= a < 64 ==> (#[trigger] self.display@[a]@).len() == 32,
                forall|a: int, b: int| 0 <= a < 64 && 0 <= b < 32 ==>
                    #[trigger] self.display@[a]@[b] == (if b < row { false } else { s0.display[a][b] }),
        {
            for col in 0..64
                invariant
                    0 <= row < 32,
                    self@ == (Machine { display: self@.display, ..s0 }),
                    forall|a: int| 0 <= a < 64 ==> (#[trigger] self.display@[a]@).len() == 32,
                    forall|a: int, b: int| 0 <= a < 64 && 0 <= b < 32 ==>
                        #[trigger] self.display@[a]@[b] == (if b < row || (b == row && a < col) { false } else { s0.display[a][b] }),
            {
                let mut column = self.display[col];
                column[row] = false;
                self.display[col] = column;
            }
        }
        assert(self@ =~~= (Machine { display: blank_display(), ..s0 }));
    }

    /// Turns the pixel in column `x` and row `y` off.
    pub fn set_pixel(&mut self, x: usize, y: usize)
        requires
            x < 64,
            y < 32,
        ensures
            final(self)@ == (Machine {
                display: old(self)@.display.update(x as int, old(self)@.display[x as int].update(y as int, false)),
                ..old(self)@
            }),
    {
        let mut column = self.display[x];
        column[y] = column[y] ^ column[y];
        self.display[x] = column;
        assert(self@ =~~= (Machine {
            display: old(self)@.display.update(x as int, old(self)@.display[x as int].update(y as int, false)),
            ..old(self)@
        }));
    }

    /// Whether the pixel in column `x` and row `y` is on.
    pub fn get_pixel(&self, x: usize, y: usize) -> (on: bool)
        requires
            x < 64,
            y < 32,
        ensures
            on == self@.display[x as int][y as int],
    {
        self.display[x][y]
    }

    /// Moves to the next instruction (see `advance`).
    pub fn next(&mut self)
        ensures
            final(self)@ == advance(old(self)@),
    {
        let next = self.pc.wrapping_add(2);
        if next < 4090 {
            self.pc = next;
        }
        assert(self@ =~~= advance(old(self)@));
    }

    /// Sets the program counter.
    pub fn jump(&mut self, adress: u16)
        ensures
            final(self)@ == (Machine { pc: adress, ..old(self)@ }),
    {
        self.pc = adress;
        assert(self@ =~~= (Machine { pc: adress, ..old(self)@ }));
    }
}


/// A machine as switched on: fonts loaded, stopped until a program is loaded.
pub fn start() -> (chip8: Chip8)
    ensures
        chip8@ == power_on(),
{
    let mut chip8: Chip8 = Chip8 {
        key: [false; 16],
        display: [[false; 32]; 64],
        mem: [0; 4096],
        v: [0; 16],
        stack: [0; 16],
        pc: 0x200,
        sp: 0,
        i: 0,
        dt: 0,
        st: 0,
        kp: 0,
        ku: false,
        state: STATE::STOPED,
    };
    assert(chip8@.display =~~= crate::machine::blank_display());
    chip8.loadFonts();
    assert(chip8@ =~~= power_on());
    chip8
}

/// Loads the program `rom`: resets the machine, copies the program to 0x200,
/// sets it running and stores the bytes 4 and 1 at 0x1FF and 0x1FE. The
/// program must fit between 0x200 and the end of memory.
pub fn load(rom: &[u8], chip8: &mut Chip8)
    requires
        rom@.len() <= 4096 - 0x200,
    ensures
        final(chip8)@ == load_spec(old(chip8)@, rom@),
{
    chip8.reset();
    let ghost s1 = chip8@;
    for i in 0..rom.len()
        invariant
            rom@.len() <= 4096 - 0x200,
            chip8@ == (Machine { mem: chip8@.mem, ..s1 }),
            chip8@.mem.len() == 4096,
            s1.mem == fresh_memory(),
            forall|a: int| 0 <= a < 4096 ==> #[trigger] chip8@.mem[a] == (if 0x200 <= a < 0x200 + i { rom@[a - 0x200] } else { fresh_memory()[a] }),
    {
        let address = 0x200 + i;
        chip8.write(address, rom[i]);
    }
    chip8.state = STATE::RUNNING;
    chip8.write(0x1ff, 4);
    chip8.write(0x1fe, 1);
    assert(chip8@.mem =~= loaded_memory(rom@));
    assert(chip8@ =~~= load_spec(old(chip8)@, rom@));
}

} // verus!

