//! Decoding and running instructions.
use vstd::prelude::*;
use crate::chip8::Chip8;
use crate::machine::{
    execute_spec, fetch_spec, instruction_effect, instruction_ok, op_family, op_n, op_nn, run,
    run_ok, step, step_ok, tick_timers, uses_random, Machine, STATE,
};
use crate::opcodes::{
    field_n, field_x, x00E0, x00EE, x1NNN, x2NNN, x3XNN, x4XNN, x5XY0, x6XNN, x7XNN, x8XY0, x8XY1, x8XY2, x8XY3,
    x8XY4, x8XY5, x8XY6, x8XY7, x8XYE, x9XY0, xANNN, xBNNN, xCXNN, xDXYN, xEX9E, xEXA1, xFX07,
    xFX0A, xFX15, xFX18, xFX1E, xFX29, xFX33, xFX55, xFX65,
};

verus! {

/// Executes one instruction word and then clears the key-release flag.
/// Every instruction but CXNN is deterministic; CXNN uses some random byte.
pub fn execute(chip8: &mut Chip8, opcode: u16)
    requires
        instruction_ok(old(chip8)@, opcode),
    ensures
        exists|r: u8| final(chip8)@ == #[trigger] execute_spec(old(chip8)@, opcode, r),
        !uses_random(opcode) ==> final(chip8)@ == execute_spec(old(chip8)@, opcode, 0),
{
    let ghost s = chip8@;
    let family = opcode & 0xF000;
    let low = opcode & 0x00FF;
    let nibble = opcode & 0x000F;
    assert(family == op_family(opcode) * 0x1000) by (bit_vector)
        requires family == opcode & 0xF000;
    assert(low == op_nn(opcode)) by (bit_vector)
        requires low == opcode & 0x00FF;
    assert(nibble == op_n(opcode)) by (bit_vector)
        requires nibble == opcode & 0x000F;
    let ghost mut r: u8 = 0;
    match family {
        0x0000 => match low {
            0x0000 => chip8.next(),
            0x00E0 => x00E0(chip8),
            0x00EE => x00EE(chip8, opcode),
            _ => {},
        },
        0x1000 => x1NNN(chip8, opcode),
        0x2000 => x2NNN(chip8, opcode),
        0x3000 => x3XNN(chip8, opcode),
        0x4000 => x4XNN(chip8, opcode),
        0x5000 => x5XY0(chip8, opcode),
        0x6000 => x6XNN(chip8, opcode),
        0x7000 => x7XNN(chip8, opcode),
        0x8000 => match nibble {
            0x0000 => x8XY0(chip8, opcode),
            0x0001 => x8XY1(chip8, opcode),
            0x0002 => x8XY2(chip8, opcode),
            0x0003 => x8XY3(chip8, opcode),
            0x0004 => x8XY4(chip8, opcode),
            0x0005 => x8XY5(chip8, opcode),
            0x0006 => x8XY6(chip8, opcode),
            0x0007 => x8XY7(chip8, opcode),
            0x000E => x8XYE(chip8, opcode),
            _ => {},
        },
        0x9000 => x9XY0(chip8, opcode),
        0xA000 => xANNN(chip8, opcode),
        0xB000 => xBNNN(chip8, opcode),
        0xC000 => {
            xCXNN(chip8, opcode);
            proof {
                r = choose|r: u8| chip8@ == crate::machine::op_cxnn(s, opcode, r);
            }
        },
        0xD000 => xDXYN(chip8, opcode),
        0xE000 => match low {
            0x009E => xEX9E(chip8, opcode),
            0x00A1 => xEXA1(chip8, opcode),
            _ => {},
        },
        0xF000 => match low {
            0x0007 => xFX07(chip8, opcode),
            0x000A => xFX0A(chip8, opcode),
            0x0015 => xFX15(chip8, opcode),
            0x0018 => xFX18(chip8, opcode),
            0x001E => xFX1E(chip8, opcode),
            0x0029 => xFX29(chip8, opcode),
            0x0033 => xFX33(chip8, opcode),
            0x0055 => xFX55(chip8, opcode),
            0x0065 => xFX65(chip8, opcode),
            _ => {},
        },
        _ => {},
    }
    assert(chip8@ == instruction_effect(s, opcode, r));
    chip8.ku = false;
    assert(chip8@ =~~= execute_spec(s, opcode, r));
}


/// Fetches the instruction at the program counter and executes it.
pub fn decode(chip8: &mut Chip8)
    requires
        step_ok(old(chip8)@),
    ensures
        exists|r: u8| final(chip8)@ == #[trigger] step(old(chip8)@, r),
        !uses_random(fetch_spec(old(chip8)@)) ==> final(chip8)@ == step(old(chip8)@, 0),
{
    let ghost s = chip8@;
    let opcode = chip8.fetch();
    execute(chip8, opcode);
    proof {
        reveal(step);
        let r = choose|r: u8| chip8@ == #[trigger] execute_spec(s, opcode, r);
        assert(chip8@ == step(s, r));
    }
}

/// Extending a run by one step.
pub proof fn lemma_run_push(s: Machine, rs: Seq<u8>, r: u8)
    ensures
        run(s, rs.push(r)) == step(run(s, rs), r),
{
    assert(rs.push(r).drop_last() =~= rs);
}

/// Every step of running `rs` from `s` starts from a state where it cannot fault.
pub open spec fn runs_clean(s: Machine, rs: Seq<u8>) -> bool {
    forall|k: int| 0 <= k < rs.len() ==> step_ok(#[trigger] run(s, rs.take(k)))
}

/// One frame of the machine: when it is running, `instructions` steps, then
/// one tick of the timers; otherwise nothing. The steps must not fault,
/// whatever random bytes they draw.
pub fn cycle(chip8: &mut Chip8, instructions: usize)
    requires
        old(chip8).state == STATE::RUNNING ==> run_ok(old(chip8)@, instructions as nat),
    ensures
        final(chip8).state == old(chip8).state,
        old(chip8).state != STATE::RUNNING ==> final(chip8)@ == old(chip8)@,
        old(chip8).state == STATE::RUNNING ==> exists|rs: Seq<u8>|
            rs.len() == instructions && final(chip8)@ == tick_timers(#[trigger] run(old(chip8)@, rs)),
{
    let ghost s0 = chip8@;
    if chip8.state == STATE::RUNNING {
        let ghost mut rs: Seq<u8> = Seq::empty();
        for i in 0..instructions
            invariant
                run_ok(s0, instructions as nat),
                rs.len() == i,
                chip8@ == run(s0, rs),
                chip8.state == s0.state,
        {
            assert(step_ok(run(s0, rs)));
            let ghost before = chip8@;
            decode(chip8);
            proof {
                let r = choose|r: u8| chip8@ == #[trigger] step(before, r);
                lemma_run_push(s0, rs, r);
                rs = rs.push(r);
                crate::laws::law_run_keeps_state(s0, rs);
            }
        }
        chip8.decreaseDT();
        chip8.decreaseST();
        assert(chip8@ =~~= tick_timers(run(s0, rs)));
    }
}


impl Chip8 {
    /// Whether executing `opcode` in this state stays inside memory, the
    /// stack and the keypad.
    pub fn instruction_is_safe(&self, opcode: u16) -> (ok: bool)
        ensures
            ok == instruction_ok(self@, opcode),
    {
        proof {
            self.lemma_wf();
        }
        let family = opcode & 0xF000;
        let low = opcode & 0x00FF;
        assert(family == op_family(opcode) * 0x1000) by (bit_vector)
            requires family == opcode & 0xF000;
        assert(low == op_nn(opcode)) by (bit_vector)
            requires low == opcode & 0x00FF;
        let x = field_x(opcode) as usize;
        match family {
            0x0000 => low != 0x00EE || self.sp < 16,
            0x2000 => self.sp.wrapping_add(1) < 16,
            0xD000 => {
                let n = field_n(opcode) as u32;
                n == 0 || self.i as u32 + n <= 4096
            },
            0xE000 => (low != 0x009E && low != 0x00A1) || self.v[x] < 16,
            0xF000 => {
                if low == 0x0033 {
                    (self.i as u32) + 2 < 4096
                } else if low == 0x0055 || low == 0x0065 {
                    (self.i as u32) + (x as u32) < 4096
                } else {
                    true
                }
            },
            _ => true,
        }
    }

    /// Whether the next step (fetch and execute) runs without a fault.
    pub fn step_is_safe(&self) -> (ok: bool)
        ensures
            ok == step_ok(self@),
    {
        if self.pc >= 4095 {
            false
        } else {
            let opcode = self.fetch();
            self.instruction_is_safe(opcode)
        }
    }
}

/// One frame, guarded: like `cycle`, but before each step it tests that the
/// step cannot fault, and stops without running it when it could. Returns
/// whether all `instructions` steps and the timer tick were done.
pub fn try_cycle(chip8: &mut Chip8, instructions: usize) -> (completed: bool)
    ensures
        final(chip8).state == old(chip8).state,
        old(chip8).state != STATE::RUNNING ==> completed && final(chip8)@ == old(chip8)@,
        old(chip8).state == STATE::RUNNING && run_ok(old(chip8)@, instructions as nat) ==> completed,
        old(chip8).state == STATE::RUNNING && completed ==> exists|rs: Seq<u8>|
            rs.len() == instructions && runs_clean(old(chip8)@, rs)
                && final(chip8)@ == tick_timers(#[trigger] run(old(chip8)@, rs)),
        old(chip8).state == STATE::RUNNING && !completed ==> exists|rs: Seq<u8>|
            rs.len() < instructions && runs_clean(old(chip8)@, rs)
                && final(chip8)@ == #[trigger] run(old(chip8)@, rs) && !step_ok(final(chip8)@),
{
    let ghost s0 = chip8@;
    if chip8.state == STATE::RUNNING {
        let ghost mut rs: Seq<u8> = Seq::empty();
        for i in 0..instructions
            invariant
                s0 == old(chip8)@,
                s0.state == STATE::RUNNING,
                rs.len() == i,
                chip8@ == run(s0, rs),
                chip8.state == s0.state,
                runs_clean(s0, rs),
        {
            if !chip8.step_is_safe() {
                assert(rs.len() < instructions && runs_clean(s0, rs) && chip8@ == run(s0, rs));
                return false;
            }
            let ghost before = chip8@;
            decode(chip8);
            proof {
                let r = choose|r: u8| chip8@ == #[trigger] step(before, r);
                lemma_run_push(s0, rs, r);
                let longer = rs.push(r);
                crate::laws::law_run_keeps_state(s0, longer);
                assert forall|k: int| 0 <= k < longer.len() implies step_ok(#[trigger] run(s0, longer.take(k))) by {
                    if k < rs.len() {
                        assert(longer.take(k) =~= rs.take(k));
                    } else {
                        assert(longer.take(k) =~= rs);
                    }
                }
                rs = longer;
            }
        }
        chip8.decreaseDT();
        chip8.decreaseST();
        assert(chip8@ =~~= tick_timers(run(s0, rs)));
    }
    true
}

} // verus!


