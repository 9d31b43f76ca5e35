//! Properties of the machine that span instructions and operations.
use vstd::prelude::*;
use crate::frontend::{keypad, keypad_spec};
use crate::machine::{
    advance, fetch_spec, load_spec, op_00ee, op_00ee_ok,
    op_2nnn, op_2nnn_ok, op_dxyn, op_dxyn_ok, op_fx33, op_fx33_ok, op_x, op_y, reset_spec, run,
    step, step_ok, uses_random, wf, Machine,
};

verus! {

/// No instruction changes the run state, the keypad or the last released
/// key, and every instruction clears the key-release flag.
pub proof fn law_step_keeps_state_and_keys(s: Machine, r: u8)
    ensures
        step(s, r).state == s.state,
        step(s, r).key == s.key,
        step(s, r).kp == s.kp,
        !step(s, r).ku,
{
    reveal(step);
}

/// Running any number of steps keeps the run state.
pub proof fn law_run_keeps_state(s: Machine, rs: Seq<u8>)
    ensures
        run(s, rs).state == s.state,
    decreases rs.len(),
{
    if rs.len() > 0 {
        law_run_keeps_state(s, rs.drop_last());
        law_step_keeps_state_and_keys(run(s, rs.drop_last()), rs.last());
    }
}

/// Only CXNN reads the random byte: any other instruction has one outcome.
pub proof fn law_step_deterministic(s: Machine, r1: u8, r2: u8)
    requires
        !uses_random(fetch_spec(s)),
    ensures
        step(s, r1) == step(s, r2),
{
    reveal(step);
}

/// A step that cannot fault keeps the sizes of the machine's memories.
pub proof fn law_step_keeps_sizes(s: Machine, r: u8)
    requires
        wf(s),
        step_ok(s),
    ensures
        wf(step(s, r)),
{
    reveal(step);
    let t = step(s, r);
    assert forall|x: int| 0 <= x < 64 implies (#[trigger] t.display[x]).len() == 32 by {}
}

/// Running two sequences of steps one after the other is running their
/// concatenation.
pub proof fn law_run_concat(s: Machine, rs1: Seq<u8>, rs2: Seq<u8>)
    ensures
        run(run(s, rs1), rs2) == run(s, rs1 + rs2),
    decreases rs2.len(),
{
    if rs2.len() == 0 {
        assert(rs1 + rs2 =~= rs1);
    } else {
        law_run_concat(s, rs1, rs2.drop_last());
        assert((rs1 + rs2).drop_last() =~= rs1 + rs2.drop_last());
        assert((rs1 + rs2).last() == rs2.last());
    }
}

/// A call (2NNN) followed by a return (00EE) comes back to the instruction
/// after the call, with the stack pointer as it was.
pub proof fn law_call_then_return(s: Machine, op: u16)
    requires
        wf(s),
        op_2nnn_ok(s),
    ensures
        op_00ee_ok(op_2nnn(s, op)),
        op_00ee(op_2nnn(s, op)).pc == advance(s).pc,
        op_00ee(op_2nnn(s, op)).sp == s.sp,
{
}

/// Drawing the same sprite twice at the same place leaves the screen as it
/// was (when neither coordinate register is VF, which the first draw sets).
pub proof fn law_draw_twice_restores_screen(s: Machine, op: u16)
    requires
        wf(s),
        op_dxyn_ok(s, op),
        op_dxyn_ok(op_dxyn(s, op), op),
        op_x(op) != 15,
        op_y(op) != 15,
    ensures
        op_dxyn(op_dxyn(s, op), op).display == s.display,
{
    let t = op_dxyn(s, op);
    let u = op_dxyn(t, op);
    assert(t.v[op_x(op)] == s.v[op_x(op)]);
    assert(t.v[op_y(op)] == s.v[op_y(op)]);
    assert forall|a: int| 0 <= a < 64 implies #[trigger] u.display[a] =~= s.display[a] by {}
    assert(u.display =~= s.display);
}

/// FX33 stores three decimal digits that spell VX: hundreds, tens, ones.
pub proof fn law_bcd_spells_vx(s: Machine, op: u16)
    requires
        wf(s),
        op_fx33_ok(s),
    ensures
        ({
            let m = op_fx33(s, op).mem;
            &&& m[s.i as int] < 10 && m[s.i + 1] < 10 && m[s.i + 2] < 10
            &&& 100 * m[s.i as int] + 10 * m[s.i + 1] + m[s.i + 2] == s.v[op_x(op)]
        }),
{
}

/// Resetting twice is resetting once.
pub proof fn law_reset_idempotent(s: Machine)
    ensures
        reset_spec(reset_spec(s)) == reset_spec(s),
{
}

/// After loading a program of at least two bytes, the first instruction
/// fetched is its first two bytes, big-endian.
pub proof fn law_load_then_fetch(s: Machine, rom: Seq<u8>)
    requires
        2 <= rom.len() <= 4096 - 0x200,
    ensures
        fetch_spec(load_spec(s, rom)) == rom[0] * 256 + rom[1],
{
}


/// Reading the keyboard sets each CHIP-8 key from its own keyboard key alone:
/// down while that key is down, up when it was just released, unchanged
/// otherwise; the release flag is raised when any key was released.
pub proof fn law_keypad_sets_each_key(s: Machine, down: Seq<bool>, released: Seq<bool>)
    requires
        wf(s),
        down.len() == 16,
        released.len() == 16,
    ensures
        forall|j: int| 0 <= j < 16 ==> #[trigger] keypad_spec(s, down, released, 16).key[keypad()[j] as int]
            == (if down[j] { true } else if released[j] { false } else { s.key[keypad()[j] as int] }),
        keypad_spec(s, down, released, 16).ku == (s.ku || exists|j: int| 0 <= j < 16 && !down[j] && #[trigger] released[j]),
{
    assert(forall|i: int, j: int| 0 <= i < 16 && 0 <= j < 16 && i != j ==> keypad()[i] != keypad()[j]);
    assert(forall|j: int| 0 <= j < 16 ==> keypad()[j] < 16);
    lemma_keypad_prefix(s, down, released, 16);
}

proof fn lemma_keypad_prefix(s: Machine, down: Seq<bool>, released: Seq<bool>, n: int)
    requires
        wf(s),
        down.len() == 16,
        released.len() == 16,
        0 <= n <= 16,
        forall|i: int, j: int| 0 <= i < 16 && 0 <= j < 16 && i != j ==> keypad()[i] != keypad()[j],
        forall|j: int| 0 <= j < 16 ==> keypad()[j] < 16,
    ensures
        keypad_spec(s, down, released, n).key.len() == 16,
        forall|j: int| 0 <= j < 16 ==> #[trigger] keypad_spec(s, down, released, n).key[keypad()[j] as int]
            == (if j >= n { s.key[keypad()[j] as int] } else if down[j] { true } else if released[j] { false } else { s.key[keypad()[j] as int] }),
        keypad_spec(s, down, released, n).ku == (s.ku || exists|j: int| 0 <= j < n && !down[j] && #[trigger] released[j]),
    decreases n,
{
    if n > 0 {
        lemma_keypad_prefix(s, down, released, n - 1);
        let t = keypad_spec(s, down, released, n - 1);
        let u = keypad_spec(s, down, released, n);
        assert forall|j: int| 0 <= j < 16 implies #[trigger] u.key[keypad()[j] as int]
            == (if j >= n { s.key[keypad()[j] as int] } else if down[j] { true } else if released[j] { false } else { s.key[keypad()[j] as int] }) by {
            assert(t.key[keypad()[j] as int] == (if j >= n - 1 { s.key[keypad()[j] as int] } else if down[j] { true } else if released[j] { false } else { s.key[keypad()[j] as int] }));
        }
        if !down[n - 1] && released[n - 1] {
            assert(u.ku);
        } else if s.ku || exists|j: int| 0 <= j < n && !down[j] && #[trigger] released[j] {
            if !s.ku {
                let j = choose|j: int| 0 <= j < n && !down[j] && #[trigger] released[j];
                assert(j < n - 1);
            }
        }
    }
}

} // verus!

