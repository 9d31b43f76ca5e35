use chip8::{cycle, decode, execute, load, render, start, try_cycle, update_keys, Chip8, FONT_SET, HEIGHT, STATE, WIDTH};

fn running(program: &[u8]) -> Chip8 {
    let mut c = start();
    load(program, &mut c);
    c
}

#[test]
fn start_powers_on_stopped_with_fonts() {
    let c = start();
    assert!(c.state == STATE::STOPED);
    assert_eq!(c.pc, 0x200);
    assert_eq!(c.sp, 0);
    assert_eq!(c.i, 0);
    assert_eq!(&c.mem[0..80], &FONT_SET[..]);
    assert!(c.mem[80..].iter().all(|&b| b == 0));
    assert!(c.display.iter().all(|col| col.iter().all(|&p| !p)));
    assert!(!c.ku);
}

#[test]
fn load_places_program_and_runs() {
    let mut c = start();
    c.v[3] = 9;
    c.kp = 7;
    load(&[0x12, 0x34, 0x56], &mut c);
    assert!(c.state == STATE::RUNNING);
    assert_eq!(c.mem[0x200], 0x12);
    assert_eq!(c.mem[0x201], 0x34);
    assert_eq!(c.mem[0x202], 0x56);
    assert_eq!(c.mem[0x203], 0);
    assert_eq!(c.mem[0x1FE], 1);
    assert_eq!(c.mem[0x1FF], 4);
    assert_eq!(c.v[3], 0);
    assert_eq!(c.kp, 7);
    assert_eq!(c.pc, 0x200);
}

#[test]
fn load_then_fetch_reads_first_instruction() {
    let mut c = running(&[0x6A, 0x42]);
    decode(&mut c);
    assert_eq!(c.v[0xA], 0x42);
    assert_eq!(c.pc, 0x202);
}

#[test]
fn cycle_does_nothing_when_stopped() {
    let mut c = start();
    c.mem[0x200] = 0x60;
    c.mem[0x201] = 0x05;
    c.dt = 3;
    cycle(&mut c, 4);
    assert_eq!(c.v[0], 0);
    assert_eq!(c.pc, 0x200);
    assert_eq!(c.dt, 3);
}

#[test]
fn cycle_runs_instructions_then_ticks_timers() {
    let mut c = running(&[0x60, 0x05, 0x70, 0x03, 0x61, 0x02]);
    c.dt = 2;
    c.st = 0;
    cycle(&mut c, 3);
    assert_eq!(c.v[0], 8);
    assert_eq!(c.v[1], 2);
    assert_eq!(c.pc, 0x206);
    assert_eq!(c.dt, 1);
    assert_eq!(c.st, 0);
}

#[test]
fn set_and_add_register() {
    let mut c = start();
    execute(&mut c, 0x6C2A);
    assert_eq!(c.v[0xC], 0x2A);
    execute(&mut c, 0x7C10);
    assert_eq!(c.v[0xC], 0x3A);
    assert_eq!(c.pc, 0x204);
}

#[test]
fn logic_ops_clear_vf() {
    let mut c = start();
    c.v[1] = 0b1100;
    c.v[2] = 0b1010;
    c.v[0xF] = 7;
    execute(&mut c, 0x8121);
    assert_eq!(c.v[1], 0b1110);
    assert_eq!(c.v[0xF], 0);
    c.v[1] = 0b1100;
    c.v[0xF] = 7;
    execute(&mut c, 0x8122);
    assert_eq!(c.v[1], 0b1000);
    assert_eq!(c.v[0xF], 0);
    c.v[1] = 0b1100;
    c.v[0xF] = 7;
    execute(&mut c, 0x8123);
    assert_eq!(c.v[1], 0b0110);
    assert_eq!(c.v[0xF], 0);
    c.v[1] = 3;
    execute(&mut c, 0x8120);
    assert_eq!(c.v[1], 0b1010);
}

#[test]
fn add_registers_sets_carry() {
    let mut c = start();
    c.v[0] = 0xFF;
    c.v[1] = 0x02;
    execute(&mut c, 0x8014);
    assert_eq!(c.v[0], 0x01);
    assert_eq!(c.v[0xF], 1);
    c.v[0] = 0x10;
    c.v[1] = 0x20;
    execute(&mut c, 0x8014);
    assert_eq!(c.v[0], 0x30);
    assert_eq!(c.v[0xF], 0);
}

#[test]
fn subtract_registers() {
    let mut c = start();
    c.v[0] = 5;
    c.v[1] = 3;
    execute(&mut c, 0x8015);
    assert_eq!(c.v[0], 2);
    assert_eq!(c.v[0xF], 1);
    c.v[0] = 4;
    c.v[1] = 4;
    execute(&mut c, 0x8015);
    assert_eq!(c.v[0], 0);
    assert_eq!(c.v[0xF], 0);
    c.v[0] = 3;
    c.v[1] = 5;
    execute(&mut c, 0x8017);
    assert_eq!(c.v[0], 2);
    assert_eq!(c.v[0xF], 1);
    c.v[0] = 0;
    c.v[1] = 5;
    execute(&mut c, 0x8017);
    assert_eq!(c.v[0], 5);
    assert_eq!(c.v[0xF], 1);
}

#[test]
fn subtract_registers_with_borrow_wraps() {
    let mut c = start();
    c.v[0] = 3;
    c.v[1] = 5;
    execute(&mut c, 0x8015);
    assert_eq!(c.v[0], 254);
    assert_eq!(c.v[0xF], 0);
    c.v[0] = 5;
    c.v[1] = 3;
    execute(&mut c, 0x8017);
    assert_eq!(c.v[0], 254);
    assert_eq!(c.v[0xF], 0);
}

#[test]
fn add_immediate_wraps_and_keeps_vf() {
    let mut c = start();
    c.v[0xC] = 0x3A;
    c.v[0xF] = 7;
    execute(&mut c, 0x7CFF);
    assert_eq!(c.v[0xC], 0x39);
    assert_eq!(c.v[0xF], 7);
}

#[test]
fn shifts_use_vx() {
    let mut c = start();
    c.v[2] = 0b1000_0011;
    c.v[3] = 0b0101_0101;
    execute(&mut c, 0x8236);
    assert_eq!(c.v[2], 0b0100_0001);
    assert_eq!(c.v[0xF], 1);
    execute(&mut c, 0x823E);
    assert_eq!(c.v[2], 0b1000_0010);
    assert_eq!(c.v[0xF], 0);
    execute(&mut c, 0x823E);
    assert_eq!(c.v[2], 0b0000_0100);
    assert_eq!(c.v[0xF], 1);
    assert_eq!(c.v[3], 0b0101_0101);
}

#[test]
fn conditional_skips() {
    let mut c = start();
    c.v[4] = 0x33;
    execute(&mut c, 0x3433);
    assert_eq!(c.pc, 0x204);
    execute(&mut c, 0x3434);
    assert_eq!(c.pc, 0x206);
    execute(&mut c, 0x4434);
    assert_eq!(c.pc, 0x20A);
    execute(&mut c, 0x4433);
    assert_eq!(c.pc, 0x20C);
    c.v[5] = 0x33;
    execute(&mut c, 0x5450);
    assert_eq!(c.pc, 0x210);
    execute(&mut c, 0x9450);
    assert_eq!(c.pc, 0x212);
    c.v[5] = 1;
    execute(&mut c, 0x9450);
    assert_eq!(c.pc, 0x216);
}

#[test]
fn next_stops_near_end_of_memory() {
    let mut c = start();
    c.pc = 4086;
    execute(&mut c, 0x6000);
    assert_eq!(c.pc, 4088);
    execute(&mut c, 0x6000);
    assert_eq!(c.pc, 4088);
}

#[test]
fn jumps() {
    let mut c = start();
    execute(&mut c, 0x1ABC);
    assert_eq!(c.pc, 0xABC);
    c.v[0] = 0x10;
    execute(&mut c, 0xB300);
    assert_eq!(c.pc, 0x310);
}

#[test]
fn call_then_return_comes_back_after_call() {
    let mut c = running(&[0x22, 0x06, 0x00, 0x00, 0x00, 0x00, 0x00, 0xEE]);
    decode(&mut c);
    assert_eq!(c.pc, 0x206);
    assert_eq!(c.sp, 1);
    assert_eq!(c.stack[1], 0x200);
    decode(&mut c);
    assert_eq!(c.pc, 0x202);
    assert_eq!(c.sp, 0);
}

#[test]
fn index_register_ops() {
    let mut c = start();
    execute(&mut c, 0xA123);
    assert_eq!(c.i, 0x123);
    c.v[7] = 0x10;
    execute(&mut c, 0xF71E);
    assert_eq!(c.i, 0x133);
    c.v[7] = 0xA;
    execute(&mut c, 0xF729);
    assert_eq!(c.i, 50);
    assert_eq!(&c.mem[50..55], &[0xF0, 0x90, 0xF0, 0x90, 0x90]);
}

#[test]
fn bcd_stores_decimal_digits() {
    let mut c = start();
    c.i = 0x300;
    c.v[2] = 234;
    execute(&mut c, 0xF233);
    assert_eq!(&c.mem[0x300..0x303], &[2, 3, 4]);
    c.v[2] = 7;
    execute(&mut c, 0xF233);
    assert_eq!(&c.mem[0x300..0x303], &[0, 0, 7]);
    assert_eq!(c.i, 0x300);
}

#[test]
fn store_registers_writes_v0_to_vx() {
    let mut c = start();
    c.i = 0x300;
    c.v[0] = 1;
    c.v[1] = 2;
    c.v[2] = 3;
    execute(&mut c, 0xF255);
    assert_eq!(&c.mem[0x300..0x304], &[1, 2, 3, 0]);
    assert_eq!(c.i, 0x303);
    assert_eq!(c.pc, 0x202);
}

#[test]
fn load_registers_reads_memory() {
    let mut c = start();
    c.i = 0x400;
    c.mem[0x400] = 9;
    c.mem[0x401] = 8;
    c.mem[0x402] = 7;
    c.v[3] = 55;
    execute(&mut c, 0xF265);
    assert_eq!(&c.v[0..4], &[9, 8, 7, 55]);
    assert_eq!(c.i, 0x403);
}

#[test]
fn timers_are_set_and_read() {
    let mut c = start();
    c.v[1] = 40;
    execute(&mut c, 0xF115);
    assert_eq!(c.dt, 40);
    execute(&mut c, 0xF118);
    assert_eq!(c.st, 40);
    c.dt = 12;
    execute(&mut c, 0xF207);
    assert_eq!(c.v[2], 12);
}

#[test]
fn draw_font_glyph_and_collide() {
    let mut c = start();
    c.i = 0;
    c.v[1] = 0;
    c.v[2] = 0;
    execute(&mut c, 0xD125);
    assert_eq!(c.v[0xF], 0);
    // glyph 0 is F0 90 90 90 F0
    for x in 0..4 {
        assert!(c.display[x][0]);
        assert!(c.display[x][4]);
    }
    assert!(c.display[0][1] && !c.display[1][1] && !c.display[2][1] && c.display[3][1]);
    assert!(!c.display[4][0]);
    assert!(!c.display[0][5]);
    execute(&mut c, 0xD125);
    assert_eq!(c.v[0xF], 1);
    assert!(c.display.iter().all(|col| col.iter().all(|&p| !p)));
}

#[test]
fn draw_wraps_around_screen_edges() {
    let mut c = start();
    c.i = 0x300;
    c.mem[0x300] = 0xFF;
    c.mem[0x301] = 0x80;
    c.v[1] = 60;
    c.v[2] = 31;
    execute(&mut c, 0xD122);
    for x in 60..64 {
        assert!(c.display[x][31]);
    }
    for x in 0..4 {
        assert!(c.display[x][31]);
    }
    assert!(c.display[60][0]);
    assert!(!c.display[61][0]);
    assert_eq!(c.v[0xF], 0);
}

#[test]
fn clear_screen() {
    let mut c = start();
    c.display[5][6] = true;
    execute(&mut c, 0x00E0);
    assert!(!c.display[5][6]);
    assert_eq!(c.pc, 0x202);
}

#[test]
fn key_skips() {
    let mut c = start();
    c.v[0] = 0xA;
    c.key[0xA] = true;
    execute(&mut c, 0xE09E);
    assert_eq!(c.pc, 0x204);
    execute(&mut c, 0xE0A1);
    assert_eq!(c.pc, 0x206);
    c.key[0xA] = false;
    execute(&mut c, 0xE0A1);
    assert_eq!(c.pc, 0x20A);
}

#[test]
fn wait_for_key_release() {
    let mut c = start();
    execute(&mut c, 0xF30A);
    assert_eq!(c.pc, 0x200);
    c.kp = 0x1B;
    c.ku = true;
    execute(&mut c, 0xF30A);
    assert_eq!(c.v[3], 0xB);
    assert_eq!(c.pc, 0x202);
    assert!(!c.ku);
}

#[test]
fn random_is_masked() {
    let mut c = start();
    c.v[4] = 0xEE;
    execute(&mut c, 0xC400);
    assert_eq!(c.v[4], 0);
    for _ in 0..20 {
        execute(&mut c, 0xC40F);
        assert!(c.v[4] <= 0x0F);
    }
}

#[test]
fn unknown_instruction_only_clears_key_flag() {
    let mut c = start();
    c.ku = true;
    execute(&mut c, 0x0123);
    assert_eq!(c.pc, 0x200);
    assert!(!c.ku);
    execute(&mut c, 0x8008);
    execute(&mut c, 0xE0FF);
    execute(&mut c, 0xF0FF);
    assert_eq!(c.pc, 0x200);
}

#[test]
fn try_cycle_completes_like_cycle() {
    let program = [0x60, 0x05, 0x70, 0x03];
    let mut a = running(&program);
    let mut b = running(&program);
    a.st = 5;
    b.st = 5;
    cycle(&mut a, 2);
    assert!(try_cycle(&mut b, 2));
    assert_eq!(a.v, b.v);
    assert_eq!(a.pc, b.pc);
    assert_eq!(a.st, 4);
    assert_eq!(b.st, 4);
}

#[test]
fn try_cycle_stops_before_reading_below_the_stack() {
    let mut c = running(&[0x00, 0xEE, 0x00, 0xEE]);
    c.stack[0] = 0x200;
    c.dt = 3;
    assert!(!try_cycle(&mut c, 4));
    assert_eq!(c.sp, 0xFFFF);
    assert_eq!(c.pc, 0x202);
    assert_eq!(c.dt, 3);
}

#[test]
fn try_cycle_lets_registers_wrap() {
    let mut c = running(&[0x60, 0xF0, 0x70, 0x20]);
    assert!(try_cycle(&mut c, 2));
    assert_eq!(c.v[0], 0x10);
    assert_eq!(c.pc, 0x204);
}

#[test]
fn try_cycle_stops_on_key_out_of_range_and_deep_calls() {
    let mut c = running(&[0x60, 0x10, 0xE0, 0x9E]);
    assert!(!try_cycle(&mut c, 2));
    assert_eq!(c.pc, 0x202);
    let mut d = running(&[0x22, 0x00]);
    assert!(!try_cycle(&mut d, 20));
    assert_eq!(d.sp, 15);
}

#[test]
fn try_cycle_when_stopped_is_a_no_op() {
    let mut c = start();
    assert!(try_cycle(&mut c, 10));
    assert_eq!(c.pc, 0x200);
}

#[test]
fn keyboard_updates_keys_and_release() {
    let mut c = start();
    let mut down = [false; 16];
    let mut released = [false; 16];
    down[0] = true; // key "1"
    down[14] = true; // key "C" -> 0x0
    update_keys(&mut c, &down, &released);
    assert!(c.key[0x1]);
    assert!(c.key[0x0]);
    assert!(!c.ku);
    down = [false; 16];
    released[0] = true;
    released[3] = true; // key "4" -> 0xC
    update_keys(&mut c, &down, &released);
    assert!(!c.key[0x1]);
    assert!(c.key[0x0]);
    assert!(c.ku);
    assert_eq!(c.kp, 0xC);
}

#[test]
fn render_scales_pixels() {
    let mut c = start();
    c.display[0][0] = true;
    c.display[63][31] = true;
    let mut buffer = vec![0u32; WIDTH * HEIGHT];
    render(&c, &mut buffer);
    assert_eq!(buffer[0], 0xFFFFFFFF);
    assert_eq!(buffer[9], 0xFFFFFFFF);
    assert_eq!(buffer[10], 0xFF000000);
    assert_eq!(buffer[9 * WIDTH + 9], 0xFFFFFFFF);
    assert_eq!(buffer[10 * WIDTH], 0xFF000000);
    assert_eq!(buffer[WIDTH * HEIGHT - 1], 0xFFFFFFFF);
    assert_eq!(buffer[WIDTH * HEIGHT - 11], 0xFF000000);
}

#[test]
fn reset_twice_is_reset_once() {
    let mut a = running(&[0x60, 0x05]);
    a.v[2] = 9;
    a.display[1][1] = true;
    a.kp = 3;
    a.reset();
    assert_eq!(a.v[2], 0);
    assert!(!a.display[1][1]);
    assert_eq!(a.kp, 3);
    assert!(a.state == STATE::RUNNING);
    assert_eq!(a.mem[0x200], 0);
    let before = (a.v, a.mem, a.pc, a.i, a.sp, a.kp);
    a.reset();
    assert_eq!(before, (a.v, a.mem, a.pc, a.i, a.sp, a.kp));
}

#[test]
fn instructions_keep_run_state_and_keys() {
    let mut c = running(&[0x60, 0x05, 0xF0, 0x15, 0x00, 0xE0]);
    c.key[4] = true;
    cycle(&mut c, 3);
    assert!(c.state == STATE::RUNNING);
    assert!(c.key[4]);
    assert_eq!(c.dt, 4);
}

#[test]
fn index_arithmetic_wraps() {
    let mut c = start();
    c.v[1] = 60;
    execute(&mut c, 0xF129);
    assert_eq!(c.i, 44);
    c.i = 0xFFF0;
    c.v[1] = 0x20;
    execute(&mut c, 0xF11E);
    assert_eq!(c.i, 0x10);
}

#[test]
fn wait_for_key_at_address_zero_stays_put() {
    let mut c = start();
    c.pc = 0;
    execute(&mut c, 0xF00A);
    assert_eq!(c.pc, 0);
}
