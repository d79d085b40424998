use chip8::emulator::{Emulator, Fault, RunState};
use chip8::input::map_key;

fn running(e: &Emulator) -> bool {
    matches!(e.state, RunState::Running)
}

fn paused(e: &Emulator) -> bool {
    matches!(e.state, RunState::Paused)
}

#[test]
fn new_machine_is_cleared() {
    let e = Emulator::new();
    assert!(matches!(e.state, RunState::NoROM));
    assert_eq!(e.pc, 0x200);
    assert_eq!(e.reg_i, 0);
    assert_eq!(e.mem.len(), 4096);
    assert!(e.mem.iter().all(|&b| b == 0));
    assert_eq!(e.regs.len(), 16);
    assert!(e.regs.iter().all(|&b| b == 0));
    assert_eq!(e.display.len(), 2048);
    assert!(e.display.iter().all(|&b| b == 0));
    assert!(e.stack.is_empty());
    assert_eq!(e.delay_timer, 0);
    assert_eq!(e.sound_timer, 0);
    assert_eq!(e.key, None);
    assert_eq!(e.cpf, 10);
    assert_eq!(e.max_fps, 60);
    assert!(!e.shift_swap);
    assert!(!e.complex_jump);
}

#[test]
fn load_font_places_glyph_table() {
    let mut e = Emulator::new();
    e.load_font();
    assert_eq!(e.mem[0x050], 0xF0);
    assert_eq!(e.mem[0x051], 0x90);
    assert_eq!(e.mem[0x09F], 0x80);
    assert_eq!(e.mem[0x04F], 0);
    assert_eq!(e.mem[0x0A0], 0);
}

#[test]
fn load_rom_copies_at_program_offset_and_runs() {
    let mut e = Emulator::new();
    let rom = vec![0x60, 0x05, 0x61, 0x03];
    assert_eq!(e.load_rom(&rom), Ok(()));
    assert!(running(&e));
    assert_eq!(e.mem[0x200], 0x60);
    assert_eq!(e.mem[0x203], 0x03);
    assert_eq!(e.mem[0x204], 0);
}

#[test]
fn load_rom_too_large_is_rejected_before_writing() {
    let mut e = Emulator::new();
    let rom = vec![0xAB; 3585];
    assert_eq!(e.load_rom(&rom), Err(Fault::ProgramTooLarge));
    assert!(matches!(e.state, RunState::NoROM));
    assert!(e.mem.iter().all(|&b| b == 0));
    let exact = vec![0xCD; 3584];
    assert_eq!(e.load_rom(&exact), Ok(()));
    assert_eq!(e.mem[4095], 0xCD);
}

#[test]
fn curr_inst_is_big_endian() {
    let mut e = Emulator::new();
    e.load_rom(&vec![0xA2, 0x34]).unwrap();
    assert_eq!(e.curr_inst(), 0xA234);
}

// Arithmetic: 8xy4 adds with carry in VF (1 exactly when the sum reaches 256).
#[test]
fn add_with_carry_sets_flag_on_overflow() {
    let mut e = Emulator::new();
    e.regs[1] = 200;
    e.regs[2] = 100;
    e.op_add(1, 2);
    assert_eq!(e.regs[1], 44); // (200 + 100) mod 256
    assert_eq!(e.regs[15], 1);
}

#[test]
fn add_without_overflow_clears_flag() {
    let mut e = Emulator::new();
    e.regs[1] = 3;
    e.regs[2] = 4;
    e.regs[15] = 1;
    e.op_add(1, 2);
    assert_eq!(e.regs[1], 7);
    assert_eq!(e.regs[15], 0);
}

// Arithmetic: 8xy5 subtracts; VF is 0 exactly on underflow (inverted polarity).
#[test]
fn sub_underflow_wraps_and_clears_flag() {
    let mut e = Emulator::new();
    e.regs[3] = 5;
    e.regs[4] = 10;
    e.op_sub(3, 4);
    assert_eq!(e.regs[3], 251); // (5 - 10) mod 256
    assert_eq!(e.regs[15], 0);
}

#[test]
fn sub_without_underflow_sets_flag() {
    let mut e = Emulator::new();
    e.regs[3] = 10;
    e.regs[4] = 5;
    e.op_sub(3, 4);
    assert_eq!(e.regs[3], 5);
    assert_eq!(e.regs[15], 1);
}

#[test]
fn rsub_underflow_keeps_destination_and_sets_flag() {
    let mut e = Emulator::new();
    e.regs[3] = 10;
    e.regs[4] = 5;
    e.op_rsub(3, 4); // V3 := V4 - V3 would underflow
    assert_eq!(e.regs[3], 10);
    assert_eq!(e.regs[15], 1);
}

#[test]
fn rsub_in_range_updates_and_clears_flag() {
    let mut e = Emulator::new();
    e.regs[3] = 5;
    e.regs[4] = 12;
    e.op_rsub(3, 4);
    assert_eq!(e.regs[3], 7);
    assert_eq!(e.regs[15], 0);
}

#[test]
fn add_reg_wraps_without_touching_flag() {
    let mut e = Emulator::new();
    e.regs[0] = 250;
    e.regs[15] = 1;
    e.op_add_reg(0, 10);
    assert_eq!(e.regs[0], 4);
    assert_eq!(e.regs[15], 1);
}

#[test]
fn shift_right_reports_low_bit() {
    let mut e = Emulator::new();
    e.regs[2] = 0b0000_0101;
    e.op_shift_r(2, 3, false);
    assert_eq!(e.regs[2], 0b0000_0010);
    assert_eq!(e.regs[15], 1);
}

#[test]
fn shift_right_with_swap_takes_source_register() {
    let mut e = Emulator::new();
    e.regs[2] = 0xFF;
    e.regs[3] = 0b0000_0100;
    e.op_shift_r(2, 3, true);
    assert_eq!(e.regs[2], 0b0000_0010);
    assert_eq!(e.regs[15], 0);
}

#[test]
fn shift_left_reports_high_bit() {
    let mut e = Emulator::new();
    e.regs[2] = 0b1000_0001;
    e.op_shift_l(2, 3, false);
    assert_eq!(e.regs[2], 0b0000_0010);
    assert_eq!(e.regs[15], 1);
}

#[test]
fn bitwise_ops() {
    let mut e = Emulator::new();
    e.regs[0] = 0b1100;
    e.regs[1] = 0b1010;
    e.op_or(0, 1);
    assert_eq!(e.regs[0], 0b1110);
    e.regs[0] = 0b1100;
    e.op_and(0, 1);
    assert_eq!(e.regs[0], 0b1000);
    e.regs[0] = 0b1100;
    e.op_xor(0, 1);
    assert_eq!(e.regs[0], 0b0110);
}

// Clear-screen followed by reading any pixel yields 0 at all 2048 positions.
#[test]
fn clear_screen_blanks_every_pixel() {
    let mut e = Emulator::new();
    e.load_font();
    e.reg_i = 0x050;
    e.regs[0] = 0;
    e.regs[1] = 0;
    assert_eq!(e.op_display(0, 1, 5), Ok(()));
    assert!(e.display.iter().any(|&b| b == 1));
    e.op_clear_screen();
    for x in 0..64 {
        for y in 0..32 {
            assert_eq!(e.pixel(x, y), 0);
        }
    }
}

// Drawing the same sprite twice at the same position restores the
// framebuffer; VF reflects the second draw's collisions.
#[test]
fn draw_twice_restores_framebuffer() {
    let mut e = Emulator::new();
    e.load_font();
    e.reg_i = 0x055; // glyph "1"
    e.regs[0] = 13;
    e.regs[1] = 9;
    assert_eq!(e.op_display(0, 1, 5), Ok(()));
    assert_eq!(e.regs[15], 0);
    let after_first = e.display.clone();
    assert!(after_first.iter().any(|&b| b == 1));
    assert_eq!(e.op_display(0, 1, 5), Ok(()));
    // every pixel the second draw flipped was on, so it collided
    assert_eq!(e.regs[15], 1);
    assert!(e.display.iter().all(|&b| b == 0));
}

#[test]
fn draw_reports_collision_only_when_pixels_turn_off() {
    let mut e = Emulator::new();
    e.mem[0x300] = 0b1000_0000;
    e.reg_i = 0x300;
    e.regs[0] = 4;
    e.regs[1] = 4;
    assert_eq!(e.op_display(0, 1, 1), Ok(()));
    assert_eq!(e.regs[15], 0);
    assert_eq!(e.pixel(4, 4), 1);
    // a second sprite overlapping the lit pixel collides
    assert_eq!(e.op_display(0, 1, 1), Ok(()));
    assert_eq!(e.regs[15], 1);
    assert_eq!(e.pixel(4, 4), 0);
}

// A draw reaching past the bottom edge clips; it neither changes rows
// beyond the boundary nor wraps to row 0.
#[test]
fn draw_clips_at_bottom_edge_without_wrapping() {
    let mut e = Emulator::new();
    for r in 0..5 {
        e.mem[0x300 + r] = 0xFF;
    }
    e.reg_i = 0x300;
    e.regs[0] = 0;
    e.regs[1] = 30; // rows 30, 31 drawn; rows 32.. clipped
    assert_eq!(e.op_display(0, 1, 5), Ok(()));
    for x in 0..8 {
        assert_eq!(e.pixel(x, 30), 1);
        assert_eq!(e.pixel(x, 31), 1);
        assert_eq!(e.pixel(x, 0), 0);
        assert_eq!(e.pixel(x, 1), 0);
        assert_eq!(e.pixel(x, 2), 0);
    }
}

#[test]
fn draw_clips_at_right_edge_without_wrapping() {
    let mut e = Emulator::new();
    e.mem[0x300] = 0xFF;
    e.reg_i = 0x300;
    e.regs[0] = 60;
    e.regs[1] = 0;
    assert_eq!(e.op_display(0, 1, 1), Ok(()));
    for x in 60..64 {
        assert_eq!(e.pixel(x, 0), 1);
    }
    for x in 0..4 {
        assert_eq!(e.pixel(x, 0), 0);
    }
}

#[test]
fn draw_start_position_wraps() {
    let mut e = Emulator::new();
    e.mem[0x300] = 0b1000_0000;
    e.reg_i = 0x300;
    e.regs[0] = 64; // wraps to column 0
    e.regs[1] = 33; // wraps to row 1
    assert_eq!(e.op_display(0, 1, 1), Ok(()));
    assert_eq!(e.pixel(0, 1), 1);
}

#[test]
fn draw_with_out_of_range_sprite_address_faults_atomically() {
    let mut e = Emulator::new();
    e.reg_i = 4090;
    e.regs[0] = 0;
    e.regs[1] = 0;
    e.regs[15] = 1;
    assert_eq!(e.op_display(0, 1, 15), Err(Fault::AddressOutOfRange));
    assert!(e.display.iter().all(|&b| b == 0));
    assert_eq!(e.regs[15], 1);
}

// Scenario: V0:=5; V1:=3; V0:=V0+V1 over 3 cycles yields V0=8, VF=0.
#[test]
fn three_instruction_program_adds_registers() {
    let mut e = Emulator::new();
    e.load_rom(&vec![0x60, 0x05, 0x61, 0x03, 0x80, 0x14]).unwrap();
    e.cpf = 3;
    assert_eq!(e.step(), None);
    assert_eq!(e.regs[0], 8);
    assert_eq!(e.regs[1], 3);
    assert_eq!(e.regs[15], 0);
    assert_eq!(e.frame_count, 1);
}

// Scenario: a return with an empty call stack raises stack-underflow.
#[test]
fn return_with_empty_stack_underflows() {
    let mut e = Emulator::new();
    e.load_rom(&vec![0x00, 0xEE]).unwrap();
    e.cpf = 1;
    assert_eq!(e.step(), Some(Fault::StackUnderflow));
    assert!(paused(&e));
}

// Scenario: the blocking key wait with no key pressed leaves the program
// counter in place after a cycle and consumes only the frame's single
// timer decrement.
#[test]
fn key_wait_without_key_holds_program_counter() {
    let mut e = Emulator::new();
    e.load_rom(&vec![0xF0, 0x0A]).unwrap();
    e.delay_timer = 5;
    e.sound_timer = 2;
    e.cpf = 3;
    assert_eq!(e.step(), None);
    assert_eq!(e.pc, 0x200);
    assert_eq!(e.delay_timer, 4);
    assert_eq!(e.sound_timer, 1);
}

#[test]
fn key_wait_with_key_stores_it() {
    let mut e = Emulator::new();
    e.load_rom(&vec![0xF3, 0x0A]).unwrap();
    e.key = Some(0xB);
    e.cpf = 1;
    assert_eq!(e.step(), None);
    assert_eq!(e.regs[3], 0xB);
    assert_eq!(e.pc, 0x202);
}

// Resetting twice in a row produces the state one reset produces.
#[test]
fn reset_is_idempotent() {
    let mut e = Emulator::new();
    e.load_font();
    e.load_rom(&vec![0x60, 0x09, 0xD0, 0x05]).unwrap();
    e.cpf = 7;
    e.shift_swap = true;
    e.delay_timer = 3;
    e.key = Some(2);
    e.step();
    e.reset();
    let mem1 = e.mem.clone();
    let regs1 = e.regs.clone();
    let disp1 = e.display.clone();
    let (pc1, ri1, fc1, dt1, st1, key1) = (
        e.pc,
        e.reg_i,
        e.frame_count,
        e.delay_timer,
        e.sound_timer,
        e.key,
    );
    let depth1 = e.stack.len();
    e.reset();
    assert_eq!(e.mem, mem1);
    assert_eq!(e.regs, regs1);
    assert_eq!(e.display, disp1);
    assert_eq!(e.pc, pc1);
    assert_eq!(e.reg_i, ri1);
    assert_eq!(e.frame_count, fc1);
    assert_eq!(e.delay_timer, dt1);
    assert_eq!(e.sound_timer, st1);
    assert_eq!(e.key, key1);
    assert_eq!(e.stack.len(), depth1);
    assert!(matches!(e.state, RunState::NoROM));
    // configuration survives both resets
    assert_eq!(e.cpf, 7);
    assert!(e.shift_swap);
}

#[test]
fn skip_opcodes_take_or_leave_the_branch() {
    let mut e = Emulator::new();
    e.regs[1] = 7;
    e.op_eq_skip(1, 7);
    assert_eq!(e.pc, 0x202);
    e.op_eq_skip(1, 8);
    assert_eq!(e.pc, 0x202);
    e.op_neq_skip(1, 8);
    assert_eq!(e.pc, 0x204);
    e.regs[2] = 7;
    e.op_req_skip(1, 2);
    assert_eq!(e.pc, 0x206);
    e.op_rneq_skip(1, 2);
    assert_eq!(e.pc, 0x206);
}

#[test]
fn subroutine_call_and_return_roundtrip() {
    let mut e = Emulator::new();
    // 0x200: call 0x208; 0x208: return
    let mut rom = vec![0x22, 0x08];
    rom.extend_from_slice(&[0x00; 6]);
    rom.extend_from_slice(&[0x00, 0xEE]);
    e.load_rom(&rom).unwrap();
    e.cpf = 1;
    assert_eq!(e.step(), None);
    assert_eq!(e.pc, 0x208);
    assert_eq!(e.stack.len(), 1);
    assert_eq!(e.stack[0], 0x202);
    assert_eq!(e.step(), None);
    assert_eq!(e.pc, 0x202);
    assert!(e.stack.is_empty());
}

#[test]
fn jump_and_offset_jumps() {
    let mut e = Emulator::new();
    e.op_jump(0x345);
    assert_eq!(e.pc, 0x345);
    e.regs[0] = 4;
    e.op_jump_off(0x300);
    assert_eq!(e.pc, 0x304);
    e.regs[7] = 9;
    e.op_jump_coff(0x300, 7);
    assert_eq!(e.pc, 0x309);
}

#[test]
fn complex_jump_option_selects_register_from_instruction() {
    let mut e = Emulator::new();
    e.load_rom(&vec![0xB2, 0x50]).unwrap();
    e.cpf = 1;
    e.complex_jump = true;
    e.regs[2] = 6;
    e.regs[0] = 1;
    e.step();
    assert_eq!(e.pc, 0x256);

    let mut p = Emulator::new();
    p.load_rom(&vec![0xB2, 0x50]).unwrap();
    p.cpf = 1;
    p.regs[2] = 6;
    p.regs[0] = 1;
    p.step();
    assert_eq!(p.pc, 0x251);
}

#[test]
fn random_byte_is_masked() {
    for _ in 0..16 {
        let mut e = Emulator::new();
        e.regs[1] = 0xFF;
        e.op_rng(1, 0x0F);
        assert_eq!(e.regs[1] & 0xF0, 0);
        let mut z = Emulator::new();
        z.regs[1] = 0xFF;
        z.op_rng(1, 0x00);
        assert_eq!(z.regs[1], 0);
    }
}

#[test]
fn key_skips_follow_the_latch() {
    let mut e = Emulator::new();
    e.regs[4] = 0xA;
    e.key = Some(0xA);
    e.op_key_skip(4);
    assert_eq!(e.pc, 0x202);
    e.key = Some(0x1);
    e.op_key_skip(4);
    assert_eq!(e.pc, 0x202);
    e.key = None;
    e.op_key_skip(4);
    assert_eq!(e.pc, 0x202);
    // the negated skip also fires when no key is pressed
    e.op_nkey_skip(4);
    assert_eq!(e.pc, 0x204);
    e.key = Some(0xA);
    e.op_nkey_skip(4);
    assert_eq!(e.pc, 0x204);
    e.key = Some(0x3);
    e.op_nkey_skip(4);
    assert_eq!(e.pc, 0x206);
}

#[test]
fn timers_move_through_registers() {
    let mut e = Emulator::new();
    e.regs[5] = 42;
    e.op_set_dtimer(5);
    assert_eq!(e.delay_timer, 42);
    e.op_set_stimer(5);
    assert_eq!(e.sound_timer, 42);
    e.op_check_timer(6);
    assert_eq!(e.regs[6], 42);
}

#[test]
fn step_decrements_timers_once_and_floors_at_zero() {
    let mut e = Emulator::new();
    e.load_rom(&vec![0x00, 0xE0, 0x00, 0xE0, 0x00, 0xE0]).unwrap();
    e.cpf = 3;
    e.delay_timer = 1;
    e.sound_timer = 0;
    assert_eq!(e.step(), None);
    assert_eq!(e.delay_timer, 0);
    assert_eq!(e.sound_timer, 0);
    assert_eq!(e.frame_count, 1);
}

#[test]
fn add_ireg_flags_only_beyond_threshold() {
    let mut e = Emulator::new();
    e.reg_i = 0x0FFF;
    e.regs[0] = 2;
    e.op_add_ireg(0);
    assert_eq!(e.reg_i, 0x1001);
    assert_eq!(e.regs[15], 1);

    let mut p = Emulator::new();
    p.reg_i = 0x10;
    p.regs[0] = 2;
    p.regs[15] = 1; // the flag is not reset when no overflow occurs
    p.op_add_ireg(0);
    assert_eq!(p.reg_i, 0x12);
    assert_eq!(p.regs[15], 1);
}

#[test]
fn font_char_points_into_glyph_table() {
    let mut e = Emulator::new();
    e.regs[2] = 0xAB; // low nibble B selects glyph 11
    e.op_font_char(2);
    assert_eq!(e.reg_i, 0x050 + 11 * 5);
}

#[test]
fn decimals_store_three_digits() {
    let mut e = Emulator::new();
    e.regs[0] = 234;
    e.reg_i = 0x300;
    assert_eq!(e.op_decimals(0), Ok(()));
    assert_eq!(e.mem[0x300], 2);
    assert_eq!(e.mem[0x301], 3);
    assert_eq!(e.mem[0x302], 4);
}

#[test]
fn decimals_out_of_range_faults() {
    let mut e = Emulator::new();
    e.regs[0] = 7;
    e.reg_i = 4094;
    assert_eq!(e.op_decimals(0), Err(Fault::AddressOutOfRange));
    assert_eq!(e.mem[4094], 0);
    assert_eq!(e.mem[4095], 0);
}

#[test]
fn store_and_load_registers_roundtrip() {
    let mut e = Emulator::new();
    for k in 0..16 {
        e.regs[k] = (k as u8) * 3 + 1;
    }
    e.reg_i = 0x400;
    assert_eq!(e.op_store(4), Ok(()));
    for k in 0..5 {
        assert_eq!(e.mem[0x400 + k], (k as u8) * 3 + 1);
    }
    assert_eq!(e.mem[0x405], 0); // V5 and beyond were not stored
    let mut p = Emulator::new();
    p.mem[..].copy_from_slice(&e.mem);
    p.reg_i = 0x400;
    assert_eq!(p.op_load(4), Ok(()));
    for k in 0..5 {
        assert_eq!(p.regs[k], (k as u8) * 3 + 1);
    }
    assert_eq!(p.regs[5], 0);
}

#[test]
fn store_out_of_range_faults_atomically() {
    let mut e = Emulator::new();
    e.regs[0] = 9;
    e.reg_i = 4090;
    assert_eq!(e.op_store(10), Err(Fault::AddressOutOfRange));
    assert!(e.mem.iter().all(|&b| b == 0));
    assert_eq!(e.op_load(10), Err(Fault::AddressOutOfRange));
}

#[test]
fn fetch_outside_memory_faults_and_pauses() {
    let mut e = Emulator::new();
    e.pc = 4095;
    assert_eq!(e.internal_step(), Err(Fault::AddressOutOfRange));
    assert!(paused(&e));
}

#[test]
fn unimplemented_instruction_is_reported_and_skipped() {
    let mut e = Emulator::new();
    e.load_rom(&vec![0x80, 0x1F, 0x60, 0x07]).unwrap();
    e.cpf = 2;
    assert_eq!(e.step(), None);
    assert_eq!(e.last_unimplemented, Some(0x801F));
    assert!(running(&e));
    // execution continued past it
    assert_eq!(e.regs[0], 7);
    assert_eq!(e.pc, 0x204);
}

#[test]
fn machine_code_routine_call_is_reported_as_unimplemented() {
    let mut e = Emulator::new();
    e.load_rom(&vec![0x01, 0x23]).unwrap();
    e.cpf = 1;
    assert_eq!(e.step(), None);
    assert_eq!(e.last_unimplemented, Some(0x0123));
    assert_eq!(e.pc, 0x202);
}

#[test]
fn pause_and_resume_toggle_state() {
    let mut e = Emulator::new();
    e.pause();
    assert!(paused(&e));
    e.resume();
    assert!(running(&e));
}

#[test]
fn fault_stops_remaining_cycles_of_the_frame() {
    let mut e = Emulator::new();
    // return underflows on the first cycle; the next instruction must not run
    e.load_rom(&vec![0x00, 0xEE, 0x60, 0x09]).unwrap();
    e.cpf = 2;
    assert_eq!(e.step(), Some(Fault::StackUnderflow));
    assert_eq!(e.regs[0], 0);
    assert!(paused(&e));
    assert_eq!(e.frame_count, 1);
}

#[test]
fn register_opcodes_set_and_copy() {
    let mut e = Emulator::new();
    e.op_set_reg(9, 0x5C);
    assert_eq!(e.regs[9], 0x5C);
    e.op_set(10, 9);
    assert_eq!(e.regs[10], 0x5C);
    e.op_set_ireg(0xABC);
    assert_eq!(e.reg_i, 0xABC);
}

#[test]
fn map_key_follows_the_pad_layout() {
    assert_eq!(map_key(0x2), Some(0x1));
    assert_eq!(map_key(0x5), Some(0xC));
    assert_eq!(map_key(0x11), Some(0x5));
    assert_eq!(map_key(0x2D), Some(0x0));
    assert_eq!(map_key(0x3F), Some(0xF));
    assert_eq!(map_key(0x1), None);
    assert_eq!(map_key(0x999), None);
}

#[test]
fn draw_of_zero_rows_changes_nothing_but_clears_flag() {
    let mut e = Emulator::new();
    e.mem[0x300] = 0xFF;
    e.reg_i = 0x300;
    e.regs[0] = 3;
    e.regs[1] = 3;
    e.regs[15] = 1;
    assert_eq!(e.op_display(0, 1, 0), Ok(()));
    assert!(e.display.iter().all(|&b| b == 0));
    assert_eq!(e.regs[15], 0);
}

#[test]
fn add_ireg_saturates_at_the_top_of_its_range() {
    let mut e = Emulator::new();
    e.reg_i = 0xFFFF;
    e.regs[0] = 255;
    e.op_add_ireg(0);
    assert_eq!(e.reg_i, 0xFFFF);
    assert_eq!(e.regs[15], 1);
}
