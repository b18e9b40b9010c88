//! Single-instruction behavior, driven through `execute` and `step_with`.

use chip8::decode::Instruction;
use chip8::machine::Chip8;
use chip8::mem::MemoryError;
use chip8::state::{StackFault, StepOutcome};

fn fresh() -> Chip8 {
    Chip8::new()
}

#[test]
fn new_machine_has_font_and_start_address() {
    let m = fresh();
    assert_eq!(m.pc, 0x200);
    assert_eq!(m.index, 0);
    assert_eq!(m.sp, 0);
    assert_eq!(m.bus.read(0).unwrap(), 0xF0);
    assert_eq!(m.bus.read(79).unwrap(), 0x80);
    assert_eq!(m.bus.read(80).unwrap(), 0x00);
    assert!(m.framebuffer().iter().all(|c| !c));
    assert!(!m.should_render());
}

#[test]
fn add_sets_carry_exactly_when_sum_overflows() {
    let mut m = fresh();
    m.regs[1] = 200;
    m.regs[2] = 100;
    m.execute(Instruction::Add { x: 1, y: 2 }, 0);
    assert_eq!(m.regs[1], 44);
    assert_eq!(m.regs[15], 1);

    let mut m = fresh();
    m.regs[1] = 100;
    m.regs[2] = 155;
    m.regs[15] = 7;
    m.execute(Instruction::Add { x: 1, y: 2 }, 0);
    assert_eq!(m.regs[1], 255);
    assert_eq!(m.regs[15], 0);
}

#[test]
fn sub_flag_is_one_exactly_when_minuend_strictly_larger() {
    let mut m = fresh();
    m.regs[1] = 9;
    m.regs[2] = 5;
    m.execute(Instruction::Sub { x: 1, y: 2 }, 0);
    assert_eq!(m.regs[1], 4);
    assert_eq!(m.regs[15], 1);

    let mut m = fresh();
    m.regs[1] = 5;
    m.regs[2] = 5;
    m.execute(Instruction::Sub { x: 1, y: 2 }, 0);
    assert_eq!(m.regs[1], 0);
    assert_eq!(m.regs[15], 0);

    let mut m = fresh();
    m.regs[1] = 5;
    m.regs[2] = 9;
    m.execute(Instruction::Sub { x: 1, y: 2 }, 0);
    assert_eq!(m.regs[1], 252);
    assert_eq!(m.regs[15], 0);
}

#[test]
fn subrev_flag_is_one_exactly_when_source_strictly_larger() {
    let mut m = fresh();
    m.regs[1] = 5;
    m.regs[2] = 9;
    m.execute(Instruction::SubRev { x: 1, y: 2 }, 0);
    assert_eq!(m.regs[1], 4);
    assert_eq!(m.regs[15], 1);

    let mut m = fresh();
    m.regs[1] = 5;
    m.regs[2] = 5;
    m.execute(Instruction::SubRev { x: 1, y: 2 }, 0);
    assert_eq!(m.regs[1], 0);
    assert_eq!(m.regs[15], 0);

    let mut m = fresh();
    m.regs[1] = 9;
    m.regs[2] = 5;
    m.execute(Instruction::SubRev { x: 1, y: 2 }, 0);
    assert_eq!(m.regs[1], 252);
    assert_eq!(m.regs[15], 0);
}

#[test]
fn add_immediate_wraps_without_touching_flag() {
    let mut m = fresh();
    m.regs[3] = 250;
    m.regs[15] = 9;
    m.execute(Instruction::AddImm { x: 3, kk: 10 }, 0);
    assert_eq!(m.regs[3], 4);
    assert_eq!(m.regs[15], 9);
}

#[test]
fn shifts_report_the_dropped_bit() {
    let mut m = fresh();
    m.regs[4] = 0b0000_0101;
    m.execute(Instruction::Shr { x: 4 }, 0);
    assert_eq!(m.regs[4], 2);
    assert_eq!(m.regs[15], 1);

    let mut m = fresh();
    m.regs[4] = 0x81;
    m.execute(Instruction::Shl { x: 4 }, 0);
    assert_eq!(m.regs[4], 0x02);
    assert_eq!(m.regs[15], 1);

    let mut m = fresh();
    m.regs[4] = 0x40;
    m.execute(Instruction::Shl { x: 4 }, 0);
    assert_eq!(m.regs[4], 0x80);
    assert_eq!(m.regs[15], 0);
}

#[test]
fn bitwise_and_copy_forms() {
    let mut m = fresh();
    m.regs[1] = 0b1100;
    m.regs[2] = 0b1010;
    m.execute(Instruction::Or { x: 1, y: 2 }, 0);
    assert_eq!(m.regs[1], 0b1110);
    m.regs[1] = 0b1100;
    m.execute(Instruction::And { x: 1, y: 2 }, 0);
    assert_eq!(m.regs[1], 0b1000);
    m.regs[1] = 0b1100;
    m.execute(Instruction::Xor { x: 1, y: 2 }, 0);
    assert_eq!(m.regs[1], 0b0110);
    m.execute(Instruction::Copy { x: 1, y: 2 }, 0);
    assert_eq!(m.regs[1], 0b1010);
    m.execute(Instruction::SetImm { x: 1, kk: 0x77 }, 0);
    assert_eq!(m.regs[1], 0x77);
}

#[test]
fn skips_advance_four_when_taken_and_two_otherwise() {
    let mut m = fresh();
    m.regs[1] = 7;
    m.execute(Instruction::SkipEqImm { x: 1, kk: 7 }, 0);
    assert_eq!(m.pc, 0x204);
    m.execute(Instruction::SkipEqImm { x: 1, kk: 8 }, 0);
    assert_eq!(m.pc, 0x206);
    m.execute(Instruction::SkipNeImm { x: 1, kk: 8 }, 0);
    assert_eq!(m.pc, 0x20A);
    m.regs[2] = 7;
    m.execute(Instruction::SkipEqReg { x: 1, y: 2 }, 0);
    assert_eq!(m.pc, 0x20E);
    m.execute(Instruction::SkipNeReg { x: 1, y: 2 }, 0);
    assert_eq!(m.pc, 0x210);
}

#[test]
fn key_skips_read_the_latch() {
    let mut m = fresh();
    m.regs[1] = 5;
    m.set_key(5, true);
    m.execute(Instruction::SkipKey { x: 1 }, 0);
    assert_eq!(m.pc, 0x204);
    m.execute(Instruction::SkipNoKey { x: 1 }, 0);
    assert_eq!(m.pc, 0x206);
    m.set_key(5, false);
    m.execute(Instruction::SkipNoKey { x: 1 }, 0);
    assert_eq!(m.pc, 0x20A);
    // A register value that names no key reads as released.
    m.regs[1] = 200;
    m.execute(Instruction::SkipKey { x: 1 }, 0);
    assert_eq!(m.pc, 0x20C);
}

#[test]
fn jumps_do_not_auto_advance() {
    let mut m = fresh();
    m.execute(Instruction::Jump { nnn: 0x400 }, 0);
    assert_eq!(m.pc, 0x400);
    m.regs[0] = 0x10;
    m.execute(Instruction::JumpPlus { nnn: 0x300 }, 0);
    assert_eq!(m.pc, 0x310);
}

#[test]
fn call_pushes_and_return_resumes_after_the_call() {
    let mut m = fresh();
    m.execute(Instruction::Call { nnn: 0x400 }, 0);
    assert_eq!(m.pc, 0x400);
    assert_eq!(m.sp, 1);
    assert_eq!(m.stack[0], 0x200);
    let out = m.execute(Instruction::Ret, 0);
    assert_eq!(out, StepOutcome::Ran { redraw: false });
    assert_eq!(m.pc, 0x202);
    assert_eq!(m.sp, 0);
}

#[test]
fn nested_calls_then_returns_restore_the_stream_position() {
    let mut m = fresh();
    m.execute(Instruction::Call { nnn: 0x300 }, 0);
    m.execute(Instruction::Call { nnn: 0x400 }, 0);
    m.execute(Instruction::Call { nnn: 0x500 }, 0);
    assert_eq!(m.sp, 3);
    m.execute(Instruction::Ret, 0);
    assert_eq!(m.pc, 0x402);
    m.execute(Instruction::Ret, 0);
    assert_eq!(m.pc, 0x302);
    m.execute(Instruction::Ret, 0);
    assert_eq!(m.pc, 0x202);
    assert_eq!(m.sp, 0);
}

#[test]
fn return_on_empty_stack_is_a_distinct_fault() {
    let mut m = fresh();
    let out = m.execute(Instruction::Ret, 0);
    assert_eq!(out, StepOutcome::StackError { fault: StackFault::Underflow });
    assert_eq!(m.pc, 0x200);
    assert_eq!(m.sp, 0);
}

#[test]
fn seventeenth_call_overflows_the_stack() {
    let mut m = fresh();
    for _ in 0..16 {
        let out = m.execute(Instruction::Call { nnn: 0x300 }, 0);
        assert_eq!(out, StepOutcome::Ran { redraw: false });
    }
    assert_eq!(m.sp, 16);
    let out = m.execute(Instruction::Call { nnn: 0x300 }, 0);
    assert_eq!(out, StepOutcome::StackError { fault: StackFault::Overflow });
    assert_eq!(m.sp, 16);
    assert_eq!(m.pc, 0x300);
}

#[test]
fn timer_and_index_forms() {
    let mut m = fresh();
    m.regs[1] = 42;
    m.execute(Instruction::SetDelay { x: 1 }, 0);
    assert_eq!(m.delay_timer, 42);
    m.execute(Instruction::SetSound { x: 1 }, 0);
    assert_eq!(m.sound_timer, 42);
    m.delay_timer = 9;
    m.execute(Instruction::ReadDelay { x: 2 }, 0);
    assert_eq!(m.regs[2], 9);
    m.execute(Instruction::SetIndex { nnn: 0x300 }, 0);
    assert_eq!(m.index, 0x300);
    m.regs[3] = 0x10;
    m.execute(Instruction::AddIndex { x: 3 }, 0);
    assert_eq!(m.index, 0x310);
    m.regs[4] = 0xA;
    m.execute(Instruction::FontIndex { x: 4 }, 0);
    assert_eq!(m.index, 50);
}

#[test]
fn random_masks_the_supplied_byte() {
    let mut m = fresh();
    m.execute(Instruction::Random { x: 1, kk: 0x0F }, 0xAB);
    assert_eq!(m.regs[1], 0x0B);
    m.execute(Instruction::Random { x: 1, kk: 0x00 }, 0xFF);
    assert_eq!(m.regs[1], 0x00);
}

#[test]
fn bcd_writes_hundreds_tens_ones() {
    let mut m = fresh();
    m.regs[2] = 123;
    m.index = 0x300;
    m.execute(Instruction::StoreBcd { x: 2 }, 0);
    assert_eq!(m.bus.read(0x300).unwrap(), 1);
    assert_eq!(m.bus.read(0x301).unwrap(), 2);
    assert_eq!(m.bus.read(0x302).unwrap(), 3);

    m.regs[2] = 7;
    m.execute(Instruction::StoreBcd { x: 2 }, 0);
    assert_eq!(m.bus.read(0x300).unwrap(), 0);
    assert_eq!(m.bus.read(0x301).unwrap(), 0);
    assert_eq!(m.bus.read(0x302).unwrap(), 7);
}

#[test]
fn store_then_load_round_trips_registers() {
    let mut m = fresh();
    for k in 0..6usize {
        m.regs[k] = (k as u8) * 11 + 1;
    }
    m.index = 0x300;
    m.execute(Instruction::StoreRegs { x: 5 }, 0);
    for k in 0..6usize {
        assert_eq!(m.bus.read(0x300 + k).unwrap(), (k as u8) * 11 + 1);
    }
    for k in 0..6usize {
        m.regs[k] = 0xEE;
    }
    m.execute(Instruction::LoadRegs { x: 5 }, 0);
    for k in 0..6usize {
        assert_eq!(m.regs[k], (k as u8) * 11 + 1);
    }
    // Registers above x are untouched by the load.
    assert_eq!(m.regs[6], 0);
}

#[test]
fn store_near_the_end_of_memory_is_clamped() {
    let mut m = fresh();
    m.regs[0] = 0xAA;
    m.regs[1] = 0xBB;
    m.regs[2] = 0xCC;
    m.index = 0xFFE;
    m.execute(Instruction::StoreRegs { x: 2 }, 0);
    assert_eq!(m.bus.read(0xFFE).unwrap(), 0xAA);
    assert_eq!(m.bus.read(0xFFF).unwrap(), 0xBB);
    // The third byte had nowhere to go; the registers are what the load
    // leaves alone for the dropped cell.
    m.regs[0] = 0;
    m.regs[1] = 0;
    m.regs[2] = 0x11;
    m.execute(Instruction::LoadRegs { x: 2 }, 0);
    assert_eq!(m.regs[0], 0xAA);
    assert_eq!(m.regs[1], 0xBB);
    assert_eq!(m.regs[2], 0x11);
}

#[test]
fn load_program_rejects_an_oversized_program() {
    let mut m = fresh();
    let big = vec![0u8; 4096 - 0x200 + 1];
    assert_eq!(m.load_program(&big), Err(MemoryError::OutOfRange));
    assert_eq!(m.bus.read(0x200).unwrap(), 0);

    let fits = vec![0x55u8; 4096 - 0x200];
    assert_eq!(m.load_program(&fits), Ok(()));
    assert_eq!(m.bus.read(0x200).unwrap(), 0x55);
    assert_eq!(m.bus.read(0xFFF).unwrap(), 0x55);
    // The font region below 0x200 is untouched.
    assert_eq!(m.bus.read(0).unwrap(), 0xF0);
}

#[test]
fn bus_rejects_out_of_range_access() {
    let mut m = fresh();
    assert_eq!(m.bus.read(4096), Err(MemoryError::OutOfRange));
    assert_eq!(m.bus.write(4096, 1), Err(MemoryError::OutOfRange));
    assert_eq!(m.bus.write(4095, 9), Ok(()));
    assert_eq!(m.bus.read(4095), Ok(9));
}

#[test]
fn fetch_past_the_end_of_memory_is_reported() {
    let mut m = fresh();
    m.pc = 4095;
    let out = m.step_with(0);
    assert_eq!(out, StepOutcome::FetchOutOfRange);
    assert_eq!(m.pc, 4095);
}

#[test]
fn unknown_word_reports_and_advances() {
    let mut m = fresh();
    let prog = vec![0x00, 0x10];
    m.load_program(&prog).unwrap();
    m.delay_timer = 3;
    let out = m.step_with(0);
    assert_eq!(out, StepOutcome::DecodeError { word: 0x0010 });
    assert_eq!(m.pc, 0x202);
    assert_eq!(m.delay_timer, 2);
}

#[test]
fn flag_register_as_operand_follows_the_written_order() {
    // The sum lands in reg[x] first, then the carry overwrites the flag:
    // with x the flag register itself, the carry wins.
    let mut m = fresh();
    m.regs[15] = 200;
    m.execute(Instruction::Add { x: 15, y: 15 }, 0);
    assert_eq!(m.regs[15], 1);

    // The dropped bit is written first, then the shift reads it back.
    let mut m = fresh();
    m.regs[15] = 3;
    m.execute(Instruction::Shr { x: 15 }, 0);
    assert_eq!(m.regs[15], 0);
}

#[test]
fn add_index_wraps_at_sixteen_bits() {
    let mut m = fresh();
    m.index = 0xFFFF;
    m.regs[1] = 2;
    m.execute(Instruction::AddIndex { x: 1 }, 0);
    assert_eq!(m.index, 1);
}

#[test]
fn empty_program_loads_and_changes_nothing() {
    let mut m = fresh();
    let empty: Vec<u8> = vec![];
    assert_eq!(m.load_program(&empty), Ok(()));
    assert_eq!(m.bus.read(0x200).unwrap(), 0);
}

#[test]
fn timers_saturate_at_zero_and_tick_once_per_step() {
    let mut m = fresh();
    let prog = vec![0x60, 0x01, 0x60, 0x02];
    m.load_program(&prog).unwrap();
    m.delay_timer = 1;
    m.sound_timer = 2;
    m.step_with(0);
    assert_eq!(m.delay_timer, 0);
    assert_eq!(m.sound_timer, 1);
    m.step_with(0);
    assert_eq!(m.delay_timer, 0);
    assert_eq!(m.sound_timer, 0);
}
