//! Decoding: every instruction form, and the words that match none.

use chip8::decode::{decode, Instruction};

#[test]
fn decode_clear_and_return() {
    assert_eq!(decode(0x00E0), Instruction::Cls);
    assert_eq!(decode(0x00EE), Instruction::Ret);
}

#[test]
fn decode_jumps_and_calls() {
    assert_eq!(decode(0x1234), Instruction::Jump { nnn: 0x234 });
    assert_eq!(decode(0x2ABC), Instruction::Call { nnn: 0xABC });
    assert_eq!(decode(0xA210), Instruction::SetIndex { nnn: 0x210 });
    assert_eq!(decode(0xB321), Instruction::JumpPlus { nnn: 0x321 });
}

#[test]
fn decode_immediate_forms() {
    assert_eq!(decode(0x3A42), Instruction::SkipEqImm { x: 0xA, kk: 0x42 });
    assert_eq!(decode(0x4B99), Instruction::SkipNeImm { x: 0xB, kk: 0x99 });
    assert_eq!(decode(0x6C07), Instruction::SetImm { x: 0xC, kk: 0x07 });
    assert_eq!(decode(0x7DFF), Instruction::AddImm { x: 0xD, kk: 0xFF });
    assert_eq!(decode(0xC511), Instruction::Random { x: 5, kk: 0x11 });
}

#[test]
fn decode_register_forms() {
    assert_eq!(decode(0x5120), Instruction::SkipEqReg { x: 1, y: 2 });
    assert_eq!(decode(0x9340), Instruction::SkipNeReg { x: 3, y: 4 });
    assert_eq!(decode(0x8120), Instruction::Copy { x: 1, y: 2 });
    assert_eq!(decode(0x8341), Instruction::Or { x: 3, y: 4 });
    assert_eq!(decode(0x8562), Instruction::And { x: 5, y: 6 });
    assert_eq!(decode(0x8783), Instruction::Xor { x: 7, y: 8 });
    assert_eq!(decode(0x89A4), Instruction::Add { x: 9, y: 0xA });
    assert_eq!(decode(0x8BC5), Instruction::Sub { x: 0xB, y: 0xC });
    assert_eq!(decode(0x8D06), Instruction::Shr { x: 0xD });
    assert_eq!(decode(0x8EF7), Instruction::SubRev { x: 0xE, y: 0xF });
    assert_eq!(decode(0x812E), Instruction::Shl { x: 1 });
}

#[test]
fn decode_draw_and_keys() {
    assert_eq!(decode(0xD125), Instruction::Draw { x: 1, y: 2, n: 5 });
    assert_eq!(decode(0xE29E), Instruction::SkipKey { x: 2 });
    assert_eq!(decode(0xE3A1), Instruction::SkipNoKey { x: 3 });
}

#[test]
fn decode_timer_and_memory_forms() {
    assert_eq!(decode(0xF107), Instruction::ReadDelay { x: 1 });
    assert_eq!(decode(0xF20A), Instruction::WaitKey { x: 2 });
    assert_eq!(decode(0xF315), Instruction::SetDelay { x: 3 });
    assert_eq!(decode(0xF418), Instruction::SetSound { x: 4 });
    assert_eq!(decode(0xF51E), Instruction::AddIndex { x: 5 });
    assert_eq!(decode(0xF629), Instruction::FontIndex { x: 6 });
    assert_eq!(decode(0xF733), Instruction::StoreBcd { x: 7 });
    assert_eq!(decode(0xF855), Instruction::StoreRegs { x: 8 });
    assert_eq!(decode(0xF965), Instruction::LoadRegs { x: 9 });
}

#[test]
fn decode_unrecognized_words() {
    assert_eq!(decode(0x0000), Instruction::Unknown { word: 0x0000 });
    assert_eq!(decode(0x0010), Instruction::Unknown { word: 0x0010 });
    assert_eq!(decode(0x001E), Instruction::Unknown { word: 0x001E });
    assert_eq!(decode(0x5121), Instruction::Unknown { word: 0x5121 });
    assert_eq!(decode(0x9341), Instruction::Unknown { word: 0x9341 });
    assert_eq!(decode(0x8008), Instruction::Unknown { word: 0x8008 });
    assert_eq!(decode(0x800F), Instruction::Unknown { word: 0x800F });
    assert_eq!(decode(0xE000), Instruction::Unknown { word: 0xE000 });
    assert_eq!(decode(0xF0FF), Instruction::Unknown { word: 0xF0FF });
}
