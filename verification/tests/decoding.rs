use chip8::Instr;
use chip8::combine2;
use chip8::combine3;
use chip8::components;
use chip8::decode;

#[test]
fn components_splits_nibbles() {
    assert_eq!(components(0xABCD), (0xA, 0xB, 0xC, 0xD));
    assert_eq!(components(0x0000), (0, 0, 0, 0));
    assert_eq!(components(0xFFFF), (0xF, 0xF, 0xF, 0xF));
    assert_eq!(components(0x1203), (0x1, 0x2, 0x0, 0x3));
}

#[test]
fn combine_rebuilds_fields() {
    assert_eq!(combine3(0xA, 0xB, 0xC), 0xABC);
    assert_eq!(combine3(0, 0, 0), 0);
    assert_eq!(combine3(0xF, 0xF, 0xF), 0xFFF);
    assert_eq!(combine2(0x4, 0x2), 0x42);
    assert_eq!(combine2(0xF, 0xF), 0xFF);
}

#[test]
fn decodes_screen_and_flow_instructions() {
    assert_eq!(decode(0x00E0), Some(Instr::Cls));
    assert_eq!(decode(0x00EE), Some(Instr::Ret));
    assert_eq!(decode(0x1ABC), Some(Instr::Jp { addr: 0xABC }));
    assert_eq!(decode(0x2123), Some(Instr::Call { addr: 0x123 }));
    assert_eq!(decode(0xB321), Some(Instr::JpV0 { addr: 0x321 }));
}

#[test]
fn decodes_skips_and_immediates() {
    assert_eq!(decode(0x3A42), Some(Instr::SeImm { x: 0xA, kk: 0x42 }));
    assert_eq!(decode(0x4B07), Some(Instr::SneImm { x: 0xB, kk: 0x07 }));
    assert_eq!(decode(0x5120), Some(Instr::SeReg { x: 0x1, y: 0x2 }));
    assert_eq!(decode(0x9340), Some(Instr::SneReg { x: 0x3, y: 0x4 }));
    assert_eq!(decode(0x6C99), Some(Instr::LdImm { x: 0xC, kk: 0x99 }));
    assert_eq!(decode(0x7001), Some(Instr::AddImm { x: 0x0, kk: 0x01 }));
}

#[test]
fn decodes_register_arithmetic() {
    assert_eq!(decode(0x8AB0), Some(Instr::LdReg { x: 0xA, y: 0xB }));
    assert_eq!(decode(0x8AB1), Some(Instr::Or { x: 0xA, y: 0xB }));
    assert_eq!(decode(0x8AB2), Some(Instr::And { x: 0xA, y: 0xB }));
    assert_eq!(decode(0x8AB3), Some(Instr::Xor { x: 0xA, y: 0xB }));
    assert_eq!(decode(0x8AB4), Some(Instr::AddCarry { x: 0xA, y: 0xB }));
    assert_eq!(decode(0x8AB5), Some(Instr::Sub { x: 0xA, y: 0xB }));
    assert_eq!(decode(0x8AB6), Some(Instr::Shr { x: 0xA, y: 0xB }));
    assert_eq!(decode(0x8AB7), Some(Instr::Subn { x: 0xA, y: 0xB }));
    assert_eq!(decode(0x8ABE), Some(Instr::Shl { x: 0xA, y: 0xB }));
}

#[test]
fn decodes_memory_and_misc_instructions() {
    assert_eq!(decode(0xA200), Some(Instr::LdI { addr: 0x200 }));
    assert_eq!(decode(0xC10F), Some(Instr::Rnd { x: 0x1, kk: 0x0F }));
    assert_eq!(decode(0xD125), Some(Instr::Drw { x: 0x1, y: 0x2, n: 0x5 }));
    assert_eq!(decode(0xE29E), Some(Instr::Skp { x: 0x2 }));
    assert_eq!(decode(0xE2A1), Some(Instr::Sknp { x: 0x2 }));
    assert_eq!(decode(0xF307), Some(Instr::LdVxDt { x: 0x3 }));
    assert_eq!(decode(0xF20A), Some(Instr::WaitKey { x: 0x2 }));
    assert_eq!(decode(0xF415), Some(Instr::LdDtVx { x: 0x4 }));
    assert_eq!(decode(0xF518), Some(Instr::LdStVx { x: 0x5 }));
    assert_eq!(decode(0xF61E), Some(Instr::AddI { x: 0x6 }));
    assert_eq!(decode(0xF729), Some(Instr::LdF { x: 0x7 }));
    assert_eq!(decode(0xF833), Some(Instr::LdB { x: 0x8 }));
    assert_eq!(decode(0xF955), Some(Instr::StoreRegs { x: 0x9 }));
    assert_eq!(decode(0xFA65), Some(Instr::LoadRegs { x: 0xA }));
}

#[test]
fn rejects_undefined_patterns() {
    assert_eq!(decode(0x0123), None);
    assert_eq!(decode(0x00E1), None);
    assert_eq!(decode(0x5AB1), None);
    assert_eq!(decode(0x8AB8), None);
    assert_eq!(decode(0x8ABF), None);
    assert_eq!(decode(0x9AB2), None);
    assert_eq!(decode(0xE2FF), None);
    assert_eq!(decode(0xF5FF), None);
    assert_eq!(decode(0xF000), None);
    assert_eq!(decode(0xFFFF), None);
}
