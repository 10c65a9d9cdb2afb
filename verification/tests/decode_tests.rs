use chip8_core::decode::Instruction;
use chip8_core::decode::decode;
use chip8_core::decode::fields;

#[test]
fn fields_follow_the_documented_masks() {
    // The example from the instruction-word documentation: 0x2100 carries
    // the 12-bit address 0x100.
    let (x, y, kk, n, addr) = fields(0x2100);
    assert_eq!(x, 0x1);
    assert_eq!(y, 0x0);
    assert_eq!(kk, 0x00);
    assert_eq!(n, 0x0);
    assert_eq!(addr, 0x100);

    let (x, y, kk, n, addr) = fields(0xABCD);
    assert_eq!(x, 0xB);
    assert_eq!(y, 0xC);
    assert_eq!(kk, 0xCD);
    assert_eq!(n, 0xD);
    assert_eq!(addr, 0xBCD);

    let (x, y, kk, n, addr) = fields(0xFFFF);
    assert_eq!(x, 0xF);
    assert_eq!(y, 0xF);
    assert_eq!(kk, 0xFF);
    assert_eq!(n, 0xF);
    assert_eq!(addr, 0xFFF);

    let (x, y, kk, n, addr) = fields(0x0000);
    assert_eq!(x, 0);
    assert_eq!(y, 0);
    assert_eq!(kk, 0);
    assert_eq!(n, 0);
    assert_eq!(addr, 0);
}

#[test]
fn decode_covers_the_dispatch_table() {
    assert_eq!(decode(0x0000), Some(Instruction::Halt));
    assert_eq!(decode(0x00E0), Some(Instruction::Cls));
    assert_eq!(decode(0x00EE), Some(Instruction::Ret));
    assert_eq!(decode(0x1234), Some(Instruction::Jmp(0x234)));
    assert_eq!(decode(0x2100), Some(Instruction::Call(0x100)));
    assert_eq!(decode(0x3A7F), Some(Instruction::SeImm(0xA, 0x7F)));
    assert_eq!(decode(0x4A7F), Some(Instruction::SneImm(0xA, 0x7F)));
    assert_eq!(decode(0x5AB0), Some(Instruction::SeReg(0xA, 0xB)));
    assert_eq!(decode(0x6A7F), Some(Instruction::LdImm(0xA, 0x7F)));
    assert_eq!(decode(0x7A7F), Some(Instruction::AddImm(0xA, 0x7F)));
    assert_eq!(decode(0x8AB0), Some(Instruction::LdReg(0xA, 0xB)));
    assert_eq!(decode(0x8AB1), Some(Instruction::Or(0xA, 0xB)));
    assert_eq!(decode(0x8AB2), Some(Instruction::And(0xA, 0xB)));
    assert_eq!(decode(0x8AB3), Some(Instruction::Xor(0xA, 0xB)));
    assert_eq!(decode(0x8AB4), Some(Instruction::AddReg(0xA, 0xB)));
}

#[test]
fn decode_rejects_words_outside_the_table() {
    assert_eq!(decode(0x9000), None);
    assert_eq!(decode(0x0123), None);
    assert_eq!(decode(0x00E1), None);
    assert_eq!(decode(0x5AB1), None);
    assert_eq!(decode(0x8AB5), None);
    assert_eq!(decode(0x8ABF), None);
    assert_eq!(decode(0xA000), None);
    assert_eq!(decode(0xFFFF), None);
}
