use chip8::{Chip8Error, Instruction, Memory, MEMORY_SIZE};

#[test]
fn write_then_read_round_trips() {
    let mut m = Memory::new();
    for addr in [0u16, 0x200, 0x600, 0xFFF] {
        m.write(addr, 0xA5).unwrap();
        assert_eq!(m.read(addr), Ok(0xA5));
    }
    assert_eq!(m.read(0x201), Ok(0));
}

#[test]
fn out_of_range_access_fails() {
    let mut m = Memory::new();
    assert_eq!(MEMORY_SIZE, 4096);
    assert_eq!(m.read(0x1000), Err(Chip8Error::OutOfBoundsAccess));
    assert_eq!(m.write(0x1000, 1), Err(Chip8Error::OutOfBoundsAccess));
    assert_eq!(m.read(0xFFFF), Err(Chip8Error::OutOfBoundsAccess));
}

#[test]
fn load_copies_program() {
    let mut m = Memory::new();
    m.load(&[1, 2, 3], 0xFFD).unwrap();
    assert_eq!(m.read(0xFFD), Ok(1));
    assert_eq!(m.read(0xFFF), Ok(3));
    assert_eq!(m.read(0xFFC), Ok(0));
}

#[test]
fn load_too_large_is_refused() {
    let mut m = Memory::new();
    assert_eq!(m.load(&[1, 2, 3, 4], 0xFFD), Err(Chip8Error::InvalidProgramLoad));
    assert_eq!(m.read(0xFFD), Ok(0));
    let big = vec![7u8; 4097];
    assert_eq!(m.load(&big, 0), Err(Chip8Error::InvalidProgramLoad));
    assert_eq!(m.load(&[], 0x1001), Err(Chip8Error::InvalidProgramLoad));
}

#[test]
fn decode_names_instructions() {
    assert_eq!(Instruction::decode(0x00E0), Instruction::ClearScreen);
    assert_eq!(Instruction::decode(0x00EE), Instruction::Return);
    assert_eq!(Instruction::decode(0x1ABC), Instruction::Jump(0xABC));
    assert_eq!(Instruction::decode(0x2ABC), Instruction::Call(0xABC));
    assert_eq!(Instruction::decode(0x3A42), Instruction::SkipEqImm(0xA, 0x42));
    assert_eq!(Instruction::decode(0x8AB4), Instruction::AddReg(0xA, 0xB));
    assert_eq!(Instruction::decode(0x8ABE), Instruction::ShiftLeft(0xA, 0xB));
    assert_eq!(Instruction::decode(0xD12F), Instruction::Draw(1, 2, 0xF));
    assert_eq!(Instruction::decode(0xE5A1), Instruction::SkipNotKey(5));
    assert_eq!(Instruction::decode(0xF765), Instruction::LoadRegs(7));
    assert_eq!(Instruction::decode(0x8AB8), Instruction::Unknown(0x8AB8));
    assert_eq!(Instruction::decode(0x5AB1), Instruction::Unknown(0x5AB1));
    assert_eq!(Instruction::decode(0x0123), Instruction::Unknown(0x0123));
}
