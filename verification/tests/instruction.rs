use iridium::instruction::{Instruction, Opcode};

#[test]
fn test_create_hlt() {
    let opcode = Opcode::HLT;
    assert_eq!(opcode, Opcode::HLT);
}

#[test]
fn test_create_instruction() {
    let instruction = Instruction::new(Opcode::HLT);
    assert_eq!(instruction.opcode, Opcode::HLT);
}

#[test]
fn test_str_to_opcode() {
    let opcode = Opcode::from("load");
    assert_eq!(opcode, Opcode::LOAD);
    let opcode = Opcode::from("illegal");
    assert_eq!(opcode, Opcode::IGL);
}

#[test]
fn mnemonics_in_either_case() {
    assert_eq!(Opcode::from_mnemonic("LOAD"), Opcode::LOAD);
    assert_eq!(Opcode::from_mnemonic("Load"), Opcode::LOAD);
    assert_eq!(Opcode::from_mnemonic("jMpF"), Opcode::JMPF);
    assert_eq!(Opcode::from_mnemonic("jneq"), Opcode::JNEQ);
    assert_eq!(Opcode::from_mnemonic("jeqd"), Opcode::JEQD);
    assert_eq!(Opcode::from_mnemonic("eq"), Opcode::EQ);
    assert_eq!(Opcode::from_mnemonic("e"), Opcode::IGL);
    assert_eq!(Opcode::from_mnemonic("loads"), Opcode::IGL);
    assert_eq!(Opcode::from_mnemonic(""), Opcode::IGL);
    assert_eq!(Opcode::from_mnemonic("igl"), Opcode::IGL);
}

#[test]
fn every_opcode_survives_its_byte() {
    let all = [
        Opcode::HLT,
        Opcode::LOAD,
        Opcode::ADD,
        Opcode::SUB,
        Opcode::MUL,
        Opcode::DIV,
        Opcode::JMP,
        Opcode::JMPF,
        Opcode::JMPB,
        Opcode::EQ,
        Opcode::NEQ,
        Opcode::GT,
        Opcode::LT,
        Opcode::GTE,
        Opcode::LTE,
        Opcode::JEQD,
        Opcode::JEQ,
        Opcode::IGL,
        Opcode::NOP,
        Opcode::ALOC,
        Opcode::INC,
        Opcode::DEC,
        Opcode::JNEQ,
    ];
    for op in all {
        let byte: u8 = op.into();
        assert_eq!(Opcode::from(byte), op);
    }
}

#[test]
fn bytes_of_opcodes() {
    assert_eq!(u8::from(Opcode::HLT), 0);
    assert_eq!(u8::from(Opcode::LOAD), 1);
    assert_eq!(u8::from(Opcode::JEQD), 15);
    assert_eq!(u8::from(Opcode::JEQ), 16);
    assert_eq!(u8::from(Opcode::NOP), 17);
    assert_eq!(u8::from(Opcode::DEC), 20);
    assert_eq!(u8::from(Opcode::JNEQ), 21);
    assert_eq!(u8::from(Opcode::IGL), 255);
    assert_eq!(Opcode::from(22u8), Opcode::IGL);
    assert_eq!(Opcode::from(200u8), Opcode::IGL);
}
