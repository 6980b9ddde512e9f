use iridium::assembler::asm_parsers::parse;
use iridium::assembler::{
    Assembler, AssemblerInstruction, AssemblerPhase, EncodeError, Program, Symbol, SymbolTable,
    SymbolType, Token, PIE_HEADER_LENGTH, PIE_HEADER_PREFIX,
};
use iridium::instruction::Opcode;
use iridium::vm::VM;

fn record(opcode: Opcode, operands: Vec<Token>) -> AssemblerInstruction {
    let mut operands = operands.into_iter();
    AssemblerInstruction {
        opcode: Some(Token::Op { code: opcode }),
        label: None,
        directive: None,
        operand1: operands.next(),
        operand2: operands.next(),
        operand3: operands.next(),
    }
}

#[test]
fn test_symbol_table() {
    let mut sym = SymbolTable::new();
    let new_symbol = Symbol::new("test".to_string(), 12, SymbolType::Label);
    sym.add_symbol(new_symbol);
    assert_eq!(sym.symbols.len(), 1);
    let v = sym.symbol_value("test");
    assert_eq!(v, Some(12));
    let v = sym.symbol_value("does_not_exist");
    assert!(v.is_none());
}

#[test]
fn test_assemble_program() {
    let mut assembler = Assembler::new();
    let test_string = "load $0 #100\ntest: inc $2\nneq $0 $2\njeqd @test\nhlt";
    let program = assembler.assemble(test_string).unwrap();
    let program = program[64..].to_vec(); // trim PIE header
    assert_eq!(program.len(), 20);

    let prog = assembler.get_assembled_program().unwrap();
    let instructions = &prog.instructions;

    assert_eq!(
        instructions[0],
        AssemblerInstruction {
            opcode: Some(Token::Op { code: Opcode::LOAD }),
            label: None,
            directive: None,
            operand1: Some(Token::Register { reg_num: 0 }),
            operand2: Some(Token::IntegerOperand { value: 100 }),
            operand3: None
        }
    );

    assert_eq!(
        instructions[1],
        AssemblerInstruction {
            opcode: Some(Token::Op { code: Opcode::INC }),
            label: Some(Token::LabelDeclaration {
                name: "test".to_string()
            }),
            directive: None,
            operand1: Some(Token::Register { reg_num: 2 }),
            operand2: None,
            operand3: None
        }
    );

    assert_eq!(
        instructions[2],
        AssemblerInstruction {
            opcode: Some(Token::Op { code: Opcode::NEQ }),
            label: None,
            directive: None,
            operand1: Some(Token::Register { reg_num: 0 }),
            operand2: Some(Token::Register { reg_num: 2 }),
            operand3: None
        }
    );

    assert_eq!(
        instructions[3],
        AssemblerInstruction {
            opcode: Some(Token::Op { code: Opcode::JEQD }),
            label: None,
            directive: None,
            operand1: Some(Token::LabelUsage {
                name: "test".to_string()
            }),
            operand2: None,
            operand3: None
        }
    );

    assert_eq!(
        instructions[4],
        AssemblerInstruction {
            opcode: Some(Token::Op { code: Opcode::HLT }),
            label: None,
            directive: None,
            operand1: None,
            operand2: None,
            operand3: None
        }
    );

    // run vm
    let mut vm = VM::new();
    vm.add_bytes(program);
    let _ = vm.run();
    assert_eq!(vm.pc, 17);
    assert_eq!(vm.registers[0], vm.registers[2]);
}

#[test]
fn assembled_bytes_and_symbols_of_the_loop() {
    let mut assembler = Assembler::new();
    let bytes = assembler
        .assemble("load $0 #100\ntest: inc $2\nneq $0 $2\njeqd @test\nhlt")
        .unwrap();
    assert_eq!(bytes.len(), 84);
    assert_eq!(&bytes[..4], &PIE_HEADER_PREFIX);
    assert_eq!(&bytes[..4], &[45, 50, 49, 45]);
    assert!(bytes[4..PIE_HEADER_LENGTH].iter().all(|b| *b == 0));
    assert_eq!(
        &bytes[64..],
        &[1, 0, 0, 100, 19, 2, 0, 0, 10, 0, 2, 0, 15, 0, 4, 0, 0, 0, 0, 0]
    );
    assert_eq!(assembler.symbols.symbol_value("test"), Some(4));
    assert_eq!(assembler.phase, AssemblerPhase::Second);
    let mut vm = VM::new();
    vm.add_bytes(bytes[64..].to_vec());
    assert_eq!(vm.run(), Ok(()));
    assert_eq!(vm.registers[0], 100);
    assert_eq!(vm.registers[2], 100);
}

#[test]
fn load_assembled_and_executed() {
    for r in [0u8, 1, 17, 31] {
        for v in [0u16, 1, 100, 255, 256, 12345, 65535] {
            let mut assembler = Assembler::new();
            let bytes = assembler.assemble(&format!("load ${} #{}", r, v)).unwrap();
            assert_eq!(&bytes[64..], &[1, r, (v >> 8) as u8, (v & 255) as u8]);
            let mut vm = VM::new();
            vm.add_bytes(bytes[64..].to_vec());
            assert_eq!(vm.run(), Ok(()));
            assert_eq!(vm.registers[r as usize], v as i32);
        }
    }
}

#[test]
fn every_record_takes_four_bytes() {
    let table = SymbolTable::new();
    assert_eq!(record(Opcode::HLT, vec![]).to_bytes(&table), Ok(vec![0, 0, 0, 0]));
    assert_eq!(
        record(Opcode::INC, vec![Token::Register { reg_num: 9 }]).to_bytes(&table),
        Ok(vec![19, 9, 0, 0])
    );
    assert_eq!(
        record(
            Opcode::ADD,
            vec![
                Token::Register { reg_num: 1 },
                Token::Register { reg_num: 2 },
                Token::Register { reg_num: 3 }
            ]
        )
        .to_bytes(&table),
        Ok(vec![2, 1, 2, 3])
    );
    assert_eq!(
        record(Opcode::IGL, vec![Token::IntegerOperand { value: 0x1234 }]).to_bytes(&table),
        Ok(vec![255, 0x12, 0x34, 0])
    );
    let directive = AssemblerInstruction {
        opcode: None,
        label: None,
        directive: Some(Token::Directive { name: "data".to_string() }),
        operand1: Some(Token::Register { reg_num: 5 }),
        operand2: None,
        operand3: None,
    };
    assert_eq!(directive.to_bytes(&table), Ok(vec![0, 5, 0, 0]));
}

#[test]
fn numbers_are_cut_to_sixteen_bits() {
    let table = SymbolTable::new();
    assert_eq!(
        record(Opcode::LOAD, vec![Token::Register { reg_num: 0 }, Token::IntegerOperand { value: 65536 + 258 }])
            .to_bytes(&table),
        Ok(vec![1, 0, 1, 2])
    );
    assert_eq!(
        record(Opcode::LOAD, vec![Token::Register { reg_num: 0 }, Token::IntegerOperand { value: -2 }])
            .to_bytes(&table),
        Ok(vec![1, 0, 255, 254])
    );
    let mut table = SymbolTable::new();
    table.add_symbol(Symbol::new("far".to_string(), 0x0001_0204, SymbolType::Label));
    assert_eq!(
        record(Opcode::JEQD, vec![Token::LabelUsage { name: "far".to_string() }]).to_bytes(&table),
        Ok(vec![15, 2, 4, 0])
    );
}

#[test]
fn encode_errors() {
    let table = SymbolTable::new();
    assert_eq!(
        record(Opcode::JMP, vec![Token::LabelUsage { name: "nowhere".to_string() }]).to_bytes(&table),
        Err(EncodeError::UnresolvedLabel)
    );
    assert_eq!(
        record(Opcode::JMP, vec![Token::Op { code: Opcode::HLT }]).to_bytes(&table),
        Err(EncodeError::InvalidOperand)
    );
    assert_eq!(
        record(Opcode::JMP, vec![Token::Directive { name: "d".to_string() }]).to_bytes(&table),
        Err(EncodeError::InvalidOperand)
    );
    assert_eq!(
        record(Opcode::JMP, vec![Token::LabelDeclaration { name: "d".to_string() }]).to_bytes(&table),
        Err(EncodeError::InvalidOperand)
    );
    assert_eq!(
        record(
            Opcode::LOAD,
            vec![Token::IntegerOperand { value: 1 }, Token::IntegerOperand { value: 2 }]
        )
        .to_bytes(&table),
        Err(EncodeError::TooLong)
    );
    let neither = AssemblerInstruction {
        opcode: None,
        label: None,
        directive: None,
        operand1: None,
        operand2: None,
        operand3: None,
    };
    assert_eq!(neither.to_bytes(&table), Err(EncodeError::MalformedRecord));
    let both = AssemblerInstruction {
        opcode: Some(Token::Op { code: Opcode::HLT }),
        label: None,
        directive: Some(Token::Directive { name: "d".to_string() }),
        operand1: None,
        operand2: None,
        operand3: None,
    };
    assert_eq!(both.to_bytes(&table), Err(EncodeError::MalformedRecord));
    let wrong = AssemblerInstruction {
        opcode: Some(Token::Register { reg_num: 1 }),
        label: None,
        directive: None,
        operand1: None,
        operand2: None,
        operand3: None,
    };
    assert_eq!(wrong.to_bytes(&table), Err(EncodeError::MalformedRecord));
}

#[test]
fn labels_resolve_to_four_times_the_index() {
    let mut assembler = Assembler::new();
    let bytes = assembler
        .assemble("a: hlt\nb: .data\nhlt\nc: jmp @c\njeqd @a\njeqd @b\njeqd @later\nlater: hlt")
        .unwrap();
    assert_eq!(bytes.len(), 64 + 8 * 4);
    assert_eq!(assembler.symbols.symbol_value("a"), Some(0));
    assert_eq!(assembler.symbols.symbol_value("b"), Some(4));
    assert_eq!(assembler.symbols.symbol_value("c"), Some(12));
    assert_eq!(assembler.symbols.symbol_value("later"), Some(28));
    assert_eq!(&bytes[64 + 12..64 + 16], &[6, 0, 12, 0]);
    assert_eq!(&bytes[64 + 24..64 + 28], &[15, 0, 28, 0]);
}

#[test]
fn a_later_declaration_replaces_an_earlier_one() {
    let mut table = SymbolTable::new();
    table.add_symbol(Symbol::new("x".to_string(), 4, SymbolType::Label));
    table.add_symbol(Symbol::new("y".to_string(), 8, SymbolType::Label));
    table.add_symbol(Symbol::new("x".to_string(), 12, SymbolType::Label));
    assert_eq!(table.symbol_value("x"), Some(12));
    assert_eq!(table.symbol_value("y"), Some(8));
    let mut assembler = Assembler::new();
    let bytes = assembler.assemble("x: hlt\nx: hlt\njeqd @x").unwrap();
    assert_eq!(&bytes[64 + 8..], &[15, 0, 4, 0]);
}

#[test]
fn assemble_fails_as_a_whole() {
    let mut assembler = Assembler::new();
    assert_eq!(assembler.assemble("load $0 #1\n???"), None);
    assert!(assembler.get_assembled_program().is_none());
    assert_eq!(assembler.assemble(""), None);
    assert_eq!(assembler.assemble("jmp @nowhere"), None);
    assert_eq!(assembler.assemble("load #1 #2"), None);
    assert!(assembler.get_assembled_program().is_none());
    assert!(assembler.assemble("hlt").is_some());
    assert_eq!(assembler.get_assembled_program().unwrap().instructions.len(), 1);
    assert_eq!(assembler.assemble("jmp @nowhere"), None);
    assert_eq!(assembler.get_assembled_program().unwrap().instructions.len(), 1);
}

#[test]
fn each_assembly_starts_with_fresh_symbols() {
    let mut assembler = Assembler::new();
    assert!(assembler.assemble("here: hlt").is_some());
    assert_eq!(assembler.assemble("jmp @here"), None);
}

#[test]
fn assemble_program_reports_the_error() {
    let mut assembler = Assembler::new();
    let program = parse("inc $1\njmp @gone\nload #1 #2").unwrap();
    assert_eq!(assembler.assemble_program(program), Err(EncodeError::UnresolvedLabel));
    let program = Program { instructions: vec![record(Opcode::HLT, vec![])] };
    let bytes = assembler.assemble_program(program).unwrap();
    assert_eq!(bytes.len(), 68);
    let empty = Program { instructions: vec![] };
    assert_eq!(assembler.assemble_program(empty).map(|b| b.len()), Ok(64));
}

#[test]
fn symbols_and_their_types() {
    let symbol = Symbol::new("s".to_string(), 8, SymbolType::Label);
    assert_eq!(symbol.get_type(), SymbolType::Label);
    assert_eq!(symbol.name, "s");
    assert_eq!(symbol.offset, 8);
    let assembler = Assembler::new();
    assert_eq!(assembler.phase, AssemblerPhase::First);
    assert!(assembler.program.is_none());
    assert_eq!(assembler.symbols.symbols.len(), 0);
}
