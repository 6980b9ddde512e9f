use iridium::instruction::Opcode;
use iridium::vm::{VmError, VM};

fn get_test_vm() -> VM {
    VM::new()
}

#[test]
fn test_create_vm() {
    let test_vm = VM::new();
    assert_eq!(test_vm.registers[0], 0)
}

#[test]
fn test_opcode_hlt() {
    let mut test_vm = VM::new();
    let test_bytes = vec![Opcode::HLT.into(), 0, 0, 0];
    test_vm.program = test_bytes;
    let _ = test_vm.run();
    assert_eq!(test_vm.pc, 1);
}

#[test]
fn test_opcode_igl() {
    let mut test_vm = VM::new();
    let test_bytes = vec![200, 0, 0, 0];
    test_vm.program = test_bytes;
    let _ = test_vm.run();
    assert_eq!(test_vm.pc, 1);
}

#[test]
fn test_load_opcode() {
    let mut test_vm = get_test_vm();
    test_vm.program = vec![Opcode::LOAD.into(), 0, 1, 244];
    let _ = test_vm.run();
    assert_eq!(test_vm.registers[0], 500);
    assert!(test_vm.pc_valid());
}

#[test]
fn test_jmp_opcode() {
    let mut test_vm = get_test_vm();
    test_vm.registers[0] = 255;
    test_vm.program = vec![Opcode::JMP.into(), 0, 0, 0];
    let _ = test_vm.run_once();
    assert_eq!(test_vm.pc, 255);
}

#[test]
fn test_jmpf_opcode() {
    let mut test_vm = get_test_vm();
    test_vm.registers[0] = 2;
    test_vm.program = vec![Opcode::JMPF.into(), 0, 0, 0];
    let _ = test_vm.run_once();
    assert_eq!(test_vm.pc, 4);
}

#[test]
fn test_jmpb_opcode() {
    let mut test_vm = get_test_vm();
    test_vm.registers[0] = 2;
    test_vm.program = vec![Opcode::JMPB.into(), 0, 0, 0];
    let _ = test_vm.run_once();
    assert_eq!(test_vm.pc, 0);
}

#[test]
fn test_eq_opcode() {
    let mut test_vm = get_test_vm();
    test_vm.registers[0] = 2;
    test_vm.registers[1] = 2;
    test_vm.program = vec![Opcode::EQ.into(), 0, 1, 0, Opcode::EQ.into(), 0, 1, 0];
    let _ = test_vm.run_once();
    assert_eq!(test_vm.equal_flag, true);
    assert!(test_vm.pc_valid());
    test_vm.registers[1] = 3;
    let _ = test_vm.run_once();
    assert_eq!(test_vm.equal_flag, false);
    assert!(test_vm.pc_valid());
}

#[test]
fn test_neq_opcode() {
    let mut test_vm = get_test_vm();
    test_vm.registers[0] = 2;
    test_vm.registers[1] = 2;
    test_vm.program = vec![Opcode::NEQ.into(), 0, 1, 0, Opcode::NEQ.into(), 0, 1, 0];
    let _ = test_vm.run_once();
    assert_eq!(test_vm.equal_flag, false);
    assert!(test_vm.pc_valid());
    test_vm.registers[1] = 3;
    let _ = test_vm.run_once();
    assert_eq!(test_vm.equal_flag, true);
    assert!(test_vm.pc_valid());
}

#[test]
fn test_cmp_opcode() {
    let mut test_vm = get_test_vm();
    test_vm.registers[0] = 1;
    test_vm.registers[1] = 2;
    test_vm.registers[2] = 2;
    test_vm.program = vec![
        Opcode::GT.into(),
        0,
        1,
        0,
        Opcode::LT.into(),
        0,
        1,
        0,
        Opcode::GTE.into(),
        2,
        1,
        0,
        Opcode::LTE.into(),
        2,
        1,
        0,
    ];
    let _ = test_vm.run_once();
    assert_eq!(test_vm.equal_flag, false);
    assert!(test_vm.pc_valid());
    let _ = test_vm.run_once();
    assert_eq!(test_vm.equal_flag, true);
    assert!(test_vm.pc_valid());
    let _ = test_vm.run_once();
    assert_eq!(test_vm.equal_flag, true);
    assert!(test_vm.pc_valid());
    let _ = test_vm.run_once();
    assert_eq!(test_vm.equal_flag, true);
    assert!(test_vm.pc_valid());
}

#[test]
fn test_jeq_opcode() {
    let mut test_vm = get_test_vm();
    test_vm.registers[0] = 4;
    test_vm.equal_flag = true;
    test_vm.program = vec![Opcode::JEQ.into(), 0, 0, 0, Opcode::JNEQ.into(), 0, 0, 0];
    let _ = test_vm.run_once();
    assert_eq!(test_vm.pc, 4);
    test_vm.equal_flag = false;
    let _ = test_vm.run_once();
    assert_eq!(test_vm.pc, 4);
}

#[test]
fn test_aloc_opcode() {
    let mut test_vm = get_test_vm();
    test_vm.registers[0] = 1024;
    test_vm.program = vec![Opcode::ALOC.into(), 0, 0, 0];
    let _ = test_vm.run_once();
    assert_eq!(test_vm.heap.len(), 1024);
    assert!(test_vm.pc_valid());
}

#[test]
fn new_vm_is_empty() {
    let vm = VM::new();
    assert_eq!(vm.registers, [0; 32]);
    assert_eq!(vm.pc, 0);
    assert!(vm.program.is_empty());
    assert_eq!(vm.remainder, 0);
    assert!(!vm.equal_flag);
    assert!(vm.heap.is_empty());
}

#[test]
fn add_byte_and_bytes_append() {
    let mut vm = VM::new();
    vm.add_byte(1);
    vm.add_bytes(vec![2, 3]);
    vm.add_byte(4);
    assert_eq!(vm.program, vec![1, 2, 3, 4]);
    assert_eq!(vm.pc, 0);
}

#[test]
fn load_every_register_and_bounds_of_immediate() {
    for r in 0u8..32 {
        for v in [0u16, 1, 255, 256, 500, 65535] {
            let mut vm = VM::new();
            vm.program = vec![Opcode::LOAD.into(), r, (v >> 8) as u8, (v & 0xff) as u8];
            assert_eq!(vm.run_once(), Ok(true));
            assert_eq!(vm.registers[r as usize], v as i32);
            assert_eq!(vm.pc, 4);
        }
    }
}

#[test]
fn arithmetic_opcodes() {
    let mut vm = VM::new();
    vm.registers[1] = 7;
    vm.registers[2] = -3;
    vm.program = vec![
        Opcode::ADD.into(), 0, 1, 2,
        Opcode::SUB.into(), 3, 1, 2,
        Opcode::MUL.into(), 4, 1, 2,
        Opcode::DIV.into(), 5, 1, 2,
    ];
    assert_eq!(vm.run_once(), Ok(true));
    assert_eq!(vm.registers[0], 4);
    assert_eq!(vm.run_once(), Ok(true));
    assert_eq!(vm.registers[3], 10);
    assert_eq!(vm.run_once(), Ok(true));
    assert_eq!(vm.registers[4], -21);
    assert_eq!(vm.run_once(), Ok(true));
    assert_eq!(vm.registers[5], -2);
    assert_eq!(vm.remainder, 1);
    assert_eq!(vm.pc, 16);
    assert_eq!(vm.run_once(), Ok(false));
    assert_eq!(vm.pc, 16);
}

#[test]
fn division_rounds_towards_zero() {
    let mut vm = VM::new();
    vm.registers[1] = -7;
    vm.registers[2] = 2;
    vm.program = vec![Opcode::DIV.into(), 0, 1, 2];
    assert_eq!(vm.run_once(), Ok(true));
    assert_eq!(vm.registers[0], -3);
    assert_eq!(vm.remainder, (-1i32) as u32);
}

#[test]
fn division_reads_sources_before_writing() {
    let mut vm = VM::new();
    vm.registers[1] = 17;
    vm.registers[2] = 5;
    vm.program = vec![Opcode::DIV.into(), 1, 1, 2];
    assert_eq!(vm.run_once(), Ok(true));
    assert_eq!(vm.registers[1], 3);
    assert_eq!(vm.remainder, 2);
}

#[test]
fn division_by_zero_is_refused() {
    let mut vm = VM::new();
    vm.registers[1] = 7;
    vm.program = vec![Opcode::HLT.into(), 0, 0, 0, Opcode::DIV.into(), 0, 1, 2];
    vm.pc = 4;
    assert_eq!(vm.run_once(), Err(VmError::DivisionByZero { offset: 4 }));
    assert_eq!(vm.pc, 4);
    assert_eq!(vm.registers[0], 0);
    assert_eq!(vm.run(), Err(VmError::DivisionByZero { offset: 4 }));
}

#[test]
fn overflow_is_refused() {
    let mut vm = VM::new();
    vm.registers[1] = i32::MAX;
    vm.registers[2] = 1;
    vm.registers[3] = i32::MIN;
    vm.registers[4] = -1;
    vm.program = vec![Opcode::ADD.into(), 0, 1, 2];
    assert_eq!(vm.run_once(), Err(VmError::ArithmeticOverflow { offset: 0 }));
    vm.program = vec![Opcode::SUB.into(), 0, 3, 2];
    assert_eq!(vm.run_once(), Err(VmError::ArithmeticOverflow { offset: 0 }));
    vm.program = vec![Opcode::MUL.into(), 0, 1, 1];
    assert_eq!(vm.run_once(), Err(VmError::ArithmeticOverflow { offset: 0 }));
    vm.program = vec![Opcode::DIV.into(), 0, 3, 4];
    assert_eq!(vm.run_once(), Err(VmError::ArithmeticOverflow { offset: 0 }));
    vm.program = vec![Opcode::INC.into(), 1, 0, 0];
    assert_eq!(vm.run_once(), Err(VmError::ArithmeticOverflow { offset: 0 }));
    vm.program = vec![Opcode::DEC.into(), 3, 0, 0];
    assert_eq!(vm.run_once(), Err(VmError::ArithmeticOverflow { offset: 0 }));
    assert_eq!(vm.pc, 0);
    assert_eq!(vm.registers[0], 0);
    assert_eq!(vm.registers[1], i32::MAX);
    assert_eq!(vm.registers[3], i32::MIN);
}

#[test]
fn register_out_of_range_is_refused() {
    let mut vm = VM::new();
    vm.program = vec![Opcode::LOAD.into(), 32, 0, 1];
    assert_eq!(vm.run_once(), Err(VmError::RegisterOutOfRange { offset: 0 }));
    vm.program = vec![Opcode::ADD.into(), 0, 1, 200];
    assert_eq!(vm.run_once(), Err(VmError::RegisterOutOfRange { offset: 0 }));
    vm.program = vec![Opcode::EQ.into(), 0, 32, 0];
    assert_eq!(vm.run_once(), Err(VmError::RegisterOutOfRange { offset: 0 }));
    vm.program = vec![Opcode::EQ.into(), 0, 31, 99];
    assert_eq!(vm.run_once(), Ok(true));
    vm.pc = 0;
    vm.program = vec![Opcode::JMP.into(), 255, 0, 0];
    assert_eq!(vm.run_once(), Err(VmError::RegisterOutOfRange { offset: 0 }));
    vm.program = vec![Opcode::ALOC.into(), 40, 0, 0];
    assert_eq!(vm.run_once(), Err(VmError::RegisterOutOfRange { offset: 0 }));
    assert_eq!(vm.pc, 0);
}

#[test]
fn invalid_jump_target_is_refused() {
    let mut vm = VM::new();
    vm.registers[0] = -1;
    vm.program = vec![Opcode::JMP.into(), 0, 0, 0];
    assert_eq!(vm.run_once(), Err(VmError::InvalidJumpTarget { offset: 0 }));
    vm.registers[0] = 3;
    vm.program = vec![Opcode::JMPB.into(), 0, 0, 0];
    assert_eq!(vm.run_once(), Err(VmError::InvalidJumpTarget { offset: 0 }));
    vm.registers[0] = -3;
    vm.program = vec![Opcode::JMPF.into(), 0, 0, 0];
    assert_eq!(vm.run_once(), Err(VmError::InvalidJumpTarget { offset: 0 }));
    assert_eq!(vm.pc, 0);
}

#[test]
fn relative_jumps_take_signed_values() {
    let mut vm = VM::new();
    vm.registers[0] = -2;
    vm.registers[1] = 6;
    vm.program = vec![
        Opcode::HLT.into(), 0, 0, 0,
        Opcode::JMPF.into(), 0, 0, 0,
        Opcode::JMPB.into(), 0, 0, 0,
        Opcode::JMPF.into(), 1, 0, 0,
    ];
    vm.pc = 4;
    assert_eq!(vm.run_once(), Ok(true));
    assert_eq!(vm.pc, 4);
    vm.pc = 8;
    assert_eq!(vm.run_once(), Ok(true));
    assert_eq!(vm.pc, 12);
    assert_eq!(vm.run_once(), Ok(true));
    assert_eq!(vm.pc, 20);
    assert_eq!(vm.run_once(), Ok(false));
    assert_eq!(vm.pc, 20);
}

#[test]
fn truncated_instruction_is_refused() {
    let mut vm = VM::new();
    vm.program = vec![Opcode::LOAD.into(), 0, 1];
    assert_eq!(vm.run_once(), Err(VmError::TruncatedInstruction { offset: 0 }));
    vm.program = vec![Opcode::JMP.into()];
    assert_eq!(vm.run_once(), Err(VmError::TruncatedInstruction { offset: 0 }));
    vm.program = vec![Opcode::INC.into(), 0];
    assert_eq!(vm.run_once(), Err(VmError::TruncatedInstruction { offset: 0 }));
    vm.program = vec![Opcode::JEQ.into(), 0, 0];
    assert_eq!(vm.run_once(), Err(VmError::TruncatedInstruction { offset: 0 }));
    vm.program = vec![Opcode::JEQD.into(), 0, 0];
    assert_eq!(vm.run_once(), Err(VmError::TruncatedInstruction { offset: 0 }));
    assert_eq!(vm.pc, 0);
    vm.program = vec![Opcode::HLT.into()];
    assert_eq!(vm.run_once(), Ok(false));
    assert_eq!(vm.pc, 1);
}

#[test]
fn misaligned_pc_is_refused() {
    let mut vm = VM::new();
    vm.program = vec![Opcode::HLT.into(), 0, 0, 0, Opcode::HLT.into(), 0, 0, 0];
    assert_eq!(vm.run(), Ok(()));
    assert_eq!(vm.pc, 1);
    assert_eq!(vm.run_once(), Err(VmError::MisalignedPc { offset: 1 }));
    assert_eq!(vm.run(), Err(VmError::MisalignedPc { offset: 1 }));
    assert_eq!(vm.pc, 1);
    assert!(!vm.pc_valid());
}

#[test]
fn conditional_jump_not_taken_leads_to_the_next_instruction() {
    let mut vm = VM::new();
    vm.registers[0] = 40;
    vm.program = vec![Opcode::JEQ.into(), 0, 0, 0, Opcode::INC.into(), 1, 0, 0];
    assert_eq!(vm.run_once(), Ok(true));
    assert_eq!(vm.pc, 4);
    assert!(vm.pc_valid());
    assert_eq!(vm.run(), Ok(()));
    assert_eq!(vm.registers[1], 1);
    vm.pc = 0;
    vm.equal_flag = true;
    vm.program = vec![Opcode::JNEQ.into(), 0, 0, 0, Opcode::HLT.into(), 0, 0, 0];
    assert_eq!(vm.run_once(), Ok(true));
    assert_eq!(vm.pc, 4);
    vm.pc = 0;
    vm.registers[0] = -1;
    assert_eq!(vm.run_once(), Ok(true));
    assert_eq!(vm.pc, 4);
    vm.pc = 0;
    vm.equal_flag = false;
    assert_eq!(vm.run_once(), Err(VmError::InvalidJumpTarget { offset: 0 }));
    assert_eq!(vm.pc, 0);
}

#[test]
fn direct_jump_on_flag() {
    let mut vm = VM::new();
    vm.program = vec![Opcode::JEQD.into(), 1, 4, 0, Opcode::HLT.into(), 0, 0, 0];
    assert_eq!(vm.run_once(), Ok(true));
    assert_eq!(vm.pc, 4);
    vm.pc = 0;
    vm.equal_flag = true;
    assert_eq!(vm.run_once(), Ok(true));
    assert_eq!(vm.pc, 260);
    assert_eq!(vm.run_once(), Ok(false));
}

#[test]
fn aloc_boundaries() {
    let mut vm = VM::new();
    vm.registers[0] = 1024;
    vm.registers[1] = 0;
    vm.registers[2] = -1;
    vm.registers[3] = i32::MAX;
    vm.program = vec![
        Opcode::ALOC.into(), 0, 0, 0,
        Opcode::ALOC.into(), 1, 0, 0,
        Opcode::ALOC.into(), 2, 0, 0,
    ];
    assert_eq!(vm.run_once(), Ok(true));
    assert_eq!(vm.heap.len(), 1024);
    assert!(vm.heap.iter().all(|b| *b == 0));
    assert_eq!(vm.run_once(), Ok(true));
    assert_eq!(vm.heap.len(), 1024);
    assert_eq!(vm.pc, 8);
    assert_eq!(vm.run_once(), Err(VmError::InvalidAllocation { offset: 8 }));
    assert_eq!(vm.heap.len(), 1024);
    vm.program = vec![Opcode::ALOC.into(), 3, 0, 0];
    vm.pc = 0;
    assert_eq!(vm.run_once(), Err(VmError::InvalidAllocation { offset: 0 }));
    assert_eq!(vm.heap.len(), 1024);
}

#[test]
fn inc_and_dec() {
    let mut vm = VM::new();
    vm.registers[5] = 9;
    vm.program = vec![Opcode::INC.into(), 5, 0, 0, Opcode::DEC.into(), 6, 0, 0];
    assert_eq!(vm.run(), Ok(()));
    assert_eq!(vm.registers[5], 10);
    assert_eq!(vm.registers[6], -1);
    assert_eq!(vm.pc, 8);
}

#[test]
fn nop_halts_as_an_unknown_operation() {
    let mut vm = VM::new();
    vm.program = vec![Opcode::NOP.into(), 0, 0, 0, Opcode::INC.into(), 0, 0, 0];
    assert_eq!(vm.run(), Ok(()));
    assert_eq!(vm.pc, 1);
    assert_eq!(vm.registers[0], 0);
}

#[test]
fn one_instruction_for_each_call() {
    let mut vm = VM::new();
    vm.program = vec![
        Opcode::INC.into(), 0, 0, 0,
        Opcode::INC.into(), 0, 0, 0,
        Opcode::INC.into(), 0, 0, 0,
    ];
    for k in 1..=3usize {
        assert_eq!(vm.run_once(), Ok(true));
        assert_eq!(vm.pc, 4 * k);
        assert_eq!(vm.registers[0], k as i32);
    }
    assert_eq!(vm.run_once(), Ok(false));
    assert_eq!(vm.pc, 12);
    assert_eq!(vm.registers[0], 3);
}

#[test]
fn run_on_an_empty_program_halts() {
    let mut vm = VM::new();
    assert_eq!(vm.run(), Ok(()));
    assert_eq!(vm.pc, 0);
}

#[test]
fn debug_rows_overlap_by_four_bytes() {
    let mut vm = VM::new();
    vm.add_bytes((0u8..20).collect());
    assert_eq!(vm.dbg_row(0), vec![0, 1, 2, 3, 4, 5, 6, 7]);
    assert_eq!(vm.dbg_row(1), vec![4, 5, 6, 7, 8, 9, 10, 11]);
    assert_eq!(vm.dbg_row(3), vec![12, 13, 14, 15, 16, 17, 18, 19]);
}

#[test]
fn a_loop_runs_into_the_step_limit() {
    let mut vm = VM::new();
    vm.program = vec![Opcode::INC.into(), 1, 0, 0, Opcode::JMP.into(), 0, 0, 0];
    assert_eq!(vm.run_for(10), Err(VmError::StepLimit));
    assert_eq!(vm.registers[1], 5);
    assert_eq!(vm.pc, 0);
    assert_eq!(vm.run_for(1), Err(VmError::StepLimit));
    assert_eq!(vm.registers[1], 6);
    assert_eq!(vm.pc, 4);
    assert_eq!(vm.run_for(0), Err(VmError::StepLimit));
    assert_eq!(vm.pc, 4);
}

#[test]
fn run_for_stops_at_a_halt() {
    let mut vm = VM::new();
    vm.program = vec![Opcode::INC.into(), 1, 0, 0, Opcode::HLT.into(), 0, 0, 0];
    assert_eq!(vm.run_for(2), Ok(()));
    assert_eq!(vm.pc, 5);
    assert_eq!(vm.registers[1], 1);
}
