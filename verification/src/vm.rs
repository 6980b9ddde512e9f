//! The virtual machine: its state, the meaning of one instruction, and the
//! loop that executes a program.

use crate::instruction::{opcode_of_byte, Opcode};
use vstd::prelude::*;

verus! {

/// Number of registers of the machine.
pub const REGISTER_COUNT: usize = 32;

/// Number of bytes that every instruction occupies.
pub const SLOT: usize = 4;

/// Most instructions that one call of `run` executes.
pub const STEP_LIMIT: u64 = 0xffff_ffff_ffff_ffff;

/// Why the machine refused an instruction. `offset` is the place of that
/// instruction in the program.
#[derive(Debug, Clone, Copy, PartialEq, Eq, Structural)]
pub enum VmError {
    /// An operand names a register that the machine does not have.
    RegisterOutOfRange { offset: usize },
    /// The divisor of a division is zero.
    DivisionByZero { offset: usize },
    /// A jump leads to a negative offset, or to one that no `usize` holds.
    InvalidJumpTarget { offset: usize },
    /// The result of an operation does not fit a register.
    ArithmeticOverflow { offset: usize },
    /// The program ends before the operands of the instruction do.
    TruncatedInstruction { offset: usize },
    /// The program counter does not point to the start of an instruction.
    MisalignedPc { offset: usize },
    /// An allocation is negative, or makes the heap larger than a register can count.
    InvalidAllocation { offset: usize },
    /// As many instructions as were allowed have been executed, and none of
    /// them was a halt.
    StepLimit,
}

/// The machine as a mathematical value.
pub struct VmState {
    pub registers: Seq<i32>,
    pub pc: usize,
    pub program: Seq<u8>,
    pub remainder: u32,
    pub equal_flag: bool,
    pub heap: Seq<u8>,
}

/// What one instruction does to the machine.
pub enum Outcome {
    /// The instruction was executed and the next one can follow.
    Continue(VmState),
    /// The machine stops here: a halt, an unknown operation, or the end of the program.
    Halt(VmState),
    /// The instruction was refused and nothing changed.
    Fault(VmError),
}

/// The machine: registers, a program with its counter, the remainder of
/// the last division, the flag of the last comparison, and a heap.
pub struct VM {
    pub registers: [i32; 32],
    pub pc: usize,
    pub program: Vec<u8>,
    pub remainder: u32,
    pub equal_flag: bool,
    pub heap: Vec<u8>,
}

impl View for VM {
    type V = VmState;

    open spec fn view(&self) -> VmState {
        VmState {
            registers: self.registers@,
            pc: self.pc,
            program: self.program@,
            remainder: self.remainder,
            equal_flag: self.equal_flag,
            heap: self.heap@,
        }
    }
}

/// Number of bytes that an operation takes from its slot after the opcode.
pub open spec fn operand_width(op: Opcode) -> int {
    match op {
        Opcode::HLT | Opcode::IGL | Opcode::NOP => 0,
        Opcode::JMP | Opcode::JMPF | Opcode::JMPB => 1,
        _ => 3,
    }
}

/// The `k`-th byte of the instruction at the program counter.
pub open spec fn slot_byte(s: VmState, k: int) -> u8 {
    s.program[s.pc + k]
}

/// The value of the register that the `k`-th byte of the instruction names.
pub open spec fn slot_register(s: VmState, k: int) -> int {
    s.registers[slot_byte(s, k) as int] as int
}

/// The `k`-th byte of the instruction names a register of the machine.
pub open spec fn names_register(s: VmState, k: int) -> bool {
    slot_byte(s, k) < 32
}

/// The number that two bytes hold, the first one being the upper half.
pub open spec fn immediate(high: u8, low: u8) -> int {
    high * 256 + low
}

/// A value that a register can hold.
pub open spec fn fits_register(v: int) -> bool {
    -0x8000_0000 <= v <= 0x7fff_ffff
}

/// Quotient of the division that rounds towards zero.
pub open spec fn quotient(x: int, d: int) -> int
    recommends
        d != 0,
{
    if x == 0 {
        0
    } else if x > 0 && d > 0 {
        x / d
    } else if x < 0 && d < 0 {
        ((x * -1) / (d * -1))
    } else if x < 0 {
        ((x * -1) / d) * -1
    } else {
        (x / (d * -1)) * -1
    }
}

/// Remainder of the division that rounds towards zero; it has the sign of `x`.
pub open spec fn residue(x: int, d: int) -> int
    recommends
        d != 0,
{
    if x == 0 {
        0
    } else if x > 0 && d > 0 {
        x % d
    } else if x < 0 && d < 0 {
        ((x * -1) % (d * -1)) * -1
    } else if x < 0 {
        ((x * -1) % d) * -1
    } else {
        x % (d * -1)
    }
}

/// A signed value as the remainder register holds it: in two's complement.
pub open spec fn as_remainder(v: int) -> int {
    if v >= 0 {
        v
    } else {
        v + 0x1_0000_0000
    }
}

/// The state after an instruction that writes `value` to the register named
/// by its first operand byte and leads on to the next instruction.
pub open spec fn store(s: VmState, value: int) -> VmState {
    VmState {
        registers: s.registers.update(slot_byte(s, 1) as int, value as i32),
        pc: (s.pc + 4) as usize,
        ..s
    }
}

/// An instruction with a destination and two source registers.
pub open spec fn arithmetic(s: VmState, value: int) -> Outcome {
    if !(names_register(s, 1) && names_register(s, 2) && names_register(s, 3)) {
        Outcome::Fault(VmError::RegisterOutOfRange { offset: s.pc })
    } else if !fits_register(value) {
        Outcome::Fault(VmError::ArithmeticOverflow { offset: s.pc })
    } else {
        Outcome::Continue(store(s, value))
    }
}

/// A division: the quotient goes to the destination, the remainder to the
/// remainder register, both taken from the sources as they were before.
pub open spec fn division(s: VmState) -> Outcome {
    let x = slot_register(s, 2);
    let d = slot_register(s, 3);
    if !(names_register(s, 1) && names_register(s, 2) && names_register(s, 3)) {
        Outcome::Fault(VmError::RegisterOutOfRange { offset: s.pc })
    } else if d == 0 {
        Outcome::Fault(VmError::DivisionByZero { offset: s.pc })
    } else if !fits_register(quotient(x, d)) {
        Outcome::Fault(VmError::ArithmeticOverflow { offset: s.pc })
    } else {
        Outcome::Continue(
            VmState { remainder: as_remainder(residue(x, d)) as u32, ..store(s, quotient(x, d)) },
        )
    }
}

/// An instruction that changes its one register by `delta`.
pub open spec fn adjust(s: VmState, delta: int) -> Outcome {
    if !names_register(s, 1) {
        Outcome::Fault(VmError::RegisterOutOfRange { offset: s.pc })
    } else if !fits_register(slot_register(s, 1) + delta) {
        Outcome::Fault(VmError::ArithmeticOverflow { offset: s.pc })
    } else {
        Outcome::Continue(store(s, slot_register(s, 1) + delta))
    }
}

/// A comparison of two registers; `flag` is what it finds.
pub open spec fn comparison(s: VmState, flag: bool) -> Outcome {
    if !(names_register(s, 1) && names_register(s, 2)) {
        Outcome::Fault(VmError::RegisterOutOfRange { offset: s.pc })
    } else {
        Outcome::Continue(VmState { equal_flag: flag, pc: (s.pc + 4) as usize, ..s })
    }
}

/// A jump to `target` where `taken` holds; else on to the next instruction.
pub open spec fn jump(s: VmState, taken: bool, target: int) -> Outcome {
    if !names_register(s, 1) {
        Outcome::Fault(VmError::RegisterOutOfRange { offset: s.pc })
    } else if !taken {
        Outcome::Continue(VmState { pc: (s.pc + 4) as usize, ..s })
    } else if !(0 <= target <= usize::MAX) {
        Outcome::Fault(VmError::InvalidJumpTarget { offset: s.pc })
    } else {
        Outcome::Continue(VmState { pc: target as usize, ..s })
    }
}

/// A jump, where the flag is set, to the offset that the instruction itself
/// holds in its first two operand bytes; else on to the next instruction.
pub open spec fn direct_jump(s: VmState) -> Outcome {
    if s.equal_flag {
        Outcome::Continue(
            VmState { pc: immediate(slot_byte(s, 1), slot_byte(s, 2)) as usize, ..s },
        )
    } else {
        Outcome::Continue(VmState { pc: (s.pc + 4) as usize, ..s })
    }
}

/// The load of a 16-bit number into a register.
pub open spec fn load(s: VmState) -> Outcome {
    if !names_register(s, 1) {
        Outcome::Fault(VmError::RegisterOutOfRange { offset: s.pc })
    } else {
        Outcome::Continue(store(s, immediate(slot_byte(s, 2), slot_byte(s, 3))))
    }
}

/// An allocation: the heap grows by as many zero bytes as the register says.
pub open spec fn allocation(s: VmState) -> Outcome {
    let n = slot_register(s, 1);
    if !names_register(s, 1) {
        Outcome::Fault(VmError::RegisterOutOfRange { offset: s.pc })
    } else if n < 0 || s.heap.len() + n > 0x7fff_ffff {
        Outcome::Fault(VmError::InvalidAllocation { offset: s.pc })
    } else {
        Outcome::Continue(
            VmState {
                heap: s.heap + Seq::new(n as nat, |i: int| 0u8),
                pc: (s.pc + 4) as usize,
                ..s
            },
        )
    }
}

/// What the operation `op`, found at the program counter with all its
/// operand bytes, does.
pub open spec fn execute(s: VmState, op: Opcode) -> Outcome {
    match op {
        Opcode::LOAD => load(s),
        Opcode::ADD => arithmetic(s, slot_register(s, 2) + slot_register(s, 3)),
        Opcode::SUB => arithmetic(s, slot_register(s, 2) - slot_register(s, 3)),
        Opcode::MUL => arithmetic(s, slot_register(s, 2) * slot_register(s, 3)),
        Opcode::DIV => division(s),
        Opcode::JMP => jump(s, true, slot_register(s, 1)),
        Opcode::JMPF => jump(s, true, s.pc + 2 + slot_register(s, 1)),
        Opcode::JMPB => jump(s, true, s.pc + 2 - slot_register(s, 1)),
        Opcode::EQ => comparison(s, slot_register(s, 1) == slot_register(s, 2)),
        Opcode::NEQ => comparison(s, slot_register(s, 1) != slot_register(s, 2)),
        Opcode::GT => comparison(s, slot_register(s, 1) > slot_register(s, 2)),
        Opcode::LT => comparison(s, slot_register(s, 1) < slot_register(s, 2)),
        Opcode::GTE => comparison(s, slot_register(s, 1) >= slot_register(s, 2)),
        Opcode::LTE => comparison(s, slot_register(s, 1) <= slot_register(s, 2)),
        Opcode::JEQ => jump(s, s.equal_flag, slot_register(s, 1)),
        Opcode::JNEQ => jump(s, !s.equal_flag, slot_register(s, 1)),
        Opcode::JEQD => direct_jump(s),
        Opcode::ALOC => allocation(s),
        Opcode::INC => adjust(s, 1),
        Opcode::DEC => adjust(s, -1),
        Opcode::HLT | Opcode::IGL | Opcode::NOP => Outcome::Halt(
            VmState { pc: (s.pc + 1) as usize, ..s },
        ),
    }
}

/// What one step does to the machine in state `s`.
pub open spec fn step(s: VmState) -> Outcome {
    if s.pc >= s.program.len() {
        Outcome::Halt(s)
    } else if s.pc % 4 != 0 {
        Outcome::Fault(VmError::MisalignedPc { offset: s.pc })
    } else if s.pc + 1 + operand_width(opcode_of_byte(s.program[s.pc as int]))
        > s.program.len() {
        Outcome::Fault(VmError::TruncatedInstruction { offset: s.pc })
    } else {
        execute(s, opcode_of_byte(s.program[s.pc as int]))
    }
}

/// The state in which at most `fuel` steps from `s` end, and how they end:
/// `Ok` after a halt, the fault after a refused instruction.
pub open spec fn run_from(s: VmState, fuel: nat) -> (VmState, Result<(), VmError>)
    decreases fuel,
{
    if fuel == 0 {
        (s, Err(VmError::StepLimit))
    } else {
        match step(s) {
            Outcome::Continue(next) => run_from(next, (fuel - 1) as nat),
            Outcome::Halt(last) => (last, Ok(())),
            Outcome::Fault(e) => (s, Err(e)),
        }
    }
}

/// The exact result of one step: `Ok(true)` after an instruction that lets the
/// program go on, `Ok(false)` at a halt, the fault with the machine unchanged.
pub open spec fn stepped(before: VmState, after: VmState, r: Result<bool, VmError>) -> bool {
    match step(before) {
        Outcome::Continue(next) => r == Ok::<bool, VmError>(true) && after == next,
        Outcome::Halt(last) => r == Ok::<bool, VmError>(false) && after == last,
        Outcome::Fault(e) => r == Err::<bool, VmError>(e) && after == before,
    }
}

/// A quotient of two registers fits a register, except the one of the least
/// value by -1; the remainder always does.
proof fn division_fits(x: int, d: int)
    requires
        fits_register(x),
        fits_register(d),
        d != 0,
    ensures
        fits_register(quotient(x, d)) <==> !(x == -0x8000_0000 && d == -1),
        fits_register(residue(x, d)),
{
    let a = if x < 0 { -x } else { x };
    let b = if d < 0 { -d } else { d };
    assert(0 <= a / b <= a && 0 <= a % b < b) by (nonlinear_arith)
        requires
            0 <= a,
            0 < b,
    ;
    assert(b >= 2 && a > 0 ==> a / b < a) by (nonlinear_arith)
        requires
            0 <= a,
            0 < b,
    ;
    assert(b == 1 ==> a / b == a) by (nonlinear_arith)
        requires
            0 <= a,
            0 < b,
    ;
}

/// The offset that `target` is, where it is one.
fn to_offset(target: i128) -> (r: Option<usize>)
    ensures
        match r {
            Some(t) => t == target,
            None => !(0 <= target <= usize::MAX),
        },
{
    if 0 <= target && target <= usize::MAX as i128 {
        Some(target as usize)
    } else {
        None
    }
}

impl VM {
    /// The state of a machine that has executed nothing: no program, an
    /// empty heap, and zero in every register.
    pub open spec fn new_state() -> VmState {
        VmState {
            registers: Seq::new(32, |i: int| 0i32),
            pc: 0,
            program: Seq::empty(),
            remainder: 0,
            equal_flag: false,
            heap: Seq::empty(),
        }
    }

    /// A machine that has executed nothing.
    pub fn new() -> (vm: VM)
        ensures
            vm@ == VM::new_state(),
    {
        let vm = VM {
            registers: [0; 32],
            pc: 0,
            program: Vec::new(),
            remainder: 0,
            equal_flag: false,
            heap: Vec::new(),
        };
        assert(vm@.registers =~= Seq::new(32, |i: int| 0i32));
        vm
    }

    /// Appends one byte to the program.
    pub fn add_byte(&mut self, v: u8)
        ensures
            final(self)@ == (VmState { program: old(self)@.program.push(v), ..old(self)@ }),
    {
        self.program.push(v);
    }

    /// Appends `bytes` to the program.
    pub fn add_bytes(&mut self, bytes: Vec<u8>)
        ensures
            final(self)@ == (VmState { program: old(self)@.program + bytes@, ..old(self)@ }),
    {
        let mut bytes = bytes;
        self.program.append(&mut bytes);
    }

    /// The eight bytes of the program that row `row` of the debug dump shows:
    /// those from offset `4 * row` on. The dump has four rows, so it takes a
    /// program of twenty bytes.
    pub fn dbg_row(&self, row: usize) -> (bytes: Vec<u8>)
        requires
            row < 4,
            self.program@.len() >= 20,
        ensures
            bytes@ == self.program@.subrange(4 * row, 4 * row + 8),
    {
        let mut bytes: Vec<u8> = Vec::new();
        let mut j: usize = 0;
        while j < 8
            invariant
                j <= 8,
                row < 4,
                self.program@.len() >= 20,
                bytes@ == self.program@.subrange(4 * row, 4 * row + j),
            decreases 8 - j,
        {
            bytes.push(self.program[row * 4 + j]);
            assert(bytes@ =~= self.program@.subrange(4 * row, 4 * row + j + 1));
            j += 1;
        }
        bytes
    }

    /// Tells whether the program counter points to the start of an instruction.
    pub fn pc_valid(&self) -> (r: bool)
        ensures
            r == (self.pc % 4 == 0),
    {
        self.pc % 4 == 0
    }

    /// Reads the byte at the program counter.
    fn next_8_bits(&mut self) -> (result: u8)
        requires
            old(self).pc < old(self).program.len(),
        ensures
            result == old(self).program@[old(self).pc as int],
            final(self)@ == (VmState { pc: (old(self).pc + 1) as usize, ..old(self)@ }),
    {
        let result: u8 = self.program[self.pc];
        self.pc += 1;
        result
    }

    /// Reads the number that the two bytes at the program counter hold.
    fn next_16_bits(&mut self) -> (result: u16)
        requires
            old(self).pc + 1 < old(self).program.len(),
        ensures
            result == immediate(
                old(self).program@[old(self).pc as int],
                old(self).program@[old(self).pc + 1],
            ),
            final(self)@ == (VmState { pc: (old(self).pc + 2) as usize, ..old(self)@ }),
    {
        let high: u16 = self.program[self.pc] as u16;
        let low: u16 = self.program[self.pc + 1] as u16;
        self.pc += 2;
        high * 256 + low
    }

    /// Reads the operation at the program counter.
    fn decode_opcode(&mut self) -> (opcode: Opcode)
        requires
            old(self).pc < old(self).program.len(),
        ensures
            opcode == opcode_of_byte(old(self).program@[old(self).pc as int]),
            final(self)@ == (VmState { pc: (old(self).pc + 1) as usize, ..old(self)@ }),
    {
        let opcode = Opcode::from(self.program[self.pc]);
        self.pc += 1;
        opcode
    }

    /// Puts the program counter back to `start` and reports `e`.
    fn refuse(&mut self, start: usize, e: VmError) -> (r: Result<bool, VmError>)
        ensures
            r == Err::<bool, VmError>(e),
            final(self)@ == (VmState { pc: start, ..old(self)@ }),
    {
        self.pc = start;
        Err(e)
    }

    /// Reads one operand byte; `None` where it names no register.
    fn next_register(&mut self) -> (r: Option<usize>)
        requires
            old(self).pc < old(self).program.len(),
        ensures
            final(self)@ == (VmState { pc: (old(self).pc + 1) as usize, ..old(self)@ }),
            match r {
                Some(index) => index == old(self).program@[old(self).pc as int] && index < 32,
                None => old(self).program@[old(self).pc as int] >= 32,
            },
    {
        let index: usize = self.next_8_bits() as usize;
        if index < REGISTER_COUNT {
            Some(index)
        } else {
            None
        }
    }

    /// Reads three operand bytes; `None` where one of them names no register.
    fn next_three_registers(&mut self) -> (r: Option<(usize, usize, usize)>)
        requires
            old(self).pc + 2 < old(self).program.len(),
        ensures
            final(self)@ == (VmState { pc: (old(self).pc + 3) as usize, ..old(self)@ }),
            match r {
                Some((a, b, c)) => {
                    &&& a == old(self).program@[old(self).pc as int] && a < 32
                    &&& b == old(self).program@[old(self).pc + 1] && b < 32
                    &&& c == old(self).program@[old(self).pc + 2] && c < 32
                },
                None => {
                    ||| old(self).program@[old(self).pc as int] >= 32
                    ||| old(self).program@[old(self).pc + 1] >= 32
                    ||| old(self).program@[old(self).pc + 2] >= 32
                },
            },
    {
        let first = self.next_register();
        let second = self.next_register();
        let third = self.next_register();
        match (first, second, third) {
            (Some(a), Some(b), Some(c)) => Some((a, b, c)),
            _ => None,
        }
    }

    /// Ends an instruction that writes `value`, where there is one, to register `a`.
    fn finish_store(&mut self, start: usize, a: usize, value: Option<i32>) -> (r: Result<bool, VmError>)
        requires
            a < 32,
            start + 4 <= usize::MAX,
        ensures
            match value {
                Some(v) => r == Ok::<bool, VmError>(true) && final(self)@ == (VmState {
                    registers: old(self)@.registers.update(a as int, v),
                    pc: (start + 4) as usize,
                    ..old(self)@
                }),
                None => r == Err::<bool, VmError>(VmError::ArithmeticOverflow { offset: start })
                    && final(self)@ == (VmState { pc: start, ..old(self)@ }),
            },
    {
        match value {
            Some(v) => {
                self.registers[a] = v;
                self.pc = start + SLOT;
                Ok(true)
            },
            None => self.refuse(start, VmError::ArithmeticOverflow { offset: start }),
        }
    }

    /// Ends a comparison that found `flag`.
    fn finish_comparison(&mut self, start: usize, found: Option<bool>) -> (r: Result<bool, VmError>)
        requires
            start + 4 <= usize::MAX,
        ensures
            match found {
                Some(flag) => r == Ok::<bool, VmError>(true) && final(self)@ == (VmState {
                    equal_flag: flag,
                    pc: (start + 4) as usize,
                    ..old(self)@
                }),
                None => r == Err::<bool, VmError>(VmError::RegisterOutOfRange { offset: start })
                    && final(self)@ == (VmState { pc: start, ..old(self)@ }),
            },
    {
        match found {
            Some(flag) => {
                self.equal_flag = flag;
                self.pc = start + SLOT;
                Ok(true)
            },
            None => self.refuse(start, VmError::RegisterOutOfRange { offset: start }),
        }
    }

    /// Reads the two registers of a comparison and the byte that pads it.
    fn next_pair(&mut self) -> (r: Option<(i32, i32)>)
        requires
            old(self).pc + 2 < old(self).program.len(),
        ensures
            final(self)@ == (VmState { pc: (old(self).pc + 3) as usize, ..old(self)@ }),
            match r {
                Some((x, y)) => {
                    &&& old(self).program@[old(self).pc as int] < 32
                    &&& old(self).program@[old(self).pc + 1] < 32
                    &&& x == old(self)@.registers[old(self).program@[old(self).pc as int] as int]
                    &&& y == old(self)@.registers[old(self).program@[old(self).pc + 1] as int]
                },
                None => {
                    ||| old(self).program@[old(self).pc as int] >= 32
                    ||| old(self).program@[old(self).pc + 1] >= 32
                },
            },
    {
        let first = self.next_register();
        let second = self.next_register();
        self.next_8_bits();
        match (first, second) {
            (Some(a), Some(b)) => Some((self.registers[a], self.registers[b])),
            _ => None,
        }
    }

    /// Ends a jump whose register was read: to `target` where `taken` holds,
    /// else to the next instruction.
    fn finish_jump(&mut self, start: usize, taken: bool, target: Option<usize>) -> (r: Result<bool, VmError>)
        requires
            !taken ==> start + 4 <= usize::MAX,
        ensures
            match (taken, target) {
                (false, _) => r == Ok::<bool, VmError>(true) && final(self)@ == (VmState {
                    pc: (start + 4) as usize,
                    ..old(self)@
                }),
                (true, Some(t)) => r == Ok::<bool, VmError>(true) && final(self)@ == (VmState {
                    pc: t,
                    ..old(self)@
                }),
                (true, None) => r == Err::<bool, VmError>(
                    VmError::InvalidJumpTarget { offset: start },
                ) && final(self)@ == (VmState { pc: start, ..old(self)@ }),
            },
    {
        if !taken {
            self.pc = start + SLOT;
            Ok(true)
        } else {
            match target {
                Some(t) => {
                    self.pc = t;
                    Ok(true)
                },
                None => self.refuse(start, VmError::InvalidJumpTarget { offset: start }),
            }
        }
    }

    /// Lengthens the heap by `n` zero bytes.
    fn grow_heap(&mut self, n: usize)
        requires
            old(self).heap@.len() + n <= usize::MAX,
        ensures
            final(self)@ == (VmState {
                heap: old(self)@.heap + Seq::new(n as nat, |i: int| 0u8),
                ..old(self)@
            }),
    {
        let length: usize = self.heap.len();
        self.heap.resize(length + n, 0);
        assert(self.heap@ =~= old(self)@.heap + Seq::new(n as nat, |i: int| 0u8)) by {
            assert(self.heap@.len() == length + n);
            assert(self.heap@.subrange(0, length as int) == old(self)@.heap);
            assert forall|i: int| 0 <= i < length implies self.heap@[i] == old(self)@.heap[i] by {
                assert(self.heap@.subrange(0, length as int)[i] == self.heap@[i]);
            }
        }
    }

    /// Executes the instruction at the program counter. `Ok(true)` lets the
    /// program go on, `Ok(false)` is a halt; a refused instruction changes nothing.
    fn execute_instruction(&mut self) -> (r: Result<bool, VmError>)
        ensures
            stepped(old(self)@, final(self)@, r),
    {
        let start: usize = self.pc;
        if start >= self.program.len() {
            return Ok(false);
        }
        if start % SLOT != 0 {
            return Err(VmError::MisalignedPc { offset: start });
        }
        let opcode = self.decode_opcode();
        let width: usize = match opcode {
            Opcode::HLT | Opcode::IGL | Opcode::NOP => 0,
            Opcode::JMP | Opcode::JMPF | Opcode::JMPB => 1,
            _ => 3,
        };
        if self.program.len() - self.pc < width {
            return self.refuse(start, VmError::TruncatedInstruction { offset: start });
        }
        match opcode {
            Opcode::HLT | Opcode::IGL | Opcode::NOP => Ok(false),
            Opcode::LOAD => {
                let register = self.next_register();
                let number: u16 = self.next_16_bits();
                match register {
                    Some(a) => self.finish_store(start, a, Some(number as i32)),
                    None => self.refuse(start, VmError::RegisterOutOfRange { offset: start }),
                }
            },
            Opcode::ADD => match self.next_three_registers() {
                Some((a, b, c)) => {
                    let value = self.registers[b].checked_add(self.registers[c]);
                    self.finish_store(start, a, value)
                },
                None => self.refuse(start, VmError::RegisterOutOfRange { offset: start }),
            },
            Opcode::SUB => match self.next_three_registers() {
                Some((a, b, c)) => {
                    let value = self.registers[b].checked_sub(self.registers[c]);
                    self.finish_store(start, a, value)
                },
                None => self.refuse(start, VmError::RegisterOutOfRange { offset: start }),
            },
            Opcode::MUL => match self.next_three_registers() {
                Some((a, b, c)) => {
                    let value = self.registers[b].checked_mul(self.registers[c]);
                    self.finish_store(start, a, value)
                },
                None => self.refuse(start, VmError::RegisterOutOfRange { offset: start }),
            },
            Opcode::DIV => match self.next_three_registers() {
                Some((a, b, c)) => {
                    let x: i32 = self.registers[b];
                    let d: i32 = self.registers[c];
                    if d == 0 {
                        return self.refuse(start, VmError::DivisionByZero { offset: start });
                    }
                    proof {
                        division_fits(x as int, d as int);
                    }
                    match (x.checked_div(d), x.checked_rem(d)) {
                        (Some(q), Some(rest)) => {
                            self.remainder = if rest >= 0 {
                                rest as u32
                            } else {
                                (rest as i64 + 0x1_0000_0000) as u32
                            };
                            self.finish_store(start, a, Some(q))
                        },
                        _ => self.refuse(start, VmError::ArithmeticOverflow { offset: start }),
                    }
                },
                None => self.refuse(start, VmError::RegisterOutOfRange { offset: start }),
            },
            Opcode::JMP => match self.next_register() {
                Some(a) => {
                    let target = to_offset(self.registers[a] as i128);
                    self.finish_jump(start, true, target)
                },
                None => self.refuse(start, VmError::RegisterOutOfRange { offset: start }),
            },
            Opcode::JMPF => match self.next_register() {
                Some(a) => {
                    let target = to_offset(self.pc as i128 + self.registers[a] as i128);
                    self.finish_jump(start, true, target)
                },
                None => self.refuse(start, VmError::RegisterOutOfRange { offset: start }),
            },
            Opcode::JMPB => match self.next_register() {
                Some(a) => {
                    let target = to_offset(self.pc as i128 - self.registers[a] as i128);
                    self.finish_jump(start, true, target)
                },
                None => self.refuse(start, VmError::RegisterOutOfRange { offset: start }),
            },
            Opcode::EQ => {
                let found = match self.next_pair() {
                    Some((x, y)) => Some(x == y),
                    None => None,
                };
                self.finish_comparison(start, found)
            },
            Opcode::NEQ => {
                let found = match self.next_pair() {
                    Some((x, y)) => Some(x != y),
                    None => None,
                };
                self.finish_comparison(start, found)
            },
            Opcode::GT => {
                let found = match self.next_pair() {
                    Some((x, y)) => Some(x > y),
                    None => None,
                };
                self.finish_comparison(start, found)
            },
            Opcode::LT => {
                let found = match self.next_pair() {
                    Some((x, y)) => Some(x < y),
                    None => None,
                };
                self.finish_comparison(start, found)
            },
            Opcode::GTE => {
                let found = match self.next_pair() {
                    Some((x, y)) => Some(x >= y),
                    None => None,
                };
                self.finish_comparison(start, found)
            },
            Opcode::LTE => {
                let found = match self.next_pair() {
                    Some((x, y)) => Some(x <= y),
                    None => None,
                };
                self.finish_comparison(start, found)
            },
            Opcode::JEQ => match self.next_register() {
                Some(a) => {
                    let target = to_offset(self.registers[a] as i128);
                    let taken: bool = self.equal_flag;
                    self.finish_jump(start, taken, target)
                },
                None => self.refuse(start, VmError::RegisterOutOfRange { offset: start }),
            },
            Opcode::JNEQ => match self.next_register() {
                Some(a) => {
                    let target = to_offset(self.registers[a] as i128);
                    let taken: bool = !self.equal_flag;
                    self.finish_jump(start, taken, target)
                },
                None => self.refuse(start, VmError::RegisterOutOfRange { offset: start }),
            },
            Opcode::JEQD => {
                let target: u16 = self.next_16_bits();
                if self.equal_flag {
                    self.pc = target as usize;
                } else {
                    self.pc = start + SLOT;
                }
                Ok(true)
            },
            Opcode::ALOC => match self.next_register() {
                Some(a) => {
                    let n: i32 = self.registers[a];
                    if n < 0 || self.heap.len() > 0x7fff_ffff - (n as usize) {
                        return self.refuse(start, VmError::InvalidAllocation { offset: start });
                    }
                    self.grow_heap(n as usize);
                    self.pc = start + SLOT;
                    Ok(true)
                },
                None => self.refuse(start, VmError::RegisterOutOfRange { offset: start }),
            },
            Opcode::INC => match self.next_register() {
                Some(a) => {
                    let value = self.registers[a].checked_add(1);
                    self.finish_store(start, a, value)
                },
                None => self.refuse(start, VmError::RegisterOutOfRange { offset: start }),
            },
            Opcode::DEC => match self.next_register() {
                Some(a) => {
                    let value = self.registers[a].checked_sub(1);
                    self.finish_store(start, a, value)
                },
                None => self.refuse(start, VmError::RegisterOutOfRange { offset: start }),
            },
        }
    }

    /// Executes the instruction at the program counter.
    pub fn run_once(&mut self) -> (r: Result<bool, VmError>)
        ensures
            stepped(old(self)@, final(self)@, r),
    {
        self.execute_instruction()
    }

    /// Executes instructions until the machine halts or refuses one, and
    /// `limit` of them at most: `StepLimit` says that the machine would go on.
    pub fn run_for(&mut self, limit: u64) -> (r: Result<(), VmError>)
        ensures
            (final(self)@, r) == run_from(old(self)@, limit as nat),
    {
        let mut budget: u64 = limit;
        while budget > 0
            invariant
                run_from(self@, budget as nat) == run_from(old(self)@, limit as nat),
            decreases budget,
        {
            match self.execute_instruction() {
                Ok(true) => {
                    budget -= 1;
                },
                Ok(false) => {
                    return Ok(());
                },
                Err(e) => {
                    return Err(e);
                },
            }
        }
        Err(VmError::StepLimit)
    }

    /// Executes instructions until the machine halts or refuses one, and
    /// `STEP_LIMIT` of them at most.
    pub fn run(&mut self) -> (r: Result<(), VmError>)
        ensures
            (final(self)@, r) == run_from(old(self)@, STEP_LIMIT as nat),
    {
        self.run_for(STEP_LIMIT)
    }
}

/// A state that a machine can be in: it has all its registers, and its
/// program is one that memory can hold.
pub open spec fn is_machine(s: VmState) -> bool {
    s.registers.len() == 32 && s.program.len() <= usize::MAX
}

/// The operations that lead on to the next instruction whenever they are executed.
pub open spec fn leads_on(op: Opcode) -> bool {
    match op {
        Opcode::HLT | Opcode::IGL | Opcode::NOP => false,
        Opcode::JMP | Opcode::JMPF | Opcode::JMPB | Opcode::JEQ | Opcode::JNEQ | Opcode::JEQD => false,
        _ => true,
    }
}

/// The six comparisons.
pub open spec fn compares(op: Opcode) -> bool {
    match op {
        Opcode::EQ | Opcode::NEQ | Opcode::GT | Opcode::LT | Opcode::GTE | Opcode::LTE => true,
        _ => false,
    }
}

/// What a comparison finds of two values.
pub open spec fn finding(op: Opcode, x: int, y: int) -> bool {
    match op {
        Opcode::EQ => x == y,
        Opcode::NEQ => x != y,
        Opcode::GT => x > y,
        Opcode::LT => x < y,
        Opcode::GTE => x >= y,
        _ => x <= y,
    }
}

/// The state after `n` steps of which each lets the program go on; `None`
/// where one of them is a halt or is refused.
pub open spec fn after_steps(s: VmState, n: nat) -> Option<VmState>
    decreases n,
{
    if n == 0 {
        Some(s)
    } else {
        match after_steps(s, (n - 1) as nat) {
            Some(before) => match step(before) {
                Outcome::Continue(next) => Some(next),
                _ => None,
            },
            None => None,
        }
    }
}

/// A machine stays a machine, and keeps its program, whatever it executes.
pub proof fn step_keeps_machine(s: VmState)
    requires
        is_machine(s),
    ensures
        match step(s) {
            Outcome::Continue(next) => is_machine(next) && next.program == s.program,
            Outcome::Halt(last) => is_machine(last) && last.program == s.program,
            Outcome::Fault(_) => true,
        },
{
}

/// The heap only grows: after a step it starts with what it held before.
pub proof fn heap_only_grows(s: VmState)
    requires
        is_machine(s),
    ensures
        match step(s) {
            Outcome::Continue(next) => s.heap.len() <= next.heap.len() && next.heap.take(
                s.heap.len() as int,
            ) == s.heap,
            Outcome::Halt(last) => last.heap == s.heap,
            Outcome::Fault(_) => true,
        },
{
    if let Outcome::Continue(next) = step(s) {
        assert(next.heap.take(s.heap.len() as int) =~= s.heap);
    }
}

/// The instruction at the program counter is a jump that is taken.
pub open spec fn jumps(s: VmState) -> bool {
    match opcode_of_byte(s.program[s.pc as int]) {
        Opcode::JMP | Opcode::JMPF | Opcode::JMPB => true,
        Opcode::JEQ | Opcode::JEQD => s.equal_flag,
        Opcode::JNEQ => !s.equal_flag,
        _ => false,
    }
}

/// The boundaries of instructions do not drift: every instruction that is
/// executed and is no jump that is taken leads to the start of the next
/// instruction, four bytes on and within the program or at its end.
pub proof fn boundaries_do_not_drift(s: VmState)
    requires
        is_machine(s),
        !jumps(s),
    ensures
        step(s) matches Outcome::Continue(next) ==> {
            &&& next.pc == s.pc + 4
            &&& next.pc % 4 == 0
            &&& next.pc <= s.program.len()
        },
{
}

/// At the end of its program the machine halts and changes nothing: no step
/// moves the program counter from there.
pub proof fn end_of_program_halts(s: VmState)
    requires
        s.pc >= s.program.len(),
    ensures
        step(s) == Outcome::Halt(s),
{
}

/// In a program whose instructions all lead on, `n` steps that are executed
/// execute `n` instructions: the program counter has moved by four bytes for
/// each, and not beyond the end of the program.
pub proof fn steps_keep_pace(s: VmState, n: nat)
    requires
        is_machine(s),
        forall|i: int|
            0 <= i < s.program.len() && i % 4 == 0 ==> leads_on(
                opcode_of_byte(#[trigger] s.program[i]),
            ),
    ensures
        after_steps(s, n) matches Some(t) ==> {
            &&& is_machine(t)
            &&& t.program == s.program
            &&& t.pc == s.pc + 4 * n
            &&& n > 0 ==> t.pc <= s.program.len()
        },
    decreases n,
{
    if n > 0 {
        steps_keep_pace(s, (n - 1) as nat);
        if let Some(before) = after_steps(s, (n - 1) as nat) {
            step_keeps_machine(before);
            if before.pc < before.program.len() && before.pc % 4 == 0 {
                assert(leads_on(opcode_of_byte(before.program[before.pc as int])));
            }
        }
    }
}

/// A load puts the number that its last two bytes hold, the upper byte
/// first, into its register, and leads on to the next instruction.
pub proof fn load_sets_register(s: VmState)
    requires
        is_machine(s),
        s.pc % 4 == 0,
        s.pc + 4 <= s.program.len(),
        opcode_of_byte(s.program[s.pc as int]) == Opcode::LOAD,
        names_register(s, 1),
    ensures
        step(s) == Outcome::Continue(
            VmState {
                registers: s.registers.update(
                    slot_byte(s, 1) as int,
                    (slot_byte(s, 2) * 256 + slot_byte(s, 3)) as i32,
                ),
                pc: (s.pc + 4) as usize,
                ..s
            },
        ),
{
}

/// An allocation lengthens the heap by exactly the value of its register,
/// and keeps what the heap held. With the value 0 the heap stays as it is.
pub proof fn allocation_grows_heap(s: VmState)
    requires
        is_machine(s),
        s.pc % 4 == 0,
        s.pc + 4 <= s.program.len(),
        opcode_of_byte(s.program[s.pc as int]) == Opcode::ALOC,
        names_register(s, 1),
        0 <= slot_register(s, 1),
        s.heap.len() + slot_register(s, 1) <= 0x7fff_ffff,
    ensures
        step(s) matches Outcome::Continue(next) && {
            &&& next.heap.len() == s.heap.len() + slot_register(s, 1)
            &&& next.heap.take(s.heap.len() as int) == s.heap
            &&& forall|i: int| s.heap.len() <= i < next.heap.len() ==> next.heap[i] == 0
            &&& slot_register(s, 1) == 0 ==> next.heap == s.heap
            &&& next.pc == s.pc + 4
        },
{
    let n = slot_register(s, 1);
    let grown = s.heap + Seq::new(n as nat, |i: int| 0u8);
    assert(grown.take(s.heap.len() as int) =~= s.heap);
    if n == 0 {
        assert(grown =~= s.heap);
    }
}

/// Each comparison takes the four bytes of its slot, the last of them unused,
/// and sets the flag to what it finds of its two registers as signed numbers.
/// Nothing else changes.
pub proof fn comparison_sets_flag(s: VmState)
    requires
        is_machine(s),
        s.pc % 4 == 0,
        s.pc + 4 <= s.program.len(),
        compares(opcode_of_byte(s.program[s.pc as int])),
        names_register(s, 1),
        names_register(s, 2),
    ensures
        step(s) == Outcome::Continue(
            VmState {
                equal_flag: finding(
                    opcode_of_byte(s.program[s.pc as int]),
                    slot_register(s, 1),
                    slot_register(s, 2),
                ),
                pc: (s.pc + 4) as usize,
                ..s
            },
        ),
        s.pc + 4 <= usize::MAX,
{
}

/// A relative jump moves the program counter by exactly the signed value of
/// its register, counted from behind the register operand: forwards for
/// `JMPF`, backwards for `JMPB`. It is refused where that leads below zero or
/// beyond what a `usize` holds.
pub proof fn relative_jump_moves_pc(s: VmState)
    requires
        is_machine(s),
        s.pc % 4 == 0,
        s.pc + 2 <= s.program.len(),
        opcode_of_byte(s.program[s.pc as int]) == Opcode::JMPF || opcode_of_byte(
            s.program[s.pc as int],
        ) == Opcode::JMPB,
        names_register(s, 1),
    ensures
        ({
            let value = slot_register(s, 1);
            let target = if opcode_of_byte(s.program[s.pc as int]) == Opcode::JMPF {
                s.pc + 2 + value
            } else {
                s.pc + 2 - value
            };
            if 0 <= target <= usize::MAX {
                step(s) == Outcome::Continue(VmState { pc: target as usize, ..s })
            } else {
                step(s) == Outcome::Fault(VmError::InvalidJumpTarget { offset: s.pc })
            }
        }),
{
}

} // verus!
