//! The instruction set: opcodes, their byte codes and their mnemonics.

use vstd::prelude::*;

verus! {

/// One operation of the machine. `IGL` stands for every byte and every
/// mnemonic that names no operation.
#[derive(Debug, Clone, Copy, PartialEq, Eq, Structural)]
pub enum Opcode {
    HLT,
    LOAD,
    ADD,
    SUB,
    MUL,
    DIV,
    JMP,
    JMPF,
    JMPB,
    EQ,
    NEQ,
    GT,
    LT,
    GTE,
    LTE,
    JEQD,
    JEQ,
    IGL,
    NOP,
    ALOC,
    INC,
    DEC,
    JNEQ,
}

/// The byte that `IGL` is written as.
pub const ILLEGAL_BYTE: u8 = 255;

/// The operation that a byte selects.
pub open spec fn opcode_of_byte(v: u8) -> Opcode {
    if v == 0 {
        Opcode::HLT
    } else if v == 1 {
        Opcode::LOAD
    } else if v == 2 {
        Opcode::ADD
    } else if v == 3 {
        Opcode::SUB
    } else if v == 4 {
        Opcode::MUL
    } else if v == 5 {
        Opcode::DIV
    } else if v == 6 {
        Opcode::JMP
    } else if v == 7 {
        Opcode::JMPF
    } else if v == 8 {
        Opcode::JMPB
    } else if v == 9 {
        Opcode::EQ
    } else if v == 10 {
        Opcode::NEQ
    } else if v == 11 {
        Opcode::GT
    } else if v == 12 {
        Opcode::LT
    } else if v == 13 {
        Opcode::GTE
    } else if v == 14 {
        Opcode::LTE
    } else if v == 15 {
        Opcode::JEQD
    } else if v == 16 {
        Opcode::JEQ
    } else if v == 17 {
        Opcode::NOP
    } else if v == 18 {
        Opcode::ALOC
    } else if v == 19 {
        Opcode::INC
    } else if v == 20 {
        Opcode::DEC
    } else if v == 21 {
        Opcode::JNEQ
    } else {
        Opcode::IGL
    }
}

/// The byte that an operation is written as.
pub open spec fn byte_of_opcode(op: Opcode) -> u8 {
    match op {
        Opcode::HLT => 0,
        Opcode::LOAD => 1,
        Opcode::ADD => 2,
        Opcode::SUB => 3,
        Opcode::MUL => 4,
        Opcode::DIV => 5,
        Opcode::JMP => 6,
        Opcode::JMPF => 7,
        Opcode::JMPB => 8,
        Opcode::EQ => 9,
        Opcode::NEQ => 10,
        Opcode::GT => 11,
        Opcode::LT => 12,
        Opcode::GTE => 13,
        Opcode::LTE => 14,
        Opcode::JEQD => 15,
        Opcode::JEQ => 16,
        Opcode::NOP => 17,
        Opcode::ALOC => 18,
        Opcode::INC => 19,
        Opcode::DEC => 20,
        Opcode::JNEQ => 21,
        Opcode::IGL => 255,
    }
}

/// `word` spells a mnemonic, given in lower and in upper case, whatever the
/// case of each of its letters.
pub open spec fn spells(word: Seq<char>, lower: Seq<char>, upper: Seq<char>) -> bool {
    &&& word.len() == lower.len()
    &&& forall|i: int| 0 <= i < word.len() ==> word[i] == lower[i] || word[i] == upper[i]
}

/// The operation that a mnemonic names; `IGL` where it names none.
pub open spec fn opcode_of_mnemonic(word: Seq<char>) -> Opcode {
    if spells(word, "eq"@, "EQ"@) {
        Opcode::EQ
    } else if spells(word, "gt"@, "GT"@) {
        Opcode::GT
    } else if spells(word, "lt"@, "LT"@) {
        Opcode::LT
    } else if spells(word, "add"@, "ADD"@) {
        Opcode::ADD
    } else if spells(word, "sub"@, "SUB"@) {
        Opcode::SUB
    } else if spells(word, "mul"@, "MUL"@) {
        Opcode::MUL
    } else if spells(word, "div"@, "DIV"@) {
        Opcode::DIV
    } else if spells(word, "hlt"@, "HLT"@) {
        Opcode::HLT
    } else if spells(word, "jmp"@, "JMP"@) {
        Opcode::JMP
    } else if spells(word, "neq"@, "NEQ"@) {
        Opcode::NEQ
    } else if spells(word, "gte"@, "GTE"@) {
        Opcode::GTE
    } else if spells(word, "lte"@, "LTE"@) {
        Opcode::LTE
    } else if spells(word, "jeq"@, "JEQ"@) {
        Opcode::JEQ
    } else if spells(word, "nop"@, "NOP"@) {
        Opcode::NOP
    } else if spells(word, "inc"@, "INC"@) {
        Opcode::INC
    } else if spells(word, "dec"@, "DEC"@) {
        Opcode::DEC
    } else if spells(word, "load"@, "LOAD"@) {
        Opcode::LOAD
    } else if spells(word, "aloc"@, "ALOC"@) {
        Opcode::ALOC
    } else if spells(word, "jmpf"@, "JMPF"@) {
        Opcode::JMPF
    } else if spells(word, "jmpb"@, "JMPB"@) {
        Opcode::JMPB
    } else if spells(word, "jeqd"@, "JEQD"@) {
        Opcode::JEQD
    } else if spells(word, "jneq"@, "JNEQ"@) {
        Opcode::JNEQ
    } else {
        Opcode::IGL
    }
}

/// Tells whether `word` spells the mnemonic given in both cases.
fn spells_mnemonic(word: &str, lower: &str, upper: &str) -> (r: bool)
    requires
        lower@.len() == upper@.len(),
    ensures
        r == spells(word@, lower@, upper@),
{
    let n: usize = lower.unicode_len();
    if word.unicode_len() != n {
        return false;
    }
    let mut i: usize = 0;
    while i < n
        invariant
            i <= n,
            n == word@.len(),
            n == lower@.len(),
            n == upper@.len(),
            forall|j: int| 0 <= j < i ==> word@[j] == lower@[j] || word@[j] == upper@[j],
        decreases n - i,
    {
        let c: char = word.get_char(i);
        if c != lower.get_char(i) && c != upper.get_char(i) {
            return false;
        }
        i += 1;
    }
    true
}

impl Opcode {
    /// The operation that the mnemonic `word` names, in either case.
    pub fn from_mnemonic(word: &str) -> (op: Opcode)
        ensures
            op == opcode_of_mnemonic(word@),
    {
        proof {
            mnemonic_lengths();
        }
        if spells_mnemonic(word, "eq", "EQ") {
            Opcode::EQ
        } else if spells_mnemonic(word, "gt", "GT") {
            Opcode::GT
        } else if spells_mnemonic(word, "lt", "LT") {
            Opcode::LT
        } else if spells_mnemonic(word, "add", "ADD") {
            Opcode::ADD
        } else if spells_mnemonic(word, "sub", "SUB") {
            Opcode::SUB
        } else if spells_mnemonic(word, "mul", "MUL") {
            Opcode::MUL
        } else if spells_mnemonic(word, "div", "DIV") {
            Opcode::DIV
        } else if spells_mnemonic(word, "hlt", "HLT") {
            Opcode::HLT
        } else if spells_mnemonic(word, "jmp", "JMP") {
            Opcode::JMP
        } else if spells_mnemonic(word, "neq", "NEQ") {
            Opcode::NEQ
        } else if spells_mnemonic(word, "gte", "GTE") {
            Opcode::GTE
        } else if spells_mnemonic(word, "lte", "LTE") {
            Opcode::LTE
        } else if spells_mnemonic(word, "jeq", "JEQ") {
            Opcode::JEQ
        } else if spells_mnemonic(word, "nop", "NOP") {
            Opcode::NOP
        } else if spells_mnemonic(word, "inc", "INC") {
            Opcode::INC
        } else if spells_mnemonic(word, "dec", "DEC") {
            Opcode::DEC
        } else if spells_mnemonic(word, "load", "LOAD") {
            Opcode::LOAD
        } else if spells_mnemonic(word, "aloc", "ALOC") {
            Opcode::ALOC
        } else if spells_mnemonic(word, "jmpf", "JMPF") {
            Opcode::JMPF
        } else if spells_mnemonic(word, "jmpb", "JMPB") {
            Opcode::JMPB
        } else if spells_mnemonic(word, "jeqd", "JEQD") {
            Opcode::JEQD
        } else if spells_mnemonic(word, "jneq", "JNEQ") {
            Opcode::JNEQ
        } else {
            Opcode::IGL
        }
    }
}

/// The four letters `load` name the operation `LOAD`.
pub proof fn load_names_load(word: Seq<char>)
    requires
        word == seq!['l', 'o', 'a', 'd'],
    ensures
        opcode_of_mnemonic(word) == Opcode::LOAD,
{
    mnemonic_lengths();
    reveal_strlit("eq");
    reveal_strlit("gt");
    reveal_strlit("lt");
    reveal_strlit("add");
    reveal_strlit("sub");
    reveal_strlit("mul");
    reveal_strlit("div");
    reveal_strlit("hlt");
    reveal_strlit("jmp");
    reveal_strlit("neq");
    reveal_strlit("gte");
    reveal_strlit("lte");
    reveal_strlit("jeq");
    reveal_strlit("nop");
    reveal_strlit("inc");
    reveal_strlit("dec");
    reveal_strlit("load");
    reveal_strlit("LOAD");
    assert(spells(word, "load"@, "LOAD"@));
}

/// Each mnemonic has as many letters in upper case as in lower case.
proof fn mnemonic_lengths()
    ensures
        "eq"@.len() == "EQ"@.len(),
        "gt"@.len() == "GT"@.len(),
        "lt"@.len() == "LT"@.len(),
        "add"@.len() == "ADD"@.len(),
        "sub"@.len() == "SUB"@.len(),
        "mul"@.len() == "MUL"@.len(),
        "div"@.len() == "DIV"@.len(),
        "hlt"@.len() == "HLT"@.len(),
        "jmp"@.len() == "JMP"@.len(),
        "neq"@.len() == "NEQ"@.len(),
        "gte"@.len() == "GTE"@.len(),
        "lte"@.len() == "LTE"@.len(),
        "jeq"@.len() == "JEQ"@.len(),
        "nop"@.len() == "NOP"@.len(),
        "inc"@.len() == "INC"@.len(),
        "dec"@.len() == "DEC"@.len(),
        "load"@.len() == "LOAD"@.len(),
        "aloc"@.len() == "ALOC"@.len(),
        "jmpf"@.len() == "JMPF"@.len(),
        "jmpb"@.len() == "JMPB"@.len(),
        "jeqd"@.len() == "JEQD"@.len(),
        "jneq"@.len() == "JNEQ"@.len(),
{
    reveal_strlit("eq");
    reveal_strlit("EQ");
    reveal_strlit("gt");
    reveal_strlit("GT");
    reveal_strlit("lt");
    reveal_strlit("LT");
    reveal_strlit("add");
    reveal_strlit("ADD");
    reveal_strlit("sub");
    reveal_strlit("SUB");
    reveal_strlit("mul");
    reveal_strlit("MUL");
    reveal_strlit("div");
    reveal_strlit("DIV");
    reveal_strlit("hlt");
    reveal_strlit("HLT");
    reveal_strlit("jmp");
    reveal_strlit("JMP");
    reveal_strlit("neq");
    reveal_strlit("NEQ");
    reveal_strlit("gte");
    reveal_strlit("GTE");
    reveal_strlit("lte");
    reveal_strlit("LTE");
    reveal_strlit("jeq");
    reveal_strlit("JEQ");
    reveal_strlit("nop");
    reveal_strlit("NOP");
    reveal_strlit("inc");
    reveal_strlit("INC");
    reveal_strlit("dec");
    reveal_strlit("DEC");
    reveal_strlit("load");
    reveal_strlit("LOAD");
    reveal_strlit("aloc");
    reveal_strlit("ALOC");
    reveal_strlit("jmpf");
    reveal_strlit("JMPF");
    reveal_strlit("jmpb");
    reveal_strlit("JMPB");
    reveal_strlit("jeqd");
    reveal_strlit("JEQD");
    reveal_strlit("jneq");
    reveal_strlit("JNEQ");
}

impl From<u8> for Opcode {
    fn from(v: u8) -> (op: Opcode) {
        match v {
            0 => Opcode::HLT,
            1 => Opcode::LOAD,
            2 => Opcode::ADD,
            3 => Opcode::SUB,
            4 => Opcode::MUL,
            5 => Opcode::DIV,
            6 => Opcode::JMP,
            7 => Opcode::JMPF,
            8 => Opcode::JMPB,
            9 => Opcode::EQ,
            10 => Opcode::NEQ,
            11 => Opcode::GT,
            12 => Opcode::LT,
            13 => Opcode::GTE,
            14 => Opcode::LTE,
            15 => Opcode::JEQD,
            16 => Opcode::JEQ,
            17 => Opcode::NOP,
            18 => Opcode::ALOC,
            19 => Opcode::INC,
            20 => Opcode::DEC,
            21 => Opcode::JNEQ,
            _ => Opcode::IGL,
        }
    }
}

impl vstd::std_specs::convert::FromSpecImpl<u8> for Opcode {
    open spec fn obeys_from_spec() -> bool {
        true
    }

    open spec fn from_spec(v: u8) -> Opcode {
        opcode_of_byte(v)
    }
}

impl<'a> From<&'a str> for Opcode {
    fn from(word: &'a str) -> (op: Opcode) {
        Opcode::from_mnemonic(word)
    }
}

impl<'a> vstd::std_specs::convert::FromSpecImpl<&'a str> for Opcode {
    open spec fn obeys_from_spec() -> bool {
        true
    }

    open spec fn from_spec(word: &'a str) -> Opcode {
        opcode_of_mnemonic(word@)
    }
}

impl From<Opcode> for u8 {
    fn from(op: Opcode) -> (v: u8) {
        match op {
            Opcode::HLT => 0,
            Opcode::LOAD => 1,
            Opcode::ADD => 2,
            Opcode::SUB => 3,
            Opcode::MUL => 4,
            Opcode::DIV => 5,
            Opcode::JMP => 6,
            Opcode::JMPF => 7,
            Opcode::JMPB => 8,
            Opcode::EQ => 9,
            Opcode::NEQ => 10,
            Opcode::GT => 11,
            Opcode::LT => 12,
            Opcode::GTE => 13,
            Opcode::LTE => 14,
            Opcode::JEQD => 15,
            Opcode::JEQ => 16,
            Opcode::NOP => 17,
            Opcode::ALOC => 18,
            Opcode::INC => 19,
            Opcode::DEC => 20,
            Opcode::JNEQ => 21,
            Opcode::IGL => ILLEGAL_BYTE,
        }
    }
}

impl vstd::std_specs::convert::FromSpecImpl<Opcode> for u8 {
    open spec fn obeys_from_spec() -> bool {
        true
    }

    open spec fn from_spec(op: Opcode) -> u8 {
        byte_of_opcode(op)
    }
}

impl<'a> From<&'a Opcode> for u8 {
    fn from(op: &'a Opcode) -> (v: u8) {
        u8::from(*op)
    }
}

impl<'a> vstd::std_specs::convert::FromSpecImpl<&'a Opcode> for u8 {
    open spec fn obeys_from_spec() -> bool {
        true
    }

    open spec fn from_spec(op: &'a Opcode) -> u8 {
        byte_of_opcode(*op)
    }
}

/// Writing an operation as a byte and reading the byte back gives the
/// operation again.
pub proof fn opcode_survives_its_byte(op: Opcode)
    ensures
        opcode_of_byte(byte_of_opcode(op)) == op,
{
}

/// Every byte that selects an operation other than `IGL` is the byte that
/// this operation is written as.
pub proof fn byte_survives_its_opcode(v: u8)
    requires
        opcode_of_byte(v) != Opcode::IGL,
    ensures
        byte_of_opcode(opcode_of_byte(v)) == v,
{
}

/// An operation taken by itself, without operands.
#[derive(Debug, PartialEq)]
pub struct Instruction {
    pub opcode: Opcode,
}

impl Instruction {
    pub fn new(opcode: Opcode) -> (ins: Instruction)
        ensures
            ins.opcode == opcode,
    {
        Instruction { opcode: opcode }
    }
}

} // verus!
