//! The assembler: instruction records, the symbol table, and the two phases
//! that turn a program into bytecode behind a fixed header.

pub mod asm_parsers;

use crate::assembler::asm_parsers::{parse, parse_spec};
use crate::instruction::{byte_of_opcode, Opcode};
use vstd::prelude::*;

verus! {

/// The four bytes that every assembled program starts with.
pub const PIE_HEADER_PREFIX: [u8; 4] = [45, 50, 49, 45];

/// Length of the header that precedes the instructions.
pub const PIE_HEADER_LENGTH: usize = 64;

/// The byte that stands in the place of the opcode where a record holds a directive.
pub const DIRECTIVE_PLACEHOLDER: u8 = 0;

/// Most records that a program can hold: each takes four bytes, and a label's
/// offset is a `u32`.
pub const MAX_RECORDS: usize = 0x3fff_ffff;

/// What the parsers read from a source text.
#[derive(Debug, PartialEq)]
pub enum Token {
    Op { code: Opcode },
    Register { reg_num: u8 },
    IntegerOperand { value: i32 },
    LabelDeclaration { name: String },
    LabelUsage { name: String },
    Directive { name: String },
}

/// A token as a mathematical value: names are sequences of characters.
pub enum TokenView {
    Op { code: Opcode },
    Register { reg_num: u8 },
    IntegerOperand { value: i32 },
    LabelDeclaration { name: Seq<char> },
    LabelUsage { name: Seq<char> },
    Directive { name: Seq<char> },
}

impl View for Token {
    type V = TokenView;

    open spec fn view(&self) -> TokenView {
        match *self {
            Token::Op { code } => TokenView::Op { code },
            Token::Register { reg_num } => TokenView::Register { reg_num },
            Token::IntegerOperand { value } => TokenView::IntegerOperand { value },
            Token::LabelDeclaration { name } => TokenView::LabelDeclaration { name: name@ },
            Token::LabelUsage { name } => TokenView::LabelUsage { name: name@ },
            Token::Directive { name } => TokenView::Directive { name: name@ },
        }
    }
}

/// The view of a token that may be absent.
pub open spec fn slot_view(slot: Option<Token>) -> Option<TokenView> {
    match slot {
        Some(token) => Some(token@),
        None => None,
    }
}

/// One line of a program: an operation or a directive, with a label and up to
/// three operands.
#[derive(Debug, PartialEq)]
pub struct AssemblerInstruction {
    pub opcode: Option<Token>,
    pub label: Option<Token>,
    pub directive: Option<Token>,
    pub operand1: Option<Token>,
    pub operand2: Option<Token>,
    pub operand3: Option<Token>,
}

/// A record as a mathematical value.
pub struct RecordView {
    pub opcode: Option<TokenView>,
    pub label: Option<TokenView>,
    pub directive: Option<TokenView>,
    pub operand1: Option<TokenView>,
    pub operand2: Option<TokenView>,
    pub operand3: Option<TokenView>,
}

impl View for AssemblerInstruction {
    type V = RecordView;

    open spec fn view(&self) -> RecordView {
        RecordView {
            opcode: slot_view(self.opcode),
            label: slot_view(self.label),
            directive: slot_view(self.directive),
            operand1: slot_view(self.operand1),
            operand2: slot_view(self.operand2),
            operand3: slot_view(self.operand3),
        }
    }
}

/// Why a record cannot be written as bytes.
#[derive(Debug, Clone, Copy, PartialEq, Eq, Structural)]
pub enum EncodeError {
    /// The record holds neither an operation nor a directive, or both, or
    /// another token in the place of one.
    MalformedRecord,
    /// An operand is neither a register, a number nor the use of a label.
    InvalidOperand,
    /// An operand uses a label that the program does not declare.
    UnresolvedLabel,
    /// The operands take more than the three bytes that a record has for them.
    TooLong,
    /// The program holds more than `MAX_RECORDS` records.
    TooManyRecords,
}

/// The upper of the two bytes that a number is written as.
pub open spec fn high_byte(v: int) -> u8 {
    ((v % 65536) / 256) as u8
}

/// The lower of the two bytes that a number is written as.
pub open spec fn low_byte(v: int) -> u8 {
    (v % 256) as u8
}

/// The first byte of a record, where the record is well formed.
pub open spec fn head_byte(record: RecordView) -> Option<u8> {
    match (record.opcode, record.directive) {
        (Some(TokenView::Op { code }), None) => Some(byte_of_opcode(code)),
        (None, Some(TokenView::Directive { name })) => Some(DIRECTIVE_PLACEHOLDER),
        _ => None,
    }
}

/// The bytes that an operand is written as, given the offsets of the labels.
pub open spec fn operand_bytes(
    operand: Option<TokenView>,
    table: Map<Seq<char>, u32>,
) -> Result<Seq<u8>, EncodeError> {
    match operand {
        None => Ok(Seq::empty()),
        Some(TokenView::Register { reg_num }) => Ok(seq![reg_num]),
        Some(TokenView::IntegerOperand { value }) => Ok(
            seq![high_byte(value as int), low_byte(value as int)],
        ),
        Some(TokenView::LabelUsage { name }) => if table.contains_key(name) {
            Ok(seq![high_byte(table[name] as int), low_byte(table[name] as int)])
        } else {
            Err(EncodeError::UnresolvedLabel)
        },
        Some(_) => Err(EncodeError::InvalidOperand),
    }
}

/// `bytes`, which are four at most, followed by zeros up to four bytes.
pub open spec fn padded(bytes: Seq<u8>) -> Seq<u8> {
    Seq::new(4, |i: int| if i < bytes.len() { bytes[i] } else { 0u8 })
}

/// The four bytes that a record is written as, or why it cannot be written.
pub open spec fn encode_record(
    record: RecordView,
    table: Map<Seq<char>, u32>,
) -> Result<Seq<u8>, EncodeError> {
    match head_byte(record) {
        None => Err(EncodeError::MalformedRecord),
        Some(head) => match operand_bytes(record.operand1, table) {
            Err(e) => Err(e),
            Ok(first) => match operand_bytes(record.operand2, table) {
                Err(e) => Err(e),
                Ok(second) => match operand_bytes(record.operand3, table) {
                    Err(e) => Err(e),
                    Ok(third) => if first.len() + second.len() + third.len() > 3 {
                        Err(EncodeError::TooLong)
                    } else {
                        Ok(padded(seq![head] + first + second + third))
                    },
                },
            },
        },
    }
}

/// The name that a record declares as a label, where it declares one.
pub open spec fn declared_label(record: RecordView) -> Option<Seq<char>> {
    match record.label {
        Some(TokenView::LabelDeclaration { name }) => Some(name),
        _ => None,
    }
}

/// `table` after the first `count` records have added their labels, each with
/// the offset of its record; a later declaration of a name replaces an earlier one.
pub open spec fn with_labels(
    table: Map<Seq<char>, u32>,
    records: Seq<RecordView>,
    count: nat,
) -> Map<Seq<char>, u32>
    decreases count,
{
    if count == 0 {
        table
    } else {
        let before = with_labels(table, records, (count - 1) as nat);
        match declared_label(records[count - 1]) {
            Some(name) => before.insert(name, (4 * (count - 1)) as u32),
            None => before,
        }
    }
}

/// The bytes of the first `count` records, or the error of the first record
/// among them that cannot be written.
pub open spec fn encode_records(
    records: Seq<RecordView>,
    table: Map<Seq<char>, u32>,
    count: nat,
) -> Result<Seq<u8>, EncodeError>
    decreases count,
{
    if count == 0 {
        Ok(Seq::empty())
    } else {
        match encode_records(records, table, (count - 1) as nat) {
            Err(e) => Err(e),
            Ok(bytes) => match encode_record(records[count - 1], table) {
                Err(e) => Err(e),
                Ok(slot) => Ok(bytes + slot),
            },
        }
    }
}

/// The header of an assembled program: the prefix, then zeros.
pub open spec fn pie_header() -> Seq<u8> {
    Seq::new(
        64,
        |i: int|
            if i == 0 || i == 3 {
                45u8
            } else if i == 1 {
                50u8
            } else if i == 2 {
                49u8
            } else {
                0u8
            },
    )
}

/// The table of the labels that a program declares.
pub open spec fn symbols_of(records: Seq<RecordView>) -> Map<Seq<char>, u32> {
    with_labels(Map::empty(), records, records.len())
}

/// The bytes that a program is assembled to, header included, or why it cannot be.
pub open spec fn assembled(records: Seq<RecordView>) -> Result<Seq<u8>, EncodeError> {
    if records.len() > MAX_RECORDS {
        Err(EncodeError::TooManyRecords)
    } else {
        match encode_records(records, symbols_of(records), records.len()) {
            Err(e) => Err(e),
            Ok(body) => Ok(pie_header() + body),
        }
    }
}

/// The kind of a symbol.
#[derive(Debug, Clone, Copy, PartialEq, Eq, Structural)]
pub enum SymbolType {
    Label,
}

/// A name with the offset that it stands for.
#[derive(Debug)]
pub struct Symbol {
    pub name: String,
    pub offset: u32,
    pub symbol_type: SymbolType,
}

impl Symbol {
    pub fn new(name: String, offset: u32, symbol_type: SymbolType) -> (symbol: Symbol)
        ensures
            symbol.name == name,
            symbol.offset == offset,
            symbol.symbol_type == symbol_type,
    {
        Symbol { name, offset, symbol_type }
    }

    pub fn get_type(&self) -> (kind: SymbolType)
        ensures
            kind == self.symbol_type,
    {
        self.symbol_type
    }
}

/// The mapping that a list of symbols stands for: of two symbols with one
/// name the later one counts.
pub open spec fn table_of(symbols: Seq<Symbol>) -> Map<Seq<char>, u32>
    decreases symbols.len(),
{
    if symbols.len() == 0 {
        Map::empty()
    } else {
        table_of(symbols.drop_last()).insert(symbols.last().name@, symbols.last().offset)
    }
}

/// The symbols of one assembly, by name.
#[derive(Debug)]
pub struct SymbolTable {
    pub symbols: Vec<Symbol>,
}

impl View for SymbolTable {
    type V = Map<Seq<char>, u32>;

    open spec fn view(&self) -> Map<Seq<char>, u32> {
        table_of(self.symbols@)
    }
}

impl SymbolTable {
    /// A table without symbols.
    pub fn new() -> (table: SymbolTable)
        ensures
            table@ == Map::<Seq<char>, u32>::empty(),
            table.symbols@.len() == 0,
    {
        SymbolTable { symbols: Vec::new() }
    }

    /// Adds a symbol; it replaces an earlier one of the same name.
    pub fn add_symbol(&mut self, s: Symbol)
        ensures
            final(self)@ == old(self)@.insert(s.name@, s.offset),
            final(self).symbols@ == old(self).symbols@.push(s),
    {
        self.symbols.push(s);
        assert(self.symbols@.drop_last() =~= old(self).symbols@);
    }

    /// The offset of the symbol named `s`, where the table holds one.
    pub fn symbol_value(&self, s: &str) -> (value: Option<u32>)
        ensures
            value == (if self@.contains_key(s@) {
                Some(self@[s@])
            } else {
                None
            }),
    {
        let key: String = s.to_owned();
        let mut i: usize = self.symbols.len();
        assert(self.symbols@.take(i as int) =~= self.symbols@);
        while i > 0
            invariant
                i <= self.symbols@.len(),
                key@ == s@,
                table_of(self.symbols@.take(i as int)).contains_key(s@) == self@.contains_key(s@),
                self@.contains_key(s@) ==> table_of(self.symbols@.take(i as int))[s@] == self@[s@],
            decreases i,
        {
            let ghost prefix = self.symbols@.take(i as int);
            assert(prefix.drop_last() =~= self.symbols@.take(i - 1));
            assert(prefix.last() == self.symbols@[i - 1]);
            i -= 1;
            if self.symbols[i].name == key {
                return Some(self.symbols[i].offset);
            }
        }
        None
    }
}

/// The two bytes that the low 16 bits of `v` are written as, upper byte first.
fn two_bytes(v: u32) -> (pair: (u8, u8))
    ensures
        pair.0 == high_byte(v as int),
        pair.1 == low_byte(v as int),
{
    (((v % 65536) / 256) as u8, (v % 256) as u8)
}

/// The low 16 bits of `value` in two's complement; they are written as the
/// same two bytes as `value`.
fn low_half(value: i32) -> (w: u32)
    ensures
        w == (value as int) % 65536,
        high_byte(w as int) == high_byte(value as int),
        low_byte(w as int) == low_byte(value as int),
{
    proof {
        vstd::arithmetic::div_mod::lemma_mod_mod(value as int, 256, 256);
        vstd::arithmetic::div_mod::lemma_small_mod(((value as int) % 65536) as nat, 65536);
    }
    match value.checked_rem_euclid(65536) {
        Some(rest) => rest as u32,
        None => 0,
    }
}

/// Appends the bytes of one operand to `out`.
fn push_operand(
    operand: &Option<Token>,
    symbol_tbl: &SymbolTable,
    out: &mut Vec<u8>,
) -> (r: Result<(), EncodeError>)
    ensures
        match r {
            Ok(_) => operand_bytes(slot_view(*operand), symbol_tbl@) matches Ok(bytes)
                && final(out)@ == old(out)@ + bytes,
            Err(e) => operand_bytes(slot_view(*operand), symbol_tbl@) == Err::<
                Seq<u8>,
                EncodeError,
            >(e),
        },
{
    match operand {
        None => {
            assert(out@ =~= old(out)@ + Seq::<u8>::empty());
            Ok(())
        },
        Some(Token::Register { reg_num }) => {
            out.push(*reg_num);
            assert(out@ =~= old(out)@ + seq![*reg_num]);
            Ok(())
        },
        Some(Token::IntegerOperand { value }) => {
            let w: u32 = low_half(*value);
            let (upper, lower) = two_bytes(w);
            out.push(upper);
            out.push(lower);
            assert(out@ =~= old(out)@ + seq![upper, lower]);
            Ok(())
        },
        Some(Token::LabelUsage { name }) => {
            match symbol_tbl.symbol_value(name.as_str()) {
                Some(offset) => {
                    let (upper, lower) = two_bytes(offset);
                    out.push(upper);
                    out.push(lower);
                    assert(out@ =~= old(out)@ + seq![upper, lower]);
                    Ok(())
                },
                None => Err(EncodeError::UnresolvedLabel),
            }
        },
        Some(_) => Err(EncodeError::InvalidOperand),
    }
}

impl AssemblerInstruction {
    /// The first byte of the record: the opcode's, or the placeholder of a directive.
    fn head(&self) -> (r: Option<u8>)
        ensures
            r == head_byte(self@),
    {
        match (&self.opcode, &self.directive) {
            (Some(Token::Op { code }), None) => Some(u8::from(*code)),
            (None, Some(Token::Directive { name: _ })) => Some(DIRECTIVE_PLACEHOLDER),
            _ => None,
        }
    }

    /// The four bytes of the record, labels replaced by their offsets in `symbol_tbl`.
    pub fn to_bytes(&self, symbol_tbl: &SymbolTable) -> (r: Result<Vec<u8>, EncodeError>)
        ensures
            match r {
                Ok(bytes) => encode_record(self@, symbol_tbl@) == Ok::<Seq<u8>, EncodeError>(
                    bytes@,
                ),
                Err(e) => encode_record(self@, symbol_tbl@) == Err::<Seq<u8>, EncodeError>(e),
            },
    {
        let mut result: Vec<u8> = Vec::new();
        match self.head() {
            Some(head) => {
                result.push(head);
            },
            None => {
                return Err(EncodeError::MalformedRecord);
            },
        }
        match push_operand(&self.operand1, symbol_tbl, &mut result) {
            Ok(_) => {},
            Err(e) => {
                return Err(e);
            },
        }
        match push_operand(&self.operand2, symbol_tbl, &mut result) {
            Ok(_) => {},
            Err(e) => {
                return Err(e);
            },
        }
        match push_operand(&self.operand3, symbol_tbl, &mut result) {
            Ok(_) => {},
            Err(e) => {
                return Err(e);
            },
        }
        if result.len() > 4 {
            return Err(EncodeError::TooLong);
        }
        let ghost written = result@;
        while result.len() < 4
            invariant
                written.len() <= result@.len() <= 4,
                forall|i: int| 0 <= i < written.len() ==> result@[i] == written[i],
                forall|i: int| written.len() <= i < result@.len() ==> result@[i] == 0,
            decreases 4 - result@.len(),
        {
            result.push(0);
        }
        assert(result@ =~= padded(written));
        Ok(result)
    }
}

/// A record is written as four bytes, whatever operands it holds.
pub proof fn record_takes_four_bytes(record: RecordView, table: Map<Seq<char>, u32>)
    ensures
        encode_record(record, table) matches Ok(bytes) ==> bytes.len() == 4,
{
}

/// The records of a program, in their order.
#[derive(Debug, PartialEq)]
pub struct Program {
    pub instructions: Vec<AssemblerInstruction>,
}

impl View for Program {
    type V = Seq<RecordView>;

    open spec fn view(&self) -> Seq<RecordView> {
        Seq::new(self.instructions@.len(), |i: int| self.instructions@[i]@)
    }
}

/// The phase that an assembler is in: it collects labels in the first and
/// writes bytes in the second.
#[derive(Debug, Clone, Copy, PartialEq, Eq, Structural)]
pub enum AssemblerPhase {
    First,
    Second,
}

/// The assembler with what its last assembly left: the phase it reached, the
/// labels it found, and the program where the assembly succeeded.
#[derive(Debug)]
pub struct Assembler {
    pub phase: AssemblerPhase,
    pub symbols: SymbolTable,
    pub program: Option<Program>,
}

impl Assembler {
    /// An assembler that has assembled nothing.
    pub fn new() -> (assembler: Assembler)
        ensures
            assembler.phase == AssemblerPhase::First,
            assembler.symbols@ == Map::<Seq<char>, u32>::empty(),
            assembler.program is None,
    {
        Assembler { phase: AssemblerPhase::First, symbols: SymbolTable::new(), program: None }
    }

    /// Assembles a source text: `None` where the text is no program, which
    /// changes nothing, or where the program cannot be written as bytes, which
    /// leaves its labels behind but not the program.
    pub fn assemble(&mut self, raw: &str) -> (r: Option<Vec<u8>>)
        ensures
            match parse_spec(raw@) {
                Ok(records) => match assembled(records) {
                    Ok(bytes) => {
                        &&& r matches Some(v) && v@ == bytes
                        &&& final(self).program matches Some(kept) && kept@ == records
                        &&& final(self).symbols@ == symbols_of(records)
                    },
                    Err(e) => r is None && final(self).program == old(self).program && if e
                        == EncodeError::TooManyRecords {
                        *final(self) == *old(self)
                    } else {
                        final(self).symbols@ == symbols_of(records) && final(self).phase
                            == AssemblerPhase::Second
                    },
                },
                Err(_) => r is None && *final(self) == *old(self),
            },
    {
        match parse(raw) {
            Ok(program) => match self.assemble_program(program) {
                Ok(bytes) => Some(bytes),
                Err(_) => None,
            },
            Err(_) => None,
        }
    }

    /// The program of the last assembly that succeeded.
    pub fn get_assembled_program(&self) -> (r: Option<&Program>)
        ensures
            match r {
                Some(program) => self.program == Some(*program),
                None => self.program is None,
            },
    {
        self.program.as_ref()
    }

    /// Adds the labels that `p` declares to the symbols, each with the offset of its record.
    fn extract_labels(&mut self, p: &Program)
        requires
            p@.len() <= MAX_RECORDS,
        ensures
            final(self).symbols@ == with_labels(old(self).symbols@, p@, p@.len()),
            final(self).phase == old(self).phase,
            final(self).program == old(self).program,
    {
        let mut pos: u32 = 0;
        let mut i: usize = 0;
        while i < p.instructions.len()
            invariant
                i <= p.instructions@.len(),
                p@.len() == p.instructions@.len(),
                p@.len() <= MAX_RECORDS,
                pos == 4 * i,
                self.symbols@ == with_labels(old(self).symbols@, p@, i as nat),
                self.phase == old(self).phase,
                self.program == old(self).program,
            decreases p.instructions@.len() - i,
        {
            let ins = &p.instructions[i];
            assert(p@[i as int] == ins@);
            match &ins.label {
                Some(Token::LabelDeclaration { name }) => {
                    let symbol = Symbol::new(name.clone(), pos, SymbolType::Label);
                    self.symbols.add_symbol(symbol);
                },
                _ => {},
            }
            pos += 4;
            i += 1;
        }
    }

    /// The first phase: it collects the labels of `p`.
    fn process_first_phase(&mut self, p: &Program)
        requires
            p@.len() <= MAX_RECORDS,
        ensures
            final(self).symbols@ == with_labels(old(self).symbols@, p@, p@.len()),
            final(self).phase == AssemblerPhase::Second,
            final(self).program == old(self).program,
    {
        self.extract_labels(p);
        self.phase = AssemblerPhase::Second;
    }

    /// The second phase: it writes each record of `p` as four bytes.
    fn process_second_phase(&self, p: &Program) -> (r: Result<Vec<u8>, EncodeError>)
        ensures
            match r {
                Ok(body) => encode_records(p@, self.symbols@, p@.len()) == Ok::<
                    Seq<u8>,
                    EncodeError,
                >(body@),
                Err(e) => encode_records(p@, self.symbols@, p@.len()) == Err::<
                    Seq<u8>,
                    EncodeError,
                >(e),
            },
    {
        let mut program: Vec<u8> = Vec::new();
        let mut i: usize = 0;
        while i < p.instructions.len()
            invariant
                i <= p.instructions@.len(),
                p@.len() == p.instructions@.len(),
                encode_records(p@, self.symbols@, i as nat) == Ok::<Seq<u8>, EncodeError>(
                    program@,
                ),
            decreases p.instructions@.len() - i,
        {
            let ins = &p.instructions[i];
            assert(p@[i as int] == ins@);
            match ins.to_bytes(&self.symbols) {
                Ok(mut bytes) => {
                    program.append(&mut bytes);
                },
                Err(e) => {
                    proof {
                        fails_from(p@, self.symbols@, (i + 1) as nat, p@.len());
                    }
                    return Err(e);
                },
            }
            i += 1;
        }
        Ok(program)
    }

    /// The header that precedes the instructions.
    fn write_pie_header(&self) -> (header: Vec<u8>)
        ensures
            header@ == pie_header(),
    {
        let mut header: Vec<u8> = Vec::new();
        let mut i: usize = 0;
        while i < 4
            invariant
                i <= 4,
                header@.len() == i,
                forall|j: int| 0 <= j < i ==> header@[j] == pie_header()[j],
            decreases 4 - i,
        {
            header.push(PIE_HEADER_PREFIX[i]);
            i += 1;
        }
        while header.len() < PIE_HEADER_LENGTH
            invariant
                4 <= header@.len() <= 64,
                forall|j: int| 0 <= j < header@.len() ==> header@[j] == pie_header()[j],
            decreases 64 - header@.len(),
        {
            header.push(0);
        }
        assert(header@ =~= pie_header());
        header
    }

    /// Assembles a parsed program: the header, then four bytes for each
    /// record. The assembler keeps the program where that succeeds, and the
    /// labels of the program in either case; a program of too many records
    /// changes nothing.
    pub fn assemble_program(&mut self, program: Program) -> (r: Result<Vec<u8>, EncodeError>)
        ensures
            match r {
                Ok(bytes) => assembled(program@) == Ok::<Seq<u8>, EncodeError>(bytes@)
                    && final(self).program == Some(program)
                    && final(self).symbols@ == symbols_of(program@)
                    && final(self).phase == AssemblerPhase::Second,
                Err(e) => assembled(program@) == Err::<Seq<u8>, EncodeError>(e)
                    && final(self).program == old(self).program && if e
                    == EncodeError::TooManyRecords {
                    *final(self) == *old(self)
                } else {
                    final(self).symbols@ == symbols_of(program@) && final(self).phase
                        == AssemblerPhase::Second
                },
            },
    {
        if program.instructions.len() > MAX_RECORDS {
            return Err(EncodeError::TooManyRecords);
        }
        self.phase = AssemblerPhase::First;
        self.symbols = SymbolTable::new();
        let mut assembled_program = self.write_pie_header();
        self.process_first_phase(&program);
        match self.process_second_phase(&program) {
            Ok(mut body) => {
                self.program = Some(program);
                assembled_program.append(&mut body);
                Ok(assembled_program)
            },
            Err(e) => {
                proof {
                    records_are_not_counted(program@, self.symbols@, program@.len());
                }
                Err(e)
            },
        }
    }
}

/// No record fails for the number of records.
proof fn records_are_not_counted(records: Seq<RecordView>, table: Map<Seq<char>, u32>, count: nat)
    ensures
        encode_records(records, table, count) != Err::<Seq<u8>, EncodeError>(
            EncodeError::TooManyRecords,
        ),
    decreases count,
{
    if count > 0 {
        records_are_not_counted(records, table, (count - 1) as nat);
    }
}

/// Once a record cannot be written, no longer run of records can.
proof fn fails_from(records: Seq<RecordView>, table: Map<Seq<char>, u32>, count: nat, more: nat)
    requires
        count <= more,
        encode_records(records, table, count) is Err,
    ensures
        encode_records(records, table, more) == encode_records(records, table, count),
    decreases more - count,
{
    if count < more {
        fails_from(records, table, count, (more - 1) as nat);
    }
}

/// The bytes of `count` records are four times as many.
pub proof fn body_takes_four_bytes_each(
    records: Seq<RecordView>,
    table: Map<Seq<char>, u32>,
    count: nat,
)
    ensures
        encode_records(records, table, count) matches Ok(body) ==> body.len() == 4 * count,
    decreases count,
{
    if count > 0 {
        body_takes_four_bytes_each(records, table, (count - 1) as nat);
    }
}

/// Among the first `count` records, a label resolves to four times the index
/// of the last record that declares it.
proof fn label_found_among(records: Seq<RecordView>, i: int, name: Seq<char>, count: nat)
    requires
        0 <= i < count <= records.len() <= MAX_RECORDS,
        declared_label(records[i]) == Some(name),
        forall|j: int| i < j < records.len() ==> declared_label(#[trigger] records[j]) != Some(name),
    ensures
        with_labels(Map::empty(), records, count).contains_key(name),
        with_labels(Map::empty(), records, count)[name] == 4 * i,
    decreases count,
{
    if count > i + 1 {
        label_found_among(records, i, name, (count - 1) as nat);
        assert(declared_label(records[count - 1]) != Some(name));
    }
}

/// A label resolves to four times the index of the record that declares it,
/// whatever the records before it hold. Where several records declare one
/// name, this holds of the last of them.
pub proof fn label_resolves_to_its_record(records: Seq<RecordView>, i: int, name: Seq<char>)
    requires
        0 <= i < records.len() <= MAX_RECORDS,
        declared_label(records[i]) == Some(name),
        forall|j: int| i < j < records.len() ==> declared_label(#[trigger] records[j]) != Some(name),
    ensures
        symbols_of(records).contains_key(name),
        symbols_of(records)[name] == 4 * i,
{
    label_found_among(records, i, name, records.len());
}

/// Every label of a program stands for the start of a record: its offset is a
/// multiple of four, below four times the number of records.
pub proof fn labels_are_record_offsets(records: Seq<RecordView>, count: nat, name: Seq<char>)
    requires
        count <= records.len() <= MAX_RECORDS,
        with_labels(Map::empty(), records, count).contains_key(name),
    ensures
        with_labels(Map::empty(), records, count)[name] % 4 == 0,
        with_labels(Map::empty(), records, count)[name] < 4 * count,
    decreases count,
{
    if count > 0 {
        if with_labels(Map::empty(), records, (count - 1) as nat).contains_key(name) {
            labels_are_record_offsets(records, (count - 1) as nat, name);
        }
    }
}

/// An assembled program is its header and four bytes for each record.
pub proof fn assembled_length(records: Seq<RecordView>)
    ensures
        assembled(records) matches Ok(bytes) ==> bytes.len() == 64 + 4 * records.len()
            && bytes.take(64) == pie_header(),
{
    body_takes_four_bytes_each(records, symbols_of(records), records.len());
    if let Ok(bytes) = assembled(records) {
        assert(bytes.take(64) =~= pie_header());
    }
}

} // verus!
