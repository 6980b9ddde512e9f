//! What holds of a source text that is read, assembled and then executed.

use crate::assembler::asm_parsers::{
    after_space, after_tag, decimal, in_class, instruction_combined_spec, instruction_spec,
    integer_operand_spec, is_digit, is_space, label_declaration_spec, label_usage_spec,
    opcode_spec, operand_spec, optional, parse_spec, program_spec, records_are_well_formed,
    records_from, register_spec, run_is_longest, tagged_number, well_formed, with_operands, word,
    CharClass, ParseError,
};
use crate::assembler::{
    assembled, encode_record, encode_records, pie_header, symbols_of, with_labels, EncodeError,
    RecordView, TokenView,
};
use crate::instruction::{load_names_load, Opcode};
use crate::repl::source_bytes;
use crate::vm::{run_from, step, VmState};
use vstd::prelude::*;

verus! {

/// The record of the instruction that loads `v` into register `r`.
pub open spec fn load_record(r: u8, v: u16) -> RecordView {
    RecordView {
        opcode: Some(TokenView::Op { code: Opcode::LOAD }),
        label: None,
        directive: None,
        operand1: Some(TokenView::Register { reg_num: r }),
        operand2: Some(TokenView::IntegerOperand { value: v as i32 }),
        operand3: None,
    }
}

/// The load of a number is assembled to the opcode, the register and the two
/// bytes of the number, behind the header.
pub proof fn load_is_assembled(r: u8, v: u16)
    ensures
        assembled(seq![load_record(r, v)]) == Ok::<Seq<u8>, crate::assembler::EncodeError>(
            pie_header() + seq![1u8, r, (v / 256) as u8, (v % 256) as u8],
        ),
{
    let records = seq![load_record(r, v)];
    let table = symbols_of(records);
    reveal_with_fuel(with_labels, 2);
    reveal_with_fuel(encode_records, 2);
    let slot = seq![1u8, r, (v / 256) as u8, (v % 256) as u8];
    let written = seq![1u8] + seq![r] + seq![
        crate::assembler::high_byte(v as int),
        crate::assembler::low_byte(v as int),
    ] + Seq::<u8>::empty();
    assert(crate::assembler::padded(written) =~= slot);
    assert(Seq::<u8>::empty() + slot =~= slot);
    assert(records[0] == load_record(r, v));
}

/// Assembling the load of any 16-bit number `v` into any register `r` of the
/// machine, and executing the instructions of the result from their start,
/// leaves `v` in that register and halts at the end of the program. Nothing
/// else changes but the program counter.
pub proof fn assembled_load_sets_register(r: u8, v: u16, s: VmState, fuel: nat)
    requires
        r < 32,
        s.registers.len() == 32,
        s.pc == 0,
        fuel >= 2,
        assembled(seq![load_record(r, v)]) matches Ok(bytes) && s.program == bytes.skip(64),
    ensures
        run_from(s, fuel) == (
            VmState { registers: s.registers.update(r as int, v as i32), pc: 4, ..s },
            Ok::<(), crate::vm::VmError>(()),
        ),
{
    load_is_assembled(r, v);
    let slot = seq![1u8, r, (v / 256) as u8, (v % 256) as u8];
    assert((pie_header() + slot).skip(64) =~= slot);
    assert(s.program == slot);
    let loaded = VmState { registers: s.registers.update(r as int, v as i32), pc: 4, ..s };
    assert(((v / 256) as u8) * 256 + ((v % 256) as u8) == v);
    assert(step(s) == crate::vm::Outcome::Continue(loaded));
    assert(step(loaded) == crate::vm::Outcome::Halt(loaded));
    reveal_with_fuel(run_from, 3);
}

/// The character of a decimal digit.
pub open spec fn digit_char(d: nat) -> char {
    (48 + d) as char
}

/// A number in decimal digits, without zeros before it.
pub open spec fn digits_of(n: nat) -> Seq<char>
    decreases n,
{
    if n < 10 {
        seq![digit_char(n)]
    } else {
        digits_of(n / 10).push(digit_char(n % 10))
    }
}

/// The source text `load $r #v`.
pub open spec fn load_text(r: u8, v: u16) -> Seq<char> {
    seq!['l', 'o', 'a', 'd', ' ', '$'] + digits_of(r as nat) + seq![' ', '#'] + digits_of(
        v as nat,
    )
}

/// The digits of a number denote it.
pub proof fn digits_denote(n: nat)
    ensures
        digits_of(n).len() > 0,
        forall|i: int| 0 <= i < digits_of(n).len() ==> is_digit(#[trigger] digits_of(n)[i]),
        decimal(digits_of(n)) == n,
    decreases n,
{
    reveal_with_fuel(decimal, 2);
    if n < 10 {
        assert(digits_of(n).drop_last() =~= Seq::<char>::empty());
    } else {
        digits_denote(n / 10);
        assert(digits_of(n).drop_last() =~= digits_of(n / 10));
    }
}

/// White space is skipped only where the text starts with it.
proof fn nothing_to_skip(x: Seq<char>)
    requires
        x.len() == 0 || !is_space(x[0]),
    ensures
        after_space(x) == x,
{
    assert(x.skip(0) =~= x);
}

/// One blank before a text that starts with none is skipped.
proof fn blank_is_skipped(x: Seq<char>)
    requires
        x.len() == 0 || !is_space(x[0]),
    ensures
        after_space(seq![' '] + x) == x,
{
    run_is_longest(CharClass::Space, seq![' '] + x, seq![' '], x);
}

/// A word is read up to the first character that is not of its class.
proof fn word_is_read(class: CharClass, found: Seq<char>, rest: Seq<char>)
    requires
        found.len() > 0,
        forall|i: int| 0 <= i < found.len() ==> in_class(class, found[i]),
        rest.len() > 0 ==> !in_class(class, rest[0]),
    ensures
        word(class, found + rest) == Some((rest, found)),
{
    run_is_longest(class, found + rest, found, rest);
}

/// The empty text holds no operand and no instruction.
proof fn nothing_in_empty_text()
    ensures
        operand_spec(Seq::empty()) is None,
        records_from(Seq::empty()) == (Seq::<char>::empty(), Seq::<RecordView>::empty()),
{
    let e = Seq::<char>::empty();
    nothing_to_skip(e);
    assert(after_tag(e, '#') is None);
    assert(integer_operand_spec(e) is None);
    assert(register_spec(e) is None);
    assert(label_usage_spec(e) is None);
    assert(word(CharClass::AlphaNumeric, e) is None);
    assert(word(CharClass::Alpha, e) is None);
    assert(label_declaration_spec(e) is None);
    assert(opcode_spec(e) is None);
    assert(instruction_spec(e) is None);
}

/// The text `load $r #v` is the program of one record: the load of `v` into
/// register `r`.
pub proof fn load_text_is_parsed(r: u8, v: u16)
    ensures
        parse_spec(load_text(r, v)) == Ok::<Seq<RecordView>, ParseError>(
            seq![load_record(r, v)],
        ),
{
    let e = Seq::<char>::empty();
    let d = digits_of(r as nat);
    let n = digits_of(v as nat);
    let c = seq!['#'] + n;
    let mv = seq![' '] + c;
    let b = d + mv;
    let a = seq!['$'] + b;
    let s2 = seq![' '] + a;
    let w = seq!['l', 'o', 'a', 'd'];
    let t = w + s2;
    assert(t =~= load_text(r, v));
    digits_denote(r as nat);
    digits_denote(v as nat);
    nothing_in_empty_text();

    // The label that is not there.
    nothing_to_skip(t);
    word_is_read(CharClass::AlphaNumeric, w, s2);
    blank_is_skipped(a);
    assert(after_tag(a, ':') is None);
    assert(label_declaration_spec(t) is None);
    assert(optional(t, label_declaration_spec(t)) == (t, None::<TokenView>));

    // The mnemonic.
    word_is_read(CharClass::Alpha, w, s2);
    load_names_load(w);
    let op = TokenView::Op { code: Opcode::LOAD };
    assert(opcode_spec(t) == Some((s2, op)));

    // The register.
    assert(after_tag(a, '#') is None);
    assert(tagged_number(s2, '#', 0x7fff_ffff) is None);
    assert(integer_operand_spec(s2) is None);
    assert(a.skip(1) =~= b);
    assert(after_tag(a, '$') == Some(b));
    assert(b[0] == d[0]);
    nothing_to_skip(b);
    word_is_read(CharClass::Digit, d, mv);
    blank_is_skipped(c);
    assert(tagged_number(s2, '$', 255) == Some((c, r as nat)));
    let register = TokenView::Register { reg_num: r };
    assert(register_spec(s2) == Some((c, register)));
    assert(operand_spec(s2) == Some((c, register)));

    // The number.
    nothing_to_skip(c);
    assert(c.skip(1) =~= n);
    assert(after_tag(c, '#') == Some(n));
    nothing_to_skip(n);
    word_is_read(CharClass::Digit, n, e);
    assert(n + e =~= n);
    nothing_to_skip(e);
    assert(tagged_number(c, '#', 0x7fff_ffff) == Some((e, v as nat)));
    let number = TokenView::IntegerOperand { value: v as i32 };
    assert(integer_operand_spec(c) == Some((e, number)));
    assert(operand_spec(c) == Some((e, number)));

    // The record, and the end of the text.
    assert(with_operands(s2, Some(op), None, None) == (e, load_record(r, v)));
    assert(instruction_combined_spec(t) == Some((e, load_record(r, v))));
    assert(instruction_spec(t) == Some((e, load_record(r, v))));
    assert(seq![load_record(r, v)] + Seq::<RecordView>::empty() =~= seq![load_record(r, v)]);
    assert(records_from(t) == (e, seq![load_record(r, v)]));
    assert(program_spec(t) == Some((e, seq![load_record(r, v)])));
}

/// Assembling the text `load $r #v`, for any register `r` of the machine and
/// any 16-bit number `v`, and executing the instructions of the result from
/// their start, leaves `v` in register `r` and halts at the end of the
/// program. Nothing else changes but the program counter.
pub proof fn load_assembled_and_run(r: u8, v: u16, s: VmState, fuel: nat)
    requires
        r < 32,
        s.registers.len() == 32,
        s.pc == 0,
        fuel >= 2,
        source_bytes(load_text(r, v)) matches Some(bytes) && s.program == bytes.skip(64),
    ensures
        run_from(s, fuel) == (
            VmState { registers: s.registers.update(r as int, v as i32), pc: 4, ..s },
            Ok::<(), crate::vm::VmError>(()),
        ),
{
    load_text_is_parsed(r, v);
    load_is_assembled(r, v);
    assembled_load_sets_register(r, v, s, fuel);
}

/// The text `load $r #v` is assembled to the header, the opcode, the register
/// and the two bytes of the number.
pub proof fn load_text_is_assembled(r: u8, v: u16)
    ensures
        source_bytes(load_text(r, v)) == Some(
            pie_header() + seq![1u8, r, (v / 256) as u8, (v % 256) as u8],
        ),
{
    load_text_is_parsed(r, v);
    load_is_assembled(r, v);
}

/// An error that the writer of a source text can cause: a label that is not
/// declared, operands that take more than three bytes, or too many records.
pub open spec fn is_of_the_source(e: EncodeError) -> bool {
    e == EncodeError::UnresolvedLabel || e == EncodeError::TooLong || e
        == EncodeError::TooManyRecords
}

/// Well-formed records fail to be written only for an error of the source.
proof fn well_formed_records_encode(
    records: Seq<RecordView>,
    table: Map<Seq<char>, u32>,
    count: nat,
)
    requires
        count <= records.len(),
        forall|i: int| 0 <= i < records.len() ==> well_formed(#[trigger] records[i]),
    ensures
        encode_records(records, table, count) matches Err(e) ==> is_of_the_source(e),
    decreases count,
{
    if count > 0 {
        well_formed_records_encode(records, table, (count - 1) as nat);
        assert(well_formed(records[count - 1]));
        assert(encode_record(records[count - 1], table) matches Err(e) ==> is_of_the_source(e));
    }
}

/// A text that is read as a program is assembled, or fails for an error of
/// the source: the parsers make no record that is malformed, and no operand
/// that is none.
pub proof fn parsed_text_is_consistent(text: Seq<char>)
    ensures
        parse_spec(text) matches Ok(records) ==> (assembled(records) matches Err(e)
            ==> is_of_the_source(e)),
{
    if let Ok(records) = parse_spec(text) {
        records_are_well_formed(text);
        if records.len() <= crate::assembler::MAX_RECORDS {
            well_formed_records_encode(records, symbols_of(records), records.len());
        }
    }
}

} // verus!
