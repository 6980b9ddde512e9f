//! The grammar of the assembly language, and the parsers that read it.
//!
//! A program is a run of instructions. An instruction is an optional label
//! declaration (`name:`), then a mnemonic or a directive (`.name`), then up to
//! three operands: a register (`$7`), a number (`#100`) or the use of a label
//! (`@name`). Blanks, tabs and line ends may stand between the tokens.
//!
//! The runs of letters, digits and white space are found by the functions of
//! `nom`; the grammar above them is stated here over sequences of characters,
//! and each parser is proved to return what the grammar says.

use crate::assembler::{AssemblerInstruction, Program, RecordView, Token, TokenView};
use crate::instruction::{opcode_of_mnemonic, Opcode};
use vstd::prelude::*;

verus! {

/// Why a text is not what a parser reads.
#[derive(Debug, Clone, Copy, PartialEq, Eq, Structural)]
pub enum ParseError {
    /// The text does not start with what the parser reads.
    Unrecognized,
    /// Instructions were read, but text that is none follows them.
    TrailingInput,
}

/// Whether `c` is alphabetic as `char::is_alphabetic` tells it: one of the
/// Alphabetic characters of the Unicode standard.
pub uninterp spec fn alphabetic(c: char) -> bool;

/// The letters of ASCII.
pub open spec fn is_ascii_letter(c: char) -> bool {
    ('a' <= c <= 'z') || ('A' <= c <= 'Z')
}

/// Whether `c` is a letter: within ASCII these are `a` to `z` and `A` to `Z`;
/// of a character beyond ASCII, `beyond` tells it.
pub open spec fn letter(c: char, beyond: bool) -> bool {
    if (c as u32) < 128 {
        is_ascii_letter(c)
    } else {
        beyond
    }
}

/// The characters that separate tokens.
pub open spec fn is_space(c: char) -> bool {
    c == ' ' || c == '\t' || c == '\r' || c == '\n'
}

/// The ten decimal digits.
pub open spec fn is_digit(c: char) -> bool {
    '0' <= c <= '9'
}

/// The kinds of characters that tokens are made of.
pub enum CharClass {
    Space,
    Digit,
    Alpha,
    AlphaNumeric,
}

pub open spec fn in_class(class: CharClass, c: char) -> bool {
    match class {
        CharClass::Space => is_space(c),
        CharClass::Digit => is_digit(c),
        CharClass::Alpha => letter(c, alphabetic(c)),
        CharClass::AlphaNumeric => letter(c, alphabetic(c)) || is_digit(c),
    }
}

/// Number of characters at the start of `s` that belong to `class`.
pub open spec fn run(class: CharClass, s: Seq<char>) -> nat
    decreases s.len(),
{
    if s.len() > 0 && in_class(class, s[0]) {
        1 + run(class, s.skip(1))
    } else {
        0
    }
}

/// `word` is the longest start of `input` made of characters of `class`, and
/// `rest` is what follows it.
pub open spec fn splits_at_run(
    class: CharClass,
    input: Seq<char>,
    word: Seq<char>,
    rest: Seq<char>,
) -> bool {
    &&& word + rest == input
    &&& forall|i: int| 0 <= i < word.len() ==> in_class(class, word[i])
    &&& rest.len() > 0 ==> !in_class(class, rest[0])
}

/// A run never exceeds the text.
pub proof fn run_bounded(class: CharClass, s: Seq<char>)
    ensures
        run(class, s) <= s.len(),
    decreases s.len(),
{
    if s.len() > 0 && in_class(class, s[0]) {
        run_bounded(class, s.skip(1));
    }
}

/// The longest start of a text made of one class is its run.
pub proof fn run_is_longest(class: CharClass, input: Seq<char>, word: Seq<char>, rest: Seq<char>)
    requires
        splits_at_run(class, input, word, rest),
    ensures
        run(class, input) == word.len(),
        word == input.take(word.len() as int),
        rest == input.skip(word.len() as int),
    decreases word.len(),
{
    assert(word =~= input.take(word.len() as int));
    assert(rest =~= input.skip(word.len() as int));
    if word.len() > 0 {
        assert(input[0] == word[0]);
        assert(word.skip(1) + rest =~= input.skip(1));
        assert forall|i: int| 0 <= i < word.skip(1).len() implies in_class(
            class,
            word.skip(1)[i],
        ) by {
            assert(word.skip(1)[i] == word[i + 1]);
        }
        run_is_longest(class, input.skip(1), word.skip(1), rest);
    } else {
        assert(rest =~= input);
    }
}

/// The text without the white space that it starts with.
pub open spec fn after_space(s: Seq<char>) -> Seq<char> {
    s.skip(run(CharClass::Space, s) as int)
}

/// The text after the character `tag`, where it starts with it.
pub open spec fn after_tag(s: Seq<char>, tag: char) -> Option<Seq<char>> {
    if s.len() > 0 && s[0] == tag {
        Some(s.skip(1))
    } else {
        None
    }
}

/// What follows the run of `class` at the start of `s`, and the run itself,
/// where it is not empty.
pub open spec fn word(class: CharClass, s: Seq<char>) -> Option<(Seq<char>, Seq<char>)> {
    let n = run(class, s) as int;
    if n == 0 {
        None
    } else {
        Some((s.skip(n), s.take(n)))
    }
}

/// The number that a sequence of decimal digits denotes.
pub open spec fn decimal(digits: Seq<char>) -> nat
    decreases digits.len(),
{
    if digits.len() == 0 {
        0
    } else {
        (decimal(digits.drop_last()) * 10 + (digits.last() as u32 - '0' as u32)) as nat
    }
}

/// A tag, then decimal digits, with white space around each: what follows,
/// and the number, where it is `limit` at most.
pub open spec fn tagged_number(s: Seq<char>, tag: char, limit: nat) -> Option<(Seq<char>, nat)> {
    match after_tag(after_space(s), tag) {
        None => None,
        Some(s1) => match word(CharClass::Digit, after_space(s1)) {
            None => None,
            Some((s2, digits)) => if decimal(digits) <= limit {
                Some((after_space(s2), decimal(digits)))
            } else {
                None
            },
        },
    }
}

/// A register: `$` and its number, 255 at most.
pub open spec fn register_spec(s: Seq<char>) -> Option<(Seq<char>, TokenView)> {
    match tagged_number(s, '$', 255) {
        None => None,
        Some((rest, n)) => Some((rest, TokenView::Register { reg_num: n as u8 })),
    }
}

/// A number: `#` and its digits; it fits an `i32`.
pub open spec fn integer_operand_spec(s: Seq<char>) -> Option<(Seq<char>, TokenView)> {
    match tagged_number(s, '#', 0x7fff_ffff) {
        None => None,
        Some((rest, n)) => Some((rest, TokenView::IntegerOperand { value: n as i32 })),
    }
}

/// The use of a label: `@` and its name.
pub open spec fn label_usage_spec(s: Seq<char>) -> Option<(Seq<char>, TokenView)> {
    match after_tag(after_space(s), '@') {
        None => None,
        Some(s1) => match word(CharClass::AlphaNumeric, after_space(s1)) {
            None => None,
            Some((s2, name)) => Some((after_space(s2), TokenView::LabelUsage { name })),
        },
    }
}

/// The declaration of a label: its name and `:`.
pub open spec fn label_declaration_spec(s: Seq<char>) -> Option<(Seq<char>, TokenView)> {
    match word(CharClass::AlphaNumeric, after_space(s)) {
        None => None,
        Some((s1, name)) => match after_tag(after_space(s1), ':') {
            None => None,
            Some(s2) => Some((after_space(s2), TokenView::LabelDeclaration { name })),
        },
    }
}

/// An operand: a number, a register or the use of a label.
pub open spec fn operand_spec(s: Seq<char>) -> Option<(Seq<char>, TokenView)> {
    if integer_operand_spec(s) is Some {
        integer_operand_spec(s)
    } else if register_spec(s) is Some {
        register_spec(s)
    } else {
        label_usage_spec(s)
    }
}

/// A mnemonic: a run of letters. One that names no operation is read as `IGL`.
pub open spec fn opcode_spec(s: Seq<char>) -> Option<(Seq<char>, TokenView)> {
    match word(CharClass::Alpha, s) {
        None => None,
        Some((rest, name)) => Some((rest, TokenView::Op { code: opcode_of_mnemonic(name) })),
    }
}

/// The name of a directive: `.` and a run of letters.
pub open spec fn directive_declaration_spec(s: Seq<char>) -> Option<(Seq<char>, TokenView)> {
    match after_tag(s, '.') {
        None => None,
        Some(s1) => match word(CharClass::Alpha, s1) {
            None => None,
            Some((rest, name)) => Some((rest, TokenView::Directive { name })),
        },
    }
}

/// What `found` read, or nothing read from `s`.
pub open spec fn optional(
    s: Seq<char>,
    found: Option<(Seq<char>, TokenView)>,
) -> (Seq<char>, Option<TokenView>) {
    match found {
        Some((rest, token)) => (rest, Some(token)),
        None => (s, None),
    }
}

/// Up to three operands after the head of a record.
pub open spec fn with_operands(
    s: Seq<char>,
    opcode: Option<TokenView>,
    label: Option<TokenView>,
    directive: Option<TokenView>,
) -> (Seq<char>, RecordView) {
    let (s1, operand1) = optional(s, operand_spec(s));
    let (s2, operand2) = optional(s1, operand_spec(s1));
    let (s3, operand3) = optional(s2, operand_spec(s2));
    (s3, RecordView { opcode, label, directive, operand1, operand2, operand3 })
}

/// An operation: an optional label, a mnemonic, and operands.
pub open spec fn instruction_combined_spec(s: Seq<char>) -> Option<(Seq<char>, RecordView)> {
    let (s1, label) = optional(s, label_declaration_spec(s));
    match opcode_spec(s1) {
        None => None,
        Some((s2, opcode)) => Some(with_operands(s2, Some(opcode), label, None)),
    }
}

/// A directive: an optional label, the directive's name, and operands, with
/// white space around each.
pub open spec fn directive_spec(s: Seq<char>) -> Option<(Seq<char>, RecordView)> {
    let s0 = after_space(s);
    let (s1, label) = optional(s0, label_declaration_spec(s0));
    match directive_declaration_spec(after_space(s1)) {
        None => None,
        Some((s2, directive)) => {
            let (s3, record) = with_operands(s2, None, label, Some(directive));
            Some((after_space(s3), record))
        },
    }
}

/// An instruction: an operation, or else a directive.
pub open spec fn instruction_spec(s: Seq<char>) -> Option<(Seq<char>, RecordView)> {
    if instruction_combined_spec(s) is Some {
        instruction_combined_spec(s)
    } else {
        directive_spec(s)
    }
}

/// The instructions that `s` starts with, each after white space, and what
/// follows the last of them and its white space.
pub open spec fn records_from(s: Seq<char>) -> (Seq<char>, Seq<RecordView>)
    decreases s.len(),
{
    let start = after_space(s);
    match instruction_spec(start) {
        None => (start, Seq::empty()),
        Some((rest, record)) => if rest.len() < s.len() {
            let (end, more) = records_from(rest);
            (end, seq![record] + more)
        } else {
            (rest, seq![record])
        },
    }
}

/// A program: one instruction or more.
pub open spec fn program_spec(s: Seq<char>) -> Option<(Seq<char>, Seq<RecordView>)> {
    let (rest, records) = records_from(s);
    if records.len() == 0 {
        None
    } else {
        Some((rest, records))
    }
}

/// A whole text as a program: nothing but white space may follow its instructions.
pub open spec fn parse_spec(s: Seq<char>) -> Result<Seq<RecordView>, ParseError> {
    match program_spec(s) {
        None => Err(ParseError::Unrecognized),
        Some((rest, records)) => if rest.len() == 0 {
            Ok(records)
        } else {
            Err(ParseError::TrailingInput)
        },
    }
}

/// A parser of tokens returned what the grammar says.
pub open spec fn reads_token(
    r: Result<(&str, Token), ParseError>,
    expected: Option<(Seq<char>, TokenView)>,
) -> bool {
    match r {
        Ok((rest, token)) => expected == Some((rest@, token@)),
        Err(e) => expected is None && e == ParseError::Unrecognized,
    }
}

/// A parser of records returned what the grammar says.
pub open spec fn reads_record(
    r: Result<(&str, AssemblerInstruction), ParseError>,
    expected: Option<(Seq<char>, RecordView)>,
) -> bool {
    match r {
        Ok((rest, record)) => expected == Some((rest@, record@)),
        Err(e) => expected is None && e == ParseError::Unrecognized,
    }
}

/// `nom::alpha1` on a complete string: it splits the text behind its longest
/// start made of alphabetic characters, and finds nothing where the text is
/// empty or starts with another character. The pair is what follows, then
/// the letters. Of the characters of ASCII, `a` to `z` and `A` to `Z` are
/// alphabetic and no others.
#[verifier::external_body]
fn alpha1<'a>(input: &'a str) -> (r: Option<(&'a str, &'a str)>)
    ensures
        match r {
            Some((rest, letters)) => {
                &&& letters@.len() > 0
                &&& letters@ + rest@ == input@
                &&& forall|i: int|
                    0 <= i < letters@.len() ==> letter(
                        #[trigger] letters@[i],
                        alphabetic(letters@[i]),
                    )
                &&& rest@.len() > 0 ==> !letter(rest@[0], alphabetic(rest@[0]))
            },
            None => input@.len() == 0 || !letter(input@[0], alphabetic(input@[0])),
        },
{
    match nom::alpha1(nom::types::CompleteStr(input)) {
        Ok((rest, letters)) => Some((rest.0, letters.0)),
        Err(_) => None,
    }
}

/// `nom::alphanumeric` on a complete string: as `alpha1`, for characters that
/// are alphabetic or decimal digits.
#[verifier::external_body]
fn alphanumeric<'a>(input: &'a str) -> (r: Option<(&'a str, &'a str)>)
    ensures
        match r {
            Some((rest, name)) => {
                &&& name@.len() > 0
                &&& name@ + rest@ == input@
                &&& forall|i: int|
                    0 <= i < name@.len() ==> letter(#[trigger] name@[i], alphabetic(name@[i]))
                        || is_digit(name@[i])
                &&& rest@.len() > 0 ==> !(letter(rest@[0], alphabetic(rest@[0])) || is_digit(
                    rest@[0],
                ))
            },
            None => input@.len() == 0 || !(letter(input@[0], alphabetic(input@[0])) || is_digit(
                input@[0],
            )),
        },
{
    match nom::alphanumeric(nom::types::CompleteStr(input)) {
        Ok((rest, name)) => Some((rest.0, name.0)),
        Err(_) => None,
    }
}

/// `nom::digit` on a complete string: as `alpha1`, for the decimal digits.
#[verifier::external_body]
fn digit<'a>(input: &'a str) -> (r: Option<(&'a str, &'a str)>)
    ensures
        match r {
            Some((rest, digits)) => {
                &&& digits@.len() > 0
                &&& digits@ + rest@ == input@
                &&& forall|i: int| 0 <= i < digits@.len() ==> is_digit(#[trigger] digits@[i])
                &&& rest@.len() > 0 ==> !is_digit(rest@[0])
            },
            None => input@.len() == 0 || !is_digit(input@[0]),
        },
{
    match nom::digit(nom::types::CompleteStr(input)) {
        Ok((rest, digits)) => Some((rest.0, digits.0)),
        Err(_) => None,
    }
}

/// `nom::sp` on a complete string: it always succeeds, and returns what
/// follows the blanks, tabs, carriage returns and line feeds that the text
/// starts with.
#[verifier::external_body]
fn sp<'a>(input: &'a str) -> (rest: &'a str)
    ensures
        rest@.len() <= input@.len(),
        rest@ == input@.skip(input@.len() - rest@.len()),
        forall|i: int| 0 <= i < input@.len() - rest@.len() ==> is_space(#[trigger] input@[i]),
        rest@.len() > 0 ==> !is_space(rest@[0]),
{
    match nom::sp(nom::types::CompleteStr(input)) {
        Ok((rest, _)) => rest.0,
        Err(_) => input,
    }
}

/// `str::strip_prefix` with a character as the pattern: the text behind that
/// character where the text starts with it, and nothing otherwise.
#[verifier::external_body]
fn strip_prefix<'a>(input: &'a str, tag: char) -> (r: Option<&'a str>)
    ensures
        match r {
            Some(rest) => input@.len() > 0 && input@[0] == tag && rest@ == input@.skip(1),
            None => input@.len() == 0 || input@[0] != tag,
        },
{
    input.strip_prefix(tag)
}

/// Skips the white space that `input` starts with.
fn skip_space<'a>(input: &'a str) -> (rest: &'a str)
    ensures
        rest@ == after_space(input@),
        rest@.len() <= input@.len(),
{
    let rest = sp(input);
    proof {
        let spaces = input@.take(input@.len() - rest@.len());
        assert(spaces + rest@ =~= input@);
        run_is_longest(CharClass::Space, input@, spaces, rest@);
    }
    rest
}

/// Reads the letters that `input` starts with.
fn letters<'a>(input: &'a str) -> (r: Option<(&'a str, &'a str)>)
    ensures
        match r {
            Some((rest, found)) => word(CharClass::Alpha, input@) == Some((rest@, found@)),
            None => word(CharClass::Alpha, input@) is None,
        },
{
    let r = alpha1(input);
    proof {
        match r {
            Some((rest, found)) => {
                run_is_longest(CharClass::Alpha, input@, found@, rest@);
            },
            None => {},
        }
    }
    r
}

/// Reads the letters and digits that `input` starts with.
fn name<'a>(input: &'a str) -> (r: Option<(&'a str, &'a str)>)
    ensures
        match r {
            Some((rest, found)) => word(CharClass::AlphaNumeric, input@) == Some((rest@, found@)),
            None => word(CharClass::AlphaNumeric, input@) is None,
        },
{
    let r = alphanumeric(input);
    proof {
        match r {
            Some((rest, found)) => {
                run_is_longest(CharClass::AlphaNumeric, input@, found@, rest@);
            },
            None => {},
        }
    }
    r
}

/// Reads the digits that `input` starts with.
fn digits<'a>(input: &'a str) -> (r: Option<(&'a str, &'a str)>)
    ensures
        match r {
            Some((rest, found)) => word(CharClass::Digit, input@) == Some((rest@, found@))
                && forall|i: int| 0 <= i < found@.len() ==> is_digit(#[trigger] found@[i]),
            None => word(CharClass::Digit, input@) is None,
        },
{
    let r = digit(input);
    proof {
        match r {
            Some((rest, found)) => {
                run_is_longest(CharClass::Digit, input@, found@, rest@);
            },
            None => {},
        }
    }
    r
}

/// A number with more digits is not smaller.
proof fn decimal_grows(digits: Seq<char>, n: int)
    requires
        0 <= n <= digits.len(),
        forall|i: int| 0 <= i < digits.len() ==> is_digit(#[trigger] digits[i]),
    ensures
        decimal(digits.take(n)) <= decimal(digits),
    decreases digits.len() - n,
{
    if n < digits.len() {
        assert(digits.take(n + 1).drop_last() =~= digits.take(n));
        assert(digits.take(n + 1).last() == digits[n]);
        decimal_grows(digits, n + 1);
    } else {
        assert(digits.take(n) =~= digits);
    }
}

/// The number that `text`, made of decimal digits, denotes, where it is
/// `limit` at most.
fn decimal_value(text: &str, limit: u32) -> (r: Option<u32>)
    requires
        forall|i: int| 0 <= i < text@.len() ==> is_digit(#[trigger] text@[i]),
    ensures
        match r {
            Some(n) => n == decimal(text@) && n <= limit,
            None => decimal(text@) > limit,
        },
{
    let length: usize = text.unicode_len();
    let mut value: u64 = 0;
    let mut i: usize = 0;
    assert(text@.take(0).len() == 0);
    while i < length
        invariant
            i <= length,
            length == text@.len(),
            value == decimal(text@.take(i as int)),
            value <= limit,
            forall|i: int| 0 <= i < text@.len() ==> is_digit(#[trigger] text@[i]),
        decreases length - i,
    {
        let c: char = text.get_char(i);
        assert(is_digit(text@[i as int]));
        let d: u64 = (c as u32 - '0' as u32) as u64;
        proof {
            assert(text@.take(i + 1).drop_last() =~= text@.take(i as int));
            assert(text@.take(i + 1).last() == text@[i as int]);
        }
        value = value * 10 + d;
        i += 1;
        if value > limit as u64 {
            proof {
                decimal_grows(text@, i as int);
            }
            return None;
        }
    }
    assert(text@.take(i as int) =~= text@);
    Some(value as u32)
}

/// Reads a tag, then a number, with white space around each.
fn tagged<'a>(input: &'a str, tag: char, limit: u32) -> (r: Option<(&'a str, u32)>)
    ensures
        match r {
            Some((rest, n)) => tagged_number(input@, tag, limit as nat) == Some((rest@, n as nat)),
            None => tagged_number(input@, tag, limit as nat) is None,
        },
{
    match strip_prefix(skip_space(input), tag) {
        None => None,
        Some(after) => match digits(skip_space(after)) {
            None => None,
            Some((rest, found)) => match decimal_value(found, limit) {
                None => None,
                Some(n) => Some((skip_space(rest), n)),
            },
        },
    }
}

/// Reads a mnemonic.
pub fn opcode_parser<'a>(input: &'a str) -> (r: Result<(&'a str, Token), ParseError>)
    ensures
        reads_token(r, opcode_spec(input@)),
{
    match letters(input) {
        Some((rest, found)) => Ok((rest, Token::Op { code: Opcode::from_mnemonic(found) })),
        None => Err(ParseError::Unrecognized),
    }
}

/// Reads a register.
pub fn register<'a>(input: &'a str) -> (r: Result<(&'a str, Token), ParseError>)
    ensures
        reads_token(r, register_spec(input@)),
{
    match tagged(input, '$', 255) {
        Some((rest, n)) => Ok((rest, Token::Register { reg_num: n as u8 })),
        None => Err(ParseError::Unrecognized),
    }
}

/// Reads a number.
pub fn integer_operand<'a>(input: &'a str) -> (r: Result<(&'a str, Token), ParseError>)
    ensures
        reads_token(r, integer_operand_spec(input@)),
{
    match tagged(input, '#', 0x7fff_ffff) {
        Some((rest, n)) => Ok((rest, Token::IntegerOperand { value: n as i32 })),
        None => Err(ParseError::Unrecognized),
    }
}

/// Reads the use of a label.
pub fn label_usage<'a>(input: &'a str) -> (r: Result<(&'a str, Token), ParseError>)
    ensures
        reads_token(r, label_usage_spec(input@)),
{
    match strip_prefix(skip_space(input), '@') {
        None => Err(ParseError::Unrecognized),
        Some(after) => match name(skip_space(after)) {
            None => Err(ParseError::Unrecognized),
            Some((rest, found)) => Ok(
                (skip_space(rest), Token::LabelUsage { name: found.to_owned() }),
            ),
        },
    }
}

/// Reads the declaration of a label.
pub fn label_declaration<'a>(input: &'a str) -> (r: Result<(&'a str, Token), ParseError>)
    ensures
        reads_token(r, label_declaration_spec(input@)),
{
    match name(skip_space(input)) {
        None => Err(ParseError::Unrecognized),
        Some((after, found)) => match strip_prefix(skip_space(after), ':') {
            None => Err(ParseError::Unrecognized),
            Some(rest) => Ok(
                (skip_space(rest), Token::LabelDeclaration { name: found.to_owned() }),
            ),
        },
    }
}

/// Reads an operand.
pub fn operand<'a>(input: &'a str) -> (r: Result<(&'a str, Token), ParseError>)
    ensures
        reads_token(r, operand_spec(input@)),
{
    match integer_operand(input) {
        Ok(found) => Ok(found),
        Err(_) => match register(input) {
            Ok(found) => Ok(found),
            Err(_) => label_usage(input),
        },
    }
}

/// Reads the name of a directive.
pub fn directive_declaration<'a>(input: &'a str) -> (r: Result<(&'a str, Token), ParseError>)
    ensures
        reads_token(r, directive_declaration_spec(input@)),
{
    match strip_prefix(input, '.') {
        None => Err(ParseError::Unrecognized),
        Some(after) => match letters(after) {
            None => Err(ParseError::Unrecognized),
            Some((rest, found)) => Ok((rest, Token::Directive { name: found.to_owned() })),
        },
    }
}

/// What `found` read, or nothing read from `input`.
fn or_nothing<'a>(
    input: &'a str,
    found: Result<(&'a str, Token), ParseError>,
) -> (r: (&'a str, Option<Token>))
    ensures
        match found {
            Ok((rest, token)) => r.0 == rest && r.1 == Some(token),
            Err(_) => r.0 == input && r.1 is None,
        },
{
    match found {
        Ok((rest, token)) => (rest, Some(token)),
        Err(_) => (input, None),
    }
}

/// Reads up to three operands and makes the record.
fn operands<'a>(
    input: &'a str,
    opcode: Option<Token>,
    label: Option<Token>,
    directive: Option<Token>,
) -> (r: (&'a str, AssemblerInstruction))
    ensures
        (r.0@, r.1@) == with_operands(
            input@,
            crate::assembler::slot_view(opcode),
            crate::assembler::slot_view(label),
            crate::assembler::slot_view(directive),
        ),
{
    let (after1, operand1) = or_nothing(input, operand(input));
    let (after2, operand2) = or_nothing(after1, operand(after1));
    let (after3, operand3) = or_nothing(after2, operand(after2));
    (after3, AssemblerInstruction { opcode, label, directive, operand1, operand2, operand3 })
}

/// Reads an operation with its label and operands.
pub fn instruction_combined<'a>(
    input: &'a str,
) -> (r: Result<(&'a str, AssemblerInstruction), ParseError>)
    ensures
        reads_record(r, instruction_combined_spec(input@)),
{
    let (after, label) = or_nothing(input, label_declaration(input));
    match opcode_parser(after) {
        Err(_) => Err(ParseError::Unrecognized),
        Ok((rest, opcode)) => Ok(operands(rest, Some(opcode), label, None)),
    }
}

/// Reads a directive with its label and operands.
pub fn directive<'a>(input: &'a str) -> (r: Result<(&'a str, AssemblerInstruction), ParseError>)
    ensures
        reads_record(r, directive_spec(input@)),
{
    let start = skip_space(input);
    let (after, label) = or_nothing(start, label_declaration(start));
    match directive_declaration(skip_space(after)) {
        Err(_) => Err(ParseError::Unrecognized),
        Ok((rest, found)) => {
            let (end, record) = operands(rest, None, label, Some(found));
            Ok((skip_space(end), record))
        },
    }
}

/// Reads an instruction: an operation, or else a directive.
pub fn instruction<'a>(input: &'a str) -> (r: Result<(&'a str, AssemblerInstruction), ParseError>)
    ensures
        reads_record(r, instruction_spec(input@)),
{
    match instruction_combined(input) {
        Ok(found) => Ok(found),
        Err(_) => directive(input),
    }
}

/// What follows a run of white space is no longer than the text.
proof fn space_shortens(s: Seq<char>)
    ensures
        after_space(s).len() <= s.len(),
{
    run_bounded(CharClass::Space, s);
}

/// What follows a word is shorter than the text.
proof fn word_shortens(class: CharClass, s: Seq<char>)
    ensures
        word(class, s) matches Some((rest, _)) ==> rest.len() < s.len(),
{
    run_bounded(class, s);
}

/// What follows a tagged number is shorter than the text.
proof fn number_shortens(s: Seq<char>, tag: char, limit: nat)
    ensures
        tagged_number(s, tag, limit) matches Some((rest, _)) ==> rest.len() < s.len(),
{
    space_shortens(s);
    if let Some(s1) = after_tag(after_space(s), tag) {
        space_shortens(s1);
        word_shortens(CharClass::Digit, after_space(s1));
        if let Some((s2, _)) = word(CharClass::Digit, after_space(s1)) {
            space_shortens(s2);
        }
    }
}

/// What follows the use of a label is shorter than the text.
proof fn usage_shortens(s: Seq<char>)
    ensures
        label_usage_spec(s) matches Some((rest, _)) ==> rest.len() < s.len(),
{
    space_shortens(s);
    if let Some(s1) = after_tag(after_space(s), '@') {
        space_shortens(s1);
        word_shortens(CharClass::AlphaNumeric, after_space(s1));
        if let Some((s2, _)) = word(CharClass::AlphaNumeric, after_space(s1)) {
            space_shortens(s2);
        }
    }
}

/// What follows the declaration of a label is shorter than the text.
proof fn declaration_shortens(s: Seq<char>)
    ensures
        label_declaration_spec(s) matches Some((rest, _)) ==> rest.len() < s.len(),
{
    space_shortens(s);
    word_shortens(CharClass::AlphaNumeric, after_space(s));
    if let Some((s1, _)) = word(CharClass::AlphaNumeric, after_space(s)) {
        space_shortens(s1);
        if let Some(s2) = after_tag(after_space(s1), ':') {
            space_shortens(s2);
        }
    }
}

/// What follows the operands of a record is no longer than the text.
proof fn operands_shorten(
    s: Seq<char>,
    opcode: Option<TokenView>,
    label: Option<TokenView>,
    directive: Option<TokenView>,
)
    ensures
        with_operands(s, opcode, label, directive).0.len() <= s.len(),
{
    operand_shortens(s);
    let (s1, _) = optional(s, operand_spec(s));
    operand_shortens(s1);
    let (s2, _) = optional(s1, operand_spec(s1));
    operand_shortens(s2);
}

/// What follows an operand is shorter than the text.
proof fn operand_shortens(s: Seq<char>)
    ensures
        operand_spec(s) matches Some((rest, _)) ==> rest.len() < s.len(),
{
    number_shortens(s, '#', 0x7fff_ffff);
    number_shortens(s, '$', 255);
    usage_shortens(s);
}

/// Every instruction takes at least one character: what follows it is
/// shorter than the text.
pub proof fn instruction_shortens(s: Seq<char>)
    ensures
        instruction_spec(s) matches Some((rest, _)) ==> rest.len() < s.len(),
{
    declaration_shortens(s);
    let (s1, label) = optional(s, label_declaration_spec(s));
    word_shortens(CharClass::Alpha, s1);
    if let Some((s2, opcode)) = opcode_spec(s1) {
        operands_shorten(s2, Some(opcode), label, None);
    }
    let s0 = after_space(s);
    space_shortens(s);
    declaration_shortens(s0);
    let (d1, dlabel) = optional(s0, label_declaration_spec(s0));
    space_shortens(d1);
    if let Some(d2) = after_tag(after_space(d1), '.') {
        word_shortens(CharClass::Alpha, d2);
    }
    if let Some((d3, directive)) = directive_declaration_spec(after_space(d1)) {
        operands_shorten(d3, None, dlabel, Some(directive));
        space_shortens(with_operands(d3, None, dlabel, Some(directive)).0);
    }
}

/// An operand that is read is a number, a register or the use of a label.
pub open spec fn is_operand(slot: Option<TokenView>) -> bool {
    match slot {
        None => true,
        Some(TokenView::Register { reg_num }) => true,
        Some(TokenView::IntegerOperand { value }) => true,
        Some(TokenView::LabelUsage { name }) => true,
        Some(_) => false,
    }
}

/// A record as the parsers make it: it holds either an operation or a
/// directive, its label is a declaration, and its operands are operands.
pub open spec fn well_formed(record: RecordView) -> bool {
    &&& crate::assembler::head_byte(record) is Some
    &&& record.label is Some ==> crate::assembler::declared_label(record) is Some
    &&& is_operand(record.operand1)
    &&& is_operand(record.operand2)
    &&& is_operand(record.operand3)
}

/// Every instruction that is read is a well-formed record.
pub proof fn instruction_is_well_formed(s: Seq<char>)
    ensures
        instruction_spec(s) matches Some((_, record)) ==> well_formed(record),
{
}

/// Every record of a text that is read is well formed.
pub proof fn records_are_well_formed(s: Seq<char>)
    ensures
        forall|i: int|
            0 <= i < records_from(s).1.len() ==> well_formed(#[trigger] records_from(s).1[i]),
    decreases s.len(),
{
    let start = after_space(s);
    instruction_is_well_formed(start);
    if let Some((rest, record)) = instruction_spec(start) {
        if rest.len() < s.len() {
            records_are_well_formed(rest);
            let more = records_from(rest).1;
            assert forall|i: int| 0 <= i < (seq![record] + more).len() implies well_formed(
                #[trigger] (seq![record] + more)[i],
            ) by {
                if i > 0 {
                    assert((seq![record] + more)[i] == more[i - 1]);
                }
            }
        }
    }
}

/// The view of a list of records.
pub open spec fn records_view(records: Seq<AssemblerInstruction>) -> Seq<RecordView> {
    Seq::new(records.len(), |i: int| records[i]@)
}

/// Reads a program: one instruction or more, each after white space. What
/// is returned beside it is the text behind the last one and its white space.
pub fn program<'a>(input: &'a str) -> (r: Result<(&'a str, Program), ParseError>)
    ensures
        match r {
            Ok((rest, found)) => program_spec(input@) == Some((rest@, found@)),
            Err(e) => program_spec(input@) is None && e == ParseError::Unrecognized,
        },
{
    let mut instructions: Vec<AssemblerInstruction> = Vec::new();
    let mut current: &str = input;
    let mut rest: &str = skip_space(input);
    assert(records_view(instructions@) + records_from(current@).1 =~= records_from(input@).1);
    loop
        invariant
            rest@ == after_space(current@),
            records_from(input@).0 == records_from(current@).0,
            records_from(input@).1 == records_view(instructions@) + records_from(current@).1,
        ensures
            instruction_spec(rest@) is None,
        decreases current@.len(),
    {
        match instruction(rest) {
            Err(_) => {
                break ;
            },
            Ok((after, record)) => {
                proof {
                    instruction_shortens(rest@);
                    space_shortens(current@);
                    let ghost before = records_view(instructions@);
                    assert(before.push(record@) + records_from(after@).1 =~= before + (
                    seq![record@] + records_from(after@).1));
                    assert(records_view(instructions@.push(record)) =~= before.push(record@));
                }
                instructions.push(record);
                current = after;
                rest = skip_space(after);
            },
        }
    }
    assert(records_view(instructions@) + Seq::<RecordView>::empty() =~= records_view(
        instructions@,
    ));
    if instructions.len() == 0 {
        Err(ParseError::Unrecognized)
    } else {
        let found = Program { instructions };
        assert(found@ =~= records_view(found.instructions@));
        Ok((rest, found))
    }
}

/// Reads a whole text as a program. It fails where the text holds no
/// instruction, or holds anything but white space behind its instructions.
pub fn parse(text: &str) -> (r: Result<Program, ParseError>)
    ensures
        match r {
            Ok(found) => parse_spec(text@) == Ok::<Seq<RecordView>, ParseError>(found@),
            Err(e) => parse_spec(text@) == Err::<Seq<RecordView>, ParseError>(e),
        },
{
    match program(text) {
        Err(e) => Err(e),
        Ok((rest, found)) => if rest.is_empty() {
            Ok(found)
        } else {
            Err(ParseError::TrailingInput)
        },
    }
}

} // verus!
