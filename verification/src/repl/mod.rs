//! The interactive front end, without its input and output: what one line
//! that the user typed does to the machine, and the reading of bytes written
//! in hexadecimal.

use crate::assembler::asm_parsers::parse_spec;
use crate::assembler::{assembled, Assembler};
use crate::vm::{stepped, VmError, VmState, VM};
use core::num::ParseIntError;
use vstd::prelude::*;

verus! {

/// The error of std's functions that read an integer from a string.
#[verifier::external_type_specification]
#[verifier::external_body]
pub struct ExParseIntError(core::num::ParseIntError);

/// What the front end has to do after a line.
#[derive(Debug, Clone, Copy, PartialEq, Eq)]
pub enum ReplAction {
    /// `.quit`: leave the program.
    Quit,
    /// `.history`: show the lines typed so far.
    History,
    /// `.program`: show the bytes of the machine's program.
    Program,
    /// `.registers`: show the registers.
    Registers,
    /// `.debug`: show the state of the machine.
    Debug,
    /// Any other line was taken as source text: `assembled` tells whether it
    /// was a program, `outcome` what the one step executed after it gave.
    Executed { assembled: bool, outcome: Result<bool, VmError> },
}

/// The bytes that a line of source text is assembled to, where it is a program
/// that can be written as bytes.
pub open spec fn source_bytes(line: Seq<char>) -> Option<Seq<u8>> {
    match parse_spec(line) {
        Ok(records) => match assembled(records) {
            Ok(bytes) => Some(bytes),
            Err(_) => None,
        },
        Err(_) => None,
    }
}

/// What a line asks for, and what it does to a machine in state `before`.
pub open spec fn line_done(
    line: Seq<char>,
    before: VmState,
    after: VmState,
    action: ReplAction,
) -> bool {
    if line == ".quit"@ {
        action == ReplAction::Quit && after == before
    } else if line == ".history"@ {
        action == ReplAction::History && after == before
    } else if line == ".program"@ {
        action == ReplAction::Program && after == before
    } else if line == ".registers"@ {
        action == ReplAction::Registers && after == before
    } else if line == ".debug"@ {
        action == ReplAction::Debug && after == before
    } else {
        let added = match source_bytes(line) {
            Some(bytes) => bytes,
            None => Seq::empty(),
        };
        &&& action matches ReplAction::Executed { assembled: found, outcome }
        &&& found == (source_bytes(line) is Some)
        &&& stepped(VmState { program: before.program + added, ..before }, after, outcome)
    }
}

/// Tells whether two texts are the same.
fn same_text(a: &str, b: &str) -> (r: bool)
    ensures
        r == (a@ == b@),
{
    a.to_owned() == b.to_owned()
}

/// The lines typed so far, and the machine that they act on.
pub struct REPL {
    pub command_buffer: Vec<String>,
    pub vm: VM,
}

impl REPL {
    pub fn new() -> (repl: REPL)
        ensures
            repl.command_buffer@.len() == 0,
            repl.vm@ == VM::new_state(),
    {
        REPL { vm: VM::new(), command_buffer: Vec::new() }
    }

    /// Takes one line, without the white space around it. The line is kept.
    /// A command changes nothing else; any other line is assembled, its bytes,
    /// header included, are added to the machine's program where it is a
    /// program, and the machine executes one step.
    pub fn handle_line(&mut self, line: &str) -> (action: ReplAction)
        ensures
            final(self).command_buffer@.len() == old(self).command_buffer@.len() + 1,
            final(self).command_buffer@.drop_last() == old(self).command_buffer@,
            final(self).command_buffer@.last()@ == line@,
            line_done(line@, old(self).vm@, final(self).vm@, action),
    {
        self.command_buffer.push(line.to_owned());
        assert(self.command_buffer@.drop_last() =~= old(self).command_buffer@);
        if same_text(line, ".quit") {
            ReplAction::Quit
        } else if same_text(line, ".history") {
            ReplAction::History
        } else if same_text(line, ".program") {
            ReplAction::Program
        } else if same_text(line, ".registers") {
            ReplAction::Registers
        } else if same_text(line, ".debug") {
            ReplAction::Debug
        } else {
            let mut assembler = Assembler::new();
            let assembled: bool = match assembler.assemble(line) {
                Some(bytes) => {
                    self.vm.add_bytes(bytes);
                    true
                },
                None => {
                    assert(self.vm@.program =~= old(self).vm@.program + Seq::<u8>::empty());
                    false
                },
            };
            let outcome = self.vm.run_once();
            ReplAction::Executed { assembled, outcome }
        }
    }
}

/// The value of a hexadecimal digit, in either case.
pub open spec fn hex_digit(c: char) -> Option<nat> {
    if '0' <= c <= '9' {
        Some((c as u32 - '0' as u32) as nat)
    } else if 'a' <= c <= 'f' {
        Some((c as u32 - 'a' as u32 + 10) as nat)
    } else if 'A' <= c <= 'F' {
        Some((c as u32 - 'A' as u32 + 10) as nat)
    } else {
        None
    }
}

/// The number that hexadecimal digits denote; `None` where one of the
/// characters is no such digit.
pub open spec fn hex_number(digits: Seq<char>) -> Option<nat>
    decreases digits.len(),
{
    if digits.len() == 0 {
        Some(0)
    } else {
        match (hex_number(digits.drop_last()), hex_digit(digits.last())) {
            (Some(upper), Some(last)) => Some(upper * 16 + last),
            _ => None,
        }
    }
}

/// The byte that a text denotes: an optional `+`, then one hexadecimal digit
/// or more, with a value of 255 at most.
pub open spec fn hex_byte(text: Seq<char>) -> Option<u8> {
    let digits = if text.len() > 0 && text[0] == '+' {
        text.skip(1)
    } else {
        text
    };
    if digits.len() == 0 {
        None
    } else {
        match hex_number(digits) {
            Some(n) => if n <= 255 {
                Some(n as u8)
            } else {
                None
            },
            None => None,
        }
    }
}

/// Number of characters before the first blank of `s`, or before its end.
pub open spec fn word_length(s: Seq<char>) -> nat
    decreases s.len(),
{
    if s.len() > 0 && s[0] != ' ' {
        1 + word_length(s.skip(1))
    } else {
        0
    }
}

/// The pieces that single blanks part `s` into. Two blanks in a row, or one
/// at the start or the end, give an empty piece.
pub open spec fn pieces(s: Seq<char>) -> Seq<Seq<char>>
    decreases s.len(),
{
    let k = word_length(s) as int;
    if k >= s.len() {
        seq![s]
    } else {
        seq![s.take(k)] + pieces(s.skip(k + 1))
    }
}

/// The bytes that the first `count` of the texts denote; `None` where one of
/// them denotes no byte.
pub open spec fn hex_bytes(texts: Seq<Seq<char>>, count: nat) -> Option<Seq<u8>>
    decreases count,
{
    if count == 0 {
        Some(Seq::empty())
    } else {
        match (hex_bytes(texts, (count - 1) as nat), hex_byte(texts[count - 1])) {
            (Some(bytes), Some(last)) => Some(bytes.push(last)),
            _ => None,
        }
    }
}

/// The error that `u8::from_str_radix` with the radix 16 returns for a text
/// that denotes no byte.
pub uninterp spec fn hex_error(text: Seq<char>) -> ParseIntError;

/// The first of the first `count` texts that denotes no byte, where there is one.
pub open spec fn first_unreadable(texts: Seq<Seq<char>>, count: nat) -> Option<int>
    decreases count,
{
    if count == 0 {
        None
    } else {
        match first_unreadable(texts, (count - 1) as nat) {
            Some(k) => Some(k),
            None => if hex_byte(texts[count - 1]) is None {
                Some(count - 1)
            } else {
                None
            },
        }
    }
}

/// `u8::from_str_radix` with the radix 16: the text is an optional `+` and
/// then digits only, `0-9`, `a-f` or `A-F`; an empty text, one without digits,
/// any other character, and a value above 255 are errors. The error depends
/// on the text alone.
#[verifier::external_body]
fn byte_from_hex(text: &str) -> (r: Result<u8, ParseIntError>)
    ensures
        match r {
            Ok(byte) => hex_byte(text@) == Some(byte),
            Err(e) => hex_byte(text@) is None && e == hex_error(text@),
        },
{
    u8::from_str_radix(text, 16)
}

/// A text with no blank before `k`, and a blank or its end there, has a
/// first word of length `k`.
proof fn word_length_is(s: Seq<char>, k: int)
    requires
        0 <= k <= s.len(),
        forall|j: int| 0 <= j < k ==> s[j] != ' ',
        k < s.len() ==> s[k] == ' ',
    ensures
        word_length(s) == k,
    decreases k,
{
    if k > 0 {
        assert forall|j: int| 0 <= j < k - 1 implies s.skip(1)[j] != ' ' by {
            assert(s.skip(1)[j] == s[j + 1]);
        }
        word_length_is(s.skip(1), k - 1);
    }
}

/// The first text that denotes no byte stays the first among more texts.
proof fn first_unreadable_stays(texts: Seq<Seq<char>>, count: nat, more: nat)
    requires
        count <= more,
        first_unreadable(texts, count) is Some,
    ensures
        first_unreadable(texts, more) == first_unreadable(texts, count),
    decreases more - count,
{
    if count < more {
        first_unreadable_stays(texts, count, (more - 1) as nat);
    }
}

/// Texts give bytes exactly where none of them is unreadable.
pub proof fn bytes_or_first_unreadable(texts: Seq<Seq<char>>, count: nat)
    ensures
        hex_bytes(texts, count) is Some <==> first_unreadable(texts, count) is None,
        hex_bytes(texts, count) matches Some(bytes) ==> bytes.len() == count,
    decreases count,
{
    if count > 0 {
        bytes_or_first_unreadable(texts, (count - 1) as nat);
    }
}

/// Reads bytes written in hexadecimal, without `0x`, and parted by single
/// blanks, as in `00 01 03 E8`. The error is that of the first piece that
/// denotes no byte.
pub fn parse_hex(i: &str) -> (r: Result<Vec<u8>, ParseIntError>)
    ensures
        match r {
            Ok(bytes) => hex_bytes(pieces(i@), pieces(i@).len()) == Some(bytes@),
            Err(e) => first_unreadable(pieces(i@), pieces(i@).len()) matches Some(k) && e
                == hex_error(pieces(i@)[k]),
        },
{
    let length: usize = i.unicode_len();
    let mut results: Vec<u8> = Vec::new();
    let mut start: usize = 0;
    let mut at: usize = 0;
    let ghost mut done: Seq<Seq<char>> = Seq::empty();
    assert(i@.skip(0) =~= i@);
    assert(done + pieces(i@.skip(0)) =~= pieces(i@));
    while at < length
        invariant
            start <= at <= length,
            length == i@.len(),
            forall|j: int| start <= j < at ==> i@[j] != ' ',
            pieces(i@) == done + pieces(i@.skip(start as int)),
            hex_bytes(done, done.len()) == Some(results@),
        decreases length - at,
    {
        if i.get_char(at) == ' ' {
            let piece = i.substring_char(start, at);
            let ghost tail = i@.skip(start as int);
            proof {
                assert forall|j: int| 0 <= j < at - start implies tail[j] != ' ' by {
                    assert(tail[j] == i@[start + j]);
                }
                word_length_is(tail, at - start);
                assert(tail.take(at - start) =~= piece@);
                assert(tail.skip(at - start + 1) =~= i@.skip(at + 1));
                assert(done.push(piece@) + pieces(i@.skip(at + 1)) =~= done + (seq![piece@]
                    + pieces(i@.skip(at + 1))));
            }
            match byte_from_hex(piece) {
                Ok(byte) => {
                    proof {
                        same_bytes(done, done.push(piece@), done.len());
                    }
                    results.push(byte);
                },
                Err(e) => {
                    proof {
                        same_bytes(done, pieces(i@), done.len());
                        bytes_or_first_unreadable(pieces(i@), done.len());
                        first_unreadable_stays(pieces(i@), done.len() + 1, pieces(i@).len());
                    }
                    return Err(e);
                },
            }
            proof {
                done = done.push(piece@);
            }
            start = at + 1;
        }
        at += 1;
    }
    let piece = i.substring_char(start, length);
    proof {
        let tail = i@.skip(start as int);
        assert forall|j: int| 0 <= j < length - start implies tail[j] != ' ' by {
            assert(tail[j] == i@[start + j]);
        }
        word_length_is(tail, length - start);
        assert(tail =~= piece@);
        assert(done + seq![piece@] =~= done.push(piece@));
        same_bytes(done, done.push(piece@), done.len());
    }
    match byte_from_hex(piece) {
        Ok(byte) => {
            results.push(byte);
            Ok(results)
        },
        Err(e) => {
            proof {
                same_bytes(done, pieces(i@), done.len());
                bytes_or_first_unreadable(pieces(i@), done.len());
            }
            Err(e)
        },
    }
}

/// The bytes of the first `count` texts depend on these texts only.
proof fn same_bytes(a: Seq<Seq<char>>, b: Seq<Seq<char>>, count: nat)
    requires
        count <= a.len(),
        count <= b.len(),
        forall|j: int| 0 <= j < count ==> a[j] == b[j],
    ensures
        hex_bytes(a, count) == hex_bytes(b, count),
    decreases count,
{
    if count > 0 {
        same_bytes(a, b, (count - 1) as nat);
    }
}

} // verus!
