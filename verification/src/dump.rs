//! Text for human inspection: fixed-width hexadecimal and binary numerals, and
//! the rows of the memory and register dumps.

use crate::bits::{bitrange, field, lemma_field_bound};
use crate::cpu::{Step, CPU};
use crate::memory::{word_at, Memory, MAGIC_START, MEMSIZE};
use crate::registers::{RegisterFile, PC};
use vstd::arithmetic::power2::lemma2_to64;
use vstd::prelude::*;
use vstd::string::*;

verus! {

/// How the memory dumps render a value.
#[derive(Clone, Copy, Debug, PartialEq, Eq)]
pub enum DumpStyle {
    /// Lowercase hexadecimal digits.
    Hex,
    /// Binary digits.
    Bin,
}

/// The character for one digit of value `n`, in any base up to sixteen;
/// letters are lowercase.
pub open spec fn digit(n: int) -> char
    recommends
        0 <= n < 16,
{
    seq!['0', '1', '2', '3', '4', '5', '6', '7', '8', '9', 'a', 'b', 'c', 'd', 'e', 'f'][n]
}

/// The lowest `digits` hexadecimal digits of `value`, the most significant
/// first.
pub open spec fn hex_text(value: u32, digits: int) -> Seq<char>
    recommends
        0 <= digits <= 8,
{
    Seq::new(
        digits as nat,
        |i: int| digit(field(value, 4 * (digits - i) - 1, 4 * (digits - i) - 4)),
    )
}

/// The lowest `digits` binary digits of `value`, the most significant first.
pub open spec fn bin_text(value: u32, digits: int) -> Seq<char>
    recommends
        0 <= digits <= 32,
{
    Seq::new(digits as nat, |i: int| digit(field(value, digits - 1 - i, digits - 1 - i)))
}

/// `count` spaces.
pub open spec fn spaces(count: int) -> Seq<char> {
    Seq::new(count as nat, |i: int| ' ')
}

/// The one-character text of a digit.
fn digit_str(n: u32) -> (s: &'static str)
    requires
        n < 16,
    ensures
        s@ == seq![digit(n as int)],
{
    proof {
        reveal_strlit("0");
        reveal_strlit("1");
        reveal_strlit("2");
        reveal_strlit("3");
        reveal_strlit("4");
        reveal_strlit("5");
        reveal_strlit("6");
        reveal_strlit("7");
        reveal_strlit("8");
        reveal_strlit("9");
        reveal_strlit("a");
        reveal_strlit("b");
        reveal_strlit("c");
        reveal_strlit("d");
        reveal_strlit("e");
        reveal_strlit("f");
    }
    let s: &'static str = match n {
        0 => "0",
        1 => "1",
        2 => "2",
        3 => "3",
        4 => "4",
        5 => "5",
        6 => "6",
        7 => "7",
        8 => "8",
        9 => "9",
        10 => "a",
        11 => "b",
        12 => "c",
        13 => "d",
        14 => "e",
        _ => "f",
    };
    assert(s@ =~= seq![digit(n as int)]);
    s
}

/// Append the lowest `digits` hexadecimal digits of `value` to `out`.
pub fn push_hex(out: &mut String, value: u32, digits: usize)
    requires
        digits <= 8,
    ensures
        final(out)@ == old(out)@ + hex_text(value, digits as int),
{
    let mut i: usize = 0;
    while i < digits
        invariant
            i <= digits <= 8,
            out@ == old(out)@ + hex_text(value, digits as int).take(i as int),
        decreases digits - i,
    {
        let high: usize = 4 * (digits - i) - 1;
        proof {
            lemma2_to64();
            lemma_field_bound(value, high as int, high - 3);
        }
        let nibble: u32 = bitrange(value, high, high - 3);
        out.append(digit_str(nibble));
        i += 1;
        assert(out@ =~= old(out)@ + hex_text(value, digits as int).take(i as int));
    }
    assert(hex_text(value, digits as int).take(digits as int) =~= hex_text(value, digits as int));
}

/// Append the lowest `digits` binary digits of `value` to `out`.
pub fn push_bin(out: &mut String, value: u32, digits: usize)
    requires
        digits <= 32,
    ensures
        final(out)@ == old(out)@ + bin_text(value, digits as int),
{
    let mut i: usize = 0;
    while i < digits
        invariant
            i <= digits <= 32,
            out@ == old(out)@ + bin_text(value, digits as int).take(i as int),
        decreases digits - i,
    {
        let index: usize = digits - 1 - i;
        proof {
            lemma2_to64();
            lemma_field_bound(value, index as int, index as int);
        }
        let bit: u32 = bitrange(value, index, index);
        out.append(digit_str(bit));
        i += 1;
        assert(out@ =~= old(out)@ + bin_text(value, digits as int).take(i as int));
    }
    assert(bin_text(value, digits as int).take(digits as int) =~= bin_text(value, digits as int));
}

/// Append `count` spaces to `out`.
pub fn push_spaces(out: &mut String, count: usize)
    ensures
        final(out)@ == old(out)@ + spaces(count as int),
{
    let mut i: usize = 0;
    proof {
        reveal_strlit(" ");
        assert(out@ =~= old(out)@ + spaces(0));
    }
    while i < count
        invariant
            i <= count,
            " "@ == seq![' '],
            out@ == old(out)@ + spaces(i as int),
        decreases count - i,
    {
        out.append(" ");
        i += 1;
        assert(out@ =~= old(out)@ + spaces(i as int));
    }
}

/// Number of bytes that one row of a memory dump covers.
pub const ROW_BYTES: usize = 16;

/// Number of rows in a dump of the first `size` bytes.
pub open spec fn row_count(size: int) -> int {
    (size + 15) / 16
}

/// One word of a row: a prefix that names the style, then the digits.
pub open spec fn word_text(word: u32, style: DumpStyle) -> Seq<char> {
    match style {
        DumpStyle::Hex => seq!['0', 'x'] + hex_text(word, 8),
        DumpStyle::Bin => seq!['0', 'b'] + bin_text(word, 32),
    }
}

/// The `count` little-endian words of `mem` from index `start` on, with one
/// blank between neighbours and none after the last.
pub open spec fn words_text(mem: Seq<u8>, start: int, count: int, style: DumpStyle) -> Seq<char>
    decreases count,
{
    if count <= 0 {
        Seq::empty()
    } else if count == 1 {
        word_text(word_at(mem, start) as u32, style)
    } else {
        words_text(mem, start, count - 1, style) + seq![' '] + word_text(
            word_at(mem, start + 4 * (count - 1)) as u32,
            style,
        )
    }
}

/// Number of words in row `row` of a dump of the first `size` bytes: four,
/// but for a last row that `size` cuts short.
pub open spec fn words_in_row(size: int, row: int) -> int {
    if size - 16 * row >= 16 {
        4
    } else {
        (size - 16 * row) / 4
    }
}

/// Row `row` of the dump of the first `size` bytes of `mem`: the address of
/// the row, a colon and a blank, and the words of the row.
pub open spec fn word_row(mem: Seq<u8>, size: int, row: int, style: DumpStyle) -> Seq<char> {
    seq!['0', 'x'] + hex_text((MAGIC_START + 16 * row) as u32, 8) + seq![':', ' '] + words_text(
        mem,
        16 * row,
        words_in_row(size, row),
        style,
    )
}

/// The text of a run of words is decided by the bytes of the run alone.
pub proof fn lemma_words_text_reads_its_bytes(
    a: Seq<u8>,
    b: Seq<u8>,
    start: int,
    count: int,
    style: DumpStyle,
)
    requires
        forall|i: int| start <= i < start + 4 * count ==> a[i] == b[i],
    ensures
        words_text(a, start, count, style) == words_text(b, start, count, style),
    decreases count,
{
    if count > 1 {
        lemma_words_text_reads_its_bytes(a, b, start, count - 1, style);
    }
}

/// A dump of the first `size` bytes shows those bytes and no others: two
/// memories that agree on them have the same rows.
pub proof fn lemma_rows_read_the_dumped_bytes(
    a: Seq<u8>,
    b: Seq<u8>,
    size: int,
    row: int,
    style: DumpStyle,
)
    requires
        0 <= row,
        forall|i: int| 0 <= i < size ==> a[i] == b[i],
    ensures
        word_row(a, size, row, style) == word_row(b, size, row, style),
{
    lemma_words_text_reads_its_bytes(a, b, 16 * row, words_in_row(size, row), style);
}

/// The name of general-purpose register `index`: an `x` and the index in
/// decimal.
pub open spec fn register_name(index: int) -> Seq<char>
    recommends
        0 <= index < 100,
{
    if index < 10 {
        seq!['x', digit(index)]
    } else {
        seq!['x', digit(index / 10), digit(index % 10)]
    }
}

/// One line of the register dump: the name, left-justified in five columns,
/// a space, and the value in eight hexadecimal digits.
pub open spec fn register_line(name: Seq<char>, value: u32) -> Seq<char>
    recommends
        name.len() <= 5,
{
    name + spaces(5 - name.len()) + seq![' '] + hex_text(value, 8)
}

/// The header of the register dump: `Reg` left-justified in five columns, a
/// space, and `Value` right-justified in eight.
pub open spec fn register_header() -> Seq<char> {
    seq!['R', 'e', 'g'] + spaces(6) + seq!['V', 'a', 'l', 'u', 'e']
}

/// Number of lines in the register dump: the header, `x0 ..= x30`, and the
/// program counter.
pub const REGISTER_DUMP_LINES: usize = 33;

/// The lines of the register dump.
pub open spec fn register_lines(registers: Seq<u32>) -> Seq<Seq<char>> {
    Seq::new(
        REGISTER_DUMP_LINES as nat,
        |i: int|
            if i == 0 {
                register_header()
            } else if i < 32 {
                register_line(register_name(i - 1), registers[i - 1])
            } else {
                register_line(seq!['P', 'C'], registers[PC as int])
            },
    )
}

/// One line of the log of a step for an immediate: its name, a colon, and its
/// value in thirty-two binary digits.
pub open spec fn immediate_line(name: Seq<char>, value: u32) -> Seq<char> {
    name + seq![':', ' '] + bin_text(value, 32)
}

/// The log of a step: the address and the word fetched there, in
/// hexadecimal, then the five immediates.
pub open spec fn step_lines(step: Step) -> Seq<Seq<char>> {
    seq![
        hex_text(step.pc, 8) + seq![':', ' '] + hex_text(step.word, 8),
        immediate_line(seq!['i', 'm', 'm', '_', 'i'], step.instruction.imm_i),
        immediate_line(seq!['i', 'm', 'm', '_', 's'], step.instruction.imm_s),
        immediate_line(seq!['i', 'm', 'm', '_', 'b'], step.instruction.imm_b),
        immediate_line(seq!['i', 'm', 'm', '_', 'u'], step.instruction.imm_u),
        immediate_line(seq!['i', 'm', 'm', '_', 'j'], step.instruction.imm_j),
    ]
}

/// The line of the log of a step for the immediate called `name`.
fn immediate_row(name: &str, value: u32) -> (line: String)
    ensures
        line@ == immediate_line(name@, value),
{
    proof {
        reveal_strlit(": ");
    }
    let mut line: String = String::from_str(name);
    line.append(": ");
    push_bin(&mut line, value, 32);
    line
}

/// Append the text of one word to `out`.
fn push_word_text(out: &mut String, word: u32, style: DumpStyle)
    ensures
        final(out)@ == old(out)@ + word_text(word, style),
{
    proof {
        reveal_strlit("0x");
        reveal_strlit("0b");
    }
    match style {
        DumpStyle::Hex => {
            out.append("0x");
            push_hex(out, word, 8);
        },
        DumpStyle::Bin => {
            out.append("0b");
            push_bin(out, word, 32);
        },
    }
    assert(out@ =~= old(out)@ + word_text(word, style));
}

/// Append one line of the register dump to `lines`.
fn push_register_line(lines: &mut Vec<String>, name: String, value: u32)
    requires
        name@.len() <= 5,
    ensures
        final(lines)@.len() == old(lines)@.len() + 1,
        forall|i: int| 0 <= i < old(lines)@.len() ==> final(lines)@[i] == old(lines)@[i],
        final(lines)@[old(lines)@.len() as int]@ == register_line(name@, value),
{
    let mut line: String = name;
    let width: usize = line.as_str().unicode_len();
    push_spaces(&mut line, 5 - width);
    push_spaces(&mut line, 1);
    push_hex(&mut line, value, 8);
    assert(spaces(1) =~= seq![' ']);
    lines.push(line);
}

impl Step {
    /// The log of the step, line by line.
    pub fn lines(&self) -> (lines: Vec<String>)
        ensures
            lines@.len() == step_lines(*self).len(),
            forall|i: int|
                0 <= i < lines@.len() ==> (#[trigger] lines@[i])@ == step_lines(*self)[i],
    {
        proof {
            reveal_strlit(": ");
            reveal_strlit("imm_i");
            reveal_strlit("imm_s");
            reveal_strlit("imm_b");
            reveal_strlit("imm_u");
            reveal_strlit("imm_j");
        }
        let mut first: String = String::new();
        push_hex(&mut first, self.pc, 8);
        first.append(": ");
        push_hex(&mut first, self.word, 8);
        let mut lines: Vec<String> = Vec::new();
        lines.push(first);
        lines.push(immediate_row("imm_i", self.instruction.imm_i));
        lines.push(immediate_row("imm_s", self.instruction.imm_s));
        lines.push(immediate_row("imm_b", self.instruction.imm_b));
        lines.push(immediate_row("imm_u", self.instruction.imm_u));
        lines.push(immediate_row("imm_j", self.instruction.imm_j));
        assert("imm_i"@ =~= seq!['i', 'm', 'm', '_', 'i']);
        assert("imm_s"@ =~= seq!['i', 'm', 'm', '_', 's']);
        assert("imm_b"@ =~= seq!['i', 'm', 'm', '_', 'b']);
        assert("imm_u"@ =~= seq!['i', 'm', 'm', '_', 'u']);
        assert("imm_j"@ =~= seq!['i', 'm', 'm', '_', 'j']);
        lines
    }
}

impl CPU {
    /// The dump of the first `size` bytes of memory: rows of sixteen bytes,
    /// each its address followed by its little-endian words, one blank
    /// between them.
    pub fn coredump(&self, size: usize, style: DumpStyle) -> (lines: Vec<String>)
        requires
            size <= MEMSIZE,
            size % 4 == 0,
        ensures
            lines@.len() == row_count(size as int),
            forall|r: int|
                0 <= r < lines@.len() ==> (#[trigger] lines@[r])@ == word_row(
                    self@.memory,
                    size as int,
                    r,
                    style,
                ),
    {
        let memory: &Memory = self.memory();
        let mut lines: Vec<String> = Vec::new();
        let mut row: usize = 0;
        proof {
            memory.lemma_window_size();
        }
        while ROW_BYTES * row < size
            invariant
                size <= MEMSIZE,
                size % 4 == 0,
                memory@.len() == MEMSIZE,
                ROW_BYTES * row < size + ROW_BYTES,
                lines@.len() == row,
                forall|r: int|
                    0 <= r < lines@.len() ==> (#[trigger] lines@[r])@ == word_row(
                        memory@,
                        size as int,
                        r,
                        style,
                    ),
            decreases size + ROW_BYTES - ROW_BYTES * row,
        {
            let start: usize = ROW_BYTES * row;
            let count: usize = if size - start >= ROW_BYTES {
                4
            } else {
                (size - start) / 4
            };
            let mut line: String = String::new();
            proof {
                reveal_strlit("0x");
                reveal_strlit(": ");
            }
            line.append("0x");
            push_hex(&mut line, MAGIC_START + start as u32, 8);
            line.append(": ");
            let ghost head = line@;
            let mut k: usize = 0;
            proof {
                reveal_strlit(" ");
                assert(line@ =~= head + words_text(memory@, start as int, 0, style));
            }
            while k < count
                invariant
                    k <= count <= 4,
                    start + 4 * count <= size <= MEMSIZE,
                    memory@.len() == MEMSIZE,
                    " "@ == seq![' '],
                    line@ == head + words_text(memory@, start as int, k as int, style),
                decreases count - k,
            {
                if k > 0 {
                    line.append(" ");
                }
                let word: u32 = memory.fetch32(MAGIC_START + (start + 4 * k) as u32);
                push_word_text(&mut line, word, style);
                k += 1;
                assert(line@ =~= head + words_text(memory@, start as int, k as int, style));
            }
            assert(line@ =~= word_row(memory@, size as int, row as int, style));
            lines.push(line);
            row += 1;
        }
        lines
    }

    /// The dump of the first `size` bytes of memory, as it is shown after a
    /// load: the rows of `coredump`.
    pub fn mem_dump(&self, size: usize, style: DumpStyle) -> (lines: Vec<String>)
        requires
            size <= MEMSIZE,
            size % 4 == 0,
        ensures
            lines@.len() == row_count(size as int),
            forall|r: int|
                0 <= r < lines@.len() ==> (#[trigger] lines@[r])@ == word_row(
                    self@.memory,
                    size as int,
                    r,
                    style,
                ),
    {
        self.coredump(size, style)
    }

    /// The register dump: a header, then `x0 ..= x30` and the program counter,
    /// each with its value in hexadecimal.
    pub fn regdump(&self) -> (lines: Vec<String>)
        ensures
            lines@.len() == REGISTER_DUMP_LINES,
            forall|i: int|
                0 <= i < lines@.len() ==> (#[trigger] lines@[i])@ == register_lines(
                    self@.registers,
                )[i],
    {
        let registers: &RegisterFile = self.registers();
        let mut lines: Vec<String> = Vec::new();
        proof {
            reveal_strlit("Reg      Value");
            reveal_strlit("x");
            reveal_strlit("PC");
        }
        let header: String = String::from_str("Reg      Value");
        assert(header@ =~= register_header());
        lines.push(header);
        let mut index: usize = 0;
        while index < 31
            invariant
                index <= 31,
                "x"@ == seq!['x'],
                lines@.len() == index + 1,
                forall|i: int|
                    0 <= i < lines@.len() ==> (#[trigger] lines@[i])@ == register_lines(
                        registers@,
                    )[i],
            decreases 31 - index,
        {
            let mut name: String = String::from_str("x");
            if index >= 10 {
                name.append(digit_str((index / 10) as u32));
            }
            name.append(digit_str((index % 10) as u32));
            assert(name@ =~= register_name(index as int));
            push_register_line(&mut lines, name, registers.get(index));
            index += 1;
        }
        let name: String = String::from_str("PC");
        assert(name@ =~= seq!['P', 'C']);
        push_register_line(&mut lines, name, registers.get(PC));
        lines
    }
}

} // verus!
