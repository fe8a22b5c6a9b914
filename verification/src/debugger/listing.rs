//! What the debugger shows of a machine: the current instruction, memory,
//! stack and registers, and the text that a program may print.

use vstd::prelude::*;
use vstd::string::{StrSliceExecFns, StringExecFns};

use super::{is_char, Debugger, StateView};
use crate::errors::Error;
use crate::machine::Inspectable;
use crate::memory::{
    image_of, lemma_fetch_advances, range_from_text, register_from_number, resolve, rest_of,
    value_from_word, Addr, AddrRange, Memory, MemoryView, Register, RegisterSet, Value, MAX_BYTES,
};
use crate::op_code::{out_char, DecodedOpCode, OpCode};
use crate::text::{
    decimal, decimal4_string, decimal_string, hex, hex2_string, hex4_string, parse_usize, parsed,
    push_char, usize_from_text, zero_padded,
};

verus! {

/// The texts of some strings.
pub open spec fn texts(lines: Seq<String>) -> Seq<Seq<char>> {
    lines.map_values(|s: String| s@)
}

/// The lines that a walk over memory finds from the cursor on, with
/// `current` as the line begun so far. Memory is read as a run of
/// instructions up to the first that is none. Each `out` adds its character
/// to the line, and a line feed ends the line. A line left open at the end
/// counts as well, unless it is empty.
pub open spec fn scanned(m: MemoryView, registers: Seq<u16>, current: Seq<char>) -> Seq<Seq<char>>
    decreases m.bytes.len() - m.cursor,
{
    let (op, after) = m.fetch_op();
    if op is Err || after.cursor <= m.cursor || after.bytes.len() != m.bytes.len() {
        if current.len() > 0 {
            seq![current]
        } else {
            Seq::empty()
        }
    } else {
        match op {
            Ok(OpCode::Out { c }) => {
                let ch = out_char(resolve(registers, c));
                if ch == '\n' {
                    seq![current] + scanned(after, registers, Seq::empty())
                } else {
                    scanned(after, registers, current.push(ch))
                }
            },
            _ => scanned(after, registers, current),
        }
    }
}

/// The character that stands for a byte in a dump: the byte itself where it
/// is printable ASCII, a dot otherwise.
pub open spec fn printable(b: u8) -> char {
    if 0x20 <= b < 0x7f {
        b as char
    } else {
        '.'
    }
}

/// Some bytes in hexadecimal, two digits and a space for each.
pub open spec fn hex_cells(row: Seq<u8>) -> Seq<char>
    decreases row.len(),
{
    if row.len() == 0 {
        Seq::empty()
    } else {
        hex_cells(row.drop_last()) + zero_padded(hex(row.last() as nat), 2) + seq![' ']
    }
}

/// How many blanks fill a row of `len` bytes up to the width of sixteen.
pub open spec fn blanks_after(len: nat) -> nat {
    if len < 16 {
        (3 * (16 - len)) as nat
    } else {
        0
    }
}

/// One row of a dump: a label of four hexadecimal digits and a colon, the
/// bytes in hexadecimal, blanks up to the width of sixteen bytes, and the
/// bytes as characters.
pub open spec fn dump_row(label: nat, row: Seq<u8>) -> Seq<char> {
    zero_padded(hex(label), 4) + ": "@ + hex_cells(row) + Seq::new(
        blanks_after(row.len()),
        |i: int| ' ',
    ) + row.map_values(|b: u8| printable(b))
}

/// How many rows of sixteen a number of bytes takes.
pub open spec fn row_count(len: nat) -> nat {
    (len + 15) / 16
}

/// Row `k` of some bytes.
pub open spec fn row_of(bytes: Seq<u8>, k: int) -> Seq<u8> {
    bytes.subrange(
        16 * k,
        if 16 * k + 16 <= bytes.len() {
            16 * k + 16
        } else {
            bytes.len() as int
        },
    )
}

/// Some numbers in decimal with commas between them.
pub open spec fn comma_separated(numbers: Seq<u16>) -> Seq<char>
    decreases numbers.len(),
{
    if numbers.len() == 0 {
        Seq::empty()
    } else if numbers.len() == 1 {
        decimal(numbers[0] as nat)
    } else {
        comma_separated(numbers.drop_last()) + seq![','] + decimal(numbers.last() as nat)
    }
}

/// The current instruction as it is shown: its address, its fetched form and
/// its decoded form. A `call` is followed by its target and the registers, a
/// `ret` by the first register.
pub open spec fn instruction_line(
    ip: Addr,
    op_code: OpCode,
    decoded_op: DecodedOpCode,
    registers: Seq<u16>,
) -> Seq<char> {
    let base = ip.text() + ": "@ + op_code.text() + " | "@ + decoded_op.text();
    match op_code {
        OpCode::Call { addr } => base + " <- "@ + addr.text() + "("@ + comma_separated(registers)
            + ")"@,
        OpCode::Ret => base + " -> "@ + decimal(registers[0] as nat),
        _ => base,
    }
}

/// What is shown as the current instruction of a state.
pub open spec fn current_instruction(s: StateView) -> Result<Seq<char>, Error> {
    if s is Halted {
        Ok("MACHINE HALTED"@)
    } else {
        match s.machine().peek() {
            Ok((op_code, decoded_op)) => match s.machine().memory.ip() {
                Some(ip) => Ok(instruction_line(ip, op_code, decoded_op, s.machine().registers)),
                None => Err(Error::UnexpectedEof),
            },
            Err(e) => Err(e),
        }
    }
}

/// One line of the stack: its depth in four digits, and the word as an
/// operand, shown briefly and at length.
pub open spec fn stack_line(depth: nat, v: Value) -> Seq<char> {
    zero_padded(decimal(depth), 4) + ": "@ + v.text() + seq![' '] + v.debug_text()
}

/// How a word is shown as an operand, or as the fault that it is none.
pub open spec fn operand_report(u: u16) -> Seq<char> {
    match value_from_word(u) {
        Ok(v) => "Ok("@ + v.debug_text() + ")"@,
        Err(_) => "Err(InvalidValue("@ + decimal(u as nat) + "))"@,
    }
}

/// One line of the registers: the register's name, its content in
/// hexadecimal and decimal, the content as an operand, and a line feed.
pub open spec fn register_line(i: nat, u: u16) -> Seq<char> {
    "r"@ + decimal(i) + ": 0x"@ + zero_padded(hex(u as nat), 4) + seq![' '] + decimal(u as nat)
        + seq![' '] + operand_report(u) + seq!['\n']
}

/// The text of a string grows by one when a string is pushed.
proof fn lemma_texts_push(lines: Seq<String>, line: String)
    ensures
        texts(lines.push(line)) == texts(lines).push(line@),
{
    assert(texts(lines.push(line)) =~= texts(lines).push(line@));
}

fn append_hex_cells(s: &mut String, row: &[u8])
    ensures
        final(s)@ == old(s)@ + hex_cells(row@),
{
    let mut j: usize = 0;
    assert(row@.subrange(0, 0) =~= Seq::<u8>::empty());
    assert(s@ =~= old(s)@ + hex_cells(row@.subrange(0, 0)));
    while j < row.len()
        invariant
            j <= row@.len(),
            s@ == old(s)@ + hex_cells(row@.subrange(0, j as int)),
        decreases row@.len() - j,
    {
        s.append(hex2_string(row[j]).as_str());
        push_char(s, ' ');
        proof {
            let upto = row@.subrange(0, j as int + 1);
            assert(upto.drop_last() =~= row@.subrange(0, j as int));
            assert(upto.last() == row@[j as int]);
            assert(s@ =~= old(s)@ + hex_cells(upto));
        }
        j = j + 1;
    }
    assert(row@.subrange(0, row@.len() as int) =~= row@);
}

fn append_blanks(s: &mut String, count: usize)
    ensures
        final(s)@ == old(s)@ + Seq::new(count as nat, |i: int| ' '),
{
    let mut j: usize = 0;
    assert(s@ =~= old(s)@ + Seq::new(0, |i: int| ' '));
    while j < count
        invariant
            j <= count,
            s@ == old(s)@ + Seq::new(j as nat, |i: int| ' '),
        decreases count - j,
    {
        push_char(s, ' ');
        assert(s@ =~= old(s)@ + Seq::new((j + 1) as nat, |i: int| ' '));
        j = j + 1;
    }
}

fn append_printable(s: &mut String, row: &[u8])
    ensures
        final(s)@ == old(s)@ + row@.map_values(|b: u8| printable(b)),
{
    let mut j: usize = 0;
    assert(s@ =~= old(s)@ + row@.subrange(0, 0).map_values(|b: u8| printable(b)));
    while j < row.len()
        invariant
            j <= row@.len(),
            s@ == old(s)@ + row@.subrange(0, j as int).map_values(|b: u8| printable(b)),
        decreases row@.len() - j,
    {
        let b = row[j];
        if b >= 0x20 && b < 0x7f {
            push_char(s, b as char);
        } else {
            push_char(s, '.');
        }
        assert(s@ =~= old(s)@ + row@.subrange(0, j as int + 1).map_values(|b: u8| printable(b)));
        j = j + 1;
    }
    assert(row@.subrange(0, row@.len() as int) =~= row@);
}

/// Writes one row of a dump.
pub fn write_dump_row(label: usize, row: &[u8]) -> (s: String)
    ensures
        s@ == dump_row(label as nat, row@),
{
    let mut s = hex4_string(label);
    s.append(": ");
    append_hex_cells(&mut s, row);
    let blanks = if row.len() < 16 {
        3 * (16 - row.len())
    } else {
        0
    };
    append_blanks(&mut s, blanks);
    append_printable(&mut s, row);
    s
}

/// Writes a dump of some bytes in rows of sixteen. The label of the first
/// row is `start`, and each further label is sixteen more.
pub fn write_dump(bytes: &[u8], start: usize) -> (lines: Vec<String>)
    requires
        start + bytes@.len() <= usize::MAX,
    ensures
        lines@.len() == row_count(bytes@.len()),
        forall|k: int|
            0 <= k < lines@.len() ==> (#[trigger] lines@[k])@ == dump_row(
                (start + 16 * k) as nat,
                row_of(bytes@, k),
            ),
{
    let len = bytes.len();
    let rows = if len % 16 == 0 {
        len / 16
    } else {
        len / 16 + 1
    };
    let mut lines: Vec<String> = Vec::new();
    let mut k: usize = 0;
    while k < rows
        invariant
            len == bytes@.len(),
            start + len <= usize::MAX,
            rows == row_count(len as nat),
            k <= rows,
            lines@.len() == k,
            forall|i: int|
                0 <= i < lines@.len() ==> (#[trigger] lines@[i])@ == dump_row(
                    (start + 16 * i) as nat,
                    row_of(bytes@, i),
                ),
        decreases rows - k,
    {
        let at = 16 * k;
        let end = if len - at >= 16 {
            at + 16
        } else {
            len
        };
        let row = vstd::slice::slice_subrange(bytes, at, end);
        assert(row@ == row_of(bytes@, k as int));
        lines.push(write_dump_row(start + at, row));
        k = k + 1;
    }
    lines
}

/// Writes some numbers in decimal with commas between them.
pub fn write_comma_separated(numbers: &[u16]) -> (s: String)
    ensures
        s@ == comma_separated(numbers@),
{
    let mut s = String::new();
    let mut j: usize = 0;
    assert(numbers@.subrange(0, 0) =~= Seq::<u16>::empty());
    while j < numbers.len()
        invariant
            j <= numbers@.len(),
            s@ == comma_separated(numbers@.subrange(0, j as int)),
        decreases numbers@.len() - j,
    {
        if j > 0 {
            push_char(&mut s, ',');
        }
        s.append(decimal_string(numbers[j] as usize).as_str());
        proof {
            let upto = numbers@.subrange(0, j as int + 1);
            assert(upto.drop_last() =~= numbers@.subrange(0, j as int));
            assert(upto.last() == numbers@[j as int]);
            if j == 0 {
                assert(s@ =~= decimal(numbers@[0] as nat));
            } else {
                assert(s@ =~= comma_separated(upto.drop_last()) + seq![','] + decimal(
                    upto.last() as nat,
                ));
            }
        }
        j = j + 1;
    }
    assert(numbers@.subrange(0, numbers@.len() as int) =~= numbers@);
    s
}

/// Writes the current instruction as it is shown.
pub fn write_instruction_line(
    ip: Addr,
    op_code: &OpCode,
    decoded_op: &DecodedOpCode,
    registers: &RegisterSet,
) -> (s: String)
    ensures
        s@ == instruction_line(ip, *op_code, *decoded_op, registers@),
{
    let mut s = ip.to_string();
    s.append(": ");
    s.append(op_code.to_string().as_str());
    s.append(" | ");
    s.append(decoded_op.to_string().as_str());
    match *op_code {
        OpCode::Call { addr } => {
            s.append(" <- ");
            s.append(addr.to_string().as_str());
            s.append("(");
            s.append(write_comma_separated(registers.to_array().as_slice()).as_str());
            s.append(")");
        },
        OpCode::Ret => {
            s.append(" -> ");
            s.append(decimal_string(registers.to_array()[0] as usize).as_str());
        },
        _ => {},
    }
    s
}

/// Writes one line of the stack.
pub fn write_stack_line(depth: usize, v: Value) -> (s: String)
    ensures
        s@ == stack_line(depth as nat, v),
{
    let mut s = decimal4_string(depth);
    s.append(": ");
    s.append(v.to_string().as_str());
    push_char(&mut s, ' ');
    s.append(v.to_debug_string().as_str());
    s
}

/// Writes a word as an operand, or as the fault that it is none.
pub fn write_operand_report(u: u16) -> (s: String)
    ensures
        s@ == operand_report(u),
{
    let mut s;
    match Value::try_from(u) {
        Ok(v) => {
            s = "Ok(".to_owned();
            s.append(v.to_debug_string().as_str());
            s.append(")");
        },
        Err(_) => {
            s = "Err(InvalidValue(".to_owned();
            s.append(decimal_string(u as usize).as_str());
            s.append("))");
        },
    }
    s
}

/// Writes one line of the registers.
pub fn write_register_line(i: usize, u: u16) -> (s: String)
    ensures
        s@ == register_line(i as nat, u),
{
    let mut s = "r".to_owned();
    s.append(decimal_string(i).as_str());
    s.append(": 0x");
    s.append(hex4_string(u as usize).as_str());
    push_char(&mut s, ' ');
    s.append(decimal_string(u as usize).as_str());
    push_char(&mut s, ' ');
    s.append(write_operand_report(u).as_str());
    push_char(&mut s, '\n');
    s
}

/// The texts of the lines of a listing that succeeded.
pub open spec fn lines_of(r: Result<Vec<String>, Error>) -> Result<Seq<Seq<char>>, Error> {
    match r {
        Ok(lines) => Ok(texts(lines@)),
        Err(e) => Err(e),
    }
}

/// The dump of some bytes in rows of sixteen, the first of which is labelled
/// `start` and each further one sixteen more.
pub open spec fn dump(bytes: Seq<u8>, start: nat) -> Seq<Seq<char>> {
    Seq::new(row_count(bytes.len()), |k: int| dump_row((start + 16 * k) as nat, row_of(bytes, k)))
}

/// The position, counted from the top of the stack, of the first word at or
/// after `from` and before `count` that is no operand.
pub open spec fn first_invalid(stack: Seq<u16>, count: int, from: int) -> Option<int>
    decreases count - from,
{
    if from < 0 || from >= count || from >= stack.len() {
        None
    } else if value_from_word(stack[stack.len() - 1 - from]) is Err {
        Some(from)
    } else {
        first_invalid(stack, count, from + 1)
    }
}

/// The listing of the top `count` words of a stack, top first, or of all of
/// it where it holds fewer. A word that is no operand is reported instead,
/// the one nearest the top first.
pub open spec fn stack_listing(stack: Seq<u16>, count: nat) -> Result<Seq<Seq<char>>, Error> {
    let shown = if count < stack.len() {
        count
    } else {
        stack.len()
    };
    match first_invalid(stack, shown as int, 0) {
        Some(i) => Err(value_from_word(stack[stack.len() - 1 - i])->Err_0),
        None => Ok(
            Seq::new(
                shown,
                |i: int| stack_line(i as nat, value_from_word(stack[stack.len() - 1 - i])->Ok_0),
            ),
        ),
    }
}

/// How many words of the stack a text asks for: all of them where there is
/// no text.
pub open spec fn stack_count(n: Option<Seq<char>>, len: nat) -> Result<nat, Error> {
    match n {
        Some(text) => match usize_from_text(text) {
            Some(k) => Ok(k as nat),
            None => Err(Error::ParseInt),
        },
        None => Ok(len),
    }
}

/// The listing of one register, or of all eight.
pub open spec fn register_listing(registers: Seq<u16>, which: Option<Register>) -> Seq<Seq<char>> {
    match which {
        Some(reg) => seq![register_line(reg.index() as nat, registers[reg.index()])],
        None => Seq::new(8, |i: int| register_line(i as nat, registers[i])),
    }
}

/// Which registers a text asks for: all of them for `r`, else the one whose
/// number follows the first character.
pub open spec fn register_choice(r: Seq<char>) -> Result<Option<Register>, Error> {
    if r == seq!['r'] {
        Ok(None)
    } else {
        let number = if r.len() >= 1 {
            r.subrange(1, r.len() as int)
        } else {
            r
        };
        match register_from_number(usize_from_text(number)) {
            Ok(reg) => Ok(Some(reg)),
            Err(e) => Err(e),
        }
    }
}

/// Finds the text that a program may print: memory is read as a run of
/// instructions, and the characters of its `out` instructions are gathered
/// into lines. The registers are those of `registers`.
pub fn scan_memory(image: Vec<u8>, registers: &RegisterSet) -> (r: Result<Vec<String>, Error>)
    ensures
        image@.len() <= MAX_BYTES && image@.len() % 2 == 0 ==> lines_of(r) == Ok::<
            Seq<Seq<char>>,
            Error,
        >(scanned(image_of(image@), registers@, Seq::empty())),
        image@.len() > MAX_BYTES || image@.len() % 2 != 0 ==> r == Err::<Vec<String>, Error>(
            Error::InvalidMemorySize(image@.len() as usize),
        ),
{
    let mut mem = Memory::new(image)?;
    let ghost total = scanned(mem@, registers@, Seq::empty());
    let mut lines: Vec<String> = Vec::new();
    let mut current = String::new();
    assert(texts(lines@) + scanned(mem@, registers@, current@) =~= total);
    loop
        invariant_except_break
            texts(lines@) + scanned(mem@, registers@, current@) == total,
        ensures
            texts(lines@) + (if current@.len() > 0 {
                seq![current@]
            } else {
                Seq::empty()
            }) == total,
        decreases MAX_BYTES - mem@.cursor,
    {
        let ghost before = mem@;
        proof {
            use_type_invariant(&mem);
            lemma_fetch_advances(before);
        }
        match mem.fetch_op() {
            Ok(op) => {
                if let OpCode::Out { c } = op {
                    let ch = (registers.read(c) % 256) as u8 as char;
                    if ch == '\n' {
                        proof {
                            lemma_texts_push(lines@, current);
                            assert(texts(lines@).push(current@) + scanned(
                                mem@,
                                registers@,
                                Seq::empty(),
                            ) =~= texts(lines@) + (seq![current@] + scanned(
                                mem@,
                                registers@,
                                Seq::empty(),
                            )));
                        }
                        lines.push(current);
                        current = String::new();
                    } else {
                        push_char(&mut current, ch);
                    }
                }
            },
            Err(_) => {
                break ;
            },
        }
    }
    if !current.as_str().is_empty() {
        proof {
            lemma_texts_push(lines@, current);
            assert(texts(lines@).push(current@) =~= texts(lines@) + seq![current@]);
        }
        lines.push(current);
    } else {
        assert(texts(lines@) + Seq::<Seq<char>>::empty() =~= texts(lines@));
    }
    Ok(lines)
}

/// Writes the listing of the top `count` words of a stack.
pub fn write_stack_listing(stack: &[u16], count: usize) -> (r: Result<Vec<String>, Error>)
    ensures
        lines_of(r) == stack_listing(stack@, count as nat),
{
    let len = stack.len();
    let shown = if count > len {
        len
    } else {
        count
    };
    let mut lines: Vec<String> = Vec::new();
    let mut i: usize = 0;
    while i < shown
        invariant
            len == stack@.len(),
            shown <= len,
            shown == if count > len {
                len
            } else {
                count
            },
            i <= shown,
            lines@.len() == i,
            first_invalid(stack@, shown as int, 0) == first_invalid(stack@, shown as int, i as int),
            forall|k: int|
                0 <= k < i ==> (#[trigger] lines@[k])@ == stack_line(
                    k as nat,
                    value_from_word(stack@[len - 1 - k])->Ok_0,
                ),
        decreases shown - i,
    {
        let v = match Value::try_from(stack[len - 1 - i]) {
            Ok(v) => v,
            Err(e) => {
                assert(first_invalid(stack@, shown as int, i as int) == Some(i as int));
                return Err(e);
            },
        };
        lines.push(write_stack_line(i, v));
        i = i + 1;
    }
    assert(texts(lines@) =~= stack_listing(stack@, count as nat)->Ok_0);
    Ok(lines)
}

/// Writes the listing of one register, or of all eight.
pub fn write_register_listing(registers: &RegisterSet, which: Option<Register>) -> (lines: Vec<
    String,
>)
    ensures
        texts(lines@) == register_listing(registers@, which),
{
    let contents = registers.to_array();
    let mut lines: Vec<String> = Vec::new();
    match which {
        Some(reg) => {
            let i = reg.as_usize();
            lines.push(write_register_line(i, contents[i]));
        },
        None => {
            let mut i: usize = 0;
            while i < 8
                invariant
                    i <= 8,
                    contents@ == registers@,
                    lines@.len() == i,
                    forall|k: int|
                        0 <= k < i ==> (#[trigger] lines@[k])@ == register_line(
                            k as nat,
                            registers@[k],
                        ),
                decreases 8 - i,
            {
                lines.push(write_register_line(i, contents[i]));
                i = i + 1;
            }
        },
    }
    assert(texts(lines@) =~= register_listing(registers@, which));
    lines
}

impl Debugger {
    /// Finds the text that the program may print, by reading a copy of the
    /// used memory as a run of instructions.
    pub fn scan_strings(&self) -> (r: Result<Vec<String>, Error>)
        ensures
            lines_of(r) == Ok::<Seq<Seq<char>>, Error>(
                scanned(
                    image_of(
                        self@.state.machine().memory.range_bytes(AddrRange::between(None, None)),
                    ),
                    self@.state.machine().registers,
                    Seq::empty(),
                ),
            ),
    {
        let state = self.state();
        let image = vstd::slice::slice_to_vec(state.memory().get_range(&AddrRange::all()));
        scan_memory(image, state.registers())
    }

    /// Dumps the words of a range in rows of sixteen bytes. The first row is
    /// labelled with the word index at which the range starts.
    pub fn examine_range(&self, range: &AddrRange) -> (lines: Vec<String>)
        ensures
            texts(lines@) == dump(
                self@.state.machine().memory.range_bytes(*range),
                range.start_index() as nat,
            ),
    {
        let bytes = self.state().memory().get_range(range);
        let lines = write_dump(bytes, range.start());
        assert(texts(lines@) =~= dump(bytes@, range.start_index() as nat));
        lines
    }

    /// Dumps the words of a range that is given as text.
    pub fn examine_mem(&self, addrs: &str) -> (r: Result<Vec<String>, Error>)
        ensures
            lines_of(r) == match range_from_text(addrs@) {
                Ok(range) => Ok(
                    dump(
                        self@.state.machine().memory.range_bytes(range),
                        range.start_index() as nat,
                    ),
                ),
                Err(e) => Err(e),
            },
    {
        let range = AddrRange::from_str(addrs)?;
        Ok(self.examine_range(&range))
    }

    /// Lists the top `count` words of the stack, top first.
    pub fn stack_lines(&self, count: usize) -> (r: Result<Vec<String>, Error>)
        ensures
            lines_of(r) == stack_listing(self@.state.machine().stack, count as nat),
    {
        write_stack_listing(self.state().stack(), count)
    }

    /// Lists the top of the stack: as many words as the text says, or all of
    /// them where there is no text.
    pub fn show_stack(&self, n: Option<&str>) -> (r: Result<Vec<String>, Error>)
        ensures
            lines_of(r) == match stack_count(
                match n {
                    Some(text) => Some(text@),
                    None => None,
                },
                self@.state.machine().stack.len(),
            ) {
                Ok(count) => stack_listing(self@.state.machine().stack, count),
                Err(e) => Err(e),
            },
    {
        let stack = self.state().stack();
        let count = match n {
            Some(text) => match parsed(parse_usize(text)) {
                Some(k) => k,
                None => {
                    return Err(Error::ParseInt);
                },
            },
            None => stack.len(),
        };
        write_stack_listing(stack, count)
    }

    /// Lists one register, or all eight.
    pub fn register_lines(&self, which: Option<Register>) -> (lines: Vec<String>)
        ensures
            texts(lines@) == register_listing(self@.state.machine().registers, which),
    {
        write_register_listing(self.state().registers(), which)
    }

    /// Lists the registers that a text asks for: all of them for `r`, one
    /// for `r` and its number.
    pub fn show_registers(&self, r: &str) -> (lines: Result<Vec<String>, Error>)
        ensures
            lines_of(lines) == match register_choice(r@) {
                Ok(which) => Ok(register_listing(self@.state.machine().registers, which)),
                Err(e) => Err(e),
            },
    {
        let which = if is_char(r, 'r') {
            None
        } else {
            let number = if r.unicode_len() >= 1 {
                rest_of(r, 1)
            } else {
                r
            };
            Some(Register::from_str(number)?)
        };
        Ok(self.register_lines(which))
    }
}

/// One step of the walk over a well-formed memory: it ends at the first word
/// that is no instruction, an `out` adds its character to the line or ends
/// the line, and any other instruction is passed over.
pub proof fn lemma_scan_step(m: MemoryView, registers: Seq<u16>, current: Seq<char>)
    requires
        m.wf(),
    ensures
        m.fetch_op().1.wf(),
        scanned(m, registers, current) == match m.fetch_op().0 {
            Err(_) => if current.len() > 0 {
                seq![current]
            } else {
                Seq::empty()
            },
            Ok(OpCode::Out { c }) => if out_char(resolve(registers, c)) == '\n' {
                seq![current] + scanned(m.fetch_op().1, registers, Seq::empty())
            } else {
                scanned(m.fetch_op().1, registers, current.push(out_char(resolve(registers, c))))
            },
            Ok(_) => scanned(m.fetch_op().1, registers, current),
        },
{
    lemma_fetch_advances(m);
    crate::memory::lemma_fetch_keeps_contents(m);
}

} // verus!
