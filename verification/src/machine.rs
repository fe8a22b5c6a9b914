//! The machine: memory, registers, a stack and pending input, and the step
//! that runs one instruction.

use vstd::prelude::*;

use crate::errors::Error;
use crate::memory::{
    image_of, resolve, value_from_word, Addr, Memory, MemoryView, Register, RegisterSet, Value,
    MAX_BYTES,
};
use crate::op_code::{DecodedOpCode, OpCode};
use crate::text::remove_first_char;
use crate::wire::{
    append_word, append_words, word_at, word_bytes, word_from, words_bytes, words_from, words_in,
};

verus! {

/// The number that a character from the input stands for: its code, cut to
/// sixteen bits.
pub open spec fn char_word(c: char) -> u16 {
    ((c as u32) % 65536) as u16
}

/// A machine as the contracts see it.
pub struct MachineView {
    pub memory: MemoryView,
    /// The contents of the eight registers.
    pub registers: Seq<u16>,
    /// The stack, bottom first.
    pub stack: Seq<u16>,
    /// The characters given to the machine and not yet taken by `in`.
    pub input: Seq<char>,
}

/// What a step produces, as the contracts see it.
pub enum Outcome {
    /// `in` found no input; the machine waits for a character for the
    /// register.
    Input(MachineView, Register),
    /// `out` printed a character.
    Output(char, MachineView),
    /// Any other instruction ran.
    Continue(MachineView),
    /// `halt` ran, or `ret` found the stack empty.
    Halted(MachineView),
}

impl MachineView {
    /// Memory is well formed and there are eight registers.
    pub open spec fn wf(self) -> bool {
        self.memory.wf() && self.registers.len() == 8
    }

    /// The top of the stack, if there is one.
    pub open spec fn stack_top(self) -> Option<u16> {
        if self.stack.len() > 0 {
            Some(self.stack.last())
        } else {
            None
        }
    }

    /// This machine with `u` in a register.
    pub open spec fn with_register(self, reg: Register, u: u16) -> MachineView {
        MachineView { registers: self.registers.update(reg.index(), u), ..self }
    }

    /// This machine with the number an operand stands for in a register.
    pub open spec fn poked(self, reg: Register, val: Value) -> MachineView {
        self.with_register(reg, resolve(self.registers, val))
    }

    /// This machine with the cursor on the word at `addr`.
    pub open spec fn jumped(self, addr: Addr) -> MachineView {
        MachineView { memory: self.memory.moved_to(addr), ..self }
    }

    /// The word index that the cursor stands on, which `call` pushes.
    pub open spec fn ip_word(self) -> u16 {
        (self.memory.cursor / 2) as u16
    }

    /// This machine after the first character of its input went into a
    /// register. The character's number is read as an operand is: it may
    /// refer to a register, whose content is then taken, and it may be
    /// invalid.
    pub open spec fn fed(self, reg: Register) -> Result<MachineView, Error> {
        match value_from_word(char_word(self.input[0])) {
            Ok(v) => Ok(
                MachineView {
                    registers: self.registers.update(reg.index(), resolve(self.registers, v)),
                    input: self.input.drop_first(),
                    ..self
                },
            ),
            Err(e) => Err(e),
        }
    }

    /// The instruction under the cursor, as fetched and as decoded.
    pub open spec fn peek(self) -> Result<(OpCode, DecodedOpCode), Error> {
        match self.memory.fetch_op().0 {
            Ok(op) => match op.decoded(self.registers, self.stack_top()) {
                Ok(decoded) => Ok((op, decoded)),
                Err(e) => Err(e),
            },
            Err(e) => Err(e),
        }
    }

    /// What running a decoded instruction produces. `self` is the machine
    /// after the fetch, with the cursor behind the instruction. Sums,
    /// products and remainders are taken modulo 32768, `not` keeps fifteen
    /// bits, and a comparison gives 1 or 0.
    pub open spec fn execute(self, op: DecodedOpCode) -> Result<Outcome, Error> {
        match op {
            DecodedOpCode::Halt => Ok(Outcome::Halted(self)),
            DecodedOpCode::Out { c } => Ok(Outcome::Output(c, self)),
            DecodedOpCode::Noop => Ok(Outcome::Continue(self)),
            DecodedOpCode::Jmp { addr } => Ok(Outcome::Continue(self.jumped(addr))),
            DecodedOpCode::Jt { cond, addr } => Ok(
                Outcome::Continue(
                    if cond != 0 {
                        self.jumped(addr)
                    } else {
                        self
                    },
                ),
            ),
            DecodedOpCode::Jf { cond, addr } => Ok(
                Outcome::Continue(
                    if cond == 0 {
                        self.jumped(addr)
                    } else {
                        self
                    },
                ),
            ),
            DecodedOpCode::SetReg { reg, val } => Ok(Outcome::Continue(self.with_register(reg, val))),
            DecodedOpCode::Add { reg, val1, val2 } => Ok(
                Outcome::Continue(self.with_register(reg, ((val1 + val2) % 32768) as u16)),
            ),
            DecodedOpCode::Mult { reg, val1, val2 } => Ok(
                Outcome::Continue(self.with_register(reg, ((val1 * val2) % 32768) as u16)),
            ),
            DecodedOpCode::Mod { reg, val1, val2 } => if val2 == 0 {
                Err(Error::InvalidValue(0))
            } else {
                Ok(Outcome::Continue(self.with_register(reg, ((val1 % val2) % 32768) as u16)))
            },
            DecodedOpCode::Eq { reg, val1, val2 } => Ok(
                Outcome::Continue(
                    self.with_register(
                        reg,
                        if val1 == val2 {
                            1
                        } else {
                            0
                        },
                    ),
                ),
            ),
            DecodedOpCode::Gt { reg, val1, val2 } => Ok(
                Outcome::Continue(
                    self.with_register(
                        reg,
                        if val1 > val2 {
                            1
                        } else {
                            0
                        },
                    ),
                ),
            ),
            DecodedOpCode::Push { val } => Ok(
                Outcome::Continue(MachineView { stack: self.stack.push(val), ..self }),
            ),
            DecodedOpCode::Pop { reg } => if self.stack.len() == 0 {
                Err(Error::EmptyStack)
            } else {
                Ok(
                    Outcome::Continue(
                        MachineView {
                            registers: self.registers.update(reg.index(), self.stack.last()),
                            stack: self.stack.drop_last(),
                            ..self
                        },
                    ),
                )
            },
            DecodedOpCode::And { reg, val1, val2 } => Ok(
                Outcome::Continue(self.with_register(reg, val1 & val2)),
            ),
            DecodedOpCode::Or { reg, val1, val2 } => Ok(
                Outcome::Continue(self.with_register(reg, val1 | val2)),
            ),
            DecodedOpCode::Not { reg, val } => Ok(
                Outcome::Continue(self.with_register(reg, !val & 0x7fff)),
            ),
            DecodedOpCode::Call { addr } => Ok(
                Outcome::Continue(
                    MachineView { stack: self.stack.push(self.ip_word()), ..self }.jumped(addr),
                ),
            ),
            DecodedOpCode::Rmem { reg, addr } => Ok(
                Outcome::Continue(self.with_register(reg, self.memory.word(addr))),
            ),
            DecodedOpCode::Wmem { addr, val } => Ok(
                Outcome::Continue(MachineView { memory: self.memory.with_word(addr, val), ..self }),
            ),
            DecodedOpCode::Ret { addr: Some(addr) } => Ok(
                Outcome::Continue(
                    MachineView {
                        stack: if self.stack.len() > 0 {
                            self.stack.drop_last()
                        } else {
                            self.stack
                        },
                        ..self
                    }.jumped(addr),
                ),
            ),
            DecodedOpCode::Ret { addr: None } => Ok(Outcome::Halted(self)),
            DecodedOpCode::In { reg } => if self.input.len() == 0 {
                Ok(Outcome::Input(self, reg))
            } else {
                match self.fed(reg) {
                    Ok(m) => Ok(Outcome::Continue(m)),
                    Err(e) => Err(e),
                }
            },
        }
    }

    /// What one step produces: the instruction under the cursor is fetched,
    /// decoded against the registers and the top of the stack, and run.
    pub open spec fn step(self) -> Result<Outcome, Error> {
        let (fetched, memory) = self.memory.fetch_op();
        match fetched {
            Ok(op) => match op.decoded(self.registers, self.stack_top()) {
                Ok(decoded) => MachineView { memory, ..self }.execute(decoded),
                Err(e) => Err(e),
            },
            Err(e) => Err(e),
        }
    }
}

/// What can be asked of a machine in any state: running, waiting for input or
/// halted.
pub trait Inspectable {
    /// The machine inside.
    spec fn machine(&self) -> MachineView;

    /// Whether the machine has halted.
    spec fn halted(&self) -> bool;

    /// The instruction pointer. A halted machine has none, nor one whose
    /// cursor has passed the last word of memory.
    fn ip(&self) -> (r: Option<Addr>)
        ensures
            r == if self.halted() {
                None
            } else {
                self.machine().memory.ip()
            },
            r matches Some(a) ==> 0 <= a@ <= crate::memory::MAX_ADDR && self.machine().memory.cursor
                == 2 * a@,
    ;

    fn registers(&self) -> (r: &RegisterSet)
        ensures
            r@ == self.machine().registers,
    ;

    fn memory(&self) -> (r: &Memory)
        ensures
            r@ == self.machine().memory,
    ;

    /// The stack, bottom first.
    fn stack(&self) -> (r: &[u16])
        ensures
            r@ == self.machine().stack,
    ;

    /// The machine as a saved image holds it, without the two bytes that
    /// tell its state.
    fn as_bytes(&self) -> (r: Result<Vec<u8>, Error>)
        ensures
            saved_bytes(r) == self.machine().save(),
    ;

    /// Puts the number an operand stands for into a register.
    fn write_reg(&mut self, reg: Register, val: Value)
        ensures
            final(self).machine() == old(self).machine().poked(reg, val),
            final(self).halted() == old(self).halted(),
    ;

    /// The instruction under the cursor, as fetched and as decoded. Nothing
    /// of the machine changes, whether or not the instruction is valid.
    fn peek_instr(&mut self) -> (r: Result<(OpCode, DecodedOpCode), Error>)
        ensures
            r == old(self).machine().peek(),
            final(self).machine() == old(self).machine(),
            final(self).halted() == old(self).halted(),
    ;
}

/// The bytes of a save that succeeded.
pub open spec fn saved_bytes(r: Result<Vec<u8>, Error>) -> Result<Seq<u8>, Error> {
    match r {
        Ok(bytes) => Ok(bytes@),
        Err(e) => Err(e),
    }
}

impl MachineView {
    /// The saved image of a machine: the instruction pointer, the number of
    /// bytes of used memory, those bytes, half as many bytes of padding, the
    /// eight registers, the number of bytes of stack, and the stack from the
    /// bottom up. Every number is a little-endian word.
    pub open spec fn image(self) -> Seq<u8> {
        word_bytes(self.ip_word()) + word_bytes((2 * self.memory.used_words) as u16)
            + self.memory.used_image() + Seq::new(self.memory.used_words as nat, |i: int| 0u8)
            + words_bytes(self.registers) + word_bytes((2 * self.stack.len()) as u16)
            + words_bytes(self.stack)
    }

    /// What saving gives. A machine that uses all of memory, or whose stack
    /// is longer than 32767 words, has no image: its sizes do not fit a word.
    pub open spec fn save(self) -> Result<Seq<u8>, Error> {
        if 2 * self.memory.used_words > u16::MAX {
            Err(Error::InvalidMemorySize((2 * self.memory.used_words) as usize))
        } else if 2 * self.stack.len() > u16::MAX {
            Err(Error::InvalidStackSize(self.stack.len() as usize))
        } else {
            Ok(self.image())
        }
    }
}

/// The machine that a saved image holds. The image must hold all that its
/// two sizes announce; what follows the stack is ignored, and so is the last
/// byte of a stack of odd size. The pending input is not part of an image.
#[verifier::opaque]
pub open spec fn loaded(d: Seq<u8>) -> Result<MachineView, Error> {
    if d.len() < 4 {
        Err(Error::UnexpectedEof)
    } else {
        let ip = word_at(d, 0);
        let mem_bytes = word_at(d, 2) as int;
        let registers_at = 4 + mem_bytes + mem_bytes / 2;
        if ip > MAX_BYTES / 2 {
            Err(Error::InvalidAddr(ip as usize))
        } else if d.len() < 4 + mem_bytes {
            Err(Error::UnexpectedEof)
        } else if mem_bytes % 2 != 0 {
            Err(Error::InvalidMemorySize(mem_bytes as usize))
        } else if d.len() < registers_at + 18 {
            Err(Error::UnexpectedEof)
        } else {
            let stack_len = word_at(d, registers_at + 16) as int / 2;
            if d.len() < registers_at + 18 + 2 * stack_len {
                Err(Error::UnexpectedEof)
            } else {
                Ok(
                    MachineView {
                        memory: MemoryView { cursor: 2 * ip, ..image_of(d.subrange(4, 4 + mem_bytes)) },
                        registers: words_in(d.subrange(registers_at, registers_at + 16)),
                        stack: words_in(
                            d.subrange(registers_at + 18, registers_at + 18 + 2 * stack_len),
                        ),
                        input: Seq::empty(),
                    },
                )
            }
        }
    }
}

/// A machine that can run.
pub struct Machine {
    memory: Memory,
    registers: RegisterSet,
    stack: Vec<u16>,
    input_buffer: String,
}

impl View for Machine {
    type V = MachineView;

    closed spec fn view(&self) -> MachineView {
        MachineView {
            memory: self.memory@,
            registers: self.registers@,
            stack: self.stack@,
            input: self.input_buffer@,
        }
    }
}

/// A machine that waits for input for a register.
pub struct StalledMachine(Machine, Register);

/// A machine that has halted.
pub struct HaltedMachine(Machine);

/// What a step produces.
pub enum OpResult {
    /// `in` found no input.
    Input(StalledMachine),
    /// `out` printed a character.
    Output(char, Machine),
    /// Any other instruction ran.
    Continue(Machine),
    /// `halt` ran, or `ret` found the stack empty.
    Halted(HaltedMachine),
}

impl View for OpResult {
    type V = Outcome;

    open spec fn view(&self) -> Outcome {
        match *self {
            OpResult::Input(stalled) => Outcome::Input(stalled.machine(), stalled.register()),
            OpResult::Output(c, m) => Outcome::Output(c, m@),
            OpResult::Continue(m) => Outcome::Continue(m@),
            OpResult::Halted(halted) => Outcome::Halted(halted.machine()),
        }
    }
}

/// The outcome of a step that succeeded, as the contracts see it.
pub open spec fn outcome_of(r: Result<OpResult, Error>) -> Result<Outcome, Error> {
    match r {
        Ok(o) => Ok(o@),
        Err(e) => Err(e),
    }
}

/// The machine of a result that is one, as the contracts see it.
pub open spec fn machine_of(r: Result<Machine, Error>) -> Result<MachineView, Error> {
    match r {
        Ok(m) => Ok(m@),
        Err(e) => Err(e),
    }
}

impl Machine {
    /// Makes a machine from a program image, which must be of even length
    /// and no longer than memory. The registers hold zero, the stack and the
    /// input are empty, and the cursor stands on address 0.
    pub fn new(rom: Vec<u8>) -> (r: Result<Machine, Error>)
        ensures
            match r {
                Ok(m) => rom@.len() <= MAX_BYTES && rom@.len() % 2 == 0 && m@ == (MachineView {
                    memory: image_of(rom@),
                    registers: Seq::new(8, |i: int| 0u16),
                    stack: Seq::empty(),
                    input: Seq::empty(),
                }),
                Err(e) => (rom@.len() > MAX_BYTES || rom@.len() % 2 != 0) && e
                    == Error::InvalidMemorySize(rom@.len() as usize),
            },
    {
        let memory = Memory::new(rom)?;
        Ok(
            Machine {
                memory: memory,
                registers: RegisterSet::new(),
                stack: Vec::new(),
                input_buffer: String::new(),
            },
        )
    }

    /// Reads a machine from a saved image, without the two bytes that tell
    /// its state.
    pub fn try_from(d: &[u8]) -> (r: Result<Machine, Error>)
        ensures
            machine_of(r) == loaded(d@),
    {
        reveal(loaded);
        let len = d.len();
        if len < 4 {
            return Err(Error::UnexpectedEof);
        }
        let ip = word_from(d, 0);
        let mem_bytes = word_from(d, 2) as usize;
        if ip as usize > MAX_BYTES / 2 {
            return Err(Error::InvalidAddr(ip as usize));
        }
        if len < 4 + mem_bytes {
            return Err(Error::UnexpectedEof);
        }
        let mut memory = Memory::new(
            vstd::slice::slice_to_vec(vstd::slice::slice_subrange(d, 4, 4 + mem_bytes)),
        )?;
        memory.seek_word(ip);
        let registers_at = 4 + mem_bytes + mem_bytes / 2;
        if len < registers_at + 18 {
            return Err(Error::UnexpectedEof);
        }
        let mut r = [0u16;8];
        let mut i: usize = 0;
        while i < 8
            invariant
                i <= 8,
                registers_at + 18 <= d@.len(),
                d@.len() == len,
                forall|k: int| 0 <= k < i ==> r@[k] == word_at(d@, registers_at + 2 * k),
            decreases 8 - i,
        {
            r[i] = word_from(d, registers_at + 2 * i);
            i = i + 1;
        }
        let registers = RegisterSet::load(r);
        assert(registers@ =~= words_in(d@.subrange(registers_at as int, registers_at + 16)));
        let stack_len = word_from(d, registers_at + 16) as usize / 2;
        if len < registers_at + 18 + 2 * stack_len {
            return Err(Error::UnexpectedEof);
        }
        let stack = words_from(d, registers_at + 18, stack_len);
        Ok(
            Machine {
                memory: memory,
                registers: registers,
                stack: stack,
                input_buffer: String::new(),
            },
        )
    }

    fn top_of_stack(&self) -> (top: Option<u16>)
        ensures
            top == self@.stack_top(),
    {
        let len = self.stack.len();
        if len > 0 {
            Some(self.stack[len - 1])
        } else {
            None
        }
    }

    /// Runs the instruction under the cursor.
    pub fn step(self) -> (r: Result<OpResult, Error>)
        ensures
            outcome_of(r) == self@.step(),
    {
        let mut m = self;
        let op_code = m.memory.fetch_op()?;
        let top = m.top_of_stack();
        match op_code.decode(&m.registers, top)? {
            DecodedOpCode::Halt => {
                return Ok(OpResult::Halted(HaltedMachine(m)));
            },
            DecodedOpCode::Out { c } => {
                return Ok(OpResult::Output(c, m));
            },
            DecodedOpCode::Noop => {},
            DecodedOpCode::Jmp { addr } => {
                m.memory.set_ip(addr);
            },
            DecodedOpCode::Jt { cond, addr } => {
                if cond != 0 {
                    m.memory.set_ip(addr);
                }
            },
            DecodedOpCode::Jf { cond, addr } => {
                if cond == 0 {
                    m.memory.set_ip(addr);
                }
            },
            DecodedOpCode::SetReg { reg, val } => {
                m.registers.write_u16(reg, val);
            },
            DecodedOpCode::Add { reg, val1, val2 } => {
                m.registers.write_u16(reg, ((val1 as u32 + val2 as u32) % 32768) as u16);
            },
            DecodedOpCode::Mult { reg, val1, val2 } => {
                assert(val1 * val2 <= 0xffff * 0xffff) by (nonlinear_arith)
                    requires
                        val1 <= 0xffff,
                        val2 <= 0xffff,
                ;
                m.registers.write_u16(reg, (((val1 as u64) * (val2 as u64)) % 32768) as u16);
            },
            DecodedOpCode::Mod { reg, val1, val2 } => {
                if val2 == 0 {
                    return Err(Error::InvalidValue(0));
                }
                m.registers.write_u16(reg, (val1 % val2) % 32768);
            },
            DecodedOpCode::Eq { reg, val1, val2 } => {
                m.registers.write_u16(
                    reg,
                    if val1 == val2 {
                        1
                    } else {
                        0
                    },
                );
            },
            DecodedOpCode::Push { val } => {
                m.stack.push(val);
            },
            DecodedOpCode::Pop { reg } => {
                if let Some(v) = m.stack.pop() {
                    m.registers.write_u16(reg, v);
                } else {
                    return Err(Error::EmptyStack);
                }
            },
            DecodedOpCode::Gt { reg, val1, val2 } => {
                m.registers.write_u16(
                    reg,
                    if val1 > val2 {
                        1
                    } else {
                        0
                    },
                );
            },
            DecodedOpCode::And { reg, val1, val2 } => {
                m.registers.write_u16(reg, val1 & val2);
            },
            DecodedOpCode::Or { reg, val1, val2 } => {
                m.registers.write_u16(reg, val1 | val2);
            },
            DecodedOpCode::Not { reg, val } => {
                m.registers.write_u16(reg, !val & 0x7fff);
            },
            DecodedOpCode::Call { addr } => {
                m.stack.push((m.memory.position() / 2) as u16);
                m.memory.set_ip(addr);
            },
            DecodedOpCode::Rmem { reg, addr } => {
                let word = m.memory.read(addr)?;
                m.registers.write_u16(reg, word);
            },
            DecodedOpCode::Wmem { addr, val } => {
                m.memory.write(addr, val);
            },
            DecodedOpCode::Ret { addr } => {
                if let Some(a) = addr {
                    m.stack.pop();
                    m.memory.set_ip(a);
                } else {
                    return Ok(OpResult::Halted(HaltedMachine(m)));
                }
            },
            DecodedOpCode::In { reg } => {
                if m.input_buffer.as_str().is_empty() {
                    return Ok(OpResult::Input(StalledMachine(m, reg)));
                } else {
                    m.write_reg_from_buffer(reg)?;
                }
            },
        }
        Ok(OpResult::Continue(m))
    }

    /// Takes the first character of the input into a register.
    fn write_reg_from_buffer(&mut self, reg: Register) -> (r: Result<(), Error>)
        requires
            old(self)@.input.len() > 0,
        ensures
            match r {
                Ok(_) => Ok::<MachineView, Error>(final(self)@) == old(self)@.fed(reg),
                Err(e) => Err::<MachineView, Error>(e) == old(self)@.fed(reg),
            },
    {
        let c = remove_first_char(&mut self.input_buffer);
        let v = Value::try_from((c as u32 % 65536) as u16)?;
        self.registers.write_val(reg, v);
        Ok(())
    }
}

impl Inspectable for Machine {
    open spec fn machine(&self) -> MachineView {
        self@
    }

    open spec fn halted(&self) -> bool {
        false
    }

    fn ip(&self) -> (r: Option<Addr>) {
        self.memory.ip()
    }

    fn registers(&self) -> (r: &RegisterSet) {
        &self.registers
    }

    fn memory(&self) -> (r: &Memory) {
        &self.memory
    }

    fn stack(&self) -> (r: &[u16]) {
        self.stack.as_slice()
    }

    fn as_bytes(&self) -> (r: Result<Vec<u8>, Error>) {
        let mem_bytes = self.memory.used_bytes();
        proof {
            use_type_invariant(&self.memory);
        }
        assert(self.machine() == self@);
        if mem_bytes > u16::MAX as usize {
            return Err(Error::InvalidMemorySize(mem_bytes));
        }
        let stack_len = self.stack.len();
        if stack_len > 32767 {
            return Err(Error::InvalidStackSize(stack_len));
        }
        let mut buf: Vec<u8> = Vec::new();
        append_word(&mut buf, (self.memory.position() / 2) as u16);
        append_word(&mut buf, mem_bytes as u16);
        buf.extend_from_slice(self.memory.used_image());
        let ghost before_padding = buf@;
        assert(before_padding =~= word_bytes(self@.ip_word()) + word_bytes(
            (2 * self@.memory.used_words) as u16,
        ) + self@.memory.used_image());
        assert(buf@.len() == 4 + mem_bytes);
        let padded = buf.len() + mem_bytes / 2;
        buf.resize(padded, 0);
        assert(buf@ =~= before_padding + Seq::new(self@.memory.used_words as nat, |i: int| 0u8));
        let registers = self.registers.to_array();
        append_words(&mut buf, registers.as_slice());
        append_word(&mut buf, (stack_len * 2) as u16);
        append_words(&mut buf, self.stack.as_slice());
        Ok(buf)
    }

    fn write_reg(&mut self, reg: Register, val: Value) {
        self.registers.write_val(reg, val);
    }

    fn peek_instr(&mut self) -> (r: Result<(OpCode, DecodedOpCode), Error>) {
        let op_code = self.memory.peek_op()?;
        let top = self.top_of_stack();
        let decoded = op_code.decode(&self.registers, top)?;
        Ok((op_code, decoded))
    }
}

impl StalledMachine {
    /// The register that waits for a character.
    pub closed spec fn register(self) -> Register {
        self.1
    }

    /// A machine that waits for input for `r`.
    pub fn new(m: Machine, r: Register) -> (s: StalledMachine)
        ensures
            s.machine() == m@,
            s.register() == r,
    {
        StalledMachine(m, r)
    }

    /// The number of the register that waits for a character.
    pub fn reg_u8(&self) -> (u: u8)
        ensures
            u == self.register().index(),
            u < 8,
    {
        self.1.as_u8()
    }

    /// Gives the machine its input, the first character of which goes into
    /// the waiting register. Input that was pending is replaced.
    pub fn set_input(self, input: String) -> (r: Result<Machine, Error>)
        requires
            input@.len() > 0,
        ensures
            machine_of(r) == (MachineView { input: input@, ..self.machine() }).fed(self.register()),
    {
        let mut s = self;
        s.0.input_buffer = input;
        s.0.write_reg_from_buffer(s.1)?;
        Ok(s.0)
    }
}

impl Inspectable for StalledMachine {
    closed spec fn machine(&self) -> MachineView {
        self.0@
    }

    open spec fn halted(&self) -> bool {
        false
    }

    fn ip(&self) -> (r: Option<Addr>) {
        self.0.memory.ip()
    }

    fn registers(&self) -> (r: &RegisterSet) {
        &self.0.registers
    }

    fn memory(&self) -> (r: &Memory) {
        &self.0.memory
    }

    fn stack(&self) -> (r: &[u16]) {
        self.0.stack.as_slice()
    }

    fn as_bytes(&self) -> (r: Result<Vec<u8>, Error>) {
        self.0.as_bytes()
    }

    fn write_reg(&mut self, reg: Register, val: Value)
        ensures
            final(self).register() == old(self).register(),
    {
        self.0.registers.write_val(reg, val);
    }

    fn peek_instr(&mut self) -> (r: Result<(OpCode, DecodedOpCode), Error>)
        ensures
            final(self).register() == old(self).register(),
    {
        self.0.peek_instr()
    }
}

impl HaltedMachine {
    /// A machine that has halted.
    pub fn new(m: Machine) -> (h: HaltedMachine)
        ensures
            h.machine() == m@,
    {
        HaltedMachine(m)
    }
}

impl Inspectable for HaltedMachine {
    closed spec fn machine(&self) -> MachineView {
        self.0@
    }

    open spec fn halted(&self) -> bool {
        true
    }

    fn ip(&self) -> (r: Option<Addr>) {
        None
    }

    fn registers(&self) -> (r: &RegisterSet) {
        &self.0.registers
    }

    fn memory(&self) -> (r: &Memory) {
        &self.0.memory
    }

    fn stack(&self) -> (r: &[u16]) {
        self.0.stack.as_slice()
    }

    fn as_bytes(&self) -> (r: Result<Vec<u8>, Error>) {
        self.0.as_bytes()
    }

    fn write_reg(&mut self, reg: Register, val: Value) {
        self.0.registers.write_val(reg, val);
    }

    fn peek_instr(&mut self) -> (r: Result<(OpCode, DecodedOpCode), Error>) {
        self.0.peek_instr()
    }
}

/// Whether an instruction computes a number: a sum, a product, a remainder,
/// a complement or a comparison.
pub open spec fn is_arithmetic(op: DecodedOpCode) -> bool {
    op is Add || op is Mult || op is Mod || op is Not || op is Eq || op is Gt
}

/// A register can hold any word, but what an arithmetic instruction writes
/// is below 32768.
pub proof fn lemma_arithmetic_results_fit(m: MachineView, op: DecodedOpCode)
    requires
        m.wf(),
        is_arithmetic(op),
        0 <= op.written_register()->0.index() < 8,
    ensures
        m.execute(op) matches Ok(Outcome::Continue(after)) ==> after.registers[op.written_register()->0.index()]
            < 32768,
        m.execute(op) is Err || m.execute(op) matches Ok(Outcome::Continue(_)),
{
    if let DecodedOpCode::Not { reg, val } = op {
        assert(!val & 0x7fff < 32768) by (bit_vector);
    }
}

/// A step produces one outcome, and the machine changes only as that outcome
/// allows. A step that prints, halts or stalls moves the cursor and nothing
/// else. A step that continues changes at most one word of memory, at most
/// one register, the stack by at most one word at its top, and takes at most
/// one character from the input.
pub proof fn lemma_step_frame(m: MachineView)
    requires
        m.wf(),
    ensures
        match m.step() {
            Ok(Outcome::Output(_, after)) | Ok(Outcome::Halted(after)) | Ok(
                Outcome::Input(after, _),
            ) => {
                &&& after.memory.bytes == m.memory.bytes
                &&& after.memory.used_words == m.memory.used_words
                &&& after.registers == m.registers
                &&& after.stack == m.stack
                &&& after.input == m.input
            },
            Ok(Outcome::Continue(after)) => {
                &&& after.memory.bytes == m.memory.bytes || exists|addr: Addr, val: u16|
                    after.memory == #[trigger] m.memory.fetch_op().1.with_word(addr, val)
                &&& after.registers == m.registers || exists|reg: Register, val: u16|
                    after.registers == #[trigger] m.registers.update(reg.index(), val)
                &&& after.stack == m.stack || after.stack.drop_last() == m.stack || after.stack
                    == m.stack.drop_last()
                &&& after.input == m.input || after.input == m.input.drop_first()
            },
            Err(_) => true,
        },
{
    let (fetched, memory) = m.memory.fetch_op();
    crate::memory::lemma_fetch_keeps_contents(m.memory);
    if let Ok(op) = fetched {
        if let Ok(decoded) = op.decoded(m.registers, m.stack_top()) {
            let fetched_m = MachineView { memory, ..m };
            if let Ok(Outcome::Continue(after)) = fetched_m.execute(decoded) {
                match decoded {
                    DecodedOpCode::Push { val } => {
                        assert(m.stack.push(val).drop_last() =~= m.stack);
                    },
                    DecodedOpCode::Call { addr } => {
                        assert(m.stack.push(fetched_m.ip_word()).drop_last() =~= m.stack);
                    },
                    DecodedOpCode::Wmem { addr, val } => {
                        assert(after.memory == memory.with_word(addr, val));
                    },
                    DecodedOpCode::SetReg { reg, val } => {
                        assert(after.registers == m.registers.update(reg.index(), val));
                    },
                    DecodedOpCode::Add { reg, val1, val2 } => {
                        assert(after.registers == m.registers.update(
                            reg.index(),
                            ((val1 + val2) % 32768) as u16,
                        ));
                    },
                    DecodedOpCode::Mult { reg, val1, val2 } => {
                        assert(after.registers == m.registers.update(
                            reg.index(),
                            ((val1 * val2) % 32768) as u16,
                        ));
                    },
                    DecodedOpCode::Mod { reg, val1, val2 } => {
                        assert(after.registers == m.registers.update(
                            reg.index(),
                            ((val1 % val2) % 32768) as u16,
                        ));
                    },
                    DecodedOpCode::Eq { reg, val1, val2 } => {
                        let v: u16 = if val1 == val2 {
                            1
                        } else {
                            0
                        };
                        assert(after.registers == m.registers.update(reg.index(), v));
                    },
                    DecodedOpCode::Gt { reg, val1, val2 } => {
                        let v: u16 = if val1 > val2 {
                            1
                        } else {
                            0
                        };
                        assert(after.registers == m.registers.update(reg.index(), v));
                    },
                    DecodedOpCode::And { reg, val1, val2 } => {
                        assert(after.registers == m.registers.update(reg.index(), val1 & val2));
                    },
                    DecodedOpCode::Or { reg, val1, val2 } => {
                        assert(after.registers == m.registers.update(reg.index(), val1 | val2));
                    },
                    DecodedOpCode::Not { reg, val } => {
                        assert(after.registers == m.registers.update(reg.index(), !val & 0x7fff));
                    },
                    DecodedOpCode::Pop { reg } => {
                        assert(after.registers == m.registers.update(reg.index(), m.stack.last()));
                    },
                    DecodedOpCode::Rmem { reg, addr } => {
                        assert(after.registers == m.registers.update(
                            reg.index(),
                            memory.word(addr),
                        ));
                    },
                    DecodedOpCode::In { reg } => {
                        let v = value_from_word(char_word(m.input[0]))->Ok_0;
                        assert(after.registers == m.registers.update(
                            reg.index(),
                            resolve(m.registers, v),
                        ));
                    },
                    _ => {},
                }
            }
        }
    }
}

/// A machine that was saved and loaded again is the machine that was saved,
/// but for its pending input, which an image does not hold. So a machine
/// without pending input behaves after the round trip as it would have
/// without it.
pub proof fn lemma_save_load_round_trip(m: MachineView)
    requires
        m.wf(),
        m.save() is Ok,
    ensures
        loaded(m.image()) == Ok::<MachineView, Error>(MachineView { input: Seq::empty(), ..m }),
{
    reveal(loaded);
    let d = m.image();
    let mem_bytes = 2 * m.memory.used_words;
    let header = word_bytes(m.ip_word()) + word_bytes(mem_bytes as u16);
    let used = m.memory.used_image();
    let padding = Seq::new(m.memory.used_words as nat, |i: int| 0u8);
    let registers = words_bytes(m.registers);
    let stack_size = word_bytes((2 * m.stack.len()) as u16);
    let stack = words_bytes(m.stack);
    crate::wire::lemma_words_bytes(m.registers);
    crate::wire::lemma_words_bytes(m.stack);
    crate::wire::lemma_words_round_trip(m.registers);
    crate::wire::lemma_words_round_trip(m.stack);
    crate::wire::lemma_word_of_bytes(m.ip_word());
    crate::wire::lemma_word_of_bytes(mem_bytes as u16);
    crate::wire::lemma_word_of_bytes((2 * m.stack.len()) as u16);
    let registers_at = 4 + mem_bytes + mem_bytes / 2;
    assert(d == header + used + padding + registers + stack_size + stack);
    assert(d.len() == registers_at + 18 + 2 * m.stack.len());
    assert(word_at(d, 0) == m.ip_word());
    assert(word_at(d, 2) == mem_bytes);
    assert(word_at(d, registers_at + 16) == 2 * m.stack.len());
    assert(d.subrange(4, 4 + mem_bytes) =~= used);
    assert(d.subrange(registers_at, registers_at + 16) =~= registers);
    assert(d.subrange(registers_at + 18, registers_at + 18 + 2 * m.stack.len()) =~= stack);
    assert(image_of(used).bytes =~= m.memory.bytes);
    assert(loaded(d)->Ok_0.memory == m.memory);
}

/// A step keeps the machine well formed, whatever it produces: memory stays
/// 64 KiB, the cursor stays on a word boundary, and there are eight
/// registers.
pub proof fn lemma_step_keeps_wf(m: MachineView)
    requires
        m.wf(),
    ensures
        match m.step() {
            Ok(Outcome::Input(after, _)) | Ok(Outcome::Output(_, after)) | Ok(
                Outcome::Continue(after),
            ) | Ok(Outcome::Halted(after)) => after.wf(),
            Err(_) => true,
        },
{
    broadcast use crate::memory::group_value_types;

    let (fetched, memory) = m.memory.fetch_op();
    crate::memory::lemma_fetch_advances(m.memory);
    if let Ok(op) = fetched {
        if let Ok(decoded) = op.decoded(m.registers, m.stack_top()) {
            match decoded {
                DecodedOpCode::Jmp { addr } => {
                    crate::memory::lemma_memory_stays_wf(memory, addr, 0);
                },
                DecodedOpCode::Jt { addr, .. } => {
                    crate::memory::lemma_memory_stays_wf(memory, addr, 0);
                },
                DecodedOpCode::Jf { addr, .. } => {
                    crate::memory::lemma_memory_stays_wf(memory, addr, 0);
                },
                DecodedOpCode::Call { addr } => {
                    crate::memory::lemma_memory_stays_wf(memory, addr, 0);
                },
                DecodedOpCode::Ret { addr: Some(addr) } => {
                    crate::memory::lemma_memory_stays_wf(memory, addr, 0);
                },
                DecodedOpCode::Wmem { addr, val } => {
                    crate::memory::lemma_memory_stays_wf(memory, addr, val);
                },
                _ => {},
            }
        }
    }
}

/// Input keeps the machine well formed.
pub proof fn lemma_fed_keeps_wf(m: MachineView, reg: Register)
    requires
        m.wf(),
        0 <= reg.index() < 8,
    ensures
        m.fed(reg) matches Ok(after) ==> after.wf(),
{
}

/// What is loaded from an image is a well-formed machine.
pub proof fn lemma_loaded_is_wf(d: Seq<u8>)
    ensures
        loaded(d) matches Ok(m) ==> m.wf(),
{
    reveal(loaded);
    if let Ok(m) = loaded(d) {
        let mem_bytes = word_at(d, 2) as int;
        crate::memory::lemma_image_is_wf(d.subrange(4, 4 + mem_bytes));
    }
}

/// A machine without pending input that was saved and loaded again takes
/// its next step as the machine that was saved would have.
pub proof fn lemma_round_trip_behaves_alike(m: MachineView)
    requires
        m.wf(),
        m.save() is Ok,
        m.input.len() == 0,
    ensures
        loaded(m.image()) == Ok::<MachineView, Error>(m),
        loaded(m.image())->Ok_0.step() == m.step(),
{
    lemma_save_load_round_trip(m);
    assert(m.input =~= Seq::<char>::empty());
}

/// Whether running a decoded instruction fails: `pop` on an empty stack, a
/// remainder by zero, and `in` of a character whose number is no operand.
pub open spec fn fails(m: MachineView, op: DecodedOpCode) -> bool {
    match op {
        DecodedOpCode::Pop { .. } => m.stack.len() == 0,
        DecodedOpCode::Mod { val2, .. } => val2 == 0,
        DecodedOpCode::In { .. } => m.input.len() > 0 && value_from_word(char_word(m.input[0]))
            is Err,
        _ => false,
    }
}

/// The kind of outcome follows the instruction. `out` gives an output, `in`
/// without input a stall, `halt` and `ret` on an empty stack a halt. Every
/// other instruction continues, unless it fails, and it fails in the three
/// cases of `fails` only.
pub proof fn lemma_outcome_follows_instruction(m: MachineView, op: DecodedOpCode)
    ensures
        m.execute(op) is Err <==> fails(m, op),
        m.execute(op) matches Ok(Outcome::Output(c, after)) <==> op is Out,
        m.execute(op) matches Ok(Outcome::Output(c, after)) ==> op == (DecodedOpCode::Out { c })
            && after == m,
        m.execute(op) matches Ok(Outcome::Input(after, reg)) <==> op is In && m.input.len() == 0,
        m.execute(op) matches Ok(Outcome::Input(after, reg)) ==> op == (DecodedOpCode::In { reg })
            && after == m,
        m.execute(op) matches Ok(Outcome::Halted(after)) <==> op is Halt || op
            == (DecodedOpCode::Ret { addr: None }),
        m.execute(op) matches Ok(Outcome::Halted(after)) ==> after == m,
        m.execute(op) matches Ok(Outcome::Continue(_)) <==> !fails(m, op) && !(op is Out) && !(op
            is In && m.input.len() == 0) && !(op is Halt) && op != (DecodedOpCode::Ret {
            addr: None,
        }),
{
}

/// `rmem` puts the word at its address into its register, whatever the word
/// is, and changes nothing else. `wmem` stores its value at its address and
/// changes no other word and no register; the used words grow to take in
/// the address.
pub proof fn lemma_memory_instructions(m: MachineView, reg: Register, addr: Addr, val: u16)
    requires
        m.wf(),
        0 <= reg.index() < 8,
        0 <= addr@ <= crate::memory::MAX_ADDR,
    ensures
        m.execute(DecodedOpCode::Rmem { reg, addr }) matches Ok(Outcome::Continue(after))
            && after.registers[reg.index()] == m.memory.word(addr) && (forall|i: int|
            0 <= i < 8 && i != reg.index() ==> after.registers[i] == m.registers[i])
            && after.memory == m.memory && after.stack == m.stack && after.input == m.input,
        m.execute(DecodedOpCode::Wmem { addr, val }) matches Ok(Outcome::Continue(after))
            && after.memory.word(addr) == val && (forall|other: Addr|
            0 <= other@ <= crate::memory::MAX_ADDR && other@ != addr@
                ==> #[trigger] after.memory.word(other) == m.memory.word(other))
            && after.memory.used_words == (if addr@ + 1 > m.memory.used_words {
            addr@ + 1
        } else {
            m.memory.used_words
        }) && after.memory.cursor == m.memory.cursor && after.registers == m.registers
            && after.stack == m.stack && after.input == m.input,
{
    crate::wire::lemma_store_word(m.memory.bytes, 2 * addr@, val);
}

/// A step fails where its fetch or its decoding fails, and after those only
/// in the three cases of `fails`.
pub proof fn lemma_step_fails_only(m: MachineView)
    ensures
        m.step() is Err <==> m.peek() is Err || fails(
            MachineView { memory: m.memory.fetch_op().1, ..m },
            m.peek()->Ok_0.1,
        ),
{
    let fetched = MachineView { memory: m.memory.fetch_op().1, ..m };
    if let Ok((op, decoded)) = m.peek() {
        lemma_outcome_follows_instruction(fetched, decoded);
    }
}

} // verus!
