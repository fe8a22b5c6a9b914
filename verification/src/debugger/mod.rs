//! The debugger: a machine in one of its three states, a list of
//! breakpoints, and what a user may ask of both.

pub mod breakpoint;
pub mod listing;

use vstd::prelude::*;
use vstd::string::StrSliceExecFns;

use self::breakpoint::{at_from_text, first_triggered, on_target, Breakpoint, Reason};
use crate::errors::Error;
use crate::machine::{
    loaded, HaltedMachine, Inspectable, Machine, MachineView, OpResult, Outcome, StalledMachine,
};
use crate::memory::{
    image_of, register_digits, register_from_index, register_from_number, value_from_number,
    value_number, Addr, AddrRange, Memory, Register, RegisterSet, Target, Value, MAX_BYTES,
};
use crate::op_code::{DecodedOpCode, OpCode};
use crate::text::{
    decimal, decimal_string, parsed, trim, trimmed, try_usize_from, usize_from_text, wrapped,
    write_wrapped,
};

verus! {

/// The three states of a machine, as the contracts see them.
pub enum StateView {
    /// The machine waits for a character for the register.
    Stalled(MachineView, Register),
    Running(MachineView),
    Halted(MachineView),
}

/// What a step asks of whoever drives the machine.
#[derive(Clone, Copy, Debug, PartialEq, Eq)]
pub enum Effect {
    /// Nothing.
    Quiet,
    /// The machine printed this character.
    Output(char),
    /// The machine waits for input.
    AwaitsInput,
    /// The step was not made; the error says why.
    Refused(Error),
}

impl StateView {
    /// The machine inside.
    pub open spec fn machine(self) -> MachineView {
        match self {
            StateView::Stalled(m, _) => m,
            StateView::Running(m) => m,
            StateView::Halted(m) => m,
        }
    }

    /// This state around another machine.
    pub open spec fn with_machine(self, m: MachineView) -> StateView {
        match self {
            StateView::Stalled(_, reg) => StateView::Stalled(m, reg),
            StateView::Running(_) => StateView::Running(m),
            StateView::Halted(_) => StateView::Halted(m),
        }
    }

    /// The state after a step. A running machine runs one instruction: it
    /// goes on running, stalls on `in` without input, or halts. A stalled
    /// machine stays stalled and asks for input again. A halted machine
    /// stays halted and refuses.
    pub open spec fn step(self) -> Result<(StateView, Effect), Error> {
        match self {
            StateView::Running(m) => match m.step() {
                Ok(Outcome::Continue(after)) => Ok((StateView::Running(after), Effect::Quiet)),
                Ok(Outcome::Output(c, after)) => Ok((StateView::Running(after), Effect::Output(c))),
                Ok(Outcome::Input(after, reg)) => Ok(
                    (StateView::Stalled(after, reg), Effect::AwaitsInput),
                ),
                Ok(Outcome::Halted(after)) => Ok((StateView::Halted(after), Effect::Quiet)),
                Err(e) => Err(e),
            },
            StateView::Stalled(_, _) => Ok((self, Effect::AwaitsInput)),
            StateView::Halted(_) => Ok((self, Effect::Refused(Error::MachineHalted))),
        }
    }

    /// The state after input was given. A stalled machine takes the input,
    /// puts its first character into the waiting register and runs again.
    /// Empty input changes nothing, and neither does input to a machine that
    /// is not stalled.
    pub open spec fn provided(self, input: Seq<char>) -> Result<StateView, Error> {
        match self {
            StateView::Stalled(m, reg) => if input.len() > 0 {
                match (MachineView { input, ..m }).fed(reg) {
                    Ok(after) => Ok(StateView::Running(after)),
                    Err(e) => Err(e),
                }
            } else {
                Ok(self)
            },
            _ => Ok(self),
        }
    }

    /// The byte that tells the state in a saved image.
    pub open spec fn tag(self) -> u8 {
        match self {
            StateView::Stalled(_, _) => 0,
            StateView::Running(_) => 1,
            StateView::Halted(_) => 2,
        }
    }

    /// The byte that tells the waiting register in a saved image: 0 where
    /// none waits.
    pub open spec fn waiting(self) -> u8 {
        match self {
            StateView::Stalled(_, reg) => reg.index() as u8,
            _ => 0,
        }
    }

    /// The saved image of a state: the state's tag, the waiting register,
    /// and the image of the machine.
    pub open spec fn image(self) -> Seq<u8> {
        seq![self.tag(), self.waiting()] + self.machine().image()
    }

    /// What saving gives: the image, unless the machine has none.
    pub open spec fn save(self) -> Result<Seq<u8>, Error> {
        match self.machine().save() {
            Ok(_) => Ok(self.image()),
            Err(e) => Err(e),
        }
    }
}

/// The state that a saved image holds. A fault in the machine's image is
/// reported before one in the first two bytes.
pub open spec fn loaded_state(d: Seq<u8>) -> Result<StateView, Error> {
    if d.len() < 2 {
        Err(Error::UnexpectedEof)
    } else {
        match loaded(d.subrange(2, d.len() as int)) {
            Ok(m) => if d[0] == 0 {
                match register_from_index(d[1]) {
                    Ok(reg) => Ok(StateView::Stalled(m, reg)),
                    Err(e) => Err(e),
                }
            } else if d[0] == 1 {
                Ok(StateView::Running(m))
            } else if d[0] == 2 {
                Ok(StateView::Halted(m))
            } else {
                Err(Error::UnknownVmState(d[0]))
            },
            Err(e) => Err(e),
        }
    }
}

/// A state that was saved and loaded again is the state that was saved, but
/// for the machine's pending input.
pub proof fn lemma_state_round_trip(s: StateView)
    requires
        s.machine().wf(),
        s.save() is Ok,
        s matches StateView::Stalled(_, reg) ==> 0 <= reg.index() < 8,
    ensures
        loaded_state(s.image()) == Ok::<StateView, Error>(
            s.with_machine(MachineView { input: Seq::empty(), ..s.machine() }),
        ),
{
    crate::machine::lemma_save_load_round_trip(s.machine());
    lemma_loaded_state(s.tag(), s.waiting(), s.machine().image());
    if let StateView::Stalled(_, reg) = s {
        crate::memory::lemma_register_index(reg);
    }
}

/// What loading makes of two bytes in front of a machine's image.
proof fn lemma_loaded_state(tag: u8, waiting: u8, body: Seq<u8>)
    ensures
        loaded_state(seq![tag, waiting] + body) == match loaded(body) {
            Ok(m) => if tag == 0 {
                match register_from_index(waiting) {
                    Ok(reg) => Ok(StateView::Stalled(m, reg)),
                    Err(e) => Err(e),
                }
            } else if tag == 1 {
                Ok(StateView::Running(m))
            } else if tag == 2 {
                Ok(StateView::Halted(m))
            } else {
                Err(Error::UnknownVmState(tag))
            },
            Err(e) => Err(e),
        },
{
    let d = seq![tag, waiting] + body;
    assert(d.subrange(2, d.len() as int) =~= body);
}

/// A machine in one of its three states.
pub enum VmState {
    Stalled(StalledMachine),
    Running(Machine),
    Halted(HaltedMachine),
}

impl View for VmState {
    type V = StateView;

    open spec fn view(&self) -> StateView {
        match *self {
            VmState::Stalled(s) => StateView::Stalled(s.machine(), s.register()),
            VmState::Running(m) => StateView::Running(m@),
            VmState::Halted(h) => StateView::Halted(h.machine()),
        }
    }
}

/// The state and the effect of a step that succeeded, as the contracts see
/// them.
pub open spec fn stepped(r: Result<(VmState, Effect), Error>) -> Result<(StateView, Effect), Error> {
    match r {
        Ok((state, effect)) => Ok((state@, effect)),
        Err(e) => Err(e),
    }
}

/// The state of a result that is one, as the contracts see it.
pub open spec fn state_of(r: Result<VmState, Error>) -> Result<StateView, Error> {
    match r {
        Ok(state) => Ok(state@),
        Err(e) => Err(e),
    }
}

impl VmState {
    /// Makes one step.
    pub fn step(self) -> (r: Result<(VmState, Effect), Error>)
        ensures
            stepped(r) == self@.step(),
    {
        match self {
            VmState::Running(m) => {
                match m.step()? {
                    OpResult::Continue(m) => Ok((VmState::Running(m), Effect::Quiet)),
                    OpResult::Output(c, m) => Ok((VmState::Running(m), Effect::Output(c))),
                    OpResult::Input(stalled) => Ok((VmState::Stalled(stalled), Effect::AwaitsInput)),
                    OpResult::Halted(halted) => Ok((VmState::Halted(halted), Effect::Quiet)),
                }
            },
            VmState::Stalled(s) => Ok((VmState::Stalled(s), Effect::AwaitsInput)),
            VmState::Halted(h) => Ok((VmState::Halted(h), Effect::Refused(Error::MachineHalted))),
        }
    }

    /// Gives input to a stalled machine.
    pub fn provide_input(self, input: String) -> (r: Result<VmState, Error>)
        ensures
            state_of(r) == self@.provided(input@),
    {
        match self {
            VmState::Stalled(s) => {
                if input.as_str().is_empty() {
                    Ok(VmState::Stalled(s))
                } else {
                    Ok(VmState::Running(s.set_input(input)?))
                }
            },
            other => Ok(other),
        }
    }

    /// The state as a saved image holds it.
    pub fn save(&self) -> (r: Result<Vec<u8>, Error>)
        ensures
            crate::machine::saved_bytes(r) == self@.save(),
    {
        let (tag, reg): (u8, u8) = match self {
            VmState::Stalled(s) => (0, s.reg_u8()),
            VmState::Running(_) => (1, 0),
            VmState::Halted(_) => (2, 0),
        };
        let body = self.as_bytes()?;
        let mut bytes: Vec<u8> = Vec::new();
        bytes.push(tag);
        bytes.push(reg);
        bytes.extend_from_slice(body.as_slice());
        assert(bytes@ =~= self@.image());
        Ok(bytes)
    }

    /// Reads a state from a saved image.
    pub fn load(data: &[u8]) -> (r: Result<VmState, Error>)
        ensures
            state_of(r) == loaded_state(data@),
    {
        let len = data.len();
        if len < 2 {
            return Err(Error::UnexpectedEof);
        }
        let machine = Machine::try_from(vstd::slice::slice_subrange(data, 2, len))?;
        match data[0] {
            0 => Ok(VmState::Stalled(StalledMachine::new(machine, Register::try_from_index(data[1])?))),
            1 => Ok(VmState::Running(machine)),
            2 => Ok(VmState::Halted(HaltedMachine::new(machine))),
            v => Err(Error::UnknownVmState(v)),
        }
    }
}

impl Inspectable for VmState {
    open spec fn machine(&self) -> MachineView {
        self@.machine()
    }

    open spec fn halted(&self) -> bool {
        *self is Halted
    }

    fn ip(&self) -> (r: Option<Addr>) {
        match self {
            VmState::Running(m) => m.ip(),
            VmState::Stalled(s) => s.ip(),
            VmState::Halted(h) => h.ip(),
        }
    }

    fn registers(&self) -> (r: &RegisterSet) {
        match self {
            VmState::Running(m) => m.registers(),
            VmState::Stalled(s) => s.registers(),
            VmState::Halted(h) => h.registers(),
        }
    }

    fn memory(&self) -> (r: &Memory) {
        match self {
            VmState::Running(m) => m.memory(),
            VmState::Stalled(s) => s.memory(),
            VmState::Halted(h) => h.memory(),
        }
    }

    fn stack(&self) -> (r: &[u16]) {
        match self {
            VmState::Running(m) => m.stack(),
            VmState::Stalled(s) => s.stack(),
            VmState::Halted(h) => h.stack(),
        }
    }

    fn as_bytes(&self) -> (r: Result<Vec<u8>, Error>) {
        match self {
            VmState::Running(m) => m.as_bytes(),
            VmState::Stalled(s) => s.as_bytes(),
            VmState::Halted(h) => h.as_bytes(),
        }
    }

    fn write_reg(&mut self, reg: Register, val: Value)
        ensures
            final(self)@ == old(self)@.with_machine(old(self)@.machine().poked(reg, val)),
    {
        match self {
            VmState::Running(m) => m.write_reg(reg, val),
            VmState::Stalled(s) => s.write_reg(reg, val),
            VmState::Halted(h) => h.write_reg(reg, val),
        }
    }

    fn peek_instr(&mut self) -> (r: Result<(OpCode, DecodedOpCode), Error>)
        ensures
            final(self)@ == old(self)@,
    {
        match self {
            VmState::Running(m) => m.peek_instr(),
            VmState::Stalled(s) => s.peek_instr(),
            VmState::Halted(h) => h.peek_instr(),
        }
    }
}

/// Whether a text is the one character `c`.
pub fn is_char(s: &str, c: char) -> (b: bool)
    ensures
        b == (s@ == seq![c]),
{
    let b = s.unicode_len() == 1 && s.get_char(0) == c;
    assert(b == (s@ =~= seq![c]));
    b
}

/// The breakpoint that an operation and a location ask for: `r` for reads,
/// `w` for writes, `a` for both, `@` for an address.
pub open spec fn breakpoint_from_text(op: Seq<char>, loc: Seq<char>) -> Result<Breakpoint, Error> {
    if op == seq!['r'] {
        on_target(loc, |t: Target| Breakpoint::Read(t))
    } else if op == seq!['w'] {
        on_target(loc, |t: Target| Breakpoint::Write(t))
    } else if op == seq!['a'] {
        on_target(loc, |t: Target| Breakpoint::Access(t))
    } else if op == seq!['@'] {
        at_from_text(loc)
    } else {
        Err(Error::UnknownBreakpointOp)
    }
}

/// What a text asks to delete: everything for `*`, else the breakpoint with
/// the number that the text holds.
pub enum Deletion {
    All,
    One(usize),
}

/// What a number or a star, with white space around it, asks to delete.
pub open spec fn deletion_from_text(n: Seq<char>) -> Result<Deletion, Error> {
    if trimmed(n) == seq!['*'] {
        Ok(Deletion::All)
    } else {
        match usize_from_text(trimmed(n)) {
            Some(i) => Ok(Deletion::One(i)),
            None => Err(Error::ParseInt),
        }
    }
}

/// The breakpoints that a deletion leaves.
pub open spec fn after_deletion(breakpoints: Seq<Breakpoint>, deletion: Deletion) -> Result<
    Seq<Breakpoint>,
    Error,
> {
    match deletion {
        Deletion::All => Ok(Seq::empty()),
        Deletion::One(i) => if i >= breakpoints.len() {
            Err(Error::NoSuchBreakpoint(i))
        } else {
            Ok(breakpoints.remove(i as int))
        },
    }
}

/// One line of the list of breakpoints: the number, a colon and the
/// breakpoint.
pub open spec fn listing_line(i: int, bp: Breakpoint) -> Seq<char> {
    wrapped(decimal(i as nat), ": "@, bp.text())
}

/// Finds the first breakpoint, in the order of the list, that triggers on an
/// instruction.
pub fn find_triggered<'a>(
    breakpoints: &'a [Breakpoint],
    ip: &Addr,
    op_code: &OpCode,
    decoded_op: &DecodedOpCode,
) -> (r: Option<&'a Breakpoint>)
    ensures
        match first_triggered(breakpoints@, 0, *ip, *op_code, *decoded_op) {
            Some(i) => r == Some(&breakpoints@[i]),
            None => r is None,
        },
{
    let mut i: usize = 0;
    while i < breakpoints.len()
        invariant
            i <= breakpoints@.len(),
            first_triggered(breakpoints@, 0, *ip, *op_code, *decoded_op) == first_triggered(
                breakpoints@,
                i as int,
                *ip,
                *op_code,
                *decoded_op,
            ),
        decreases breakpoints@.len() - i,
    {
        if breakpoints[i].is_triggered(ip, op_code, decoded_op) {
            return Some(&breakpoints[i]);
        }
        i = i + 1;
    }
    None
}

/// A debugger as the contracts see it.
pub struct DebuggerView {
    pub state: StateView,
    /// The breakpoints, in the order in which they were added.
    pub breakpoints: Seq<Breakpoint>,
}

impl DebuggerView {
    /// Why a run breaks before the next instruction, if it does. A stalled
    /// or halted machine always breaks. A running one breaks on the first
    /// breakpoint, in the order of the list, that the instruction under the
    /// cursor triggers.
    pub open spec fn triggered<'a>(self) -> Result<Option<Reason<'a>>, Error> {
        match self.state {
            StateView::Running(m) => match m.peek() {
                Ok((op, decoded)) => match m.memory.ip() {
                    Some(ip) => match first_triggered(self.breakpoints, 0, ip, op, decoded) {
                        Some(i) => Ok(Some(Reason::Triggered(&self.breakpoints[i]))),
                        None => Ok(None),
                    },
                    None => Ok(None),
                },
                Err(e) => Err(e),
            },
            StateView::Stalled(_, _) => Ok(Some(Reason::Stalled)),
            StateView::Halted(_) => Ok(Some(Reason::Halted)),
        }
    }
}

/// A machine under a debugger.
pub struct Debugger {
    state: VmState,
    breakpoints: Vec<Breakpoint>,
}

impl View for Debugger {
    type V = DebuggerView;

    closed spec fn view(&self) -> DebuggerView {
        DebuggerView { state: self.state@, breakpoints: self.breakpoints@ }
    }
}

impl Debugger {
    /// A debugger around a machine made from a program image, with no
    /// breakpoints.
    pub fn new(rom: Vec<u8>) -> (r: Result<Debugger, Error>)
        ensures
            match r {
                Ok(d) => rom@.len() <= MAX_BYTES && rom@.len() % 2 == 0 && d@ == (DebuggerView {
                    state: StateView::Running(
                        MachineView {
                            memory: image_of(rom@),
                            registers: Seq::new(8, |i: int| 0u16),
                            stack: Seq::empty(),
                            input: Seq::empty(),
                        },
                    ),
                    breakpoints: Seq::empty(),
                }),
                Err(e) => (rom@.len() > MAX_BYTES || rom@.len() % 2 != 0) && e
                    == Error::InvalidMemorySize(rom@.len() as usize),
            },
    {
        let machine = Machine::new(rom)?;
        Ok(Debugger { state: VmState::Running(machine), breakpoints: Vec::new() })
    }

    /// The machine, in whatever state it is.
    pub fn state(&self) -> (s: &VmState)
        ensures
            s@ == self@.state,
    {
        &self.state
    }

    /// The breakpoints, in the order in which they were added.
    pub fn breakpoints(&self) -> (b: &[Breakpoint])
        ensures
            b@ == self@.breakpoints,
    {
        self.breakpoints.as_slice()
    }

    /// Makes one step. The breakpoints stay as they are.
    pub fn step_vm(self) -> (r: Result<(Debugger, Effect), Error>)
        ensures
            match r {
                Ok((d, effect)) => self@.state.step() == Ok::<(StateView, Effect), Error>(
                    (d@.state, effect),
                ) && d@.breakpoints == self@.breakpoints,
                Err(e) => self@.state.step() == Err::<(StateView, Effect), Error>(e),
            },
    {
        let Debugger { state, breakpoints } = self;
        let (state, effect) = state.step()?;
        Ok((Debugger { state, breakpoints }, effect))
    }

    /// Gives input to a stalled machine. The breakpoints stay as they are.
    pub fn provide_input(self, input: String) -> (r: Result<Debugger, Error>)
        ensures
            match r {
                Ok(d) => self@.state.provided(input@) == Ok::<StateView, Error>(d@.state)
                    && d@.breakpoints == self@.breakpoints,
                Err(e) => self@.state.provided(input@) == Err::<StateView, Error>(e),
            },
    {
        let Debugger { state, breakpoints } = self;
        let state = state.provide_input(input)?;
        Ok(Debugger { state, breakpoints })
    }

    /// Why a run breaks before the next instruction, if it does. Nothing of
    /// the debugger changes.
    pub fn triggered_breakpoint(&mut self) -> (r: Result<Option<Reason<'_>>, Error>)
        ensures
            r == old(self)@.triggered(),
            final(self)@ == old(self)@,
    {
        match &mut self.state {
            VmState::Running(m) => {
                let (op, decoded) = m.peek_instr()?;
                if let Some(ip) = m.ip() {
                    match find_triggered(self.breakpoints.as_slice(), &ip, &op, &decoded) {
                        Some(bp) => Ok(Some(Reason::Triggered(bp))),
                        None => Ok(None),
                    }
                } else {
                    Ok(None)
                }
            },
            VmState::Stalled(_) => Ok(Some(Reason::Stalled)),
            VmState::Halted(_) => Ok(Some(Reason::Halted)),
        }
    }

    /// Adds a breakpoint behind those that are there.
    pub fn add_breakpoint(&mut self, op: &str, loc: &str) -> (r: Result<(), Error>)
        ensures
            match breakpoint_from_text(op@, loc@) {
                Ok(bp) => r is Ok && final(self)@ == (DebuggerView {
                    breakpoints: old(self)@.breakpoints.push(bp),
                    ..old(self)@
                }),
                Err(e) => r == Err::<(), Error>(e) && final(self)@ == old(self)@,
            },
    {
        let bp = if is_char(op, 'r') {
            Breakpoint::read(loc)
        } else if is_char(op, 'w') {
            Breakpoint::write(loc)
        } else if is_char(op, 'a') {
            Breakpoint::access(loc)
        } else if is_char(op, '@') {
            Breakpoint::at(loc)
        } else {
            Err(Error::UnknownBreakpointOp)
        }?;
        self.breakpoints.push(bp);
        Ok(())
    }

    /// The list of breakpoints, one line for each: its number, a colon and
    /// the breakpoint.
    pub fn list_breakpoints(&self) -> (lines: Vec<String>)
        ensures
            lines@.len() == self@.breakpoints.len(),
            forall|i: int|
                0 <= i < lines@.len() ==> (#[trigger] lines@[i])@ == listing_line(
                    i,
                    self@.breakpoints[i],
                ),
    {
        let mut lines: Vec<String> = Vec::new();
        let mut i: usize = 0;
        while i < self.breakpoints.len()
            invariant
                i <= self.breakpoints@.len(),
                lines@.len() == i,
                forall|k: int|
                    0 <= k < i ==> (#[trigger] lines@[k])@ == listing_line(k, self.breakpoints@[k]),
            decreases self.breakpoints@.len() - i,
        {
            lines.push(
                write_wrapped(
                    decimal_string(i).as_str(),
                    ": ",
                    self.breakpoints[i].to_string().as_str(),
                ),
            );
            i = i + 1;
        }
        lines
    }

    /// Deletes one breakpoint or all of them.
    pub fn delete(&mut self, deletion: Deletion) -> (r: Result<(), Error>)
        ensures
            match after_deletion(old(self)@.breakpoints, deletion) {
                Ok(left) => r is Ok && final(self)@ == (DebuggerView {
                    breakpoints: left,
                    ..old(self)@
                }),
                Err(e) => r == Err::<(), Error>(e) && final(self)@ == old(self)@,
            },
    {
        match deletion {
            Deletion::All => {
                self.breakpoints.clear();
            },
            Deletion::One(n) => {
                if n >= self.breakpoints.len() {
                    return Err(Error::NoSuchBreakpoint(n));
                }
                self.breakpoints.remove(n);
            },
        }
        Ok(())
    }

    /// Deletes the breakpoint whose number the text holds, or all of them
    /// for `*`.
    pub fn delete_breakpoint(&mut self, n: &str) -> (r: Result<(), Error>)
        ensures
            match deletion_from_text(n@) {
                Ok(deletion) => match after_deletion(old(self)@.breakpoints, deletion) {
                    Ok(left) => r is Ok && final(self)@ == (DebuggerView {
                        breakpoints: left,
                        ..old(self)@
                    }),
                    Err(e) => r == Err::<(), Error>(e) && final(self)@ == old(self)@,
                },
                Err(e) => r == Err::<(), Error>(e) && final(self)@ == old(self)@,
            },
    {
        let n = trim(n);
        let deletion = if is_char(n, '*') {
            Deletion::All
        } else {
            match parsed(try_usize_from(n)) {
                Some(i) => Deletion::One(i),
                None => {
                    return Err(Error::ParseInt);
                },
            }
        };
        self.delete(deletion)
    }

    /// The bytes that a memory dump holds: those of the used words, or all
    /// of memory where none is in use.
    pub fn dump_mem(&self) -> (bytes: &[u8])
        ensures
            bytes@ == self@.state.machine().memory.range_bytes(AddrRange::between(None, None)),
    {
        self.state.memory().get_range(&AddrRange::all())
    }

    /// The state as a saved image holds it.
    pub fn save_vm(&self) -> (r: Result<Vec<u8>, Error>)
        ensures
            crate::machine::saved_bytes(r) == self@.state.save(),
    {
        self.state.save()
    }

    /// Takes the state from a saved image. On a faulty image the debugger
    /// keeps the state it has. The breakpoints stay as they are.
    pub fn load_vm(&mut self, data: &[u8]) -> (r: Result<(), Error>)
        ensures
            match loaded_state(data@) {
                Ok(state) => r is Ok && final(self)@ == (DebuggerView { state, ..old(self)@ }),
                Err(e) => r == Err::<(), Error>(e) && final(self)@ == old(self)@,
            },
    {
        self.state = VmState::load(data)?;
        Ok(())
    }

    /// Shows the instruction under the cursor: its address, its fetched form
    /// and its decoded form. A halted machine has none. Nothing of the
    /// debugger changes.
    pub fn curr_instr(&mut self) -> (r: Result<String, Error>)
        ensures
            match r {
                Ok(line) => Ok::<Seq<char>, Error>(line@) == listing::current_instruction(
                    old(self)@.state,
                ),
                Err(e) => Err::<Seq<char>, Error>(e) == listing::current_instruction(
                    old(self)@.state,
                ),
            },
            final(self)@ == old(self)@,
    {
        if let VmState::Halted(_) = self.state {
            return Ok("MACHINE HALTED".to_owned());
        }
        let (op_code, decoded_op) = self.state.peek_instr()?;
        match self.state.ip() {
            Some(ip) => Ok(
                listing::write_instruction_line(ip, &op_code, &decoded_op, self.state.registers()),
            ),
            None => Err(Error::UnexpectedEof),
        }
    }

    /// Puts a value into a register, both given as text. The register is
    /// named as `r3` or as `3`. A faulty register is reported before a faulty
    /// value.
    pub fn write_reg(&mut self, n: &str, v: &str) -> (r: Result<(), Error>)
        ensures
            match register_from_number(usize_from_text(register_digits(n@))) {
                Ok(reg) => match value_from_number(value_number(v@)) {
                    Ok(val) => r is Ok && final(self)@ == (DebuggerView {
                        state: old(self)@.state.with_machine(
                            old(self)@.state.machine().poked(reg, val),
                        ),
                        ..old(self)@
                    }),
                    Err(e) => r == Err::<(), Error>(e) && final(self)@ == old(self)@,
                },
                Err(e) => r == Err::<(), Error>(e) && final(self)@ == old(self)@,
            },
    {
        let reg = Register::from_name(n)?;
        let val = Value::from_str(v)?;
        self.state.write_reg(reg, val);
        Ok(())
    }
}

/// A step and input keep the machine of a state well formed.
pub proof fn lemma_state_stays_wf(s: StateView, input: Seq<char>)
    requires
        s.machine().wf(),
        s matches StateView::Stalled(_, reg) ==> 0 <= reg.index() < 8,
    ensures
        s.step() matches Ok((after, _)) ==> after.machine().wf(),
        s.provided(input) matches Ok(after) ==> after.machine().wf(),
{
    if let StateView::Running(m) = s {
        crate::machine::lemma_step_keeps_wf(m);
    }
    if let StateView::Stalled(m, reg) = s {
        crate::machine::lemma_fed_keeps_wf(MachineView { input, ..m }, reg);
    }
}

} // verus!
