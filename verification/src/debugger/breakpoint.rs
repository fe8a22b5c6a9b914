//! Breakpoints, and the reasons for which a run breaks.

use vstd::prelude::*;

use crate::errors::Error;
use crate::memory::{target_from_text, Addr, Target};
use crate::op_code::{DecodedOpCode, OpAccess, OpCode};
use crate::text::{line1, write_line1};

verus! {

/// A condition under which a run breaks before an instruction.
#[derive(Clone, Copy, Debug, PartialEq)]
pub enum Breakpoint {
    /// The instruction stands at this address.
    At(Addr),
    /// The instruction reads this target.
    Read(Target),
    /// The instruction writes this target.
    Write(Target),
    /// The instruction reads or writes this target.
    Access(Target),
}

/// Why a run breaks.
#[derive(Clone, Copy, Debug)]
pub enum Reason<'bp> {
    Halted,
    Stalled,
    Triggered(&'bp Breakpoint),
}

/// The `@` breakpoint that a location text asks for: one at an address,
/// never at a register.
pub open spec fn at_from_text(loc: Seq<char>) -> Result<Breakpoint, Error> {
    match target_from_text(loc) {
        Ok(Target::Mem(addr)) => Ok(Breakpoint::At(addr)),
        Ok(Target::Reg(_)) => Err(Error::AtNeedsAddress),
        Err(e) => Err(e),
    }
}

/// The breakpoint that `make` builds on the target a location text names.
pub open spec fn on_target(loc: Seq<char>, make: spec_fn(Target) -> Breakpoint) -> Result<
    Breakpoint,
    Error,
> {
    match target_from_text(loc) {
        Ok(t) => Ok(make(t)),
        Err(e) => Err(e),
    }
}

impl Breakpoint {
    /// Whether the breakpoint triggers on an instruction that stands at `ip`.
    /// Both forms of the instruction are asked: the fetched form knows which
    /// registers the operands name, the decoded form knows the addresses.
    pub open spec fn triggered_by(self, ip: Addr, op_code: OpCode, decoded_op: DecodedOpCode) -> bool {
        match self {
            Breakpoint::At(addr) => ip == addr,
            Breakpoint::Read(t) => op_code.reads_target(t) || decoded_op.reads_target(t),
            Breakpoint::Write(t) => op_code.writes_target(t) || decoded_op.writes_target(t),
            Breakpoint::Access(t) => op_code.reads_target(t) || op_code.writes_target(t)
                || decoded_op.reads_target(t) || decoded_op.writes_target(t),
        }
    }

    /// The breakpoint as it is listed.
    pub open spec fn text(self) -> Seq<char> {
        match self {
            Breakpoint::At(addr) => line1("@"@, addr.text()),
            Breakpoint::Read(t) => line1("read"@, t.text()),
            Breakpoint::Write(t) => line1("write"@, t.text()),
            Breakpoint::Access(t) => line1("access"@, t.text()),
        }
    }

    /// A breakpoint at a target, which must be an address.
    pub fn at_target(tgt: Target) -> (r: Result<Breakpoint, Error>)
        ensures
            r == match tgt {
                Target::Mem(addr) => Ok::<Breakpoint, Error>(Breakpoint::At(addr)),
                Target::Reg(_) => Err(Error::AtNeedsAddress),
            },
    {
        match tgt {
            Target::Mem(addr) => Ok(Breakpoint::At(addr)),
            Target::Reg(_) => Err(Error::AtNeedsAddress),
        }
    }

    /// A breakpoint at an address.
    pub fn at(loc: &str) -> (r: Result<Breakpoint, Error>)
        ensures
            r == at_from_text(loc@),
    {
        Breakpoint::at_target(Target::from_str(loc)?)
    }

    /// A breakpoint on reads of a target.
    pub fn read(loc: &str) -> (r: Result<Breakpoint, Error>)
        ensures
            r == on_target(loc@, |t: Target| Breakpoint::Read(t)),
    {
        match Target::from_str(loc) {
            Ok(t) => Ok(Breakpoint::Read(t)),
            Err(e) => Err(e),
        }
    }

    /// A breakpoint on writes of a target.
    pub fn write(loc: &str) -> (r: Result<Breakpoint, Error>)
        ensures
            r == on_target(loc@, |t: Target| Breakpoint::Write(t)),
    {
        match Target::from_str(loc) {
            Ok(t) => Ok(Breakpoint::Write(t)),
            Err(e) => Err(e),
        }
    }

    /// A breakpoint on reads and writes of a target.
    pub fn access(loc: &str) -> (r: Result<Breakpoint, Error>)
        ensures
            r == on_target(loc@, |t: Target| Breakpoint::Access(t)),
    {
        match Target::from_str(loc) {
            Ok(t) => Ok(Breakpoint::Access(t)),
            Err(e) => Err(e),
        }
    }

    /// Whether the breakpoint triggers on an instruction that stands at `ip`.
    pub fn is_triggered(&self, ip: &Addr, op_code: &OpCode, decoded_op: &DecodedOpCode) -> (r: bool)
        ensures
            r == self.triggered_by(*ip, *op_code, *decoded_op),
    {
        broadcast use crate::memory::group_value_types;

        match *self {
            Breakpoint::At(addr) => ip.as_u16() == addr.as_u16(),
            Breakpoint::Read(t) => op_code.reads(&t) || decoded_op.reads(&t),
            Breakpoint::Write(t) => op_code.writes(&t) || decoded_op.writes(&t),
            Breakpoint::Access(t) => op_code.accesses(&t) || decoded_op.accesses(&t),
        }
    }

    /// Shows the breakpoint as it is listed: `@ 0x0010`, `read r2`.
    pub fn to_string(&self) -> (s: String)
        ensures
            s@ == self.text(),
    {
        match *self {
            Breakpoint::At(addr) => write_line1("@", addr.to_string().as_str()),
            Breakpoint::Read(t) => write_line1("read", t.to_string().as_str()),
            Breakpoint::Write(t) => write_line1("write", t.to_string().as_str()),
            Breakpoint::Access(t) => write_line1("access", t.to_string().as_str()),
        }
    }
}

impl<'bp> Reason<'bp> {
    /// The reason as it is shown.
    pub open spec fn text(self) -> Seq<char> {
        match self {
            Reason::Stalled => "machine stalled"@,
            Reason::Halted => "machine halted"@,
            Reason::Triggered(bp) => line1("triggered"@, bp.text()),
        }
    }

    /// Shows the reason: `machine stalled`, `machine halted`, or `triggered`
    /// and the breakpoint.
    pub fn to_string(&self) -> (s: String)
        ensures
            s@ == self.text(),
    {
        match *self {
            Reason::Stalled => "machine stalled".to_owned(),
            Reason::Halted => "machine halted".to_owned(),
            Reason::Triggered(bp) => write_line1("triggered", bp.to_string().as_str()),
        }
    }
}

/// The position of the first breakpoint at or after `from` that triggers.
pub open spec fn first_triggered(
    breakpoints: Seq<Breakpoint>,
    from: int,
    ip: Addr,
    op_code: OpCode,
    decoded_op: DecodedOpCode,
) -> Option<int>
    decreases breakpoints.len() - from,
{
    if from < 0 || from >= breakpoints.len() {
        None
    } else if breakpoints[from].triggered_by(ip, op_code, decoded_op) {
        Some(from)
    } else {
        first_triggered(breakpoints, from + 1, ip, op_code, decoded_op)
    }
}

/// Breakpoints are asked in the order in which they were added, and the
/// first that triggers wins: it triggers, and none before it does. Where
/// none is found, none triggers.
pub proof fn lemma_first_match_wins(
    breakpoints: Seq<Breakpoint>,
    from: int,
    ip: Addr,
    op_code: OpCode,
    decoded_op: DecodedOpCode,
)
    requires
        0 <= from,
    ensures
        match first_triggered(breakpoints, from, ip, op_code, decoded_op) {
            Some(i) => from <= i < breakpoints.len() && breakpoints[i].triggered_by(
                ip,
                op_code,
                decoded_op,
            ) && forall|j: int| from <= j < i ==> !(#[trigger] breakpoints[j]).triggered_by(
                ip,
                op_code,
                decoded_op,
            ),
            None => forall|j: int|
                from <= j < breakpoints.len() ==> !(#[trigger] breakpoints[j]).triggered_by(
                    ip,
                    op_code,
                    decoded_op,
                ),
        },
    decreases breakpoints.len() - from,
{
    if from < breakpoints.len() && !breakpoints[from].triggered_by(ip, op_code, decoded_op) {
        lemma_first_match_wins(breakpoints, from + 1, ip, op_code, decoded_op);
    }
}

/// A breakpoint added later never takes the place of one that triggers
/// already: it is found only where no earlier one triggers.
pub proof fn lemma_later_breakpoint_yields(
    breakpoints: Seq<Breakpoint>,
    added: Breakpoint,
    from: int,
    ip: Addr,
    op_code: OpCode,
    decoded_op: DecodedOpCode,
)
    requires
        0 <= from <= breakpoints.len(),
    ensures
        first_triggered(breakpoints.push(added), from, ip, op_code, decoded_op) == match first_triggered(
            breakpoints,
            from,
            ip,
            op_code,
            decoded_op,
        ) {
            Some(i) => Some(i),
            None => if added.triggered_by(ip, op_code, decoded_op) {
                Some(breakpoints.len() as int)
            } else {
                None
            },
        },
    decreases breakpoints.len() - from,
{
    let longer = breakpoints.push(added);
    if from < breakpoints.len() {
        assert(longer[from] == breakpoints[from]);
        if !breakpoints[from].triggered_by(ip, op_code, decoded_op) {
            lemma_later_breakpoint_yields(breakpoints, added, from + 1, ip, op_code, decoded_op);
        }
    } else {
        assert(longer[from] == added);
        assert(first_triggered(longer, from + 1, ip, op_code, decoded_op) is None);
    }
}

} // verus!
