//! Instructions as they stand in memory, and as they stand once their
//! operands have been looked up.

use vstd::prelude::*;

use crate::errors::Error;
use crate::memory::{addr_from_word, resolve, Addr, Register, RegisterSet, Target, Value};
use crate::text::{
    decimal, decimal_string, line1, line2, line3, push_char, write_line1, write_line2,
    write_line3,
};

verus! {

/// An instruction as fetched: each operand is still a literal or a register
/// reference.
#[derive(Clone, Copy, Debug, PartialEq, Eq)]
pub enum OpCode {
    Halt,
    /// The instruction `set`.
    SetReg { reg: Register, val: Value },
    Push { val: Value },
    Pop { reg: Register },
    Eq { reg: Register, val1: Value, val2: Value },
    Gt { reg: Register, val1: Value, val2: Value },
    Jmp { addr: Value },
    Jt { cond: Value, addr: Value },
    Jf { cond: Value, addr: Value },
    Add { reg: Register, val1: Value, val2: Value },
    Mult { reg: Register, val1: Value, val2: Value },
    Mod { reg: Register, val1: Value, val2: Value },
    And { reg: Register, val1: Value, val2: Value },
    Or { reg: Register, val1: Value, val2: Value },
    Not { reg: Register, val: Value },
    Rmem { reg: Register, addr: Value },
    Wmem { addr: Value, val: Value },
    Call { addr: Value },
    Ret,
    Out { c: Value },
    In { reg: Register },
    Noop,
}

/// An instruction whose operands have been looked up in the register file,
/// and whose addresses have been checked.
#[allow(inconsistent_fields)]
#[derive(Clone, Copy, Debug, PartialEq, Eq)]
pub enum DecodedOpCode {
    Halt,
    /// The instruction `set`.
    SetReg { reg: Register, val: u16 },
    Push { val: u16 },
    Pop { reg: Register },
    Eq { reg: Register, val1: u16, val2: u16 },
    Gt { reg: Register, val1: u16, val2: u16 },
    Jmp { addr: Addr },
    Jt { cond: u16, addr: Addr },
    Jf { cond: u16, addr: Addr },
    Add { reg: Register, val1: u16, val2: u16 },
    Mult { reg: Register, val1: u16, val2: u16 },
    Mod { reg: Register, val1: u16, val2: u16 },
    And { reg: Register, val1: u16, val2: u16 },
    Or { reg: Register, val1: u16, val2: u16 },
    Not { reg: Register, val: u16 },
    Rmem { reg: Register, addr: Addr },
    Wmem { addr: Addr, val: u16 },
    Call { addr: Addr },
    Ret { addr: Option<Addr> },
    Out { c: char },
    In { reg: Register },
    Noop,
}

/// What an instruction touches, asked before it runs.
pub trait OpAccess {
    /// Whether the instruction takes a number from the target.
    spec fn reads_target(&self, tgt: Target) -> bool;

    /// Whether the instruction puts a number into the target.
    spec fn writes_target(&self, tgt: Target) -> bool;

    /// Whether the instruction takes a number from the target.
    fn reads(&self, tgt: &Target) -> (r: bool)
        ensures
            r == self.reads_target(*tgt),
    ;

    /// Whether the instruction puts a number into the target.
    fn writes(&self, tgt: &Target) -> (r: bool)
        ensures
            r == self.writes_target(*tgt),
    ;

    /// Whether the instruction reads or writes the target.
    fn accesses(&self, tgt: &Target) -> (r: bool)
        ensures
            r == (self.reads_target(*tgt) || self.writes_target(*tgt)),
    {
        self.reads(tgt) || self.writes(tgt)
    }
}

/// The character that `out` prints for a number: the one whose code is the
/// number's low byte.
pub open spec fn out_char(u: u16) -> char {
    ((u % 256) as u8) as char
}

/// The instruction that `build` makes of a checked address.
pub open spec fn with_addr(u: u16, build: spec_fn(Addr) -> DecodedOpCode) -> Result<
    DecodedOpCode,
    Error,
> {
    match addr_from_word(u) {
        Ok(addr) => Ok(build(addr)),
        Err(e) => Err(e),
    }
}

impl OpCode {
    /// The instruction as it is shown: its name and its operands.
    pub open spec fn text(self) -> Seq<char> {
        match self {
            OpCode::Halt => "halt"@,
            OpCode::SetReg { reg, val } => line2("set"@, reg.text(), val.text()),
            OpCode::Push { val } => line1("push"@, val.text()),
            OpCode::Pop { reg } => line1("pop"@, reg.text()),
            OpCode::Eq { reg, val1, val2 } => line3("eq"@, reg.text(), val1.text(), val2.text()),
            OpCode::Gt { reg, val1, val2 } => line3("gt"@, reg.text(), val1.text(), val2.text()),
            OpCode::Jmp { addr } => line1("jmp"@, addr.text()),
            OpCode::Jt { cond, addr } => line2("jt"@, cond.text(), addr.text()),
            OpCode::Jf { cond, addr } => line2("jf"@, cond.text(), addr.text()),
            OpCode::Add { reg, val1, val2 } => line3("add"@, reg.text(), val1.text(), val2.text()),
            OpCode::Mult { reg, val1, val2 } => line3(
                "mult"@,
                reg.text(),
                val1.text(),
                val2.text(),
            ),
            OpCode::Mod { reg, val1, val2 } => line3("mod"@, reg.text(), val1.text(), val2.text()),
            OpCode::And { reg, val1, val2 } => line3("and"@, reg.text(), val1.text(), val2.text()),
            OpCode::Or { reg, val1, val2 } => line3("or"@, reg.text(), val1.text(), val2.text()),
            OpCode::Not { reg, val } => line2("not"@, reg.text(), val.text()),
            OpCode::Rmem { reg, addr } => line2("rmem"@, reg.text(), addr.text()),
            OpCode::Wmem { addr, val } => line2("wmem"@, addr.text(), val.text()),
            OpCode::Call { addr } => line1("call"@, addr.text()),
            OpCode::Ret => "ret"@,
            OpCode::Out { c } => line1("out"@, c.text()),
            OpCode::In { reg } => line1("in"@, reg.text()),
            OpCode::Noop => "noop"@,
        }
    }

    /// Shows the instruction: its name and its operands, with spaces between
    /// them.
    pub fn to_string(&self) -> (s: String)
        ensures
            s@ == self.text(),
    {
        match *self {
            OpCode::Halt => "halt".to_owned(),
            OpCode::SetReg { reg, val } => write_line2(
                "set",
                reg.to_string().as_str(),
                val.to_string().as_str(),
            ),
            OpCode::Push { val } => write_line1("push", val.to_string().as_str()),
            OpCode::Pop { reg } => write_line1("pop", reg.to_string().as_str()),
            OpCode::Eq { reg, val1, val2 } => write_line3(
                "eq",
                reg.to_string().as_str(),
                val1.to_string().as_str(),
                val2.to_string().as_str(),
            ),
            OpCode::Gt { reg, val1, val2 } => write_line3(
                "gt",
                reg.to_string().as_str(),
                val1.to_string().as_str(),
                val2.to_string().as_str(),
            ),
            OpCode::Jmp { addr } => write_line1("jmp", addr.to_string().as_str()),
            OpCode::Jt { cond, addr } => write_line2(
                "jt",
                cond.to_string().as_str(),
                addr.to_string().as_str(),
            ),
            OpCode::Jf { cond, addr } => write_line2(
                "jf",
                cond.to_string().as_str(),
                addr.to_string().as_str(),
            ),
            OpCode::Add { reg, val1, val2 } => write_line3(
                "add",
                reg.to_string().as_str(),
                val1.to_string().as_str(),
                val2.to_string().as_str(),
            ),
            OpCode::Mult { reg, val1, val2 } => write_line3(
                "mult",
                reg.to_string().as_str(),
                val1.to_string().as_str(),
                val2.to_string().as_str(),
            ),
            OpCode::Mod { reg, val1, val2 } => write_line3(
                "mod",
                reg.to_string().as_str(),
                val1.to_string().as_str(),
                val2.to_string().as_str(),
            ),
            OpCode::And { reg, val1, val2 } => write_line3(
                "and",
                reg.to_string().as_str(),
                val1.to_string().as_str(),
                val2.to_string().as_str(),
            ),
            OpCode::Or { reg, val1, val2 } => write_line3(
                "or",
                reg.to_string().as_str(),
                val1.to_string().as_str(),
                val2.to_string().as_str(),
            ),
            OpCode::Not { reg, val } => write_line2(
                "not",
                reg.to_string().as_str(),
                val.to_string().as_str(),
            ),
            OpCode::Rmem { reg, addr } => write_line2(
                "rmem",
                reg.to_string().as_str(),
                addr.to_string().as_str(),
            ),
            OpCode::Wmem { addr, val } => write_line2(
                "wmem",
                addr.to_string().as_str(),
                val.to_string().as_str(),
            ),
            OpCode::Call { addr } => write_line1("call", addr.to_string().as_str()),
            OpCode::Ret => "ret".to_owned(),
            OpCode::Out { c } => write_line1("out", c.to_string().as_str()),
            OpCode::In { reg } => write_line1("in", reg.to_string().as_str()),
            OpCode::Noop => "noop".to_owned(),
        }
    }

    /// The register that the instruction writes, if it writes one.
    pub open spec fn written_register(self) -> Option<Register> {
        match self {
            OpCode::SetReg { reg, .. } => Some(reg),
            OpCode::Pop { reg } => Some(reg),
            OpCode::Eq { reg, .. } => Some(reg),
            OpCode::Gt { reg, .. } => Some(reg),
            OpCode::Add { reg, .. } => Some(reg),
            OpCode::Mult { reg, .. } => Some(reg),
            OpCode::Mod { reg, .. } => Some(reg),
            OpCode::And { reg, .. } => Some(reg),
            OpCode::Or { reg, .. } => Some(reg),
            OpCode::Not { reg, .. } => Some(reg),
            OpCode::Rmem { reg, .. } => Some(reg),
            OpCode::In { reg } => Some(reg),
            _ => None,
        }
    }

    /// The operands whose numbers the instruction uses.
    pub open spec fn read_operands(self) -> Seq<Value> {
        match self {
            OpCode::SetReg { val, .. } => seq![val],
            OpCode::Push { val } => seq![val],
            OpCode::Eq { val1, val2, .. } => seq![val1, val2],
            OpCode::Gt { val1, val2, .. } => seq![val1, val2],
            OpCode::Jmp { addr } => seq![addr],
            OpCode::Jt { cond, addr } => seq![cond, addr],
            OpCode::Jf { cond, addr } => seq![cond, addr],
            OpCode::Add { val1, val2, .. } => seq![val1, val2],
            OpCode::Mult { val1, val2, .. } => seq![val1, val2],
            OpCode::Mod { val1, val2, .. } => seq![val1, val2],
            OpCode::And { val1, val2, .. } => seq![val1, val2],
            OpCode::Or { val1, val2, .. } => seq![val1, val2],
            OpCode::Not { val, .. } => seq![val],
            OpCode::Rmem { addr, .. } => seq![addr],
            OpCode::Wmem { val, .. } => seq![val],
            OpCode::Call { addr } => seq![addr],
            OpCode::Out { c } => seq![c],
            _ => Seq::empty(),
        }
    }

    /// What the instruction becomes once its operands are looked up in
    /// `registers`. Every address is checked against the size of memory.
    /// `ret` is the top of the stack, which `Ret` would return to.
    pub open spec fn decoded(self, registers: Seq<u16>, ret: Option<u16>) -> Result<
        DecodedOpCode,
        Error,
    > {
        match self {
            OpCode::Halt => Ok(DecodedOpCode::Halt),
            OpCode::SetReg { reg, val } => Ok(
                DecodedOpCode::SetReg { reg, val: resolve(registers, val) },
            ),
            OpCode::Push { val } => Ok(DecodedOpCode::Push { val: resolve(registers, val) }),
            OpCode::Pop { reg } => Ok(DecodedOpCode::Pop { reg }),
            OpCode::Eq { reg, val1, val2 } => Ok(
                DecodedOpCode::Eq {
                    reg,
                    val1: resolve(registers, val1),
                    val2: resolve(registers, val2),
                },
            ),
            OpCode::Gt { reg, val1, val2 } => Ok(
                DecodedOpCode::Gt {
                    reg,
                    val1: resolve(registers, val1),
                    val2: resolve(registers, val2),
                },
            ),
            OpCode::Jmp { addr } => with_addr(
                resolve(registers, addr),
                |addr: Addr| DecodedOpCode::Jmp { addr },
            ),
            OpCode::Jt { cond, addr } => with_addr(
                resolve(registers, addr),
                |addr: Addr| DecodedOpCode::Jt { cond: resolve(registers, cond), addr },
            ),
            OpCode::Jf { cond, addr } => with_addr(
                resolve(registers, addr),
                |addr: Addr| DecodedOpCode::Jf { cond: resolve(registers, cond), addr },
            ),
            OpCode::Add { reg, val1, val2 } => Ok(
                DecodedOpCode::Add {
                    reg,
                    val1: resolve(registers, val1),
                    val2: resolve(registers, val2),
                },
            ),
            OpCode::Mult { reg, val1, val2 } => Ok(
                DecodedOpCode::Mult {
                    reg,
                    val1: resolve(registers, val1),
                    val2: resolve(registers, val2),
                },
            ),
            OpCode::Mod { reg, val1, val2 } => Ok(
                DecodedOpCode::Mod {
                    reg,
                    val1: resolve(registers, val1),
                    val2: resolve(registers, val2),
                },
            ),
            OpCode::And { reg, val1, val2 } => Ok(
                DecodedOpCode::And {
                    reg,
                    val1: resolve(registers, val1),
                    val2: resolve(registers, val2),
                },
            ),
            OpCode::Or { reg, val1, val2 } => Ok(
                DecodedOpCode::Or {
                    reg,
                    val1: resolve(registers, val1),
                    val2: resolve(registers, val2),
                },
            ),
            OpCode::Not { reg, val } => Ok(DecodedOpCode::Not { reg, val: resolve(registers, val) }),
            OpCode::Rmem { reg, addr } => with_addr(
                resolve(registers, addr),
                |addr: Addr| DecodedOpCode::Rmem { reg, addr },
            ),
            OpCode::Wmem { addr, val } => with_addr(
                resolve(registers, addr),
                |addr: Addr| DecodedOpCode::Wmem { addr, val: resolve(registers, val) },
            ),
            OpCode::Call { addr } => with_addr(
                resolve(registers, addr),
                |addr: Addr| DecodedOpCode::Call { addr },
            ),
            OpCode::Ret => match ret {
                Some(top) => with_addr(top, |addr: Addr| DecodedOpCode::Ret { addr: Some(addr) }),
                None => Ok(DecodedOpCode::Ret { addr: None }),
            },
            OpCode::Out { c } => Ok(DecodedOpCode::Out { c: out_char(resolve(registers, c)) }),
            OpCode::In { reg } => Ok(DecodedOpCode::In { reg }),
            OpCode::Noop => Ok(DecodedOpCode::Noop),
        }
    }

    /// Looks the operands up in the register file and checks the addresses.
    /// `ret` is the top of the stack, if there is one; it is not taken off.
    pub fn decode(&self, registers: &RegisterSet, ret: Option<u16>) -> (r: Result<
        DecodedOpCode,
        Error,
    >)
        ensures
            r == self.decoded(registers@, ret),
    {
        Ok(
            match *self {
                OpCode::Halt => DecodedOpCode::Halt,
                OpCode::Out { c } => {
                    let c = (registers.read(c) % 256) as u8 as char;
                    DecodedOpCode::Out { c: c }
                },
                OpCode::Noop => DecodedOpCode::Noop,
                OpCode::Jmp { addr } => {
                    let addr = Addr::try_from(registers.read(addr))?;
                    DecodedOpCode::Jmp { addr: addr }
                },
                OpCode::Jt { cond, addr } => {
                    let cond = registers.read(cond);
                    let addr = Addr::try_from(registers.read(addr))?;
                    DecodedOpCode::Jt { cond: cond, addr: addr }
                },
                OpCode::Jf { cond, addr } => {
                    let cond = registers.read(cond);
                    let addr = Addr::try_from(registers.read(addr))?;
                    DecodedOpCode::Jf { cond: cond, addr: addr }
                },
                OpCode::SetReg { reg, val } => {
                    let val = registers.read(val);
                    DecodedOpCode::SetReg { reg: reg, val: val }
                },
                OpCode::Add { reg, val1, val2 } => {
                    let val1 = registers.read(val1);
                    let val2 = registers.read(val2);
                    DecodedOpCode::Add { reg: reg, val1: val1, val2: val2 }
                },
                OpCode::Mult { reg, val1, val2 } => {
                    let val1 = registers.read(val1);
                    let val2 = registers.read(val2);
                    DecodedOpCode::Mult { reg: reg, val1: val1, val2: val2 }
                },
                OpCode::Mod { reg, val1, val2 } => {
                    let val1 = registers.read(val1);
                    let val2 = registers.read(val2);
                    DecodedOpCode::Mod { reg: reg, val1: val1, val2: val2 }
                },
                OpCode::Eq { reg, val1, val2 } => {
                    let val1 = registers.read(val1);
                    let val2 = registers.read(val2);
                    DecodedOpCode::Eq { reg: reg, val1: val1, val2: val2 }
                },
                OpCode::Push { val } => {
                    let val = registers.read(val);
                    DecodedOpCode::Push { val: val }
                },
                OpCode::Pop { reg } => DecodedOpCode::Pop { reg: reg },
                OpCode::Gt { reg, val1, val2 } => {
                    let val1 = registers.read(val1);
                    let val2 = registers.read(val2);
                    DecodedOpCode::Gt { reg: reg, val1: val1, val2: val2 }
                },
                OpCode::And { reg, val1, val2 } => {
                    let val1 = registers.read(val1);
                    let val2 = registers.read(val2);
                    DecodedOpCode::And { reg: reg, val1: val1, val2: val2 }
                },
                OpCode::Or { reg, val1, val2 } => {
                    let val1 = registers.read(val1);
                    let val2 = registers.read(val2);
                    DecodedOpCode::Or { reg: reg, val1: val1, val2: val2 }
                },
                OpCode::Not { reg, val } => {
                    let val = registers.read(val);
                    DecodedOpCode::Not { reg: reg, val: val }
                },
                OpCode::Call { addr } => {
                    let addr = Addr::try_from(registers.read(addr))?;
                    DecodedOpCode::Call { addr: addr }
                },
                OpCode::Rmem { reg, addr } => {
                    let addr = Addr::try_from(registers.read(addr))?;
                    DecodedOpCode::Rmem { reg: reg, addr: addr }
                },
                OpCode::Wmem { addr, val } => {
                    let addr = Addr::try_from(registers.read(addr))?;
                    let val = registers.read(val);
                    DecodedOpCode::Wmem { addr: addr, val: val }
                },
                OpCode::Ret => {
                    let addr = match ret {
                        Some(top) => Some(Addr::try_from(top)?),
                        None => None,
                    };
                    DecodedOpCode::Ret { addr: addr }
                },
                OpCode::In { reg } => DecodedOpCode::In { reg: reg },
            },
        )
    }
}

impl OpAccess for OpCode {
    /// An instruction reads a target where one of the operands it uses is
    /// that target, which only a register can be.
    open spec fn reads_target(&self, tgt: Target) -> bool {
        exists|i: int|
            0 <= i < self.read_operands().len() && tgt.is_value(#[trigger] self.read_operands()[i])
    }

    /// An instruction writes a target where the target is the register it
    /// writes, or, for `wmem`, the register that holds the address.
    open spec fn writes_target(&self, tgt: Target) -> bool {
        match *self {
            OpCode::Wmem { addr, .. } => tgt.is_value(addr),
            _ => self.written_register() == Some(tgt->Reg_0) && tgt is Reg,
        }
    }

    fn reads(&self, tgt: &Target) -> (r: bool) {
        let r = match *self {
            OpCode::Halt => false,
            OpCode::SetReg { val, .. } => tgt.eq_value(&val),
            OpCode::Push { val } => tgt.eq_value(&val),
            OpCode::Pop { .. } => false,
            OpCode::Eq { val1, val2, .. } => tgt.eq_value(&val1) || tgt.eq_value(&val2),
            OpCode::Gt { val1, val2, .. } => tgt.eq_value(&val1) || tgt.eq_value(&val2),
            OpCode::Jmp { addr } => tgt.eq_value(&addr),
            OpCode::Jt { cond, addr } => tgt.eq_value(&cond) || tgt.eq_value(&addr),
            OpCode::Jf { cond, addr } => tgt.eq_value(&cond) || tgt.eq_value(&addr),
            OpCode::Add { val1, val2, .. } => tgt.eq_value(&val1) || tgt.eq_value(&val2),
            OpCode::Mult { val1, val2, .. } => tgt.eq_value(&val1) || tgt.eq_value(&val2),
            OpCode::Mod { val1, val2, .. } => tgt.eq_value(&val1) || tgt.eq_value(&val2),
            OpCode::And { val1, val2, .. } => tgt.eq_value(&val1) || tgt.eq_value(&val2),
            OpCode::Or { val1, val2, .. } => tgt.eq_value(&val1) || tgt.eq_value(&val2),
            OpCode::Not { val, .. } => tgt.eq_value(&val),
            OpCode::Rmem { addr, .. } => tgt.eq_value(&addr),
            OpCode::Wmem { val, .. } => tgt.eq_value(&val),
            OpCode::Call { addr } => tgt.eq_value(&addr),
            OpCode::Ret => false,
            OpCode::Out { c } => tgt.eq_value(&c),
            OpCode::In { .. } => false,
            OpCode::Noop => false,
        };
        proof {
            let ops = self.read_operands();
            if r {
                assert(exists|i: int| 0 <= i < ops.len() && tgt.is_value(#[trigger] ops[i])) by {
                    if ops.len() > 0 && tgt.is_value(ops[0]) {
                    } else {
                        assert(tgt.is_value(ops[1]));
                    }
                }
            }
        }
        r
    }

    fn writes(&self, tgt: &Target) -> (r: bool) {
        match *self {
            OpCode::Halt => false,
            OpCode::SetReg { reg, .. } => tgt.eq_register(&reg),
            OpCode::Push { .. } => false,
            OpCode::Pop { reg } => tgt.eq_register(&reg),
            OpCode::Eq { reg, .. } => tgt.eq_register(&reg),
            OpCode::Gt { reg, .. } => tgt.eq_register(&reg),
            OpCode::Jmp { .. } => false,
            OpCode::Jt { .. } => false,
            OpCode::Jf { .. } => false,
            OpCode::Add { reg, .. } => tgt.eq_register(&reg),
            OpCode::Mult { reg, .. } => tgt.eq_register(&reg),
            OpCode::Mod { reg, .. } => tgt.eq_register(&reg),
            OpCode::And { reg, .. } => tgt.eq_register(&reg),
            OpCode::Or { reg, .. } => tgt.eq_register(&reg),
            OpCode::Not { reg, .. } => tgt.eq_register(&reg),
            OpCode::Rmem { reg, .. } => tgt.eq_register(&reg),
            OpCode::Wmem { addr, .. } => tgt.eq_value(&addr),
            OpCode::Call { .. } => false,
            OpCode::Ret => false,
            OpCode::Out { .. } => false,
            OpCode::In { reg } => tgt.eq_register(&reg),
            OpCode::Noop => false,
        }
    }
}

impl DecodedOpCode {
    /// The instruction as it is shown: its name, its numbers in decimal and
    /// its addresses in hexadecimal. A `ret` shows where it returns to, if
    /// the stack holds anything, and an `out` shows its character.
    pub open spec fn text(self) -> Seq<char> {
        match self {
            DecodedOpCode::Halt => "halt"@,
            DecodedOpCode::SetReg { reg, val } => line2("set"@, reg.text(), decimal(val as nat)),
            DecodedOpCode::Push { val } => line1("push"@, decimal(val as nat)),
            DecodedOpCode::Pop { reg } => line1("pop"@, reg.text()),
            DecodedOpCode::Eq { reg, val1, val2 } => line3(
                "eq"@,
                reg.text(),
                decimal(val1 as nat),
                decimal(val2 as nat),
            ),
            DecodedOpCode::Gt { reg, val1, val2 } => line3(
                "gt"@,
                reg.text(),
                decimal(val1 as nat),
                decimal(val2 as nat),
            ),
            DecodedOpCode::Jmp { addr } => line1("jmp"@, addr.text()),
            DecodedOpCode::Jt { cond, addr } => line2("jt"@, decimal(cond as nat), addr.text()),
            DecodedOpCode::Jf { cond, addr } => line2("jf"@, decimal(cond as nat), addr.text()),
            DecodedOpCode::Add { reg, val1, val2 } => line3(
                "add"@,
                reg.text(),
                decimal(val1 as nat),
                decimal(val2 as nat),
            ),
            DecodedOpCode::Mult { reg, val1, val2 } => line3(
                "mult"@,
                reg.text(),
                decimal(val1 as nat),
                decimal(val2 as nat),
            ),
            DecodedOpCode::Mod { reg, val1, val2 } => line3(
                "mod"@,
                reg.text(),
                decimal(val1 as nat),
                decimal(val2 as nat),
            ),
            DecodedOpCode::And { reg, val1, val2 } => line3(
                "and"@,
                reg.text(),
                decimal(val1 as nat),
                decimal(val2 as nat),
            ),
            DecodedOpCode::Or { reg, val1, val2 } => line3(
                "or"@,
                reg.text(),
                decimal(val1 as nat),
                decimal(val2 as nat),
            ),
            DecodedOpCode::Not { reg, val } => line2("not"@, reg.text(), decimal(val as nat)),
            DecodedOpCode::Rmem { reg, addr } => line2("rmem"@, reg.text(), addr.text()),
            DecodedOpCode::Wmem { addr, val } => line2("wmem"@, addr.text(), decimal(val as nat)),
            DecodedOpCode::Call { addr } => line1("call"@, addr.text()),
            DecodedOpCode::Ret { addr: Some(addr) } => line1("ret"@, addr.text()),
            DecodedOpCode::Ret { addr: None } => "ret"@,
            DecodedOpCode::Out { c } => line1("out"@, seq![c]),
            DecodedOpCode::In { reg } => line1("in"@, reg.text()),
            DecodedOpCode::Noop => "noop"@,
        }
    }

    /// Shows the instruction: its name, its numbers in decimal and its
    /// addresses in hexadecimal.
    pub fn to_string(&self) -> (s: String)
        ensures
            s@ == self.text(),
    {
        match *self {
            DecodedOpCode::Halt => "halt".to_owned(),
            DecodedOpCode::SetReg { reg, val } => write_line2(
                "set",
                reg.to_string().as_str(),
                decimal_string(val as usize).as_str(),
            ),
            DecodedOpCode::Push { val } => write_line1("push", decimal_string(val as usize).as_str()),
            DecodedOpCode::Pop { reg } => write_line1("pop", reg.to_string().as_str()),
            DecodedOpCode::Eq { reg, val1, val2 } => write_line3(
                "eq",
                reg.to_string().as_str(),
                decimal_string(val1 as usize).as_str(),
                decimal_string(val2 as usize).as_str(),
            ),
            DecodedOpCode::Gt { reg, val1, val2 } => write_line3(
                "gt",
                reg.to_string().as_str(),
                decimal_string(val1 as usize).as_str(),
                decimal_string(val2 as usize).as_str(),
            ),
            DecodedOpCode::Jmp { addr } => write_line1("jmp", addr.to_string().as_str()),
            DecodedOpCode::Jt { cond, addr } => write_line2(
                "jt",
                decimal_string(cond as usize).as_str(),
                addr.to_string().as_str(),
            ),
            DecodedOpCode::Jf { cond, addr } => write_line2(
                "jf",
                decimal_string(cond as usize).as_str(),
                addr.to_string().as_str(),
            ),
            DecodedOpCode::Add { reg, val1, val2 } => write_line3(
                "add",
                reg.to_string().as_str(),
                decimal_string(val1 as usize).as_str(),
                decimal_string(val2 as usize).as_str(),
            ),
            DecodedOpCode::Mult { reg, val1, val2 } => write_line3(
                "mult",
                reg.to_string().as_str(),
                decimal_string(val1 as usize).as_str(),
                decimal_string(val2 as usize).as_str(),
            ),
            DecodedOpCode::Mod { reg, val1, val2 } => write_line3(
                "mod",
                reg.to_string().as_str(),
                decimal_string(val1 as usize).as_str(),
                decimal_string(val2 as usize).as_str(),
            ),
            DecodedOpCode::And { reg, val1, val2 } => write_line3(
                "and",
                reg.to_string().as_str(),
                decimal_string(val1 as usize).as_str(),
                decimal_string(val2 as usize).as_str(),
            ),
            DecodedOpCode::Or { reg, val1, val2 } => write_line3(
                "or",
                reg.to_string().as_str(),
                decimal_string(val1 as usize).as_str(),
                decimal_string(val2 as usize).as_str(),
            ),
            DecodedOpCode::Not { reg, val } => write_line2(
                "not",
                reg.to_string().as_str(),
                decimal_string(val as usize).as_str(),
            ),
            DecodedOpCode::Rmem { reg, addr } => write_line2(
                "rmem",
                reg.to_string().as_str(),
                addr.to_string().as_str(),
            ),
            DecodedOpCode::Wmem { addr, val } => write_line2(
                "wmem",
                addr.to_string().as_str(),
                decimal_string(val as usize).as_str(),
            ),
            DecodedOpCode::Call { addr } => write_line1("call", addr.to_string().as_str()),
            DecodedOpCode::Ret { addr: Some(addr) } => write_line1(
                "ret",
                addr.to_string().as_str(),
            ),
            DecodedOpCode::Ret { addr: None } => "ret".to_owned(),
            DecodedOpCode::Out { c } => {
                let mut s = "out".to_owned();
                push_char(&mut s, ' ');
                push_char(&mut s, c);
                assert(s@ =~= line1("out"@, seq![c]));
                s
            },
            DecodedOpCode::In { reg } => write_line1("in", reg.to_string().as_str()),
            DecodedOpCode::Noop => "noop".to_owned(),
        }
    }

    /// The register that the instruction writes, if it writes one.
    pub open spec fn written_register(self) -> Option<Register> {
        match self {
            DecodedOpCode::SetReg { reg, .. } => Some(reg),
            DecodedOpCode::Pop { reg } => Some(reg),
            DecodedOpCode::Eq { reg, .. } => Some(reg),
            DecodedOpCode::Gt { reg, .. } => Some(reg),
            DecodedOpCode::Add { reg, .. } => Some(reg),
            DecodedOpCode::Mult { reg, .. } => Some(reg),
            DecodedOpCode::Mod { reg, .. } => Some(reg),
            DecodedOpCode::And { reg, .. } => Some(reg),
            DecodedOpCode::Or { reg, .. } => Some(reg),
            DecodedOpCode::Not { reg, .. } => Some(reg),
            DecodedOpCode::Rmem { reg, .. } => Some(reg),
            DecodedOpCode::In { reg } => Some(reg),
            _ => None,
        }
    }
}

impl OpAccess for DecodedOpCode {
    /// Once the operands are looked up, the one read left is that of `rmem`
    /// from its address.
    open spec fn reads_target(&self, tgt: Target) -> bool {
        match *self {
            DecodedOpCode::Rmem { addr, .. } => tgt == Target::Mem(addr),
            _ => false,
        }
    }

    /// An instruction writes the register it names, and `wmem` the word at
    /// its address.
    open spec fn writes_target(&self, tgt: Target) -> bool {
        match *self {
            DecodedOpCode::Wmem { addr, .. } => tgt == Target::Mem(addr),
            _ => self.written_register() == Some(tgt->Reg_0) && tgt is Reg,
        }
    }

    fn reads(&self, tgt: &Target) -> (r: bool) {
        match *self {
            DecodedOpCode::Rmem { addr, .. } => tgt.eq_addr(&addr),
            _ => false,
        }
    }

    fn writes(&self, tgt: &Target) -> (r: bool) {
        match *self {
            DecodedOpCode::Halt => false,
            DecodedOpCode::SetReg { reg, .. } => tgt.eq_register(&reg),
            DecodedOpCode::Push { .. } => false,
            DecodedOpCode::Pop { reg } => tgt.eq_register(&reg),
            DecodedOpCode::Eq { reg, .. } => tgt.eq_register(&reg),
            DecodedOpCode::Gt { reg, .. } => tgt.eq_register(&reg),
            DecodedOpCode::Jmp { .. } => false,
            DecodedOpCode::Jt { .. } => false,
            DecodedOpCode::Jf { .. } => false,
            DecodedOpCode::Add { reg, .. } => tgt.eq_register(&reg),
            DecodedOpCode::Mult { reg, .. } => tgt.eq_register(&reg),
            DecodedOpCode::Mod { reg, .. } => tgt.eq_register(&reg),
            DecodedOpCode::And { reg, .. } => tgt.eq_register(&reg),
            DecodedOpCode::Or { reg, .. } => tgt.eq_register(&reg),
            DecodedOpCode::Not { reg, .. } => tgt.eq_register(&reg),
            DecodedOpCode::Rmem { reg, .. } => tgt.eq_register(&reg),
            DecodedOpCode::Wmem { addr, .. } => tgt.eq_addr(&addr),
            DecodedOpCode::Call { .. } => false,
            DecodedOpCode::Ret { .. } => false,
            DecodedOpCode::Out { .. } => false,
            DecodedOpCode::In { reg } => tgt.eq_register(&reg),
            DecodedOpCode::Noop => false,
        }
    }
}

} // verus!
