use synacor_debugger::errors::Error;
use synacor_debugger::memory::{Addr, Register, RegisterSet, Target, Value};
use synacor_debugger::op_code::{DecodedOpCode, OpAccess, OpCode};

fn r(n: u16) -> Register {
    Register::try_from(32768 + n).unwrap()
}

fn a(n: u16) -> Addr {
    Addr::try_from(n).unwrap()
}

fn regs() -> RegisterSet {
    RegisterSet::load([100, 101, 102, 103, 104, 105, 40000, 0x1234])
}

fn lit(n: u16) -> Value {
    Value::Literal(n)
}

fn from(n: u16) -> Value {
    Value::FromRegister(r(n))
}

#[test]
fn decode_looks_operands_up() {
    let rs = regs();
    assert_eq!(OpCode::Halt.decode(&rs, None), Ok(DecodedOpCode::Halt));
    assert_eq!(OpCode::Noop.decode(&rs, Some(5)), Ok(DecodedOpCode::Noop));
    assert_eq!(
        OpCode::SetReg { reg: r(0), val: from(1) }.decode(&rs, None),
        Ok(DecodedOpCode::SetReg { reg: r(0), val: 101 })
    );
    assert_eq!(
        OpCode::SetReg { reg: r(0), val: lit(7) }.decode(&rs, None),
        Ok(DecodedOpCode::SetReg { reg: r(0), val: 7 })
    );
    assert_eq!(
        OpCode::Push { val: from(6) }.decode(&rs, None),
        Ok(DecodedOpCode::Push { val: 40000 })
    );
    assert_eq!(OpCode::Pop { reg: r(3) }.decode(&rs, None), Ok(DecodedOpCode::Pop { reg: r(3) }));
    assert_eq!(OpCode::In { reg: r(3) }.decode(&rs, None), Ok(DecodedOpCode::In { reg: r(3) }));
    assert_eq!(
        OpCode::Not { reg: r(3), val: from(0) }.decode(&rs, None),
        Ok(DecodedOpCode::Not { reg: r(3), val: 100 })
    );
}

#[test]
fn decode_looks_both_operands_up() {
    let rs = regs();
    let (v1, v2) = (from(2), lit(9));
    assert_eq!(
        OpCode::Eq { reg: r(0), val1: v1, val2: v2 }.decode(&rs, None),
        Ok(DecodedOpCode::Eq { reg: r(0), val1: 102, val2: 9 })
    );
    assert_eq!(
        OpCode::Gt { reg: r(0), val1: v1, val2: v2 }.decode(&rs, None),
        Ok(DecodedOpCode::Gt { reg: r(0), val1: 102, val2: 9 })
    );
    assert_eq!(
        OpCode::Add { reg: r(0), val1: v1, val2: v2 }.decode(&rs, None),
        Ok(DecodedOpCode::Add { reg: r(0), val1: 102, val2: 9 })
    );
    assert_eq!(
        OpCode::Mult { reg: r(0), val1: v1, val2: v2 }.decode(&rs, None),
        Ok(DecodedOpCode::Mult { reg: r(0), val1: 102, val2: 9 })
    );
    assert_eq!(
        OpCode::Mod { reg: r(0), val1: v1, val2: v2 }.decode(&rs, None),
        Ok(DecodedOpCode::Mod { reg: r(0), val1: 102, val2: 9 })
    );
    assert_eq!(
        OpCode::And { reg: r(0), val1: v1, val2: v2 }.decode(&rs, None),
        Ok(DecodedOpCode::And { reg: r(0), val1: 102, val2: 9 })
    );
    assert_eq!(
        OpCode::Or { reg: r(0), val1: v1, val2: v2 }.decode(&rs, None),
        Ok(DecodedOpCode::Or { reg: r(0), val1: 102, val2: 9 })
    );
}

#[test]
fn decode_checks_addresses() {
    let rs = regs();
    assert_eq!(
        OpCode::Jmp { addr: from(0) }.decode(&rs, None),
        Ok(DecodedOpCode::Jmp { addr: a(100) })
    );
    assert_eq!(
        OpCode::Jt { cond: from(1), addr: lit(5) }.decode(&rs, None),
        Ok(DecodedOpCode::Jt { cond: 101, addr: a(5) })
    );
    assert_eq!(
        OpCode::Jf { cond: lit(0), addr: from(7) }.decode(&rs, None),
        Ok(DecodedOpCode::Jf { cond: 0, addr: a(0x1234) })
    );
    assert_eq!(
        OpCode::Call { addr: lit(32767) }.decode(&rs, None),
        Ok(DecodedOpCode::Call { addr: a(32767) })
    );
    assert_eq!(
        OpCode::Rmem { reg: r(1), addr: from(2) }.decode(&rs, None),
        Ok(DecodedOpCode::Rmem { reg: r(1), addr: a(102) })
    );
    assert_eq!(
        OpCode::Wmem { addr: from(2), val: from(6) }.decode(&rs, None),
        Ok(DecodedOpCode::Wmem { addr: a(102), val: 40000 })
    );
}

#[test]
fn decode_rejects_addresses_outside_memory() {
    let rs = regs();
    let bad = Err(Error::InvalidAddr(40000));
    assert_eq!(OpCode::Jmp { addr: from(6) }.decode(&rs, None), bad);
    assert_eq!(OpCode::Jt { cond: lit(0), addr: from(6) }.decode(&rs, None), bad);
    assert_eq!(OpCode::Jf { cond: lit(1), addr: from(6) }.decode(&rs, None), bad);
    assert_eq!(OpCode::Call { addr: from(6) }.decode(&rs, None), bad);
    assert_eq!(OpCode::Rmem { reg: r(0), addr: from(6) }.decode(&rs, None), bad);
    assert_eq!(OpCode::Wmem { addr: from(6), val: lit(1) }.decode(&rs, None), bad);
    assert_eq!(OpCode::Ret.decode(&rs, Some(32768)), Err(Error::InvalidAddr(32768)));
}

#[test]
fn decode_shows_ret_its_target_without_popping() {
    let rs = regs();
    assert_eq!(OpCode::Ret.decode(&rs, Some(7)), Ok(DecodedOpCode::Ret { addr: Some(a(7)) }));
    assert_eq!(OpCode::Ret.decode(&rs, None), Ok(DecodedOpCode::Ret { addr: None }));
}

#[test]
fn decode_takes_the_low_byte_for_out() {
    let rs = regs();
    assert_eq!(OpCode::Out { c: lit(72) }.decode(&rs, None), Ok(DecodedOpCode::Out { c: 'H' }));
    assert_eq!(
        OpCode::Out { c: lit(256 + 105) }.decode(&rs, None),
        Ok(DecodedOpCode::Out { c: 'i' })
    );
    assert_eq!(OpCode::Out { c: from(7) }.decode(&rs, None), Ok(DecodedOpCode::Out { c: '4' }));
    assert_eq!(
        OpCode::Out { c: lit(233) }.decode(&rs, None),
        Ok(DecodedOpCode::Out { c: '\u{e9}' })
    );
}

#[test]
fn fetched_instruction_reads_its_register_operands() {
    let r2 = Target::Reg(r(2));
    let r3 = Target::Reg(r(3));
    let reads_r2: Vec<OpCode> = vec![
        OpCode::SetReg { reg: r(0), val: from(2) },
        OpCode::Push { val: from(2) },
        OpCode::Eq { reg: r(0), val1: from(2), val2: lit(1) },
        OpCode::Eq { reg: r(0), val1: lit(1), val2: from(2) },
        OpCode::Gt { reg: r(0), val1: from(2), val2: lit(1) },
        OpCode::Jmp { addr: from(2) },
        OpCode::Jt { cond: from(2), addr: lit(1) },
        OpCode::Jt { cond: lit(1), addr: from(2) },
        OpCode::Jf { cond: from(2), addr: lit(1) },
        OpCode::Jf { cond: lit(1), addr: from(2) },
        OpCode::Add { reg: r(0), val1: lit(1), val2: from(2) },
        OpCode::Mult { reg: r(0), val1: from(2), val2: lit(1) },
        OpCode::Mod { reg: r(0), val1: lit(1), val2: from(2) },
        OpCode::And { reg: r(0), val1: from(2), val2: lit(1) },
        OpCode::Or { reg: r(0), val1: lit(1), val2: from(2) },
        OpCode::Not { reg: r(0), val: from(2) },
        OpCode::Rmem { reg: r(0), addr: from(2) },
        OpCode::Wmem { addr: lit(1), val: from(2) },
        OpCode::Call { addr: from(2) },
        OpCode::Out { c: from(2) },
    ];
    for op in reads_r2 {
        assert!(op.reads(&r2), "{:?} reads r2", op);
        assert!(!op.reads(&r3), "{:?} does not read r3", op);
        assert!(op.accesses(&r2));
        assert!(!op.writes(&r2), "{:?} does not write r2", op);
    }
}

#[test]
fn fetched_instruction_reads_nothing_else() {
    let r2 = Target::Reg(r(2));
    let m2 = Target::Mem(a(2));
    let none: Vec<OpCode> = vec![
        OpCode::Halt,
        OpCode::Noop,
        OpCode::Ret,
        OpCode::Pop { reg: r(2) },
        OpCode::In { reg: r(2) },
        OpCode::SetReg { reg: r(2), val: lit(2) },
        OpCode::Wmem { addr: from(2), val: lit(2) },
        OpCode::Push { val: lit(2) },
    ];
    for op in none {
        assert!(!op.reads(&r2), "{:?} does not read r2", op);
        assert!(!op.reads(&m2), "{:?} does not read address 2", op);
    }
    // a literal address is never a target of the fetched form
    assert!(!OpCode::Rmem { reg: r(0), addr: lit(2) }.reads(&m2));
    assert!(!OpCode::Jmp { addr: lit(2) }.reads(&m2));
}

#[test]
fn fetched_instruction_writes_its_register() {
    let r2 = Target::Reg(r(2));
    let r3 = Target::Reg(r(3));
    let writes_r2: Vec<OpCode> = vec![
        OpCode::SetReg { reg: r(2), val: lit(1) },
        OpCode::Pop { reg: r(2) },
        OpCode::Eq { reg: r(2), val1: lit(1), val2: lit(1) },
        OpCode::Gt { reg: r(2), val1: lit(1), val2: lit(1) },
        OpCode::Add { reg: r(2), val1: lit(1), val2: lit(1) },
        OpCode::Mult { reg: r(2), val1: lit(1), val2: lit(1) },
        OpCode::Mod { reg: r(2), val1: lit(1), val2: lit(1) },
        OpCode::And { reg: r(2), val1: lit(1), val2: lit(1) },
        OpCode::Or { reg: r(2), val1: lit(1), val2: lit(1) },
        OpCode::Not { reg: r(2), val: lit(1) },
        OpCode::Rmem { reg: r(2), addr: lit(1) },
        OpCode::In { reg: r(2) },
        OpCode::Wmem { addr: from(2), val: lit(1) },
    ];
    for op in writes_r2 {
        assert!(op.writes(&r2), "{:?} writes r2", op);
        assert!(!op.writes(&r3), "{:?} does not write r3", op);
        assert!(op.accesses(&r2));
        assert!(!op.accesses(&r3));
    }
    let none: Vec<OpCode> = vec![
        OpCode::Halt,
        OpCode::Noop,
        OpCode::Ret,
        OpCode::Push { val: from(2) },
        OpCode::Jmp { addr: from(2) },
        OpCode::Jt { cond: from(2), addr: from(2) },
        OpCode::Jf { cond: from(2), addr: from(2) },
        OpCode::Call { addr: from(2) },
        OpCode::Out { c: from(2) },
        OpCode::Wmem { addr: lit(2), val: from(2) },
    ];
    for op in none {
        assert!(!op.writes(&r2), "{:?} does not write r2", op);
        assert!(!op.writes(&Target::Mem(a(2))));
    }
}

#[test]
fn decoded_instruction_reads_only_through_rmem() {
    let m5 = Target::Mem(a(5));
    let rm = DecodedOpCode::Rmem { reg: r(0), addr: a(5) };
    assert!(rm.reads(&m5));
    assert!(rm.accesses(&m5));
    assert!(!rm.reads(&Target::Mem(a(6))));
    assert!(!rm.reads(&Target::Reg(r(0))));
    assert!(!DecodedOpCode::Wmem { addr: a(5), val: 5 }.reads(&m5));
    assert!(!DecodedOpCode::Jmp { addr: a(5) }.reads(&m5));
    assert!(!DecodedOpCode::Call { addr: a(5) }.reads(&m5));
    assert!(!DecodedOpCode::Push { val: 5 }.reads(&m5));
    assert!(!DecodedOpCode::Ret { addr: Some(a(5)) }.reads(&m5));
}

#[test]
fn decoded_instruction_writes_registers_and_memory() {
    let r2 = Target::Reg(r(2));
    let m5 = Target::Mem(a(5));
    let wm = DecodedOpCode::Wmem { addr: a(5), val: 1 };
    assert!(wm.writes(&m5));
    assert!(wm.accesses(&m5));
    assert!(!wm.writes(&Target::Mem(a(1))));
    assert!(!wm.writes(&r2));
    let writes_r2: Vec<DecodedOpCode> = vec![
        DecodedOpCode::SetReg { reg: r(2), val: 1 },
        DecodedOpCode::Pop { reg: r(2) },
        DecodedOpCode::Eq { reg: r(2), val1: 1, val2: 1 },
        DecodedOpCode::Gt { reg: r(2), val1: 1, val2: 1 },
        DecodedOpCode::Add { reg: r(2), val1: 1, val2: 1 },
        DecodedOpCode::Mult { reg: r(2), val1: 1, val2: 1 },
        DecodedOpCode::Mod { reg: r(2), val1: 1, val2: 1 },
        DecodedOpCode::And { reg: r(2), val1: 1, val2: 1 },
        DecodedOpCode::Or { reg: r(2), val1: 1, val2: 1 },
        DecodedOpCode::Not { reg: r(2), val: 1 },
        DecodedOpCode::Rmem { reg: r(2), addr: a(5) },
        DecodedOpCode::In { reg: r(2) },
    ];
    for op in writes_r2 {
        assert!(op.writes(&r2), "{:?} writes r2", op);
        assert!(!op.writes(&Target::Reg(r(1))));
        assert!(!op.writes(&m5));
    }
    let none: Vec<DecodedOpCode> = vec![
        DecodedOpCode::Halt,
        DecodedOpCode::Noop,
        DecodedOpCode::Push { val: 2 },
        DecodedOpCode::Jmp { addr: a(5) },
        DecodedOpCode::Jt { cond: 2, addr: a(5) },
        DecodedOpCode::Jf { cond: 2, addr: a(5) },
        DecodedOpCode::Call { addr: a(5) },
        DecodedOpCode::Ret { addr: Some(a(5)) },
        DecodedOpCode::Ret { addr: None },
        DecodedOpCode::Out { c: 'x' },
    ];
    for op in none {
        assert!(!op.writes(&r2));
        assert!(!op.writes(&m5));
        assert!(!op.accesses(&m5));
    }
}

#[test]
fn fetched_instructions_are_shown_with_their_operands() {
    assert_eq!(OpCode::Halt.to_string(), "halt");
    assert_eq!(OpCode::SetReg { reg: r(0), val: lit(3) }.to_string(), "set r0 <3>");
    assert_eq!(OpCode::Push { val: from(1) }.to_string(), "push r1");
    assert_eq!(OpCode::Pop { reg: r(2) }.to_string(), "pop r2");
    assert_eq!(
        OpCode::Eq { reg: r(0), val1: from(1), val2: lit(5) }.to_string(),
        "eq r0 r1 <5>"
    );
    assert_eq!(
        OpCode::Gt { reg: r(0), val1: lit(4), val2: lit(5) }.to_string(),
        "gt r0 <4> <5>"
    );
    assert_eq!(OpCode::Jmp { addr: lit(100) }.to_string(), "jmp <100>");
    assert_eq!(OpCode::Jt { cond: from(0), addr: lit(9) }.to_string(), "jt r0 <9>");
    assert_eq!(OpCode::Jf { cond: from(0), addr: lit(9) }.to_string(), "jf r0 <9>");
    assert_eq!(
        OpCode::Add { reg: r(2), val1: from(0), val2: from(1) }.to_string(),
        "add r2 r0 r1"
    );
    assert_eq!(
        OpCode::Mult { reg: r(2), val1: from(0), val2: lit(1) }.to_string(),
        "mult r2 r0 <1>"
    );
    assert_eq!(
        OpCode::Mod { reg: r(2), val1: from(0), val2: lit(1) }.to_string(),
        "mod r2 r0 <1>"
    );
    assert_eq!(
        OpCode::And { reg: r(2), val1: from(0), val2: lit(1) }.to_string(),
        "and r2 r0 <1>"
    );
    assert_eq!(
        OpCode::Or { reg: r(2), val1: from(0), val2: lit(1) }.to_string(),
        "or r2 r0 <1>"
    );
    assert_eq!(OpCode::Not { reg: r(2), val: from(0) }.to_string(), "not r2 r0");
    assert_eq!(OpCode::Rmem { reg: r(2), addr: lit(7) }.to_string(), "rmem r2 <7>");
    assert_eq!(OpCode::Wmem { addr: from(2), val: lit(7) }.to_string(), "wmem r2 <7>");
    assert_eq!(OpCode::Call { addr: lit(5) }.to_string(), "call <5>");
    assert_eq!(OpCode::Ret.to_string(), "ret");
    assert_eq!(OpCode::Out { c: lit(72) }.to_string(), "out <72>");
    assert_eq!(OpCode::In { reg: r(7) }.to_string(), "in r7");
    assert_eq!(OpCode::Noop.to_string(), "noop");
}

#[test]
fn decoded_instructions_are_shown_with_their_numbers() {
    assert_eq!(DecodedOpCode::Halt.to_string(), "halt");
    assert_eq!(DecodedOpCode::SetReg { reg: r(0), val: 3 }.to_string(), "set r0 3");
    assert_eq!(DecodedOpCode::Push { val: 65535 }.to_string(), "push 65535");
    assert_eq!(DecodedOpCode::Pop { reg: r(2) }.to_string(), "pop r2");
    assert_eq!(DecodedOpCode::Eq { reg: r(0), val1: 1, val2: 5 }.to_string(), "eq r0 1 5");
    assert_eq!(DecodedOpCode::Gt { reg: r(0), val1: 4, val2: 5 }.to_string(), "gt r0 4 5");
    assert_eq!(DecodedOpCode::Jmp { addr: a(100) }.to_string(), "jmp 0x0064");
    assert_eq!(DecodedOpCode::Jt { cond: 0, addr: a(9) }.to_string(), "jt 0 0x0009");
    assert_eq!(DecodedOpCode::Jf { cond: 10, addr: a(9) }.to_string(), "jf 10 0x0009");
    assert_eq!(DecodedOpCode::Add { reg: r(2), val1: 3, val2: 4 }.to_string(), "add r2 3 4");
    assert_eq!(DecodedOpCode::Mult { reg: r(2), val1: 3, val2: 4 }.to_string(), "mult r2 3 4");
    assert_eq!(DecodedOpCode::Mod { reg: r(2), val1: 3, val2: 4 }.to_string(), "mod r2 3 4");
    assert_eq!(DecodedOpCode::And { reg: r(2), val1: 3, val2: 4 }.to_string(), "and r2 3 4");
    assert_eq!(DecodedOpCode::Or { reg: r(2), val1: 3, val2: 4 }.to_string(), "or r2 3 4");
    assert_eq!(DecodedOpCode::Not { reg: r(2), val: 0 }.to_string(), "not r2 0");
    assert_eq!(DecodedOpCode::Rmem { reg: r(2), addr: a(7) }.to_string(), "rmem r2 0x0007");
    assert_eq!(DecodedOpCode::Wmem { addr: a(0x7fff), val: 7 }.to_string(), "wmem 0x7fff 7");
    assert_eq!(DecodedOpCode::Call { addr: a(5) }.to_string(), "call 0x0005");
    assert_eq!(DecodedOpCode::Ret { addr: Some(a(5)) }.to_string(), "ret 0x0005");
    assert_eq!(DecodedOpCode::Ret { addr: None }.to_string(), "ret");
    assert_eq!(DecodedOpCode::Out { c: 'H' }.to_string(), "out H");
    assert_eq!(DecodedOpCode::Out { c: '\n' }.to_string(), "out \n");
    assert_eq!(DecodedOpCode::In { reg: r(7) }.to_string(), "in r7");
    assert_eq!(DecodedOpCode::Noop.to_string(), "noop");
}
