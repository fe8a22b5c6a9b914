use synacor_debugger::errors::Error;
use synacor_debugger::memory::{Addr, AddrRange, Register, RegisterSet, Target, Value};

fn r(n: u16) -> Register {
    Register::try_from(32768 + n).unwrap()
}

#[test]
fn addr_from_word_accepts_fifteen_bits() {
    assert_eq!(Addr::try_from(0).unwrap().as_u16(), 0);
    assert_eq!(Addr::try_from(32767).unwrap().as_u16(), 32767);
    assert_eq!(Addr::try_from(32767).unwrap().as_usize(), 32767);
    assert_eq!(Addr::try_from(32768), Err(Error::InvalidAddr(32768)));
    assert_eq!(Addr::try_from(65535), Err(Error::InvalidAddr(65535)));
}

#[test]
fn addr_from_text_reads_decimal_and_hex() {
    assert_eq!(Addr::from_str("16").unwrap().as_u16(), 16);
    assert_eq!(Addr::from_str("0x10").unwrap().as_u16(), 16);
    assert_eq!(Addr::from_str("0x7fff").unwrap().as_u16(), 32767);
    assert_eq!(Addr::from_str("0x7FFF").unwrap().as_u16(), 32767);
    assert_eq!(Addr::from_str("+5").unwrap().as_u16(), 5);
    assert_eq!(Addr::from_str("0").unwrap().as_u16(), 0);
}

#[test]
fn addr_from_text_reports_faults() {
    assert_eq!(Addr::from_str("0x8000"), Err(Error::InvalidAddr(32768)));
    assert_eq!(Addr::from_str("40000"), Err(Error::InvalidAddr(40000)));
    assert_eq!(Addr::from_str("65536"), Err(Error::ParseInt));
    assert_eq!(Addr::from_str(""), Err(Error::ParseInt));
    assert_eq!(Addr::from_str("0x"), Err(Error::ParseInt));
    assert_eq!(Addr::from_str("0X10"), Err(Error::ParseInt));
    assert_eq!(Addr::from_str("12a"), Err(Error::ParseInt));
    assert_eq!(Addr::from_str(" 12"), Err(Error::ParseInt));
    assert_eq!(Addr::from_str("-1"), Err(Error::ParseInt));
}

#[test]
fn addr_from_number_follows_the_parse() {
    assert_eq!(Addr::from_number(None), Err(Error::ParseInt));
    assert_eq!(Addr::from_number(Some(7)).unwrap().as_u16(), 7);
    assert_eq!(Addr::from_number(Some(32768)), Err(Error::InvalidAddr(32768)));
}

#[test]
fn addr_is_shown_as_four_hex_digits() {
    assert_eq!(Addr::try_from(0).unwrap().to_string(), "0x0000");
    assert_eq!(Addr::try_from(16).unwrap().to_string(), "0x0010");
    assert_eq!(Addr::try_from(32767).unwrap().to_string(), "0x7fff");
    assert_eq!(Addr::try_from(0x0abc).unwrap().to_string(), "0x0abc");
}

#[test]
fn register_from_word_takes_the_eight_reference_words() {
    for n in 0..8u16 {
        let reg = Register::try_from(32768 + n).unwrap();
        assert_eq!(reg.as_usize(), n as usize);
        assert_eq!(reg.as_u8(), n as u8);
    }
    assert_eq!(Register::try_from(32776), Err(Error::InvalidRegister(32776)));
    assert_eq!(Register::try_from(32767), Err(Error::InvalidRegister(32767)));
    assert_eq!(Register::try_from(0), Err(Error::InvalidRegister(0)));
    assert_eq!(Register::try_from(65535), Err(Error::InvalidRegister(65535)));
}

#[test]
fn register_from_index_takes_zero_to_seven() {
    for n in 0..8u8 {
        assert_eq!(Register::try_from_index(n).unwrap().as_u8(), n);
    }
    assert_eq!(Register::try_from_index(8), Err(Error::InvalidRegister(8)));
    assert_eq!(Register::try_from_index(255), Err(Error::InvalidRegister(255)));
}

#[test]
fn register_from_text_reads_a_decimal_number() {
    assert_eq!(Register::from_str("0").unwrap().as_usize(), 0);
    assert_eq!(Register::from_str("7").unwrap().as_usize(), 7);
    assert_eq!(Register::from_str("007").unwrap().as_usize(), 7);
    assert_eq!(Register::from_str("8"), Err(Error::InvalidRegister(8)));
    assert_eq!(Register::from_str("65539"), Err(Error::InvalidRegister(3)));
    assert_eq!(Register::from_str("x"), Err(Error::ParseInt));
    assert_eq!(Register::from_str(""), Err(Error::ParseInt));
    assert_eq!(Register::from_str("0x1"), Err(Error::ParseInt));
}

#[test]
fn register_from_name_takes_the_number_with_or_without_r() {
    assert_eq!(Register::from_name("r0").unwrap().as_usize(), 0);
    assert_eq!(Register::from_name("r7").unwrap().as_usize(), 7);
    assert_eq!(Register::from_name("7").unwrap().as_usize(), 7);
    assert_eq!(Register::from_name("r8"), Err(Error::InvalidRegister(8)));
    assert_eq!(Register::from_name("8"), Err(Error::InvalidRegister(8)));
    assert_eq!(Register::from_name("r"), Err(Error::ParseInt));
    assert_eq!(Register::from_name(""), Err(Error::ParseInt));
    assert_eq!(Register::from_name("rr1"), Err(Error::ParseInt));
    assert_eq!(Register::from_name("R1"), Err(Error::ParseInt));
    assert_eq!(Register::from_name("x1"), Err(Error::ParseInt));
}

#[test]
fn register_from_number_follows_the_parse() {
    assert_eq!(Register::from_number(None), Err(Error::ParseInt));
    assert_eq!(Register::from_number(Some(5)).unwrap().as_usize(), 5);
    assert_eq!(Register::from_number(Some(8)), Err(Error::InvalidRegister(8)));
    assert_eq!(Register::from_number(Some(65536 + 9)), Err(Error::InvalidRegister(9)));
}

#[test]
fn register_is_shown_by_its_name() {
    assert_eq!(r(0).to_string(), "r0");
    assert_eq!(r(7).to_string(), "r7");
}

#[test]
fn value_from_word_tells_literals_from_registers() {
    assert_eq!(Value::try_from(0), Ok(Value::Literal(0)));
    assert_eq!(Value::try_from(32767), Ok(Value::Literal(32767)));
    assert_eq!(Value::try_from(32768), Ok(Value::FromRegister(r(0))));
    assert_eq!(Value::try_from(32775), Ok(Value::FromRegister(r(7))));
    assert_eq!(Value::try_from(32776), Err(Error::InvalidValue(32776)));
    assert_eq!(Value::try_from(32777), Err(Error::InvalidValue(32777)));
    assert_eq!(Value::try_from(65535), Err(Error::InvalidValue(65535)));
}

#[test]
fn value_from_text_reads_three_notations() {
    assert_eq!(Value::from_str("12"), Ok(Value::Literal(12)));
    assert_eq!(Value::from_str("0x10"), Ok(Value::Literal(16)));
    assert_eq!(Value::from_str("b101"), Ok(Value::Literal(5)));
    assert_eq!(Value::from_str("0x8001"), Ok(Value::FromRegister(r(1))));
    assert_eq!(Value::from_str("32770"), Ok(Value::FromRegister(r(2))));
    assert_eq!(Value::from_str("b"), Err(Error::ParseInt));
    assert_eq!(Value::from_str("b102"), Err(Error::ParseInt));
    assert_eq!(Value::from_str("0xg"), Err(Error::ParseInt));
    assert_eq!(Value::from_str("32776"), Err(Error::InvalidValue(32776)));
    assert_eq!(Value::from_str("0x8008"), Err(Error::InvalidValue(32776)));
    assert_eq!(Value::from_str("32775"), Ok(Value::FromRegister(r(7))));
    assert_eq!(Value::from_str("0xffff"), Err(Error::InvalidValue(65535)));
    assert_eq!(Value::from_str("70000"), Err(Error::ParseInt));
}

#[test]
fn value_from_number_follows_the_parse() {
    assert_eq!(Value::from_number(None), Err(Error::ParseInt));
    assert_eq!(Value::from_number(Some(3)), Ok(Value::Literal(3)));
    assert_eq!(Value::from_number(Some(40000)), Err(Error::InvalidValue(40000)));
}

#[test]
fn value_is_shown_briefly_and_at_length() {
    assert_eq!(Value::Literal(5).to_string(), "<5>");
    assert_eq!(Value::Literal(32767).to_string(), "<32767>");
    assert_eq!(Value::FromRegister(r(3)).to_string(), "r3");
    assert_eq!(Value::Literal(5).to_debug_string(), "<5, 0x0005>");
    assert_eq!(Value::Literal(32767).to_debug_string(), "<32767, 0x7fff>");
    assert_eq!(Value::FromRegister(r(3)).to_debug_string(), "r3");
}

#[test]
fn target_from_text_names_a_register_or_an_address() {
    assert_eq!(Target::from_str("r3"), Ok(Target::Reg(r(3))));
    assert_eq!(Target::from_str("0x10"), Ok(Target::Mem(Addr::try_from(16).unwrap())));
    assert_eq!(Target::from_str("16"), Ok(Target::Mem(Addr::try_from(16).unwrap())));
    assert_eq!(Target::from_str("r9"), Err(Error::InvalidRegister(9)));
    assert_eq!(Target::from_str("rx"), Err(Error::ParseInt));
    assert_eq!(Target::from_str("r"), Err(Error::ParseInt));
    assert_eq!(Target::from_str("0x8000"), Err(Error::InvalidAddr(32768)));
    assert_eq!(Target::from_str(""), Err(Error::ParseInt));
}

#[test]
fn target_is_shown_as_what_it_names() {
    assert_eq!(Target::Reg(r(2)).to_string(), "r2");
    assert_eq!(Target::Mem(Addr::try_from(0x1234).unwrap()).to_string(), "0x1234");
}

#[test]
fn target_equals_a_value_only_as_the_same_register() {
    let t = Target::Reg(r(2));
    assert!(t.eq_value(&Value::FromRegister(r(2))));
    assert!(!t.eq_value(&Value::FromRegister(r(3))));
    assert!(!t.eq_value(&Value::Literal(2)));
    let m = Target::Mem(Addr::try_from(2).unwrap());
    assert!(!m.eq_value(&Value::Literal(2)));
    assert!(!m.eq_value(&Value::FromRegister(r(2))));
}

#[test]
fn target_equals_addresses_and_registers() {
    let t = Target::Reg(r(2));
    let m = Target::Mem(Addr::try_from(2).unwrap());
    assert!(t.eq_register(&r(2)));
    assert!(!t.eq_register(&r(1)));
    assert!(!m.eq_register(&r(2)));
    assert!(m.eq_addr(&Addr::try_from(2).unwrap()));
    assert!(!m.eq_addr(&Addr::try_from(3).unwrap()));
    assert!(!t.eq_addr(&Addr::try_from(2).unwrap()));
    assert!(t == Target::Reg(r(2)));
    assert!(t != m);
}

#[test]
fn range_from_text_reads_one_or_two_ends() {
    assert_eq!(AddrRange::from_str("7").unwrap().start(), 7);
    assert_eq!(AddrRange::from_str("3..5").unwrap().start(), 3);
    assert_eq!(AddrRange::from_str("0x10..0x20").unwrap().start(), 16);
    assert_eq!(AddrRange::from_str("..5").unwrap().start(), 0);
    assert_eq!(AddrRange::from_str("3..").unwrap().start(), 3);
    assert_eq!(AddrRange::from_str("..").unwrap().start(), 0);
}

#[test]
fn range_from_text_exchanges_ends_in_the_wrong_order() {
    assert_eq!(AddrRange::from_str("5..3").unwrap().start(), 3);
    assert_eq!(AddrRange::from_str("0x20..0x10").unwrap().start(), 16);
}

#[test]
fn range_from_text_reports_the_first_fault() {
    assert_eq!(AddrRange::from_str("x..40000").err(), Some(Error::ParseInt));
    assert_eq!(AddrRange::from_str("40000..x").err(), Some(Error::InvalidAddr(40000)));
    assert_eq!(AddrRange::from_str("1...5").err(), Some(Error::ParseInt));
    assert_eq!(AddrRange::from_str("").err(), Some(Error::ParseInt));
    assert_eq!(AddrRange::from_str("1.5").err(), Some(Error::ParseInt));
}

#[test]
fn range_new_orders_its_ends() {
    let three = Addr::try_from(3).unwrap();
    let five = Addr::try_from(5).unwrap();
    assert_eq!(AddrRange::new(Some(five), Some(three)).start(), 3);
    assert_eq!(AddrRange::new(Some(three), Some(five)).start(), 3);
    assert_eq!(AddrRange::new(None, Some(three)).start(), 0);
    assert_eq!(AddrRange::new(Some(five), None).start(), 5);
    assert_eq!(AddrRange::all().start(), 0);
}

#[test]
fn register_set_starts_at_zero() {
    assert_eq!(RegisterSet::new().to_array(), [0u16; 8]);
}

#[test]
fn register_set_reads_literals_and_registers() {
    let regs = RegisterSet::load([10, 11, 12, 13, 14, 15, 16, 17]);
    assert_eq!(regs.read(Value::Literal(99)), 99);
    assert_eq!(regs.read(Value::FromRegister(r(0))), 10);
    assert_eq!(regs.read(Value::FromRegister(r(7))), 17);
}

#[test]
fn register_set_writes_numbers_and_operands() {
    let mut regs = RegisterSet::load([10, 11, 12, 13, 14, 15, 16, 17]);
    regs.write_u16(r(1), 65535);
    assert_eq!(regs.to_array(), [10, 65535, 12, 13, 14, 15, 16, 17]);
    regs.write_val(r(2), Value::Literal(5));
    assert_eq!(regs.to_array(), [10, 65535, 5, 13, 14, 15, 16, 17]);
    regs.write_val(r(3), Value::FromRegister(r(7)));
    assert_eq!(regs.to_array(), [10, 65535, 5, 17, 14, 15, 16, 17]);
    regs.write_val(r(4), Value::FromRegister(r(4)));
    assert_eq!(regs.to_array(), [10, 65535, 5, 17, 14, 15, 16, 17]);
}

#[test]
fn register_set_is_walked_in_order() {
    let regs = RegisterSet::load([10, 11, 12, 13, 14, 15, 16, 17]);
    let mut it = regs.into_iter();
    let mut seen = Vec::new();
    while let Some(u) = it.next() {
        seen.push(u);
    }
    assert_eq!(seen, vec![10, 11, 12, 13, 14, 15, 16, 17]);
    assert_eq!(it.next(), None);
    assert_eq!(it.next(), None);
}
