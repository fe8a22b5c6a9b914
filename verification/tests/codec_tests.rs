use synacor_debugger::debugger::{Debugger, Effect, VmState};
use synacor_debugger::errors::Error;
use synacor_debugger::machine::{HaltedMachine, Inspectable, Machine, OpResult, StalledMachine};
use synacor_debugger::memory::{Addr, Register, Value};
use synacor_debugger::wire::{append_word, append_words, word_from, words_from};

fn rom(words: &[u16]) -> Vec<u8> {
    let mut bytes = Vec::new();
    for w in words {
        bytes.push((w & 0xff) as u8);
        bytes.push((w >> 8) as u8);
    }
    bytes
}

fn r(n: u16) -> Register {
    Register::try_from(32768 + n).unwrap()
}

/// The body of an image: all but the two bytes that tell the state.
fn body(ip: u16, memory: &[u8], registers: [u16; 8], stack_bytes: u16, stack: &[u16]) -> Vec<u8> {
    let mut image = rom(&[ip, memory.len() as u16]);
    image.extend_from_slice(memory);
    image.extend(std::iter::repeat(0u8).take(memory.len() / 2));
    image.extend(rom(&registers));
    image.extend(rom(&[stack_bytes]));
    image.extend(rom(stack));
    image
}

#[test]
fn words_are_written_low_byte_first() {
    let mut buf = vec![9u8];
    append_word(&mut buf, 0x1234);
    assert_eq!(buf, vec![9, 0x34, 0x12]);
    append_words(&mut buf, &[1, 0xff00]);
    assert_eq!(buf, vec![9, 0x34, 0x12, 1, 0, 0, 0xff]);
    append_words(&mut buf, &[]);
    assert_eq!(buf.len(), 7);
}

#[test]
fn words_are_read_low_byte_first() {
    let bytes = [9u8, 0x34, 0x12, 1, 0, 0, 0xff];
    assert_eq!(word_from(&bytes, 1), 0x1234);
    assert_eq!(word_from(&bytes, 0), 0x3409);
    assert_eq!(words_from(&bytes, 1, 3), vec![0x1234, 1, 0xff00]);
    assert_eq!(words_from(&bytes, 3, 0), Vec::<u16>::new());
}

#[test]
fn image_of_a_small_machine_is_exact() {
    let m = Machine::new(rom(&[21, 0])).unwrap();
    let m = match m.step().unwrap() {
        OpResult::Continue(m) => m,
        _ => panic!("expected continue"),
    };
    let mut expected: Vec<u8> = vec![1, 0, 4, 0, 21, 0, 0, 0, 0, 0];
    expected.extend(std::iter::repeat(0u8).take(16));
    expected.extend([0u8, 0]);
    assert_eq!(m.as_bytes().unwrap(), expected);
    assert_eq!(expected.len(), 28);
}

#[test]
fn image_holds_registers_and_stack_behind_the_padding() {
    // push 0x0102; set r1 0x0304
    let m = Machine::new(rom(&[2, 0x0102, 1, 32769, 0x0304])).unwrap();
    let step = |m: Machine| match m.step().unwrap() {
        OpResult::Continue(m) => m,
        _ => panic!("expected continue"),
    };
    let m = step(step(m));
    let bytes = m.as_bytes().unwrap();
    let mut expected: Vec<u8> = vec![5, 0, 10, 0];
    expected.extend(rom(&[2, 0x0102, 1, 32769, 0x0304]));
    expected.extend([0u8; 5]);
    expected.extend(rom(&[0, 0x0304, 0, 0, 0, 0, 0, 0]));
    expected.extend([2u8, 0]);
    expected.extend([0x02u8, 0x01]);
    assert_eq!(bytes, expected);
    assert_eq!(bytes.len(), 4 + 10 + 5 + 16 + 2 + 2);
}

#[test]
fn state_image_begins_with_tag_and_register() {
    let machine = || Machine::new(rom(&[21])).unwrap();
    let body = machine().as_bytes().unwrap();
    let running = VmState::Running(machine()).save().unwrap();
    assert_eq!(&running[..2], &[1u8, 0][..]);
    assert_eq!(&running[2..], &body[..]);
    let halted = VmState::Halted(HaltedMachine::new(machine())).save().unwrap();
    assert_eq!(&halted[..2], &[2u8, 0][..]);
    assert_eq!(&halted[2..], &body[..]);
    let stalled = VmState::Stalled(StalledMachine::new(machine(), r(5))).save().unwrap();
    assert_eq!(&stalled[..2], &[0u8, 5][..]);
    assert_eq!(&stalled[2..], &body[..]);
}

#[test]
fn load_reads_what_the_layout_says() {
    let image = body(3, &[1, 2, 3, 4], [10, 11, 12, 13, 14, 15, 16, 65535], 4, &[7, 8]);
    let m = Machine::try_from(&image).unwrap();
    assert_eq!(m.ip().unwrap().as_u16(), 3);
    assert_eq!(m.memory().used_bytes(), 4);
    assert_eq!(m.memory().used_image(), &[1u8, 2, 3, 4][..]);
    assert_eq!(m.registers().to_array(), [10, 11, 12, 13, 14, 15, 16, 65535]);
    assert_eq!(m.stack(), &[7u16, 8][..]);
    assert_eq!(m.as_bytes().unwrap(), image);
}

#[test]
fn load_ignores_a_trailing_stack_byte_and_what_follows() {
    let mut image = body(0, &[], [0; 8], 3, &[7]);
    image.push(0xaa);
    image.push(0xbb);
    let m = Machine::try_from(&image).unwrap();
    assert_eq!(m.stack(), &[7u16][..]);
    assert_eq!(m.memory().used_bytes(), 0);
}

#[test]
fn load_accepts_a_cursor_behind_the_last_word() {
    let image = body(32768, &[21, 0], [0; 8], 0, &[]);
    let m = Machine::try_from(&image).unwrap();
    assert_eq!(m.ip(), None);
    assert_eq!(m.memory().position(), 65536);
    assert_eq!(m.as_bytes().unwrap(), image);
    assert_eq!(m.step().err(), Some(Error::UnexpectedEof));
}

#[test]
fn load_reports_faulty_images() {
    let good = body(3, &[1, 2, 3, 4], [0; 8], 4, &[7, 8]);
    for len in 0..good.len() {
        assert_eq!(
            Machine::try_from(&good[..len]).err(),
            Some(Error::UnexpectedEof),
            "an image cut to {} bytes",
            len
        );
    }
    assert!(Machine::try_from(&good).is_ok());
    let bad_ip = body(32769, &[1, 2], [0; 8], 0, &[]);
    assert_eq!(Machine::try_from(&bad_ip).err(), Some(Error::InvalidAddr(32769)));
    assert_eq!(Machine::try_from(&bad_ip[..4]).err(), Some(Error::InvalidAddr(32769)));
    let odd = body(0, &[1, 2, 3], [0; 8], 0, &[]);
    assert_eq!(Machine::try_from(&odd).err(), Some(Error::InvalidMemorySize(3)));
}

#[test]
fn load_state_reads_the_tag() {
    let b = body(1, &[21, 0, 0, 0], [0; 8], 0, &[]);
    let with = |tag: u8, reg: u8| {
        let mut image = vec![tag, reg];
        image.extend_from_slice(&b);
        VmState::load(&image)
    };
    assert!(matches!(with(1, 0), Ok(VmState::Running(_))));
    assert!(matches!(with(1, 200), Ok(VmState::Running(_))));
    assert!(matches!(with(2, 0), Ok(VmState::Halted(_))));
    match with(0, 6) {
        Ok(VmState::Stalled(s)) => assert_eq!(s.reg_u8(), 6),
        _ => panic!("expected a stalled machine"),
    }
    assert_eq!(with(0, 8).err(), Some(Error::InvalidRegister(8)));
    assert_eq!(with(3, 0).err(), Some(Error::UnknownVmState(3)));
    assert_eq!(with(255, 0).err(), Some(Error::UnknownVmState(255)));
    assert_eq!(VmState::load(&[]).err(), Some(Error::UnexpectedEof));
    assert_eq!(VmState::load(&[1]).err(), Some(Error::UnexpectedEof));
    assert_eq!(VmState::load(&[1, 0]).err(), Some(Error::UnexpectedEof));
    // a fault in the machine's image comes before one in the tag
    assert_eq!(VmState::load(&[9, 0, 1, 0]).err(), Some(Error::UnexpectedEof));
}

#[test]
fn save_refuses_what_does_not_fit_the_layout() {
    let m = Machine::new(vec![0u8; 65536]).unwrap();
    assert_eq!(m.as_bytes().err(), Some(Error::InvalidMemorySize(65536)));
    let m = Machine::new(vec![0u8; 65534]).unwrap();
    assert_eq!(m.as_bytes().unwrap().len(), 4 + 65534 + 32767 + 16 + 2);
    // a program that pushes for ever: push 1; jmp 0
    let mut m = Machine::new(rom(&[2, 1, 6, 0])).unwrap();
    for _ in 0..(2 * 32768) {
        m = match m.step().unwrap() {
            OpResult::Continue(m) => m,
            _ => panic!("expected continue"),
        };
    }
    assert_eq!(m.stack().len(), 32768);
    assert_eq!(m.as_bytes().err(), Some(Error::InvalidStackSize(32768)));
    assert_eq!(VmState::Running(m).save().err(), Some(Error::InvalidStackSize(32768)));
}

#[test]
fn round_trip_keeps_every_state() {
    let program = rom(&[2, 9, 1, 32770, 77, 16, 200, 5, 20, 32771, 0]);
    let mut debugger = Debugger::new(program).unwrap();
    let mut seen_stalled = false;
    for _ in 0..8 {
        let saved = debugger.save_vm().unwrap();
        let mut other = Debugger::new(Vec::new()).unwrap();
        other.load_vm(&saved).unwrap();
        assert_eq!(other.save_vm().unwrap(), saved);
        assert_eq!(other.state().ip().map(|a| a.as_u16()), debugger.state().ip().map(|a| a.as_u16()));
        assert_eq!(other.state().registers().to_array(), debugger.state().registers().to_array());
        assert_eq!(other.state().stack(), debugger.state().stack());
        assert_eq!(other.dump_mem(), debugger.dump_mem());
        let (d, effect) = debugger.step_vm().unwrap();
        debugger = d;
        let (o, other_effect) = other.step_vm().unwrap();
        assert_eq!(effect, other_effect);
        assert_eq!(o.save_vm().unwrap(), debugger.save_vm().unwrap());
        if effect == Effect::AwaitsInput {
            seen_stalled = true;
            assert_eq!(debugger.save_vm().unwrap()[..2], [0u8, 3]);
        }
    }
    assert!(seen_stalled);
    debugger = debugger.provide_input("x".to_string()).unwrap();
    assert_eq!(debugger.save_vm().unwrap()[0], 1);
    assert_eq!(debugger.state().registers().to_array()[3], 'x' as u16);
    let (debugger, _) = debugger.step_vm().unwrap();
    assert_eq!(debugger.save_vm().unwrap()[0], 2);
}

#[test]
fn pending_input_is_not_saved() {
    let stalled = match Machine::new(rom(&[20, 32768, 20, 32769, 0])).unwrap().step().unwrap() {
        OpResult::Input(s) => s,
        _ => panic!("expected a stall"),
    };
    let m = stalled.set_input("ab".to_string()).unwrap();
    let image = m.as_bytes().unwrap();
    let loaded = Machine::try_from(&image).unwrap();
    assert_eq!(loaded.as_bytes().unwrap(), image);
    // the machine that was saved goes on with "b"; the loaded one stalls
    assert!(matches!(m.step().unwrap(), OpResult::Continue(_)));
    assert!(matches!(loaded.step().unwrap(), OpResult::Input(_)));
}

#[test]
fn load_failure_keeps_the_state() {
    let mut debugger = Debugger::new(rom(&[1, 32768, 5, 0])).unwrap();
    let (d, _) = debugger.step_vm().unwrap();
    debugger = d;
    debugger.add_breakpoint("@", "0x3").unwrap();
    let before = debugger.save_vm().unwrap();
    assert_eq!(debugger.load_vm(&[1, 0, 0]), Err(Error::UnexpectedEof));
    assert_eq!(debugger.save_vm().unwrap(), before);
    assert_eq!(debugger.breakpoints().len(), 1);
    let other = VmState::Halted(HaltedMachine::new(Machine::new(rom(&[21])).unwrap()));
    debugger.load_vm(&other.save().unwrap()).unwrap();
    assert_eq!(debugger.save_vm().unwrap(), other.save().unwrap());
    assert_eq!(debugger.breakpoints().len(), 1);
    let _ = Value::Literal(0);
    let _ = Addr::try_from(0);
}
