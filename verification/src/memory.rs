//! The machine's value types, its register file and its memory.

use vstd::prelude::*;
use vstd::slice::slice_subrange;
use vstd::std_specs::cmp::PartialEqSpecImpl;
use vstd::string::{StrSliceExecFns, StringExecFns};

use crate::errors::Error;
use crate::op_code::OpCode;
use crate::text::{
    decimal, decimal_string, hex, hex4_string, parse_u16, parse_u16_radix, parse_usize, parsed,
    u16_from_text, u16_from_text_radix, usize_from_text, wrapped, write_wrapped, zero_padded,
};
use crate::wire::{le_read_u16, le_write_u16, store_word, word_at};

verus! {

/// The largest word index that addresses memory.
pub const MAX_ADDR: u16 = 32767;

/// The size of memory in bytes.
pub const MAX_BYTES: usize = 65536;

/// The word that refers to register 0; the next seven refer to the others.
pub const FIRST_REGISTER_WORD: u16 = 32768;

/// A word index into memory, never above `MAX_ADDR`.
#[derive(Clone, Copy, Debug, PartialEq, Eq)]
pub struct Addr(u16);

impl View for Addr {
    type V = int;

    closed spec fn view(&self) -> int {
        self.0 as int
    }
}

/// The address that a word names, if it is in range.
pub open spec fn addr_from_word(u: u16) -> Result<Addr, Error> {
    if u <= MAX_ADDR {
        Ok(Addr::at(u as int))
    } else {
        Err(Error::InvalidAddr(u as usize))
    }
}

/// Whether a text begins with `0x`.
pub open spec fn has_hex_prefix(text: Seq<char>) -> bool {
    text.len() >= 2 && text[0] == '0' && text[1] == 'x'
}

/// The number that the text of an address stands for: hexadecimal after
/// `0x`, decimal otherwise.
pub open spec fn addr_number(text: Seq<char>) -> Option<u16> {
    if has_hex_prefix(text) {
        u16_from_text_radix(text.subrange(2, text.len() as int), 16)
    } else {
        u16_from_text(text)
    }
}

/// The address that a parsed number names.
pub open spec fn addr_from_number(number: Option<u16>) -> Result<Addr, Error> {
    match number {
        Some(u) => addr_from_word(u),
        None => Err(Error::ParseInt),
    }
}

impl Addr {
    /// An address holds a word index of at most `MAX_ADDR`.
    #[verifier::type_invariant]
    pub open spec fn inv(self) -> bool {
        0 <= self@ <= MAX_ADDR
    }

    /// The address with word index `i`.
    pub closed spec fn at(i: int) -> Addr {
        Addr(i as u16)
    }

    /// The address as it is shown: `0x` and four hexadecimal digits.
    pub open spec fn text(self) -> Seq<char> {
        "0x"@ + zero_padded(hex(self@ as nat), 4)
    }

    /// Shows the address as `0x` and four hexadecimal digits.
    pub fn to_string(&self) -> (s: String)
        ensures
            s@ == self.text(),
    {
        let mut s = "0x".to_owned();
        s.append(hex4_string(self.as_usize()).as_str());
        s
    }

    /// The word index.
    pub fn as_u16(self) -> (u: u16)
        ensures
            u == self@,
            u <= MAX_ADDR,
    {
        proof {
            use_type_invariant(&self);
        }
        self.0
    }

    /// The word index as a `usize`.
    pub fn as_usize(self) -> (u: usize)
        ensures
            u == self@,
            u <= MAX_ADDR,
    {
        proof {
            use_type_invariant(&self);
        }
        self.0 as usize
    }

    /// The address that a word names: none above `MAX_ADDR`.
    pub fn try_from(u: u16) -> (r: Result<Addr, Error>)
        ensures
            r == addr_from_word(u),
    {
        if u > MAX_ADDR {
            Err(Error::InvalidAddr(u as usize))
        } else {
            Ok(Addr(u))
        }
    }

    /// The address that a parsed number names: none where the parse failed,
    /// none above `MAX_ADDR`.
    pub fn from_number(number: Option<u16>) -> (r: Result<Addr, Error>)
        ensures
            r == addr_from_number(number),
    {
        match number {
            Some(u) => Addr::try_from(u),
            None => Err(Error::ParseInt),
        }
    }

    /// Reads an address from text, hexadecimal after `0x` and decimal
    /// otherwise.
    pub fn from_str(s: &str) -> (r: Result<Addr, Error>)
        ensures
            r == addr_from_number(addr_number(s@)),
    {
        let number = if starts_with_hex_prefix(s) {
            parsed(parse_u16_radix(rest_of(s, 2), 16))
        } else {
            parsed(parse_u16(s))
        };
        Addr::from_number(number)
    }
}

/// An address made from an index has that index.
pub broadcast proof fn lemma_addr_at(i: int)
    requires
        0 <= i <= u16::MAX,
    ensures
        #[trigger] Addr::at(i)@ == i,
{
}

/// An address is the one made from its index.
pub broadcast proof fn lemma_addr_view(a: Addr)
    ensures
        Addr::at(#[trigger] a@) == a,
        0 <= a@ <= u16::MAX,
{
}

/// Whether `s` begins with `0x`.
pub fn starts_with_hex_prefix(s: &str) -> (b: bool)
    ensures
        b == has_hex_prefix(s@),
{
    s.unicode_len() >= 2 && s.get_char(0) == '0' && s.get_char(1) == 'x'
}

/// What follows the first `n` characters of `s`: nothing where `s` has no
/// more than `n`.
pub fn rest_of(s: &str, n: usize) -> (rest: &str)
    ensures
        rest@ == if n <= s@.len() {
            s@.subrange(n as int, s@.len() as int)
        } else {
            Seq::empty()
        },
{
    let len = s.unicode_len();
    if n <= len {
        s.substring_char(n, len)
    } else {
        let rest = s.substring_char(len, len);
        assert(rest@ =~= Seq::<char>::empty());
        rest
    }
}

/// One of the eight registers.
#[derive(Clone, Copy, Debug, PartialEq, Eq)]
pub struct Register(usize);

/// The register that a word refers to: words 32768 to 32775 refer to
/// registers 0 to 7.
pub open spec fn register_from_word(u: u16) -> Result<Register, Error> {
    if FIRST_REGISTER_WORD <= u <= FIRST_REGISTER_WORD + 7 {
        Ok(Register::nth(u - FIRST_REGISTER_WORD))
    } else {
        Err(Error::InvalidRegister(u))
    }
}

/// The register with a given number, as a saved image holds it.
pub open spec fn register_from_index(u: u8) -> Result<Register, Error> {
    if u <= 7 {
        Ok(Register::nth(u as int))
    } else {
        Err(Error::InvalidRegister(u as u16))
    }
}

/// The register that a parsed number names. A number above 7 is reported by
/// its low sixteen bits.
pub open spec fn register_from_number(number: Option<usize>) -> Result<Register, Error> {
    match number {
        Some(n) => if n <= 7 {
            Ok(Register::nth(n as int))
        } else {
            Err(Error::InvalidRegister((n % 65536) as u16))
        },
        None => Err(Error::ParseInt),
    }
}

/// The number in the name of a register: what follows the `r`, or all of
/// the name where it begins with none.
pub open spec fn register_digits(name: Seq<char>) -> Seq<char> {
    if name.len() >= 1 && name[0] == 'r' {
        name.subrange(1, name.len() as int)
    } else {
        name
    }
}

impl Register {
    /// A register's number is below 8.
    #[verifier::type_invariant]
    pub open spec fn inv(self) -> bool {
        0 <= self.index() < 8
    }

    /// The register's number.
    pub closed spec fn index(self) -> int {
        self.0 as int
    }

    /// The register with number `i`.
    pub closed spec fn nth(i: int) -> Register {
        Register(i as usize)
    }

    /// The register as it is shown: `r` and its number.
    pub open spec fn text(self) -> Seq<char> {
        "r"@ + decimal(self.index() as nat)
    }

    /// Shows the register as `r` and its number.
    pub fn to_string(&self) -> (s: String)
        ensures
            s@ == self.text(),
    {
        let mut s = "r".to_owned();
        s.append(decimal_string(self.as_usize()).as_str());
        s
    }

    /// The register's number.
    pub fn as_usize(self) -> (i: usize)
        ensures
            i == self.index(),
            i < 8,
    {
        proof {
            use_type_invariant(&self);
        }
        self.0
    }

    /// The register's number as a byte.
    pub fn as_u8(self) -> (i: u8)
        ensures
            i == self.index(),
            i < 8,
    {
        proof {
            use_type_invariant(&self);
        }
        self.0 as u8
    }

    /// The register that a word refers to.
    pub fn try_from(u: u16) -> (r: Result<Register, Error>)
        ensures
            r == register_from_word(u),
    {
        if FIRST_REGISTER_WORD <= u && u <= FIRST_REGISTER_WORD + 7 {
            Ok(Register((u - FIRST_REGISTER_WORD) as usize))
        } else {
            Err(Error::InvalidRegister(u))
        }
    }

    /// The register with a given number, as a saved image holds it.
    pub fn try_from_index(u: u8) -> (r: Result<Register, Error>)
        ensures
            r == register_from_index(u),
    {
        if u <= 7 {
            Ok(Register(u as usize))
        } else {
            Err(Error::InvalidRegister(u as u16))
        }
    }

    /// The register that a parsed number names.
    pub fn from_number(number: Option<usize>) -> (r: Result<Register, Error>)
        ensures
            r == register_from_number(number),
    {
        match number {
            Some(n) => if n > 7 {
                Err(Error::InvalidRegister((n % 65536) as u16))
            } else {
                Ok(Register(n))
            },
            None => Err(Error::ParseInt),
        }
    }

    /// Reads a register from its name: `r` and its number, or the number
    /// alone.
    pub fn from_name(name: &str) -> (r: Result<Register, Error>)
        ensures
            r == register_from_number(usize_from_text(register_digits(name@))),
    {
        if starts_with_char(name, 'r') {
            Register::from_str(rest_of(name, 1))
        } else {
            Register::from_str(name)
        }
    }

    /// Reads a register's number from decimal text.
    pub fn from_str(n: &str) -> (r: Result<Register, Error>)
        ensures
            r == register_from_number(usize_from_text(n@)),
    {
        Register::from_number(parsed(parse_usize(n)))
    }
}

/// A register made from a number has that number.
pub broadcast proof fn lemma_register_nth(i: int)
    requires
        0 <= i <= usize::MAX,
    ensures
        #[trigger] Register::nth(i).index() == i,
{
}

/// A register is the one made from its number.
pub broadcast proof fn lemma_register_index(r: Register)
    ensures
        Register::nth(#[trigger] r.index()) == r,
        0 <= r.index() <= usize::MAX,
{
}

/// An operand: a number that stands for itself, or a register whose content
/// is meant.
#[derive(Clone, Copy, Debug, PartialEq, Eq)]
pub enum Value {
    Literal(u16),
    FromRegister(Register),
}

/// The operand that a word encodes. Words up to 32767 are literals, the next
/// eight are register references, and every word from 32776 on is no value.
pub open spec fn value_from_word(u: u16) -> Result<Value, Error> {
    if u <= MAX_ADDR {
        Ok(Value::Literal(u))
    } else if u <= FIRST_REGISTER_WORD + 7 {
        Ok(Value::FromRegister(Register::nth(u - FIRST_REGISTER_WORD)))
    } else {
        Err(Error::InvalidValue(u))
    }
}

/// Whether a text begins with `b`.
pub open spec fn has_binary_prefix(text: Seq<char>) -> bool {
    text.len() >= 1 && text[0] == 'b'
}

/// The number that the text of a value stands for: hexadecimal after `0x`,
/// binary after `b`, decimal otherwise.
pub open spec fn value_number(text: Seq<char>) -> Option<u16> {
    if has_hex_prefix(text) {
        u16_from_text_radix(text.subrange(2, text.len() as int), 16)
    } else if has_binary_prefix(text) {
        u16_from_text_radix(text.subrange(1, text.len() as int), 2)
    } else {
        u16_from_text(text)
    }
}

/// The operand that a parsed number encodes.
pub open spec fn value_from_number(number: Option<u16>) -> Result<Value, Error> {
    match number {
        Some(u) => value_from_word(u),
        None => Err(Error::ParseInt),
    }
}

impl Value {
    /// The operand as it is shown: a literal in angle brackets, a register by
    /// its name.
    pub open spec fn text(self) -> Seq<char> {
        match self {
            Value::Literal(l) => wrapped("<"@, decimal(l as nat), ">"@),
            Value::FromRegister(r) => r.text(),
        }
    }

    /// The operand as it is shown at length: a literal in decimal and in
    /// hexadecimal, a register by its name.
    pub open spec fn debug_text(self) -> Seq<char> {
        match self {
            Value::Literal(l) => wrapped(
                "<"@,
                wrapped(decimal(l as nat), ", 0x"@, zero_padded(hex(l as nat), 4)),
                ">"@,
            ),
            Value::FromRegister(r) => r.text(),
        }
    }

    /// Shows the operand: `<5>` for a literal, `r3` for a register.
    pub fn to_string(&self) -> (s: String)
        ensures
            s@ == self.text(),
    {
        match *self {
            Value::Literal(l) => write_wrapped("<", decimal_string(l as usize).as_str(), ">"),
            Value::FromRegister(r) => r.to_string(),
        }
    }

    /// Shows the operand at length: `<5, 0x0005>` for a literal, `r3` for a
    /// register.
    pub fn to_debug_string(&self) -> (s: String)
        ensures
            s@ == self.debug_text(),
    {
        match *self {
            Value::Literal(l) => {
                let both = write_wrapped(
                    decimal_string(l as usize).as_str(),
                    ", 0x",
                    hex4_string(l as usize).as_str(),
                );
                write_wrapped("<", both.as_str(), ">")
            },
            Value::FromRegister(r) => r.to_string(),
        }
    }

    /// The operand that a word encodes.
    pub fn try_from(u: u16) -> (r: Result<Value, Error>)
        ensures
            r == value_from_word(u),
    {
        if u <= MAX_ADDR {
            Ok(Value::Literal(u))
        } else if u <= FIRST_REGISTER_WORD + 7 {
            match Register::try_from(u) {
                Ok(r) => Ok(Value::FromRegister(r)),
                Err(_) => Err(Error::InvalidValue(u)),
            }
        } else {
            Err(Error::InvalidValue(u))
        }
    }

    /// The operand that a parsed number encodes.
    pub fn from_number(number: Option<u16>) -> (r: Result<Value, Error>)
        ensures
            r == value_from_number(number),
    {
        match number {
            Some(u) => Value::try_from(u),
            None => Err(Error::ParseInt),
        }
    }

    /// Reads an operand from text: hexadecimal after `0x`, binary after `b`,
    /// decimal otherwise.
    pub fn from_str(v: &str) -> (r: Result<Value, Error>)
        ensures
            r == value_from_number(value_number(v@)),
    {
        let number = if starts_with_hex_prefix(v) {
            parsed(parse_u16_radix(rest_of(v, 2), 16))
        } else if starts_with_char(v, 'b') {
            parsed(parse_u16_radix(rest_of(v, 1), 2))
        } else {
            parsed(parse_u16(v))
        };
        Value::from_number(number)
    }
}

/// Whether `s` begins with the character `c`.
pub fn starts_with_char(s: &str, c: char) -> (b: bool)
    ensures
        b == (s@.len() >= 1 && s@[0] == c),
{
    s.unicode_len() >= 1 && s.get_char(0) == c
}


/// What a breakpoint watches: a word of memory or a register.
#[derive(Clone, Copy, Debug)]
pub enum Target {
    Mem(Addr),
    Reg(Register),
}

/// What a location text names: a register after `r`, an address otherwise.
pub open spec fn target_from_text(text: Seq<char>) -> Result<Target, Error> {
    if text.len() >= 1 && text[0] == 'r' {
        match register_from_number(usize_from_text(text.subrange(1, text.len() as int))) {
            Ok(r) => Ok(Target::Reg(r)),
            Err(e) => Err(e),
        }
    } else {
        match addr_from_number(addr_number(text)) {
            Ok(a) => Ok(Target::Mem(a)),
            Err(e) => Err(e),
        }
    }
}

impl Target {
    /// The target as it is shown: an address or a register.
    pub open spec fn text(self) -> Seq<char> {
        match self {
            Target::Mem(addr) => addr.text(),
            Target::Reg(reg) => reg.text(),
        }
    }

    /// Shows the target as its address or its register.
    pub fn to_string(&self) -> (s: String)
        ensures
            s@ == self.text(),
    {
        match *self {
            Target::Mem(addr) => addr.to_string(),
            Target::Reg(reg) => reg.to_string(),
        }
    }

    /// A target is an operand only where both are the same register.
    pub open spec fn is_value(self, val: Value) -> bool {
        match val {
            Value::FromRegister(r) => self == Target::Reg(r),
            Value::Literal(_) => false,
        }
    }

    /// Whether the target is the word at `addr`.
    pub fn eq_addr(&self, addr: &Addr) -> (r: bool)
        ensures
            r == (*self == Target::Mem(*addr)),
    {
        broadcast use group_value_types;

        match *self {
            Target::Mem(a) => a.as_u16() == addr.as_u16(),
            _ => false,
        }
    }

    /// Whether the target is the register `reg`.
    pub fn eq_register(&self, reg: &Register) -> (r: bool)
        ensures
            r == (*self == Target::Reg(*reg)),
    {
        broadcast use group_value_types;

        match *self {
            Target::Reg(t) => t.as_usize() == reg.as_usize(),
            _ => false,
        }
    }

    /// Whether the target is the operand `val`: so where both are the same
    /// register, and never for a literal.
    pub fn eq_value(&self, val: &Value) -> (r: bool)
        ensures
            r == self.is_value(*val),
    {
        broadcast use group_value_types;

        match (*self, *val) {
            (Target::Reg(t), Value::FromRegister(v)) => t.as_usize() == v.as_usize(),
            _ => false,
        }
    }

    /// Reads a location: `r` and a register's number, or an address.
    pub fn from_str(loc: &str) -> (r: Result<Target, Error>)
        ensures
            r == target_from_text(loc@),
    {
        if starts_with_char(loc, 'r') {
            match Register::from_str(rest_of(loc, 1)) {
                Ok(r) => Ok(Target::Reg(r)),
                Err(e) => Err(e),
            }
        } else {
            match Addr::from_str(loc) {
                Ok(a) => Ok(Target::Mem(a)),
                Err(e) => Err(e),
            }
        }
    }
}

impl PartialEq for Target {
    fn eq(&self, other: &Target) -> (r: bool) {
        broadcast use group_value_types;

        match (*self, *other) {
            (Target::Mem(a), Target::Mem(b)) => a.as_u16() == b.as_u16(),
            (Target::Reg(a), Target::Reg(b)) => a.as_usize() == b.as_usize(),
            _ => false,
        }
    }
}

impl PartialEqSpecImpl for Target {
    open spec fn obeys_eq_spec() -> bool {
        true
    }

    open spec fn eq_spec(&self, other: &Target) -> bool {
        *self == *other
    }
}

/// A stretch of memory from a first word to a last one. Either end may be
/// left open; where both are given, the first is not above the last.
#[derive(Clone, Copy, Debug)]
pub struct AddrRange(Option<Addr>, Option<Addr>);

/// Where the first `..` of `text` at or after `from` begins.
pub open spec fn first_dotdot(text: Seq<char>, from: int) -> Option<int>
    decreases text.len() - from,
{
    if from < 0 || from + 1 >= text.len() {
        None
    } else if text[from] == '.' && text[from + 1] == '.' {
        Some(from)
    } else {
        first_dotdot(text, from + 1)
    }
}

/// The address that one end of a range names; an empty text leaves it open.
pub open spec fn range_end_from_text(text: Seq<char>) -> Result<Option<Addr>, Error> {
    if text.len() == 0 {
        Ok(None)
    } else {
        match addr_from_number(addr_number(text)) {
            Ok(a) => Ok(Some(a)),
            Err(e) => Err(e),
        }
    }
}

/// The range between two ends, which are exchanged where the first is above
/// the second.
pub open spec fn ordered_range(first: Option<Addr>, last: Option<Addr>) -> AddrRange {
    match (first, last) {
        (Some(s), Some(e)) => if s@ > e@ {
            AddrRange::between(last, first)
        } else {
            AddrRange::between(first, last)
        },
        _ => AddrRange::between(first, last),
    }
}

/// The range that a text names: one address, or two ends with `..` between
/// them. Of two faulty ends the first is reported.
pub open spec fn range_from_text(text: Seq<char>) -> Result<AddrRange, Error> {
    match first_dotdot(text, 0) {
        Some(i) => match range_end_from_text(text.subrange(0, i)) {
            Err(e) => Err(e),
            Ok(first) => match range_end_from_text(text.subrange(i + 2, text.len() as int)) {
                Err(e) => Err(e),
                Ok(last) => Ok(ordered_range(first, last)),
            },
        },
        None => match addr_from_number(addr_number(text)) {
            Ok(a) => Ok(AddrRange::between(Some(a), Some(a))),
            Err(e) => Err(e),
        },
    }
}

impl AddrRange {
    /// Where both ends are given, the first is not above the last.
    #[verifier::type_invariant]
    pub open spec fn inv(self) -> bool {
        match (self.first(), self.last()) {
            (Some(s), Some(e)) => s@ <= e@,
            _ => true,
        }
    }

    /// The first word of the range, if it is given.
    pub closed spec fn first(self) -> Option<Addr> {
        self.0
    }

    /// The last word of the range, if it is given.
    pub closed spec fn last(self) -> Option<Addr> {
        self.1
    }

    /// The range with these two ends.
    pub closed spec fn between(first: Option<Addr>, last: Option<Addr>) -> AddrRange {
        AddrRange(first, last)
    }

    /// The word index at which the range starts: 0 where that end is open.
    pub open spec fn start_index(self) -> int {
        match self.first() {
            Some(a) => a@,
            None => 0,
        }
    }

    /// The word index at which the range starts.
    pub fn start(&self) -> (s: usize)
        ensures
            s == self.start_index(),
            s <= MAX_ADDR,
    {
        match self.0 {
            Some(a) => a.as_usize(),
            None => 0,
        }
    }

    /// The range between two ends, which are exchanged where the first is
    /// above the second.
    pub fn new(first: Option<Addr>, last: Option<Addr>) -> (r: AddrRange)
        ensures
            r == ordered_range(first, last),
    {
        match (first, last) {
            (Some(sv), Some(ev)) => if sv.as_u16() > ev.as_u16() {
                AddrRange(last, first)
            } else {
                AddrRange(first, last)
            },
            _ => AddrRange(first, last),
        }
    }

    /// The range of all that is in use: both ends are left open.
    pub fn all() -> (r: AddrRange)
        ensures
            r == AddrRange::between(None, None),
    {
        AddrRange(None, None)
    }

    /// Reads one end of a range.
    fn end_from_str(s: &str) -> (r: Result<Option<Addr>, Error>)
        ensures
            r == range_end_from_text(s@),
    {
        if s.unicode_len() == 0 {
            Ok(None)
        } else {
            match Addr::from_str(s) {
                Ok(a) => Ok(Some(a)),
                Err(e) => Err(e),
            }
        }
    }

    /// Reads a range: `addr`, `addr..addr`, `addr..`, `..addr` or `..`.
    pub fn from_str(s: &str) -> (r: Result<AddrRange, Error>)
        ensures
            r == range_from_text(s@),
    {
        match find_dotdot(s) {
            Some(i) => {
                let first = match AddrRange::end_from_str(s.substring_char(0, i)) {
                    Ok(a) => a,
                    Err(e) => { return Err(e); },
                };
                let last = match AddrRange::end_from_str(rest_of(s, i + 2)) {
                    Ok(a) => a,
                    Err(e) => { return Err(e); },
                };
                Ok(AddrRange::new(first, last))
            },
            None => match Addr::from_str(s) {
                Ok(a) => Ok(AddrRange(Some(a), Some(a))),
                Err(e) => Err(e),
            },
        }
    }
}

/// Finds where the first `..` of `s` begins.
pub fn find_dotdot(s: &str) -> (r: Option<usize>)
    ensures
        match r {
            Some(i) => first_dotdot(s@, 0) == Some(i as int) && i + 2 <= s@.len() <= usize::MAX,
            None => first_dotdot(s@, 0) is None,
        },
{
    let len = s.unicode_len();
    if len < 2 {
        return None;
    }
    let mut i: usize = 0;
    while i < len - 1
        invariant
            len == s@.len(),
            len >= 2,
            i <= len - 1,
            first_dotdot(s@, 0) == first_dotdot(s@, i as int),
        decreases len - i,
    {
        if s.get_char(i) == '.' && s.get_char(i + 1) == '.' {
            return Some(i);
        }
        i = i + 1;
    }
    None
}

/// The ends of a range are the ones it was made from.
pub broadcast proof fn lemma_range_between(first: Option<Addr>, last: Option<Addr>)
    ensures
        (#[trigger] AddrRange::between(first, last)).first() == first,
        AddrRange::between(first, last).last() == last,
{
}

/// The eight registers.
#[derive(Clone, Copy, Debug, PartialEq, Eq)]
pub struct RegisterSet([u16; 8]);

impl View for RegisterSet {
    type V = Seq<u16>;

    closed spec fn view(&self) -> Seq<u16> {
        self.0@
    }
}

/// There are eight registers.
pub broadcast proof fn lemma_register_set_len(r: RegisterSet)
    ensures
        (#[trigger] r@).len() == 8,
{
}

/// The number an operand stands for: itself, or the content of the register
/// it refers to.
pub open spec fn resolve(registers: Seq<u16>, val: Value) -> u16 {
    match val {
        Value::Literal(u) => u,
        Value::FromRegister(r) => registers[r.index()],
    }
}

impl RegisterSet {
    /// Eight registers that hold zero.
    pub fn new() -> (r: RegisterSet)
        ensures
            r@ == Seq::new(8, |i: int| 0u16),
    {
        let r = RegisterSet([0;8]);
        assert(r@ =~= Seq::new(8, |i: int| 0u16));
        r
    }

    /// Eight registers with the given contents.
    pub fn load(r: [u16; 8]) -> (s: RegisterSet)
        ensures
            s@ == r@,
    {
        RegisterSet(r)
    }

    /// The number an operand stands for.
    pub fn read(&self, val: Value) -> (u: u16)
        ensures
            u == resolve(self@, val),
    {
        match val {
            Value::Literal(u) => u,
            Value::FromRegister(reg) => self.0[reg.as_usize()],
        }
    }

    /// Puts the number an operand stands for into a register.
    pub fn write_val(&mut self, reg: Register, val: Value)
        ensures
            final(self)@ == old(self)@.update(reg.index(), resolve(old(self)@, val)),
    {
        let u = self.read(val);
        self.write_u16(reg, u);
    }

    /// Puts a number into a register.
    pub fn write_u16(&mut self, reg: Register, u: u16)
        ensures
            final(self)@ == old(self)@.update(reg.index(), u),
    {
        self.0[reg.as_usize()] = u;
    }

    /// The contents of the registers, in order.
    pub fn to_array(&self) -> (r: [u16; 8])
        ensures
            r@ == self@,
    {
        self.0
    }

    /// Walks the registers from the first to the last.
    pub fn into_iter(&self) -> (it: RegisterSetIterator<'_>)
        ensures
            it.remaining() == self@,
    {
        let it = RegisterSetIterator { register_set: self, index: 0 };
        assert(it.remaining() =~= self@);
        it
    }
}

/// A walk over the registers, in order.
pub struct RegisterSetIterator<'s> {
    register_set: &'s RegisterSet,
    index: usize,
}

impl<'s> RegisterSetIterator<'s> {
    /// The walk never goes past the last register.
    #[verifier::type_invariant]
    spec fn inv(self) -> bool {
        self.index <= 8
    }

    /// The contents of the registers still to come.
    pub closed spec fn remaining(self) -> Seq<u16> {
        self.register_set@.subrange(self.index as int, 8)
    }

    /// The content of the next register, or `None` after the last.
    pub fn next(&mut self) -> (r: Option<u16>)
        ensures
            old(self).remaining().len() > 0 ==> r == Some(old(self).remaining()[0])
                && final(self).remaining() == old(self).remaining().drop_first(),
            old(self).remaining().len() == 0 ==> r is None && final(self).remaining() == old(
                self,
            ).remaining(),
    {
        proof {
            use_type_invariant(&*self);
        }
        if self.index < 8 {
            let result = self.register_set.0[self.index];
            self.index += 1;
            assert(self.remaining() =~= old(self).remaining().drop_first());
            Some(result)
        } else {
            None
        }
    }
}

/// The instruction that `build` makes of the operands read, if they were
/// read.
pub open spec fn built<T>(read: (Result<T, Error>, MemoryView), build: spec_fn(T) -> OpCode) -> (
    Result<OpCode, Error>,
    MemoryView,
) {
    (
        match read.0 {
            Ok(operands) => Ok(build(operands)),
            Err(e) => Err(e),
        },
        read.1,
    )
}

/// Memory that holds a program from address 0 on and zeros behind it, with
/// the cursor on address 0.
pub open spec fn image_of(rom: Seq<u8>) -> MemoryView {
    MemoryView {
        bytes: rom + Seq::new((MAX_BYTES - rom.len()) as nat, |i: int| 0u8),
        cursor: 0,
        used_words: rom.len() as int / 2,
    }
}

/// Memory as the contracts see it.
pub struct MemoryView {
    /// All 65536 bytes; each word lies low byte first.
    pub bytes: Seq<u8>,
    /// The byte offset at which the next fetch reads. It is twice the
    /// instruction pointer.
    pub cursor: int,
    /// How many words, counted from address 0, hold the program or were
    /// written since: one more than the highest such address.
    pub used_words: int,
}

impl MemoryView {
    /// Memory is 65536 bytes, the cursor stands on a word boundary inside it
    /// or at its end, and every word behind the used ones is zero.
    pub open spec fn wf(self) -> bool {
        &&& self.bytes.len() == MAX_BYTES
        &&& 0 <= self.cursor <= MAX_BYTES
        &&& self.cursor % 2 == 0
        &&& 0 <= self.used_words <= MAX_BYTES / 2
        &&& forall|i: int| 2 * self.used_words <= i < MAX_BYTES ==> self.bytes[i] == 0
    }

    /// The bytes of the used words.
    pub open spec fn used_image(self) -> Seq<u8> {
        self.bytes.subrange(0, 2 * self.used_words)
    }

    /// The instruction pointer: the word the cursor stands on. There is none
    /// once the cursor has passed the last word.
    pub open spec fn ip(self) -> Option<Addr> {
        if self.cursor < MAX_BYTES {
            Some(Addr::at(self.cursor / 2))
        } else {
            None
        }
    }

    /// The word at an address.
    pub open spec fn word(self, addr: Addr) -> u16 {
        word_at(self.bytes, 2 * addr@)
    }

    /// This memory with the cursor on the word at `addr`.
    pub open spec fn moved_to(self, addr: Addr) -> MemoryView {
        MemoryView { cursor: 2 * addr@, ..self }
    }

    /// This memory with `val` at `addr`. The count of used words grows to
    /// take in `addr`.
    pub open spec fn with_word(self, addr: Addr, val: u16) -> MemoryView {
        MemoryView {
            bytes: store_word(self.bytes, 2 * addr@, val),
            used_words: if addr@ + 1 > self.used_words {
                addr@ + 1
            } else {
                self.used_words
            },
            ..self
        }
    }

    /// Reads the word under the cursor and moves the cursor past it. At the
    /// end of memory nothing is read and nothing moves.
    pub open spec fn next_word(self) -> (Result<u16, Error>, MemoryView) {
        if self.cursor + 2 <= self.bytes.len() {
            (Ok(word_at(self.bytes, self.cursor)), MemoryView { cursor: self.cursor + 2, ..self })
        } else {
            (Err(Error::UnexpectedEof), self)
        }
    }

    /// Reads a register reference. The cursor moves past the word even where
    /// the word refers to no register.
    pub open spec fn next_reg(self) -> (Result<Register, Error>, MemoryView) {
        let (word, after) = self.next_word();
        match word {
            Ok(u) => (register_from_word(u), after),
            Err(e) => (Err(e), after),
        }
    }

    /// Reads an operand. The cursor moves past the word even where the word
    /// encodes no operand.
    pub open spec fn next_val(self) -> (Result<Value, Error>, MemoryView) {
        let (word, after) = self.next_word();
        match word {
            Ok(u) => (value_from_word(u), after),
            Err(e) => (Err(e), after),
        }
    }

    /// Reads an instruction's number, which must be a literal.
    pub open spec fn next_instr(self) -> (Result<u16, Error>, MemoryView) {
        let (val, after) = self.next_val();
        match val {
            Ok(Value::Literal(i)) => (Ok(i), after),
            Ok(Value::FromRegister(r)) => (Err(Error::NonLiteralOpCode(r)), after),
            Err(e) => (Err(e), after),
        }
    }

    /// Reads a register reference and then an operand, stopping at the first
    /// that fails.
    pub open spec fn next_reg_val(self) -> (Result<(Register, Value), Error>, MemoryView) {
        let (reg, after_reg) = self.next_reg();
        match reg {
            Ok(r) => {
                let (val, after) = after_reg.next_val();
                match val {
                    Ok(v) => (Ok((r, v)), after),
                    Err(e) => (Err(e), after),
                }
            },
            Err(e) => (Err(e), after_reg),
        }
    }

    /// Reads two operands, stopping at the first that fails.
    pub open spec fn next_val_val(self) -> (Result<(Value, Value), Error>, MemoryView) {
        let (first, after_first) = self.next_val();
        match first {
            Ok(v1) => {
                let (second, after) = after_first.next_val();
                match second {
                    Ok(v2) => (Ok((v1, v2)), after),
                    Err(e) => (Err(e), after),
                }
            },
            Err(e) => (Err(e), after_first),
        }
    }

    /// Reads a register reference and then two operands, stopping at the
    /// first that fails.
    pub open spec fn next_reg_val_val(self) -> (
        Result<(Register, Value, Value), Error>,
        MemoryView,
    ) {
        let (reg, after_reg) = self.next_reg();
        match reg {
            Ok(r) => {
                let (vals, after) = after_reg.next_val_val();
                match vals {
                    Ok((v1, v2)) => (Ok((r, v1, v2)), after),
                    Err(e) => (Err(e), after),
                }
            },
            Err(e) => (Err(e), after_reg),
        }
    }

    /// Reads one instruction: its number, then as many operands as that
    /// number asks for. The cursor stops behind the last word read, which on
    /// failure is the word at fault.
    pub open spec fn fetch_op(self) -> (Result<OpCode, Error>, MemoryView) {
        let (instr, m) = self.next_instr();
        match instr {
            Err(e) => (Err(e), m),
            Ok(n) => if n == 0 {
                (Ok(OpCode::Halt), m)
            } else if n == 1 {
                built(m.next_reg_val(), |p: (Register, Value)| OpCode::SetReg { reg: p.0, val: p.1 })
            } else if n == 2 {
                built(m.next_val(), |val: Value| OpCode::Push { val })
            } else if n == 3 {
                built(m.next_reg(), |reg: Register| OpCode::Pop { reg })
            } else if n == 4 {
                built(
                    m.next_reg_val_val(),
                    |p: (Register, Value, Value)| OpCode::Eq { reg: p.0, val1: p.1, val2: p.2 },
                )
            } else if n == 5 {
                built(
                    m.next_reg_val_val(),
                    |p: (Register, Value, Value)| OpCode::Gt { reg: p.0, val1: p.1, val2: p.2 },
                )
            } else if n == 6 {
                built(m.next_val(), |addr: Value| OpCode::Jmp { addr })
            } else if n == 7 {
                built(m.next_val_val(), |p: (Value, Value)| OpCode::Jt { cond: p.0, addr: p.1 })
            } else if n == 8 {
                built(m.next_val_val(), |p: (Value, Value)| OpCode::Jf { cond: p.0, addr: p.1 })
            } else if n == 9 {
                built(
                    m.next_reg_val_val(),
                    |p: (Register, Value, Value)| OpCode::Add { reg: p.0, val1: p.1, val2: p.2 },
                )
            } else if n == 10 {
                built(
                    m.next_reg_val_val(),
                    |p: (Register, Value, Value)| OpCode::Mult { reg: p.0, val1: p.1, val2: p.2 },
                )
            } else if n == 11 {
                built(
                    m.next_reg_val_val(),
                    |p: (Register, Value, Value)| OpCode::Mod { reg: p.0, val1: p.1, val2: p.2 },
                )
            } else if n == 12 {
                built(
                    m.next_reg_val_val(),
                    |p: (Register, Value, Value)| OpCode::And { reg: p.0, val1: p.1, val2: p.2 },
                )
            } else if n == 13 {
                built(
                    m.next_reg_val_val(),
                    |p: (Register, Value, Value)| OpCode::Or { reg: p.0, val1: p.1, val2: p.2 },
                )
            } else if n == 14 {
                built(m.next_reg_val(), |p: (Register, Value)| OpCode::Not { reg: p.0, val: p.1 })
            } else if n == 15 {
                built(m.next_reg_val(), |p: (Register, Value)| OpCode::Rmem { reg: p.0, addr: p.1 })
            } else if n == 16 {
                built(m.next_val_val(), |p: (Value, Value)| OpCode::Wmem { addr: p.0, val: p.1 })
            } else if n == 17 {
                built(m.next_val(), |addr: Value| OpCode::Call { addr })
            } else if n == 18 {
                (Ok(OpCode::Ret), m)
            } else if n == 19 {
                built(m.next_val(), |c: Value| OpCode::Out { c })
            } else if n == 20 {
                built(m.next_reg(), |reg: Register| OpCode::In { reg })
            } else if n == 21 {
                (Ok(OpCode::Noop), m)
            } else {
                (Err(Error::InvalidOpCode(n)), m)
            },
        }
    }

    /// The word index at which a range starts and the one at which it ends.
    /// An open start is 0. An open end is the last used word, or the last
    /// word of memory where the range starts behind the last used one.
    pub open spec fn range_limits(self, r: AddrRange) -> (int, int) {
        let start = r.start_index();
        let end = match r.last() {
            Some(e) => e@,
            None => if start > self.used_words - 1 {
                MAX_ADDR as int
            } else {
                self.used_words - 1
            },
        };
        (start, end)
    }

    /// The bytes of the words of a range, both ends included.
    pub open spec fn range_bytes(self, r: AddrRange) -> Seq<u8> {
        let (start, end) = self.range_limits(r);
        self.bytes.subrange(2 * start, 2 * (end + 1))
    }
}

/// 64 KiB of words, with the cursor that fetches instructions from it.
pub struct Memory {
    bytes: Vec<u8>,
    cursor: usize,
    used_words: usize,
}

impl View for Memory {
    type V = MemoryView;

    closed spec fn view(&self) -> MemoryView {
        MemoryView {
            bytes: self.bytes@,
            cursor: self.cursor as int,
            used_words: self.used_words as int,
        }
    }
}

impl Memory {
    /// Every memory is well formed.
    #[verifier::type_invariant]
    pub open spec fn inv(&self) -> bool {
        self@.wf()
    }

    fn next_u16(&mut self) -> (r: Result<u16, Error>)
        ensures
            (r, final(self)@) == old(self)@.next_word(),
    {
        proof {
            use_type_invariant(&*self);
        }
        if self.cursor + 2 > self.bytes.len() {
            return Err(Error::UnexpectedEof);
        }
        let at = self.cursor;
        let w = le_read_u16(slice_subrange(self.bytes.as_slice(), at, at + 2));
        self.cursor = at + 2;
        Ok(w)
    }

    /// Reads a register reference at the cursor.
    pub fn next_reg(&mut self) -> (r: Result<Register, Error>)
        ensures
            (r, final(self)@) == old(self)@.next_reg(),
    {
        match self.next_u16() {
            Ok(u) => Register::try_from(u),
            Err(e) => Err(e),
        }
    }

    /// Reads an operand at the cursor.
    pub fn next_val(&mut self) -> (r: Result<Value, Error>)
        ensures
            (r, final(self)@) == old(self)@.next_val(),
    {
        match self.next_u16() {
            Ok(u) => Value::try_from(u),
            Err(e) => Err(e),
        }
    }

    /// Reads an instruction's number at the cursor.
    pub fn next_instr(&mut self) -> (r: Result<u16, Error>)
        ensures
            (r, final(self)@) == old(self)@.next_instr(),
    {
        match self.next_val() {
            Ok(Value::Literal(i)) => Ok(i),
            Ok(Value::FromRegister(r)) => Err(Error::NonLiteralOpCode(r)),
            Err(e) => Err(e),
        }
    }

    fn next_reg_val(&mut self) -> (r: Result<(Register, Value), Error>)
        ensures
            (r, final(self)@) == old(self)@.next_reg_val(),
    {
        let reg = self.next_reg()?;
        let val = self.next_val()?;
        Ok((reg, val))
    }

    fn next_val_val(&mut self) -> (r: Result<(Value, Value), Error>)
        ensures
            (r, final(self)@) == old(self)@.next_val_val(),
    {
        let val1 = self.next_val()?;
        let val2 = self.next_val()?;
        Ok((val1, val2))
    }

    fn next_reg_val_val(&mut self) -> (r: Result<(Register, Value, Value), Error>)
        ensures
            (r, final(self)@) == old(self)@.next_reg_val_val(),
    {
        let reg = self.next_reg()?;
        let (val1, val2) = self.next_val_val()?;
        Ok((reg, val1, val2))
    }

    /// Makes a memory from a program image, which must be of even length and
    /// no longer than memory. The image lies from address 0 on, zeros fill
    /// the rest, and the words of the image count as used.
    pub fn new(v: Vec<u8>) -> (r: Result<Memory, Error>)
        ensures
            match r {
                Ok(m) => v@.len() <= MAX_BYTES && v@.len() % 2 == 0 && m@ == image_of(v@),
                Err(e) => (v@.len() > MAX_BYTES || v@.len() % 2 != 0) && e
                    == Error::InvalidMemorySize(v@.len() as usize),
            },
    {
        let byte_len = v.len();
        if MAX_BYTES < byte_len || byte_len % 2 != 0 {
            return Err(Error::InvalidMemorySize(byte_len));
        }
        let mut bytes = v;
        bytes.resize(MAX_BYTES, 0);
        let m = Memory { bytes, cursor: 0, used_words: byte_len / 2 };
        assert(m@.bytes =~= image_of(v@).bytes);
        Ok(m)
    }

    /// The number of bytes that the used words take.
    pub fn used_bytes(&self) -> (n: usize)
        ensures
            n == 2 * self@.used_words,
            n <= MAX_BYTES,
    {
        proof {
            use_type_invariant(self);
        }
        self.used_words * 2
    }

    /// Puts the cursor on the word at `addr`.
    pub fn set_ip(&mut self, addr: Addr)
        ensures
            final(self)@ == old(self)@.moved_to(addr),
    {
        proof {
            use_type_invariant(&*self);
        }
        self.cursor = addr.as_usize() * 2;
    }

    /// The instruction pointer, which is at most `MAX_ADDR` and stands on a
    /// word boundary. There is none once the cursor has passed the last word
    /// of memory.
    pub fn ip(&self) -> (r: Option<Addr>)
        ensures
            r == self@.ip(),
            r matches Some(a) ==> 0 <= a@ <= MAX_ADDR && self@.cursor == 2 * a@,
    {
        proof {
            use_type_invariant(self);
        }
        if self.cursor < MAX_BYTES {
            Some(Addr((self.cursor / 2) as u16))
        } else {
            None
        }
    }

    /// Puts the cursor on a word, or behind the last one.
    pub(crate) fn seek_word(&mut self, word: u16)
        requires
            word <= MAX_BYTES / 2,
        ensures
            final(self)@ == (MemoryView { cursor: 2 * word, ..old(self)@ }),
    {
        proof {
            use_type_invariant(&*self);
        }
        self.cursor = word as usize * 2;
    }

    /// The byte offset of the cursor: always even, and at most the size of
    /// memory.
    pub fn position(&self) -> (pos: usize)
        ensures
            pos == self@.cursor,
            pos % 2 == 0,
            pos <= MAX_BYTES,
    {
        proof {
            use_type_invariant(self);
        }
        self.cursor
    }

    /// The word at `addr`. The cursor stays where it is.
    pub fn read(&mut self, addr: Addr) -> (r: Result<u16, Error>)
        ensures
            r == Ok::<u16, Error>(old(self)@.word(addr)),
            final(self)@ == old(self)@,
    {
        proof {
            use_type_invariant(&*self);
            use_type_invariant(&addr);
        }
        let ip = self.cursor;
        self.set_ip(addr);
        proof {
            use_type_invariant(&*self);
        }
        let r = self.next_u16();
        proof {
            use_type_invariant(&*self);
        }
        self.cursor = ip;
        r
    }

    /// Stores `val` at `addr`. The cursor stays where it is.
    pub fn write(&mut self, addr: Addr, val: u16)
        ensures
            final(self)@ == old(self)@.with_word(addr, val),
    {
        proof {
            use_type_invariant(&*self);
        }
        let at = addr.as_usize();
        if at + 1 > self.used_words {
            self.used_words = at + 1;
        }
        le_write_u16(&mut self.bytes, at * 2, val);
    }

    /// The bytes of the used words.
    pub fn used_image(&self) -> (bytes: &[u8])
        ensures
            bytes@ == self@.used_image(),
    {
        proof {
            use_type_invariant(self);
        }
        slice_subrange(self.bytes.as_slice(), 0, self.used_words * 2)
    }

    /// The bytes of the words of a range, both ends included.
    pub fn get_range(&self, r: &AddrRange) -> (bytes: &[u8])
        ensures
            bytes@ == self@.range_bytes(*r),
            bytes@.len() <= MAX_BYTES,
            bytes@.len() % 2 == 0,
    {
        proof {
            use_type_invariant(self);
            use_type_invariant(r);
        }
        let s = r.start();
        let e = match r.1 {
            Some(e) => e.as_usize(),
            None => if s + 1 > self.used_words {
                MAX_ADDR as usize
            } else {
                self.used_words - 1
            },
        };
        slice_subrange(self.bytes.as_slice(), s * 2, (e + 1) * 2)
    }

    /// Reads the instruction under the cursor and leaves the cursor behind
    /// the last word read.
    pub fn fetch_op(&mut self) -> (r: Result<OpCode, Error>)
        ensures
            (r, final(self)@) == old(self)@.fetch_op(),
    {
        let instr = self.next_instr()?;
        let op_code = match instr {
            0u16 => OpCode::Halt,
            1u16 => {
                let (reg, val) = self.next_reg_val()?;
                OpCode::SetReg { reg, val }
            },
            2u16 => OpCode::Push { val: self.next_val()? },
            3u16 => OpCode::Pop { reg: self.next_reg()? },
            4u16 => {
                let (reg, val1, val2) = self.next_reg_val_val()?;
                OpCode::Eq { reg, val1, val2 }
            },
            5u16 => {
                let (reg, val1, val2) = self.next_reg_val_val()?;
                OpCode::Gt { reg, val1, val2 }
            },
            6u16 => OpCode::Jmp { addr: self.next_val()? },
            7u16 => {
                let (cond, addr) = self.next_val_val()?;
                OpCode::Jt { cond, addr }
            },
            8u16 => {
                let (cond, addr) = self.next_val_val()?;
                OpCode::Jf { cond, addr }
            },
            9u16 => {
                let (reg, val1, val2) = self.next_reg_val_val()?;
                OpCode::Add { reg, val1, val2 }
            },
            10u16 => {
                let (reg, val1, val2) = self.next_reg_val_val()?;
                OpCode::Mult { reg, val1, val2 }
            },
            11u16 => {
                let (reg, val1, val2) = self.next_reg_val_val()?;
                OpCode::Mod { reg, val1, val2 }
            },
            12u16 => {
                let (reg, val1, val2) = self.next_reg_val_val()?;
                OpCode::And { reg, val1, val2 }
            },
            13u16 => {
                let (reg, val1, val2) = self.next_reg_val_val()?;
                OpCode::Or { reg, val1, val2 }
            },
            14u16 => {
                let (reg, val) = self.next_reg_val()?;
                OpCode::Not { reg, val }
            },
            15u16 => {
                let (reg, addr) = self.next_reg_val()?;
                OpCode::Rmem { reg, addr }
            },
            16u16 => {
                let (addr, val) = self.next_val_val()?;
                OpCode::Wmem { addr, val }
            },
            17u16 => OpCode::Call { addr: self.next_val()? },
            18u16 => OpCode::Ret,
            19u16 => OpCode::Out { c: self.next_val()? },
            20u16 => OpCode::In { reg: self.next_reg()? },
            21u16 => OpCode::Noop,
            u => {
                return Err(Error::InvalidOpCode(u));
            },
        };
        Ok(op_code)
    }

    /// Reads the instruction under the cursor and puts the cursor back where
    /// it was, whether or not the read succeeded.
    pub fn peek_op(&mut self) -> (r: Result<OpCode, Error>)
        ensures
            r == old(self)@.fetch_op().0,
            final(self)@ == old(self)@,
    {
        let saved = self.cursor;
        let r = self.fetch_op();
        proof {
            use_type_invariant(&*self);
            lemma_fetch_keeps_contents(old(self)@);
        }
        self.cursor = saved;
        r
    }
}

/// A fetch moves the cursor and changes nothing else.
pub proof fn lemma_fetch_keeps_contents(m: MemoryView)
    ensures
        m.fetch_op().1.bytes == m.bytes,
        m.fetch_op().1.used_words == m.used_words,
{
}

/// A fetch that succeeds moves the cursor forward, by a word at least, and
/// never past the end of memory.
pub proof fn lemma_fetch_advances(m: MemoryView)
    requires
        m.wf(),
    ensures
        m.fetch_op().1.wf(),
        m.fetch_op().0 is Ok ==> m.cursor + 2 <= m.fetch_op().1.cursor,
        m.cursor <= m.fetch_op().1.cursor,
{
}

pub broadcast group group_value_types {
    lemma_addr_at,
    lemma_addr_view,
    lemma_register_nth,
    lemma_register_index,
    lemma_range_between,
    lemma_register_set_len,
}

/// Wherever a memory has an instruction pointer, it is at most `MAX_ADDR`
/// and the cursor stands on the first byte of its word. It has one unless
/// the cursor has passed the last word.
pub proof fn lemma_instruction_pointer_in_range(m: MemoryView)
    requires
        m.wf(),
    ensures
        m.ip() matches Some(a) ==> 0 <= a@ <= MAX_ADDR && m.cursor == 2 * a@,
        m.ip() is None <==> m.cursor == MAX_BYTES,
{
    broadcast use group_value_types;

}

/// A program image of even length that fits into memory makes a well-formed
/// memory.
pub proof fn lemma_image_is_wf(rom: Seq<u8>)
    requires
        rom.len() <= MAX_BYTES,
        rom.len() % 2 == 0,
    ensures
        image_of(rom).wf(),
{
}

/// Moving the cursor and storing a word keep memory well formed.
pub proof fn lemma_memory_stays_wf(m: MemoryView, addr: Addr, val: u16)
    requires
        m.wf(),
        0 <= addr@ <= MAX_ADDR,
    ensures
        m.moved_to(addr).wf(),
        m.with_word(addr, val).wf(),
{
    crate::wire::lemma_store_word(m.bytes, 2 * addr@, val);
}

/// The range that leaves both ends open takes in the used words, or all of
/// memory where none is in use.
pub proof fn lemma_open_range(m: MemoryView)
    requires
        m.wf(),
    ensures
        m.range_bytes(AddrRange::between(None, None)) == if m.used_words > 0 {
            m.used_image()
        } else {
            m.bytes
        },
{
    broadcast use group_value_types;

    assert(m.bytes.subrange(0, MAX_BYTES as int) =~= m.bytes);
}

} // verus!
