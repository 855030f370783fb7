//! The bytecode format: values, instructions and whole programs to and from
//! bytes, big-endian throughout.

use crate::isa::{Binop, Instr, Unop, Val};
use crate::ParseError;
use byteorder::{BigEndian, ByteOrder};
use vstd::prelude::*;
use vstd::string::StringExecFns;

verus! {

/// The four big-endian bytes of a 32-bit word.
pub open spec fn be_bytes(n: u32) -> Seq<u8> {
    seq![
        ((n >> 24u32) & 0xffu32) as u8,
        ((n >> 16u32) & 0xffu32) as u8,
        ((n >> 8u32) & 0xffu32) as u8,
        (n & 0xffu32) as u8,
    ]
}

/// The 32-bit word whose big-endian bytes are `a b c d`.
pub open spec fn be_word(a: u8, b: u8, c: u8, d: u8) -> u32 {
    ((a as u32) << 24u32) | ((b as u32) << 16u32) | ((c as u32) << 8u32) | (d as u32)
}

/// The word at the front of `s`, if `s` holds four bytes or more.
pub open spec fn word_parse(s: Seq<u8>) -> Option<u32> {
    if s.len() >= 4 {
        Some(be_word(s[0], s[1], s[2], s[3]))
    } else {
        None
    }
}

pub proof fn lemma_be_word_bytes(n: u32)
    ensures
        be_word(be_bytes(n)[0], be_bytes(n)[1], be_bytes(n)[2], be_bytes(n)[3]) == n,
{
    let a = ((n >> 24u32) & 0xffu32) as u8;
    let b = ((n >> 16u32) & 0xffu32) as u8;
    let c = ((n >> 8u32) & 0xffu32) as u8;
    let d = (n & 0xffu32) as u8;
    assert(((a as u32) << 24u32) | ((b as u32) << 16u32) | ((c as u32) << 8u32) | (d as u32) == n)
        by (bit_vector)
        requires
            a == ((n >> 24u32) & 0xffu32) as u8,
            b == ((n >> 16u32) & 0xffu32) as u8,
            c == ((n >> 8u32) & 0xffu32) as u8,
            d == (n & 0xffu32) as u8,
    ;
}

pub proof fn lemma_i32_word(i: i32)
    ensures
        (i as u32) as i32 == i,
{
    assert((i as u32) as i32 == i) by (bit_vector);
}

/// Relies on byteorder's `BigEndian::write_u32`: it stores `n` most significant byte first.
#[verifier::external_body]
fn write_be_u32(n: u32) -> (r: Vec<u8>)
    ensures
        r@ == be_bytes(n),
{
    let mut v = vec![0u8; 4];
    BigEndian::write_u32(&mut v, n);
    v
}

/// Relies on byteorder's `BigEndian::write_i32`: it stores `n as u32` most significant byte first.
#[verifier::external_body]
fn write_be_i32(n: i32) -> (r: Vec<u8>)
    ensures
        r@ == be_bytes(n as u32),
{
    let mut v = vec![0u8; 4];
    BigEndian::write_i32(&mut v, n);
    v
}

/// Relies on byteorder's `BigEndian::read_u32`: the word whose bytes, most significant
/// first, are the four of `b`.
#[verifier::external_body]
fn read_be_u32(b: &[u8]) -> (r: u32)
    requires
        b@.len() == 4,
    ensures
        r == be_word(b@[0], b@[1], b@[2], b@[3]),
{
    BigEndian::read_u32(b)
}

/// Relies on byteorder's `BigEndian::read_i32`: `read_u32` of the same bytes, cast to `i32`.
#[verifier::external_body]
fn read_be_i32(b: &[u8]) -> (r: i32)
    requires
        b@.len() == 4,
    ensures
        r == be_word(b@[0], b@[1], b@[2], b@[3]) as i32,
{
    BigEndian::read_i32(b)
}

/// The character of a decimal digit.
pub open spec fn digit_char(d: nat) -> char {
    if d == 0 {
        '0'
    } else if d == 1 {
        '1'
    } else if d == 2 {
        '2'
    } else if d == 3 {
        '3'
    } else if d == 4 {
        '4'
    } else if d == 5 {
        '5'
    } else if d == 6 {
        '6'
    } else if d == 7 {
        '7'
    } else if d == 8 {
        '8'
    } else {
        '9'
    }
}

/// A number written in decimal, without leading zeros.
pub open spec fn decimal(n: nat) -> Seq<char>
    decreases n,
{
    if n < 10 {
        seq![digit_char(n)]
    } else {
        decimal(n / 10).push(digit_char(n % 10))
    }
}

/// The message for input that ends before a field is complete.
pub open spec fn short_text() -> Seq<char> {
    "not enough bytes"@
}

fn digit_text(d: u8) -> (r: &'static str)
    requires
        d < 10,
    ensures
        r@ == seq![digit_char(d as nat)],
{
    proof {
        reveal_strlit("0");
        reveal_strlit("1");
        reveal_strlit("2");
        reveal_strlit("3");
        reveal_strlit("4");
        reveal_strlit("5");
        reveal_strlit("6");
        reveal_strlit("7");
        reveal_strlit("8");
        reveal_strlit("9");
    }
    match d {
        0 => "0",
        1 => "1",
        2 => "2",
        3 => "3",
        4 => "4",
        5 => "5",
        6 => "6",
        7 => "7",
        8 => "8",
        _ => "9",
    }
}

/// A byte written in decimal.
fn decimal_text(n: u8) -> (r: String)
    ensures
        r@ == decimal(n as nat),
{
    if n < 10 {
        String::from_str(digit_text(n))
    } else if n < 100 {
        let r = String::from_str(digit_text(n / 10)).concat(digit_text(n % 10));
        proof {
            assert(decimal((n / 10) as nat) == seq![digit_char((n / 10) as nat)]);
            assert(r@ =~= decimal(n as nat));
        }
        r
    } else {
        let r = String::from_str(digit_text(n / 100)).concat(digit_text(n / 10 % 10)).concat(
            digit_text(n % 10),
        );
        proof {
            let m = (n / 10) as nat;
            assert(m / 10 == n / 100 && m % 10 == n / 10 % 10);
            assert(decimal(m / 10) == seq![digit_char(m / 10)]);
            assert(decimal(m) == decimal(m / 10).push(digit_char(m % 10)));
            assert(r@ =~= decimal(n as nat));
        }
        r
    }
}

/// An error naming an unknown code: `prefix`, then the code in decimal.
fn unknown_code(prefix: &str, code: u8) -> (r: ParseError)
    ensures
        r.0@ == prefix@ + decimal(code as nat),
{
    let digits = decimal_text(code);
    ParseError(String::from_str(prefix).concat(digits.as_str()))
}

fn not_enough_bytes() -> (r: ParseError)
    ensures
        r.0@ == short_text(),
{
    ParseError(String::from_str("not enough bytes"))
}

/// Types with a binary encoding.
pub trait ToBytes {
    /// Whether the value has an encoding at all.
    spec fn encodable(&self) -> bool;

    /// The encoding of the value.
    spec fn bytes_of(&self) -> Seq<u8>;

    fn to_bytes(&self) -> (r: Vec<u8>)
        requires
            self.encodable(),
        ensures
            r@ == self.bytes_of(),
    ;
}

/// Types that can be read from the front of a byte sequence.
pub trait FromBytes: Sized {
    /// The value at the front of `s` and the number of bytes it takes, or `None`
    /// where `s` does not start with an encoding.
    spec fn parse(s: Seq<u8>) -> Option<(Self, int)>;

    /// What a failure to read from the front of `s` reports.
    spec fn error_text(s: Seq<u8>) -> Seq<char>;

    /// Read a value starting at `pos`; on success also the position just past it.
    fn from_bytes(b: &[u8], pos: usize) -> (r: Result<(Self, usize), ParseError>)
        requires
            pos <= b@.len(),
        ensures
            match r {
                Ok((v, end)) => pos <= end <= b@.len() && Self::parse(b@.skip(pos as int)) == Some(
                    (v, end - pos),
                ),
                Err(e) => Self::parse(b@.skip(pos as int)) is None && e.0@ == Self::error_text(
                    b@.skip(pos as int),
                ),
            },
    ;
}

/// Code of a binary operator.
pub open spec fn binop_code(b: Binop) -> u8 {
    match b {
        Binop::Add => 0,
        Binop::Mul => 1,
        Binop::Sub => 2,
        Binop::Div => 3,
        Binop::Lt => 4,
        Binop::Eq => 5,
    }
}

/// The binary operator with a code, if any.
pub open spec fn binop_of_code(c: u8) -> Option<Binop> {
    if c == 0 {
        Some(Binop::Add)
    } else if c == 1 {
        Some(Binop::Mul)
    } else if c == 2 {
        Some(Binop::Sub)
    } else if c == 3 {
        Some(Binop::Div)
    } else if c == 4 {
        Some(Binop::Lt)
    } else if c == 5 {
        Some(Binop::Eq)
    } else {
        None
    }
}

/// Encoding of a value: a tag byte, then four bytes for an integer or a location.
pub open spec fn val_bytes(v: Val) -> Seq<u8> {
    match v {
        Val::Vunit => seq![0u8],
        Val::Vi32(i) => seq![1u8] + be_bytes(i as u32),
        Val::Vbool(b) => if b {
            seq![2u8]
        } else {
            seq![3u8]
        },
        Val::Vloc(l) => seq![4u8] + be_bytes(l),
        Val::Vundef => seq![5u8],
        _ => Seq::empty(),
    }
}

/// Encoding of an instruction: an opcode byte, then its operand's encoding.
pub open spec fn instr_bytes(i: Instr) -> Seq<u8> {
    match i {
        Instr::Push(v) => seq![0u8] + val_bytes(v),
        Instr::Pop => seq![1u8],
        Instr::Peek(n) => seq![2u8] + be_bytes(n),
        Instr::Unary(_) => seq![3u8, 0u8],
        Instr::Binary(b) => seq![4u8, binop_code(b)],
        Instr::Swap => seq![5u8],
        Instr::Alloc => seq![6u8],
        Instr::SetElem => seq![7u8],
        Instr::Get => seq![8u8],
        Instr::Var(n) => seq![9u8] + be_bytes(n),
        Instr::Store(n) => seq![10u8] + be_bytes(n),
        Instr::SetFrame(n) => seq![11u8] + be_bytes(n),
        Instr::Call => seq![12u8],
        Instr::Ret => seq![13u8],
        Instr::Branch => seq![14u8],
        Instr::Halt => seq![15u8],
    }
}

/// The unary operator at the front of `s`.
pub open spec fn unop_parse(s: Seq<u8>) -> Option<(Unop, int)> {
    if s.len() >= 1 && s[0] == 0 {
        Some((Unop::Neg, 1))
    } else {
        None
    }
}

/// The binary operator at the front of `s`.
pub open spec fn binop_parse(s: Seq<u8>) -> Option<(Binop, int)> {
    if s.len() >= 1 {
        match binop_of_code(s[0]) {
            Some(b) => Some((b, 1)),
            None => None,
        }
    } else {
        None
    }
}

/// The value at the front of `s`.
pub open spec fn val_parse(s: Seq<u8>) -> Option<(Val, int)> {
    if s.len() == 0 {
        None
    } else if s[0] == 0 {
        Some((Val::Vunit, 1))
    } else if s[0] == 1 {
        match word_parse(s.skip(1)) {
            Some(w) => Some((Val::Vi32(w as i32), 5)),
            None => None,
        }
    } else if s[0] == 2 {
        Some((Val::Vbool(true), 1))
    } else if s[0] == 3 {
        Some((Val::Vbool(false), 1))
    } else if s[0] == 4 {
        match word_parse(s.skip(1)) {
            Some(w) => Some((Val::Vloc(w), 5)),
            None => None,
        }
    } else if s[0] == 5 {
        Some((Val::Vundef, 1))
    } else {
        None
    }
}

/// An instruction whose operand is a word, read after the opcode byte.
pub open spec fn word_operand(s: Seq<u8>) -> Option<(u32, int)> {
    match word_parse(s.skip(1)) {
        Some(w) => Some((w, 5)),
        None => None,
    }
}

/// The instruction at the front of `s`.
pub open spec fn instr_parse(s: Seq<u8>) -> Option<(Instr, int)> {
    if s.len() == 0 {
        None
    } else {
        let c = s[0];
        if c == 0 {
            match val_parse(s.skip(1)) {
                Some((v, k)) => Some((Instr::Push(v), k + 1)),
                None => None,
            }
        } else if c == 1 {
            Some((Instr::Pop, 1))
        } else if c == 2 {
            match word_operand(s) {
                Some((w, k)) => Some((Instr::Peek(w), k)),
                None => None,
            }
        } else if c == 3 {
            match unop_parse(s.skip(1)) {
                Some((u, k)) => Some((Instr::Unary(u), k + 1)),
                None => None,
            }
        } else if c == 4 {
            match binop_parse(s.skip(1)) {
                Some((b, k)) => Some((Instr::Binary(b), k + 1)),
                None => None,
            }
        } else if c == 5 {
            Some((Instr::Swap, 1))
        } else if c == 6 {
            Some((Instr::Alloc, 1))
        } else if c == 7 {
            Some((Instr::SetElem, 1))
        } else if c == 8 {
            Some((Instr::Get, 1))
        } else if c == 9 {
            match word_operand(s) {
                Some((w, k)) => Some((Instr::Var(w), k)),
                None => None,
            }
        } else if c == 10 {
            match word_operand(s) {
                Some((w, k)) => Some((Instr::Store(w), k)),
                None => None,
            }
        } else if c == 11 {
            match word_operand(s) {
                Some((w, k)) => Some((Instr::SetFrame(w), k)),
                None => None,
            }
        } else if c == 12 {
            Some((Instr::Call, 1))
        } else if c == 13 {
            Some((Instr::Ret, 1))
        } else if c == 14 {
            Some((Instr::Branch, 1))
        } else if c == 15 {
            Some((Instr::Halt, 1))
        } else {
            None
        }
    }
}

/// What a failure to read a unary operator reports.
pub open spec fn unop_error(s: Seq<u8>) -> Seq<char> {
    if s.len() == 0 {
        short_text()
    } else {
        "unknown unop code: "@ + decimal(s[0] as nat)
    }
}

/// What a failure to read a binary operator reports.
pub open spec fn binop_error(s: Seq<u8>) -> Seq<char> {
    if s.len() == 0 {
        short_text()
    } else {
        "unknown binop code: "@ + decimal(s[0] as nat)
    }
}

/// What a failure to read a value reports: a missing tag or operand, or an
/// unknown tag.
pub open spec fn val_error(s: Seq<u8>) -> Seq<char> {
    if s.len() == 0 || s[0] == 1 || s[0] == 4 {
        short_text()
    } else {
        "unknown val code: "@ + decimal(s[0] as nat)
    }
}

/// What a failure to read an instruction reports: the failure of its operand,
/// a missing opcode or word, or an unknown opcode.
pub open spec fn instr_error(s: Seq<u8>) -> Seq<char> {
    if s.len() == 0 {
        short_text()
    } else if s[0] == 0 {
        val_error(s.skip(1))
    } else if s[0] == 3 {
        unop_error(s.skip(1))
    } else if s[0] == 4 {
        binop_error(s.skip(1))
    } else if s[0] > 15 {
        "unknown instr code: "@ + decimal(s[0] as nat)
    } else {
        short_text()
    }
}

impl ToBytes for u32 {
    open spec fn encodable(&self) -> bool {
        true
    }

    open spec fn bytes_of(&self) -> Seq<u8> {
        be_bytes(*self)
    }

    fn to_bytes(&self) -> (r: Vec<u8>) {
        write_be_u32(*self)
    }
}

impl ToBytes for i32 {
    open spec fn encodable(&self) -> bool {
        true
    }

    open spec fn bytes_of(&self) -> Seq<u8> {
        be_bytes(*self as u32)
    }

    fn to_bytes(&self) -> (r: Vec<u8>) {
        write_be_i32(*self)
    }
}

impl ToBytes for Unop {
    open spec fn encodable(&self) -> bool {
        true
    }

    open spec fn bytes_of(&self) -> Seq<u8> {
        seq![0u8]
    }

    fn to_bytes(&self) -> (r: Vec<u8>) {
        match self {
            Unop::Neg => vec![0u8],
        }
    }
}

impl ToBytes for Binop {
    open spec fn encodable(&self) -> bool {
        true
    }

    open spec fn bytes_of(&self) -> Seq<u8> {
        seq![binop_code(*self)]
    }

    fn to_bytes(&self) -> (r: Vec<u8>) {
        match self {
            Binop::Add => vec![0u8],
            Binop::Mul => vec![1u8],
            Binop::Sub => vec![2u8],
            Binop::Div => vec![3u8],
            Binop::Lt => vec![4u8],
            Binop::Eq => vec![5u8],
        }
    }
}

impl ToBytes for Val {
    /// The heap-internal kinds never occur in a program and have no encoding.
    open spec fn encodable(&self) -> bool {
        self.is_program_value()
    }

    open spec fn bytes_of(&self) -> Seq<u8> {
        val_bytes(*self)
    }

    fn to_bytes(&self) -> (r: Vec<u8>) {
        match self {
            Val::Vunit => vec![0u8],
            Val::Vi32(i) => {
                let mut bs = vec![1u8];
                let mut w = i.to_bytes();
                bs.append(&mut w);
                bs
            },
            Val::Vbool(b) => {
                if *b {
                    vec![2u8]
                } else {
                    vec![3u8]
                }
            },
            Val::Vloc(l) => {
                let mut bs = vec![4u8];
                let mut w = l.to_bytes();
                bs.append(&mut w);
                bs
            },
            Val::Vundef => vec![5u8],
            _ => Vec::new(),
        }
    }
}

/// An opcode byte followed by the encoding of a word.
fn with_word(op: u8, n: u32) -> (r: Vec<u8>)
    ensures
        r@ == seq![op] + be_bytes(n),
{
    let mut bs = vec![op];
    let mut w = n.to_bytes();
    bs.append(&mut w);
    bs
}

impl ToBytes for Instr {
    open spec fn encodable(&self) -> bool {
        self.well_formed()
    }

    open spec fn bytes_of(&self) -> Seq<u8> {
        instr_bytes(*self)
    }

    fn to_bytes(&self) -> (r: Vec<u8>) {
        match self {
            Instr::Push(v) => {
                let mut bs = vec![0u8];
                let mut w = v.to_bytes();
                bs.append(&mut w);
                bs
            },
            Instr::Pop => vec![1u8],
            Instr::Peek(n) => with_word(2u8, *n),
            Instr::Unary(u) => {
                let mut bs = vec![3u8];
                let mut w = u.to_bytes();
                bs.append(&mut w);
                bs
            },
            Instr::Binary(b) => {
                let mut bs = vec![4u8];
                let mut w = b.to_bytes();
                bs.append(&mut w);
                bs
            },
            Instr::Swap => vec![5u8],
            Instr::Alloc => vec![6u8],
            Instr::SetElem => vec![7u8],
            Instr::Get => vec![8u8],
            Instr::Var(n) => with_word(9u8, *n),
            Instr::Store(n) => with_word(10u8, *n),
            Instr::SetFrame(n) => with_word(11u8, *n),
            Instr::Call => vec![12u8],
            Instr::Ret => vec![13u8],
            Instr::Branch => vec![14u8],
            Instr::Halt => vec![15u8],
        }
    }
}

impl FromBytes for u32 {
    open spec fn parse(s: Seq<u8>) -> Option<(u32, int)> {
        match word_parse(s) {
            Some(w) => Some((w, 4)),
            None => None,
        }
    }

    open spec fn error_text(s: Seq<u8>) -> Seq<char> {
        short_text()
    }

    fn from_bytes(b: &[u8], pos: usize) -> (r: Result<(u32, usize), ParseError>) {
        if b.len() - pos >= 4 {
            let w: Vec<u8> = vec![b[pos], b[pos + 1], b[pos + 2], b[pos + 3]];
            let n = read_be_u32(w.as_slice());
            Ok((n, pos + 4))
        } else {
            Err(not_enough_bytes())
        }
    }
}

impl FromBytes for i32 {
    open spec fn parse(s: Seq<u8>) -> Option<(i32, int)> {
        match word_parse(s) {
            Some(w) => Some((w as i32, 4)),
            None => None,
        }
    }

    open spec fn error_text(s: Seq<u8>) -> Seq<char> {
        short_text()
    }

    fn from_bytes(b: &[u8], pos: usize) -> (r: Result<(i32, usize), ParseError>) {
        if b.len() - pos >= 4 {
            let w: Vec<u8> = vec![b[pos], b[pos + 1], b[pos + 2], b[pos + 3]];
            let n = read_be_i32(w.as_slice());
            Ok((n, pos + 4))
        } else {
            Err(not_enough_bytes())
        }
    }
}

impl FromBytes for Unop {
    open spec fn parse(s: Seq<u8>) -> Option<(Unop, int)> {
        unop_parse(s)
    }

    open spec fn error_text(s: Seq<u8>) -> Seq<char> {
        unop_error(s)
    }

    fn from_bytes(b: &[u8], pos: usize) -> (r: Result<(Unop, usize), ParseError>) {
        if pos >= b.len() {
            return Err(not_enough_bytes());
        }
        let c = b[pos];
        if c == 0 {
            Ok((Unop::Neg, pos + 1))
        } else {
            Err(unknown_code("unknown unop code: ", c))
        }
    }
}

impl FromBytes for Binop {
    open spec fn parse(s: Seq<u8>) -> Option<(Binop, int)> {
        binop_parse(s)
    }

    open spec fn error_text(s: Seq<u8>) -> Seq<char> {
        binop_error(s)
    }

    fn from_bytes(b: &[u8], pos: usize) -> (r: Result<(Binop, usize), ParseError>) {
        if pos >= b.len() {
            return Err(not_enough_bytes());
        }
        let c = b[pos];
        let op = match c {
            0 => Binop::Add,
            1 => Binop::Mul,
            2 => Binop::Sub,
            3 => Binop::Div,
            4 => Binop::Lt,
            5 => Binop::Eq,
            _ => {
                return Err(unknown_code("unknown binop code: ", c));
            },
        };
        Ok((op, pos + 1))
    }
}

impl FromBytes for Val {
    open spec fn parse(s: Seq<u8>) -> Option<(Val, int)> {
        val_parse(s)
    }

    open spec fn error_text(s: Seq<u8>) -> Seq<char> {
        val_error(s)
    }

    fn from_bytes(b: &[u8], pos: usize) -> (r: Result<(Val, usize), ParseError>) {
        if pos >= b.len() {
            return Err(not_enough_bytes());
        }
        let c = b[pos];
        let next = pos + 1;
        proof {
            assert(b@.skip(pos as int).skip(1) =~= b@.skip(next as int));
        }
        match c {
            0 => Ok((Val::Vunit, next)),
            1 => match i32::from_bytes(b, next) {
                Ok((i, end)) => Ok((Val::Vi32(i), end)),
                Err(e) => Err(e),
            },
            2 => Ok((Val::Vbool(true), next)),
            3 => Ok((Val::Vbool(false), next)),
            4 => match u32::from_bytes(b, next) {
                Ok((l, end)) => Ok((Val::Vloc(l), end)),
                Err(e) => Err(e),
            },
            5 => Ok((Val::Vundef, next)),
            _ => Err(unknown_code("unknown val code: ", c)),
        }
    }
}

/// Read the word operand of an instruction whose opcode byte is at `pos - 1`.
fn word_after(b: &[u8], pos: usize) -> (r: Result<(u32, usize), ParseError>)
    requires
        1 <= pos <= b@.len(),
    ensures
        match r {
            Ok((w, end)) => pos <= end <= b@.len() && end == pos + 4 && word_operand(
                b@.skip(pos - 1),
            ) == Some((w, 5int)),
            Err(e) => word_operand(b@.skip(pos - 1)) is None && e.0@ == short_text(),
        },
{
    proof {
        assert(b@.skip(pos - 1).skip(1) =~= b@.skip(pos as int));
    }
    u32::from_bytes(b, pos)
}

impl FromBytes for Instr {
    open spec fn parse(s: Seq<u8>) -> Option<(Instr, int)> {
        instr_parse(s)
    }

    open spec fn error_text(s: Seq<u8>) -> Seq<char> {
        instr_error(s)
    }

    fn from_bytes(b: &[u8], pos: usize) -> (r: Result<(Instr, usize), ParseError>) {
        if pos >= b.len() {
            return Err(not_enough_bytes());
        }
        let c = b[pos];
        let next = pos + 1;
        proof {
            assert(b@.skip(pos as int).skip(1) =~= b@.skip(next as int));
            assert(b@.skip(next - 1) =~= b@.skip(pos as int));
        }
        match c {
            0 => match Val::from_bytes(b, next) {
                Ok((v, end)) => Ok((Instr::Push(v), end)),
                Err(e) => Err(e),
            },
            1 => Ok((Instr::Pop, next)),
            2 => match word_after(b, next) {
                Ok((w, end)) => Ok((Instr::Peek(w), end)),
                Err(e) => Err(e),
            },
            3 => match Unop::from_bytes(b, next) {
                Ok((u, end)) => Ok((Instr::Unary(u), end)),
                Err(e) => Err(e),
            },
            4 => match Binop::from_bytes(b, next) {
                Ok((o, end)) => Ok((Instr::Binary(o), end)),
                Err(e) => Err(e),
            },
            5 => Ok((Instr::Swap, next)),
            6 => Ok((Instr::Alloc, next)),
            7 => Ok((Instr::SetElem, next)),
            8 => Ok((Instr::Get, next)),
            9 => match word_after(b, next) {
                Ok((w, end)) => Ok((Instr::Var(w), end)),
                Err(e) => Err(e),
            },
            10 => match word_after(b, next) {
                Ok((w, end)) => Ok((Instr::Store(w), end)),
                Err(e) => Err(e),
            },
            11 => match word_after(b, next) {
                Ok((w, end)) => Ok((Instr::SetFrame(w), end)),
                Err(e) => Err(e),
            },
            12 => Ok((Instr::Call, next)),
            13 => Ok((Instr::Ret, next)),
            14 => Ok((Instr::Branch, next)),
            15 => Ok((Instr::Halt, next)),
            _ => Err(unknown_code("unknown instr code: ", c)),
        }
    }
}

/// A program that can be written out: every value in it may occur in a
/// program, and its length fits the count word.
pub open spec fn encodable_program(p: Seq<Instr>) -> bool {
    &&& p.len() <= u32::MAX
    &&& forall|k: int| 0 <= k < p.len() ==> (#[trigger] p[k]).well_formed()
}

/// The encodings of the instructions of `p`, one after another.
pub open spec fn instrs_bytes(p: Seq<Instr>) -> Seq<u8>
    decreases p.len(),
{
    if p.len() == 0 {
        Seq::empty()
    } else {
        instrs_bytes(p.drop_last()) + instr_bytes(p.last())
    }
}

/// Encoding of a program: the instruction count as a word, then the instructions.
pub open spec fn program_bytes(p: Seq<Instr>) -> Seq<u8> {
    be_bytes(p.len() as u32) + instrs_bytes(p)
}

/// `n` instructions read one after another from the front of `s`, with the
/// number of bytes they take.
pub open spec fn instrs_parse(s: Seq<u8>, n: nat) -> Option<(Seq<Instr>, int)>
    decreases n,
{
    if n == 0 {
        Some((Seq::empty(), 0))
    } else {
        match instr_parse(s) {
            None => None,
            Some((i, k)) => match instrs_parse(s.skip(k), (n - 1) as nat) {
                None => None,
                Some((rest, m)) => Some((seq![i] + rest, k + m)),
            },
        }
    }
}

/// The program that `s` decodes to: a count word, then that many
/// instructions; bytes after the last instruction are not read.
pub open spec fn program_parse(s: Seq<u8>) -> Option<Seq<Instr>> {
    match word_parse(s) {
        None => None,
        Some(n) => match instrs_parse(s.skip(4), n as nat) {
            Some((p, _)) => Some(p),
            None => None,
        },
    }
}

/// What a failure to read `n` instructions from the front of `s` reports:
/// the failure of the first one that cannot be read.
pub open spec fn instrs_error(s: Seq<u8>, n: nat) -> Seq<char>
    decreases n,
{
    if n == 0 {
        Seq::empty()
    } else {
        match instr_parse(s) {
            None => instr_error(s),
            Some((_, k)) => instrs_error(s.skip(k), (n - 1) as nat),
        }
    }
}

/// What a failure to decode a program reports.
pub open spec fn program_error(s: Seq<u8>) -> Seq<char> {
    match word_parse(s) {
        None => short_text(),
        Some(n) => instrs_error(s.skip(4), n as nat),
    }
}

/// `pre` read already, `off` bytes into the stream, then what `r` reads.
pub open spec fn after(pre: Seq<Instr>, off: int, r: Option<(Seq<Instr>, int)>) -> Option<
    (Seq<Instr>, int),
> {
    match r {
        Some((rest, m)) => Some((pre + rest, off + m)),
        None => None,
    }
}

/// Encode a whole program.
pub fn encode_program(p: &[Instr]) -> (r: Vec<u8>)
    requires
        encodable_program(p@),
    ensures
        r@ == program_bytes(p@),
{
    let mut out = (p.len() as u32).to_bytes();
    let mut i: usize = 0;
    while i < p.len()
        invariant
            encodable_program(p@),
            i <= p@.len(),
            out@ == be_bytes(p@.len() as u32) + instrs_bytes(p@.take(i as int)),
        decreases p@.len() - i,
    {
        let mut w = p[i].to_bytes();
        proof {
            assert(p@.take(i + 1).drop_last() =~= p@.take(i as int));
        }
        out.append(&mut w);
        i += 1;
        proof {
            assert(out@ =~= be_bytes(p@.len() as u32) + instrs_bytes(p@.take(i as int)));
        }
    }
    proof {
        assert(p@.take(i as int) =~= p@);
    }
    out
}

/// Decode a whole program.
pub fn decode_program(b: &[u8]) -> (r: Result<Vec<Instr>, ParseError>)
    ensures
        match r {
            Ok(p) => program_parse(b@) == Some(p@),
            Err(e) => program_parse(b@) is None && e.0@ == program_error(b@),
        },
{
    let (n, mut pos) = match u32::from_bytes(b, 0) {
        Ok(x) => x,
        Err(e) => {
            proof {
                assert(b@.skip(0) =~= b@);
            }
            return Err(e);
        },
    };
    proof {
        assert(b@.skip(0) =~= b@);
        assert(instrs_parse(b@.skip(4), n as nat) == after(
            Seq::empty(),
            0,
            instrs_parse(b@.skip(4), n as nat),
        )) by {
            match instrs_parse(b@.skip(4), n as nat) {
                Some((rest, m)) => {
                    assert(Seq::<Instr>::empty() + rest =~= rest);
                },
                None => {},
            }
        }
    }
    let mut v: Vec<Instr> = Vec::new();
    let mut i: u32 = 0;
    while i < n
        invariant
            word_parse(b@) == Some(n),
            4 <= pos <= b@.len(),
            i <= n,
            instrs_parse(b@.skip(4), n as nat) == after(
                v@,
                pos - 4,
                instrs_parse(b@.skip(pos as int), (n - i) as nat),
            ),
            instrs_error(b@.skip(4), n as nat) == instrs_error(b@.skip(pos as int), (n - i) as nat),
        decreases n - i,
    {
        let ghost old_v = v@;
        let ghost old_pos = pos as int;
        let ghost rem = (n - i) as nat;
        match Instr::from_bytes(b, pos) {
            Ok((x, end)) => {
                proof {
                    let k = end - old_pos;
                    assert(b@.skip(old_pos).skip(k) =~= b@.skip(end as int));
                    match instrs_parse(b@.skip(end as int), (rem - 1) as nat) {
                        Some((rest, m)) => {
                            assert(old_v + (seq![x] + rest) =~= old_v.push(x) + rest);
                        },
                        None => {},
                    }
                }
                v.push(x);
                pos = end;
            },
            Err(e) => {
                return Err(e);
            },
        }
        i += 1;
    }
    proof {
        assert(v@ + Seq::<Instr>::empty() =~= v@);
    }
    Ok(v)
}

proof fn lemma_word_round(w: u32, rest: Seq<u8>)
    ensures
        word_parse(be_bytes(w) + rest) == Some(w),
{
    lemma_be_word_bytes(w);
    let s = be_bytes(w) + rest;
    assert(s[0] == be_bytes(w)[0] && s[1] == be_bytes(w)[1] && s[2] == be_bytes(w)[2] && s[3]
        == be_bytes(w)[3]);
}

proof fn lemma_word_truncated(w: u32, m: int)
    requires
        0 <= m < 4,
    ensures
        word_parse(be_bytes(w).take(m)) is None,
{
}

proof fn lemma_val_round(v: Val, rest: Seq<u8>)
    requires
        v.is_program_value(),
    ensures
        val_parse(val_bytes(v) + rest) == Some((v, val_bytes(v).len() as int)),
{
    let s = val_bytes(v) + rest;
    match v {
        Val::Vi32(i) => {
            assert(s.skip(1) =~= be_bytes(i as u32) + rest);
            lemma_word_round(i as u32, rest);
            lemma_i32_word(i);
        },
        Val::Vloc(l) => {
            assert(s.skip(1) =~= be_bytes(l) + rest);
            lemma_word_round(l, rest);
        },
        Val::Vbool(b) => {
            assert(s[0] == val_bytes(v)[0]);
        },
        _ => {
            assert(s[0] == val_bytes(v)[0]);
        },
    }
}

proof fn lemma_val_truncated(v: Val, m: int)
    requires
        v.is_program_value(),
        0 <= m < val_bytes(v).len(),
    ensures
        val_parse(val_bytes(v).take(m)) is None,
{
    let s = val_bytes(v).take(m);
    match v {
        Val::Vi32(i) => {
            if m > 0 {
                assert(s.skip(1) =~= be_bytes(i as u32).take(m - 1));
                lemma_word_truncated(i as u32, m - 1);
            }
        },
        Val::Vloc(l) => {
            if m > 0 {
                assert(s.skip(1) =~= be_bytes(l).take(m - 1));
                lemma_word_truncated(l, m - 1);
            }
        },
        _ => {},
    }
}

proof fn lemma_instr_round(i: Instr, rest: Seq<u8>)
    requires
        i.well_formed(),
    ensures
        instr_parse(instr_bytes(i) + rest) == Some((i, instr_bytes(i).len() as int)),
{
    let s = instr_bytes(i) + rest;
    assert(s[0] == instr_bytes(i)[0]);
    match i {
        Instr::Push(v) => {
            assert(s.skip(1) =~= val_bytes(v) + rest);
            lemma_val_round(v, rest);
        },
        Instr::Peek(n) => {
            assert(s.skip(1) =~= be_bytes(n) + rest);
            lemma_word_round(n, rest);
        },
        Instr::Var(n) => {
            assert(s.skip(1) =~= be_bytes(n) + rest);
            lemma_word_round(n, rest);
        },
        Instr::Store(n) => {
            assert(s.skip(1) =~= be_bytes(n) + rest);
            lemma_word_round(n, rest);
        },
        Instr::SetFrame(n) => {
            assert(s.skip(1) =~= be_bytes(n) + rest);
            lemma_word_round(n, rest);
        },
        Instr::Unary(u) => {
            assert(s.skip(1)[0] == s[1]);
        },
        Instr::Binary(b) => {
            assert(s.skip(1)[0] == s[1]);
        },
        _ => {},
    }
}

proof fn lemma_instr_truncated(i: Instr, m: int)
    requires
        i.well_formed(),
        0 <= m < instr_bytes(i).len(),
    ensures
        instr_parse(instr_bytes(i).take(m)) is None,
{
    let s = instr_bytes(i).take(m);
    if m > 0 {
        match i {
            Instr::Push(v) => {
                assert(s.skip(1) =~= val_bytes(v).take(m - 1));
                lemma_val_truncated(v, m - 1);
            },
            Instr::Peek(n) => {
                assert(s.skip(1) =~= be_bytes(n).take(m - 1));
                lemma_word_truncated(n, m - 1);
            },
            Instr::Var(n) => {
                assert(s.skip(1) =~= be_bytes(n).take(m - 1));
                lemma_word_truncated(n, m - 1);
            },
            Instr::Store(n) => {
                assert(s.skip(1) =~= be_bytes(n).take(m - 1));
                lemma_word_truncated(n, m - 1);
            },
            Instr::SetFrame(n) => {
                assert(s.skip(1) =~= be_bytes(n).take(m - 1));
                lemma_word_truncated(n, m - 1);
            },
            _ => {},
        }
    }
}

proof fn lemma_instrs_bytes_front(p: Seq<Instr>)
    requires
        p.len() > 0,
    ensures
        instrs_bytes(p) =~= instr_bytes(p[0]) + instrs_bytes(p.skip(1)),
    decreases p.len(),
{
    if p.len() == 1 {
        assert(p.drop_last() =~= Seq::<Instr>::empty());
        assert(p.skip(1) =~= Seq::<Instr>::empty());
    } else {
        lemma_instrs_bytes_front(p.drop_last());
        assert(p.skip(1).drop_last() =~= p.drop_last().skip(1));
        assert(p.drop_last()[0] == p[0]);
        assert(p.skip(1).last() == p.last());
    }
}

proof fn lemma_instrs_round(p: Seq<Instr>, rest: Seq<u8>)
    requires
        forall|k: int| 0 <= k < p.len() ==> (#[trigger] p[k]).well_formed(),
    ensures
        instrs_parse(instrs_bytes(p) + rest, p.len()) == Some((p, instrs_bytes(p).len() as int)),
    decreases p.len(),
{
    if p.len() == 0 {
        assert(Seq::<Instr>::empty() =~= p);
    } else {
        lemma_instrs_bytes_front(p);
        let first = instr_bytes(p[0]);
        let tail = instrs_bytes(p.skip(1));
        let s = instrs_bytes(p) + rest;
        assert(s =~= first + (tail + rest));
        assert(p[0].well_formed());
        lemma_instr_round(p[0], tail + rest);
        assert(s.skip(first.len() as int) =~= tail + rest);
        assert forall|k: int| 0 <= k < p.skip(1).len() implies (#[trigger] p.skip(1)[k]).well_formed() by {
            assert(p.skip(1)[k] == p[k + 1]);
        }
        lemma_instrs_round(p.skip(1), rest);
        assert(seq![p[0]] + p.skip(1) =~= p);
    }
}

proof fn lemma_instrs_truncated(p: Seq<Instr>, t: Seq<u8>)
    requires
        forall|k: int| 0 <= k < p.len() ==> (#[trigger] p[k]).well_formed(),
        t.len() < instrs_bytes(p).len(),
        t =~= instrs_bytes(p).take(t.len() as int),
    ensures
        instrs_parse(t, p.len()) is None,
    decreases p.len(),
{
    if p.len() > 0 {
        lemma_instrs_bytes_front(p);
        let first = instr_bytes(p[0]);
        let tail = instrs_bytes(p.skip(1));
        assert(p[0].well_formed());
        if t.len() < first.len() {
            assert(t =~= first.take(t.len() as int));
            lemma_instr_truncated(p[0], t.len() as int);
        } else {
            let t2 = t.skip(first.len() as int);
            assert(t =~= first + t2);
            lemma_instr_round(p[0], t2);
            assert(t2 =~= tail.take(t2.len() as int));
            assert forall|k: int| 0 <= k < p.skip(1).len() implies (#[trigger] p.skip(1)[k]).well_formed() by {
                assert(p.skip(1)[k] == p[k + 1]);
            }
            lemma_instrs_truncated(p.skip(1), t2);
        }
    }
}

/// Decoding an encoded program gives the program back.
pub proof fn lemma_decode_encode(p: Seq<Instr>)
    requires
        encodable_program(p),
    ensures
        program_parse(program_bytes(p)) == Some(p),
{
    let s = program_bytes(p);
    lemma_word_round(p.len() as u32, instrs_bytes(p));
    assert(s.skip(4) =~= instrs_bytes(p) + Seq::<u8>::empty());
    lemma_instrs_round(p, Seq::empty());
}

/// Every strict prefix of an encoded program fails to decode.
pub proof fn lemma_truncated_rejected(p: Seq<Instr>, n: int)
    requires
        encodable_program(p),
        0 <= n < program_bytes(p).len(),
    ensures
        program_parse(program_bytes(p).take(n)) is None,
{
    let s = program_bytes(p);
    let t = s.take(n);
    if n >= 4 {
        lemma_word_round(p.len() as u32, instrs_bytes(p));
        assert(t[0] == s[0] && t[1] == s[1] && t[2] == s[2] && t[3] == s[3]);
        assert(t.skip(4) =~= instrs_bytes(p).take(n - 4));
        lemma_instrs_truncated(p, t.skip(4));
    }
}

} // verus!
