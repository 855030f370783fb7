//! The textual assembly form of one line: a label declaration `name:`, a
//! `push` of a label, or a native instruction mnemonic with at most one operand.

use crate::isa::{Binop, Instr, Label, PInstr, Unop, Val};
use crate::ParseError;
use regex::Regex;
use vstd::prelude::*;
use vstd::string::{StrSliceExecFns, StringExecFns};

verus! {

/// The whitespace-separated words of a text, in order.
pub uninterp spec fn words_of(s: Seq<char>) -> Seq<Seq<char>>;

/// The text of each string.
pub open spec fn texts(v: Seq<String>) -> Seq<Seq<char>> {
    v.map_values(|x: String| x@)
}

/// Relies on std's `str::split_whitespace`: the words of `s`, in order.
#[verifier::external_body]
fn split_words(s: &str) -> (r: Vec<String>)
    ensures
        texts(r@) == words_of(s@),
{
    s.split_whitespace().map(String::from).collect()
}

pub open spec fn is_digit(c: char) -> bool {
    '0' <= c && c <= '9'
}

pub open spec fn all_digits(d: Seq<char>) -> bool {
    d.len() > 0 && forall|k: int| 0 <= k < d.len() ==> is_digit(#[trigger] d[k])
}

/// The number written by a string of decimal digits.
pub open spec fn digits_value(d: Seq<char>) -> int
    decreases d.len(),
{
    if d.len() == 0 {
        0
    } else {
        digits_value(d.drop_last()) * 10 + (d.last() as u32 - '0' as u32)
    }
}

/// The number written by an optional `+` or `-` and at least one decimal digit.
pub open spec fn signed_value(s: Seq<char>) -> Option<int> {
    if s.len() > 0 && s[0] == '-' && all_digits(s.skip(1)) {
        Some(-digits_value(s.skip(1)))
    } else if s.len() > 0 && s[0] == '+' && all_digits(s.skip(1)) {
        Some(digits_value(s.skip(1)))
    } else if all_digits(s) {
        Some(digits_value(s))
    } else {
        None
    }
}

/// The `i32` that a decimal text writes, if it writes one in range.
pub open spec fn i32_text(s: Seq<char>) -> Option<i32> {
    match signed_value(s) {
        Some(v) => if i32::MIN <= v <= i32::MAX {
            Some(v as i32)
        } else {
            None
        },
        None => None,
    }
}

/// The `u32` that a decimal text writes, if it writes one in range; no `-` sign.
pub open spec fn u32_text(s: Seq<char>) -> Option<u32> {
    if s.len() > 0 && s[0] == '-' {
        None
    } else {
        match signed_value(s) {
            Some(v) => if 0 <= v <= u32::MAX {
                Some(v as u32)
            } else {
                None
            },
            None => None,
        }
    }
}

/// Relies on std's `str::parse::<i32>`: an optional `+` or `-` and decimal
/// digits, in range, and nothing else.
#[verifier::external_body]
fn parse_i32(s: &str) -> (r: Option<i32>)
    ensures
        r == i32_text(s@),
{
    s.parse::<i32>().ok()
}

/// Relies on std's `str::parse::<u32>`: an optional `+` and decimal digits,
/// in range, and nothing else.
#[verifier::external_body]
fn parse_u32(s: &str) -> (r: Option<u32>)
    ensures
        r == u32_text(s@),
{
    s.parse::<u32>().ok()
}

pub open spec fn is_alnum(c: char) -> bool {
    ('a' <= c && c <= 'z') || ('A' <= c && c <= 'Z') || is_digit(c)
}

pub open spec fn alnum_run(s: Seq<char>) -> bool {
    s.len() > 0 && forall|k: int| 0 <= k < s.len() ==> is_alnum(#[trigger] s[k])
}

/// A label: `L` or `_L`, then one or more ASCII letters or digits.
pub open spec fn label_form(s: Seq<char>) -> bool {
    (s.len() > 0 && s[0] == 'L' && alnum_run(s.skip(1))) || (s.len() > 1 && s[0] == '_' && s[1]
        == 'L' && alnum_run(s.skip(2)))
}

/// Relies on regex's `Regex::new` and `Regex::is_match`: the anchored pattern
/// below is valid and matches exactly the strings of label form.
#[verifier::external_body]
fn matches_label(s: &str) -> (r: bool)
    ensures
        r == label_form(s@),
{
    Regex::new(r"\A(?:L[a-zA-Z0-9]+|_L[a-zA-Z0-9]+)\z").unwrap().is_match(s)
}

/// A message that quotes the text it is about.
fn quoted_error(what: &str, text: &str) -> (r: ParseError)
    ensures
        r.0@ == what@ + ": "@ + text@,
{
    ParseError(String::from_str(what).concat(": ").concat(text))
}

fn plain_error(what: &str) -> ParseError {
    ParseError(String::from_str(what))
}

/// Whether a word is the given literal.
fn is_word(w: &String, lit: &str) -> (r: bool)
    ensures
        r == (w@ == lit@),
{
    w.eq(&String::from_str(lit))
}

pub open spec fn unop_text(s: Seq<char>) -> Option<Unop> {
    if s == "neg"@ {
        Some(Unop::Neg)
    } else {
        None
    }
}

pub open spec fn binop_text(s: Seq<char>) -> Option<Binop> {
    if s == "+"@ {
        Some(Binop::Add)
    } else if s == "*"@ {
        Some(Binop::Mul)
    } else if s == "-"@ {
        Some(Binop::Sub)
    } else if s == "/"@ {
        Some(Binop::Div)
    } else if s == "<"@ {
        Some(Binop::Lt)
    } else if s == "=="@ {
        Some(Binop::Eq)
    } else {
        None
    }
}

pub open spec fn val_text(s: Seq<char>) -> Option<Val> {
    if s == "tt"@ {
        Some(Val::Vunit)
    } else if s == "true"@ {
        Some(Val::Vbool(true))
    } else if s == "false"@ {
        Some(Val::Vbool(false))
    } else if s == "undef"@ {
        Some(Val::Vundef)
    } else {
        match i32_text(s) {
            Some(i) => Some(Val::Vi32(i)),
            None => None,
        }
    }
}

/// An instruction without an operand, by its mnemonic.
pub open spec fn nullary_text(m: Seq<char>) -> Option<Instr> {
    if m == "pop"@ {
        Some(Instr::Pop)
    } else if m == "swap"@ {
        Some(Instr::Swap)
    } else if m == "alloc"@ {
        Some(Instr::Alloc)
    } else if m == "get"@ {
        Some(Instr::Get)
    } else if m == "set"@ {
        Some(Instr::SetElem)
    } else if m == "call"@ {
        Some(Instr::Call)
    } else if m == "ret"@ {
        Some(Instr::Ret)
    } else if m == "branch"@ {
        Some(Instr::Branch)
    } else if m == "halt"@ {
        Some(Instr::Halt)
    } else {
        None
    }
}

/// An instruction with an operand, by its mnemonic and operand.
pub open spec fn unary_text(m: Seq<char>, o: Seq<char>) -> Option<Instr> {
    if m == "push"@ {
        match val_text(o) {
            Some(v) => Some(Instr::Push(v)),
            None => None,
        }
    } else if m == "peek"@ {
        match u32_text(o) {
            Some(n) => Some(Instr::Peek(n)),
            None => None,
        }
    } else if m == "unary"@ {
        match unop_text(o) {
            Some(u) => Some(Instr::Unary(u)),
            None => None,
        }
    } else if m == "binary"@ {
        match binop_text(o) {
            Some(b) => Some(Instr::Binary(b)),
            None => None,
        }
    } else if m == "var"@ {
        match u32_text(o) {
            Some(n) => Some(Instr::Var(n)),
            None => None,
        }
    } else if m == "store"@ {
        match u32_text(o) {
            Some(n) => Some(Instr::Store(n)),
            None => None,
        }
    } else if m == "setframe"@ {
        match u32_text(o) {
            Some(n) => Some(Instr::SetFrame(n)),
            None => None,
        }
    } else {
        None
    }
}

/// The instruction that a line of words writes: a mnemonic and at most one operand.
pub open spec fn instr_words(w: Seq<Seq<char>>) -> Option<Instr> {
    if w.len() == 1 {
        nullary_text(w[0])
    } else if w.len() == 2 {
        unary_text(w[0], w[1])
    } else {
        None
    }
}

/// Parse a unary operator.
pub fn parse_unop(s: &String) -> (r: Result<Unop, ParseError>)
    ensures
        match unop_text(s@) {
            Some(u) => r matches Ok(x) && x == u,
            None => r is Err,
        },
{
    if is_word(s, "neg") {
        Ok(Unop::Neg)
    } else {
        Err(plain_error("unknown unop"))
    }
}

/// Parse a binary operator.
pub fn parse_binop(s: &String) -> (r: Result<Binop, ParseError>)
    ensures
        match binop_text(s@) {
            Some(b) => r matches Ok(x) && x == b,
            None => r is Err,
        },
{
    if is_word(s, "+") {
        Ok(Binop::Add)
    } else if is_word(s, "*") {
        Ok(Binop::Mul)
    } else if is_word(s, "-") {
        Ok(Binop::Sub)
    } else if is_word(s, "/") {
        Ok(Binop::Div)
    } else if is_word(s, "<") {
        Ok(Binop::Lt)
    } else if is_word(s, "==") {
        Ok(Binop::Eq)
    } else {
        Err(plain_error("unknown binop"))
    }
}

/// Parse a value constant.
pub fn parse_val(s: &String) -> (r: Result<Val, ParseError>)
    ensures
        match val_text(s@) {
            Some(v) => r matches Ok(x) && x == v,
            None => r is Err,
        },
{
    if is_word(s, "tt") {
        Ok(Val::Vunit)
    } else if is_word(s, "true") {
        Ok(Val::Vbool(true))
    } else if is_word(s, "false") {
        Ok(Val::Vbool(false))
    } else if is_word(s, "undef") {
        Ok(Val::Vundef)
    } else {
        match parse_i32(s.as_str()) {
            Some(i) => Ok(Val::Vi32(i)),
            None => Err(quoted_error("bad integer", s.as_str())),
        }
    }
}

fn parse_count(s: &String) -> (r: Result<u32, ParseError>)
    ensures
        match u32_text(s@) {
            Some(n) => r matches Ok(x) && x == n,
            None => r is Err,
        },
{
    match parse_u32(s.as_str()) {
        Some(n) => Ok(n),
        None => Err(quoted_error("bad operand", s.as_str())),
    }
}

/// Parse an instruction from its words.
pub fn instr_from_words(w: &Vec<String>) -> (r: Result<Instr, ParseError>)
    ensures
        match instr_words(texts(w@)) {
            Some(i) => r matches Ok(x) && x == i,
            None => r is Err,
        },
{
    proof {
        assert(forall|k: int| 0 <= k < w@.len() ==> texts(w@)[k] == (#[trigger] w@[k])@);
    }
    if w.len() == 0 {
        return Err(plain_error("no tokens"));
    }
    let m = &w[0];
    if w.len() == 1 {
        if is_word(m, "pop") {
            Ok(Instr::Pop)
        } else if is_word(m, "swap") {
            Ok(Instr::Swap)
        } else if is_word(m, "alloc") {
            Ok(Instr::Alloc)
        } else if is_word(m, "get") {
            Ok(Instr::Get)
        } else if is_word(m, "set") {
            Ok(Instr::SetElem)
        } else if is_word(m, "call") {
            Ok(Instr::Call)
        } else if is_word(m, "ret") {
            Ok(Instr::Ret)
        } else if is_word(m, "branch") {
            Ok(Instr::Branch)
        } else if is_word(m, "halt") {
            Ok(Instr::Halt)
        } else {
            Err(quoted_error("unknown op", m.as_str()))
        }
    } else if w.len() == 2 {
        let o = &w[1];
        if is_word(m, "push") {
            Ok(Instr::Push(parse_val(o)?))
        } else if is_word(m, "peek") {
            Ok(Instr::Peek(parse_count(o)?))
        } else if is_word(m, "unary") {
            Ok(Instr::Unary(parse_unop(o)?))
        } else if is_word(m, "binary") {
            Ok(Instr::Binary(parse_binop(o)?))
        } else if is_word(m, "var") {
            Ok(Instr::Var(parse_count(o)?))
        } else if is_word(m, "store") {
            Ok(Instr::Store(parse_count(o)?))
        } else if is_word(m, "setframe") {
            Ok(Instr::SetFrame(parse_count(o)?))
        } else {
            Err(quoted_error("unknown op", m.as_str()))
        }
    } else {
        Err(plain_error("too many tokens"))
    }
}

/// Parse an instruction from a line of text.
pub fn parse_instr(s: &str) -> (r: Result<Instr, ParseError>)
    ensures
        match instr_words(words_of(s@)) {
            Some(i) => r matches Ok(x) && x == i,
            None => r is Err,
        },
{
    let w = split_words(s);
    instr_from_words(&w)
}

/// Parse a label.
pub fn parse_label(s: &str) -> (r: Result<Label, ParseError>)
    ensures
        label_form(s@) ==> (r matches Ok(l) && l@ == s@),
        !label_form(s@) ==> r is Err,
{
    if matches_label(s) {
        Ok(String::from_str(s))
    } else {
        Err(quoted_error("bad label", s))
    }
}

/// A `push` of a label.
pub open spec fn push_label_words(w: Seq<Seq<char>>) -> bool {
    w.len() == 2 && w[0] == "push"@ && label_form(w[1])
}

/// A line whose first word ends in `:`, which can only be a label declaration.
pub open spec fn decl_words(w: Seq<Seq<char>>) -> bool {
    w.len() >= 1 && w[0] != "push"@ && w[0].len() > 0 && w[0].last() == ':'
}

/// A well-formed label declaration: one word, a label followed by `:`.
pub open spec fn good_decl_words(w: Seq<Seq<char>>) -> bool {
    decl_words(w) && w.len() == 1 && label_form(w[0].drop_last())
}

/// Parse a pseudo-instruction from its words.
pub fn pinstr_from_words(w: &Vec<String>) -> (r: Result<PInstr, ParseError>)
    ensures
        push_label_words(texts(w@)) ==> (r matches Ok(PInstr::PPush(l)) && l@ == texts(w@)[1]),
        good_decl_words(texts(w@)) ==> (r matches Ok(PInstr::PLabel(l)) && l@ == texts(
            w@,
        )[0].drop_last()),
        decl_words(texts(w@)) && !good_decl_words(texts(w@)) ==> r is Err,
        !push_label_words(texts(w@)) && !decl_words(texts(w@)) ==> match instr_words(texts(w@)) {
            Some(i) => r matches Ok(PInstr::PI(x)) && x == i,
            None => r is Err,
        },
{
    proof {
        assert(forall|k: int| 0 <= k < w@.len() ==> texts(w@)[k] == (#[trigger] w@[k])@);
    }
    if w.len() == 0 {
        return Err(plain_error("no tokens"));
    }
    let m = &w[0];
    if is_word(m, "push") {
        if w.len() == 2 {
            if let Ok(l) = parse_label(w[1].as_str()) {
                return Ok(PInstr::PPush(l));
            }
        }
        let i = instr_from_words(w)?;
        return Ok(PInstr::PI(i));
    }
    let n = m.as_str().unicode_len();
    if n > 0 && m.as_str().get_char(n - 1) == ':' {
        if w.len() != 1 {
            return Err(plain_error("too many tokens"));
        }
        let name = m.as_str().substring_char(0, n - 1);
        proof {
            assert(name@ =~= m@.drop_last());
        }
        let l = parse_label(name)?;
        Ok(PInstr::PLabel(l))
    } else {
        let i = instr_from_words(w)?;
        Ok(PInstr::PI(i))
    }
}

/// Parse a pseudo-instruction from a line of text.
pub fn parse_pinstr(s: &str) -> (r: Result<PInstr, ParseError>)
    ensures
        push_label_words(words_of(s@)) ==> (r matches Ok(PInstr::PPush(l)) && l@ == words_of(
            s@,
        )[1]),
        good_decl_words(words_of(s@)) ==> (r matches Ok(PInstr::PLabel(l)) && l@ == words_of(
            s@,
        )[0].drop_last()),
        decl_words(words_of(s@)) && !good_decl_words(words_of(s@)) ==> r is Err,
        !push_label_words(words_of(s@)) && !decl_words(words_of(s@)) ==> match instr_words(
            words_of(s@),
        ) {
            Some(i) => r matches Ok(PInstr::PI(x)) && x == i,
            None => r is Err,
        },
{
    let w = split_words(s);
    pinstr_from_words(&w)
}

/// The one word of a text, if it has exactly one.
fn single_word(s: &str) -> (r: Result<String, ParseError>)
    ensures
        words_of(s@).len() == 1 ==> (r matches Ok(x) && x@ == words_of(s@)[0]),
        words_of(s@).len() != 1 ==> r is Err,
{
    let mut w = split_words(s);
    if w.len() == 1 {
        proof {
            assert(texts(w@)[0] == w@[0]@);
        }
        match w.pop() {
            Some(x) => Ok(x),
            None => Err(plain_error("no tokens")),
        }
    } else {
        Err(plain_error("expected one token"))
    }
}

impl std::str::FromStr for Unop {
    type Err = ParseError;

    fn from_str(s: &str) -> Result<Unop, ParseError> {
        let w = single_word(s)?;
        parse_unop(&w)
    }
}

impl std::str::FromStr for Binop {
    type Err = ParseError;

    fn from_str(s: &str) -> Result<Binop, ParseError> {
        let w = single_word(s)?;
        parse_binop(&w)
    }
}

impl std::str::FromStr for Val {
    type Err = ParseError;

    fn from_str(s: &str) -> Result<Val, ParseError> {
        let w = single_word(s)?;
        parse_val(&w)
    }
}

impl std::str::FromStr for Instr {
    type Err = ParseError;

    fn from_str(s: &str) -> Result<Instr, ParseError> {
        parse_instr(s)
    }
}

impl std::str::FromStr for PInstr {
    type Err = ParseError;

    fn from_str(s: &str) -> Result<PInstr, ParseError> {
        parse_pinstr(s)
    }
}

} // verus!
