use grumpy::isa::{Binop, Instr, PInstr, Unop, Val};
use std::str::FromStr;

#[test]
fn test_1() {
    assert_eq!(Instr::from_str("push 123").unwrap(), Instr::Push(Val::Vi32(123)));
    assert_eq!(
        PInstr::from_str("Labc123:").unwrap(),
        PInstr::PLabel(String::from("Labc123"))
    );
}

#[test]
fn parses_every_mnemonic() {
    assert_eq!(Instr::from_str("pop").unwrap(), Instr::Pop);
    assert_eq!(Instr::from_str("peek 2").unwrap(), Instr::Peek(2));
    assert_eq!(Instr::from_str("unary neg").unwrap(), Instr::Unary(Unop::Neg));
    assert_eq!(Instr::from_str("binary ==").unwrap(), Instr::Binary(Binop::Eq));
    assert_eq!(Instr::from_str("binary <").unwrap(), Instr::Binary(Binop::Lt));
    assert_eq!(Instr::from_str("swap").unwrap(), Instr::Swap);
    assert_eq!(Instr::from_str("alloc").unwrap(), Instr::Alloc);
    assert_eq!(Instr::from_str("get").unwrap(), Instr::Get);
    assert_eq!(Instr::from_str("set").unwrap(), Instr::SetElem);
    assert_eq!(Instr::from_str("var 1").unwrap(), Instr::Var(1));
    assert_eq!(Instr::from_str("store 3").unwrap(), Instr::Store(3));
    assert_eq!(Instr::from_str("setframe 4").unwrap(), Instr::SetFrame(4));
    assert_eq!(Instr::from_str("call").unwrap(), Instr::Call);
    assert_eq!(Instr::from_str("ret").unwrap(), Instr::Ret);
    assert_eq!(Instr::from_str("branch").unwrap(), Instr::Branch);
    assert_eq!(Instr::from_str("halt").unwrap(), Instr::Halt);
}

#[test]
fn parses_constants_and_whitespace() {
    assert_eq!(Instr::from_str("  push   -5 ").unwrap(), Instr::Push(Val::Vi32(-5)));
    assert_eq!(Instr::from_str("push +7").unwrap(), Instr::Push(Val::Vi32(7)));
    assert_eq!(Instr::from_str("push tt").unwrap(), Instr::Push(Val::Vunit));
    assert_eq!(Instr::from_str("push true").unwrap(), Instr::Push(Val::Vbool(true)));
    assert_eq!(Instr::from_str("push false").unwrap(), Instr::Push(Val::Vbool(false)));
    assert_eq!(Instr::from_str("push undef").unwrap(), Instr::Push(Val::Vundef));
    assert_eq!(
        Instr::from_str("push -2147483648").unwrap(),
        Instr::Push(Val::Vi32(i32::MIN))
    );
    assert_eq!(Val::from_str(" 42 ").unwrap(), Val::Vi32(42));
    assert_eq!(Binop::from_str("*").unwrap(), Binop::Mul);
    assert_eq!(Unop::from_str("neg").unwrap(), Unop::Neg);
}

#[test]
fn rejects_bad_instruction_text() {
    assert!(Instr::from_str("").is_err());
    assert!(Instr::from_str("push").is_err());
    assert!(Instr::from_str("push 2147483648").is_err());
    assert!(Instr::from_str("peek -1").is_err());
    assert!(Instr::from_str("binary %").is_err());
    assert!(Instr::from_str("jump").is_err());
    assert!(Instr::from_str("pop 1").is_err());
    assert!(Val::from_str("1 2").is_err());
}

#[test]
fn parses_pseudo_instructions() {
    assert_eq!(
        PInstr::from_str("push Lfoo").unwrap(),
        PInstr::PPush(String::from("Lfoo"))
    );
    assert_eq!(
        PInstr::from_str("push _L2").unwrap(),
        PInstr::PPush(String::from("_L2"))
    );
    assert_eq!(
        PInstr::from_str("_Lend:").unwrap(),
        PInstr::PLabel(String::from("_Lend"))
    );
    assert_eq!(
        PInstr::from_str("push 9").unwrap(),
        PInstr::PI(Instr::Push(Val::Vi32(9)))
    );
    assert_eq!(PInstr::from_str("halt").unwrap(), PInstr::PI(Instr::Halt));
}

#[test]
fn rejects_malformed_labels() {
    assert!(PInstr::from_str("Lx-y:").is_err());
    assert!(PInstr::from_str("foo:").is_err());
    assert!(PInstr::from_str("L:").is_err());
    assert!(PInstr::from_str("La: halt").is_err());
    // Not a label, and not a value either.
    assert!(PInstr::from_str("push xLa").is_err());
}

#[test]
fn value_extractors() {
    assert_eq!(Val::Vi32(3).to_i32(), Some(3));
    assert_eq!(Val::Vbool(true).to_i32(), None);
    assert_eq!(Val::Vbool(false).to_bool(), Some(false));
    assert_eq!(Val::Vunit.to_bool(), None);
    assert_eq!(Val::Vloc(8).to_loc(), Some(8));
    assert_eq!(Val::Vi32(8).to_loc(), None);
    assert_eq!(Val::Vaddr(2).to_address(), Some(2));
    assert_eq!(Val::Vsize(2).to_address(), None);
}

#[test]
fn text_errors_quote_the_text() {
    assert_eq!(Instr::from_str("push x1").unwrap_err().message(), "bad integer: x1");
    assert_eq!(Instr::from_str("peek -1").unwrap_err().message(), "bad operand: -1");
    assert_eq!(Instr::from_str("jump").unwrap_err().message(), "unknown op: jump");
    assert_eq!(PInstr::from_str("Lx-y:").unwrap_err().message(), "bad label: Lx-y");
}
