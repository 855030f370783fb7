use grumpy::assemble::assemble;
use grumpy::isa::{Binop, Instr, PInstr, Val};

fn lbl(s: &str) -> PInstr {
    PInstr::PLabel(String::from(s))
}

fn push_lbl(s: &str) -> PInstr {
    PInstr::PPush(String::from(s))
}

#[test]
fn forward_reference_resolves() {
    let p = vec![
        push_lbl("La"),
        PInstr::PI(Instr::Halt),
        lbl("La"),
        PInstr::PI(Instr::Push(Val::Vi32(1))),
        PInstr::PI(Instr::Halt),
    ];
    let out = assemble(p).unwrap();
    assert_eq!(
        out,
        vec![
            Instr::Push(Val::Vloc(2)),
            Instr::Halt,
            Instr::Push(Val::Vi32(1)),
            Instr::Halt,
        ]
    );
}

#[test]
fn backward_reference_and_adjacent_labels() {
    let p = vec![
        lbl("Lstart"),
        lbl("_Lalso"),
        PInstr::PI(Instr::Push(Val::Vbool(true))),
        push_lbl("Lstart"),
        push_lbl("_Lalso"),
        lbl("Lend"),
        push_lbl("Lend"),
        PInstr::PI(Instr::Binary(Binop::Add)),
    ];
    let out = assemble(p).unwrap();
    assert_eq!(
        out,
        vec![
            Instr::Push(Val::Vbool(true)),
            Instr::Push(Val::Vloc(0)),
            Instr::Push(Val::Vloc(0)),
            Instr::Push(Val::Vloc(3)),
            Instr::Binary(Binop::Add),
        ]
    );
}

#[test]
fn undefined_label_is_rejected() {
    let p = vec![push_lbl("Lmissing"), PInstr::PI(Instr::Halt)];
    assert_eq!(assemble(p).unwrap_err(), "undefined label: Lmissing");
}

#[test]
fn duplicate_label_is_rejected() {
    let p = vec![lbl("La"), PInstr::PI(Instr::Halt), lbl("La"), push_lbl("Lb")];
    assert_eq!(assemble(p).unwrap_err(), "duplicate label: La");
}

#[test]
fn empty_program_assembles() {
    assert_eq!(assemble(vec![]).unwrap(), Vec::<Instr>::new());
}
