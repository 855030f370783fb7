use grumpy::isa::{Binop, Instr, Unop, Val};
use grumpy::vm::{binop, run, unop, State, VmError, HEAP_SIZE, STK_SIZE};

fn num(i: i32) -> Instr {
    Instr::Push(Val::Vi32(i))
}

#[test]
fn adds_two_numbers() {
    assert_eq!(run(&[num(3), num(4), Instr::Binary(Binop::Add), Instr::Halt]), Ok(Val::Vi32(7)));
}

#[test]
fn halt_stops_before_later_instructions() {
    assert_eq!(run(&[num(0), Instr::Halt, num(1)]), Ok(Val::Vi32(0)));
}

#[test]
fn halt_needs_exactly_one_value() {
    assert_eq!(
        run(&[num(0), num(1), Instr::Halt]),
        Err(String::from("more than one value on the stack at halt"))
    );
    assert_eq!(run(&[Instr::Halt]), Err(String::from("attempt to pop empty stack")));
}

#[test]
fn running_off_the_end_fails() {
    assert_eq!(run(&[num(1)]), Err(String::from("pc out of bounds")));
    assert_eq!(run(&[]), Err(String::from("pc out of bounds")));
}

#[test]
fn left_operand_is_pushed_first() {
    assert_eq!(run(&[num(5), num(3), Instr::Binary(Binop::Sub), Instr::Halt]), Ok(Val::Vi32(2)));
    assert_eq!(run(&[num(7), num(2), Instr::Binary(Binop::Div), Instr::Halt]), Ok(Val::Vi32(3)));
    assert_eq!(run(&[num(-7), num(2), Instr::Binary(Binop::Div), Instr::Halt]), Ok(Val::Vi32(-3)));
    assert_eq!(run(&[num(2), num(3), Instr::Binary(Binop::Lt), Instr::Halt]), Ok(Val::Vbool(true)));
    assert_eq!(run(&[num(3), num(3), Instr::Binary(Binop::Lt), Instr::Halt]), Ok(Val::Vbool(false)));
    assert_eq!(run(&[num(6), num(7), Instr::Binary(Binop::Mul), Instr::Halt]), Ok(Val::Vi32(42)));
    assert_eq!(run(&[num(3), num(3), Instr::Binary(Binop::Eq), Instr::Halt]), Ok(Val::Vbool(true)));
}

#[test]
fn arithmetic_errors() {
    assert_eq!(
        run(&[num(1), num(0), Instr::Binary(Binop::Div), Instr::Halt]),
        Err(String::from("division by zero"))
    );
    assert_eq!(
        run(&[num(i32::MAX), num(1), Instr::Binary(Binop::Add), Instr::Halt]),
        Err(String::from("arithmetic overflow"))
    );
    assert_eq!(
        run(&[num(i32::MIN), num(-1), Instr::Binary(Binop::Div), Instr::Halt]),
        Err(String::from("arithmetic overflow"))
    );
    assert_eq!(
        run(&[Instr::Push(Val::Vbool(true)), num(1), Instr::Binary(Binop::Add), Instr::Halt]),
        Err(String::from("expected i32"))
    );
    assert_eq!(binop(Binop::Sub, Val::Vi32(10), Val::Vi32(4)), Ok(Val::Vi32(6)));
    assert_eq!(binop(Binop::Add, Val::Vunit, Val::Vi32(4)), Err(VmError::ExpectedInt));
}

#[test]
fn negation() {
    assert_eq!(
        run(&[Instr::Push(Val::Vbool(true)), Instr::Unary(Unop::Neg), Instr::Halt]),
        Ok(Val::Vbool(false))
    );
    assert_eq!(run(&[num(1), Instr::Unary(Unop::Neg), Instr::Halt]), Err(String::from("expected bool")));
    assert_eq!(unop(Unop::Neg, Val::Vbool(false)), Ok(Val::Vbool(true)));
}

#[test]
fn peek_swap_pop() {
    // [10, 3] -> peek 1 -> [10, 3, 10] -> 3 - 10 -> [10, -7] -> swap, pop -> [-7]
    let p = [num(10), num(3), Instr::Peek(1), Instr::Binary(Binop::Sub), Instr::Swap, Instr::Pop, Instr::Halt];
    assert_eq!(run(&p), Ok(Val::Vi32(-7)));
    assert_eq!(run(&[num(1), Instr::Peek(1), Instr::Halt]), Err(String::from("peek past bottom of stack")));
    assert_eq!(run(&[Instr::Pop, Instr::Halt]), Err(String::from("attempt to pop empty stack")));
    assert_eq!(run(&[num(1), Instr::Swap, Instr::Halt]), Err(String::from("attempt to pop empty stack")));
}

#[test]
fn call_and_return() {
    // setframe 0; push loc 4; call; halt; callee: push 5; ret
    let p = [Instr::SetFrame(0), Instr::Push(Val::Vloc(4)), Instr::Call, Instr::Halt, num(5), Instr::Ret];
    assert_eq!(run(&p), Ok(Val::Vi32(5)));
}

#[test]
fn call_with_an_argument_discards_the_frame() {
    // the argument 7 belongs to the callee's frame and is gone after ret
    let p = [
        num(7),
        Instr::SetFrame(1),
        Instr::Push(Val::Vloc(5)),
        Instr::Call,
        Instr::Halt,
        Instr::Var(0),
        num(1),
        Instr::Binary(Binop::Add),
        Instr::Ret,
    ];
    assert_eq!(run(&p), Ok(Val::Vi32(8)));
}

#[test]
fn frame_state_after_return() {
    let p = vec![num(9), Instr::SetFrame(0), Instr::Push(Val::Vloc(5)), Instr::Call, Instr::Halt, num(5), Instr::Ret];
    let mut s = State::init(p);
    for _ in 0..6 {
        assert_eq!(s.step(), Ok(false));
    }
    assert_eq!(s.pc, 4);
    assert_eq!(s.fp, 0);
    assert_eq!(s.stk, vec![Val::Vi32(9), Val::Vi32(5)]);
    assert_eq!(s.step(), Ok(true));
}

#[test]
fn bad_call_and_return_operands() {
    assert_eq!(run(&[num(1), Instr::Call]), Err(String::from("expected loc for call target")));
    assert_eq!(
        run(&[num(1), num(2), num(3), Instr::Ret]),
        Err(String::from("expected location for pc and fp in return"))
    );
}

#[test]
fn locals() {
    // frame of two values: store 0 overwrites the first, var 0 reads it back
    let p = [num(1), num(2), Instr::SetFrame(2), num(8), Instr::Store(0), Instr::Var(0), Instr::Halt];
    let mut s = State::init(p.to_vec());
    for _ in 0..6 {
        assert_eq!(s.step(), Ok(false));
    }
    assert_eq!(s.fp, 0);
    assert_eq!(s.stk, vec![Val::Vi32(8), Val::Vi32(2), Val::Vloc(0), Val::Vi32(8)]);
    assert_eq!(
        run(&[Instr::Var(0), Instr::Halt]),
        Err(String::from("variable access past end of stack"))
    );
    assert_eq!(run(&[num(1), Instr::Store(0), Instr::Halt]), Err(String::from("store past end of stack")));
    assert_eq!(run(&[Instr::SetFrame(1), Instr::Halt]), Err(String::from("frame below bottom of stack")));
}

#[test]
fn branch_taken_and_not() {
    let taken = [Instr::Push(Val::Vbool(true)), Instr::Push(Val::Vloc(4)), Instr::Branch, num(1), num(2), Instr::Halt];
    assert_eq!(run(&taken), Ok(Val::Vi32(2)));
    let not_taken = [Instr::Push(Val::Vbool(false)), Instr::Push(Val::Vloc(5)), Instr::Branch, num(1), Instr::Halt, num(2), Instr::Halt];
    assert_eq!(run(&not_taken), Ok(Val::Vi32(1)));
    assert_eq!(
        run(&[Instr::Push(Val::Vbool(true)), num(0), Instr::Branch]),
        Err(String::from("expected location"))
    );
    assert_eq!(
        run(&[num(0), Instr::Push(Val::Vloc(0)), Instr::Branch]),
        Err(String::from("expected bool"))
    );
}

#[test]
fn arrays() {
    // a = alloc(3, 0); a[1] = 42; a[1]
    let p = [
        num(3),
        num(0),
        Instr::Alloc,
        Instr::Peek(0),
        num(1),
        num(42),
        Instr::SetElem,
        num(1),
        Instr::Get,
        Instr::Halt,
    ];
    assert_eq!(run(&p), Ok(Val::Vi32(42)));
    let mut s = State::init(vec![num(2), Instr::Push(Val::Vundef), Instr::Alloc]);
    for _ in 0..3 {
        assert_eq!(s.step(), Ok(false));
    }
    assert_eq!(s.heap, vec![Val::Vsize(2), Val::Vundef, Val::Vundef]);
    assert_eq!(s.stk, vec![Val::Vaddr(0)]);
}

#[test]
fn heap_limits() {
    let size = (HEAP_SIZE - 1) as i32;
    assert_eq!(
        run(&[num(size), num(0), Instr::Alloc, Instr::Halt]),
        Err(String::from("out of heap space"))
    );
    assert_eq!(run(&[num(size - 1), num(0), Instr::Alloc, Instr::Halt]), Ok(Val::Vaddr(0)));
    assert_eq!(run(&[num(-1), num(0), Instr::Alloc, Instr::Halt]), Err(String::from("negative array size")));
    // failing allocation leaves the heap as it was
    let mut s = State::init(vec![num(1), num(0), Instr::Alloc, num(size), num(0), Instr::Alloc]);
    for _ in 0..3 {
        assert_eq!(s.step(), Ok(false));
    }
    for _ in 0..2 {
        assert_eq!(s.step(), Ok(false));
    }
    assert_eq!(s.step(), Err(VmError::HeapFull));
    assert_eq!(s.heap, vec![Val::Vsize(1), Val::Vi32(0)]);
}

#[test]
fn array_index_errors() {
    let past = [num(2), num(0), Instr::Alloc, num(2), Instr::Get, Instr::Halt];
    assert_eq!(run(&past), Err(String::from("index past end of array")));
    let negative = [num(2), num(0), Instr::Alloc, num(-1), Instr::Get, Instr::Halt];
    assert_eq!(run(&negative), Err(String::from("index past end of array")));
    let not_addr = [num(0), num(0), Instr::Get, Instr::Halt];
    assert_eq!(run(&not_addr), Err(String::from("expected address")));
    let far = [Instr::Push(Val::Vaddr(5000)), num(0), Instr::Get, Instr::Halt];
    assert_eq!(run(&far), Err(String::from("indexing past end of heap")));
    let not_array = [num(2), num(0), Instr::Alloc, Instr::Pop, Instr::Push(Val::Vaddr(1)), num(0), Instr::Get, Instr::Halt];
    assert_eq!(run(&not_array), Err(String::from("expected size at array location")));
    // a failed write changes nothing
    let mut s = State::init(vec![num(1), num(7), Instr::Alloc, num(1), num(9), Instr::SetElem]);
    for _ in 0..5 {
        assert_eq!(s.step(), Ok(false));
    }
    assert_eq!(s.step(), Err(VmError::IndexPastEnd));
    assert_eq!(s.heap, vec![Val::Vsize(1), Val::Vi32(7)]);
}

#[test]
fn stack_limit() {
    let mut p: Vec<Instr> = Vec::new();
    for _ in 0..STK_SIZE + 1 {
        p.push(num(1));
    }
    p.push(Instr::Halt);
    assert_eq!(run(&p), Err(String::from("out of stack space")));
}

#[test]
fn error_messages() {
    assert_eq!(VmError::StepLimit.message(), "step limit exceeded");
    assert_eq!(VmError::StackOverflow.message(), "out of stack space");
}

#[test]
fn failed_steps_keep_the_state() {
    // no instruction to fetch: nothing changes
    let mut s = State::init(vec![num(1)]);
    assert_eq!(s.step(), Ok(false));
    assert_eq!(s.step(), Err(VmError::PcOutOfBounds));
    assert_eq!(s.pc, 1);
    assert_eq!(s.fp, 0);
    assert_eq!(s.stk, vec![Val::Vi32(1)]);
    // a frame below the bottom of the stack is refused before anything is pushed
    let mut s = State::init(vec![num(1), Instr::SetFrame(2)]);
    assert_eq!(s.step(), Ok(false));
    assert_eq!(s.step(), Err(VmError::FrameRange));
    assert_eq!(s.stk, vec![Val::Vi32(1)]);
    assert_eq!(s.fp, 0);
}
