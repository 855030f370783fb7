use grumpy::bytes::{decode_program, encode_program, FromBytes, ToBytes};
use grumpy::isa::{Binop, Instr, Unop, Val};

fn sample() -> Vec<Instr> {
    vec![
        Instr::Push(Val::Vi32(-2)),
        Instr::Push(Val::Vloc(0x0102_0304)),
        Instr::Push(Val::Vbool(true)),
        Instr::Push(Val::Vbool(false)),
        Instr::Push(Val::Vunit),
        Instr::Push(Val::Vundef),
        Instr::Pop,
        Instr::Peek(7),
        Instr::Unary(Unop::Neg),
        Instr::Binary(Binop::Div),
        Instr::Swap,
        Instr::Alloc,
        Instr::Get,
        Instr::SetElem,
        Instr::Var(1),
        Instr::Store(2),
        Instr::SetFrame(3),
        Instr::Call,
        Instr::Ret,
        Instr::Branch,
        Instr::Halt,
    ]
}

#[test]
fn round_trip_of_every_instruction() {
    let p = sample();
    let bytes = encode_program(&p);
    assert_eq!(decode_program(&bytes).unwrap(), p);
}

#[test]
fn every_strict_prefix_is_rejected() {
    let p = sample();
    let bytes = encode_program(&p);
    for n in 0..bytes.len() {
        assert!(decode_program(&bytes[..n]).is_err(), "prefix of {} bytes", n);
    }
}

#[test]
fn exact_layout_of_a_program() {
    let p = vec![
        Instr::Push(Val::Vi32(7)),
        Instr::Push(Val::Vi32(-1)),
        Instr::Binary(Binop::Sub),
        Instr::Peek(0x0A0B_0C0D),
        Instr::SetElem,
        Instr::Get,
        Instr::Halt,
    ];
    let expected: Vec<u8> = vec![
        0, 0, 0, 7, // count
        0x00, 0x01, 0, 0, 0, 7, // push 7
        0x00, 0x01, 0xff, 0xff, 0xff, 0xff, // push -1
        0x04, 0x02, // binary sub
        0x02, 0x0A, 0x0B, 0x0C, 0x0D, // peek
        0x07, // set
        0x08, // get
        0x0F, // halt
    ];
    assert_eq!(encode_program(&p), expected);
}

#[test]
fn decodes_big_endian_words() {
    let bytes: Vec<u8> = vec![0, 0, 0, 1, 0x00, 0x04, 0x12, 0x34, 0x56, 0x78];
    assert_eq!(
        decode_program(&bytes).unwrap(),
        vec![Instr::Push(Val::Vloc(0x1234_5678))]
    );
    let bytes: Vec<u8> = vec![0, 0, 0, 1, 0x00, 0x01, 0x80, 0, 0, 0];
    assert_eq!(
        decode_program(&bytes).unwrap(),
        vec![Instr::Push(Val::Vi32(i32::MIN))]
    );
}

#[test]
fn value_and_word_encodings() {
    assert_eq!(0x0102_0304u32.to_bytes(), vec![1, 2, 3, 4]);
    assert_eq!((-2i32).to_bytes(), vec![0xff, 0xff, 0xff, 0xfe]);
    assert_eq!(Val::Vloc(5).to_bytes(), vec![4, 0, 0, 0, 5]);
    assert_eq!(Val::Vbool(false).to_bytes(), vec![3]);
    assert_eq!(Instr::Store(258).to_bytes(), vec![0x0A, 0, 0, 1, 2]);
    assert_eq!(Binop::Lt.to_bytes(), vec![4]);
    assert_eq!(Unop::Neg.to_bytes(), vec![0]);
}

#[test]
fn reads_from_a_position() {
    let bytes: Vec<u8> = vec![9, 9, 0x01, 0, 0, 1, 0, 0xAA];
    assert_eq!(Val::from_bytes(&bytes, 2).unwrap(), (Val::Vi32(256), 7));
    assert_eq!(u32::from_bytes(&bytes, 1).unwrap(), (0x0901_0000, 5));
    assert_eq!(i32::from_bytes(&bytes, 4).unwrap(), (0x0001_00AA, 8));
    assert!(u32::from_bytes(&bytes, 5).is_err());
    assert_eq!(Binop::from_bytes(&[5u8], 0).unwrap(), (Binop::Eq, 1));
    assert_eq!(Unop::from_bytes(&[0u8], 0).unwrap(), (Unop::Neg, 1));
}

#[test]
fn rejects_unknown_codes() {
    // Unknown opcode.
    let e = decode_program(&[0, 0, 0, 1, 0x10]).unwrap_err();
    assert_eq!(e.message(), "unknown instr code: 16");
    // Unknown value tag.
    assert!(decode_program(&[0, 0, 0, 1, 0x00, 0x06]).is_err());
    // Unknown operator codes.
    assert!(decode_program(&[0, 0, 0, 1, 0x04, 0x06]).is_err());
    assert!(decode_program(&[0, 0, 0, 1, 0x03, 0x01]).is_err());
    // Truncated.
    let e = decode_program(&[0, 0, 0, 2, 0x01]).unwrap_err();
    assert_eq!(e.message(), "not enough bytes");
    assert!(decode_program(&[]).is_err());
}

#[test]
fn trailing_bytes_are_not_read() {
    assert_eq!(decode_program(&[0, 0, 0, 1, 0x0F, 0xEE]).unwrap(), vec![Instr::Halt]);
    assert_eq!(decode_program(&[0, 0, 0, 0]).unwrap(), Vec::<Instr>::new());
}

#[test]
fn array_opcodes_follow_the_table() {
    let bytes: Vec<u8> = vec![0, 0, 0, 4, 0x00, 0x01, 0xFF, 0xFF, 0xFF, 0xFE, 0x07, 0x08, 0x0F];
    assert_eq!(
        decode_program(&bytes).unwrap(),
        vec![Instr::Push(Val::Vi32(-2)), Instr::SetElem, Instr::Get, Instr::Halt]
    );
    assert_eq!(Instr::SetElem.to_bytes(), vec![0x07]);
    assert_eq!(Instr::Get.to_bytes(), vec![0x08]);
}

#[test]
fn error_messages_name_the_failure() {
    let empty: [u8; 0] = [];
    assert_eq!(Binop::from_bytes(&empty, 0).unwrap_err().message(), "not enough bytes");
    assert_eq!(Binop::from_bytes(&[6u8], 0).unwrap_err().message(), "unknown binop code: 6");
    assert_eq!(Unop::from_bytes(&[1u8], 0).unwrap_err().message(), "unknown unop code: 1");
    assert_eq!(u32::from_bytes(&[1u8, 2, 3], 0).unwrap_err().message(), "not enough bytes");
    assert_eq!(i32::from_bytes(&[1u8, 2, 3, 4], 1).unwrap_err().message(), "not enough bytes");
    assert_eq!(Val::from_bytes(&[255u8], 0).unwrap_err().message(), "unknown val code: 255");
    assert_eq!(Val::from_bytes(&[0x04u8, 0], 0).unwrap_err().message(), "not enough bytes");
    assert_eq!(Instr::from_bytes(&[0x30u8], 0).unwrap_err().message(), "unknown instr code: 48");
    assert_eq!(
        decode_program(&[0, 0, 0, 2, 0x0F, 0x10]).unwrap_err().message(),
        "unknown instr code: 16"
    );
    assert_eq!(
        decode_program(&[0, 0, 0, 1, 0x00, 0x09]).unwrap_err().message(),
        "unknown val code: 9"
    );
    assert_eq!(
        decode_program(&[0, 0, 0, 1, 0x03]).unwrap_err().message(),
        "not enough bytes"
    );
    assert_eq!(decode_program(&[0, 0]).unwrap_err().message(), "not enough bytes");
}
