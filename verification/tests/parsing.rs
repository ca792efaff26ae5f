//! Tests of the leaves: the opcode-table parser, the decoder's error
//! cases, the arithmetic primitives, the flag register, the textual
//! rendering and the disassembler.

use e8080::cpu::ops::get_jmp_addr;
use e8080::cpu::{Register, CPU};
use e8080::disassembler::Disassembler;
use e8080::flags::{Flag, FlagRegister};
use e8080::math;
use e8080::opcode_decoder::{DecodeError, OpcodeDecoder};
use e8080::port::{InPort, OutPort};

// ---------------------------------------------------------------------
// The opcode-table parser.
// ---------------------------------------------------------------------
#[test]
fn test_parse_basic_line() {
    let d = OpcodeDecoder::new("0x00\tNOP\t1\t4\n").unwrap();
    let op = d.get_next_op(&[0x00]).unwrap();
    assert_eq!(op.optype.opcode, 0x00);
    assert_eq!(op.instruction(), "NOP");
    assert_eq!(op.optype.len, 1);
    assert_eq!(op.optype.cycles, (4, 4));
    assert_eq!(op.arg1, None);
    assert_eq!(op.arg2, None);
}

#[test]
fn test_parse_cycles_pair() {
    let d = OpcodeDecoder::new("0xc0\tRNZ\t1\t11/5").unwrap();
    let op = d.get_next_op(&[0xc0]).unwrap();
    assert_eq!(op.optype.cycles, (11, 5));
}

#[test]
fn test_parse_skips_dash_lines() {
    let d = OpcodeDecoder::new("0x08\t-\n0x00\tNOP\t1\t4\n").unwrap();
    assert!(d.get_next_op(&[0x00]).is_ok());
    assert!(matches!(d.get_next_op(&[0x08]), Err(DecodeError::UnknownOpcode(0x08))));
}

#[test]
fn test_parse_uppercase_hex_and_crlf() {
    let d = OpcodeDecoder::new("0xAF\tXRA A\t1\t4\r\n").unwrap();
    let op = d.get_next_op(&[0xaf]).unwrap();
    assert_eq!(op.instruction(), "XRA A");
}

#[test]
fn test_parse_text_after_fourth_tab_is_ignored() {
    let d = OpcodeDecoder::new("0x00\tNOP\t1\t4\tcomment\n").unwrap();
    assert!(d.get_next_op(&[0x00]).is_ok());
}

#[test]
fn test_parse_rejects_missing_fields() {
    assert!(OpcodeDecoder::new("0x00\tNOP\t1\n").is_none());
}

#[test]
fn test_parse_rejects_bad_hex() {
    assert!(OpcodeDecoder::new("zz00\tNOP\t1\t4\n").is_none());
    assert!(OpcodeDecoder::new("0x100\tNOP\t1\t4\n").is_none());
}

#[test]
fn test_parse_rejects_bad_length() {
    assert!(OpcodeDecoder::new("0x00\tNOP\t4\t4\n").is_none());
    assert!(OpcodeDecoder::new("0x00\tNOP\t0\t4\n").is_none());
}

#[test]
fn test_parse_rejects_zero_cycles() {
    assert!(OpcodeDecoder::new("0x00\tNOP\t1\t0\n").is_none());
    assert!(OpcodeDecoder::new("0xc0\tRNZ\t1\t11/0\n").is_none());
}

#[test]
fn test_parse_rejects_non_ascii() {
    assert!(OpcodeDecoder::new("0x00\tN\u{00d6}P\t1\t4\n").is_none());
}

#[test]
fn test_parse_later_line_wins() {
    let d = OpcodeDecoder::new("0x00\tNOP\t1\t4\n0x00\tNOPLATE\t1\t8\n").unwrap();
    let op = d.get_next_op(&[0x00]).unwrap();
    assert_eq!(op.instruction(), "NOPLATE");
    assert_eq!(op.optype.cycles, (8, 8));
}

// ---------------------------------------------------------------------
// The decoder's error cases and argument convention.
// ---------------------------------------------------------------------
#[test]
fn test_decode_empty_program() {
    let d = OpcodeDecoder::new("0x00\tNOP\t1\t4\n").unwrap();
    assert!(matches!(d.get_next_op(&[]), Err(DecodeError::Empty)));
}

#[test]
fn test_decode_unknown_opcode() {
    let d = OpcodeDecoder::new("0x00\tNOP\t1\t4\n").unwrap();
    assert!(matches!(d.get_next_op(&[0x42]), Err(DecodeError::UnknownOpcode(0x42))));
}

#[test]
fn test_decode_truncated_instruction() {
    let d = OpcodeDecoder::new("0xc3\tJMP a16\t3\t10\n").unwrap();
    assert!(matches!(d.get_next_op(&[0xc3, 0x00]), Err(DecodeError::Truncated)));
}

#[test]
fn test_decode_little_endian_arguments() {
    let d = OpcodeDecoder::new("0xc3\tJMP a16\t3\t10\n").unwrap();
    let op = d.get_next_op(&[0xc3, 0x34, 0x12]).unwrap();
    assert_eq!(op.arg1, Some(0x34));
    assert_eq!(op.arg2, Some(0x12));
    assert_eq!(op.arg1(), 0x34);
    assert_eq!(op.arg2(), 0x12);
    assert_eq!(get_jmp_addr(&op), 0x1234);
}

#[test]
fn test_tick_rejects_table_with_short_length() {
    // the table claims JMP is one byte; executing it would need the
    // immediate it does not have
    let d = OpcodeDecoder::new("0xc3\tJMP a16\t1\t10\n").unwrap();
    let mut cpu = CPU::new(d);
    cpu.set_memory(0x0000, &[0xc3]);
    assert_eq!(cpu.tick(), Err(DecodeError::BadLength));
}

// ---------------------------------------------------------------------
// Arithmetic primitives.
// ---------------------------------------------------------------------
#[test]
fn test_add_4() {
    assert_eq!(math::add_4(0x0f, 0x01), (0x10, true));
    assert_eq!(math::add_4(0xf2, 0xf3), (0x05, false));
}

#[test]
fn test_add_8() {
    assert_eq!(math::add_8(200, 100), (44, true, false));
    assert_eq!(math::add_8(0x0f, 0x01), (0x10, false, true));
    assert_eq!(math::add_8(0, 0), (0, false, false));
}

#[test]
fn test_add_16() {
    assert_eq!(math::add_16(0xffff, 0x0001), (0, true));
    assert_eq!(math::add_16(0x1200, 0x0034), (0x1234, false));
}

#[test]
fn test_sub_8_borrow() {
    assert_eq!(math::sub_8(5, 10), (251, true, true));
    assert_eq!(math::sub_8(10, 5), (5, false, false));
    assert_eq!(math::sub_8(5, 0), (5, false, false));
    assert_eq!(math::sub_8(0x20, 0x01), (0x1f, false, true));
}

#[test]
fn test_negate_8() {
    assert_eq!(math::negate_8(0), (0, true, true));
    assert_eq!(math::negate_8(1), (255, false, false));
    assert_eq!(math::negate_8(0x10), (0xf0, false, true));
}

#[test]
fn test_combine_split() {
    assert_eq!(math::combine_8_to_16(0x12, 0x34), 0x1234);
    assert_eq!(math::higher_8(0x1234), 0x12);
    assert_eq!(math::lower_8(0x1234), 0x34);
}

#[test]
fn test_rot_left() {
    assert_eq!(math::rot_left(0b10110010, None), (0b01100101, true));
    assert_eq!(math::rot_left(0b00110010, Some(true)), (0b01100101, false));
    assert_eq!(math::rot_left(0b10110010, Some(false)), (0b01100100, true));
}

#[test]
fn test_rot_right() {
    assert_eq!(math::rot_right(0b00110011, None), (0b10011001, true));
    assert_eq!(math::rot_right(0b10110010, Some(true)), (0b11011001, false));
    assert_eq!(math::rot_right(0b00110011, Some(false)), (0b00011001, true));
}

// ---------------------------------------------------------------------
// The flag register.
// ---------------------------------------------------------------------
#[test]
fn test_flag_register_set_and_flip() {
    let mut f = FlagRegister::new();
    assert_eq!(f.get_all(), 0x02);
    f.set(Flag::C, true);
    assert!(f.is_set(Flag::C));
    assert!(!f.is_set(Flag::Z));
    f.flip(Flag::C);
    assert!(!f.is_set(Flag::C));
    f.set(Flag::S, true);
    f.set(Flag::P, true);
    assert_eq!(f.get_all(), 0x86);
}

#[test]
fn test_flag_register_masks_writes() {
    let mut f = FlagRegister::new();
    f.set_all(0xff);
    assert_eq!(f.get_all(), 0xd7);
    f.set_all(0x00);
    assert_eq!(f.get_all(), 0x02);
}

#[test]
fn test_flag_bits() {
    assert_eq!(Flag::S.bit(), 0x80);
    assert_eq!(Flag::Z.bit(), 0x40);
    assert_eq!(Flag::AC.bit(), 0x10);
    assert_eq!(Flag::P.bit(), 0x04);
    assert_eq!(Flag::C.bit(), 0x01);
}

#[test]
fn test_by_jmp_code() {
    assert_eq!(Flag::by_jmp_code(0xc2), (Flag::Z, false));
    assert_eq!(Flag::by_jmp_code(0xca), (Flag::Z, true));
    assert_eq!(Flag::by_jmp_code(0xd2), (Flag::C, false));
    assert_eq!(Flag::by_jmp_code(0xda), (Flag::C, true));
    assert_eq!(Flag::by_jmp_code(0xe2), (Flag::P, false));
    assert_eq!(Flag::by_jmp_code(0xea), (Flag::P, true));
    assert_eq!(Flag::by_jmp_code(0xf2), (Flag::S, false));
    assert_eq!(Flag::by_jmp_code(0xfa), (Flag::S, true));
}

#[test]
fn test_register_codes() {
    assert_eq!(Register::by_code(0x00), Register::B);
    assert_eq!(Register::by_code(0x06), Register::Memory);
    assert_eq!(Register::by_code(0x07), Register::A);
    assert_eq!(Register::pair_by_code(3), (Register::S, Register::P));
    assert_eq!(Register::pair_by_code_pushpop(3), (Register::A, Register::Flags));
}

// ---------------------------------------------------------------------
// Ports.
// ---------------------------------------------------------------------
#[test]
fn test_ports_dirty_lifecycle() {
    let mut p = OutPort::new(0);
    assert!(!p.is_dirty());
    p.write(0x12);
    assert!(p.is_dirty());
    assert_eq!(p.read(), 0x12);
    assert!(!p.is_dirty());

    let mut i = InPort::new(7);
    assert_eq!(i.read(), 7);
    i.write(9);
    assert_eq!(i.read(), 9);
}

// ---------------------------------------------------------------------
// Textual rendering.
// ---------------------------------------------------------------------
#[test]
fn test_op_to_string() {
    let d = OpcodeDecoder::new("0x3e\tMVI A,d8\t2\t7\n0xc3\tJMP a16\t3\t10\n0x00\tNOP\t1\t4\n")
        .unwrap();
    assert_eq!(d.get_next_op(&[0x00]).unwrap().to_string(), "NOP");
    assert_eq!(d.get_next_op(&[0x3e, 0x42]).unwrap().to_string(), "MVI A,d8 0x42");
    assert_eq!(d.get_next_op(&[0xc3, 0x34, 0x12]).unwrap().to_string(), "JMP a16 0x34 0x12");
}

#[test]
fn test_cpu_to_string() {
    let d = OpcodeDecoder::new("0x00\tNOP\t1\t4\n").unwrap();
    let mut cpu = CPU::new(d);
    assert_eq!(
        cpu.to_string(),
        "0x00 0x00 0x00 0x00 0x00 0x00 0x00\n0b00000010 0xf000 0x0000"
    );
    cpu.a = 0xab;
    cpu.l = 0x09;
    cpu.pc = 0x1234;
    cpu.flags.set(Flag::S, true);
    assert_eq!(
        cpu.to_string(),
        "0xab 0x00 0x00 0x00 0x00 0x00 0x09\n0b10000010 0xf000 0x1234"
    );
}

// ---------------------------------------------------------------------
// The disassembler.
// ---------------------------------------------------------------------
#[test]
fn test_disassemble_sweep() {
    let d = OpcodeDecoder::new(
        "0x00\tNOP\t1\t4\n0x3e\tMVI A,d8\t2\t7\n0xc3\tJMP a16\t3\t10\n0xaf\tXRA A\t1\t4\n",
    )
    .unwrap();
    let da = Disassembler::new(d);
    let ops = da.disassemble(&[0x00, 0x3e, 0x42, 0xc3, 0x00, 0x01, 0x08, 0xaf]);
    assert_eq!(ops.len(), 4);
    assert_eq!(ops[0].instruction(), "NOP");
    assert_eq!(ops[1].instruction(), "MVI A,d8");
    assert_eq!(ops[1].arg1, Some(0x42));
    assert_eq!(ops[2].instruction(), "JMP a16");
    assert_eq!(ops[3].instruction(), "XRA A");
}

#[test]
fn test_disassemble_skips_truncated_tail() {
    let d = OpcodeDecoder::new("0x00\tNOP\t1\t4\n0xc3\tJMP a16\t3\t10\n").unwrap();
    let da = Disassembler::new(d);
    // the cut-off JMP byte is skipped and the sweep resumes behind it
    let ops = da.disassemble(&[0x00, 0xc3, 0x00]);
    assert_eq!(ops.len(), 2);
    assert_eq!(ops[0].instruction(), "NOP");
    assert_eq!(ops[1].instruction(), "NOP");
}

// ---------------------------------------------------------------------
// The framebuffer pixel geometry.
// ---------------------------------------------------------------------
#[test]
fn test_pixel_mapping() {
    assert_eq!(e8080::render::calc_addr_in_buffer(0, 255), (0, 0));
    assert_eq!(e8080::render::calc_addr_in_buffer(0, 0), (31, 7));
    assert_eq!(e8080::render::calc_addr_in_buffer(1, 255), (32, 0));
    assert_eq!(e8080::render::calc_addr_in_buffer(223, 0), (0x1bff, 7));
    assert_eq!(e8080::render::calc_addr_in_buffer(10, 100), (10 * 32 + 19, 3));
}

#[test]
fn test_get_bit() {
    assert_eq!(e8080::render::get_bit(0b0000_0100, 2), 1);
    assert_eq!(e8080::render::get_bit(0b0000_0100, 3), 0);
    assert_eq!(e8080::render::get_bit(0b1000_0000, 7), 1);
}
