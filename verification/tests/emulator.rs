//! The instruction-level tests of the CPU: one opcode at a time,
//! executed at a random address, with the registers and flags checked
//! against the 8080's definition.

use e8080::cpu::CPU;
use e8080::flags::Flag;
use e8080::machine::{ArcadeMachine, SHIFTED_VALUE_PORT, SHIFT_BY_BITS_PORT, VALUE_TO_SHIFT_PORT};
use e8080::math;
use e8080::opcode_decoder::OpcodeDecoder;
use rand::random;

/// The standard 8080 opcode description, one tab-separated line per
/// opcode; unused opcodes carry the mnemonic `-`.
pub fn opcode_table() -> String {
    let parts: [&str; 64] = [
        "0x00\tNOP\t1\t4\n0x01\tLXI B,d16\t3\t10\n0x02\tSTAX B\t1\t7\n0x03\tINX B\t1\t5\n",
        "0x04\tINR B\t1\t5\n0x05\tDCR B\t1\t5\n0x06\tMVI B,d8\t2\t7\n0x07\tRLC\t1\t4\n",
        "0x08\t-\n0x09\tDAD B\t1\t10\n0x0a\tLDAX B\t1\t7\n0x0b\tDCX B\t1\t5\n",
        "0x0c\tINR C\t1\t5\n0x0d\tDCR C\t1\t5\n0x0e\tMVI C,d8\t2\t7\n0x0f\tRRC\t1\t4\n",
        "0x10\t-\n0x11\tLXI D,d16\t3\t10\n0x12\tSTAX D\t1\t7\n0x13\tINX D\t1\t5\n",
        "0x14\tINR D\t1\t5\n0x15\tDCR D\t1\t5\n0x16\tMVI D,d8\t2\t7\n0x17\tRAL\t1\t4\n",
        "0x18\t-\n0x19\tDAD D\t1\t10\n0x1a\tLDAX D\t1\t7\n0x1b\tDCX D\t1\t5\n",
        "0x1c\tINR E\t1\t5\n0x1d\tDCR E\t1\t5\n0x1e\tMVI E,d8\t2\t7\n0x1f\tRAR\t1\t4\n",
        "0x20\t-\n0x21\tLXI H,d16\t3\t10\n0x22\tSHLD a16\t3\t16\n0x23\tINX H\t1\t5\n",
        "0x24\tINR H\t1\t5\n0x25\tDCR H\t1\t5\n0x26\tMVI H,d8\t2\t7\n0x27\tDAA\t1\t4\n",
        "0x28\t-\n0x29\tDAD H\t1\t10\n0x2a\tLHLD a16\t3\t16\n0x2b\tDCX H\t1\t5\n",
        "0x2c\tINR L\t1\t5\n0x2d\tDCR L\t1\t5\n0x2e\tMVI L,d8\t2\t7\n0x2f\tCMA\t1\t4\n",
        "0x30\t-\n0x31\tLXI SP,d16\t3\t10\n0x32\tSTA a16\t3\t13\n0x33\tINX SP\t1\t5\n",
        "0x34\tINR M\t1\t10\n0x35\tDCR M\t1\t10\n0x36\tMVI M,d8\t2\t10\n0x37\tSTC\t1\t4\n",
        "0x38\t-\n0x39\tDAD SP\t1\t10\n0x3a\tLDA a16\t3\t13\n0x3b\tDCX SP\t1\t5\n",
        "0x3c\tINR A\t1\t5\n0x3d\tDCR A\t1\t5\n0x3e\tMVI A,d8\t2\t7\n0x3f\tCMC\t1\t4\n",
        "0x40\tMOV B,B\t1\t5\n0x41\tMOV B,C\t1\t5\n0x42\tMOV B,D\t1\t5\n0x43\tMOV B,E\t1\t5\n",
        "0x44\tMOV B,H\t1\t5\n0x45\tMOV B,L\t1\t5\n0x46\tMOV B,M\t1\t7\n0x47\tMOV B,A\t1\t5\n",
        "0x48\tMOV C,B\t1\t5\n0x49\tMOV C,C\t1\t5\n0x4a\tMOV C,D\t1\t5\n0x4b\tMOV C,E\t1\t5\n",
        "0x4c\tMOV C,H\t1\t5\n0x4d\tMOV C,L\t1\t5\n0x4e\tMOV C,M\t1\t7\n0x4f\tMOV C,A\t1\t5\n",
        "0x50\tMOV D,B\t1\t5\n0x51\tMOV D,C\t1\t5\n0x52\tMOV D,D\t1\t5\n0x53\tMOV D,E\t1\t5\n",
        "0x54\tMOV D,H\t1\t5\n0x55\tMOV D,L\t1\t5\n0x56\tMOV D,M\t1\t7\n0x57\tMOV D,A\t1\t5\n",
        "0x58\tMOV E,B\t1\t5\n0x59\tMOV E,C\t1\t5\n0x5a\tMOV E,D\t1\t5\n0x5b\tMOV E,E\t1\t5\n",
        "0x5c\tMOV E,H\t1\t5\n0x5d\tMOV E,L\t1\t5\n0x5e\tMOV E,M\t1\t7\n0x5f\tMOV E,A\t1\t5\n",
        "0x60\tMOV H,B\t1\t5\n0x61\tMOV H,C\t1\t5\n0x62\tMOV H,D\t1\t5\n0x63\tMOV H,E\t1\t5\n",
        "0x64\tMOV H,H\t1\t5\n0x65\tMOV H,L\t1\t5\n0x66\tMOV H,M\t1\t7\n0x67\tMOV H,A\t1\t5\n",
        "0x68\tMOV L,B\t1\t5\n0x69\tMOV L,C\t1\t5\n0x6a\tMOV L,D\t1\t5\n0x6b\tMOV L,E\t1\t5\n",
        "0x6c\tMOV L,H\t1\t5\n0x6d\tMOV L,L\t1\t5\n0x6e\tMOV L,M\t1\t7\n0x6f\tMOV L,A\t1\t5\n",
        "0x70\tMOV M,B\t1\t7\n0x71\tMOV M,C\t1\t7\n0x72\tMOV M,D\t1\t7\n0x73\tMOV M,E\t1\t7\n",
        "0x74\tMOV M,H\t1\t7\n0x75\tMOV M,L\t1\t7\n0x76\tHLT\t1\t7\n0x77\tMOV M,A\t1\t7\n",
        "0x78\tMOV A,B\t1\t5\n0x79\tMOV A,C\t1\t5\n0x7a\tMOV A,D\t1\t5\n0x7b\tMOV A,E\t1\t5\n",
        "0x7c\tMOV A,H\t1\t5\n0x7d\tMOV A,L\t1\t5\n0x7e\tMOV A,M\t1\t7\n0x7f\tMOV A,A\t1\t5\n",
        "0x80\tADD B\t1\t4\n0x81\tADD C\t1\t4\n0x82\tADD D\t1\t4\n0x83\tADD E\t1\t4\n",
        "0x84\tADD H\t1\t4\n0x85\tADD L\t1\t4\n0x86\tADD M\t1\t7\n0x87\tADD A\t1\t4\n",
        "0x88\tADC B\t1\t4\n0x89\tADC C\t1\t4\n0x8a\tADC D\t1\t4\n0x8b\tADC E\t1\t4\n",
        "0x8c\tADC H\t1\t4\n0x8d\tADC L\t1\t4\n0x8e\tADC M\t1\t7\n0x8f\tADC A\t1\t4\n",
        "0x90\tSUB B\t1\t4\n0x91\tSUB C\t1\t4\n0x92\tSUB D\t1\t4\n0x93\tSUB E\t1\t4\n",
        "0x94\tSUB H\t1\t4\n0x95\tSUB L\t1\t4\n0x96\tSUB M\t1\t7\n0x97\tSUB A\t1\t4\n",
        "0x98\tSBB B\t1\t4\n0x99\tSBB C\t1\t4\n0x9a\tSBB D\t1\t4\n0x9b\tSBB E\t1\t4\n",
        "0x9c\tSBB H\t1\t4\n0x9d\tSBB L\t1\t4\n0x9e\tSBB M\t1\t7\n0x9f\tSBB A\t1\t4\n",
        "0xa0\tANA B\t1\t4\n0xa1\tANA C\t1\t4\n0xa2\tANA D\t1\t4\n0xa3\tANA E\t1\t4\n",
        "0xa4\tANA H\t1\t4\n0xa5\tANA L\t1\t4\n0xa6\tANA M\t1\t7\n0xa7\tANA A\t1\t4\n",
        "0xa8\tXRA B\t1\t4\n0xa9\tXRA C\t1\t4\n0xaa\tXRA D\t1\t4\n0xab\tXRA E\t1\t4\n",
        "0xac\tXRA H\t1\t4\n0xad\tXRA L\t1\t4\n0xae\tXRA M\t1\t7\n0xaf\tXRA A\t1\t4\n",
        "0xb0\tORA B\t1\t4\n0xb1\tORA C\t1\t4\n0xb2\tORA D\t1\t4\n0xb3\tORA E\t1\t4\n",
        "0xb4\tORA H\t1\t4\n0xb5\tORA L\t1\t4\n0xb6\tORA M\t1\t7\n0xb7\tORA A\t1\t4\n",
        "0xb8\tCMP B\t1\t4\n0xb9\tCMP C\t1\t4\n0xba\tCMP D\t1\t4\n0xbb\tCMP E\t1\t4\n",
        "0xbc\tCMP H\t1\t4\n0xbd\tCMP L\t1\t4\n0xbe\tCMP M\t1\t7\n0xbf\tCMP A\t1\t4\n",
        "0xc0\tRNZ\t1\t11/5\n0xc1\tPOP B\t1\t10\n0xc2\tJNZ a16\t3\t10\n0xc3\tJMP a16\t3\t10\n",
        "0xc4\tCNZ a16\t3\t17/11\n0xc5\tPUSH B\t1\t11\n0xc6\tADI d8\t2\t7\n0xc7\tRST 0\t1\t11\n",
        "0xc8\tRZ\t1\t11/5\n0xc9\tRET\t1\t10\n0xca\tJZ a16\t3\t10\n0xcb\t-\n",
        "0xcc\tCZ a16\t3\t17/11\n0xcd\tCALL a16\t3\t17\n0xce\tACI d8\t2\t7\n0xcf\tRST 1\t1\t11\n",
        "0xd0\tRNC\t1\t11/5\n0xd1\tPOP D\t1\t10\n0xd2\tJNC a16\t3\t10\n0xd3\tOUT d8\t2\t10\n",
        "0xd4\tCNC a16\t3\t17/11\n0xd5\tPUSH D\t1\t11\n0xd6\tSUI d8\t2\t7\n0xd7\tRST 2\t1\t11\n",
        "0xd8\tRC\t1\t11/5\n0xd9\t-\n0xda\tJC a16\t3\t10\n0xdb\tIN d8\t2\t10\n",
        "0xdc\tCC a16\t3\t17/11\n0xdd\t-\n0xde\tSBI d8\t2\t7\n0xdf\tRST 3\t1\t11\n",
        "0xe0\tRPO\t1\t11/5\n0xe1\tPOP H\t1\t10\n0xe2\tJPO a16\t3\t10\n0xe3\tXTHL\t1\t18\n",
        "0xe4\tCPO a16\t3\t17/11\n0xe5\tPUSH H\t1\t11\n0xe6\tANI d8\t2\t7\n0xe7\tRST 4\t1\t11\n",
        "0xe8\tRPE\t1\t11/5\n0xe9\tPCHL\t1\t5\n0xea\tJPE a16\t3\t10\n0xeb\tXCHG\t1\t5\n",
        "0xec\tCPE a16\t3\t17/11\n0xed\t-\n0xee\tXRI d8\t2\t7\n0xef\tRST 5\t1\t11\n",
        "0xf0\tRP\t1\t11/5\n0xf1\tPOP PSW\t1\t10\n0xf2\tJP a16\t3\t10\n0xf3\tDI\t1\t4\n",
        "0xf4\tCP a16\t3\t17/11\n0xf5\tPUSH PSW\t1\t11\n0xf6\tORI d8\t2\t7\n0xf7\tRST 6\t1\t11\n",
        "0xf8\tRM\t1\t11/5\n0xf9\tSPHL\t1\t5\n0xfa\tJM a16\t3\t10\n0xfb\tEI\t1\t4\n",
        "0xfc\tCM a16\t3\t17/11\n0xfd\t-\n0xfe\tCPI d8\t2\t7\n0xff\tRST 7\t1\t11\n",
    ];
    let mut s = String::new();
    for p in parts.iter() {
        s.push_str(p);
    }
    s
}

fn init_decoder() -> OpcodeDecoder {
    OpcodeDecoder::new(&opcode_table()).unwrap()
}

fn set_op_at_rnd_addr(cpu: &mut CPU, op: u8) -> u16 {
    let addr: u16 = random();
    let addr = addr & 0x1fff;

    cpu.set_memory(addr, &[op]);
    cpu.pc = addr;

    addr
}

#[test]
fn test_nop() {
    let mut cpu = CPU::new(init_decoder());

    let addr = set_op_at_rnd_addr(&mut cpu, 0x00);
    cpu.tick().unwrap();

    assert_eq!(cpu.pc, addr + 1);
}

#[test]
fn test_inr() {
    let mut cpu = CPU::new(init_decoder());

    set_op_at_rnd_addr(&mut cpu, 0x04);
    cpu.b = -4i8 as u8;
    cpu.tick().unwrap();

    assert_eq!(cpu.b as i8, -3);
    assert!(cpu.flags.is_set(Flag::S));
    assert!(!cpu.flags.is_set(Flag::Z));
    assert!(!cpu.flags.is_set(Flag::C));
    assert!(!cpu.flags.is_set(Flag::P));
}

#[test]
fn test_dcr() {
    let mut cpu = CPU::new(init_decoder());

    set_op_at_rnd_addr(&mut cpu, 0x0d);
    cpu.c = 64;
    cpu.tick().unwrap();

    assert_eq!(cpu.c as i8, 63);
    assert!(!cpu.flags.is_set(Flag::S));
    assert!(!cpu.flags.is_set(Flag::Z));
    assert!(!cpu.flags.is_set(Flag::C));
    assert!(cpu.flags.is_set(Flag::P));
}

#[test]
fn test_add() {
    let mut cpu = CPU::new(init_decoder());

    set_op_at_rnd_addr(&mut cpu, 0x80);
    cpu.a = 3;
    cpu.b = 200;
    cpu.tick().unwrap();

    assert_eq!(cpu.a, 203);
    assert!(cpu.flags.is_set(Flag::S));
    assert!(!cpu.flags.is_set(Flag::Z));
    assert!(!cpu.flags.is_set(Flag::C));
    assert!(!cpu.flags.is_set(Flag::P));
}

#[test]
fn test_add_mem() {
    let mut cpu = CPU::new(init_decoder());

    set_op_at_rnd_addr(&mut cpu, 0x86);
    cpu.a = 3;

    let mem_addr = 0xf000;
    cpu.memory.set(mem_addr, 5);
    cpu.h = math::higher_8(mem_addr);
    cpu.l = math::lower_8(mem_addr);
    cpu.tick().unwrap();

    assert_eq!(cpu.a, 8);
    assert!(!cpu.flags.is_set(Flag::S));
    assert!(!cpu.flags.is_set(Flag::Z));
    assert!(!cpu.flags.is_set(Flag::C));
    assert!(!cpu.flags.is_set(Flag::P));
}

#[test]
fn test_adc() {
    let mut cpu = CPU::new(init_decoder());

    set_op_at_rnd_addr(&mut cpu, 0x88);
    cpu.a = 3;
    cpu.b = 200;
    cpu.flags.set(Flag::C, true);
    cpu.tick().unwrap();

    assert_eq!(cpu.a, 204);
    assert!(cpu.flags.is_set(Flag::S));
    assert!(!cpu.flags.is_set(Flag::Z));
    assert!(!cpu.flags.is_set(Flag::C));
    assert!(cpu.flags.is_set(Flag::P));
}

#[test]
fn test_sub() {
    let mut cpu = CPU::new(init_decoder());

    set_op_at_rnd_addr(&mut cpu, 0x94);
    cpu.a = 5;
    cpu.h = 10;
    cpu.tick().unwrap();

    assert_eq!(cpu.a as i8, -5);
    assert!(cpu.flags.is_set(Flag::S));
    assert!(!cpu.flags.is_set(Flag::Z));
    assert!(cpu.flags.is_set(Flag::C));
    assert!(!cpu.flags.is_set(Flag::P));
}

#[test]
fn test_sub_a() {
    let mut cpu = CPU::new(init_decoder());

    set_op_at_rnd_addr(&mut cpu, 0x97);
    cpu.a = 5;
    cpu.tick().unwrap();

    assert_eq!(cpu.a, 0);
    assert!(!cpu.flags.is_set(Flag::S));
    assert!(cpu.flags.is_set(Flag::Z));
    assert!(!cpu.flags.is_set(Flag::C));
    assert!(cpu.flags.is_set(Flag::P));
}

#[test]
fn test_sbb() {
    let mut cpu = CPU::new(init_decoder());

    set_op_at_rnd_addr(&mut cpu, 0x9c);
    cpu.a = 5;
    cpu.h = 10;
    cpu.flags.set(Flag::C, true);
    cpu.tick().unwrap();

    assert_eq!(cpu.a as i8, -6);
    assert!(cpu.flags.is_set(Flag::S));
    assert!(!cpu.flags.is_set(Flag::Z));
    assert!(cpu.flags.is_set(Flag::C));
    assert!(cpu.flags.is_set(Flag::P));
}

#[test]
fn test_ana() {
    let mut cpu = CPU::new(init_decoder());

    set_op_at_rnd_addr(&mut cpu, 0xa1);
    cpu.a = 0b11111100;
    cpu.c = 0b00001111;
    cpu.tick().unwrap();

    assert_eq!(cpu.a, 0b00001100);
    assert!(!cpu.flags.is_set(Flag::S));
    assert!(!cpu.flags.is_set(Flag::Z));
    assert!(!cpu.flags.is_set(Flag::C));
    assert!(cpu.flags.is_set(Flag::P));
}

#[test]
fn test_xra() {
    let mut cpu = CPU::new(init_decoder());

    set_op_at_rnd_addr(&mut cpu, 0xa8);
    cpu.a = 0b01011100;
    cpu.b = 0b01111000;
    cpu.tick().unwrap();

    assert_eq!(cpu.a, 0b00100100);
    assert!(!cpu.flags.is_set(Flag::S));
    assert!(!cpu.flags.is_set(Flag::Z));
    assert!(!cpu.flags.is_set(Flag::C));
    assert!(cpu.flags.is_set(Flag::P));
}

#[test]
fn test_ora() {
    let mut cpu = CPU::new(init_decoder());

    set_op_at_rnd_addr(&mut cpu, 0xb1);
    cpu.a = 0b00110011;
    cpu.c = 0b00001111;
    cpu.tick().unwrap();

    assert_eq!(cpu.a, 0b00111111);
    assert!(!cpu.flags.is_set(Flag::S));
    assert!(!cpu.flags.is_set(Flag::Z));
    assert!(!cpu.flags.is_set(Flag::C));
    assert!(cpu.flags.is_set(Flag::P));
}

#[test]
fn test_mov() {
    let mut cpu = CPU::new(init_decoder());

    set_op_at_rnd_addr(&mut cpu, 0x6a);
    cpu.l = 5;
    cpu.d = 83;
    cpu.tick().unwrap();

    assert_eq!(cpu.l, 83);
}

#[test]
fn test_mov_from_mem() {
    let mut cpu = CPU::new(init_decoder());

    set_op_at_rnd_addr(&mut cpu, 0x5e);
    cpu.e = 5;

    let mem_addr = 0xf0a0;
    cpu.memory.set(mem_addr, 12);
    cpu.h = math::higher_8(mem_addr);
    cpu.l = math::lower_8(mem_addr);
    cpu.tick().unwrap();

    assert_eq!(cpu.e, 12);
}

#[test]
fn test_mov_to_mem() {
    let mut cpu = CPU::new(init_decoder());

    set_op_at_rnd_addr(&mut cpu, 0x74);
    let mem_addr = 0xf0a0;
    cpu.memory.set(mem_addr, 12);
    cpu.h = math::higher_8(mem_addr);
    cpu.l = math::lower_8(mem_addr);
    cpu.tick().unwrap();

    assert_eq!(cpu.memory.get(mem_addr), 0xf0);
}

#[test]
fn test_ral() {
    let mut cpu = CPU::new(init_decoder());

    set_op_at_rnd_addr(&mut cpu, 0x17);
    cpu.a = 0b00110010;
    cpu.flags.set(Flag::C, true);
    cpu.tick().unwrap();

    assert_eq!(cpu.a, 0b01100101);
    assert!(!cpu.flags.is_set(Flag::C));
}

#[test]
fn test_ral_no_carry() {
    let mut cpu = CPU::new(init_decoder());

    set_op_at_rnd_addr(&mut cpu, 0x17);
    cpu.a = 0b10110010;
    cpu.tick().unwrap();

    assert_eq!(cpu.a, 0b01100100);
    assert!(cpu.flags.is_set(Flag::C));
}

#[test]
fn test_rar() {
    let mut cpu = CPU::new(init_decoder());

    set_op_at_rnd_addr(&mut cpu, 0x1f);
    cpu.a = 0b10110010;
    cpu.flags.set(Flag::C, true);
    cpu.tick().unwrap();

    assert_eq!(cpu.a, 0b11011001);
    assert!(!cpu.flags.is_set(Flag::C));
}

#[test]
fn test_rar_no_carry() {
    let mut cpu = CPU::new(init_decoder());

    set_op_at_rnd_addr(&mut cpu, 0x1f);
    cpu.a = 0b10110011;
    cpu.tick().unwrap();

    assert_eq!(cpu.a, 0b01011001);
    assert!(cpu.flags.is_set(Flag::C));
}

#[test]
fn test_inx() {
    let mut cpu = CPU::new(init_decoder());

    set_op_at_rnd_addr(&mut cpu, 0x03);
    cpu.b = 2i8 as u8;
    cpu.c = -1i8 as u8;
    cpu.tick().unwrap();

    assert_eq!(cpu.b as i8, 3);
    assert_eq!(cpu.c as i8, 0);
}

#[test]
fn test_dcx() {
    let mut cpu = CPU::new(init_decoder());

    set_op_at_rnd_addr(&mut cpu, 0x1b);
    cpu.d = 4;
    cpu.e = 0;
    cpu.tick().unwrap();

    assert_eq!(cpu.d, 3);
    assert_eq!(cpu.e, 255);
}

#[test]
fn test_dad() {
    let mut cpu = CPU::new(init_decoder());

    set_op_at_rnd_addr(&mut cpu, 0x09);
    cpu.b = 4;
    cpu.c = 255;
    cpu.h = 4;
    cpu.l = 1;
    cpu.tick().unwrap();

    assert_eq!(cpu.b, 4);
    assert_eq!(cpu.c, 255);
    assert_eq!(cpu.h, 9);
    assert_eq!(cpu.l, 0);
    assert!(!cpu.flags.is_set(Flag::C));
}

#[test]
fn test_dad_carry() {
    let mut cpu = CPU::new(init_decoder());

    set_op_at_rnd_addr(&mut cpu, 0x09);
    cpu.b = 255;
    cpu.c = 255;
    cpu.h = 0;
    cpu.l = 1;
    cpu.tick().unwrap();

    assert_eq!(cpu.b, 255);
    assert_eq!(cpu.c, 255);
    assert_eq!(cpu.h, 0);
    assert_eq!(cpu.l, 0);
    assert!(cpu.flags.is_set(Flag::C));
}

#[test]
fn test_daa() {
    let mut cpu = CPU::new(init_decoder());

    set_op_at_rnd_addr(&mut cpu, 0x27);
    cpu.a = 0b10011011;
    cpu.tick().unwrap();

    assert_eq!(cpu.a, 1);
    assert!(cpu.flags.is_set(Flag::C));
    assert!(cpu.flags.is_set(Flag::AC));
}

#[test]
fn test_stax() {
    let mut cpu = CPU::new(init_decoder());

    set_op_at_rnd_addr(&mut cpu, 0x02);
    cpu.a = 93;

    let mem_addr = 0xd033;
    cpu.memory.set(mem_addr, 33);
    cpu.b = math::higher_8(mem_addr);
    cpu.c = math::lower_8(mem_addr);
    cpu.tick().unwrap();

    assert_eq!(cpu.memory.get(mem_addr), 93);
}

#[test]
fn ldax() {
    let mut cpu = CPU::new(init_decoder());

    set_op_at_rnd_addr(&mut cpu, 0x1a);
    cpu.a = 3;

    let mem_addr = 0xd011;
    cpu.memory.set(mem_addr, 54);
    cpu.d = math::higher_8(mem_addr);
    cpu.e = math::lower_8(mem_addr);
    cpu.tick().unwrap();

    assert_eq!(cpu.a, 54);
}

// ---------------------------------------------------------------------
// Whole-machine scenarios.
// ---------------------------------------------------------------------
#[test]
fn test_nop_at_fixed_address() {
    let mut cpu = CPU::new(init_decoder());
    cpu.set_memory(0x1234, &[0x00]);
    cpu.pc = 0x1234;
    let flags_before = cpu.flags.get_all();

    let cycles = cpu.tick().unwrap();

    assert_eq!(cpu.pc, 0x1235);
    assert_eq!(cpu.flags.get_all(), flags_before);
    assert_eq!(cycles, 4);
}

#[test]
fn test_add_cycles() {
    let mut cpu = CPU::new(init_decoder());
    cpu.set_memory(0x0100, &[0x80]);
    cpu.pc = 0x0100;
    cpu.a = 3;
    cpu.b = 200;

    let cycles = cpu.tick().unwrap();

    assert_eq!(cpu.a, 203);
    assert!(cpu.flags.is_set(Flag::S));
    assert!(!cpu.flags.is_set(Flag::Z));
    assert!(!cpu.flags.is_set(Flag::C));
    assert!(!cpu.flags.is_set(Flag::P));
    assert_eq!(cycles, 4);
}

#[test]
fn test_sub_cycles() {
    let mut cpu = CPU::new(init_decoder());
    cpu.set_memory(0x0100, &[0x94]);
    cpu.pc = 0x0100;
    cpu.a = 5;
    cpu.h = 10;

    let cycles = cpu.tick().unwrap();

    assert_eq!(cpu.a, 0xFB);
    assert!(cpu.flags.is_set(Flag::S));
    assert!(!cpu.flags.is_set(Flag::Z));
    assert!(cpu.flags.is_set(Flag::C));
    assert!(!cpu.flags.is_set(Flag::P));
    assert_eq!(cycles, 4);
}

#[test]
fn test_lxi_sp() {
    let mut cpu = CPU::new(init_decoder());
    cpu.set_memory(0x0200, &[0x31, 0x34, 0x12]);
    cpu.pc = 0x0200;

    let cycles = cpu.tick().unwrap();

    assert_eq!(cpu.sp, 0x1234);
    assert_eq!(cpu.pc, 0x0203);
    assert_eq!(cycles, 10);
}

#[test]
fn test_jnz_taken_and_not_taken() {
    let mut cpu = CPU::new(init_decoder());
    cpu.set_memory(0x0000, &[0xc2, 0x00, 0x20]);
    cpu.flags.set(Flag::Z, false);
    let cycles = cpu.tick().unwrap();
    assert_eq!(cpu.pc, 0x2000);
    assert_eq!(cycles, 10);

    let mut cpu = CPU::new(init_decoder());
    cpu.set_memory(0x0000, &[0xc2, 0x00, 0x20]);
    cpu.flags.set(Flag::Z, true);
    let cycles = cpu.tick().unwrap();
    assert_eq!(cpu.pc, 0x0003);
    assert_eq!(cycles, 10);
}

#[test]
fn test_cnz_cycles_differ() {
    let mut cpu = CPU::new(init_decoder());
    cpu.set_memory(0x0000, &[0xc4, 0x00, 0x20]);
    cpu.flags.set(Flag::Z, false);
    let cycles = cpu.tick().unwrap();
    assert_eq!(cpu.pc, 0x2000);
    assert_eq!(cycles, 17);

    let mut cpu = CPU::new(init_decoder());
    cpu.set_memory(0x0000, &[0xc4, 0x00, 0x20]);
    cpu.flags.set(Flag::Z, true);
    let cycles = cpu.tick().unwrap();
    assert_eq!(cpu.pc, 0x0003);
    assert_eq!(cycles, 11);
}

#[test]
fn test_ret_cycles_differ() {
    let mut cpu = CPU::new(init_decoder());
    cpu.set_memory(0x0000, &[0xc0]);
    cpu.flags.set(Flag::Z, false);
    let cycles = cpu.tick().unwrap();
    assert_eq!(cycles, 11);

    let mut cpu = CPU::new(init_decoder());
    cpu.set_memory(0x0000, &[0xc0]);
    cpu.flags.set(Flag::Z, true);
    let cycles = cpu.tick().unwrap();
    assert_eq!(cpu.pc, 0x0001);
    assert_eq!(cycles, 5);
}

#[test]
fn test_call_ret_round_trip() {
    let mut cpu = CPU::new(init_decoder());
    cpu.sp = 0xf000;
    cpu.set_memory(0x0000, &[0xcd, 0x00, 0x01]);
    cpu.set_memory(0x0100, &[0xc9]);

    cpu.tick().unwrap();
    assert_eq!(cpu.pc, 0x0100);
    assert_eq!(cpu.sp, 0xeffe);
    assert_eq!(cpu.memory.get(0xeffe), 0x03);
    assert_eq!(cpu.memory.get(0xefff), 0x00);

    cpu.tick().unwrap();
    assert_eq!(cpu.pc, 0x0003);
    assert_eq!(cpu.sp, 0xf000);
}

#[test]
fn test_push_pop_restores_pair() {
    let mut cpu = CPU::new(init_decoder());
    cpu.sp = 0xf000;
    cpu.d = 0xab;
    cpu.e = 0xcd;
    cpu.set_memory(0x0000, &[0xd5, 0xd1]);

    cpu.tick().unwrap();
    cpu.d = 0;
    cpu.e = 0;
    cpu.tick().unwrap();

    assert_eq!(cpu.d, 0xab);
    assert_eq!(cpu.e, 0xcd);
    assert_eq!(cpu.sp, 0xf000);
}

#[test]
fn test_push_pop_psw_restores_flags() {
    let mut cpu = CPU::new(init_decoder());
    cpu.sp = 0xf000;
    cpu.a = 0x5a;
    cpu.flags.set(Flag::C, true);
    cpu.flags.set(Flag::S, true);
    let f_before = cpu.flags.get_all();
    cpu.set_memory(0x0000, &[0xf5, 0xf1]);

    cpu.tick().unwrap();
    cpu.a = 0;
    cpu.flags.set(Flag::C, false);
    cpu.flags.set(Flag::S, false);
    cpu.tick().unwrap();

    assert_eq!(cpu.a, 0x5a);
    assert_eq!(cpu.flags.get_all(), f_before);
    assert_eq!(cpu.sp, 0xf000);
}

#[test]
fn test_flag_byte_reserved_bits_after_pop_psw() {
    let mut cpu = CPU::new(init_decoder());
    cpu.sp = 0xf000;
    cpu.memory.set(0xf000, 0xff);
    cpu.memory.set(0xf001, 0xff);
    cpu.set_memory(0x0000, &[0xf1]);

    cpu.tick().unwrap();

    let f = cpu.flags.get_all();
    assert_eq!(f & 0x28, 0);
    assert_eq!(f & 0x02, 0x02);
}

#[test]
fn test_inx_dcx_leave_flags() {
    let mut cpu = CPU::new(init_decoder());
    cpu.flags.set(Flag::C, true);
    cpu.flags.set(Flag::Z, true);
    let f_before = cpu.flags.get_all();
    cpu.set_memory(0x0000, &[0x03, 0x0b, 0xeb, 0xf9, 0xe9]);

    cpu.tick().unwrap();
    cpu.tick().unwrap();
    cpu.tick().unwrap();
    cpu.tick().unwrap();
    cpu.tick().unwrap();

    assert_eq!(cpu.flags.get_all(), f_before);
}

#[test]
fn test_halt_idles_until_interrupt() {
    let mut cpu = CPU::new(init_decoder());
    cpu.sp = 0xf000;
    cpu.set_memory(0x0000, &[0x76]);

    let cycles = cpu.tick().unwrap();
    assert_eq!(cycles, 7);
    assert_eq!(cpu.pc, 0x0001);

    let cycles = cpu.tick().unwrap();
    assert_eq!(cycles, 4);
    assert_eq!(cpu.pc, 0x0001);

    let cycles = cpu.interrupt(2);
    assert_eq!(cycles, 11);
    assert_eq!(cpu.pc, 0x0010);
    assert_eq!(cpu.memory.get(0xefff), 0x00);
    assert_eq!(cpu.memory.get(0xeffe), 0x01);
}

#[test]
fn test_unknown_opcode_is_fatal() {
    let mut cpu = CPU::new(init_decoder());
    cpu.set_memory(0x0000, &[0x08]);

    assert_eq!(cpu.tick(), Err(e8080::opcode_decoder::DecodeError::UnknownOpcode(0x08)));
    assert_eq!(cpu.pc, 0x0000);
}

#[test]
fn test_in_out_ports() {
    let mut cpu = CPU::new(init_decoder());
    cpu.set_in_port(5, 0x77);
    cpu.set_memory(0x0000, &[0xdb, 0x05, 0xd3, 0x06]);

    cpu.tick().unwrap();
    assert_eq!(cpu.a, 0x77);

    cpu.tick().unwrap();
    let (val, dirty) = cpu.get_out_port(6);
    assert_eq!(val, 0x77);
    assert!(dirty);
    let (_, dirty) = cpu.get_out_port(6);
    assert!(!dirty);
}

#[test]
fn test_xthl_swaps_with_stack() {
    let mut cpu = CPU::new(init_decoder());
    cpu.sp = 0xf000;
    cpu.h = 0x12;
    cpu.l = 0x34;
    cpu.memory.set(0xf000, 0xcd);
    cpu.memory.set(0xf001, 0xab);
    cpu.set_memory(0x0000, &[0xe3]);

    cpu.tick().unwrap();

    assert_eq!(cpu.h, 0xab);
    assert_eq!(cpu.l, 0xcd);
    assert_eq!(cpu.memory.get(0xf001), 0x12);
    assert_eq!(cpu.memory.get(0xf000), 0x34);
    assert_eq!(cpu.sp, 0xf000);
}

#[test]
fn test_cmp_keeps_register() {
    let mut cpu = CPU::new(init_decoder());
    cpu.a = 5;
    cpu.b = 10;
    cpu.set_memory(0x0000, &[0xb8]);

    cpu.tick().unwrap();

    assert_eq!(cpu.a, 5);
    assert!(cpu.flags.is_set(Flag::C));
    assert!(!cpu.flags.is_set(Flag::Z));
}

// ---------------------------------------------------------------------
// The arcade machine and its shift peripheral.
// ---------------------------------------------------------------------
#[test]
fn test_shift_register() {
    let mut machine = ArcadeMachine::new(init_decoder(), &[]);

    machine.cpu.set_out_port(VALUE_TO_SHIFT_PORT, 0b01110011);
    machine.update_ports();

    assert_eq!(machine.cpu.get_in_port(SHIFTED_VALUE_PORT), 0b01110011);
}

#[test]
fn test_shift_register_offset() {
    let mut machine = ArcadeMachine::new(init_decoder(), &[]);

    machine.cpu.set_out_port(VALUE_TO_SHIFT_PORT, 0b01110011);
    machine.cpu.set_out_port(SHIFT_BY_BITS_PORT, 3);
    machine.update_ports();

    assert_eq!(machine.cpu.get_in_port(SHIFTED_VALUE_PORT), 0b10011000);
}

#[test]
fn test_shift_register_multiple() {
    let mut machine = ArcadeMachine::new(init_decoder(), &[]);

    machine.cpu.set_out_port(VALUE_TO_SHIFT_PORT, 0b01110011);
    machine.update_ports();

    assert_eq!(machine.cpu.get_in_port(SHIFTED_VALUE_PORT), 0b01110011);

    machine.cpu.set_out_port(VALUE_TO_SHIFT_PORT, 0b01010101);

    machine.cpu.set_out_port(SHIFT_BY_BITS_PORT, 3);
    machine.cpu.get_out_port(SHIFT_BY_BITS_PORT);

    machine.update_ports();

    assert_eq!(machine.cpu.get_in_port(SHIFTED_VALUE_PORT), 0b10101011);
}

#[test]
fn test_shift_register_multiple2() {
    let mut machine = ArcadeMachine::new(init_decoder(), &[]);

    machine.cpu.set_out_port(VALUE_TO_SHIFT_PORT, 0x38);
    machine.update_ports();
    machine.cpu.set_out_port(VALUE_TO_SHIFT_PORT, 0xF1);
    machine.update_ports();
    machine.cpu.set_out_port(VALUE_TO_SHIFT_PORT, 0xFF);
    machine.update_ports();
    machine.cpu.set_out_port(VALUE_TO_SHIFT_PORT, 0x80);
    machine.update_ports();
    machine.cpu.set_out_port(VALUE_TO_SHIFT_PORT, 0x0E);
    machine.cpu.set_out_port(SHIFT_BY_BITS_PORT, 3);
    machine.update_ports();

    assert_eq!(machine.cpu.get_in_port(SHIFTED_VALUE_PORT), 0b01110100);
}

#[test]
fn test_machine_initial_ports() {
    let mut machine = ArcadeMachine::new(init_decoder(), &[]);

    assert_eq!(machine.cpu.get_in_port(0), 0b00001110);
    assert_eq!(machine.cpu.get_in_port(1), 0b00001000);
    assert_eq!(machine.cpu.get_in_port(2), 0b00001000);
    assert_eq!(machine.cpu.sp, 0xf000);
    assert_eq!(machine.cpu.flags.get_all(), 0x02);
}

#[test]
fn test_machine_run_budget() {
    // a tight loop: JMP 0x0000
    let mut machine = ArcadeMachine::new(init_decoder(), &[0xc3, 0x00, 0x00]);

    let spent = machine.run(1000).unwrap();
    assert!(spent >= 1000);
    assert!(spent < 1000 + 255);
}

#[test]
fn test_machine_run_stops_on_fatal_opcode() {
    let mut machine = ArcadeMachine::new(init_decoder(), &[0x08]);

    assert_eq!(
        machine.run(100),
        Err(e8080::opcode_decoder::DecodeError::UnknownOpcode(0x08))
    );
}

#[test]
fn test_key_toggles() {
    let mut machine = ArcadeMachine::new(init_decoder(), &[]);

    machine.coin_key_toggle(true);
    assert_eq!(machine.cpu.get_in_port(1) & 0x01, 0x01);
    machine.coin_key_toggle(false);
    assert_eq!(machine.cpu.get_in_port(1) & 0x01, 0x00);

    machine.start_p1_key_toggle(true);
    assert_eq!(machine.cpu.get_in_port(1) & 0x04, 0x04);
    machine.fire_p1_key_toggle(true);
    assert_eq!(machine.cpu.get_in_port(1) & 0x10, 0x10);
    machine.left_p1_key_toggle(true);
    assert_eq!(machine.cpu.get_in_port(1) & 0x20, 0x20);
    machine.right_p1_key_toggle(true);
    assert_eq!(machine.cpu.get_in_port(1) & 0x40, 0x40);
    // the DIP-switch default bit is still there
    assert_eq!(machine.cpu.get_in_port(1) & 0x08, 0x08);
}

#[test]
fn test_render_buffer_window() {
    let mut machine = ArcadeMachine::new(init_decoder(), &[]);
    machine.cpu.memory.set(0x2400, 0xaa);
    machine.cpu.memory.set(0x3fff, 0x55);

    let buf = machine.get_render_buffer();
    assert_eq!(buf.len(), 0x1c00);
    assert_eq!(buf[0], 0xaa);
    assert_eq!(buf[0x1bff], 0x55);
}

#[test]
fn test_signal_render_interrupts() {
    let mut machine = ArcadeMachine::new(init_decoder(), &[]);
    machine.cpu.sp = 0xf000;
    machine.cpu.pc = 0x1234;

    machine.signal_half_render();
    assert_eq!(machine.cpu.pc, 0x0008);
    assert_eq!(machine.cpu.memory.get(0xefff), 0x12);
    assert_eq!(machine.cpu.memory.get(0xeffe), 0x34);

    machine.cpu.pc = 0x4321;
    machine.signal_finish_render();
    assert_eq!(machine.cpu.pc, 0x0010);
}

#[test]
fn test_small_loop_program() {
    // B starts at 5; A accumulates B while B counts down: 5+4+3+2+1
    let mut cpu = CPU::new(init_decoder());
    cpu.set_memory(
        0x0000,
        &[
            0x06, 0x05, // MVI B, 5
            0x3e, 0x00, // MVI A, 0
            0x80, // ADD B
            0x05, // DCR B
            0xc2, 0x04, 0x00, // JNZ 0x0004
            0x76, // HLT
        ],
    );

    while !cpu.halted {
        cpu.tick().unwrap();
    }

    assert_eq!(cpu.a, 15);
    assert_eq!(cpu.b, 0);
    assert_eq!(cpu.pc, 0x000a);
}

#[test]
fn test_ei_di_latch() {
    let mut cpu = CPU::new(init_decoder());
    cpu.set_memory(0x0000, &[0xfb, 0xf3]);

    assert!(!cpu.enable_interrupts);
    cpu.tick().unwrap();
    assert!(cpu.enable_interrupts);
    cpu.tick().unwrap();
    assert!(!cpu.enable_interrupts);
}
