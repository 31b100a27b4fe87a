//! Opcode assignments. The values are part of the object format: new
//! opcodes are appended, existing ones never renumbered.
use vstd::prelude::*;

verus! {

pub const ADD: u8 = 1;

pub const SUB: u8 = 2;

pub const MUL: u8 = 3;

pub const MULH: u8 = 4;

pub const DIV: u8 = 5;

pub const REM: u8 = 6;

pub const AND: u8 = 7;

pub const OR: u8 = 8;

pub const XOR: u8 = 9;

pub const SLL: u8 = 10;

pub const SRL: u8 = 11;

pub const SRA: u8 = 12;

pub const SLT: u8 = 13;

pub const SLTU: u8 = 14;

pub const ADDI: u8 = 15;

pub const ANDI: u8 = 16;

pub const ORI: u8 = 17;

pub const XORI: u8 = 18;

pub const SLLI: u8 = 19;

pub const SRLI: u8 = 20;

pub const SRAI: u8 = 21;

pub const SLTI: u8 = 22;

pub const SLTIU: u8 = 23;

pub const LUI: u8 = 24;

pub const LD: u8 = 25;

pub const LW: u8 = 26;

pub const LH: u8 = 27;

pub const LB: u8 = 28;

pub const LBU: u8 = 29;

pub const LQ: u8 = 30;

pub const SD: u8 = 31;

pub const SW: u8 = 32;

pub const SH: u8 = 33;

pub const SB: u8 = 34;

pub const SQ: u8 = 35;

pub const BEQ: u8 = 36;

pub const BNE: u8 = 37;

pub const BLT: u8 = 38;

pub const BGE: u8 = 39;

pub const BLTU: u8 = 40;

pub const BGEU: u8 = 41;

pub const JAL: u8 = 42;

pub const JALR: u8 = 43;

pub const VADD: u8 = 44;

pub const VSUB: u8 = 45;

pub const VMUL: u8 = 46;

pub const VDOT: u8 = 47;

pub const VAND: u8 = 48;

pub const VOR: u8 = 49;

pub const VXOR: u8 = 50;

pub const VNOT: u8 = 51;

pub const VSPLAT: u8 = 52;

pub const VREDUCE: u8 = 53;

pub const ZIPPER: u8 = 54;

pub const TRUNC: u8 = 55;

pub const TMUL: u8 = 56;

pub const TDOT: u8 = 57;

pub const TACT: u8 = 58;

pub const TSOFTMAX: u8 = 59;

pub const NTT: u8 = 60;

pub const INVNTT: u8 = 61;

pub const POLYMUL: u8 = 62;

pub const MODRED: u8 = 63;

pub const POLYADD: u8 = 64;

pub const ENTROPY: u8 = 65;

pub const HAMMING: u8 = 66;

pub const POPCNT: u8 = 67;

pub const QRAND: u8 = 68;

pub const CADD: u8 = 69;

pub const CSUB: u8 = 70;

pub const CMUL: u8 = 71;

pub const CCONJ: u8 = 72;

pub const CNORM: u8 = 73;

pub const CMAG: u8 = 74;

pub const ECALL: u8 = 75;

pub const HALT: u8 = 76;

pub const NOP: u8 = 77;

pub const FENCE: u8 = 78;

pub const CSRR: u8 = 79;

pub const CSRW: u8 = 80;

pub const MV: u8 = 81;

pub const LI: u8 = 82;

pub const ZIPPER2: u8 = 83;

} // verus!
