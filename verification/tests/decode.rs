use rcore::decode::{decode, DecodedInstruction};
use rcore::{funct3, ops};

#[test]
fn decode_reads_the_fixed_fields() {
    // addi sp, sp, -16
    let d = decode(0xFF01_0113);
    assert_eq!(d.opcode, 0x13);
    assert_eq!(d.opcode, ops::IMM);
    assert_eq!(d.funct3, funct3::ADDI as u32);
    assert_eq!(d.funct7, 0x7F);
    assert_eq!(d.rd, 2);
    assert_eq!(d.rs1, 2);
    assert_eq!(d.rs2, 16);
}

#[test]
fn decode_i_type_immediate() {
    // addi sp, sp, -16
    assert_eq!(decode(0xFF01_0113).imm_i, 0xFFFF_FFF0);
    assert_eq!(decode(0xFF01_0113).imm_i as i32, -16);
    // addi x1, x2, -1
    assert_eq!(decode(0xFFF1_0093).imm_i, 0xFFFF_FFFF);
    // lw x5, 2047(x6)
    let d = decode(0x7FF3_2283);
    assert_eq!(d.opcode, ops::LOAD);
    assert_eq!(d.funct3, funct3::LW as u32);
    assert_eq!(d.imm_i, 2047);
    assert_eq!(d.rd, 5);
    assert_eq!(d.rs1, 6);
}

#[test]
fn decode_s_type_immediate() {
    // sw x7, -20(x8)
    let d = decode(0xFE74_2623);
    assert_eq!(d.opcode, ops::STORE);
    assert_eq!(d.funct3, funct3::SW as u32);
    assert_eq!(d.rs1, 8);
    assert_eq!(d.rs2, 7);
    assert_eq!(d.imm_s, 0xFFFF_FFEC);
    assert_eq!(d.imm_s as i32, -20);
    // sw x1, 2047(x2)
    assert_eq!(decode(0x7E11_2FA3).imm_s, 2047);
}

#[test]
fn decode_b_type_immediate() {
    // beq x1, x2, -8
    let d = decode(0xFE20_8CE3);
    assert_eq!(d.opcode, ops::BRANCH);
    assert_eq!(d.funct3, funct3::BEQ as u32);
    assert_eq!(d.rs1, 1);
    assert_eq!(d.rs2, 2);
    assert_eq!(d.imm_b, 0xFFFF_FFF8);
    assert_eq!(d.imm_b as i32, -8);
    // bne x10, x11, +2050: bit 11 of the offset sits in bit 7 of the word
    let d = decode(0x00B5_11E3);
    assert_eq!(d.funct3, funct3::BNE as u32);
    assert_eq!(d.rs1, 10);
    assert_eq!(d.rs2, 11);
    assert_eq!(d.imm_b, 0x802);
    // bge x5, x6, +4094: the largest forward offset
    let d = decode(0x7E62_DFE3);
    assert_eq!(d.funct3, funct3::BGE as u32);
    assert_eq!(d.imm_b, 4094);
}

#[test]
fn decode_u_type_immediate() {
    // lui x5, 0xABCDE
    let d = decode(0xABCD_E2B7);
    assert_eq!(d.opcode, ops::LUI);
    assert_eq!(d.rd, 5);
    assert_eq!(d.imm_u, 0xABCD_E000);
    // auipc x3, 0x80000
    let d = decode(0x8000_0197);
    assert_eq!(d.opcode, ops::AUIPC);
    assert_eq!(d.rd, 3);
    assert_eq!(d.imm_u, 0x8000_0000);
}

#[test]
fn decode_j_type_immediate() {
    // jal x0, -4
    let d = decode(0xFFDF_F06F);
    assert_eq!(d.opcode, ops::JAL);
    assert_eq!(d.rd, 0);
    assert_eq!(d.imm_j, 0xFFFF_FFFC);
    assert_eq!(d.imm_j as i32, -4);
    // jal x1, +2048: bit 11 of the offset sits in bit 20 of the word
    let d = decode(0x0010_00EF);
    assert_eq!(d.rd, 1);
    assert_eq!(d.imm_j, 0x800);
    // jal x1, +0xFF7FE
    assert_eq!(decode(0x7FEF_F0EF).imm_j, 0x000F_F7FE);
}

#[test]
fn decode_gives_all_five_immediates_for_every_word() {
    assert_eq!(
        decode(0xFFDF_F06F),
        DecodedInstruction {
            opcode: 0x6F,
            funct3: 7,
            funct7: 0x7F,
            rd: 0,
            rs1: 31,
            rs2: 29,
            imm_i: 0xFFFF_FFFD,
            imm_s: 0xFFFF_FFE0,
            imm_b: 0xFFFF_F7E0,
            imm_u: 0xFFDF_F000,
            imm_j: 0xFFFF_FFFC,
        }
    );
    assert_eq!(
        decode(0x0202_8593),
        DecodedInstruction {
            opcode: 0x13,
            funct3: 0,
            funct7: 1,
            rd: 11,
            rs1: 5,
            rs2: 0,
            imm_i: 0x20,
            imm_s: 0x2B,
            imm_b: 0x82A,
            imm_u: 0x0202_8000,
            imm_j: 0x0002_8020,
        }
    );
}

#[test]
fn decode_of_the_extreme_words() {
    assert_eq!(
        decode(0),
        DecodedInstruction {
            opcode: 0,
            funct3: 0,
            funct7: 0,
            rd: 0,
            rs1: 0,
            rs2: 0,
            imm_i: 0,
            imm_s: 0,
            imm_b: 0,
            imm_u: 0,
            imm_j: 0,
        }
    );
    assert_eq!(
        decode(0xFFFF_FFFF),
        DecodedInstruction {
            opcode: 0x7F,
            funct3: 7,
            funct7: 0x7F,
            rd: 31,
            rs1: 31,
            rs2: 31,
            imm_i: 0xFFFF_FFFF,
            imm_s: 0xFFFF_FFFF,
            imm_b: 0xFFFF_FFFE,
            imm_u: 0xFFFF_F000,
            imm_j: 0xFFFF_FFFE,
        }
    );
}

fn branch_word(offset: i32) -> u32 {
    let imm = offset as u32;
    (((imm >> 12) & 1) << 31) | (((imm >> 5) & 0x3F) << 25) | (((imm >> 1) & 0xF) << 8)
        | (((imm >> 11) & 1) << 7) | 0x63
}

fn jump_word(offset: i32) -> u32 {
    let imm = offset as u32;
    (((imm >> 20) & 1) << 31) | (((imm >> 1) & 0x3FF) << 21) | (((imm >> 11) & 1) << 20)
        | (((imm >> 12) & 0xFF) << 12) | 0x6F
}

#[test]
fn branch_offsets_survive_encoding() {
    let mut offset: i32 = -4096;
    while offset <= 4094 {
        assert_eq!(decode(branch_word(offset)).imm_b as i32, offset);
        offset += 2;
    }
}

#[test]
fn jump_offsets_survive_encoding() {
    let mut offset: i32 = -(1 << 20);
    while offset < (1 << 20) {
        assert_eq!(decode(jump_word(offset)).imm_j as i32, offset);
        offset += 0x3FE;
    }
    assert_eq!(decode(jump_word((1 << 20) - 2)).imm_j as i32, (1 << 20) - 2);
}

#[test]
fn the_tables_name_the_field_values() {
    assert_eq!(ops::LUI, 0b0110111);
    assert_eq!(ops::LOAD, 0b0000011);
    assert_eq!(ops::STORE, 0b0100011);
    assert_eq!(ops::AUIPC, 0b0010111);
    assert_eq!(ops::JAL, 0b1101111);
    assert_eq!(ops::JALR, 0b1100111);
    assert_eq!(ops::BRANCH, 0b1100011);
    assert_eq!(ops::OP, 0b0110011);
    assert_eq!(ops::IMM, 0b0010011);
    assert_eq!(ops::MISC, 0b0001111);
    assert_eq!(ops::SYSTEM, 0b1110011);
    assert_eq!(funct3::ADD, 0);
    assert_eq!(funct3::SLLI, 1);
    assert_eq!(funct3::SLT, 2);
    assert_eq!(funct3::SLTU, 3);
    assert_eq!(funct3::XOR, 4);
    assert_eq!(funct3::SRL, 5);
    assert_eq!(funct3::SRA, 5);
    assert_eq!(funct3::OR, 6);
    assert_eq!(funct3::AND, 7);
    assert_eq!(funct3::BGEU, 7);
    assert_eq!(funct3::LHU, 5);
    assert_eq!(funct3::FENCEI, 1);
    assert_eq!(funct3::CSRRCI, 7);
}
