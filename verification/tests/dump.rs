use rcore::cpu::CPU;
use rcore::dump::{push_bin, push_hex, push_spaces, DumpStyle};
use rcore::registers::PC;

fn counting_machine() -> CPU {
    let mut cpu = CPU::new();
    let data: Vec<u8> = (0..=255u8).collect();
    cpu.load(0x8000_0000, &data);
    cpu
}

fn hex(value: u32, digits: usize) -> String {
    let mut out = String::new();
    push_hex(&mut out, value, digits);
    out
}

fn bin(value: u32, digits: usize) -> String {
    let mut out = String::new();
    push_bin(&mut out, value, digits);
    out
}

#[test]
fn hex_digits_are_lowercase_and_zero_padded() {
    assert_eq!(hex(0xDEAD_BEEF, 8), "deadbeef");
    assert_eq!(hex(0x1A, 8), "0000001a");
    assert_eq!(hex(0, 8), "00000000");
    assert_eq!(hex(0x0123_4567, 8), "01234567");
    assert_eq!(hex(0x89AB_CDEF, 8), "89abcdef");
    assert_eq!(hex(0x7, 2), "07");
    assert_eq!(hex(0xF0, 2), "f0");
    assert_eq!(hex(0xABC, 1), "c");
    assert_eq!(hex(0xABC, 0), "");
    for value in [0u32, 9, 10, 0xFF, 0x8000_0000, 0xFFFF_FFFF, 0x1234_5678] {
        assert_eq!(hex(value, 8), format!("{:08x}", value));
    }
    for byte in 0..=255u8 {
        assert_eq!(hex(byte as u32, 2), format!("{:02x}", byte));
    }
}

#[test]
fn binary_digits_are_zero_padded() {
    assert_eq!(bin(0b1010_1010, 8), "10101010");
    assert_eq!(bin(1, 8), "00000001");
    assert_eq!(bin(0xFFFF_FFFE, 32), "11111111111111111111111111111110");
    assert_eq!(bin(0, 32), "00000000000000000000000000000000");
    assert_eq!(bin(5, 1), "1");
    assert_eq!(bin(5, 0), "");
    for value in [0u32, 1, 0x8000_0000, 0xFFFF_F7E0, 0x1234_5678] {
        assert_eq!(bin(value, 32), format!("{:032b}", value));
    }
    for byte in 0..=255u8 {
        assert_eq!(bin(byte as u32, 8), format!("{:08b}", byte));
    }
}

#[test]
fn push_appends_to_what_is_there() {
    let mut out = String::from("pc=");
    push_hex(&mut out, 0x8000_0004, 8);
    push_spaces(&mut out, 3);
    push_bin(&mut out, 2, 2);
    push_spaces(&mut out, 0);
    assert_eq!(out, "pc=80000004   10");
}

#[test]
fn coredump_renders_rows_of_four_words() {
    let cpu = counting_machine();
    let rows = cpu.coredump(32, DumpStyle::Hex);
    assert_eq!(
        rows,
        vec![
            "0x80000000: 0x03020100 0x07060504 0x0b0a0908 0x0f0e0d0c",
            "0x80000010: 0x13121110 0x17161514 0x1b1a1918 0x1f1e1d1c",
        ]
    );
}

#[test]
fn coredump_of_one_loaded_word() {
    let mut cpu = CPU::new();
    cpu.load(0x8000_0000, &[0x78, 0x56, 0x34, 0x12]);
    let rows = cpu.coredump(16, DumpStyle::Hex);
    assert_eq!(rows, vec!["0x80000000: 0x12345678 0x00000000 0x00000000 0x00000000"]);
    assert_eq!(rows[0].len(), 55);
}

#[test]
fn coredump_in_binary() {
    let cpu = counting_machine();
    let rows = cpu.coredump(8, DumpStyle::Bin);
    assert_eq!(
        rows,
        vec!["0x80000000: 0b00000011000000100000000100000000 0b00000111000001100000010100000100"]
    );
}

#[test]
fn coredump_cuts_the_last_row_short() {
    let cpu = counting_machine();
    let rows = cpu.coredump(20, DumpStyle::Hex);
    assert_eq!(
        rows,
        vec![
            "0x80000000: 0x03020100 0x07060504 0x0b0a0908 0x0f0e0d0c",
            "0x80000010: 0x13121110",
        ]
    );
    assert_eq!(cpu.coredump(0, DumpStyle::Hex), Vec::<String>::new());
    assert_eq!(cpu.coredump(4, DumpStyle::Hex), vec!["0x80000000: 0x03020100"]);
    assert_eq!(cpu.coredump(12, DumpStyle::Hex), vec!["0x80000000: 0x03020100 0x07060504 0x0b0a0908"]);
}

#[test]
fn coredump_rows_neither_start_nor_end_with_a_blank() {
    let cpu = counting_machine();
    for size in (0..=64usize).step_by(4) {
        for style in [DumpStyle::Hex, DumpStyle::Bin] {
            let rows = cpu.coredump(size, style);
            assert_eq!(rows.len(), (size + 15) / 16);
            for row in rows.iter() {
                assert!(!row.starts_with(' '));
                assert!(!row.ends_with(' '));
                assert!(!row.contains("  "));
            }
        }
    }
}

#[test]
fn coredump_of_four_hundred_bytes() {
    let cpu = counting_machine();
    let rows = cpu.coredump(400, DumpStyle::Hex);
    assert_eq!(rows.len(), 25);
    assert_eq!(rows[15], "0x800000f0: 0xf3f2f1f0 0xf7f6f5f4 0xfbfaf9f8 0xfffefdfc");
    assert_eq!(rows[16], "0x80000100: 0x00000000 0x00000000 0x00000000 0x00000000");
    assert_eq!(rows[24], "0x80000180: 0x00000000 0x00000000 0x00000000 0x00000000");
    let memory = cpu.memory().as_slice();
    for (index, row) in rows.iter().enumerate() {
        let words: Vec<String> = memory[16 * index..16 * index + 16]
            .chunks(4)
            .map(|chunk| format!("0x{:08x}", u32::from_le_bytes([chunk[0], chunk[1], chunk[2], chunk[3]])))
            .collect();
        let expected = format!("0x{:08x}: {}", 0x8000_0000u32 + 16 * index as u32, words.join(" "));
        assert_eq!(row, &expected);
    }
}

#[test]
fn coredump_reaches_the_end_of_memory() {
    let mut cpu = CPU::new();
    cpu.load(0x8003_FFFC, &[0xEF, 0xBE, 0xAD, 0xDE]);
    let rows = cpu.coredump(0x40000, DumpStyle::Hex);
    assert_eq!(rows.len(), 0x4000);
    assert_eq!(rows[0x3FFF], "0x8003fff0: 0x00000000 0x00000000 0x00000000 0xdeadbeef");
}

#[test]
fn mem_dump_renders_the_rows_of_the_memory_dump() {
    let mut cpu = CPU::new();
    cpu.load(0x8000_0000, &[0x78, 0x56, 0x34, 0x12]);
    assert_eq!(
        cpu.mem_dump(16, DumpStyle::Hex),
        vec!["0x80000000: 0x12345678 0x00000000 0x00000000 0x00000000"]
    );
    let cpu = counting_machine();
    assert_eq!(
        cpu.mem_dump(20, DumpStyle::Hex),
        vec![
            "0x80000000: 0x03020100 0x07060504 0x0b0a0908 0x0f0e0d0c",
            "0x80000010: 0x13121110",
        ]
    );
    assert_eq!(cpu.mem_dump(0, DumpStyle::Hex), Vec::<String>::new());
}

#[test]
fn mem_dump_in_binary() {
    let cpu = counting_machine();
    assert_eq!(
        cpu.mem_dump(4, DumpStyle::Bin),
        vec!["0x80000000: 0b00000011000000100000000100000000"]
    );
}

#[test]
fn mem_dump_and_coredump_agree() {
    let cpu = counting_machine();
    for size in [0usize, 4, 16, 20, 0x120, 400] {
        assert_eq!(cpu.mem_dump(size, DumpStyle::Hex), cpu.coredump(size, DumpStyle::Hex));
        assert_eq!(cpu.mem_dump(size, DumpStyle::Bin), cpu.coredump(size, DumpStyle::Bin));
    }
}

#[test]
fn regdump_of_a_new_machine() {
    let cpu = CPU::new();
    let lines = cpu.regdump();
    assert_eq!(lines.len(), 33);
    assert_eq!(lines[0], "Reg      Value");
    assert_eq!(lines[1], "x0    00000000");
    assert_eq!(lines[10], "x9    00000000");
    assert_eq!(lines[11], "x10   00000000");
    assert_eq!(lines[31], "x30   00000000");
    assert_eq!(lines[32], "PC    80000000");
}

#[test]
fn regdump_shows_each_register_in_hexadecimal() {
    let mut cpu = CPU::new();
    for reg in 0..32usize {
        cpu.setreg(reg, 0x0101_0101u32.wrapping_mul(reg as u32 + 1));
    }
    cpu.setreg(PC, 0x8000_01A4);
    let lines = cpu.regdump();
    assert_eq!(lines[0], format!("{:<5} {:>8}", "Reg", "Value"));
    assert_eq!(lines[1], "x0    00000000");
    for reg in 1..31usize {
        let name = format!("x{}", reg);
        assert_eq!(lines[reg + 1], format!("{:<5} {:08x}", name, cpu.getreg(reg)));
    }
    assert_eq!(lines[2], "x1    02020202");
    assert_eq!(lines[31], "x30   1f1f1f1f");
    assert_eq!(lines[32], format!("{:<5} {:08x}", "PC", 0x8000_01A4u32));
    assert_eq!(lines[32], "PC    800001a4");
    // x31 has no line of its own.
    assert!(lines.iter().all(|line| !line.starts_with("x31")));
}

#[test]
fn step_lines_log_the_word_and_the_immediates() {
    let mut cpu = CPU::new();
    // jal x0, -4
    cpu.load(0x8000_0000, &0xFFDF_F06Fu32.to_le_bytes());
    let step = cpu.step();
    assert_eq!(
        step.lines(),
        vec![
            "80000000: ffdff06f",
            "imm_i: 11111111111111111111111111111101",
            "imm_s: 11111111111111111111111111100000",
            "imm_b: 11111111111111111111011111100000",
            "imm_u: 11111111110111111111000000000000",
            "imm_j: 11111111111111111111111111111100",
        ]
    );
}

#[test]
fn step_lines_agree_with_the_formatter() {
    let mut cpu = CPU::new();
    cpu.load(0x8000_0008, &0x0202_8593u32.to_le_bytes());
    cpu.setreg(PC, 0x8000_0008);
    let step = cpu.step();
    let lines = step.lines();
    assert_eq!(lines.len(), 6);
    assert_eq!(lines[0], format!("{:08x}: {:08x}", step.pc, step.word));
    assert_eq!(lines[0], "80000008: 02028593");
    assert_eq!(lines[1], format!("imm_i: {:032b}", step.instruction.imm_i));
    assert_eq!(lines[2], format!("imm_s: {:032b}", step.instruction.imm_s));
    assert_eq!(lines[3], format!("imm_b: {:032b}", step.instruction.imm_b));
    assert_eq!(lines[4], format!("imm_u: {:032b}", step.instruction.imm_u));
    assert_eq!(lines[5], format!("imm_j: {:032b}", step.instruction.imm_j));
}
