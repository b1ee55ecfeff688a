use rcore::bits::{bitrange, sign_ext};

#[test]
fn test_bitrange() {
    assert_eq!(bitrange(0b101010, 4, 0), 0b1010);
}

#[test]
fn test_sign_ext_neg() {
    let result = sign_ext(0b10101010, 8);
    println!("{:b}", result);
    assert_eq!(result, 0b11111111111111111111111110101010);
}

#[test]
fn test_sign_ext_pos() {
    let result = sign_ext(0b10101010, 9);
    println!("{:b}", result);
    assert_eq!(result, 0b00000000000000000000000010101010);
}

#[test]
fn bitrange_of_the_whole_word_is_the_word() {
    assert_eq!(bitrange(0xDEAD_BEEF, 31, 0), 0xDEAD_BEEF);
    assert_eq!(bitrange(0, 31, 0), 0);
    assert_eq!(bitrange(0xFFFF_FFFF, 31, 0), 0xFFFF_FFFF);
}

#[test]
fn bitrange_reaches_the_top_bit() {
    assert_eq!(bitrange(0x8000_0000, 31, 31), 1);
    assert_eq!(bitrange(0x7FFF_FFFF, 31, 31), 0);
    assert_eq!(bitrange(0xFE00_0000, 31, 25), 0x7F);
    assert_eq!(bitrange(0xABCD_E2B7, 31, 12), 0xABCDE);
    assert_eq!(bitrange(0xDEAD_BEEF, 31, 1), 0x6F56_DF77);
}

#[test]
fn bitrange_of_one_bit() {
    let word: u32 = 0b1001_0110;
    let expected = [0u32, 1, 1, 0, 1, 0, 0, 1];
    for (index, bit) in expected.iter().enumerate() {
        assert_eq!(bitrange(word, index, index), *bit);
    }
}

#[test]
fn bitrange_is_right_justified() {
    assert_eq!(bitrange(0x0000_0F00, 11, 8), 0xF);
    assert_eq!(bitrange(0x0000_0F00, 11, 4), 0xF0);
    assert_eq!(bitrange(0x1234_5678, 15, 8), 0x56);
    assert_eq!(bitrange(0x1234_5678, 27, 20), 0x23);
}

#[test]
fn bitrange_agrees_with_division() {
    let words = [0u32, 1, 0x8000_0000, 0xDEAD_BEEF, 0x1234_5678, 0xFFFF_FFFF];
    for &word in words.iter() {
        for low in 0..32usize {
            for high in low..32usize {
                let width = (high - low + 1) as u32;
                let expected = ((word as u64 >> low) % (1u64 << width)) as u32;
                assert_eq!(bitrange(word, high, low), expected);
            }
        }
    }
}

#[test]
fn sign_ext_of_a_full_word_is_the_word() {
    assert_eq!(sign_ext(0x8000_0000, 32), 0x8000_0000);
    assert_eq!(sign_ext(0x7FFF_FFFF, 32), 0x7FFF_FFFF);
    assert_eq!(sign_ext(0xFFFF_F000, 32), 0xFFFF_F000);
    assert_eq!(sign_ext(0, 32), 0);
}

#[test]
fn sign_ext_of_one_bit() {
    assert_eq!(sign_ext(1, 1), 0xFFFF_FFFF);
    assert_eq!(sign_ext(0, 1), 0);
}

#[test]
fn sign_ext_at_the_widths_of_the_immediates() {
    assert_eq!(sign_ext(0x800, 12), 0xFFFF_F800);
    assert_eq!(sign_ext(0x7FF, 12), 0x0000_07FF);
    assert_eq!(sign_ext(0xFFF, 12), 0xFFFF_FFFF);
    assert_eq!(sign_ext(0x1000, 13), 0xFFFF_F000);
    assert_eq!(sign_ext(0x0FFE, 13), 0x0000_0FFE);
    assert_eq!(sign_ext(0x10_0000, 21), 0xFFF0_0000);
    assert_eq!(sign_ext(0x0F_FFFE, 21), 0x000F_FFFE);
}

#[test]
fn sign_ext_reads_the_sign_bit_alone() {
    // Bits above the sign bit do not decide: a set sign bit fills them,
    // a clear one leaves the value as it is.
    assert_eq!(sign_ext(0b110, 2), 0xFFFF_FFFE);
    assert_eq!(sign_ext(0x1_0080, 8), 0xFFFF_FF80);
    assert_eq!(sign_ext(0b101, 2), 0b101);
}

#[test]
fn sign_ext_keeps_the_signed_value() {
    for width in 1..=32usize {
        let top: u64 = 1u64 << width;
        let samples = [0u64, 1, top / 2 - 1, top / 2, top - 1];
        for &sample in samples.iter() {
            if sample >= top {
                continue;
            }
            let signed: i64 = if sample >= top / 2 { sample as i64 - top as i64 } else { sample as i64 };
            assert_eq!(sign_ext(sample as u32, width) as i32 as i64, signed);
        }
    }
}
