use fftbench::bitReverse;

#[test]
fn reverses_ten_bits() {
    assert_eq!(bitReverse(0, 10), 0);
    assert_eq!(bitReverse(1, 10), 512);
    assert_eq!(bitReverse(2, 10), 256);
    assert_eq!(bitReverse(3, 10), 768);
    assert_eq!(bitReverse(512, 10), 1);
    assert_eq!(bitReverse(0b10_1100_0001, 10), 0b10_0000_1101);
    assert_eq!(bitReverse(1023, 10), 1023);
}

#[test]
fn drops_the_bits_above_the_length() {
    assert_eq!(bitReverse(1024, 10), 0);
    assert_eq!(bitReverse(1025, 10), 512);
    assert_eq!(bitReverse(0xffff_ffff, 4), 15);
    assert_eq!(bitReverse(0xffff_fff1, 4), 8);
}

#[test]
fn reverses_one_bit_and_a_whole_word() {
    assert_eq!(bitReverse(0, 1), 0);
    assert_eq!(bitReverse(1, 1), 1);
    assert_eq!(bitReverse(1, 32), 0x8000_0000);
    assert_eq!(bitReverse(0x8000_0000, 32), 1);
    assert_eq!(bitReverse(0x1234_5678, 32), 0x1e6a_2c48);
}

#[test]
fn reversing_twice_gives_the_index_back() {
    for length in 1..=16u32 {
        for i in 0..(1u32 << length) {
            let once = bitReverse(i, length);
            assert!(once < (1u32 << length));
            assert_eq!(bitReverse(once, length), i);
        }
    }
    for i in [0u32, 1, 0x8000_0000, 0xdead_beef, 0xffff_ffff] {
        assert_eq!(bitReverse(bitReverse(i, 32), 32), i);
    }
}

#[test]
fn agrees_with_a_bit_by_bit_reversal() {
    for length in [1u32, 7, 10, 31, 32] {
        for x in [0u32, 1, 5, 1000, 0x0f0f_1234, 0xffff_ffff] {
            let mut expected: u32 = 0;
            for k in 0..length {
                if (x >> k) & 1 == 1 {
                    expected |= 1 << (length - 1 - k);
                }
            }
            assert_eq!(bitReverse(x, length), expected);
        }
    }
}
