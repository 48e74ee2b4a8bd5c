use fftbench::sqrti;

#[test]
fn small_square_roots() {
    let expected = [0, 1, 1, 1, 2, 2, 2, 2, 2, 3, 3, 3, 3, 3, 3, 3, 4];
    for (i, root) in expected.iter().enumerate() {
        assert_eq!(sqrti(i as i32), *root);
    }
}

#[test]
fn square_roots_at_the_edges() {
    assert_eq!(sqrti(0x3fff_ffff), 32767);
    assert_eq!(sqrti(32767 * 32767), 32767);
    assert_eq!(sqrti(32767 * 32767 - 1), 32766);
    assert_eq!(sqrti(261_121), 511);
    assert_eq!(sqrti(260_100), 510);
    assert_eq!(sqrti(260_099), 509);
}

#[test]
fn square_root_of_a_negative_number_is_zero() {
    assert_eq!(sqrti(-1), 0);
    assert_eq!(sqrti(-4096), 0);
    assert_eq!(sqrti(i32::MIN), 0);
}

#[test]
fn square_root_is_the_floor() {
    let mut i: i64 = 0;
    while i < (1 << 30) {
        let s = sqrti(i as i32) as i64;
        assert!(s >= 0);
        assert!(s * s <= i);
        assert!(i < (s + 1) * (s + 1));
        i += 1 + i / 97;
    }
    for s in 0..32768i64 {
        assert_eq!(sqrti((s * s) as i32) as i64, s);
        if s > 0 {
            assert_eq!(sqrti((s * s - 1) as i32) as i64, s - 1);
        }
    }
}
