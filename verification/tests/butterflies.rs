use fftbench::twiddle::{cos_window, minus_sin_window, COS};
use fftbench::{butterflies, decimate, transform, twiddle_product};

#[test]
fn an_impulse_transforms_to_a_flat_spectrum() {
    let mut bx: Vec<i32> = vec![0; 1024];
    let mut by: Vec<i32> = vec![0; 1024];
    bx[0] = 4096;
    by[0] = -3;
    decimate(&mut bx, &mut by);
    butterflies(&mut bx, &mut by);
    assert_eq!(bx, vec![4096; 1024]);
    assert_eq!(by, vec![-3; 1024]);
}

#[test]
fn a_constant_signal_transforms_to_bin_zero() {
    let mut bx: Vec<i32> = vec![1024; 1024];
    let mut by: Vec<i32> = vec![0; 1024];
    transform(&mut bx, &mut by);
    assert_eq!((bx[0], by[0]), (1_046_784, -895));
    assert_eq!((bx[1], by[1]), (354, -510));
    assert_eq!(bx[512], 128);
    assert_eq!(bx[1..].iter().map(|v| v.abs()).max(), Some(414));
    assert_eq!(by.iter().map(|v| v.abs()).max(), Some(895));
}

#[test]
fn a_complex_signal_transforms_to_known_values() {
    let mut bx: Vec<i32> = (0..1024).map(|k| (7 * k) % 257 - 128).collect();
    let mut by: Vec<i32> = (0..1024).map(|k| (11 * k) % 129 - 64).collect();
    transform(&mut bx, &mut by);
    assert_eq!(&bx[..6], &[-963, -62, -259, -439, -890, -423]);
    assert_eq!(&by[..6], &[-1138, -561, -376, -356, -372, -330]);
    assert_eq!((bx[1023], by[1023]), (-904, 256));
}

#[test]
fn sums_and_products_wrap_around_in_32_bits() {
    let mut bx: Vec<i32> =
        (0..1024).map(|k| if k % 3 == 0 { 2_000_000_000 } else { -2_000_000_000 }).collect();
    let mut by: Vec<i32> = (0..1024).map(|k| 1_999_999_999 - k).collect();
    transform(&mut bx, &mut by);
    assert_eq!(&bx[..4], &[1_999_880_990, 1_999_361_912, 2_000_017_957, 1_999_310_253]);
    assert_eq!(&by[..4], &[1_999_789_702, 2_000_608_883, 2_000_670_521, 1_999_978_534]);
    assert_eq!((bx[1023], by[1023]), (1_998_677_364, 2_000_074_958));
}

#[test]
fn one_level_on_two_samples() {
    // The first level pairs the neighbours with the twiddle factor 4095 + 0i.
    let mut bx: Vec<i32> = vec![0; 1024];
    let mut by: Vec<i32> = vec![0; 1024];
    bx[0] = 100;
    bx[1] = 4096;
    by[1] = 8192;
    butterflies(&mut bx, &mut by);
    // (4096 + 8192i) * 4095 / 4096 = 4095 + 8190i; in the three-product form
    // k1 = 4095, k2 = 0 and k3 = 4095. The later levels add zeros to both.
    assert_eq!((bx[0], by[0]), (100 + 4095, 8190));
    assert_eq!((bx[1], by[1]), (100 - 4095, -8190));
    let mut cx: Vec<i32> = vec![0; 1024];
    let mut cy: Vec<i32> = vec![0; 1024];
    cx[0] = 100;
    butterflies(&mut cx, &mut cy);
    assert_eq!(cx, vec![100; 1024]);
    assert_eq!(cy, vec![0; 1024]);
}

#[test]
fn transform_is_decimation_then_butterflies() {
    let bx0: Vec<i32> = (0..1024).map(|k| (k * k) % 4001 - 2000).collect();
    let by0: Vec<i32> = (0..1024).map(|k| (k * 13) % 911).collect();
    let (mut ax, mut ay) = (bx0.clone(), by0.clone());
    transform(&mut ax, &mut ay);
    let (mut cx, mut cy) = (bx0.clone(), by0.clone());
    decimate(&mut cx, &mut cy);
    butterflies(&mut cx, &mut cy);
    assert_eq!(ax, cx);
    assert_eq!(ay, cy);
}

#[test]
fn the_same_input_gives_the_same_output() {
    let bx0: Vec<i32> = (0..1024).map(|k| (k * 29) % 3001 - 1500).collect();
    let by0: Vec<i32> = (0..1024).map(|k| 1000 - (k * 17) % 2003).collect();
    let (mut ax, mut ay) = (bx0.clone(), by0.clone());
    let (mut cx, mut cy) = (bx0.clone(), by0.clone());
    transform(&mut ax, &mut ay);
    transform(&mut cx, &mut cy);
    assert_eq!(ax, cx);
    assert_eq!(ay, cy);
}

#[test]
fn twiddle_windows_are_slices_of_one_table() {
    assert_eq!(cos_window(0), 4095);
    assert_eq!(cos_window(255), 25);
    assert_eq!(cos_window(256), 0);
    assert_eq!(cos_window(511), -4094);
    assert_eq!(minus_sin_window(0), 0);
    assert_eq!(minus_sin_window(256), -4094);
    assert_eq!(minus_sin_window(511), -25);
    for index in 0..512usize {
        assert_eq!(cos_window(index), COS[index]);
        assert_eq!(minus_sin_window(index), COS[index + 256]);
    }
}

#[test]
fn reading_a_window_twice_gives_the_same_value() {
    for index in 0..512usize {
        assert_eq!(cos_window(index), cos_window(index));
        assert_eq!(minus_sin_window(index), minus_sin_window(index));
    }
    for index in 0..256usize {
        assert_eq!(minus_sin_window(index), cos_window(index + 256));
    }
}

#[test]
fn twiddle_product_rounds_down() {
    assert_eq!(twiddle_product(4096, 8192, 4095, 0), (4095, 8190));
    assert_eq!(twiddle_product(-1, 0, 4095, 0), (-1, -1));
    assert_eq!(twiddle_product(1000, -2000, 2896, -2896), (-707, -2122));
    assert_eq!(twiddle_product(0, 4096, 0, -4094), (4094, 0));
    assert_eq!(twiddle_product(123_456_789, -987_654_321, 1567, -3784), (-116_978, -116_004));
}

#[test]
fn twiddle_product_wraps_around() {
    assert_eq!(twiddle_product(i32::MAX, i32::MAX, 4095, 4095), (0, -2));
    assert_eq!(twiddle_product(i32::MIN, i32::MIN, -4094, 25), (-524_288, -524_288));
}
