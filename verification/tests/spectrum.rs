use fftbench::signal::INPUT_WAVE;
use fftbench::{fillInput, magnitude, spectrum, spectrum_line, transform};

fn known_spectrum() -> Vec<(usize, i32)> {
    let mut bx: Vec<i32> = vec![0; 1024];
    let mut by: Vec<i32> = vec![0; 1024];
    fillInput(&INPUT_WAVE, &mut bx, &mut by);
    transform(&mut bx, &mut by);
    spectrum(&bx, &by).expect("every bin has a magnitude")
}

#[test]
fn known_input_has_peaks_at_its_three_frequencies() {
    let found = known_spectrum();
    let bins: Vec<usize> = found.iter().map(|line| line.0).collect();
    assert_eq!(bins, vec![0, 192, 320, 512]);
    assert_eq!(found[1], (192, 511));
    assert_eq!(found[2], (320, 511));
    assert_eq!(found[3], (512, 511));
}

#[test]
fn bin_zero_holds_the_constant_level() {
    let found = known_spectrum();
    assert_eq!(found[0], (0, 510));
    let mut bx: Vec<i32> = vec![0; 1024];
    let mut by: Vec<i32> = vec![0; 1024];
    fillInput(&INPUT_WAVE, &mut bx, &mut by);
    transform(&mut bx, &mut by);
    assert_eq!((bx[0], by[0]), (523_185, -797));
    assert_eq!(magnitude(bx[0], by[0]), Some(510));
}

#[test]
fn known_input_transforms_to_known_bins() {
    let mut bx: Vec<i32> = vec![0; 1024];
    let mut by: Vec<i32> = vec![0; 1024];
    fillInput(&INPUT_WAVE, &mut bx, &mut by);
    transform(&mut bx, &mut by);
    assert_eq!((bx[192], by[192]), (523_646, 45));
    assert_eq!((bx[320], by[320]), (523_645, -79));
    assert_eq!((bx[512], by[512]), (-523_471, 99));
    assert_eq!((bx[1], by[1]), (311, -374));
    assert_eq!((bx[1023], by[1023]), (-332, 380));
    assert_eq!((bx[832], by[832]), (523_641, -43));
    assert_eq!((bx[704], by[704]), (523_646, 81));
    let sum_x: i64 = bx.iter().map(|v| *v as i64).sum();
    let sum_y: i64 = by.iter().map(|v| *v as i64).sum();
    assert_eq!((sum_x, sum_y), (2_097_152, 0));
}

#[test]
fn report_of_the_known_input() {
    let lines: Vec<String> =
        known_spectrum().iter().map(|line| spectrum_line(line.0, line.1)).collect();
    assert_eq!(
        lines,
        vec![
            "0x000000 0x0001fe".to_string(),
            "0x0000c0 0x0001ff".to_string(),
            "0x000140 0x0001ff".to_string(),
            "0x000200 0x0001ff".to_string(),
        ]
    );
}

#[test]
fn full_run_twice_gives_the_same_report() {
    assert_eq!(known_spectrum(), known_spectrum());
}

#[test]
fn magnitude_of_a_bin() {
    assert_eq!(magnitude(3 * 1024, 4 * 1024), Some(5));
    assert_eq!(magnitude(-3 * 1024, 4 * 1024 + 1023), Some(5));
    assert_eq!(magnitude(1023, -1023), Some(0));
    assert_eq!(magnitude(-1024, 0), Some(1));
    assert_eq!(magnitude(0, 0), Some(0));
    assert_eq!(magnitude(2048, 2048), Some(2));
}

#[test]
fn magnitude_at_the_limit() {
    assert_eq!(magnitude(32767 * 1024, 0), Some(32767));
    assert_eq!(magnitude(32767 * 1024, 255 * 1024), Some(32767));
    assert_eq!(magnitude(32768 * 1024, 0), None);
    assert_eq!(magnitude(0, -32768 * 1024), None);
    assert_eq!(magnitude(i32::MAX, 0), None);
    assert_eq!(magnitude(i32::MIN, i32::MIN), None);
    assert_eq!(magnitude(23170 * 1024, 23170 * 1024), Some(32767));
    assert_eq!(magnitude(23171 * 1024, 23170 * 1024), None);
}

#[test]
fn spectrum_leaves_out_the_bins_with_magnitude_zero() {
    let mut bx: Vec<i32> = vec![0; 1024];
    let mut by: Vec<i32> = vec![0; 1024];
    assert_eq!(spectrum(&bx, &by), Some(vec![]));
    bx[5] = 1024;
    by[7] = -2048;
    bx[9] = 1023;
    bx[512] = 3 * 1024;
    by[512] = 4 * 1024;
    bx[513] = 1 << 30;
    assert_eq!(spectrum(&bx, &by), Some(vec![(5, 1), (7, 2), (512, 5)]));
}

#[test]
fn spectrum_has_no_value_where_a_bin_has_no_magnitude() {
    let mut bx: Vec<i32> = vec![1024; 1024];
    let by: Vec<i32> = vec![0; 1024];
    bx[512] = 1 << 25;
    assert_eq!(spectrum(&bx, &by), None);
    bx[512] = (1 << 25) - 1;
    assert_eq!(spectrum(&bx, &by).map(|lines| lines.len()), Some(513));
}

#[test]
fn lines_are_written_as_the_formatter_writes_them() {
    assert_eq!(spectrum_line(0, 0), "0x000000 0x000000");
    assert_eq!(spectrum_line(192, 511), "0x0000c0 0x0001ff");
    assert_eq!(spectrum_line(0xabcdef, 0x12_3456), "0xabcdef 0x123456");
    assert_eq!(spectrum_line(0x1234567, i32::MAX), "0x1234567 0x7fffffff");
    for (bin, magnitude) in [(0usize, 1i32), (15, 16), (512, 511), (usize::MAX, 0xfffff), (0x10_0000, 255)] {
        assert_eq!(spectrum_line(bin, magnitude), format!("{:#08x} {:#08x}", bin, magnitude));
    }
}
