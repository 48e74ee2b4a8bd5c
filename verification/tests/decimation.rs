use fftbench::{bitReverse, decimate};

#[test]
fn moves_each_sample_to_its_reversed_index() {
    let mut bx: Vec<i32> = (0..1024).collect();
    let mut by: Vec<i32> = (0..1024).map(|k| -k).collect();
    decimate(&mut bx, &mut by);
    for i in 0..1024usize {
        let from = bitReverse(i as u32, 10) as i32;
        assert_eq!(bx[i], from);
        assert_eq!(by[i], -from);
    }
    assert_eq!(bx[1], 512);
    assert_eq!(bx[512], 1);
    assert_eq!(bx[0], 0);
    assert_eq!(bx[1023], 1023);
}

#[test]
fn decimating_twice_restores_the_buffers() {
    let bx0: Vec<i32> = (0..1024).map(|k| (k * 37) % 1001 - 500).collect();
    let by0: Vec<i32> = (0..1024).map(|k| i32::MAX - k).collect();
    let mut bx = bx0.clone();
    let mut by = by0.clone();
    decimate(&mut bx, &mut by);
    assert_ne!(bx, bx0);
    decimate(&mut bx, &mut by);
    assert_eq!(bx, bx0);
    assert_eq!(by, by0);
}

#[test]
fn decimation_keeps_the_lengths() {
    let mut bx: Vec<i32> = vec![7; 1024];
    let mut by: Vec<i32> = vec![-7; 1024];
    decimate(&mut bx, &mut by);
    assert_eq!(bx, vec![7; 1024]);
    assert_eq!(by, vec![-7; 1024]);
}
