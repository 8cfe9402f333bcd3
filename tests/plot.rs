use mandelbrot::{is_positive, pack_rgba, pixel_color, unpack_rgba, Plot, PlotError, POSITIVE_INFINITY_BITS};

fn bits(x: f64) -> u64 {
    x.to_bits()
}

fn plot(width: u32, height: u32, max_iterations: u32) -> Plot {
    Plot::new(
        width,
        height,
        bits(-2.0),
        bits(3.0),
        bits(-1.5),
        bits(3.0),
        max_iterations,
        bits(4.0),
    )
    .unwrap()
}

/// Escape count of `z -> z^2 + c` from zero, as the host computes it.
fn escape_count(c_real: f64, c_imag: f64, max_iterations: u32, bound: f64) -> u32 {
    let mut real = 0.0f64;
    let mut imag = 0.0f64;
    for n in 0..max_iterations {
        let new_real = real * real - imag * imag + c_real;
        imag = 2.0 * real * imag + c_imag;
        real = new_real;
        if real * real + imag * imag > bound {
            return n;
        }
    }
    max_iterations
}

#[test]
fn scenario_two_by_two() {
    let mut p = plot(2, 2, 50);
    let real_step = 3.0 / 2.0;
    let imag_step = 3.0 / 2.0;
    let mut counts: Vec<Vec<u32>> = Vec::new();
    for row in 0..2u32 {
        let imag = -1.5 + 3.0 - imag_step * row as f64;
        let mut line = Vec::new();
        for col in 0..2u32 {
            let real = -2.0 + real_step * col as f64;
            line.push(escape_count(real, imag, 50, 4.0));
        }
        counts.push(line);
    }
    assert_eq!(counts, vec![vec![0, 1], vec![50, 50]]);
    p.calc_pixels(&counts);
    let bytes = p.to_rgba_bytes();
    assert_eq!(bytes.len(), 16);
    assert_eq!(p.byte_len(), 16);
    for k in 0..4 {
        assert_eq!(bytes[4 * k + 3], 255);
    }
    assert_eq!(
        bytes,
        vec![0, 0, 128, 255, 0, 0, 129, 255, 0, 0, 0, 255, 0, 0, 0, 255]
    );
}

#[test]
fn new_buffer_is_zeroed_and_sized() {
    let p = plot(3, 5, 10);
    assert_eq!(p.pixels().len(), 15);
    assert!(p.pixels().iter().all(|&c| c == 0));
    assert_eq!(p.byte_len(), 60);
    assert_eq!(p.to_rgba_bytes().len(), 60);
}

#[test]
fn every_alpha_is_opaque_after_compute() {
    let mut p = plot(4, 3, 200);
    let counts: Vec<Vec<u32>> = (0..3u32)
        .map(|r| (0..4u32).map(|c| r * 70 + c * 20).collect())
        .collect();
    p.calc_pixels(&counts);
    let bytes = p.to_rgba_bytes();
    assert_eq!(bytes.len(), 4 * 3 * 4);
    for k in (3..bytes.len()).step_by(4) {
        assert_eq!(bytes[k], 255);
    }
}

#[test]
fn row_major_layout() {
    let mut p = plot(3, 2, 100);
    let counts = vec![vec![1, 2, 3], vec![4, 5, 100]];
    p.calc_pixels(&counts);
    let pixels = p.pixels();
    assert_eq!(pixels[0], pixel_color(1, 100));
    assert_eq!(pixels[2], pixel_color(3, 100));
    assert_eq!(pixels[3], pixel_color(4, 100));
    assert_eq!(pixels[5], pixel_color(100, 100));
    assert_eq!(unpack_rgba(pixels[4]), [0, 0, 133, 255]);
}

#[test]
fn compute_twice_is_identical() {
    let mut p = plot(3, 3, 30);
    let counts = vec![vec![0, 5, 30], vec![29, 12, 1], vec![30, 30, 7]];
    p.calc_pixels(&counts);
    let first = p.to_rgba_bytes();
    p.calc_pixels(&counts);
    assert_eq!(p.to_rgba_bytes(), first);
}

#[test]
fn color_of_capped_count_is_black() {
    assert_eq!(unpack_rgba(pixel_color(50, 50)), [0, 0, 0, 255]);
    assert_eq!(pixel_color(50, 50), 0xff00_0000);
    assert_eq!(unpack_rgba(pixel_color(60, 50)), [0, 0, 0, 255]);
}

#[test]
fn color_of_escaping_count_is_blue() {
    assert_eq!(unpack_rgba(pixel_color(0, 50)), [0, 0, 128, 255]);
    assert_eq!(pixel_color(0, 50), 0xff80_0000);
    assert_eq!(unpack_rgba(pixel_color(10, 50)), [0, 0, 138, 255]);
    assert_eq!(unpack_rgba(pixel_color(126, 1000)), [0, 0, 254, 255]);
    assert_eq!(unpack_rgba(pixel_color(127, 1000)), [0, 0, 255, 255]);
    assert_eq!(unpack_rgba(pixel_color(999, 1000)), [0, 0, 255, 255]);
    assert_eq!(unpack_rgba(pixel_color(u32::MAX - 1, u32::MAX)), [0, 0, 255, 255]);
}

#[test]
fn blue_is_monotone() {
    let mut last = 0u8;
    for n in 0..300u32 {
        let b = unpack_rgba(pixel_color(n, 300))[2];
        assert!(b >= last);
        if b == last {
            assert!(n == 0 || b == 255);
        }
        last = b;
    }
}

#[test]
fn pack_and_unpack() {
    assert_eq!(pack_rgba([1, 2, 3, 4]), 0x0403_0201);
    assert_eq!(unpack_rgba(0x0403_0201), [1, 2, 3, 4]);
    assert_eq!(pack_rgba([1, 2, 3, 4]), u32::from_le_bytes([1, 2, 3, 4]));
}

#[test]
fn positivity_of_bit_patterns() {
    assert!(is_positive(bits(1.0)));
    assert!(is_positive(bits(f64::MIN_POSITIVE)));
    assert!(is_positive(bits(f64::INFINITY)));
    assert_eq!(POSITIVE_INFINITY_BITS, f64::INFINITY.to_bits());
    assert!(!is_positive(bits(0.0)));
    assert!(!is_positive(bits(-0.0)));
    assert!(!is_positive(bits(-1.0)));
    assert!(!is_positive(bits(f64::NAN)));
}

fn try_new(width: u32, height: u32, real_range: f64, imag_range: f64, max: u32, bound: f64) -> Result<Plot, PlotError> {
    Plot::new(width, height, bits(-2.0), bits(real_range), bits(-1.5), bits(imag_range), max, bits(bound))
}

#[test]
fn construction_rejects_invalid_arguments() {
    assert_eq!(try_new(0, 2, 3.0, 3.0, 50, 4.0).err(), Some(PlotError::InvalidArgument));
    assert_eq!(try_new(2, 0, 3.0, 3.0, 50, 4.0).err(), Some(PlotError::InvalidArgument));
    assert_eq!(try_new(2, 2, 0.0, 3.0, 50, 4.0).err(), Some(PlotError::InvalidArgument));
    assert_eq!(try_new(2, 2, 3.0, -1.0, 50, 4.0).err(), Some(PlotError::InvalidArgument));
    assert_eq!(try_new(2, 2, 3.0, 3.0, 0, 4.0).err(), Some(PlotError::InvalidArgument));
    assert_eq!(try_new(2, 2, 3.0, 3.0, 50, 0.0).err(), Some(PlotError::InvalidArgument));
    assert_eq!(try_new(2, 2, f64::NAN, 3.0, 50, 4.0).err(), Some(PlotError::InvalidArgument));
    assert!(try_new(2, 2, 3.0, 3.0, 50, 4.0).is_ok());
}

#[test]
fn construction_rejects_oversized_buffer() {
    if usize::BITS == 64 {
        assert!(try_new(u32::MAX, u32::MAX, 3.0, 3.0, 50, 4.0).err() == Some(PlotError::CapacityExceeded));
    } else {
        assert!(try_new(65536, 65536, 3.0, 3.0, 50, 4.0).err() == Some(PlotError::CapacityExceeded));
    }
    assert_eq!(try_new(u32::MAX, 0, 3.0, 3.0, 50, 4.0).err(), Some(PlotError::InvalidArgument));
}

#[test]
fn accessors_report_parameters() {
    let p = plot(7, 9, 33);
    assert_eq!(p.pixel_width(), 7);
    assert_eq!(p.pixel_height(), 9);
    assert_eq!(p.max_iterations(), 33);
    assert_eq!(f64::from_bits(p.min_real()), -2.0);
    assert_eq!(f64::from_bits(p.real_range()), 3.0);
    assert_eq!(f64::from_bits(p.min_imag()), -1.5);
    assert_eq!(f64::from_bits(p.imag_range()), 3.0);
    assert_eq!(f64::from_bits(p.divergence_bound()), 4.0);
}
