use egui::Color32;
use mandelbrot_view::escape::escape_time;
use mandelbrot_view::color::colors_from_rgb;
use mandelbrot_view::raster::{shade, Raster};
use num_complex::Complex;

fn gray(g: u8) -> [u8; 4] {
    [g, g, g, 255]
}

#[test]
fn shade_is_the_count_modulo_256() {
    assert_eq!(shade(0), 0);
    assert_eq!(shade(1), 1);
    assert_eq!(shade(255), 255);
    assert_eq!(shade(256), 0);
    assert_eq!(shade(257), 1);
    assert_eq!(shade(1000), 232);
    assert_eq!(shade(u32::MAX), 255);
}

#[test]
fn raster_fits_while_its_bytes_fit_a_vector() {
    assert!(Raster::fits(800, 600));
    assert!(Raster::fits(0, u32::MAX));
    assert!(Raster::fits(u32::MAX, 1));
    assert!(!Raster::fits(u32::MAX, u32::MAX));
    let limit = isize::MAX as u128;
    for &(width, height) in &[(1u32 << 16, 1u32 << 15), (1 << 31, 1 << 31), (3, 1 << 29), (1 << 30, 1)] {
        let bytes = 3 * (width as u128) * (height as u128);
        assert_eq!(Raster::fits(width, height), bytes <= limit);
    }
}

#[test]
fn new_raster_is_black() {
    let raster = Raster::new(4, 3);
    assert_eq!(raster.width(), 4);
    assert_eq!(raster.height(), 3);
    assert_eq!(raster.pixels().len(), 12);
    for pixel in raster.pixels() {
        assert_eq!(pixel.to_array(), [0, 0, 0, 255]);
        assert_eq!(*pixel, Color32::BLACK);
    }
}

#[test]
fn raster_without_pixels() {
    let mut raster = Raster::new(0, 5);
    assert_eq!(raster.pixels().len(), 0);
    raster.recompute(|_, _| 7);
    assert_eq!(raster.width(), 0);
    assert_eq!(raster.height(), 5);
    assert_eq!(raster.pixels().len(), 0);

    let mut raster = Raster::new(5, 0);
    raster.recompute(|_, _| 7);
    assert_eq!(raster.pixels().len(), 0);
}

#[test]
fn recompute_shades_each_pixel() {
    let mut raster = Raster::new(4, 3);
    raster.recompute(|x, y| x + 10 * y);
    assert_eq!(raster.width(), 4);
    assert_eq!(raster.height(), 3);
    assert_eq!(raster.pixels().len(), 12);
    for y in 0..3u32 {
        for x in 0..4u32 {
            let pixel = raster.pixels()[(y * 4 + x) as usize];
            assert_eq!(pixel.to_array(), gray((x + 10 * y) as u8));
        }
    }
}

#[test]
fn recompute_stores_rows_first() {
    let mut raster = Raster::new(3, 2);
    raster.recompute(|x, y| if x == 2 && y == 0 { 200 } else { 0 });
    let expected = [0u8, 0, 200, 0, 0, 0];
    for (pixel, g) in raster.pixels().iter().zip(expected) {
        assert_eq!(pixel.to_array(), gray(g));
    }
}

#[test]
fn recompute_reduces_counts_modulo_256() {
    let mut raster = Raster::new(2, 2);
    raster.recompute(|x, y| 255 + x + 2 * y);
    let shades: Vec<[u8; 4]> = raster.pixels().iter().map(|p| p.to_array()).collect();
    assert_eq!(shades, vec![gray(255), gray(0), gray(1), gray(2)]);
}

#[test]
fn recompute_asks_for_each_pixel_once_row_by_row() {
    let asked = std::cell::RefCell::new(Vec::new());
    let mut raster = Raster::new(3, 2);
    raster.recompute(|x, y| {
        asked.borrow_mut().push((x, y));
        0
    });
    assert_eq!(*asked.borrow(), vec![(0, 0), (1, 0), (2, 0), (0, 1), (1, 1), (2, 1)]);
}

#[test]
fn recompute_overwrites_the_whole_raster() {
    let mut raster = Raster::new(3, 3);
    raster.recompute(|_, _| 99);
    assert!(raster.pixels().iter().all(|p| p.to_array() == gray(99)));
    raster.recompute(|x, _| x);
    for y in 0..3usize {
        for x in 0..3usize {
            assert_eq!(raster.pixels()[y * 3 + x].to_array(), gray(x as u8));
        }
    }
}

#[test]
fn rendering_twice_gives_identical_pixels() {
    let count_at = |x: u32, y: u32| x * x + 3 * y;
    let mut first = Raster::new(16, 9);
    let mut second = Raster::new(16, 9);
    first.recompute(count_at);
    second.recompute(count_at);
    assert_eq!(first.pixels(), second.pixels());
    first.recompute(count_at);
    assert_eq!(first.pixels(), second.pixels());
}

#[test]
fn colors_from_rgb_groups_bytes_by_three() {
    let colors = colors_from_rgb(&vec![1, 2, 3, 40, 50, 60]);
    assert_eq!(colors.len(), 2);
    assert_eq!(colors[0].to_array(), [1, 2, 3, 255]);
    assert_eq!(colors[1].to_array(), [40, 50, 60, 255]);
    assert_eq!(colors[1], Color32::from_rgb(40, 50, 60));
}

#[test]
fn colors_from_no_bytes() {
    assert!(colors_from_rgb(&Vec::new()).is_empty());
}

/// The complex coordinate of a pixel for a view centred at `center` with the
/// given zoom.
fn point(x: u32, y: u32, width: u32, height: u32, center: (f64, f64), zoom: f64) -> Complex<f64> {
    let re = center.0 + (x as f64 - width as f64 / 2.0) / (width as f64 / 2.0) * zoom;
    let im = center.1 + (y as f64 - height as f64 / 2.0) / (height as f64 / 2.0) * zoom;
    Complex::new(re, im)
}

fn mandelbrot(c: Complex<f64>) -> u32 {
    escape_time(
        Complex::new(0.0, 0.0),
        |z: &Complex<f64>| z.norm_sqr() > 4.0,
        |z: Complex<f64>| z * z + c,
    )
}

#[test]
fn mandelbrot_raster_of_the_starting_view() {
    let (width, height) = (8u32, 6u32);
    let mut raster = Raster::new(width, height);
    raster.recompute(|x, y| mandelbrot(point(x, y, width, height, (-0.5, 0.0), 1.0)));
    // The middle pixel is -0.5 + 0i, inside the set: 256 steps, shade 0.
    assert_eq!(raster.pixels()[(3 * width + 4) as usize].to_array(), gray(0));
    // The top left pixel is -1.5 - i, which escapes after 0 -> c -> c * c + c.
    assert_eq!(raster.pixels()[0].to_array(), gray(2));
    for y in 0..height {
        for x in 0..width {
            let count = mandelbrot(point(x, y, width, height, (-0.5, 0.0), 1.0));
            let pixel = raster.pixels()[(y * width + x) as usize];
            assert_eq!(pixel.to_array(), gray((count % 256) as u8));
        }
    }
}
