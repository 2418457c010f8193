use toytracer::canvas::Canvas;

type Rgb = (f64, f64, f64);

#[test]
fn create_canvas() {
    let black: Rgb = (0.0, 0.0, 0.0);
    let mut c = Canvas::new(10, 20, black);
    assert_eq!(c.width(), 10);
    assert_eq!(c.height(), 20);
    assert_eq!(c.pixels_mut().len(), 10 * 20); // ensure that pixels are actually initialized
    for pixel in c.pixels_mut().iter() {
        assert_eq!(*pixel, black);
    }
}

#[test]
fn write_pixel() {
    let mut c = Canvas::new(10, 20, (0.0, 0.0, 0.0));
    let red: Rgb = (1.0, 0.0, 0.0);
    c.write_to(2, 3, red);
    assert_eq!(c.pixel_at(2, 3), red);
    assert_eq!(c.pixels_mut()[3 * 10 + 2], red);
}

#[test]
fn write_out_of_bounds_is_ignored() {
    let mut c = Canvas::new(4, 2, 0u8);
    c.write_to(4, 0, 7);
    c.write_to(0, 2, 7);
    assert!(c.pixels_mut().iter().all(|p| *p == 0));
}

#[test]
fn to_ppm() {
    let c = Canvas::new(5, 3, (0u8, 0u8, 0u8));
    let want = "P3\n5 3\n255";
    let got = c.to_ppm();
    assert!(want.lines().eq(got.lines().take(3)));

    let mut c = Canvas::new(5, 3, (0u8, 0u8, 0u8));
    c.write_to(0, 0, (255, 0, 0));
    c.write_to(2, 1, (0, 128, 0));
    c.write_to(4, 2, (0, 0, 255));
    let want = vec![
        "255 0 0 0 0 0 0 0 0 0 0 0 0 0 0",
        "0 0 0 0 0 0 0 128 0 0 0 0 0 0 0",
        "0 0 0 0 0 0 0 0 0 0 0 0 0 0 255",
    ];
    let got = c.to_ppm();
    let got: Vec<&str> = got.lines().skip(3).take(3).collect();
    assert_eq!(want.len(), got.len());
    for (want, got) in want.into_iter().zip(got) {
        assert_eq!(want, got);
    }
}

#[test]
fn to_ppm_long_lines() {
    let mut c = Canvas::new(10, 2, (0u8, 0u8, 0u8));
    for px in c.pixels_mut().iter_mut() {
        *px = (255, 204, 153);
    }
    let want = vec![
        "255 204 153 255 204 153 255 204 153 255 204 153 255 204 153 255 204",
        "153 255 204 153 255 204 153 255 204 153 255 204 153",
        "255 204 153 255 204 153 255 204 153 255 204 153 255 204 153 255 204",
        "153 255 204 153 255 204 153 255 204 153 255 204 153",
    ];
    let got = c.to_ppm();
    let got: Vec<&str> = got.lines().skip(3).take(4).collect();
    assert_eq!(want.len(), got.len());
    for (want, got) in want.into_iter().zip(got) {
        assert_eq!(want, got);
    }
}

#[test]
fn ppm_ends_with_newline() {
    let c = Canvas::new(5, 3, (0u8, 0u8, 0u8));
    let mut ppm = c.to_ppm();
    assert_eq!(ppm.pop().unwrap(), '\n');
}

#[test]
fn ppm_of_a_small_canvas_is_exact() {
    let mut c = Canvas::new(2, 1, (0u8, 0u8, 0u8));
    c.write_to(1, 0, (10, 200, 7));
    assert_eq!(c.to_ppm(), "P3\n2 1\n255\n0 0 0 10 200 7\n");
}

#[test]
fn ppm_of_an_empty_canvas_is_the_header() {
    let c = Canvas::new(0, 0, (0u8, 0u8, 0u8));
    assert_eq!(c.to_ppm(), "P3\n0 0\n255\n");
}

#[test]
fn ppm_lines_never_exceed_seventy_characters() {
    let mut c = Canvas::new(37, 3, (0u8, 0u8, 0u8));
    for (i, px) in c.pixels_mut().iter_mut().enumerate() {
        *px = ((i * 7 % 256) as u8, (i * 13 % 256) as u8, 100);
    }
    let ppm = c.to_ppm();
    assert!(ppm.lines().all(|l| l.len() <= 70));
    assert_eq!(ppm.lines().skip(3).flat_map(|l| l.split(' ')).count(), 37 * 3 * 3);
}

#[test]
fn map_pixels_converts_each_pixel() {
    let mut c = Canvas::new(2, 2, 0.0f64);
    c.write_to(1, 1, 1.5);
    let bytes = c.map_pixels(|v: &f64| (*v * 100.0) as u32);
    assert_eq!(bytes.width(), 2);
    assert_eq!(bytes.height(), 2);
    assert_eq!(bytes.pixel_at(1, 1), 150);
    assert_eq!(bytes.pixel_at(0, 1), 0);
}
