use raytracer::render::{Options, Renderer};
use std::cell::RefCell;

fn options(width: u32, height: u32) -> Options<'static> {
    Options {
        image_width: width,
        image_height: height,
        samples_per_pixel: 1,
        max_diff_depth: 50,
        output_file: "./dist/image.jpg",
    }
}

/// Colour of the sky behind viewport pixel `(i, j)` of a camera at the origin
/// that looks down the negative z axis with a vertical field of view of 90
/// degrees and an aspect ratio of 16:9, without lens jitter.
fn sky(width: u32, height: u32, i: u32, j: u32) -> (u8, u8, u8) {
    let s = i as f32 / (width as f32 - 1.0);
    let t = j as f32 / (height as f32 - 1.0);
    let viewport_height = 2.0 * (90.0f32 * std::f32::consts::PI / 180.0 / 2.0).tan();
    let viewport_width = 16.0f32 / 9.0 * viewport_height;
    let x = -viewport_width / 2.0 + viewport_width * s;
    let y = -viewport_height / 2.0 + viewport_height * t;
    let z = -1.0f32;
    let mag = (x * x + y * y + z * z).sqrt();
    let blend = 0.5 * (y / mag + 1.0);
    let r = (1.0 - blend) + 0.5 * blend;
    let g = (1.0 - blend) + 0.75 * blend;
    let b = (1.0 - blend) + blend;
    (
        (r.sqrt() * 255.99) as u8,
        (g.sqrt() * 255.99) as u8,
        (b.sqrt() * 255.99) as u8,
    )
}

#[test]
fn new_renderer_keeps_options() {
    let renderer = Renderer::new(Options {
        image_width: 1280,
        image_height: 720,
        samples_per_pixel: 4,
        max_diff_depth: 50,
        output_file: "./dist/image.jpg",
    });
    assert_eq!(renderer.opts.image_width, 1280);
    assert_eq!(renderer.opts.image_height, 720);
    assert_eq!(renderer.opts.samples_per_pixel, 4);
    assert_eq!(renderer.opts.max_diff_depth, 50);
    assert_eq!(renderer.opts.output_file, "./dist/image.jpg");
}

#[test]
fn render_gives_picture_of_configured_size_and_path() {
    let renderer = Renderer::new(options(7, 3));
    let encoder = renderer.render(|_, _| (1, 2, 3));
    assert_eq!(encoder.width(), 7);
    assert_eq!(encoder.height(), 3);
    assert_eq!(encoder.samples().len(), 63);
    assert_eq!(encoder.file_path(), "./dist/image.jpg");
}

#[test]
fn render_mirrors_rows() {
    let (width, height) = (4u32, 3u32);
    let renderer = Renderer::new(options(width, height));
    let encoder = renderer.render(|i, j| (i as u8, j as u8, 200));
    for y in 0..height {
        for x in 0..width {
            assert_eq!(encoder.pixel(x, y), (x as u8, (height - 1 - y) as u8, 200));
        }
    }
}

#[test]
fn render_two_by_two_lays_out_samples_top_row_first() {
    let renderer = Renderer::new(options(2, 2));
    let encoder = renderer.render(|i, j| (10 * i as u8 + 1, 10 * j as u8 + 1, 0));
    assert_eq!(encoder.samples(), &vec![1, 11, 0, 11, 11, 0, 1, 1, 0, 11, 1, 0]);
}

#[test]
fn render_two_by_two_sky_has_top_row_first() {
    let renderer = Renderer::new(options(2, 2));
    let encoder = renderer.render(|i, j| sky(2, 2, i, j));
    assert_eq!(encoder.pixel(0, 0), sky(2, 2, 0, 1));
    assert_eq!(encoder.pixel(1, 0), sky(2, 2, 1, 1));
    assert_eq!(encoder.pixel(0, 1), sky(2, 2, 0, 0));
    assert_eq!(encoder.pixel(1, 1), sky(2, 2, 1, 0));
    // Looking up the sky is bluer, so the top row holds less red than the bottom row.
    for x in 0..2 {
        let top = encoder.pixel(x, 0);
        let bottom = encoder.pixel(x, 1);
        assert!(top.0 < bottom.0);
        assert!(top.1 < bottom.1);
        assert_eq!(top.2, 255);
        assert_eq!(bottom.2, 255);
    }
}

#[test]
fn render_asks_for_every_pixel_once_bottom_row_first() {
    let (width, height) = (3u32, 2u32);
    let asked: RefCell<Vec<(u32, u32)>> = RefCell::new(Vec::new());
    let renderer = Renderer::new(options(width, height));
    let _ = renderer.render(|i, j| {
        asked.borrow_mut().push((i, j));
        (0, 0, 0)
    });
    assert_eq!(
        asked.into_inner(),
        vec![(0, 0), (1, 0), (2, 0), (0, 1), (1, 1), (2, 1)]
    );
}

#[test]
fn render_single_pixel() {
    let renderer = Renderer::new(options(1, 1));
    let encoder = renderer.render(|i, j| (i as u8 + 40, j as u8 + 50, 60));
    assert_eq!(encoder.samples(), &vec![40, 50, 60]);
    assert_eq!(encoder.pixel(0, 0), (40, 50, 60));
}

#[test]
fn render_single_column_is_reversed() {
    let renderer = Renderer::new(options(1, 4));
    let encoder = renderer.render(|_, j| (j as u8, j as u8, j as u8));
    assert_eq!(encoder.samples(), &vec![3, 3, 3, 2, 2, 2, 1, 1, 1, 0, 0, 0]);
}

#[test]
fn render_single_row_keeps_order() {
    let renderer = Renderer::new(options(4, 1));
    let encoder = renderer.render(|i, _| (i as u8, i as u8, i as u8));
    assert_eq!(encoder.samples(), &vec![0, 0, 0, 1, 1, 1, 2, 2, 2, 3, 3, 3]);
}

#[test]
fn render_without_pixels_asks_nothing() {
    for (width, height) in [(0u32, 0u32), (0, 5), (5, 0)] {
        let asked: RefCell<u32> = RefCell::new(0);
        let renderer = Renderer::new(options(width, height));
        let encoder = renderer.render(|_, _| {
            *asked.borrow_mut() += 1;
            (255, 255, 255)
        });
        assert_eq!(asked.into_inner(), 0);
        assert_eq!((encoder.width(), encoder.height()), (width, height));
        assert!(encoder.samples().is_empty());
    }
}

#[test]
fn render_twice_gives_the_same_picture() {
    let renderer = Renderer::new(options(5, 4));
    let first = renderer.render(|i, j| ((i * j) as u8, (i + j) as u8, 7));
    let second = renderer.render(|i, j| ((i * j) as u8, (i + j) as u8, 7));
    assert_eq!(first.samples(), second.samples());
}

#[test]
fn render_larger_picture_places_every_pixel() {
    let (width, height) = (64u32, 48u32);
    let renderer = Renderer::new(options(width, height));
    let encoder = renderer.render(|i, j| (i as u8, j as u8, (i + j) as u8));
    assert_eq!(encoder.samples().len(), 3 * 64 * 48);
    for y in 0..height {
        for x in 0..width {
            let j = height - 1 - y;
            let start = 3 * (y as usize * width as usize + x as usize);
            assert_eq!(encoder.samples()[start], x as u8);
            assert_eq!(encoder.samples()[start + 1], j as u8);
            assert_eq!(encoder.samples()[start + 2], (x + j) as u8);
        }
    }
}

#[test]
fn render_first_row_shows_top_of_viewport() {
    let (width, height) = (3u32, 5u32);
    let renderer = Renderer::new(options(width, height));
    let encoder = renderer.render(|_, j| (j as u8, 0, 0));
    for x in 0..width {
        assert_eq!(encoder.pixel(x, 0), (4, 0, 0));
        assert_eq!(encoder.pixel(x, height - 1), (0, 0, 0));
    }
}
