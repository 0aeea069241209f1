use tracelens::rendering::raster::{Raster, Rgb};
use tracelens::rendering::types::{ImageFormat, ViewportConfig};
use tracelens::rendering::vd_renderer::{
    encode_png_fast, fit_to_viewport, render_variable_density, render_vd_base, rendered_from,
    variable_density_grid,
};

const WHITE: Rgb = [255, 255, 255];
const RED: Rgb = [255, 0, 0];
const BLUE: Rgb = [0, 0, 255];

fn painted(image: &Raster, color: Rgb) -> Vec<(u32, u32)> {
    let mut positions = Vec::new();
    for y in 0..image.height {
        for x in 0..image.width {
            if image.get_pixel(x, y) == color {
                positions.push((x, y));
            }
        }
    }
    positions
}

#[test]
fn raster_from_pixel_and_put_pixel() {
    let mut image = Raster::from_pixel(3, 2, WHITE);
    assert_eq!(image.pixels.len(), 6);
    assert_eq!(painted(&image, WHITE).len(), 6);
    image.put_pixel(2, 1, RED);
    assert_eq!(painted(&image, RED), vec![(2, 1)]);
    assert_eq!(image.pixels[5], RED);
    assert_eq!(image.get_pixel(0, 0), WHITE);
    let empty = Raster::from_pixel(0, 5, WHITE);
    assert!(empty.pixels.is_empty());
}

#[test]
fn thin_line_along_a_diagonal() {
    let mut image = Raster::from_pixel(5, 5, WHITE);
    image.draw_line(0, 0, 4, 4, RED, 0);
    assert_eq!(painted(&image, RED), vec![(0, 0), (1, 1), (2, 2), (3, 3), (4, 4)]);
}

#[test]
fn thin_line_visits_one_pixel_per_column_when_flat() {
    let mut image = Raster::from_pixel(6, 4, WHITE);
    image.draw_line(0, 0, 5, 2, RED, 0);
    assert_eq!(
        painted(&image, RED),
        vec![(0, 0), (1, 0), (2, 1), (3, 1), (4, 2), (5, 2)]
    );
    let mut back = Raster::from_pixel(6, 4, WHITE);
    back.draw_line(5, 2, 0, 0, RED, 0);
    assert_eq!(
        painted(&back, RED),
        vec![(0, 0), (1, 0), (2, 1), (3, 1), (4, 2), (5, 2)]
    );
}

#[test]
fn line_of_one_point_and_lines_that_leave_the_image() {
    let mut image = Raster::from_pixel(4, 4, WHITE);
    image.draw_line(2, 1, 2, 1, RED, 0);
    assert_eq!(painted(&image, RED), vec![(2, 1)]);
    image.draw_line(-3, 3, 6, 3, BLUE, 0);
    assert_eq!(painted(&image, BLUE), vec![(0, 3), (1, 3), (2, 3), (3, 3)]);
    image.draw_line(-5, -5, -1, -1, BLUE, 0);
    assert_eq!(painted(&image, BLUE).len(), 4);
    let mut vertical = Raster::from_pixel(3, 5, WHITE);
    vertical.draw_line(1, 4, 1, 0, RED, 0);
    assert_eq!(painted(&vertical, RED), vec![(1, 0), (1, 1), (1, 2), (1, 3), (1, 4)]);
}

#[test]
fn thick_line_paints_a_round_brush() {
    let mut image = Raster::from_pixel(7, 5, WHITE);
    image.draw_line(2, 2, 4, 2, RED, 1);
    assert_eq!(
        painted(&image, RED),
        vec![
            (2, 1), (3, 1), (4, 1),
            (1, 2), (2, 2), (3, 2), (4, 2), (5, 2),
            (2, 3), (3, 3), (4, 3)
        ]
    );
    let mut disc = Raster::from_pixel(7, 7, WHITE);
    disc.paint_disc(3, 3, 2, BLUE);
    assert_eq!(painted(&disc, BLUE).len(), 13);
    assert_eq!(disc.get_pixel(3, 1), BLUE);
    assert_eq!(disc.get_pixel(2, 2), BLUE);
    assert_eq!(disc.get_pixel(1, 1), WHITE);
    let mut corner = Raster::from_pixel(3, 3, WHITE);
    corner.paint_disc(0, 0, 1, BLUE);
    assert_eq!(painted(&corner, BLUE), vec![(0, 0), (1, 0), (0, 1)]);
}

#[test]
fn far_ends_and_negative_radius() {
    let mut image = Raster::from_pixel(4, 4, WHITE);
    image.draw_line(-100_000, 1, 100_000, 1, RED, 0);
    assert_eq!(painted(&image, RED), vec![(0, 1), (1, 1), (2, 1), (3, 1)]);
    image.draw_line(-50_000, -50_000, 50_000, 50_000, BLUE, 0);
    assert_eq!(painted(&image, BLUE), vec![(0, 0), (1, 1), (2, 2), (3, 3)]);
    let mut untouched = Raster::from_pixel(4, 4, WHITE);
    untouched.draw_line(0, 0, 3, 3, RED, -1);
    untouched.paint_disc(1, 1, -5, RED);
    untouched.paint_disc(i32::MAX, i32::MIN, 2, RED);
    assert!(painted(&untouched, RED).is_empty());
}

#[test]
fn spans_are_clipped_to_the_image() {
    let mut image = Raster::from_pixel(5, 3, WHITE);
    image.fill_span(1, 1, 3, RED);
    assert_eq!(painted(&image, RED), vec![(1, 1), (2, 1), (3, 1)]);
    image.fill_span(0, -4, 9, BLUE);
    assert_eq!(painted(&image, BLUE), vec![(0, 0), (1, 0), (2, 0), (3, 0), (4, 0)]);
    image.fill_span(2, 3, 2, BLUE);
    image.fill_span(-1, 0, 4, BLUE);
    image.fill_span(3, 0, 4, BLUE);
    image.fill_span(2, 5, 9, BLUE);
    image.fill_span(2, i32::MIN, -1, BLUE);
    assert_eq!(painted(&image, BLUE).len(), 5);
    image.fill_span(2, 4, i32::MAX, BLUE);
    assert_eq!(painted(&image, BLUE).len(), 6);
}

#[test]
fn grid_has_a_column_per_trace_and_black_where_no_sample_is() {
    let columns: Vec<Vec<Rgb>> = vec![vec![RED, BLUE, WHITE], vec![BLUE], vec![]];
    let image = variable_density_grid(&columns, 4);
    assert_eq!((image.width, image.height), (4, 3));
    assert_eq!(image.get_pixel(0, 0), RED);
    assert_eq!(image.get_pixel(0, 1), BLUE);
    assert_eq!(image.get_pixel(0, 2), WHITE);
    assert_eq!(image.get_pixel(1, 0), BLUE);
    assert_eq!(image.get_pixel(1, 1), [0, 0, 0]);
    assert_eq!(image.get_pixel(2, 0), [0, 0, 0]);
    assert_eq!(image.get_pixel(3, 2), [0, 0, 0]);
    let none = variable_density_grid(&Vec::new(), 4);
    assert_eq!((none.width, none.height), (4, 0));
}

#[test]
fn rgb_bytes_round_trip() {
    let mut image = Raster::from_pixel(2, 2, [1, 2, 3]);
    image.put_pixel(1, 0, [4, 5, 6]);
    let bytes = image.to_rgb_bytes();
    assert_eq!(bytes, vec![1, 2, 3, 4, 5, 6, 1, 2, 3, 1, 2, 3]);
    let back = Raster::from_rgb_bytes(2, 2, &bytes);
    assert_eq!(back.pixels, image.pixels);
    assert_eq!((back.width, back.height), (2, 2));
}

#[test]
fn fitting_keeps_an_image_of_the_right_size_and_resamples_others() {
    let viewport = ViewportConfig { start_trace: 0, trace_count: 2, width: 2, height: 2 };
    let mut image = Raster::from_pixel(2, 2, WHITE);
    image.put_pixel(0, 0, RED);
    let same = fit_to_viewport(image, &viewport);
    assert_eq!(same.get_pixel(0, 0), RED);
    assert_eq!(same.get_pixel(1, 1), WHITE);
    let large = ViewportConfig { start_trace: 0, trace_count: 2, width: 6, height: 4 };
    let resized = fit_to_viewport(Raster::from_pixel(2, 2, BLUE), &large);
    assert_eq!((resized.width, resized.height), (6, 4));
    assert_eq!(resized.pixels.len(), 24);
    for pixel in &resized.pixels {
        assert_eq!(*pixel, BLUE);
    }
    // Nothing to sample from: the resized image is blank.
    let blank = fit_to_viewport(Raster::from_pixel(0, 0, BLUE), &large);
    assert_eq!((blank.width, blank.height), (6, 4));
    assert_eq!(blank.pixels, vec![[0u8, 0, 0]; 24]);
}

#[test]
fn png_encoding_of_an_image() {
    let mut image = Raster::from_pixel(3, 2, WHITE);
    image.put_pixel(1, 1, RED);
    let rendered = encode_png_fast(&image).unwrap();
    assert_eq!((rendered.width, rendered.height), (3, 2));
    assert_eq!(rendered.format, ImageFormat::Png);
    assert_eq!(&rendered.data[..8], &[0x89, b'P', b'N', b'G', 0x0D, 0x0A, 0x1A, 0x0A]);
    // IHDR: width 3, height 2, depth 8, color type 2 (RGB).
    assert_eq!(&rendered.data[12..16], b"IHDR");
    assert_eq!(&rendered.data[16..26], &[0, 0, 0, 3, 0, 0, 0, 2, 8, 2]);
    assert_ne!(rendered.data, image.to_rgb_bytes());
    let again = encode_png_fast(&image).unwrap();
    assert_eq!(again.data, rendered.data);
    // Decoded again the pixels are the image's.
    let decoder = png::Decoder::new(std::io::Cursor::new(&rendered.data));
    let mut reader = decoder.read_info().unwrap();
    let mut buffer = vec![0u8; reader.output_buffer_size()];
    let info = reader.next_frame(&mut buffer).unwrap();
    assert_eq!(&buffer[..info.buffer_size()], &image.to_rgb_bytes()[..]);
}

#[test]
fn png_encoder_refuses_an_empty_image() {
    let empty = Raster::from_pixel(0, 0, WHITE);
    let refused = encode_png_fast(&empty).unwrap_err();
    assert!(refused.starts_with("PNG header write failed"), "{}", refused);
}

#[test]
fn rendered_from_an_outcome() {
    let rendered = rendered_from(4, 5, Ok(vec![1, 2, 3])).unwrap();
    assert_eq!((rendered.width, rendered.height), (4, 5));
    assert_eq!(rendered.data, vec![1, 2, 3]);
    assert_eq!(rendered.format, ImageFormat::Png);
    assert_eq!(rendered_from(4, 5, Err("no".to_string())).unwrap_err(), "no");
}

#[test]
fn variable_density_at_natural_size() {
    let columns: Vec<Vec<Rgb>> = vec![vec![RED, BLUE], vec![BLUE, RED], vec![WHITE, WHITE]];
    let viewport = ViewportConfig { start_trace: 0, trace_count: 3, width: 3, height: 2 };
    let base = render_vd_base(&columns, &viewport);
    assert_eq!(base.to_rgb_bytes(), vec![
        255, 0, 0, 0, 0, 255, 255, 255, 255,
        0, 0, 255, 255, 0, 0, 255, 255, 255,
    ]);
    let rendered = render_variable_density(&columns, &viewport).unwrap();
    assert_eq!((rendered.width, rendered.height), (3, 2));
    assert_eq!(rendered.data, encode_png_fast(&base).unwrap().data);
    let wide = ViewportConfig { start_trace: 0, trace_count: 3, width: 9, height: 4 };
    let rendered = render_variable_density(&columns, &wide).unwrap();
    assert_eq!((rendered.width, rendered.height), (9, 4));
    assert_eq!(&rendered.data[16..24], &[0, 0, 0, 9, 0, 0, 0, 4]);
}
