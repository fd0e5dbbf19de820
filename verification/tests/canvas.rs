use std::collections::HashMap;

use number_wall_renderer::canvas::{Canvas, PaintError};
use number_wall_renderer::colours::{get_colours, Colours};
use number_wall_renderer::config::Boundary;
use number_wall_renderer::document::Value;

fn default_colours() -> Colours {
    get_colours(&Value::Null).unwrap()
}

const WHITE: [u8; 3] = [255, 255, 255];
const BLACK: [u8; 3] = [0, 0, 0];
const GREY: [u8; 3] = [128, 128, 128];

fn pixels(colours: &[[u8; 3]]) -> Vec<u8> {
    colours.iter().flatten().copied().collect()
}

#[test]
fn a_new_canvas_is_black_and_as_large_as_the_boundary() {
    let canvas = Canvas::new(&Boundary { top: 0, bottom: 2, left: 0, right: 3 }).unwrap();
    assert_eq!(canvas.width(), 4);
    assert_eq!(canvas.height(), 3);
    assert_eq!(canvas.rows_painted(), 0);
    assert_eq!(canvas.into_bytes(), vec![0u8; 36]);
    let canvas = Canvas::new(&Boundary { top: 7, bottom: 7, left: -2, right: 2 }).unwrap();
    assert_eq!(canvas.width(), 5);
    assert_eq!(canvas.height(), 1);
    assert_eq!(canvas.into_bytes(), vec![0u8; 15]);
}

#[test]
fn a_canvas_without_columns() {
    let canvas = Canvas::new(&Boundary { top: 0, bottom: 4, left: 3, right: 2 }).unwrap();
    assert_eq!(canvas.width(), 0);
    assert_eq!(canvas.height(), 5);
    assert!(canvas.into_bytes().is_empty());
}

#[test]
fn no_canvas_for_a_boundary_that_no_image_holds() {
    assert!(Canvas::new(&Boundary { top: 3, bottom: 2, left: 0, right: 3 }).is_none());
    assert!(Canvas::new(&Boundary { top: 0, bottom: 2, left: 5, right: 3 }).is_none());
    assert!(Canvas::new(&Boundary { top: 0, bottom: 0, left: isize::MIN, right: isize::MAX })
        .is_none());
    assert!(Canvas::new(&Boundary { top: 0, bottom: 0, left: 0, right: u32::MAX as isize })
        .is_none());
    assert!(Canvas::new(&Boundary { top: 0, bottom: u32::MAX as usize, left: 0, right: 0 })
        .is_none());
    assert!(Canvas::new(&Boundary { top: 0, bottom: usize::MAX, left: 0, right: 0 }).is_none());
    assert!(Canvas::new(&Boundary {
        top: 0,
        bottom: u32::MAX as usize - 1,
        left: 0,
        right: u32::MAX as isize - 1
    })
    .is_none());
}

#[test]
fn lines_are_painted_from_the_top_down() {
    let colours = default_colours();
    let mut canvas = Canvas::new(&Boundary { top: 0, bottom: 2, left: 0, right: 3 }).unwrap();
    assert_eq!(canvas.paint_line(&vec![0, 1, 0, 1], &colours), Ok(()));
    assert_eq!(canvas.rows_painted(), 1);
    assert_eq!(canvas.paint_line(&vec![1, 1, 2, 0], &colours), Ok(()));
    assert_eq!(canvas.rows_painted(), 2);
    assert_eq!(canvas.paint_line(&vec![-1, 0, 0, 7], &colours), Ok(()));
    assert_eq!(canvas.rows_painted(), 3);
    assert_eq!(canvas.width(), 4);
    assert_eq!(canvas.height(), 3);
    let expected = pixels(&[
        WHITE, BLACK, WHITE, BLACK, BLACK, BLACK, GREY, WHITE, GREY, WHITE, WHITE, GREY,
    ]);
    assert_eq!(canvas.into_bytes(), expected);
}

#[test]
fn each_value_is_painted_in_its_colour_of_the_palette() {
    let mut mapping: HashMap<i128, [u8; 3]> = HashMap::new();
    mapping.insert(0, [10, 20, 30]);
    mapping.insert(-5, [1, 2, 3]);
    let colours = Colours { mapping, default: [7, 8, 9] };
    let mut canvas = Canvas::new(&Boundary { top: 1, bottom: 1, left: 2, right: 4 }).unwrap();
    assert_eq!(canvas.paint_line(&vec![0, -5, 5], &colours), Ok(()));
    assert_eq!(canvas.into_bytes(), vec![10, 20, 30, 1, 2, 3, 7, 8, 9]);
}

#[test]
fn a_short_line_leaves_the_rest_of_its_row() {
    let colours = default_colours();
    let mut canvas = Canvas::new(&Boundary { top: 0, bottom: 1, left: 0, right: 2 }).unwrap();
    assert_eq!(canvas.paint_line(&vec![0], &colours), Ok(()));
    assert_eq!(canvas.paint_line(&vec![0, 0], &colours), Ok(()));
    assert_eq!(canvas.into_bytes(), pixels(&[WHITE, BLACK, BLACK, WHITE, WHITE, BLACK]));
}

#[test]
fn a_line_that_is_too_long_is_not_painted() {
    let colours = default_colours();
    let mut canvas = Canvas::new(&Boundary { top: 0, bottom: 1, left: 0, right: 1 }).unwrap();
    assert_eq!(canvas.paint_line(&vec![0, 0, 0], &colours), Err(PaintError::LineTooLong));
    assert_eq!(canvas.rows_painted(), 0);
    assert_eq!(canvas.paint_line(&vec![0, 0], &colours), Ok(()));
    assert_eq!(canvas.paint_line(&vec![0, 0, 0, 0], &colours), Err(PaintError::LineTooLong));
    assert_eq!(canvas.rows_painted(), 1);
    assert_eq!(canvas.into_bytes(), pixels(&[WHITE, WHITE, BLACK, BLACK]));
}

#[test]
fn a_line_below_the_last_row_is_not_painted() {
    let colours = default_colours();
    let mut canvas = Canvas::new(&Boundary { top: 4, bottom: 5, left: 0, right: 0 }).unwrap();
    assert_eq!(canvas.paint_line(&vec![0], &colours), Ok(()));
    assert_eq!(canvas.paint_line(&vec![2], &colours), Ok(()));
    assert_eq!(canvas.paint_line(&vec![0], &colours), Err(PaintError::NoRowLeft));
    assert_eq!(canvas.paint_line(&vec![0, 0], &colours), Err(PaintError::NoRowLeft));
    assert_eq!(canvas.rows_painted(), 2);
    assert_eq!(canvas.into_bytes(), pixels(&[WHITE, GREY]));
}

#[test]
fn an_empty_line_takes_a_row_and_paints_nothing() {
    let colours = default_colours();
    let mut canvas = Canvas::new(&Boundary { top: 0, bottom: 1, left: 0, right: 0 }).unwrap();
    assert_eq!(canvas.paint_line(&vec![], &colours), Ok(()));
    assert_eq!(canvas.rows_painted(), 1);
    assert_eq!(canvas.paint_line(&vec![0], &colours), Ok(()));
    assert_eq!(canvas.rows_painted(), 2);
    assert_eq!(canvas.paint_line(&vec![], &colours), Ok(()));
    assert_eq!(canvas.rows_painted(), 2);
    assert_eq!(canvas.into_bytes(), pixels(&[BLACK, WHITE]));
}

#[test]
fn a_canvas_without_columns_takes_empty_lines_only() {
    let colours = default_colours();
    let mut canvas = Canvas::new(&Boundary { top: 0, bottom: 0, left: 0, right: -1 }).unwrap();
    assert_eq!(canvas.paint_line(&vec![1], &colours), Err(PaintError::LineTooLong));
    assert_eq!(canvas.paint_line(&vec![], &colours), Ok(()));
    assert_eq!(canvas.paint_line(&vec![1], &colours), Err(PaintError::NoRowLeft));
}

#[test]
fn three_rows_of_four_values_fill_a_canvas_of_twelve_pixels() {
    let colours = default_colours();
    let boundary = Boundary { top: 0, bottom: 2, left: 0, right: 3 };
    let mut canvas = Canvas::new(&boundary).unwrap();
    let rows: [Vec<i128>; 3] = [vec![0, 1, 0, 1], vec![1, 0, 1, 0], vec![0, 0, 1, 1]];
    let mut painted = 0;
    for row in rows.iter() {
        assert_eq!(canvas.paint_line(row, &colours), Ok(()));
        painted += row.len();
    }
    assert_eq!(painted, 12);
    assert_eq!(canvas.rows_painted(), canvas.height());
    let bytes = canvas.into_bytes();
    assert_eq!(bytes.len(), 3 * 12);
    for (y, row) in rows.iter().enumerate() {
        for (x, value) in row.iter().enumerate() {
            let at = 3 * (4 * y + x);
            let expected = if *value == 0 { WHITE } else { BLACK };
            assert_eq!(bytes[at..at + 3], expected);
        }
    }
}

#[test]
fn the_bytes_are_those_of_an_image_of_the_same_size() {
    let mut mapping: HashMap<i128, [u8; 3]> = HashMap::new();
    for value in 0..6u8 {
        mapping.insert(value as i128, [value, 10 + value, 20 + value]);
    }
    let colours = Colours { mapping, default: [0, 0, 0] };
    let mut canvas = Canvas::new(&Boundary { top: 2, bottom: 3, left: -1, right: 1 }).unwrap();
    assert_eq!(canvas.paint_line(&vec![0, 1, 2], &colours), Ok(()));
    assert_eq!(canvas.paint_line(&vec![3, 4, 5], &colours), Ok(()));
    let (width, height) = (canvas.width(), canvas.height());
    let image = image::RgbImage::from_raw(width, height, canvas.into_bytes()).unwrap();
    assert_eq!(image.dimensions(), (3, 2));
    for y in 0..2u32 {
        for x in 0..3u32 {
            let value = (3 * y + x) as u8;
            assert_eq!(image.get_pixel(x, y).0, [value, 10 + value, 20 + value]);
        }
    }
}
