use fractol::canvas::{pack_pixels, Canvas};

#[test]
fn new_canvas_is_opaque_black() {
    let c = Canvas::new_opaque_black(3, 2);
    assert_eq!(c.width(), 3);
    assert_eq!(c.height(), 2);
    assert_eq!(c.row_stride(), 12);
    let b = c.as_bytes();
    assert_eq!(b.len(), 24);
    for (i, v) in b.iter().enumerate() {
        assert_eq!(*v, if i % 4 == 3 { 255 } else { 0 });
    }
}

#[test]
fn empty_canvas() {
    let c = Canvas::new_opaque_black(0, 5);
    assert!(c.as_bytes().is_empty());
    let c = Canvas::new_opaque_black(5, 0);
    assert!(c.as_bytes().is_empty());
}

#[test]
fn write_then_read_row() {
    let mut c = Canvas::new_opaque_black(2, 3);
    let row: Vec<u8> = vec![1, 2, 3, 4, 5, 6, 7, 8];
    c.write_row(1, &row);
    assert_eq!(c.row(1), row);
    assert_eq!(c.row(0), vec![0, 0, 0, 255, 0, 0, 0, 255]);
    assert_eq!(c.row(2), vec![0, 0, 0, 255, 0, 0, 0, 255]);
    assert_eq!(&c.as_bytes()[8..16], &row[..]);
}

#[test]
fn write_last_row() {
    let mut c = Canvas::new_opaque_black(1, 2);
    c.write_row(1, &[9, 9, 9, 9]);
    assert_eq!(c.as_bytes(), &vec![0, 0, 0, 255, 9, 9, 9, 9]);
}

#[test]
fn pack_pixels_in_rgba_order() {
    let px = [[1u8, 2, 3, 4], [10, 20, 30, 40]];
    assert_eq!(pack_pixels(&px), vec![1, 2, 3, 4, 10, 20, 30, 40]);
    let none: [[u8; 4]; 0] = [];
    assert!(pack_pixels(&none).is_empty());
}
