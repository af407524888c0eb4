use nzm_cmd::frame::Frame;
use nzm_cmd::scene::{Point, Rect, Rgb};

#[test]
fn frame_needs_three_bytes_per_pixel() {
    assert!(Frame::from_rgb(2, 2, vec![0; 12]).is_some());
    assert!(Frame::from_rgb(2, 2, vec![0; 11]).is_none());
    assert!(Frame::from_rgb(0, 5, vec![]).is_some());
}

#[test]
fn pixel_lookup_is_row_major() {
    let mut bytes = vec![0u8; 3 * 3 * 2];
    // pixel (2, 1)
    bytes[3 * (1 * 3 + 2)] = 9;
    bytes[3 * (1 * 3 + 2) + 1] = 8;
    bytes[3 * (1 * 3 + 2) + 2] = 7;
    let f = Frame::from_rgb(3, 2, bytes).unwrap();
    assert_eq!(f.pixel(Point { x: 2, y: 1 }), Some(Rgb { r: 9, g: 8, b: 7 }));
    assert_eq!(f.pixel(Point { x: 0, y: 0 }), Some(Rgb { r: 0, g: 0, b: 0 }));
    assert_eq!(f.pixel(Point { x: 3, y: 0 }), None);
    assert_eq!(f.pixel(Point { x: 0, y: 2 }), None);
}

#[test]
fn crop_keeps_the_inside_of_the_rectangle() {
    let bytes: Vec<u8> = (0..3 * 4 * 3).map(|b| b as u8).collect();
    let f = Frame::from_rgb(4, 3, bytes).unwrap();
    let c = f.crop(Rect { x1: 1, y1: 1, x2: 2, y2: 2 }).unwrap();
    assert_eq!((c.width, c.height), (2, 2));
    assert_eq!(c.pixel(Point { x: 0, y: 0 }), f.pixel(Point { x: 1, y: 1 }));
    assert_eq!(c.pixel(Point { x: 1, y: 1 }), f.pixel(Point { x: 2, y: 2 }));
    assert_eq!(c.rgb.len(), 12);
    assert!(f.crop(Rect { x1: 2, y1: 0, x2: 1, y2: 0 }).is_none());
    assert!(f.crop(Rect { x1: 0, y1: 0, x2: 4, y2: 0 }).is_none());
    assert!(f.crop(Rect { x1: 3, y1: 2, x2: 3, y2: 2 }).is_some());
}
