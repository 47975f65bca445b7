use wascan::frame::{luma_of, PixelBuffer};

fn ramp(width: u32, height: u32) -> PixelBuffer {
    let bytes: Vec<u8> = (0..width * height).map(|k| (k % 256) as u8).collect();
    PixelBuffer::new(width, height, bytes).unwrap()
}

#[test]
fn a_buffer_needs_one_byte_per_pixel() {
    assert!(PixelBuffer::new(3, 2, vec![0; 6]).is_some());
    assert!(PixelBuffer::new(3, 2, vec![0; 5]).is_none());
    assert!(PixelBuffer::new(3, 2, vec![0; 7]).is_none());
    assert!(PixelBuffer::new(0, 5, vec![]).is_some());
    assert!(PixelBuffer::new(0, 5, vec![1]).is_none());
}

#[test]
fn a_buffer_keeps_its_sides_and_bytes() {
    let buffer = PixelBuffer::new(3, 2, vec![1, 2, 3, 4, 5, 6]).unwrap();
    assert_eq!(buffer.width(), 3);
    assert_eq!(buffer.height(), 2);
    assert_eq!(buffer.bytes(), &vec![1, 2, 3, 4, 5, 6]);
    assert_eq!(buffer.clone(), buffer);
}

#[test]
fn huge_sides_do_not_wrap_around() {
    assert!(PixelBuffer::new(65536, 65536, vec![]).is_none());
    assert!(PixelBuffer::new(u32::MAX, u32::MAX, vec![0; 1]).is_none());
}

#[test]
fn luma_weighs_the_colors() {
    assert_eq!(luma_of(0, 0, 0), 0);
    assert_eq!(luma_of(255, 255, 255), 255);
    assert_eq!(luma_of(255, 0, 0), 76);
    assert_eq!(luma_of(0, 255, 0), 149);
    assert_eq!(luma_of(0, 0, 255), 29);
    assert_eq!(luma_of(10, 20, 30), 18);
    assert_eq!(luma_of(200, 100, 50), 124);
}

#[test]
fn luma_of_gray_is_that_gray() {
    for v in 0..=255u8 {
        assert_eq!(luma_of(v, v, v), v);
    }
}

#[test]
fn luma_stays_within_one_of_the_float_formula() {
    for r in (0..=255u32).step_by(3) {
        for g in 0..=255u32 {
            for b in (0..=255u32).step_by(5) {
                let float = (0.299f32 * r as f32 + 0.587f32 * g as f32 + 0.114f32 * b as f32) as u8;
                let exact = luma_of(r as u8, g as u8, b as u8);
                assert!(exact == float || exact == float + 1, "{} {} {}", r, g, b);
            }
        }
    }
}

#[test]
fn a_colored_frame_turns_gray() {
    let rgba = vec![255, 0, 0, 255, 0, 255, 0, 255, 0, 0, 255, 255, 255, 255, 255, 0];
    let gray = PixelBuffer::from_rgba(&rgba, 2, 2).unwrap();
    assert_eq!(gray.width(), 2);
    assert_eq!(gray.height(), 2);
    assert_eq!(gray.bytes(), &vec![76, 149, 29, 255]);
}

#[test]
fn a_colored_frame_needs_four_bytes_per_pixel() {
    assert!(PixelBuffer::from_rgba(&vec![0; 16], 2, 2).is_some());
    assert!(PixelBuffer::from_rgba(&vec![0; 15], 2, 2).is_none());
    assert!(PixelBuffer::from_rgba(&vec![0; 17], 2, 2).is_none());
    assert!(PixelBuffer::from_rgba(&vec![0; 20], 2, 2).is_none());
    assert!(PixelBuffer::from_rgba(&vec![0; 4], 2, 2).is_none());
    assert!(PixelBuffer::from_rgba(&vec![], 0, 0).is_some());
}

#[test]
fn a_window_is_cut_out_row_by_row() {
    let buffer = ramp(4, 4);
    let cut = buffer.crop(1, 1, 2, 2).unwrap();
    assert_eq!(cut.width(), 2);
    assert_eq!(cut.height(), 2);
    assert_eq!(cut.bytes(), &vec![5, 6, 9, 10]);
    let row = buffer.crop(0, 3, 4, 1).unwrap();
    assert_eq!(row.bytes(), &vec![12, 13, 14, 15]);
    let column = buffer.crop(3, 0, 1, 4).unwrap();
    assert_eq!(column.bytes(), &vec![3, 7, 11, 15]);
}

#[test]
fn the_whole_picture_is_a_window_of_itself() {
    let buffer = ramp(5, 3);
    assert_eq!(buffer.crop(0, 0, 5, 3).unwrap(), buffer);
}

#[test]
fn a_window_must_lie_within_the_picture() {
    let buffer = ramp(4, 4);
    assert!(buffer.crop(2, 2, 3, 3).is_none());
    assert!(buffer.crop(0, 0, 5, 4).is_none());
    assert!(buffer.crop(0, 0, 4, 5).is_none());
    assert!(buffer.crop(4, 0, 1, 1).is_none());
    assert!(buffer.crop(u32::MAX, 0, 2, 1).is_none());
}

#[test]
fn an_empty_window_is_allowed_at_the_edge() {
    let buffer = ramp(4, 4);
    let cut = buffer.crop(4, 4, 0, 0).unwrap();
    assert_eq!(cut.width(), 0);
    assert_eq!(cut.height(), 0);
    assert!(cut.bytes().is_empty());
    let flat = buffer.crop(1, 2, 3, 0).unwrap();
    assert_eq!(flat.width(), 3);
    assert!(flat.bytes().is_empty());
}
