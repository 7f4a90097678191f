use raytracer::frame::{FrameBuffer, Pixel, Rgba32};

#[test]
fn new_buffer_is_zeroed_and_sized() {
    let fb = FrameBuffer::new(4, 3);
    assert_eq!(fb.width(), 4);
    assert_eq!(fb.height(), 3);
    assert_eq!(fb.pixel_data().len(), 4 * 3 * 4);
    assert!(fb.pixel_data().iter().all(|&b| b == 0));
}

#[test]
fn set_then_get_returns_same_pixel() {
    let mut fb = FrameBuffer::new(8, 8);
    let c = Pixel { r: 10, g: 200, b: 33, a: 255 };
    fb.set_pixel(3, 5, c);
    let back: Pixel = fb.get_pixel(3, 5);
    assert_eq!(back, c);
}

#[test]
fn set_then_get_round_trips_everywhere() {
    let mut fb = FrameBuffer::new(5, 4);
    for y in 0..4usize {
        for x in 0..5usize {
            let c = Pixel {
                r: (x * 40) as u8,
                g: (y * 60) as u8,
                b: (x + y) as u8,
                a: 7,
            };
            fb.set_pixel(x, y, c);
            let back: Pixel = fb.get_pixel(x, y);
            assert_eq!(back, c);
        }
    }
}

#[test]
fn set_pixel_leaves_other_pixels_alone() {
    let mut fb = FrameBuffer::new(4, 4);
    let first = Pixel { r: 1, g: 2, b: 3, a: 4 };
    let second = Pixel { r: 9, g: 8, b: 7, a: 6 };
    fb.set_pixel(0, 0, first);
    fb.set_pixel(3, 2, second);
    let a: Pixel = fb.get_pixel(0, 0);
    let b: Pixel = fb.get_pixel(3, 2);
    assert_eq!(a, first);
    assert_eq!(b, second);
}

#[test]
fn pixels_are_stored_row_major() {
    let mut fb = FrameBuffer::new(3, 2);
    fb.set_pixel(1, 1, Pixel { r: 11, g: 22, b: 33, a: 44 });
    let start = (1 + 1 * 3) * 4;
    let data = fb.pixel_data();
    assert_eq!(&data[start..start + 4], &[11, 22, 33, 44]);
}

#[test]
fn set_line_writes_the_whole_row() {
    let mut fb = FrameBuffer::new(3, 2);
    let row = vec![
        Pixel { r: 1, g: 2, b: 3, a: 4 },
        Pixel { r: 5, g: 6, b: 7, a: 8 },
        Pixel { r: 9, g: 10, b: 11, a: 12 },
    ];
    fb.set_line(1, &row);
    for x in 0..3usize {
        let back: Pixel = fb.get_pixel(x, 1);
        assert_eq!(back, row[x]);
    }
}

#[test]
fn set_line_leaves_other_rows_alone() {
    let mut fb = FrameBuffer::new(2, 3);
    let marker = Pixel { r: 100, g: 101, b: 102, a: 103 };
    fb.set_pixel(1, 0, marker);
    let row = vec![Pixel { r: 1, g: 1, b: 1, a: 1 }; 2];
    fb.set_line(2, &row);
    let kept: Pixel = fb.get_pixel(1, 0);
    assert_eq!(kept, marker);
}

#[test]
fn pixel_rgba_conversion_is_identity() {
    let c = Pixel { r: 5, g: 6, b: 7, a: 8 };
    assert_eq!(c.to_rgba32(), (5, 6, 7, 8));
    let back = Pixel::from_rgba32((5, 6, 7, 8));
    assert_eq!(back, c);
}
