use pixelwave::kernel::{pack_pixel, wave_byte, wave_coord};
use pixelwave::pattern::{draw2, draw3, fill};
use pixelwave::solid::{fill_solid, fill_solid_bytes, fill_solid_words};

#[test]
fn wave_landmarks() {
    assert_eq!(wave_byte(0), 0);
    assert_eq!(wave_byte(1), 1);
    assert_eq!(wave_byte(255), 255);
    assert_eq!(wave_byte(256), 255);
    assert_eq!(wave_byte(257), 254);
    assert_eq!(wave_byte(511), 0);
    assert_eq!(wave_byte(512), 0);
}

#[test]
fn wave_periodic() {
    for v in [0u32, 1, 17, 255, 256, 300, 511] {
        assert_eq!(wave_byte(v), wave_byte(v + 512));
        assert_eq!(wave_byte(v), wave_byte(v + 5 * 512));
    }
}

#[test]
fn wave_coord_agrees_with_wave_byte() {
    for v in [0usize, 3, 255, 256, 400, 511, 512, 1000] {
        assert_eq!(wave_coord(v), wave_byte(v as u32));
    }
}

#[test]
fn pack_pixel_exact() {
    assert_eq!(pack_pixel(1, 2, 3), 0xff03_0201);
    assert_eq!(pack_pixel(0, 0, 0), 0xff00_0000);
    assert_eq!(pack_pixel(255, 255, 255), 0xffff_ffff);
}

#[test]
fn pattern_two_by_two_frame_zero_row_major() {
    let mut buf = vec![0u8; 16];
    draw2(&mut buf, 2, 2, 0);
    // pixel (x, y) at byte offset (y*2 + x)*4, channels [r, g, b, a]
    assert_eq!(buf[0..4], [0, 0, 0, 255]); // pixel (0, 0)
    assert_eq!(buf[4..8], [1, 0, 0, 255]); // pixel (1, 0)
    assert_eq!(buf[8..12], [0, 1, 0, 255]); // pixel (0, 1)
    assert_eq!(buf[12..16], [1, 1, 0, 255]); // pixel (1, 1)
}

#[test]
fn pattern_two_by_two_frame_zero_words() {
    let mut buf = vec![0u32; 4];
    draw3(&mut buf, 2, 2, 0);
    assert_eq!(buf[0], 0xff00_0000); // pixel (0, 0)
    assert_eq!(buf[1], 0xff00_0001); // pixel (1, 0): red 1
    assert_eq!(buf[2], 0xff00_0100); // pixel (0, 1): green 1
    assert_eq!(buf[3], 0xff00_0101); // pixel (1, 1): red 1, green 1
}

#[test]
fn pattern_two_by_two_frame_zero_column_order() {
    let data = fill(2, 2, 0);
    // fill walks columns first: pixel (x, y) at byte offset (x*2 + y)*4
    assert_eq!(data.len(), 16);
    assert_eq!(data[0..4], [0, 0, 0, 255]); // pixel (0, 0)
    assert_eq!(data[4..8], [0, 1, 0, 255]); // pixel (0, 1)
    assert_eq!(data[8..12], [1, 0, 0, 255]); // pixel (1, 0)
    assert_eq!(data[12..16], [1, 1, 0, 255]); // pixel (1, 1)
}

#[test]
fn pattern_frame_drives_blue() {
    let data = fill(1, 1, 300);
    // wave(300) = 255 - 300 % 256 = 211
    assert_eq!(data, vec![0, 0, 211, 255]);
}

#[test]
fn solid_every_pixel_and_length() {
    let data = fill_solid(3, 2, 7, 8, 9);
    assert_eq!(data.len(), 3 * 2 * 4);
    for p in 0..6 {
        assert_eq!(data[p * 4..p * 4 + 4], [7, 8, 9, 255]);
    }

    let mut buf = vec![0u8; 24];
    fill_solid_bytes(&mut buf, 3, 2, 7, 8, 9);
    assert_eq!(buf, data);

    let mut words = vec![0u32; 6];
    fill_solid_words(&mut words, 3, 2, 7, 8, 9);
    for p in 0..6 {
        assert_eq!(words[p], 0xff00_0000 | (9 << 16) | (8 << 8) | 7);
    }
}

#[test]
fn pattern_fill_idempotent() {
    let first = fill(5, 4, 123);
    let second = fill(5, 4, 123);
    assert_eq!(first, second);

    // the in-place fills overwrite whatever was there before
    let mut a = vec![0u8; 5 * 4 * 4];
    let mut b = vec![0xaau8; 5 * 4 * 4];
    draw2(&mut a, 5, 4, 123);
    draw2(&mut b, 5, 4, 123);
    assert_eq!(a, b);

    let mut c = vec![0u32; 20];
    let mut d = vec![0xdead_beefu32; 20];
    draw3(&mut c, 5, 4, 123);
    draw3(&mut d, 5, 4, 123);
    assert_eq!(c, d);
}

#[test]
fn coverage_every_index_written() {
    // with 10x10 pixels and frame 0, no written byte can be 200, so a
    // sentinel of 200 must vanish everywhere: every index is written
    let mut buf = vec![200u8; 10 * 10 * 4];
    draw2(&mut buf, 10, 10, 0);
    assert!(buf.iter().all(|&v| v != 200));

    let mut words = vec![0x01020304u32; 100];
    draw3(&mut words, 10, 10, 0);
    assert!(words.iter().all(|&v| v != 0x01020304));
}

#[test]
fn zero_dimension_fills_are_empty() {
    assert_eq!(fill(0, 5, 7).len(), 0);
    assert_eq!(fill(5, 0, 7).len(), 0);
    assert_eq!(fill_solid(0, 0, 1, 2, 3).len(), 0);

    let mut buf: Vec<u8> = vec![];
    draw2(&mut buf, 0, 9, 1);
    assert!(buf.is_empty());
    draw2(&mut buf, 9, 0, 1);
    assert!(buf.is_empty());

    let mut words: Vec<u32> = vec![];
    draw3(&mut words, 0, 3, 1);
    assert!(words.is_empty());
}

#[test]
fn alpha_always_opaque() {
    let data = fill(7, 5, 999);
    for p in 0..35 {
        assert_eq!(data[p * 4 + 3], 255);
    }

    let mut buf = vec![0u8; 7 * 5 * 4];
    draw2(&mut buf, 7, 5, 999);
    for p in 0..35 {
        assert_eq!(buf[p * 4 + 3], 255);
    }

    let solid = fill_solid(7, 5, 1, 2, 3);
    for p in 0..35 {
        assert_eq!(solid[p * 4 + 3], 255);
    }

    let mut words = vec![0u32; 35];
    draw3(&mut words, 7, 5, 999);
    for p in 0..35 {
        assert_eq!(words[p] >> 24, 0xff);
    }
}

#[test]
fn row_and_column_layouts_hold_the_same_pixels() {
    // same pattern, both byte orders: pixel (x, y) of one equals the other
    let width = 6usize;
    let height = 3usize;
    let column = fill(width as u32, height as u32, 42);
    let mut row = vec![0u8; width * height * 4];
    draw2(&mut row, width, height, 42);
    for y in 0..height {
        for x in 0..width {
            let c = (x * height + y) * 4;
            let r = (y * width + x) * 4;
            assert_eq!(column[c..c + 4], row[r..r + 4]);
        }
    }
}
