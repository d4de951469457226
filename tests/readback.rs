use automancy::screenshot::{size_align, strip_row_padding};

#[test]
fn screenshot_buffer_is_tightly_packed_and_opaque() {
    let (width, height, padded) = (2usize, 2usize, 12usize);
    let mut data = Vec::new();
    for i in 0..(height * padded) {
        data.push(i as u8);
    }
    let r = strip_row_padding(&data, width, height, padded);
    assert_eq!(r.len(), width * height * 4);
    assert_eq!(r, vec![0, 1, 2, 255, 4, 5, 6, 255, 12, 13, 14, 255, 16, 17, 18, 255]);
}

#[test]
fn row_alignment() {
    assert_eq!(size_align(1, 256), 256);
    assert_eq!(size_align(256, 256), 256);
    assert_eq!(size_align(257, 256), 512);
    assert_eq!(size_align(0, 4), 0);
}
