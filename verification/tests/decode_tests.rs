use std::io::Cursor;
use term_video::decode::render_still;

fn gray_png(width: u32, height: u32, samples: Vec<u8>) -> Vec<u8> {
    let img = image::GrayImage::from_raw(width, height, samples).expect("bad sample buffer");
    let mut bytes = Vec::new();
    img.write_to(&mut Cursor::new(&mut bytes), image::ImageOutputFormat::Png)
        .expect("could not encode test image");
    bytes
}

#[test]
fn decoding_recovers_the_luminance_samples() {
    // One glyph per sample: the blob shows the decoded values, not the
    // encoded bytes.
    let bytes = gray_png(2, 1, vec![0, 255]);
    assert_eq!(render_still(&bytes, 2, 1).as_deref(), Some(" @\n"));
    let bytes = gray_png(1, 2, vec![128, 44]);
    assert_eq!(render_still(&bytes, 1, 2).as_deref(), Some(";\n-\n"));
}

#[test]
fn solid_gray_stills_render_end_to_end() {
    let dark = gray_png(2, 1, vec![0, 0]);
    let mid = gray_png(2, 1, vec![128, 128]);
    let bright = gray_png(2, 1, vec![255, 255]);
    assert_eq!(render_still(&dark, 2, 1).as_deref(), Some("  \n"));
    assert_eq!(render_still(&mid, 2, 1).as_deref(), Some(";;\n"));
    assert_eq!(render_still(&bright, 2, 1).as_deref(), Some("@@\n"));
}

#[test]
fn rendering_a_corner_of_a_larger_still() {
    let bytes = gray_png(3, 2, vec![0, 128, 255, 255, 255, 255]);
    assert_eq!(render_still(&bytes, 2, 1).as_deref(), Some(" ;\n"));
}

#[test]
fn garbage_bytes_do_not_decode() {
    assert!(render_still(&b"not an image at all".to_vec(), 1, 1).is_none());
    assert!(render_still(&Vec::new(), 1, 1).is_none());
}

#[test]
fn degenerate_requested_sizes_render_the_empty_blob() {
    let bytes = gray_png(2, 1, vec![1, 2]);
    assert_eq!(render_still(&bytes, 0, 1).as_deref(), Some(""));
    assert_eq!(render_still(&bytes, 2, 0).as_deref(), Some(""));
    // even a degenerate size asks for a decodable image
    assert!(render_still(&b"garbage".to_vec(), 0, 0).is_none());
}

#[test]
fn an_undersized_still_is_refused() {
    let bytes = gray_png(2, 1, vec![10, 20]);
    assert!(render_still(&bytes, 3, 1).is_none());
    assert!(render_still(&bytes, 2, 2).is_none());
}
