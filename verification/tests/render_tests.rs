use term_video::frame::Frame;
use term_video::render::render;

fn frame(width: u32, height: u32, samples: Vec<u8>) -> Frame {
    Frame::new(width, height, samples).expect("sample buffer does not match the size")
}

#[test]
fn solid_gray_frames_render_to_expected_blobs() {
    let dark = frame(2, 1, vec![0, 0]);
    let mid = frame(2, 1, vec![128, 128]);
    let bright = frame(2, 1, vec![255, 255]);
    assert_eq!(render(&dark, 2, 1), "  \n");
    assert_eq!(render(&mid, 2, 1), ";;\n");
    assert_eq!(render(&bright, 2, 1), "@@\n");
}

#[test]
fn blob_length_is_width_height_plus_height() {
    let f = frame(3, 2, vec![0, 50, 100, 150, 200, 250]);
    let blob = render(&f, 3, 2);
    assert_eq!(blob.len(), 3 * 2 + 2);
    assert_eq!(blob, " -:\n=#@\n");

    let g = frame(4, 4, vec![7; 16]);
    assert_eq!(render(&g, 4, 4).len(), 4 * 4 + 4);
    assert_eq!(render(&g, 1, 1).len(), 1 * 1 + 1);
}

#[test]
fn degenerate_sizes_render_to_the_empty_blob() {
    let f = frame(3, 2, vec![9; 6]);
    assert_eq!(render(&f, 0, 2), "");
    assert_eq!(render(&f, 3, 0), "");
    assert_eq!(render(&f, 0, 0), "");
}

#[test]
fn rendering_a_smaller_size_samples_the_top_left_corner() {
    let f = frame(3, 2, vec![0, 128, 255, 255, 255, 255]);
    assert_eq!(render(&f, 2, 1), " ;\n");
}

#[test]
fn frame_new_rejects_a_mismatched_buffer() {
    assert!(Frame::new(2, 2, vec![1, 2, 3]).is_none());
    assert!(Frame::new(0, 5, vec![1]).is_none());
    assert!(Frame::new(2, 2, vec![1, 2, 3, 4]).is_some());
}

#[test]
fn frame_get_reads_row_major_samples() {
    let f = frame(3, 2, vec![10, 20, 30, 40, 50, 60]);
    assert_eq!(f.get(0, 0), 10);
    assert_eq!(f.get(2, 0), 30);
    assert_eq!(f.get(0, 1), 40);
    assert_eq!(f.get(2, 1), 60);
}
