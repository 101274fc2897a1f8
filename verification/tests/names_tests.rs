use term_video::names::{frame_file_name, lex_le_bytes, sort_names};

#[test]
fn frame_file_names_are_zero_padded() {
    assert_eq!(frame_file_name(0), b"frame-0000000.png".to_vec());
    assert_eq!(frame_file_name(1), b"frame-0000001.png".to_vec());
    assert_eq!(frame_file_name(15), b"frame-0000015.png".to_vec());
    assert_eq!(frame_file_name(9_999_999), b"frame-9999999.png".to_vec());
}

#[test]
fn lexicographic_order_of_names_is_numeric_order() {
    let names: Vec<Vec<u8>> = (1..=15u64).map(frame_file_name).collect();
    for i in 0..names.len() - 1 {
        assert!(names[i] < names[i + 1]);
        assert!(lex_le_bytes(&names[i], &names[i + 1]));
        assert!(!lex_le_bytes(&names[i + 1], &names[i]));
    }
}

#[test]
fn sorting_shuffled_names_recovers_temporal_order() {
    let ordered: Vec<Vec<u8>> = (1..=15u64).map(frame_file_name).collect();
    let mut shuffled: Vec<Vec<u8>> = [11u64, 3, 15, 1, 8, 12, 2, 7, 14, 5, 10, 4, 13, 6, 9]
        .iter()
        .map(|&i| frame_file_name(i))
        .collect();
    sort_names(&mut shuffled);
    assert_eq!(shuffled, ordered);
}

#[test]
fn sort_keeps_duplicates_and_handles_small_inputs() {
    let mut names = vec![
        b"b".to_vec(),
        b"a".to_vec(),
        b"b".to_vec(),
        b"".to_vec(),
    ];
    sort_names(&mut names);
    assert_eq!(
        names,
        vec![b"".to_vec(), b"a".to_vec(), b"b".to_vec(), b"b".to_vec()]
    );

    let mut empty: Vec<Vec<u8>> = Vec::new();
    sort_names(&mut empty);
    assert!(empty.is_empty());

    let mut one = vec![b"only".to_vec()];
    sort_names(&mut one);
    assert_eq!(one, vec![b"only".to_vec()]);
}

#[test]
fn byte_comparison_is_lexicographic() {
    assert!(lex_le_bytes(&b"abc".to_vec(), &b"abd".to_vec()));
    assert!(lex_le_bytes(&b"ab".to_vec(), &b"abc".to_vec()));
    assert!(!lex_le_bytes(&b"abc".to_vec(), &b"ab".to_vec()));
    assert!(lex_le_bytes(&b"abc".to_vec(), &b"abc".to_vec()));
    assert!(lex_le_bytes(&b"".to_vec(), &b"".to_vec()));
    assert!(!lex_le_bytes(&b"b".to_vec(), &b"a".to_vec()));
}
