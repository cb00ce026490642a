use vs_placebo::blit::{bitblt, rows_span};

#[test]
fn copies_rows_between_different_strides() {
    // Three rows of four bytes, five bytes apart in the source.
    let src: Vec<u8> = (1..=14).collect();
    let mut dst = vec![0xEEu8; 20];
    bitblt(&mut dst, 6, &src, 5, 4, 3);
    assert_eq!(
        dst,
        vec![
            1, 2, 3, 4, 0xEE, 0xEE, //
            6, 7, 8, 9, 0xEE, 0xEE, //
            11, 12, 13, 14, 0xEE, 0xEE, //
            0xEE, 0xEE,
        ]
    );
}

#[test]
fn copies_a_contiguous_block() {
    let src: Vec<u8> = (0..12).collect();
    let mut dst = vec![0u8; 12];
    bitblt(&mut dst, 4, &src, 4, 4, 3);
    assert_eq!(dst, src);
}

#[test]
fn copies_nothing_for_no_rows_or_empty_rows() {
    let src = vec![1u8, 2, 3];
    let mut dst = vec![9u8; 3];
    bitblt(&mut dst, 100, &src, 100, 3, 0);
    assert_eq!(dst, vec![9, 9, 9]);
    bitblt(&mut dst, 1, &src, 1, 0, 3);
    assert_eq!(dst, vec![9, 9, 9]);
}

#[test]
fn last_row_may_end_with_the_buffer() {
    let src = vec![1u8, 2, 0, 3, 4];
    let mut dst = vec![0u8; 4];
    bitblt(&mut dst, 2, &src, 3, 2, 2);
    assert_eq!(dst, vec![1, 2, 3, 4]);
}

#[test]
fn copying_twice_changes_nothing() {
    let src: Vec<u8> = (100..130).collect();
    let mut once = vec![7u8; 40];
    bitblt(&mut once, 9, &src, 7, 6, 4);
    let mut twice = once.clone();
    bitblt(&mut twice, 9, &src, 7, 6, 4);
    assert_eq!(once, twice);
}

#[test]
fn overlapping_rows_are_written_in_order() {
    // Rows of three bytes, two bytes apart in the destination: each row
    // overwrites the last byte of the row before.
    let src = vec![1u8, 2, 3, 4, 5, 6];
    let mut dst = vec![0u8; 5];
    bitblt(&mut dst, 2, &src, 3, 3, 2);
    assert_eq!(dst, vec![1, 2, 4, 5, 6]);
}

#[test]
fn uniform_plane_is_copied_verbatim() {
    let src = vec![128u8; 16 * 8];
    let mut dst = vec![0u8; 32 * 8];
    bitblt(&mut dst, 32, &src, 16, 16, 8);
    for row in 0..8 {
        assert_eq!(&dst[row * 32..row * 32 + 16], &src[row * 16..row * 16 + 16]);
        assert_eq!(&dst[row * 32 + 16..row * 32 + 32], &[0u8; 16]);
    }
}

#[test]
fn span_of_rows() {
    assert_eq!(rows_span(64, 48, 10), Some(9 * 64 + 48));
    assert_eq!(rows_span(64, 48, 1), Some(48));
    assert_eq!(rows_span(64, 48, 0), Some(0));
    assert_eq!(rows_span(0, 5, 3), Some(5));
    assert_eq!(rows_span(7, 0, 3), Some(14));
    assert_eq!(rows_span(usize::MAX, 1, 2), None);
    assert_eq!(rows_span(usize::MAX, 0, 2), Some(usize::MAX));
    assert_eq!(rows_span(usize::MAX / 2, 2, 3), None);
    assert_eq!(rows_span(2, usize::MAX, 2), None);
}
