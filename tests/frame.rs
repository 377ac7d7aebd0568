use smallpt::frame::{row_span, row_spans, Frame, FrameError};

#[test]
fn lib_it_works() {
    assert_eq!(2 + 2, 4);
}

#[test]
fn row_zero_is_the_last_buffer_row() {
    assert_eq!(row_span(0, 4, 3), (8, 12));
    assert_eq!(row_span(2, 4, 3), (0, 4));
}

#[test]
fn row_spans_cover_buffer_once() {
    let width = 5;
    let height = 4;
    let spans = row_spans(width, height);
    assert_eq!(spans.len(), height);
    let mut owners = vec![0u32; width * height];
    for &(start, end) in &spans {
        assert_eq!(end - start, width);
        for p in start..end {
            owners[p] += 1;
        }
    }
    assert!(owners.iter().all(|&n| n == 1));
}

#[test]
fn row_spans_of_empty_image() {
    assert!(row_spans(7, 0).is_empty());
    assert_eq!(row_spans(0, 2), vec![(0, 0), (0, 0)]);
}

#[test]
fn frame_assembles_rows() {
    let mut f = Frame::new(2, 2, 0u8).unwrap();
    assert!(!f.is_complete());
    assert_eq!(f.place_row(0, &vec![1, 2]), Ok(()));
    assert_eq!(f.place_row(1, &vec![3, 4]), Ok(()));
    assert!(f.is_complete());
    assert_eq!(f.into_pixels(), Ok(vec![3, 4, 1, 2]));
}

#[test]
fn frame_refuses_bad_rows() {
    let mut f = Frame::new(3, 2, 0i32).unwrap();
    assert_eq!(f.place_row(2, &vec![1, 2, 3]), Err(FrameError::RowOutOfRange));
    assert_eq!(f.place_row(0, &vec![1, 2]), Err(FrameError::WrongLength));
    assert_eq!(f.place_row(0, &vec![1, 2, 3]), Ok(()));
    assert_eq!(f.place_row(0, &vec![7, 8, 9]), Err(FrameError::RowTaken));
    assert_eq!(f.width(), 3);
    assert_eq!(f.height(), 2);
    assert_eq!(f.into_pixels(), Err(FrameError::Incomplete));
}

#[test]
fn frame_too_large() {
    assert_eq!(Frame::new(usize::MAX, 2, 0u8).err(), Some(FrameError::TooLarge));
}

#[test]
fn empty_frame_is_complete() {
    let f = Frame::new(3, 0, 1u8).unwrap();
    assert!(f.is_complete());
    assert_eq!(f.into_pixels(), Ok(vec![]));
}
