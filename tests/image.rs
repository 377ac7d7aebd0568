use smallpt::image::encode_ppm;

#[test]
fn encodes_header_and_triples() {
    let bytes = encode_ppm(2, 1, &vec![(0, 128, 255), (7, 10, 99)]).unwrap();
    assert_eq!(String::from_utf8(bytes).unwrap(), "P3\n2\n1\n255\n0 128 255 7 10 99 ");
}

#[test]
fn encodes_large_dimensions() {
    let bytes = encode_ppm(1024, 0, &vec![]).unwrap();
    assert_eq!(String::from_utf8(bytes).unwrap(), "P3\n1024\n0\n255\n");
}

#[test]
fn refuses_wrong_pixel_count() {
    assert_eq!(encode_ppm(2, 2, &vec![(1, 2, 3)]), None);
    assert_eq!(encode_ppm(usize::MAX, 2, &vec![]), None);
}
