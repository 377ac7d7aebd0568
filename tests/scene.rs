use smallpt::scene::closest_hit;

#[test]
fn no_spheres_no_hit() {
    assert_eq!(closest_hit(&vec![]), None);
    assert_eq!(closest_hit(&vec![None, None]), None);
}

#[test]
fn nearest_sphere_wins() {
    assert_eq!(closest_hit(&vec![Some(9), None, Some(4), Some(6)]), Some(2));
}

#[test]
fn ties_go_to_the_last_sphere() {
    assert_eq!(closest_hit(&vec![Some(3), Some(5), Some(3), None]), Some(2));
}

#[test]
fn float_bits_order_like_distances() {
    let d = [7.5f64, 0.25, 1e5, 0.0001];
    let hits: Vec<Option<u64>> = d.iter().map(|x| Some(x.to_bits())).collect();
    assert_eq!(closest_hit(&hits), Some(3));
}
