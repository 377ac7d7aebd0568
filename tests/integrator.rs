use smallpt::integrator::{
    plan_bounce, roulette_applies, samples_per_subpixel, Bounce, DEFAULT_SAMPLES,
};
use smallpt::material::ReflType;

#[test]
fn roulette_starts_after_depth_four() {
    assert!(!roulette_applies(0));
    assert!(!roulette_applies(4));
    assert!(roulette_applies(5));
    assert!(roulette_applies(40));
}

#[test]
fn bounce_follows_material() {
    assert_eq!(plan_bounce(ReflType::DIFF, 7, true), Bounce::Diffuse);
    assert_eq!(plan_bounce(ReflType::SPEC, 0, false), Bounce::Mirror);
    assert_eq!(plan_bounce(ReflType::REFR, 0, true), Bounce::TotalInternal);
    assert_eq!(plan_bounce(ReflType::REFR, 1, false), Bounce::Split);
    assert_eq!(plan_bounce(ReflType::REFR, 2, false), Bounce::Choose);
}

#[test]
fn sample_count_from_request() {
    assert_eq!(samples_per_subpixel(None), Some(DEFAULT_SAMPLES));
    assert_eq!(samples_per_subpixel(Some(4000)), Some(1000));
    assert_eq!(samples_per_subpixel(Some(7)), Some(1));
    assert_eq!(samples_per_subpixel(Some(3)), None);
    assert_eq!(samples_per_subpixel(Some(-8)), None);
}
