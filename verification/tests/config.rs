use raytracer::config::{image_height, Config};

#[test]
fn valid_configuration_is_accepted() {
    let c = Config::new(400, 10, 5).unwrap();
    assert_eq!(c.image_width, 400);
    assert_eq!(c.image_height, 225);
    assert_eq!(c.samples_per_pixel, 10);
    assert_eq!(c.bounce_budget, 5);
}

#[test]
fn zero_samples_is_rejected() {
    assert!(Config::new(400, 0, 5).is_none());
}

#[test]
fn zero_width_is_rejected() {
    assert!(Config::new(0, 10, 5).is_none());
}

#[test]
fn zero_bounce_budget_is_allowed() {
    assert!(Config::new(400, 1, 0).is_some());
}

#[test]
fn height_truncates_toward_zero() {
    assert_eq!(image_height(100), 56);
    assert_eq!(image_height(16), 9);
    assert_eq!(image_height(1), 0);
}
