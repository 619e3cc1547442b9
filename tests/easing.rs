use tacky_borders::easing::{named_easing, parse_cubic_bezier, AnimationEasing, EasingParseError, EASING_UNIT};
use tacky_borders::text::str_eq;

#[test]
fn ease_out_back_points() {
    let p = AnimationEasing::EaseOutBack.to_points();
    assert_eq!(p, [3400, 15600, 6400, 10000]);
    let f: Vec<f32> = p.iter().map(|v| *v as f32 / EASING_UNIT as f32).collect();
    assert_eq!(f, vec![0.34f32, 1.56, 0.64, 1.0]);
}

#[test]
fn linear_points() {
    assert_eq!(AnimationEasing::Linear.to_points(), [0, 0, 10000, 10000]);
}

#[test]
fn ease_in_out_back_points() {
    assert_eq!(AnimationEasing::EaseInOutBack.to_points(), [6800, -6000, 3200, 16000]);
}

#[test]
fn cubic_bezier_points_are_its_own() {
    assert_eq!(AnimationEasing::CubicBezier([1, 2, 3, 4]).to_points(), [1, 2, 3, 4]);
}

#[test]
fn names_in_kebab_case_and_variant_case() {
    assert_eq!(named_easing("ease-in-out-back"), Some(AnimationEasing::EaseInOutBack));
    assert_eq!(named_easing("EaseOutQuint"), Some(AnimationEasing::EaseOutQuint));
    assert_eq!(named_easing("linear"), Some(AnimationEasing::Linear));
    assert_eq!(named_easing("ease-sideways"), None);
    assert_eq!(named_easing(""), None);
}

#[test]
fn string_equality() {
    assert!(str_eq("abc", "abc"));
    assert!(!str_eq("abc", "abd"));
    assert!(!str_eq("abc", "ab"));
}

#[test]
fn from_str_named() {
    assert_eq!(AnimationEasing::from_str("ease-in-out-back"), Ok(AnimationEasing::EaseInOutBack));
    assert_eq!(AnimationEasing::from_str("EaseIn"), Ok(AnimationEasing::EaseIn));
}

#[test]
fn from_str_cubic_bezier() {
    assert_eq!(
        AnimationEasing::from_str("cubic-bezier(0.1, 0.7, 1.0, 0.1)"),
        Ok(AnimationEasing::CubicBezier([1000, 7000, 10000, 1000]))
    );
    assert_eq!(
        AnimationEasing::from_str("cubic-bezier(-0.5,1.25, .5 ,2)"),
        Ok(AnimationEasing::CubicBezier([-5000, 12500, 5000, 20000]))
    );
    assert_eq!(
        AnimationEasing::from_str("cubic-bezier(0.12345, 1, +1, 1.)"),
        Ok(AnimationEasing::CubicBezier([1234, 10000, 10000, 10000]))
    );
}

#[test]
fn from_str_errors() {
    assert_eq!(AnimationEasing::from_str("cubic-bezier(0.1, 0.7, 1.0)"), Err(EasingParseError::InvalidCubicBezier));
    assert_eq!(AnimationEasing::from_str("cubic-bezier(a, 0.7, 1.0, 1)"), Err(EasingParseError::InvalidCubicBezier));
    assert_eq!(AnimationEasing::from_str("cubic-bezier(0.1, 0.7, 1.0, 1"), Err(EasingParseError::InvalidCubicBezier));
    assert_eq!(AnimationEasing::from_str("cubic-bezier(., 0, 0, 0)"), Err(EasingParseError::InvalidCubicBezier));
    assert_eq!(AnimationEasing::from_str("bouncy"), Err(EasingParseError::UnknownName));
}

#[test]
fn parse_cubic_bezier_points() {
    assert_eq!(parse_cubic_bezier("cubic-bezier(0,0,1,1)"), Some([0, 0, 10000, 10000]));
    assert_eq!(parse_cubic_bezier("cubic-bezier(0,0,1,1,1)"), None);
    assert_eq!(parse_cubic_bezier("cubic-bezier(100001, 0, 0, 0)"), None);
}
