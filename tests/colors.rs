use tacky_borders::color::{Color, Direction, GradientStop, Rgba, UNIT};
use tacky_borders::color_config::{
    color_from_matches, from_mapping, from_string, get_accent_color, get_color_from_hex,
    get_color_from_rgba, get_colors_for_window, is_valid_direction, named_direction_exec,
    to_d2d1_color, ColorRule, RuleKind, LEVEL,
};

fn rgba(r: u32, g: u32, b: u32, a: u32) -> Rgba {
    Rgba { r, g, b, a }
}

#[test]
fn hex_long_and_short_forms() {
    assert_eq!(get_color_from_hex("#ff8000"), rgba(255 * LEVEL, 128 * LEVEL, 0, UNIT));
    assert_eq!(get_color_from_hex("#FF800080"), rgba(255 * LEVEL, 128 * LEVEL, 0, 128 * LEVEL));
    assert_eq!(get_color_from_hex("#f80"), rgba(255 * LEVEL, 136 * LEVEL, 0, UNIT));
    assert_eq!(get_color_from_hex("#f808"), rgba(255 * LEVEL, 136 * LEVEL, 0, 136 * LEVEL));
    assert_eq!(get_color_from_hex("#ffffff"), rgba(UNIT, UNIT, UNIT, UNIT));
}

#[test]
fn hex_invalid_forms() {
    assert_eq!(get_color_from_hex("#12345"), rgba(0, 0, 0, 0));
    assert_eq!(get_color_from_hex("#zz0000"), rgba(0, 0, 0, UNIT));
}

#[test]
fn accent_colors() {
    assert_eq!(get_accent_color(0x0000_78d7, true), rgba(0, 0x78 * LEVEL, 0xd7 * LEVEL, UNIT));
    // inactive: two thirds of the mean plus a tenth of the channel
    let grey = (0 + 0x78 + 0xd7) * 8000 / 9;
    assert_eq!(get_accent_color(0x0000_78d7, false), rgba(grey, grey + 0x78 * 400, grey + 0xd7 * 400, UNIT));
    assert_eq!(to_d2d1_color("accent", true, 0x00ff_0000), rgba(UNIT, 0, 0, UNIT));
}

#[test]
fn unknown_color_strings_are_transparent_black() {
    assert_eq!(to_d2d1_color("purple", true, 0), rgba(0, 0, 0, 0));
    assert_eq!(to_d2d1_color("#00ff00", true, 0), rgba(0, UNIT, 0, UNIT));
}

#[test]
fn directions() {
    assert!(is_valid_direction("to right"));
    assert!(is_valid_direction("to bottom left"));
    assert!(is_valid_direction("45deg"));
    assert!(is_valid_direction("-12.5deg"));
    assert!(is_valid_direction(".5deg"));
    assert!(!is_valid_direction("deg"));
    assert!(!is_valid_direction("1.2.3deg"));
    assert!(!is_valid_direction("to the moon"));
    assert!(!is_valid_direction("45"));
    assert_eq!(
        named_direction_exec("to right"),
        Some(Direction { start_x: 0, start_y: UNIT / 2, end_x: UNIT, end_y: UNIT / 2 })
    );
}

#[test]
fn mapping_to_gradient() {
    let d = Direction { start_x: 0, start_y: 0, end_x: UNIT, end_y: UNIT };
    let colors = vec!["#ff0000".to_string(), "#00ff00".to_string(), "#0000ff".to_string()];
    match from_mapping(&colors, d, true, 0) {
        Color::Gradient(g) => {
            assert_eq!(g.direction, d);
            assert_eq!(
                g.stops,
                vec![
                    GradientStop { position: 0, color: rgba(UNIT, 0, 0, UNIT) },
                    GradientStop { position: UNIT / 2, color: rgba(0, UNIT, 0, UNIT) },
                    GradientStop { position: UNIT, color: rgba(0, 0, UNIT, UNIT) },
                ]
            );
        }
        Color::Solid(_) => panic!("expected a gradient"),
    }
    match from_mapping(&vec!["#ffffff".to_string()], d, true, 0) {
        Color::Solid(c) => assert_eq!(c, rgba(UNIT, UNIT, UNIT, UNIT)),
        Color::Gradient(_) => panic!("expected a solid"),
    }
    match from_mapping(&vec![], d, true, 0) {
        Color::Solid(c) => assert_eq!(c, rgba(0, 0, 0, 0)),
        Color::Gradient(_) => panic!("expected a solid"),
    }
}

#[test]
fn window_colors_from_rules() {
    let rules = vec![
        ColorRule { kind: RuleKind::Global, contains: None, active_color: Some("#ffffff".to_string()), inactive_color: None },
        ColorRule { kind: RuleKind::Title, contains: Some("NOTEPAD".to_string()), active_color: Some("#ff0000".to_string()), inactive_color: Some("#000000".to_string()) },
        ColorRule { kind: RuleKind::Class, contains: Some("shell".to_string()), active_color: Some("#00ff00".to_string()), inactive_color: None },
    ];
    let (a, i) = get_colors_for_window(&rules, "Untitled - Notepad", "Notepad", 0x0000_00ff);
    assert_eq!(a, rgba(UNIT, 0, 0, UNIT));
    assert_eq!(i, rgba(0, 0, 0, UNIT));
    let (a, i) = get_colors_for_window(&rules, "Calculator", "ApplicationFrameWindow", 0x0000_00ff);
    assert_eq!(a, rgba(UNIT, UNIT, UNIT, UNIT));
    let grey = 0xff * 8000 / 9;
    assert_eq!(i, rgba(grey, grey, grey + 0xff * 400, UNIT));
    let (a, _) = get_colors_for_window(&vec![], "x", "y", 0);
    assert_eq!(a, rgba(UNIT, UNIT, UNIT, UNIT));
}

#[test]
fn rgb_and_rgba() {
    assert_eq!(get_color_from_rgba("rgb(255, 0, 128)"), rgba(UNIT, 0, 128 * LEVEL, UNIT));
    assert_eq!(get_color_from_rgba("rgba(10,20,30,0.5)"), rgba(10 * LEVEL, 20 * LEVEL, 30 * LEVEL, UNIT / 2));
    // levels above 255 count as 255, alpha is clamped, unreadable alpha is opaque
    assert_eq!(get_color_from_rgba("rgba(300, x, 0, 7)"), rgba(UNIT, 0, 0, UNIT));
    assert_eq!(get_color_from_rgba("rgba(0, 0, 0, -1)"), rgba(0, 0, 0, 0));
    assert_eq!(get_color_from_rgba("rgba(0, 0, 0, abc)"), rgba(0, 0, 0, UNIT));
    assert_eq!(get_color_from_rgba("rgb(1, 2)"), rgba(0, 0, 0, 0));
    assert_eq!(to_d2d1_color("rgb(0, 255, 0)", false, 0), rgba(0, UNIT, 0, UNIT));
}

#[test]
fn gradient_string_with_named_direction() {
    let p = from_string("gradient(#ff0000, #0000ff, to bottom)", true, 0);
    assert_eq!(p.angle, None);
    match p.color {
        Color::Gradient(g) => {
            assert_eq!(g.stops, vec![
                GradientStop { position: 0, color: rgba(UNIT, 0, 0, UNIT) },
                GradientStop { position: UNIT, color: rgba(0, 0, UNIT, UNIT) },
            ]);
            assert_eq!(g.direction, Direction { start_x: UNIT / 2, start_y: 0, end_x: UNIT / 2, end_y: UNIT });
        }
        Color::Solid(_) => panic!("expected a gradient"),
    }
}

#[test]
fn gradient_string_with_angle_and_default() {
    let p = from_string("#ffffff, rgb(0,0,0), 45deg", true, 0);
    assert_eq!(p.angle, Some(450_000));
    let p = from_string("accent transparent", true, 0x00ff_0000);
    assert_eq!(p.angle, None);
    match p.color {
        Color::Gradient(g) => {
            assert_eq!(g.stops[0].color, rgba(UNIT, 0, 0, UNIT));
            assert_eq!(g.stops[1].color, rgba(0, 0, 0, 0));
            assert_eq!(g.direction, Direction { start_x: UNIT / 2, start_y: UNIT, end_x: UNIT / 2, end_y: 0 });
        }
        Color::Solid(_) => panic!("expected a gradient"),
    }
}

#[test]
fn single_color_string_is_solid() {
    match from_string("#00ff00", true, 0).color {
        Color::Solid(c) => assert_eq!(c, rgba(0, UNIT, 0, UNIT)),
        Color::Gradient(_) => panic!("expected a solid"),
    }
    match from_string("nothing here", true, 0).color {
        Color::Solid(c) => assert_eq!(c, rgba(0, 0, 0, 0)),
        Color::Gradient(_) => panic!("expected a solid"),
    }
}

#[test]
fn colors_from_given_matches() {
    let matches = vec!["#000000".to_string(), "#ffffff".to_string()];
    let p = color_from_matches("#000000, #ffffff, bogus, to left", &matches, true, 0);
    assert_eq!(p.angle, None);
    match p.color {
        Color::Gradient(g) => assert_eq!(g.direction, Direction { start_x: UNIT, start_y: UNIT / 2, end_x: 0, end_y: UNIT / 2 }),
        Color::Solid(_) => panic!("expected a gradient"),
    }
}
