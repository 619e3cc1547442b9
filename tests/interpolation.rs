use tacky_borders::animations::{
    animate_fade_colors, animate_fade_to_visible, animate_reverse_spiral, animate_spiral,
    interpolate_d2d1_colors, interpolate_d2d1_to_visible, interpolate_direction,
    interpolate_gradients, interpolate_solids, to_current, to_fine, AnimationMode, ColorAnimation,
    CurrentColor, FineDirection, FineRgba, FineStop, FINE, FULL_TURN,
};
use tacky_borders::color::{adjust_gradient_stops, Color, Direction, Gradient, GradientStop, Rgba, UNIT};

fn rgba(r: u32, g: u32, b: u32, a: u32) -> Rgba {
    Rgba { r, g, b, a }
}

/// A fine color from channels given in color units.
fn fine(r: i128, g: i128, b: i128, a: i128) -> FineRgba {
    FineRgba { r: r * FINE, g: g * FINE, b: b * FINE, a: a * FINE }
}

fn stop(position: u32, color: Rgba) -> GradientStop {
    GradientStop { position, color }
}

fn gradient(stops: Vec<GradientStop>, direction: Direction) -> Color {
    Color::Gradient(Gradient { stops, direction })
}

const U: i128 = UNIT as i128;
const LEFT_TO_RIGHT: Direction = Direction { start_x: 0, start_y: UNIT / 2, end_x: UNIT, end_y: UNIT / 2 };
const TOP_TO_BOTTOM: Direction = Direction { start_x: UNIT / 2, start_y: 0, end_x: UNIT / 2, end_y: UNIT };

fn fine_direction(d: Direction) -> FineDirection {
    FineDirection {
        start_x: d.start_x as i128 * FINE,
        start_y: d.start_y as i128 * FINE,
        end_x: d.end_x as i128 * FINE,
        end_y: d.end_y as i128 * FINE,
    }
}

#[test]
fn fade_to_active_overshoot_snaps_to_active() {
    // speed 200 per second over 0.01 s: a step of twice the span
    let active = rgba(UNIT, 0, 0, UNIT);
    let inactive = rgba(0, 0, UNIT, UNIT);
    let (c, m) = interpolate_solids(to_fine(inactive), active, inactive, AnimationMode::FadeToActive, 10_000, 200, true);
    assert_eq!(c, to_fine(active));
    assert_eq!(m, AnimationMode::Idle);
}

#[test]
fn unfinished_fade_does_not_stop_a_channel_at_its_end() {
    // red at 0.4 fades from 0 to 0.5 with a step of 0.2 while green is still
    // on its way: red passes its end and comes out at 0.6
    let start = rgba(0, 0, 0, UNIT);
    let end = rgba(UNIT / 2, UNIT, 0, UNIT);
    let cur = FineRgba { r: 4 * U / 10 * FINE, g: 0, b: 0, a: 7 };
    let (c, done) = interpolate_d2d1_colors(&cur, &start, &end, 400_000, 1);
    assert!(!done);
    assert_eq!(c, FineRgba { r: 6 * U / 10 * FINE, g: 4 * U / 10 * FINE, b: 0, a: 7 });
}

#[test]
fn solid_fade_reaches_end_exactly_and_stays_between() {
    let c1 = rgba(100, 900_000, 5, 7);
    let c2 = rgba(1_000_000, 0, 5, 1_000);
    let mut cur = to_fine(c1);
    let mut mode = AnimationMode::FadeToActive;
    let mut ticks = 0;
    while mode != AnimationMode::Idle {
        let (c, m) = interpolate_solids(cur, c2, c1, mode, 16_000, 3, true);
        cur = c;
        mode = m;
        ticks += 1;
        assert!(cur.r >= 100 * FINE && cur.r <= 1_000_000 * FINE);
        assert!(cur.g <= 900_000 * FINE && cur.g >= 0);
        assert_eq!(cur.b, 5 * FINE);
        assert!(ticks < 100);
    }
    assert_eq!(cur, to_fine(c2));
    // 0.016 s at 3 per second is 4.8 % of the span: 21 ticks
    assert_eq!(ticks, 21);
}

#[test]
fn solid_fade_step_is_exact() {
    // half a second at speed 1 moves half the span
    let (c, done) = interpolate_d2d1_colors(&fine(0, U, 0, 3), &rgba(0, UNIT, 0, 3), &rgba(UNIT, 0, 0, 9), 500_000, 1);
    assert!(!done);
    assert_eq!(c, FineRgba { r: U / 2 * FINE, g: U / 2 * FINE, b: 0, a: 3 * FINE });
}

#[test]
fn solid_fade_step_is_exact_at_the_fine_scale() {
    let (c, done) = interpolate_d2d1_colors(&fine(0, 0, 0, 0), &rgba(0, 0, 0, 0), &rgba(10, 0, 0, 0), 1, 1);
    assert!(!done);
    assert_eq!(c.r, 10);
}

#[test]
fn fade_to_inactive_moves_toward_inactive() {
    let active = rgba(UNIT, 0, 0, UNIT);
    let inactive = rgba(0, 0, UNIT, UNIT);
    let (c, m) = interpolate_solids(to_fine(active), active, inactive, AnimationMode::FadeToInactive, 250_000, 1, false);
    assert_eq!(m, AnimationMode::FadeToInactive);
    assert_eq!(c, fine(U - U / 4, 0, U / 4, U));
}

#[test]
fn idle_mode_changes_nothing() {
    let x = fine(1, 2, 3, 4);
    let (c, m) = interpolate_solids(x, rgba(UNIT, UNIT, UNIT, UNIT), rgba(0, 0, 0, 0), AnimationMode::Idle, 1_000_000, 100, true);
    assert_eq!(c, x);
    assert_eq!(m, AnimationMode::Idle);
}

#[test]
fn fade_to_visible_raises_alpha_then_snaps() {
    let target = rgba(10, 20, 30, UNIT);
    let (c, done) = interpolate_d2d1_to_visible(&fine(10, 20, 30, 0), &target, 100_000, 2);
    assert!(!done);
    assert_eq!(c, fine(10, 20, 30, U / 5));
    let (c, done) = interpolate_d2d1_to_visible(&c, &target, 1_000_000, 2);
    assert!(done);
    assert_eq!(c, to_fine(target));
}

#[test]
fn fade_to_visible_follows_focus_at_tick_time() {
    let active = rgba(UNIT, 0, 0, UNIT);
    let inactive = rgba(0, 0, UNIT, UNIT / 2);
    let start = fine(0, 0, U, 0);
    let (c, m) = interpolate_solids(start, active, inactive, AnimationMode::FadeToVisible, 1_000_000, 100, false);
    assert_eq!(c, to_fine(inactive));
    assert_eq!(m, AnimationMode::Idle);
}

#[test]
fn direction_moves_by_the_step_without_stopping() {
    let d = interpolate_direction(&fine_direction(LEFT_TO_RIGHT), &LEFT_TO_RIGHT, &TOP_TO_BOTTOM, 500_000, 1);
    assert_eq!(d, FineDirection { start_x: U / 4 * FINE, start_y: U / 4 * FINE, end_x: (U - U / 4) * FINE, end_y: (U - U / 4) * FINE });
    // the step goes on past the end
    let d = interpolate_direction(&d, &LEFT_TO_RIGHT, &TOP_TO_BOTTOM, 1_000_000, 1);
    assert_eq!(d.start_x, (U / 4 + U / 2) * FINE);
    assert_eq!(d.start_y, (U / 4 - U / 2) * FINE);
}

#[test]
fn resampling_evenly_spaced_stops_is_identity() {
    let stops = vec![
        stop(0, rgba(UNIT, 0, 0, UNIT)),
        stop(UNIT / 2, rgba(0, UNIT, 0, UNIT)),
        stop(UNIT, rgba(0, 0, UNIT, UNIT)),
    ];
    assert_eq!(adjust_gradient_stops(&stops, 3), stops);
}

#[test]
fn resampling_same_count_moves_uneven_stops_to_even_positions() {
    let stops = vec![stop(0, rgba(0, 0, 0, 0)), stop(UNIT / 4, rgba(UNIT, 0, 0, 0)), stop(UNIT, rgba(UNIT, UNIT, 0, 0))];
    let out = adjust_gradient_stops(&stops, 3);
    let positions: Vec<u32> = out.iter().map(|s| s.position).collect();
    assert_eq!(positions, vec![0, UNIT / 2, UNIT]);
    // half way lies a third of the way from the second stop to the third
    assert_eq!(out[1].color, rgba(UNIT, UNIT / 3, 0, 0));
}

#[test]
fn resampling_two_stops_to_three_blends_the_middle() {
    let stops = vec![stop(0, rgba(0, 0, 0, UNIT)), stop(UNIT, rgba(UNIT, UNIT, UNIT, UNIT))];
    let out = adjust_gradient_stops(&stops, 3);
    assert_eq!(out.len(), 3);
    assert_eq!(out[0], stops[0]);
    assert_eq!(out[1], stop(UNIT / 2, rgba(UNIT / 2, UNIT / 2, UNIT / 2, UNIT)));
    assert_eq!(out[2], stops[1]);
}

#[test]
fn resampling_clamps_outside_the_stops() {
    let stops = vec![stop(UNIT / 4, rgba(7, 7, 7, 7)), stop(UNIT / 2, rgba(9, 9, 9, 9))];
    let out = adjust_gradient_stops(&stops, 2);
    assert_eq!(out[0], stop(0, rgba(7, 7, 7, 7)));
    assert_eq!(out[1], stop(UNIT, rgba(9, 9, 9, 9)));
}

#[test]
fn resampling_a_single_stop() {
    let stops = vec![stop(UNIT / 2, rgba(1, 2, 3, 4))];
    let out = adjust_gradient_stops(&stops, 1);
    assert_eq!(out, vec![stop(0, rgba(1, 2, 3, 4))]);
}

#[test]
fn gradient_fade_promotes_a_solid_and_completes() {
    let active = gradient(vec![stop(0, rgba(UNIT, 0, 0, UNIT)), stop(UNIT, rgba(0, UNIT, 0, UNIT))], LEFT_TO_RIGHT);
    let inactive = Color::Solid(rgba(0, 0, UNIT, UNIT));
    let current = CurrentColor::Solid(to_fine(rgba(0, 0, UNIT, UNIT)));
    let (c, m) = interpolate_gradients(&current, &active, &inactive, AnimationMode::FadeToActive, 500_000, 1, true);
    assert_eq!(m, AnimationMode::FadeToActive);
    match &c {
        CurrentColor::Gradient(g) => {
            assert_eq!(g.stops.len(), 2);
            assert_eq!(g.stops[0], FineStop { position: 0, color: fine(U / 2, 0, U / 2, U) });
            assert_eq!(g.stops[1], FineStop { position: UNIT, color: fine(0, U / 2, U / 2, U) });
            assert_eq!(g.direction, fine_direction(LEFT_TO_RIGHT));
        }
        CurrentColor::Solid(_) => panic!("expected a gradient"),
    }
    let (c, m) = interpolate_gradients(&c, &active, &inactive, AnimationMode::FadeToActive, 500_000, 1, true);
    assert_eq!(m, AnimationMode::Idle);
    match c {
        CurrentColor::Gradient(g) => assert_eq!(
            g.stops,
            vec![FineStop { position: 0, color: fine(U, 0, 0, U) }, FineStop { position: UNIT, color: fine(0, U, 0, U) }]
        ),
        CurrentColor::Solid(_) => panic!("expected the active gradient"),
    }
}

#[test]
fn gradient_fade_interpolates_direction_between_two_gradients() {
    let stops = vec![stop(0, rgba(0, 0, 0, UNIT)), stop(UNIT, rgba(UNIT, UNIT, UNIT, UNIT))];
    let active = gradient(stops.clone(), TOP_TO_BOTTOM);
    let inactive = gradient(stops.clone(), LEFT_TO_RIGHT);
    let current = to_current(&inactive);
    let (c, m) = interpolate_gradients(&current, &active, &inactive, AnimationMode::FadeToActive, 500_000, 1, true);
    // the colors are already there, so the fade completes
    assert_eq!(m, AnimationMode::Idle);
    match c {
        CurrentColor::Gradient(g) => assert_eq!(g.direction, fine_direction(TOP_TO_BOTTOM)),
        CurrentColor::Solid(_) => panic!("expected a gradient"),
    }
    let red_stops = vec![stop(0, rgba(UNIT, 0, 0, UNIT)), stop(UNIT, rgba(UNIT, UNIT, UNIT, UNIT))];
    let inactive = gradient(red_stops, LEFT_TO_RIGHT);
    let current = to_current(&inactive);
    let (c, m) = interpolate_gradients(&current, &active, &inactive, AnimationMode::FadeToActive, 250_000, 1, true);
    assert_eq!(m, AnimationMode::FadeToActive);
    match c {
        CurrentColor::Gradient(g) => {
            assert_eq!(g.stops[0].color, fine(U - U / 4, 0, 0, U));
            assert_eq!(
                g.direction,
                FineDirection {
                    start_x: U / 8 * FINE,
                    start_y: (U / 2 - U / 8) * FINE,
                    end_x: (U - U / 8) * FINE,
                    end_y: (U / 2 + U / 8) * FINE,
                }
            );
        }
        CurrentColor::Solid(_) => panic!("expected a gradient"),
    }
}

#[test]
fn gradient_fade_resamples_to_the_target_count() {
    let active = gradient(
        vec![stop(0, rgba(0, 0, 0, UNIT)), stop(UNIT / 2, rgba(0, 0, 0, UNIT)), stop(UNIT, rgba(0, 0, 0, UNIT))],
        LEFT_TO_RIGHT,
    );
    let inactive = gradient(vec![stop(0, rgba(UNIT, 0, 0, UNIT)), stop(UNIT, rgba(UNIT, 0, 0, UNIT))], LEFT_TO_RIGHT);
    let (c, _) = interpolate_gradients(&to_current(&inactive), &active, &inactive, AnimationMode::FadeToActive, 100_000, 1, true);
    match c {
        CurrentColor::Gradient(g) => {
            assert_eq!(g.stops.len(), 3);
            assert_eq!(g.stops[1].position, UNIT / 2);
            assert_eq!(g.stops[1].color.r, (U - U / 10) * FINE);
        }
        CurrentColor::Solid(_) => panic!("expected a gradient"),
    }
}

#[test]
fn fade_to_visible_starts_transparent() {
    let active = gradient(vec![stop(0, rgba(UNIT, 0, 0, UNIT)), stop(UNIT, rgba(0, UNIT, 0, UNIT / 2))], LEFT_TO_RIGHT);
    let inactive = Color::Solid(rgba(5, 6, 7, UNIT));
    let mut anim = ColorAnimation::new(active, inactive, true);
    anim.mode = AnimationMode::FadeToInactive;
    let mut last = Some(3);
    animate_fade_to_visible(&mut anim, true, &mut last, 77);
    assert_eq!(anim.mode, AnimationMode::FadeToVisible);
    assert_eq!(last, Some(77));
    match &anim.current_color {
        CurrentColor::Gradient(g) => {
            assert_eq!(
                g.stops,
                vec![FineStop { position: 0, color: fine(U, 0, 0, 0) }, FineStop { position: UNIT, color: fine(0, U, 0, 0) }]
            );
        }
        CurrentColor::Solid(_) => panic!("expected a gradient"),
    }
    animate_fade_to_visible(&mut anim, false, &mut last, 80);
    match &anim.current_color {
        CurrentColor::Solid(c) => assert_eq!(*c, fine(5, 6, 7, 0)),
        CurrentColor::Gradient(_) => panic!("expected a solid"),
    }
}

#[test]
fn animate_fade_colors_dispatches_to_the_solid_rule() {
    let mut anim = ColorAnimation::new(Color::Solid(rgba(UNIT, 0, 0, UNIT)), Color::Solid(rgba(0, 0, UNIT, UNIT)), false);
    anim.mode = AnimationMode::FadeToActive;
    animate_fade_colors(&mut anim, 10_000, 200, true);
    assert_eq!(anim.mode, AnimationMode::Idle);
    match anim.current_color {
        CurrentColor::Solid(c) => assert_eq!(c, fine(U, 0, 0, U)),
        CurrentColor::Gradient(_) => panic!("expected a solid"),
    }
}

#[test]
fn spiral_wraps_within_one_turn() {
    assert_eq!(animate_spiral(350_000, 1_000_000, 20), 10_000);
    assert_eq!(animate_spiral(0, 500_000, 90), 45_000);
    // one tick never turns more than 359 degrees
    assert_eq!(animate_spiral(0, 10_000_000, 1_000), 359_000);
}

#[test]
fn reverse_spiral_wraps_within_one_turn() {
    assert_eq!(animate_reverse_spiral(10_000, 1_000_000, 20), 350_000);
    assert_eq!(animate_reverse_spiral(0, 10_000_000, 1_000), 1_000);
}

#[test]
fn rotation_stays_in_range_over_many_ticks() {
    let mut angle = 0;
    for i in 0..1_000u64 {
        angle = if i % 3 == 0 {
            animate_reverse_spiral(angle, i * 7_919, (i * 13) as u32)
        } else {
            animate_spiral(angle, i * 104_729, (i * 31) as u32)
        };
        assert!(angle < FULL_TURN);
    }
}
