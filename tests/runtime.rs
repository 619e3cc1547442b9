use tacky_borders::animations::{to_fine, AnimationMode, CurrentColor, FineRgba, FINE};
use tacky_borders::border::{
    are_rects_same_size, get_rect_height, get_rect_width, is_rect_visible, AnimationSpeeds,
    BorderController, BorderEvent, BorderSettings, Effects, Lifecycle, Rect, TimerCommand,
};
use tacky_borders::color::{Color, Rgba, UNIT};
use tacky_borders::event_hook::{handle_win_event, has_filtered_style, BorderMessage, ObjectKind, Routing, WindowEvent};
use tacky_borders::registry::{BorderId, BorderRegistry, RegistryError, TrackedWindowId};
use tacky_borders::timer::{AnimationTimer, TimerState};

const NONE_SPEEDS: AnimationSpeeds = AnimationSpeeds { fade: None, spiral: None, reverse_spiral: None };

fn red() -> Rgba {
    Rgba { r: UNIT, g: 0, b: 0, a: UNIT }
}

fn blue() -> Rgba {
    Rgba { r: 0, g: 0, b: UNIT, a: UNIT }
}

fn solid(c: &CurrentColor) -> FineRgba {
    match c {
        CurrentColor::Solid(x) => *x,
        CurrentColor::Gradient(_) => panic!("expected a solid"),
    }
}

fn running_border(speeds: AnimationSpeeds) -> BorderController {
    let settings = BorderSettings { active: speeds, inactive: speeds, unminimize_delay_ms: 200 };
    let rect = Rect { left: 10, top: 10, right: 110, bottom: 60 };
    let mut b = BorderController::new(Color::Solid(red()), Color::Solid(blue()), settings, rect, true);
    b.mark_created();
    let e = b.start(1_000);
    assert!(e.show && e.render && e.reposition);
    assert_eq!(b.lifecycle, Lifecycle::ActiveLoop);
    b
}

fn none() -> Effects {
    Effects {
        delay_ms: 0,
        reposition: false,
        show: false,
        hide: false,
        render: false,
        timer: TimerCommand::Keep,
        unregister: false,
        release: false,
        exit: false,
    }
}

#[test]
fn register_refuses_a_second_border() {
    let mut reg = BorderRegistry::new();
    let w = TrackedWindowId(42);
    assert_eq!(reg.register(w, BorderId(1)), Ok(()));
    assert_eq!(reg.register(w, BorderId(2)), Err(RegistryError::AlreadyExists));
    assert_eq!(reg.lookup(w), Some(BorderId(1)));
    assert_eq!(reg.entries().len(), 1);
}

#[test]
fn unregister_and_lookup() {
    let mut reg = BorderRegistry::new();
    assert_eq!(reg.register(TrackedWindowId(1), BorderId(10)), Ok(()));
    assert_eq!(reg.register(TrackedWindowId(2), BorderId(20)), Ok(()));
    assert_eq!(reg.unregister(TrackedWindowId(1)), Some(BorderId(10)));
    assert_eq!(reg.unregister(TrackedWindowId(1)), None);
    assert_eq!(reg.lookup(TrackedWindowId(1)), None);
    assert_eq!(reg.lookup(TrackedWindowId(2)), Some(BorderId(20)));
    assert_eq!(reg.register(TrackedWindowId(1), BorderId(11)), Ok(()));
}

#[test]
fn take_all_empties_the_registry() {
    let mut reg = BorderRegistry::new();
    for i in 0..5 {
        assert_eq!(reg.register(TrackedWindowId(i), BorderId(100 + i)), Ok(()));
    }
    let mut all: Vec<isize> = reg.take_all().iter().map(|b| b.0).collect();
    all.sort();
    assert_eq!(all, vec![100, 101, 102, 103, 104]);
    assert!(reg.entries().is_empty());
    assert_eq!(reg.lookup(TrackedWindowId(3)), None);
}

#[test]
fn timer_pause_resume_stop() {
    let mut t = AnimationTimer::start(0, 16);
    assert_eq!(t.get_state(), TimerState::Running);
    t.pause();
    t.pause();
    assert_eq!(t.get_state(), TimerState::Paused);
    t.resume();
    assert_eq!(t.get_state(), TimerState::Running);
    t.stop();
    t.resume();
    t.pause();
    assert_eq!(t.get_state(), TimerState::Stopped);
}

#[test]
fn timer_deadlines_advance_by_whole_intervals() {
    let mut t = AnimationTimer::start(1_000, 16);
    let s = t.poll(5_000);
    assert!(!s.post_tick && !s.exit);
    assert_eq!(s.sleep_us, 12_000);
    let s = t.poll(17_500);
    assert!(s.post_tick);
    assert_eq!(t.next_tick_us, 33_000);
    assert_eq!(s.sleep_us, 15_500);
    t.pause();
    let s = t.poll(40_000);
    assert!(!s.post_tick && !s.exit);
    assert_eq!(s.sleep_us, 16_000);
    t.stop();
    assert!(t.poll(50_000).exit);
}

#[test]
fn failed_delivery_stops_the_timer() {
    let mut t = AnimationTimer::start(0, 16);
    assert!(t.poll(20_000).post_tick);
    t.delivery_failed();
    assert_eq!(t.get_state(), TimerState::Stopped);
    t.resume();
    let s = t.poll(40_000);
    assert!(s.exit && !s.post_tick);
}

#[test]
fn focus_change_starts_a_fade_and_ticks_finish_it() {
    let mut b = running_border(AnimationSpeeds { fade: Some(200), spiral: None, reverse_spiral: None });
    let e = b.handle(BorderEvent::Focus { is_active: false });
    assert!(e.render);
    assert_eq!(b.colors.mode, AnimationMode::FadeToInactive);
    let e = b.handle(BorderEvent::Tick { now_us: 11_000, is_active: false });
    assert!(e.render);
    assert_eq!(b.colors.mode, AnimationMode::Idle);
    assert_eq!(solid(&b.colors.current_color), to_fine(blue()));
    assert_eq!(b.last_tick_us, Some(11_000));
}

#[test]
fn focus_change_without_fade_snaps() {
    let mut b = running_border(NONE_SPEEDS);
    b.handle(BorderEvent::Focus { is_active: false });
    assert_eq!(b.colors.mode, AnimationMode::Idle);
    assert_eq!(solid(&b.colors.current_color), to_fine(blue()));
}

#[test]
fn hide_then_show_fades_in_from_transparent() {
    let mut b = running_border(AnimationSpeeds { fade: Some(1), spiral: None, reverse_spiral: None });
    let e = b.handle(BorderEvent::HideCloaked);
    assert_eq!(e, Effects { hide: true, timer: TimerCommand::Pause, ..none() });
    assert!(b.paused);
    assert_eq!(b.handle(BorderEvent::Tick { now_us: 5_000_000, is_active: true }), none());
    let e = b.handle(BorderEvent::ShowUncloaked { now_us: 9_000_000, is_active: true });
    assert_eq!(e, Effects { reposition: true, show: true, render: true, timer: TimerCommand::Resume, ..none() });
    assert_eq!(b.colors.mode, AnimationMode::FadeToVisible);
    assert_eq!(solid(&b.colors.current_color), FineRgba { a: 0, ..to_fine(red()) });
    assert_eq!(b.last_tick_us, Some(9_000_000));
    // the pause does not count: a quarter second raises alpha by a quarter
    b.handle(BorderEvent::Tick { now_us: 9_250_000, is_active: true });
    assert_eq!(solid(&b.colors.current_color).a, UNIT as i128 / 4 * FINE);
}

#[test]
fn minimize_end_waits_the_unminimize_delay() {
    let mut b = running_border(NONE_SPEEDS);
    b.handle(BorderEvent::MinimizeStart);
    let e = b.handle(BorderEvent::MinimizeEnd { now_us: 50, is_active: true });
    assert_eq!(e.delay_ms, 200);
    assert!(e.show);
    assert!(!b.paused);
}

#[test]
fn show_while_visible_only_renders() {
    let mut b = running_border(NONE_SPEEDS);
    let e = b.handle(BorderEvent::ShowUncloaked { now_us: 5, is_active: true });
    assert_eq!(e, Effects { render: true, ..none() });
    assert_eq!(b.colors.mode, AnimationMode::Idle);
}

#[test]
fn location_changes() {
    let mut b = running_border(NONE_SPEEDS);
    let moved = Rect { left: 20, top: 20, right: 120, bottom: 70 };
    assert_eq!(b.handle(BorderEvent::LocationChanged(moved)), Effects { reposition: true, ..none() });
    assert_eq!(b.rect, moved);
    let resized = Rect { left: 20, top: 20, right: 220, bottom: 70 };
    assert_eq!(b.handle(BorderEvent::LocationChanged(resized)), Effects { reposition: true, render: true, ..none() });
    let minimized = Rect { left: -32000, top: -32000, right: -31000, bottom: -31900 };
    assert_eq!(b.handle(BorderEvent::LocationChanged(minimized)), none());
    assert_eq!(b.rect, resized);
}

#[test]
fn spiral_ticks_rotate() {
    let mut b = running_border(AnimationSpeeds { fade: None, spiral: Some(90), reverse_spiral: None });
    b.handle(BorderEvent::Tick { now_us: 1_001_000, is_active: true });
    assert_eq!(b.rotation_angle, 90_000);
    let mut r = running_border(AnimationSpeeds { fade: None, spiral: None, reverse_spiral: Some(90) });
    r.handle(BorderEvent::Tick { now_us: 1_001_000, is_active: true });
    assert_eq!(r.rotation_angle, 270_000);
}

#[test]
fn destroy_tears_down_once() {
    let mut b = running_border(NONE_SPEEDS);
    let e = b.handle(BorderEvent::Destroy);
    assert_eq!(e, Effects { timer: TimerCommand::Stop, unregister: true, release: true, exit: true, ..none() });
    assert_eq!(b.lifecycle, Lifecycle::TornDown);
    assert_eq!(b.handle(BorderEvent::Destroy), none());
    assert_eq!(b.handle(BorderEvent::Reorder), none());
}

#[test]
fn events_before_the_loop_are_ignored() {
    let settings = BorderSettings { active: NONE_SPEEDS, inactive: NONE_SPEEDS, unminimize_delay_ms: 0 };
    let rect = Rect { left: 0, top: 0, right: 1, bottom: 1 };
    let mut b = BorderController::new(Color::Solid(red()), Color::Solid(blue()), settings, rect, false);
    assert_eq!(b.handle(BorderEvent::Reorder), none());
    assert_eq!(b.start(0), none());
    assert_eq!(b.lifecycle, Lifecycle::Uninitialized);
}

#[test]
fn rect_helpers() {
    let a = Rect { left: 0, top: 0, right: 10, bottom: 5 };
    let b = Rect { left: 5, top: 5, right: 15, bottom: 10 };
    assert_eq!(get_rect_width(a), 10);
    assert_eq!(get_rect_height(a), 5);
    assert!(are_rects_same_size(a, b));
    assert!(is_rect_visible(a));
    assert!(!is_rect_visible(Rect { left: -5, top: 0, right: 0, bottom: -1 }));
}

#[test]
fn routing_to_one_border() {
    let mut reg = BorderRegistry::new();
    reg.register(TrackedWindowId(7), BorderId(70)).unwrap();
    match handle_win_event(&reg, WindowEvent::MinimizeStart, ObjectKind::Window, TrackedWindowId(7), false, true) {
        Routing::Deliver(d) => {
            assert_eq!(d.len(), 1);
            assert_eq!(d[0].border, BorderId(70));
            assert_eq!(d[0].message, BorderMessage::MinimizeStart);
        }
        _ => panic!("expected a delivery"),
    }
    assert!(matches!(
        handle_win_event(&reg, WindowEvent::LocationChange, ObjectKind::Window, TrackedWindowId(7), true, true),
        Routing::Nothing
    ));
    assert!(matches!(
        handle_win_event(&reg, WindowEvent::Destroy, ObjectKind::Cursor, TrackedWindowId(7), false, true),
        Routing::Nothing
    ));
}

#[test]
fn routing_show_creates_a_missing_border() {
    let reg = BorderRegistry::new();
    match handle_win_event(&reg, WindowEvent::Show, ObjectKind::Window, TrackedWindowId(3), false, true) {
        Routing::Create(w) => assert_eq!(w, TrackedWindowId(3)),
        _ => panic!("expected a creation"),
    }
    assert!(matches!(
        handle_win_event(&reg, WindowEvent::Show, ObjectKind::Window, TrackedWindowId(3), false, false),
        Routing::Nothing
    ));
    assert!(matches!(
        handle_win_event(&reg, WindowEvent::Show, ObjectKind::Client, TrackedWindowId(3), false, true),
        Routing::Nothing
    ));
}

#[test]
fn routing_focus_reaches_every_border() {
    let mut reg = BorderRegistry::new();
    reg.register(TrackedWindowId(1), BorderId(10)).unwrap();
    reg.register(TrackedWindowId(2), BorderId(20)).unwrap();
    match handle_win_event(&reg, WindowEvent::Focus, ObjectKind::Window, TrackedWindowId(2), false, true) {
        Routing::Deliver(mut d) => {
            d.sort_by_key(|x| x.window.0);
            assert_eq!(d.len(), 2);
            assert!(d[0].only_if_visible);
            assert!(!d[1].only_if_visible);
            assert!(d.iter().all(|x| x.message == BorderMessage::Focus));
        }
        _ => panic!("expected deliveries"),
    }
}

#[test]
fn filtered_styles() {
    assert!(has_filtered_style(0x4000_0000, 0));
    assert!(has_filtered_style(0, 0x80));
    assert!(has_filtered_style(0x10CF_0000, 0x0800_0000));
    assert!(!has_filtered_style(0x10CF_0000, 0x0000_0100));
}
