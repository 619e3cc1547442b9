//! The per-border state machine.
//!
//! A border's controller owns all of its state and takes one event at a time,
//! in arrival order: events from the window system and ticks from its timer.
//! Each event updates the state and says what the caller has to do next
//! (render, move, show or hide the native window, drive the timer, tear down).
use vstd::prelude::*;
use crate::animations::{
    animate_fade_colors, animate_fade_to_visible, animate_reverse_spiral, animate_spiral,
    color_tick, current_in_bound, fade_target, fine_view, finish_fade, focus_color,
    reverse_spiral_angle, spiral_angle, to_current, AnimationMode, ColorAnimation, CurrentView, FULL_TURN,
};
use crate::color::{Color, ColorView};
use crate::timer::sat_sub;

verus! {

/// A rectangle in screen coordinates.
#[derive(Clone, Copy, Debug, PartialEq, Eq, Structural)]
pub struct Rect {
    pub left: i32,
    pub top: i32,
    pub right: i32,
    pub bottom: i32,
}

impl Rect {
    pub open spec fn width(self) -> int {
        self.right - self.left
    }

    pub open spec fn height(self) -> int {
        self.bottom - self.top
    }

    /// The rectangle a window reports while it is being minimized: every
    /// edge at or below zero.
    pub open spec fn is_degenerate(self) -> bool {
        self.left <= 0 && self.top <= 0 && self.right <= 0 && self.bottom <= 0
    }
}

pub fn get_rect_width(rect: Rect) -> (r: i64)
    ensures
        r == rect.width(),
{
    rect.right as i64 - rect.left as i64
}

pub fn get_rect_height(rect: Rect) -> (r: i64)
    ensures
        r == rect.height(),
{
    rect.bottom as i64 - rect.top as i64
}

pub fn are_rects_same_size(a: Rect, b: Rect) -> (r: bool)
    ensures
        r == (a.width() == b.width() && a.height() == b.height()),
{
    get_rect_width(a) == get_rect_width(b) && get_rect_height(a) == get_rect_height(b)
}

/// Whether a rectangle is a usable position, not the degenerate one of a
/// window being minimized.
pub fn is_rect_visible(rect: Rect) -> (r: bool)
    ensures
        r == !rect.is_degenerate(),
{
    !(rect.left <= 0 && rect.top <= 0 && rect.right <= 0 && rect.bottom <= 0)
}

/// The speeds of the animations configured for one focus state; `None` means
/// the animation is off, and a fade without a speed happens at once.
#[derive(Clone, Copy, Debug, PartialEq, Eq, Structural)]
pub struct AnimationSpeeds {
    pub fade: Option<u32>,
    pub spiral: Option<u32>,
    pub reverse_spiral: Option<u32>,
}

/// What a border is configured with when it is created.
#[derive(Clone, Copy, Debug, PartialEq, Eq, Structural)]
pub struct BorderSettings {
    pub active: AnimationSpeeds,
    pub inactive: AnimationSpeeds,
    pub unminimize_delay_ms: u64,
}

#[derive(Clone, Copy, Debug, PartialEq, Eq, Structural)]
pub enum Lifecycle {
    Uninitialized,
    Created,
    ActiveLoop,
    TornDown,
}

/// An event delivered to one border. The window system's answers that a
/// decision needs (the new rectangle, whether the window has focus, the
/// time) travel with it.
#[derive(Clone, Copy, Debug, PartialEq, Eq, Structural)]
pub enum BorderEvent {
    LocationChanged(Rect),
    Reorder,
    ShowUncloaked { now_us: u64, is_active: bool },
    HideCloaked,
    MinimizeStart,
    MinimizeEnd { now_us: u64, is_active: bool },
    Focus { is_active: bool },
    Tick { now_us: u64, is_active: bool },
    Destroy,
}

#[derive(Clone, Copy, Debug, PartialEq, Eq, Structural)]
pub enum TimerCommand {
    Keep,
    Pause,
    Resume,
    Stop,
}

/// What the caller does after an event, in this order: wait `delay_ms`,
/// then carry out each requested action.
#[derive(Clone, Copy, Debug, PartialEq, Eq, Structural)]
pub struct Effects {
    pub delay_ms: u64,
    pub reposition: bool,
    pub show: bool,
    pub hide: bool,
    pub render: bool,
    pub timer: TimerCommand,
    pub unregister: bool,
    pub release: bool,
    pub exit: bool,
}

pub open spec fn no_effects() -> Effects {
    Effects {
        delay_ms: 0,
        reposition: false,
        show: false,
        hide: false,
        render: false,
        timer: TimerCommand::Keep,
        unregister: false,
        release: false,
        exit: false,
    }
}

fn nothing() -> (r: Effects)
    ensures
        r == no_effects(),
{
    Effects {
        delay_ms: 0,
        reposition: false,
        show: false,
        hide: false,
        render: false,
        timer: TimerCommand::Keep,
        unregister: false,
        release: false,
        exit: false,
    }
}

pub open spec fn speeds_for(settings: BorderSettings, is_active: bool) -> AnimationSpeeds {
    if is_active {
        settings.active
    } else {
        settings.inactive
    }
}

/// The microseconds since the last tick, none before the first.
pub open spec fn elapsed_since(last: Option<u64>, now_us: u64) -> int {
    match last {
        Some(t) => sat_sub(now_us as int, t as int),
        None => 0,
    }
}

/// The rotation after one tick with the given speeds: clockwise when a
/// spiral is configured, else back when a reverse spiral is, else unchanged.
pub open spec fn rotation_after(angle: int, speeds: AnimationSpeeds, elapsed: int) -> int {
    match speeds.spiral {
        Some(s) => spiral_angle(angle, s as int, elapsed),
        None => match speeds.reverse_spiral {
            Some(s) => reverse_spiral_angle(angle, s as int, elapsed),
            None => angle,
        },
    }
}

/// The colors after one tick: a running fade advances at the configured
/// speed. It ends at once, at its target, when no fade speed is configured,
/// or when the current color has left the range in which a step can be
/// computed (`FINE_BOUND`, far beyond any color a fade passes through).
pub open spec fn colors_after_tick(
    cur: CurrentView,
    active: ColorView,
    inactive: ColorView,
    mode: AnimationMode,
    speeds: AnimationSpeeds,
    elapsed: int,
    is_active: bool,
) -> (CurrentView, AnimationMode) {
    if mode == AnimationMode::Idle {
        (cur, mode)
    } else {
        match speeds.fade {
            Some(s) => if cur.bounded() {
                color_tick(cur, active, inactive, mode, s as int, elapsed, is_active)
            } else {
                (fine_view(fade_target(mode, is_active, active, inactive)), AnimationMode::Idle)
            },
            None => (fine_view(fade_target(mode, is_active, active, inactive)), AnimationMode::Idle),
        }
    }
}

/// Apart from the rectangle, the state is as before.
pub open spec fn keeps_all_but_rect(a: BorderController, b: BorderController) -> bool {
    &&& b.colors == a.colors
    &&& b.rotation_angle == a.rotation_angle
    &&& b.last_tick_us == a.last_tick_us
    &&& b.is_active == a.is_active
    &&& b.paused == a.paused
}

pub struct BorderController {
    pub colors: ColorAnimation,
    pub settings: BorderSettings,
    pub rotation_angle: u32,
    pub last_tick_us: Option<u64>,
    pub rect: Rect,
    pub paused: bool,
    pub is_active: bool,
    pub lifecycle: Lifecycle,
}

impl BorderController {
    pub open spec fn wf(&self) -> bool {
        self.colors.wf() && self.rotation_angle < FULL_TURN
    }

    /// A border not yet backed by a native window, at rest in the color of
    /// its focus state.
    pub fn new(active_color: Color, inactive_color: Color, settings: BorderSettings, rect: Rect, is_active: bool) -> (r:
        BorderController)
        requires
            active_color@.wf(),
            inactive_color@.wf(),
        ensures
            r.wf(),
            r.lifecycle == Lifecycle::Uninitialized,
            r.colors.current_color@ == fine_view(focus_color(is_active, active_color@, inactive_color@)),
            r.colors.active_color@ == active_color@,
            r.colors.inactive_color@ == inactive_color@,
            r.colors.mode == AnimationMode::Idle,
            r.settings == settings,
            r.rect == rect,
            r.rotation_angle == 0,
            r.last_tick_us is None,
            !r.paused,
            r.is_active == is_active,
    {
        BorderController {
            colors: ColorAnimation::new(active_color, inactive_color, is_active),
            settings,
            rotation_angle: 0,
            last_tick_us: None,
            rect,
            paused: false,
            is_active,
            lifecycle: Lifecycle::Uninitialized,
        }
    }

    /// Records that the native window was created.
    pub fn mark_created(&mut self)
        ensures
            final(self).lifecycle == if old(self).lifecycle == Lifecycle::Uninitialized {
                Lifecycle::Created
            } else {
                old(self).lifecycle
            },
            final(self).colors == old(self).colors,
            final(self).rect == old(self).rect,
            final(self).paused == old(self).paused,
    {
        if self.lifecycle == Lifecycle::Uninitialized {
            self.lifecycle = Lifecycle::Created;
        }
    }

    /// Enters the event loop of a created border at `now_us`: it is placed,
    /// shown and drawn, and its ticks are measured from now.
    pub fn start(&mut self, now_us: u64) -> (r: Effects)
        ensures
            old(self).lifecycle == Lifecycle::Created ==> {
                &&& final(self).lifecycle == Lifecycle::ActiveLoop
                &&& final(self).last_tick_us == Some(now_us)
                &&& r == (Effects { reposition: true, show: true, render: true, ..no_effects() })
            },
            old(self).lifecycle != Lifecycle::Created ==> r == no_effects() && final(self).lifecycle
                == old(self).lifecycle && final(self).last_tick_us == old(self).last_tick_us,
            final(self).colors == old(self).colors,
            final(self).rotation_angle == old(self).rotation_angle,
            final(self).rect == old(self).rect,
            final(self).paused == old(self).paused,
    {
        if self.lifecycle != Lifecycle::Created {
            return nothing();
        }
        self.lifecycle = Lifecycle::ActiveLoop;
        self.last_tick_us = Some(now_us);
        Effects { reposition: true, show: true, render: true, ..nothing() }
    }

    /// Brings a border back into view: a hidden one starts a fade to visible
    /// from transparent and measures its ticks from now; one already in view
    /// is only drawn.
    fn reappear(&mut self, now_us: u64, is_active: bool, delay_ms: u64) -> (r: Effects)
        requires
            old(self).wf(),
        ensures
            final(self).wf(),
            final(self).settings == old(self).settings,
            final(self).is_active == is_active,
            !final(self).paused,
            final(self).lifecycle == old(self).lifecycle,
            final(self).rect == old(self).rect,
            final(self).rotation_angle == old(self).rotation_angle,
            final(self).colors.active_color == old(self).colors.active_color,
            final(self).colors.inactive_color == old(self).colors.inactive_color,
            old(self).paused ==> {
                &&& final(self).colors.current_color@ == fine_view(focus_color(
                    is_active,
                    old(self).colors.active_color@,
                    old(self).colors.inactive_color@,
                )).transparent()
                &&& final(self).colors.mode == AnimationMode::FadeToVisible
                &&& final(self).last_tick_us == Some(now_us)
                &&& r == (Effects { delay_ms, reposition: true, show: true, render: true, timer: TimerCommand::Resume, ..no_effects() })
            },
            !old(self).paused ==> {
                &&& final(self).colors == old(self).colors
                &&& final(self).last_tick_us == old(self).last_tick_us
                &&& r == (Effects { delay_ms, render: true, ..no_effects() })
            },
    {
        self.is_active = is_active;
        if self.paused {
            animate_fade_to_visible(&mut self.colors, is_active, &mut self.last_tick_us, now_us);
            self.paused = false;
            Effects { delay_ms, reposition: true, show: true, render: true, timer: TimerCommand::Resume, ..nothing() }
        } else {
            Effects { delay_ms, render: true, ..nothing() }
        }
    }

    /// Takes one event and returns what the caller has to do.
    ///
    /// `Destroy` tears the border down from any state but `TornDown`. Other
    /// events act only in the event loop:
    /// - `LocationChanged`: ignored while hidden or for a degenerate
    ///   rectangle; otherwise the rectangle is taken and the border moved, and
    ///   drawn only if its size changed.
    /// - `Reorder`: ignored while hidden; otherwise moved and drawn.
    /// - `ShowUncloaked`, `MinimizeEnd`: see `reappear`; `MinimizeEnd` asks
    ///   the caller to wait the un-minimize delay first.
    /// - `HideCloaked`, `MinimizeStart`: pause, hide the native window, pause
    ///   the timer.
    /// - `Focus`: fade toward the color of the new focus state, or take it at
    ///   once when no fade is configured for it; then draw.
    /// - `Tick`: ignored while hidden; otherwise advance the fade and the
    ///   rotation by the time since the last tick, and draw.
    pub fn handle(&mut self, event: BorderEvent) -> (r: Effects)
        requires
            old(self).wf(),
        ensures
            final(self).wf(),
            final(self).rotation_angle < FULL_TURN,
            final(self).settings == old(self).settings,
            final(self).colors.active_color == old(self).colors.active_color,
            final(self).colors.inactive_color == old(self).colors.inactive_color,
            event == BorderEvent::Destroy ==> if old(self).lifecycle == Lifecycle::TornDown {
                r == no_effects() && final(self).lifecycle == Lifecycle::TornDown
            } else {
                &&& final(self).lifecycle == Lifecycle::TornDown
                &&& r == (Effects { timer: TimerCommand::Stop, unregister: true, release: true, exit: true, ..no_effects() })
            },
            event != BorderEvent::Destroy && old(self).lifecycle != Lifecycle::ActiveLoop ==> r
                == no_effects() && final(self).lifecycle == old(self).lifecycle
                && final(self).colors == old(self).colors && final(self).paused == old(self).paused
                && final(self).rect == old(self).rect,
            event != BorderEvent::Destroy ==> final(self).lifecycle == old(self).lifecycle,
            old(self).lifecycle == Lifecycle::ActiveLoop ==> match event {
                BorderEvent::LocationChanged(rect) => keeps_all_but_rect(*old(self), *final(self)) && if old(self).paused || rect.is_degenerate() {
                    r == no_effects() && final(self).rect == old(self).rect
                } else {
                    &&& final(self).rect == rect
                    &&& r == (Effects {
                        reposition: true,
                        render: !(rect.width() == old(self).rect.width() && rect.height() == old(self).rect.height()),
                        ..no_effects()
                    })
                },
                BorderEvent::Reorder => keeps_all_but_rect(*old(self), *final(self)) && final(self).rect == old(self).rect && r == if old(self).paused {
                    no_effects()
                } else {
                    Effects { reposition: true, render: true, ..no_effects() }
                },
                BorderEvent::ShowUncloaked { now_us, is_active } => reappear_post(*old(self), *final(self), r, now_us, is_active, 0),
                BorderEvent::MinimizeEnd { now_us, is_active } => reappear_post(
                    *old(self),
                    *final(self),
                    r,
                    now_us,
                    is_active,
                    old(self).settings.unminimize_delay_ms,
                ),
                BorderEvent::HideCloaked | BorderEvent::MinimizeStart => {
                    &&& final(self).paused
                    &&& final(self).colors == old(self).colors
                    &&& final(self).rotation_angle == old(self).rotation_angle
                    &&& final(self).last_tick_us == old(self).last_tick_us
                    &&& final(self).rect == old(self).rect
                    &&& final(self).is_active == old(self).is_active
                    &&& r == (Effects { hide: true, timer: TimerCommand::Pause, ..no_effects() })
                },
                BorderEvent::Focus { is_active } => {
                    &&& final(self).is_active == is_active
                    &&& final(self).paused == old(self).paused
                    &&& final(self).rotation_angle == old(self).rotation_angle
                    &&& final(self).last_tick_us == old(self).last_tick_us
                    &&& final(self).rect == old(self).rect
                    &&& r == (Effects { render: true, ..no_effects() })
                    &&& speeds_for(old(self).settings, is_active).fade is Some ==> {
                        &&& final(self).colors.current_color == old(self).colors.current_color
                        &&& final(self).colors.mode == if is_active {
                            AnimationMode::FadeToActive
                        } else {
                            AnimationMode::FadeToInactive
                        }
                    }
                    &&& speeds_for(old(self).settings, is_active).fade is None ==> {
                        &&& final(self).colors.current_color@ == fine_view(focus_color(
                            is_active,
                            old(self).colors.active_color@,
                            old(self).colors.inactive_color@,
                        ))
                        &&& final(self).colors.mode == AnimationMode::Idle
                    }
                },
                BorderEvent::Tick { now_us, is_active } => if old(self).paused {
                    r == no_effects() && keeps_all_but_rect(*old(self), *final(self))
                        && final(self).rect == old(self).rect
                } else {
                    let speeds = speeds_for(old(self).settings, is_active);
                    let elapsed = elapsed_since(old(self).last_tick_us, now_us);
                    &&& (final(self).colors.current_color@, final(self).colors.mode) == colors_after_tick(
                        old(self).colors.current_color@,
                        old(self).colors.active_color@,
                        old(self).colors.inactive_color@,
                        old(self).colors.mode,
                        speeds,
                        elapsed,
                        is_active,
                    )
                    &&& final(self).rotation_angle == rotation_after(old(self).rotation_angle as int, speeds, elapsed)
                    &&& final(self).last_tick_us == Some(now_us)
                    &&& final(self).is_active == is_active
                    &&& !final(self).paused
                    &&& final(self).rect == old(self).rect
                    &&& r == (Effects { render: true, ..no_effects() })
                },
                BorderEvent::Destroy => true,
            },
    {
        if let BorderEvent::Destroy = event {
            if self.lifecycle == Lifecycle::TornDown {
                return nothing();
            }
            self.lifecycle = Lifecycle::TornDown;
            return Effects { timer: TimerCommand::Stop, unregister: true, release: true, exit: true, ..nothing() };
        }
        if self.lifecycle != Lifecycle::ActiveLoop {
            return nothing();
        }
        match event {
            BorderEvent::LocationChanged(rect) => {
                if self.paused || !is_rect_visible(rect) {
                    return nothing();
                }
                let resized = !are_rects_same_size(self.rect, rect);
                self.rect = rect;
                Effects { reposition: true, render: resized, ..nothing() }
            },
            BorderEvent::Reorder => {
                if self.paused {
                    nothing()
                } else {
                    Effects { reposition: true, render: true, ..nothing() }
                }
            },
            BorderEvent::ShowUncloaked { now_us, is_active } => self.reappear(now_us, is_active, 0),
            BorderEvent::MinimizeEnd { now_us, is_active } => {
                let delay = self.settings.unminimize_delay_ms;
                self.reappear(now_us, is_active, delay)
            },
            BorderEvent::HideCloaked | BorderEvent::MinimizeStart => {
                self.paused = true;
                Effects { hide: true, timer: TimerCommand::Pause, ..nothing() }
            },
            BorderEvent::Focus { is_active } => {
                self.is_active = is_active;
                let speeds = if is_active { self.settings.active } else { self.settings.inactive };
                if speeds.fade.is_some() {
                    self.colors.mode = if is_active {
                        AnimationMode::FadeToActive
                    } else {
                        AnimationMode::FadeToInactive
                    };
                } else {
                    self.colors.current_color = if is_active {
                        to_current(&self.colors.active_color)
                    } else {
                        to_current(&self.colors.inactive_color)
                    };
                    self.colors.mode = AnimationMode::Idle;
                }
                Effects { render: true, ..nothing() }
            },
            BorderEvent::Tick { now_us, is_active } => {
                if self.paused {
                    return nothing();
                }
                let elapsed: u64 = match self.last_tick_us {
                    Some(t) => now_us.saturating_sub(t),
                    None => 0,
                };
                self.last_tick_us = Some(now_us);
                self.is_active = is_active;
                let speeds = if is_active { self.settings.active } else { self.settings.inactive };
                if self.colors.mode != AnimationMode::Idle {
                    match speeds.fade {
                        Some(s) => if current_in_bound(&self.colors.current_color) {
                            animate_fade_colors(&mut self.colors, elapsed, s, is_active)
                        } else {
                            finish_fade(&mut self.colors, is_active)
                        },
                        None => finish_fade(&mut self.colors, is_active),
                    }
                }
                match speeds.spiral {
                    Some(s) => {
                        self.rotation_angle = animate_spiral(self.rotation_angle, elapsed, s);
                    },
                    None => match speeds.reverse_spiral {
                        Some(s) => {
                            self.rotation_angle = animate_reverse_spiral(self.rotation_angle, elapsed, s);
                        },
                        None => {},
                    },
                }
                Effects { render: true, ..nothing() }
            },
            BorderEvent::Destroy => nothing(),
        }
    }
}

/// What `reappear` promises, for the events that bring a border back.
pub open spec fn reappear_post(
    old_state: BorderController,
    new_state: BorderController,
    r: Effects,
    now_us: u64,
    is_active: bool,
    delay_ms: u64,
) -> bool {
    &&& new_state.is_active == is_active
    &&& !new_state.paused
    &&& new_state.rect == old_state.rect
    &&& new_state.rotation_angle == old_state.rotation_angle
    &&& old_state.paused ==> {
        &&& new_state.colors.current_color@ == fine_view(focus_color(
            is_active,
            old_state.colors.active_color@,
            old_state.colors.inactive_color@,
        )).transparent()
        &&& new_state.colors.mode == AnimationMode::FadeToVisible
        &&& new_state.last_tick_us == Some(now_us)
        &&& r == (Effects { delay_ms, reposition: true, show: true, render: true, timer: TimerCommand::Resume, ..no_effects() })
    }
    &&& !old_state.paused ==> {
        &&& new_state.colors == old_state.colors
        &&& new_state.last_tick_us == old_state.last_tick_us
        &&& r == (Effects { delay_ms, render: true, ..no_effects() })
    }
}

} // verus!
