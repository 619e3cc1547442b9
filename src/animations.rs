//! The per-tick color, gradient and rotation interpolator.
//!
//! Speeds are whole units per second and elapsed time is in microseconds. The
//! color being faded is held at `FINE` times the scale of `color`, signed, so
//! that one tick's step, `(end - start) * speed * elapsed`, is an exact
//! integer there. A fade adds that step to every channel without stopping it
//! at the end, and completes, taking the end color exactly, once every
//! channel has reached or passed its end.
use vstd::prelude::*;
use crate::color::{
    adjust_gradient_stops, blend_channel, even_position, even_position_exec, find_bracket,
    first_bracket, lemma_blend_channel_bounds, lemma_even_position_bounds, lemma_first_bracket_in_range,
    lemma_resample_wf, resample, stops_wf, Color, ColorView, Direction, GradientStop, Rgba, UNIT,
};

verus! {

pub const MICROS_PER_SECOND: u64 = 1_000_000;

/// How much finer the color being faded is held than `color`'s scale.
pub const FINE: i128 = 1_000_000;

/// The largest magnitude of a fine value that a tick takes: 2 to the 90th.
pub const FINE_BOUND: i128 = 1_237_940_039_285_380_274_899_124_224;

/// A full turn in millidegrees.
pub const FULL_TURN: u32 = 360_000;

/// The largest rotation applied in one tick, in millidegrees.
pub const MAX_TURN_PER_TICK: u64 = 359_000;

/// The color transition that a border is running; at most one at a time.
#[derive(Clone, Copy, Debug, PartialEq, Eq, Structural)]
pub enum AnimationMode {
    Idle,
    FadeToActive,
    FadeToInactive,
    FadeToVisible,
}

/// The kinds of animation that a border can be configured with.
#[derive(Clone, Copy, Debug, PartialEq, Eq, Hash, Structural)]
pub enum AnimationType {
    Spiral,
    Fade,
    ReverseSpiral,
}

/// Requests that a border's next render starts a transition.
#[derive(Clone, Copy, Debug, PartialEq, Eq, Structural)]
pub struct AnimationFlags {
    pub fade_to_visible: bool,
    pub should_fade: bool,
}


/// A color during a fade, at `FINE` times the scale of `Rgba`. A fade may
/// carry a channel past its end, so a channel may lie outside the range of a
/// color at rest.
#[derive(Clone, Copy, Debug, PartialEq, Eq, Structural)]
pub struct FineRgba {
    pub r: i128,
    pub g: i128,
    pub b: i128,
    pub a: i128,
}

#[derive(Clone, Copy, Debug, PartialEq, Eq, Structural)]
pub struct FineStop {
    pub position: u32,
    pub color: FineRgba,
}

/// Gradient start and end points during a fade, at `FINE` times the scale of
/// `Direction`.
#[derive(Clone, Copy, Debug, PartialEq, Eq, Structural)]
pub struct FineDirection {
    pub start_x: i128,
    pub start_y: i128,
    pub end_x: i128,
    pub end_y: i128,
}

pub struct FineGradient {
    pub stops: Vec<FineStop>,
    pub direction: FineDirection,
}

/// The color a border shows, which a fade moves.
pub enum CurrentColor {
    Solid(FineRgba),
    Gradient(FineGradient),
}

pub enum CurrentView {
    Solid(FineRgba),
    Gradient(Seq<FineStop>, FineDirection),
}

impl View for CurrentColor {
    type V = CurrentView;

    open spec fn view(&self) -> CurrentView {
        match self {
            CurrentColor::Solid(c) => CurrentView::Solid(*c),
            CurrentColor::Gradient(g) => CurrentView::Gradient(g.stops@, g.direction),
        }
    }
}

/// Every color of the stops lies within `FINE_BOUND`.
pub open spec fn stops_bounded(s: Seq<FineStop>) -> bool {
    forall|i: int| 0 <= i < s.len() ==> (#[trigger] s[i]).color.bounded()
}

pub open spec fn in_bound(x: int) -> bool {
    -FINE_BOUND <= x <= FINE_BOUND
}

impl FineRgba {
    pub open spec fn bounded(&self) -> bool {
        in_bound(self.r as int) && in_bound(self.g as int) && in_bound(self.b as int) && in_bound(self.a as int)
    }
}

impl FineDirection {
    pub open spec fn bounded(&self) -> bool {
        in_bound(self.start_x as int) && in_bound(self.start_y as int) && in_bound(self.end_x as int)
            && in_bound(self.end_y as int)
    }
}

impl CurrentView {
    /// A gradient has stops.
    pub open spec fn wf(self) -> bool {
        match self {
            CurrentView::Solid(_) => true,
            CurrentView::Gradient(s, _) => s.len() > 0,
        }
    }

    pub open spec fn is_gradient(self) -> bool {
        self is Gradient
    }

    /// Every value lies within `FINE_BOUND`, which a tick needs.
    pub open spec fn bounded(self) -> bool {
        match self {
            CurrentView::Solid(c) => c.bounded(),
            CurrentView::Gradient(s, d) => d.bounded() && stops_bounded(s),
        }
    }

    /// The color with the alpha of every stop, or of the solid, set to zero.
    pub open spec fn transparent(self) -> CurrentView {
        match self {
            CurrentView::Solid(c) => CurrentView::Solid(FineRgba { a: 0, ..c }),
            CurrentView::Gradient(s, d) => CurrentView::Gradient(
                Seq::new(s.len(), |i: int| FineStop { position: s[i].position, color: FineRgba { a: 0, ..s[i].color } }),
                d,
            ),
        }
    }
}

pub open spec fn fine_rgba(c: Rgba) -> FineRgba {
    FineRgba { r: (c.r * FINE) as i128, g: (c.g * FINE) as i128, b: (c.b * FINE) as i128, a: (c.a * FINE) as i128 }
}

pub open spec fn fine_direction(d: Direction) -> FineDirection {
    FineDirection {
        start_x: (d.start_x * FINE) as i128,
        start_y: (d.start_y * FINE) as i128,
        end_x: (d.end_x * FINE) as i128,
        end_y: (d.end_y * FINE) as i128,
    }
}

/// A color at rest, as the color a border shows.
pub open spec fn fine_view(c: ColorView) -> CurrentView {
    match c {
        ColorView::Solid(x) => CurrentView::Solid(fine_rgba(x)),
        ColorView::Gradient(s, d) => CurrentView::Gradient(
            Seq::new(s.len(), |i: int| FineStop { position: s[i].position, color: fine_rgba(s[i].color) }),
            fine_direction(d),
        ),
    }
}

/// One tick of one value of a fade from `start` to `end`: the step
/// `(end - start) * speed * elapsed` added to `cur`.
pub open spec fn advance(cur: int, start: int, end: int, speed: int, elapsed: int) -> int {
    cur + (end - start) * (speed * elapsed)
}

/// Whether `cur` has reached or passed `end`, seen from `start`:
/// `(cur - end) * sign(end - start) >= 0`, at the fine scale.
pub open spec fn reached(cur: int, start: int, end: int) -> bool {
    if end > start {
        cur >= end * FINE
    } else if end < start {
        cur <= end * FINE
    } else {
        true
    }
}

/// One tick of a fade of red, green and blue from `start` to `end`. Alpha is
/// left alone until the fade completes, when the color becomes `end`.
pub open spec fn fade_color(cur: FineRgba, start: Rgba, end: Rgba, speed: int, elapsed: int) -> (FineRgba, bool) {
    let r = advance(cur.r as int, start.r as int, end.r as int, speed, elapsed);
    let g = advance(cur.g as int, start.g as int, end.g as int, speed, elapsed);
    let b = advance(cur.b as int, start.b as int, end.b as int, speed, elapsed);
    if reached(r, start.r as int, end.r as int) && reached(g, start.g as int, end.g as int)
        && reached(b, start.b as int, end.b as int) {
        (fine_rgba(end), true)
    } else {
        (FineRgba { r: r as i128, g: g as i128, b: b as i128, a: cur.a }, false)
    }
}

/// How far alpha moves in one tick of a fade to visible: a whole color unit
/// per second at speed one.
pub open spec fn alpha_step(speed: int, elapsed: int) -> int {
    UNIT * (speed * elapsed)
}

/// One tick of a fade of alpha alone toward the alpha of `end`, in the
/// direction of the sign of the difference. Once alpha reaches or passes the
/// target the color becomes `end`.
pub open spec fn fade_alpha(cur: FineRgba, end: Rgba, speed: int, elapsed: int) -> (FineRgba, bool) {
    let t = end.a * FINE;
    let up = t >= cur.a;
    let a = if up {
        cur.a + alpha_step(speed, elapsed)
    } else {
        cur.a - alpha_step(speed, elapsed)
    };
    if (up && a >= t) || (!up && a <= t) {
        (fine_rgba(end), true)
    } else {
        (FineRgba { a: a as i128, ..cur }, false)
    }
}

/// One tick of the four direction coordinates from `start` toward `end`,
/// each moved by its step without stopping.
pub open spec fn fade_direction(cur: FineDirection, start: Direction, end: Direction, speed: int, elapsed: int) -> FineDirection {
    FineDirection {
        start_x: advance(cur.start_x as int, start.start_x as int, end.start_x as int, speed, elapsed) as i128,
        start_y: advance(cur.start_y as int, start.start_y as int, end.start_y as int, speed, elapsed) as i128,
        end_x: advance(cur.end_x as int, start.end_x as int, end.end_x as int, speed, elapsed) as i128,
        end_y: advance(cur.end_y as int, start.end_y as int, end.end_y as int, speed, elapsed) as i128,
    }
}

/// The color a mode fades from and the color it fades to.
pub open spec fn fade_ends<C>(mode: AnimationMode, active: C, inactive: C) -> (C, C) {
    match mode {
        AnimationMode::FadeToInactive => (active, inactive),
        _ => (inactive, active),
    }
}

/// The color that a border shows at rest for its focus state.
pub open spec fn focus_color<C>(is_active: bool, active: C, inactive: C) -> C {
    if is_active {
        active
    } else {
        inactive
    }
}

/// One tick of a border whose colors are all solid.
pub open spec fn solid_tick(
    cur: FineRgba,
    active: Rgba,
    inactive: Rgba,
    mode: AnimationMode,
    speed: int,
    elapsed: int,
    is_active: bool,
) -> (FineRgba, AnimationMode) {
    let (start, end) = fade_ends(mode, active, inactive);
    let (next, done) = match mode {
        AnimationMode::FadeToVisible => fade_alpha(cur, focus_color(is_active, active, inactive), speed, elapsed),
        AnimationMode::Idle => (cur, false),
        _ => fade_color(cur, start, end, speed, elapsed),
    };
    if mode == AnimationMode::Idle {
        (cur, mode)
    } else if done {
        (next, AnimationMode::Idle)
    } else {
        (next, mode)
    }
}

/// The rotation of one tick, in millidegrees, for a speed in degrees per
/// second.
pub open spec fn turn_delta(speed: int, elapsed: int) -> int {
    let d = speed * elapsed / 1000;
    if d < MAX_TURN_PER_TICK {
        d
    } else {
        MAX_TURN_PER_TICK as int
    }
}

pub open spec fn spiral_angle(angle: int, speed: int, elapsed: int) -> int {
    (angle + turn_delta(speed, elapsed)) % (FULL_TURN as int)
}

pub open spec fn reverse_spiral_angle(angle: int, speed: int, elapsed: int) -> int {
    (angle + FULL_TURN - turn_delta(speed, elapsed)) % (FULL_TURN as int)
}

// ---------------------------------------------------------------------------
// Channel arithmetic

/// The largest product of a speed and an elapsed time.
pub open spec fn max_rate() -> int {
    0xffff_ffffint * 0xffff_ffff_ffff_ffffint
}

proof fn lemma_step_bounds(span: int, speed: int, elapsed: int)
    requires
        -(UNIT as int) <= span <= UNIT,
        0 <= speed <= 0xffff_ffff,
        0 <= elapsed <= 0xffff_ffff_ffff_ffff,
    ensures
        0 <= speed * elapsed <= max_rate(),
        -(UNIT as int) * max_rate() <= span * (speed * elapsed) <= UNIT * max_rate(),
{
    assert(0 <= speed * elapsed <= max_rate()) by (nonlinear_arith)
        requires 0 <= speed <= 0xffff_ffff, 0 <= elapsed <= 0xffff_ffff_ffff_ffff;
    let k = speed * elapsed;
    assert(-(UNIT as int) * max_rate() <= span * k <= UNIT * max_rate()) by (nonlinear_arith)
        requires -(UNIT as int) <= span <= UNIT, 0 <= k <= max_rate();
}

/// `cur` moved by one step of a fade from `start` to `end`.
fn advance_exec(cur: i128, start: u32, end: u32, speed: u32, elapsed_us: u64) -> (r: i128)
    requires
        in_bound(cur as int),
        start <= UNIT,
        end <= UNIT,
    ensures
        r == advance(cur as int, start as int, end as int, speed as int, elapsed_us as int),
{
    let span: i128 = end as i128 - start as i128;
    proof {
        lemma_step_bounds(span as int, speed as int, elapsed_us as int);
    }
    let k: i128 = (speed as i128) * (elapsed_us as i128);
    cur + span * k
}

fn reached_exec(cur: i128, start: u32, end: u32) -> (r: bool)
    ensures
        r == reached(cur as int, start as int, end as int),
{
    if end > start {
        cur >= (end as i128) * FINE
    } else if end < start {
        cur <= (end as i128) * FINE
    } else {
        true
    }
}

/// A color at rest at the fine scale.
pub fn to_fine(c: Rgba) -> (r: FineRgba)
    requires
        c.wf(),
    ensures
        r == fine_rgba(c),
        r.bounded(),
{
    FineRgba { r: c.r as i128 * FINE, g: c.g as i128 * FINE, b: c.b as i128 * FINE, a: c.a as i128 * FINE }
}

fn to_fine_direction(d: Direction) -> (r: FineDirection)
    requires
        d.wf(),
    ensures
        r == fine_direction(d),
        r.bounded(),
{
    FineDirection {
        start_x: d.start_x as i128 * FINE,
        start_y: d.start_y as i128 * FINE,
        end_x: d.end_x as i128 * FINE,
        end_y: d.end_y as i128 * FINE,
    }
}

/// One tick of a fade of red, green and blue from `start_color` to
/// `end_color`; returns the new color and whether the fade is complete.
pub fn interpolate_d2d1_colors(
    current_color: &FineRgba,
    start_color: &Rgba,
    end_color: &Rgba,
    anim_elapsed_us: u64,
    anim_speed: u32,
) -> (r: (FineRgba, bool))
    requires
        current_color.bounded(),
        start_color.wf(),
        end_color.wf(),
    ensures
        r == fade_color(*current_color, *start_color, *end_color, anim_speed as int, anim_elapsed_us as int),
{
    let r = advance_exec(current_color.r, start_color.r, end_color.r, anim_speed, anim_elapsed_us);
    let g = advance_exec(current_color.g, start_color.g, end_color.g, anim_speed, anim_elapsed_us);
    let b = advance_exec(current_color.b, start_color.b, end_color.b, anim_speed, anim_elapsed_us);
    if reached_exec(r, start_color.r, end_color.r) && reached_exec(g, start_color.g, end_color.g)
        && reached_exec(b, start_color.b, end_color.b) {
        (to_fine(*end_color), true)
    } else {
        (FineRgba { r, g, b, a: current_color.a }, false)
    }
}

/// One tick of a fade of alpha alone toward the alpha of `end_color`; returns
/// the new color and whether the fade is complete.
pub fn interpolate_d2d1_to_visible(
    current_color: &FineRgba,
    end_color: &Rgba,
    anim_elapsed_us: u64,
    anim_speed: u32,
) -> (r: (FineRgba, bool))
    requires
        current_color.bounded(),
        end_color.wf(),
    ensures
        r == fade_alpha(*current_color, *end_color, anim_speed as int, anim_elapsed_us as int),
{
    proof {
        lemma_step_bounds(UNIT as int, anim_speed as int, anim_elapsed_us as int);
    }
    let k: i128 = (anim_speed as i128) * (anim_elapsed_us as i128);
    let step: i128 = (UNIT as i128) * k;
    let t: i128 = (end_color.a as i128) * FINE;
    let cur = current_color.a;
    let up = t >= cur;
    let a = if up { cur + step } else { cur - step };
    if (up && a >= t) || (!up && a <= t) {
        (to_fine(*end_color), true)
    } else {
        (FineRgba { a, ..*current_color }, false)
    }
}

/// One tick of the four direction coordinates from `start_direction` toward
/// `end_direction`.
pub fn interpolate_direction(
    current_direction: &FineDirection,
    start_direction: &Direction,
    end_direction: &Direction,
    anim_elapsed_us: u64,
    anim_speed: u32,
) -> (r: FineDirection)
    requires
        current_direction.bounded(),
        start_direction.wf(),
        end_direction.wf(),
    ensures
        r == fade_direction(*current_direction, *start_direction, *end_direction, anim_speed as int, anim_elapsed_us as int),
{
    FineDirection {
        start_x: advance_exec(current_direction.start_x, start_direction.start_x, end_direction.start_x, anim_speed, anim_elapsed_us),
        start_y: advance_exec(current_direction.start_y, start_direction.start_y, end_direction.start_y, anim_speed, anim_elapsed_us),
        end_x: advance_exec(current_direction.end_x, start_direction.end_x, end_direction.end_x, anim_speed, anim_elapsed_us),
        end_y: advance_exec(current_direction.end_y, start_direction.end_y, end_direction.end_y, anim_speed, anim_elapsed_us),
    }
}

/// One tick of a border whose colors are all solid; returns the new current
/// color and mode. A completed fade leaves the mode `Idle`.
pub fn interpolate_solids(
    current: FineRgba,
    active: Rgba,
    inactive: Rgba,
    mode: AnimationMode,
    anim_elapsed_us: u64,
    anim_speed: u32,
    is_active: bool,
) -> (r: (FineRgba, AnimationMode))
    requires
        current.bounded(),
        active.wf(),
        inactive.wf(),
    ensures
        r == solid_tick(current, active, inactive, mode, anim_speed as int, anim_elapsed_us as int, is_active),
{
    let (next, done) = match mode {
        AnimationMode::Idle => return (current, mode),
        AnimationMode::FadeToVisible => {
            let end = if is_active { active } else { inactive };
            interpolate_d2d1_to_visible(&current, &end, anim_elapsed_us, anim_speed)
        },
        AnimationMode::FadeToActive => interpolate_d2d1_colors(&current, &inactive, &active, anim_elapsed_us, anim_speed),
        AnimationMode::FadeToInactive => interpolate_d2d1_colors(&current, &active, &inactive, anim_elapsed_us, anim_speed),
    };
    if done {
        (next, AnimationMode::Idle)
    } else {
        (next, mode)
    }
}

/// The rotation of one tick, at most `MAX_TURN_PER_TICK`.
fn turn_delta_exec(speed: u32, elapsed_us: u64) -> (r: u32)
    ensures
        r == turn_delta(speed as int, elapsed_us as int),
        r <= MAX_TURN_PER_TICK,
{
    let a: u128 = speed as u128;
    let b: u128 = elapsed_us as u128;
    proof {
        assert(a * b <= 0xffff_ffffu128 * 0xffff_ffff_ffff_ffffu128) by (nonlinear_arith)
            requires a <= 0xffff_ffffu128, b <= 0xffff_ffff_ffff_ffffu128, a >= 0, b >= 0;
    }
    let d: u128 = a * b / 1000;
    if d < MAX_TURN_PER_TICK as u128 {
        d as u32
    } else {
        MAX_TURN_PER_TICK as u32
    }
}

/// Advances a clockwise rotation by `speed` degrees per second, at most
/// `MAX_TURN_PER_TICK` at once, and keeps it within one turn.
pub fn animate_spiral(angle: u32, anim_elapsed_us: u64, anim_speed: u32) -> (r: u32)
    requires
        angle < FULL_TURN,
    ensures
        r == spiral_angle(angle as int, anim_speed as int, anim_elapsed_us as int),
        r < FULL_TURN,
{
    let d = turn_delta_exec(anim_speed, anim_elapsed_us);
    (angle + d) % FULL_TURN
}

/// Moves a rotation back by `speed` degrees per second, at most
/// `MAX_TURN_PER_TICK` at once, and keeps it within one turn.
pub fn animate_reverse_spiral(angle: u32, anim_elapsed_us: u64, anim_speed: u32) -> (r: u32)
    requires
        angle < FULL_TURN,
    ensures
        r == reverse_spiral_angle(angle as int, anim_speed as int, anim_elapsed_us as int),
        r < FULL_TURN,
{
    let d = turn_delta_exec(anim_speed, anim_elapsed_us);
    (angle + FULL_TURN - d) % FULL_TURN
}

// ---------------------------------------------------------------------------
// Gradients

/// Whether the color a mode fades to is the active one.
pub open spec fn ends_active(mode: AnimationMode, is_active: bool) -> bool {
    match mode {
        AnimationMode::FadeToVisible => is_active,
        AnimationMode::FadeToInactive => false,
        _ => true,
    }
}

/// The color a mode fades to.
pub open spec fn fade_target<C>(mode: AnimationMode, is_active: bool, active: C, inactive: C) -> C {
    focus_color(ends_active(mode, is_active), active, inactive)
}

pub open spec fn direction_of(c: ColorView) -> Direction {
    match c {
        ColorView::Gradient(_, d) => d,
        ColorView::Solid(_) => Direction { start_x: 0, start_y: 0, end_x: 0, end_y: 0 },
    }
}

/// The stop count a gradient fade works at: that of the color it fades to
/// when that is a gradient, and otherwise that of the other color.
pub open spec fn target_stop_count(mode: AnimationMode, is_active: bool, active: ColorView, inactive: ColorView) -> nat {
    let (end, other) = if ends_active(mode, is_active) {
        (active, inactive)
    } else {
        (inactive, active)
    };
    if end.is_gradient() {
        end.stop_count()
    } else {
        other.stop_count()
    }
}

/// The colors of `c` at `n` evenly spaced stops: a solid repeated, or a
/// gradient resampled.
pub open spec fn stop_colors(c: ColorView, n: nat) -> Seq<Rgba> {
    match c {
        ColorView::Solid(x) => Seq::new(n, |i: int| x),
        ColorView::Gradient(s, _) => Seq::new(n, |i: int| resample(s, n)[i].color),
    }
}

/// The stops of `s` by position only, for finding the pair that encloses a
/// position.
pub open spec fn position_stops(s: Seq<FineStop>) -> Seq<GradientStop> {
    Seq::new(s.len(), |i: int| GradientStop { position: s[i].position, color: Rgba { r: 0, g: 0, b: 0, a: 0 } })
}

pub open spec fn blend_fine(x: FineRgba, y: FineRgba, num: int, den: int) -> FineRgba {
    FineRgba {
        r: blend_channel(x.r as int, y.r as int, num, den) as i128,
        g: blend_channel(x.g as int, y.g as int, num, den) as i128,
        b: blend_channel(x.b as int, y.b as int, num, den) as i128,
        a: blend_channel(x.a as int, y.a as int, num, den) as i128,
    }
}

/// The color of the current gradient `s` resampled at `pos`, by the rule of
/// `color::resampled_stop`.
pub open spec fn resampled_fine_color(s: Seq<FineStop>, pos: int) -> FineRgba {
    match first_bracket(position_stops(s), pos, 0) {
        Some(j) => blend_fine(s[j].color, s[j + 1].color, pos - s[j].position, s[j + 1].position - s[j].position),
        None => if pos <= s[0].position {
            s[0].color
        } else {
            s.last().color
        },
    }
}

/// The colors of the current color at `n` evenly spaced stops.
pub open spec fn current_stop_colors(cur: CurrentView, n: nat) -> Seq<FineRgba> {
    match cur {
        CurrentView::Solid(x) => Seq::new(n, |i: int| x),
        CurrentView::Gradient(s, _) => Seq::new(n, |i: int| resampled_fine_color(s, even_position(i, n as int))),
    }
}

/// The direction a fade starts from: the current gradient's, or that of the
/// gradient a solid current color is promoted to.
pub open spec fn start_direction(cur: CurrentView, active: ColorView, inactive: ColorView) -> FineDirection {
    match cur {
        CurrentView::Gradient(_, d) => d,
        CurrentView::Solid(_) => if active.is_gradient() {
            fine_direction(direction_of(active))
        } else {
            fine_direction(direction_of(inactive))
        },
    }
}

/// One tick of one stop.
pub open spec fn stop_tick(
    cur: FineRgba,
    active: Rgba,
    inactive: Rgba,
    mode: AnimationMode,
    speed: int,
    elapsed: int,
    is_active: bool,
) -> (FineRgba, bool) {
    match mode {
        AnimationMode::FadeToVisible => fade_alpha(cur, focus_color(is_active, active, inactive), speed, elapsed),
        _ => {
            let (s, e) = fade_ends(mode, active, inactive);
            fade_color(cur, s, e, speed, elapsed)
        },
    }
}

/// The results of one tick of every stop.
pub open spec fn stop_ticks(
    cur: CurrentView,
    active: ColorView,
    inactive: ColorView,
    mode: AnimationMode,
    speed: int,
    elapsed: int,
    is_active: bool,
) -> Seq<(FineRgba, bool)> {
    let n = target_stop_count(mode, is_active, active, inactive);
    let cc = current_stop_colors(cur, n);
    let ac = stop_colors(active, n);
    let ic = stop_colors(inactive, n);
    Seq::new(n, |i: int| stop_tick(cc[i], ac[i], ic[i], mode, speed, elapsed, is_active))
}

/// One tick of the direction: it moves only while fading between two
/// gradients, not while fading to visible.
pub open spec fn direction_tick(
    cur: CurrentView,
    active: ColorView,
    inactive: ColorView,
    mode: AnimationMode,
    speed: int,
    elapsed: int,
) -> FineDirection {
    let d = start_direction(cur, active, inactive);
    if mode != AnimationMode::FadeToVisible && active.is_gradient() && inactive.is_gradient() {
        let (sd, ed) = fade_ends(mode, direction_of(active), direction_of(inactive));
        fade_direction(d, sd, ed, speed, elapsed)
    } else {
        d
    }
}

/// One tick of a border with at least one gradient color. All three colors
/// are brought to the target stop count, each stop fades on its own, and the
/// fade completes, leaving the target color exactly, when every stop has.
pub open spec fn gradient_tick(
    cur: CurrentView,
    active: ColorView,
    inactive: ColorView,
    mode: AnimationMode,
    speed: int,
    elapsed: int,
    is_active: bool,
) -> (CurrentView, AnimationMode) {
    let n = target_stop_count(mode, is_active, active, inactive);
    let t = stop_ticks(cur, active, inactive, mode, speed, elapsed, is_active);
    if mode == AnimationMode::Idle {
        (cur, mode)
    } else if forall|i: int| 0 <= i < n ==> #[trigger] t[i].1 {
        (fine_view(fade_target(mode, is_active, active, inactive)), AnimationMode::Idle)
    } else {
        (
            CurrentView::Gradient(
                Seq::new(n, |i: int| FineStop { position: even_position(i, n as int) as u32, color: t[i].0 }),
                direction_tick(cur, active, inactive, mode, speed, elapsed),
            ),
            mode,
        )
    }
}

/// One tick of a border's colors: the solid rule when all three are solid,
/// the gradient rule otherwise.
pub open spec fn color_tick(
    cur: CurrentView,
    active: ColorView,
    inactive: ColorView,
    mode: AnimationMode,
    speed: int,
    elapsed: int,
    is_active: bool,
) -> (CurrentView, AnimationMode) {
    match (cur, active, inactive) {
        (CurrentView::Solid(c), ColorView::Solid(a), ColorView::Solid(i)) => {
            let (n, m) = solid_tick(c, a, i, mode, speed, elapsed, is_active);
            (CurrentView::Solid(n), m)
        },
        _ => gradient_tick(cur, active, inactive, mode, speed, elapsed, is_active),
    }
}

/// The colors of `c` at `n` evenly spaced stops.
fn colors_at(c: &Color, n: usize) -> (r: Vec<Rgba>)
    requires
        c@.wf(),
    ensures
        r@ == stop_colors(c@, n as nat),
        forall|i: int| 0 <= i < n ==> #[trigger] r@[i].wf(),
{
    let mut out: Vec<Rgba> = Vec::with_capacity(n);
    match c {
        Color::Solid(x) => {
            let mut i: usize = 0;
            while i < n
                invariant
                    i <= n,
                    x.wf(),
                    c@ == ColorView::Solid(*x),
                    out@ =~= stop_colors(c@, n as nat).subrange(0, i as int),
                decreases n - i,
            {
                out.push(*x);
                i = i + 1;
            }
        },
        Color::Gradient(g) => {
            let stops = adjust_gradient_stops(&g.stops, n);
            proof {
                if n > 0 {
                    lemma_resample_wf(g.stops@, n as nat);
                }
            }
            let mut i: usize = 0;
            while i < n
                invariant
                    i <= n,
                    stops@ == resample(g.stops@, n as nat),
                    n > 0 ==> stops_wf(stops@),
                    c@ == ColorView::Gradient(g.stops@, g.direction),
                    out@ =~= stop_colors(c@, n as nat).subrange(0, i as int),
                decreases n - i,
            {
                out.push(stops[i].color);
                i = i + 1;
            }
        },
    }
    assert(out@ =~= stop_colors(c@, n as nat));
    proof {
        if let Color::Gradient(g) = c {
            if n > 0 {
                lemma_resample_wf(g.stops@, n as nat);
            }
            assert forall|i: int| 0 <= i < n implies #[trigger] out@[i].wf() by {
                assert(resample(g.stops@, n as nat)[i].position <= UNIT);
            }
        }
    }
    out
}

/// The blend of two fine values, by `color::blend_channel`.
fn blend_fine_exec(a: i128, b: i128, num: u32, den: u32) -> (r: i128)
    requires
        in_bound(a as int),
        in_bound(b as int),
        num <= den,
    ensures
        r == blend_channel(a as int, b as int, num as int, den as int),
        in_bound(r as int),
{
    proof {
        lemma_blend_channel_bounds(a as int, b as int, num as int, den as int);
    }
    if den == 0 {
        a
    } else if b >= a {
        let d: i128 = b - a;
        proof {
            assert(d * (num as i128) <= 2 * FINE_BOUND * 0xffff_ffffi128) by (nonlinear_arith)
                requires 0 <= d <= 2 * FINE_BOUND, 0 <= num <= 0xffff_ffffu32;
            assert(d * (num as i128) >= 0) by (nonlinear_arith)
                requires 0 <= d, 0 <= num;
        }
        a + d * (num as i128) / (den as i128)
    } else {
        let d: i128 = a - b;
        proof {
            assert(d * (num as i128) <= 2 * FINE_BOUND * 0xffff_ffffi128) by (nonlinear_arith)
                requires 0 <= d <= 2 * FINE_BOUND, 0 <= num <= 0xffff_ffffu32;
            assert(d * (num as i128) >= 0) by (nonlinear_arith)
                requires 0 <= d, 0 <= num;
        }
        a - d * (num as i128) / (den as i128)
    }
}

fn blend_fine_rgba(x: FineRgba, y: FineRgba, num: u32, den: u32) -> (r: FineRgba)
    requires
        x.bounded(),
        y.bounded(),
        num <= den,
    ensures
        r == blend_fine(x, y, num as int, den as int),
        r.bounded(),
{
    FineRgba {
        r: blend_fine_exec(x.r, y.r, num, den),
        g: blend_fine_exec(x.g, y.g, num, den),
        b: blend_fine_exec(x.b, y.b, num, den),
        a: blend_fine_exec(x.a, y.a, num, den),
    }
}

/// The colors of the current color at `n` evenly spaced stops.
fn current_colors_at(c: &CurrentColor, n: usize) -> (r: Vec<FineRgba>)
    requires
        c@.wf(),
        c@.bounded(),
    ensures
        r@ == current_stop_colors(c@, n as nat),
        forall|i: int| 0 <= i < n ==> (#[trigger] r@[i]).bounded(),
{
    let mut out: Vec<FineRgba> = Vec::with_capacity(n);
    match c {
        CurrentColor::Solid(x) => {
            let mut i: usize = 0;
            while i < n
                invariant
                    i <= n,
                    x.bounded(),
                    c@ == CurrentView::Solid(*x),
                    out@ =~= current_stop_colors(c@, n as nat).subrange(0, i as int),
                decreases n - i,
            {
                out.push(*x);
                i = i + 1;
            }
        },
        CurrentColor::Gradient(g) => {
            let s = &g.stops;
            let mut positions: Vec<GradientStop> = Vec::with_capacity(s.len());
            let mut j: usize = 0;
            while j < s.len()
                invariant
                    j <= s@.len(),
                    positions@ =~= position_stops(s@).subrange(0, j as int),
                decreases s@.len() - j,
            {
                positions.push(GradientStop { position: s[j].position, color: Rgba { r: 0, g: 0, b: 0, a: 0 } });
                j = j + 1;
            }
            assert(positions@ =~= position_stops(s@));
            let mut i: usize = 0;
            while i < n
                invariant
                    i <= n,
                    s@.len() > 0,
                    positions@ == position_stops(s@),
                    forall|k: int| 0 <= k < s@.len() ==> (#[trigger] s@[k]).color.bounded(),
                    c@ == CurrentView::Gradient(s@, g.direction),
                    out@.len() == i,
                    forall|k: int| 0 <= k < i ==> #[trigger] out@[k] == current_stop_colors(c@, n as nat)[k],
                    forall|k: int| 0 <= k < i ==> (#[trigger] out@[k]).bounded(),
                decreases n - i,
            {
                let pos = even_position_exec(i, n);
                proof {
                    lemma_first_bracket_in_range(positions@, pos as int, 0);
                }
                let color = match find_bracket(&positions, pos) {
                    Some(j) => {
                        assert(positions@.len() == s@.len());
                        assert(j + 1 < s@.len());
                        assert(positions@[j as int].position == s@[j as int].position);
                        assert(positions@[j + 1].position == s@[j + 1].position);
                        assert(positions@[j as int].position <= pos && pos <= positions@[j + 1].position);
                        assert(j + 1 < s.len());
                        let j1 = j + 1;
                        blend_fine_rgba(s[j].color, s[j1].color, pos - s[j].position, s[j1].position - s[j].position)
                    },
                    None => if pos <= s[0].position {
                        s[0].color
                    } else {
                        s[s.len() - 1].color
                    },
                };
                out.push(color);
                i = i + 1;
            }
        },
    }
    assert(out@ =~= current_stop_colors(c@, n as nat));
    out
}

fn direction_or_zero(c: &Color) -> (r: Direction)
    requires
        c@.wf(),
    ensures
        r == direction_of(c@),
        r.wf(),
{
    match c {
        Color::Gradient(g) => g.direction,
        Color::Solid(_) => Direction { start_x: 0, start_y: 0, end_x: 0, end_y: 0 },
    }
}

fn stop_count(c: &Color) -> (r: usize)
    ensures
        r == c@.stop_count(),
{
    match c {
        Color::Gradient(g) => g.stops.len(),
        Color::Solid(_) => 0,
    }
}

/// One tick of a border with at least one gradient color; returns the new
/// current color and mode.
pub fn interpolate_gradients(
    current: &CurrentColor,
    active: &Color,
    inactive: &Color,
    mode: AnimationMode,
    anim_elapsed_us: u64,
    anim_speed: u32,
    is_active: bool,
) -> (r: (CurrentColor, AnimationMode))
    requires
        current@.wf(),
        current@.bounded(),
        active@.wf(),
        inactive@.wf(),
        active@.is_gradient() || inactive@.is_gradient(),
    ensures
        (r.0@, r.1) == gradient_tick(current@, active@, inactive@, mode, anim_speed as int, anim_elapsed_us as int, is_active),
        r.0@.wf(),
{
    if mode == AnimationMode::Idle {
        return (copy_current(current), mode);
    }
    let to_active = match mode {
        AnimationMode::FadeToVisible => is_active,
        AnimationMode::FadeToInactive => false,
        _ => true,
    };
    let n = if to_active {
        if let Color::Gradient(_) = active { stop_count(active) } else { stop_count(inactive) }
    } else {
        if let Color::Gradient(_) = inactive { stop_count(inactive) } else { stop_count(active) }
    };
    assert(n > 0);
    let ghost t = stop_ticks(current@, active@, inactive@, mode, anim_speed as int, anim_elapsed_us as int, is_active);
    let cc = current_colors_at(current, n);
    let ac = colors_at(active, n);
    let ic = colors_at(inactive, n);
    let mut stops: Vec<FineStop> = Vec::with_capacity(n);
    let mut all_done = true;
    let mut i: usize = 0;
    while i < n
        invariant
            n == target_stop_count(mode, is_active, active@, inactive@),
            t == stop_ticks(current@, active@, inactive@, mode, anim_speed as int, anim_elapsed_us as int, is_active),
            cc@ == current_stop_colors(current@, n as nat),
            ac@ == stop_colors(active@, n as nat),
            ic@ == stop_colors(inactive@, n as nat),
            forall|j: int| 0 <= j < n ==> (#[trigger] cc@[j]).bounded(),
            forall|j: int| 0 <= j < n ==> #[trigger] ac@[j].wf(),
            forall|j: int| 0 <= j < n ==> #[trigger] ic@[j].wf(),
            i <= n,
            stops@.len() == i,
            forall|j: int| 0 <= j < i ==> #[trigger] stops@[j] == (FineStop { position: even_position(j, n as int) as u32, color: t[j].0 }),
            all_done == (forall|j: int| 0 <= j < i ==> #[trigger] t[j].1),
        decreases n - i,
    {
        let (color, done) = match mode {
            AnimationMode::FadeToVisible => {
                let end = if is_active { ac[i] } else { ic[i] };
                interpolate_d2d1_to_visible(&cc[i], &end, anim_elapsed_us, anim_speed)
            },
            AnimationMode::FadeToInactive => interpolate_d2d1_colors(&cc[i], &ac[i], &ic[i], anim_elapsed_us, anim_speed),
            _ => interpolate_d2d1_colors(&cc[i], &ic[i], &ac[i], anim_elapsed_us, anim_speed),
        };
        assert((color, done) == t[i as int]);
        let position = even_position_exec(i, n);
        stops.push(FineStop { position, color });
        all_done = all_done && done;
        i = i + 1;
    }
    if all_done {
        let target = if to_active { to_current(active) } else { to_current(inactive) };
        return (target, AnimationMode::Idle);
    }
    let start = match current {
        CurrentColor::Gradient(g) => g.direction,
        CurrentColor::Solid(_) => if let Color::Gradient(g) = active {
            to_fine_direction(g.direction)
        } else {
            to_fine_direction(direction_or_zero(inactive))
        },
    };
    let direction = match (active, inactive) {
        (Color::Gradient(a), Color::Gradient(b)) => match mode {
            AnimationMode::FadeToVisible => start,
            AnimationMode::FadeToInactive => interpolate_direction(&start, &a.direction, &b.direction, anim_elapsed_us, anim_speed),
            _ => interpolate_direction(&start, &b.direction, &a.direction, anim_elapsed_us, anim_speed),
        },
        _ => start,
    };
    assert(stops@ =~= Seq::new(n as nat, |j: int| FineStop { position: even_position(j, n as int) as u32, color: t[j].0 }));
    (CurrentColor::Gradient(FineGradient { stops, direction }), mode)
}

// ---------------------------------------------------------------------------
// A border's colors

/// The colors of one border and the transition it is running.
pub struct ColorAnimation {
    pub current_color: CurrentColor,
    pub active_color: Color,
    pub inactive_color: Color,
    pub mode: AnimationMode,
}

impl ColorAnimation {
    /// The active and inactive colors are in range, and the current color is
    /// a gradient with stops only when the active or the inactive color is a
    /// gradient.
    pub open spec fn wf(&self) -> bool {
        &&& self.current_color@.wf()
        &&& self.active_color@.wf()
        &&& self.inactive_color@.wf()
        &&& self.current_color@.is_gradient() ==> (self.active_color@.is_gradient()
            || self.inactive_color@.is_gradient())
    }

    /// A border at rest in the color of its focus state.
    pub fn new(active_color: Color, inactive_color: Color, is_active: bool) -> (r: ColorAnimation)
        requires
            active_color@.wf(),
            inactive_color@.wf(),
        ensures
            r.wf(),
            r.current_color@ == fine_view(focus_color(is_active, active_color@, inactive_color@)),
            r.active_color@ == active_color@,
            r.inactive_color@ == inactive_color@,
            r.mode == AnimationMode::Idle,
    {
        let current_color = if is_active { to_current(&active_color) } else { to_current(&inactive_color) };
        ColorAnimation { current_color, active_color, inactive_color, mode: AnimationMode::Idle }
    }
}

/// A color at rest as the color a border shows; with `clear`, every alpha is
/// zero.
fn to_current_alpha(c: &Color, clear: bool) -> (r: CurrentColor)
    requires
        c@.wf(),
    ensures
        !clear ==> r@ == fine_view(c@),
        clear ==> r@ == fine_view(c@).transparent(),
        r@.wf(),
        r@.bounded(),
{
    match c {
        Color::Solid(x) => {
            let f = to_fine(*x);
            if clear {
                CurrentColor::Solid(FineRgba { a: 0, ..f })
            } else {
                CurrentColor::Solid(f)
            }
        },
        Color::Gradient(g) => {
            let ghost want = if clear { fine_view(c@).transparent() } else { fine_view(c@) };
            let mut stops: Vec<FineStop> = Vec::with_capacity(g.stops.len());
            let mut i: usize = 0;
            while i < g.stops.len()
                invariant
                    i <= g.stops@.len(),
                    c@ == ColorView::Gradient(g.stops@, g.direction),
                    stops_wf(g.stops@),
                    want == if clear { fine_view(c@).transparent() } else { fine_view(c@) },
                    stops@ =~= want->Gradient_0.subrange(0, i as int),
                    forall|k: int| 0 <= k < i ==> (#[trigger] stops@[k]).color.bounded(),
                decreases g.stops@.len() - i,
            {
                let st = g.stops[i];
                assert(st.position <= UNIT);
                let f = to_fine(st.color);
                let color = if clear { FineRgba { a: 0, ..f } } else { f };
                stops.push(FineStop { position: st.position, color });
                i = i + 1;
            }
            assert(stops@ =~= want->Gradient_0);
            CurrentColor::Gradient(FineGradient { stops, direction: to_fine_direction(g.direction) })
        },
    }
}

/// A color at rest as the color a border shows.
pub fn to_current(c: &Color) -> (r: CurrentColor)
    requires
        c@.wf(),
    ensures
        r@ == fine_view(c@),
        r@.wf(),
        r@.bounded(),
{
    to_current_alpha(c, false)
}

/// A copy of the color a border shows.
pub fn copy_current(c: &CurrentColor) -> (r: CurrentColor)
    ensures
        r@ == c@,
{
    match c {
        CurrentColor::Solid(x) => CurrentColor::Solid(*x),
        CurrentColor::Gradient(g) => {
            let mut stops: Vec<FineStop> = Vec::with_capacity(g.stops.len());
            let mut i: usize = 0;
            while i < g.stops.len()
                invariant
                    i <= g.stops@.len(),
                    stops@ =~= g.stops@.subrange(0, i as int),
                decreases g.stops@.len() - i,
            {
                stops.push(g.stops[i]);
                i = i + 1;
            }
            assert(stops@ =~= g.stops@);
            CurrentColor::Gradient(FineGradient { stops, direction: g.direction })
        },
    }
}

fn fine_in_bound(x: i128) -> (r: bool)
    ensures
        r == in_bound(x as int),
{
    -FINE_BOUND <= x && x <= FINE_BOUND
}

fn rgba_in_bound(c: &FineRgba) -> (r: bool)
    ensures
        r == c.bounded(),
{
    fine_in_bound(c.r) && fine_in_bound(c.g) && fine_in_bound(c.b) && fine_in_bound(c.a)
}

/// Whether every value of the color lies within `FINE_BOUND`.
pub fn current_in_bound(c: &CurrentColor) -> (r: bool)
    ensures
        r == c@.bounded(),
{
    match c {
        CurrentColor::Solid(x) => rgba_in_bound(x),
        CurrentColor::Gradient(g) => {
            let d = g.direction;
            assert(c@ == CurrentView::Gradient(g.stops@, g.direction));
            if !(fine_in_bound(d.start_x) && fine_in_bound(d.start_y) && fine_in_bound(d.end_x) && fine_in_bound(d.end_y)) {
                return false;
            }
            let mut i: usize = 0;
            while i < g.stops.len()
                invariant
                    i <= g.stops@.len(),
                    c@ == CurrentView::Gradient(g.stops@, g.direction),
                    g.direction.bounded(),
                    forall|k: int| 0 <= k < i ==> (#[trigger] g.stops@[k]).color.bounded(),
                decreases g.stops@.len() - i,
            {
                if !rgba_in_bound(&g.stops[i].color) {
                    assert(!(g.stops@[i as int]).color.bounded());
                    assert(!stops_bounded(g.stops@));
                    return false;
                }
                i = i + 1;
            }
            true
        },
    }
}

/// Starts a fade to visible at `now_us`: the current color becomes the color
/// of the focus state with alpha zero, whatever it was before, the mode
/// becomes `FadeToVisible`, and ticks are measured from now, so that time
/// spent hidden does not count.
pub fn animate_fade_to_visible(anim: &mut ColorAnimation, is_active: bool, last_tick_us: &mut Option<u64>, now_us: u64)
    requires
        old(anim).wf(),
    ensures
        final(anim).wf(),
        final(anim).current_color@ == fine_view(
            focus_color(is_active, old(anim).active_color@, old(anim).inactive_color@),
        ).transparent(),
        final(anim).mode == AnimationMode::FadeToVisible,
        final(anim).active_color == old(anim).active_color,
        final(anim).inactive_color == old(anim).inactive_color,
        *final(last_tick_us) == Some(now_us),
{
    let c = if is_active { to_current_alpha(&anim.active_color, true) } else { to_current_alpha(&anim.inactive_color, true) };
    anim.current_color = c;
    anim.mode = AnimationMode::FadeToVisible;
    *last_tick_us = Some(now_us);
}

/// One tick of a border's color fade at `anim_speed`: the solid rule when
/// every color is solid, the gradient rule otherwise.
pub fn animate_fade_colors(anim: &mut ColorAnimation, anim_elapsed_us: u64, anim_speed: u32, is_active: bool)
    requires
        old(anim).wf(),
        old(anim).current_color@.bounded(),
    ensures
        final(anim).wf(),
        (final(anim).current_color@, final(anim).mode) == color_tick(
            old(anim).current_color@,
            old(anim).active_color@,
            old(anim).inactive_color@,
            old(anim).mode,
            anim_speed as int,
            anim_elapsed_us as int,
            is_active,
        ),
        final(anim).active_color == old(anim).active_color,
        final(anim).inactive_color == old(anim).inactive_color,
{
    let (next, mode) = match (&anim.current_color, &anim.active_color, &anim.inactive_color) {
        (CurrentColor::Solid(c), Color::Solid(a), Color::Solid(i)) => {
            let (n, m) = interpolate_solids(*c, *a, *i, anim.mode, anim_elapsed_us, anim_speed, is_active);
            (CurrentColor::Solid(n), m)
        },
        _ => interpolate_gradients(&anim.current_color, &anim.active_color, &anim.inactive_color, anim.mode, anim_elapsed_us, anim_speed, is_active),
    };
    anim.current_color = next;
    anim.mode = mode;
}

/// Ends any transition at once: the current color becomes the target of the
/// mode and the mode becomes `Idle`.
pub fn finish_fade(anim: &mut ColorAnimation, is_active: bool)
    requires
        old(anim).wf(),
    ensures
        final(anim).wf(),
        old(anim).mode == AnimationMode::Idle ==> final(anim).current_color@ == old(anim).current_color@,
        old(anim).mode != AnimationMode::Idle ==> final(anim).current_color@ == fine_view(fade_target(
            old(anim).mode,
            is_active,
            old(anim).active_color@,
            old(anim).inactive_color@,
        )),
        final(anim).mode == AnimationMode::Idle,
        final(anim).active_color == old(anim).active_color,
        final(anim).inactive_color == old(anim).inactive_color,
{
    let to_active = match anim.mode {
        AnimationMode::Idle => {
            return;
        },
        AnimationMode::FadeToVisible => is_active,
        AnimationMode::FadeToInactive => false,
        AnimationMode::FadeToActive => true,
    };
    anim.current_color = if to_active { to_current(&anim.active_color) } else { to_current(&anim.inactive_color) };
    anim.mode = AnimationMode::Idle;
}

// ---------------------------------------------------------------------------
// Over many ticks

/// One rotation tick: clockwise or not, at a speed, after some microseconds.
pub struct Turn {
    pub reverse: bool,
    pub speed: u32,
    pub elapsed_us: u64,
}

pub open spec fn rotate_all(angle: int, turns: Seq<Turn>) -> int
    decreases turns.len(),
{
    if turns.len() == 0 {
        angle
    } else {
        let t = turns[0];
        let next = if t.reverse {
            reverse_spiral_angle(angle, t.speed as int, t.elapsed_us as int)
        } else {
            spiral_angle(angle, t.speed as int, t.elapsed_us as int)
        };
        rotate_all(next, turns.drop_first())
    }
}

/// Whatever ticks a rotation goes through, clockwise or back, at any speeds
/// and intervals, its angle stays within `[0, FULL_TURN)`.
pub proof fn lemma_rotation_stays_in_one_turn(angle: int, turns: Seq<Turn>)
    requires
        0 <= angle < FULL_TURN,
    ensures
        0 <= rotate_all(angle, turns) < FULL_TURN,
    decreases turns.len(),
{
    if turns.len() > 0 {
        let t = turns[0];
        let next = if t.reverse {
            reverse_spiral_angle(angle, t.speed as int, t.elapsed_us as int)
        } else {
            spiral_angle(angle, t.speed as int, t.elapsed_us as int)
        };
        lemma_rotation_stays_in_one_turn(next, turns.drop_first());
    }
}

/// A fade to visible starts fully transparent whatever color came before:
/// after `animate_fade_to_visible` the current color is the focus color with
/// every alpha zero and every other channel and position kept.
pub proof fn lemma_fade_to_visible_starts_transparent(c: ColorView)
    ensures
        match fine_view(c).transparent() {
            CurrentView::Solid(x) => x.a == 0 && x.r == c->Solid_0.r * FINE && x.g == c->Solid_0.g * FINE
                && x.b == c->Solid_0.b * FINE,
            CurrentView::Gradient(s, d) => {
                &&& s.len() == c->Gradient_0.len()
                &&& d == fine_direction(c->Gradient_1)
                &&& forall|i: int| 0 <= i < s.len() ==> (#[trigger] s[i]).color.a == 0
                    && s[i].position == c->Gradient_0[i].position
                    && s[i].color.r == c->Gradient_0[i].color.r * FINE
                    && s[i].color.g == c->Gradient_0[i].color.g * FINE
                    && s[i].color.b == c->Gradient_0[i].color.b * FINE
            },
        },
{
}

/// The state of a solid fade toward the active color after `k` ticks.
pub open spec fn fade_to_active_run(
    cur: FineRgba,
    active: Rgba,
    inactive: Rgba,
    speed: int,
    elapsed: int,
    k: nat,
) -> (FineRgba, AnimationMode)
    decreases k,
{
    if k == 0 {
        (cur, AnimationMode::FadeToActive)
    } else {
        let (c, m) = fade_to_active_run(cur, active, inactive, speed, elapsed, (k - 1) as nat);
        solid_tick(c, active, inactive, m, speed, elapsed, true)
    }
}

pub open spec fn between(x: int, a: int, b: int) -> bool {
    (a <= x <= b) || (b <= x <= a)
}

/// Red, green and blue of `x` lie between those of `a` and `b`, at the fine
/// scale.
pub open spec fn rgb_between(x: FineRgba, a: Rgba, b: Rgba) -> bool {
    between(x.r as int, a.r * FINE, b.r * FINE) && between(x.g as int, a.g * FINE, b.g * FINE)
        && between(x.b as int, a.b * FINE, b.b * FINE)
}

/// Where one channel of a fade from `s` to `e` stands after `k` ticks.
spec fn channel_after(s: int, e: int, speed: int, elapsed: int, k: int) -> int {
    s * FINE + k * ((e - s) * (speed * elapsed))
}

spec fn rgb_after(s: Rgba, e: Rgba, speed: int, elapsed: int, k: int) -> FineRgba {
    FineRgba {
        r: channel_after(s.r as int, e.r as int, speed, elapsed, k) as i128,
        g: channel_after(s.g as int, e.g as int, speed, elapsed, k) as i128,
        b: channel_after(s.b as int, e.b as int, speed, elapsed, k) as i128,
        a: (s.a * FINE) as i128,
    }
}

spec fn reached_after(s: Rgba, e: Rgba, speed: int, elapsed: int, k: int) -> bool {
    reached(channel_after(s.r as int, e.r as int, speed, elapsed, k), s.r as int, e.r as int)
        && reached(channel_after(s.g as int, e.g as int, speed, elapsed, k), s.g as int, e.g as int)
        && reached(channel_after(s.b as int, e.b as int, speed, elapsed, k), s.b as int, e.b as int)
}

proof fn lemma_channel_after(s: int, e: int, speed: int, elapsed: int, k: int)
    requires
        0 <= s <= UNIT,
        0 <= e <= UNIT,
        speed >= 0,
        elapsed >= 0,
        k >= 0,
    ensures
        advance(channel_after(s, e, speed, elapsed, k), s, e, speed, elapsed) == channel_after(s, e, speed, elapsed, k + 1),
        reached(channel_after(s, e, speed, elapsed, k), s, e) <==> (e == s || k * (speed * elapsed) >= FINE),
        k * (speed * elapsed) < FINE ==> between(channel_after(s, e, speed, elapsed, k), s * FINE, e * FINE),
        e == s ==> channel_after(s, e, speed, elapsed, k) == s * FINE,
{
    let kk = speed * elapsed;
    let d = e - s;
    assert(kk >= 0) by (nonlinear_arith)
        requires speed >= 0, elapsed >= 0, kk == speed * elapsed;
    assert(k * (d * kk) == d * (k * kk)) by (nonlinear_arith);
    assert((k + 1) * (d * kk) == k * (d * kk) + d * kk) by (nonlinear_arith);
    let m = k * kk;
    assert(m >= 0) by (nonlinear_arith)
        requires k >= 0, kk >= 0, m == k * kk;
    if d > 0 {
        assert(d * m >= d * FINE <==> m >= FINE) by (nonlinear_arith)
            requires d > 0;
        if m < FINE {
            assert(0 <= d * m <= d * FINE) by (nonlinear_arith)
                requires d > 0, 0 <= m < FINE;
        }
    } else if d < 0 {
        assert(d * m <= d * FINE <==> m >= FINE) by (nonlinear_arith)
            requires d < 0;
        if m < FINE {
            assert(d * FINE <= d * m <= 0) by (nonlinear_arith)
                requires d < 0, 0 <= m < FINE;
        }
    } else {
        assert(d * m == 0) by (nonlinear_arith)
            requires d == 0;
    }
}

proof fn lemma_rgb_after_step(s: Rgba, e: Rgba, speed: int, elapsed: int, k: int)
    requires
        s.wf(),
        e.wf(),
        speed >= 0,
        elapsed >= 0,
        k >= 0,
        !reached_after(s, e, speed, elapsed, k),
    ensures
        fade_color(rgb_after(s, e, speed, elapsed, k), s, e, speed, elapsed) == (if reached_after(s, e, speed, elapsed, k + 1) {
            (fine_rgba(e), true)
        } else {
            (rgb_after(s, e, speed, elapsed, k + 1), false)
        }),
        k * (speed * elapsed) < FINE,
{
    lemma_channel_after(s.r as int, e.r as int, speed, elapsed, k);
    lemma_channel_after(s.g as int, e.g as int, speed, elapsed, k);
    lemma_channel_after(s.b as int, e.b as int, speed, elapsed, k);
    lemma_channel_after(s.r as int, e.r as int, speed, elapsed, k + 1);
    lemma_channel_after(s.g as int, e.g as int, speed, elapsed, k + 1);
    lemma_channel_after(s.b as int, e.b as int, speed, elapsed, k + 1);
    let kk = speed * elapsed;
    assert((k + 1) * kk == k * kk + kk) by (nonlinear_arith);
}

/// After `k >= 1` ticks the fade has either completed, exactly at `c2`, or
/// stands at `rgb_after(k)`.
proof fn lemma_fade_to_active_run_shape(c1: Rgba, c2: Rgba, speed: int, elapsed: int, k: nat)
    requires
        c1.wf(),
        c2.wf(),
        speed >= 0,
        elapsed >= 0,
        k >= 1,
    ensures
        fade_to_active_run(fine_rgba(c1), c2, c1, speed, elapsed, k) == (if reached_after(c1, c2, speed, elapsed, k as int) {
            (fine_rgba(c2), AnimationMode::Idle)
        } else {
            (rgb_after(c1, c2, speed, elapsed, k as int), AnimationMode::FadeToActive)
        }),
    decreases k,
{
    let prev = (k - 1) as nat;
    let sa = fade_to_active_run(fine_rgba(c1), c2, c1, speed, elapsed, prev);
    assert(fade_to_active_run(fine_rgba(c1), c2, c1, speed, elapsed, k) == solid_tick(sa.0, c2, c1, sa.1, speed, elapsed, true));
    let kk = speed * elapsed;
    assert(kk >= 0) by (nonlinear_arith)
        requires speed >= 0, elapsed >= 0, kk == speed * elapsed;
    assert(prev * kk <= k * kk) by (nonlinear_arith)
        requires prev <= k, kk >= 0;
    lemma_channel_after(c1.r as int, c2.r as int, speed, elapsed, prev as int);
    lemma_channel_after(c1.g as int, c2.g as int, speed, elapsed, prev as int);
    lemma_channel_after(c1.b as int, c2.b as int, speed, elapsed, prev as int);
    lemma_channel_after(c1.r as int, c2.r as int, speed, elapsed, k as int);
    lemma_channel_after(c1.g as int, c2.g as int, speed, elapsed, k as int);
    lemma_channel_after(c1.b as int, c2.b as int, speed, elapsed, k as int);
    if k == 1 {
        assert(0 * ((c2.r - c1.r) * kk) == 0 && 0 * ((c2.g - c1.g) * kk) == 0 && 0 * ((c2.b - c1.b) * kk) == 0);
        assert(rgb_after(c1, c2, speed, elapsed, 0) == fine_rgba(c1));
        if reached_after(c1, c2, speed, elapsed, 0) {
            // nothing moves between the same colors
            assert(reached_after(c1, c2, speed, elapsed, 1));
        }
        if !reached_after(c1, c2, speed, elapsed, 0) {
            lemma_rgb_after_step(c1, c2, speed, elapsed, 0);
        } else {
            assert(fade_color(fine_rgba(c1), c1, c2, speed, elapsed) == (fine_rgba(c2), true));
        }
    } else {
        lemma_fade_to_active_run_shape(c1, c2, speed, elapsed, prev);
        if reached_after(c1, c2, speed, elapsed, prev as int) {
            assert(sa == (fine_rgba(c2), AnimationMode::Idle));
        } else {
            lemma_rgb_after_step(c1, c2, speed, elapsed, prev as int);
        }
    }
}

/// A solid fade toward the active color, from the inactive color `c1` to the
/// active color `c2`, at a fixed positive speed and interval, arrives at `c2`
/// exactly and stops within `FINE` ticks, and on the way red, green and blue
/// always lie between those of `c1` and `c2`.
pub proof fn lemma_solid_fade_converges(c1: Rgba, c2: Rgba, speed: u32, elapsed_us: u64)
    requires
        c1.wf(),
        c2.wf(),
        speed > 0,
        elapsed_us > 0,
    ensures
        fade_to_active_run(fine_rgba(c1), c2, c1, speed as int, elapsed_us as int, FINE as nat) == (
            fine_rgba(c2),
            AnimationMode::Idle,
        ),
        forall|k: nat| #[trigger] rgb_between(
            fade_to_active_run(fine_rgba(c1), c2, c1, speed as int, elapsed_us as int, k).0,
            c1,
            c2,
        ),
{
    let sp = speed as int;
    let el = elapsed_us as int;
    let kk = sp * el;
    assert(kk >= 1) by (nonlinear_arith)
        requires sp >= 1, el >= 1, kk == sp * el;
    assert(FINE * kk >= FINE) by (nonlinear_arith)
        requires kk >= 1;
    lemma_fade_to_active_run_shape(c1, c2, sp, el, FINE as nat);
    lemma_channel_after(c1.r as int, c2.r as int, sp, el, FINE as int);
    lemma_channel_after(c1.g as int, c2.g as int, sp, el, FINE as int);
    lemma_channel_after(c1.b as int, c2.b as int, sp, el, FINE as int);
    assert forall|k: nat| #[trigger] rgb_between(fade_to_active_run(fine_rgba(c1), c2, c1, sp, el, k).0, c1, c2) by {
        if k == 0 {
        } else {
            lemma_fade_to_active_run_shape(c1, c2, sp, el, k);
            lemma_channel_after(c1.r as int, c2.r as int, sp, el, k as int);
            lemma_channel_after(c1.g as int, c2.g as int, sp, el, k as int);
            lemma_channel_after(c1.b as int, c2.b as int, sp, el, k as int);
        }
    }
}

} // verus!
