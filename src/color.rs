//! Colors, gradient stops and gradient directions in fixed point.
//!
//! Every channel, stop position and direction coordinate is an integer in
//! `0..=UNIT`, where `UNIT` stands for 1.0.
use vstd::prelude::*;

verus! {

/// The fixed-point value of 1.0. It is a multiple of 255, so that an 8-bit
/// channel converts exactly, and it is even, so that one half is exact.
pub const UNIT: u32 = 1_020_000;

/// A color with straight (not premultiplied) alpha.
#[derive(Clone, Copy, Debug, PartialEq, Eq, Structural)]
pub struct Rgba {
    pub r: u32,
    pub g: u32,
    pub b: u32,
    pub a: u32,
}

impl Rgba {
    pub open spec fn wf(&self) -> bool {
        self.r <= UNIT && self.g <= UNIT && self.b <= UNIT && self.a <= UNIT
    }

    /// The same color with its alpha replaced.
    pub open spec fn with_alpha(self, a: u32) -> Rgba {
        Rgba { r: self.r, g: self.g, b: self.b, a }
    }
}

/// One stop of a linear gradient.
#[derive(Clone, Copy, Debug, PartialEq, Eq, Structural)]
pub struct GradientStop {
    pub position: u32,
    pub color: Rgba,
}

/// The start and end points of a linear gradient, relative to the border's
/// bounding box.
#[derive(Clone, Copy, Debug, PartialEq, Eq, Structural)]
pub struct Direction {
    pub start_x: u32,
    pub start_y: u32,
    pub end_x: u32,
    pub end_y: u32,
}

impl Direction {
    pub open spec fn wf(&self) -> bool {
        self.start_x <= UNIT && self.start_y <= UNIT && self.end_x <= UNIT && self.end_y <= UNIT
    }
}

#[derive(Clone, Debug)]
pub struct Gradient {
    pub stops: Vec<GradientStop>,
    pub direction: Direction,
}

#[derive(Clone, Debug)]
pub enum Color {
    Solid(Rgba),
    Gradient(Gradient),
}

/// What a color is, with the stops of a gradient as a sequence.
pub enum ColorView {
    Solid(Rgba),
    Gradient(Seq<GradientStop>, Direction),
}

impl View for Color {
    type V = ColorView;

    open spec fn view(&self) -> ColorView {
        match self {
            Color::Solid(c) => ColorView::Solid(*c),
            Color::Gradient(g) => ColorView::Gradient(g.stops@, g.direction),
        }
    }
}

/// Stops are non-empty, their positions lie in `0..=UNIT` and never decrease,
/// and every color is within range.
pub open spec fn stops_wf(s: Seq<GradientStop>) -> bool {
    &&& s.len() > 0
    &&& forall|i: int| 0 <= i < s.len() ==> #[trigger] s[i].position <= UNIT && s[i].color.wf()
    &&& forall|i: int, j: int|
        0 <= i <= j < s.len() ==> #[trigger] s[i].position <= #[trigger] s[j].position
}

impl ColorView {
    pub open spec fn wf(self) -> bool {
        match self {
            ColorView::Solid(c) => c.wf(),
            ColorView::Gradient(s, d) => stops_wf(s) && d.wf(),
        }
    }

    pub open spec fn is_gradient(self) -> bool {
        self is Gradient
    }

    pub open spec fn stop_count(self) -> nat {
        match self {
            ColorView::Solid(_) => 0,
            ColorView::Gradient(s, _) => s.len(),
        }
    }

    /// The color with the alpha of every stop (or of the solid) set to zero.
    pub open spec fn transparent(self) -> ColorView {
        match self {
            ColorView::Solid(c) => ColorView::Solid(c.with_alpha(0)),
            ColorView::Gradient(s, d) => ColorView::Gradient(
                Seq::new(s.len(), |i: int| GradientStop { position: s[i].position, color: s[i].color.with_alpha(0) }),
                d,
            ),
        }
    }
}

/// A linear blend of `a` toward `b` by `num / den`, rounded toward `a`.
pub open spec fn blend_channel(a: int, b: int, num: int, den: int) -> int {
    if den <= 0 {
        a
    } else if b >= a {
        a + (b - a) * num / den
    } else {
        a - (a - b) * num / den
    }
}

pub open spec fn blend_rgba(x: Rgba, y: Rgba, num: int, den: int) -> Rgba {
    Rgba {
        r: blend_channel(x.r as int, y.r as int, num, den) as u32,
        g: blend_channel(x.g as int, y.g as int, num, den) as u32,
        b: blend_channel(x.b as int, y.b as int, num, den) as u32,
        a: blend_channel(x.a as int, y.a as int, num, den) as u32,
    }
}

/// The position of stop `i` of `n` evenly spaced stops.
pub open spec fn even_position(i: int, n: int) -> int {
    if n <= 1 {
        0
    } else {
        i * (UNIT as int) / (n - 1)
    }
}

/// The first pair of neighbouring stops, from index `j` on, whose positions
/// enclose `pos`.
pub open spec fn first_bracket(s: Seq<GradientStop>, pos: int, j: int) -> Option<int>
    decreases s.len() - j,
{
    if j < 0 || j + 1 >= s.len() {
        None
    } else if s[j].position <= pos <= s[j + 1].position {
        Some(j)
    } else {
        first_bracket(s, pos, j + 1)
    }
}

/// The two stops that a resampled stop at `pos` blends: the first enclosing
/// pair, or else the nearest edge stop twice.
pub open spec fn bracket(s: Seq<GradientStop>, pos: int) -> (GradientStop, GradientStop) {
    match first_bracket(s, pos, 0) {
        Some(j) => (s[j], s[j + 1]),
        None => if pos <= s[0].position {
            (s[0], s[0])
        } else {
            (s.last(), s.last())
        },
    }
}

pub open spec fn resampled_stop(s: Seq<GradientStop>, pos: int) -> GradientStop {
    let (lo, hi) = bracket(s, pos);
    GradientStop {
        position: pos as u32,
        color: blend_rgba(lo.color, hi.color, pos - lo.position, hi.position - lo.position),
    }
}

/// `s` resampled to `n` evenly spaced stops.
pub open spec fn resample(s: Seq<GradientStop>, n: nat) -> Seq<GradientStop> {
    Seq::new(n, |i: int| resampled_stop(s, even_position(i, n as int)))
}

pub open spec fn evenly_spaced(s: Seq<GradientStop>) -> bool {
    forall|i: int| 0 <= i < s.len() ==> #[trigger] s[i].position == even_position(i, s.len() as int)
}

pub proof fn lemma_blend_channel_bounds(a: int, b: int, num: int, den: int)
    requires
        0 <= num <= den,
    ensures
        a <= b ==> a <= blend_channel(a, b, num, den) <= b,
        b <= a ==> b <= blend_channel(a, b, num, den) <= a,
        num == den && den > 0 ==> blend_channel(a, b, num, den) == b,
        num == 0 ==> blend_channel(a, b, num, den) == a,
{
    if den > 0 {
        let d = if b >= a { b - a } else { a - b };
        assert(0 <= d * num <= d * den) by (nonlinear_arith)
            requires 0 <= num <= den, d >= 0;
        assert(d * den / den == d) by (nonlinear_arith)
            requires den > 0;
        assert(0 <= d * num / den <= d * den / den) by (nonlinear_arith)
            requires 0 <= d * num <= d * den, den > 0;
        assert(0 * den / den == 0) by (nonlinear_arith)
            requires den > 0;
        if num == 0 {
            assert(d * num == 0) by (nonlinear_arith)
                requires num == 0;
        }
        if num == den {
            assert(d * num / den == d) by (nonlinear_arith)
                requires num == den, den > 0;
        }
    }
}

pub proof fn lemma_even_position_bounds(i: int, n: int)
    requires
        0 <= i < n,
    ensures
        0 <= even_position(i, n) <= UNIT,
{
    if n > 1 {
        let u = UNIT as int;
        assert(0 <= i * u <= (n - 1) * u) by (nonlinear_arith)
            requires 0 <= i <= n - 1, u >= 0;
        assert((n - 1) * u / (n - 1) == u) by (nonlinear_arith)
            requires n - 1 > 0;
        assert(0 <= i * u / (n - 1) <= (n - 1) * u / (n - 1)) by (nonlinear_arith)
            requires 0 <= i * u <= (n - 1) * u, n - 1 > 0;
    }
}

pub proof fn lemma_even_position_monotone(i: int, j: int, n: int)
    requires
        0 <= i <= j < n,
    ensures
        even_position(i, n) <= even_position(j, n),
{
    if n > 1 {
        let u = UNIT as int;
        assert(i * u <= j * u) by (nonlinear_arith)
            requires i <= j, u >= 0;
        assert(i * u / (n - 1) <= j * u / (n - 1)) by (nonlinear_arith)
            requires i * u <= j * u, n - 1 > 0;
    }
}

/// Evenly spaced positions strictly increase while there are no more gaps
/// than fixed-point steps.
proof fn lemma_even_position_strict(i: int, n: int)
    requires
        0 <= i,
        i + 1 < n,
        n - 1 <= UNIT,
    ensures
        even_position(i, n) < even_position(i + 1, n),
{
    let u = UNIT as int;
    let m = n - 1;
    assert((i + 1) * u == i * u + u) by (nonlinear_arith);
    assert(i * u / m + 1 <= (i * u + m) / m) by (nonlinear_arith)
        requires m > 0, i * u >= 0;
    assert((i * u + m) / m <= (i * u + u) / m) by (nonlinear_arith)
        requires m > 0, m <= u, i * u >= 0;
}

proof fn lemma_first_bracket_skip(s: Seq<GradientStop>, pos: int, j: int)
    requires
        0 <= j,
        j + 1 < s.len(),
        !(s[j].position <= pos <= s[j + 1].position),
    ensures
        first_bracket(s, pos, j) == first_bracket(s, pos, j + 1),
{
}

pub proof fn lemma_first_bracket_in_range(s: Seq<GradientStop>, pos: int, j: int)
    ensures
        first_bracket(s, pos, j) matches Some(k) ==> j <= k && k + 1 < s.len()
            && s[k].position <= pos <= s[k + 1].position,
    decreases s.len() - j,
{
    if j >= 0 && j + 1 < s.len() && !(s[j].position <= pos <= s[j + 1].position) {
        lemma_first_bracket_in_range(s, pos, j + 1);
    }
}

/// Every resampled stop stays within range.
pub proof fn lemma_resampled_stop_wf(s: Seq<GradientStop>, pos: int)
    requires
        stops_wf(s),
        0 <= pos <= UNIT,
    ensures
        resampled_stop(s, pos).color.wf(),
        resampled_stop(s, pos).position == pos,
{
    lemma_first_bracket_in_range(s, pos, 0);
    let (lo, hi) = bracket(s, pos);
    let num = pos - lo.position;
    let den = hi.position - lo.position;
    if let Some(j) = first_bracket(s, pos, 0) {
        assert(s[j].color.wf() && s[j + 1].position <= UNIT && s[j + 1].color.wf());
        lemma_blend_channel_bounds(lo.color.r as int, hi.color.r as int, num, den);
        lemma_blend_channel_bounds(lo.color.g as int, hi.color.g as int, num, den);
        lemma_blend_channel_bounds(lo.color.b as int, hi.color.b as int, num, den);
        lemma_blend_channel_bounds(lo.color.a as int, hi.color.a as int, num, den);
    } else {
        assert(s[0].color.wf() && s[s.len() - 1].color.wf());
    }
}

/// Resampling keeps stops well formed.
pub proof fn lemma_resample_wf(s: Seq<GradientStop>, n: nat)
    requires
        stops_wf(s),
        n > 0,
    ensures
        stops_wf(resample(s, n)),
        resample(s, n).len() == n,
{
    let r = resample(s, n);
    assert forall|i: int| 0 <= i < r.len() implies #[trigger] r[i].position <= UNIT
        && r[i].color.wf() by {
        lemma_even_position_bounds(i, n as int);
        lemma_resampled_stop_wf(s, even_position(i, n as int));
    }
    assert forall|i: int, j: int| 0 <= i <= j < r.len() implies #[trigger] r[i].position
        <= #[trigger] r[j].position by {
        lemma_even_position_bounds(i, n as int);
        lemma_even_position_bounds(j, n as int);
        lemma_even_position_monotone(i, j, n as int);
        lemma_resampled_stop_wf(s, even_position(i, n as int));
        lemma_resampled_stop_wf(s, even_position(j, n as int));
    }
}

/// Resampling stops to their own count `n` gives stop `i` the position
/// `i * UNIT / (n - 1)` and the blend of the pair of stops that encloses it,
/// or the nearest edge stop.
pub proof fn lemma_resample_same_count(s: Seq<GradientStop>)
    requires
        stops_wf(s),
    ensures
        resample(s, s.len()).len() == s.len(),
        forall|i: int| 0 <= i < s.len() ==> {
            let pos = even_position(i, s.len() as int);
            let (lo, hi) = bracket(s, pos);
            &&& (#[trigger] resample(s, s.len())[i]).position == pos
            &&& resample(s, s.len())[i].color == blend_rgba(lo.color, hi.color, pos - lo.position, hi.position - lo.position)
        },
{
    assert forall|i: int| 0 <= i < s.len() implies (#[trigger] resample(s, s.len())[i]).position == even_position(i, s.len() as int) by {
        lemma_even_position_bounds(i, s.len() as int);
    }
}

/// Resampling evenly spaced stops to their own count gives them back
/// unchanged.
pub proof fn lemma_resample_evenly_spaced_identity(s: Seq<GradientStop>)
    requires
        stops_wf(s),
        evenly_spaced(s),
        s.len() - 1 <= UNIT,
    ensures
        resample(s, s.len()) == s,
{
    let n = s.len() as int;
    let r = resample(s, s.len());
    assert forall|i: int| 0 <= i < n implies #[trigger] r[i] == s[i] by {
        let pos = even_position(i, n);
        lemma_even_position_bounds(i, n);
        if i == 0 {
            if n > 1 {
                assert(s[0].position <= s[1].position);
            }
            if n > 1 {
                assert(first_bracket(s, pos, 0) == Some(0int));
            } else {
                assert(first_bracket(s, pos, 0) is None);
            }
            lemma_blend_channel_bounds(s[0].color.r as int, s[0].color.r as int, 0, 0);
            let (lo, hi) = bracket(s, pos);
            lemma_blend_channel_bounds(lo.color.r as int, hi.color.r as int, 0, hi.position - lo.position);
            lemma_blend_channel_bounds(lo.color.g as int, hi.color.g as int, 0, hi.position - lo.position);
            lemma_blend_channel_bounds(lo.color.b as int, hi.color.b as int, 0, hi.position - lo.position);
            lemma_blend_channel_bounds(lo.color.a as int, hi.color.a as int, 0, hi.position - lo.position);
        } else {
            lemma_bracket_skips_to(s, pos, 0, i - 1);
            assert(s[i - 1].position <= s[i].position);
            lemma_even_position_strict(i - 1, n);
            assert(first_bracket(s, pos, i - 1) == Some(i - 1));
            let lo = s[i - 1];
            let hi = s[i];
            let d = hi.position - lo.position;
            lemma_blend_channel_bounds(lo.color.r as int, hi.color.r as int, d, d);
            lemma_blend_channel_bounds(lo.color.g as int, hi.color.g as int, d, d);
            lemma_blend_channel_bounds(lo.color.b as int, hi.color.b as int, d, d);
            lemma_blend_channel_bounds(lo.color.a as int, hi.color.a as int, d, d);
        }
    }
    assert(r =~= s);
}

/// On evenly spaced stops with few enough gaps, the search for an enclosing
/// pair of the position of stop `k + 1` passes over every pair before `k`.
proof fn lemma_bracket_skips_to(s: Seq<GradientStop>, pos: int, j: int, k: int)
    requires
        stops_wf(s),
        evenly_spaced(s),
        s.len() - 1 <= UNIT,
        0 <= j <= k,
        k + 1 < s.len(),
        pos == even_position(k + 1, s.len() as int),
    ensures
        first_bracket(s, pos, j) == first_bracket(s, pos, k),
    decreases k - j,
{
    if j < k {
        lemma_even_position_monotone(j + 1, k, s.len() as int);
        lemma_even_position_strict(k, s.len() as int);
        assert(s[j + 1].position < pos);
        lemma_first_bracket_skip(s, pos, j);
        lemma_bracket_skips_to(s, pos, j + 1, k);
    }
}

/// The linear blend of two channels, for `0 <= num <= den`.
fn blend_channel_exec(a: u32, b: u32, num: u32, den: u32) -> (r: u32)
    requires
        num <= den,
        a <= UNIT,
        b <= UNIT,
    ensures
        r == blend_channel(a as int, b as int, num as int, den as int),
{
    if den == 0 {
        a
    } else if b >= a {
        proof {
            let d = (b - a) as u64;
            assert(d * (num as u64) <= (UNIT as u64) * 0xffff_ffffu64) by (nonlinear_arith)
                requires d <= UNIT, num <= 0xffff_ffffu64;
        }
        let t: u64 = ((b - a) as u64) * (num as u64) / (den as u64);
        proof {
            lemma_blend_channel_bounds(a as int, b as int, num as int, den as int);
        }
        (a as u64 + t) as u32
    } else {
        proof {
            let d = (a - b) as u64;
            assert(d * (num as u64) <= (UNIT as u64) * 0xffff_ffffu64) by (nonlinear_arith)
                requires d <= UNIT, num <= 0xffff_ffffu64;
        }
        let t: u64 = ((a - b) as u64) * (num as u64) / (den as u64);
        proof {
            lemma_blend_channel_bounds(a as int, b as int, num as int, den as int);
        }
        (a as u64 - t) as u32
    }
}

/// Blends two colors channel by channel, alpha included.
pub fn interpolate_color(x: Rgba, y: Rgba, num: u32, den: u32) -> (r: Rgba)
    requires
        num <= den,
        x.wf(),
        y.wf(),
    ensures
        r == blend_rgba(x, y, num as int, den as int),
        r.wf(),
{
    proof {
        lemma_blend_channel_bounds(x.r as int, y.r as int, num as int, den as int);
        lemma_blend_channel_bounds(x.g as int, y.g as int, num as int, den as int);
        lemma_blend_channel_bounds(x.b as int, y.b as int, num as int, den as int);
        lemma_blend_channel_bounds(x.a as int, y.a as int, num as int, den as int);
    }
    Rgba {
        r: blend_channel_exec(x.r, y.r, num, den),
        g: blend_channel_exec(x.g, y.g, num, den),
        b: blend_channel_exec(x.b, y.b, num, den),
        a: blend_channel_exec(x.a, y.a, num, den),
    }
}

/// The position of stop `i` of `n` evenly spaced stops.
pub fn even_position_exec(i: usize, n: usize) -> (r: u32)
    requires
        i < n,
    ensures
        r == even_position(i as int, n as int),
        r <= UNIT,
{
    proof {
        lemma_even_position_bounds(i as int, n as int);
    }
    if n <= 1 {
        0
    } else {
        ((i as u128) * (UNIT as u128) / ((n - 1) as u128)) as u32
    }
}

/// The index of the first pair of neighbouring stops that encloses `pos`.
pub fn find_bracket(stops: &Vec<GradientStop>, pos: u32) -> (r: Option<usize>)
    requires
        stops@.len() > 0,
    ensures
        r matches Some(j) ==> first_bracket(stops@, pos as int, 0) == Some(j as int),
        r is None ==> first_bracket(stops@, pos as int, 0) is None,
{
    let mut j: usize = 0;
    while j + 1 < stops.len()
        invariant
            j < stops.len(),
            first_bracket(stops@, pos as int, 0) == first_bracket(stops@, pos as int, j as int),
        decreases stops.len() - j,
    {
        if stops[j].position <= pos && pos <= stops[j + 1].position {
            return Some(j);
        }
        proof {
            lemma_first_bracket_skip(stops@, pos as int, j as int);
        }
        j = j + 1;
    }
    None
}

/// Resamples `source_stops` to `target_count` evenly spaced stops: each new
/// stop blends the first pair of neighbouring stops that encloses its
/// position, or takes the nearest edge stop when none does.
pub fn adjust_gradient_stops(source_stops: &Vec<GradientStop>, target_count: usize) -> (r: Vec<
    GradientStop,
>)
    requires
        stops_wf(source_stops@),
    ensures
        r@ == resample(source_stops@, target_count as nat),
        target_count > 0 ==> stops_wf(r@),
{
    let n = source_stops.len();
    let mut out: Vec<GradientStop> = Vec::with_capacity(target_count);
    let mut i: usize = 0;
    while i < target_count
        invariant
            stops_wf(source_stops@),
            n == source_stops@.len(),
            i <= target_count,
            out@ =~= resample(source_stops@, target_count as nat).subrange(0, i as int),
        decreases target_count - i,
    {
        let position = even_position_exec(i, target_count);
        let found = find_bracket(source_stops, position);
        proof {
            lemma_first_bracket_in_range(source_stops@, position as int, 0);
            lemma_resampled_stop_wf(source_stops@, position as int);
        }
        let color = match found {
            Some(j) => {
                let lo = source_stops[j];
                let hi = source_stops[j + 1];
                interpolate_color(lo.color, hi.color, position - lo.position, hi.position - lo.position)
            },
            None => if position <= source_stops[0].position {
                source_stops[0].color
            } else {
                source_stops[n - 1].color
            },
        };
        proof {
            if found is None {
                let e = if position <= source_stops@[0].position { source_stops@[0] } else { source_stops@.last() };
                lemma_blend_channel_bounds(e.color.r as int, e.color.r as int, 0, 0);
                lemma_blend_channel_bounds(e.color.g as int, e.color.g as int, 0, 0);
                lemma_blend_channel_bounds(e.color.b as int, e.color.b as int, 0, 0);
                lemma_blend_channel_bounds(e.color.a as int, e.color.a as int, 0, 0);
            }
        }
        out.push(GradientStop { position, color });
        i = i + 1;
    }
    proof {
        if target_count > 0 {
            lemma_resample_wf(source_stops@, target_count as nat);
        }
    }
    out
}

impl Color {
    /// A copy of this color.
    pub fn copy(&self) -> (r: Color)
        ensures
            r@ == self@,
    {
        match self {
            Color::Solid(c) => Color::Solid(*c),
            Color::Gradient(g) => {
                let mut stops: Vec<GradientStop> = Vec::with_capacity(g.stops.len());
                let mut i: usize = 0;
                while i < g.stops.len()
                    invariant
                        i <= g.stops@.len(),
                        stops@ =~= g.stops@.subrange(0, i as int),
                    decreases g.stops@.len() - i,
                {
                    stops.push(g.stops[i]);
                    i = i + 1;
                }
                assert(stops@ =~= g.stops@);
                Color::Gradient(Gradient { stops, direction: g.direction })
            },
        }
    }
}

} // verus!
