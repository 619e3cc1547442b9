//! Reading colors, gradient directions and gradients from their
//! configuration strings, into the fixed point of `color`.
use vstd::prelude::*;
use crate::color::{even_position, even_position_exec, lemma_even_position_bounds,
    lemma_even_position_monotone, stops_wf, Color, ColorView, Direction, Gradient, GradientStop, Rgba, UNIT};
use crate::config::{lower_of, lowercase, regex_find_all, regex_match_texts};
use crate::text::{
    all_digits, chars_of, contains_chars, contains_seq, decimal_value, decimal_value_exec,
    digits_value, digits_value_exec, is_digit, occurs_at, split_commas, split_commas_exec,
    starts_with, starts_with_exec, str_eq, trim, trim_exec,
};

verus! {

/// The fixed-point step of one 8-bit level: `UNIT / 255`.
pub const LEVEL: u32 = 4_000;

pub open spec fn hex_value(c: char) -> Option<int> {
    if '0' <= c && c <= '9' {
        Some(c as int - '0' as int)
    } else if 'a' <= c && c <= 'f' {
        Some(c as int - 'a' as int + 10)
    } else if 'A' <= c && c <= 'F' {
        Some(c as int - 'A' as int + 10)
    } else {
        None
    }
}

/// The byte that two hex digits at `i` spell, or zero if they do not.
pub open spec fn hex_byte(s: Seq<char>, i: int) -> int {
    match (hex_value(s[i]), hex_value(s[i + 1])) {
        (Some(hi), Some(lo)) => hi * 16 + lo,
        _ => 0,
    }
}

/// `#rgb` and `#rgba` written out as `#rrggbb` and `#rrggbbaa`.
pub open spec fn expand_hex(s: Seq<char>) -> Seq<char> {
    if s.len() == 4 || s.len() == 5 {
        Seq::new((2 * s.len() - 1) as nat, |i: int| if i == 0 { s[0] } else { s[(i + 1) / 2] })
    } else {
        s
    }
}

/// The color that a `#` string denotes: `#rgb`, `#rgba`, `#rrggbb` or
/// `#rrggbbaa`, with alpha opaque when not given. Digits that are not hex
/// count as zero; any other length gives transparent black.
pub open spec fn hex_color(s: Seq<char>) -> Rgba {
    if s.len() == 4 || s.len() == 5 || s.len() == 7 || s.len() == 9 {
        let h = expand_hex(s);
        Rgba {
            r: (hex_byte(h, 1) * LEVEL) as u32,
            g: (hex_byte(h, 3) * LEVEL) as u32,
            b: (hex_byte(h, 5) * LEVEL) as u32,
            a: if h.len() == 9 {
                (hex_byte(h, 7) * LEVEL) as u32
            } else {
                UNIT
            },
        }
    } else {
        Rgba { r: 0, g: 0, b: 0, a: 0 }
    }
}

fn hex_value_exec(c: char) -> (r: Option<u32>)
    ensures
        r matches Some(v) ==> hex_value(c) == Some(v as int) && v < 16,
        r is None ==> hex_value(c) is None,
{
    if '0' <= c && c <= '9' {
        Some(c as u32 - '0' as u32)
    } else if 'a' <= c && c <= 'f' {
        Some(c as u32 - 'a' as u32 + 10)
    } else if 'A' <= c && c <= 'F' {
        Some(c as u32 - 'A' as u32 + 10)
    } else {
        None
    }
}

fn hex_byte_exec(s: &Vec<char>, i: usize) -> (r: u32)
    requires
        i + 1 < s.len(),
    ensures
        r == hex_byte(s@, i as int),
        r <= 255,
{
    match (hex_value_exec(s[i]), hex_value_exec(s[i + 1])) {
        (Some(hi), Some(lo)) => hi * 16 + lo,
        _ => 0,
    }
}

/// Reads a `#` color; see `hex_color`.
pub fn get_color_from_hex(hex: &str) -> (r: Rgba)
    ensures
        r == hex_color(hex@),
        r.wf(),
{
    let s = chars_of(hex);
    let n = s.len();
    if !(n == 4 || n == 5 || n == 7 || n == 9) {
        return Rgba { r: 0, g: 0, b: 0, a: 0 };
    }
    let h: Vec<char> = if n == 4 || n == 5 {
        let mut out: Vec<char> = Vec::with_capacity(2 * n - 1);
        out.push(s[0]);
        let mut i: usize = 1;
        while i < n
            invariant
                1 <= i <= n,
                n == s@.len(),
                n == 4 || n == 5,
                out@.len() == 2 * i - 1,
                forall|j: int| 0 <= j < out@.len() ==> #[trigger] out@[j] == expand_hex(s@)[j],
            decreases n - i,
        {
            out.push(s[i]);
            out.push(s[i]);
            i = i + 1;
        }
        assert(out@ =~= expand_hex(s@));
        out
    } else {
        s
    };
    let r = hex_byte_exec(&h, 1);
    let g = hex_byte_exec(&h, 3);
    let b = hex_byte_exec(&h, 5);
    let a = if h.len() == 9 {
        hex_byte_exec(&h, 7) * LEVEL
    } else {
        UNIT
    };
    Rgba { r: r * LEVEL, g: g * LEVEL, b: b * LEVEL, a }
}

/// The color of the system accent value `0x00RRGGBB`: as it is for an active
/// border, and muted toward its grey for an inactive one (two thirds of the
/// mean of the three channels plus a tenth of the channel).
pub open spec fn accent_color(accent: u32, is_active: bool) -> Rgba {
    let r = (accent / 0x10000) % 0x100;
    let g = (accent / 0x100) % 0x100;
    let b = accent % 0x100;
    if is_active {
        Rgba { r: (r * LEVEL) as u32, g: (g * LEVEL) as u32, b: (b * LEVEL) as u32, a: UNIT }
    } else {
        Rgba {
            r: ((r + g + b) * 8000 / 9 + r * 400) as u32,
            g: ((r + g + b) * 8000 / 9 + g * 400) as u32,
            b: ((r + g + b) * 8000 / 9 + b * 400) as u32,
            a: UNIT,
        }
    }
}

pub fn get_accent_color(accent: u32, is_active: bool) -> (r: Rgba)
    ensures
        r == accent_color(accent, is_active),
        r.wf(),
{
    let r = (accent / 0x10000) % 0x100;
    let g = (accent / 0x100) % 0x100;
    let b = accent % 0x100;
    if is_active {
        Rgba { r: r * LEVEL, g: g * LEVEL, b: b * LEVEL, a: UNIT }
    } else {
        let grey = (r + g + b) * 8000 / 9;
        Rgba { r: grey + r * 400, g: grey + g * 400, b: grey + b * 400, a: UNIT }
    }
}

/// The text between `rgb(` or `rgba(` and a closing `)`.
pub open spec fn rgb_inner(s: Seq<char>) -> Seq<char> {
    let open = if starts_with(s, "rgba("@) {
        s.subrange(5, s.len() as int)
    } else if starts_with(s, "rgb("@) {
        s.subrange(4, s.len() as int)
    } else {
        s
    };
    if open.len() > 0 && open.last() == ')' {
        open.drop_last()
    } else {
        open
    }
}

/// A color level from 0 to 255, as a channel: a larger level counts as 255,
/// and one that is not a number as 0.
pub open spec fn level_channel(f: Seq<char>) -> int {
    let t = trim(f);
    if t.len() > 0 && all_digits(t) && digits_value(t) <= u32::MAX {
        if digits_value(t) < 255 {
            digits_value(t) * LEVEL
        } else {
            UNIT as int
        }
    } else {
        0
    }
}

/// An alpha from 0 to 1, as a channel: clamped into that range, and opaque
/// when it is not a number.
pub open spec fn alpha_channel(f: Seq<char>) -> int {
    match decimal_value(trim(f)) {
        Some(v) => if v <= 0 {
            0
        } else if v >= 10_000 {
            UNIT as int
        } else {
            v * 102
        },
        None => UNIT as int,
    }
}

/// The color of `rgb(r, g, b)` or `rgba(r, g, b, a)`; see `level_channel`
/// and `alpha_channel`. Any other number of components gives transparent
/// black.
pub open spec fn rgb_color(s: Seq<char>) -> Rgba {
    let c = split_commas(rgb_inner(s));
    if c.len() == 3 || c.len() == 4 {
        Rgba {
            r: level_channel(c[0]) as u32,
            g: level_channel(c[1]) as u32,
            b: level_channel(c[2]) as u32,
            a: if c.len() == 4 {
                alpha_channel(c[3]) as u32
            } else {
                UNIT
            },
        }
    } else {
        Rgba { r: 0, g: 0, b: 0, a: 0 }
    }
}

/// Reads one color string: `accent` (from the system accent value),
/// `#...` (see `hex_color`), `rgb(...)` or `rgba(...)` (see `rgb_color`), or
/// anything else as transparent black.
pub open spec fn string_color(s: Seq<char>, is_active: bool, accent: u32) -> Rgba {
    if s == "accent"@ {
        accent_color(accent, is_active)
    } else if starts_with(s, "#"@) {
        hex_color(s)
    } else if starts_with(s, "rgb("@) || starts_with(s, "rgba("@) {
        rgb_color(s)
    } else {
        Rgba { r: 0, g: 0, b: 0, a: 0 }
    }
}

fn level_channel_exec(f: &Vec<char>) -> (r: u32)
    ensures
        r == level_channel(f@),
        r <= UNIT,
{
    let t = trim_exec(f);
    if t.len() == 0 {
        return 0;
    }
    assert(t@.subrange(0, t@.len() as int) =~= t@);
    match digits_value_exec(&t, 0, t.len(), u32::MAX) {
        Some(v) => if v < 255 {
            v * LEVEL
        } else {
            UNIT
        },
        None => 0,
    }
}

fn alpha_channel_exec(f: &Vec<char>) -> (r: u32)
    ensures
        r == alpha_channel(f@),
        r <= UNIT,
{
    let t = trim_exec(f);
    match decimal_value_exec(&t) {
        Some(v) => if v <= 0 {
            0
        } else if v >= 10_000 {
            UNIT
        } else {
            (v as u32) * 102
        },
        None => UNIT,
    }
}

/// Reads `rgb(...)` or `rgba(...)`; see `rgb_color`.
pub fn get_color_from_rgba(rgba: &str) -> (r: Rgba)
    ensures
        r == rgb_color(rgba@),
        r.wf(),
{
    let s = chars_of(rgba);
    let n = s.len();
    let lo: usize = if starts_with_exec(&s, "rgba(") {
        proof {
            reveal_strlit("rgba(");
        }
        5
    } else if starts_with_exec(&s, "rgb(") {
        proof {
            reveal_strlit("rgb(");
        }
        4
    } else {
        0
    };
    let ghost open = s@.subrange(lo as int, n as int);
    assert(lo == 0 ==> open =~= s@);
    let hi: usize = if n > lo && s[n - 1] == ')' { n - 1 } else { n };
    assert(s@.subrange(lo as int, hi as int) =~= rgb_inner(s@));
    let c = split_commas_exec(&s, lo, hi);
    if c.len() == 3 || c.len() == 4 {
        let r = level_channel_exec(&c[0]);
        let g = level_channel_exec(&c[1]);
        let b = level_channel_exec(&c[2]);
        let a = if c.len() == 4 { alpha_channel_exec(&c[3]) } else { UNIT };
        Rgba { r, g, b, a }
    } else {
        Rgba { r: 0, g: 0, b: 0, a: 0 }
    }
}

pub fn to_d2d1_color(s: &str, is_active: bool, accent: u32) -> (r: Rgba)
    ensures
        r == string_color(s@, is_active, accent),
        r.wf(),
{
    if str_eq(s, "accent") {
        return get_accent_color(accent, is_active);
    }
    let cs = chars_of(s);
    if starts_with_exec(&cs, "#") {
        get_color_from_hex(s)
    } else if starts_with_exec(&cs, "rgb(") || starts_with_exec(&cs, "rgba(") {
        get_color_from_rgba(s)
    } else {
        Rgba { r: 0, g: 0, b: 0, a: 0 }
    }
}

/// The named gradient directions, as start and end points.
pub open spec fn named_direction(s: Seq<char>) -> Option<Direction> {
    let h = (UNIT / 2) as u32;
    if s == "to right"@ {
        Some(Direction { start_x: 0, start_y: h, end_x: UNIT, end_y: h })
    } else if s == "to left"@ {
        Some(Direction { start_x: UNIT, start_y: h, end_x: 0, end_y: h })
    } else if s == "to top"@ {
        Some(Direction { start_x: h, start_y: UNIT, end_x: h, end_y: 0 })
    } else if s == "to bottom"@ {
        Some(Direction { start_x: h, start_y: 0, end_x: h, end_y: UNIT })
    } else if s == "to top right"@ {
        Some(Direction { start_x: 0, start_y: UNIT, end_x: UNIT, end_y: 0 })
    } else if s == "to top left"@ {
        Some(Direction { start_x: UNIT, start_y: UNIT, end_x: 0, end_y: 0 })
    } else if s == "to bottom right"@ {
        Some(Direction { start_x: 0, start_y: 0, end_x: UNIT, end_y: UNIT })
    } else if s == "to bottom left"@ {
        Some(Direction { start_x: UNIT, start_y: 0, end_x: 0, end_y: UNIT })
    } else {
        None
    }
}

pub fn named_direction_exec(s: &str) -> (r: Option<Direction>)
    ensures
        r == named_direction(s@),
        r matches Some(d) ==> d.wf(),
{
    named_direction_chars(&chars_of(s))
}

/// Whether a run of characters spells `lit`.
fn eq_lit(v: &Vec<char>, lit: &str) -> (r: bool)
    ensures
        r == (v@ == lit@),
{
    let l = chars_of(lit);
    if l.len() != v.len() {
        return false;
    }
    let mut i: usize = 0;
    while i < l.len()
        invariant
            l@ == lit@,
            l@.len() == v@.len(),
            i <= l@.len(),
            forall|j: int| 0 <= j < i ==> v@[j] == l@[j],
        decreases l@.len() - i,
    {
        if v[i] != l[i] {
            return false;
        }
        i = i + 1;
    }
    assert(v@ =~= l@);
    true
}

fn named_direction_chars(s: &Vec<char>) -> (r: Option<Direction>)
    ensures
        r == named_direction(s@),
        r matches Some(d) ==> d.wf(),
{
    let h = UNIT / 2;
    if eq_lit(s, "to right") {
        Some(Direction { start_x: 0, start_y: h, end_x: UNIT, end_y: h })
    } else if eq_lit(s, "to left") {
        Some(Direction { start_x: UNIT, start_y: h, end_x: 0, end_y: h })
    } else if eq_lit(s, "to top") {
        Some(Direction { start_x: h, start_y: UNIT, end_x: h, end_y: 0 })
    } else if eq_lit(s, "to bottom") {
        Some(Direction { start_x: h, start_y: 0, end_x: h, end_y: UNIT })
    } else if eq_lit(s, "to top right") {
        Some(Direction { start_x: 0, start_y: UNIT, end_x: UNIT, end_y: 0 })
    } else if eq_lit(s, "to top left") {
        Some(Direction { start_x: UNIT, start_y: UNIT, end_x: 0, end_y: 0 })
    } else if eq_lit(s, "to bottom right") {
        Some(Direction { start_x: 0, start_y: 0, end_x: UNIT, end_y: UNIT })
    } else if eq_lit(s, "to bottom left") {
        Some(Direction { start_x: UNIT, start_y: 0, end_x: 0, end_y: UNIT })
    } else {
        None
    }
}

/// Digits with at most one point among them, and at least one digit.
pub open spec fn is_unsigned_decimal(body: Seq<char>) -> bool {
    &&& exists|i: int| 0 <= i < body.len() && is_digit(#[trigger] body[i])
    &&& forall|i: int| 0 <= i < body.len() ==> is_digit(#[trigger] body[i]) || body[i] == '.'
    &&& forall|i: int, j: int| 0 <= i < j < body.len() && #[trigger] body[i] == '.' ==> #[trigger] body[j] != '.'
}

/// A decimal number: an optional sign, then an unsigned decimal.
pub open spec fn is_decimal(s: Seq<char>) -> bool {
    if s.len() > 0 && (s[0] == '+' || s[0] == '-') {
        is_unsigned_decimal(s.subrange(1, s.len() as int))
    } else {
        is_unsigned_decimal(s)
    }
}

/// An angle in degrees: a decimal number followed by `deg`.
pub open spec fn is_degrees(s: Seq<char>) -> bool {
    s.len() >= 3 && s.subrange(s.len() - 3, s.len() as int) == "deg"@ && is_decimal(
        s.subrange(0, s.len() - 3),
    )
}

pub open spec fn valid_direction(s: Seq<char>) -> bool {
    named_direction(s) is Some || is_degrees(s)
}

fn is_unsigned_decimal_exec(b: &Vec<char>) -> (r: bool)
    ensures
        r == is_unsigned_decimal(b@),
{
    let mut i: usize = 0;
    let mut digits = false;
    let mut point = false;
    while i < b.len()
        invariant
            i <= b@.len(),
            digits == exists|k: int| 0 <= k < i && is_digit(#[trigger] b@[k]),
            forall|k: int| 0 <= k < i ==> is_digit(#[trigger] b@[k]) || b@[k] == '.',
            !point ==> forall|k: int| 0 <= k < i ==> #[trigger] b@[k] != '.',
            point ==> exists|k: int| 0 <= k < i && #[trigger] b@[k] == '.',
            forall|k: int, l: int| 0 <= k < l < i && #[trigger] b@[k] == '.' ==> #[trigger] b@[l] != '.',
        decreases b@.len() - i,
    {
        let c = b[i];
        if '0' <= c && c <= '9' {
            digits = true;
        } else if c == '.' {
            if point {
                proof {
                    let k = choose|k: int| 0 <= k < i && #[trigger] b@[k] == '.';
                    assert(b@[k] == '.' && b@[i as int] == '.');
                }
                return false;
            }
            point = true;
        } else {
            assert(!(is_digit(b@[i as int]) || b@[i as int] == '.'));
            return false;
        }
        i = i + 1;
    }
    digits
}

/// Whether the first `end` characters of `s` form a decimal number.
fn is_decimal_exec(s: &Vec<char>, end: usize) -> (r: bool)
    requires
        end <= s@.len(),
    ensures
        r == is_decimal(s@.subrange(0, end as int)),
{
    let start: usize = if end > 0 && (s[0] == '+' || s[0] == '-') { 1 } else { 0 };
    let mut body: Vec<char> = Vec::with_capacity(end - start);
    let mut i: usize = start;
    while i < end
        invariant
            start <= i <= end,
            end <= s@.len(),
            body@ =~= s@.subrange(start as int, i as int),
        decreases end - i,
    {
        body.push(s[i]);
        i = i + 1;
    }
    let ghost t = s@.subrange(0, end as int);
    assert(start == 1 ==> body@ =~= t.subrange(1, t.len() as int));
    assert(start == 0 ==> body@ =~= t);
    is_unsigned_decimal_exec(&body)
}

/// Whether a string names a gradient direction: one of the eight named ones
/// or an angle in degrees.
pub fn is_valid_direction(direction: &str) -> (r: bool)
    ensures
        r == valid_direction(direction@),
{
    is_valid_direction_chars(&chars_of(direction))
}

fn is_valid_direction_chars(s: &Vec<char>) -> (r: bool)
    ensures
        r == valid_direction(s@),
{
    if named_direction_chars(s).is_some() {
        return true;
    }
    let n = s.len();
    if n < 3 || s[n - 3] != 'd' || s[n - 2] != 'e' || s[n - 1] != 'g' {
        proof {
            reveal_strlit("deg");
            if n >= 3 {
                assert(s@.subrange(n - 3, n as int)[0] == s@[n - 3]);
                assert(s@.subrange(n - 3, n as int)[1] == s@[n - 2]);
                assert(s@.subrange(n - 3, n as int)[2] == s@[n - 1]);
            }
        }
        return false;
    }
    proof {
        reveal_strlit("deg");
        assert(s@.subrange(n - 3, n as int) =~= "deg"@);
    }
    is_decimal_exec(s, n - 3)
}

/// A gradient with one stop per color, evenly spaced.
pub open spec fn even_gradient(colors: Seq<Rgba>, direction: Direction) -> ColorView {
    ColorView::Gradient(
        Seq::new(colors.len(), |i: int| GradientStop { position: even_position(i, colors.len() as int) as u32, color: colors[i] }),
        direction,
    )
}

/// The color a list of color strings denotes: transparent black for none, a
/// solid for one, and for more an evenly spaced gradient in `direction`.
pub open spec fn mapping_color(colors: Seq<Seq<char>>, direction: Direction, is_active: bool, accent: u32) -> ColorView {
    if colors.len() == 0 {
        ColorView::Solid(Rgba { r: 0, g: 0, b: 0, a: 0 })
    } else if colors.len() == 1 {
        ColorView::Solid(string_color(colors[0], is_active, accent))
    } else {
        even_gradient(Seq::new(colors.len(), |i: int| string_color(colors[i], is_active, accent)), direction)
    }
}

/// Builds the color of a list of color strings; see `mapping_color`.
pub fn from_mapping(colors: &Vec<String>, direction: Direction, is_active: bool, accent: u32) -> (r: Color)
    requires
        direction.wf(),
    ensures
        r@ == mapping_color(colors@.map_values(|s: String| s@), direction, is_active, accent),
        r@.wf(),
{
    let ghost views = colors@.map_values(|s: String| s@);
    let n = colors.len();
    if n == 0 {
        return Color::Solid(Rgba { r: 0, g: 0, b: 0, a: 0 });
    }
    if n == 1 {
        return Color::Solid(to_d2d1_color(colors[0].as_str(), is_active, accent));
    }
    let mut stops: Vec<GradientStop> = Vec::with_capacity(n);
    let mut i: usize = 0;
    while i < n
        invariant
            n == colors@.len(),
            views == colors@.map_values(|s: String| s@),
            i <= n,
            stops@.len() == i,
            forall|j: int| 0 <= j < i ==> #[trigger] stops@[j] == (GradientStop {
                position: even_position(j, n as int) as u32,
                color: string_color(views[j], is_active, accent),
            }),
            forall|j: int| 0 <= j < i ==> #[trigger] stops@[j].color.wf(),
        decreases n - i,
    {
        let color = to_d2d1_color(colors[i].as_str(), is_active, accent);
        let position = even_position_exec(i, n);
        stops.push(GradientStop { position, color });
        i = i + 1;
    }
    proof {
        let cs = Seq::new(n as nat, |j: int| string_color(views[j], is_active, accent));
        let want = Seq::new(n as nat, |j: int| GradientStop { position: even_position(j, n as int) as u32, color: cs[j] });
        assert(stops@ =~= want);
        assert forall|j: int| 0 <= j < stops@.len() implies #[trigger] stops@[j].position <= UNIT
            && stops@[j].color.wf() by {
            lemma_even_position_bounds(j, n as int);
        }
        assert forall|j: int, k: int| 0 <= j <= k < stops@.len() implies #[trigger] stops@[j].position
            <= #[trigger] stops@[k].position by {
            lemma_even_position_bounds(j, n as int);
            lemma_even_position_bounds(k, n as int);
            lemma_even_position_monotone(j, k, n as int);
        }
        assert(stops_wf(stops@));
    }
    Color::Gradient(Gradient { stops, direction })
}

/// What a color string may hold: hex colors, `rgb()` and `rgba()`, the
/// accent, and transparent.
pub const COLOR_PATTERN: &'static str = "(?i)#[0-9A-F]{3,8}|rgba?\\([0-9]{1,3},\\s*[0-9]{1,3},\\s*[0-9]{1,3}(?:,\\s*[0-9]*(?:\\.[0-9]+)?)?\\)|accent|transparent";

/// `s` with every enclosing `gradient(...)` taken off.
pub open spec fn strip_gradient(s: Seq<char>) -> Seq<char>
    decreases s.len(),
{
    if s.len() >= 10 && starts_with(s, "gradient("@) && s.last() == ')' {
        strip_gradient(s.subrange(9, s.len() - 1))
    } else {
        s
    }
}

/// The last index below `i` at which `m` occurs in `s`.
pub open spec fn last_occurrence(s: Seq<char>, m: Seq<char>, i: int) -> Option<int>
    decreases i,
{
    if i <= 0 {
        None
    } else if occurs_at(s, m, i - 1) {
        Some(i - 1)
    } else {
        last_occurrence(s, m, i - 1)
    }
}

/// What follows the last occurrence of `m` in `s`, or nothing when `m` does
/// not occur.
pub open spec fn after_last(s: Seq<char>, m: Seq<char>) -> Seq<char> {
    match last_occurrence(s, m, s.len() as int + 1) {
        Some(i) => s.subrange(i + m.len(), s.len() as int),
        None => Seq::<char>::empty(),
    }
}

/// The first of `parts`, from `i` on and trimmed, that names a direction.
pub open spec fn first_direction(parts: Seq<Seq<char>>, i: int) -> Option<Seq<char>>
    decreases parts.len() - i,
{
    if i < 0 || i >= parts.len() {
        None
    } else if valid_direction(trim(parts[i])) {
        Some(trim(parts[i]))
    } else {
        first_direction(parts, i + 1)
    }
}

/// The direction used when a gradient names none: bottom to top.
pub open spec fn default_direction() -> Direction {
    Direction { start_x: (UNIT / 2) as u32, start_y: UNIT, end_x: (UNIT / 2) as u32, end_y: 0 }
}

/// A color read from a string. When `angle` is set, the gradient runs at
/// that angle, in ten-thousandths of a degree, and its direction is to be
/// worked out from it; the color then holds the default direction.
pub struct ParsedColor {
    pub color: Color,
    pub angle: Option<i32>,
}

/// The direction text of a gradient string and what it gives: named
/// coordinates, or an angle, or neither.
pub open spec fn direction_of_text(d: Option<Seq<char>>) -> (Direction, Option<int>) {
    match d {
        Some(t) => match named_direction(t) {
            Some(c) => (c, None),
            None => (default_direction(), decimal_value(t.subrange(0, t.len() - 3))),
        },
        None => (default_direction(), None),
    }
}

/// The color of a color string `body` whose color matches are `matches`: a
/// solid for one match, and for more an evenly spaced gradient whose
/// direction is the first comma-separated part after the last match that
/// names one. Without matches it is transparent black.
pub open spec fn matched_color(body: Seq<char>, matches: Seq<Seq<char>>, is_active: bool, accent: u32) -> (ColorView, Option<int>) {
    if matches.len() == 0 {
        (ColorView::Solid(Rgba { r: 0, g: 0, b: 0, a: 0 }), None)
    } else if matches.len() == 1 {
        (ColorView::Solid(string_color(matches[0], is_active, accent)), None)
    } else {
        let parts = split_commas(after_last(body, matches.last()));
        let (d, angle) = direction_of_text(first_direction(parts, 0));
        (even_gradient(Seq::new(matches.len(), |i: int| string_color(matches[i], is_active, accent)), d), angle)
    }
}

/// The index just past the last occurrence of `m` in `s`, if any.
fn after_last_exec(s: &Vec<char>, m: &Vec<char>) -> (r: usize)
    ensures
        r <= s@.len(),
        s@.subrange(r as int, s@.len() as int) == after_last(s@, m@),
{
    let n = s.len();
    let k = m.len();
    let mut i: usize = 0;
    if k > n {
        proof {
            assert forall|j: int| 0 <= j <= n + 1 implies last_occurrence(s@, m@, j) is None by {
                lemma_no_occurrence_below(s@, m@, j);
            }
        }
        assert(s@.subrange(n as int, n as int) =~= Seq::<char>::empty());
        return n;
    }
    if k == 0 {
        assert(m@.len() == 0 && s@.subrange(n as int, n as int) =~= m@);
        assert(occurs_at(s@, m@, n as int));
        assert(s@.subrange(n as int, n as int) =~= Seq::<char>::empty());
        return n;
    }
    i = n - k + 1;
    proof {
        lemma_last_occurrence_skip_tail(s@, m@, n - k + 1, n + 1);
    }
    while i > 0
        invariant
            i <= n - k + 1,
            k <= n,
            n == s@.len(),
            k == m@.len(),
            last_occurrence(s@, m@, n + 1) == last_occurrence(s@, m@, i as int),
        decreases i,
    {
        let start = i - 1;
        let mut j: usize = 0;
        let mut same = true;
        while j < k
            invariant
                start + k <= n,
                n == s@.len(),
                k == m@.len(),
                j <= k,
                same == (forall|t: int| 0 <= t < j ==> s@[start + t] == m@[t]),
            decreases k - j,
        {
            if s[start + j] != m[j] {
                same = false;
            }
            j = j + 1;
        }
        if same {
            assert(s@.subrange(start as int, start + k) =~= m@);
            assert(occurs_at(s@, m@, start as int));
            return start + k;
        }
        proof {
            let t0 = choose|t: int| 0 <= t < k && s@[start + t] != m@[t];
            assert(s@.subrange(start as int, start + k)[t0] != m@[t0]);
        }
        i = i - 1;
    }
    assert(s@.subrange(n as int, n as int) =~= Seq::<char>::empty());
    n
}

proof fn lemma_no_occurrence_below(s: Seq<char>, m: Seq<char>, j: int)
    requires
        m.len() > s.len(),
    ensures
        last_occurrence(s, m, j) is None,
    decreases j,
{
    if j > 0 {
        lemma_no_occurrence_below(s, m, j - 1);
    }
}

proof fn lemma_last_occurrence_skip_tail(s: Seq<char>, m: Seq<char>, lo: int, hi: int)
    requires
        0 <= lo <= hi,
        lo == s.len() - m.len() + 1,
    ensures
        last_occurrence(s, m, hi) == last_occurrence(s, m, lo),
    decreases hi - lo,
{
    if hi > lo {
        lemma_last_occurrence_skip_tail(s, m, lo, hi - 1);
    }
}

proof fn lemma_first_direction_valid(parts: Seq<Seq<char>>, i: int)
    ensures
        first_direction(parts, i) matches Some(t) ==> valid_direction(t),
    decreases parts.len() - i,
{
    if 0 <= i < parts.len() && !valid_direction(trim(parts[i])) {
        lemma_first_direction_valid(parts, i + 1);
    }
}

/// The first part, trimmed, that names a direction.
fn first_direction_exec(parts: &Vec<Vec<char>>) -> (r: Option<Vec<char>>)
    ensures
        r matches Some(t) ==> first_direction(parts@.map_values(|p: Vec<char>| p@), 0) == Some(t@),
        r is None ==> first_direction(parts@.map_values(|p: Vec<char>| p@), 0) is None,
{
    let ghost views = parts@.map_values(|p: Vec<char>| p@);
    let mut i: usize = 0;
    while i < parts.len()
        invariant
            i <= parts@.len(),
            views == parts@.map_values(|p: Vec<char>| p@),
            first_direction(views, 0) == first_direction(views, i as int),
        decreases parts@.len() - i,
    {
        let t = trim_exec(&parts[i]);
        if is_valid_direction_chars(&t) {
            return Some(t);
        }
        i = i + 1;
    }
    None
}

/// Reads the color of a color string whose color matches are given; see
/// `matched_color`.
pub fn color_from_matches(body: &str, matches: &Vec<String>, is_active: bool, accent: u32) -> (r: ParsedColor)
    ensures
        ({
            let (c, angle) = matched_color(body@, matches@.map_values(|m: String| m@), is_active, accent);
            &&& r.color@ == c
            &&& r.angle == match angle {
                Some(a) => Some(a as i32),
                None => None::<i32>,
            }
        }),
        r.color@.wf(),
{
    let ghost ms = matches@.map_values(|m: String| m@);
    let n = matches.len();
    if n == 0 {
        return ParsedColor { color: Color::Solid(Rgba { r: 0, g: 0, b: 0, a: 0 }), angle: None };
    }
    if n == 1 {
        return ParsedColor { color: Color::Solid(to_d2d1_color(matches[0].as_str(), is_active, accent)), angle: None };
    }
    let s = chars_of(body);
    let last = chars_of(matches[n - 1].as_str());
    let from = after_last_exec(&s, &last);
    let parts = split_commas_exec(&s, from, s.len());
    let ghost part_views = parts@.map_values(|p: Vec<char>| p@);
    assert(part_views =~= split_commas(after_last(body@, ms.last())));
    let found = first_direction_exec(&parts);
    proof {
        lemma_first_direction_valid(part_views, 0);
    }
    let (direction, angle) = match found {
        Some(t) => match named_direction_chars(&t) {
            Some(c) => (c, None),
            None => {
                let mut digits: Vec<char> = Vec::new();
                let mut j: usize = 0;
                let end = if t.len() >= 3 { t.len() - 3 } else { 0 };
                while j < end
                    invariant
                        j <= end,
                        end <= t@.len(),
                        digits@ =~= t@.subrange(0, j as int),
                    decreases end - j,
                {
                    digits.push(t[j]);
                    j = j + 1;
                }
                assert(t@.len() >= 3);
                (Direction { start_x: UNIT / 2, start_y: UNIT, end_x: UNIT / 2, end_y: 0 }, decimal_value_exec(&digits))
            },
        },
        None => (Direction { start_x: UNIT / 2, start_y: UNIT, end_x: UNIT / 2, end_y: 0 }, None),
    };
    let mut stops: Vec<GradientStop> = Vec::with_capacity(n);
    let mut i: usize = 0;
    while i < n
        invariant
            n == matches@.len(),
            ms == matches@.map_values(|m: String| m@),
            i <= n,
            stops@.len() == i,
            forall|j: int| 0 <= j < i ==> #[trigger] stops@[j] == (GradientStop {
                position: even_position(j, n as int) as u32,
                color: string_color(ms[j], is_active, accent),
            }),
            forall|j: int| 0 <= j < i ==> #[trigger] stops@[j].color.wf(),
        decreases n - i,
    {
        let color = to_d2d1_color(matches[i].as_str(), is_active, accent);
        let position = even_position_exec(i, n);
        stops.push(GradientStop { position, color });
        i = i + 1;
    }
    proof {
        let cs = Seq::new(n as nat, |j: int| string_color(ms[j], is_active, accent));
        let want = Seq::new(n as nat, |j: int| GradientStop { position: even_position(j, n as int) as u32, color: cs[j] });
        assert(stops@ =~= want);
        assert forall|j: int| 0 <= j < stops@.len() implies #[trigger] stops@[j].position <= UNIT
            && stops@[j].color.wf() by {
            lemma_even_position_bounds(j, n as int);
        }
        assert forall|j: int, k: int| 0 <= j <= k < stops@.len() implies #[trigger] stops@[j].position
            <= #[trigger] stops@[k].position by {
            lemma_even_position_bounds(j, n as int);
            lemma_even_position_bounds(k, n as int);
            lemma_even_position_monotone(j, k, n as int);
        }
    }
    ParsedColor { color: Color::Gradient(Gradient { stops, direction }), angle }
}

/// Reads a color string, inside any number of `gradient(...)`: its colors
/// are what `COLOR_PATTERN` finds in it; see `color_from_matches`.
pub fn from_string(color: &str, is_active: bool, accent: u32) -> (r: ParsedColor)
    ensures
        r.color@.wf(),
        regex_match_texts(COLOR_PATTERN@, strip_gradient(color@)) is None ==> r.color@ == ColorView::Solid(
            Rgba { r: 0, g: 0, b: 0, a: 0 },
        ) && r.angle is None,
        regex_match_texts(COLOR_PATTERN@, strip_gradient(color@)) matches Some(m) ==> ({
            let (c, angle) = matched_color(strip_gradient(color@), m, is_active, accent);
            &&& r.color@ == c
            &&& r.angle == match angle {
                Some(a) => Some(a as i32),
                None => None::<i32>,
            }
        }),
{
    let s = chars_of(color);
    let mut lo: usize = 0;
    let mut hi: usize = s.len();
    assert(s@.subrange(0, s@.len() as int) =~= s@);
    while hi - lo >= 10 && starts_with_at(&s, lo, hi) && s[hi - 1] == ')'
        invariant
            lo <= hi <= s@.len(),
            strip_gradient(s@) == strip_gradient(s@.subrange(lo as int, hi as int)),
        decreases hi - lo,
    {
        proof {
            assert(s@.subrange(lo as int, hi as int).subrange(9, hi - lo - 1) =~= s@.subrange(lo + 9, hi - 1));
        }
        lo = lo + 9;
        hi = hi - 1;
    }
    let body = color.substring_char(lo, hi);
    match regex_find_all(COLOR_PATTERN, body) {
        Some(matches) => {
            proof {
                let m = regex_match_texts(COLOR_PATTERN@, body@)->0;
                assert(matches@.map_values(|x: String| x@) =~= m);
            }
            color_from_matches(body, &matches, is_active, accent)
        },
        None => ParsedColor { color: Color::Solid(Rgba { r: 0, g: 0, b: 0, a: 0 }), angle: None },
    }
}

/// Whether `s[lo..hi]` starts with `gradient(`.
fn starts_with_at(s: &Vec<char>, lo: usize, hi: usize) -> (r: bool)
    requires
        lo <= hi <= s@.len(),
    ensures
        r == starts_with(s@.subrange(lo as int, hi as int), "gradient("@),
{
    let mut part: Vec<char> = Vec::with_capacity(hi - lo);
    let mut i: usize = lo;
    while i < hi
        invariant
            lo <= i <= hi <= s@.len(),
            part@ =~= s@.subrange(lo as int, i as int),
        decreases hi - i,
    {
        part.push(s[i]);
        i = i + 1;
    }
    starts_with_exec(&part, "gradient(")
}

/// Which windows a color rule is for.
#[derive(Clone, Copy, Debug, PartialEq, Eq, Structural)]
pub enum RuleKind {
    Global,
    Title,
    Class,
}

/// A rule that gives colors to windows: every window for a global rule, else
/// those whose title or class contains `contains`, ignoring case. A color
/// left out is the system accent.
pub struct ColorRule {
    pub kind: RuleKind,
    pub contains: Option<String>,
    pub active_color: Option<String>,
    pub inactive_color: Option<String>,
}

/// Whether a title or class rule picks out the window.
pub open spec fn rule_hits(rule: ColorRule, title: Seq<char>, class: Seq<char>) -> bool {
    match (rule.kind, rule.contains) {
        (RuleKind::Title, Some(c)) => contains_seq(lower_of(title), lower_of(c@)),
        (RuleKind::Class, Some(c)) => contains_seq(lower_of(class), lower_of(c@)),
        _ => false,
    }
}

/// The rule whose colors a window gets, scanning from `i` with `acc` the last
/// global rule seen: the first title or class rule that picks the window
/// out, else the last global rule.
pub open spec fn chosen_rule(rules: Seq<ColorRule>, title: Seq<char>, class: Seq<char>, i: int, acc: Option<int>) -> Option<int>
    decreases rules.len() - i,
{
    if i < 0 || i >= rules.len() {
        acc
    } else if rule_hits(rules[i], title, class) {
        Some(i)
    } else if rules[i].kind == RuleKind::Global {
        chosen_rule(rules, title, class, i + 1, Some(i))
    } else {
        chosen_rule(rules, title, class, i + 1, acc)
    }
}

pub open spec fn color_or_accent(c: Option<String>) -> Seq<char> {
    match c {
        Some(s) => s@,
        None => "accent"@,
    }
}

pub open spec fn white() -> Rgba {
    Rgba { r: UNIT, g: UNIT, b: UNIT, a: UNIT }
}

/// The active and inactive colors of a window with this title and class:
/// those of the chosen rule, or white when no rule applies.
pub open spec fn window_colors(rules: Seq<ColorRule>, title: Seq<char>, class: Seq<char>, accent: u32) -> (Rgba, Rgba) {
    match chosen_rule(rules, title, class, 0, None) {
        Some(j) => (
            string_color(color_or_accent(rules[j].active_color), true, accent),
            string_color(color_or_accent(rules[j].inactive_color), false, accent),
        ),
        None => (white(), white()),
    }
}

fn rule_hits_exec(rule: &ColorRule, title: &Vec<char>, class: &Vec<char>, title_str: &str, class_str: &str) -> (r: bool)
    requires
        title@ == lower_of(title_str@),
        class@ == lower_of(class_str@),
    ensures
        r == rule_hits(*rule, title_str@, class_str@),
{
    match (&rule.kind, &rule.contains) {
        (RuleKind::Title, Some(c)) => contains_chars(title, &chars_of(lowercase(c.as_str()).as_str())),
        (RuleKind::Class, Some(c)) => contains_chars(class, &chars_of(lowercase(c.as_str()).as_str())),
        _ => false,
    }
}

fn color_or_accent_exec(c: &Option<String>, is_active: bool, accent: u32) -> (r: Rgba)
    ensures
        r == string_color(color_or_accent(*c), is_active, accent),
        r.wf(),
{
    match c {
        Some(s) => to_d2d1_color(s.as_str(), is_active, accent),
        None => to_d2d1_color("accent", is_active, accent),
    }
}

/// The colors a window gets from the rules; see `window_colors`.
pub fn get_colors_for_window(rules: &Vec<ColorRule>, title: &str, class: &str, accent: u32) -> (r: (Rgba, Rgba))
    ensures
        r == window_colors(rules@, title@, class@, accent),
        r.0.wf(),
        r.1.wf(),
{
    let lower_title = chars_of(lowercase(title).as_str());
    let lower_class = chars_of(lowercase(class).as_str());
    let mut chosen: Option<usize> = None;
    let mut i: usize = 0;
    while i < rules.len()
        invariant
            i <= rules@.len(),
            lower_title@ == lower_of(title@),
            lower_class@ == lower_of(class@),
            chosen matches Some(j) ==> j < i,
            chosen_rule(rules@, title@, class@, 0, None) == chosen_rule(
                rules@,
                title@,
                class@,
                i as int,
                match chosen {
                    Some(j) => Some(j as int),
                    None => None,
                },
            ),
        decreases rules@.len() - i,
    {
        if rule_hits_exec(&rules[i], &lower_title, &lower_class, title, class) {
            return (
                color_or_accent_exec(&rules[i].active_color, true, accent),
                color_or_accent_exec(&rules[i].inactive_color, false, accent),
            );
        }
        if rules[i].kind == RuleKind::Global {
            chosen = Some(i);
        }
        i = i + 1;
    }
    match chosen {
        Some(j) => (
            color_or_accent_exec(&rules[j].active_color, true, accent),
            color_or_accent_exec(&rules[j].inactive_color, false, accent),
        ),
        None => (Rgba { r: UNIT, g: UNIT, b: UNIT, a: UNIT }, Rgba { r: UNIT, g: UNIT, b: UNIT, a: UNIT }),
    }
}

} // verus!
