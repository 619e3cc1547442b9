//! Easing curves: named curves and their cubic Bézier control points.
//!
//! Control points are in ten-thousandths: `EASING_UNIT` stands for 1.0.
use vstd::prelude::*;
use crate::text::{
    chars_of, decimal_value, decimal_value_exec, split_commas, split_commas_exec, starts_with,
    starts_with_exec, str_eq, trim, trim_exec,
};

verus! {

pub const EASING_UNIT: i32 = 10_000;

#[derive(Clone, Copy, Debug, PartialEq, Eq, Hash)]
pub enum AnimationEasing {
    Linear,
    EaseIn,
    EaseInSine,
    EaseInQuad,
    EaseInCubic,
    EaseInQuart,
    EaseInQuint,
    EaseInExpo,
    EaseInCirc,
    EaseInBack,
    EaseOut,
    EaseOutSine,
    EaseOutQuad,
    EaseOutCubic,
    EaseOutQuart,
    EaseOutQuint,
    EaseOutExpo,
    EaseOutCirc,
    EaseOutBack,
    EaseInOut,
    EaseInOutSine,
    EaseInOutQuad,
    EaseInOutCubic,
    EaseInOutQuart,
    EaseInOutQuint,
    EaseInOutExpo,
    EaseInOutCirc,
    EaseInOutBack,
    /// Explicit control points `x1, y1, x2, y2`.
    CubicBezier([i32; 4]),
}

#[derive(Clone, Copy, Debug, PartialEq, Eq, Structural)]
pub enum EasingParseError {
    UnknownName,
    InvalidCubicBezier,
}

/// The control points `x1, y1, x2, y2` of a curve from (0, 0) to (1, 1).
pub open spec fn easing_points(e: AnimationEasing) -> Seq<i32> {
    match e {
        AnimationEasing::Linear => seq![0i32, 0i32, 10000i32, 10000i32],
        AnimationEasing::EaseIn => seq![4200i32, 0i32, 10000i32, 10000i32],
        AnimationEasing::EaseInSine => seq![1200i32, 0i32, 3900i32, 0i32],
        AnimationEasing::EaseInQuad => seq![1100i32, 0i32, 5000i32, 0i32],
        AnimationEasing::EaseInCubic => seq![3200i32, 0i32, 6700i32, 0i32],
        AnimationEasing::EaseInQuart => seq![5000i32, 0i32, 7500i32, 0i32],
        AnimationEasing::EaseInQuint => seq![6400i32, 0i32, 7800i32, 0i32],
        AnimationEasing::EaseInExpo => seq![7000i32, 0i32, 8400i32, 0i32],
        AnimationEasing::EaseInCirc => seq![5500i32, 0i32, 10000i32, 4500i32],
        AnimationEasing::EaseInBack => seq![3600i32, 0i32, 6600i32, -5600i32],
        AnimationEasing::EaseOut => seq![0i32, 0i32, 5800i32, 10000i32],
        AnimationEasing::EaseOutSine => seq![6100i32, 10000i32, 8800i32, 10000i32],
        AnimationEasing::EaseOutQuad => seq![5000i32, 10000i32, 8900i32, 10000i32],
        AnimationEasing::EaseOutCubic => seq![3300i32, 10000i32, 6800i32, 10000i32],
        AnimationEasing::EaseOutQuart => seq![2500i32, 10000i32, 5000i32, 10000i32],
        AnimationEasing::EaseOutQuint => seq![2200i32, 10000i32, 3600i32, 10000i32],
        AnimationEasing::EaseOutExpo => seq![1600i32, 10000i32, 3000i32, 10000i32],
        AnimationEasing::EaseOutCirc => seq![0i32, 5500i32, 4500i32, 10000i32],
        AnimationEasing::EaseOutBack => seq![3400i32, 15600i32, 6400i32, 10000i32],
        AnimationEasing::EaseInOut => seq![4200i32, 0i32, 5800i32, 10000i32],
        AnimationEasing::EaseInOutSine => seq![3700i32, 0i32, 6300i32, 10000i32],
        AnimationEasing::EaseInOutQuad => seq![4500i32, 0i32, 5500i32, 10000i32],
        AnimationEasing::EaseInOutCubic => seq![6500i32, 0i32, 3500i32, 10000i32],
        AnimationEasing::EaseInOutQuart => seq![7600i32, 0i32, 2400i32, 10000i32],
        AnimationEasing::EaseInOutQuint => seq![8300i32, 0i32, 1700i32, 10000i32],
        AnimationEasing::EaseInOutExpo => seq![8700i32, 0i32, 1300i32, 10000i32],
        AnimationEasing::EaseInOutCirc => seq![8500i32, 0i32, 1500i32, 10000i32],
        AnimationEasing::EaseInOutBack => seq![6800i32, -6000i32, 3200i32, 16000i32],
        AnimationEasing::CubicBezier(p) => p@,
    }
}

/// The named curve that a token denotes, in kebab case (`ease-in-out-back`)
/// or by its variant name (`EaseInOutBack`).
pub open spec fn easing_named(s: Seq<char>) -> Option<AnimationEasing> {
    if false {
        None
    } else if s == "linear"@ || s == "Linear"@ {
        Some(AnimationEasing::Linear)
    } else if s == "ease-in"@ || s == "EaseIn"@ {
        Some(AnimationEasing::EaseIn)
    } else if s == "ease-in-sine"@ || s == "EaseInSine"@ {
        Some(AnimationEasing::EaseInSine)
    } else if s == "ease-in-quad"@ || s == "EaseInQuad"@ {
        Some(AnimationEasing::EaseInQuad)
    } else if s == "ease-in-cubic"@ || s == "EaseInCubic"@ {
        Some(AnimationEasing::EaseInCubic)
    } else if s == "ease-in-quart"@ || s == "EaseInQuart"@ {
        Some(AnimationEasing::EaseInQuart)
    } else if s == "ease-in-quint"@ || s == "EaseInQuint"@ {
        Some(AnimationEasing::EaseInQuint)
    } else if s == "ease-in-expo"@ || s == "EaseInExpo"@ {
        Some(AnimationEasing::EaseInExpo)
    } else if s == "ease-in-circ"@ || s == "EaseInCirc"@ {
        Some(AnimationEasing::EaseInCirc)
    } else if s == "ease-in-back"@ || s == "EaseInBack"@ {
        Some(AnimationEasing::EaseInBack)
    } else if s == "ease-out"@ || s == "EaseOut"@ {
        Some(AnimationEasing::EaseOut)
    } else if s == "ease-out-sine"@ || s == "EaseOutSine"@ {
        Some(AnimationEasing::EaseOutSine)
    } else if s == "ease-out-quad"@ || s == "EaseOutQuad"@ {
        Some(AnimationEasing::EaseOutQuad)
    } else if s == "ease-out-cubic"@ || s == "EaseOutCubic"@ {
        Some(AnimationEasing::EaseOutCubic)
    } else if s == "ease-out-quart"@ || s == "EaseOutQuart"@ {
        Some(AnimationEasing::EaseOutQuart)
    } else if s == "ease-out-quint"@ || s == "EaseOutQuint"@ {
        Some(AnimationEasing::EaseOutQuint)
    } else if s == "ease-out-expo"@ || s == "EaseOutExpo"@ {
        Some(AnimationEasing::EaseOutExpo)
    } else if s == "ease-out-circ"@ || s == "EaseOutCirc"@ {
        Some(AnimationEasing::EaseOutCirc)
    } else if s == "ease-out-back"@ || s == "EaseOutBack"@ {
        Some(AnimationEasing::EaseOutBack)
    } else if s == "ease-in-out"@ || s == "EaseInOut"@ {
        Some(AnimationEasing::EaseInOut)
    } else if s == "ease-in-out-sine"@ || s == "EaseInOutSine"@ {
        Some(AnimationEasing::EaseInOutSine)
    } else if s == "ease-in-out-quad"@ || s == "EaseInOutQuad"@ {
        Some(AnimationEasing::EaseInOutQuad)
    } else if s == "ease-in-out-cubic"@ || s == "EaseInOutCubic"@ {
        Some(AnimationEasing::EaseInOutCubic)
    } else if s == "ease-in-out-quart"@ || s == "EaseInOutQuart"@ {
        Some(AnimationEasing::EaseInOutQuart)
    } else if s == "ease-in-out-quint"@ || s == "EaseInOutQuint"@ {
        Some(AnimationEasing::EaseInOutQuint)
    } else if s == "ease-in-out-expo"@ || s == "EaseInOutExpo"@ {
        Some(AnimationEasing::EaseInOutExpo)
    } else if s == "ease-in-out-circ"@ || s == "EaseInOutCirc"@ {
        Some(AnimationEasing::EaseInOutCirc)
    } else if s == "ease-in-out-back"@ || s == "EaseInOutBack"@ {
        Some(AnimationEasing::EaseInOutBack)
    } else {
        None
    }
}

/// The named curve that `s` denotes, if any.
pub fn named_easing(s: &str) -> (r: Option<AnimationEasing>)
    ensures
        r == easing_named(s@),
{
    if str_eq(s, "linear") || str_eq(s, "Linear") {
        return Some(AnimationEasing::Linear);
    }
    if str_eq(s, "ease-in") || str_eq(s, "EaseIn") {
        return Some(AnimationEasing::EaseIn);
    }
    if str_eq(s, "ease-in-sine") || str_eq(s, "EaseInSine") {
        return Some(AnimationEasing::EaseInSine);
    }
    if str_eq(s, "ease-in-quad") || str_eq(s, "EaseInQuad") {
        return Some(AnimationEasing::EaseInQuad);
    }
    if str_eq(s, "ease-in-cubic") || str_eq(s, "EaseInCubic") {
        return Some(AnimationEasing::EaseInCubic);
    }
    if str_eq(s, "ease-in-quart") || str_eq(s, "EaseInQuart") {
        return Some(AnimationEasing::EaseInQuart);
    }
    if str_eq(s, "ease-in-quint") || str_eq(s, "EaseInQuint") {
        return Some(AnimationEasing::EaseInQuint);
    }
    if str_eq(s, "ease-in-expo") || str_eq(s, "EaseInExpo") {
        return Some(AnimationEasing::EaseInExpo);
    }
    if str_eq(s, "ease-in-circ") || str_eq(s, "EaseInCirc") {
        return Some(AnimationEasing::EaseInCirc);
    }
    if str_eq(s, "ease-in-back") || str_eq(s, "EaseInBack") {
        return Some(AnimationEasing::EaseInBack);
    }
    if str_eq(s, "ease-out") || str_eq(s, "EaseOut") {
        return Some(AnimationEasing::EaseOut);
    }
    if str_eq(s, "ease-out-sine") || str_eq(s, "EaseOutSine") {
        return Some(AnimationEasing::EaseOutSine);
    }
    if str_eq(s, "ease-out-quad") || str_eq(s, "EaseOutQuad") {
        return Some(AnimationEasing::EaseOutQuad);
    }
    if str_eq(s, "ease-out-cubic") || str_eq(s, "EaseOutCubic") {
        return Some(AnimationEasing::EaseOutCubic);
    }
    if str_eq(s, "ease-out-quart") || str_eq(s, "EaseOutQuart") {
        return Some(AnimationEasing::EaseOutQuart);
    }
    if str_eq(s, "ease-out-quint") || str_eq(s, "EaseOutQuint") {
        return Some(AnimationEasing::EaseOutQuint);
    }
    if str_eq(s, "ease-out-expo") || str_eq(s, "EaseOutExpo") {
        return Some(AnimationEasing::EaseOutExpo);
    }
    if str_eq(s, "ease-out-circ") || str_eq(s, "EaseOutCirc") {
        return Some(AnimationEasing::EaseOutCirc);
    }
    if str_eq(s, "ease-out-back") || str_eq(s, "EaseOutBack") {
        return Some(AnimationEasing::EaseOutBack);
    }
    if str_eq(s, "ease-in-out") || str_eq(s, "EaseInOut") {
        return Some(AnimationEasing::EaseInOut);
    }
    if str_eq(s, "ease-in-out-sine") || str_eq(s, "EaseInOutSine") {
        return Some(AnimationEasing::EaseInOutSine);
    }
    if str_eq(s, "ease-in-out-quad") || str_eq(s, "EaseInOutQuad") {
        return Some(AnimationEasing::EaseInOutQuad);
    }
    if str_eq(s, "ease-in-out-cubic") || str_eq(s, "EaseInOutCubic") {
        return Some(AnimationEasing::EaseInOutCubic);
    }
    if str_eq(s, "ease-in-out-quart") || str_eq(s, "EaseInOutQuart") {
        return Some(AnimationEasing::EaseInOutQuart);
    }
    if str_eq(s, "ease-in-out-quint") || str_eq(s, "EaseInOutQuint") {
        return Some(AnimationEasing::EaseInOutQuint);
    }
    if str_eq(s, "ease-in-out-expo") || str_eq(s, "EaseInOutExpo") {
        return Some(AnimationEasing::EaseInOutExpo);
    }
    if str_eq(s, "ease-in-out-circ") || str_eq(s, "EaseInOutCirc") {
        return Some(AnimationEasing::EaseInOutCirc);
    }
    if str_eq(s, "ease-in-out-back") || str_eq(s, "EaseInOutBack") {
        return Some(AnimationEasing::EaseInOutBack);
    }
    None
}



/// The control points of `cubic-bezier(x1, y1, x2, y2)`, in ten-thousandths.
pub open spec fn cubic_bezier_value(s: Seq<char>) -> Option<Seq<int>> {
    if starts_with(s, "cubic-bezier("@) && s.len() >= 14 && s.last() == ')' {
        let fields = split_commas(s.subrange(13, s.len() - 1));
        if fields.len() == 4 && forall|i: int| 0 <= i < 4 ==> #[trigger] decimal_value(trim(fields[i])) is Some {
            Some(Seq::new(4, |i: int| decimal_value(trim(fields[i]))->0))
        } else {
            None
        }
    } else {
        None
    }
}

/// What `from_str` gives for a string: a named curve, explicit control
/// points, or the reason it gives none.
pub open spec fn parsed_easing(s: Seq<char>) -> Result<AnimationEasing, EasingParseError> {
    match easing_named(s) {
        Some(e) => Ok(e),
        None => if starts_with(s, "cubic-bezier"@) {
            match cubic_bezier_value(s) {
                Some(p) => Ok(AnimationEasing::CubicBezier([p[0] as i32, p[1] as i32, p[2] as i32, p[3] as i32])),
                None => Err(EasingParseError::InvalidCubicBezier),
            }
        } else {
            Err(EasingParseError::UnknownName)
        },
    }
}

/// Reads `cubic-bezier(x1, y1, x2, y2)`; see `cubic_bezier_value`.
pub fn parse_cubic_bezier(input: &str) -> (r: Option<[i32; 4]>)
    ensures
        r matches Some(p) ==> cubic_bezier_value(input@) matches Some(q) && p@ == q.map_values(|v: int| v as i32)
            && forall|i: int| 0 <= i < 4 ==> #[trigger] q[i] == p@[i] as int,
        r is None ==> cubic_bezier_value(input@) is None,
{
    let s = chars_of(input);
    let n = s.len();
    if !starts_with_exec(&s, "cubic-bezier(") || n < 14 || s[n - 1] != ')' {
        return None;
    }
    proof {
        reveal_strlit("cubic-bezier(");
    }
    let fields = split_commas_exec(&s, 13, n - 1);
    let ghost spec_fields = split_commas(s@.subrange(13, n - 1));
    if fields.len() != 4 {
        return None;
    }
    let mut out: [i32; 4] = [0, 0, 0, 0];
    let mut i: usize = 0;
    while i < 4
        invariant
            fields@.len() == 4,
            n == s@.len(),
            n >= 14,
            s@ == input@,
            spec_fields.len() == 4,
            spec_fields == split_commas(s@.subrange(13, n - 1)),
            forall|j: int| 0 <= j < 4 ==> #[trigger] fields@[j]@ == spec_fields[j],
            i <= 4,
            forall|j: int| 0 <= j < i ==> #[trigger] decimal_value(trim(spec_fields[j])) == Some(out@[j] as int),
        decreases 4 - i,
    {
        let t = trim_exec(&fields[i]);
        match decimal_value_exec(&t) {
            Some(v) => {
                out.set(i, v);
            },
            None => {
                assert(decimal_value(trim(spec_fields[i as int])) is None);
                assert(!(forall|j: int| 0 <= j < 4 ==> #[trigger] decimal_value(trim(spec_fields[j])) is Some));
                assert(s@.len() - 1 == n - 1);
                return None;
            },
        }
        i = i + 1;
    }
    proof {
        let q = Seq::new(4, |j: int| decimal_value(trim(spec_fields[j]))->0);
        assert forall|j: int| 0 <= j < 4 implies #[trigger] decimal_value(trim(spec_fields[j])) is Some by {}
        assert(out@ =~= q.map_values(|v: int| v as i32));
    }
    Some(out)
}

impl AnimationEasing {
    /// Reads an easing: a named curve in kebab case or by variant name, or
    /// `cubic-bezier(x1, y1, x2, y2)` with decimal control points.
    pub fn from_str(input: &str) -> (r: Result<AnimationEasing, EasingParseError>)
        ensures
            r == parsed_easing(input@),
    {
        if let Some(e) = named_easing(input) {
            return Ok(e);
        }
        let s = chars_of(input);
        if !starts_with_exec(&s, "cubic-bezier") {
            return Err(EasingParseError::UnknownName);
        }
        match parse_cubic_bezier(input) {
            Some(p) => {
                proof {
                    let q = cubic_bezier_value(input@)->0;
                    assert(p[0] == p@[0] && p[1] == p@[1] && p[2] == p@[2] && p[3] == p@[3]);
                    assert(p =~= [q[0] as i32, q[1] as i32, q[2] as i32, q[3] as i32]);
                }
                Ok(AnimationEasing::CubicBezier(p))
            },
            None => Err(EasingParseError::InvalidCubicBezier),
        }
    }

    /// The control points of the curve.
    pub fn to_points(&self) -> (r: [i32; 4])
        ensures
            r@ == easing_points(*self),
    {
        let r = match self {
            AnimationEasing::Linear => [0, 0, 10000, 10000],
            AnimationEasing::EaseIn => [4200, 0, 10000, 10000],
            AnimationEasing::EaseInSine => [1200, 0, 3900, 0],
            AnimationEasing::EaseInQuad => [1100, 0, 5000, 0],
            AnimationEasing::EaseInCubic => [3200, 0, 6700, 0],
            AnimationEasing::EaseInQuart => [5000, 0, 7500, 0],
            AnimationEasing::EaseInQuint => [6400, 0, 7800, 0],
            AnimationEasing::EaseInExpo => [7000, 0, 8400, 0],
            AnimationEasing::EaseInCirc => [5500, 0, 10000, 4500],
            AnimationEasing::EaseInBack => [3600, 0, 6600, -5600],
            AnimationEasing::EaseOut => [0, 0, 5800, 10000],
            AnimationEasing::EaseOutSine => [6100, 10000, 8800, 10000],
            AnimationEasing::EaseOutQuad => [5000, 10000, 8900, 10000],
            AnimationEasing::EaseOutCubic => [3300, 10000, 6800, 10000],
            AnimationEasing::EaseOutQuart => [2500, 10000, 5000, 10000],
            AnimationEasing::EaseOutQuint => [2200, 10000, 3600, 10000],
            AnimationEasing::EaseOutExpo => [1600, 10000, 3000, 10000],
            AnimationEasing::EaseOutCirc => [0, 5500, 4500, 10000],
            AnimationEasing::EaseOutBack => [3400, 15600, 6400, 10000],
            AnimationEasing::EaseInOut => [4200, 0, 5800, 10000],
            AnimationEasing::EaseInOutSine => [3700, 0, 6300, 10000],
            AnimationEasing::EaseInOutQuad => [4500, 0, 5500, 10000],
            AnimationEasing::EaseInOutCubic => [6500, 0, 3500, 10000],
            AnimationEasing::EaseInOutQuart => [7600, 0, 2400, 10000],
            AnimationEasing::EaseInOutQuint => [8300, 0, 1700, 10000],
            AnimationEasing::EaseInOutExpo => [8700, 0, 1300, 10000],
            AnimationEasing::EaseInOutCirc => [8500, 0, 1500, 10000],
            AnimationEasing::EaseInOutBack => [6800, -6000, 3200, 16000],
            AnimationEasing::CubicBezier(p) => *p,
        };
        assert(r@ =~= easing_points(*self));
        r
    }
}

} // verus!
