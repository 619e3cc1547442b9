//! Configuration decisions that do not depend on the file format: which
//! configuration file is used, and which window rule applies to a window.
use vstd::prelude::*;
use crate::border::{AnimationSpeeds, BorderSettings};
use crate::text::{
    chars_of, contains_chars, contains_seq, decimal_value, decimal_value_exec, find_char, str_eq,
};

verus! {

/// The configuration file formats, in the order their files are looked for.
#[derive(Clone, Copy, Debug, PartialEq, Eq, Structural)]
pub enum ConfigFormat {
    Json,
    Jsonc,
    Yaml,
    /// No configuration file was detected.
    Unknown,
}

#[derive(Clone, Copy, Debug, PartialEq, Eq, Structural)]
pub enum BorderRadiusOption {
    Round,
    Square,
    SmallRound,
    Auto,
}

/// A configured border radius: a named style, or hundredths of a pixel at 96
/// dots per inch.
#[derive(Clone, Copy, Debug, PartialEq, Eq, Structural)]
pub enum BorderRadius {
    Style(BorderRadiusOption),
    Centipixels(u32),
}

pub open spec fn ascii_upper(c: char) -> char {
    if 'a' <= c && c <= 'z' {
        ((c as u8) - 32) as char
    } else {
        c
    }
}

/// Whether `s` spells the upper-case ASCII `upper`, ignoring ASCII case.
pub open spec fn eq_ignore_case(s: Seq<char>, upper: Seq<char>) -> bool {
    s.len() == upper.len() && forall|i: int| 0 <= i < s.len() ==> ascii_upper(#[trigger] s[i]) == upper[i]
}

fn ascii_upper_exec(c: char) -> (r: char)
    ensures
        r == ascii_upper(c),
{
    if 'a' <= c && c <= 'z' {
        ((c as u8) - 32) as char
    } else {
        c
    }
}

/// Whether `s[lo..hi]` spells `upper`, ignoring ASCII case.
fn eq_ignore_case_exec(s: &Vec<char>, lo: usize, hi: usize, upper: &str) -> (r: bool)
    requires
        lo <= hi <= s@.len(),
    ensures
        r == eq_ignore_case(s@.subrange(lo as int, hi as int), upper@),
{
    let u = chars_of(upper);
    let ghost t = s@.subrange(lo as int, hi as int);
    if hi - lo != u.len() {
        return false;
    }
    let mut i: usize = 0;
    while i < u.len()
        invariant
            lo <= hi <= s@.len(),
            t == s@.subrange(lo as int, hi as int),
            u@ == upper@,
            hi - lo == u@.len(),
            i <= u@.len(),
            forall|j: int| 0 <= j < i ==> ascii_upper(#[trigger] t[j]) == u@[j],
        decreases u@.len() - i,
    {
        if ascii_upper_exec(s[lo + i]) != u[i] {
            assert(ascii_upper(t[i as int]) != u@[i as int]);
            return false;
        }
        i = i + 1;
    }
    true
}

/// The border radius a style string names: `round`, `square`, `smallround`
/// or `auto` in any case, or `radius(x)` with `x` in pixels, where `-1`
/// means `auto`.
pub open spec fn border_style(s: Seq<char>) -> Option<BorderRadius> {
    if eq_ignore_case(s, "ROUND"@) {
        Some(BorderRadius::Style(BorderRadiusOption::Round))
    } else if eq_ignore_case(s, "SQUARE"@) {
        Some(BorderRadius::Style(BorderRadiusOption::Square))
    } else if eq_ignore_case(s, "SMALLROUND"@) {
        Some(BorderRadius::Style(BorderRadiusOption::SmallRound))
    } else if eq_ignore_case(s, "AUTO"@) {
        Some(BorderRadius::Style(BorderRadiusOption::Auto))
    } else if s.len() >= 8 && eq_ignore_case(s.subrange(0, 7), "RADIUS("@) && s.last() == ')' {
        match decimal_value(s.subrange(7, s.len() - 1)) {
            Some(v) => if v == -10_000 {
                Some(BorderRadius::Style(BorderRadiusOption::Auto))
            } else if v >= 0 {
                Some(BorderRadius::Centipixels((v / 100) as u32))
            } else {
                None
            },
            None => None,
        }
    } else {
        None
    }
}

/// Reads a border style; see `border_style`.
pub fn parse_border_style(style: &str) -> (r: Option<BorderRadius>)
    ensures
        r == border_style(style@),
{
    let s = chars_of(style);
    let n = s.len();
    assert(s@.subrange(0, n as int) =~= s@);
    if eq_ignore_case_exec(&s, 0, n, "ROUND") {
        return Some(BorderRadius::Style(BorderRadiusOption::Round));
    }
    if eq_ignore_case_exec(&s, 0, n, "SQUARE") {
        return Some(BorderRadius::Style(BorderRadiusOption::Square));
    }
    if eq_ignore_case_exec(&s, 0, n, "SMALLROUND") {
        return Some(BorderRadius::Style(BorderRadiusOption::SmallRound));
    }
    if eq_ignore_case_exec(&s, 0, n, "AUTO") {
        return Some(BorderRadius::Style(BorderRadiusOption::Auto));
    }
    if n < 8 || !eq_ignore_case_exec(&s, 0, 7, "RADIUS(") || s[n - 1] != ')' {
        return None;
    }
    let mut inner: Vec<char> = Vec::with_capacity(n - 8);
    let mut i: usize = 7;
    while i < n - 1
        invariant
            7 <= i <= n - 1,
            n == s@.len(),
            n >= 8,
            inner@ =~= s@.subrange(7, i as int),
        decreases n - 1 - i,
    {
        inner.push(s[i]);
        i = i + 1;
    }
    match decimal_value_exec(&inner) {
        Some(v) => if v == -10_000 {
            Some(BorderRadius::Style(BorderRadiusOption::Auto))
        } else if v >= 0 {
            Some(BorderRadius::Centipixels((v / 100) as u32))
        } else {
            None
        },
        None => None,
    }
}

/// The corner rounding that the window system prefers for a window.
#[derive(Clone, Copy, Debug, PartialEq, Eq, Structural)]
pub enum CornerPreference {
    Default,
    DoNotRound,
    Round,
    RoundSmall,
    Unknown,
}

/// A border's corner radius in hundredths of a pixel, for a border `width`
/// pixels wide on a display of `dpi` dots per inch: round corners are 8
/// scaled pixels past half the width, small ones 4, square ones 0, and
/// `Auto` follows the window's corner preference (half the width when that
/// is unknown). An explicit radius is scaled.
pub open spec fn radius_centipixels(width: int, radius: BorderRadius, corner: CornerPreference, dpi: int) -> int {
    let round = 800 * dpi / 96 + width * 50;
    let small = 400 * dpi / 96 + width * 50;
    match radius {
        BorderRadius::Style(BorderRadiusOption::Round) => round,
        BorderRadius::Style(BorderRadiusOption::SmallRound) => small,
        BorderRadius::Style(BorderRadiusOption::Square) => 0,
        BorderRadius::Style(BorderRadiusOption::Auto) => match corner {
            CornerPreference::Default | CornerPreference::Round => round,
            CornerPreference::RoundSmall => small,
            CornerPreference::DoNotRound => 0,
            CornerPreference::Unknown => width * 50,
        },
        BorderRadius::Centipixels(p) => p * dpi / 96,
    }
}

pub fn convert_config_radius(width: u32, radius: BorderRadius, corner: CornerPreference, dpi: u32) -> (r: u64)
    ensures
        r == radius_centipixels(width as int, radius, corner, dpi as int),
{
    let w = width as u64;
    let d = dpi as u64;
    let round = 800 * d / 96 + w * 50;
    let small = 400 * d / 96 + w * 50;
    match radius {
        BorderRadius::Style(BorderRadiusOption::Round) => round,
        BorderRadius::Style(BorderRadiusOption::SmallRound) => small,
        BorderRadius::Style(BorderRadiusOption::Square) => 0,
        BorderRadius::Style(BorderRadiusOption::Auto) => match corner {
            CornerPreference::Default | CornerPreference::Round => round,
            CornerPreference::RoundSmall => small,
            CornerPreference::DoNotRound => 0,
            CornerPreference::Unknown => w * 50,
        },
        BorderRadius::Centipixels(p) => {
            proof {
                assert((p as u64) * d <= 0xffff_ffffu64 * 0xffff_ffffu64) by (nonlinear_arith)
                    requires p <= 0xffff_ffffu32, d <= 0xffff_ffffu64;
            }
            (p as u64) * d / 96
        },
    }
}

/// What a window rule matches against.
#[derive(Clone, Copy, Debug, PartialEq, Eq, Structural)]
pub enum MatchKind {
    Title,
    Class,
    Process,
}

/// How a window rule compares its value.
#[derive(Clone, Copy, Debug, PartialEq, Eq, Structural)]
pub enum MatchStrategy {
    Equals,
    Regex,
    Contains,
}

/// The frame rate used when none is configured.
pub fn default_fps() -> (r: i32)
    ensures
        r == 60,
{
    60
}

/// The format of the configuration file, from which of `config.json`,
/// `config.jsonc`, `config.yaml` and `config.yml` exist: the first that
/// exists decides, and JSON is the default.
pub fn detect_config_format(json: bool, jsonc: bool, yaml: bool, yml: bool) -> (r: ConfigFormat)
    ensures
        r == if json {
            ConfigFormat::Json
        } else if jsonc {
            ConfigFormat::Jsonc
        } else if yaml || yml {
            ConfigFormat::Yaml
        } else {
            ConfigFormat::Json
        },
{
    if json {
        ConfigFormat::Json
    } else if jsonc {
        ConfigFormat::Jsonc
    } else if yaml || yml {
        ConfigFormat::Yaml
    } else {
        ConfigFormat::Json
    }
}

/// What `str::to_lowercase` returns for a string.
pub uninterp spec fn lower_of(s: Seq<char>) -> Seq<char>;

/// Whether a pattern compiles as a regular expression, and if so whether it
/// matches somewhere in a text.
pub uninterp spec fn regex_outcome(pattern: Seq<char>, text: Seq<char>) -> Option<bool>;

/// Relies on `str::to_lowercase`: the result depends on the characters alone.
#[verifier::external_body]
pub(crate) fn lowercase(s: &str) -> (r: String)
    ensures
        r@ == lower_of(s@),
{
    s.to_lowercase()
}

/// Relies on `regex::Regex::new` and `Regex::is_match`: `None` when the
/// pattern does not compile, else whether it matches somewhere in `text`.
#[verifier::external_body]
fn regex_match(pattern: &str, text: &str) -> (r: Option<bool>)
    ensures
        r == regex_outcome(pattern@, text@),
{
    regex::Regex::new(pattern).ok().map(|re| re.is_match(text))
}

/// The texts of the successive non-overlapping matches of a pattern in a
/// text, if the pattern compiles.
pub uninterp spec fn regex_match_texts(pattern: Seq<char>, text: Seq<char>) -> Option<Seq<Seq<char>>>;

/// Relies on `regex::Regex::new` and `Regex::find_iter`: `None` when the
/// pattern does not compile, else the text of every match, in order.
#[verifier::external_body]
pub(crate) fn regex_find_all(pattern: &str, text: &str) -> (r: Option<Vec<String>>)
    ensures
        r is None ==> regex_match_texts(pattern@, text@) is None,
        r matches Some(v) ==> regex_match_texts(pattern@, text@) matches Some(m) && v@.len() == m.len()
            && forall|i: int| 0 <= i < m.len() ==> #[trigger] v@[i]@ == m[i],
{
    regex::Regex::new(pattern).ok().map(|re| re.find_iter(text).map(|m| m.as_str().to_string()).collect())
}

/// Whether a window's `name` satisfies a rule's `pattern`: case-insensitive
/// equality or containment, or a regular expression that compiles and
/// matches. Without a strategy nothing matches.
pub open spec fn rule_matches(name: Seq<char>, pattern: Seq<char>, strategy: Option<MatchStrategy>) -> bool {
    match strategy {
        Some(MatchStrategy::Contains) => contains_seq(lower_of(name), lower_of(pattern)),
        Some(MatchStrategy::Equals) => lower_of(name) == lower_of(pattern),
        Some(MatchStrategy::Regex) => regex_outcome(pattern, name) == Some(true),
        None => false,
    }
}

pub fn match_rule(name: &str, pattern: &str, strategy: Option<MatchStrategy>) -> (r: bool)
    ensures
        r == rule_matches(name@, pattern@, strategy),
{
    match strategy {
        Some(MatchStrategy::Contains) => {
            let n = chars_of(lowercase(name).as_str());
            let p = chars_of(lowercase(pattern).as_str());
            contains_chars(&n, &p)
        },
        Some(MatchStrategy::Equals) => {
            let n = lowercase(name);
            let p = lowercase(pattern);
            str_eq(n.as_str(), p.as_str())
        },
        Some(MatchStrategy::Regex) => match regex_match(pattern, name) {
            Some(m) => m,
            None => false,
        },
        None => false,
    }
}

/// What follows the last `c` in `s`, or all of `s` without one.
pub open spec fn after_last_char(s: Seq<char>, c: char) -> Seq<char>
    decreases s.len(),
{
    if s.len() == 0 {
        s
    } else if s.last() == c {
        Seq::<char>::empty()
    } else {
        after_last_char(s.drop_last(), c).push(s.last())
    }
}

/// `s` without its trailing NUL characters.
pub open spec fn trim_end_nul(s: Seq<char>) -> Seq<char>
    decreases s.len(),
{
    if s.len() > 0 && s.last() == '\0' {
        trim_end_nul(s.drop_last())
    } else {
        s
    }
}

/// The name of a process from the path of its executable: the file name,
/// up to its first point, without trailing NUL characters.
pub open spec fn process_name(path: Seq<char>) -> Seq<char> {
    let file = after_last_char(path, '\\');
    let stem = match find_char(file, '.', 0) {
        Some(p) => file.subrange(0, p),
        None => file,
    };
    trim_end_nul(stem)
}

proof fn lemma_after_last_char_suffix(s: Seq<char>, c: char, i: int)
    requires
        0 <= i <= s.len(),
        forall|j: int| i <= j < s.len() ==> s[j] != c,
        i == 0 || s[i - 1] == c,
    ensures
        after_last_char(s, c) == s.subrange(i, s.len() as int),
    decreases s.len(),
{
    if s.len() > i {
        lemma_after_last_char_suffix(s.drop_last(), c, i);
        assert(s.drop_last().subrange(i, s.len() - 1).push(s.last()) =~= s.subrange(i, s.len() as int));
    } else if s.len() > 0 {
        assert(s.subrange(i, s.len() as int) =~= Seq::<char>::empty());
    } else {
        assert(s.subrange(i, s.len() as int) =~= s);
    }
}

proof fn lemma_trim_end_nul_skip(s: Seq<char>, j: int)
    requires
        0 < j <= s.len(),
        s[j - 1] == '\0',
    ensures
        trim_end_nul(s.subrange(0, j)) == trim_end_nul(s.subrange(0, j - 1)),
{
    assert(s.subrange(0, j).drop_last() =~= s.subrange(0, j - 1));
}

/// The name of a process from the path of its executable; see
/// `process_name`.
pub fn get_process_name(path: &str) -> (r: String)
    ensures
        r@ == process_name(path@),
{
    let s = chars_of(path);
    let n = s.len();
    let mut lo: usize = n;
    while lo > 0 && s[lo - 1] != '\\'
        invariant
            lo <= n,
            n == s@.len(),
            forall|j: int| lo <= j < n ==> s@[j] != '\\',
        decreases lo,
    {
        lo = lo - 1;
    }
    proof {
        lemma_after_last_char_suffix(s@, '\\', lo as int);
    }
    let ghost file = s@.subrange(lo as int, n as int);
    let mut hi: usize = lo;
    while hi < n && s[hi] != '.'
        invariant
            lo <= hi <= n,
            n == s@.len(),
            file == s@.subrange(lo as int, n as int),
            find_char(file, '.', 0) == find_char(file, '.', hi - lo),
        decreases n - hi,
    {
        assert(file[hi - lo] != '.');
        hi = hi + 1;
    }
    let ghost stem = s@.subrange(lo as int, hi as int);
    proof {
        if hi < n {
            assert(file[hi - lo] == '.');
            assert(file.subrange(0, hi - lo) =~= stem);
        } else {
            assert(file =~= stem);
        }
    }
    let mut end: usize = hi;
    assert(stem.subrange(0, hi - lo) =~= stem);
    while end > lo && s[end - 1] == '\0'
        invariant
            lo <= end <= hi <= n,
            n == s@.len(),
            stem == s@.subrange(lo as int, hi as int),
            trim_end_nul(stem) == trim_end_nul(stem.subrange(0, end - lo)),
        decreases end,
    {
        proof {
            lemma_trim_end_nul_skip(stem, end - lo);
        }
        end = end - 1;
    }
    assert(stem.subrange(0, end - lo) =~= s@.subrange(lo as int, end as int));
    path.substring_char(lo, end).to_owned()
}

/// The part of a window rule that decides whether it applies.
pub struct RuleMatch {
    pub kind: Option<MatchKind>,
    pub value: Option<String>,
    pub strategy: Option<MatchStrategy>,
}

/// What a window is matched on.
pub struct WindowNames {
    pub title: String,
    pub class: String,
    pub process: String,
}

pub open spec fn name_for(names: WindowNames, kind: MatchKind) -> Seq<char> {
    match kind {
        MatchKind::Title => names.title@,
        MatchKind::Class => names.class@,
        MatchKind::Process => names.process@,
    }
}

pub open spec fn rule_applies(rule: RuleMatch, names: WindowNames) -> bool {
    match (rule.kind, rule.value) {
        (Some(k), Some(v)) => rule_matches(name_for(names, k), v@, rule.strategy),
        _ => false,
    }
}

/// The index of the first rule that applies to a window, if any.
pub fn get_window_rule(rules: &Vec<RuleMatch>, names: &WindowNames) -> (r: Option<usize>)
    ensures
        r matches Some(i) ==> i < rules@.len() && rule_applies(rules@[i as int], *names) && forall|j: int|
            0 <= j < i ==> !rule_applies(#[trigger] rules@[j], *names),
        r is None ==> forall|j: int| 0 <= j < rules@.len() ==> !rule_applies(#[trigger] rules@[j], *names),
{
    let mut i: usize = 0;
    while i < rules.len()
        invariant
            i <= rules@.len(),
            forall|j: int| 0 <= j < i ==> !rule_applies(#[trigger] rules@[j], *names),
        decreases rules@.len() - i,
    {
        let rule = &rules[i];
        let applies = match (&rule.kind, &rule.value) {
            (Some(k), Some(v)) => {
                let name = match k {
                    MatchKind::Title => names.title.as_str(),
                    MatchKind::Class => names.class.as_str(),
                    MatchKind::Process => names.process.as_str(),
                };
                match_rule(name, v.as_str(), rule.strategy)
            },
            _ => false,
        };
        if applies {
            return Some(i);
        }
        i = i + 1;
    }
    None
}

/// What a window rule may set for the windows it applies to.
pub struct RuleOptions {
    pub enabled: Option<bool>,
    pub border_width: Option<u32>,
    pub border_style: Option<BorderRadius>,
    pub border_offset: Option<i32>,
    pub active_color: Option<String>,
    pub inactive_color: Option<String>,
    pub animations: Option<(AnimationSpeeds, AnimationSpeeds)>,
    pub initialize_delay_ms: Option<u64>,
    pub unminimize_delay_ms: Option<u64>,
}

/// The settings of every window that no rule overrides.
pub struct GlobalOptions {
    pub border_width: u32,
    pub border_style: BorderRadius,
    pub border_offset: i32,
    pub active_color: String,
    pub inactive_color: String,
    pub animations: Option<(AnimationSpeeds, AnimationSpeeds)>,
    pub initialize_delay_ms: Option<u64>,
    pub unminimize_delay_ms: Option<u64>,
}

/// What a new border is made with.
pub struct BorderOptions {
    /// Whether the window gets a border at all.
    pub enabled: bool,
    /// The width in pixels at the window's resolution.
    pub width: u64,
    /// The corner radius in hundredths of a pixel.
    pub radius: u64,
    pub offset: i32,
    pub active_color: String,
    pub inactive_color: String,
    pub settings: BorderSettings,
    pub initialize_delay_ms: u64,
}

pub const DEFAULT_INITIALIZE_DELAY_MS: u64 = 250;

pub const DEFAULT_UNMINIMIZE_DELAY_MS: u64 = 200;

pub open spec fn or_else<T>(o: Option<T>, d: T) -> T {
    match o {
        Some(v) => v,
        None => d,
    }
}

pub open spec fn no_animations() -> (AnimationSpeeds, AnimationSpeeds) {
    let none = AnimationSpeeds { fade: None, spiral: None, reverse_spiral: None };
    (none, none)
}

/// The options of a new border: each value from the window rule when it sets
/// one, else from the global settings, else the default. A border is
/// enabled unless the rule turns it off. The width is scaled from 96 dots
/// per inch to `dpi`, and the radius worked out from the style, the scaled
/// width and the window's corner preference; a window that was open at
/// start-up gets no initialize delay.
pub fn create_border_struct(
    rule: &RuleOptions,
    global: &GlobalOptions,
    dpi: u32,
    corner: CornerPreference,
    initial_window: bool,
) -> (r: BorderOptions)
    ensures
        r.enabled == (rule.enabled != Some(false)),
        r.width == or_else(rule.border_width, global.border_width) as int * dpi as int / 96,
        r.width <= u32::MAX ==> r.radius == radius_centipixels(
            r.width as int,
            or_else(rule.border_style, global.border_style),
            corner,
            dpi as int,
        ),
        r.width > u32::MAX ==> r.radius == radius_centipixels(
            u32::MAX as int,
            or_else(rule.border_style, global.border_style),
            corner,
            dpi as int,
        ),
        r.offset == or_else(rule.border_offset, global.border_offset),
        r.active_color@ == or_else(rule.active_color, global.active_color)@,
        r.inactive_color@ == or_else(rule.inactive_color, global.inactive_color)@,
        (r.settings.active, r.settings.inactive) == or_else(rule.animations, or_else(global.animations, no_animations())),
        r.settings.unminimize_delay_ms == or_else(rule.unminimize_delay_ms, or_else(global.unminimize_delay_ms, DEFAULT_UNMINIMIZE_DELAY_MS)),
        r.initialize_delay_ms == if initial_window {
            0
        } else {
            or_else(rule.initialize_delay_ms, or_else(global.initialize_delay_ms, DEFAULT_INITIALIZE_DELAY_MS))
        },
{
    let width = match rule.border_width {
        Some(w) => w,
        None => global.border_width,
    };
    let offset = match rule.border_offset {
        Some(o) => o,
        None => global.border_offset,
    };
    let active_color = match &rule.active_color {
        Some(c) => c.clone(),
        None => global.active_color.clone(),
    };
    let inactive_color = match &rule.inactive_color {
        Some(c) => c.clone(),
        None => global.inactive_color.clone(),
    };
    let none = AnimationSpeeds { fade: None, spiral: None, reverse_spiral: None };
    let (active, inactive) = match rule.animations {
        Some(a) => a,
        None => match global.animations {
            Some(a) => a,
            None => (none, none),
        },
    };
    let unminimize_delay_ms = match rule.unminimize_delay_ms {
        Some(d) => d,
        None => match global.unminimize_delay_ms {
            Some(d) => d,
            None => DEFAULT_UNMINIMIZE_DELAY_MS,
        },
    };
    let initialize_delay_ms = if initial_window {
        0
    } else {
        match rule.initialize_delay_ms {
            Some(d) => d,
            None => match global.initialize_delay_ms {
                Some(d) => d,
                None => DEFAULT_INITIALIZE_DELAY_MS,
            },
        }
    };
    proof {
        assert((width as u64) * (dpi as u64) <= 0xffff_ffffu64 * 0xffff_ffffu64) by (nonlinear_arith)
            requires width <= 0xffff_ffffu32, dpi <= 0xffff_ffffu32;
    }
    let scaled = (width as u64) * (dpi as u64) / 96;
    let style = match rule.border_style {
        Some(s) => s,
        None => global.border_style,
    };
    let radius_width: u32 = if scaled > u32::MAX as u64 { u32::MAX } else { scaled as u32 };
    BorderOptions {
        enabled: rule.enabled != Some(false),
        width: scaled,
        radius: convert_config_radius(radius_width, style, corner, dpi),
        offset,
        active_color,
        inactive_color,
        settings: BorderSettings { active, inactive, unminimize_delay_ms },
        initialize_delay_ms,
    }
}

} // verus!
