use tacky_borders::border::AnimationSpeeds;
use tacky_borders::config::{
    create_border_struct, default_fps, detect_config_format, get_process_name, get_window_rule, match_rule,
    ConfigFormat, GlobalOptions, MatchKind, MatchStrategy, RuleMatch, RuleOptions, WindowNames,
};
use tacky_borders::config::{convert_config_radius, parse_border_style, BorderRadius, BorderRadiusOption, CornerPreference};
use tacky_borders::text::{chars_of, contains_chars};

#[test]
fn default_frame_rate() {
    assert_eq!(default_fps(), 60);
}

#[test]
fn config_format_by_existing_file() {
    assert_eq!(detect_config_format(false, true, true, false), ConfigFormat::Jsonc);
    assert_eq!(detect_config_format(false, false, false, true), ConfigFormat::Yaml);
    assert_eq!(detect_config_format(true, true, true, true), ConfigFormat::Json);
    assert_eq!(detect_config_format(false, false, false, false), ConfigFormat::Json);
}

#[test]
fn match_strategies() {
    assert!(match_rule("Mozilla Firefox", "firefox", Some(MatchStrategy::Contains)));
    assert!(!match_rule("Mozilla Firefox", "chrome", Some(MatchStrategy::Contains)));
    assert!(match_rule("Explorer", "EXPLORER", Some(MatchStrategy::Equals)));
    assert!(!match_rule("Explorer", "explore", Some(MatchStrategy::Equals)));
    assert!(match_rule("notepad.exe", "^note.*\\.exe$", Some(MatchStrategy::Regex)));
    assert!(!match_rule("notepad.exe", "^pad", Some(MatchStrategy::Regex)));
    assert!(!match_rule("anything", "(", Some(MatchStrategy::Regex)));
    assert!(!match_rule("anything", "anything", None));
}

#[test]
fn containment() {
    assert!(contains_chars(&chars_of("abcdef"), &chars_of("cde")));
    assert!(contains_chars(&chars_of("abc"), &chars_of("")));
    assert!(!contains_chars(&chars_of("ab"), &chars_of("abc")));
    assert!(!contains_chars(&chars_of("abcabd"), &chars_of("abe")));
}

#[test]
fn first_applying_rule_wins() {
    let rules = vec![
        RuleMatch { kind: Some(MatchKind::Class), value: Some("Shell_TrayWnd".to_string()), strategy: Some(MatchStrategy::Equals) },
        RuleMatch { kind: Some(MatchKind::Title), value: None, strategy: Some(MatchStrategy::Contains) },
        RuleMatch { kind: Some(MatchKind::Process), value: Some("code".to_string()), strategy: Some(MatchStrategy::Contains) },
        RuleMatch { kind: Some(MatchKind::Title), value: Some("Code".to_string()), strategy: Some(MatchStrategy::Contains) },
    ];
    let names = WindowNames { title: "main.rs - Visual Studio Code".to_string(), class: "Chrome_WidgetWin_1".to_string(), process: "Code".to_string() };
    assert_eq!(get_window_rule(&rules, &names), Some(2));
    let other = WindowNames { title: "x".to_string(), class: "y".to_string(), process: "z".to_string() };
    assert_eq!(get_window_rule(&rules, &other), None);
}

fn global() -> GlobalOptions {
    GlobalOptions {
        border_width: 4,
        border_style: BorderRadius::Style(BorderRadiusOption::Auto),
        border_offset: -1,
        active_color: "accent".to_string(),
        inactive_color: "#444444".to_string(),
        animations: None,
        initialize_delay_ms: None,
        unminimize_delay_ms: Some(150),
    }
}

fn no_rule() -> RuleOptions {
    RuleOptions {
        enabled: None,
        border_width: None,
        border_style: None,
        border_offset: None,
        active_color: None,
        inactive_color: None,
        animations: None,
        initialize_delay_ms: None,
        unminimize_delay_ms: None,
    }
}

#[test]
fn border_options_from_global() {
    let o = create_border_struct(&no_rule(), &global(), 144, CornerPreference::Round, false);
    // 8 scaled pixels past half the scaled width
    assert_eq!(o.radius, 1200 + 300);
    assert!(o.enabled);
    assert_eq!(o.width, 6);
    assert_eq!(o.offset, -1);
    assert_eq!(o.active_color, "accent");
    assert_eq!(o.inactive_color, "#444444");
    assert_eq!(o.settings.unminimize_delay_ms, 150);
    assert_eq!(o.initialize_delay_ms, 250);
    assert_eq!(o.settings.active, AnimationSpeeds { fade: None, spiral: None, reverse_spiral: None });
}

#[test]
fn border_options_rule_overrides() {
    let fast = AnimationSpeeds { fade: Some(10), spiral: Some(90), reverse_spiral: None };
    let slow = AnimationSpeeds { fade: Some(1), spiral: None, reverse_spiral: None };
    let rule = RuleOptions {
        enabled: Some(false),
        border_width: Some(2),
        border_style: Some(BorderRadius::Style(BorderRadiusOption::Square)),
        border_offset: Some(3),
        active_color: Some("#ff0000".to_string()),
        inactive_color: None,
        animations: Some((fast, slow)),
        initialize_delay_ms: Some(10),
        unminimize_delay_ms: None,
    };
    let o = create_border_struct(&rule, &global(), 96, CornerPreference::Round, false);
    assert_eq!(o.radius, 0);
    assert!(!o.enabled);
    assert_eq!(o.width, 2);
    assert_eq!(o.offset, 3);
    assert_eq!(o.active_color, "#ff0000");
    assert_eq!(o.inactive_color, "#444444");
    assert_eq!(o.settings.active, fast);
    assert_eq!(o.settings.inactive, slow);
    assert_eq!(o.initialize_delay_ms, 10);
    assert_eq!(create_border_struct(&rule, &global(), 96, CornerPreference::Unknown, true).initialize_delay_ms, 0);
}

#[test]
fn border_radius() {
    assert_eq!(convert_config_radius(4, BorderRadius::Style(BorderRadiusOption::Round), CornerPreference::Unknown, 96), 1000);
    assert_eq!(convert_config_radius(4, BorderRadius::Style(BorderRadiusOption::SmallRound), CornerPreference::Unknown, 144), 800);
    assert_eq!(convert_config_radius(4, BorderRadius::Style(BorderRadiusOption::Square), CornerPreference::Round, 96), 0);
    assert_eq!(convert_config_radius(4, BorderRadius::Style(BorderRadiusOption::Auto), CornerPreference::RoundSmall, 96), 600);
    assert_eq!(convert_config_radius(4, BorderRadius::Style(BorderRadiusOption::Auto), CornerPreference::Unknown, 96), 200);
    assert_eq!(convert_config_radius(4, BorderRadius::Centipixels(1000), CornerPreference::Unknown, 192), 2000);
}

#[test]
fn process_names_from_paths() {
    assert_eq!(get_process_name("C:\\Windows\\System32\\notepad.exe"), "notepad");
    assert_eq!(get_process_name("code"), "code");
    assert_eq!(get_process_name("C:\\a.b\\c"), "c");
    assert_eq!(get_process_name("archive.tar.gz"), "archive");
    assert_eq!(get_process_name("C:\\tools\\name\0\0"), "name");
    assert_eq!(get_process_name("C:\\dir\\"), "");
}

#[test]
fn border_styles() {
    assert_eq!(parse_border_style("Round"), Some(BorderRadius::Style(BorderRadiusOption::Round)));
    assert_eq!(parse_border_style("SMALLROUND"), Some(BorderRadius::Style(BorderRadiusOption::SmallRound)));
    assert_eq!(parse_border_style("square"), Some(BorderRadius::Style(BorderRadiusOption::Square)));
    assert_eq!(parse_border_style("aUtO"), Some(BorderRadius::Style(BorderRadiusOption::Auto)));
    assert_eq!(parse_border_style("radius(12.5)"), Some(BorderRadius::Centipixels(1250)));
    assert_eq!(parse_border_style("Radius(-1)"), Some(BorderRadius::Style(BorderRadiusOption::Auto)));
    assert_eq!(parse_border_style("radius(-2)"), None);
    assert_eq!(parse_border_style("radius(x)"), None);
    assert_eq!(parse_border_style("rounded"), None);
}
