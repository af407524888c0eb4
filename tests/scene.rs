use nzm_cmd::scene::{
    color_matches, parse_hex_color, parse_logic, screen_point, screen_rect, Anchor, Logic, Point,
    Reading, Rect, Rgb, Scene,
};
use nzm_cmd::text::{strip_white_chars, text_matches};

fn text_anchor(s: &str) -> Anchor {
    Anchor::Text { rect: Rect { x1: 0, y1: 0, x2: 10, y2: 10 }, text: s.to_string() }
}

fn red_anchor() -> Anchor {
    Anchor::Color { pos: Point { x: 10, y: 10 }, color: Rgb { r: 255, g: 0, b: 0 }, tolerance: 5 }
}

fn scene(logic: Logic, anchors: Vec<Anchor>) -> Scene {
    Scene {
        id: "s".to_string(),
        name: "s".to_string(),
        logic,
        anchors,
        transitions: vec![],
        handler: None,
    }
}

#[test]
fn text_match_ignores_whitespace() {
    assert!(text_matches("已 领 取", "已领取"));
    assert!(text_matches(" 已\n领\t取 ", "领取"));
    assert!(!text_matches("已 领", "已领取"));
    assert!(text_matches("anything", ""));
    assert!(!text_matches("", "x"));
}

#[test]
fn strip_removes_unicode_whitespace() {
    assert_eq!(strip_white_chars("a\u{3000}b\u{a0}c d"), vec!['a', 'b', 'c', 'd']);
    assert_eq!(strip_white_chars("   "), Vec::<char>::new());
}

#[test]
fn color_tolerance_is_per_channel_and_inclusive() {
    let red = Rgb { r: 255, g: 0, b: 0 };
    assert!(color_matches(Rgb { r: 250, g: 5, b: 0 }, red, 5));
    assert!(!color_matches(Rgb { r: 249, g: 0, b: 0 }, red, 5));
    assert!(!color_matches(Rgb { r: 255, g: 0, b: 6 }, red, 5));
    assert!(color_matches(red, red, 0));
}

#[test]
fn and_scene_needs_both_anchors() {
    let s = scene(Logic::And, vec![red_anchor(), text_anchor("开始")]);
    let red = Reading::Color(Rgb { r: 255, g: 0, b: 0 });
    let black = Reading::Color(Rgb { r: 0, g: 0, b: 0 });
    let yes = Reading::Text("开 始 游戏".to_string());
    let no = Reading::Text("设置".to_string());
    assert!(s.is_active(&vec![red.clone(), yes.clone()]));
    assert!(!s.is_active(&vec![black.clone(), yes.clone()]));
    assert!(!s.is_active(&vec![red.clone(), no.clone()]));
    assert!(!s.is_active(&vec![red.clone()]));
}

#[test]
fn or_scene_needs_one_anchor() {
    let s = scene(Logic::Or, vec![red_anchor(), text_anchor("开始")]);
    let red = Reading::Color(Rgb { r: 255, g: 0, b: 0 });
    let black = Reading::Color(Rgb { r: 0, g: 0, b: 0 });
    let yes = Reading::Text("开始".to_string());
    let no = Reading::Text("".to_string());
    assert!(s.is_active(&vec![red.clone(), no.clone()]));
    assert!(s.is_active(&vec![black.clone(), yes.clone()]));
    assert!(!s.is_active(&vec![black.clone(), no.clone()]));
}

#[test]
fn scene_without_anchors_never_matches() {
    assert!(!scene(Logic::And, vec![]).is_active(&vec![]));
    assert!(!scene(Logic::Or, vec![]).is_active(&vec![]));
}

#[test]
fn mismatched_reading_does_not_hold() {
    let s = scene(Logic::Or, vec![red_anchor()]);
    assert!(!s.is_active(&vec![Reading::Text("红".to_string())]));
    assert!(!s.is_active(&vec![Reading::Unavailable]));
}

#[test]
fn hex_colors() {
    assert_eq!(parse_hex_color("#FF0000"), Some(Rgb { r: 255, g: 0, b: 0 }));
    assert_eq!(parse_hex_color("#0a1B2c"), Some(Rgb { r: 10, g: 27, b: 44 }));
    assert_eq!(parse_hex_color("FF0000"), None);
    assert_eq!(parse_hex_color("#FF00"), None);
    assert_eq!(parse_hex_color("#GG0000"), None);
    assert_eq!(parse_hex_color("#FF00000"), None);
}

#[test]
fn logic_words() {
    assert_eq!(parse_logic("and"), Some(Logic::And));
    assert_eq!(parse_logic("AND"), Some(Logic::And));
    assert_eq!(parse_logic("Or"), Some(Logic::Or));
    assert_eq!(parse_logic("xor"), None);
    assert_eq!(parse_logic(""), None);
}

#[test]
fn catalog_coordinates() {
    assert_eq!(screen_point(20, 30), Some(Point { x: 20, y: 30 }));
    assert_eq!(screen_point(-1, 30), None);
    assert_eq!(screen_point(0, 65536), None);
    assert_eq!(
        screen_rect(1, 2, 3, 4),
        Some(Rect { x1: 1, y1: 2, x2: 3, y2: 4 })
    );
    assert_eq!(screen_rect(1, 2, 3, -4), None);
}
