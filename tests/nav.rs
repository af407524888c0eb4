use nzm_cmd::nav::{check_catalog, CatalogError, NavEngine, NavResult, NavStep};
use nzm_cmd::scene::{Anchor, Logic, Point, Reading, Rect, Rgb, Scene, Transition};

fn scene_a() -> Scene {
    Scene {
        id: "A".to_string(),
        name: "lobby".to_string(),
        logic: Logic::And,
        anchors: vec![Anchor::Color {
            pos: Point { x: 10, y: 10 },
            color: Rgb { r: 255, g: 0, b: 0 },
            tolerance: 5,
        }],
        transitions: vec![Transition {
            target: "B".to_string(),
            coords: Point { x: 20, y: 20 },
            post_delay_ms: 500,
        }],
        handler: None,
    }
}

fn scene_b(handler: Option<&str>) -> Scene {
    Scene {
        id: "B".to_string(),
        name: "done".to_string(),
        logic: Logic::And,
        anchors: vec![Anchor::Text {
            rect: Rect { x1: 0, y1: 0, x2: 100, y2: 40 },
            text: "已完成".to_string(),
        }],
        transitions: vec![],
        handler: handler.map(|h| h.to_string()),
    }
}

fn frame_a() -> Vec<Vec<Reading>> {
    vec![
        vec![Reading::Color(Rgb { r: 254, g: 3, b: 0 })],
        vec![Reading::Text("进行中".to_string())],
    ]
}

fn frame_b() -> Vec<Vec<Reading>> {
    vec![
        vec![Reading::Color(Rgb { r: 0, g: 0, b: 0 })],
        vec![Reading::Text("已 完 成".to_string())],
    ]
}

fn blank() -> Vec<Vec<Reading>> {
    vec![vec![Reading::Unavailable], vec![Reading::Text(String::new())]]
}

#[test]
fn end_to_end_clicks_once_then_succeeds() {
    let engine = NavEngine::new(vec![scene_a(), scene_b(None)], 10, 200).unwrap();
    let mut nav = engine.begin("B");
    let mut clicks = Vec::new();
    let mut result = None;
    for sample in [frame_a(), frame_a(), frame_b()] {
        match engine.step(&mut nav, &sample) {
            NavStep::Click { at, settle_ms } => clicks.push((at, settle_ms)),
            NavStep::Wait { .. } => {}
            NavStep::Finished(r) => {
                result = Some(r);
                break;
            }
        }
    }
    assert_eq!(clicks.len(), 1);
    assert_eq!(clicks[0].0, Point { x: 20, y: 20 });
    assert!(clicks[0].1 >= 500);
    assert!(matches!(result, Some(NavResult::Success)));
}

#[test]
fn blank_feed_fails_after_round_cap() {
    let engine = NavEngine::new(vec![scene_a(), scene_b(None)], 5, 100).unwrap();
    let mut nav = engine.begin("B");
    for _ in 0..5 {
        assert!(matches!(engine.step(&mut nav, &blank()), NavStep::Wait { ms: 100 }));
    }
    assert_eq!(engine.rounds_left(&nav), 0);
    assert!(matches!(
        engine.step(&mut nav, &blank()),
        NavStep::Finished(NavResult::Failed)
    ));
}

#[test]
fn tagged_target_hands_over() {
    let engine = NavEngine::new(vec![scene_a(), scene_b(Some("daily"))], 10, 100).unwrap();
    let mut nav = engine.begin("B");
    match engine.step(&mut nav, &frame_b()) {
        NavStep::Finished(NavResult::Handover(id, tag)) => {
            assert_eq!(id, "B");
            assert_eq!(tag.as_deref(), Some("daily"));
        }
        _ => panic!("expected a handover"),
    }
}

#[test]
fn untagged_target_succeeds() {
    let engine = NavEngine::new(vec![scene_a(), scene_b(None)], 10, 100).unwrap();
    let mut nav = engine.begin("B");
    assert!(matches!(
        engine.step(&mut nav, &frame_b()),
        NavStep::Finished(NavResult::Success)
    ));
}

#[test]
fn persistent_scene_is_clicked_every_other_round() {
    let engine = NavEngine::new(vec![scene_a(), scene_b(None)], 10, 100).unwrap();
    let mut nav = engine.begin("B");
    let steps: Vec<bool> = (0..4)
        .map(|_| matches!(engine.step(&mut nav, &frame_a()), NavStep::Click { .. }))
        .collect();
    assert_eq!(steps, vec![true, false, true, false]);
}

#[test]
fn dead_end_scene_waits() {
    let engine = NavEngine::new(vec![scene_a(), scene_b(None)], 10, 100).unwrap();
    let mut nav = engine.begin("A");
    assert!(matches!(engine.step(&mut nav, &frame_b()), NavStep::Wait { ms: 100 }));
}

#[test]
fn first_declared_scene_wins() {
    let mut twin = scene_b(None);
    twin.id = "C".to_string();
    let engine = NavEngine::new(vec![scene_a(), twin, scene_b(None)], 10, 100).unwrap();
    assert_eq!(
        engine.detect(&vec![vec![Reading::Unavailable], frame_b()[1].clone(), frame_b()[1].clone()]),
        Some(1)
    );
    assert_eq!(engine.detect(&blank()), None);
}

#[test]
fn duplicate_ids_are_refused() {
    let r = check_catalog(&vec![scene_a(), scene_a(), scene_b(None)]);
    assert!(matches!(r, Err(CatalogError::DuplicateId(id)) if id == "A"));
}

#[test]
fn unknown_transition_target_is_refused() {
    let r = NavEngine::new(vec![scene_a()], 10, 100);
    assert!(matches!(r, Err(CatalogError::UnknownTarget(t)) if t == "B"));
}

#[test]
fn find_scene_and_route() {
    let engine = NavEngine::new(vec![scene_a(), scene_b(None)], 10, 100).unwrap();
    assert_eq!(engine.find_scene(&"B".to_string()), Some(1));
    assert_eq!(engine.find_scene(&"Z".to_string()), None);
    assert_eq!(engine.route(0, &"B".to_string()), Some(0));
    assert_eq!(engine.route(1, &"A".to_string()), None);
}

fn plain(id: &str, color: u8, links: &[(&str, u16)]) -> Scene {
    Scene {
        id: id.to_string(),
        name: id.to_string(),
        logic: Logic::Or,
        anchors: vec![Anchor::Color {
            pos: Point { x: 0, y: 0 },
            color: Rgb { r: color, g: color, b: color },
            tolerance: 0,
        }],
        transitions: links
            .iter()
            .map(|(t, x)| Transition {
                target: t.to_string(),
                coords: Point { x: *x, y: 0 },
                post_delay_ms: 100,
            })
            .collect(),
        handler: None,
    }
}

#[test]
fn multi_hop_takes_the_shortest_path() {
    // A -> X -> Y -> C and A -> B -> C: the way through B is shorter.
    let engine = NavEngine::new(
        vec![
            plain("A", 1, &[("X", 10), ("B", 20)]),
            plain("X", 2, &[("Y", 30)]),
            plain("Y", 3, &[("C", 40)]),
            plain("B", 4, &[("C", 50)]),
            plain("C", 5, &[]),
        ],
        10,
        100,
    )
    .unwrap();
    assert_eq!(engine.route(0, &"C".to_string()), None);
    assert_eq!(engine.choose_transition(0, &"C".to_string()), Some(1));
    assert_eq!(engine.choose_transition(1, &"C".to_string()), Some(0));
    assert_eq!(engine.choose_transition(4, &"A".to_string()), None);
    let mut nav = engine.begin("C");
    let at_a = vec![vec![Reading::Color(Rgb { r: 1, g: 1, b: 1 })]];
    match engine.step(&mut nav, &at_a) {
        NavStep::Click { at, .. } => assert_eq!(at, Point { x: 20, y: 0 }),
        _ => panic!("expected a click"),
    }
}

#[test]
fn direct_transition_beats_a_detour() {
    let engine = NavEngine::new(
        vec![plain("A", 1, &[("B", 10), ("C", 20)]), plain("B", 2, &[("C", 30)]), plain("C", 3, &[])],
        10,
        100,
    )
    .unwrap();
    assert_eq!(engine.choose_transition(0, &"C".to_string()), Some(1));
    assert_eq!(engine.choose_transition(0, &"B".to_string()), Some(0));
}

#[test]
fn undelivered_click_is_retried_next_round() {
    let engine = NavEngine::new(vec![scene_a(), scene_b(None)], 10, 100).unwrap();
    let mut nav = engine.begin("B");
    assert!(matches!(engine.step(&mut nav, &frame_a()), NavStep::Click { .. }));
    engine.click_not_delivered(&mut nav);
    assert_eq!(nav.rounds, 1);
    assert!(matches!(engine.step(&mut nav, &frame_a()), NavStep::Click { .. }));
}
