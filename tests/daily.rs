use nzm_cmd::daily_routine::{
    classify_status, needs_another_round, DailyRoutineApp, SlotAction, SlotStatus,
};
use nzm_cmd::human::{Gesture, HumanDriver};
use nzm_cmd::scene::Point;

#[test]
fn status_words() {
    assert_eq!(classify_status("已 完 成"), SlotStatus::Done);
    assert_eq!(classify_status("已领取"), SlotStatus::Done);
    assert_eq!(classify_status("领取"), SlotStatus::Claimable);
    assert_eq!(classify_status("去完成"), SlotStatus::Incomplete);
    assert_eq!(classify_status("未完成"), SlotStatus::Incomplete);
    assert_eq!(classify_status(" \n"), SlotStatus::Empty);
    assert_eq!(classify_status("???"), SlotStatus::Unknown);
}

#[test]
fn four_slots() {
    let app = DailyRoutineApp::new();
    assert_eq!(app.slots.len(), 4);
    assert_eq!(app.slots[3].refresh_pos, Point { x: 1804, y: 316 });
}

#[test]
fn claim_clicks_status_center_and_refresh_clicks_button() {
    let app = DailyRoutineApp::new();
    assert_eq!(app.plan_slot(0, "领 取"), SlotAction::Claim(Point { x: 663, y: 938 }));
    assert_eq!(app.plan_slot(1, "未完成"), SlotAction::Refresh(Point { x: 1124, y: 314 }));
    assert_eq!(app.plan_slot(2, "已领取"), SlotAction::Skip);
    assert_eq!(app.plan_slot(3, ""), SlotAction::Skip);
}

#[test]
fn action_gestures_move_click_and_dismiss() {
    let app = DailyRoutineApp::new();
    let mut h = HumanDriver::new(960, 540);
    let g = app.action_gestures(&mut h, SlotAction::Claim(Point { x: 663, y: 938 }));
    assert_eq!(g.len(), 111);
    assert_eq!(h.cursor, Point { x: 663, y: 938 });
    assert_eq!(g[103], Gesture::Pause(1000));
    let r = app.action_gestures(&mut h, SlotAction::Refresh(Point { x: 784, y: 311 }));
    assert_eq!(r.len(), 104);
    assert_eq!(r[103], Gesture::Pause(500));
    assert!(app.action_gestures(&mut h, SlotAction::Skip).is_empty());
    assert_eq!(h.cursor, Point { x: 784, y: 311 });
}

#[test]
fn another_round_only_after_an_action() {
    assert!(!needs_another_round(&vec![SlotAction::Skip, SlotAction::Skip]));
    assert!(needs_another_round(&vec![SlotAction::Skip, SlotAction::Refresh(Point { x: 1, y: 1 })]));
    assert!(!needs_another_round(&vec![]));
}
