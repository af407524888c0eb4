//! The daily-task scanner: reads the status text of each task slot and
//! decides whether to claim its reward, refresh it, or leave it.

use crate::human::{key_press, move_plan, move_steps, Gesture, HumanDriver, CLICK_HOLD_MS, KEY_TAP_MS};
use crate::hardware::Command;
use crate::scene::{Point, Rect};
use crate::text::{chars_of, contains_chars, contains_seq, strip_white, strip_white_chars};
use vstd::prelude::*;

verus! {

/// Scan rounds before the scanner gives up.
pub const MAX_ROUNDS: u32 = 10;

/// Duration of the cursor move to a slot's button.
pub const SLOT_MOVE_MS: u32 = 500;

/// Wait for the reward pop-up after a claim, and between its dismissals.
pub const POPUP_WAIT_MS: u32 = 1000;

/// Cool-down after a refresh.
pub const REFRESH_WAIT_MS: u32 = 500;

/// Pause between two slots.
pub const SLOT_GAP_MS: u32 = 500;

/// Wait for the task list to redraw between two rounds.
pub const ROUND_WAIT_MS: u32 = 2000;

/// One task slot of the daily panel.
#[derive(Clone, Copy, Debug, PartialEq, Eq, Structural)]
pub struct TaskSlot {
    pub index: u32,
    /// Where the slot's status text is read; its center is the claim button.
    pub status_rect: Rect,
    pub refresh_pos: Point,
}

/// What a slot's status text says.
#[derive(Clone, Copy, Debug, PartialEq, Eq, Structural)]
pub enum SlotStatus {
    /// Completed or already claimed.
    Done,
    /// A reward is waiting.
    Claimable,
    /// Not completed yet; a refresh may bring an easier task.
    Incomplete,
    /// Nothing was recognized.
    Empty,
    Unknown,
}

/// What the scanner does with a slot.
#[derive(Clone, Copy, Debug, PartialEq, Eq, Structural)]
pub enum SlotAction {
    Skip,
    Claim(Point),
    Refresh(Point),
}

/// The status that recognized text `text` shows. Finished states are tested
/// first, since the claimed marker contains the claim marker.
pub open spec fn slot_status(text: Seq<char>) -> SlotStatus {
    let t = strip_white(text);
    if contains_seq(t, seq!['已', '完', '成']) || contains_seq(t, seq!['已', '领', '取']) {
        SlotStatus::Done
    } else if contains_seq(t, seq!['领', '取']) {
        SlotStatus::Claimable
    } else if contains_seq(t, seq!['去', '完', '成']) || contains_seq(t, seq!['未', '完', '成']) {
        SlotStatus::Incomplete
    } else if t.len() == 0 {
        SlotStatus::Empty
    } else {
        SlotStatus::Unknown
    }
}

pub open spec fn rect_center(r: Rect) -> Point {
    Point { x: ((r.x1 + r.x2) / 2) as u16, y: ((r.y1 + r.y2) / 2) as u16 }
}

pub open spec fn slot_action(slot: TaskSlot, text: Seq<char>) -> SlotAction {
    match slot_status(text) {
        SlotStatus::Claimable => SlotAction::Claim(rect_center(slot.status_rect)),
        SlotStatus::Incomplete => SlotAction::Refresh(slot.refresh_pos),
        _ => SlotAction::Skip,
    }
}

/// A left click with no extra delay.
pub open spec fn left_click() -> Seq<Gesture> {
    seq![
        Gesture::Input(Command::MouseDown(true, false)),
        Gesture::Pause(CLICK_HOLD_MS),
        Gesture::Input(Command::MouseUp),
    ]
}

/// The gestures of an action, with the cursor starting at `from`: move to
/// the button and click it; after a claim, dismiss the pop-up with two
/// spaced space taps; after a refresh, cool down.
pub open spec fn action_plan(from: Point, action: SlotAction) -> Seq<Gesture> {
    let n = move_steps(SLOT_MOVE_MS);
    let pause = SLOT_MOVE_MS / (n as u32);
    match action {
        SlotAction::Skip => Seq::empty(),
        SlotAction::Claim(p) => move_plan(from, p, n, pause) + left_click() + seq![
            Gesture::Pause(POPUP_WAIT_MS),
        ] + key_press(' ', KEY_TAP_MS) + seq![Gesture::Pause(POPUP_WAIT_MS)] + key_press(
            ' ',
            KEY_TAP_MS,
        ),
        SlotAction::Refresh(p) => move_plan(from, p, n, pause) + left_click() + seq![
            Gesture::Pause(REFRESH_WAIT_MS),
        ],
    }
}

/// Reads the status shown by recognized text `text`.
pub fn classify_status(text: &str) -> (r: SlotStatus)
    ensures
        r == slot_status(text@),
{
    let t = strip_white_chars(text);
    let done = vec!['已', '完', '成'];
    let claimed = vec!['已', '领', '取'];
    let claim = vec!['领', '取'];
    let todo = vec!['去', '完', '成'];
    let unfinished = vec!['未', '完', '成'];
    assert(done@ =~= seq!['已', '完', '成']);
    assert(claimed@ =~= seq!['已', '领', '取']);
    assert(claim@ =~= seq!['领', '取']);
    assert(todo@ =~= seq!['去', '完', '成']);
    assert(unfinished@ =~= seq!['未', '完', '成']);
    if contains_chars(&t, &done) || contains_chars(&t, &claimed) {
        SlotStatus::Done
    } else if contains_chars(&t, &claim) {
        SlotStatus::Claimable
    } else if contains_chars(&t, &todo) || contains_chars(&t, &unfinished) {
        SlotStatus::Incomplete
    } else if t.len() == 0 {
        SlotStatus::Empty
    } else {
        SlotStatus::Unknown
    }
}

/// The scanner with the four slots of the daily panel.
pub struct DailyRoutineApp {
    pub slots: Vec<TaskSlot>,
}

impl DailyRoutineApp {
    pub fn new() -> (r: Self)
        ensures
            r.slots@ == seq![
                TaskSlot {
                    index: 1,
                    status_rect: Rect { x1: 559, y1: 914, x2: 768, y2: 963 },
                    refresh_pos: Point { x: 784, y: 311 },
                },
                TaskSlot {
                    index: 2,
                    status_rect: Rect { x1: 899, y1: 901, x2: 1104, y2: 977 },
                    refresh_pos: Point { x: 1124, y: 314 },
                },
                TaskSlot {
                    index: 3,
                    status_rect: Rect { x1: 1238, y1: 901, x2: 1439, y2: 968 },
                    refresh_pos: Point { x: 1465, y: 318 },
                },
                TaskSlot {
                    index: 4,
                    status_rect: Rect { x1: 1560, y1: 895, x2: 1792, y2: 968 },
                    refresh_pos: Point { x: 1804, y: 316 },
                },
            ],
    {
        let slots = vec![
            TaskSlot {
                index: 1,
                status_rect: Rect { x1: 559, y1: 914, x2: 768, y2: 963 },
                refresh_pos: Point { x: 784, y: 311 },
            },
            TaskSlot {
                index: 2,
                status_rect: Rect { x1: 899, y1: 901, x2: 1104, y2: 977 },
                refresh_pos: Point { x: 1124, y: 314 },
            },
            TaskSlot {
                index: 3,
                status_rect: Rect { x1: 1238, y1: 901, x2: 1439, y2: 968 },
                refresh_pos: Point { x: 1465, y: 318 },
            },
            TaskSlot {
                index: 4,
                status_rect: Rect { x1: 1560, y1: 895, x2: 1792, y2: 968 },
                refresh_pos: Point { x: 1804, y: 316 },
            },
        ];
        let r = DailyRoutineApp { slots };
        assert(r.slots@ =~= seq![
            TaskSlot {
                index: 1,
                status_rect: Rect { x1: 559, y1: 914, x2: 768, y2: 963 },
                refresh_pos: Point { x: 784, y: 311 },
            },
            TaskSlot {
                index: 2,
                status_rect: Rect { x1: 899, y1: 901, x2: 1104, y2: 977 },
                refresh_pos: Point { x: 1124, y: 314 },
            },
            TaskSlot {
                index: 3,
                status_rect: Rect { x1: 1238, y1: 901, x2: 1439, y2: 968 },
                refresh_pos: Point { x: 1465, y: 318 },
            },
            TaskSlot {
                index: 4,
                status_rect: Rect { x1: 1560, y1: 895, x2: 1792, y2: 968 },
                refresh_pos: Point { x: 1804, y: 316 },
            },
        ]);
        r
    }

    /// What to do with slot `slot`, whose status reads `text`.
    pub fn plan_slot(&self, slot: usize, text: &str) -> (r: SlotAction)
        requires
            slot < self.slots@.len(),
        ensures
            r == slot_action(self.slots@[slot as int], text@),
    {
        let s = self.slots[slot];
        match classify_status(text) {
            SlotStatus::Claimable => {
                let r = s.status_rect;
                let cx = ((r.x1 as u32 + r.x2 as u32) / 2) as u16;
                let cy = ((r.y1 as u32 + r.y2 as u32) / 2) as u16;
                SlotAction::Claim(Point { x: cx, y: cy })
            },
            SlotStatus::Incomplete => SlotAction::Refresh(s.refresh_pos),
            _ => SlotAction::Skip,
        }
    }

    /// The gestures that carry out `action`; the cursor ends on the clicked
    /// button.
    pub fn action_gestures(&self, human: &mut HumanDriver, action: SlotAction) -> (r: Vec<Gesture>)
        ensures
            r@ == action_plan(old(human).cursor, action),
            final(human).cursor == match action {
                SlotAction::Skip => old(human).cursor,
                SlotAction::Claim(p) => p,
                SlotAction::Refresh(p) => p,
            },
    {
        match action {
            SlotAction::Skip => Vec::new(),
            SlotAction::Claim(p) => {
                let mut r = human.move_to(p.x, p.y, SLOT_MOVE_MS);
                let mut c = human.click(true, false, 0);
                r.append(&mut c);
                r.push(Gesture::Pause(POPUP_WAIT_MS));
                let mut k1 = human.key_click(' ');
                r.append(&mut k1);
                r.push(Gesture::Pause(POPUP_WAIT_MS));
                let mut k2 = human.key_click(' ');
                r.append(&mut k2);
                assert(r@ =~= action_plan(old(human).cursor, action));
                r
            },
            SlotAction::Refresh(p) => {
                let mut r = human.move_to(p.x, p.y, SLOT_MOVE_MS);
                let mut c = human.click(true, false, 0);
                r.append(&mut c);
                r.push(Gesture::Pause(REFRESH_WAIT_MS));
                assert(r@ =~= action_plan(old(human).cursor, action));
                r
            },
        }
    }
}

/// Whether another scan round is due: some slot was acted on in this one.
pub fn needs_another_round(actions: &Vec<SlotAction>) -> (r: bool)
    ensures
        r == exists|i: int| 0 <= i < actions@.len() && #[trigger] actions@[i] != SlotAction::Skip,
{
    let mut i: usize = 0;
    while i < actions.len()
        invariant
            i <= actions@.len(),
            forall|k: int| 0 <= k < i ==> #[trigger] actions@[k] == SlotAction::Skip,
        decreases actions.len() - i,
    {
        if actions[i] != SlotAction::Skip {
            return true;
        }
        i = i + 1;
    }
    false
}

} // verus!
