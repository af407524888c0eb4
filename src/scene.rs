//! The scene catalog: recognizable UI states, the visual evidence that
//! identifies each one, and the clicks that lead from one to another.

use crate::protocol::abs_int;
use crate::text::{chars_of, contains_seq, strip_white, text_matches};
use vstd::prelude::*;

verus! {

/// A pixel position on the screen.
#[derive(Clone, Copy, Debug, PartialEq, Eq, Structural)]
pub struct Point {
    pub x: u16,
    pub y: u16,
}

/// An axis-aligned pixel rectangle, corners included.
#[derive(Clone, Copy, Debug, PartialEq, Eq, Structural)]
pub struct Rect {
    pub x1: u16,
    pub y1: u16,
    pub x2: u16,
    pub y2: u16,
}

/// A 24-bit color.
#[derive(Clone, Copy, Debug, PartialEq, Eq, Structural)]
pub struct Rgb {
    pub r: u8,
    pub g: u8,
    pub b: u8,
}

/// One piece of visual evidence.
#[derive(Clone, Debug)]
pub enum Anchor {
    /// Holds when the text recognized in `rect`, whitespace removed, contains
    /// `text`.
    Text { rect: Rect, text: String },
    /// Holds when every channel of the pixel at `pos` is within `tolerance`
    /// of `color`.
    Color { pos: Point, color: Rgb, tolerance: u8 },
}

/// How a scene combines its anchors.
#[derive(Clone, Copy, Debug, PartialEq, Eq, Structural)]
pub enum Logic {
    And,
    Or,
}

/// A click that is expected to lead to scene `target`, followed by a settle
/// delay.
#[derive(Clone, Debug)]
pub struct Transition {
    pub target: String,
    pub coords: Point,
    pub post_delay_ms: u32,
}

/// A recognizable UI state.
#[derive(Clone, Debug)]
pub struct Scene {
    pub id: String,
    pub name: String,
    pub logic: Logic,
    pub anchors: Vec<Anchor>,
    pub transitions: Vec<Transition>,
    /// Set on scenes that hand control to a task module on arrival.
    pub handler: Option<String>,
}

/// What perception reported for one anchor in one screen sample.
#[derive(Clone, Debug)]
pub enum Reading {
    Text(String),
    Color(Rgb),
    /// Nothing could be read (outside the frame, recognizer failure).
    Unavailable,
}

pub open spec fn channel_within(a: u8, b: u8, tolerance: u8) -> bool {
    abs_int(a - b) <= tolerance
}

pub open spec fn color_within(c: Rgb, expected: Rgb, tolerance: u8) -> bool {
    &&& channel_within(c.r, expected.r, tolerance)
    &&& channel_within(c.g, expected.g, tolerance)
    &&& channel_within(c.b, expected.b, tolerance)
}

pub open spec fn anchor_holds(a: Anchor, reading: Reading) -> bool {
    match a {
        Anchor::Text { text: expected, .. } => match reading {
            Reading::Text(s) => contains_seq(strip_white(s@), expected@),
            _ => false,
        },
        Anchor::Color { color: expected, tolerance, .. } => match reading {
            Reading::Color(c) => color_within(c, expected, tolerance),
            _ => false,
        },
    }
}

/// The reading for anchor `j` of a row; a missing one reads as unavailable.
pub open spec fn reading_at(row: Seq<Reading>, j: int) -> Reading {
    if 0 <= j < row.len() {
        row[j]
    } else {
        Reading::Unavailable
    }
}

/// Whether `scene` is on screen, given the readings of its anchors in order:
/// all anchors hold (and) or at least one does (or). A scene without
/// anchors never matches.
pub open spec fn scene_active(scene: Scene, row: Seq<Reading>) -> bool {
    let n = scene.anchors@.len();
    n > 0 && match scene.logic {
        Logic::And => forall|j: int|
            0 <= j < n ==> #[trigger] anchor_holds(scene.anchors@[j], reading_at(row, j)),
        Logic::Or => exists|j: int|
            0 <= j < n && #[trigger] anchor_holds(scene.anchors@[j], reading_at(row, j)),
    }
}

fn channel_close(a: u8, b: u8, tolerance: u8) -> (r: bool)
    ensures
        r == channel_within(a, b, tolerance),
{
    if a >= b {
        a - b <= tolerance
    } else {
        b - a <= tolerance
    }
}

/// Whether sampled color `c` is within `tolerance` of `expected` on every
/// channel.
pub fn color_matches(c: Rgb, expected: Rgb, tolerance: u8) -> (r: bool)
    ensures
        r == color_within(c, expected, tolerance),
{
    channel_close(c.r, expected.r, tolerance) && channel_close(c.g, expected.g, tolerance)
        && channel_close(c.b, expected.b, tolerance)
}

impl Anchor {
    /// Whether this anchor holds on `reading`.
    pub fn holds(&self, reading: &Reading) -> (r: bool)
        ensures
            r == anchor_holds(*self, *reading),
    {
        match self {
            Anchor::Text { text: expected, .. } => match reading {
                Reading::Text(s) => text_matches(s.as_str(), expected.as_str()),
                _ => false,
            },
            Anchor::Color { color: expected, tolerance, .. } => match reading {
                Reading::Color(c) => color_matches(*c, *expected, *tolerance),
                _ => false,
            },
        }
    }
}

impl Scene {
    /// Whether this scene is on screen, given the readings of its anchors in
    /// order.
    pub fn is_active(&self, row: &Vec<Reading>) -> (r: bool)
        ensures
            r == scene_active(*self, row@),
    {
        let n = self.anchors.len();
        if n == 0 {
            return false;
        }
        let mut j: usize = 0;
        match self.logic {
            Logic::And => {
                while j < n
                    invariant
                        self.logic == Logic::And,
                        n == self.anchors@.len(),
                        j <= n,
                        forall|k: int|
                            0 <= k < j ==> #[trigger] anchor_holds(
                                self.anchors@[k],
                                reading_at(row@, k),
                            ),
                    decreases n - j,
                {
                    let ok = if j < row.len() {
                        self.anchors[j].holds(&row[j])
                    } else {
                        self.anchors[j].holds(&Reading::Unavailable)
                    };
                    assert(ok == anchor_holds(self.anchors@[j as int], reading_at(row@, j as int)));
                    if !ok {
                        return false;
                    }
                    j = j + 1;
                }
                true
            },
            Logic::Or => {
                while j < n
                    invariant
                        self.logic == Logic::Or,
                        n == self.anchors@.len(),
                        j <= n,
                        forall|k: int|
                            0 <= k < j ==> !#[trigger] anchor_holds(
                                self.anchors@[k],
                                reading_at(row@, k),
                            ),
                    decreases n - j,
                {
                    let ok = if j < row.len() {
                        self.anchors[j].holds(&row[j])
                    } else {
                        self.anchors[j].holds(&Reading::Unavailable)
                    };
                    assert(ok == anchor_holds(self.anchors@[j as int], reading_at(row@, j as int)));
                    if ok {
                        return true;
                    }
                    j = j + 1;
                }
                false
            },
        }
    }
}

/// A scene of two anchors combined by `and` is active exactly when both hold;
/// combined by `or`, exactly when at least one holds.
pub proof fn lemma_two_anchor_logic(scene: Scene, row: Seq<Reading>)
    requires
        scene.anchors@.len() == 2,
    ensures
        scene.logic == Logic::And ==> (scene_active(scene, row) <==> anchor_holds(
            scene.anchors@[0],
            reading_at(row, 0),
        ) && anchor_holds(scene.anchors@[1], reading_at(row, 1))),
        scene.logic == Logic::Or ==> (scene_active(scene, row) <==> anchor_holds(
            scene.anchors@[0],
            reading_at(row, 0),
        ) || anchor_holds(scene.anchors@[1], reading_at(row, 1))),
{
    if scene.logic == Logic::And {
        if anchor_holds(scene.anchors@[0], reading_at(row, 0)) && anchor_holds(
            scene.anchors@[1],
            reading_at(row, 1),
        ) {
            assert forall|j: int| 0 <= j < 2 implies #[trigger] anchor_holds(
                scene.anchors@[j],
                reading_at(row, j),
            ) by {
                if j == 0 {
                } else {
                }
            }
        }
    }
}


/// The value of a hexadecimal digit, either case.
pub open spec fn hex_digit(c: char) -> Option<int> {
    let u = c as u32;
    if 0x30 <= u <= 0x39 {
        Some(u - 0x30)
    } else if 0x61 <= u <= 0x66 {
        Some(u - 0x61 + 10)
    } else if 0x41 <= u <= 0x46 {
        Some(u - 0x41 + 10)
    } else {
        None
    }
}

pub open spec fn hex_byte(hi: char, lo: char) -> u8 {
    (hex_digit(hi)->0 * 16 + hex_digit(lo)->0) as u8
}

/// The color written `#RRGGBB`, in hexadecimal digits of either case.
pub open spec fn hex_color(s: Seq<char>) -> Option<Rgb> {
    if s.len() == 7 && s[0] == '#' && (forall|i: int| 1 <= i < 7 ==> #[trigger] hex_digit(s[i]) is Some) {
        Some(Rgb { r: hex_byte(s[1], s[2]), g: hex_byte(s[3], s[4]), b: hex_byte(s[5], s[6]) })
    } else {
        None
    }
}

fn hex_digit_value(c: char) -> (r: Option<u8>)
    ensures
        match hex_digit(c) {
            Some(v) => r == Some(v as u8) && 0 <= v < 16,
            None => r.is_none(),
        },
{
    let u = c as u32;
    if 0x30 <= u && u <= 0x39 {
        Some((u - 0x30) as u8)
    } else if 0x61 <= u && u <= 0x66 {
        Some((u - 0x61 + 10) as u8)
    } else if 0x41 <= u && u <= 0x46 {
        Some((u - 0x41 + 10) as u8)
    } else {
        None
    }
}

/// Reads a color written `#RRGGBB`.
pub fn parse_hex_color(s: &str) -> (r: Option<Rgb>)
    ensures
        r == hex_color(s@),
{
    let cs = chars_of(s);
    if cs.len() != 7 || cs[0] != '#' {
        return None;
    }
    let mut vals: Vec<u8> = Vec::new();
    let mut i: usize = 1;
    while i < 7
        invariant
            cs@ == s@,
            cs@.len() == 7,
            1 <= i <= 7,
            vals@.len() == i - 1,
            forall|k: int| 1 <= k < i ==> #[trigger] hex_digit(cs@[k]) is Some,
            forall|k: int| 1 <= k < i ==> vals@[k - 1] == #[trigger] hex_digit(cs@[k])->0 && vals@[k - 1] < 16,
        decreases 7 - i,
    {
        match hex_digit_value(cs[i]) {
            Some(v) => vals.push(v),
            None => {
                assert(!(forall|k: int| 1 <= k < 7 ==> #[trigger] hex_digit(s@[k]) is Some));
                return None;
            },
        }
        i = i + 1;
    }
    assert(vals@[0] == hex_digit(s@[1])->0);
    assert(vals@[1] == hex_digit(s@[2])->0);
    assert(vals@[2] == hex_digit(s@[3])->0);
    assert(vals@[3] == hex_digit(s@[4])->0);
    assert(vals@[4] == hex_digit(s@[5])->0);
    assert(vals@[5] == hex_digit(s@[6])->0);
    Some(Rgb { r: vals[0] * 16 + vals[1], g: vals[2] * 16 + vals[3], b: vals[4] * 16 + vals[5] })
}

pub open spec fn ascii_lower(c: char) -> char {
    if 0x41 <= (c as u32) <= 0x5A {
        ((c as u32) + 32) as char
    } else {
        c
    }
}

/// Whether `s` spells `word` (given in lower case), ignoring ASCII case.
pub open spec fn spells(s: Seq<char>, word: Seq<char>) -> bool {
    s.len() == word.len() && forall|i: int| 0 <= i < s.len() ==> ascii_lower(#[trigger] s[i]) == word[i]
}

/// The combinator written `and` or `or`, in any ASCII case.
pub open spec fn logic_of(s: Seq<char>) -> Option<Logic> {
    if spells(s, seq!['a', 'n', 'd']) {
        Some(Logic::And)
    } else if spells(s, seq!['o', 'r']) {
        Some(Logic::Or)
    } else {
        None
    }
}

fn lower_char(c: char) -> (r: char)
    ensures
        r == ascii_lower(c),
{
    let u = c as u32;
    if 0x41 <= u && u <= 0x5A {
        let l = (u as u8 + 32) as char;
        assert(l == ((c as u32) + 32) as char);
        l
    } else {
        c
    }
}

fn spells_word(cs: &Vec<char>, word: &Vec<char>) -> (r: bool)
    ensures
        r == spells(cs@, word@),
{
    if cs.len() != word.len() {
        return false;
    }
    let mut i: usize = 0;
    while i < cs.len()
        invariant
            cs@.len() == word@.len(),
            i <= cs@.len(),
            forall|k: int| 0 <= k < i ==> ascii_lower(#[trigger] cs@[k]) == word@[k],
        decreases cs.len() - i,
    {
        if lower_char(cs[i]) != word[i] {
            return false;
        }
        i = i + 1;
    }
    true
}

/// Reads a scene's combinator: `and` or `or`, in any ASCII case.
pub fn parse_logic(s: &str) -> (r: Option<Logic>)
    ensures
        r == logic_of(s@),
{
    let cs = chars_of(s);
    let and_word = vec!['a', 'n', 'd'];
    let or_word = vec!['o', 'r'];
    assert(and_word@ =~= seq!['a', 'n', 'd']);
    assert(or_word@ =~= seq!['o', 'r']);
    if spells_word(&cs, &and_word) {
        Some(Logic::And)
    } else if spells_word(&cs, &or_word) {
        Some(Logic::Or)
    } else {
        None
    }
}

/// A screen position from catalog coordinates; `None` when either lies
/// outside `0..=65535`.
pub fn screen_point(x: i32, y: i32) -> (r: Option<Point>)
    ensures
        r == (if 0 <= x <= 65535 && 0 <= y <= 65535 {
            Some(Point { x: x as u16, y: y as u16 })
        } else {
            None
        }),
{
    if 0 <= x && x <= 65535 && 0 <= y && y <= 65535 {
        Some(Point { x: x as u16, y: y as u16 })
    } else {
        None
    }
}

/// A screen rectangle from catalog corners `[x1, y1, x2, y2]`; `None` when a
/// coordinate lies outside `0..=65535`.
pub fn screen_rect(x1: i32, y1: i32, x2: i32, y2: i32) -> (r: Option<Rect>)
    ensures
        r == (if 0 <= x1 <= 65535 && 0 <= y1 <= 65535 && 0 <= x2 <= 65535 && 0 <= y2 <= 65535 {
            Some(Rect { x1: x1 as u16, y1: y1 as u16, x2: x2 as u16, y2: y2 as u16 })
        } else {
            None
        }),
{
    match (screen_point(x1, y1), screen_point(x2, y2)) {
        (Some(a), Some(b)) => Some(Rect { x1: a.x, y1: a.y, x2: b.x, y2: b.y }),
        _ => None,
    }
}

} // verus!
