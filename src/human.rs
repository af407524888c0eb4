//! The motion humanizer: turns intents (move, click, type, scroll) into timed
//! sequences of driver commands, and keeps the virtual cursor estimate from
//! which relative moves are computed.

use crate::hardware::Command;
use crate::scene::Point;
use vstd::arithmetic::div_mod::{lemma_div_by_multiple, lemma_div_is_ordered};
use vstd::prelude::*;

verus! {

/// One timed element of a gesture: a driver command, or a pause.
#[derive(Clone, Copy, Debug, PartialEq, Eq, Structural)]
pub enum Gesture {
    Input(Command),
    Pause(u32),
}

/// Interval between the steps of a move.
pub const MOVE_STEP_MS: u32 = 10;

pub const MIN_MOVE_STEPS: u32 = 5;

pub const MAX_MOVE_STEPS: u32 = 100;

/// How long a button is held in a click.
pub const CLICK_HOLD_MS: u32 = 60;

/// How long a key is held in a tap.
pub const KEY_TAP_MS: u32 = 40;

/// Gap between two wheel notches.
pub const SCROLL_GAP_MS: u32 = 30;

/// HID modifier mask of the left shift key.
pub const SHIFT_MASK: u8 = 0x02;

/// Number of steps of a move that lasts `duration_ms`.
pub open spec fn move_steps(duration_ms: u32) -> int {
    let n = duration_ms / MOVE_STEP_MS;
    if n < MIN_MOVE_STEPS {
        MIN_MOVE_STEPS as int
    } else if n > MAX_MOVE_STEPS {
        MAX_MOVE_STEPS as int
    } else {
        n as int
    }
}

/// Weight of step `k` of `n` on the smoothstep curve, out of `n * n * n`.
pub open spec fn ease_weight(k: int, n: int) -> int {
    3 * k * k * n - 2 * k * k * k
}

/// Position after step `k` of `n` on an eased path from `a` to `b`, rounded
/// toward `a`.
pub open spec fn eased(a: int, b: int, k: int, n: int) -> int {
    if b >= a {
        a + (b - a) * ease_weight(k, n) / (n * n * n)
    } else {
        a - (a - b) * ease_weight(k, n) / (n * n * n)
    }
}

proof fn lemma_ease_weight_bounds(k: int, n: int)
    requires
        0 <= k <= n,
    ensures
        0 <= ease_weight(k, n) <= n * n * n,
        ease_weight(n, n) == n * n * n,
        ease_weight(0, n) == 0,
{
    assert(ease_weight(k, n) == k * k * (3 * n - 2 * k)) by (nonlinear_arith);
    assert(k * k * (3 * n - 2 * k) >= 0) by (nonlinear_arith)
        requires
            0 <= k <= n,
    ;
    assert(n * n * n - ease_weight(k, n) == (n - k) * (n - k) * (n + 2 * k)) by (nonlinear_arith);
    assert((n - k) * (n - k) * (n + 2 * k) >= 0) by (nonlinear_arith)
        requires
            0 <= k <= n,
    ;
    assert(ease_weight(n, n) == n * n * n) by (nonlinear_arith);
    assert(ease_weight(0, n) == 0) by (nonlinear_arith);
}

/// Eased positions stay between the two ends, and the last step lands on
/// the far end.
pub proof fn lemma_eased_bounds(a: int, b: int, k: int, n: int)
    requires
        0 <= k <= n,
        0 < n,
    ensures
        a <= b ==> a <= eased(a, b, k, n) <= b,
        b < a ==> b <= eased(a, b, k, n) <= a,
        eased(a, b, n, n) == b,
        eased(a, b, 0, n) == a,
{
    lemma_ease_weight_bounds(k, n);
    lemma_ease_weight_bounds(0, n);
    let d = if b >= a { b - a } else { a - b };
    let c = n * n * n;
    assert(n * n * n > 0) by (nonlinear_arith)
        requires
            n > 0,
    ;
    assert(d * ease_weight(k, n) <= d * c) by (nonlinear_arith)
        requires
            d >= 0,
            ease_weight(k, n) <= c,
    ;
    assert(d * ease_weight(k, n) >= 0) by (nonlinear_arith)
        requires
            d >= 0,
            ease_weight(k, n) >= 0,
    ;
    lemma_div_is_ordered(d * ease_weight(k, n), d * c, c);
    lemma_div_by_multiple(d, c);
    lemma_div_is_ordered(0, d * ease_weight(k, n), c);
    assert(d * ease_weight(n, n) == d * c);
    assert(d * ease_weight(0, n) == 0);
}

/// The gestures of a move from `from` to `to` in `n` eased steps of
/// `pause_ms` each: step `k` moves by the difference between the eased
/// positions after steps `k + 1` and `k`.
pub open spec fn move_plan(from: Point, to: Point, n: int, pause_ms: u32) -> Seq<Gesture> {
    Seq::new(
        (2 * n) as nat,
        |i: int|
            if i % 2 == 0 {
                Gesture::Input(
                    Command::MouseMove(
                        (eased(from.x as int, to.x as int, i / 2 + 1, n) - eased(
                            from.x as int,
                            to.x as int,
                            i / 2,
                            n,
                        )) as i32,
                        (eased(from.y as int, to.y as int, i / 2 + 1, n) - eased(
                            from.y as int,
                            to.y as int,
                            i / 2,
                            n,
                        )) as i32,
                        0,
                    ),
                )
            } else {
                Gesture::Pause(pause_ms)
            },
    )
}

/// The net displacement of the relative moves in a gesture sequence.
pub open spec fn motion_total(g: Seq<Gesture>) -> (int, int)
    decreases g.len(),
{
    if g.len() == 0 {
        (0, 0)
    } else {
        let (x, y) = motion_total(g.drop_last());
        match g.last() {
            Gesture::Input(Command::MouseMove(dx, dy, _)) => (x + dx, y + dy),
            _ => (x, y),
        }
    }
}

proof fn lemma_move_plan_prefix(from: Point, to: Point, n: int, pause_ms: u32, k: int)
    requires
        0 < n,
        0 <= k <= n,
    ensures
        motion_total(move_plan(from, to, n, pause_ms).take(2 * k)) == (
            eased(from.x as int, to.x as int, k, n) - from.x,
            eased(from.y as int, to.y as int, k, n) - from.y,
        ),
    decreases k,
{
    let plan = move_plan(from, to, n, pause_ms);
    lemma_eased_bounds(from.x as int, to.x as int, k, n);
    lemma_eased_bounds(from.y as int, to.y as int, k, n);
    if k == 0 {
        assert(plan.take(0) =~= Seq::<Gesture>::empty());
    } else {
        lemma_move_plan_prefix(from, to, n, pause_ms, k - 1);
        lemma_eased_bounds(from.x as int, to.x as int, k - 1, n);
        lemma_eased_bounds(from.y as int, to.y as int, k - 1, n);
        let whole = plan.take(2 * k);
        assert(whole.drop_last() =~= plan.take(2 * k - 1));
        assert(plan.take(2 * k - 1).drop_last() =~= plan.take(2 * (k - 1)));
        assert(whole.last() == plan[2 * k - 1]);
        assert(plan.take(2 * k - 1).last() == plan[2 * (k - 1)]);
        assert((2 * k - 1) % 2 == 1);
        assert((2 * (k - 1)) % 2 == 0);
        assert((2 * (k - 1)) / 2 == k - 1);
        let dx = eased(from.x as int, to.x as int, k, n) - eased(from.x as int, to.x as int, k - 1, n);
        let dy = eased(from.y as int, to.y as int, k, n) - eased(from.y as int, to.y as int, k - 1, n);
        assert(-65535 <= dx <= 65535);
        assert(-65535 <= dy <= 65535);
        assert(plan[2 * (k - 1)] == Gesture::Input(Command::MouseMove(dx as i32, dy as i32, 0)));
        assert((dx as i32) as int == dx);
        assert((dy as i32) as int == dy);
        assert(motion_total(whole) == motion_total(plan.take(2 * k - 1)));
        let prev = motion_total(plan.take(2 * (k - 1)));
        assert(motion_total(plan.take(2 * k - 1)) == (prev.0 + dx, prev.1 + dy));
    }
}

/// A move's relative steps add up to the whole displacement, so the virtual
/// cursor stays exact without asking the host where the pointer is.
pub proof fn lemma_move_plan_lands(from: Point, to: Point, n: int, pause_ms: u32)
    requires
        0 < n,
    ensures
        motion_total(move_plan(from, to, n, pause_ms)) == (
            to.x - from.x,
            to.y - from.y,
        ),
{
    lemma_move_plan_prefix(from, to, n, pause_ms, n);
    lemma_eased_bounds(from.x as int, to.x as int, n, n);
    lemma_eased_bounds(from.y as int, to.y as int, n, n);
    assert(move_plan(from, to, n, pause_ms).take(2 * n) =~= move_plan(from, to, n, pause_ms));
}

/// Position after step `k` of `n` from `a` to `b`.
fn eased_coord(a: u16, b: u16, k: u64, n: u64) -> (r: u16)
    requires
        0 < n <= MAX_MOVE_STEPS,
        k <= n,
    ensures
        r as int == eased(a as int, b as int, k as int, n as int),
{
    proof {
        lemma_eased_bounds(a as int, b as int, k as int, n as int);
        lemma_ease_weight_bounds(k as int, n as int);
    }
    assert(n * n <= 10000 && k * k <= 10000) by (nonlinear_arith)
        requires
            k <= n,
            n <= 100,
    ;
    let n2: u64 = n * n;
    let k2: u64 = k * k;
    assert(n2 * n <= 1000000 && 3 * k2 * n <= 3000000 && 2 * k2 * k <= 3 * k2 * n) by (nonlinear_arith)
        requires
            n2 == n * n,
            k2 == k * k,
            k <= n,
            n <= 100,
    ;
    let c: u64 = n2 * n;
    let w: u64 = 3 * k2 * n - 2 * k2 * k;
    assert(c > 0 && c as int == n * n * n && w as int == ease_weight(k as int, n as int)) by (nonlinear_arith)
        requires
            n2 == n * n,
            k2 == k * k,
            c == n2 * n,
            w == 3 * k2 * n - 2 * k2 * k,
            n > 0,
    ;
    if b >= a {
        let d: u64 = (b - a) as u64;
        assert(d * w <= 65535 * 1000000) by (nonlinear_arith)
            requires
                d <= 65535,
                w <= 1000000,
        ;
        let off = d * w / c;
        (a as u64 + off) as u16
    } else {
        let d: u64 = (a - b) as u64;
        assert(d * w <= 65535 * 1000000) by (nonlinear_arith)
            requires
                d <= 65535,
                w <= 1000000,
        ;
        let off = d * w / c;
        (a as u64 - off) as u16
    }
}

/// The key-down modifier and HID usage code that type character `c` on a US
/// layout, if any.
pub open spec fn char_hid(c: char) -> Option<(u8, u8)> {
    let u = c as u32;
    if 0x61 <= u <= 0x7A {
        Some(((u - 0x61 + 0x04) as u8, 0u8))
    } else if 0x41 <= u <= 0x5A {
        Some(((u - 0x41 + 0x04) as u8, SHIFT_MASK))
    } else if 0x31 <= u <= 0x39 {
        Some(((u - 0x31 + 0x1E) as u8, 0u8))
    } else {
        match c {
            '0' => Some((0x27u8, 0u8)),
            '\n' => Some((0x28u8, 0u8)),
            '\u{1B}' => Some((0x29u8, 0u8)),
            '\u{8}' => Some((0x2Au8, 0u8)),
            '\t' => Some((0x2Bu8, 0u8)),
            ' ' => Some((0x2Cu8, 0u8)),
            '-' => Some((0x2Du8, 0u8)),
            '=' => Some((0x2Eu8, 0u8)),
            '[' => Some((0x2Fu8, 0u8)),
            ']' => Some((0x30u8, 0u8)),
            '\\' => Some((0x31u8, 0u8)),
            ';' => Some((0x33u8, 0u8)),
            '\'' => Some((0x34u8, 0u8)),
            '`' => Some((0x35u8, 0u8)),
            ',' => Some((0x36u8, 0u8)),
            '.' => Some((0x37u8, 0u8)),
            '/' => Some((0x38u8, 0u8)),
            '!' => Some((0x1Eu8, SHIFT_MASK)),
            '@' => Some((0x1Fu8, SHIFT_MASK)),
            '#' => Some((0x20u8, SHIFT_MASK)),
            '$' => Some((0x21u8, SHIFT_MASK)),
            '%' => Some((0x22u8, SHIFT_MASK)),
            '^' => Some((0x23u8, SHIFT_MASK)),
            '&' => Some((0x24u8, SHIFT_MASK)),
            '*' => Some((0x25u8, SHIFT_MASK)),
            '(' => Some((0x26u8, SHIFT_MASK)),
            ')' => Some((0x27u8, SHIFT_MASK)),
            '_' => Some((0x2Du8, SHIFT_MASK)),
            '+' => Some((0x2Eu8, SHIFT_MASK)),
            '{' => Some((0x2Fu8, SHIFT_MASK)),
            '}' => Some((0x30u8, SHIFT_MASK)),
            '|' => Some((0x31u8, SHIFT_MASK)),
            ':' => Some((0x33u8, SHIFT_MASK)),
            '"' => Some((0x34u8, SHIFT_MASK)),
            '~' => Some((0x35u8, SHIFT_MASK)),
            '<' => Some((0x36u8, SHIFT_MASK)),
            '>' => Some((0x37u8, SHIFT_MASK)),
            '?' => Some((0x38u8, SHIFT_MASK)),
            _ => None,
        }
    }
}

/// Resolves a character to its HID usage code and modifier mask.
pub fn char_to_hid(c: char) -> (r: Option<(u8, u8)>)
    ensures
        r == char_hid(c),
{
    let u = c as u32;
    if 0x61 <= u && u <= 0x7A {
        Some(((u - 0x61 + 0x04) as u8, 0u8))
    } else if 0x41 <= u && u <= 0x5A {
        Some(((u - 0x41 + 0x04) as u8, SHIFT_MASK))
    } else if 0x31 <= u && u <= 0x39 {
        Some(((u - 0x31 + 0x1E) as u8, 0u8))
    } else {
        match c {
            '0' => Some((0x27u8, 0u8)),
            '\n' => Some((0x28u8, 0u8)),
            '\u{1B}' => Some((0x29u8, 0u8)),
            '\u{8}' => Some((0x2Au8, 0u8)),
            '\t' => Some((0x2Bu8, 0u8)),
            ' ' => Some((0x2Cu8, 0u8)),
            '-' => Some((0x2Du8, 0u8)),
            '=' => Some((0x2Eu8, 0u8)),
            '[' => Some((0x2Fu8, 0u8)),
            ']' => Some((0x30u8, 0u8)),
            '\\' => Some((0x31u8, 0u8)),
            ';' => Some((0x33u8, 0u8)),
            '\'' => Some((0x34u8, 0u8)),
            '`' => Some((0x35u8, 0u8)),
            ',' => Some((0x36u8, 0u8)),
            '.' => Some((0x37u8, 0u8)),
            '/' => Some((0x38u8, 0u8)),
            '!' => Some((0x1Eu8, SHIFT_MASK)),
            '@' => Some((0x1Fu8, SHIFT_MASK)),
            '#' => Some((0x20u8, SHIFT_MASK)),
            '$' => Some((0x21u8, SHIFT_MASK)),
            '%' => Some((0x22u8, SHIFT_MASK)),
            '^' => Some((0x23u8, SHIFT_MASK)),
            '&' => Some((0x24u8, SHIFT_MASK)),
            '*' => Some((0x25u8, SHIFT_MASK)),
            '(' => Some((0x26u8, SHIFT_MASK)),
            ')' => Some((0x27u8, SHIFT_MASK)),
            '_' => Some((0x2Du8, SHIFT_MASK)),
            '+' => Some((0x2Eu8, SHIFT_MASK)),
            '{' => Some((0x2Fu8, SHIFT_MASK)),
            '}' => Some((0x30u8, SHIFT_MASK)),
            '|' => Some((0x31u8, SHIFT_MASK)),
            ':' => Some((0x33u8, SHIFT_MASK)),
            '"' => Some((0x34u8, SHIFT_MASK)),
            '~' => Some((0x35u8, SHIFT_MASK)),
            '<' => Some((0x36u8, SHIFT_MASK)),
            '>' => Some((0x37u8, SHIFT_MASK)),
            '?' => Some((0x38u8, SHIFT_MASK)),
            _ => None,
        }
    }
}

/// Pressing character `c` for `hold_ms`: key down, pause, key up. Nothing for
/// a character without a key.
pub open spec fn key_press(c: char, hold_ms: u32) -> Seq<Gesture> {
    match char_hid(c) {
        Some((code, modifier)) => seq![
            Gesture::Input(Command::KeyDown(code, modifier)),
            Gesture::Pause(hold_ms),
            Gesture::Input(Command::KeyUp),
        ],
        None => Seq::empty(),
    }
}

/// Jitter of character `i`; missing jitter counts as none.
pub open spec fn jitter_at(jitter: Seq<u16>, i: int) -> int {
    if 0 <= i < jitter.len() {
        jitter[i] as int
    } else {
        0
    }
}

/// Typing `cs`: a tap per character, each followed by the interval plus that
/// character's jitter.
pub open spec fn typing(cs: Seq<char>, interval_ms: u16, jitter: Seq<u16>) -> Seq<Gesture>
    decreases cs.len(),
{
    if cs.len() == 0 {
        Seq::empty()
    } else {
        typing(cs.drop_last(), interval_ms, jitter) + key_press(cs.last(), KEY_TAP_MS) + seq![
            Gesture::Pause((interval_ms + jitter_at(jitter, cs.len() - 1)) as u32),
        ]
    }
}

/// Scrolling `amount` notches: one wheel notch in the direction of its sign,
/// then a gap, per notch.
pub open spec fn scroll_plan(amount: int) -> Seq<Gesture> {
    Seq::new(
        (2 * (if amount < 0 { -amount } else { amount })) as nat,
        |i: int|
            if i % 2 == 0 {
                Gesture::Input(Command::MouseMove(0, 0, if amount < 0 { -1i8 } else { 1i8 }))
            } else {
                Gesture::Pause(SCROLL_GAP_MS)
            },
    )
}

/// The humanizer's state: where it believes the cursor is.
pub struct HumanDriver {
    pub cursor: Point,
}

impl HumanDriver {
    pub fn new(x: u16, y: u16) -> (r: Self)
        ensures
            r.cursor == (Point { x, y }),
    {
        HumanDriver { cursor: Point { x, y } }
    }

    /// Moves the cursor to `(x, y)` over about `duration_ms`, in eased
    /// relative steps, and records the new position.
    pub fn move_to(&mut self, x: u16, y: u16, duration_ms: u32) -> (r: Vec<Gesture>)
        ensures
            final(self).cursor == (Point { x, y }),
            r@ == move_plan(
                old(self).cursor,
                Point { x, y },
                move_steps(duration_ms),
                duration_ms / (move_steps(duration_ms) as u32),
            ),
    {
        let mut n: u32 = duration_ms / MOVE_STEP_MS;
        if n < MIN_MOVE_STEPS {
            n = MIN_MOVE_STEPS;
        } else if n > MAX_MOVE_STEPS {
            n = MAX_MOVE_STEPS;
        }
        let pause = duration_ms / n;
        let from = self.cursor;
        let to = Point { x, y };
        let ghost plan = move_plan(from, to, n as int, pause);
        let mut r: Vec<Gesture> = Vec::new();
        let mut px: u16 = from.x;
        let mut py: u16 = from.y;
        let mut k: u32 = 0;
        proof {
            lemma_eased_bounds(from.x as int, to.x as int, 0, n as int);
            lemma_eased_bounds(from.y as int, to.y as int, 0, n as int);
        }
        while k < n
            invariant
                0 < n <= MAX_MOVE_STEPS,
                k <= n,
                plan == move_plan(from, to, n as int, pause),
                px as int == eased(from.x as int, to.x as int, k as int, n as int),
                py as int == eased(from.y as int, to.y as int, k as int, n as int),
                r@ == plan.take(2 * k as int),
            decreases n - k,
        {
            let nx = eased_coord(from.x, to.x, (k + 1) as u64, n as u64);
            let ny = eased_coord(from.y, to.y, (k + 1) as u64, n as u64);
            let dx = nx as i32 - px as i32;
            let dy = ny as i32 - py as i32;
            r.push(Gesture::Input(Command::MouseMove(dx, dy, 0)));
            r.push(Gesture::Pause(pause));
            assert(plan[2 * k as int] == Gesture::Input(Command::MouseMove(dx, dy, 0)));
            assert(plan[2 * k as int + 1] == Gesture::Pause(pause));
            assert(r@ =~= plan.take(2 * (k + 1) as int));
            px = nx;
            py = ny;
            k = k + 1;
        }
        assert(r@ =~= plan);
        self.cursor = to;
        r
    }

    /// A click: button down, a short hold plus `extra_delay_ms`, button up.
    pub fn click(&self, left: bool, right: bool, extra_delay_ms: u32) -> (r: Vec<Gesture>)
        ensures
            r@ == seq![
                Gesture::Input(Command::MouseDown(left, right)),
                Gesture::Pause(
                    if extra_delay_ms <= u32::MAX - CLICK_HOLD_MS {
                        (CLICK_HOLD_MS + extra_delay_ms) as u32
                    } else {
                        u32::MAX
                    },
                ),
                Gesture::Input(Command::MouseUp),
            ],
    {
        let hold = if extra_delay_ms <= u32::MAX - CLICK_HOLD_MS {
            CLICK_HOLD_MS + extra_delay_ms
        } else {
            u32::MAX
        };
        let r = vec![
            Gesture::Input(Command::MouseDown(left, right)),
            Gesture::Pause(hold),
            Gesture::Input(Command::MouseUp),
        ];
        assert(r@ =~= seq![
            Gesture::Input(Command::MouseDown(left, right)),
            Gesture::Pause(hold),
            Gesture::Input(Command::MouseUp),
        ]);
        r
    }

    /// Holds the key of character `c` for `hold_ms`.
    pub fn key_hold(&self, c: char, hold_ms: u32) -> (r: Vec<Gesture>)
        ensures
            r@ == key_press(c, hold_ms),
    {
        let mut r: Vec<Gesture> = Vec::new();
        if let Some((code, modifier)) = char_to_hid(c) {
            r.push(Gesture::Input(Command::KeyDown(code, modifier)));
            r.push(Gesture::Pause(hold_ms));
            r.push(Gesture::Input(Command::KeyUp));
        }
        assert(r@ =~= key_press(c, hold_ms));
        r
    }

    /// Taps the key of character `c`.
    pub fn key_click(&self, c: char) -> (r: Vec<Gesture>)
        ensures
            r@ == key_press(c, KEY_TAP_MS),
    {
        self.key_hold(c, KEY_TAP_MS)
    }

    /// Types `text`, one tap per character, spaced by `interval_ms` plus the
    /// character's entry of `jitter_ms`.
    pub fn type_text(&self, text: &str, interval_ms: u16, jitter_ms: &Vec<u16>) -> (r: Vec<
        Gesture,
    >)
        ensures
            r@ == typing(text@, interval_ms, jitter_ms@),
    {
        let cs = crate::text::chars_of(text);
        let mut r: Vec<Gesture> = Vec::new();
        let mut i: usize = 0;
        while i < cs.len()
            invariant
                cs@ == text@,
                i <= cs@.len(),
                r@ == typing(cs@.take(i as int), interval_ms, jitter_ms@),
            decreases cs.len() - i,
        {
            let tap = self.key_click(cs[i]);
            let j: u32 = if i < jitter_ms.len() {
                jitter_ms[i] as u32
            } else {
                0
            };
            let ghost before = r@;
            let mut t: usize = 0;
            while t < tap.len()
                invariant
                    t <= tap@.len(),
                    r@ == before + tap@.take(t as int),
                decreases tap.len() - t,
            {
                r.push(tap[t]);
                assert(tap@.take(t as int + 1) =~= tap@.take(t as int).push(tap@[t as int]));
                assert(r@ =~= before + tap@.take(t as int + 1));
                t = t + 1;
            }
            r.push(Gesture::Pause(interval_ms as u32 + j));
            assert(tap@.take(t as int) =~= tap@);
            assert(cs@.take(i as int + 1).drop_last() =~= cs@.take(i as int));
            assert(cs@.take(i as int + 1).last() == cs@[i as int]);
            assert(r@ =~= typing(cs@.take(i as int + 1), interval_ms, jitter_ms@));
            i = i + 1;
        }
        assert(cs@.take(i as int) =~= cs@);
        r
    }

    /// Turns the wheel `amount` notches, one at a time; negative turns down.
    pub fn scroll(&self, amount: i32) -> (r: Vec<Gesture>)
        ensures
            r@ == scroll_plan(amount as int),
    {
        let notch: i8 = if amount < 0 {
            -1
        } else {
            1
        };
        let count: u64 = if amount < 0 {
            (-(amount as i64)) as u64
        } else {
            amount as u64
        };
        let ghost plan = scroll_plan(amount as int);
        let mut r: Vec<Gesture> = Vec::new();
        let mut i: u64 = 0;
        while i < count
            invariant
                i <= count,
                count == (if amount < 0 { -(amount as int) } else { amount as int }),
                plan == scroll_plan(amount as int),
                notch == (if amount < 0 { -1i8 } else { 1i8 }),
                r@ == plan.take(2 * i as int),
            decreases count - i,
        {
            r.push(Gesture::Input(Command::MouseMove(0, 0, notch)));
            r.push(Gesture::Pause(SCROLL_GAP_MS));
            assert(r@ =~= plan.take(2 * (i + 1) as int));
            i = i + 1;
        }
        assert(r@ =~= plan);
        r
    }
}

} // verus!
