//! The 11-byte frame protocol spoken to the HID-emulating device.

use byteorder::{ByteOrder, LittleEndian};
use vstd::prelude::*;

verus! {

pub const FRAME_HEAD: u8 = 0xAA;

pub const FRAME_TAIL: u8 = 0x55;

/// Largest displacement, per axis, that one relative-motion frame carries.
pub const MAX_STEP: i32 = 127;

/// Bounds of the device's absolute coordinate space after inward clamping.
pub const ABS_MIN: u16 = 10;

pub const ABS_MAX: u16 = 32757;

/// Full scale of the device's 15-bit absolute coordinate space.
pub const ABS_SCALE: u64 = 32767;

pub const CMD_SET_ID: u8 = 0x10;

pub const CMD_HEARTBEAT: u8 = 0xFF;

/// Kind of event carried in byte 1 of a frame.
#[derive(Clone, Copy, Debug, PartialEq, Eq, Structural)]
pub enum EventType {
    Keyboard,
    MouseRel,
    MouseAbs,
    System,
}

impl EventType {
    pub open spec fn spec_code(self) -> u8 {
        match self {
            EventType::Keyboard => 0x01,
            EventType::MouseRel => 0x02,
            EventType::MouseAbs => 0x03,
            EventType::System => 0x04,
        }
    }

    pub fn code(self) -> (r: u8)
        ensures
            r == self.spec_code(),
    {
        match self {
            EventType::Keyboard => 0x01,
            EventType::MouseRel => 0x02,
            EventType::MouseAbs => 0x03,
            EventType::System => 0x04,
        }
    }
}

/// Little-endian bytes of an unsigned 16-bit value `n` (`0 <= n < 65536`).
pub open spec fn le16(n: int) -> Seq<u8> {
    seq![(n % 256) as u8, (n / 256) as u8]
}

/// Little-endian two's-complement bytes of a signed 16-bit value.
pub open spec fn le16_signed(v: int) -> Seq<u8> {
    le16(if v < 0 { v + 65536 } else { v })
}

/// The bytes of one frame: head, event type, six payload bytes, the
/// little-endian post-send delay, tail.
pub open spec fn frame_bytes(kind: u8, payload: Seq<u8>, delay_ms: u16) -> Seq<u8> {
    seq![FRAME_HEAD, kind] + payload + le16(delay_ms as int) + seq![FRAME_TAIL]
}

/// Relies on byteorder's `LittleEndian::write_u16`: writes `n` low byte first.
#[verifier::external_body]
fn u16_le_bytes(n: u16) -> (r: [u8; 2])
    ensures
        r@ == le16(n as int),
{
    let mut b = [0u8; 2];
    LittleEndian::write_u16(&mut b, n);
    b
}

/// Relies on byteorder's `LittleEndian::write_i16`: writes the two's-complement
/// bits of `n` low byte first.
#[verifier::external_body]
fn i16_le_bytes(n: i16) -> (r: [u8; 2])
    ensures
        r@ == le16_signed(n as int),
{
    let mut b = [0u8; 2];
    LittleEndian::write_i16(&mut b, n);
    b
}

/// Encodes one frame.
pub fn encode_frame(kind: EventType, payload: [u8; 6], delay_ms: u16) -> (r: [u8; 11])
    ensures
        r@ == frame_bytes(kind.spec_code(), payload@, delay_ms),
{
    let d = u16_le_bytes(delay_ms);
    let r = [
        FRAME_HEAD,
        kind.code(),
        payload[0],
        payload[1],
        payload[2],
        payload[3],
        payload[4],
        payload[5],
        d[0],
        d[1],
        FRAME_TAIL,
    ];
    assert(r@ =~= frame_bytes(kind.spec_code(), payload@, delay_ms));
    r
}


pub open spec fn clamp_int(v: int, lo: int, hi: int) -> int {
    if v < lo {
        lo
    } else if v > hi {
        hi
    } else {
        v
    }
}

/// Device coordinate of screen coordinate `v` on an axis `extent` pixels long:
/// `v / extent` of the full scale, rounded to nearest, clamped inward.
/// A zero extent maps the origin to the low bound and every other
/// coordinate to the high bound.
pub open spec fn abs_coord(v: int, extent: int) -> int {
    if extent == 0 {
        if v == 0 {
            ABS_MIN as int
        } else {
            ABS_MAX as int
        }
    } else {
        clamp_int((2 * v * ABS_SCALE + extent) / (2 * extent), ABS_MIN as int, ABS_MAX as int)
    }
}

/// Rescales a screen coordinate into the device's absolute coordinate space.
pub fn scale_abs(v: u16, extent: u16) -> (r: u16)
    ensures
        r as int == abs_coord(v as int, extent as int),
        ABS_MIN <= r <= ABS_MAX,
{
    if extent == 0 {
        return if v == 0 {
            ABS_MIN
        } else {
            ABS_MAX
        };
    }
    let v64 = v as u64;
    let e64 = extent as u64;
    assert(2 * v64 * ABS_SCALE + e64 <= 2 * 65535 * 32767 + 65535) by (nonlinear_arith)
        requires
            v64 <= 65535,
            e64 <= 65535,
    ;
    let q = (2 * v64 * ABS_SCALE + e64) / (2 * e64);
    if q < ABS_MIN as u64 {
        ABS_MIN
    } else if q > ABS_MAX as u64 {
        ABS_MAX
    } else {
        q as u16
    }
}

pub open spec fn abs_payload(tx: int, ty: int) -> Seq<u8> {
    seq![0u8, 0u8] + le16(tx) + le16(ty)
}

/// Absolute move to screen point `(x, y)` on a `screen_w` by `screen_h` screen.
pub open spec fn abs_frame_bytes(x: u16, y: u16, screen_w: u16, screen_h: u16) -> Seq<u8> {
    frame_bytes(
        EventType::MouseAbs.spec_code(),
        abs_payload(abs_coord(x as int, screen_w as int), abs_coord(y as int, screen_h as int)),
        0,
    )
}

pub fn abs_frame(x: u16, y: u16, screen_w: u16, screen_h: u16) -> (r: [u8; 11])
    ensures
        r@ == abs_frame_bytes(x, y, screen_w, screen_h),
{
    let tx = u16_le_bytes(scale_abs(x, screen_w));
    let ty = u16_le_bytes(scale_abs(y, screen_h));
    let payload = [0u8, 0u8, tx[0], tx[1], ty[0], ty[1]];
    assert(payload@ =~= abs_payload(
        abs_coord(x as int, screen_w as int),
        abs_coord(y as int, screen_h as int),
    ));
    encode_frame(EventType::MouseAbs, payload, 0)
}

/// The wheel value as the device reads it: its two's-complement byte.
pub open spec fn wheel_byte(w: i8) -> u8 {
    (if w < 0 { w as int + 256 } else { w as int }) as u8
}

pub open spec fn wheel_frame_bytes(w: i8) -> Seq<u8> {
    frame_bytes(EventType::MouseRel.spec_code(), seq![0u8, wheel_byte(w), 0u8, 0u8, 0u8, 0u8], 0)
}

pub fn wheel_frame(w: i8) -> (r: [u8; 11])
    ensures
        r@ == wheel_frame_bytes(w),
{
    let b: u8 = if w < 0 {
        (w as i16 + 256) as u8
    } else {
        w as u8
    };
    let payload = [0u8, b, 0u8, 0u8, 0u8, 0u8];
    assert(payload@ =~= seq![0u8, wheel_byte(w), 0u8, 0u8, 0u8, 0u8]);
    encode_frame(EventType::MouseRel, payload, 0)
}

pub open spec fn motion_frame_bytes(sx: int, sy: int) -> Seq<u8> {
    frame_bytes(
        EventType::MouseRel.spec_code(),
        seq![0u8, 0u8] + le16_signed(sx) + le16_signed(sy),
        0,
    )
}

pub fn motion_frame(sx: i16, sy: i16) -> (r: [u8; 11])
    ensures
        r@ == motion_frame_bytes(sx as int, sy as int),
{
    let bx = i16_le_bytes(sx);
    let by = i16_le_bytes(sy);
    let payload = [0u8, 0u8, bx[0], bx[1], by[0], by[1]];
    assert(payload@ =~= seq![0u8, 0u8] + le16_signed(sx as int) + le16_signed(sy as int));
    encode_frame(EventType::MouseRel, payload, 0)
}

pub open spec fn clamp_step(v: int) -> int {
    clamp_int(v, -(MAX_STEP as int), MAX_STEP as int)
}

pub open spec fn abs_int(v: int) -> int {
    if v < 0 {
        -v
    } else {
        v
    }
}

/// How a relative displacement is cut into single-frame steps: each step moves
/// every axis by as much of what is left as one frame carries.
pub open spec fn motion_steps(dx: int, dy: int) -> Seq<(int, int)>
    decreases abs_int(dx) + abs_int(dy),
{
    if dx == 0 && dy == 0 {
        Seq::empty()
    } else {
        let sx = clamp_step(dx);
        let sy = clamp_step(dy);
        seq![(sx, sy)] + motion_steps(dx - sx, dy - sy)
    }
}

pub open spec fn sum_x(s: Seq<(int, int)>) -> int
    decreases s.len(),
{
    if s.len() == 0 {
        0
    } else {
        s[0].0 + sum_x(s.drop_first())
    }
}

pub open spec fn sum_y(s: Seq<(int, int)>) -> int
    decreases s.len(),
{
    if s.len() == 0 {
        0
    } else {
        s[0].1 + sum_y(s.drop_first())
    }
}

pub open spec fn steps_view(s: Seq<(i16, i16)>) -> Seq<(int, int)> {
    s.map_values(|p: (i16, i16)| (p.0 as int, p.1 as int))
}

/// Cuts a relative displacement into single-frame steps.
pub fn split_motion(dx: i32, dy: i32) -> (r: Vec<(i16, i16)>)
    ensures
        steps_view(r@) == motion_steps(dx as int, dy as int),
{
    let mut r: Vec<(i16, i16)> = Vec::new();
    let mut cx: i32 = dx;
    let mut cy: i32 = dy;
    while cx != 0 || cy != 0
        invariant
            steps_view(r@) + motion_steps(cx as int, cy as int) == motion_steps(dx as int, dy as int),
        decreases abs_int(cx as int) + abs_int(cy as int),
    {
        let sx: i32 = if cx > MAX_STEP {
            MAX_STEP
        } else if cx < -MAX_STEP {
            -MAX_STEP
        } else {
            cx
        };
        let sy: i32 = if cy > MAX_STEP {
            MAX_STEP
        } else if cy < -MAX_STEP {
            -MAX_STEP
        } else {
            cy
        };
        let ghost before = r@;
        r.push((sx as i16, sy as i16));
        assert(steps_view(r@) =~= steps_view(before) + seq![(sx as int, sy as int)]);
        assert(motion_steps(cx as int, cy as int) =~= seq![(sx as int, sy as int)] + motion_steps(
            cx as int - sx as int,
            cy as int - sy as int,
        ));
        cx = cx - sx;
        cy = cy - sy;
        assert(steps_view(r@) + motion_steps(cx as int, cy as int) =~= steps_view(before)
            + (seq![(sx as int, sy as int)] + motion_steps(cx as int, cy as int)));
    }
    assert(steps_view(r@) =~= steps_view(r@) + motion_steps(0, 0));
    r
}

/// Every step of a split displacement fits in one frame, and the steps add up
/// to the displacement exactly.
pub proof fn lemma_motion_steps_exact(dx: int, dy: int)
    ensures
        forall|k: int|
            0 <= k < motion_steps(dx, dy).len() ==> -MAX_STEP <= #[trigger] motion_steps(dx, dy)[k].0
                <= MAX_STEP && -MAX_STEP <= motion_steps(dx, dy)[k].1 <= MAX_STEP,
        sum_x(motion_steps(dx, dy)) == dx,
        sum_y(motion_steps(dx, dy)) == dy,
    decreases abs_int(dx) + abs_int(dy),
{
    if dx == 0 && dy == 0 {
    } else {
        let sx = clamp_step(dx);
        let sy = clamp_step(dy);
        let rest = motion_steps(dx - sx, dy - sy);
        lemma_motion_steps_exact(dx - sx, dy - sy);
        let s = motion_steps(dx, dy);
        assert(s =~= seq![(sx, sy)] + rest);
        assert(s.drop_first() =~= rest);
        assert forall|k: int| 0 <= k < s.len() implies -MAX_STEP <= #[trigger] s[k].0 <= MAX_STEP
            && -MAX_STEP <= s[k].1 <= MAX_STEP by {
            if k > 0 {
                assert(s[k] == rest[k - 1]);
            }
        }
    }
}


pub open spec fn system_frame_bytes(cmd: u8, arg: u8) -> Seq<u8> {
    frame_bytes(EventType::System.spec_code(), seq![cmd, arg, 0u8, 0u8, 0u8, 0u8], 0)
}

/// A system frame: `CMD_HEARTBEAT` keeps the link alive, `CMD_SET_ID` switches
/// the device identity to `arg`.
pub fn system_frame(cmd: u8, arg: u8) -> (r: [u8; 11])
    ensures
        r@ == system_frame_bytes(cmd, arg),
{
    let payload = [cmd, arg, 0u8, 0u8, 0u8, 0u8];
    assert(payload@ =~= seq![cmd, arg, 0u8, 0u8, 0u8, 0u8]);
    encode_frame(EventType::System, payload, 0)
}

pub open spec fn button_mask(left: bool, right: bool) -> u8 {
    ((if left { 1int } else { 0int }) + (if right { 2int } else { 0int })) as u8
}

/// Button state frame: bit 0 holds the left button, bit 1 the right one; an
/// all-zero mask releases both.
pub open spec fn button_frame_bytes(mask: u8) -> Seq<u8> {
    frame_bytes(EventType::MouseRel.spec_code(), seq![mask, 0u8, 0u8, 0u8, 0u8, 0u8], 0)
}

pub fn button_frame(left: bool, right: bool) -> (r: [u8; 11])
    ensures
        r@ == button_frame_bytes(button_mask(left, right)),
{
    let mut mask: u8 = 0;
    if left {
        mask = mask + 1;
    }
    if right {
        mask = mask + 2;
    }
    let payload = [mask, 0u8, 0u8, 0u8, 0u8, 0u8];
    assert(payload@ =~= seq![button_mask(left, right), 0u8, 0u8, 0u8, 0u8, 0u8]);
    encode_frame(EventType::MouseRel, payload, 0)
}

pub open spec fn key_down_frame_bytes(keycode: u8, modifier: u8) -> Seq<u8> {
    frame_bytes(EventType::Keyboard.spec_code(), seq![keycode, 0u8, modifier, 0u8, 0u8, 0u8], 0)
}

pub fn key_down_frame(keycode: u8, modifier: u8) -> (r: [u8; 11])
    ensures
        r@ == key_down_frame_bytes(keycode, modifier),
{
    let payload = [keycode, 0u8, modifier, 0u8, 0u8, 0u8];
    assert(payload@ =~= seq![keycode, 0u8, modifier, 0u8, 0u8, 0u8]);
    encode_frame(EventType::Keyboard, payload, 0)
}

pub open spec fn key_up_frame_bytes() -> Seq<u8> {
    frame_bytes(EventType::Keyboard.spec_code(), seq![0u8, 0x80u8, 0u8, 0u8, 0u8, 0u8], 0)
}

pub fn key_up_frame() -> (r: [u8; 11])
    ensures
        r@ == key_up_frame_bytes(),
{
    let payload = [0u8, 0x80u8, 0u8, 0u8, 0u8, 0u8];
    assert(payload@ =~= seq![0u8, 0x80u8, 0u8, 0u8, 0u8, 0u8]);
    encode_frame(EventType::Keyboard, payload, 0)
}

/// The frames of a relative move: a wheel frame first when the wheel turns,
/// then one motion frame per step of the split displacement.
pub open spec fn move_frames(dx: int, dy: int, wheel: i8) -> Seq<Seq<u8>> {
    (if wheel != 0 {
        seq![wheel_frame_bytes(wheel)]
    } else {
        Seq::empty()
    }) + motion_steps(dx, dy).map_values(|st: (int, int)| motion_frame_bytes(st.0, st.1))
}

pub open spec fn frames_view(s: Seq<[u8; 11]>) -> Seq<Seq<u8>> {
    s.map_values(|f: [u8; 11]| f@)
}

/// Appends to `out` the frames of a relative move.
pub fn push_move_frames(out: &mut Vec<[u8; 11]>, dx: i32, dy: i32, wheel: i8)
    ensures
        frames_view(final(out)@) == frames_view(old(out)@) + move_frames(
            dx as int,
            dy as int,
            wheel,
        ),
{
    let ghost base = frames_view(out@);
    if wheel != 0 {
        let f = wheel_frame(wheel);
        out.push(f);
    }
    let ghost head = frames_view(out@);
    assert(head =~= base + (if wheel != 0 {
        seq![wheel_frame_bytes(wheel)]
    } else {
        Seq::empty()
    }));
    let steps = split_motion(dx, dy);
    let ghost all = steps_view(steps@);
    let ghost f = |st: (int, int)| motion_frame_bytes(st.0, st.1);
    let mut i: usize = 0;
    while i < steps.len()
        invariant
            i <= steps.len(),
            all == steps_view(steps@),
            f == (|st: (int, int)| motion_frame_bytes(st.0, st.1)),
            frames_view(out@) == head + all.take(i as int).map_values(f),
        decreases steps.len() - i,
    {
        let (sx, sy) = steps[i];
        let fr = motion_frame(sx, sy);
        let ghost prev = out@;
        out.push(fr);
        assert(all.take(i as int + 1) =~= all.take(i as int).push(all[i as int]));
        assert(all.take(i as int + 1).map_values(f) =~= all.take(i as int).map_values(f).push(
            f(all[i as int]),
        ));
        assert(frames_view(out@) =~= frames_view(prev).push(fr@));
        i = i + 1;
    }
    assert(all.take(i as int) =~= all);
}

} // verus!
