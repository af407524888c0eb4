//! The actuation port: one capability set, two backends. The wire driver
//! encodes every call as device frames; the injection driver turns it into
//! host input-injection events. Both queue their output for the caller to
//! deliver.

use crate::protocol::{
    abs_frame, abs_frame_bytes, button_frame, button_frame_bytes, button_mask, frames_view,
    key_down_frame, key_down_frame_bytes, key_up_frame, key_up_frame_bytes, move_frames,
    push_move_frames, system_frame, system_frame_bytes, CMD_HEARTBEAT, CMD_SET_ID,
};
use vstd::prelude::*;

verus! {

/// The capability set shared by both backends.
pub trait InputDriver {
    fn heartbeat(&mut self);

    fn mouse_abs(&mut self, x: u16, y: u16);

    fn mouse_move(&mut self, dx: i32, dy: i32, wheel: i8);

    fn mouse_down(&mut self, left: bool, right: bool);

    fn mouse_up(&mut self);

    fn key_down(&mut self, keycode: u8, modifier: u8);

    fn key_up(&mut self);

    fn switch_identity(&mut self, index: u8);
}

/// One call of the capability set, as a value.
#[derive(Clone, Copy, Debug, PartialEq, Eq, Structural)]
pub enum Command {
    Heartbeat,
    MouseAbs(u16, u16),
    MouseMove(i32, i32, i8),
    MouseDown(bool, bool),
    MouseUp,
    KeyDown(u8, u8),
    KeyUp,
    SwitchIdentity(u8),
}

/// Emulated-hardware backend: each call becomes one or more 11-byte frames,
/// queued until the caller takes them and writes them to the serial link.
pub struct HardwareDriver {
    pub screen_w: u16,
    pub screen_h: u16,
    /// Frames queued for the serial link, oldest first.
    pub outbox: Vec<[u8; 11]>,
}

impl HardwareDriver {
    /// Frames queued and not yet taken.
    pub open spec fn frames(&self) -> Seq<Seq<u8>> {
        frames_view(self.outbox@)
    }

    /// The frames that one command produces.
    pub open spec fn command_frames(&self, cmd: Command) -> Seq<Seq<u8>> {
        match cmd {
            Command::Heartbeat => seq![system_frame_bytes(CMD_HEARTBEAT, 0)],
            Command::SwitchIdentity(i) => seq![system_frame_bytes(CMD_SET_ID, i)],
            Command::MouseAbs(x, y) => seq![abs_frame_bytes(x, y, self.screen_w, self.screen_h)],
            Command::MouseMove(dx, dy, w) => move_frames(dx as int, dy as int, w),
            Command::MouseDown(l, r) => seq![button_frame_bytes(button_mask(l, r))],
            Command::MouseUp => seq![button_frame_bytes(0)],
            Command::KeyDown(k, m) => seq![key_down_frame_bytes(k, m)],
            Command::KeyUp => seq![key_up_frame_bytes()],
        }
    }

    /// The driver after `cmd`: same screen, its frames queued.
    pub open spec fn performed(&self, after: &Self, cmd: Command) -> bool {
        &&& after.screen_w == self.screen_w
        &&& after.screen_h == self.screen_h
        &&& after.frames() == self.frames() + self.command_frames(cmd)
    }

    pub fn new(screen_w: u16, screen_h: u16) -> (r: Self)
        ensures
            r.screen_w == screen_w,
            r.screen_h == screen_h,
            r.frames() == Seq::<Seq<u8>>::empty(),
    {
        let r = HardwareDriver { screen_w, screen_h, outbox: Vec::new() };
        assert(r.frames() =~= Seq::<Seq<u8>>::empty());
        r
    }

    /// Hands over the queued frames, oldest first, and empties the queue.
    pub fn take_frames(&mut self) -> (r: Vec<[u8; 11]>)
        ensures
            frames_view(r@) == old(self).frames(),
            final(self).frames() == Seq::<Seq<u8>>::empty(),
            final(self).screen_w == old(self).screen_w,
            final(self).screen_h == old(self).screen_h,
    {
        let mut out: Vec<[u8; 11]> = Vec::new();
        core::mem::swap(&mut out, &mut self.outbox);
        assert(self.frames() =~= Seq::<Seq<u8>>::empty());
        out
    }

    fn push_frame(&mut self, f: [u8; 11])
        ensures
            final(self).frames() == old(self).frames().push(f@),
            final(self).screen_w == old(self).screen_w,
            final(self).screen_h == old(self).screen_h,
    {
        self.outbox.push(f);
        assert(self.frames() =~= old(self).frames().push(f@));
    }

    /// Performs one command.
    pub fn apply(&mut self, cmd: Command)
        ensures
            old(self).performed(final(self), cmd),
    {
        match cmd {
            Command::Heartbeat => self.heartbeat(),
            Command::MouseAbs(x, y) => self.mouse_abs(x, y),
            Command::MouseMove(dx, dy, w) => self.mouse_move(dx, dy, w),
            Command::MouseDown(l, r) => self.mouse_down(l, r),
            Command::MouseUp => self.mouse_up(),
            Command::KeyDown(k, m) => self.key_down(k, m),
            Command::KeyUp => self.key_up(),
            Command::SwitchIdentity(i) => self.switch_identity(i),
        }
    }
}

impl InputDriver for HardwareDriver {
    fn heartbeat(&mut self)
        ensures
            old(self).performed(final(self), Command::Heartbeat),
    {
        self.push_frame(system_frame(CMD_HEARTBEAT, 0));
        assert(self.frames() =~= old(self).frames() + old(self).command_frames(Command::Heartbeat));
    }

    fn mouse_abs(&mut self, x: u16, y: u16)
        ensures
            old(self).performed(final(self), Command::MouseAbs(x, y)),
    {
        let f = abs_frame(x, y, self.screen_w, self.screen_h);
        self.push_frame(f);
        assert(self.frames() =~= old(self).frames() + old(self).command_frames(
            Command::MouseAbs(x, y),
        ));
    }

    fn mouse_move(&mut self, dx: i32, dy: i32, wheel: i8)
        ensures
            old(self).performed(final(self), Command::MouseMove(dx, dy, wheel)),
    {
        push_move_frames(&mut self.outbox, dx, dy, wheel);
    }

    fn mouse_down(&mut self, left: bool, right: bool)
        ensures
            old(self).performed(final(self), Command::MouseDown(left, right)),
    {
        self.push_frame(button_frame(left, right));
        assert(self.frames() =~= old(self).frames() + old(self).command_frames(
            Command::MouseDown(left, right),
        ));
    }

    fn mouse_up(&mut self)
        ensures
            old(self).performed(final(self), Command::MouseUp),
    {
        self.push_frame(button_frame(false, false));
        assert(self.frames() =~= old(self).frames() + old(self).command_frames(Command::MouseUp));
    }

    fn key_down(&mut self, keycode: u8, modifier: u8)
        ensures
            old(self).performed(final(self), Command::KeyDown(keycode, modifier)),
    {
        self.push_frame(key_down_frame(keycode, modifier));
        assert(self.frames() =~= old(self).frames() + old(self).command_frames(
            Command::KeyDown(keycode, modifier),
        ));
    }

    fn key_up(&mut self)
        ensures
            old(self).performed(final(self), Command::KeyUp),
    {
        self.push_frame(key_up_frame());
        assert(self.frames() =~= old(self).frames() + old(self).command_frames(Command::KeyUp));
    }

    fn switch_identity(&mut self, index: u8)
        ensures
            old(self).performed(final(self), Command::SwitchIdentity(index)),
    {
        self.push_frame(system_frame(CMD_SET_ID, index));
        assert(self.frames() =~= old(self).frames() + old(self).command_frames(
            Command::SwitchIdentity(index),
        ));
    }
}


/// A key as the host injection API names it.
#[derive(Clone, Copy, Debug, PartialEq, Eq, Structural)]
pub enum Key {
    Unicode(char),
    Return,
    Escape,
    Backspace,
    Tab,
    Space,
    Control,
    Shift,
    Alt,
}

#[derive(Clone, Copy, Debug, PartialEq, Eq, Structural)]
pub enum Direction {
    Press,
    Release,
}

#[derive(Clone, Copy, Debug, PartialEq, Eq, Structural)]
pub enum MouseButton {
    Left,
    Right,
}

/// One host input-injection call.
#[derive(Clone, Copy, Debug, PartialEq, Eq, Structural)]
pub enum Injection {
    MoveAbs(i32, i32),
    MoveRel(i32, i32),
    Scroll(i32),
    Button(MouseButton, Direction),
    Key(Key, Direction),
}

/// The host key of a HID usage code: letters, digits, the editing keys, the
/// punctuation keys of a US layout, and the left control, shift and alt keys.
pub open spec fn hid_key(hid: u8) -> Option<Key> {
    if 0x04 <= hid <= 0x1D {
        Some(Key::Unicode((('a' as int) + (hid - 0x04)) as char))
    } else if 0x1E <= hid <= 0x26 {
        Some(Key::Unicode((('1' as int) + (hid - 0x1E)) as char))
    } else {
        match hid {
            0x27 => Some(Key::Unicode('0')),
            0x28 => Some(Key::Return),
            0x29 => Some(Key::Escape),
            0x2A => Some(Key::Backspace),
            0x2B => Some(Key::Tab),
            0x2C => Some(Key::Space),
            0x2D => Some(Key::Unicode('-')),
            0x2E => Some(Key::Unicode('=')),
            0x2F => Some(Key::Unicode('[')),
            0x30 => Some(Key::Unicode(']')),
            0x31 => Some(Key::Unicode('\\')),
            0x33 => Some(Key::Unicode(';')),
            0x34 => Some(Key::Unicode('\'')),
            0x36 => Some(Key::Unicode(',')),
            0x37 => Some(Key::Unicode('.')),
            0x38 => Some(Key::Unicode('/')),
            0xE0 => Some(Key::Control),
            0xE1 => Some(Key::Shift),
            0xE2 => Some(Key::Alt),
            _ => None,
        }
    }
}

pub fn hid_to_key(hid: u8) -> (r: Option<Key>)
    ensures
        r == hid_key(hid),
{
    if 0x04 <= hid && hid <= 0x1D {
        let c = (0x61u8 + (hid - 0x04)) as char;
        assert(c == (('a' as int) + (hid - 0x04)) as char);
        Some(Key::Unicode(c))
    } else if 0x1E <= hid && hid <= 0x26 {
        let c = (0x31u8 + (hid - 0x1E)) as char;
        assert(c == (('1' as int) + (hid - 0x1E)) as char);
        Some(Key::Unicode(c))
    } else {
        match hid {
            0x27 => Some(Key::Unicode('0')),
            0x28 => Some(Key::Return),
            0x29 => Some(Key::Escape),
            0x2A => Some(Key::Backspace),
            0x2B => Some(Key::Tab),
            0x2C => Some(Key::Space),
            0x2D => Some(Key::Unicode('-')),
            0x2E => Some(Key::Unicode('=')),
            0x2F => Some(Key::Unicode('[')),
            0x30 => Some(Key::Unicode(']')),
            0x31 => Some(Key::Unicode('\\')),
            0x33 => Some(Key::Unicode(';')),
            0x34 => Some(Key::Unicode('\'')),
            0x36 => Some(Key::Unicode(',')),
            0x37 => Some(Key::Unicode('.')),
            0x38 => Some(Key::Unicode('/')),
            0xE0 => Some(Key::Control),
            0xE1 => Some(Key::Shift),
            0xE2 => Some(Key::Alt),
            _ => None,
        }
    }
}

/// Whether a HID modifier mask holds a shift key (left: bit 1, right: bit 5).
pub open spec fn has_shift(modifier: u8) -> bool {
    modifier & 0x02 != 0 || modifier & 0x20 != 0
}

/// Host-injection backend. The host API holds one key at a time: key-up
/// releases the last key pressed, and always releases shift as well.
pub struct SoftwareDriver {
    pub screen_w: u16,
    pub screen_h: u16,
    pub last_key: Option<Key>,
    /// Injection calls queued for the host, oldest first.
    pub outbox: Vec<Injection>,
}

impl SoftwareDriver {
    /// The injection calls of one command, given the last key pressed.
    pub open spec fn command_injections(&self, cmd: Command) -> Seq<Injection> {
        match cmd {
            Command::Heartbeat | Command::SwitchIdentity(_) => Seq::empty(),
            Command::MouseAbs(x, y) => seq![Injection::MoveAbs(x as i32, y as i32)],
            Command::MouseMove(dx, dy, w) => seq![Injection::MoveRel(dx, dy)] + if w != 0 {
                seq![Injection::Scroll(w as i32)]
            } else {
                Seq::empty()
            },
            Command::MouseDown(l, r) => (if l {
                seq![Injection::Button(MouseButton::Left, Direction::Press)]
            } else {
                Seq::empty()
            }) + (if r {
                seq![Injection::Button(MouseButton::Right, Direction::Press)]
            } else {
                Seq::empty()
            }),
            Command::MouseUp => seq![
                Injection::Button(MouseButton::Left, Direction::Release),
                Injection::Button(MouseButton::Right, Direction::Release),
            ],
            Command::KeyDown(k, m) => (if has_shift(m) {
                seq![Injection::Key(Key::Shift, Direction::Press)]
            } else {
                Seq::empty()
            }) + match hid_key(k) {
                Some(key) => seq![Injection::Key(key, Direction::Press)],
                None => Seq::empty(),
            },
            Command::KeyUp => match self.last_key {
                Some(key) => seq![
                    Injection::Key(key, Direction::Release),
                    Injection::Key(Key::Shift, Direction::Release),
                ],
                None => seq![Injection::Key(Key::Shift, Direction::Release)],
            },
        }
    }

    /// The key held after one command.
    pub open spec fn next_last_key(&self, cmd: Command) -> Option<Key> {
        match cmd {
            Command::KeyDown(k, _) => match hid_key(k) {
                Some(key) => Some(key),
                None => self.last_key,
            },
            Command::KeyUp => None,
            _ => self.last_key,
        }
    }

    /// The driver after `cmd`: same screen, its injection calls queued, the
    /// held key updated.
    pub open spec fn performed(&self, after: &Self, cmd: Command) -> bool {
        &&& after.screen_w == self.screen_w
        &&& after.screen_h == self.screen_h
        &&& after.last_key == self.next_last_key(cmd)
        &&& after.outbox@ == self.outbox@ + self.command_injections(cmd)
    }

    pub fn new(screen_w: u16, screen_h: u16) -> (r: Self)
        ensures
            r.screen_w == screen_w,
            r.screen_h == screen_h,
            r.last_key.is_none(),
            r.outbox@.len() == 0,
    {
        SoftwareDriver { screen_w, screen_h, last_key: None, outbox: Vec::new() }
    }

    /// Hands over the queued injection calls, oldest first, and empties the
    /// queue.
    pub fn take_injections(&mut self) -> (r: Vec<Injection>)
        ensures
            r@ == old(self).outbox@,
            final(self).outbox@.len() == 0,
            final(self).last_key == old(self).last_key,
            final(self).screen_w == old(self).screen_w,
            final(self).screen_h == old(self).screen_h,
    {
        let mut out: Vec<Injection> = Vec::new();
        core::mem::swap(&mut out, &mut self.outbox);
        out
    }

    /// Performs one command.
    pub fn apply(&mut self, cmd: Command)
        ensures
            old(self).performed(final(self), cmd),
    {
        match cmd {
            Command::Heartbeat => self.heartbeat(),
            Command::MouseAbs(x, y) => self.mouse_abs(x, y),
            Command::MouseMove(dx, dy, w) => self.mouse_move(dx, dy, w),
            Command::MouseDown(l, r) => self.mouse_down(l, r),
            Command::MouseUp => self.mouse_up(),
            Command::KeyDown(k, m) => self.key_down(k, m),
            Command::KeyUp => self.key_up(),
            Command::SwitchIdentity(i) => self.switch_identity(i),
        }
    }
}

impl InputDriver for SoftwareDriver {
    fn heartbeat(&mut self)
        ensures
            old(self).performed(final(self), Command::Heartbeat),
    {
        assert(self.outbox@ =~= self.outbox@ + Seq::<Injection>::empty());
    }

    fn switch_identity(&mut self, index: u8)
        ensures
            old(self).performed(final(self), Command::SwitchIdentity(index)),
    {
        assert(self.outbox@ =~= self.outbox@ + Seq::<Injection>::empty());
    }

    fn mouse_abs(&mut self, x: u16, y: u16)
        ensures
            old(self).performed(final(self), Command::MouseAbs(x, y)),
    {
        self.outbox.push(Injection::MoveAbs(x as i32, y as i32));
        assert(self.outbox@ =~= old(self).outbox@ + old(self).command_injections(
            Command::MouseAbs(x, y),
        ));
    }

    fn mouse_move(&mut self, dx: i32, dy: i32, wheel: i8)
        ensures
            old(self).performed(final(self), Command::MouseMove(dx, dy, wheel)),
    {
        self.outbox.push(Injection::MoveRel(dx, dy));
        if wheel != 0 {
            self.outbox.push(Injection::Scroll(wheel as i32));
        }
        assert(self.outbox@ =~= old(self).outbox@ + old(self).command_injections(
            Command::MouseMove(dx, dy, wheel),
        ));
    }

    fn mouse_down(&mut self, left: bool, right: bool)
        ensures
            old(self).performed(final(self), Command::MouseDown(left, right)),
    {
        if left {
            self.outbox.push(Injection::Button(MouseButton::Left, Direction::Press));
        }
        if right {
            self.outbox.push(Injection::Button(MouseButton::Right, Direction::Press));
        }
        assert(self.outbox@ =~= old(self).outbox@ + old(self).command_injections(
            Command::MouseDown(left, right),
        ));
    }

    fn mouse_up(&mut self)
        ensures
            old(self).performed(final(self), Command::MouseUp),
    {
        self.outbox.push(Injection::Button(MouseButton::Left, Direction::Release));
        self.outbox.push(Injection::Button(MouseButton::Right, Direction::Release));
        assert(self.outbox@ =~= old(self).outbox@ + old(self).command_injections(
            Command::MouseUp,
        ));
    }

    fn key_down(&mut self, keycode: u8, modifier: u8)
        ensures
            old(self).performed(final(self), Command::KeyDown(keycode, modifier)),
    {
        if (modifier & 0x02) != 0 || (modifier & 0x20) != 0 {
            self.outbox.push(Injection::Key(Key::Shift, Direction::Press));
        }
        if let Some(key) = hid_to_key(keycode) {
            self.outbox.push(Injection::Key(key, Direction::Press));
            self.last_key = Some(key);
        }
        assert(self.outbox@ =~= old(self).outbox@ + old(self).command_injections(
            Command::KeyDown(keycode, modifier),
        ));
    }

    fn key_up(&mut self)
        ensures
            old(self).performed(final(self), Command::KeyUp),
    {
        if let Some(key) = self.last_key {
            self.outbox.push(Injection::Key(key, Direction::Release));
            self.last_key = None;
        }
        self.outbox.push(Injection::Key(Key::Shift, Direction::Release));
        assert(self.outbox@ =~= old(self).outbox@ + old(self).command_injections(Command::KeyUp));
    }
}

/// Which backend to build.
#[derive(Clone, Copy, Debug, PartialEq, Eq, Structural)]
pub enum DriverType {
    Hardware,
    Software,
}

/// One backend, chosen once at startup.
pub enum Driver {
    Hardware(HardwareDriver),
    Software(SoftwareDriver),
}

impl Driver {
    /// `after` is this driver once `cmd` has been performed by its backend.
    pub open spec fn performed(&self, after: &Self, cmd: Command) -> bool {
        match (self, after) {
            (Driver::Hardware(a), Driver::Hardware(b)) => a.performed(b, cmd),
            (Driver::Software(a), Driver::Software(b)) => a.performed(b, cmd),
            _ => false,
        }
    }

    /// Performs one command on the backend.
    pub fn apply(&mut self, cmd: Command)
        ensures
            old(self).performed(final(self), cmd),
    {
        match self {
            Driver::Hardware(d) => d.apply(cmd),
            Driver::Software(d) => d.apply(cmd),
        }
    }
}

impl InputDriver for Driver {
    fn heartbeat(&mut self)
        ensures
            old(self).performed(final(self), Command::Heartbeat),
    {
        self.apply(Command::Heartbeat)
    }

    fn mouse_abs(&mut self, x: u16, y: u16)
        ensures
            old(self).performed(final(self), Command::MouseAbs(x, y)),
    {
        self.apply(Command::MouseAbs(x, y))
    }

    fn mouse_move(&mut self, dx: i32, dy: i32, wheel: i8)
        ensures
            old(self).performed(final(self), Command::MouseMove(dx, dy, wheel)),
    {
        self.apply(Command::MouseMove(dx, dy, wheel))
    }

    fn mouse_down(&mut self, left: bool, right: bool)
        ensures
            old(self).performed(final(self), Command::MouseDown(left, right)),
    {
        self.apply(Command::MouseDown(left, right))
    }

    fn mouse_up(&mut self)
        ensures
            old(self).performed(final(self), Command::MouseUp),
    {
        self.apply(Command::MouseUp)
    }

    fn key_down(&mut self, keycode: u8, modifier: u8)
        ensures
            old(self).performed(final(self), Command::KeyDown(keycode, modifier)),
    {
        self.apply(Command::KeyDown(keycode, modifier))
    }

    fn key_up(&mut self)
        ensures
            old(self).performed(final(self), Command::KeyUp),
    {
        self.apply(Command::KeyUp)
    }

    fn switch_identity(&mut self, index: u8)
        ensures
            old(self).performed(final(self), Command::SwitchIdentity(index)),
    {
        self.apply(Command::SwitchIdentity(index))
    }
}

/// Builds the backend of the given type for a `screen_w` by `screen_h`
/// screen, with nothing queued.
pub fn create_driver(t: DriverType, screen_w: u16, screen_h: u16) -> (r: Driver)
    ensures
        match r {
            Driver::Hardware(d) => t == DriverType::Hardware && d.screen_w == screen_w && d.screen_h
                == screen_h && d.frames().len() == 0,
            Driver::Software(d) => t == DriverType::Software && d.screen_w == screen_w && d.screen_h
                == screen_h && d.last_key.is_none() && d.outbox@.len() == 0,
        },
{
    match t {
        DriverType::Hardware => Driver::Hardware(HardwareDriver::new(screen_w, screen_h)),
        DriverType::Software => Driver::Software(SoftwareDriver::new(screen_w, screen_h)),
    }
}

} // verus!
