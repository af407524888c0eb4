use nzm_cmd::hardware::{
    create_driver, hid_to_key, Command, Direction, Driver, DriverType, HardwareDriver, Injection,
    InputDriver, Key, MouseButton, SoftwareDriver,
};
use nzm_cmd::protocol::{abs_frame, key_down_frame, motion_frame, system_frame, CMD_HEARTBEAT};

#[test]
fn hardware_driver_queues_frames_in_order() {
    let mut d = HardwareDriver::new(1920, 1080);
    d.heartbeat();
    d.mouse_abs(0, 1080);
    d.mouse_move(-130, 0, 0);
    d.key_down(0x04, 0);
    let frames = d.take_frames();
    assert_eq!(
        frames,
        vec![
            system_frame(CMD_HEARTBEAT, 0),
            abs_frame(0, 1080, 1920, 1080),
            motion_frame(-127, 0),
            motion_frame(-3, 0),
            key_down_frame(0x04, 0),
        ]
    );
    assert!(d.take_frames().is_empty());
}

#[test]
fn hardware_mouse_up_and_key_up() {
    let mut d = HardwareDriver::new(800, 600);
    d.mouse_down(true, false);
    d.mouse_up();
    d.key_up();
    d.switch_identity(2);
    let f = d.take_frames();
    assert_eq!(f.len(), 4);
    assert_eq!(f[0][2], 1);
    assert_eq!(f[1][2..8], [0, 0, 0, 0, 0, 0]);
    assert_eq!(f[2][2..4], [0, 0x80]);
    assert_eq!(f[3][1..4], [0x04, 0x10, 2]);
}

#[test]
fn hid_codes_map_to_keys() {
    assert_eq!(hid_to_key(0x04), Some(Key::Unicode('a')));
    assert_eq!(hid_to_key(0x1D), Some(Key::Unicode('z')));
    assert_eq!(hid_to_key(0x1E), Some(Key::Unicode('1')));
    assert_eq!(hid_to_key(0x27), Some(Key::Unicode('0')));
    assert_eq!(hid_to_key(0x29), Some(Key::Escape));
    assert_eq!(hid_to_key(0x31), Some(Key::Unicode('\\')));
    assert_eq!(hid_to_key(0xE1), Some(Key::Shift));
    assert_eq!(hid_to_key(0x32), None);
    assert_eq!(hid_to_key(0x00), None);
}

#[test]
fn software_key_up_releases_last_key_and_shift() {
    let mut d = SoftwareDriver::new(1920, 1080);
    d.key_down(0x05, 0x20);
    d.key_up();
    d.key_up();
    assert_eq!(
        d.take_injections(),
        vec![
            Injection::Key(Key::Shift, Direction::Press),
            Injection::Key(Key::Unicode('b'), Direction::Press),
            Injection::Key(Key::Unicode('b'), Direction::Release),
            Injection::Key(Key::Shift, Direction::Release),
            Injection::Key(Key::Shift, Direction::Release),
        ]
    );
    assert_eq!(d.last_key, None);
}

#[test]
fn software_unknown_key_keeps_last_key() {
    let mut d = SoftwareDriver::new(1920, 1080);
    d.key_down(0x28, 0);
    d.key_down(0x32, 0);
    assert_eq!(d.last_key, Some(Key::Return));
}

#[test]
fn software_mouse_calls() {
    let mut d = SoftwareDriver::new(1920, 1080);
    d.heartbeat();
    d.switch_identity(1);
    d.mouse_abs(5, 6);
    d.mouse_move(1, -1, 2);
    d.mouse_down(true, true);
    d.mouse_up();
    assert_eq!(
        d.take_injections(),
        vec![
            Injection::MoveAbs(5, 6),
            Injection::MoveRel(1, -1),
            Injection::Scroll(2),
            Injection::Button(MouseButton::Left, Direction::Press),
            Injection::Button(MouseButton::Right, Direction::Press),
            Injection::Button(MouseButton::Left, Direction::Release),
            Injection::Button(MouseButton::Right, Direction::Release),
        ]
    );
}

#[test]
fn create_driver_picks_backend() {
    let mut d = create_driver(DriverType::Hardware, 1920, 1080);
    d.apply(Command::Heartbeat);
    match d {
        Driver::Hardware(mut h) => assert_eq!(h.take_frames().len(), 1),
        Driver::Software(_) => panic!("wrong backend"),
    }
    let mut s = create_driver(DriverType::Software, 1920, 1080);
    s.heartbeat();
    match s {
        Driver::Software(mut d) => assert!(d.take_injections().is_empty()),
        Driver::Hardware(_) => panic!("wrong backend"),
    }
}
