use nzm_cmd::hardware::Command;
use nzm_cmd::human::{char_to_hid, Gesture, HumanDriver};

fn total_motion(g: &[Gesture]) -> (i64, i64) {
    let mut s = (0i64, 0i64);
    for x in g {
        if let Gesture::Input(Command::MouseMove(dx, dy, _)) = x {
            s.0 += *dx as i64;
            s.1 += *dy as i64;
        }
    }
    s
}

#[test]
fn move_to_lands_on_target_in_steps() {
    let mut h = HumanDriver::new(100, 100);
    let g = h.move_to(300, 50, 500);
    assert_eq!(g.len(), 100);
    assert_eq!(total_motion(&g), (200, -50));
    assert_eq!(g[1], Gesture::Pause(10));
    assert_eq!(h.cursor.x, 300);
    assert_eq!(h.cursor.y, 50);
    let moves = g.iter().filter(|x| matches!(x, Gesture::Input(_))).count();
    assert_eq!(moves, 50);
}

#[test]
fn short_move_still_takes_several_steps() {
    let mut h = HumanDriver::new(0, 0);
    let g = h.move_to(65535, 65535, 0);
    assert_eq!(g.len(), 10);
    assert_eq!(total_motion(&g), (65535, 65535));
    assert_eq!(g[1], Gesture::Pause(0));
}

#[test]
fn long_move_is_capped() {
    let mut h = HumanDriver::new(10, 10);
    let g = h.move_to(10, 10, 60_000);
    assert_eq!(g.len(), 200);
    assert_eq!(total_motion(&g), (0, 0));
    assert_eq!(g[1], Gesture::Pause(600));
}

#[test]
fn eased_path_starts_slow() {
    let mut h = HumanDriver::new(0, 0);
    let g = h.move_to(1000, 0, 100);
    // ten steps on a smoothstep curve: 28 after the first step
    assert_eq!(g[0], Gesture::Input(Command::MouseMove(28, 0, 0)));
}

#[test]
fn characters_resolve_to_hid_codes() {
    assert_eq!(char_to_hid('a'), Some((0x04, 0)));
    assert_eq!(char_to_hid('Z'), Some((0x1D, 0x02)));
    assert_eq!(char_to_hid('1'), Some((0x1E, 0)));
    assert_eq!(char_to_hid('0'), Some((0x27, 0)));
    assert_eq!(char_to_hid('\u{1B}'), Some((0x29, 0)));
    assert_eq!(char_to_hid(' '), Some((0x2C, 0)));
    assert_eq!(char_to_hid('?'), Some((0x38, 0x02)));
    assert_eq!(char_to_hid('é'), None);
}

#[test]
fn key_click_and_hold() {
    let h = HumanDriver::new(0, 0);
    assert_eq!(
        h.key_click('A'),
        vec![
            Gesture::Input(Command::KeyDown(0x04, 0x02)),
            Gesture::Pause(40),
            Gesture::Input(Command::KeyUp),
        ]
    );
    assert_eq!(h.key_hold('\u{1B}', 100)[1], Gesture::Pause(100));
    assert!(h.key_click('é').is_empty());
}

#[test]
fn type_text_spaces_characters() {
    let h = HumanDriver::new(0, 0);
    assert_eq!(
        h.type_text("ab", 100, &vec![5]),
        vec![
            Gesture::Input(Command::KeyDown(0x04, 0)),
            Gesture::Pause(40),
            Gesture::Input(Command::KeyUp),
            Gesture::Pause(105),
            Gesture::Input(Command::KeyDown(0x05, 0)),
            Gesture::Pause(40),
            Gesture::Input(Command::KeyUp),
            Gesture::Pause(100),
        ]
    );
    assert_eq!(h.type_text("é", 10, &vec![]), vec![Gesture::Pause(10)]);
}

#[test]
fn click_holds_then_releases() {
    let h = HumanDriver::new(0, 0);
    assert_eq!(
        h.click(true, false, 0),
        vec![
            Gesture::Input(Command::MouseDown(true, false)),
            Gesture::Pause(60),
            Gesture::Input(Command::MouseUp),
        ]
    );
    assert_eq!(h.click(false, true, u32::MAX)[1], Gesture::Pause(u32::MAX));
}

#[test]
fn scroll_one_notch_at_a_time() {
    let h = HumanDriver::new(0, 0);
    let g = h.scroll(-3);
    assert_eq!(g.len(), 6);
    assert_eq!(g[0], Gesture::Input(Command::MouseMove(0, 0, -1)));
    assert_eq!(g[1], Gesture::Pause(30));
    assert_eq!(h.scroll(2)[2], Gesture::Input(Command::MouseMove(0, 0, 1)));
    assert!(h.scroll(0).is_empty());
}
