use nzm_cmd::protocol::{
    abs_frame, button_frame, encode_frame, key_down_frame, key_up_frame, motion_frame,
    push_move_frames, scale_abs, split_motion, system_frame, wheel_frame, EventType,
    CMD_HEARTBEAT, CMD_SET_ID,
};

#[test]
fn frame_layout_with_delay() {
    let f = encode_frame(EventType::System, [1, 2, 3, 4, 5, 6], 0x1234);
    assert_eq!(f, [0xAA, 0x04, 1, 2, 3, 4, 5, 6, 0x34, 0x12, 0x55]);
}

#[test]
fn heartbeat_and_identity_frames() {
    assert_eq!(
        system_frame(CMD_HEARTBEAT, 0),
        [0xAA, 0x04, 0xFF, 0, 0, 0, 0, 0, 0, 0, 0x55]
    );
    assert_eq!(
        system_frame(CMD_SET_ID, 3),
        [0xAA, 0x04, 0x10, 3, 0, 0, 0, 0, 0, 0, 0x55]
    );
}

#[test]
fn absolute_scaling_clamps_at_both_edges() {
    assert_eq!(scale_abs(0, 1920), 10);
    assert_eq!(scale_abs(1920, 1920), 32757);
    assert_eq!(scale_abs(1919, 1920), 32750);
    assert_eq!(scale_abs(2000, 1920), 32757);
    // 960 / 1920 * 32767 = 16383.5, rounded up.
    assert_eq!(scale_abs(960, 1920), 16384);
    // 100 / 1080 * 32767 = 3033.98...
    assert_eq!(scale_abs(100, 1080), 3034);
    assert_eq!(scale_abs(1, 65535), 10);
}

#[test]
fn absolute_scaling_on_zero_extent() {
    assert_eq!(scale_abs(0, 0), 10);
    assert_eq!(scale_abs(5, 0), 32757);
}

#[test]
fn absolute_scaling_stays_in_range_across_the_screen() {
    for x in 0..=1920u16 {
        let t = scale_abs(x, 1920);
        assert!((10..=32757).contains(&t));
    }
}

#[test]
fn absolute_frame_bytes() {
    let f = abs_frame(960, 0, 1920, 1080);
    // tx = 16384 = 0x4000, ty = 10
    assert_eq!(f, [0xAA, 0x03, 0, 0, 0x00, 0x40, 10, 0, 0, 0, 0x55]);
}

#[test]
fn split_motion_fragments_large_deltas() {
    let steps = split_motion(300, -200);
    assert_eq!(steps, vec![(127, -127), (127, -73), (46, 0)]);
    let sx: i32 = steps.iter().map(|s| s.0 as i32).sum();
    let sy: i32 = steps.iter().map(|s| s.1 as i32).sum();
    assert_eq!((sx, sy), (300, -200));
}

#[test]
fn split_motion_of_nothing_is_empty() {
    assert!(split_motion(0, 0).is_empty());
    assert_eq!(split_motion(5, -127), vec![(5, -127)]);
}

#[test]
fn split_motion_extreme_deltas_add_up() {
    for (dx, dy) in [(1000, 1), (-128, 128), (i32::MAX / 1000, -5000), (-70000, 3)] {
        let steps = split_motion(dx, dy);
        assert!(steps.iter().all(|s| (-127..=127).contains(&s.0) && (-127..=127).contains(&s.1)));
        let sx: i64 = steps.iter().map(|s| s.0 as i64).sum();
        let sy: i64 = steps.iter().map(|s| s.1 as i64).sum();
        assert_eq!((sx, sy), (dx as i64, dy as i64));
    }
}

#[test]
fn motion_frame_encodes_signed_steps() {
    assert_eq!(
        motion_frame(-1, 127),
        [0xAA, 0x02, 0, 0, 0xFF, 0xFF, 127, 0, 0, 0, 0x55]
    );
}

#[test]
fn wheel_frame_encodes_signed_byte() {
    assert_eq!(wheel_frame(-5), [0xAA, 0x02, 0, 0xFB, 0, 0, 0, 0, 0, 0, 0x55]);
    assert_eq!(wheel_frame(3), [0xAA, 0x02, 0, 3, 0, 0, 0, 0, 0, 0, 0x55]);
}

#[test]
fn button_and_key_frames() {
    assert_eq!(button_frame(true, true)[2], 3);
    assert_eq!(button_frame(false, true)[2], 2);
    assert_eq!(button_frame(false, false), [0xAA, 0x02, 0, 0, 0, 0, 0, 0, 0, 0, 0x55]);
    assert_eq!(
        key_down_frame(0x04, 0x02),
        [0xAA, 0x01, 0x04, 0, 0x02, 0, 0, 0, 0, 0, 0x55]
    );
    assert_eq!(key_up_frame(), [0xAA, 0x01, 0, 0x80, 0, 0, 0, 0, 0, 0, 0x55]);
}

#[test]
fn move_frames_put_the_wheel_first() {
    let mut out = Vec::new();
    push_move_frames(&mut out, 200, 0, -1);
    assert_eq!(out.len(), 3);
    assert_eq!(out[0], wheel_frame(-1));
    assert_eq!(out[1], motion_frame(127, 0));
    assert_eq!(out[2], motion_frame(73, 0));
}
