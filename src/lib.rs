//! Screen-driven UI automation core: the wire protocol of the emulated input
//! device, the input drivers, the motion humanizer, scene recognition and the
//! navigation state machine.

pub mod protocol;
pub mod hardware;
pub mod text;
pub mod scene;
pub mod nav;
pub mod human;
pub mod daily_routine;
pub mod frame;
